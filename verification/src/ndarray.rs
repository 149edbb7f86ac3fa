//! Assembling events from the rows of a matrix of byte strings.

use vstd::prelude::*;
use crate::queue::into_deque;
use crate::select::{
    bare_advance, bare_answer, bare_start, bare_step, Action, Bare, Phase, Signal,
};
use crate::Input as _;
use crate::{BareEvent, Error, SeqNo};

verus! {

/// A single row as a byte sequence.
pub type Event = BareEvent;

/// A matrix of byte strings: an `Array2` of `ndarray`, whose inside is not
/// looked at. What it holds is named by [`cells`].
#[verifier::external_body]
pub struct Matrix {
    cells: ndarray::Array2<Vec<u8>>,
}

/// The cells that a matrix holds, row by row.
pub uninterp spec fn cells(data: Matrix) -> Seq<Seq<Seq<u8>>>;

/// An axis length, with 1 in place of 0.
pub open spec fn nonzero(n: usize) -> int {
    if n == 0 {
        1
    } else {
        n as int
    }
}

/// Whether a matrix of this shape can be addressed: the product of its axis
/// lengths that are not zero does not pass `isize::MAX`.
pub open spec fn fits(nrows: usize, ncols: usize) -> bool {
    nonzero(nrows) * nonzero(ncols) <= isize::MAX
}

/// The rows of `ncols` cells each into which `flat` falls, taken in order.
pub open spec fn layout(flat: Seq<Vec<u8>>, nrows: usize, ncols: usize) -> Seq<Seq<Seq<u8>>> {
    Seq::new(nrows as nat, |i: int| Seq::new(ncols as nat, |j: int| flat[i * ncols + j]@))
}

/// The cells of rows that are held as vectors.
pub open spec fn grid(rows: Seq<Vec<Vec<u8>>>) -> Seq<Seq<Seq<u8>>> {
    rows.map_values(|row: Vec<Vec<u8>>| row@.map_values(|bytes: Vec<u8>| bytes@))
}

/// Whether all rows are as long as the first.
pub open spec fn rectangular(rows: Seq<Vec<Vec<u8>>>) -> bool {
    forall|i: int| 0 <= i < rows.len() ==> (#[trigger] rows[i])@.len() == rows[0]@.len()
}

/// Calls `Array2::from_shape_vec` with the shape `(nrows, ncols)`, which
/// lays `flat` out row by row. It succeeds where the shape can be addressed
/// and has as many cells as `flat`, and nowhere else.
#[verifier::external_body]
fn from_shape_vec(nrows: usize, ncols: usize, flat: Vec<Vec<u8>>) -> (made: Option<Matrix>)
    ensures
        match made {
            Some(matrix) => {
                &&& fits(nrows, ncols)
                &&& nrows * ncols == flat@.len()
                &&& cells(matrix) == layout(flat@, nrows, ncols)
            },
            None => !(fits(nrows, ncols) && nrows * ncols == flat@.len()),
        },
{
    match ndarray::Array2::from_shape_vec((nrows, ncols), flat) {
        Ok(cells) => Some(Matrix { cells }),
        Err(_) => None,
    }
}

impl Matrix {
    /// Builds a matrix from its rows. There is none where the rows differ
    /// in length, or where the shape cannot be addressed.
    pub fn from_rows(rows: Vec<Vec<Vec<u8>>>) -> (made: Option<Matrix>)
        ensures
            made is Some <==> rectangular(rows@) && fits(
                rows@.len() as usize,
                if rows@.len() == 0 {
                    0usize
                } else {
                    rows@[0]@.len() as usize
                },
            ),
            made matches Some(matrix) ==> cells(matrix) == grid(rows@),
    {
        let nrows = rows.len();
        let ncols = if nrows == 0 {
            0
        } else {
            rows[0].len()
        };
        let mut i: usize = 0;
        while i < nrows
            invariant
                nrows == rows@.len(),
                i <= nrows,
                nrows > 0 ==> ncols == rows@[0]@.len(),
                forall|k: int| 0 <= k < i ==> (#[trigger] rows@[k])@.len() == ncols,
            decreases nrows - i,
        {
            if rows[i].len() != ncols {
                return None;
            }
            i += 1;
        }
        let ghost all = rows@;
        let mut queue = into_deque(rows);
        let mut flat: Vec<Vec<u8>> = Vec::new();
        let mut k: usize = 0;
        assert(0 * ncols == 0) by (nonlinear_arith);
        while k < nrows
            invariant
                nrows == all.len(),
                k <= nrows,
                queue@ == all.skip(k as int),
                forall|r: int| 0 <= r < nrows ==> (#[trigger] all[r])@.len() == ncols,
                flat@.len() == k * ncols,
                forall|r: int, c: int|
                    0 <= r < k && 0 <= c < ncols ==> flat@[#[trigger] (r * ncols + c)] == all[r]@[c],
            decreases nrows - k,
        {
            let ghost before = flat@;
            match queue.pop_front() {
                Some(row) => {
                    let mut row = row;
                    assert(row == all[k as int]);
                    flat.append(&mut row);
                    proof {
                        assert((k + 1) * ncols == k * ncols + ncols) by (nonlinear_arith);
                        assert forall|r: int, c: int| 0 <= r < k + 1 && 0 <= c < ncols implies flat@[#[trigger] (
                        r * ncols + c)] == all[r]@[c] by {
                            if r < k {
                                assert(r * ncols + c < k * ncols) by (nonlinear_arith)
                                    requires
                                        0 <= r < k,
                                        0 <= c < ncols,
                                ;
                                assert(before[r * ncols + c] == all[r]@[c]);
                            } else {
                                assert(r * ncols + c == k * ncols + c);
                            }
                        }
                        assert(queue@ == all.skip(k + 1));
                    }
                },
                None => {},
            }
            k += 1;
        }
        let ghost flat_view = flat@;
        let made = from_shape_vec(nrows, ncols, flat);
        proof {
            assert(rectangular(all));
            if made is Some {
                assert forall|r: int| 0 <= r < nrows implies #[trigger] layout(
                    flat_view,
                    nrows,
                    ncols,
                )[r] == grid(all)[r] by {
                    assert(layout(flat_view, nrows, ncols)[r] =~= grid(all)[r]);
                }
                assert(layout(flat_view, nrows, ncols) =~= grid(all));
            }
        }
        made
    }
}

/// Calls `nrows`, the length of the first axis.
#[verifier::external_body]
fn nrows(data: &Matrix) -> (n: usize)
    ensures
        n == cells(*data).len(),
{
    data.cells.nrows()
}

/// Calls `ncols`, the length of the second axis, which every row has.
#[verifier::external_body]
fn ncols(data: &Matrix) -> (n: usize)
    ensures
        forall|row: int| 0 <= row < cells(*data).len() ==> (#[trigger] cells(*data)[row]).len() == n,
{
    data.cells.ncols()
}

/// Indexes the matrix, which hands out the cell at `(row, col)`.
#[verifier::external_body]
fn cell(data: &Matrix, row: usize, col: usize) -> (bytes: &Vec<u8>)
    requires
        row < cells(*data).len(),
        col < cells(*data)[row as int].len(),
    ensures
        bytes@ == cells(*data)[row as int][col as int],
{
    &data.cells[[row, col]]
}

/// The cells of a row, one after the other.
pub open spec fn join(row: Seq<Seq<u8>>) -> Seq<u8>
    decreases row.len(),
{
    if row.len() == 0 {
        Seq::empty()
    } else {
        join(row.drop_last()) + row.last()
    }
}

/// The rows of a matrix from row `first` on, each joined into one frame.
pub open spec fn rows_from(matrix: Seq<Seq<Seq<u8>>>, first: int) -> Seq<Seq<u8>> {
    Seq::new((matrix.len() - first) as nat, |k: int| join(matrix[first + k]))
}

/// Joins the cells of one row.
pub fn join_row(data: &Matrix, row: usize) -> (line: Vec<u8>)
    requires
        row < cells(*data).len(),
    ensures
        line@ == join(cells(*data)[row as int]),
{
    let width = ncols(data);
    let ghost the_row = cells(*data)[row as int];
    let mut line: Vec<u8> = Vec::new();
    let mut col: usize = 0;
    assert(the_row.take(0) == Seq::<Seq<u8>>::empty());
    while col < width
        invariant
            row < cells(*data).len(),
            the_row == cells(*data)[row as int],
            the_row.len() == width,
            col <= width,
            line@ == join(the_row.take(col as int)),
        decreases width - col,
    {
        let bytes = cell(data, row, col);
        line.extend_from_slice(bytes.as_slice());
        proof {
            let upto = the_row.take(col + 1);
            assert(upto.drop_last() == the_row.take(col as int));
            assert(upto.last() == the_row[col as int]);
        }
        col += 1;
    }
    assert(the_row.take(width as int) == the_row);
    line
}

/// Event reader for a matrix.
pub struct Input {
    data: Matrix,
    row: usize,
    phase: Phase,
}

impl View for Input {
    type V = Bare;

    closed spec fn view(&self) -> Bare {
        Bare {
            frames: rows_from(cells(self.data), self.row as int),
            next: self.row as nat,
            phase: self.phase,
        }
    }
}

impl Input {
    /// Creates a source that emits the rows of `data`, each numbered with
    /// its index.
    pub fn new(data: Matrix) -> (input: Self)
        ensures
            input@.frames == rows_from(cells(data), 0),
            input@.next == 0,
            input@.phase is Idle,
            input@.wf(),
            input.wf(),
    {
        let _ = nrows(&data);
        Input { data, row: 0, phase: Phase::Idle }
    }

    fn advance(&mut self) -> (action: Action<Event, ()>)
        requires
            old(self).wf(),
        ensures
            (final(self)@, action@) == bare_advance(old(self)@),
            final(self).wf(),
    {
        if self.row < nrows(&self.data) {
            let raw = join_row(&self.data, self.row);
            let seq_no = self.row as u64;
            proof {
                let matrix = cells(self.data);
                assert(rows_from(matrix, self.row as int).drop_first() == rows_from(
                    matrix,
                    self.row + 1,
                ));
            }
            self.row = self.row + 1;
            self.phase = Phase::Offering;
            Action::Offer(BareEvent { raw, seq_no })
        } else {
            self.phase = Phase::Draining;
            Action::Drain
        }
    }
}

impl crate::Input for Input {
    type Data = Event;

    type Ack = SeqNo;

    type Request = ();

    type Reply = ();

    closed spec fn wf(&self) -> bool {
        self.row <= cells(self.data).len()
    }

    /// Begins the run with the first row.
    fn start(&mut self) -> (action: Action<Event, ()>)
        ensures
            (final(self)@, action@) == bare_start(old(self)@),
    {
        match self.phase {
            Phase::Idle => self.advance(),
            _ => Action::Done(Err(Error::ChannelClosed)),
        }
    }

    /// Takes in how the last action ended and decides the next one.
    fn step(&mut self, signal: Signal<SeqNo, ()>) -> (action: Action<Event, ()>)
        ensures
            (final(self)@, action@) == bare_step(old(self)@, signal),
    {
        match bare_answer(&mut self.phase, signal) {
            Some(action) => action,
            None => self.advance(),
        }
    }
}

} // verus!
