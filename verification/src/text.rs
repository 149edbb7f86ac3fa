//! Reading lines as events from a text input.

use vstd::prelude::*;
use crate::reader::{lemma_span_bounds, span, ByteReader, CR, LF};
use crate::select::{
    bare_advance, bare_answer, bare_start, bare_step, Action, Bare, Phase, Signal,
};
use crate::{BareEvent, Error, SeqNo};

verus! {

/// A single line as a byte sequence.
pub type Event = BareEvent;

/// A line without its ending: a final line feed is taken off, and with it
/// the carriage return before it, if there is one.
pub open spec fn chomp(line: Seq<u8>) -> Seq<u8> {
    if line.len() > 0 && line.last() == LF {
        let body = line.drop_last();
        if body.len() > 0 && body.last() == CR {
            body.drop_last()
        } else {
            body
        }
    } else {
        line
    }
}

/// The lines of a text, without their endings. Each line feed ends a line;
/// what follows the last one is a line too, unless it is empty.
pub open spec fn lines(text: Seq<u8>) -> Seq<Seq<u8>>
    decreases text.len(),
{
    if text.len() == 0 {
        Seq::empty()
    } else {
        let n = span(text, LF);
        proof {
            lemma_span_bounds(text, LF);
        }
        seq![chomp(text.take(n as int))] + lines(text.skip(n as int))
    }
}

/// A text has no more lines than bytes.
pub proof fn lemma_lines_len(text: Seq<u8>)
    ensures
        lines(text).len() <= text.len(),
        text.len() > 0 ==> lines(text).len() > 0,
    decreases text.len(),
{
    if text.len() > 0 {
        lemma_span_bounds(text, LF);
        lemma_lines_len(text.skip(span(text, LF) as int));
    }
}

/// Takes the ending off a line.
pub fn strip(line: &mut Vec<u8>)
    ensures
        final(line)@ == chomp(old(line)@),
{
    if line.len() > 0 && line[line.len() - 1] == LF {
        line.pop();
        if line.len() > 0 && line[line.len() - 1] == CR {
            line.pop();
        }
    }
}

/// Reads the next line, without its ending, or nothing at the end of the
/// text.
pub fn read_line(reader: &mut ByteReader) -> (line: Option<Vec<u8>>)
    ensures
        match line {
            Some(bytes) => {
                &&& lines(old(reader).remaining()).len() > 0
                &&& bytes@ == lines(old(reader).remaining())[0]
                &&& lines(final(reader).remaining()) == lines(
                    old(reader).remaining(),
                ).drop_first()
            },
            None => {
                &&& lines(old(reader).remaining()).len() == 0
                &&& final(reader).remaining() == old(reader).remaining()
            },
        },
{
    let ghost rest = reader.remaining();
    let mut line: Vec<u8> = Vec::new();
    let n = reader.read_until(LF, &mut line);
    proof {
        lemma_span_bounds(rest, LF);
        lemma_lines_len(rest);
    }
    if n == 0 {
        assert(rest.skip(0) == rest);
        None
    } else {
        assert(line@ == rest.take(n as int));
        strip(&mut line);
        assert(lines(rest).drop_first() == lines(rest.skip(n as int)));
        Some(line)
    }
}

/// Event reader for a text input.
pub struct Input {
    buf: ByteReader,
    line_no: SeqNo,
    phase: Phase,
}

impl View for Input {
    type V = Bare;

    closed spec fn view(&self) -> Bare {
        Bare { frames: lines(self.buf.remaining()), next: self.line_no as nat + 1, phase: self.phase }
    }
}

impl Input {
    /// Creates a source that emits the lines of `read`, numbered from 1.
    pub fn with_read(read: ByteReader) -> (input: Self)
        ensures
            input@.frames == lines(read.remaining()),
            input@.next == 1,
            input@.phase is Idle,
            input@.wf(),
    {
        proof {
            lemma_lines_len(read.remaining());
        }
        let _ = read.len();
        Input { buf: read, line_no: 0, phase: Phase::Idle }
    }

    fn advance(&mut self) -> (action: Action<Event, ()>)
        requires
            old(self)@.wf(),
        ensures
            (final(self)@, action@) == bare_advance(old(self)@),
            final(self)@.wf(),
    {
        match read_line(&mut self.buf) {
            Some(raw) => {
                self.line_no = self.line_no + 1;
                self.phase = Phase::Offering;
                Action::Offer(BareEvent { raw, seq_no: self.line_no })
            },
            None => {
                self.phase = Phase::Draining;
                Action::Drain
            },
        }
    }
}

impl crate::Input for Input {
    type Data = Event;

    type Ack = SeqNo;

    type Request = ();

    type Reply = ();

    open spec fn wf(&self) -> bool {
        self@.wf()
    }

    /// Begins the run with the first line.
    fn start(&mut self) -> (action: Action<Event, ()>)
        ensures
            (final(self)@, action@) == bare_start(old(self)@),
    {
        match self.phase {
            Phase::Idle => self.advance(),
            _ => Action::Done(Err(Error::ChannelClosed)),
        }
    }

    /// Takes in how the last action ended and decides the next one.
    fn step(&mut self, signal: Signal<SeqNo, ()>) -> (action: Action<Event, ()>)
        ensures
            (final(self)@, action@) == bare_step(old(self)@, signal),
    {
        match bare_answer(&mut self.phase, signal) {
            Some(action) => action,
            None => self.advance(),
        }
    }
}

} // verus!
