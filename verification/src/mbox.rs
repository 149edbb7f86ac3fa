//! Reading emails as events from an mbox.
//!
//! An mbox is a text in which every mail begins with a line that starts with
//! `From `. The first line of the text has to be such a line. A mail is
//! everything between two such lines, or between the last one and the end.

use vstd::prelude::*;
use vstd::slice::slice_subrange;
use crate::reader::{lemma_span_bounds, span, ByteReader, LF};
use crate::select::{
    bare_advance, bare_answer, bare_start, bare_step, Action, Bare, Phase, Signal,
};
use crate::{BareEvent, Error, ErrorView, SeqNo};

verus! {

/// An email as a byte sequence.
pub type Event = BareEvent;

/// The bytes `From `, with which the first line of a mail starts.
pub open spec fn magic() -> Seq<u8> {
    seq![0x46u8, 0x72u8, 0x6fu8, 0x6du8, 0x20u8]
}

/// Whether `line` starts with the magic bytes.
pub open spec fn begins_mail(line: Seq<u8>) -> bool {
    magic().is_prefix_of(line)
}

/// The first line of `text`, with its line feed.
pub open spec fn first_line(text: Seq<u8>) -> Seq<u8> {
    text.take(span(text, LF) as int)
}

/// The length of the mail at the head of `text`: that of its lines before
/// the first line that begins another mail.
pub open spec fn body_len(text: Seq<u8>) -> nat
    decreases text.len(),
{
    if text.len() == 0 || begins_mail(first_line(text)) {
        0
    } else {
        proof {
            lemma_span_bounds(text, LF);
        }
        span(text, LF) + body_len(text.skip(span(text, LF) as int))
    }
}

/// The number of bytes that the mail at the head of `text` takes up, the
/// line that ends it included.
pub open spec fn mail_span(text: Seq<u8>) -> nat {
    body_len(text) + span(text.skip(body_len(text) as int), LF)
}

/// A mail ends within the text, and takes up at least one byte of a text
/// that is not empty.
pub proof fn lemma_mail_span(text: Seq<u8>)
    ensures
        body_len(text) <= text.len(),
        mail_span(text) <= text.len(),
        text.len() > 0 ==> mail_span(text) >= 1,
    decreases text.len(),
{
    lemma_span_bounds(text, LF);
    if text.len() == 0 || begins_mail(first_line(text)) {
        assert(text.skip(0) == text);
    } else {
        let n = span(text, LF);
        lemma_mail_span(text.skip(n as int));
        let b = body_len(text.skip(n as int));
        assert(text.skip(n as int).skip(b as int) == text.skip((n + b) as int));
        lemma_span_bounds(text.skip((n + b) as int), LF);
    }
}

/// The mails of a text that stands behind the first line of an mbox.
pub open spec fn mails(text: Seq<u8>) -> Seq<Seq<u8>>
    decreases text.len(),
{
    if text.len() == 0 {
        Seq::empty()
    } else {
        proof {
            lemma_mail_span(text);
        }
        seq![text.take(body_len(text) as int)] + mails(text.skip(mail_span(text) as int))
    }
}

/// A text has no more mails than bytes.
pub proof fn lemma_mails_len(text: Seq<u8>)
    ensures
        mails(text).len() <= text.len(),
        text.len() > 0 ==> mails(text).len() > 0,
    decreases text.len(),
{
    if text.len() > 0 {
        lemma_mail_span(text);
        lemma_mails_len(text.skip(mail_span(text) as int));
    }
}

/// The message of the error for a text that does not begin like an mbox.
pub open spec fn wrong_format() -> Seq<char> {
    "wrong format"@
}

/// Calls `tag` of `nom` on `pattern` and applies the parser to `input`. The
/// parser succeeds where `input` starts with `pattern`, and nowhere else.
#[verifier::external_body]
fn tag(pattern: &[u8], input: &[u8]) -> (matched: bool)
    ensures
        matched == pattern@.is_prefix_of(input@),
{
    nom::bytes::complete::tag::<_, _, nom::error::Error<&[u8]>>(pattern)(input).is_ok()
}

/// Tells whether `input` starts with the magic bytes.
pub fn mbox_magic(input: &[u8]) -> (found: bool)
    ensures
        found == begins_mail(input@),
{
    let pattern: [u8; 5] = [0x46, 0x72, 0x6f, 0x6d, 0x20];
    assert(pattern@ == magic());
    tag(pattern.as_slice(), input)
}

/// Reads the first line and checks that it begins a mail.
pub fn check_magic_number(reader: &mut ByteReader) -> (checked: Result<(), Error>)
    ensures
        final(reader).remaining() == old(reader).remaining().skip(
            span(old(reader).remaining(), LF) as int,
        ),
        match checked {
            Ok(_) => begins_mail(first_line(old(reader).remaining())),
            Err(e) => !begins_mail(first_line(old(reader).remaining())) && e@
                == ErrorView::InvalidMessage(wrong_format()),
        },
{
    let mut buf: Vec<u8> = Vec::new();
    let ghost text = reader.remaining();
    let n = reader.read_until(LF, &mut buf);
    assert(buf@ == text.take(n as int));
    if mbox_magic(buf.as_slice()) {
        Ok(())
    } else {
        Err(Error::InvalidMessage(String::from_str("wrong format")))
    }
}

/// Reads the next mail: the lines up to the next line that begins a mail,
/// which is read too and left out, or up to the end of the text. At the end
/// of the text there is no mail. Reading from memory never fails.
pub fn read_email(reader: &mut ByteReader) -> (mail: Result<Option<Vec<u8>>, Error>)
    ensures
        match mail {
            Ok(Some(bytes)) => {
                &&& old(reader).remaining().len() > 0
                &&& bytes@ == old(reader).remaining().take(body_len(old(reader).remaining()) as int)
                &&& final(reader).remaining() == old(reader).remaining().skip(
                    mail_span(old(reader).remaining()) as int,
                )
            },
            Ok(None) => {
                &&& old(reader).remaining().len() == 0
                &&& final(reader).remaining() == old(reader).remaining()
            },
            Err(_) => false,
        },
{
    let ghost text = reader.remaining();
    let mut buf: Vec<u8> = Vec::new();
    let mut cur: usize = 0;
    proof {
        assert(text.skip(0) == text);
        assert(text.take(0) == Seq::<u8>::empty());
    }
    loop
        invariant
            text == old(reader).remaining(),
            cur <= text.len(),
            buf@ == text.take(cur as int),
            reader.remaining() == text.skip(cur as int),
            body_len(text) == cur + body_len(text.skip(cur as int)),
        decreases text.len() - cur,
    {
        let ghost rest = reader.remaining();
        let bytes = reader.read_until(LF, &mut buf);
        proof {
            lemma_span_bounds(rest, LF);
            assert(text.take(cur as int) + rest.take(bytes as int) == text.take(cur + bytes));
            assert(rest.skip(bytes as int) == text.skip(cur + bytes));
        }
        if bytes == 0 {
            proof {
                assert(rest.len() == 0);
                assert(rest.skip(0) == rest);
                assert(cur == text.len());
                assert(buf@ == text.take(cur as int));
                assert(body_len(text) == cur);
                assert(mail_span(text) == cur);
            }
            if buf.len() == 0 {
                return Ok(None);
            }
            return Ok(Some(buf));
        }
        let line = slice_subrange(buf.as_slice(), cur, buf.len());
        assert(line@ == first_line(rest));
        if mbox_magic(line) {
            buf.truncate(cur);
            proof {
                assert(buf@ == text.take(cur as int));
                assert(body_len(rest) == 0);
                assert(mail_span(text) == cur + bytes);
            }
            return Ok(Some(buf));
        }
        assert(body_len(rest) == bytes + body_len(rest.skip(bytes as int)));
        cur += bytes;
    }
}

/// Event reader for an mbox input.
pub struct Input {
    buf: ByteReader,
    seq_no: SeqNo,
    phase: Phase,
}

impl View for Input {
    type V = Bare;

    closed spec fn view(&self) -> Bare {
        Bare { frames: mails(self.buf.remaining()), next: self.seq_no as nat + 1, phase: self.phase }
    }
}

impl Input {
    /// Creates a source that emits the mails of `read`, numbered from 1.
    ///
    /// # Errors
    ///
    /// Answers `InvalidMessage` if the first line of `read` does not begin a
    /// mail.
    pub fn with_read(read: ByteReader) -> (made: Result<Self, Error>)
        ensures
            match made {
                Ok(input) => {
                    &&& begins_mail(first_line(read.remaining()))
                    &&& input@.frames == mails(
                        read.remaining().skip(span(read.remaining(), LF) as int),
                    )
                    &&& input@.next == 1
                    &&& input@.phase is Idle
                    &&& input@.wf()
                },
                Err(e) => !begins_mail(first_line(read.remaining())) && e@
                    == ErrorView::InvalidMessage(wrong_format()),
            },
    {
        let mut buf = read;
        match check_magic_number(&mut buf) {
            Ok(_) => {
                proof {
                    lemma_mails_len(buf.remaining());
                }
                let _ = buf.len();
                Ok(Input { buf, seq_no: 0, phase: Phase::Idle })
            },
            Err(e) => Err(e),
        }
    }

    fn advance(&mut self) -> (action: Action<Event, ()>)
        requires
            old(self)@.wf(),
        ensures
            (final(self)@, action@) == bare_advance(old(self)@),
            final(self)@.wf(),
    {
        let ghost text = self.buf.remaining();
        proof {
            lemma_mail_span(text);
            lemma_mails_len(text);
        }
        match read_email(&mut self.buf) {
            Ok(Some(raw)) => {
                assert(mails(text).drop_first() == mails(text.skip(mail_span(text) as int)));
                self.seq_no = self.seq_no + 1;
                self.phase = Phase::Offering;
                Action::Offer(BareEvent { raw, seq_no: self.seq_no })
            },
            _ => {
                self.phase = Phase::Draining;
                Action::Drain
            },
        }
    }
}

impl crate::Input for Input {
    type Data = Event;

    type Ack = SeqNo;

    type Request = ();

    type Reply = ();

    open spec fn wf(&self) -> bool {
        self@.wf()
    }

    /// Begins the run with the first mail.
    fn start(&mut self) -> (action: Action<Event, ()>)
        ensures
            (final(self)@, action@) == bare_start(old(self)@),
    {
        match self.phase {
            Phase::Idle => self.advance(),
            _ => Action::Done(Err(Error::ChannelClosed)),
        }
    }

    /// Takes in how the last action ended and decides the next one.
    fn step(&mut self, signal: Signal<SeqNo, ()>) -> (action: Action<Event, ()>)
        ensures
            (final(self)@, action@) == bare_step(old(self)@, signal),
    {
        match bare_answer(&mut self.phase, signal) {
            Some(action) => action,
            None => self.advance(),
        }
    }
}

} // verus!
