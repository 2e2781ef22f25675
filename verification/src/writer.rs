//! The writer that defers colour changes until text follows them.

use termcolor::Buffer;
use vstd::prelude::*;
use vstd::utf8::encode_utf8;

use crate::kind::{control_code, TokenKind};
use crate::sink::{reset, set_intense, sink_bytes, sink_colored, write_all};

verus! {

/// What a writer is, seen from outside: the bytes that its sink holds,
/// whether that sink colours, the kind asked for, and the kind that the sink
/// was last switched to.
pub struct WriterState {
    pub colored: bool,
    pub bytes: Seq<u8>,
    pub kind: TokenKind,
    pub applied: TokenKind,
}

impl WriterState {
    /// A control sequence is due before the next text exactly when the kind
    /// asked for is not the one that the sink was last switched to.
    pub open spec fn deferred(self) -> bool {
        self.kind != self.applied
    }

    /// Asking for a kind changes nothing but the kind asked for.
    pub open spec fn with_kind(self, kind: TokenKind) -> WriterState {
        WriterState { kind, ..self }
    }

    /// The bytes that writing `text` appends: the control sequence of the
    /// kind asked for where one is due, then the text in UTF-8. Empty text
    /// appends nothing.
    pub open spec fn appended(self, text: Seq<char>) -> Seq<u8> {
        if text.len() == 0 {
            Seq::empty()
        } else if self.deferred() {
            control_code(self.colored, self.kind) + encode_utf8(text)
        } else {
            encode_utf8(text)
        }
    }

    /// The state after writing `text`. Empty text leaves the state as it is,
    /// a pending change of kind included.
    pub open spec fn written(self, text: Seq<char>) -> WriterState {
        if text.len() == 0 {
            self
        } else {
            WriterState { bytes: self.bytes + self.appended(text), applied: self.kind, ..self }
        }
    }
}

/// Two texts of one kind, one after the other, share one control sequence:
/// it stands before the first text, and only if the sink was not in that
/// kind already. Nothing stands between the two texts.
pub proof fn lemma_same_kind_twice(
    state: WriterState,
    kind: TokenKind,
    first: Seq<char>,
    second: Seq<char>,
)
    requires
        first.len() > 0,
        second.len() > 0,
    ensures
        state.with_kind(kind).written(first).with_kind(kind).written(second).bytes == state.bytes
            + (if kind != state.applied {
            control_code(state.colored, kind)
        } else {
            Seq::empty()
        }) + encode_utf8(first) + encode_utf8(second),
        state.with_kind(kind).written(first).with_kind(kind).written(second).bytes
            == state.with_kind(kind).written(first).bytes + encode_utf8(second),
{
    let once = state.with_kind(kind).written(first);
    let twice = once.with_kind(kind).written(second);
    assert(twice.bytes =~= once.bytes + encode_utf8(second));
    assert(once.bytes =~= state.bytes + (if kind != state.applied {
        control_code(state.colored, kind)
    } else {
        Seq::empty()
    }) + encode_utf8(first));
}

/// Writing empty text appends nothing, and what is written next comes out
/// as if the empty text had never been written: a control sequence that is
/// due for it is still emitted.
pub proof fn lemma_empty_write(
    state: WriterState,
    kind: TokenKind,
    next: TokenKind,
    text: Seq<char>,
)
    ensures
        state.with_kind(kind).written(Seq::empty()).bytes == state.bytes,
        state.with_kind(kind).written(Seq::empty()).applied == state.applied,
        state.with_kind(kind).written(Seq::empty()).with_kind(next).written(text)
            == state.with_kind(next).written(text),
{
}

/// A writer over an in-memory sink that switches the sink's colour only when
/// text of another kind is about to be written.
pub struct ColoredWriter {
    writer: Buffer,
    kind: TokenKind,
    applied: TokenKind,
}

impl View for ColoredWriter {
    type V = WriterState;

    closed spec fn view(&self) -> WriterState {
        WriterState {
            colored: sink_colored(self.writer),
            bytes: sink_bytes(self.writer),
            kind: self.kind,
            applied: self.applied,
        }
    }
}

impl ColoredWriter {
    /// A writer over `writer`. What the sink already holds stays in front;
    /// the sink is taken to show text without colour, so the first
    /// uncoloured text is preceded by no control sequence.
    pub fn new(writer: Buffer) -> (r: Self)
        ensures
            r@ == (WriterState {
                colored: sink_colored(writer),
                bytes: sink_bytes(writer),
                kind: TokenKind::Plain,
                applied: TokenKind::Plain,
            }),
    {
        ColoredWriter { writer, kind: TokenKind::Plain, applied: TokenKind::Plain }
    }

    /// Records the kind of the text that comes next. Nothing is written.
    pub fn set_kind(&mut self, kind: TokenKind) -> (r: &mut Self)
        ensures
            r@ == old(self)@.with_kind(kind),
            *final(self) == *final(r),
    {
        self.kind = kind;
        self
    }

    /// Writes `string`, preceded by the control sequence of the current kind
    /// if the sink is not in that kind already. An empty string writes
    /// nothing and leaves a pending change of kind pending.
    pub fn write(&mut self, string: &str) -> (r: Result<(), std::io::Error>)
        ensures
            r is Ok,
            final(self)@ == old(self)@.written(string@),
    {
        if string.is_empty() {
            return Ok(());
        }
        if self.kind != self.applied {
            match self.kind.hue() {
                None => reset(&mut self.writer)?,
                Some(hue) => set_intense(&mut self.writer, hue)?,
            }
            self.applied = self.kind;
        }
        let r = write_all(&mut self.writer, string.as_bytes());
        assert(self@.bytes =~= old(self)@.bytes + old(self)@.appended(string@));
        r
    }

    /// Gives the sink back, with everything that was written to it.
    pub fn into_inner(self) -> (r: Buffer)
        ensures
            sink_bytes(r) == self@.bytes,
            sink_colored(r) == self@.colored,
    {
        self.writer
    }
}

} // verus!
