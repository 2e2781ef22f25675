//! The in-memory sink that rendered lines are written to.
//!
//! The sink is `termcolor::Buffer`. Everything in this file is taken on
//! trust from that crate: the verifier reads none of its code.

use std::io::Write;
use termcolor::{Buffer, Color, ColorSpec, WriteColor};
use vstd::prelude::*;

use crate::kind::{intense_code, reset_code, Hue};

verus! {

/// `termcolor::Buffer`, known by name only: what it holds is spoken of
/// through `sink_bytes` and `sink_colored`.
#[verifier::external_type_specification]
#[verifier::external_body]
pub struct ExBuffer(termcolor::Buffer);

/// `std::io::Error`, known by name only.
#[verifier::external_type_specification]
#[verifier::external_body]
pub struct ExIoError(std::io::Error);

/// The bytes that a buffer holds, oldest first.
pub uninterp spec fn sink_bytes(sink: termcolor::Buffer) -> Seq<u8>;

/// Whether a buffer was made to embed ANSI escape sequences (`Buffer::ansi`)
/// or to drop every colour directive (`Buffer::no_color`).
pub uninterp spec fn sink_colored(sink: termcolor::Buffer) -> bool;

/// `WriteColor::reset` on a `Buffer`. A buffer that embeds escape sequences
/// appends `ESC [ 0 m`; one that drops colour appends nothing. The bytes go
/// to a vector in memory, so the call does not fail.
#[verifier::external_body]
pub(crate) fn reset(sink: &mut Buffer) -> (r: Result<(), std::io::Error>)
    ensures
        r is Ok,
        sink_colored(*final(sink)) == sink_colored(*old(sink)),
        sink_bytes(*final(sink)) == sink_bytes(*old(sink)) + (if sink_colored(*old(sink)) {
            reset_code()
        } else {
            Seq::empty()
        }),
{
    sink.reset()
}

/// `WriteColor::set_color` on a `Buffer`, with a `ColorSpec` that is new but
/// for its foreground colour and its intense flag. Such a specification asks
/// for a reset first, so a buffer that embeds escape sequences appends
/// `ESC [ 0 m` and then `ESC [ 3 8 ; 5 ; n m`, where `n` is 11 for yellow, 10
/// for green and 14 for cyan; one that drops colour appends nothing. The
/// call does not fail.
#[verifier::external_body]
pub(crate) fn set_intense(sink: &mut Buffer, hue: Hue) -> (r: Result<(), std::io::Error>)
    ensures
        r is Ok,
        sink_colored(*final(sink)) == sink_colored(*old(sink)),
        sink_bytes(*final(sink)) == sink_bytes(*old(sink)) + (if sink_colored(*old(sink)) {
            intense_code(hue)
        } else {
            Seq::empty()
        }),
{
    let color = match hue {
        Hue::Yellow => Color::Yellow,
        Hue::Green => Color::Green,
        Hue::Cyan => Color::Cyan,
    };
    sink.set_color(ColorSpec::new().set_fg(Some(color)).set_intense(true))
}

/// `io::Write::write_all` on a `Buffer`: the bytes are appended as they are,
/// whatever the buffer does with colour, and the call does not fail.
#[verifier::external_body]
pub(crate) fn write_all(sink: &mut Buffer, bytes: &[u8]) -> (r: Result<(), std::io::Error>)
    ensures
        r is Ok,
        sink_colored(*final(sink)) == sink_colored(*old(sink)),
        sink_bytes(*final(sink)) == sink_bytes(*old(sink)) + bytes@,
{
    sink.write_all(bytes)
}

} // verus!
