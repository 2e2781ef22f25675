//! Token kinds and the colour-control sequences that announce them.

use vstd::prelude::*;

verus! {

/// The semantic class of a span of output text. It selects the colour in
/// which the span is shown and nothing else.
#[derive(Copy, Clone, PartialEq, Eq, Structural, Debug)]
pub enum TokenKind {
    /// Punctuation, separators and text passed through: no colour.
    Plain,
    /// The key of an object member.
    Key,
    /// A number, a boolean or `null`.
    Value,
    /// The content of a string.
    String,
}

/// The foreground colours in use, each shown in its intense variant.
#[derive(Copy, Clone, PartialEq, Eq, Structural, Debug)]
pub enum Hue {
    Yellow,
    Green,
    Cyan,
}

/// The colour of a kind; `None` for the kind that is shown without colour.
pub open spec fn hue_of(kind: TokenKind) -> Option<Hue> {
    match kind {
        TokenKind::Plain => None,
        TokenKind::Key => Some(Hue::Yellow),
        TokenKind::Value => Some(Hue::Green),
        TokenKind::String => Some(Hue::Cyan),
    }
}

/// The sequence that returns a terminal to its default rendition:
/// `ESC [ 0 m`.
pub open spec fn reset_code() -> Seq<u8> {
    seq![0x1bu8, 0x5bu8, 0x30u8, 0x6du8]
}

/// The two decimal digits under which a hue is selected from the 256-colour
/// palette: 11 for yellow, 10 for green, 14 for cyan.
pub open spec fn palette_digits(hue: Hue) -> Seq<u8> {
    match hue {
        Hue::Yellow => seq![0x31u8, 0x31u8],
        Hue::Green => seq![0x31u8, 0x30u8],
        Hue::Cyan => seq![0x31u8, 0x34u8],
    }
}

/// The sequence that selects one intense foreground colour:
/// `ESC [ 3 8 ; 5 ; n m` with the hue's palette digits for `n`.
pub open spec fn foreground_code(hue: Hue) -> Seq<u8> {
    seq![0x1bu8, 0x5bu8, 0x33u8, 0x38u8, 0x3bu8, 0x35u8, 0x3bu8] + palette_digits(hue)
        + seq![0x6du8]
}

/// What a colouring sink receives when a hue is switched on: a reset, so
/// that nothing of the former rendition stays, then the colour itself.
pub open spec fn intense_code(hue: Hue) -> Seq<u8> {
    reset_code() + foreground_code(hue)
}

/// The bytes that announce a kind on a sink. A sink that does not colour
/// receives nothing at all.
pub open spec fn control_code(colored: bool, kind: TokenKind) -> Seq<u8> {
    if !colored {
        Seq::empty()
    } else {
        match hue_of(kind) {
            None => reset_code(),
            Some(hue) => intense_code(hue),
        }
    }
}

impl TokenKind {
    /// The colour in which text of this kind is shown.
    pub fn hue(self) -> (r: Option<Hue>)
        ensures
            r == hue_of(self),
    {
        match self {
            TokenKind::Plain => None,
            TokenKind::Key => Some(Hue::Yellow),
            TokenKind::Value => Some(Hue::Green),
            TokenKind::String => Some(Hue::Cyan),
        }
    }
}

} // verus!
