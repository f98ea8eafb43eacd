//! Terminal styling of emitted lines.
//!
//! The styling itself is done by the `console` crate, which decides at each
//! call whether the process writes colours at all. The contracts here say what
//! a styled text looks like in either case.

use vstd::prelude::*;

verus! {

/// The escape character that opens a terminal control sequence.
pub const ESC: char = '\x1b';

/// Attribute digit of dimmed text.
pub const DIM: char = '2';

/// Attribute digit of italic text.
pub const ITALIC: char = '3';

/// Attribute digit that resets every attribute.
pub const RESET: char = '0';

/// The control sequence that switches on the attribute with digit `code`.
pub open spec fn escape(code: char) -> Seq<char> {
    seq![ESC, '[', code, 'm']
}

/// `text` between the sequence that switches `code` on and the reset.
pub open spec fn wrapped(code: char, text: Seq<char>) -> Seq<char> {
    escape(code) + text + escape(RESET)
}

/// `out` is a rendering of `text` with attribute `code`: the text wrapped in
/// control sequences where colours are on, the bare text where they are off.
pub open spec fn renders(code: char, text: Seq<char>, out: Seq<char>) -> bool {
    out == text || out == wrapped(code, text)
}

/// Styles `text` as dimmed, through `console::style(..).dim()` and its
/// `Display`. Trusted: `console` writes the text unchanged when colours are
/// disabled for the process, and otherwise puts `ESC [ 2 m` before it and
/// `ESC [ 0 m` after it. Which of the two happens is decided by `console`
/// from the environment, so the contract admits both.
#[verifier::external_body]
pub(crate) fn dim(text: &str) -> (out: String)
    ensures
        renders(DIM, text@, out@),
{
    console::style(text).dim().to_string()
}

/// Styles `text` as italic, through `console::style(..).italic()` and its
/// `Display`. Trusted: `console` writes the text unchanged when colours are
/// disabled for the process, and otherwise puts `ESC [ 3 m` before it and
/// `ESC [ 0 m` after it. Which of the two happens is decided by `console`
/// from the environment, so the contract admits both.
#[verifier::external_body]
pub(crate) fn italic(text: &str) -> (out: String)
    ensures
        renders(ITALIC, text@, out@),
{
    console::style(text).italic().to_string()
}

} // verus!
