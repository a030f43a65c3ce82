use vstd::prelude::*;
use crate::lexer;

verus! {

/// Why a program could not be parsed.  The numbers are token positions.
#[derive(Clone, Copy, PartialEq, Eq, Debug, Structural)]
pub enum Error {
    /// `'` is not followed by a tag.
    TpiqSingle(usize),
    /// `|` is not followed by a tag or by another `|`.
    Tpiq(usize),
    /// `^` is not followed by a tag or by `[`.
    Mpiq(usize),
    /// A literal (`;`, a text, a name or a number) was expected here.
    Expression(usize),
    /// The `"` here does not start a text followed by a closing `"`.
    Text(usize),
    /// The number here does not fit in 64 bits.
    Number(usize),
    /// The token here is not the one that this construct starts with.
    Unexpected(usize),
    /// The lexer could not read the input.
    Lexer(lexer::Error),
    /// The machine cannot hold another node.
    Full,
}

} // verus!
