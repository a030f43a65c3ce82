use vstd::prelude::*;
use super::State;

verus! {

/// Why the lexer could not produce a token.
#[derive(Clone, Copy, PartialEq, Eq, Debug, Structural)]
pub enum Error {
    /// A scanner rejected the character, or could not make a token of what it
    /// read: the state and the character.
    Invalid(State, u8),
    /// The bytes of the token are not valid UTF-8.
    InvalidUtf8(State),
    /// The input ended in a state that no scanner can leave.
    Stuck(State),
}

} // verus!
