use vstd::prelude::*;
use crate::util::{HYPHEN, LOWER_A, LOWER_Z};
use crate::vm::{Tokn, TokenV};
use crate::util::{is_whitespace, is_alphanumeric, is_digit, is_alphabetic_uppercase, is_alphabetic_lowercase, is_token_end_delimiter};
use super::{State, ScanResult, ScanResultV, Scanner};
use super::options::{spec_push_into_mode, spec_push, spec_finish_into_mode, spec_finish, spec_go_ahead, spec_delimite_into_mode, spec_delimite, spec_next_char, spec_change_mode, push_into_mode, push, finish_into_mode, finish, go_ahead, delimite_into_mode, delimite, next_char, change_mode};

verus! {

/// Scans a name: a lower-case letter, then letters, digits and `-`.
#[derive(Clone, Copy)]
pub struct AlphabetScanner;

impl AlphabetScanner {
    /// A letter that can start a name.
    pub fn is_first_name_letter(&self, c: u8) -> (r: bool)
        ensures
            r == is_alphabetic_lowercase(c),
    {
        c >= LOWER_A && c <= LOWER_Z
    }
}

impl Scanner for AlphabetScanner {
    open spec fn spec_scan(&self, state: State, c: u8) -> ScanResultV {
        match state {
            State::Normal => if is_alphabetic_lowercase(c) {
                spec_push_into_mode(State::InnerName)
            } else {
                spec_go_ahead()
            },
            State::InnerName => if c == 0 || is_whitespace(c) {
                spec_finish()
            } else if is_token_end_delimiter(c) {
                spec_delimite()
            } else if is_alphanumeric(c) || c == HYPHEN {
                spec_push()
            } else {
                ScanResultV::Error
            },
            _ => spec_go_ahead(),
        }
    }

    open spec fn spec_return_token(&self, state: State, token: Seq<char>) -> Option<TokenV> {
        match state {
            State::InnerName => Some(TokenV::Chvc(token)),
            _ => None,
        }
    }

    fn scan(&self, state: State, c: u8) -> (r: ScanResult) {
        match state {
            State::Normal => if self.is_first_name_letter(c) {
                push_into_mode(State::InnerName)
            } else {
                go_ahead()
            },
            State::InnerName => if c == 0 || is_whitespace(c) {
                finish()
            } else if is_token_end_delimiter(c) {
                delimite()
            } else if is_alphanumeric(c) || c == HYPHEN {
                push()
            } else {
                ScanResult::Error
            },
            _ => go_ahead(),
        }
    }

    fn return_token(&self, state: State, token_string: String) -> (r: Option<Tokn>) {
        match state {
            State::InnerName => Some(Tokn::Chvc(token_string)),
            _ => None,
        }
    }
}

} // verus!
