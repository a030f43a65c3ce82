use vstd::prelude::*;
use crate::util::{COLON, UPPER_A, UPPER_Z, LOWER_A, LOWER_Z};
use crate::vm::{Tokn, TokenV};
use crate::util::{is_whitespace, is_alphanumeric, is_digit, is_alphabetic_uppercase, is_alphabetic_lowercase, is_token_end_delimiter};
use super::{State, ScanResult, ScanResultV, Scanner};
use super::options::{spec_push_into_mode, spec_push, spec_finish_into_mode, spec_finish, spec_go_ahead, spec_delimite_into_mode, spec_delimite, spec_next_char, spec_change_mode, push_into_mode, push, finish_into_mode, finish, go_ahead, delimite_into_mode, delimite, next_char, change_mode};

verus! {

/// Scans, without a dispatcher, a tag (an upper-case letter or `:`, then
/// letters and digits) or a name (a lower-case letter, then letters and
/// digits).
#[derive(Clone, Copy)]
pub struct AlphanumericScanner;

impl AlphanumericScanner {
    /// A character that can start a tag.
    pub fn is_first_otag_letter(&self, c: u8) -> (r: bool)
        ensures
            r == (is_alphabetic_uppercase(c) || c == COLON),
    {
        (c >= UPPER_A && c <= UPPER_Z) || self.is_otag_sign(c)
    }

    /// A sign that can start a tag.
    pub fn is_otag_sign(&self, c: u8) -> (r: bool)
        ensures
            r == (c == COLON),
    {
        c == COLON
    }

    /// A letter that can start a name.
    pub fn is_first_name_letter(&self, c: u8) -> (r: bool)
        ensures
            r == is_alphabetic_lowercase(c),
    {
        c >= LOWER_A && c <= LOWER_Z
    }
}

impl Scanner for AlphanumericScanner {
    open spec fn spec_scan(&self, state: State, c: u8) -> ScanResultV {
        match state {
            State::Normal => if is_alphabetic_uppercase(c) || c == COLON {
                spec_push_into_mode(State::InnerOtag)
            } else if is_alphabetic_lowercase(c) {
                spec_push_into_mode(State::InnerName)
            } else {
                spec_go_ahead()
            },
            State::InnerOtag | State::InnerName => if c == 0 || is_whitespace(c) {
                spec_finish()
            } else if is_alphanumeric(c) {
                spec_push()
            } else {
                ScanResultV::Error
            },
            _ => spec_go_ahead(),
        }
    }

    open spec fn spec_return_token(&self, state: State, token: Seq<char>) -> Option<TokenV> {
        match state {
            State::InnerOtag => Some(TokenV::Otag(token)),
            State::InnerName => Some(TokenV::Chvc(token)),
            _ => None,
        }
    }

    fn scan(&self, state: State, c: u8) -> (r: ScanResult) {
        match state {
            State::Normal => if self.is_first_otag_letter(c) {
                push_into_mode(State::InnerOtag)
            } else if self.is_first_name_letter(c) {
                push_into_mode(State::InnerName)
            } else {
                go_ahead()
            },
            State::InnerOtag | State::InnerName => if c == 0 || is_whitespace(c) {
                finish()
            } else if is_alphanumeric(c) {
                push()
            } else {
                ScanResult::Error
            },
            _ => go_ahead(),
        }
    }

    fn return_token(&self, state: State, token_string: String) -> (r: Option<Tokn>) {
        match state {
            State::InnerOtag => Some(Tokn::Otag(token_string)),
            State::InnerName => Some(Tokn::Chvc(token_string)),
            _ => None,
        }
    }
}

} // verus!
