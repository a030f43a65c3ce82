use vstd::prelude::*;
use crate::util::{BANG, HASH, PERCENT, SINGLE_QUOTE, FULL_STOP, COLON, EQUALS_SIGN, GREATER_THAN, QUESTION_MARK, AT_SIGN, UPPER_A, UPPER_Z, LEFT_BRACKET, BACKSLASH, CARET, VERTICAL_BAR, TILDE};
use crate::vm::{Tokn, TokenV};
use crate::util::{is_whitespace, is_alphanumeric, is_digit, is_alphabetic_uppercase, is_alphabetic_lowercase, is_token_end_delimiter};
use crate::text::text_eq;
use super::{State, ScanResult, ScanResultV, Scanner};
use super::options::{spec_push_into_mode, spec_push, spec_finish_into_mode, spec_finish, spec_go_ahead, spec_delimite_into_mode, spec_delimite, spec_next_char, spec_change_mode, push_into_mode, push, finish_into_mode, finish, go_ahead, delimite_into_mode, delimite, next_char, change_mode};

verus! {

/// A sign that can start a tag.
pub open spec fn spec_is_otag_sign(c: u8) -> bool {
    c == COLON || c == HASH || c == PERCENT || c == BACKSLASH || c == AT_SIGN || c == TILDE || c == GREATER_THAN
        || c == BANG || c == FULL_STOP || c == QUESTION_MARK || c == EQUALS_SIGN
}

/// A character that can start a tag: an upper-case letter or a tag sign.
pub open spec fn spec_is_first_otag_letter(c: u8) -> bool {
    is_alphabetic_uppercase(c) || spec_is_otag_sign(c)
}

/// A dispatcher character: `|`, `^` or `'`.
pub open spec fn spec_is_dispatcher(c: u8) -> bool {
    c == VERTICAL_BAR || c == CARET || c == SINGLE_QUOTE
}

/// Scans a dispatcher (`|`, `^` or `'`) and the tag that follows it, or the
/// `[` of `^[`.
#[derive(Clone, Copy)]
pub struct OtagScanner;

impl OtagScanner {
    /// A character that can start a tag.
    pub fn is_first_otag_letter(&self, c: u8) -> (r: bool)
        ensures
            r == spec_is_first_otag_letter(c),
    {
        (c >= UPPER_A && c <= UPPER_Z) || self.is_otag_sign(c)
    }

    /// A sign that can start a tag.
    pub fn is_otag_sign(&self, c: u8) -> (r: bool)
        ensures
            r == spec_is_otag_sign(c),
    {
        c == COLON || c == HASH || c == PERCENT || c == BACKSLASH || c == AT_SIGN || c == TILDE || c == GREATER_THAN
            || c == BANG || c == FULL_STOP || c == QUESTION_MARK || c == EQUALS_SIGN
    }
}

impl Scanner for OtagScanner {
    open spec fn spec_scan(&self, state: State, c: u8) -> ScanResultV {
        match state {
            State::Normal => if spec_is_dispatcher(c) {
                spec_push_into_mode(State::Dispatcher)
            } else {
                spec_go_ahead()
            },
            State::Dispatcher => if c == 0 {
                ScanResultV::Error
            } else {
                spec_delimite_into_mode(State::AfterDispatcher)
            },
            State::AfterDispatcher => if c == 0 {
                ScanResultV::Error
            } else if spec_is_dispatcher(c) {
                spec_push_into_mode(State::Dispatcher)
            } else if is_whitespace(c) {
                spec_change_mode(State::Normal)
            } else if spec_is_first_otag_letter(c) {
                spec_push_into_mode(State::InnerOtag)
            } else if c == LEFT_BRACKET {
                spec_push_into_mode(State::InnerSpecialOtag)
            } else {
                spec_go_ahead()
            },
            State::InnerSpecialOtag => if c == 0 {
                ScanResultV::Error
            } else {
                spec_delimite()
            },
            State::InnerOtag => if c == 0 || is_whitespace(c) {
                spec_finish()
            } else if is_token_end_delimiter(c) {
                spec_delimite()
            } else if is_alphanumeric(c) {
                spec_push()
            } else {
                ScanResultV::Error
            },
            _ => spec_go_ahead(),
        }
    }

    open spec fn spec_return_token(&self, state: State, token: Seq<char>) -> Option<TokenV> {
        match state {
            State::Dispatcher => if token == seq!['|'] {
                Some(TokenV::Pipe)
            } else if token == seq!['^'] {
                Some(TokenV::Crrt)
            } else if token == seq!['\''] {
                Some(TokenV::Sgqt)
            } else {
                None
            },
            State::InnerSpecialOtag => if token == seq!['['] {
                Some(TokenV::Lbkt)
            } else {
                None
            },
            State::InnerOtag => Some(TokenV::Otag(token)),
            _ => None,
        }
    }

    fn scan(&self, state: State, c: u8) -> (r: ScanResult) {
        let dispatcher = c == VERTICAL_BAR || c == CARET || c == SINGLE_QUOTE;
        match state {
            State::Normal => if dispatcher {
                push_into_mode(State::Dispatcher)
            } else {
                go_ahead()
            },
            State::Dispatcher => if c == 0 {
                ScanResult::Error
            } else {
                delimite_into_mode(State::AfterDispatcher)
            },
            State::AfterDispatcher => if c == 0 {
                ScanResult::Error
            } else if dispatcher {
                push_into_mode(State::Dispatcher)
            } else if is_whitespace(c) {
                change_mode(State::Normal)
            } else if self.is_first_otag_letter(c) {
                push_into_mode(State::InnerOtag)
            } else if c == LEFT_BRACKET {
                push_into_mode(State::InnerSpecialOtag)
            } else {
                go_ahead()
            },
            State::InnerSpecialOtag => if c == 0 {
                ScanResult::Error
            } else {
                delimite()
            },
            State::InnerOtag => if c == 0 || is_whitespace(c) {
                finish()
            } else if is_token_end_delimiter(c) {
                delimite()
            } else if is_alphanumeric(c) {
                push()
            } else {
                ScanResult::Error
            },
            _ => go_ahead(),
        }
    }

    fn return_token(&self, state: State, token_string: String) -> (r: Option<Tokn>) {
        proof {
            reveal_strlit("|");
            assert("|"@ =~= seq!['|']);
            reveal_strlit("^");
            assert("^"@ =~= seq!['^']);
            reveal_strlit("'");
            assert("'"@ =~= seq!['\'']);
            reveal_strlit("[");
            assert("["@ =~= seq!['[']);
        }
        match state {
            State::Dispatcher => if text_eq(&token_string, "|") {
                Some(Tokn::Pipe)
            } else if text_eq(&token_string, "^") {
                Some(Tokn::Crrt)
            } else if text_eq(&token_string, "'") {
                Some(Tokn::Sgqt)
            } else {
                None
            },
            State::InnerSpecialOtag => if text_eq(&token_string, "[") {
                Some(Tokn::Lbkt)
            } else {
                None
            },
            State::InnerOtag => Some(Tokn::Otag(token_string)),
            _ => None,
        }
    }
}

} // verus!
