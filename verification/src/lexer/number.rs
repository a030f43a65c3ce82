use vstd::prelude::*;
use crate::util::{HYPHEN, DIGIT_ZERO, DIGIT_ONE, DIGIT_NINE};
use crate::vm::{Tokn, TokenV};
use crate::util::{is_whitespace, is_alphanumeric, is_digit, is_alphabetic_uppercase, is_alphabetic_lowercase, is_token_end_delimiter};
use super::{State, ScanResult, ScanResultV, Scanner};
use super::options::{spec_push_into_mode, spec_push, spec_finish_into_mode, spec_finish, spec_go_ahead, spec_delimite_into_mode, spec_delimite, spec_next_char, spec_change_mode, push_into_mode, push, finish_into_mode, finish, go_ahead, delimite_into_mode, delimite, next_char, change_mode};

verus! {

/// Scans the number `0`.
#[derive(Clone, Copy)]
pub struct ZeroScanner;

impl Scanner for ZeroScanner {
    open spec fn spec_scan(&self, state: State, c: u8) -> ScanResultV {
        if state == State::Normal && c == DIGIT_ZERO {
            spec_push_into_mode(State::ZeroNumber)
        } else if state == State::ZeroNumber {
            if c == 0 || is_whitespace(c) {
                spec_finish()
            } else if is_token_end_delimiter(c) {
                spec_delimite()
            } else {
                ScanResultV::Error
            }
        } else {
            spec_go_ahead()
        }
    }

    open spec fn spec_return_token(&self, state: State, token: Seq<char>) -> Option<TokenV> {
        Some(TokenV::Nmbr(token))
    }

    fn scan(&self, state: State, c: u8) -> (r: ScanResult) {
        if state == State::Normal && c == DIGIT_ZERO {
            push_into_mode(State::ZeroNumber)
        } else if state == State::ZeroNumber {
            if c == 0 || is_whitespace(c) {
                finish()
            } else if is_token_end_delimiter(c) {
                delimite()
            } else {
                ScanResult::Error
            }
        } else {
            go_ahead()
        }
    }

    fn return_token(&self, state: State, token_string: String) -> (r: Option<Tokn>) {
        Some(Tokn::Nmbr(token_string))
    }
}

/// Scans a non-zero integer: an optional `-`, a digit from `1` to `9`, then
/// digits.
#[derive(Clone, Copy)]
pub struct IntegerScanner;

impl Scanner for IntegerScanner {
    open spec fn spec_scan(&self, state: State, c: u8) -> ScanResultV {
        match state {
            State::Normal => if DIGIT_ONE <= c && c <= DIGIT_NINE {
                spec_push_into_mode(State::InnerNumber)
            } else if c == HYPHEN {
                spec_push_into_mode(State::MinusSign)
            } else {
                spec_go_ahead()
            },
            State::MinusSign => if DIGIT_ONE <= c && c <= DIGIT_NINE {
                spec_push_into_mode(State::InnerNumber)
            } else {
                ScanResultV::Error
            },
            State::InnerNumber => if c == 0 || is_whitespace(c) {
                spec_finish()
            } else if is_token_end_delimiter(c) {
                spec_delimite()
            } else if is_digit(c) {
                spec_push()
            } else {
                ScanResultV::Error
            },
            _ => spec_go_ahead(),
        }
    }

    open spec fn spec_return_token(&self, state: State, token: Seq<char>) -> Option<TokenV> {
        Some(TokenV::Nmbr(token))
    }

    fn scan(&self, state: State, c: u8) -> (r: ScanResult) {
        match state {
            State::Normal => if DIGIT_ONE <= c && c <= DIGIT_NINE {
                push_into_mode(State::InnerNumber)
            } else if c == HYPHEN {
                push_into_mode(State::MinusSign)
            } else {
                go_ahead()
            },
            State::MinusSign => if DIGIT_ONE <= c && c <= DIGIT_NINE {
                push_into_mode(State::InnerNumber)
            } else {
                ScanResult::Error
            },
            State::InnerNumber => if c == 0 || is_whitespace(c) {
                finish()
            } else if is_token_end_delimiter(c) {
                delimite()
            } else if is_digit(c) {
                push()
            } else {
                ScanResult::Error
            },
            _ => go_ahead(),
        }
    }

    fn return_token(&self, state: State, token_string: String) -> (r: Option<Tokn>) {
        Some(Tokn::Nmbr(token_string))
    }
}

} // verus!
