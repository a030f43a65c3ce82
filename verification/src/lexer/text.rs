use vstd::prelude::*;
use crate::util::{DOUBLE_QUOTE};
use crate::vm::{Tokn, TokenV};
use super::{State, ScanResult, ScanResultV, Scanner};
use super::options::{spec_push_into_mode, spec_push, spec_finish_into_mode, spec_finish, spec_go_ahead, spec_delimite_into_mode, spec_delimite, spec_next_char, spec_change_mode, push_into_mode, push, finish_into_mode, finish, go_ahead, delimite_into_mode, delimite, next_char, change_mode};

verus! {

/// Scans a text in double quotes: the opening quote, the characters between
/// the quotes, and the closing quote, as three tokens.
#[derive(Clone, Copy)]
pub struct TextScanner;

impl Scanner for TextScanner {
    open spec fn spec_scan(&self, state: State, c: u8) -> ScanResultV {
        match state {
            State::Normal => if c == DOUBLE_QUOTE {
                spec_finish_into_mode(State::InnerText)
            } else {
                spec_go_ahead()
            },
            State::InnerText => if c == 0 {
                ScanResultV::Error
            } else if c == DOUBLE_QUOTE {
                spec_delimite_into_mode(State::FinishText)
            } else {
                spec_push()
            },
            State::FinishText => if c == DOUBLE_QUOTE {
                spec_finish()
            } else {
                ScanResultV::Error
            },
            _ => spec_go_ahead(),
        }
    }

    open spec fn spec_return_token(&self, state: State, token: Seq<char>) -> Option<TokenV> {
        match state {
            State::Normal | State::FinishText => Some(TokenV::Dbqt),
            State::InnerText => Some(TokenV::Chvc(token)),
            _ => None,
        }
    }

    fn scan(&self, state: State, c: u8) -> (r: ScanResult) {
        match state {
            State::Normal => if c == DOUBLE_QUOTE {
                finish_into_mode(State::InnerText)
            } else {
                go_ahead()
            },
            State::InnerText => if c == 0 {
                ScanResult::Error
            } else if c == DOUBLE_QUOTE {
                delimite_into_mode(State::FinishText)
            } else {
                push()
            },
            State::FinishText => if c == DOUBLE_QUOTE {
                finish()
            } else {
                ScanResult::Error
            },
            _ => go_ahead(),
        }
    }

    fn return_token(&self, state: State, token_string: String) -> (r: Option<Tokn>) {
        match state {
            State::Normal | State::FinishText => Some(Tokn::Dbqt),
            State::InnerText => Some(Tokn::Chvc(token_string)),
            _ => None,
        }
    }
}

} // verus!
