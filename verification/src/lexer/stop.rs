use vstd::prelude::*;
use crate::util::{FULL_STOP};
use crate::vm::{Tokn, TokenV};
use super::{State, ScanResult, ScanResultV, Scanner};
use super::options::{spec_push_into_mode, spec_push, spec_finish_into_mode, spec_finish, spec_go_ahead, spec_delimite_into_mode, spec_delimite, spec_next_char, spec_change_mode, push_into_mode, push, finish_into_mode, finish, go_ahead, delimite_into_mode, delimite, next_char, change_mode};

verus! {

/// Scans `.`, the infix accessor.  Right after a name or a number it
/// first ends that token.
#[derive(Clone, Copy)]
pub struct StopScanner;

impl Scanner for StopScanner {
    open spec fn spec_scan(&self, state: State, c: u8) -> ScanResultV {
        match state {
            State::Normal => if c == FULL_STOP {
                spec_push_into_mode(State::AfterStop)
            } else {
                spec_go_ahead()
            },
            State::InnerName | State::InnerNumber => if c == FULL_STOP {
                spec_delimite_into_mode(State::InnerStop)
            } else {
                spec_go_ahead()
            },
            State::InnerStop => if c == FULL_STOP {
                spec_push_into_mode(State::AfterStop)
            } else {
                spec_go_ahead()
            },
            State::AfterStop => if c == 0 {
                spec_finish()
            } else {
                spec_delimite()
            },
            _ => spec_go_ahead(),
        }
    }

    open spec fn spec_return_token(&self, state: State, token: Seq<char>) -> Option<TokenV> {
        match state {
            State::InnerName => Some(TokenV::Chvc(token)),
            State::InnerNumber => Some(TokenV::Nmbr(token)),
            State::AfterStop => Some(TokenV::Stop),
            _ => None,
        }
    }

    fn scan(&self, state: State, c: u8) -> (r: ScanResult) {
        match state {
            State::Normal => if c == FULL_STOP {
                push_into_mode(State::AfterStop)
            } else {
                go_ahead()
            },
            State::InnerName | State::InnerNumber => if c == FULL_STOP {
                delimite_into_mode(State::InnerStop)
            } else {
                go_ahead()
            },
            State::InnerStop => if c == FULL_STOP {
                push_into_mode(State::AfterStop)
            } else {
                go_ahead()
            },
            State::AfterStop => if c == 0 {
                finish()
            } else {
                delimite()
            },
            _ => go_ahead(),
        }
    }

    fn return_token(&self, state: State, token_string: String) -> (r: Option<Tokn>) {
        match state {
            State::InnerName => Some(Tokn::Chvc(token_string)),
            State::InnerNumber => Some(Tokn::Nmbr(token_string)),
            State::AfterStop => Some(Tokn::Stop),
            _ => None,
        }
    }
}

} // verus!
