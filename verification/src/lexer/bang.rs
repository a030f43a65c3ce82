use vstd::prelude::*;
use crate::util::{BANG};
use crate::vm::{Tokn, TokenV};
use super::{State, ScanResult, ScanResultV, Scanner};
use super::options::{spec_push_into_mode, spec_push, spec_finish_into_mode, spec_finish, spec_go_ahead, spec_delimite_into_mode, spec_delimite, spec_next_char, spec_change_mode, push_into_mode, push, finish_into_mode, finish, go_ahead, delimite_into_mode, delimite, next_char, change_mode};

verus! {

/// Scans `!`, the infix application.  Right after a name it first ends
/// that name.
#[derive(Clone, Copy)]
pub struct BangScanner;

impl Scanner for BangScanner {
    open spec fn spec_scan(&self, state: State, c: u8) -> ScanResultV {
        match state {
            State::Normal => if c == BANG {
                spec_push_into_mode(State::AfterBang)
            } else {
                spec_go_ahead()
            },
            State::InnerName => if c == BANG {
                spec_delimite_into_mode(State::InnerBang)
            } else {
                spec_go_ahead()
            },
            State::InnerBang => if c == BANG {
                spec_push_into_mode(State::AfterBang)
            } else {
                spec_go_ahead()
            },
            State::AfterBang => if c == 0 {
                spec_finish()
            } else {
                spec_delimite()
            },
            _ => spec_go_ahead(),
        }
    }

    open spec fn spec_return_token(&self, state: State, token: Seq<char>) -> Option<TokenV> {
        match state {
            State::InnerName => Some(TokenV::Chvc(token)),
            State::AfterBang => Some(TokenV::Bang),
            _ => None,
        }
    }

    fn scan(&self, state: State, c: u8) -> (r: ScanResult) {
        match state {
            State::Normal => if c == BANG {
                push_into_mode(State::AfterBang)
            } else {
                go_ahead()
            },
            State::InnerName => if c == BANG {
                delimite_into_mode(State::InnerBang)
            } else {
                go_ahead()
            },
            State::InnerBang => if c == BANG {
                push_into_mode(State::AfterBang)
            } else {
                go_ahead()
            },
            State::AfterBang => if c == 0 {
                finish()
            } else {
                delimite()
            },
            _ => go_ahead(),
        }
    }

    fn return_token(&self, state: State, token_string: String) -> (r: Option<Tokn>) {
        match state {
            State::InnerName => Some(Tokn::Chvc(token_string)),
            State::AfterBang => Some(Tokn::Bang),
            _ => None,
        }
    }
}

} // verus!
