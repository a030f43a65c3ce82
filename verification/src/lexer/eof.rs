use vstd::prelude::*;
use crate::vm::{Tokn, TokenV};
use super::{State, ScanResult, ScanResultV, Scanner};
use super::options::{spec_push_into_mode, spec_push, spec_finish_into_mode, spec_finish, spec_go_ahead, spec_delimite_into_mode, spec_delimite, spec_next_char, spec_change_mode, push_into_mode, push, finish_into_mode, finish, go_ahead, delimite_into_mode, delimite, next_char, change_mode};

verus! {

/// Reports the end of the input, and otherwise moves on to the next
/// character.  It is the last scanner of a lexer.
#[derive(Clone, Copy)]
pub struct EOFScanner;

impl Scanner for EOFScanner {
    open spec fn spec_scan(&self, state: State, c: u8) -> ScanResultV {
        if state == State::Normal && c == 0 {
            ScanResultV::EOF
        } else {
            spec_next_char()
        }
    }

    open spec fn spec_return_token(&self, state: State, token: Seq<char>) -> Option<TokenV> {
        None
    }

    fn scan(&self, state: State, c: u8) -> (r: ScanResult) {
        if state == State::Normal && c == 0 {
            ScanResult::EOF
        } else {
            next_char()
        }
    }

    fn return_token(&self, state: State, token_string: String) -> (r: Option<Tokn>) {
        None
    }
}

} // verus!
