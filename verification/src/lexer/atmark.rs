use vstd::prelude::*;
use crate::util::{AT_SIGN};
use crate::vm::{Tokn, TokenV};
use super::{State, ScanResult, ScanResultV, Scanner};
use super::options::{spec_push_into_mode, spec_push, spec_finish_into_mode, spec_finish, spec_go_ahead, spec_delimite_into_mode, spec_delimite, spec_next_char, spec_change_mode, push_into_mode, push, finish_into_mode, finish, go_ahead, delimite_into_mode, delimite, next_char, change_mode};

verus! {

/// Scans `@`, the prefix that resolves a name.
#[derive(Clone, Copy)]
pub struct AtmarkScanner;

impl Scanner for AtmarkScanner {
    open spec fn spec_scan(&self, state: State, c: u8) -> ScanResultV {
        if state == State::Normal && c == AT_SIGN {
            spec_finish()
        } else {
            spec_go_ahead()
        }
    }

    open spec fn spec_return_token(&self, state: State, token: Seq<char>) -> Option<TokenV> {
        if state == State::Normal {
            Some(TokenV::Atsm)
        } else {
            None
        }
    }

    fn scan(&self, state: State, c: u8) -> (r: ScanResult) {
        if state == State::Normal && c == AT_SIGN {
            finish()
        } else {
            go_ahead()
        }
    }

    fn return_token(&self, state: State, token_string: String) -> (r: Option<Tokn>) {
        if state == State::Normal {
            Some(Tokn::Atsm)
        } else {
            None
        }
    }
}

} // verus!
