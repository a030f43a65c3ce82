use vstd::prelude::*;
use crate::util::{SEMICOLON, LEFT_BRACKET, RIGHT_BRACKET};
use crate::vm::{Tokn, TokenV};
use crate::text::text_eq;
use super::{State, ScanResult, ScanResultV, Scanner};
use super::options::{spec_push_into_mode, spec_push, spec_finish_into_mode, spec_finish, spec_go_ahead, spec_delimite_into_mode, spec_delimite, spec_next_char, spec_change_mode, push_into_mode, push, finish_into_mode, finish, go_ahead, delimite_into_mode, delimite, next_char, change_mode};

verus! {

/// Scans the one-character tokens `;`, `[` and `]`.
#[derive(Clone, Copy)]
pub struct DelimiterScanner;

impl Scanner for DelimiterScanner {
    open spec fn spec_scan(&self, state: State, c: u8) -> ScanResultV {
        match state {
            State::Normal => if c == SEMICOLON || c == LEFT_BRACKET || c == RIGHT_BRACKET {
                spec_push_into_mode(State::Delimiter)
            } else {
                spec_go_ahead()
            },
            State::Delimiter => if c == 0 {
                spec_finish()
            } else {
                spec_delimite()
            },
            _ => spec_go_ahead(),
        }
    }

    open spec fn spec_return_token(&self, state: State, token: Seq<char>) -> Option<TokenV> {
        if token == seq![';'] {
            Some(TokenV::Smcl)
        } else if token == seq!['['] {
            Some(TokenV::Lbkt)
        } else if token == seq![']'] {
            Some(TokenV::Rbkt)
        } else {
            None
        }
    }

    fn scan(&self, state: State, c: u8) -> (r: ScanResult) {
        match state {
            State::Normal => if c == SEMICOLON || c == LEFT_BRACKET || c == RIGHT_BRACKET {
                push_into_mode(State::Delimiter)
            } else {
                go_ahead()
            },
            State::Delimiter => if c == 0 {
                finish()
            } else {
                delimite()
            },
            _ => go_ahead(),
        }
    }

    fn return_token(&self, state: State, token_string: String) -> (r: Option<Tokn>) {
        proof {
            reveal_strlit(";");
            assert(";"@ =~= seq![';']);
            reveal_strlit("[");
            assert("["@ =~= seq!['[']);
            reveal_strlit("]");
            assert("]"@ =~= seq![']']);
        }
        if text_eq(&token_string, ";") {
            Some(Tokn::Smcl)
        } else if text_eq(&token_string, "[") {
            Some(Tokn::Lbkt)
        } else if text_eq(&token_string, "]") {
            Some(Tokn::Rbkt)
        } else {
            None
        }
    }
}

} // verus!
