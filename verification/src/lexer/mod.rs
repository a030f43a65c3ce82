//! The lexer: a state machine driven by a list of scanners.
//!
//! For each character, every scanner in turn looks at the lexer's state and
//! the character and answers with a [`ScanResult`]: go on (with options that
//! change the lexer), finish the current token, report an error, or report the
//! end of the input.

mod error;
mod options;
mod eof;
mod number;
mod delimiter;
mod alphabet;
mod alphanumeric;
mod text;
mod colon;
mod bang;
mod stop;
mod atmark;
mod otag;
mod machine;
pub mod laws;

use vstd::prelude::*;
use crate::vm::{Tokn, TokenV};

pub use self::error::Error;
pub use self::options::{spec_push_into_mode, spec_push, spec_finish_into_mode, spec_finish, spec_go_ahead, spec_delimite_into_mode, spec_delimite, spec_next_char, spec_change_mode, push_into_mode, push, finish_into_mode, finish, go_ahead, delimite_into_mode, delimite, next_char, change_mode};
pub use self::eof::EOFScanner;
pub use self::alphabet::AlphabetScanner;
pub use self::alphanumeric::AlphanumericScanner;
pub use self::number::ZeroScanner;
pub use self::number::IntegerScanner;
pub use self::delimiter::DelimiterScanner;
pub use self::text::TextScanner;
pub use self::colon::ColonScanner;
pub use self::bang::BangScanner;
pub use self::stop::StopScanner;
pub use self::atmark::AtmarkScanner;
pub use self::otag::OtagScanner;
pub use self::machine::{Lexer, LexerV, PassV, FIRST_CHAR, consume, apply_option, apply_options, spec_pass, remaining, unfinished, read_further, spec_tokenize, state_rank, moved_on, spec_tokenize_all};

verus! {

/// The state of the lexer between two characters.
#[derive(Clone, Copy, PartialEq, Eq, Debug, Structural)]
pub enum State {
    Normal,
    InnerOtag,
    InnerName,
    ZeroNumber,
    InnerNumber,
    /// After a `-` that starts a number.
    MinusSign,
    Delimiter,
    InnerText,
    FinishText,
    AfterColon,
    InnerColon,
    AfterBang,
    InnerBang,
    AfterStop,
    InnerStop,
    /// On a dispatcher character (`|`, `^`, `'`).
    Dispatcher,
    /// After a dispatcher, waiting for its tag.
    AfterDispatcher,
    /// On the `[` that follows a dispatcher.
    InnerSpecialOtag,
}

/// What a scanner asks the lexer to do.
#[derive(Clone, Copy, PartialEq, Eq, Debug, Structural)]
pub enum ScanOption {
    /// Forget the bytes of the token.
    ClearBytes,
    /// Add the current character to the token.
    PushCharToToken,
    /// Move to another state.
    ChangeState(State),
    /// Read the next character.
    ConsumeChar,
}

/// A scanner's answer for one state and character.
pub enum ScanResult {
    /// Apply the options and let the next scanner look.
    Continue(Vec<ScanOption>),
    /// The token is complete: apply the options and return it.
    Finish(Vec<ScanOption>),
    Error,
    EOF,
}

/// The abstract value of a [`ScanResult`].
pub enum ScanResultV {
    Continue(Seq<ScanOption>),
    Finish(Seq<ScanOption>),
    Error,
    EOF,
}

impl View for ScanResult {
    type V = ScanResultV;

    open spec fn view(&self) -> ScanResultV {
        match self {
            ScanResult::Continue(v) => ScanResultV::Continue(v@),
            ScanResult::Finish(v) => ScanResultV::Finish(v@),
            ScanResult::Error => ScanResultV::Error,
            ScanResult::EOF => ScanResultV::EOF,
        }
    }
}

/// The abstract value of an optional token.
pub open spec fn option_token_view(t: Option<Tokn>) -> Option<TokenV> {
    match t {
        Some(t) => Some(t@),
        None => None,
    }
}

/// One scanner of the lexer.
pub trait Scanner {
    /// What the scanner answers in `state` on character `c`.
    spec fn spec_scan(&self, state: State, c: u8) -> ScanResultV;

    /// The token that the scanner makes of `token` when it finishes in `state`.
    spec fn spec_return_token(&self, state: State, token: Seq<char>) -> Option<TokenV>;

    fn scan(&self, state: State, c: u8) -> (r: ScanResult)
        ensures
            r@ == self.spec_scan(state, c),
    ;

    fn return_token(&self, state: State, token_string: String) -> (r: Option<Tokn>)
        ensures
            option_token_view(r) == self.spec_return_token(state, token_string@),
    ;
}

/// The scanners that the lexer can run.
#[derive(Clone, Copy, PartialEq, Eq, Debug, Structural)]
pub enum ScannerKind {
    Colon,
    Bang,
    Stop,
    Atmark,
    Otag,
    Delimiter,
    Text,
    Alphabet,
    Alphanumeric,
    Zero,
    Integer,
    EOF,
}

impl Scanner for ScannerKind {
    open spec fn spec_scan(&self, state: State, c: u8) -> ScanResultV {
        match self {
            ScannerKind::Colon => ColonScanner.spec_scan(state, c),
            ScannerKind::Bang => BangScanner.spec_scan(state, c),
            ScannerKind::Stop => StopScanner.spec_scan(state, c),
            ScannerKind::Atmark => AtmarkScanner.spec_scan(state, c),
            ScannerKind::Otag => OtagScanner.spec_scan(state, c),
            ScannerKind::Delimiter => DelimiterScanner.spec_scan(state, c),
            ScannerKind::Text => TextScanner.spec_scan(state, c),
            ScannerKind::Alphabet => AlphabetScanner.spec_scan(state, c),
            ScannerKind::Alphanumeric => AlphanumericScanner.spec_scan(state, c),
            ScannerKind::Zero => ZeroScanner.spec_scan(state, c),
            ScannerKind::Integer => IntegerScanner.spec_scan(state, c),
            ScannerKind::EOF => EOFScanner.spec_scan(state, c),
        }
    }

    open spec fn spec_return_token(&self, state: State, token: Seq<char>) -> Option<TokenV> {
        match self {
            ScannerKind::Colon => ColonScanner.spec_return_token(state, token),
            ScannerKind::Bang => BangScanner.spec_return_token(state, token),
            ScannerKind::Stop => StopScanner.spec_return_token(state, token),
            ScannerKind::Atmark => AtmarkScanner.spec_return_token(state, token),
            ScannerKind::Otag => OtagScanner.spec_return_token(state, token),
            ScannerKind::Delimiter => DelimiterScanner.spec_return_token(state, token),
            ScannerKind::Text => TextScanner.spec_return_token(state, token),
            ScannerKind::Alphabet => AlphabetScanner.spec_return_token(state, token),
            ScannerKind::Alphanumeric => AlphanumericScanner.spec_return_token(state, token),
            ScannerKind::Zero => ZeroScanner.spec_return_token(state, token),
            ScannerKind::Integer => IntegerScanner.spec_return_token(state, token),
            ScannerKind::EOF => EOFScanner.spec_return_token(state, token),
        }
    }

    fn scan(&self, state: State, c: u8) -> (r: ScanResult) {
        match self {
            ScannerKind::Colon => ColonScanner.scan(state, c),
            ScannerKind::Bang => BangScanner.scan(state, c),
            ScannerKind::Stop => StopScanner.scan(state, c),
            ScannerKind::Atmark => AtmarkScanner.scan(state, c),
            ScannerKind::Otag => OtagScanner.scan(state, c),
            ScannerKind::Delimiter => DelimiterScanner.scan(state, c),
            ScannerKind::Text => TextScanner.scan(state, c),
            ScannerKind::Alphabet => AlphabetScanner.scan(state, c),
            ScannerKind::Alphanumeric => AlphanumericScanner.scan(state, c),
            ScannerKind::Zero => ZeroScanner.scan(state, c),
            ScannerKind::Integer => IntegerScanner.scan(state, c),
            ScannerKind::EOF => EOFScanner.scan(state, c),
        }
    }

    fn return_token(&self, state: State, token_string: String) -> (r: Option<Tokn>) {
        match self {
            ScannerKind::Colon => ColonScanner.return_token(state, token_string),
            ScannerKind::Bang => BangScanner.return_token(state, token_string),
            ScannerKind::Stop => StopScanner.return_token(state, token_string),
            ScannerKind::Atmark => AtmarkScanner.return_token(state, token_string),
            ScannerKind::Otag => OtagScanner.return_token(state, token_string),
            ScannerKind::Delimiter => DelimiterScanner.return_token(state, token_string),
            ScannerKind::Text => TextScanner.return_token(state, token_string),
            ScannerKind::Alphabet => AlphabetScanner.return_token(state, token_string),
            ScannerKind::Alphanumeric => AlphanumericScanner.return_token(state, token_string),
            ScannerKind::Zero => ZeroScanner.return_token(state, token_string),
            ScannerKind::Integer => IntegerScanner.return_token(state, token_string),
            ScannerKind::EOF => EOFScanner.return_token(state, token_string),
        }
    }
}

/// The scanners of the language, in the order in which they look at a
/// character.
pub open spec fn spec_all_scanners() -> Seq<ScannerKind> {
    seq![
        ScannerKind::Colon,
        ScannerKind::Bang,
        ScannerKind::Stop,
        ScannerKind::Atmark,
        ScannerKind::Otag,
        ScannerKind::Delimiter,
        ScannerKind::Text,
        ScannerKind::Alphabet,
        ScannerKind::Zero,
        ScannerKind::Integer,
        ScannerKind::EOF,
    ]
}

/// The scanners of the language, in the order in which they look at a
/// character.
pub fn all_scanners() -> (v: Vec<ScannerKind>)
    ensures
        v@ == spec_all_scanners(),
{
    let mut v = Vec::new();
    v.push(ScannerKind::Colon);
    v.push(ScannerKind::Bang);
    v.push(ScannerKind::Stop);
    v.push(ScannerKind::Atmark);
    v.push(ScannerKind::Otag);
    v.push(ScannerKind::Delimiter);
    v.push(ScannerKind::Text);
    v.push(ScannerKind::Alphabet);
    v.push(ScannerKind::Zero);
    v.push(ScannerKind::Integer);
    v.push(ScannerKind::EOF);
    assert(v@ =~= spec_all_scanners());
    v
}

/// What one call of [`Lexer::tokenize`] yields.
pub enum TokenizeResult {
    /// The next token.
    Token(Tokn),
    /// The lexer could not make a token.
    Error(Error),
    /// The input is exhausted.
    EOF,
}

/// The abstract value of a [`TokenizeResult`].
pub enum TokenizeResultV {
    Token(TokenV),
    Error(Error),
    EOF,
}

impl View for TokenizeResult {
    type V = TokenizeResultV;

    open spec fn view(&self) -> TokenizeResultV {
        match self {
            TokenizeResult::Token(t) => TokenizeResultV::Token(t@),
            TokenizeResult::Error(e) => TokenizeResultV::Error(*e),
            TokenizeResult::EOF => TokenizeResultV::EOF,
        }
    }
}

} // verus!
