//! The lexer itself: it runs the scanners over the input.

use vstd::prelude::*;
use vstd::utf8::{valid_utf8, decode_utf8};
use crate::vm::{Tokn, TokenV};
use crate::text::string_from_utf8;
use super::{
    State, ScanOption, ScanResult, ScanResultV, Scanner, ScannerKind, TokenizeResult,
    TokenizeResultV, Error,
};

verus! {

/// The character the lexer holds before it has read anything.
pub const FIRST_CHAR: u8 = 255;

/// The abstract state of a lexer.
pub struct LexerV {
    /// The whole input.
    pub input: Seq<u8>,
    /// How many bytes of the input have been read.
    pub pos: nat,
    /// The current character; 0 once the input is exhausted.
    pub cur: u8,
    pub state: State,
    /// The bytes of the token being read.
    pub token: Seq<u8>,
}

/// The lexer after it reads the next character.
pub open spec fn consume(l: LexerV) -> LexerV {
    if l.pos < l.input.len() {
        LexerV { cur: l.input[l.pos as int], pos: l.pos + 1, ..l }
    } else {
        LexerV { cur: 0, ..l }
    }
}

/// The lexer after one option is applied, `c` being the character scanned.
pub open spec fn apply_option(l: LexerV, c: u8, o: ScanOption) -> LexerV {
    match o {
        ScanOption::ClearBytes => LexerV { token: Seq::empty(), ..l },
        ScanOption::PushCharToToken => LexerV { token: l.token.push(c), ..l },
        ScanOption::ChangeState(s) => LexerV { state: s, ..l },
        ScanOption::ConsumeChar => consume(l),
    }
}

/// The lexer after the options are applied in order.
pub open spec fn apply_options(l: LexerV, c: u8, opts: Seq<ScanOption>) -> LexerV
    decreases opts.len(),
{
    if opts.len() == 0 {
        l
    } else {
        apply_options(apply_option(l, c, opts[0]), c, opts.drop_first())
    }
}

/// The outcome of letting every scanner look once.
pub enum PassV {
    /// No scanner ended the call: the lexer so far.
    Continue(LexerV),
    /// A scanner ended the call, with this result.
    Done(LexerV, TokenizeResultV),
}

/// Scanners `k..` look at character `c` in state `s` (both as they were
/// when the pass began).
pub open spec fn spec_pass(scanners: Seq<ScannerKind>, l: LexerV, s: State, c: u8, k: int) -> PassV
    decreases scanners.len() - k,
{
    if k < 0 || k >= scanners.len() {
        PassV::Continue(l)
    } else {
        match scanners[k].spec_scan(s, c) {
            ScanResultV::Continue(opts) => spec_pass(scanners, apply_options(l, c, opts), s, c, k + 1),
            ScanResultV::Finish(opts) => if !valid_utf8(l.token) {
                PassV::Done(l, TokenizeResultV::Error(Error::InvalidUtf8(s)))
            } else {
                match scanners[k].spec_return_token(s, decode_utf8(l.token)) {
                    Some(t) => PassV::Done(apply_options(l, c, opts), TokenizeResultV::Token(t)),
                    None => PassV::Done(l, TokenizeResultV::Error(Error::Invalid(s, c))),
                }
            },
            ScanResultV::Error => PassV::Done(l, TokenizeResultV::Error(Error::Invalid(s, c))),
            ScanResultV::EOF => PassV::Done(l, TokenizeResultV::EOF),
        }
    }
}

/// Bytes of the input not read yet.
pub open spec fn remaining(l: LexerV) -> nat {
    if l.pos <= l.input.len() {
        (l.input.len() - l.pos) as nat
    } else {
        0
    }
}

/// 1 while the current character is not 0.
pub open spec fn unfinished(l: LexerV) -> nat {
    if l.cur == 0 {
        0
    } else {
        1
    }
}

/// `l2` has read further than `l`.
pub open spec fn read_further(l: LexerV, l2: LexerV) -> bool {
    remaining(l2) < remaining(l) || (remaining(l2) == remaining(l) && unfinished(l2) < unfinished(l))
}

/// One call of `tokenize`: passes of the scanners until one of them ends the
/// call.  A pass that reads nothing further ends the call with `Stuck`, for
/// every later pass would be the same.
pub open spec fn spec_tokenize(scanners: Seq<ScannerKind>, l: LexerV) -> (LexerV, TokenizeResultV)
    decreases remaining(l), unfinished(l),
{
    match spec_pass(scanners, l, l.state, l.cur, 0) {
        PassV::Done(l2, r) => (l2, r),
        PassV::Continue(l2) => if read_further(l, l2) {
            spec_tokenize(scanners, l2)
        } else {
            (l2, TokenizeResultV::Error(Error::Stuck(l2.state)))
        },
    }
}

/// States in which a token can begin without reading a character.
pub open spec fn state_rank(s: State) -> nat {
    match s {
        State::Normal | State::FinishText | State::AfterDispatcher | State::InnerColon
        | State::InnerBang | State::InnerStop => 0,
        _ => 1,
    }
}

/// `l2` is further on than `l`: it has read further, or it has read as far and
/// is in a state of lower rank.
pub open spec fn moved_on(l: LexerV, l2: LexerV) -> bool {
    ||| read_further(l, l2)
    ||| (remaining(l2) == remaining(l) && unfinished(l2) == unfinished(l) && state_rank(l2.state)
        < state_rank(l.state))
}

/// All the tokens from `l` on, and the error that ended them, if any (`None`
/// where the input was exhausted).
pub open spec fn spec_tokenize_all(scanners: Seq<ScannerKind>, l: LexerV) -> (Seq<TokenV>, Option<Error>)
    decreases remaining(l), unfinished(l), state_rank(l.state),
{
    let (l2, r) = spec_tokenize(scanners, l);
    match r {
        TokenizeResultV::Token(t) => if moved_on(l, l2) {
            let (ts, e) = spec_tokenize_all(scanners, l2);
            (seq![t] + ts, e)
        } else {
            (seq![t], Some(Error::Stuck(l2.state)))
        },
        TokenizeResultV::Error(e) => (Seq::empty(), Some(e)),
        TokenizeResultV::EOF => (Seq::empty(), None),
    }
}

/// The lexer: the input, the position in it, the state, the token being
/// read, and the scanners.
pub struct Lexer {
    input: Vec<u8>,
    pos: usize,
    current_char: u8,
    state: State,
    token_bytes: Vec<u8>,
    scanners: Vec<ScannerKind>,
}

impl View for Lexer {
    type V = LexerV;

    closed spec fn view(&self) -> LexerV {
        LexerV {
            input: self.input@,
            pos: self.pos as nat,
            cur: self.current_char,
            state: self.state,
            token: self.token_bytes@,
        }
    }
}

impl Lexer {
    /// The scanners, in the order in which they look at a character.
    pub closed spec fn scanners(&self) -> Seq<ScannerKind> {
        self.scanners@
    }

    /// The position is within the input.
    pub closed spec fn wf(&self) -> bool {
        self.pos <= self.input@.len()
    }

    /// A lexer over `input` that runs `scanners`, in the normal state, before
    /// the first character.
    pub fn new(input: &[u8], scanners: Vec<ScannerKind>) -> (l: Lexer)
        ensures
            l.wf(),
            l@ == (LexerV { input: input@, pos: 0, cur: FIRST_CHAR, state: State::Normal, token: Seq::empty() }),
            l.scanners() == scanners@,
    {
        let l = Lexer {
            input: vstd::slice::slice_to_vec(input),
            pos: 0,
            current_char: FIRST_CHAR,
            state: State::Normal,
            token_bytes: Vec::new(),
            scanners,
        };
        assert(l@.token =~= Seq::<u8>::empty());
        l
    }

    /// Reads the next character; 0 once the input is exhausted.
    pub fn consume_char(&mut self)
        requires
            old(self).wf(),
        ensures
            final(self)@.input == old(self)@.input,
            final(self).wf(),
            final(self)@ == consume(old(self)@),
            final(self).scanners() == old(self).scanners(),
    {
        if self.pos < self.input.len() {
            self.current_char = self.input[self.pos];
            self.pos = self.pos + 1;
        } else {
            self.current_char = 0;
        }
    }

    fn exec_option(&mut self, c: u8, o: ScanOption)
        requires
            old(self).wf(),
        ensures
            final(self)@.input == old(self)@.input,
            final(self).wf(),
            final(self)@ == apply_option(old(self)@, c, o),
            final(self).scanners() == old(self).scanners(),
    {
        match o {
            ScanOption::ClearBytes => {
                self.token_bytes.clear();
                assert(self@.token =~= Seq::<u8>::empty());
            },
            ScanOption::PushCharToToken => {
                self.token_bytes.push(c);
            },
            ScanOption::ChangeState(s) => {
                self.state = s;
            },
            ScanOption::ConsumeChar => {
                self.consume_char();
            },
        }
    }

    fn exec_options(&mut self, c: u8, opts: &Vec<ScanOption>)
        requires
            old(self).wf(),
        ensures
            final(self)@.input == old(self)@.input,
            final(self).wf(),
            final(self)@ == apply_options(old(self)@, c, opts@),
            final(self).scanners() == old(self).scanners(),
    {
        let mut i: usize = 0;
        assert(opts@.subrange(0, opts@.len() as int) =~= opts@);
        while i < opts.len()
            invariant
                self.wf(),
                self@.input == old(self)@.input,
                i <= opts@.len(),
                self.scanners() == old(self).scanners(),
                apply_options(old(self)@, c, opts@) == apply_options(self@, c, opts@.subrange(i as int, opts@.len() as int)),
            decreases opts@.len() - i,
        {
            let ghost rest = opts@.subrange(i as int, opts@.len() as int);
            assert(rest.drop_first() =~= opts@.subrange(i + 1, opts@.len() as int));
            self.exec_option(c, opts[i]);
            i = i + 1;
        }
        assert(opts@.subrange(i as int, opts@.len() as int) =~= Seq::<ScanOption>::empty());
    }

    /// The bytes of the token as text.
    pub fn get_token_string(&self) -> (s: Option<String>)
        ensures
            s is Some <==> valid_utf8(self@.token),
            s matches Some(t) ==> t@ == decode_utf8(self@.token),
    {
        string_from_utf8(&self.token_bytes)
    }

    /// Reads the next token: the scanners look at each character in turn,
    /// until one of them finishes a token, reports an error or reports the end
    /// of the input.
    pub fn tokenize(&mut self) -> (r: TokenizeResult)
        requires
            old(self).wf(),
        ensures
            final(self)@.input == old(self)@.input,
            final(self).wf(),
            final(self).scanners() == old(self).scanners(),
            (final(self)@, r@) == spec_tokenize(old(self).scanners(), old(self)@),
    {
        let ghost scs = self.scanners@;
        loop
            invariant
                self.wf(),
                self.scanners@ == scs,
                scs == old(self).scanners(),
                self@.input == old(self)@.input,
                spec_tokenize(scs, self@) == spec_tokenize(scs, old(self)@),
            decreases remaining(self@), unfinished(self@),
        {
            let s = self.state;
            let c = self.current_char;
            let ghost start = self@;
            let start_pos = self.pos;
            proof {
                assert(start.pos <= start.input.len());
            }
            let mut k: usize = 0;
            while k < self.scanners.len()
                invariant
                    self.wf(),
                    self.scanners@ == scs,
                    scs == old(self).scanners(),
                    self@.input == old(self)@.input,
                    start.input == old(self)@.input,
                    start.state == s,
                    start.cur == c,
                    start.pos == start_pos,
                    start.pos <= start.input.len(),
                    spec_tokenize(scs, start) == spec_tokenize(scs, old(self)@),
                    k <= scs.len(),
                    spec_pass(scs, start, s, c, 0) == spec_pass(scs, self@, s, c, k as int),
                decreases scs.len() - k,
            {
                let sc = self.scanners[k];
                let res = sc.scan(s, c);
                match res {
                    ScanResult::Continue(opts) => {
                        self.exec_options(c, &opts);
                    },
                    ScanResult::Finish(opts) => {
                        match self.get_token_string() {
                            None => {
                                return TokenizeResult::Error(Error::InvalidUtf8(s));
                            },
                            Some(t) => {
                                match sc.return_token(s, t) {
                                    Some(tok) => {
                                        self.exec_options(c, &opts);
                                        return TokenizeResult::Token(tok);
                                    },
                                    None => {
                                        return TokenizeResult::Error(Error::Invalid(s, c));
                                    },
                                }
                            },
                        }
                    },
                    ScanResult::Error => {
                        return TokenizeResult::Error(Error::Invalid(s, c));
                    },
                    ScanResult::EOF => {
                        return TokenizeResult::EOF;
                    },
                }
                k = k + 1;
            }
            let further = self.pos > start_pos || (self.pos == start_pos && c != 0
                && self.current_char == 0);
            if !further {
                return TokenizeResult::Error(Error::Stuck(self.state));
            }
        }
    }

    /// Reads every token up to the end of the input or the first error; the
    /// error, if any, comes second.
    pub fn tokenize_all(&mut self) -> (r: (Vec<Tokn>, Option<Error>))
        requires
            old(self).wf(),
        ensures
            final(self).wf(),
            (r.0@.map_values(|t: Tokn| t@), r.1) == spec_tokenize_all(old(self).scanners(), old(self)@),
    {
        let ghost scs = self.scanners@;
        let mut tokens: Vec<Tokn> = Vec::new();
        loop
            invariant
                self.wf(),
                self.scanners() == scs,
                scs == old(self).scanners(),
                self@.input == old(self)@.input,
                ({
                    let (ts, e) = spec_tokenize_all(scs, self@);
                    spec_tokenize_all(scs, old(self)@) == (tokens@.map_values(|t: Tokn| t@) + ts, e)
                }),
            decreases remaining(self@), unfinished(self@), state_rank(self@.state),
        {
            let ghost before = self@;
            let before_pos = self.pos;
            let before_cur = self.current_char;
            let before_state = self.state;
            let ghost done = tokens@.map_values(|t: Tokn| t@);
            let res = self.tokenize();
            match res {
                TokenizeResult::Token(t) => {
                    let ghost tv = t@;
                    tokens.push(t);
                    proof {
                        assert(tokens@.map_values(|t: Tokn| t@) =~= done.push(tv));
                    }
                    let further = self.pos > before_pos || (self.pos == before_pos && before_cur
                        != 0 && self.current_char == 0) || (self.pos == before_pos && (before_cur
                        == 0) == (self.current_char == 0) && state_rank_exec(self.state)
                        < state_rank_exec(before_state));
                    if !further {
                        proof {
                            assert(done + seq![tv] =~= done.push(tv));
                        }
                        return (tokens, Some(Error::Stuck(self.state)));
                    }
                    proof {
                        let (ts, e) = spec_tokenize_all(scs, self@);
                        assert(done + (seq![tv] + ts) =~= done.push(tv) + ts);
                    }
                },
                TokenizeResult::Error(e) => {
                    proof {
                        assert(done + Seq::<TokenV>::empty() =~= done);
                    }
                    return (tokens, Some(e));
                },
                TokenizeResult::EOF => {
                    proof {
                        assert(done + Seq::<TokenV>::empty() =~= done);
                    }
                    return (tokens, None);
                },
            }
        }
    }
}

fn state_rank_exec(s: State) -> (r: u8)
    ensures
        r == state_rank(s),
{
    match s {
        State::Normal | State::FinishText | State::AfterDispatcher | State::InnerColon
        | State::InnerBang | State::InnerStop => 0,
        _ => 1,
    }
}

} // verus!
