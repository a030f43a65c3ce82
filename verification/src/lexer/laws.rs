//! What the lexer promises of names, stated over every name.

use vstd::prelude::*;
use vstd::utf8::{valid_utf8, decode_utf8, valid_first_scalar, decode_first_scalar, pop_first_scalar};
use crate::vm::TokenV;
use crate::util::{HYPHEN, is_alphanumeric, is_alphabetic_lowercase, is_whitespace};
use super::{State, ScanOption, ScanResultV, ScannerKind, Scanner, TokenizeResultV, spec_all_scanners, Error};
use super::machine::{LexerV, FIRST_CHAR, PassV, consume, apply_options, spec_pass, spec_tokenize, spec_tokenize_all};

verus! {

/// A byte that may follow the first letter of a name: a letter, a digit or
/// `-`.
pub open spec fn name_byte(c: u8) -> bool {
    is_alphanumeric(c) || c == HYPHEN
}

/// A name: a lower-case letter, then letters, digits and `-`.
pub open spec fn is_name(input: Seq<u8>) -> bool {
    &&& input.len() >= 1
    &&& is_alphabetic_lowercase(input[0])
    &&& forall|k: int| 1 <= k < input.len() ==> name_byte(#[trigger] input[k])
}

/// The characters that ASCII bytes stand for.
pub open spec fn ascii_chars(bytes: Seq<u8>) -> Seq<char> {
    bytes.map_values(|b: u8| b as char)
}

/// A pass of the language's scanners over the character `FIRST_CHAR` that
/// the lexer holds before it has read anything: the character is skipped.
proof fn lemma_pass_first(l: LexerV)
    requires
        l.state == State::Normal,
        l.cur == FIRST_CHAR,
    ensures
        spec_pass(spec_all_scanners(), l, State::Normal, FIRST_CHAR, 0) == PassV::Continue(consume(l)),
{
    let s = spec_all_scanners();
    let c = FIRST_CHAR;
    assert forall|k: int| 0 <= k < 10 implies #[trigger] s[k].spec_scan(State::Normal, c) == ScanResultV::Continue(Seq::empty()) by {}
    assert(s[10].spec_scan(State::Normal, c) == ScanResultV::Continue(seq![ScanOption::ConsumeChar]));
    lemma_pass_continues(s, l, State::Normal, c, 0, 10);
    assert(apply_options(l, c, seq![ScanOption::ConsumeChar]) == consume(l)) by {
        reveal_with_fuel(apply_options, 2);
    }
    reveal_with_fuel(spec_pass, 3);
}

/// Scanners `k..m` each going ahead without options leave the lexer as it
/// is.
proof fn lemma_pass_continues(s: Seq<ScannerKind>, l: LexerV, st: State, c: u8, k: int, m: int)
    requires
        0 <= k <= m <= s.len(),
        forall|j: int| k <= j < m ==> #[trigger] s[j].spec_scan(st, c) == ScanResultV::Continue(Seq::empty()),
    ensures
        spec_pass(s, l, st, c, k) == spec_pass(s, l, st, c, m),
    decreases m - k,
{
    if k < m {
        assert(apply_options(l, c, Seq::empty()) == l);
        lemma_pass_continues(s, l, st, c, k + 1, m);
    }
}

/// A pass in the normal state over the lower-case letter `c` that starts a
/// name: the letter begins the token, the lexer moves into the name, and the
/// next character is read.
proof fn lemma_pass_name_start(l: LexerV, c: u8)
    requires
        l.state == State::Normal,
        l.cur == c,
        is_alphabetic_lowercase(c),
    ensures
        spec_pass(spec_all_scanners(), l, State::Normal, c, 0)
            == PassV::Continue(consume(LexerV { state: State::InnerName, token: l.token.push(c), ..l })),
{
    let s = spec_all_scanners();
    assert forall|k: int| 0 <= k < 7 implies #[trigger] s[k].spec_scan(State::Normal, c) == ScanResultV::Continue(Seq::empty()) by {}
    assert(s[7].spec_scan(State::Normal, c) == ScanResultV::Continue(seq![ScanOption::PushCharToToken, ScanOption::ChangeState(State::InnerName)]));
    assert forall|k: int| 8 <= k < 10 implies #[trigger] s[k].spec_scan(State::Normal, c) == ScanResultV::Continue(Seq::empty()) by {}
    assert(s[10].spec_scan(State::Normal, c) == ScanResultV::Continue(seq![ScanOption::ConsumeChar]));
    let l1 = LexerV { state: State::InnerName, token: l.token.push(c), ..l };
    lemma_pass_continues(s, l, State::Normal, c, 0, 7);
    assert(apply_options(l, c, seq![ScanOption::PushCharToToken, ScanOption::ChangeState(State::InnerName)]) == l1) by {
        reveal_with_fuel(apply_options, 3);
    }
    assert(spec_pass(s, l, State::Normal, c, 7) == spec_pass(s, l1, State::Normal, c, 8));
    lemma_pass_continues(s, l1, State::Normal, c, 8, 10);
    assert(apply_options(l1, c, seq![ScanOption::ConsumeChar]) == consume(l1)) by {
        reveal_with_fuel(apply_options, 2);
    }
    reveal_with_fuel(spec_pass, 3);
}

/// A pass inside a name over a letter, digit or `-`: the character is added
/// to the token and the next character is read.
proof fn lemma_pass_name_byte(l: LexerV, c: u8)
    requires
        l.state == State::InnerName,
        l.cur == c,
        name_byte(c),
    ensures
        spec_pass(spec_all_scanners(), l, State::InnerName, c, 0)
            == PassV::Continue(consume(LexerV { token: l.token.push(c), ..l })),
{
    let s = spec_all_scanners();
    assert forall|k: int| 0 <= k < 7 implies #[trigger] s[k].spec_scan(State::InnerName, c) == ScanResultV::Continue(Seq::empty()) by {}
    assert(s[7].spec_scan(State::InnerName, c) == ScanResultV::Continue(seq![ScanOption::PushCharToToken]));
    assert forall|k: int| 8 <= k < 10 implies #[trigger] s[k].spec_scan(State::InnerName, c) == ScanResultV::Continue(Seq::empty()) by {}
    assert(s[10].spec_scan(State::InnerName, c) == ScanResultV::Continue(seq![ScanOption::ConsumeChar]));
    let l1 = LexerV { token: l.token.push(c), ..l };
    lemma_pass_continues(s, l, State::InnerName, c, 0, 7);
    assert(apply_options(l, c, seq![ScanOption::PushCharToToken]) == l1) by {
        reveal_with_fuel(apply_options, 2);
    }
    assert(spec_pass(s, l, State::InnerName, c, 7) == spec_pass(s, l1, State::InnerName, c, 8));
    lemma_pass_continues(s, l1, State::InnerName, c, 8, 10);
    assert(apply_options(l1, c, seq![ScanOption::ConsumeChar]) == consume(l1)) by {
        reveal_with_fuel(apply_options, 2);
    }
    reveal_with_fuel(spec_pass, 3);
}

/// A pass inside a name over whitespace or at the end of the input: the
/// name scanner finishes the token, which is a name of the characters read,
/// and the whitespace is skipped.
proof fn lemma_pass_name_end(l: LexerV, c: u8)
    requires
        l.state == State::InnerName,
        l.cur == c,
        c == 0 || is_whitespace(c),
        valid_utf8(l.token),
    ensures
        spec_pass(spec_all_scanners(), l, State::InnerName, c, 0) == PassV::Done(
            consume(LexerV { token: Seq::empty(), state: State::Normal, ..l }),
            TokenizeResultV::Token(TokenV::Chvc(decode_utf8(l.token))),
        ),
{
    let s = spec_all_scanners();
    let opts = seq![ScanOption::ClearBytes, ScanOption::ChangeState(State::Normal), ScanOption::ConsumeChar];
    assert forall|k: int| 0 <= k < 7 implies #[trigger] s[k].spec_scan(State::InnerName, c) == ScanResultV::Continue(Seq::empty()) by {}
    assert(s[7].spec_scan(State::InnerName, c) == ScanResultV::Finish(opts));
    assert(s[7].spec_return_token(State::InnerName, decode_utf8(l.token)) == Some(TokenV::Chvc(decode_utf8(l.token))));
    lemma_pass_continues(s, l, State::InnerName, c, 0, 7);
    assert(apply_options(l, c, opts) == consume(LexerV { token: Seq::empty(), state: State::Normal, ..l })) by {
        reveal_with_fuel(apply_options, 4);
    }
    reveal_with_fuel(spec_pass, 2);
}

/// A pass in the normal state at the end of the input reports the end.
proof fn lemma_pass_end(l: LexerV)
    requires
        l.state == State::Normal,
        l.cur == 0,
    ensures
        spec_pass(spec_all_scanners(), l, State::Normal, 0, 0) == PassV::Done(l, TokenizeResultV::EOF),
{
    let s = spec_all_scanners();
    assert forall|k: int| 0 <= k < 10 implies #[trigger] s[k].spec_scan(State::Normal, 0) == ScanResultV::Continue(Seq::empty()) by {}
    assert(s[10].spec_scan(State::Normal, 0) == ScanResultV::EOF);
    lemma_pass_continues(s, l, State::Normal, 0, 0, 10);
    reveal_with_fuel(spec_pass, 2);
}

/// Bytes below 128 are valid UTF-8, and stand for the ASCII characters of
/// the same codes.
proof fn lemma_ascii_utf8(bytes: Seq<u8>)
    requires
        forall|k: int| 0 <= k < bytes.len() ==> #[trigger] bytes[k] < 128,
    ensures
        valid_utf8(bytes),
        decode_utf8(bytes) == ascii_chars(bytes),
    decreases bytes.len(),
{
    if bytes.len() > 0 {
        let b = bytes[0];
        assert(b & 0x7f == b) by (bit_vector)
            requires
                b < 128,
        ;
        assert(valid_first_scalar(bytes));
        let rest = bytes.subrange(1, bytes.len() as int);
        assert(pop_first_scalar(bytes) == rest);
        assert forall|k: int| 0 <= k < rest.len() implies #[trigger] rest[k] < 128 by {
            assert(rest[k] == bytes[k + 1]);
        }
        lemma_ascii_utf8(rest);
        assert(decode_first_scalar(bytes) == b as u32);
        assert(decode_utf8(bytes) =~= ascii_chars(bytes));
    }
}

/// The bytes `input[i..i + n]` are a name that ends there: at the end of the
/// input or before whitespace.
pub open spec fn name_at(input: Seq<u8>, i: int, n: int) -> bool {
    &&& 0 <= i
    &&& n >= 1
    &&& i + n <= input.len()
    &&& is_alphabetic_lowercase(input[i])
    &&& forall|k: int| i < k < i + n ==> name_byte(#[trigger] input[k])
    &&& (i + n == input.len() || is_whitespace(input[i + n]))
}

/// The lexer after a name that ends at `e` has been returned: in the normal
/// state with no token begun, the whitespace after the name (if any)
/// skipped.
pub open spec fn after_name(input: Seq<u8>, e: int) -> LexerV {
    consume(LexerV {
        input,
        pos: if e < input.len() { (e + 1) as nat } else { input.len() },
        cur: 0,
        state: State::Normal,
        token: Seq::empty(),
    })
}

/// Inside the name `input[i..i + n]`, its first `j` bytes in the token and
/// the lexer on the byte after them: the rest of the name is read and the
/// whole name returned.
proof fn lemma_tokenize_name(input: Seq<u8>, i: int, n: int, j: int, l: LexerV)
    requires
        name_at(input, i, n),
        1 <= j <= n,
        l.input == input,
        l.state == State::InnerName,
        l.token == input.subrange(i, i + j),
        i + j < input.len() ==> l.cur == input[i + j] && l.pos == i + j + 1,
        i + j == input.len() ==> l.cur == 0 && l.pos == input.len(),
    ensures
        spec_tokenize(spec_all_scanners(), l) == (
            after_name(input, i + n),
            TokenizeResultV::Token(TokenV::Chvc(ascii_chars(input.subrange(i, i + n)))),
        ),
    decreases n - j,
{
    let c = l.cur;
    if j == n {
        // On the whitespace after the name, or at the end of the input.
        let name = input.subrange(i, i + n);
        assert forall|k: int| 0 <= k < name.len() implies #[trigger] name[k] < 128 by {
            if k > 0 {
                assert(name_byte(input[i + k]));
            }
        }
        lemma_ascii_utf8(name);
        lemma_pass_name_end(l, c);
        let done = consume(LexerV { token: Seq::empty(), state: State::Normal, ..l });
        assert(done == after_name(input, i + n));
    } else {
        assert(name_byte(input[i + j]));
        assert(c != 0);
        lemma_pass_name_byte(l, c);
        let l2 = consume(LexerV { token: l.token.push(c), ..l });
        assert(l2.token == input.subrange(i, i + j + 1));
        lemma_tokenize_name(input, i, n, j + 1, l2);
    }
}

/// Reaching a name in the normal state, wherever it stands in the input, the
/// lexer with the language's scanners returns one name token holding exactly
/// the name's characters (a lower-case letter followed by letters, digits
/// and `-`), and goes on after the whitespace that ends it.
pub proof fn lemma_name_token(input: Seq<u8>, i: int, n: int)
    requires
        name_at(input, i, n),
    ensures
        spec_tokenize(
            spec_all_scanners(),
            LexerV { input, pos: (i + 1) as nat, cur: input[i], state: State::Normal, token: Seq::empty() },
        ) == (
            after_name(input, i + n),
            TokenizeResultV::Token(TokenV::Chvc(ascii_chars(input.subrange(i, i + n)))),
        ),
        ({
            let l = LexerV { input, pos: (i + 1) as nat, cur: input[i], state: State::Normal, token: Seq::empty() };
            let (rest, e) = spec_tokenize_all(spec_all_scanners(), after_name(input, i + n));
            spec_tokenize_all(spec_all_scanners(), l)
                == (seq![TokenV::Chvc(ascii_chars(input.subrange(i, i + n)))] + rest, e)
        }),
{
    let s = spec_all_scanners();
    let l = LexerV { input, pos: (i + 1) as nat, cur: input[i], state: State::Normal, token: Seq::empty() };
    let c = input[i];
    lemma_pass_name_start(l, c);
    let l2 = consume(LexerV { state: State::InnerName, token: l.token.push(c), ..l });
    assert(l.token.push(c) == input.subrange(i, i + 1));
    lemma_tokenize_name(input, i, n, 1, l2);
    assert(spec_tokenize(s, l) == spec_tokenize(s, l2));
}

/// A whole input that is a name lexes, with the language's scanners, as one
/// name token holding exactly its characters, and then ends without error.
pub proof fn lemma_name_lexes_whole(input: Seq<u8>)
    requires
        is_name(input),
    ensures
        spec_tokenize_all(
            spec_all_scanners(),
            LexerV { input, pos: 0, cur: FIRST_CHAR, state: State::Normal, token: Seq::empty() },
        ) == (seq![TokenV::Chvc(ascii_chars(input))], None::<Error>),
{
    let s = spec_all_scanners();
    let n = input.len() as int;
    let l0 = LexerV { input, pos: 0, cur: FIRST_CHAR, state: State::Normal, token: Seq::empty() };
    let t = TokenV::Chvc(ascii_chars(input));
    assert(name_at(input, 0, n));
    lemma_pass_first(l0);
    let l1 = consume(l0);
    assert(spec_tokenize(s, l0) == spec_tokenize(s, l1));
    lemma_name_token(input, 0, n);
    assert(input.subrange(0, n) == input);
    let e = after_name(input, n);
    lemma_pass_end(e);
    assert(spec_tokenize(s, e) == (e, TokenizeResultV::EOF));
    assert(spec_tokenize_all(s, e) == (Seq::<TokenV>::empty(), None::<Error>));
    assert(seq![t] + Seq::<TokenV>::empty() == seq![t]);
}

} // verus!
