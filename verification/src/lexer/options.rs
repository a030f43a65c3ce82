//! The usual answers of scanners.

use vstd::prelude::*;
use super::{State, ScanOption, ScanResult, ScanResultV};

verus! {

/// Take the character into the token and move to `s`.
pub open spec fn spec_push_into_mode(s: State) -> ScanResultV {
    ScanResultV::Continue(seq![ScanOption::PushCharToToken, ScanOption::ChangeState(s)])
}

/// Take the character into the token.
pub open spec fn spec_push() -> ScanResultV {
    ScanResultV::Continue(seq![ScanOption::PushCharToToken])
}

/// End the token after this character and move to `s`.
pub open spec fn spec_finish_into_mode(s: State) -> ScanResultV {
    ScanResultV::Finish(seq![ScanOption::ClearBytes, ScanOption::ChangeState(s), ScanOption::ConsumeChar])
}

/// End the token after this character.
pub open spec fn spec_finish() -> ScanResultV {
    spec_finish_into_mode(State::Normal)
}

/// Nothing to do: let the next scanner look.
pub open spec fn spec_go_ahead() -> ScanResultV {
    ScanResultV::Continue(Seq::empty())
}

/// End the token before this character and move to `s`.
pub open spec fn spec_delimite_into_mode(s: State) -> ScanResultV {
    ScanResultV::Finish(seq![ScanOption::ClearBytes, ScanOption::ChangeState(s)])
}

/// End the token before this character.
pub open spec fn spec_delimite() -> ScanResultV {
    spec_delimite_into_mode(State::Normal)
}

/// Skip the character.
pub open spec fn spec_next_char() -> ScanResultV {
    ScanResultV::Continue(seq![ScanOption::ConsumeChar])
}

/// Move to `s` without taking the character.
pub open spec fn spec_change_mode(s: State) -> ScanResultV {
    ScanResultV::Continue(seq![ScanOption::ChangeState(s)])
}

pub fn push_into_mode(s: State) -> (r: ScanResult)
    ensures
        r@ == spec_push_into_mode(s),
{
    let mut v = Vec::new();
    v.push(ScanOption::PushCharToToken);
    v.push(ScanOption::ChangeState(s));
    assert(v@ =~= seq![ScanOption::PushCharToToken, ScanOption::ChangeState(s)]);
    ScanResult::Continue(v)
}

pub fn push() -> (r: ScanResult)
    ensures
        r@ == spec_push(),
{
    let mut v = Vec::new();
    v.push(ScanOption::PushCharToToken);
    assert(v@ =~= seq![ScanOption::PushCharToToken]);
    ScanResult::Continue(v)
}

pub fn finish_into_mode(s: State) -> (r: ScanResult)
    ensures
        r@ == spec_finish_into_mode(s),
{
    let mut v = Vec::new();
    v.push(ScanOption::ClearBytes);
    v.push(ScanOption::ChangeState(s));
    v.push(ScanOption::ConsumeChar);
    assert(v@ =~= seq![ScanOption::ClearBytes, ScanOption::ChangeState(s), ScanOption::ConsumeChar]);
    ScanResult::Finish(v)
}

pub fn finish() -> (r: ScanResult)
    ensures
        r@ == spec_finish(),
{
    finish_into_mode(State::Normal)
}

pub fn go_ahead() -> (r: ScanResult)
    ensures
        r@ == spec_go_ahead(),
{
    let v = Vec::new();
    assert(v@ =~= Seq::<ScanOption>::empty());
    ScanResult::Continue(v)
}

pub fn delimite_into_mode(s: State) -> (r: ScanResult)
    ensures
        r@ == spec_delimite_into_mode(s),
{
    let mut v = Vec::new();
    v.push(ScanOption::ClearBytes);
    v.push(ScanOption::ChangeState(s));
    assert(v@ =~= seq![ScanOption::ClearBytes, ScanOption::ChangeState(s)]);
    ScanResult::Finish(v)
}

pub fn delimite() -> (r: ScanResult)
    ensures
        r@ == spec_delimite(),
{
    delimite_into_mode(State::Normal)
}

pub fn next_char() -> (r: ScanResult)
    ensures
        r@ == spec_next_char(),
{
    let mut v = Vec::new();
    v.push(ScanOption::ConsumeChar);
    assert(v@ =~= seq![ScanOption::ConsumeChar]);
    ScanResult::Continue(v)
}

pub fn change_mode(s: State) -> (r: ScanResult)
    ensures
        r@ == spec_change_mode(s),
{
    let mut v = Vec::new();
    v.push(ScanOption::ChangeState(s));
    assert(v@ =~= seq![ScanOption::ChangeState(s)]);
    ScanResult::Continue(v)
}

} // verus!
