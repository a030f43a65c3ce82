//! What the parser builds from a sequence of tokens.
//!
//! Every function takes the tokens, the machine and a position, and gives the
//! machine after the nodes it allocates, the position after the tokens it
//! reads, and the node it built (or why it could not).  Positions never go
//! back: where a function continues after a part, it continues no earlier than
//! where it was.

use vstd::prelude::*;
use crate::vm::{HeliqsV, EpiqV, NodeId, TokenV, BindingV};
use crate::vm::graph::find_binding_from;
use crate::text::parse_i64_spec;
use crate::lexer;
use super::error::Error;

verus! {

/// The node of the unit value, allocated first.
pub const UNIT_INDX: NodeId = 0;

/// Machine, position, and the node built.
pub type Parsed = (HeliqsV, nat, Result<NodeId, Error>);

/// The token at `pos`; `None` past the last token.
pub open spec fn at(toks: Seq<TokenV>, pos: nat) -> Option<TokenV> {
    if pos < toks.len() {
        Some(toks[pos as int])
    } else {
        None
    }
}

/// How many tokens are left from `pos` on.
pub open spec fn rest(toks: Seq<TokenV>, pos: nat) -> nat {
    if pos <= toks.len() {
        (toks.len() - pos) as nat
    } else {
        0
    }
}

/// The later of two positions.
pub open spec fn later(p: nat, q: nat) -> nat {
    if p >= q {
        p
    } else {
        q
    }
}

/// A new node holding `e`, the position staying at `pos`.
pub open spec fn new_node(vm: HeliqsV, pos: nat, e: EpiqV) -> Parsed {
    if vm.nodes.len() < usize::MAX {
        (vm.with_node(e), pos, Ok(vm.nodes.len() as NodeId))
    } else {
        (vm, pos, Err(Error::Full))
    }
}

/// The piq that a tag makes of `p` and `q`: the tags `>`, `:`, `!`, `@`, `?`,
/// `%`, `#`, `.` and `\` have piqs of their own; any other tag makes a `Tpiq`.
pub open spec fn otag_epiq(o: Seq<char>, p: NodeId, q: NodeId) -> EpiqV {
    if o == seq!['>'] {
        EpiqV::Eval(p, q)
    } else if o == seq![':'] {
        EpiqV::Lpiq(p, q)
    } else if o == seq!['!'] {
        EpiqV::Appl(p, q)
    } else if o == seq!['@'] {
        EpiqV::Rslv(p, q)
    } else if o == seq!['?'] {
        EpiqV::Cond(p, q)
    } else if o == seq!['%'] {
        EpiqV::Envn(p, q)
    } else if o == seq!['#'] {
        EpiqV::Bind(p, q)
    } else if o == seq!['.'] {
        EpiqV::Accs(p, q)
    } else if o == seq!['\\'] {
        EpiqV::Lmbd(p, q)
    } else {
        EpiqV::Tpiq { o, p, q }
    }
}

/// An A-expression: `'tag q`, `|tag p q`, `^tag p q`, or an expression,
/// possibly followed by `:` and more expressions.
pub open spec fn p_aexp(toks: Seq<TokenV>, vm: HeliqsV, pos: nat) -> Parsed
    decreases rest(toks, pos), 5nat,
{
    match at(toks, pos) {
        Some(TokenV::Sgqt) => p_tpiq_single(toks, vm, pos),
        Some(TokenV::Pipe) => p_tpiq(toks, vm, pos),
        Some(TokenV::Crrt) => p_mpiq(toks, vm, pos),
        _ => {
            let (vm1, a, r) = p_expression(toks, vm, pos);
            let a = later(a, pos);
            match r {
                Ok(l) => if at(toks, a) == Some(TokenV::Coln) {
                    p_cons(toks, vm1, a, l)
                } else {
                    (vm1, a, Ok(l))
                },
                Err(e) => (vm1, a, Err(e)),
            }
        },
    }
}

/// `'tag q`: a tagged piq whose p is the unit.
pub open spec fn p_tpiq_single(toks: Seq<TokenV>, vm: HeliqsV, pos: nat) -> Parsed
    decreases rest(toks, pos), 4nat,
{
    if at(toks, pos) != Some(TokenV::Sgqt) {
        (vm, pos, Err(Error::Unexpected(pos as usize)))
    } else {
        match at(toks, pos + 1) {
            Some(TokenV::Otag(o)) => {
                let (vm1, a, r) = p_aexp(toks, vm, pos + 2);
                let a = later(a, pos + 2);
                match r {
                    Ok(q) => new_node(vm1, a, otag_epiq(o, UNIT_INDX, q)),
                    Err(e) => (vm1, a, Err(e)),
                }
            },
            _ => (vm, pos + 1, Err(Error::TpiqSingle((pos + 1) as usize))),
        }
    }
}

/// `|tag p q`, or `|| q` (a quotation of q).
pub open spec fn p_tpiq(toks: Seq<TokenV>, vm: HeliqsV, pos: nat) -> Parsed
    decreases rest(toks, pos), 4nat,
{
    if at(toks, pos) != Some(TokenV::Pipe) {
        (vm, pos, Err(Error::Unexpected(pos as usize)))
    } else {
        match at(toks, pos + 1) {
            Some(TokenV::Otag(o)) => {
                let (vm1, a, r1) = p_aexp(toks, vm, pos + 2);
                let a = later(a, pos + 2);
                match r1 {
                    Ok(p) => {
                        let (vm2, b, r2) = p_aexp(toks, vm1, a);
                        let b = later(b, a);
                        match r2 {
                            Ok(q) => new_node(vm2, b, otag_epiq(o, p, q)),
                            Err(e) => (vm2, b, Err(e)),
                        }
                    },
                    Err(e) => (vm1, a, Err(e)),
                }
            },
            Some(TokenV::Pipe) => {
                let (vm1, a, r) = p_aexp(toks, vm, pos + 2);
                let a = later(a, pos + 2);
                match r {
                    Ok(q) => new_node(vm1, a, EpiqV::Quot(UNIT_INDX, q)),
                    Err(e) => (vm1, a, Err(e)),
                }
            },
            _ => (vm, pos + 1, Err(Error::Tpiq((pos + 1) as usize))),
        }
    }
}

/// `^T`, `^F`, `^tag p q`, or `^[ ... ]` (a list to evaluate item by item).
pub open spec fn p_mpiq(toks: Seq<TokenV>, vm: HeliqsV, pos: nat) -> Parsed
    decreases rest(toks, pos), 3nat,
{
    if at(toks, pos) != Some(TokenV::Crrt) {
        (vm, pos, Err(Error::Unexpected(pos as usize)))
    } else {
        match at(toks, pos + 1) {
            Some(TokenV::Otag(o)) => if o == seq!['T'] {
                new_node(vm, pos + 2, EpiqV::Tval)
            } else if o == seq!['F'] {
                new_node(vm, pos + 2, EpiqV::Fval)
            } else {
                let (vm1, a, r1) = p_aexp(toks, vm, pos + 2);
                let a = later(a, pos + 2);
                match r1 {
                    Ok(p) => {
                        let (vm2, b, r2) = p_aexp(toks, vm1, a);
                        let b = later(b, a);
                        match r2 {
                            Ok(q) => new_node(vm2, b, EpiqV::Mpiq { o, p, q }),
                            Err(e) => (vm2, b, Err(e)),
                        }
                    },
                    Err(e) => (vm1, a, Err(e)),
                }
            },
            Some(TokenV::Lbkt) => {
                let (vm1, a, r) = p_list(toks, vm, pos + 1);
                let a = later(a, pos + 1);
                match r {
                    Ok(q) => new_node(vm1, a, EpiqV::Mpiq { o: seq!['>'], p: UNIT_INDX, q }),
                    Err(e) => (vm1, a, Err(e)),
                }
            },
            _ => (vm, pos + 1, Err(Error::Mpiq((pos + 1) as usize))),
        }
    }
}

/// `: expression`, after the expression `l`: a list cell; more `:` nest to the
/// right.
pub open spec fn p_cons(toks: Seq<TokenV>, vm: HeliqsV, pos: nat, l: NodeId) -> Parsed
    decreases rest(toks, pos), 0nat,
{
    if at(toks, pos) != Some(TokenV::Coln) {
        (vm, pos, Err(Error::Unexpected(pos as usize)))
    } else {
        let (vm1, a, r) = p_expression(toks, vm, pos + 1);
        let a = later(a, pos + 1);
        match r {
            Ok(q) => if at(toks, a) == Some(TokenV::Coln) {
                let (vm2, b, r2) = p_cons(toks, vm1, a, q);
                let b = later(b, a);
                match r2 {
                    Ok(nc) => new_node(vm2, b, EpiqV::Lpiq(l, nc)),
                    Err(e) => (vm2, b, Err(e)),
                }
            } else {
                new_node(vm1, a, EpiqV::Lpiq(l, q))
            },
            Err(e) => (vm1, a, Err(e)),
        }
    }
}

/// An expression: a list, a metadata piq, or a term with accessors, possibly
/// applied with `!`.
pub open spec fn p_expression(toks: Seq<TokenV>, vm: HeliqsV, pos: nat) -> Parsed
    decreases rest(toks, pos), 4nat,
{
    match at(toks, pos) {
        Some(TokenV::Lbkt) => p_list(toks, vm, pos),
        Some(TokenV::Crrt) => p_mpiq(toks, vm, pos),
        _ => {
            let (vm1, a, r) = p_accessing_term(toks, vm, pos);
            let a = later(a, pos);
            match r {
                Ok(l) => if at(toks, a) == Some(TokenV::Bang) {
                    p_apply(toks, vm1, a, l)
                } else {
                    (vm1, a, Ok(l))
                },
                Err(e) => (vm1, a, Err(e)),
            }
        },
    }
}

/// `[ a b ... ]`: list cells ending in a new unit node.
pub open spec fn p_list(toks: Seq<TokenV>, vm: HeliqsV, pos: nat) -> Parsed
    decreases rest(toks, pos), 3nat,
{
    if at(toks, pos) != Some(TokenV::Lbkt) {
        (vm, pos, Err(Error::Unexpected(pos as usize)))
    } else {
        p_list_internal(toks, vm, pos + 1)
    }
}

/// The items of a list, up to and with its `]`.
pub open spec fn p_list_internal(toks: Seq<TokenV>, vm: HeliqsV, pos: nat) -> Parsed
    decreases rest(toks, pos), 6nat,
{
    match at(toks, pos) {
        Some(TokenV::Rbkt) => new_node(vm, pos + 1, EpiqV::Unit),
        None => (vm, pos, Err(Error::Expression(pos as usize))),
        Some(_) => {
            let (vm1, a, r1) = p_aexp(toks, vm, pos);
            let a = later(a, pos + 1);
            match r1 {
                Ok(p) => {
                    let (vm2, b, r2) = p_list_internal(toks, vm1, a);
                    let b = later(b, a);
                    match r2 {
                        Ok(q) => new_node(vm2, b, EpiqV::Lpiq(p, q)),
                        Err(e) => (vm2, b, Err(e)),
                    }
                },
                Err(e) => (vm1, a, Err(e)),
            }
        },
    }
}

/// A term, possibly followed by `.` and accessors.
pub open spec fn p_accessing_term(toks: Seq<TokenV>, vm: HeliqsV, pos: nat) -> Parsed
    decreases rest(toks, pos), 3nat,
{
    let (vm1, a, r) = p_term(toks, vm, pos);
    let a = later(a, pos);
    match r {
        Ok(l) => if at(toks, a) == Some(TokenV::Stop) {
            p_accessor(toks, vm1, a, l)
        } else {
            (vm1, a, Ok(l))
        },
        Err(e) => (vm1, a, Err(e)),
    }
}

/// `. term` after `left`: `left` accessed by the term, evaluated; further `.`
/// access the result.
pub open spec fn p_accessor(toks: Seq<TokenV>, vm: HeliqsV, pos: nat, left: NodeId) -> Parsed
    decreases rest(toks, pos), 0nat,
{
    if at(toks, pos) != Some(TokenV::Stop) {
        (vm, pos, Err(Error::Unexpected(pos as usize)))
    } else {
        let (vm1, a, r) = p_term(toks, vm, pos + 1);
        let a = later(a, pos + 1);
        match r {
            Ok(q) => {
                let (vm2, a2, r2) = new_node(vm1, a, EpiqV::Accs(left, q));
                match r2 {
                    Ok(id) => if at(toks, a) == Some(TokenV::Stop) {
                        let (vm3, a3, r3) = new_node(vm2, a, EpiqV::Eval(UNIT_INDX, id));
                        match r3 {
                            Ok(new_left) => {
                                let (vm4, b, r4) = p_accessor(toks, vm3, a, new_left);
                                let b = later(b, a);
                                match r4 {
                                    Ok(nc) => new_node(vm4, b, EpiqV::Eval(UNIT_INDX, nc)),
                                    Err(e) => (vm4, b, Err(e)),
                                }
                            },
                            Err(e) => (vm3, a3, Err(e)),
                        }
                    } else {
                        new_node(vm2, a, EpiqV::Eval(UNIT_INDX, id))
                    },
                    Err(e) => (vm2, a2, Err(e)),
                }
            },
            Err(e) => (vm1, a, Err(e)),
        }
    }
}

/// A resolved name (`@name`) or a literal.
pub open spec fn p_term(toks: Seq<TokenV>, vm: HeliqsV, pos: nat) -> Parsed
    decreases rest(toks, pos), 2nat,
{
    match at(toks, pos) {
        Some(TokenV::Atsm) => p_resolve(toks, vm, pos),
        _ => p_literal(toks, vm, pos),
    }
}

/// `! expression` after `left`: `left` applied to the expression, evaluated.
pub open spec fn p_apply(toks: Seq<TokenV>, vm: HeliqsV, pos: nat, left: NodeId) -> Parsed
    decreases rest(toks, pos), 0nat,
{
    if at(toks, pos) != Some(TokenV::Bang) {
        (vm, pos, Err(Error::Unexpected(pos as usize)))
    } else {
        let (vm1, a, r) = p_expression(toks, vm, pos + 1);
        let a = later(a, pos + 1);
        match r {
            Ok(q) => {
                let (vm2, a2, r2) = new_node(vm1, a, EpiqV::Appl(left, q));
                match r2 {
                    Ok(id) => new_node(vm2, a, EpiqV::Eval(UNIT_INDX, id)),
                    Err(e) => (vm2, a2, Err(e)),
                }
            },
            Err(e) => (vm1, a, Err(e)),
        }
    }
}

/// `@ literal`: the node the literal names, evaluated.
pub open spec fn p_resolve(toks: Seq<TokenV>, vm: HeliqsV, pos: nat) -> Parsed
    decreases rest(toks, pos), 1nat,
{
    if at(toks, pos) != Some(TokenV::Atsm) {
        (vm, pos, Err(Error::Unexpected(pos as usize)))
    } else {
        let (vm1, a, r) = p_literal(toks, vm, pos + 1);
        let a = later(a, pos + 1);
        match r {
            Ok(q) => {
                let (vm2, a2, r2) = new_node(vm1, a, EpiqV::Rslv(UNIT_INDX, q));
                match r2 {
                    Ok(id) => new_node(vm2, a, EpiqV::Eval(UNIT_INDX, id)),
                    Err(e) => (vm2, a2, Err(e)),
                }
            },
            Err(e) => (vm1, a, Err(e)),
        }
    }
}

/// A literal: `;` (the unit node, which becomes the entry point), a text in
/// double quotes, a name, or a number.
pub open spec fn p_literal(toks: Seq<TokenV>, vm: HeliqsV, pos: nat) -> Parsed
    decreases rest(toks, pos), 1nat,
{
    match at(toks, pos) {
        Some(TokenV::Smcl) => (HeliqsV { entry: Some(UNIT_INDX), ..vm }, pos + 1, Ok(UNIT_INDX)),
        Some(TokenV::Dbqt) => match at(toks, pos + 1) {
            Some(TokenV::Chvc(s)) => if at(toks, pos + 2) == Some(TokenV::Dbqt) {
                new_node(vm, pos + 3, EpiqV::Text(s))
            } else {
                (vm, pos + 2, Err(Error::Text(pos as usize)))
            },
            _ => (vm, pos + 1, Err(Error::Text(pos as usize))),
        },
        Some(TokenV::Chvc(s)) => new_node(vm, pos + 1, EpiqV::Name(s)),
        Some(TokenV::Nmbr(s)) => match parse_i64_spec(s) {
            Some(n) => new_node(vm, pos + 1, EpiqV::Uit8(n)),
            None => (vm, pos + 1, Err(Error::Number(pos as usize))),
        },
        _ => (vm, pos, Err(Error::Expression(pos as usize))),
    }
}

/// The names of the primitive functions, in the order in which they are
/// allocated.
pub open spec fn prim_names() -> Seq<Seq<char>> {
    seq![
        seq!['d', 'e', 'c', 'r'],
        seq!['l', 't', 'o', 'r', 'e', 'q'],
        seq!['e', 'q'],
        seq!['p', 'l', 'u', 's'],
        seq!['m', 'i', 'n', 'u', 's'],
        seq!['p', 'r', 'i', 'n', 't'],
        seq!['c', 'o', 'n', 'c', 'a', 't'],
        seq!['d', 'b', 'q', 't'],
    ]
}

/// The machine after a primitive named `name` is allocated and bound.
pub open spec fn add_prim(vm: HeliqsV, name: Seq<char>) -> HeliqsV {
    vm.with_node(EpiqV::Prim(name)).define(name, vm.nodes.len() as NodeId)
}

/// The machine after the primitives `names[..k]` are added.
pub open spec fn add_prims(vm: HeliqsV, names: Seq<Seq<char>>, k: nat) -> HeliqsV
    decreases k,
{
    if k == 0 {
        vm
    } else {
        add_prim(add_prims(vm, names, (k - 1) as nat), names[k - 1])
    }
}

/// The machine that a program is parsed into: the unit node, then the
/// primitive functions, each bound to its name.
pub open spec fn setup(vm: HeliqsV) -> HeliqsV {
    add_prims(vm.with_node(EpiqV::Unit), prim_names(), 8)
}

/// A whole program: the tokens (and the lexer's error, if it stopped on one)
/// parsed after the setup, as one A-expression.  A parse that fails reports
/// the lexer's error where there is one.
pub open spec fn spec_parse(toks: Seq<TokenV>, end: Option<lexer::Error>, vm: HeliqsV) -> (HeliqsV, Result<NodeId, Error>) {
    let (vm1, _, r) = p_aexp(toks, setup(vm), 0);
    (vm1, match r {
        Ok(i) => Ok(i),
        Err(e) => match end {
            Some(le) => Err(Error::Lexer(le)),
            None => Err(e),
        },
    })
}

/// The primitive names differ from one another.
proof fn lemma_prim_names_distinct()
    ensures
        forall|j: int, k: int| 0 <= j < 8 && 0 <= k < 8 && j != k ==> #[trigger] prim_names()[j] != #[trigger] prim_names()[k],
{
    let n = prim_names();
    assert(n[0][0] != n[3][0] && n[0][1] != n[7][1] && n[3][0] != n[7][0]);
    assert(n[4][1] != n[5][1]);
    assert(n[1][0] != n[6][0]);
}

/// The bindings that setting up makes, one per primitive, in order.
pub open spec fn prim_bindings(k: nat) -> Seq<BindingV> {
    Seq::new(k, |j: int| (prim_names()[j], Some((j + 1) as NodeId)))
}

/// The nodes that setting up makes: the unit node, then the primitives.
pub open spec fn prim_nodes(k: nat) -> Seq<EpiqV> {
    seq![EpiqV::Unit] + Seq::new(k, |j: int| EpiqV::Prim(prim_names()[j]))
}

proof fn lemma_add_prims(vm: HeliqsV, k: nat)
    requires
        vm.nodes == seq![EpiqV::Unit],
        vm.frames == seq![Seq::<BindingV>::empty()],
        k <= 8,
    ensures
        add_prims(vm, prim_names(), k).nodes == prim_nodes(k),
        add_prims(vm, prim_names(), k).frames == seq![prim_bindings(k)],
    decreases k,
{
    if k == 0 {
        assert(prim_nodes(0) =~= seq![EpiqV::Unit]);
        assert(prim_bindings(0) =~= Seq::<BindingV>::empty());
    } else {
        let k1 = (k - 1) as nat;
        lemma_add_prims(vm, k1);
        lemma_prim_names_distinct();
        let before = add_prims(vm, prim_names(), k1);
        let name = prim_names()[k1 as int];
        assert(before.frames.len() - 1 == 0);
        assert forall|j: int| 0 <= j < prim_bindings(k1).len() implies #[trigger] prim_bindings(k1)[j].0 != name by {
            assert(prim_names()[j] != prim_names()[k1 as int]);
        }
        lemma_no_binding(prim_bindings(k1), name, 0);
        assert(prim_nodes(k) =~= prim_nodes(k1).push(EpiqV::Prim(name)));
        assert(prim_bindings(k) =~= prim_bindings(k1).push((name, Some(k as NodeId))));
    }
}

/// A frame none of whose bindings from `i` on has the name has no binding
/// of it from `i` on.
proof fn lemma_no_binding(frame: Seq<BindingV>, name: Seq<char>, i: int)
    requires
        0 <= i,
        forall|j: int| 0 <= j < frame.len() ==> #[trigger] frame[j].0 != name,
    ensures
        find_binding_from(frame, name, i) is None,
    decreases frame.len() - i,
{
    if i < frame.len() {
        lemma_no_binding(frame, name, i + 1);
    }
}

/// In the bindings of the primitives, each name is found at its own place.
proof fn lemma_find_prim(k: int, i: int)
    requires
        0 <= i <= k < 8,
    ensures
        find_binding_from(prim_bindings(8), prim_names()[k], i) == Some(k),
    decreases k - i,
{
    lemma_prim_names_distinct();
    if i < k {
        assert(prim_bindings(8)[i].0 == prim_names()[i]);
        lemma_find_prim(k, i + 1);
    }
}

/// Setting up a machine with no node and one empty frame allocates the unit
/// node first and then each primitive, bound to its name.
pub proof fn lemma_setup(vm: HeliqsV)
    requires
        vm.nodes.len() == 0,
        vm.frames == seq![Seq::<BindingV>::empty()],
    ensures
        setup(vm).nodes.len() == 9,
        setup(vm).nodes[0] == EpiqV::Unit,
        forall|k: int| 0 <= k < 8 ==> #[trigger] setup(vm).nodes[k + 1] == EpiqV::Prim(prim_names()[k]),
        forall|k: int| 0 <= k < 8 ==> #[trigger] setup(vm).resolve(prim_names()[k]) == Some((k + 1) as NodeId),
{
    let vm0 = vm.with_node(EpiqV::Unit);
    assert(vm0.nodes =~= seq![EpiqV::Unit]);
    lemma_add_prims(vm0, 8);
    let s = setup(vm);
    assert forall|k: int| 0 <= k < 8 implies #[trigger] s.resolve(prim_names()[k]) == Some((k + 1) as NodeId) by {
        lemma_find_prim(k, 0);
        assert(s.frames[0] == prim_bindings(8));
        assert(prim_bindings(8)[k].1 == Some((k + 1) as NodeId));
    }
    assert forall|k: int| 0 <= k < 8 implies #[trigger] s.nodes[k + 1] == EpiqV::Prim(prim_names()[k]) by {
        assert(prim_nodes(8)[k + 1] == EpiqV::Prim(prim_names()[k]));
    }
}

/// The tokens of a plain literal: a name, a number that fits in an `i64`,
/// or a text in double quotes.
pub open spec fn plain_literal(l: Seq<TokenV>) -> bool {
    ||| l.len() == 1 && l[0] is Chvc
    ||| l.len() == 1 && (l[0] matches TokenV::Nmbr(s) && parse_i64_spec(s) is Some)
    ||| l.len() == 3 && l[0] == TokenV::Dbqt && l[1] is Chvc && l[2] == TokenV::Dbqt
}

/// The piq that a plain literal stands for.
pub open spec fn literal_epiq(l: Seq<TokenV>) -> EpiqV {
    match l[0] {
        TokenV::Chvc(s) => EpiqV::Name(s),
        TokenV::Nmbr(s) => EpiqV::Uit8(parse_i64_spec(s).unwrap()),
        _ => match l[1] {
            TokenV::Chvc(s) => EpiqV::Text(s),
            _ => EpiqV::Unit,
        },
    }
}

/// The tokens from `pos` on begin with `l`.
pub open spec fn stands_at(toks: Seq<TokenV>, pos: nat, l: Seq<TokenV>) -> bool {
    &&& pos + l.len() <= toks.len()
    &&& forall|k: int| 0 <= k < l.len() ==> #[trigger] toks[pos + k] == l[k]
}

/// A plain literal followed by anything but `.` or `!` is an expression of
/// its own: a new node holding what it stands for.
proof fn lemma_literal_expression(toks: Seq<TokenV>, vm: HeliqsV, pos: nat, l: Seq<TokenV>)
    requires
        plain_literal(l),
        stands_at(toks, pos, l),
        at(toks, pos + l.len()) != Some(TokenV::Stop),
        at(toks, pos + l.len()) != Some(TokenV::Bang),
    ensures
        p_expression(toks, vm, pos) == new_node(vm, pos + l.len(), literal_epiq(l)),
{
    assert(toks[pos + 0int] == l[0]);
    if l.len() == 3 {
        assert(toks[pos + 1int] == l[1]);
        assert(toks[pos + 2int] == l[2]);
    }
    let n = new_node(vm, pos + l.len(), literal_epiq(l));
    assert(p_literal(toks, vm, pos) == n);
    assert(p_term(toks, vm, pos) == n);
    assert(p_accessing_term(toks, vm, pos) == n);
}

/// A plain literal is a term of its own: a new node holding what it stands
/// for.
proof fn lemma_literal_term(toks: Seq<TokenV>, vm: HeliqsV, pos: nat, l: Seq<TokenV>)
    requires
        plain_literal(l),
        stands_at(toks, pos, l),
    ensures
        p_term(toks, vm, pos) == new_node(vm, pos + l.len(), literal_epiq(l)),
{
    assert(toks[pos + 0int] == l[0]);
    if l.len() == 3 {
        assert(toks[pos + 1int] == l[1]);
        assert(toks[pos + 2int] == l[2]);
    }
    assert(p_literal(toks, vm, pos) == new_node(vm, pos + l.len(), literal_epiq(l)));
}

/// A plain literal followed by anything but `.`, `!` or `:` is an
/// A-expression of its own.
proof fn lemma_literal_aexp(toks: Seq<TokenV>, vm: HeliqsV, pos: nat, l: Seq<TokenV>)
    requires
        plain_literal(l),
        stands_at(toks, pos, l),
        at(toks, pos + l.len()) != Some(TokenV::Stop),
        at(toks, pos + l.len()) != Some(TokenV::Bang),
        at(toks, pos + l.len()) != Some(TokenV::Coln),
    ensures
        p_aexp(toks, vm, pos) == new_node(vm, pos + l.len(), literal_epiq(l)),
{
    assert(toks[pos + 0int] == l[0]);
    lemma_literal_expression(toks, vm, pos, l);
}

/// `a:b:c` is sugar for `|: a |: b c`: where `a`, `b` and `c` are plain
/// literals (names, numbers, texts), both build the same nodes, in the same
/// order, and give the same node.
pub proof fn lemma_infix_cons(vm: HeliqsV, a: Seq<TokenV>, b: Seq<TokenV>, c: Seq<TokenV>)
    requires
        plain_literal(a),
        plain_literal(b),
        plain_literal(c),
        vm.nodes.len() + 5 < usize::MAX,
    ensures
        ({
            let infix = a + seq![TokenV::Coln] + b + seq![TokenV::Coln] + c;
            let prefix = seq![TokenV::Pipe, TokenV::Otag(seq![':'])] + a
                + seq![TokenV::Pipe, TokenV::Otag(seq![':'])] + b + c;
            let (vm1, _, r1) = p_aexp(infix, vm, 0);
            let (vm2, _, r2) = p_aexp(prefix, vm, 0);
            vm1 == vm2 && r1 == r2
        }),
{
    let infix = a + seq![TokenV::Coln] + b + seq![TokenV::Coln] + c;
    let prefix = seq![TokenV::Pipe, TokenV::Otag(seq![':'])] + a
        + seq![TokenV::Pipe, TokenV::Otag(seq![':'])] + b + c;
    let na = a.len();
    let nb = b.len();
    let nc = c.len();
    let n = vm.nodes.len();
    let vma = vm.with_node(literal_epiq(a));
    let vmb = vma.with_node(literal_epiq(b));
    let vmc = vmb.with_node(literal_epiq(c));
    let vmd = vmc.with_node(EpiqV::Lpiq((n + 1) as NodeId, (n + 2) as NodeId));
    let vme = vmd.with_node(EpiqV::Lpiq(n as NodeId, (n + 3) as NodeId));
    assert(seq![':'] != seq!['>']) by { assert(seq![':'][0] != seq!['>'][0]); }
    assert(otag_epiq(seq![':'], (n + 1) as NodeId, (n + 2) as NodeId) == EpiqV::Lpiq((n + 1) as NodeId, (n + 2) as NodeId));
    assert(otag_epiq(seq![':'], n as NodeId, (n + 3) as NodeId) == EpiqV::Lpiq(n as NodeId, (n + 3) as NodeId));

    // a:b:c
    let e = na + nb + nc + 2;
    assert(infix.len() == e);
    assert(infix[na as int] == TokenV::Coln);
    assert(infix[(na + 1 + nb) as int] == TokenV::Coln);
    assert(stands_at(infix, 0, a)) by {
        assert forall|k: int| 0 <= k < na implies #[trigger] infix[0 + k] == a[k] by {}
    }
    assert(stands_at(infix, na + 1, b)) by {
        assert forall|k: int| 0 <= k < nb implies #[trigger] infix[(na + 1) + k] == b[k] by {}
    }
    assert(stands_at(infix, na + nb + 2, c)) by {
        assert forall|k: int| 0 <= k < nc implies #[trigger] infix[(na + nb + 2) + k] == c[k] by {}
    }
    lemma_literal_expression(infix, vm, 0, a);
    lemma_literal_expression(infix, vma, na + 1, b);
    lemma_literal_expression(infix, vmb, na + nb + 2, c);
    assert(p_cons(infix, vmb, na + 1 + nb, (n + 1) as NodeId) == (vmd, e, Ok::<NodeId, Error>((n + 3) as NodeId)));
    assert(p_cons(infix, vma, na, n as NodeId) == (vme, e, Ok::<NodeId, Error>((n + 4) as NodeId)));
    assert(p_aexp(infix, vm, 0) == (vme, e, Ok::<NodeId, Error>((n + 4) as NodeId)));

    // |: a |: b c
    let f = na + nb + nc + 4;
    assert(prefix.len() == f);
    assert(prefix[0] == TokenV::Pipe);
    assert(prefix[1] == TokenV::Otag(seq![':']));
    assert(prefix[(2 + na) as int] == TokenV::Pipe);
    assert(prefix[(3 + na) as int] == TokenV::Otag(seq![':']));
    assert(stands_at(prefix, 2, a)) by {
        assert forall|k: int| 0 <= k < na implies #[trigger] prefix[2 + k] == a[k] by {}
    }
    assert(stands_at(prefix, na + 4, b)) by {
        assert forall|k: int| 0 <= k < nb implies #[trigger] prefix[(na + 4) + k] == b[k] by {}
    }
    assert(stands_at(prefix, na + nb + 4, c)) by {
        assert forall|k: int| 0 <= k < nc implies #[trigger] prefix[(na + nb + 4) + k] == c[k] by {}
    }
    lemma_literal_aexp(prefix, vm, 2, a);
    lemma_literal_aexp(prefix, vma, na + 4, b);
    lemma_literal_aexp(prefix, vmb, na + nb + 4, c);
    assert(p_tpiq(prefix, vma, na + 2) == (vmd, f, Ok::<NodeId, Error>((n + 3) as NodeId)));
    assert(p_aexp(prefix, vma, na + 2) == (vmd, f, Ok::<NodeId, Error>((n + 3) as NodeId)));
    assert(p_tpiq(prefix, vm, 0) == (vme, f, Ok::<NodeId, Error>((n + 4) as NodeId)));
}

/// The same law for whole programs: `a:b:c` and `|: a |: b c` parse into
/// the same machine and the same node, whatever the lexer reported.
pub proof fn lemma_infix_cons_parse(vm: HeliqsV, a: Seq<TokenV>, b: Seq<TokenV>, c: Seq<TokenV>, end: Option<lexer::Error>)
    requires
        plain_literal(a),
        plain_literal(b),
        plain_literal(c),
        setup(vm).nodes.len() + 5 < usize::MAX,
    ensures
        spec_parse(a + seq![TokenV::Coln] + b + seq![TokenV::Coln] + c, end, vm)
            == spec_parse(
            seq![TokenV::Pipe, TokenV::Otag(seq![':'])] + a + seq![TokenV::Pipe, TokenV::Otag(seq![':'])] + b + c,
            end,
            vm,
        ),
{
    lemma_infix_cons(setup(vm), a, b, c);
}

/// `left . term`: the receiver `left` and the accessor `term` are parsed in
/// turn; then a new access node is made whose p is the receiver's node and
/// whose q is the accessor's node, and a new node evaluates it, which is the
/// result.  (Where another `.` follows, the result is accessed again.)
pub proof fn lemma_accessor_parts(
    toks: Seq<TokenV>,
    vm: HeliqsV,
    pos: nat,
    vm1: HeliqsV,
    a: nat,
    l: NodeId,
    vm2: HeliqsV,
    b: nat,
    q: NodeId,
)
    requires
        p_term(toks, vm, pos) == (vm1, a, Ok::<NodeId, Error>(l)),
        a >= pos,
        at(toks, a) == Some(TokenV::Stop),
        p_term(toks, vm1, a + 1) == (vm2, b, Ok::<NodeId, Error>(q)),
        b >= a + 1,
        at(toks, b) != Some(TokenV::Stop),
        vm2.nodes.len() + 2 < usize::MAX,
    ensures
        ({
            let n = vm2.nodes.len();
            p_accessing_term(toks, vm, pos) == (
                vm2.with_node(EpiqV::Accs(l, q)).with_node(EpiqV::Eval(UNIT_INDX, n as NodeId)),
                b,
                Ok::<NodeId, Error>((n + 1) as NodeId),
            )
        }),
{
    assert(p_accessor(toks, vm1, a, l) == p_accessing_term(toks, vm, pos));
}

/// The infix access `a.b` and the prefix form `|. a b`, where `a` and `b`
/// are plain literals, make the same access node: its p is the node of `a`
/// and its q the node of `b`.
pub proof fn lemma_accessor_as_prefix(vm: HeliqsV, a: Seq<TokenV>, b: Seq<TokenV>)
    requires
        plain_literal(a),
        plain_literal(b),
        vm.nodes.len() + 5 < usize::MAX,
    ensures
        ({
            let n = vm.nodes.len();
            let infix = a + seq![TokenV::Stop] + b;
            let prefix = seq![TokenV::Pipe, TokenV::Otag(seq!['.'])] + a + b;
            let (vm1, _, r1) = p_aexp(infix, vm, 0);
            let (vm2, _, r2) = p_aexp(prefix, vm, 0);
            &&& vm1.nodes[n + 2int] == EpiqV::Accs(n as NodeId, (n + 1) as NodeId)
            &&& vm2.nodes[n + 2int] == EpiqV::Accs(n as NodeId, (n + 1) as NodeId)
            &&& vm1.nodes[n + 3int] == EpiqV::Eval(UNIT_INDX, (n + 2) as NodeId)
            &&& r1 == Ok::<NodeId, Error>((n + 3) as NodeId)
            &&& r2 == Ok::<NodeId, Error>((n + 2) as NodeId)
        }),
{
    let infix = a + seq![TokenV::Stop] + b;
    let prefix = seq![TokenV::Pipe, TokenV::Otag(seq!['.'])] + a + b;
    let na = a.len();
    let nb = b.len();
    let n = vm.nodes.len();
    let vma = vm.with_node(literal_epiq(a));
    let vmb = vma.with_node(literal_epiq(b));
    let vmc = vmb.with_node(EpiqV::Accs(n as NodeId, (n + 1) as NodeId));
    let vmd = vmc.with_node(EpiqV::Eval(UNIT_INDX, (n + 2) as NodeId));

    // a.b
    assert(infix.len() == na + nb + 1);
    assert(infix[na as int] == TokenV::Stop);
    assert(stands_at(infix, 0, a)) by {
        assert forall|k: int| 0 <= k < na implies #[trigger] infix[0 + k] == a[k] by {}
    }
    assert(stands_at(infix, na + 1, b)) by {
        assert forall|k: int| 0 <= k < nb implies #[trigger] infix[(na + 1) + k] == b[k] by {}
    }
    lemma_literal_term(infix, vm, 0, a);
    lemma_literal_term(infix, vma, na + 1, b);
    lemma_accessor_parts(infix, vm, 0, vma, na, n as NodeId, vmb, na + nb + 1, (n + 1) as NodeId);
    assert(p_expression(infix, vm, 0) == (vmd, na + nb + 1, Ok::<NodeId, Error>((n + 3) as NodeId)));
    assert(infix[0] == a[0]);
    assert(p_aexp(infix, vm, 0) == (vmd, na + nb + 1, Ok::<NodeId, Error>((n + 3) as NodeId)));

    // |. a b
    assert(prefix.len() == na + nb + 2);
    assert(prefix[0] == TokenV::Pipe);
    assert(prefix[1] == TokenV::Otag(seq!['.']));
    assert(stands_at(prefix, 2, a)) by {
        assert forall|k: int| 0 <= k < na implies #[trigger] prefix[2 + k] == a[k] by {}
    }
    assert(stands_at(prefix, na + 2, b)) by {
        assert forall|k: int| 0 <= k < nb implies #[trigger] prefix[(na + 2) + k] == b[k] by {}
    }
    lemma_literal_aexp(prefix, vm, 2, a);
    lemma_literal_aexp(prefix, vma, na + 2, b);
    assert(seq!['.'] != seq!['>']) by { assert(seq!['.'][0] != seq!['>'][0]); }
    assert(seq!['.'] != seq![':']) by { assert(seq!['.'][0] != seq![':'][0]); }
    assert(seq!['.'] != seq!['!']) by { assert(seq!['.'][0] != seq!['!'][0]); }
    assert(seq!['.'] != seq!['@']) by { assert(seq!['.'][0] != seq!['@'][0]); }
    assert(seq!['.'] != seq!['?']) by { assert(seq!['.'][0] != seq!['?'][0]); }
    assert(seq!['.'] != seq!['%']) by { assert(seq!['.'][0] != seq!['%'][0]); }
    assert(seq!['.'] != seq!['#']) by { assert(seq!['.'][0] != seq!['#'][0]); }
    assert(otag_epiq(seq!['.'], n as NodeId, (n + 1) as NodeId) == EpiqV::Accs(n as NodeId, (n + 1) as NodeId));
    assert(p_tpiq(prefix, vm, 0) == (vmc, na + nb + 2, Ok::<NodeId, Error>((n + 2) as NodeId)));
}

} // verus!
