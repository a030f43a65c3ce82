//! What walking and evaluating a node does to the machine.
//!
//! The walking and evaluating functions take the machine, the node(s) they
//! work on and a fuel that bounds how deep the evaluation may nest; they give
//! the machine afterwards and the resulting node, or why there is none.  Fuel
//! running out is reported as [`WalkError::Exhausted`].

use vstd::prelude::*;
use crate::vm::{HeliqsV, EpiqV, NodeId, BindingV};
use crate::parser::grammar::UNIT_INDX;
use super::WalkError;
use super::primitive::{
    first, second, allocated, prim_decrement, prim_plus, prim_minus, prim_print, prim_le_or_eq,
    prim_eq, prim_concat,
};

verus! {

/// The machine afterwards, and the resulting node.
pub type Walked = (HeliqsV, Result<NodeId, WalkError>);

/// How a node reads: a condition reads as a piq of the tag `?` over the same
/// parts, as the walker may turn it into one; any other node as it is.
pub open spec fn shape(e: EpiqV) -> EpiqV {
    match e {
        EpiqV::Cond(p, q) => EpiqV::Tpiq { o: seq!['?'], p, q },
        _ => e,
    }
}

/// Every node of `a` is still in `b`, and reads the same there: its tag and
/// its parts are as they were.
pub open spec fn shapes_kept(a: Seq<EpiqV>, b: Seq<EpiqV>) -> bool {
    &&& a.len() <= b.len()
    &&& forall|j: int| 0 <= j < a.len() ==> shape(#[trigger] b[j]) == shape(a[j])
}

/// Every frame but the innermost is as it was in `f0`, and no frame was
/// dropped.
pub open spec fn outer_kept(f0: Seq<Seq<BindingV>>, f1: Seq<Seq<BindingV>>) -> bool {
    &&& f0.len() <= f1.len()
    &&& forall|k: int| 0 <= k < f0.len() - 1 ==> #[trigger] f1[k] == f0[k]
}

/// The machine only grew: every node is still there and reads as it did,
/// only the innermost frame may have changed, and a valid entry point stays
/// valid; a result is a node of it, and it has as many frames as before.
pub open spec fn settled(vm0: HeliqsV, vm1: HeliqsV, r: Result<NodeId, WalkError>) -> bool {
    &&& vm0.nodes.len() <= vm1.nodes.len()
    &&& shapes_kept(vm0.nodes, vm1.nodes)
    &&& outer_kept(vm0.frames, vm1.frames)
    &&& r matches Ok(k) ==> k < vm1.nodes.len() && vm1.frames.len() == vm0.frames.len()
    &&& vm0.entry_ok() ==> vm1.entry_ok()
}

/// The list cell's first part.
pub open spec fn pval(vm: HeliqsV, i: NodeId) -> Result<NodeId, WalkError> {
    match vm.nodes[i as int] {
        EpiqV::Lpiq(p, _) => Ok(p),
        _ => Err(WalkError::NotList),
    }
}

/// The list cell's second part.
pub open spec fn qval(vm: HeliqsV, i: NodeId) -> Result<NodeId, WalkError> {
    match vm.nodes[i as int] {
        EpiqV::Lpiq(_, q) => Ok(q),
        _ => Err(WalkError::NotList),
    }
}

/// The piq that a walk rebuilds under the tag `o` from its walked parts.
pub open spec fn rebuilt(o: Seq<char>, p: NodeId, q: NodeId) -> EpiqV {
    if o == seq![':'] {
        EpiqV::Lpiq(p, q)
    } else if o == seq!['!'] {
        EpiqV::Appl(p, q)
    } else if o == seq!['@'] {
        EpiqV::Rslv(p, q)
    } else if o == seq!['?'] {
        EpiqV::Cond(p, q)
    } else if o == seq!['%'] {
        EpiqV::Envn(p, q)
    } else if o == seq!['#'] {
        EpiqV::Bind(p, q)
    } else if o == seq!['\\'] {
        EpiqV::Lmbd(p, q)
    } else {
        EpiqV::Tpiq { o, p, q }
    }
}

/// The machine with a new, empty, innermost frame.
pub open spec fn pushed_frame(vm: HeliqsV) -> HeliqsV {
    HeliqsV { frames: vm.frames.push(Seq::<BindingV>::empty()), ..vm }
}

/// The machine without its innermost frame.
pub open spec fn popped_frame(vm: HeliqsV) -> HeliqsV {
    HeliqsV { frames: vm.frames.drop_last(), ..vm }
}

/// Walking node `i`: an `Eval` piq is evaluated; a piq of the tags `:`,
/// `!`, `@`, `?`, `%`, `#` or of a tag of its own has its parts walked;
/// anything else stays as it is.  A block (`\`) is not walked into: its body
/// is evaluated when the block is applied, once its parameters are bound,
/// and not before.
pub open spec fn walk_at(vm: HeliqsV, i: NodeId, fuel: nat) -> Walked
    decreases fuel, 0nat, 0nat,
{
    if fuel == 0 {
        (vm, Err(WalkError::Exhausted))
    } else {
        let f = (fuel - 1) as nat;
        match vm.nodes[i as int] {
            EpiqV::Eval(_, q) => eval_at(vm, q, f),
            EpiqV::Tpiq { o, p, q } => walk_pair(vm, i, o, p, q, f),
            EpiqV::Lpiq(p, q) => walk_pair(vm, i, seq![':'], p, q, f),
            EpiqV::Appl(p, q) => walk_pair(vm, i, seq!['!'], p, q, f),
            EpiqV::Rslv(p, q) => walk_pair(vm, i, seq!['@'], p, q, f),
            EpiqV::Cond(p, q) => walk_pair(vm, i, seq!['?'], p, q, f),
            EpiqV::Envn(p, q) => walk_pair(vm, i, seq!['%'], p, q, f),
            EpiqV::Bind(p, q) => walk_pair(vm, i, seq!['#'], p, q, f),
            _ => (vm, Ok(i)),
        }
    }
}

/// Walking both parts of the piq `i`: where neither changes, `i` itself;
/// else a new piq of the same tag over the walked parts.
pub open spec fn walk_pair(vm: HeliqsV, i: NodeId, o: Seq<char>, p: NodeId, q: NodeId, fuel: nat) -> Walked
    decreases fuel, 1nat, 0nat,
{
    let (vm1, r1) = walk_at(vm, p, fuel);
    match r1 {
        Err(e) => (vm1, Err(e)),
        Ok(np) => {
            let (vm2, r2) = walk_at(vm1, q, fuel);
            match r2 {
                Err(e) => (vm2, Err(e)),
                Ok(nq) => if np == p && nq == q {
                    (vm2, Ok(i))
                } else {
                    allocated(vm2, rebuilt(o, np, nq))
                },
            }
        },
    }
}

/// Evaluating node `i`.
pub open spec fn eval_at(vm: HeliqsV, i: NodeId, fuel: nat) -> Walked
    decreases fuel, 0nat, 0nat,
{
    if fuel == 0 {
        (vm, Err(WalkError::Exhausted))
    } else {
        let f = (fuel - 1) as nat;
        match vm.nodes[i as int] {
            EpiqV::Unit | EpiqV::Tval | EpiqV::Fval | EpiqV::Uit8(_) | EpiqV::Name(_)
            | EpiqV::Text(_) => (vm, Ok(i)),
            EpiqV::Eval(_, q) => eval_at(vm, q, f),
            EpiqV::Lpiq(_, _) => (vm, Ok(i)),
            EpiqV::Quot(_, q) => (vm, Ok(q)),
            EpiqV::Appl(p, q) => apply_at(vm, p, q, f),
            EpiqV::Rslv(_, q) => resolve_at(vm, q, f),
            EpiqV::Cond(p, q) => condition_at(vm, i, p, q, f),
            EpiqV::Envn(_, _) => (vm, Ok(i)),
            EpiqV::Bind(p, q) => bind_at(vm, p, q, f),
            EpiqV::Accs(p, q) => access_at(vm, i, p, q, f),
            EpiqV::Lmbd(_, _) => (vm, Ok(i)),
            EpiqV::Tpiq { o, p, q } => macro_at(vm, o, p, q, f),
            EpiqV::Mpiq { o, q, .. } => if o == seq!['>'] {
                list_at(vm, q, f, vm.nodes.len())
            } else {
                (vm, Err(WalkError::UnknownMetadata))
            },
            EpiqV::Prim(_) => (vm, Err(WalkError::Invalid)),
        }
    }
}

/// Applying `p` to the arguments `q`: both are walked; a function is called
/// on the walked arguments, a primitive is run on them.
pub open spec fn apply_at(vm: HeliqsV, p: NodeId, q: NodeId, fuel: nat) -> Walked
    decreases fuel, 3nat, 0nat,
{
    let (vm1, r1) = walk_at(vm, p, fuel);
    match r1 {
        Err(e) => (vm1, Err(e)),
        Ok(l) => {
            let callee = vm1.nodes[l as int];
            let (vm2, r2) = walk_at(vm1, q, fuel);
            match r2 {
                Err(e) => (vm2, Err(e)),
                Ok(args) => match callee {
                    EpiqV::Lmbd(env, body) => lambda_at(vm2, env, body, args, fuel),
                    EpiqV::Prim(n) => primitive_at(vm2, args, n),
                    _ => (vm2, Err(WalkError::NotFunction)),
                },
            }
        },
    }
}

/// Calling a function: its environment is walked and must be a `%` piq whose
/// q lists the parameters; in a new frame the parameters are bound to the
/// arguments and the body is evaluated; the frame is dropped afterwards.
pub open spec fn lambda_at(vm: HeliqsV, env: NodeId, body: NodeId, args: NodeId, fuel: nat) -> Walked
    decreases fuel, 2nat, 0nat,
{
    let (vm1, r1) = walk_at(vm, env, fuel);
    match r1 {
        Err(e) => (vm1, Err(e)),
        Ok(we) => match vm1.nodes[we as int] {
            EpiqV::Envn(_, params) => if vm1.frames.len() >= usize::MAX {
                (vm1, Err(WalkError::Full))
            } else {
                let (vm2, r2) = assign_at(pushed_frame(vm1), params, args, vm1.nodes.len());
                match r2 {
                    Err(e) => (vm2, Err(e)),
                    Ok(_) => {
                        let (vm3, r3) = eval_at(vm2, body, fuel);
                        match r3 {
                            Err(e) => (vm3, Err(e)),
                            Ok(res) => (popped_frame(vm3), Ok(res)),
                        }
                    },
                }
            },
            _ => (vm1, Err(WalkError::NotEnvironment)),
        },
    }
}

/// Binding parameters to arguments, both lists, in the innermost frame: the
/// arguments decide how many are bound; a parameter that is not a name binds
/// the empty name.  An empty argument list binds nothing.  At most `budget`
/// more cells are followed: a list with no cycle has no more cells than the
/// machine has nodes, and a list that goes round a cycle stops with
/// [`WalkError::Exhausted`].
pub open spec fn assign_at(vm: HeliqsV, params: NodeId, args: NodeId, budget: nat) -> (HeliqsV, Result<(), WalkError>)
    decreases budget,
{
    if vm.nodes[args as int] is Unit {
        (vm, Ok(()))
    } else {
        match (pval(vm, args), qval(vm, args)) {
            (Ok(c), Ok(next_args)) => match (pval(vm, params), qval(vm, params)) {
                (Ok(pm), Ok(next_params)) => {
                    let name = match vm.nodes[pm as int] {
                        EpiqV::Name(s) => s,
                        _ => Seq::<char>::empty(),
                    };
                    let vm1 = vm.define(name, c);
                    if vm1.nodes[next_args as int] is Unit {
                        (vm1, Ok(()))
                    } else if budget > 0 {
                        assign_at(vm1, next_params, next_args, (budget - 1) as nat)
                    } else {
                        (vm1, Err(WalkError::Exhausted))
                    }
                },
                _ => (vm, Err(WalkError::NotList)),
            },
            _ => (vm, Err(WalkError::NotList)),
        }
    }
}

/// The names of the primitives that can be run.
pub open spec fn known_primitive(n: Seq<char>) -> bool {
    ||| n == seq!['d', 'e', 'c', 'r']
    ||| n == seq!['p', 'l', 'u', 's']
    ||| n == seq!['m', 'i', 'n', 'u', 's']
    ||| n == seq!['p', 'r', 'i', 'n', 't']
    ||| n == seq!['l', 't', 'o', 'r', 'e', 'q']
    ||| n == seq!['c', 'o', 'n', 'c', 'a', 't']
    ||| n == seq!['e', 'q']
}

/// `eq` compares by the kind of its first argument, which must be a number,
/// a text or the unit (where the arguments are not a list, that is reported
/// as such).
pub open spec fn comparable_first(vm: HeliqsV, args: NodeId) -> bool {
    match first(vm, args) {
        Ok(a) => vm.nodes[a as int] is Uit8 || vm.nodes[a as int] is Text || vm.nodes[a as int] is Unit,
        Err(_) => true,
    }
}

/// The primitive named `n` can be run on `args`: it is a known primitive,
/// and `eq` has a first argument that it can compare.
pub open spec fn runnable(vm: HeliqsV, args: NodeId, n: Seq<char>) -> bool {
    &&& known_primitive(n)
    &&& n == seq!['e', 'q'] ==> comparable_first(vm, args)
}

/// Running the primitive named `n` on `args`.
pub open spec fn primitive_at(vm: HeliqsV, args: NodeId, n: Seq<char>) -> Walked {
    if n == seq!['d', 'e', 'c', 'r'] {
        prim_decrement(vm, args)
    } else if n == seq!['p', 'l', 'u', 's'] {
        prim_plus(vm, args)
    } else if n == seq!['m', 'i', 'n', 'u', 's'] {
        prim_minus(vm, args)
    } else if n == seq!['p', 'r', 'i', 'n', 't'] {
        prim_print(vm, args)
    } else if n == seq!['l', 't', 'o', 'r', 'e', 'q'] {
        prim_le_or_eq(vm, args)
    } else if n == seq!['c', 'o', 'n', 'c', 'a', 't'] {
        prim_concat(vm, args, Seq::<char>::empty(), vm.nodes.len())
    } else if n == seq!['e', 'q'] {
        prim_eq(vm, args)
    } else {
        (vm, Err(WalkError::UnknownPrimitive))
    }
}

/// Resolving: `q` is walked and must be a name; the node bound to it.
pub open spec fn resolve_at(vm: HeliqsV, q: NodeId, fuel: nat) -> Walked
    decreases fuel, 1nat, 0nat,
{
    let (vm1, r1) = walk_at(vm, q, fuel);
    match r1 {
        Err(e) => (vm1, Err(e)),
        Ok(k) => match vm1.nodes[k as int] {
            EpiqV::Name(n) => match vm1.resolve(n) {
                Some(res) => (vm1, Ok(res)),
                None => (vm1, Err(WalkError::Unbound)),
            },
            _ => (vm1, Err(WalkError::NotName)),
        },
    }
}

/// A condition: `p` is walked; where that leaves it as it is, node `i`
/// becomes a `?` piq of its own tag.  `^T` walks the first part of the pair
/// `q`, `^F` its second part.
pub open spec fn condition_at(vm: HeliqsV, i: NodeId, p: NodeId, q: NodeId, fuel: nat) -> Walked
    decreases fuel, 1nat, 0nat,
{
    let (vm1, r1) = walk_at(vm, p, fuel);
    match r1 {
        Err(e) => (vm1, Err(e)),
        Ok(wc) => {
            let cond = vm1.nodes[wc as int];
            let vm2 = if wc == p {
                HeliqsV { nodes: vm1.nodes.update(i as int, EpiqV::Tpiq { o: seq!['?'], p: wc, q }), ..vm1 }
            } else {
                vm1
            };
            match cond {
                EpiqV::Tval => match pval(vm2, q) {
                    Ok(b) => walk_at(vm2, b, fuel),
                    Err(e) => (vm2, Err(e)),
                },
                EpiqV::Fval => match qval(vm2, q) {
                    Ok(b) => walk_at(vm2, b, fuel),
                    Err(e) => (vm2, Err(e)),
                },
                _ => (vm2, Err(WalkError::NotBoolean)),
            }
        },
    }
}

/// Binding: `p` is walked and must be a name; `q` is walked and the name is
/// bound to it in the innermost frame; the result is the unit node.
pub open spec fn bind_at(vm: HeliqsV, p: NodeId, q: NodeId, fuel: nat) -> Walked
    decreases fuel, 1nat, 0nat,
{
    let (vm1, r1) = walk_at(vm, p, fuel);
    match r1 {
        Err(e) => (vm1, Err(e)),
        Ok(wp) => match vm1.nodes[wp as int] {
            EpiqV::Name(n) => {
                let (vm2, r2) = walk_at(vm1, q, fuel);
                match r2 {
                    Err(e) => (vm2, Err(e)),
                    Ok(wq) => (vm2.define(n, wq), Ok(UNIT_INDX)),
                }
            },
            _ => (vm1, Err(WalkError::NotName)),
        },
    }
}

/// What the accessor named `n` gives of a piq with tag `o` and parts `pp` and
/// `qq`, node `i` being the access itself.
pub open spec fn accessed(vm: HeliqsV, i: NodeId, o: Seq<char>, pp: NodeId, qq: NodeId, n: Seq<char>, fuel: nat) -> Walked
    decreases fuel, 1nat, 0nat,
{
    if n == seq!['o'] {
        allocated(vm, EpiqV::Text(o))
    } else if n == seq!['p'] {
        walk_at(vm, pp, fuel)
    } else if n == seq!['q'] {
        walk_at(vm, qq, fuel)
    } else {
        (vm, Ok(i))
    }
}

/// Access: the receiver `p` and the accessor `q` are walked; a list cell or a
/// piq of a tag of its own gives its tag (`o`, as a text), its first part
/// (`p`) or its second part (`q`), each walked; another accessor name gives
/// the access itself.
pub open spec fn access_at(vm: HeliqsV, i: NodeId, p: NodeId, q: NodeId, fuel: nat) -> Walked
    decreases fuel, 2nat, 0nat,
{
    let (vm1, r1) = walk_at(vm, p, fuel);
    match r1 {
        Err(e) => (vm1, Err(e)),
        Ok(rp) => {
            let recv = vm1.nodes[rp as int];
            let (vm2, r2) = walk_at(vm1, q, fuel);
            match r2 {
                Err(e) => (vm2, Err(e)),
                Ok(aq) => match recv {
                    EpiqV::Lpiq(pp, qq) => match vm2.nodes[aq as int] {
                        EpiqV::Name(n) => accessed(vm2, i, seq![':'], pp, qq, n, fuel),
                        _ => (vm2, Err(WalkError::NotName)),
                    },
                    EpiqV::Tpiq { o, p: pp, q: qq } => match vm2.nodes[aq as int] {
                        EpiqV::Name(n) => accessed(vm2, i, o, pp, qq, n, fuel),
                        _ => (vm2, Err(WalkError::NotName)),
                    },
                    _ => (vm2, Err(WalkError::NotAccessible)),
                },
            }
        },
    }
}

/// The nodes of the call of a macro: the list `[o p q]` (the tag as a text),
/// and `macro` applied to it.
pub open spec fn macro_call(vm: HeliqsV, m: NodeId, o: Seq<char>, p: NodeId, q: NodeId) -> HeliqsV {
    let n = vm.nodes.len();
    vm.with_node(EpiqV::Text(o))
        .with_node(EpiqV::Lpiq(q, UNIT_INDX))
        .with_node(EpiqV::Lpiq(p, (n + 1) as NodeId))
        .with_node(EpiqV::Lpiq(n as NodeId, (n + 2) as NodeId))
        .with_node(EpiqV::Appl(m, (n + 3) as NodeId))
}

/// A piq of a tag of its own: the node bound to `macro` is applied to the
/// list of its tag and its two parts, and that application is evaluated.
pub open spec fn macro_at(vm: HeliqsV, o: Seq<char>, p: NodeId, q: NodeId, fuel: nat) -> Walked
    decreases fuel, 1nat, 0nat,
{
    match vm.resolve(seq!['m', 'a', 'c', 'r', 'o']) {
        None => (vm, Err(WalkError::Unbound)),
        Some(m) => if vm.nodes.len() + 5 > usize::MAX {
            (vm, Err(WalkError::Full))
        } else {
            let vm1 = macro_call(vm, m, o, p, q);
            eval_at(vm1, (vm.nodes.len() + 4) as NodeId, fuel)
        },
    }
}

/// Evaluating a list item by item; the result is that of the last item.  At
/// most `budget` more cells are followed, as in [`assign_at`].
pub open spec fn list_at(vm: HeliqsV, i: NodeId, fuel: nat, budget: nat) -> Walked
    decreases fuel, 1nat, budget,
{
    match (pval(vm, i), qval(vm, i)) {
        (Ok(c), Ok(next)) => {
            let (vm1, r1) = eval_at(vm, c, fuel);
            match r1 {
                Err(e) => (vm1, Err(e)),
                Ok(res) => if vm1.nodes[next as int] is Unit {
                    (vm1, Ok(res))
                } else if budget > 0 {
                    list_at(vm1, next, fuel, (budget - 1) as nat)
                } else {
                    (vm1, Err(WalkError::Exhausted))
                },
            }
        },
        _ => (vm, Err(WalkError::NotList)),
    }
}

/// Walking the machine from its entry point; where the result is another
/// node, it becomes the entry point.
pub open spec fn walk_machine(vm: HeliqsV, fuel: nat) -> (HeliqsV, Result<(), WalkError>) {
    match vm.entry {
        Some(e) => if e < vm.nodes.len() {
            let (vm1, r) = walk_at(vm, e, fuel);
            match r {
                Ok(res) => (if res != e {
                    HeliqsV { entry: Some(res), ..vm1 }
                } else {
                    vm1
                }, Ok(())),
                Err(er) => (vm1, Err(er)),
            }
        } else {
            (vm, Err(WalkError::NoEntry))
        },
        None => (vm, Err(WalkError::NoEntry)),
    }
}

/// A value: the unit, a truth value, a name, a text or a number.
pub open spec fn is_value(e: EpiqV) -> bool {
    match e {
        EpiqV::Unit | EpiqV::Tval | EpiqV::Fval | EpiqV::Name(_) | EpiqV::Text(_) | EpiqV::Uit8(_) => true,
        _ => false,
    }
}

/// A value walks and evaluates to itself, and changes nothing.
pub proof fn lemma_value_stays(vm: HeliqsV, i: NodeId, fuel: nat)
    requires
        i < vm.nodes.len(),
        is_value(vm.nodes[i as int]),
        fuel >= 1,
    ensures
        walk_at(vm, i, fuel) == (vm, Ok::<NodeId, WalkError>(i)),
        eval_at(vm, i, fuel) == (vm, Ok::<NodeId, WalkError>(i)),
{
}

/// Walking a machine whose entry point is a value changes nothing.
pub proof fn lemma_walk_value_entry(vm: HeliqsV, fuel: nat)
    requires
        vm.entry matches Some(e) && e < vm.nodes.len() && is_value(vm.nodes[e as int]),
        fuel >= 1,
    ensures
        walk_machine(vm, fuel) == (vm, Ok::<(), WalkError>(())),
{
    lemma_value_stays(vm, vm.entry->0, fuel);
}

} // verus!
