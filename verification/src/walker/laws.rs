//! What the walker's operations promise, stated over all inputs: what comparing
//! numbers gives, what an access gives of a piq's parts, and what a binding
//! binds a name to.

use vstd::prelude::*;
use crate::vm::{HeliqsV, EpiqV, NodeId};
use crate::vm::graph::{find_binding, lemma_define_then_resolve};
use crate::parser::grammar::UNIT_INDX;
use super::WalkError;
use super::semantics::{walk_at, eval_at, primitive_at, access_at, accessed, bind_at};

verus! {

/// `ltoreq` on the list of two numbers `n1` and `n2` adds one node to the
/// machine and gives it: `^T` exactly where `n1 <= n2` as signed integers,
/// `^F` otherwise.  Nothing else changes.
pub proof fn lemma_ltoreq_compares(
    vm: HeliqsV,
    args: NodeId,
    a: NodeId,
    rest: NodeId,
    b: NodeId,
    tail: NodeId,
    n1: i64,
    n2: i64,
)
    requires
        vm.nodes.len() < usize::MAX,
        vm.nodes[args as int] == EpiqV::Lpiq(a, rest),
        vm.nodes[rest as int] == EpiqV::Lpiq(b, tail),
        vm.nodes[a as int] == EpiqV::Uit8(n1),
        vm.nodes[b as int] == EpiqV::Uit8(n2),
    ensures
        ({
            let (vm1, r) = primitive_at(vm, args, seq!['l', 't', 'o', 'r', 'e', 'q']);
            &&& r == Ok::<NodeId, WalkError>(vm.nodes.len() as NodeId)
            &&& vm1.nodes == vm.nodes.push(if n1 <= n2 { EpiqV::Tval } else { EpiqV::Fval })
            &&& vm1.frames == vm.frames
            &&& vm1.entry == Some(vm.nodes.len() as NodeId)
            &&& vm1.out == vm.out
        }),
{
    let n = seq!['l', 't', 'o', 'r', 'e', 'q'];
    assert(n != seq!['d', 'e', 'c', 'r']) by { assert(n.len() != 4); }
    assert(n != seq!['p', 'l', 'u', 's']) by { assert(n.len() != 4); }
    assert(n != seq!['m', 'i', 'n', 'u', 's']) by { assert(n.len() != 5); }
    assert(n != seq!['p', 'r', 'i', 'n', 't']) by { assert(n.len() != 5); }
}

/// Accessing a list cell or a piq of a tag of its own (its parts `pp` and
/// `qq`): the accessor `p` gives what walking `pp` gives, and `q` what
/// walking `qq` gives, both walked after the receiver and the accessor.  A
/// part that is a number is given as it is.  The accessor `o` gives a new
/// text of the tag (`:` for a list cell); any other accessor gives the access
/// itself.
pub proof fn lemma_access_gives_part(
    vm: HeliqsV,
    i: NodeId,
    p: NodeId,
    q: NodeId,
    fuel: nat,
    vm1: HeliqsV,
    rp: NodeId,
    vm2: HeliqsV,
    aq: NodeId,
    o: Seq<char>,
    pp: NodeId,
    qq: NodeId,
    n: Seq<char>,
)
    requires
        vm.nodes[i as int] == EpiqV::Accs(p, q),
        walk_at(vm, p, fuel) == (vm1, Ok::<NodeId, WalkError>(rp)),
        vm1.nodes[rp as int] == (EpiqV::Tpiq { o, p: pp, q: qq }) || vm1.nodes[rp as int] == EpiqV::Lpiq(pp, qq),
        walk_at(vm1, q, fuel) == (vm2, Ok::<NodeId, WalkError>(aq)),
        vm2.nodes[aq as int] == EpiqV::Name(n),
    ensures
        n == seq!['p'] ==> eval_at(vm, i, fuel + 1) == walk_at(vm2, pp, fuel),
        n == seq!['q'] ==> eval_at(vm, i, fuel + 1) == walk_at(vm2, qq, fuel),
        n == seq!['p'] && fuel > 0 && vm2.nodes[pp as int] is Uit8
            ==> eval_at(vm, i, fuel + 1) == (vm2, Ok::<NodeId, WalkError>(pp)),
        n == seq!['q'] && fuel > 0 && vm2.nodes[qq as int] is Uit8
            ==> eval_at(vm, i, fuel + 1) == (vm2, Ok::<NodeId, WalkError>(qq)),
        n == seq!['o'] && vm2.nodes.len() < usize::MAX ==> eval_at(vm, i, fuel + 1) == (
            vm2.with_node(EpiqV::Text(if vm1.nodes[rp as int] is Lpiq { seq![':'] } else { o })),
            Ok::<NodeId, WalkError>(vm2.nodes.len() as NodeId),
        ),
        n != seq!['o'] && n != seq!['p'] && n != seq!['q'] ==> eval_at(vm, i, fuel + 1) == (vm2, Ok::<NodeId, WalkError>(i)),
{
    assert(seq!['p'] != seq!['o']) by { assert(seq!['p'][0] != seq!['o'][0]); }
    assert(seq!['q'] != seq!['o']) by { assert(seq!['q'][0] != seq!['o'][0]); }
    assert(seq!['q'] != seq!['p']) by { assert(seq!['q'][0] != seq!['p'][0]); }
    assert(eval_at(vm, i, fuel + 1) == access_at(vm, i, p, q, fuel));
    if vm1.nodes[rp as int] is Lpiq {
        assert(access_at(vm, i, p, q, fuel) == accessed(vm2, i, seq![':'], pp, qq, n, fuel));
    } else {
        assert(access_at(vm, i, p, q, fuel) == accessed(vm2, i, o, pp, qq, n, fuel));
    }
    if fuel > 0 {
        assert(walk_at(vm2, pp, fuel) == (vm2, Ok::<NodeId, WalkError>(pp)) || !(vm2.nodes[pp as int] is Uit8));
        assert(walk_at(vm2, qq, fuel) == (vm2, Ok::<NodeId, WalkError>(qq)) || !(vm2.nodes[qq as int] is Uit8));
    }
}

/// Evaluating `|# name value`: the name is bound to what walking the value
/// gives (not to the value as written), the machine keeps the nodes that
/// walking made, and the result is the unit node.  (A name that the
/// innermost frame already binds keeps its first binding.)
pub proof fn lemma_bind_walks_value(
    vm: HeliqsV,
    i: NodeId,
    p: NodeId,
    q: NodeId,
    fuel: nat,
    vm1: HeliqsV,
    wp: NodeId,
    n: Seq<char>,
    vm2: HeliqsV,
    wq: NodeId,
)
    requires
        vm.nodes[i as int] == EpiqV::Bind(p, q),
        walk_at(vm, p, fuel) == (vm1, Ok::<NodeId, WalkError>(wp)),
        vm1.nodes[wp as int] == EpiqV::Name(n),
        walk_at(vm1, q, fuel) == (vm2, Ok::<NodeId, WalkError>(wq)),
        vm2.frames.len() >= 1,
        find_binding(vm2.frames.last(), n) is None,
    ensures
        ({
            let (vm3, r) = eval_at(vm, i, fuel + 1);
            &&& r == Ok::<NodeId, WalkError>(UNIT_INDX)
            &&& vm3.resolve(n) == Some(wq)
            &&& vm3.nodes == vm2.nodes
        }),
{
    assert(eval_at(vm, i, fuel + 1) == bind_at(vm, p, q, fuel));
    assert(bind_at(vm, p, q, fuel) == (vm2.define(n, wq), Ok::<NodeId, WalkError>(UNIT_INDX)));
    lemma_define_then_resolve(vm2.frames, n, wq);
}

} // verus!
