//! The walker: evaluates a program held in the machine, from its entry
//! point.
//!
//! Evaluation may nest without bound (a function may call itself forever),
//! so every walk is given a fuel that bounds how deep walking and evaluating
//! nest in one another; a walk that needs more stops with
//! [`WalkError::Exhausted`].  Lists, argument lists and the items of `concat`
//! are taken one after another and use no fuel: only nesting does.  A list
//! with no cycle has no more cells than the machine has nodes, so no more are
//! followed; a list that goes round a cycle stops with `Exhausted` too.

pub mod semantics;
pub mod primitive;
pub mod laws;

use vstd::prelude::*;
use vstd::string::StringExecFns;
use crate::vm::{Heliqs, HeliqsV, Epiq, EpiqV, NodeId, BindingV};
use crate::text::text_eq;
use crate::parser::grammar::UNIT_INDX;
use self::semantics::{
    settled, shape, shapes_kept, outer_kept, pval, qval, rebuilt, walk_at, walk_pair, eval_at,
    runnable, apply_at, lambda_at, assign_at, primitive_at, resolve_at, condition_at, bind_at, accessed,
    access_at, macro_call, macro_at, list_at, walk_machine,
};
use self::primitive::allocated;
use crate::printer::{printed, lemma_printed_kept};

verus! {

/// Why a walk stopped.
#[derive(Clone, Copy, PartialEq, Eq, Debug, Structural)]
pub enum WalkError {
    /// The machine has no entry point, or it is not a node.
    NoEntry,
    /// The walk nested deeper than its fuel allows.
    Exhausted,
    /// The machine cannot hold another node or frame.
    Full,
    /// A list cell was expected.
    NotList,
    /// What is applied is neither a function nor a primitive.
    NotFunction,
    /// A name was expected.
    NotName,
    /// The name is bound to nothing.
    Unbound,
    /// A function's environment is not a `%` piq.
    NotEnvironment,
    /// A condition is neither `^T` nor `^F`.
    NotBoolean,
    /// Only a list cell or a piq of a tag of its own can be accessed.
    NotAccessible,
    /// A number was expected.
    NotNumber,
    /// A text was expected.
    NotText,
    /// `eq` compares numbers, texts, or the unit only.
    NotComparable,
    /// There is no primitive of that name.
    UnknownPrimitive,
    /// The only metadata piq that evaluates is `^>`.
    UnknownMetadata,
    /// A primitive itself cannot be evaluated.
    Invalid,
    /// A number does not fit in 64 bits.
    Overflow,
}

/// The fuel of [`Walker::walk`]: how deep evaluation may nest.  Every level
/// of nesting is a level of the walker's own recursion, so this bound keeps
/// a runaway program from exhausting the stack of a thread with a few tens of
/// megabytes; [`Walker::walk_with_fuel`] takes any other bound.
pub const WALK_FUEL: u64 = 10000;

/// What a function that is applied turns out to be.
enum Callee {
    Lambda(NodeId, NodeId),
    Primitive(String),
    Other,
}

/// Evaluates the program in a machine.
pub struct Walker {
    vm: Heliqs,
}

impl View for Walker {
    type V = HeliqsV;

    closed spec fn view(&self) -> HeliqsV {
        self.vm@
    }
}

/// The piq that a walk rebuilds under the tag `o`.
fn rebuild(o: String, p: NodeId, q: NodeId) -> (e: Epiq)
    ensures
        e@ == rebuilt(o@, p, q),
{
    proof {
        reveal_strlit(":");
        reveal_strlit("!");
        reveal_strlit("@");
        reveal_strlit("?");
        reveal_strlit("%");
        reveal_strlit("#");
        reveal_strlit("\\");
        assert(":"@ =~= seq![':']);
        assert("!"@ =~= seq!['!']);
        assert("@"@ =~= seq!['@']);
        assert("?"@ =~= seq!['?']);
        assert("%"@ =~= seq!['%']);
        assert("#"@ =~= seq!['#']);
        assert("\\"@ =~= seq!['\\']);
    }
    if text_eq(&o, ":") {
        Epiq::Lpiq(p, q)
    } else if text_eq(&o, "!") {
        Epiq::Appl(p, q)
    } else if text_eq(&o, "@") {
        Epiq::Rslv(p, q)
    } else if text_eq(&o, "?") {
        Epiq::Cond(p, q)
    } else if text_eq(&o, "%") {
        Epiq::Envn(p, q)
    } else if text_eq(&o, "#") {
        Epiq::Bind(p, q)
    } else if text_eq(&o, "\\") {
        Epiq::Lmbd(p, q)
    } else {
        Epiq::Tpiq { o, p, q }
    }
}

/// A string holding `s`.
fn tag(s: &str) -> (t: String)
    ensures
        t@ == s@,
{
    String::from_str(s)
}

impl Walker {
    /// The machine is well formed, and every part of every node is a node.
    pub closed spec fn wf(&self) -> bool {
        &&& self.vm.wf()
        &&& self.vm@.closed()
    }

    /// A walker over the machine `vm`.
    pub fn new(vm: Heliqs) -> (w: Walker)
        requires
            vm.wf(),
            vm@.closed(),
        ensures
            w.wf(),
            w@ == vm@,
    {
        Walker { vm }
    }

    /// The machine.
    pub fn vm(&self) -> (vm: &Heliqs)
        requires
            self.wf(),
        ensures
            vm.wf(),
            vm@.closed(),
            vm@ == self@,
    {
        &self.vm
    }

    /// The machine, given back.
    pub fn into_vm(self) -> (vm: Heliqs)
        requires
            self.wf(),
        ensures
            vm.wf(),
            vm@.closed(),
            vm@ == self@,
    {
        self.vm
    }

    /// Walks the machine from its entry point with [`WALK_FUEL`]; where the
    /// result is another node, it becomes the entry point.  Every node that
    /// was there before still reads and prints as it did.
    pub fn walk(&mut self) -> (r: Result<(), WalkError>)
        requires
            old(self).wf(),
        ensures
            final(self).wf(),
            (final(self)@, r) == walk_machine(old(self)@, WALK_FUEL as nat),
            old(self)@.entry_ok() ==> final(self)@.entry_ok(),
            shapes_kept(old(self)@.nodes, final(self)@.nodes),
            outer_kept(old(self)@.frames, final(self)@.frames),
            forall|j: nat, depth: nat| j < old(self)@.nodes.len()
                ==> #[trigger] printed(final(self)@.nodes, j, depth) == printed(old(self)@.nodes, j, depth),
    {
        self.walk_with_fuel(WALK_FUEL)
    }

    /// Walks the machine from its entry point, nesting at most `fuel` deep.
    /// Every node that was there before still reads and prints as it did.
    pub fn walk_with_fuel(&mut self, fuel: u64) -> (r: Result<(), WalkError>)
        requires
            old(self).wf(),
        ensures
            final(self).wf(),
            (final(self)@, r) == walk_machine(old(self)@, fuel as nat),
            old(self)@.entry_ok() ==> final(self)@.entry_ok(),
            shapes_kept(old(self)@.nodes, final(self)@.nodes),
            outer_kept(old(self)@.frames, final(self)@.frames),
            forall|j: nat, depth: nat| j < old(self)@.nodes.len()
                ==> #[trigger] printed(final(self)@.nodes, j, depth) == printed(old(self)@.nodes, j, depth),
    {
        proof {
            self.vm.lemma_view_wf();
        }
        let ghost before = self@;
        let r = self.walk_inner(fuel);
        proof {
            assert forall|j: nat, depth: nat| j < before.nodes.len()
                implies #[trigger] printed(self@.nodes, j, depth) == printed(before.nodes, j, depth) by {
                lemma_printed_kept(before.nodes, self@.nodes, j, depth);
            }
        }
        r
    }

    fn walk_inner(&mut self, fuel: u64) -> (r: Result<(), WalkError>)
        requires
            old(self).wf(),
        ensures
            final(self).wf(),
            (final(self)@, r) == walk_machine(old(self)@, fuel as nat),
            old(self)@.entry_ok() ==> final(self)@.entry_ok(),
            shapes_kept(old(self)@.nodes, final(self)@.nodes),
            outer_kept(old(self)@.frames, final(self)@.frames),
    {
        match self.vm.entry() {
            Some(e) => if e < self.vm.len() {
                match self.walk_node(e, fuel) {
                    Ok(res) => {
                        if res != e {
                            self.vm.set_entry(res);
                        }
                        Ok(())
                    },
                    Err(er) => Err(er),
                }
            } else {
                Err(WalkError::NoEntry)
            },
            None => Err(WalkError::NoEntry),
        }
    }

    /// The piq at node `i`.
    fn node(&self, i: NodeId) -> (e: &Epiq)
        requires
            self.wf(),
            i < self@.nodes.len(),
        ensures
            e@ == self@.nodes[i as int],
            e@.children_below(self@.nodes.len() as int),
    {
        proof {
            self.vm.lemma_view_wf();
        }
        self.vm.get_epiq(i)
    }

    /// The first part of the list cell `i`.
    fn pval(&self, i: NodeId) -> (r: Result<NodeId, WalkError>)
        requires
            self.wf(),
            i < self@.nodes.len(),
        ensures
            r == pval(self@, i),
            r matches Ok(k) ==> k < self@.nodes.len(),
    {
        match self.node(i) {
            Epiq::Lpiq(p, _) => Ok(*p),
            _ => Err(WalkError::NotList),
        }
    }

    /// The second part of the list cell `i`.
    fn qval(&self, i: NodeId) -> (r: Result<NodeId, WalkError>)
        requires
            self.wf(),
            i < self@.nodes.len(),
        ensures
            r == qval(self@, i),
            r matches Ok(k) ==> k < self@.nodes.len(),
    {
        match self.node(i) {
            Epiq::Lpiq(_, q) => Ok(*q),
            _ => Err(WalkError::NotList),
        }
    }

    /// A new node holding `e`.
    fn new_node(&mut self, e: Epiq) -> (r: Result<NodeId, WalkError>)
        requires
            old(self).wf(),
            e@.children_below(old(self)@.nodes.len() as int),
        ensures
            final(self).wf(),
            (final(self)@, r) == allocated(old(self)@, e@),
            settled(old(self)@, final(self)@, r),
    {
        if self.vm.len() < usize::MAX {
            let id = self.vm.allocate(e);
            Ok(id)
        } else {
            Err(WalkError::Full)
        }
    }

    fn walk_node(&mut self, i: NodeId, fuel: u64) -> (r: Result<NodeId, WalkError>)
        requires
            old(self).wf(),
            i < old(self)@.nodes.len(),
        ensures
            final(self).wf(),
            (final(self)@, r) == walk_at(old(self)@, i, fuel as nat),
            settled(old(self)@, final(self)@, r),
        decreases fuel, 0nat, 0nat,
    {
        if fuel == 0 {
            return Err(WalkError::Exhausted);
        }
        let f = fuel - 1;
        proof {
            reveal_strlit(":");
            reveal_strlit("!");
            reveal_strlit("@");
            reveal_strlit("?");
            reveal_strlit("%");
            reveal_strlit("#");
            assert(":"@ =~= seq![':']);
            assert("!"@ =~= seq!['!']);
            assert("@"@ =~= seq!['@']);
            assert("?"@ =~= seq!['?']);
            assert("%"@ =~= seq!['%']);
            assert("#"@ =~= seq!['#']);
        }
        match self.node(i) {
            Epiq::Eval(_, q) => {
                let q = *q;
                self.eval_node(q, f)
            },
            Epiq::Tpiq { o, p, q } => {
                let (o, p, q) = (o.clone(), *p, *q);
                self.walk_pair(i, o, p, q, f)
            },
            Epiq::Lpiq(p, q) => {
                let (p, q) = (*p, *q);
                self.walk_pair(i, tag(":"), p, q, f)
            },
            Epiq::Appl(p, q) => {
                let (p, q) = (*p, *q);
                self.walk_pair(i, tag("!"), p, q, f)
            },
            Epiq::Rslv(p, q) => {
                let (p, q) = (*p, *q);
                self.walk_pair(i, tag("@"), p, q, f)
            },
            Epiq::Cond(p, q) => {
                let (p, q) = (*p, *q);
                self.walk_pair(i, tag("?"), p, q, f)
            },
            Epiq::Envn(p, q) => {
                let (p, q) = (*p, *q);
                self.walk_pair(i, tag("%"), p, q, f)
            },
            Epiq::Bind(p, q) => {
                let (p, q) = (*p, *q);
                self.walk_pair(i, tag("#"), p, q, f)
            },
            _ => Ok(i),
        }
    }

    fn walk_pair(&mut self, i: NodeId, o: String, p: NodeId, q: NodeId, fuel: u64) -> (r: Result<NodeId, WalkError>)
        requires
            old(self).wf(),
            i < old(self)@.nodes.len(),
            p < old(self)@.nodes.len(),
            q < old(self)@.nodes.len(),
        ensures
            final(self).wf(),
            (final(self)@, r) == walk_pair(old(self)@, i, o@, p, q, fuel as nat),
            settled(old(self)@, final(self)@, r),
        decreases fuel, 1nat, 0nat,
    {
        let np = match self.walk_node(p, fuel) {
            Ok(np) => np,
            Err(e) => return Err(e),
        };
        let nq = match self.walk_node(q, fuel) {
            Ok(nq) => nq,
            Err(e) => return Err(e),
        };
        if np == p && nq == q {
            Ok(i)
        } else {
            let e = rebuild(o, np, nq);
            self.new_node(e)
        }
    }

    fn eval_node(&mut self, i: NodeId, fuel: u64) -> (r: Result<NodeId, WalkError>)
        requires
            old(self).wf(),
            i < old(self)@.nodes.len(),
        ensures
            final(self).wf(),
            (final(self)@, r) == eval_at(old(self)@, i, fuel as nat),
            settled(old(self)@, final(self)@, r),
        decreases fuel, 0nat, 0nat,
    {
        if fuel == 0 {
            return Err(WalkError::Exhausted);
        }
        let f = fuel - 1;
        proof {
            reveal_strlit(">");
            assert(">"@ =~= seq!['>']);
        }
        match self.node(i) {
            Epiq::Unit | Epiq::Tval | Epiq::Fval | Epiq::Uit8(_) | Epiq::Name(_) | Epiq::Text(_) => Ok(i),
            Epiq::Eval(_, q) => {
                let q = *q;
                self.eval_node(q, f)
            },
            Epiq::Lpiq(_, _) => Ok(i),
            Epiq::Quot(_, q) => Ok(*q),
            Epiq::Appl(p, q) => {
                let (p, q) = (*p, *q);
                self.apply(p, q, f)
            },
            Epiq::Rslv(_, q) => {
                let q = *q;
                self.resolve(q, f)
            },
            Epiq::Cond(p, q) => {
                let (p, q) = (*p, *q);
                self.condition(i, p, q, f)
            },
            Epiq::Envn(_, _) => Ok(i),
            Epiq::Bind(p, q) => {
                let (p, q) = (*p, *q);
                self.bind(p, q, f)
            },
            Epiq::Accs(p, q) => {
                let (p, q) = (*p, *q);
                self.access(i, p, q, f)
            },
            Epiq::Lmbd(_, _) => Ok(i),
            Epiq::Tpiq { o, p, q } => {
                let (o, p, q) = (o.clone(), *p, *q);
                self.call_macro(o, p, q, f)
            },
            Epiq::Mpiq { o, q, .. } => {
                let q = *q;
                if text_eq(o, ">") {
                    let budget = self.vm.len();
                    self.list(q, f, budget)
                } else {
                    Err(WalkError::UnknownMetadata)
                }
            },
            Epiq::Prim(_) => Err(WalkError::Invalid),
        }
    }

    fn apply(&mut self, p: NodeId, q: NodeId, fuel: u64) -> (r: Result<NodeId, WalkError>)
        requires
            old(self).wf(),
            p < old(self)@.nodes.len(),
            q < old(self)@.nodes.len(),
        ensures
            final(self).wf(),
            (final(self)@, r) == apply_at(old(self)@, p, q, fuel as nat),
            settled(old(self)@, final(self)@, r),
        decreases fuel, 3nat, 0nat,
    {
        let l = match self.walk_node(p, fuel) {
            Ok(l) => l,
            Err(e) => return Err(e),
        };
        let ghost vm1 = self@;
        let callee = match self.node(l) {
            Epiq::Lmbd(env, body) => Callee::Lambda(*env, *body),
            Epiq::Prim(n) => Callee::Primitive(n.clone()),
            _ => Callee::Other,
        };
        let args = match self.walk_node(q, fuel) {
            Ok(args) => args,
            Err(e) => return Err(e),
        };
        match callee {
            Callee::Lambda(env, body) => {
                assert(vm1.nodes[l as int] == EpiqV::Lmbd(env, body));
                self.lambda(env, body, args, fuel)
            },
            Callee::Primitive(n) => {
                assert(vm1.nodes[l as int] == EpiqV::Prim(n@));
                proof {
                    reveal_strlit("eq");
                    assert("eq"@ =~= seq!['e', 'q']);
                }
                if self.runnable(args, &n) {
                    self.primitive(args, &n)
                } else if text_eq(&n, "eq") {
                    Err(WalkError::NotComparable)
                } else {
                    Err(WalkError::UnknownPrimitive)
                }
            },
            Callee::Other => Err(WalkError::NotFunction),
        }
    }

    fn lambda(&mut self, env: NodeId, body: NodeId, args: NodeId, fuel: u64) -> (r: Result<NodeId, WalkError>)
        requires
            old(self).wf(),
            env < old(self)@.nodes.len(),
            body < old(self)@.nodes.len(),
            args < old(self)@.nodes.len(),
        ensures
            final(self).wf(),
            (final(self)@, r) == lambda_at(old(self)@, env, body, args, fuel as nat),
            settled(old(self)@, final(self)@, r),
            r is Ok ==> final(self)@.frames == walk_at(old(self)@, env, fuel as nat).0.frames,
        decreases fuel, 2nat, 0nat,
    {
        let we = match self.walk_node(env, fuel) {
            Ok(we) => we,
            Err(e) => return Err(e),
        };
        let params = match self.node(we) {
            Epiq::Envn(_, params) => *params,
            _ => return Err(WalkError::NotEnvironment),
        };
        if self.vm.depth() >= usize::MAX {
            return Err(WalkError::Full);
        }
        proof {
            self.vm.lemma_view_wf();
        }
        self.vm.extend();
        let budget = self.vm.len();
        match self.assign(params, args, budget) {
            Ok(()) => {},
            Err(e) => return Err(e),
        }
        let res = match self.eval_node(body, fuel) {
            Ok(res) => res,
            Err(e) => return Err(e),
        };
        self.vm.pop();
        proof {
            let called = walk_at(old(self)@, env, fuel as nat).0;
            assert(self@.frames =~= called.frames) by {
                assert forall|k: int| 0 <= k < called.frames.len() implies self@.frames[k] == called.frames[k] by {
                    assert(called.frames.push(Seq::<BindingV>::empty())[k] == called.frames[k]);
                }
            }
        }
        Ok(res)
    }

    fn assign(&mut self, params: NodeId, args: NodeId, budget: usize) -> (r: Result<(), WalkError>)
        requires
            old(self).wf(),
            params < old(self)@.nodes.len(),
            args < old(self)@.nodes.len(),
        ensures
            final(self).wf(),
            (final(self)@, r) == assign_at(old(self)@, params, args, budget as nat),
            final(self)@.nodes == old(self)@.nodes,
            final(self)@.frames.len() == old(self)@.frames.len(),
            outer_kept(old(self)@.frames, final(self)@.frames),
            final(self)@.entry == old(self)@.entry,
        decreases budget,
    {
        if matches!(self.node(args), Epiq::Unit) {
            return Ok(());
        }
        let (c, next_args) = match (self.pval(args), self.qval(args)) {
            (Ok(c), Ok(n)) => (c, n),
            _ => return Err(WalkError::NotList),
        };
        let (pm, next_params) = match (self.pval(params), self.qval(params)) {
            (Ok(pm), Ok(n)) => (pm, n),
            _ => return Err(WalkError::NotList),
        };
        let name = match self.node(pm) {
            Epiq::Name(s) => s.clone(),
            _ => String::new(),
        };
        self.vm.define(name.as_str(), c);
        if matches!(self.node(next_args), Epiq::Unit) {
            Ok(())
        } else if budget > 0 {
            self.assign(next_params, next_args, budget - 1)
        } else {
            Err(WalkError::Exhausted)
        }
    }

    /// Whether the primitive named `n` can be run on `args`.
    fn runnable(&self, args: NodeId, n: &String) -> (b: bool)
        requires
            self.wf(),
            args < self@.nodes.len(),
        ensures
            b == runnable(self@, args, n@),
    {
        proof {
            reveal_strlit("decr");
            reveal_strlit("plus");
            reveal_strlit("minus");
            reveal_strlit("print");
            reveal_strlit("ltoreq");
            reveal_strlit("concat");
            reveal_strlit("eq");
            assert("decr"@ =~= seq!['d', 'e', 'c', 'r']);
            assert("plus"@ =~= seq!['p', 'l', 'u', 's']);
            assert("minus"@ =~= seq!['m', 'i', 'n', 'u', 's']);
            assert("print"@ =~= seq!['p', 'r', 'i', 'n', 't']);
            assert("ltoreq"@ =~= seq!['l', 't', 'o', 'r', 'e', 'q']);
            assert("concat"@ =~= seq!['c', 'o', 'n', 'c', 'a', 't']);
            assert("eq"@ =~= seq!['e', 'q']);
        }
        if text_eq(n, "eq") {
            match self.pval(args) {
                Ok(a) => matches!(self.node(a), Epiq::Uit8(_) | Epiq::Text(_) | Epiq::Unit),
                Err(_) => true,
            }
        } else {
            text_eq(n, "decr") || text_eq(n, "plus") || text_eq(n, "minus") || text_eq(n, "print")
                || text_eq(n, "ltoreq") || text_eq(n, "concat")
        }
    }

    /// Runs the primitive named `n` on the walked arguments `args`.
    fn primitive(&mut self, args: NodeId, n: &String) -> (r: Result<NodeId, WalkError>)
        requires
            old(self).wf(),
            args < old(self)@.nodes.len(),
            runnable(old(self)@, args, n@),
        ensures
            final(self).wf(),
            (final(self)@, r) == primitive_at(old(self)@, args, n@),
            settled(old(self)@, final(self)@, r),
    {
        proof {
            reveal_strlit("decr");
            reveal_strlit("plus");
            reveal_strlit("minus");
            reveal_strlit("print");
            reveal_strlit("ltoreq");
            reveal_strlit("concat");
            reveal_strlit("eq");
            assert("decr"@ =~= seq!['d', 'e', 'c', 'r']);
            assert("plus"@ =~= seq!['p', 'l', 'u', 's']);
            assert("minus"@ =~= seq!['m', 'i', 'n', 'u', 's']);
            assert("print"@ =~= seq!['p', 'r', 'i', 'n', 't']);
            assert("ltoreq"@ =~= seq!['l', 't', 'o', 'r', 'e', 'q']);
            assert("concat"@ =~= seq!['c', 'o', 'n', 'c', 'a', 't']);
            assert("eq"@ =~= seq!['e', 'q']);
        }
        if text_eq(n, "decr") {
            self.decrement(args)
        } else if text_eq(n, "plus") {
            self.plus(args)
        } else if text_eq(n, "minus") {
            self.minus(args)
        } else if text_eq(n, "print") {
            self.print(args)
        } else if text_eq(n, "ltoreq") {
            self.le_or_eq_nmbr(args)
        } else if text_eq(n, "concat") {
            self.concat(args)
        } else {
            self.eq_values(args)
        }
    }

    fn resolve(&mut self, q: NodeId, fuel: u64) -> (r: Result<NodeId, WalkError>)
        requires
            old(self).wf(),
            q < old(self)@.nodes.len(),
        ensures
            final(self).wf(),
            (final(self)@, r) == resolve_at(old(self)@, q, fuel as nat),
            settled(old(self)@, final(self)@, r),
        decreases fuel, 1nat, 0nat,
    {
        let k = match self.walk_node(q, fuel) {
            Ok(k) => k,
            Err(e) => return Err(e),
        };
        match self.node(k) {
            Epiq::Name(n) => match self.vm.resolve(n.as_str()) {
                Some(res) => Ok(res),
                None => Err(WalkError::Unbound),
            },
            _ => Err(WalkError::NotName),
        }
    }

    fn condition(&mut self, i: NodeId, p: NodeId, q: NodeId, fuel: u64) -> (r: Result<NodeId, WalkError>)
        requires
            old(self).wf(),
            i < old(self)@.nodes.len(),
            old(self)@.nodes[i as int] == EpiqV::Cond(p, q),
            p < old(self)@.nodes.len(),
            q < old(self)@.nodes.len(),
        ensures
            final(self).wf(),
            (final(self)@, r) == condition_at(old(self)@, i, p, q, fuel as nat),
            settled(old(self)@, final(self)@, r),
        decreases fuel, 1nat, 0nat,
    {
        let wc = match self.walk_node(p, fuel) {
            Ok(wc) => wc,
            Err(e) => return Err(e),
        };
        let ghost vm1 = self@;
        let kind: u8 = match self.node(wc) {
            Epiq::Tval => 1,
            Epiq::Fval => 2,
            _ => 0,
        };
        if wc == p {
            proof {
                reveal_strlit("?");
                assert("?"@ =~= seq!['?']);
            }
            self.vm.set_epiq(i, Epiq::Tpiq { o: tag("?"), p: wc, q });
            assert(shapes_kept(vm1.nodes, self@.nodes)) by {
                assert forall|j: int| 0 <= j < vm1.nodes.len() implies shape(#[trigger] self@.nodes[j]) == shape(vm1.nodes[j]) by {
                    if j == i {
                        assert(shape(old(self)@.nodes[j]) == shape(vm1.nodes[j]));
                    }
                }
            }
        }
        if kind == 1 {
            assert(vm1.nodes[wc as int] == EpiqV::Tval);
            match self.pval(q) {
                Ok(b) => self.walk_node(b, fuel),
                Err(e) => Err(e),
            }
        } else if kind == 2 {
            assert(vm1.nodes[wc as int] == EpiqV::Fval);
            match self.qval(q) {
                Ok(b) => self.walk_node(b, fuel),
                Err(e) => Err(e),
            }
        } else {
            Err(WalkError::NotBoolean)
        }
    }

    fn bind(&mut self, p: NodeId, q: NodeId, fuel: u64) -> (r: Result<NodeId, WalkError>)
        requires
            old(self).wf(),
            p < old(self)@.nodes.len(),
            q < old(self)@.nodes.len(),
        ensures
            final(self).wf(),
            (final(self)@, r) == bind_at(old(self)@, p, q, fuel as nat),
            settled(old(self)@, final(self)@, r),
        decreases fuel, 1nat, 0nat,
    {
        let wp = match self.walk_node(p, fuel) {
            Ok(wp) => wp,
            Err(e) => return Err(e),
        };
        let n = match self.node(wp) {
            Epiq::Name(n) => n.clone(),
            _ => return Err(WalkError::NotName),
        };
        let wq = match self.walk_node(q, fuel) {
            Ok(wq) => wq,
            Err(e) => return Err(e),
        };
        self.vm.define(n.as_str(), wq);
        Ok(UNIT_INDX)
    }

    fn accessed(&mut self, i: NodeId, o: String, pp: NodeId, qq: NodeId, n: &String, fuel: u64) -> (r: Result<NodeId, WalkError>)
        requires
            old(self).wf(),
            i < old(self)@.nodes.len(),
            pp < old(self)@.nodes.len(),
            qq < old(self)@.nodes.len(),
        ensures
            final(self).wf(),
            (final(self)@, r) == accessed(old(self)@, i, o@, pp, qq, n@, fuel as nat),
            settled(old(self)@, final(self)@, r),
        decreases fuel, 1nat, 0nat,
    {
        proof {
            reveal_strlit("o");
            reveal_strlit("p");
            reveal_strlit("q");
            assert("o"@ =~= seq!['o']);
            assert("p"@ =~= seq!['p']);
            assert("q"@ =~= seq!['q']);
        }
        if text_eq(n, "o") {
            self.new_node(Epiq::Text(o))
        } else if text_eq(n, "p") {
            self.walk_node(pp, fuel)
        } else if text_eq(n, "q") {
            self.walk_node(qq, fuel)
        } else {
            Ok(i)
        }
    }

    fn access(&mut self, i: NodeId, p: NodeId, q: NodeId, fuel: u64) -> (r: Result<NodeId, WalkError>)
        requires
            old(self).wf(),
            i < old(self)@.nodes.len(),
            p < old(self)@.nodes.len(),
            q < old(self)@.nodes.len(),
        ensures
            final(self).wf(),
            (final(self)@, r) == access_at(old(self)@, i, p, q, fuel as nat),
            settled(old(self)@, final(self)@, r),
        decreases fuel, 2nat, 0nat,
    {
        let rp = match self.walk_node(p, fuel) {
            Ok(rp) => rp,
            Err(e) => return Err(e),
        };
        let ghost vm1 = self@;
        proof {
            reveal_strlit(":");
            assert(":"@ =~= seq![':']);
        }
        let recv: Option<(String, NodeId, NodeId)> = match self.node(rp) {
            Epiq::Lpiq(pp, qq) => Some((tag(":"), *pp, *qq)),
            Epiq::Tpiq { o, p: pp, q: qq } => Some((o.clone(), *pp, *qq)),
            _ => None,
        };
        let aq = match self.walk_node(q, fuel) {
            Ok(aq) => aq,
            Err(e) => return Err(e),
        };
        match recv {
            Some((o, pp, qq)) => match self.node(aq) {
                Epiq::Name(n) => {
                    let n = n.clone();
                    self.accessed(i, o, pp, qq, &n, fuel)
                },
                _ => Err(WalkError::NotName),
            },
            None => Err(WalkError::NotAccessible),
        }
    }

    fn call_macro(&mut self, o: String, p: NodeId, q: NodeId, fuel: u64) -> (r: Result<NodeId, WalkError>)
        requires
            old(self).wf(),
            p < old(self)@.nodes.len(),
            q < old(self)@.nodes.len(),
        ensures
            final(self).wf(),
            (final(self)@, r) == macro_at(old(self)@, o@, p, q, fuel as nat),
            settled(old(self)@, final(self)@, r),
        decreases fuel, 1nat, 0nat,
    {
        proof {
            reveal_strlit("macro");
            assert("macro"@ =~= seq!['m', 'a', 'c', 'r', 'o']);
        }
        let m = match self.vm.resolve("macro") {
            Some(m) => m,
            None => return Err(WalkError::Unbound),
        };
        let n = self.vm.len();
        if n > usize::MAX - 5 {
            return Err(WalkError::Full);
        }
        let ghost vm0 = self@;
        let a1 = self.vm.allocate(Epiq::Text(o));
        let last = self.vm.allocate(Epiq::Lpiq(q, UNIT_INDX));
        let second = self.vm.allocate(Epiq::Lpiq(p, last));
        let first = self.vm.allocate(Epiq::Lpiq(a1, second));
        let appl = self.vm.allocate(Epiq::Appl(m, first));
        assert(self@ == macro_call(vm0, m, o@, p, q));
        self.eval_node(appl, fuel)
    }

    fn list(&mut self, i: NodeId, fuel: u64, budget: usize) -> (r: Result<NodeId, WalkError>)
        requires
            old(self).wf(),
            i < old(self)@.nodes.len(),
        ensures
            final(self).wf(),
            (final(self)@, r) == list_at(old(self)@, i, fuel as nat, budget as nat),
            settled(old(self)@, final(self)@, r),
        decreases fuel, 1nat, budget,
    {
        let (c, next) = match (self.pval(i), self.qval(i)) {
            (Ok(c), Ok(n)) => (c, n),
            _ => return Err(WalkError::NotList),
        };
        let res = match self.eval_node(c, fuel) {
            Ok(res) => res,
            Err(e) => return Err(e),
        };
        if matches!(self.node(next), Epiq::Unit) {
            Ok(res)
        } else if budget > 0 {
            self.list(next, fuel, budget - 1)
        } else {
            Err(WalkError::Exhausted)
        }
    }
}

} // verus!
