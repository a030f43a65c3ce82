//! An evaluator over a tree of piqs, where every piq is a piq of a tag of its
//! own or a metadata piq and the tag tells what it does: `>` evaluates, `#`
//! binds a name to a piq, `@` resolves a name, `!` applies a block.
//!
//! Names are bound to copies of piqs, in one table; a later binding of a name
//! hides an earlier one.
//!
//! The parts of a piq may stand anywhere in the tree, before or after it, so
//! a walk may go round a cycle forever; every walk is given a fuel that
//! bounds how many steps may nest, and stops with [`EvalError::Exhausted`]
//! where it needs more.

use vstd::prelude::*;
use crate::vm::{AbstractSyntaxTree, Epiq, EpiqV};
use crate::text::text_eq;

verus! {

/// Why an evaluation stopped.
#[derive(Clone, Copy, PartialEq, Eq, Debug, Structural)]
pub enum EvalError {
    /// The tree has no entry point, or it is not a piq of the tree.
    NoEntry,
    /// Walking the body of a block that is applied would add a piq to the
    /// tree while the block is being read.
    Borrowed,
    /// The tree cannot hold another piq.
    Full,
    /// A part of a piq that is read is not a piq of the tree.
    Dangling,
    /// The walk nested deeper than its fuel allows.
    Exhausted,
}

/// The abstract state of an evaluation: the piqs of the tree, its entry
/// point, the index of the piq pushed last, and the bindings made so far,
/// oldest first.
pub struct EvalV {
    pub tree: Seq<EpiqV>,
    pub entry: Option<u32>,
    pub max_index: u32,
    pub table: Seq<(Seq<char>, EpiqV)>,
}

/// The state afterwards, and the resulting piq.
pub type Evaluated = (EvalV, Result<u32, EvalError>);

/// What `name` is bound to: its latest binding.
pub open spec fn lookup(table: Seq<(Seq<char>, EpiqV)>, name: Seq<char>) -> Option<EpiqV>
    decreases table.len(),
{
    if table.len() == 0 {
        None
    } else if table.last().0 == name {
        Some(table.last().1)
    } else {
        lookup(table.drop_last(), name)
    }
}

/// A new piq `e` at the end of the tree; its index is the result and the
/// new `max_index`.
pub open spec fn pushed(s: EvalV, e: EpiqV) -> Evaluated {
    if s.tree.len() < u32::MAX {
        (EvalV { tree: s.tree.push(e), max_index: s.tree.len() as u32, ..s }, Ok(s.tree.len() as u32))
    } else {
        (s, Err(EvalError::Full))
    }
}

/// The piq at `i` of the tree, where there is one.
pub open spec fn piq_at(s: EvalV, i: usize) -> Option<EpiqV> {
    if i < s.tree.len() {
        Some(s.tree[i as int])
    } else {
        None
    }
}

/// The result of evaluating a part `q` of piq `i`: where it gives `q`
/// itself, `i` is the result; else a copy of what it gives is pushed.
pub open spec fn copied(s1: EvalV, i: u32, q: usize, r: Result<u32, EvalError>) -> Evaluated {
    match r {
        Ok(nq) => if nq == q {
            (s1, Ok(i))
        } else {
            pushed(s1, s1.tree[nq as int])
        },
        Err(e) => (s1, Err(e)),
    }
}

/// Walking piq `i` (a piq of the tree): a `>` piq evaluates its q, and where
/// that gives another piq, a copy of it is the result; any other piq of a tag
/// of its own has its parts walked, and where either changes, a new piq of
/// the same tag over the walked parts is the result; anything else stays.
pub open spec fn walk_ix(s: EvalV, i: u32, fuel: nat) -> Evaluated
    decreases fuel,
{
    if fuel == 0 {
        (s, Err(EvalError::Exhausted))
    } else {
        let f = (fuel - 1) as nat;
        match s.tree[i as int] {
            EpiqV::Tpiq { o, p, q } => if o == seq!['>'] {
                if q < s.tree.len() {
                    let (s1, r) = eval_ix(s, q as u32, f);
                    copied(s1, i, q, r)
                } else {
                    (s, Err(EvalError::Dangling))
                }
            } else if p < s.tree.len() {
                let (s1, r1) = walk_ix(s, p as u32, f);
                match r1 {
                    Err(e) => (s1, Err(e)),
                    Ok(np) => if q < s1.tree.len() {
                        let (s2, r2) = walk_ix(s1, q as u32, f);
                        match r2 {
                            Err(e) => (s2, Err(e)),
                            Ok(nq) => if np == p && nq == q {
                                (s2, Ok(i))
                            } else {
                                pushed(s2, EpiqV::Tpiq { o, p: np as usize, q: nq as usize })
                            },
                        }
                    } else {
                        (s1, Err(EvalError::Dangling))
                    },
                }
            } else {
                (s, Err(EvalError::Dangling))
            },
            _ => (s, Ok(i)),
        }
    }
}

/// Evaluating piq `i` (a piq of the tree), by its tag:
/// - `#` binds the name p to a copy of q; the result is a new unit;
/// - `!` walks the body of the block p (its q);
/// - `>` evaluates q, and where that gives another piq, a copy of it is the
///   result;
/// - `@` gives a copy of what the name q is bound to;
/// - `^>` evaluates the list q item by item;
/// anything else (and a name that is bound to nothing) stays as it is.  A
/// part that is read but is not a piq of the tree stops the evaluation.
pub open spec fn eval_ix(s: EvalV, i: u32, fuel: nat) -> Evaluated
    decreases fuel,
{
    if fuel == 0 {
        (s, Err(EvalError::Exhausted))
    } else {
        let f = (fuel - 1) as nat;
        match s.tree[i as int] {
            EpiqV::Tpiq { o, p, q } => if o == seq!['#'] {
                match piq_at(s, p) {
                    None => (s, Err(EvalError::Dangling)),
                    Some(EpiqV::Name(n)) => match piq_at(s, q) {
                        None => (s, Err(EvalError::Dangling)),
                        Some(v) => pushed(EvalV { table: s.table.push((n, v)), ..s }, EpiqV::Unit),
                    },
                    Some(_) => (s, Ok(i)),
                }
            } else if o == seq!['!'] {
                match piq_at(s, p) {
                    None => (s, Err(EvalError::Dangling)),
                    Some(EpiqV::Tpiq { q: body, .. }) => if body < s.tree.len() {
                        let (s1, r) = walk_ix(s, body as u32, f);
                        match r {
                            Ok(nb) => if s1.tree.len() != s.tree.len() {
                                (s1, Err(EvalError::Borrowed))
                            } else {
                                (s1, Ok(nb))
                            },
                            Err(e) => (s1, Err(e)),
                        }
                    } else {
                        (s, Err(EvalError::Dangling))
                    },
                    Some(_) => (s, Ok(i)),
                }
            } else if o == seq!['>'] {
                if q < s.tree.len() {
                    let (s1, r) = eval_ix(s, q as u32, f);
                    copied(s1, i, q, r)
                } else {
                    (s, Err(EvalError::Dangling))
                }
            } else if o == seq!['@'] {
                match piq_at(s, q) {
                    None => (s, Err(EvalError::Dangling)),
                    Some(EpiqV::Name(n)) => match lookup(s.table, n) {
                        Some(v) => pushed(s, v),
                        None => (s, Ok(i)),
                    },
                    Some(_) => (s, Ok(i)),
                }
            } else {
                (s, Ok(i))
            },
            EpiqV::Mpiq { o, q, .. } => if o == seq!['>'] {
                if q < s.tree.len() {
                    let (s1, r) = eval_list_ix(s, q as u32, f);
                    match r {
                        Ok(res) => if res <= s1.max_index {
                            (s1, Ok(res))
                        } else {
                            pushed(s1, s1.tree[res as int])
                        },
                        Err(e) => (s1, Err(e)),
                    }
                } else {
                    (s, Err(EvalError::Dangling))
                }
            } else {
                (s, Ok(i))
            },
            _ => (s, Ok(i)),
        }
    }
}

/// Evaluating the list `i` (`:` piqs ending in the unit) item by item: the
/// result is that of the last item.  Anything that is not such a list cell
/// stays as it is.
pub open spec fn eval_list_ix(s: EvalV, i: u32, fuel: nat) -> Evaluated
    decreases fuel,
{
    if fuel == 0 {
        (s, Err(EvalError::Exhausted))
    } else {
        let f = (fuel - 1) as nat;
        match s.tree[i as int] {
            EpiqV::Tpiq { o, p, q } => if o == seq![':'] {
                match piq_at(s, q) {
                    None => (s, Err(EvalError::Dangling)),
                    Some(last) => if p >= s.tree.len() {
                        (s, Err(EvalError::Dangling))
                    } else if last is Unit {
                        eval_ix(s, p as u32, f)
                    } else {
                        let (s1, r) = eval_ix(s, p as u32, f);
                        match r {
                            Ok(_) => eval_list_ix(s1, q as u32, f),
                            Err(e) => (s1, Err(e)),
                        }
                    },
                }
            } else {
                (s, Ok(i))
            },
            _ => (s, Ok(i)),
        }
    }
}

/// Piq `i` binds a name: a `#` piq whose p is a name and whose q is a piq of
/// the tree.
pub open spec fn binds(s: EvalV, i: u32) -> bool {
    &&& s.tree[i as int] matches EpiqV::Tpiq { o, p, q } && o == seq!['#'] && p < s.tree.len()
        && q < s.tree.len()
    &&& s.tree[s.tree[i as int]->Tpiq_p as int] is Name
}

/// Walking the tree from its entry point, nesting at most `fuel` deep; where
/// the result is another piq, it becomes the entry point.
pub open spec fn walk_tree(s: EvalV, fuel: nat) -> (EvalV, Result<(), EvalError>) {
    match s.entry {
        Some(e) => if e < s.tree.len() {
            let (s1, r) = walk_ix(s, e, fuel);
            match r {
                Ok(res) => (if res != e {
                    EvalV { entry: Some(res), ..s1 }
                } else {
                    s1
                }, Ok(())),
                Err(er) => (s1, Err(er)),
            }
        } else {
            (s, Err(EvalError::NoEntry))
        },
        None => (s, Err(EvalError::NoEntry)),
    }
}

/// Every piq of `t0` is still in `t1`, as it was: piqs are only added.
pub open spec fn appended(t0: Seq<EpiqV>, t1: Seq<EpiqV>) -> bool {
    &&& t0.len() <= t1.len()
    &&& forall|j: int| 0 <= j < t0.len() ==> #[trigger] t1[j] == t0[j]
}

/// The tree only grew, within what its `u32` indices can count, and a result
/// is a piq of it.
pub open spec fn grew(s0: EvalV, s1: EvalV, r: Result<u32, EvalError>) -> bool {
    &&& appended(s0.tree, s1.tree)
    &&& s1.tree.len() <= u32::MAX
    &&& r matches Ok(k) ==> k < s1.tree.len()
}

/// The bindings of names to piqs, oldest first.
struct SymbolTable {
    table: Vec<(String, Epiq)>,
}

impl SymbolTable {
    spec fn view(&self) -> Seq<(Seq<char>, EpiqV)> {
        self.table@.map_values(|b: (String, Epiq)| (b.0@, b.1@))
    }

    /// Binds `name` to `value`, hiding an earlier binding of it.
    fn insert(&mut self, name: String, value: Epiq)
        ensures
            final(self).view() == old(self).view().push((name@, value@)),
    {
        let ghost b = (name@, value@);
        self.table.push((name, value));
        assert(self.view() =~= old(self).view().push(b));
    }

    /// What `name` is bound to.
    fn get(&self, name: &String) -> (r: Option<&Epiq>)
        ensures
            match r {
                Some(v) => lookup(self.view(), name@) == Some(v@),
                None => lookup(self.view(), name@) is None,
            },
    {
        let mut k = self.table.len();
        assert(self.view().subrange(0, k as int) =~= self.view());
        while k > 0
            invariant
                k <= self.table@.len(),
                lookup(self.view(), name@) == lookup(self.view().subrange(0, k as int), name@),
            decreases k,
        {
            let ghost t = self.view().subrange(0, k as int);
            assert(t.drop_last() =~= self.view().subrange(0, k - 1));
            if self.table[k - 1].0 == *name {
                return Some(&self.table[k - 1].1);
            }
            k = k - 1;
        }
        assert(self.view().subrange(0, 0) =~= Seq::<(Seq<char>, EpiqV)>::empty());
        None
    }
}

/// Evaluates the tree of piqs that it holds.
pub struct Evaluator {
    ast: AbstractSyntaxTree,
    symbol_table: SymbolTable,
}

impl View for Evaluator {
    type V = EvalV;

    closed spec fn view(&self) -> EvalV {
        EvalV {
            tree: self.ast.spec_tree(),
            entry: self.ast.spec_entrypoint(),
            max_index: self.ast.spec_max_index(),
            table: self.symbol_table.view(),
        }
    }
}

/// The fuel of [`Evaluator::walk`]: how deep a walk may nest.  Every level
/// of nesting is a level of the evaluator's own recursion, so this bound
/// keeps a cycle in the tree from exhausting the stack;
/// [`Evaluator::walk_with_fuel`] takes any other bound.
pub const EVAL_FUEL: u64 = 10000;

impl Evaluator {
    /// The tree has no more piqs than its `u32` indices can count.
    pub open spec fn wf(&self) -> bool {
        self@.tree.len() <= u32::MAX
    }

    /// An evaluator of `ast`, with no binding yet.
    pub fn new(ast: AbstractSyntaxTree) -> (ev: Evaluator)
        ensures
            ev@ == (EvalV {
                tree: ast.spec_tree(),
                entry: ast.spec_entrypoint(),
                max_index: ast.spec_max_index(),
                table: Seq::<(Seq<char>, EpiqV)>::empty(),
            }),
    {
        let ev = Evaluator { ast, symbol_table: SymbolTable { table: Vec::new() } };
        assert(ev.symbol_table.view() =~= Seq::<(Seq<char>, EpiqV)>::empty());
        ev
    }

    /// The tree, given back.
    pub fn into_ast(self) -> (ast: AbstractSyntaxTree)
        ensures
            ast.spec_tree() == self@.tree,
            ast.spec_entrypoint() == self@.entry,
            ast.spec_max_index() == self@.max_index,
    {
        self.ast
    }

    /// Walks the tree from its entry point with [`EVAL_FUEL`]; where the
    /// result is another piq, it becomes the entry point.  Piqs are only
    /// added to the tree: every piq that was there stays as it was.
    pub fn walk(&mut self) -> (r: Result<(), EvalError>)
        requires
            old(self).wf(),
        ensures
            final(self).wf(),
            (final(self)@, r) == walk_tree(old(self)@, EVAL_FUEL as nat),
            appended(old(self)@.tree, final(self)@.tree),
    {
        self.walk_with_fuel(EVAL_FUEL)
    }

    /// Walks the tree from its entry point, nesting at most `fuel` deep;
    /// where the result is another piq, it becomes the entry point.  Piqs are
    /// only added to the tree: every piq that was there stays as it was.
    pub fn walk_with_fuel(&mut self, fuel: u64) -> (r: Result<(), EvalError>)
        requires
            old(self).wf(),
        ensures
            final(self).wf(),
            (final(self)@, r) == walk_tree(old(self)@, fuel as nat),
            appended(old(self)@.tree, final(self)@.tree),
    {
        let index = match self.ast.entry() {
            Some(i) => i,
            None => return Err(EvalError::NoEntry),
        };
        if index as usize >= self.ast.len() {
            return Err(EvalError::NoEntry);
        }
        match self.walk_internal(index, fuel) {
            Ok(result) => {
                if result != index {
                    self.ast.set_entry(result);
                }
                Ok(())
            },
            Err(e) => Err(e),
        }
    }

    /// A new piq `e` at the end of the tree.
    fn push(&mut self, e: Epiq) -> (r: Result<u32, EvalError>)
        requires
            old(self).wf(),
        ensures
            final(self).wf(),
            (final(self)@, r) == pushed(old(self)@, e@),
            grew(old(self)@, final(self)@, r),
    {
        if self.ast.len() < u32::MAX as usize {
            let n = self.ast.len();
            self.ast.push(e);
            Ok(n as u32)
        } else {
            Err(EvalError::Full)
        }
    }

    /// A copy of piq `k`, pushed at the end of the tree.
    fn push_copy(&mut self, k: u32) -> (r: Result<u32, EvalError>)
        requires
            old(self).wf(),
            k < old(self)@.tree.len(),
        ensures
            final(self).wf(),
            (final(self)@, r) == pushed(old(self)@, old(self)@.tree[k as int]),
            grew(old(self)@, final(self)@, r),
    {
        let e = self.ast.get(k).copy();
        self.push(e)
    }

    /// The result when evaluating part `q` of piq `index` gave `r`.
    fn copied(&mut self, index: u32, q: usize, r: Result<u32, EvalError>) -> (res: Result<u32, EvalError>)
        requires
            old(self).wf(),
            r matches Ok(k) ==> k < old(self)@.tree.len(),
            index < old(self)@.tree.len(),
        ensures
            final(self).wf(),
            (final(self)@, res) == copied(old(self)@, index, q, r),
            grew(old(self)@, final(self)@, res),
    {
        match r {
            Ok(nq) => if nq as usize == q {
                Ok(index)
            } else {
                self.push_copy(nq)
            },
            Err(e) => Err(e),
        }
    }

    fn walk_internal(&mut self, index: u32, fuel: u64) -> (r: Result<u32, EvalError>)
        requires
            old(self).wf(),
            index < old(self)@.tree.len(),
        ensures
            final(self).wf(),
            (final(self)@, r) == walk_ix(old(self)@, index, fuel as nat),
            grew(old(self)@, final(self)@, r),
        decreases fuel,
    {
        if fuel == 0 {
            return Err(EvalError::Exhausted);
        }
        let f = fuel - 1;
        proof {
            reveal_strlit(">");
            assert(">"@ =~= seq!['>']);
        }
        match self.ast.get(index) {
            Epiq::Tpiq { o, p, q } => {
                let is_eval = text_eq(o, ">");
                let o = o.clone();
                let (p, q) = (*p, *q);
                if is_eval {
                    if q >= self.ast.len() {
                        return Err(EvalError::Dangling);
                    }
                    let r = self.eval_internal(q as u32, f);
                    self.copied(index, q, r)
                } else {
                    if p >= self.ast.len() {
                        return Err(EvalError::Dangling);
                    }
                    let np = match self.walk_internal(p as u32, f) {
                        Ok(np) => np,
                        Err(e) => return Err(e),
                    };
                    if q >= self.ast.len() {
                        return Err(EvalError::Dangling);
                    }
                    let nq = match self.walk_internal(q as u32, f) {
                        Ok(nq) => nq,
                        Err(e) => return Err(e),
                    };
                    if np as usize == p && nq as usize == q {
                        Ok(index)
                    } else {
                        self.push(Epiq::Tpiq { o, p: np as usize, q: nq as usize })
                    }
                }
            },
            _ => Ok(index),
        }
    }

    fn eval_internal(&mut self, index: u32, fuel: u64) -> (r: Result<u32, EvalError>)
        requires
            old(self).wf(),
            index < old(self)@.tree.len(),
        ensures
            final(self).wf(),
            (final(self)@, r) == eval_ix(old(self)@, index, fuel as nat),
            grew(old(self)@, final(self)@, r),
            binds(old(self)@, index) && fuel >= 1 && old(self)@.tree.len() < u32::MAX ==> {
                &&& final(self)@.tree == old(self)@.tree.push(EpiqV::Unit)
                &&& final(self)@.max_index == old(self)@.tree.len()
                &&& r == Ok::<u32, EvalError>(final(self)@.max_index)
                &&& lookup(final(self)@.table, old(self)@.tree[old(self)@.tree[index as int]->Tpiq_p as int]->Name_0)
                    == Some(old(self)@.tree[old(self)@.tree[index as int]->Tpiq_q as int])
            },
        decreases fuel,
    {
        if fuel == 0 {
            return Err(EvalError::Exhausted);
        }
        let f = fuel - 1;
        proof {
            reveal_strlit("#");
            reveal_strlit("!");
            reveal_strlit(">");
            reveal_strlit("@");
            assert("#"@ =~= seq!['#']);
            assert("!"@ =~= seq!['!']);
            assert(">"@ =~= seq!['>']);
            assert("@"@ =~= seq!['@']);
        }
        let n = self.ast.len();
        match self.ast.get(index) {
            Epiq::Tpiq { o, p, q } => {
                let (p, q) = (*p, *q);
                if text_eq(o, "#") {
                    if p >= n {
                        return Err(EvalError::Dangling);
                    }
                    let name = match self.ast.get(p as u32) {
                        Epiq::Name(s) => s.clone(),
                        _ => return Ok(index),
                    };
                    if q >= n {
                        return Err(EvalError::Dangling);
                    }
                    let value = self.ast.get(q as u32).copy();
                    self.symbol_table.insert(name, value);
                    self.push(Epiq::Unit)
                } else if text_eq(o, "!") {
                    if p >= n {
                        return Err(EvalError::Dangling);
                    }
                    let body = match self.ast.get(p as u32) {
                        Epiq::Tpiq { q: body, .. } => *body,
                        _ => return Ok(index),
                    };
                    if body >= n {
                        return Err(EvalError::Dangling);
                    }
                    let nb = match self.walk_internal(body as u32, f) {
                        Ok(nb) => nb,
                        Err(e) => return Err(e),
                    };
                    if self.ast.len() != n {
                        Err(EvalError::Borrowed)
                    } else {
                        Ok(nb)
                    }
                } else if text_eq(o, ">") {
                    if q >= n {
                        return Err(EvalError::Dangling);
                    }
                    let r = self.eval_internal(q as u32, f);
                    self.copied(index, q, r)
                } else if text_eq(o, "@") {
                    if q >= n {
                        return Err(EvalError::Dangling);
                    }
                    let v = match self.ast.get(q as u32) {
                        Epiq::Name(s) => match self.symbol_table.get(s) {
                            Some(v) => v.copy(),
                            None => return Ok(index),
                        },
                        _ => return Ok(index),
                    };
                    self.push(v)
                } else {
                    Ok(index)
                }
            },
            Epiq::Mpiq { o, q, .. } => {
                let q = *q;
                if text_eq(o, ">") {
                    if q >= n {
                        return Err(EvalError::Dangling);
                    }
                    let res = match self.eval_list(q as u32, f) {
                        Ok(res) => res,
                        Err(e) => return Err(e),
                    };
                    if res <= self.ast.last_index() {
                        Ok(res)
                    } else {
                        self.push_copy(res)
                    }
                } else {
                    Ok(index)
                }
            },
            _ => Ok(index),
        }
    }

    fn eval_list(&mut self, index: u32, fuel: u64) -> (r: Result<u32, EvalError>)
        requires
            old(self).wf(),
            index < old(self)@.tree.len(),
        ensures
            final(self).wf(),
            (final(self)@, r) == eval_list_ix(old(self)@, index, fuel as nat),
            grew(old(self)@, final(self)@, r),
        decreases fuel,
    {
        if fuel == 0 {
            return Err(EvalError::Exhausted);
        }
        let f = fuel - 1;
        proof {
            reveal_strlit(":");
            assert(":"@ =~= seq![':']);
        }
        let n = self.ast.len();
        match self.ast.get(index) {
            Epiq::Tpiq { o, p, q } => {
                let (p, q) = (*p, *q);
                if text_eq(o, ":") {
                    if q >= n {
                        return Err(EvalError::Dangling);
                    }
                    let last_is_unit = matches!(self.ast.get(q as u32), Epiq::Unit);
                    if p >= n {
                        return Err(EvalError::Dangling);
                    }
                    if last_is_unit {
                        self.eval_internal(p as u32, f)
                    } else {
                        match self.eval_internal(p as u32, f) {
                            Ok(_) => self.eval_list(q as u32, f),
                            Err(e) => Err(e),
                        }
                    }
                } else {
                    Ok(index)
                }
            },
            _ => Ok(index),
        }
    }
}

} // verus!
