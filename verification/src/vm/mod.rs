pub mod graph;
pub mod tokn;

use vstd::prelude::*;

pub use self::graph::NodeId;
pub use self::graph::Node;
pub use self::graph::NodeArena;
pub use self::graph::SymbolTable;
pub use self::graph::BindingV;
pub use self::tokn::Tokn;
pub use self::tokn::TokenV;

verus! {

/// An "embedded tagged piq": one node of a program or of a value.
///
/// The pair-shaped variants refer to their two parts (`p` and `q`) by node
/// index.
#[derive(PartialEq, Eq, Debug)]
pub enum Epiq {
    Unit,
    Tval,
    Fval,
    Name(String),
    Text(String),
    Uit8(i64),
    /// A primitive function, by name.
    Prim(String),
    /// A piq with a tag of its own.
    Tpiq { o: String, p: NodeId, q: NodeId },
    /// A metadata piq.
    Mpiq { o: String, p: NodeId, q: NodeId },
    /// `||`: q, not evaluated.
    Quot(NodeId, NodeId),
    /// `>`: evaluate q.
    Eval(NodeId, NodeId),
    /// `:`: a list cell.
    Lpiq(NodeId, NodeId),
    /// `!`: apply p to the arguments q.
    Appl(NodeId, NodeId),
    /// `@`: the node that the name q is bound to.
    Rslv(NodeId, NodeId),
    /// `?`: p is the condition, q the pair of branches.
    Cond(NodeId, NodeId),
    /// `%`: an environment; q lists the parameters.
    Envn(NodeId, NodeId),
    /// `#`: bind the name p to q.
    Bind(NodeId, NodeId),
    /// `.`: access q of p.
    Accs(NodeId, NodeId),
    /// `\`: a function, p its environment, q its body.
    Lmbd(NodeId, NodeId),
}

/// The abstract value of an [`Epiq`]: strings are taken by their characters.
pub enum EpiqV {
    Unit,
    Tval,
    Fval,
    Name(Seq<char>),
    Text(Seq<char>),
    Uit8(i64),
    Prim(Seq<char>),
    Tpiq { o: Seq<char>, p: NodeId, q: NodeId },
    Mpiq { o: Seq<char>, p: NodeId, q: NodeId },
    Quot(NodeId, NodeId),
    Eval(NodeId, NodeId),
    Lpiq(NodeId, NodeId),
    Appl(NodeId, NodeId),
    Rslv(NodeId, NodeId),
    Cond(NodeId, NodeId),
    Envn(NodeId, NodeId),
    Bind(NodeId, NodeId),
    Accs(NodeId, NodeId),
    Lmbd(NodeId, NodeId),
}

impl View for Epiq {
    type V = EpiqV;

    open spec fn view(&self) -> EpiqV {
        match self {
            Epiq::Unit => EpiqV::Unit,
            Epiq::Tval => EpiqV::Tval,
            Epiq::Fval => EpiqV::Fval,
            Epiq::Name(s) => EpiqV::Name(s@),
            Epiq::Text(s) => EpiqV::Text(s@),
            Epiq::Uit8(n) => EpiqV::Uit8(*n),
            Epiq::Prim(s) => EpiqV::Prim(s@),
            Epiq::Tpiq { o, p, q } => EpiqV::Tpiq { o: o@, p: *p, q: *q },
            Epiq::Mpiq { o, p, q } => EpiqV::Mpiq { o: o@, p: *p, q: *q },
            Epiq::Quot(p, q) => EpiqV::Quot(*p, *q),
            Epiq::Eval(p, q) => EpiqV::Eval(*p, *q),
            Epiq::Lpiq(p, q) => EpiqV::Lpiq(*p, *q),
            Epiq::Appl(p, q) => EpiqV::Appl(*p, *q),
            Epiq::Rslv(p, q) => EpiqV::Rslv(*p, *q),
            Epiq::Cond(p, q) => EpiqV::Cond(*p, *q),
            Epiq::Envn(p, q) => EpiqV::Envn(*p, *q),
            Epiq::Bind(p, q) => EpiqV::Bind(*p, *q),
            Epiq::Accs(p, q) => EpiqV::Accs(*p, *q),
            Epiq::Lmbd(p, q) => EpiqV::Lmbd(*p, *q),
        }
    }
}

impl Epiq {
    /// A copy of the piq.
    pub fn copy(&self) -> (e: Epiq)
        ensures
            e == *self,
    {
        match self {
            Epiq::Unit => Epiq::Unit,
            Epiq::Tval => Epiq::Tval,
            Epiq::Fval => Epiq::Fval,
            Epiq::Name(s) => Epiq::Name(s.clone()),
            Epiq::Text(s) => Epiq::Text(s.clone()),
            Epiq::Uit8(n) => Epiq::Uit8(*n),
            Epiq::Prim(s) => Epiq::Prim(s.clone()),
            Epiq::Tpiq { o, p, q } => Epiq::Tpiq { o: o.clone(), p: *p, q: *q },
            Epiq::Mpiq { o, p, q } => Epiq::Mpiq { o: o.clone(), p: *p, q: *q },
            Epiq::Quot(p, q) => Epiq::Quot(*p, *q),
            Epiq::Eval(p, q) => Epiq::Eval(*p, *q),
            Epiq::Lpiq(p, q) => Epiq::Lpiq(*p, *q),
            Epiq::Appl(p, q) => Epiq::Appl(*p, *q),
            Epiq::Rslv(p, q) => Epiq::Rslv(*p, *q),
            Epiq::Cond(p, q) => Epiq::Cond(*p, *q),
            Epiq::Envn(p, q) => Epiq::Envn(*p, *q),
            Epiq::Bind(p, q) => Epiq::Bind(*p, *q),
            Epiq::Accs(p, q) => Epiq::Accs(*p, *q),
            Epiq::Lmbd(p, q) => Epiq::Lmbd(*p, *q),
        }
    }
}

impl EpiqV {
    /// Both parts of a pair-shaped piq are below `i`.
    pub open spec fn children_below(self, i: int) -> bool {
        match self {
            EpiqV::Tpiq { p, q, .. } => p < i && q < i,
            EpiqV::Mpiq { p, q, .. } => p < i && q < i,
            EpiqV::Quot(p, q) => p < i && q < i,
            EpiqV::Eval(p, q) => p < i && q < i,
            EpiqV::Lpiq(p, q) => p < i && q < i,
            EpiqV::Appl(p, q) => p < i && q < i,
            EpiqV::Rslv(p, q) => p < i && q < i,
            EpiqV::Cond(p, q) => p < i && q < i,
            EpiqV::Envn(p, q) => p < i && q < i,
            EpiqV::Bind(p, q) => p < i && q < i,
            EpiqV::Accs(p, q) => p < i && q < i,
            EpiqV::Lmbd(p, q) => p < i && q < i,
            _ => true,
        }
    }
}

/// Every part of every node is a node.
pub open spec fn nodes_closed(nodes: Seq<EpiqV>) -> bool {
    forall|i: int| 0 <= i < nodes.len() ==> (#[trigger] nodes[i]).children_below(nodes.len() as int)
}

/// The abstract state of the machine.
pub struct HeliqsV {
    pub nodes: Seq<EpiqV>,
    pub entry: Option<NodeId>,
    pub frames: Seq<Seq<BindingV>>,
    /// What the program has printed.
    pub out: Seq<char>,
}

impl HeliqsV {
    pub open spec fn wf(self) -> bool {
        &&& self.frames.len() >= 1
        &&& graph::bindings_below(self.frames, self.nodes.len())
    }

    /// Every part of every node is a node: what walking and printing read
    /// is there.
    pub open spec fn closed(self) -> bool {
        nodes_closed(self.nodes)
    }

    /// The entry point, where there is one, is a node.
    pub open spec fn entry_ok(self) -> bool {
        self.entry matches Some(e) ==> e < self.nodes.len()
    }

    /// The state after a node holding `e` is allocated.
    pub open spec fn with_node(self, e: EpiqV) -> HeliqsV {
        HeliqsV { nodes: self.nodes.push(e), entry: Some(self.nodes.len() as NodeId), ..self }
    }

    /// The state after `name` is bound to `value` in the innermost frame.
    pub open spec fn define(self, name: Seq<char>, value: NodeId) -> HeliqsV {
        HeliqsV { frames: graph::define_frames(self.frames, name, value), ..self }
    }

    /// The node that `name` resolves to.
    pub open spec fn resolve(self, name: Seq<char>) -> Option<NodeId> {
        graph::resolve_from(self.frames, name, self.frames.len() - 1)
    }
}

/// The machine: the arena of nodes with its symbol table, and what the
/// program has printed so far.
pub struct Heliqs {
    arena: NodeArena<Epiq>,
    out: String,
}

impl View for Heliqs {
    type V = HeliqsV;

    closed spec fn view(&self) -> HeliqsV {
        HeliqsV {
            nodes: self.arena.values().map_values(|e: Epiq| e@),
            entry: self.arena.spec_entry(),
            frames: self.arena.frames(),
            out: self.out@,
        }
    }
}

impl Heliqs {
    /// The arena and its symbol table are well formed.
    pub closed spec fn wf(&self) -> bool {
        &&& self.arena.wf()
        &&& self@.wf()
    }

    /// A well-formed machine has a well-formed state.
    pub proof fn lemma_view_wf(&self)
        requires
            self.wf(),
        ensures
            self@.wf(),
    {
    }

    /// Number of nodes.
    pub open spec fn spec_len(&self) -> nat {
        self@.nodes.len()
    }

    /// An empty machine.
    pub fn new() -> (vm: Heliqs)
        ensures
            vm.wf(),
            vm@.nodes == Seq::<EpiqV>::empty(),
            vm@.entry == None::<NodeId>,
            vm@.frames == seq![Seq::<BindingV>::empty()],
            vm@.out == Seq::<char>::empty(),
            vm@.closed(),
    {
        let vm = Heliqs { arena: NodeArena::new(), out: String::new() };
        proof {
            assert(vm@.nodes =~= Seq::<EpiqV>::empty());
            assert(graph::bindings_below(vm@.frames, 0)) by {
                assert(vm@.frames[0] =~= Seq::<BindingV>::empty());
            }
        }
        vm
    }

    /// Number of nodes.
    pub fn len(&self) -> (n: usize)
        requires
            self.wf(),
        ensures
            n == self@.nodes.len(),
    {
        proof {
            assert(self@.nodes.len() == self.arena.nodes().len());
        }
        self.arena.len()
    }

    /// Appends a node holding `e`; it becomes the entry point.
    pub fn allocate(&mut self, e: Epiq) -> (id: NodeId)
        requires
            old(self).wf(),
            old(self)@.nodes.len() < usize::MAX,
        ensures
            final(self).wf(),
            id == old(self)@.nodes.len(),
            final(self)@ == old(self)@.with_node(e@),
            old(self)@.closed() && e@.children_below(id as int) ==> final(self)@.closed(),
    {
        let ghost ev = e@;
        let id = self.arena.allocate(e);
        proof {
            assert(self@.nodes =~= old(self)@.nodes.push(ev));
            if old(self)@.closed() && ev.children_below(id as int) {
                assert forall|i: int| 0 <= i < self@.nodes.len() implies (#[trigger] self@.nodes[i]).children_below(self@.nodes.len() as int) by {
                    if i < old(self)@.nodes.len() {
                        assert(self@.nodes[i] == old(self)@.nodes[i]);
                        assert(old(self)@.nodes[i].children_below(old(self)@.nodes.len() as int));
                    }
                }
            }
        }
        id
    }

    /// The piq held by node `i`.
    pub fn get_epiq(&self, i: NodeId) -> (e: &Epiq)
        requires
            self.wf(),
            i < self@.nodes.len(),
        ensures
            e@ == self@.nodes[i as int],
    {
        &self.arena.get(i).1
    }

    /// Replaces the piq held by node `i`.
    pub fn set_epiq(&mut self, i: NodeId, e: Epiq)
        requires
            old(self).wf(),
            i < old(self)@.nodes.len(),
        ensures
            final(self).wf(),
            final(self)@ == (HeliqsV { nodes: old(self)@.nodes.update(i as int, e@), ..old(self)@ }),
            old(self)@.closed() && e@.children_below(old(self)@.nodes.len() as int) ==> final(self)@.closed(),
    {
        let ghost ev = e@;
        let node = self.arena.get_mut(i);
        node.1 = e;
        proof {
            assert(self@.nodes =~= old(self)@.nodes.update(i as int, ev));
            if old(self)@.closed() && ev.children_below(old(self)@.nodes.len() as int) {
                assert forall|j: int| 0 <= j < self@.nodes.len() implies (#[trigger] self@.nodes[j]).children_below(self@.nodes.len() as int) by {
                    if j != i {
                        assert(self@.nodes[j] == old(self)@.nodes[j]);
                    }
                }
            }
            assert(self.arena.wf());
        }
    }

    /// The entry point.
    pub fn entry(&self) -> (e: Option<NodeId>)
        ensures
            e == self@.entry,
    {
        self.arena.entry()
    }

    /// Makes node `i` the entry point.
    pub fn set_entry(&mut self, i: NodeId)
        requires
            old(self).wf(),
        ensures
            final(self).wf(),
            final(self)@ == (HeliqsV { entry: Some(i), ..old(self)@ }),
    {
        self.arena.set_entry(i);
        proof {
            assert(self@.nodes =~= old(self)@.nodes);
        }
    }

    /// Binds `name` to node `value` in the innermost frame, unless that frame
    /// already binds `name`.
    pub fn define(&mut self, name: &str, value: NodeId)
        requires
            old(self).wf(),
            value < old(self)@.nodes.len(),
        ensures
            final(self).wf(),
            final(self)@ == old(self)@.define(name@, value),
            final(self)@.frames.len() == old(self)@.frames.len(),
    {
        self.arena.define(name, value);
        proof {
            assert(self@.nodes =~= old(self)@.nodes);
        }
    }

    /// The node that `name` resolves to.
    pub fn resolve(&self, name: &str) -> (r: Option<NodeId>)
        requires
            self.wf(),
        ensures
            r == self@.resolve(name@),
            r matches Some(n) ==> n < self@.nodes.len(),
    {
        self.arena.resolve_id(name)
    }

    /// Pushes a new, empty, innermost frame.
    pub fn extend(&mut self)
        requires
            old(self).wf(),
            old(self)@.frames.len() < usize::MAX,
        ensures
            final(self).wf(),
            final(self)@ == (HeliqsV { frames: old(self)@.frames.push(Seq::<BindingV>::empty()), ..old(self)@ }),
    {
        self.arena.extend();
        proof {
            assert(self@.nodes =~= old(self)@.nodes);
        }
    }

    /// Drops the innermost frame.
    pub fn pop(&mut self)
        requires
            old(self).wf(),
            old(self)@.frames.len() >= 2,
        ensures
            final(self).wf(),
            final(self)@ == (HeliqsV { frames: old(self)@.frames.drop_last(), ..old(self)@ }),
    {
        self.arena.pop();
        proof {
            assert(self@.nodes =~= old(self)@.nodes);
        }
    }

    /// Number of frames.
    pub fn depth(&self) -> (n: usize)
        ensures
            n == self@.frames.len(),
    {
        self.arena.depth()
    }

    /// Appends `s` to what the program has printed.
    pub fn write_out(&mut self, s: &str)
        requires
            old(self).wf(),
        ensures
            final(self).wf(),
            final(self)@ == (HeliqsV { out: old(self)@.out + s@, ..old(self)@ }),
    {
        self.out.append(s);
    }

    /// What the program has printed.
    pub fn output(&self) -> (s: &String)
        ensures
            s@ == self@.out,
    {
        &self.out
    }
}

/// A growing vector of piqs with an entry point.
pub struct AbstractSyntaxTree {
    pub entrypoint: Option<u32>,
    tree: Vec<Epiq>,
    pub max_index: u32,
}

impl AbstractSyntaxTree {
    /// The entry point.
    pub closed spec fn spec_entrypoint(&self) -> Option<u32> {
        self.entrypoint
    }

    /// The index of the last piq pushed.
    pub closed spec fn spec_max_index(&self) -> u32 {
        self.max_index
    }

    /// The piqs, in order.
    pub closed spec fn spec_tree(&self) -> Seq<EpiqV> {
        self.tree@.map_values(|e: Epiq| e@)
    }

    /// An empty tree.
    pub fn new() -> (t: Self)
        ensures
            t.spec_entrypoint() == None::<u32>,
            t.spec_tree() == Seq::<EpiqV>::empty(),
            t.spec_max_index() == 0,
    {
        let t = AbstractSyntaxTree { entrypoint: None, tree: Vec::new(), max_index: 0 };
        assert(t.spec_tree() =~= Seq::<EpiqV>::empty());
        t
    }

    /// Number of piqs.
    pub fn len(&self) -> (n: usize)
        ensures
            n == self.spec_tree().len(),
    {
        self.tree.len()
    }

    /// The entry point.
    pub fn entry(&self) -> (e: Option<u32>)
        ensures
            e == self.spec_entrypoint(),
    {
        self.entrypoint
    }

    /// The index of the last piq pushed.
    pub fn last_index(&self) -> (m: u32)
        ensures
            m == self.spec_max_index(),
    {
        self.max_index
    }

    /// Makes piq `index` the entry point.
    pub fn set_entry(&mut self, index: u32)
        ensures
            final(self).spec_entrypoint() == Some(index),
            final(self).spec_tree() == old(self).spec_tree(),
            final(self).spec_max_index() == old(self).spec_max_index(),
    {
        self.entrypoint = Some(index);
    }

    /// The piq at `index`.
    pub fn get(&self, index: u32) -> (e: &Epiq)
        requires
            index < self.spec_tree().len(),
        ensures
            e@ == self.spec_tree()[index as int],
    {
        &self.tree[index as usize]
    }

    /// Appends a piq; `max_index` becomes its index.
    pub fn push(&mut self, epiq: Epiq)
        requires
            old(self).spec_tree().len() < u32::MAX,
        ensures
            final(self).spec_tree() == old(self).spec_tree().push(epiq@),
            final(self).spec_max_index() == old(self).spec_tree().len(),
            final(self).spec_entrypoint() == old(self).spec_entrypoint(),
    {
        let ghost ev = epiq@;
        self.tree.push(epiq);
        self.max_index = (self.tree.len() - 1) as u32;
        assert(self.spec_tree() =~= old(self).spec_tree().push(ev));
    }

    /// Appends a piq and makes it the entry point.
    pub fn push_and_entry(&mut self, epiq: Epiq)
        requires
            old(self).spec_tree().len() < u32::MAX,
        ensures
            final(self).spec_tree() == old(self).spec_tree().push(epiq@),
            final(self).spec_max_index() == old(self).spec_tree().len(),
            final(self).spec_entrypoint() == Some(old(self).spec_tree().len() as u32),
    {
        self.push(epiq);
        self.entrypoint = Some(self.max_index);
    }
}

} // verus!
