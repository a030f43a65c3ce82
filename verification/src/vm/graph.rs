use vstd::prelude::*;

verus! {

/// Index of a node in a [`NodeArena`].
pub type NodeId = usize;

/// A node of the arena: its own index and its value.
pub struct Node<T>(pub NodeId, pub T);

/// One binding of a frame: a name and the node it is bound to.
pub type Binding = (String, Option<NodeId>);

/// The abstract value of one binding.
pub type BindingV = (Seq<char>, Option<NodeId>);

/// Index of the first binding of `frame`, at or after `i`, whose name is `name`.
pub open spec fn find_binding_from(frame: Seq<BindingV>, name: Seq<char>, i: int) -> Option<int>
    decreases frame.len() - i,
{
    if i < 0 || i >= frame.len() {
        None
    } else if frame[i].0 == name {
        Some(i)
    } else {
        find_binding_from(frame, name, i + 1)
    }
}

/// Index of the first binding of `frame` whose name is `name`.
pub open spec fn find_binding(frame: Seq<BindingV>, name: Seq<char>) -> Option<int> {
    find_binding_from(frame, name, 0)
}

/// What `name` is bound to when it is looked up from frame `k` towards the
/// outermost frame (frame 0): the first frame that binds it to a node decides.
pub open spec fn resolve_from(frames: Seq<Seq<BindingV>>, name: Seq<char>, k: int) -> Option<NodeId>
    decreases k,
{
    if k < 0 || k >= frames.len() {
        None
    } else {
        let found = find_binding(frames[k], name);
        if found is Some && frames[k][found->0].1 is Some {
            frames[k][found->0].1
        } else if k == 0 {
            None
        } else {
            resolve_from(frames, name, k - 1)
        }
    }
}

/// The frames of a symbol table after `name` is defined as `value` in the
/// innermost frame: a name that this frame already binds keeps its binding.
pub open spec fn define_frames(frames: Seq<Seq<BindingV>>, name: Seq<char>, value: NodeId) -> Seq<Seq<BindingV>> {
    let k = frames.len() - 1;
    if find_binding(frames[k], name) is Some {
        frames
    } else {
        frames.update(k, frames[k].push((name, Some(value))))
    }
}

pub open spec fn binding_view(b: Binding) -> BindingV {
    (b.0@, b.1)
}

pub open spec fn frame_view(f: Seq<Binding>) -> Seq<BindingV> {
    f.map_values(|b: Binding| binding_view(b))
}

/// A stack of frames of bindings from names to nodes.  The innermost frame is
/// the last one; `current_index` always points at it.
pub struct SymbolTable {
    table: Vec<Vec<Binding>>,
    current_index: usize,
}

impl SymbolTable {
    /// The frames, innermost last.
    pub closed spec fn frames(&self) -> Seq<Seq<BindingV>> {
        self.table@.map_values(|f: Vec<Binding>| frame_view(f@))
    }

    /// The table has at least one frame and `current_index` is the last one.
    pub closed spec fn wf(&self) -> bool {
        &&& self.table@.len() >= 1
        &&& self.current_index == self.table@.len() - 1
    }

    /// A well-formed table has at least one frame.
    pub proof fn lemma_wf(&self)
        requires
            self.wf(),
        ensures
            self.frames().len() >= 1,
    {
    }

    /// What `name` resolves to: the innermost binding of it.
    pub open spec fn spec_resolve(&self, name: Seq<char>) -> Option<NodeId> {
        resolve_from(self.frames(), name, self.frames().len() - 1)
    }

    /// A table with one empty frame.  The argument is not used.
    pub fn new(_initial_table: Vec<(String, Option<NodeId>)>) -> (st: SymbolTable)
        ensures
            st.wf(),
            st.frames() == seq![Seq::<BindingV>::empty()],
    {
        let st = SymbolTable { table: vec![Vec::new()], current_index: 0 };
        assert(st.frames() =~= seq![Seq::<BindingV>::empty()]) by {
            assert(frame_view(st.table@[0]@) =~= Seq::<BindingV>::empty());
        }
        st
    }

    /// Binds `name` to `value` in the innermost frame, unless that frame
    /// already binds `name`, in which case nothing changes.
    pub fn define(&mut self, name: &str, value: NodeId)
        requires
            old(self).wf(),
        ensures
            final(self).wf(),
            final(self).frames() == define_frames(old(self).frames(), name@, value),
    {
        let k = self.current_index;
        let owned = name.to_owned();
        let found = find_in_frame(&self.table[k], &owned);
        if found.is_none() {
            let ghost old_frames = self.frames();
            let mut frame = Vec::new();
            std::mem::swap(&mut frame, &mut self.table[k]);
            let ghost old_frame = frame@;
            frame.push((owned, Some(value)));
            self.table.set(k, frame);
            proof {
                assert(frame_view(frame@) =~= frame_view(old_frame).push((name@, Some(value))));
                assert(self.frames() =~= define_frames(old_frames, name@, value));
            }
        } else {
            assert(self.frames() == define_frames(self.frames(), name@, value));
        }
    }

    /// The innermost binding of `name`: `Some(Some(node))`, or `None` where no
    /// frame binds it.
    pub fn resolve(&self, name: &str) -> (r: Option<Option<NodeId>>)
        requires
            self.wf(),
        ensures
            r == (match self.spec_resolve(name@) {
                Some(n) => Some(Some(n)),
                None => None,
            }),
    {
        let owned = name.to_owned();
        self.resolve_internal(&owned, self.current_index)
    }

    fn resolve_internal(&self, name: &String, frame: usize) -> (r: Option<Option<NodeId>>)
        requires
            self.wf(),
            frame < self.table@.len(),
        ensures
            r == (match resolve_from(self.frames(), name@, frame as int) {
                Some(n) => Some(Some(n)),
                None => None,
            }),
        decreases frame,
    {
        let found = find_in_frame(&self.table[frame], name);
        proof {
            let fv = frame_view(self.table@[frame as int]@);
            assert(fv == self.frames()[frame as int]);
            lemma_find_binding_from_bounds(fv, name@, 0);
            if let Some(j) = found {
                assert(fv[j as int] == binding_view(self.table@[frame as int]@[j as int]));
            }
        }
        match found {
            Some(j) => {
                match self.table[frame][j].1 {
                    Some(r) => {
                        assert(find_binding(self.frames()[frame as int], name@) == Some(j as int));
                        assert(self.frames()[frame as int][j as int].1 == Some(r));
                        assert(resolve_from(self.frames(), name@, frame as int) == Some(r));
                        return Some(Some(r));
                    },
                    None => {},
                }
            },
            None => {},
        }
        if frame == 0 {
            None
        } else {
            self.resolve_internal(name, frame - 1)
        }
    }

    /// Pushes a new, empty, innermost frame.
    pub fn extend(&mut self)
        requires
            old(self).wf(),
            old(self).frames().len() < usize::MAX,
        ensures
            final(self).wf(),
            final(self).frames() == old(self).frames().push(Seq::<BindingV>::empty()),
    {
        let new_frame = Vec::new();
        self.table.push(new_frame);
        self.current_index = self.table.len() - 1;
        assert(self.frames() =~= old(self).frames().push(Seq::<BindingV>::empty())) by {
            assert(frame_view(self.table@.last()@) =~= Seq::<BindingV>::empty());
        }
    }

    /// Drops the innermost frame.  The outermost frame is never dropped.
    pub fn pop(&mut self)
        requires
            old(self).wf(),
            old(self).frames().len() >= 2,
        ensures
            final(self).wf(),
            final(self).frames() == old(self).frames().drop_last(),
    {
        let _ = self.table.pop();
        self.current_index = self.table.len() - 1;
        assert(self.frames() =~= old(self).frames().drop_last());
    }

    /// Number of frames.
    pub fn depth(&self) -> (n: usize)
        ensures
            n == self.frames().len(),
    {
        self.table.len()
    }

    /// Dropping a frame undoes pushing it, whatever was defined in it
    /// meanwhile: a table `after` that `extend`, any `define`s and `pop` made
    /// of `before` has the same frames, as many of them, and every name
    /// resolves in it as it did in `before`.
    pub proof fn lemma_pop_restores(before: &SymbolTable, after: &SymbolTable, defs: Seq<(Seq<char>, NodeId)>)
        requires
            before.wf(),
            after.frames() == define_all(before.frames().push(Seq::<BindingV>::empty()), defs).drop_last(),
        ensures
            after.frames() == before.frames(),
            after.frames().len() == before.frames().len(),
            forall|name: Seq<char>| #[trigger] after.spec_resolve(name) == before.spec_resolve(name),
    {
        lemma_pop_undoes_extend(before.frames(), defs, Seq::<char>::empty());
    }
}

/// Index of the first binding of `frame` named `name`.
fn find_in_frame(frame: &Vec<Binding>, name: &String) -> (r: Option<usize>)
    ensures
        r matches Some(j) ==> find_binding(frame_view(frame@), name@) == Some(j as int),
        r is None ==> find_binding(frame_view(frame@), name@) is None,
        r matches Some(j) ==> j < frame@.len(),
{
    let ghost fv = frame_view(frame@);
    let mut i: usize = 0;
    while i < frame.len()
        invariant
            i <= frame@.len(),
            fv == frame_view(frame@),
            find_binding(fv, name@) == find_binding_from(fv, name@, i as int),
        decreases frame@.len() - i,
    {
        if frame[i].0 == *name {
            return Some(i);
        }
        i = i + 1;
    }
    None
}

/// An arena of nodes addressed by their index, together with the node chosen
/// as entry point and a symbol table that binds names to nodes.
pub struct NodeArena<T>(pub Vec<Node<T>>, Option<usize>, SymbolTable);

impl<T> NodeArena<T> {
    /// The nodes, in index order.
    pub closed spec fn nodes(&self) -> Seq<Node<T>> {
        self.0@
    }

    /// The values of the nodes, in index order.
    pub open spec fn values(&self) -> Seq<T> {
        self.nodes().map_values(|n: Node<T>| n.1)
    }

    /// The entry point.
    pub closed spec fn spec_entry(&self) -> Option<usize> {
        self.1
    }

    /// The frames of the symbol table.
    pub closed spec fn frames(&self) -> Seq<Seq<BindingV>> {
        self.2.frames()
    }

    /// Every node holds its own index, and the symbol table is well formed
    /// and binds names to existing nodes only.
    pub closed spec fn wf(&self) -> bool {
        &&& self.2.wf()
        &&& forall|i: int| 0 <= i < self.nodes().len() ==> #[trigger] self.nodes()[i].0 == i
        &&& bindings_below(self.2.frames(), self.nodes().len())
    }

    /// A well-formed arena has a frame, and every node holds its own index.
    pub proof fn lemma_wf(&self)
        requires
            self.wf(),
        ensures
            self.frames().len() >= 1,
            forall|i: int| 0 <= i < self.nodes().len() ==> #[trigger] self.nodes()[i].0 == i,
    {
    }

    /// An empty arena, with no entry point and one empty frame.
    pub fn new() -> (a: NodeArena<T>)
        ensures
            a.wf(),
            a.nodes().len() == 0,
            a.spec_entry() == None::<usize>,
            a.frames() == seq![Seq::<BindingV>::empty()],
    {
        let a = NodeArena::<T>(Vec::new(), None, SymbolTable::new(Vec::new()));
        assert(bindings_below(a.2.frames(), 0)) by {
            assert(a.2.frames()[0] =~= Seq::<BindingV>::empty());
        }
        a
    }

    /// Appends a node holding `value`, makes it the entry point, and returns
    /// its index.
    pub fn allocate(&mut self, value: T) -> (id: NodeId)
        requires
            old(self).nodes().len() < usize::MAX,
        ensures
            id == old(self).nodes().len(),
            final(self).values() == old(self).values().push(value),
            final(self).nodes() == old(self).nodes().push(Node(id, value)),
            final(self).spec_entry() == Some(id),
            final(self).frames() == old(self).frames(),
            old(self).wf() ==> final(self).wf(),
    {
        let id = self.0.len();
        let node = Node(id, value);
        self.0.push(node);
        self.1 = Some(id);
        proof {
            assert(self.values() =~= old(self).values().push(value));
            if old(self).wf() {
                lemma_bindings_below_mono(self.2.frames(), old(self).nodes().len(), self.nodes().len());
            }
        }
        id
    }

    /// Number of nodes.
    pub fn len(&self) -> (n: usize)
        ensures
            n == self.nodes().len(),
    {
        self.0.len()
    }

    /// The node at `id`.
    pub fn get(&self, id: NodeId) -> (n: &Node<T>)
        requires
            id < self.nodes().len(),
        ensures
            *n == self.nodes()[id as int],
    {
        &self.0[id]
    }

    /// The node at `id`, to be changed in place.
    pub fn get_mut(&mut self, id: NodeId) -> (n: &mut Node<T>)
        requires
            id < old(self).nodes().len(),
        ensures
            *n == old(self).nodes()[id as int],
            final(self).nodes() == old(self).nodes().update(id as int, *final(n)),
            old(self).wf() ==> n.0 == id,
            old(self).wf() && final(n).0 == id ==> final(self).wf(),
            final(self).spec_entry() == old(self).spec_entry(),
            final(self).frames() == old(self).frames(),
    {
        &mut self.0[id]
    }

    /// The entry point.
    pub fn entry(&self) -> (e: Option<NodeId>)
        ensures
            e == self.spec_entry(),
    {
        self.1
    }

    /// Makes `id` the entry point.
    pub fn set_entry(&mut self, id: NodeId)
        ensures
            final(self).spec_entry() == Some(id),
            final(self).nodes() == old(self).nodes(),
            final(self).frames() == old(self).frames(),
            old(self).wf() ==> final(self).wf(),
    {
        self.1 = Some(id);
    }

    /// The largest index in use, `None` for an empty arena.
    pub fn max_id(&self) -> (m: Option<NodeId>)
        ensures
            m == max_id_of(self.nodes()),
    {
        let id = self.0.len();
        if id == 0 {
            None
        } else {
            Some(id - 1)
        }
    }

    /// Binds `name` to node `value` in the innermost frame, unless that frame
    /// already binds `name`.
    pub fn define(&mut self, name: &str, value: NodeId)
        requires
            old(self).wf(),
            value < old(self).nodes().len(),
        ensures
            final(self).wf(),
            final(self).nodes() == old(self).nodes(),
            final(self).spec_entry() == old(self).spec_entry(),
            final(self).frames() == define_frames(old(self).frames(), name@, value),
    {
        self.2.define(name, value);
        proof {
            lemma_define_bindings_below(old(self).2.frames(), name@, value, self.nodes().len());
        }
    }

    /// What `name` resolves to, innermost binding first.
    pub open spec fn spec_resolve(&self, name: Seq<char>) -> Option<NodeId> {
        resolve_from(self.frames(), name, self.frames().len() - 1)
    }

    /// The node that `name` is bound to, as `Some(Some(node))`, or `None`.
    pub fn resolve(&self, name: &str) -> (r: Option<Option<&Node<T>>>)
        requires
            self.wf(),
        ensures
            match self.spec_resolve(name@) {
                Some(n) => r == Some(Some(&self.nodes()[n as int])) && n < self.nodes().len(),
                None => r is None,
            },
    {
        let found = self.2.resolve(name);
        proof {
            lemma_resolve_below(self.2.frames(), name@, self.nodes().len(), self.2.frames().len() - 1);
        }
        match found {
            Some(Some(n)) => Some(Some(&self.0[n])),
            _ => None,
        }
    }

    /// What `name` resolves to, as a node index.
    pub fn resolve_id(&self, name: &str) -> (r: Option<NodeId>)
        requires
            self.wf(),
        ensures
            r == self.spec_resolve(name@),
            r matches Some(n) ==> n < self.nodes().len(),
    {
        let found = self.2.resolve(name);
        proof {
            lemma_resolve_below(self.2.frames(), name@, self.nodes().len(), self.2.frames().len() - 1);
        }
        match found {
            Some(Some(n)) => Some(n),
            _ => None,
        }
    }

    /// Pushes a new, empty, innermost frame.
    pub fn extend(&mut self)
        requires
            old(self).wf(),
            old(self).frames().len() < usize::MAX,
        ensures
            final(self).wf(),
            final(self).nodes() == old(self).nodes(),
            final(self).spec_entry() == old(self).spec_entry(),
            final(self).frames() == old(self).frames().push(Seq::<BindingV>::empty()),
    {
        self.2.extend();
        proof {
            let fs = self.2.frames();
            assert forall|k: int, j: int| 0 <= k < fs.len() && 0 <= j < fs[k].len()
                && (#[trigger] fs[k][j]).1 is Some implies fs[k][j].1->0 < self.nodes().len() by {
                if k < fs.len() - 1 {
                    assert(fs[k] == old(self).2.frames()[k]);
                }
            }
        }
    }

    /// Drops the innermost frame; the outermost frame is never dropped.
    pub fn pop(&mut self)
        requires
            old(self).wf(),
            old(self).frames().len() >= 2,
        ensures
            final(self).wf(),
            final(self).nodes() == old(self).nodes(),
            final(self).spec_entry() == old(self).spec_entry(),
            final(self).frames() == old(self).frames().drop_last(),
    {
        self.2.pop();
        proof {
            let fs = self.2.frames();
            assert forall|k: int, j: int| 0 <= k < fs.len() && 0 <= j < fs[k].len()
                && (#[trigger] fs[k][j]).1 is Some implies fs[k][j].1->0 < self.nodes().len() by {
                assert(fs[k] == old(self).2.frames()[k]);
            }
        }
    }

    /// Number of frames of the symbol table.
    pub fn depth(&self) -> (n: usize)
        ensures
            n == self.frames().len(),
    {
        self.2.depth()
    }
}

/// Every node that a binding of `frames` names is below `n`.
pub open spec fn bindings_below(frames: Seq<Seq<BindingV>>, n: nat) -> bool {
    forall|k: int, j: int| 0 <= k < frames.len() && 0 <= j < frames[k].len()
        && (#[trigger] frames[k][j]).1 is Some ==> frames[k][j].1->0 < n
}

proof fn lemma_bindings_below_mono(frames: Seq<Seq<BindingV>>, n: nat, m: nat)
    requires
        bindings_below(frames, n),
        n <= m,
    ensures
        bindings_below(frames, m),
{
}

proof fn lemma_define_bindings_below(frames: Seq<Seq<BindingV>>, name: Seq<char>, value: NodeId, n: nat)
    requires
        frames.len() >= 1,
        bindings_below(frames, n),
        value < n,
    ensures
        bindings_below(define_frames(frames, name, value), n),
{
    let fs = define_frames(frames, name, value);
    let last = frames.len() - 1;
    assert forall|k: int, j: int| 0 <= k < fs.len() && 0 <= j < fs[k].len()
        && (#[trigger] fs[k][j]).1 is Some implies fs[k][j].1->0 < n by {
        if k != last || find_binding(frames[last], name) is Some {
            assert(fs[k] == frames[k]);
        } else if j < frames[k].len() {
            assert(fs[k][j] == frames[k][j]);
        }
    }
}

/// A binding that the search finds has the name searched for, and stands at
/// or after where the search began.
pub proof fn lemma_find_binding_from_bounds(frame: Seq<BindingV>, name: Seq<char>, i: int)
    ensures
        find_binding_from(frame, name, i) matches Some(j) ==> i <= j < frame.len() && frame[j].0 == name,
    decreases frame.len() - i,
{
    if 0 <= i < frame.len() && frame[i].0 != name {
        lemma_find_binding_from_bounds(frame, name, i + 1);
    }
}

proof fn lemma_resolve_below(frames: Seq<Seq<BindingV>>, name: Seq<char>, n: nat, k: int)
    requires
        bindings_below(frames, n),
    ensures
        resolve_from(frames, name, k) matches Some(r) ==> r < n,
    decreases k,
{
    if 0 <= k < frames.len() {
        lemma_find_binding_from_bounds(frames[k], name, 0);
        let found = find_binding(frames[k], name);
        if found is Some && frames[k][found->0].1 is Some {
            assert(frames[k][found->0].1->0 < n);
        } else if k != 0 {
            lemma_resolve_below(frames, name, n, k - 1);
        }
    }
}


/// Looking for `name` in a frame with one more binding at its end finds what
/// it found before, or else the new binding where it has that name.
proof fn lemma_find_binding_push(frame: Seq<BindingV>, b: BindingV, name: Seq<char>, i: int)
    requires
        0 <= i <= frame.len(),
    ensures
        find_binding_from(frame.push(b), name, i) == (match find_binding_from(frame, name, i) {
            Some(j) => Some(j),
            None => if b.0 == name {
                Some(frame.len() as int)
            } else {
                None::<int>
            },
        }),
    decreases frame.len() - i,
{
    let f2 = frame.push(b);
    if i < frame.len() {
        assert(f2[i] == frame[i]);
        if frame[i].0 != name {
            lemma_find_binding_push(frame, b, name, i + 1);
        }
    } else {
        assert(f2[i] == b);
        assert(find_binding_from(f2, name, i + 1) is None);
    }
}

/// Resolving from frame `k` only looks at frames `k` and below, so one more
/// frame on top changes nothing there.
proof fn lemma_resolve_push(frames: Seq<Seq<BindingV>>, x: Seq<BindingV>, name: Seq<char>, k: int)
    requires
        0 <= k < frames.len(),
    ensures
        resolve_from(frames.push(x), name, k) == resolve_from(frames, name, k),
    decreases k,
{
    assert(frames.push(x)[k] == frames[k]);
    if k > 0 {
        lemma_resolve_push(frames, x, name, k - 1);
    }
}

/// A name bound in the innermost frame resolves to what it is bound to there,
/// whatever the outer frames bind.
pub proof fn lemma_innermost_first(frames: Seq<Seq<BindingV>>, name: Seq<char>, j: int, value: NodeId)
    requires
        frames.len() >= 1,
        find_binding(frames.last(), name) == Some(j),
        frames.last()[j].1 == Some(value),
    ensures
        resolve_from(frames, name, frames.len() - 1) == Some(value),
{
}

/// Defining a name that the innermost frame does not bind makes it resolve to
/// the value defined.
pub proof fn lemma_define_then_resolve(frames: Seq<Seq<BindingV>>, name: Seq<char>, value: NodeId)
    requires
        frames.len() >= 1,
        find_binding(frames.last(), name) is None,
    ensures
        resolve_from(define_frames(frames, name, value), name, frames.len() - 1) == Some(value),
{
    let k = frames.len() - 1;
    let fs = define_frames(frames, name, value);
    lemma_find_binding_push(frames[k], (name, Some(value)), name, 0);
    assert(fs[k] == frames[k].push((name, Some(value))));
    assert(find_binding(fs[k], name) == Some(frames[k].len() as int));
}

/// Defining a name that the innermost frame already binds changes nothing:
/// the first definition stays.
pub proof fn lemma_redefine_keeps(frames: Seq<Seq<BindingV>>, name: Seq<char>, value: NodeId)
    requires
        frames.len() >= 1,
        find_binding(frames.last(), name) is Some,
    ensures
        define_frames(frames, name, value) == frames,
{
}

/// Defining a name leaves every other name resolving as before.
pub proof fn lemma_define_keeps_others(frames: Seq<Seq<BindingV>>, name: Seq<char>, value: NodeId, other: Seq<char>, k: int)
    requires
        0 <= k < frames.len(),
        other != name,
    ensures
        resolve_from(define_frames(frames, name, value), other, k) == resolve_from(frames, other, k),
    decreases k,
{
    let last = frames.len() - 1;
    let fs = define_frames(frames, name, value);
    if find_binding(frames[last], name) is None && k == last {
        lemma_find_binding_push(frames[last], (name, Some(value)), other, 0);
        lemma_find_binding_from_bounds(frames[last], other, 0);
        assert(fs[k] == frames[k].push((name, Some(value))));
        if let Some(j) = find_binding(frames[k], other) {
            assert(fs[k][j] == frames[k][j]);
        }
    } else {
        assert(fs[k] == frames[k]);
    }
    if k > 0 {
        lemma_define_keeps_others(frames, name, value, other, k - 1);
    }
}

/// A new, empty innermost frame hides nothing: every name resolves as it did.
pub proof fn lemma_extend_keeps_resolve(frames: Seq<Seq<BindingV>>, name: Seq<char>)
    requires
        frames.len() >= 1,
    ensures
        resolve_from(frames.push(Seq::<BindingV>::empty()), name, frames.len() as int)
            == resolve_from(frames, name, frames.len() - 1),
{
    let fs = frames.push(Seq::<BindingV>::empty());
    assert(fs[frames.len() as int] == Seq::<BindingV>::empty());
    assert(find_binding(fs[frames.len() as int], name) is None);
    lemma_resolve_push(frames, Seq::<BindingV>::empty(), name, frames.len() - 1);
}

/// Dropping the frame that was just pushed gives the frames back.
pub proof fn lemma_pop_after_extend(frames: Seq<Seq<BindingV>>)
    ensures
        frames.push(Seq::<BindingV>::empty()).drop_last() == frames,
{
    assert(frames.push(Seq::<BindingV>::empty()).drop_last() =~= frames);
}

/// A binding made in a new frame hides any outer binding of the name while
/// the frame lasts; once the frame is dropped, the name resolves as before.
pub proof fn lemma_scoped_define(frames: Seq<Seq<BindingV>>, name: Seq<char>, value: NodeId)
    requires
        frames.len() >= 1,
    ensures
        resolve_from(define_frames(frames.push(Seq::<BindingV>::empty()), name, value), name, frames.len() as int)
            == Some(value),
        define_frames(frames.push(Seq::<BindingV>::empty()), name, value).drop_last() == frames,
{
    let fs = frames.push(Seq::<BindingV>::empty());
    assert(fs.last() == Seq::<BindingV>::empty());
    assert(find_binding(fs.last(), name) is None);
    lemma_define_then_resolve(fs, name, value);
    assert(define_frames(fs, name, value).drop_last() =~= frames);
}

/// The largest index in use among `nodes`, `None` where there is none.
pub open spec fn max_id_of<T>(nodes: Seq<Node<T>>) -> Option<NodeId> {
    if nodes.len() == 0 {
        None
    } else {
        Some((nodes.len() - 1) as NodeId)
    }
}

/// After a node is allocated, the largest index in use is its index (the
/// index that `allocate` returns, the number of nodes before it).
pub proof fn lemma_max_id_after_allocate<T>(nodes: Seq<Node<T>>, id: NodeId, value: T)
    requires
        id == nodes.len(),
    ensures
        max_id_of(nodes.push(Node(id, value))) == Some(id),
{
}

/// The frames after each `(name, node)` of `defs` is defined in turn.
pub open spec fn define_all(frames: Seq<Seq<BindingV>>, defs: Seq<(Seq<char>, NodeId)>) -> Seq<Seq<BindingV>>
    decreases defs.len(),
{
    if defs.len() == 0 {
        frames
    } else {
        define_frames(define_all(frames, defs.drop_last()), defs.last().0, defs.last().1)
    }
}

/// Definitions change the innermost frame only.
proof fn lemma_define_all_outer(frames: Seq<Seq<BindingV>>, defs: Seq<(Seq<char>, NodeId)>)
    requires
        frames.len() >= 1,
    ensures
        define_all(frames, defs).len() == frames.len(),
        forall|k: int| 0 <= k < frames.len() - 1 ==> #[trigger] define_all(frames, defs)[k] == frames[k],
    decreases defs.len(),
{
    if defs.len() > 0 {
        lemma_define_all_outer(frames, defs.drop_last());
    }
}

/// Dropping a frame undoes pushing it, whatever was defined in it meanwhile:
/// the frames, and so what every name resolves to, are as before.
pub proof fn lemma_pop_undoes_extend(frames: Seq<Seq<BindingV>>, defs: Seq<(Seq<char>, NodeId)>, name: Seq<char>)
    requires
        frames.len() >= 1,
    ensures
        define_all(frames.push(Seq::<BindingV>::empty()), defs).drop_last() == frames,
        resolve_from(define_all(frames.push(Seq::<BindingV>::empty()), defs).drop_last(), name, frames.len() - 1)
            == resolve_from(frames, name, frames.len() - 1),
{
    let pushed = frames.push(Seq::<BindingV>::empty());
    lemma_define_all_outer(pushed, defs);
    let after = define_all(pushed, defs);
    assert forall|k: int| 0 <= k < frames.len() implies #[trigger] after.drop_last()[k] == frames[k] by {
        assert(after[k] == pushed[k]);
    }
    assert(after.drop_last() =~= frames);
}

} // verus!
