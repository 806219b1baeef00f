use vstd::prelude::*;
use crate::object_ref::{get_object_reference, ObjectRef, ObjectRefAllocator};

verus! {

/// The scope that a root node of the cache stands for.
#[derive(Debug, Clone, Copy, PartialEq, Eq, Structural)]
pub enum ScopeKind {
    /// The frame's local variables.
    Locals,
    /// The static variables.
    Statics,
    /// The frame's registers.
    Registers,
}

/// A variable as the cache holds it.
#[derive(Debug)]
pub struct Variable {
    /// The variable's handle.
    pub id: ObjectRef,
    /// The handle of the parent: a frame for a scope root, else a variable.
    pub parent: ObjectRef,
    /// The variable's name.
    pub name: String,
    /// The variable's value, formatted for display.
    pub value: String,
}

struct CacheNode {
    variable: Variable,
    scope: Option<ScopeKind>,
}

/// The variables of one halted session, addressed by handle: a forest whose
/// roots are the scopes of frames, whose children are filled in on first
/// request and kept until the session is discarded.
pub struct VariableCache {
    nodes: Vec<CacheNode>,
    expanded: Vec<bool>,
}

/// The handles of the non-root nodes whose parent is `p`, in insertion
/// order.
spec fn child_ids_in(nodes: Seq<CacheNode>, p: ObjectRef) -> Seq<ObjectRef>
    decreases nodes.len(),
{
    if nodes.len() == 0 {
        seq![]
    } else {
        let rest = child_ids_in(nodes.drop_last(), p);
        let n = nodes.last();
        if n.scope is None && n.variable.parent == p {
            rest.push(n.variable.id)
        } else {
            rest
        }
    }
}

proof fn lemma_child_ids_none(nodes: Seq<CacheNode>, p: ObjectRef)
    requires
        forall|i: int| 0 <= i < nodes.len() ==> !(nodes[i].scope is None && nodes[i].variable.parent == p),
    ensures
        child_ids_in(nodes, p) == Seq::<ObjectRef>::empty(),
    decreases nodes.len(),
{
    if nodes.len() > 0 {
        assert(nodes[nodes.len() - 1] == nodes.last());
        lemma_child_ids_none(nodes.drop_last(), p);
    }
}

impl VariableCache {
    /// Whether a node with handle `id` is in the cache.
    pub closed spec fn contains(&self, id: ObjectRef) -> bool {
        exists|i: int| 0 <= i < self.nodes@.len() && (#[trigger] self.nodes@[i]).variable.id == id
    }

    /// Whether the node `id` has had its children filled in.
    pub closed spec fn is_expanded(&self, id: ObjectRef) -> bool {
        exists|i: int| 0 <= i < self.nodes@.len() && (#[trigger] self.nodes@[i]).variable.id == id && self.expanded@[i]
    }

    /// The handles of the children of `id`, in the order they were added.
    pub closed spec fn children(&self, id: ObjectRef) -> Seq<ObjectRef> {
        child_ids_in(self.nodes@, id)
    }

    /// Whether `id` is the root node of scope `kind` under frame `frame`.
    pub closed spec fn is_root(&self, id: ObjectRef, frame: ObjectRef, kind: ScopeKind) -> bool {
        exists|i: int|
            0 <= i < self.nodes@.len() && (#[trigger] self.nodes@[i]).variable.id == id
                && self.nodes@[i].variable.parent == frame && self.nodes@[i].scope == Some(kind)
    }

    /// Whether a root of scope `kind` under frame `frame` exists.
    pub closed spec fn has_root(&self, frame: ObjectRef, kind: ScopeKind) -> bool {
        exists|i: int|
            0 <= i < self.nodes@.len() && (#[trigger] self.nodes@[i]).variable.parent == frame
                && self.nodes@[i].scope == Some(kind)
    }

    /// The variable stored under handle `id`, where the cache holds one.
    pub closed spec fn variable(&self, id: ObjectRef) -> Variable {
        self.nodes@[choose|i: int| 0 <= i < self.nodes@.len() && (#[trigger] self.nodes@[i]).variable.id == id].variable
    }

    /// Every handle in the cache is below `bound`.
    pub closed spec fn ids_below(&self, bound: int) -> bool {
        forall|i: int| 0 <= i < self.nodes@.len() ==> (#[trigger] self.nodes@[i]).variable.id.to_int() < bound
    }

    /// Handles are valid and unique, and each non-root node hangs under a
    /// node of the cache whose children have been filled in.
    pub closed spec fn wf(&self) -> bool {
        &&& self.nodes@.len() == self.expanded@.len()
        &&& forall|i: int| 0 <= i < self.nodes@.len() ==> (#[trigger] self.nodes@[i]).variable.id is Valid
        &&& forall|i: int| 0 <= i < self.nodes@.len() ==> (#[trigger] self.nodes@[i]).variable.id.wf()
        &&& forall|i: int, j: int|
            0 <= i < self.nodes@.len() && 0 <= j < self.nodes@.len() && i != j ==> (#[trigger] self.nodes@[i]).variable.id != (#[trigger] self.nodes@[j]).variable.id
        &&& forall|i: int|
            0 <= i < self.nodes@.len() && (#[trigger] self.nodes@[i]).scope is None ==> self.is_expanded(self.nodes@[i].variable.parent)
    }

    proof fn lemma_variable_at(&self, i: int)
        requires
            self.wf(),
            0 <= i < self.nodes@.len(),
        ensures
            self.variable(self.nodes@[i].variable.id) == self.nodes@[i].variable,
    {
        let id = self.nodes@[i].variable.id;
        let j = choose|j: int| 0 <= j < self.nodes@.len() && (#[trigger] self.nodes@[j]).variable.id == id;
        assert(self.nodes@[j].variable.id == id);
        assert(j == i);
    }

    /// A bound on the handles holds for every greater bound too.
    pub proof fn lemma_ids_below_mono(&self, a: int, b: int)
        requires
            self.ids_below(a),
            a <= b,
        ensures
            self.ids_below(b),
    {
    }

    /// An empty cache.
    pub fn new() -> (r: VariableCache)
        ensures
            r.wf(),
            forall|b: int| r.ids_below(b),
            forall|id: ObjectRef| !r.contains(id),
    {
        VariableCache { nodes: Vec::new(), expanded: Vec::new() }
    }

    /// Discards every node: called when the target resumes, since no value
    /// survives a resume.
    pub fn clear(&mut self)
        ensures
            final(self).wf(),
            forall|b: int| final(self).ids_below(b),
            forall|id: ObjectRef| !final(self).contains(id),
    {
        self.nodes = Vec::new();
        self.expanded = Vec::new();
    }

    fn find(&self, id: ObjectRef) -> (r: Option<usize>)
        requires
            self.wf(),
        ensures
            r is Some <==> self.contains(id),
            r is Some ==> r->Some_0 < self.nodes@.len() && self.nodes@[r->Some_0 as int].variable.id == id,
    {
        let mut i: usize = 0;
        while i < self.nodes.len()
            invariant
                i <= self.nodes@.len(),
                forall|j: int| 0 <= j < i ==> (#[trigger] self.nodes@[j]).variable.id != id,
            decreases self.nodes@.len() - i,
        {
            if self.nodes[i].variable.id == id {
                return Some(i);
            }
            i = i + 1;
        }
        None
    }

    /// The variable with handle `id`, if the cache holds it.
    pub fn get(&self, id: ObjectRef) -> (r: Option<&Variable>)
        requires
            self.wf(),
        ensures
            r is Some <==> self.contains(id),
            r is Some ==> r->Some_0.id == id,
            r is Some ==> *r->Some_0 == self.variable(id),
    {
        match self.find(id) {
            Some(i) => {
                proof {
                    self.lemma_variable_at(i as int);
                }
                Some(&self.nodes[i].variable)
            },
            None => None,
        }
    }

    fn collect_children(&self, p: ObjectRef) -> (r: Vec<ObjectRef>)
        ensures
            r@ == self.children(p),
    {
        let mut out: Vec<ObjectRef> = Vec::new();
        let mut i: usize = 0;
        while i < self.nodes.len()
            invariant
                i <= self.nodes@.len(),
                out@ == child_ids_in(self.nodes@.take(i as int), p),
            decreases self.nodes@.len() - i,
        {
            proof {
                assert(self.nodes@.take(i + 1).drop_last() =~= self.nodes@.take(i as int));
                assert(self.nodes@.take(i + 1).last() == self.nodes@[i as int]);
            }
            let n = &self.nodes[i];
            if n.scope.is_none() && n.variable.parent == p {
                out.push(n.variable.id);
            }
            i = i + 1;
        }
        proof {
            assert(self.nodes@.take(self.nodes@.len() as int) =~= self.nodes@);
        }
        out
    }

    /// The root node of scope `kind` under frame `frame`, created where it
    /// is missing.
    pub fn root_for_scope(
        &mut self,
        frame: ObjectRef,
        kind: ScopeKind,
        allocator: &mut ObjectRefAllocator,
    ) -> (r: ObjectRef)
        requires
            old(self).wf(),
            old(allocator).can_allocate(),
            old(self).ids_below(old(allocator).next_key()),
        ensures
            final(self).wf(),
            final(allocator).wf(),
            final(self).ids_below(final(allocator).next_key()),
            final(allocator).next_key() >= old(allocator).next_key(),
            final(self).is_root(r, frame, kind),
            final(self).contains(r),
            forall|id: ObjectRef| old(self).contains(id) ==> #[trigger] final(self).contains(id),
            forall|id: ObjectRef| #[trigger] final(self).contains(id) ==> old(self).contains(id) || id.to_int() >= old(allocator).next_key(),
            forall|id: ObjectRef| #[trigger] old(self).is_expanded(id) ==> final(self).is_expanded(id),
            forall|id: ObjectRef| #[trigger] old(self).is_expanded(id) ==> final(self).children(id) == old(self).children(id),
            old(self).is_root(r, frame, kind) ==> *final(self) == *old(self) && *final(allocator) == *old(allocator),
            old(self).has_root(frame, kind) ==> *final(self) == *old(self) && *final(allocator) == *old(allocator),
            !old(self).has_root(frame, kind) ==> final(allocator).next_key() == old(allocator).next_key() + 1
                && r == ObjectRef::Valid(old(allocator).next_key() as u32),
    {
        let mut i: usize = 0;
        while i < self.nodes.len()
            invariant
                i <= self.nodes@.len(),
                forall|j: int| 0 <= j < i ==> !((#[trigger] self.nodes@[j]).variable.parent == frame && self.nodes@[j].scope == Some(kind)),
                *self == *old(self),
                *allocator == *old(allocator),
                self.wf(),
                allocator.wf(),
                self.ids_below(allocator.next_key()),
            decreases self.nodes@.len() - i,
        {
            let n = &self.nodes[i];
            if n.variable.parent == frame && n.scope == Some(kind) {
                return n.variable.id;
            }
            i = i + 1;
        }
        let ghost old_nodes = self.nodes@;
        let ghost old_cache = *self;
        let id = get_object_reference(allocator);
        let name = match kind {
            ScopeKind::Locals => "Locals".to_owned(),
            ScopeKind::Statics => "Statics".to_owned(),
            ScopeKind::Registers => "Registers".to_owned(),
        };
        let node = CacheNode {
            variable: Variable { id, parent: frame, name, value: String::new() },
            scope: Some(kind),
        };
        self.nodes.push(node);
        self.expanded.push(false);
        proof {
            let n = self.nodes@.len() - 1;
            assert(self.nodes@[n].variable.id == id);
            assert(self.nodes@.drop_last() =~= old_nodes);
            assert(self.children(id) == child_ids_in(self.nodes@, id));
            assert forall|x: ObjectRef| #[trigger] old_cache.is_expanded(x) implies self.is_expanded(x) && self.children(x) == old_cache.children(x) by {
                let k = choose|k: int| 0 <= k < old_nodes.len() && (#[trigger] old_nodes[k]).variable.id == x && old_cache.expanded@[k];
                assert(self.nodes@[k] == old_nodes[k]);
            }
            assert forall|x: ObjectRef| old_cache.contains(x) implies #[trigger] self.contains(x) by {
                let k = choose|k: int| 0 <= k < old_nodes.len() && (#[trigger] old_nodes[k]).variable.id == x;
                assert(self.nodes@[k] == old_nodes[k]);
            }
            assert forall|x: ObjectRef| #[trigger] self.contains(x) implies old_cache.contains(x) || x.to_int() >= old(allocator).next_key() by {
                let k = choose|k: int| 0 <= k < self.nodes@.len() && (#[trigger] self.nodes@[k]).variable.id == x;
                if k < n {
                    assert(old_nodes[k] == self.nodes@[k]);
                }
            }
            assert forall|a: int| 0 <= a < self.nodes@.len() && (#[trigger] self.nodes@[a]).scope is None implies self.is_expanded(self.nodes@[a].variable.parent) by {
                assert(old_nodes[a] == self.nodes@[a]);
                let p = old_nodes[a].variable.parent;
                assert(old_cache.is_expanded(p));
            }
            assert(self.is_root(id, frame, kind));
        }
        id
    }

    /// The children of `parent`: on the first request, `expansion` (the
    /// children's names and formatted values) is stored under fresh handles;
    /// on every later request within the session the stored handles come
    /// back and `expansion` is not looked at. `None` where the cache holds no
    /// node `parent`.
    pub fn children_of(
        &mut self,
        parent: ObjectRef,
        expansion: &Vec<(String, String)>,
        allocator: &mut ObjectRefAllocator,
    ) -> (r: Option<Vec<ObjectRef>>)
        requires
            old(self).wf(),
            old(allocator).wf(),
            old(self).ids_below(old(allocator).next_key()),
            old(allocator).next_key() + expansion@.len() <= u32::MAX + 1,
        ensures
            final(self).wf(),
            final(allocator).wf(),
            final(self).ids_below(final(allocator).next_key()),
            final(allocator).next_key() >= old(allocator).next_key(),
            r is Some <==> old(self).contains(parent),
            r is Some ==> r->Some_0@ == final(self).children(parent),
            r is Some ==> final(self).is_expanded(parent),
            !old(self).contains(parent) || old(self).is_expanded(parent) ==> *final(self) == *old(self)
                && *final(allocator) == *old(allocator),
            old(self).contains(parent) && !old(self).is_expanded(parent) ==> {
                &&& r->Some_0@.len() == expansion@.len()
                &&& forall|i: int| 0 <= i < expansion@.len() ==> r->Some_0@[i] == ObjectRef::Valid((old(allocator).next_key() + i) as u32)
                &&& final(allocator).next_key() == old(allocator).next_key() + expansion@.len()
                &&& forall|i: int| 0 <= i < expansion@.len() ==> {
                    let v = #[trigger] final(self).variable(r->Some_0@[i]);
                    &&& v.id == r->Some_0@[i]
                    &&& v.parent == parent
                    &&& v.name == expansion@[i].0
                    &&& v.value == expansion@[i].1
                }
            },
            children_outcome(
                *old(self),
                *old(allocator),
                parent,
                *final(self),
                *final(allocator),
                match r {
                    Some(v) => Some(v@),
                    None => None::<Seq<ObjectRef>>,
                },
            ),
            forall|id: ObjectRef| old(self).contains(id) ==> #[trigger] final(self).contains(id),
            forall|id: ObjectRef| #[trigger] final(self).contains(id) ==> old(self).contains(id) || id.to_int() >= old(allocator).next_key(),
            forall|id: ObjectRef| #[trigger] old(self).is_expanded(id) ==> final(self).is_expanded(id),
            forall|id: ObjectRef| #[trigger] old(self).is_expanded(id) ==> final(self).children(id) == old(self).children(id),
    {
        let k = match self.find(parent) {
            Some(k) => k,
            None => return None,
        };
        if self.expanded[k] {
            proof {
                assert(self.is_expanded(parent));
            }
            return Some(self.collect_children(parent));
        }
        let ghost old_nodes = self.nodes@;
        let ghost old_cache = *self;
        let ghost base = old(allocator).next_key();
        proof {
            assert forall|a: int| 0 <= a < old_nodes.len() implies !((#[trigger] old_nodes[a]).scope is None && old_nodes[a].variable.parent == parent) by {
                if old_nodes[a].scope is None && old_nodes[a].variable.parent == parent {
                    let q = choose|q: int| 0 <= q < old_nodes.len() && (#[trigger] old_nodes[q]).variable.id == parent && old_cache.expanded@[q];
                    assert(q == k as int);
                }
            }
            lemma_child_ids_none(old_nodes, parent);
        }
        self.expanded.set(k, true);
        let mut out: Vec<ObjectRef> = Vec::new();
        let ghost total = expansion@.len();
        let mut i: usize = 0;
        while i < expansion.len()
            invariant
                self.nodes@.len() == self.expanded@.len(),
                old_nodes.len() <= self.nodes@.len(),
                self.nodes@.len() == old_nodes.len() + out@.len(),
                out@.len() == i,
                i <= total,
                total == expansion@.len(),
                forall|a: int| 0 <= a < old_nodes.len() ==> self.nodes@[a] == old_nodes[a],
                forall|a: int| 0 <= a < old_nodes.len() && a != k ==> self.expanded@[a] == old_cache.expanded@[a],
                self.expanded@[k as int],
                k < old_nodes.len(),
                old_nodes[k as int].variable.id == parent,
                forall|a: int| old_nodes.len() <= a < self.nodes@.len() ==> !self.expanded@[a],
                forall|a: int| old_nodes.len() <= a < self.nodes@.len() ==> (#[trigger] self.nodes@[a]).scope is None && self.nodes@[a].variable.parent == parent && self.nodes@[a].variable.id == out@[a - old_nodes.len()],
                forall|a: int| old_nodes.len() <= a < self.nodes@.len() ==> (#[trigger] self.nodes@[a]).variable.name == expansion@[a - old_nodes.len()].0 && self.nodes@[a].variable.value == expansion@[a - old_nodes.len()].1,
                forall|j: int| 0 <= j < out@.len() ==> #[trigger] out@[j] == ObjectRef::Valid((base + j) as u32),
                child_ids_in(self.nodes@, parent) == out@,
                allocator.wf(),
                allocator.next_key() == base + out@.len(),
                base + total <= u32::MAX + 1,
                base == old(allocator).next_key(),
                old_cache.wf(),
                old_cache.ids_below(base),
                old_cache.nodes@ == old_nodes,
            decreases total - i,
        {
            let name = expansion[i].0.clone();
            let value = expansion[i].1.clone();
            let id = get_object_reference(allocator);
            let ghost before = self.nodes@;
            self.nodes.push(CacheNode { variable: Variable { id, parent, name, value }, scope: None });
            self.expanded.push(false);
            out.push(id);
            proof {
                assert(self.nodes@.drop_last() =~= before);
            }
            i = i + 1;
        }
        proof {
            let nodes = self.nodes@;
            let on = old_nodes.len();
            assert(self.is_expanded(parent)) by {
                assert(nodes[k as int].variable.id == parent);
            }
            assert forall|a: int, b: int| 0 <= a < nodes.len() && 0 <= b < nodes.len() && a != b implies (#[trigger] nodes[a]).variable.id != (#[trigger] nodes[b]).variable.id by {
                if a < on && b < on {
                    assert(old_nodes[a] == nodes[a] && old_nodes[b] == nodes[b]);
                } else if a < on {
                    assert(old_nodes[a] == nodes[a]);
                    assert(nodes[b].variable.id == out@[b - on]);
                } else if b < on {
                    assert(old_nodes[b] == nodes[b]);
                    assert(nodes[a].variable.id == out@[a - on]);
                } else {
                    assert(nodes[a].variable.id == out@[a - on]);
                    assert(nodes[b].variable.id == out@[b - on]);
                }
            }
            assert forall|a: int| 0 <= a < nodes.len() implies (#[trigger] nodes[a]).variable.id is Valid && nodes[a].variable.id.wf() && nodes[a].variable.id.to_int() < allocator.next_key() by {
                if a < on {
                    assert(old_nodes[a] == nodes[a]);
                } else {
                    assert(nodes[a].variable.id == out@[a - on]);
                }
            }
            assert forall|x: ObjectRef| #[trigger] old_cache.is_expanded(x) implies self.is_expanded(x) && self.children(x) == old_cache.children(x) by {
                let q = choose|q: int| 0 <= q < on && (#[trigger] old_nodes[q]).variable.id == x && old_cache.expanded@[q];
                assert(nodes[q] == old_nodes[q]);
                assert(x != parent);
                lemma_child_ids_extend(old_nodes, nodes, x);
            }
            assert forall|a: int| 0 <= a < nodes.len() && (#[trigger] nodes[a]).scope is None implies self.is_expanded(nodes[a].variable.parent) by {
                if a < on {
                    assert(old_nodes[a] == nodes[a]);
                    let p = old_nodes[a].variable.parent;
                    assert(old_cache.is_expanded(p));
                    let q = choose|q: int| 0 <= q < on && (#[trigger] old_nodes[q]).variable.id == p && old_cache.expanded@[q];
                    assert(nodes[q] == old_nodes[q]);
                } else {
                    assert(nodes[k as int].variable.id == parent);
                }
            }
            assert forall|x: ObjectRef| old_cache.contains(x) implies #[trigger] self.contains(x) by {
                let q = choose|q: int| 0 <= q < on && (#[trigger] old_nodes[q]).variable.id == x;
                assert(nodes[q] == old_nodes[q]);
            }
            assert(self.wf());
            assert forall|j: int| 0 <= j < expansion@.len() implies {
                let v = #[trigger] self.variable(out@[j]);
                &&& v.id == out@[j]
                &&& v.parent == parent
                &&& v.name == expansion@[j].0
                &&& v.value == expansion@[j].1
            } by {
                assert(nodes[on + j].variable.id == out@[j]);
                self.lemma_variable_at(on + j);
            }
            assert forall|x: ObjectRef| #[trigger] self.contains(x) implies old_cache.contains(x) || x.to_int() >= base by {
                let q = choose|q: int| 0 <= q < nodes.len() && (#[trigger] nodes[q]).variable.id == x;
                if q < on {
                    assert(old_nodes[q] == nodes[q]);
                } else {
                    assert(nodes[q].variable.id == out@[q - on]);
                }
            }
        }
        Some(out)
    }
}

/// Appending nodes that are not children of `x` leaves the children of `x`
/// as they were.
proof fn lemma_child_ids_extend(old_nodes: Seq<CacheNode>, nodes: Seq<CacheNode>, x: ObjectRef)
    requires
        old_nodes.len() <= nodes.len(),
        forall|a: int| 0 <= a < old_nodes.len() ==> nodes[a] == old_nodes[a],
        forall|a: int| old_nodes.len() <= a < nodes.len() ==> (#[trigger] nodes[a]).variable.parent != x,
    ensures
        child_ids_in(nodes, x) == child_ids_in(old_nodes, x),
    decreases nodes.len(),
{
    if nodes.len() > old_nodes.len() {
        assert(nodes.last() == nodes[nodes.len() - 1]);
        lemma_child_ids_extend(old_nodes, nodes.drop_last(), x);
    } else {
        assert(nodes =~= old_nodes);
    }
}

/// What a request for the children of `parent` guarantees, from the cache
/// and allocator before it to those after it, with `r` its result.
pub open spec fn children_outcome(
    before: VariableCache,
    alloc_before: ObjectRefAllocator,
    parent: ObjectRef,
    after: VariableCache,
    alloc_after: ObjectRefAllocator,
    r: Option<Seq<ObjectRef>>,
) -> bool {
    &&& (r is Some <==> before.contains(parent))
    &&& (r is Some ==> r->Some_0 == after.children(parent) && after.is_expanded(parent))
    &&& (!before.contains(parent) || before.is_expanded(parent) ==> after == before && alloc_after
        == alloc_before)
}

/// Asking twice for the children of a node, with no resume in between,
/// gives the same handles, draws no new handle the second time and leaves
/// the cache unchanged.
pub proof fn lemma_children_of_idempotent(
    before: VariableCache,
    a0: ObjectRefAllocator,
    between: VariableCache,
    a1: ObjectRefAllocator,
    after: VariableCache,
    a2: ObjectRefAllocator,
    parent: ObjectRef,
    r1: Option<Seq<ObjectRef>>,
    r2: Option<Seq<ObjectRef>>,
)
    requires
        children_outcome(before, a0, parent, between, a1, r1),
        children_outcome(between, a1, parent, after, a2, r2),
    ensures
        r1 == r2,
        after == between,
        a2 == a1,
{
    if r1 is Some {
        assert(between.contains(parent));
    } else {
        assert(between == before);
    }
}

/// After a resume has cleared the cache, no handle of the earlier session
/// resolves again, whatever is added later: later nodes take handles at or
/// above the allocator's position at the time of the resume, and every
/// earlier handle lay below it.
pub proof fn lemma_no_handle_survives_resume(
    before: VariableCache,
    after: VariableCache,
    bound: int,
    id: ObjectRef,
)
    requires
        before.wf(),
        before.ids_below(bound),
        before.contains(id),
        forall|x: ObjectRef| #[trigger] after.contains(x) ==> x.to_int() >= bound,
    ensures
        !after.contains(id),
{
}

} // verus!
