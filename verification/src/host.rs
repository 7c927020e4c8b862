//! The host: the arena of elements, the tree index over them and the event
//! table, owned by one object and changed only through the node operations.

use crate::element::{parse_tag, kind_of_tag, Element, ElementView, Kind};
use crate::error::HostError;
use crate::events::{key_of_name, parse_key, Events, PropValue};
use crate::seq_facts::{
    lemma_index_of_unique, lemma_insert_contains, lemma_insert_no_duplicates,
    lemma_remove_contains, lemma_remove_no_duplicates,
};
use std::collections::HashMap;
use vstd::prelude::*;
use vstd::string::StringExecFns;

verus! {

/// The id of the root, which exists from the start and is never a child.
pub const ROOT: usize = 0;

/// The state of a host as specifications see it.
#[verifier::ext_equal]
pub struct HostView {
    /// The arena: every element that was created, by id.
    pub elements: Map<usize, ElementView>,
    /// The tree index: for every id the ordered ids of its children. The map
    /// is total; an id without children maps to the empty sequence.
    pub children: Map<usize, Seq<usize>>,
    /// The event table: the bindings of each element that ever had a
    /// callback property patched.
    pub events: Map<usize, Events>,
}

impl HostView {
    /// A new host: the root alone, no relation, no binding.
    pub open spec fn initial() -> HostView {
        HostView {
            elements: Map::<usize, ElementView>::empty().insert(
                ROOT,
                ElementView::fresh(Kind::Root),
            ),
            children: Map::total(|p: usize| Seq::<usize>::empty()),
            events: Map::empty(),
        }
    }

    /// Whether `c` is in some element's child list.
    pub open spec fn has_parent(self, c: usize) -> bool {
        exists|p: usize| #[trigger] self.children[p].contains(c)
    }

    /// The element in whose child list `c` is, if there is one.
    pub open spec fn parent_of(self, c: usize) -> Option<usize> {
        if self.has_parent(c) {
            Some(choose|p: usize| #[trigger] self.children[p].contains(c))
        } else {
            None
        }
    }

    /// The element that follows `c` in its parent's child list, if any.
    pub open spec fn next_sibling_of(self, c: usize) -> Option<usize> {
        match self.parent_of(c) {
            None => None,
            Some(p) => {
                let i = self.children[p].index_of(c);
                if i + 1 < self.children[p].len() {
                    Some(self.children[p][i + 1])
                } else {
                    None
                }
            },
        }
    }

    /// The bindings of `id`; none are bound until one is patched.
    pub open spec fn events_of(self, id: usize) -> Events {
        if self.events.contains_key(id) {
            self.events[id]
        } else {
            Events::spec_unbound()
        }
    }

    /// The invariant of the tree: the arena is finite and holds the root;
    /// only created elements take part in relations and bindings; no child
    /// list repeats an id; an id is in at most one child list; the root is in
    /// none.
    pub open spec fn wf(self) -> bool {
        &&& self.elements.dom().finite()
        &&& self.elements.contains_key(ROOT)
        &&& forall|p: usize| self.children.contains_key(p)
        &&& forall|p: usize|
            !self.elements.contains_key(p) ==> (#[trigger] self.children[p]).len() == 0
        &&& forall|p: usize, c: usize| #[trigger]
            self.children[p].contains(c) ==> self.elements.contains_key(c)
        &&& forall|p: usize| (#[trigger] self.children[p]).no_duplicates()
        &&& forall|p: usize, q: usize, c: usize|
            #![trigger self.children[p].contains(c), self.children[q].contains(c)]
            self.children[p].contains(c) && self.children[q].contains(c) ==> p == q
        &&& forall|p: usize| !(#[trigger] self.children[p]).contains(ROOT)
        &&& forall|id: usize| #[trigger]
            self.events.contains_key(id) ==> self.elements.contains_key(id)
    }

    /// What `createElement` makes of a host: the arena holds a fresh element
    /// of the tag's kind at `id`, in place of whatever was there; nothing else
    /// changes. An unknown tag is refused.
    pub open spec fn create_element(self, id: usize, tag: Seq<char>) -> Result<
        HostView,
        HostError,
    > {
        match kind_of_tag(tag) {
            None => Err(HostError::UnknownTag),
            Some(kind) => Ok(
                HostView { elements: self.elements.insert(id, ElementView::fresh(kind)), ..self },
            ),
        }
    }

    /// Where `insert` puts a new child of `parent`: before `anchor`, at the
    /// end without one; `None` where the anchor is not a child of `parent`.
    pub open spec fn insert_position(self, parent: usize, anchor: Option<usize>) -> Option<int> {
        match anchor {
            None => Some(self.children[parent].len() as int),
            Some(a) => if self.children[parent].contains(a) {
                Some(self.children[parent].index_of(a))
            } else {
                None
            },
        }
    }

    /// What `insert` makes of a host. Both elements must exist, the child
    /// must not be the root nor have a parent already, and an anchor must be
    /// a child of `parent`; then `child` enters `parent`'s list at the
    /// insert position and nothing else changes.
    pub open spec fn insert(self, child: usize, parent: usize, anchor: Option<usize>) -> Result<
        HostView,
        HostError,
    > {
        if !self.elements.contains_key(child) {
            Err(HostError::Lookup { id: child })
        } else if !self.elements.contains_key(parent) {
            Err(HostError::Lookup { id: parent })
        } else if child == ROOT {
            Err(HostError::UnsupportedOperation { id: child })
        } else if self.parent_of(child) is Some {
            Err(HostError::AlreadyParented { child, parent: self.parent_of(child).unwrap() })
        } else {
            match self.insert_position(parent, anchor) {
                None => Err(HostError::Lookup { id: anchor.unwrap() }),
                Some(pos) => Ok(
                    HostView {
                        children: self.children.insert(
                            parent,
                            self.children[parent].insert(pos, child),
                        ),
                        ..self
                    },
                ),
            }
        }
    }

    /// What `remove` makes of a host: an existing element that has a parent
    /// leaves that parent's list; its own children stay where they are.
    pub open spec fn remove(self, child: usize) -> Result<HostView, HostError> {
        if !self.elements.contains_key(child) {
            Err(HostError::Lookup { id: child })
        } else {
            match self.parent_of(child) {
                None => Err(HostError::Lookup { id: child }),
                Some(p) => Ok(
                    HostView {
                        children: self.children.insert(
                            p,
                            self.children[p].remove(self.children[p].index_of(child)),
                        ),
                        ..self
                    },
                ),
            }
        }
    }

    /// What `setElementText` makes of a host: the text of an existing
    /// text-bearing element is replaced; a structural element refuses.
    pub open spec fn set_element_text(self, id: usize, text: Seq<char>) -> Result<
        HostView,
        HostError,
    > {
        if !self.elements.contains_key(id) {
            Err(HostError::Lookup { id })
        } else if !self.elements[id].kind.spec_bears_text() {
            Err(HostError::UnsupportedOperation { id })
        } else {
            Ok(
                HostView {
                    elements: self.elements.insert(id, self.elements[id].with_text(text)),
                    ..self
                },
            )
        }
    }

    /// What `patchProp` makes of a host: for an event key the binding of an
    /// existing element is set or cleared; any other key is ignored.
    pub open spec fn patch_prop(self, id: usize, key: Seq<char>, next: PropValue) -> Result<
        HostView,
        HostError,
    > {
        if !self.elements.contains_key(id) {
            Err(HostError::Lookup { id })
        } else {
            match key_of_name(key) {
                None => Ok(self),
                Some(k) => Ok(
                    HostView {
                        events: self.events.insert(id, self.events_of(id).spec_patched(k, next)),
                        ..self
                    },
                ),
            }
        }
    }

    /// What `parentNode` answers.
    pub open spec fn parent_node(self, id: usize) -> Result<Option<usize>, HostError> {
        if !self.elements.contains_key(id) {
            Err(HostError::Lookup { id })
        } else {
            Ok(self.parent_of(id))
        }
    }

    /// What `nextSibling` answers.
    pub open spec fn next_sibling(self, id: usize) -> Result<Option<usize>, HostError> {
        if !self.elements.contains_key(id) {
            Err(HostError::Lookup { id })
        } else {
            Ok(self.next_sibling_of(id))
        }
    }
}

/// In a well-formed host the parent of a listed child is the element that
/// lists it.
pub proof fn lemma_parent_of(v: HostView, p: usize, c: usize)
    requires
        v.wf(),
        v.children[p].contains(c),
    ensures
        v.parent_of(c) == Some(p),
{
    assert(v.has_parent(c));
    let q = choose|q: usize| #[trigger] v.children[q].contains(c);
    assert(v.children[q].contains(c) && v.children[p].contains(c));
}

/// A successful `insert` adds `child` to the list of `parent` and changes no
/// other membership; the tree stays well formed.
pub proof fn lemma_insert_keeps_wf(v: HostView, child: usize, parent: usize, anchor: Option<usize>)
    requires
        v.wf(),
        v.insert(child, parent, anchor) is Ok,
    ensures
        v.insert(child, parent, anchor).unwrap().wf(),
        forall|p: usize, c: usize|
            #![trigger v.insert(child, parent, anchor).unwrap().children[p].contains(c)]
            v.insert(child, parent, anchor).unwrap().children[p].contains(c) <==> (
            v.children[p].contains(c) || (p == parent && c == child)),
{
    let w = v.insert(child, parent, anchor).unwrap();
    let pos = v.insert_position(parent, anchor).unwrap();
    let old_list = v.children[parent];
    assert(!v.has_parent(child));
    assert(!old_list.contains(child));
    assert(0 <= pos <= old_list.len()) by {
        if anchor is Some {
            let k = old_list.index_of(anchor.unwrap());
            assert(0 <= k < old_list.len());
        }
    }
    assert forall|p: usize, c: usize| #[trigger]
        w.children[p].contains(c) <==> (v.children[p].contains(c) || (p == parent && c
            == child)) by {
        if p == parent {
            lemma_insert_contains(old_list, pos, child, c);
        }
    }
    assert forall|p: usize| (#[trigger] w.children[p]).no_duplicates() by {
        if p == parent {
            lemma_insert_no_duplicates(old_list, pos, child);
        }
    }
    assert forall|p: usize| !w.elements.contains_key(p) implies (#[trigger] w.children[p]).len()
        == 0 by {
        assert(v.children[p].len() == 0);
    }
    assert forall|p: usize, q: usize, c: usize|
        #![trigger w.children[p].contains(c), w.children[q].contains(c)]
        w.children[p].contains(c) && w.children[q].contains(c) implies p == q by {
        if c == child {
            assert(!v.children[p].contains(c));
            assert(!v.children[q].contains(c));
        } else {
            assert(v.children[p].contains(c) && v.children[q].contains(c));
        }
    }
    assert forall|p: usize| !(#[trigger] w.children[p]).contains(ROOT) by {
        assert(!v.children[p].contains(ROOT));
    }
}

/// A successful `remove` takes `child` out of every child list and changes
/// no other membership; the tree stays well formed.
pub proof fn lemma_remove_keeps_wf(v: HostView, child: usize)
    requires
        v.wf(),
        v.remove(child) is Ok,
    ensures
        v.remove(child).unwrap().wf(),
        forall|p: usize, c: usize|
            #![trigger v.remove(child).unwrap().children[p].contains(c)]
            v.remove(child).unwrap().children[p].contains(c) <==> (v.children[p].contains(c) && c
                != child),
{
    let w = v.remove(child).unwrap();
    let parent = v.parent_of(child).unwrap();
    let old_list = v.children[parent];
    assert(v.has_parent(child));
    assert(old_list.contains(child));
    let pos = old_list.index_of(child);
    assert(0 <= pos < old_list.len() && old_list[pos] == child);
    assert forall|p: usize, c: usize| #[trigger]
        w.children[p].contains(c) <==> (v.children[p].contains(c) && c != child) by {
        if p == parent {
            lemma_remove_contains(old_list, pos, c);
        } else if v.children[p].contains(c) && c == child {
            assert(v.children[p].contains(child) && v.children[parent].contains(child));
        }
    }
    assert forall|p: usize| (#[trigger] w.children[p]).no_duplicates() by {
        if p == parent {
            lemma_remove_no_duplicates(old_list, pos);
        }
    }
    assert forall|p: usize| !w.elements.contains_key(p) implies (#[trigger] w.children[p]).len()
        == 0 by {
        assert(v.children[p].len() == 0);
    }
    assert forall|p: usize, q: usize, c: usize|
        #![trigger w.children[p].contains(c), w.children[q].contains(c)]
        w.children[p].contains(c) && w.children[q].contains(c) implies p == q by {
        assert(v.children[p].contains(c) && v.children[q].contains(c));
    }
    assert forall|p: usize| !(#[trigger] w.children[p]).contains(ROOT) by {
        assert(!v.children[p].contains(ROOT));
    }
}

/// A successful `insert` with an anchor puts the child immediately before
/// the anchor; without one it puts the child last. Either way the children
/// that were there keep their order.
pub proof fn lemma_insert_places_child(
    v: HostView,
    child: usize,
    parent: usize,
    anchor: Option<usize>,
)
    requires
        v.wf(),
        v.insert(child, parent, anchor) is Ok,
    ensures
        ({
            let before = v.children[parent];
            let after = v.insert(child, parent, anchor).unwrap().children[parent];
            let at = after.index_of(child);
            &&& after.contains(child)
            &&& after.remove(at) == before
            &&& match anchor {
                Some(a) => at + 1 < after.len() && after[at + 1] == a,
                None => at == after.len() - 1 && after == before.push(child),
            }
        }),
{
    let before = v.children[parent];
    let after = v.insert(child, parent, anchor).unwrap().children[parent];
    let pos = v.insert_position(parent, anchor).unwrap();
    if anchor is Some {
        let k = before.index_of(anchor.unwrap());
        assert(0 <= k < before.len() && before[k] == anchor.unwrap());
    }
    before.insert_ensures(pos, child);
    lemma_insert_keeps_wf(v, child, parent, anchor);
    assert(after.no_duplicates());
    assert(after[pos] == child);
    lemma_index_of_unique(after, pos);
    assert(after.remove(pos) =~= before);
    if anchor is None {
        assert(after =~= before.push(child));
    }
}

/// `setElementText` refuses the structural variants with a structural error.
pub proof fn lemma_structural_refuses_text(v: HostView, id: usize, text: Seq<char>)
    requires
        v.elements.contains_key(id),
        v.elements[id].kind == Kind::Vertical || v.elements[id].kind == Kind::Horizontal
            || v.elements[id].kind == Kind::Separator || v.elements[id].kind == Kind::Root,
    ensures
        v.set_element_text(id, text) == Err::<HostView, HostError>(
            HostError::UnsupportedOperation { id },
        ),
        (HostError::UnsupportedOperation { id }).spec_kind()
            == crate::error::ErrorKind::StructuralError,
{
}

/// One object that owns the arena, the tree index and the event table.
pub struct Host {
    elements: HashMap<usize, Element>,
    children: HashMap<usize, Vec<usize>>,
    parents: HashMap<usize, usize>,
    events: HashMap<usize, Events>,
}

impl View for Host {
    type V = HostView;

    closed spec fn view(&self) -> HostView {
        HostView {
            elements: self.elements@.map_values(|e: Element| e@),
            children: Map::total(
                |p: usize|
                    if self.children@.contains_key(p) {
                        self.children@[p]@
                    } else {
                        Seq::<usize>::empty()
                    },
            ),
            events: self.events@,
        }
    }
}

/// The first index at which `x` occurs in `list`.
fn position(list: &Vec<usize>, x: usize) -> (r: Option<usize>)
    ensures
        match r {
            Some(i) => i < list.len() && list[i as int] == x,
            None => !list@.contains(x),
        },
{
    let mut i: usize = 0;
    while i < list.len()
        invariant
            i <= list.len(),
            forall|j: int| 0 <= j < i ==> list[j] != x,
        decreases list.len() - i,
    {
        if list[i] == x {
            return Some(i);
        }
        i += 1;
    }
    None
}

impl Host {
    /// The invariant of a host: its view is a well-formed tree, and the
    /// reverse index from child to parent agrees with the child lists.
    pub closed spec fn wf(&self) -> bool {
        &&& self@.wf()
        &&& forall|c: usize| #[trigger]
            self.parents@.contains_key(c) ==> self@.children[self.parents@[c]].contains(c)
        &&& forall|p: usize, c: usize| #[trigger]
            self@.children[p].contains(c) ==> self.parents@.contains_key(c) && self.parents@[c]
                == p
    }

    /// A well-formed host has a well-formed view.
    pub proof fn lemma_view_wf(&self)
        requires
            self.wf(),
        ensures
            self@.wf(),
    {
    }

    /// A new host holding the root alone.
    pub fn new() -> (h: Host)
        ensures
            h.wf(),
            h@ == HostView::initial(),
    {
        broadcast use vstd::std_specs::hash::group_hash_axioms;

        let mut elements: HashMap<usize, Element> = HashMap::new();
        elements.insert(ROOT, Element::Root);
        let h = Host {
            elements,
            children: HashMap::new(),
            parents: HashMap::new(),
            events: HashMap::new(),
        };
        proof {
            assert(h@.elements =~= HostView::initial().elements);
            assert(h@.children =~= HostView::initial().children);
            assert(h@ =~= HostView::initial());
            assert forall|p: usize| (#[trigger] h@.children[p]).no_duplicates() by {}
        }
        h
    }

    /// Whether an element was created under `id`.
    pub fn contains(&self, id: usize) -> (b: bool)
        ensures
            b == self@.elements.contains_key(id),
    {
        broadcast use vstd::std_specs::hash::group_hash_axioms;

        self.elements.contains_key(&id)
    }

    /// `createElement`: puts a fresh element of the tag's kind under `id`
    /// and answers `id`. An id that is in use is overwritten; the relations
    /// and bindings of that id stay as they are.
    pub fn create_element(&mut self, id: usize, tag: &str) -> (r: Result<usize, HostError>)
        requires
            old(self).wf(),
        ensures
            final(self).wf(),
            match r {
                Ok(got) => got == id && old(self)@.create_element(id, tag@) == Ok::<
                    HostView,
                    HostError,
                >(final(self)@),
                Err(e) => old(self)@.create_element(id, tag@) == Err::<HostView, HostError>(e)
                    && final(self)@ == old(self)@,
            },
    {
        broadcast use vstd::std_specs::hash::group_hash_axioms;

        match parse_tag(tag) {
            None => Err(HostError::UnknownTag),
            Some(kind) => {
                self.elements.insert(id, Element::fresh(kind));
                proof {
                    let want = old(self)@.create_element(id, tag@).unwrap();
                    assert(self@.elements =~= want.elements);
                    assert(self@.children =~= want.children);
                    assert(self@ =~= want);
                }
                Ok(id)
            },
        }
    }

    /// `parentNode`: the parent of an existing element, if it has one.
    pub fn parent_node(&self, id: usize) -> (r: Result<Option<usize>, HostError>)
        requires
            self.wf(),
        ensures
            r == self@.parent_node(id),
    {
        broadcast use vstd::std_specs::hash::group_hash_axioms;

        if !self.elements.contains_key(&id) {
            return Err(HostError::Lookup { id });
        }
        match self.parents.get(&id) {
            Some(p) => {
                proof {
                    lemma_parent_of(self@, *p, id);
                }
                Ok(Some(*p))
            },
            None => {
                assert(!self@.has_parent(id));
                Ok(None)
            },
        }
    }

    /// `nextSibling`: the element after an existing one in its parent's
    /// list; none for the last child and for an element without a parent.
    pub fn next_sibling(&self, id: usize) -> (r: Result<Option<usize>, HostError>)
        requires
            self.wf(),
        ensures
            r == self@.next_sibling(id),
    {
        broadcast use vstd::std_specs::hash::group_hash_axioms;

        if !self.elements.contains_key(&id) {
            return Err(HostError::Lookup { id });
        }
        match self.parents.get(&id) {
            None => {
                assert(!self@.has_parent(id));
                Ok(None)
            },
            Some(p) => {
                proof {
                    lemma_parent_of(self@, *p, id);
                }
                let list = self.children.get(p).unwrap();
                let i = position(list, id).unwrap();
                proof {
                    lemma_index_of_unique(list@, i as int);
                }
                if i + 1 < list.len() {
                    Ok(Some(list[i + 1]))
                } else {
                    Ok(None)
                }
            },
        }
    }

    /// `insert`: puts `child` into the list of `parent`, immediately before
    /// `anchor`, or at the end when there is no anchor. Refused, with the
    /// host unchanged, when either element is unknown, when the child is the
    /// root or already has a parent, and when the anchor is not a child of
    /// `parent`.
    pub fn insert(&mut self, child: usize, parent: usize, anchor: Option<usize>) -> (r: Result<
        (),
        HostError,
    >)
        requires
            old(self).wf(),
        ensures
            final(self).wf(),
            match r {
                Ok(_) => old(self)@.insert(child, parent, anchor) == Ok::<HostView, HostError>(
                    final(self)@,
                ),
                Err(e) => old(self)@.insert(child, parent, anchor) == Err::<HostView, HostError>(e)
                    && final(self)@ == old(self)@,
            },
    {
        broadcast use vstd::std_specs::hash::group_hash_axioms;

        if !self.elements.contains_key(&child) {
            return Err(HostError::Lookup { id: child });
        }
        if !self.elements.contains_key(&parent) {
            return Err(HostError::Lookup { id: parent });
        }
        if child == ROOT {
            return Err(HostError::UnsupportedOperation { id: child });
        }
        match self.parents.get(&child) {
            Some(p) => {
                proof {
                    lemma_parent_of(self@, *p, child);
                }
                return Err(HostError::AlreadyParented { child, parent: *p });
            },
            None => {},
        }
        assert(!self@.has_parent(child));
        let pos: usize = match self.children.get(&parent) {
            None => match anchor {
                None => 0,
                Some(a) => {
                    return Err(HostError::Lookup { id: a });
                },
            },
            Some(list) => match anchor {
                None => list.len(),
                Some(a) => match position(list, a) {
                    Some(i) => {
                        proof {
                            lemma_index_of_unique(list@, i as int);
                        }
                        i
                    },
                    None => {
                        return Err(HostError::Lookup { id: a });
                    },
                },
            },
        };
        assert(old(self)@.insert_position(parent, anchor) == Some(pos as int));
        let mut list = match self.children.remove(&parent) {
            Some(l) => l,
            None => Vec::new(),
        };
        assert(list@ == old(self)@.children[parent]);
        list.insert(pos, child);
        self.children.insert(parent, list);
        self.parents.insert(child, parent);
        proof {
            let want = old(self)@.insert(child, parent, anchor).unwrap();
            lemma_insert_keeps_wf(old(self)@, child, parent, anchor);
            assert(self@.children =~= want.children);
            assert(self@ =~= want);
        }
        Ok(())
    }

    /// `remove`: takes `child` out of its parent's list. Its own children
    /// stay attached to it, and it stays in the arena. Refused, with the host
    /// unchanged, when the element is unknown or has no parent.
    pub fn remove(&mut self, child: usize) -> (r: Result<(), HostError>)
        requires
            old(self).wf(),
        ensures
            final(self).wf(),
            match r {
                Ok(_) => old(self)@.remove(child) == Ok::<HostView, HostError>(final(self)@),
                Err(e) => old(self)@.remove(child) == Err::<HostView, HostError>(e)
                    && final(self)@ == old(self)@,
            },
            forall|p: usize| !(#[trigger] final(self)@.children[p]).contains(child),
            final(self)@.parent_of(child) is None,
            final(self)@.elements.contains_key(child) ==> final(self)@.parent_node(child) == Ok::<
                Option<usize>,
                HostError,
            >(None),
    {
        broadcast use vstd::std_specs::hash::group_hash_axioms;

        if !self.elements.contains_key(&child) {
            assert(!self@.has_parent(child));
            return Err(HostError::Lookup { id: child });
        }
        let parent: usize = match self.parents.get(&child) {
            None => {
                assert(!self@.has_parent(child));
                return Err(HostError::Lookup { id: child });
            },
            Some(p) => *p,
        };
        proof {
            lemma_parent_of(self@, parent, child);
        }
        let mut list = self.children.remove(&parent).unwrap();
        let pos = position(&list, child).unwrap();
        proof {
            lemma_index_of_unique(list@, pos as int);
        }
        list.remove(pos);
        self.children.insert(parent, list);
        self.parents.remove(&child);
        proof {
            let want = old(self)@.remove(child).unwrap();
            lemma_remove_keeps_wf(old(self)@, child);
            assert(self@.children =~= want.children);
            assert(self@ =~= want);
            assert(!self@.has_parent(child));
        }
        Ok(())
    }

    /// `setElementText`: replaces the text of a text-bearing element and
    /// answers its id. Refused, with the host unchanged, for an unknown id
    /// and for a structural element.
    pub fn set_element_text(&mut self, id: usize, text: &str) -> (r: Result<usize, HostError>)
        requires
            old(self).wf(),
        ensures
            final(self).wf(),
            match r {
                Ok(got) => got == id && old(self)@.set_element_text(id, text@) == Ok::<
                    HostView,
                    HostError,
                >(final(self)@),
                Err(e) => old(self)@.set_element_text(id, text@) == Err::<HostView, HostError>(e)
                    && final(self)@ == old(self)@,
            },
    {
        broadcast use vstd::std_specs::hash::group_hash_axioms;

        let updated = match self.elements.get(&id) {
            None => {
                return Err(HostError::Lookup { id });
            },
            Some(e) => e.with_text(String::from_str(text)),
        };
        match updated {
            None => Err(HostError::UnsupportedOperation { id }),
            Some(e) => {
                self.elements.insert(id, e);
                proof {
                    let want = old(self)@.set_element_text(id, text@).unwrap();
                    assert(self@.elements =~= want.elements);
                    assert(self@.children =~= want.children);
                    assert(self@ =~= want);
                }
                Ok(id)
            },
        }
    }

    /// `patchProp`: for the keys `onClick`, `onHover` and `onInput`, binds
    /// the callback that `next` holds, or clears the binding when `next`
    /// cannot be called. Any other key is ignored: the host keeps no generic
    /// attributes. The previous value plays no part. Refused for an unknown
    /// id.
    pub fn patch_prop(&mut self, id: usize, key: &str, prev: PropValue, next: PropValue) -> (r:
        Result<(), HostError>)
        requires
            old(self).wf(),
        ensures
            final(self).wf(),
            match r {
                Ok(_) => old(self)@.patch_prop(id, key@, next) == Ok::<HostView, HostError>(
                    final(self)@,
                ),
                Err(e) => old(self)@.patch_prop(id, key@, next) == Err::<HostView, HostError>(e)
                    && final(self)@ == old(self)@,
            },
    {
        broadcast use vstd::std_specs::hash::group_hash_axioms;

        if !self.elements.contains_key(&id) {
            return Err(HostError::Lookup { id });
        }
        match parse_key(key) {
            None => Ok(()),
            Some(k) => {
                let now = self.bindings(id);
                self.events.insert(id, now.patched(k, next));
                proof {
                    let want = old(self)@.patch_prop(id, key@, next).unwrap();
                    assert(self@.children =~= want.children);
                    assert(self@ =~= want);
                }
                Ok(())
            },
        }
    }

    /// `querySelector`: the host has no selector queries; this always fails.
    pub fn query_selector(&self, selector: &str) -> (r: Result<usize, HostError>)
        ensures
            r == Err::<usize, HostError>(HostError::NotImplemented),
    {
        Err(HostError::NotImplemented)
    }

    /// The callbacks bound to `id`; none for an id that was never patched.
    pub fn bindings(&self, id: usize) -> (e: Events)
        ensures
            e == self@.events_of(id),
    {
        broadcast use vstd::std_specs::hash::group_hash_axioms;

        match self.events.get(&id) {
            Some(e) => *e,
            None => Events::unbound(),
        }
    }

    /// The kind of the element under `id`, if one was created.
    pub fn kind_of(&self, id: usize) -> (k: Option<Kind>)
        ensures
            match k {
                Some(kind) => self@.elements.contains_key(id) && self@.elements[id].kind == kind,
                None => !self@.elements.contains_key(id),
            },
    {
        broadcast use vstd::std_specs::hash::group_hash_axioms;

        match self.elements.get(&id) {
            Some(e) => Some(e.kind()),
            None => None,
        }
    }

    /// A copy of the text of the element under `id`, if one was created; the
    /// empty string for a structural element.
    pub fn text_of(&self, id: usize) -> (t: Option<String>)
        ensures
            match t {
                Some(text) => self@.elements.contains_key(id) && self@.elements[id].text == text@,
                None => !self@.elements.contains_key(id),
            },
    {
        broadcast use vstd::std_specs::hash::group_hash_axioms;

        match self.elements.get(&id) {
            Some(e) => Some(e.text()),
            None => None,
        }
    }

    /// A copy of the child list of `id`, in order; empty where there is none.
    pub fn children_of(&self, id: usize) -> (list: Vec<usize>)
        ensures
            list@ == self@.children[id],
    {
        broadcast use vstd::std_specs::hash::group_hash_axioms;

        let mut out: Vec<usize> = Vec::new();
        match self.children.get(&id) {
            None => {},
            Some(list) => {
                let mut i: usize = 0;
                while i < list.len()
                    invariant
                        i <= list.len(),
                        out@ == list@.subrange(0, i as int),
                    decreases list.len() - i,
                {
                    out.push(list[i]);
                    i += 1;
                }
                assert(list@.subrange(0, list.len() as int) == list@);
            },
        }
        out
    }

    /// The number of elements in the arena.
    pub fn count(&self) -> (n: usize)
        ensures
            n == self@.elements.dom().len(),
    {
        broadcast use vstd::std_specs::hash::group_hash_axioms;

        assert(self@.elements.dom() =~= self.elements@.dom());
        self.elements.len()
    }

    /// The element under `id`, if one was created.
    pub fn element(&self, id: usize) -> (e: Option<&Element>)
        ensures
            match e {
                Some(found) => self@.elements.contains_key(id) && self@.elements[id] == found@,
                None => !self@.elements.contains_key(id),
            },
    {
        broadcast use vstd::std_specs::hash::group_hash_axioms;

        self.elements.get(&id)
    }

    /// The child list of `id`, in order, where the index holds one.
    pub(crate) fn child_list(&self, id: usize) -> (list: Option<&Vec<usize>>)
        ensures
            match list {
                Some(found) => found@ == self@.children[id],
                None => self@.children[id].len() == 0,
            },
    {
        broadcast use vstd::std_specs::hash::group_hash_axioms;

        self.children.get(&id)
    }
}

} // verus!
