//! The node-ops bridge: the one surface through which the driving framework
//! reads and changes the host. Each request is a value, each answer a typed
//! result; no request can leave the tree in a state that breaks its
//! invariant.

use crate::error::HostError;
use crate::events::PropValue;
use crate::host::{lemma_insert_keeps_wf, lemma_remove_keeps_wf, Host, HostView};
use vstd::prelude::*;

verus! {

/// A request of the driving framework.
#[derive(Clone, Debug, PartialEq, Eq)]
pub enum NodeOp {
    CreateElement { id: usize, tag: String },
    Insert { child: usize, parent: usize, anchor: Option<usize> },
    Remove { child: usize },
    SetElementText { id: usize, text: String },
    PatchProp { id: usize, key: String, prev: PropValue, next: PropValue },
    ParentNode { id: usize },
    NextSibling { id: usize },
    QuerySelector { selector: String },
}

/// A request as specifications see it.
pub enum NodeOpView {
    CreateElement { id: usize, tag: Seq<char> },
    Insert { child: usize, parent: usize, anchor: Option<usize> },
    Remove { child: usize },
    SetElementText { id: usize, text: Seq<char> },
    PatchProp { id: usize, key: Seq<char>, prev: PropValue, next: PropValue },
    ParentNode { id: usize },
    NextSibling { id: usize },
    QuerySelector { selector: Seq<char> },
}

impl View for NodeOp {
    type V = NodeOpView;

    open spec fn view(&self) -> NodeOpView {
        match self {
            NodeOp::CreateElement { id, tag } => NodeOpView::CreateElement { id: *id, tag: tag@ },
            NodeOp::Insert { child, parent, anchor } => NodeOpView::Insert {
                child: *child,
                parent: *parent,
                anchor: *anchor,
            },
            NodeOp::Remove { child } => NodeOpView::Remove { child: *child },
            NodeOp::SetElementText { id, text } => NodeOpView::SetElementText {
                id: *id,
                text: text@,
            },
            NodeOp::PatchProp { id, key, prev, next } => NodeOpView::PatchProp {
                id: *id,
                key: key@,
                prev: *prev,
                next: *next,
            },
            NodeOp::ParentNode { id } => NodeOpView::ParentNode { id: *id },
            NodeOp::NextSibling { id } => NodeOpView::NextSibling { id: *id },
            NodeOp::QuerySelector { selector } => NodeOpView::QuerySelector { selector: selector@ },
        }
    }
}

/// What a request answers when it succeeds.
#[derive(Clone, Copy, Debug, PartialEq, Eq)]
pub enum Reply {
    /// The id of the element that was created or changed.
    Id(usize),
    /// Nothing to report.
    Done,
    /// The related element, or none.
    Node(Option<usize>),
}

/// The host after a request: changed as the operation says where it
/// succeeds, as it was where it fails.
pub open spec fn step(v: HostView, op: NodeOpView) -> HostView {
    let outcome = match op {
        NodeOpView::CreateElement { id, tag } => v.create_element(id, tag),
        NodeOpView::Insert { child, parent, anchor } => v.insert(child, parent, anchor),
        NodeOpView::Remove { child } => v.remove(child),
        NodeOpView::SetElementText { id, text } => v.set_element_text(id, text),
        NodeOpView::PatchProp { id, key, prev, next } => v.patch_prop(id, key, next),
        _ => Ok(v),
    };
    match outcome {
        Ok(w) => w,
        Err(_) => v,
    }
}

/// What a request answers.
pub open spec fn answer(v: HostView, op: NodeOpView) -> Result<Reply, HostError> {
    match op {
        NodeOpView::CreateElement { id, tag } => match v.create_element(id, tag) {
            Ok(_) => Ok(Reply::Id(id)),
            Err(e) => Err(e),
        },
        NodeOpView::Insert { child, parent, anchor } => match v.insert(child, parent, anchor) {
            Ok(_) => Ok(Reply::Done),
            Err(e) => Err(e),
        },
        NodeOpView::Remove { child } => match v.remove(child) {
            Ok(_) => Ok(Reply::Done),
            Err(e) => Err(e),
        },
        NodeOpView::SetElementText { id, text } => match v.set_element_text(id, text) {
            Ok(_) => Ok(Reply::Id(id)),
            Err(e) => Err(e),
        },
        NodeOpView::PatchProp { id, key, prev, next } => match v.patch_prop(id, key, next) {
            Ok(_) => Ok(Reply::Done),
            Err(e) => Err(e),
        },
        NodeOpView::ParentNode { id } => match v.parent_node(id) {
            Ok(p) => Ok(Reply::Node(p)),
            Err(e) => Err(e),
        },
        NodeOpView::NextSibling { id } => match v.next_sibling(id) {
            Ok(p) => Ok(Reply::Node(p)),
            Err(e) => Err(e),
        },
        NodeOpView::QuerySelector { selector } => Err(HostError::NotImplemented),
    }
}

/// The host after the first `k` of the requests `ops`, made in order.
pub open spec fn run(v: HostView, ops: Seq<NodeOpView>, k: nat) -> HostView
    decreases k,
{
    if k == 0 || k > ops.len() {
        v
    } else {
        step(run(v, ops, (k - 1) as nat), ops[k - 1])
    }
}

/// No request breaks the invariant of the tree.
pub proof fn lemma_step_keeps_wf(v: HostView, op: NodeOpView)
    requires
        v.wf(),
    ensures
        step(v, op).wf(),
{
    match op {
        NodeOpView::CreateElement { id, tag } => {
            if v.create_element(id, tag) is Ok {
                let w = v.create_element(id, tag).unwrap();
                assert forall|p: usize| !w.elements.contains_key(p) implies (
                #[trigger] w.children[p]).len() == 0 by {
                    assert(!v.elements.contains_key(p));
                }
            }
        },
        NodeOpView::Insert { child, parent, anchor } => {
            if v.insert(child, parent, anchor) is Ok {
                lemma_insert_keeps_wf(v, child, parent, anchor);
            }
        },
        NodeOpView::Remove { child } => {
            if v.remove(child) is Ok {
                lemma_remove_keeps_wf(v, child);
            }
        },
        NodeOpView::SetElementText { id, text } => {
            if v.set_element_text(id, text) is Ok {
                let w = v.set_element_text(id, text).unwrap();
                assert(w.elements.dom() =~= v.elements.dom());
            }
        },
        NodeOpView::PatchProp { id, key, prev, next } => {},
        _ => {},
    }
}

/// Whatever requests are made of a new host, in whatever order, the tree
/// keeps its invariant.
pub proof fn lemma_run_keeps_wf(ops: Seq<NodeOpView>, k: nat)
    ensures
        run(HostView::initial(), ops, k).wf(),
    decreases k,
{
    let v = HostView::initial();
    if k == 0 || k > ops.len() {
        assert forall|p: usize| (#[trigger] v.children[p]).no_duplicates() by {}
    } else {
        lemma_run_keeps_wf(ops, (k - 1) as nat);
        lemma_step_keeps_wf(run(v, ops, (k - 1) as nat), ops[k - 1]);
    }
}

/// Whatever requests are made of a new host, in whatever order, no element
/// is ever in the child lists of two parents, nor twice in one.
pub proof fn lemma_at_most_one_parent(ops: Seq<NodeOpView>, k: nat, p: usize, q: usize, c: usize)
    requires
        run(HostView::initial(), ops, k).children[p].contains(c),
        run(HostView::initial(), ops, k).children[q].contains(c),
    ensures
        p == q,
        run(HostView::initial(), ops, k).children[p].no_duplicates(),
        run(HostView::initial(), ops, k).parent_of(c) == Some(p),
{
    lemma_run_keeps_wf(ops, k);
    crate::host::lemma_parent_of(run(HostView::initial(), ops, k), p, c);
}

impl Host {
    /// Carries out one request and answers it. A request that fails leaves
    /// the host as it was.
    pub fn apply(&mut self, op: &NodeOp) -> (r: Result<Reply, HostError>)
        requires
            old(self).wf(),
        ensures
            final(self).wf(),
            final(self)@ == step(old(self)@, op@),
            r == answer(old(self)@, op@),
    {
        match op {
            NodeOp::CreateElement { id, tag } => match self.create_element(*id, tag.as_str()) {
                Ok(_) => Ok(Reply::Id(*id)),
                Err(e) => Err(e),
            },
            NodeOp::Insert { child, parent, anchor } => match self.insert(
                *child,
                *parent,
                *anchor,
            ) {
                Ok(_) => Ok(Reply::Done),
                Err(e) => Err(e),
            },
            NodeOp::Remove { child } => match self.remove(*child) {
                Ok(_) => Ok(Reply::Done),
                Err(e) => Err(e),
            },
            NodeOp::SetElementText { id, text } => match self.set_element_text(
                *id,
                text.as_str(),
            ) {
                Ok(_) => Ok(Reply::Id(*id)),
                Err(e) => Err(e),
            },
            NodeOp::PatchProp { id, key, prev, next } => match self.patch_prop(
                *id,
                key.as_str(),
                *prev,
                *next,
            ) {
                Ok(_) => Ok(Reply::Done),
                Err(e) => Err(e),
            },
            NodeOp::ParentNode { id } => match self.parent_node(*id) {
                Ok(p) => Ok(Reply::Node(p)),
                Err(e) => Err(e),
            },
            NodeOp::NextSibling { id } => match self.next_sibling(*id) {
                Ok(p) => Ok(Reply::Node(p)),
                Err(e) => Err(e),
            },
            NodeOp::QuerySelector { selector } => match self.query_selector(selector.as_str()) {
                Ok(id) => Ok(Reply::Id(id)),
                Err(e) => Err(e),
            },
        }
    }
}

} // verus!
