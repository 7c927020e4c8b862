//! Dispatch: from what the toolkit reports of the widgets of a frame to the
//! callbacks that are to be invoked. The host names the callbacks, in order;
//! invoking them is left to the embedding, after the pass is over.

use crate::element::Kind;
use crate::error::HostError;
use crate::events::PropKey;
use crate::host::{Host, HostView};
use vstd::prelude::*;

verus! {

/// What the toolkit reports of the widget of one element in a frame.
#[derive(Clone, Debug, PartialEq, Eq)]
pub struct Interaction {
    pub id: usize,
    pub clicked: bool,
    pub hovered: bool,
    pub lost_focus: bool,
    /// The content of a text edit after the toolkit ran it; `None` for any
    /// other widget.
    pub text: Option<String>,
}

/// An interaction as specifications see it.
pub struct InteractionView {
    pub id: usize,
    pub clicked: bool,
    pub hovered: bool,
    pub lost_focus: bool,
    pub text: Option<Seq<char>>,
}

impl View for Interaction {
    type V = InteractionView;

    open spec fn view(&self) -> InteractionView {
        InteractionView {
            id: self.id,
            clicked: self.clicked,
            hovered: self.hovered,
            lost_focus: self.lost_focus,
            text: match self.text {
                Some(t) => Some(t@),
                None => None,
            },
        }
    }
}

/// One callback to invoke: for which element and event, under which handle,
/// and with which argument. Click and hover callbacks take none; an input
/// callback takes the new text.
#[derive(Clone, Debug, PartialEq, Eq)]
pub struct Invocation {
    pub id: usize,
    pub event: PropKey,
    pub handle: u64,
    pub argument: Option<String>,
}

/// An invocation as specifications see it.
pub struct InvocationView {
    pub id: usize,
    pub event: PropKey,
    pub handle: u64,
    pub argument: Option<Seq<char>>,
}

impl View for Invocation {
    type V = InvocationView;

    open spec fn view(&self) -> InvocationView {
        InvocationView {
            id: self.id,
            event: self.event,
            handle: self.handle,
            argument: match self.argument {
                Some(t) => Some(t@),
                None => None,
            },
        }
    }
}

impl Invocation {
    /// The failure to report when invoking this callback failed. It concerns
    /// this callback alone: the invocations after it are still made.
    pub fn failure(&self) -> (e: HostError)
        ensures
            e == (HostError::Dispatch { handle: self.handle }),
    {
        HostError::Dispatch { handle: self.handle }
    }
}

/// The views of a vector of interactions, item by item.
pub open spec fn interactions_of(items: Seq<Interaction>) -> Seq<InteractionView> {
    items.map_values(|i: Interaction| i@)
}

/// The views of a vector of invocations, item by item.
pub open spec fn invocations_of(items: Seq<Invocation>) -> Seq<InvocationView> {
    items.map_values(|c: Invocation| c@)
}

/// Whether `id` is a text edit of the host.
pub open spec fn is_text_edit(v: HostView, id: usize) -> bool {
    v.elements.contains_key(id) && v.elements[id].kind == Kind::TextEdit
}

/// The host after the toolkit ran the widget of an interaction: a text edit
/// takes the content that the toolkit left in it; nothing else changes.
pub open spec fn after_edit(v: HostView, i: InteractionView) -> HostView {
    if is_text_edit(v, i.id) && i.text is Some {
        HostView { elements: v.elements.insert(i.id, v.elements[i.id].with_text(i.text.unwrap())), ..v }
    } else {
        v
    }
}

/// The callbacks that one interaction gives rise to, in the order click,
/// hover, input: each once, where the element has it bound and the toolkit
/// reports the matching interaction. Input is for text edits only, reported
/// by the loss of focus, and carries the text as edited.
pub open spec fn calls_for(v: HostView, i: InteractionView) -> Seq<InvocationView> {
    let e = v.events_of(i.id);
    let w = after_edit(v, i);
    (if e.click is Some && i.clicked {
        seq![
            InvocationView {
                id: i.id,
                event: PropKey::Click,
                handle: e.click.unwrap(),
                argument: None,
            },
        ]
    } else {
        Seq::empty()
    }) + (if e.hover is Some && i.hovered {
        seq![
            InvocationView {
                id: i.id,
                event: PropKey::Hover,
                handle: e.hover.unwrap(),
                argument: None,
            },
        ]
    } else {
        Seq::empty()
    }) + (if e.input is Some && i.lost_focus && is_text_edit(v, i.id) {
        seq![
            InvocationView {
                id: i.id,
                event: PropKey::Input,
                handle: e.input.unwrap(),
                argument: Some(w.elements[i.id].text),
            },
        ]
    } else {
        Seq::empty()
    })
}

/// A host and the callbacks to invoke.
pub struct Dispatched {
    pub host: HostView,
    pub calls: Seq<InvocationView>,
}

/// What the first `k` interactions of a frame make of a host, and the
/// callbacks they give rise to, interaction by interaction.
pub open spec fn dispatched(v: HostView, results: Seq<InteractionView>, k: nat) -> Dispatched
    decreases k,
{
    if k == 0 || k > results.len() {
        Dispatched { host: v, calls: Seq::empty() }
    } else {
        let before = dispatched(v, results, (k - 1) as nat);
        Dispatched {
            host: after_edit(before.host, results[k - 1]),
            calls: before.calls + calls_for(before.host, results[k - 1]),
        }
    }
}

/// The click callbacks among `calls`, in order.
pub open spec fn clicks_of(calls: Seq<InvocationView>) -> Seq<InvocationView> {
    calls.filter(|c: InvocationView| c.event == PropKey::Click)
}

/// The invocation of the click callback of `id`.
pub open spec fn click_call(id: usize, handle: u64) -> InvocationView {
    InvocationView { id, event: PropKey::Click, handle, argument: None }
}

/// Whether the callback that an invocation names is the one that its
/// element has bound for its event.
pub open spec fn live(v: HostView, c: InvocationView) -> bool {
    v.events_of(c.id).spec_bound(c.event) == Some(c.handle)
}

/// One interaction invokes the click callback of its element once where one
/// is bound and a click is reported, and no click callback otherwise.
pub proof fn lemma_interaction_clicks(v: HostView, i: InteractionView)
    ensures
        clicks_of(calls_for(v, i)) == if v.events_of(i.id).click is Some && i.clicked {
            seq![click_call(i.id, v.events_of(i.id).click.unwrap())]
        } else {
            Seq::<InvocationView>::empty()
        },
{
    let is_click = |c: InvocationView| c.event == PropKey::Click;
    let e = v.events_of(i.id);
    let w = after_edit(v, i);
    let a = if e.click is Some && i.clicked {
        seq![
            InvocationView {
                id: i.id,
                event: PropKey::Click,
                handle: e.click.unwrap(),
                argument: None,
            },
        ]
    } else {
        Seq::empty()
    };
    let b = if e.hover is Some && i.hovered {
        seq![
            InvocationView {
                id: i.id,
                event: PropKey::Hover,
                handle: e.hover.unwrap(),
                argument: None,
            },
        ]
    } else {
        Seq::empty()
    };
    let c = if e.input is Some && i.lost_focus && is_text_edit(v, i.id) {
        seq![
            InvocationView {
                id: i.id,
                event: PropKey::Input,
                handle: e.input.unwrap(),
                argument: Some(w.elements[i.id].text),
            },
        ]
    } else {
        Seq::empty()
    };
    assert(calls_for(v, i) == a + b + c);
    lemma_filter_one_or_none(a, is_click);
    lemma_filter_one_or_none(b, is_click);
    lemma_filter_one_or_none(c, is_click);
    Seq::filter_distributes_over_add(a, b, is_click);
    Seq::filter_distributes_over_add(a + b, c, is_click);
    assert(b.filter(is_click) =~= Seq::<InvocationView>::empty());
    assert(c.filter(is_click) =~= Seq::<InvocationView>::empty());
    assert(a.filter(is_click) + b.filter(is_click) + c.filter(is_click) =~= a.filter(is_click));
}

/// The interactions of a frame leave every binding as it was.
pub proof fn lemma_dispatch_keeps_bindings(v: HostView, results: Seq<InteractionView>, k: nat)
    ensures
        dispatched(v, results, k).host.events == v.events,
    decreases k,
{
    if !(k == 0 || k > results.len()) {
        lemma_dispatch_keeps_bindings(v, results, (k - 1) as nat);
    }
}

/// A frame in which exactly one interaction reports a click, for an element
/// with a click callback bound, invokes that callback exactly once and no
/// other click callback. `k` is how far into the frame the count is taken.
pub proof fn lemma_one_click_one_call(
    v: HostView,
    results: Seq<InteractionView>,
    k: nat,
    j: int,
    handle: u64,
)
    requires
        k <= results.len(),
        0 <= j < results.len(),
        results[j].clicked,
        v.events_of(results[j].id).click == Some(handle),
        forall|i: int| 0 <= i < results.len() && i != j ==> !(#[trigger] results[i]).clicked,
    ensures
        clicks_of(dispatched(v, results, k).calls) == if j < k {
            seq![click_call(results[j].id, handle)]
        } else {
            Seq::<InvocationView>::empty()
        },
    decreases k,
{
    let is_click = |c: InvocationView| c.event == PropKey::Click;
    if k > 0 {
        let before = dispatched(v, results, (k - 1) as nat);
        let r = results[k - 1];
        lemma_one_click_one_call(v, results, (k - 1) as nat, j, handle);
        lemma_dispatch_keeps_bindings(v, results, (k - 1) as nat);
        lemma_interaction_clicks(before.host, r);
        assert(before.host.events_of(r.id) == v.events_of(r.id));
        Seq::filter_distributes_over_add(before.calls, calls_for(before.host, r), is_click);
        assert(clicks_of(dispatched(v, results, k).calls) =~= clicks_of(before.calls) + clicks_of(
            calls_for(before.host, r),
        ));
    }
}

/// A frame in which no interaction reports a click invokes no click
/// callback.
pub proof fn lemma_no_click_no_call(v: HostView, results: Seq<InteractionView>, k: nat)
    requires
        k <= results.len(),
        forall|i: int| 0 <= i < results.len() ==> !(#[trigger] results[i]).clicked,
    ensures
        clicks_of(dispatched(v, results, k).calls) == Seq::<InvocationView>::empty(),
    decreases k,
{
    let is_click = |c: InvocationView| c.event == PropKey::Click;
    if k > 0 {
        let before = dispatched(v, results, (k - 1) as nat);
        let r = results[k - 1];
        lemma_no_click_no_call(v, results, (k - 1) as nat);
        lemma_interaction_clicks(before.host, r);
        Seq::filter_distributes_over_add(before.calls, calls_for(before.host, r), is_click);
        assert(clicks_of(dispatched(v, results, k).calls) =~= clicks_of(before.calls) + clicks_of(
            calls_for(before.host, r),
        ));
    }
}

/// Every callback that a frame names is, at the end of the dispatch, the one
/// that its element has bound for its event.
pub proof fn lemma_named_calls_are_live(v: HostView, results: Seq<InteractionView>, k: nat)
    ensures
        forall|n: int|
            0 <= n < dispatched(v, results, k).calls.len() ==> live(
                dispatched(v, results, k).host,
                #[trigger] dispatched(v, results, k).calls[n],
            ),
    decreases k,
{
    if !(k == 0 || k > results.len()) {
        let before = dispatched(v, results, (k - 1) as nat);
        let r = results[k - 1];
        lemma_named_calls_are_live(v, results, (k - 1) as nat);
        lemma_dispatch_keeps_bindings(v, results, (k - 1) as nat);
        lemma_dispatch_keeps_bindings(v, results, k);
        let now = dispatched(v, results, k);
        assert forall|n: int| 0 <= n < now.calls.len() implies live(
            now.host,
            #[trigger] now.calls[n],
        ) by {
            if n < before.calls.len() {
                assert(now.calls[n] == before.calls[n]);
                assert(live(before.host, before.calls[n]));
            } else {
                assert(now.calls[n] == calls_for(before.host, r)[n - before.calls.len()]);
            }
        }
    }
}

/// Filtering a sequence of at most one item keeps it or empties it.
proof fn lemma_filter_one_or_none<A>(s: Seq<A>, keep: spec_fn(A) -> bool)
    requires
        s.len() <= 1,
    ensures
        s.len() == 1 && keep(s[0]) ==> s.filter(keep) == s,
        s.len() == 0 || !keep(s[0]) ==> s.filter(keep) == Seq::<A>::empty(),
{
    reveal_with_fuel(Seq::filter, 2);
    if s.len() == 1 {
        assert(s.drop_last() =~= Seq::<A>::empty());
        assert(Seq::<A>::empty().push(s[0]) =~= s);
    }
}

impl Host {
    /// Whether the callback that `call` names is still the one to invoke.
    /// The callbacks of a frame are invoked one after the other, and one of
    /// them may clear or replace the binding of a later one; a callback that
    /// is no longer bound is passed over.
    pub fn is_live(&self, call: &Invocation) -> (b: bool)
        ensures
            b == live(self@, call@),
    {
        match self.bindings(call.id).bound(call.event) {
            Some(h) => h == call.handle,
            None => false,
        }
    }

    /// Takes in what the toolkit reports of the widgets of a frame, in the
    /// order of the walk, and answers the callbacks to invoke, in order. The
    /// content of each text edit is stored before its callbacks are named;
    /// nothing else in the host changes.
    pub fn dispatch(&mut self, results: &Vec<Interaction>) -> (calls: Vec<Invocation>)
        requires
            old(self).wf(),
        ensures
            final(self).wf(),
            dispatched(old(self)@, interactions_of(results@), results.len() as nat) == (Dispatched {
                host: final(self)@,
                calls: invocations_of(calls@),
            }),
    {
        let mut calls: Vec<Invocation> = Vec::new();
        let ghost all = interactions_of(results@);
        let mut k: usize = 0;
        assert(invocations_of(calls@) =~= Seq::<InvocationView>::empty());
        while k < results.len()
            invariant
                k <= results.len(),
                self.wf(),
                all == interactions_of(results@),
                dispatched(old(self)@, all, k as nat) == (Dispatched {
                    host: self@,
                    calls: invocations_of(calls@),
                }),
            decreases results.len() - k,
        {
            let r = &results[k];
            let ghost before = self@;
            let ghost named = invocations_of(calls@);
            assert(all[k as int] == r@);
            let bound = self.bindings(r.id);
            let edits = match self.kind_of(r.id) {
                Some(Kind::TextEdit) => true,
                _ => false,
            };
            if edits {
                match &r.text {
                    Some(t) => {
                        let done = self.set_element_text(r.id, t.as_str());
                        assert(done is Ok);
                        assert(self@ == after_edit(before, r@));
                    },
                    None => {},
                }
            }
            assert(self@ == after_edit(before, r@));
            match bound.click {
                Some(handle) => {
                    if r.clicked {
                        push_call(&mut calls, r.id, PropKey::Click, handle, None);
                    }
                },
                None => {},
            }
            match bound.hover {
                Some(handle) => {
                    if r.hovered {
                        push_call(&mut calls, r.id, PropKey::Hover, handle, None);
                    }
                },
                None => {},
            }
            match bound.input {
                Some(handle) => {
                    if r.lost_focus && edits {
                        let now = self.text_of(r.id);
                        push_call(&mut calls, r.id, PropKey::Input, handle, now);
                    }
                },
                None => {},
            }
            k += 1;
            assert(invocations_of(calls@) =~= named + calls_for(before, r@));
        }
        calls
    }
}

/// Appends one invocation.
fn push_call(
    calls: &mut Vec<Invocation>,
    id: usize,
    event: PropKey,
    handle: u64,
    argument: Option<String>,
)
    ensures
        invocations_of(final(calls)@) == invocations_of(old(calls)@).push(
            (Invocation { id, event, handle, argument })@,
        ),
{
    calls.push(Invocation { id, event, handle, argument });
    assert(invocations_of(calls@) =~= invocations_of(old(calls)@).push(
        (Invocation { id, event, handle, argument })@,
    ));
}

} // verus!
