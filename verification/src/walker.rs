//! The tree walk: one depth-first, pre-order pass from the root that lists,
//! in order, what the toolkit is to draw in a frame. The list is complete
//! before anything is drawn, so that callbacks which change the tree cannot
//! disturb the pass that is under way.

use crate::element::Kind;
use crate::host::{Host, HostView, ROOT};
use vstd::prelude::*;

verus! {

/// What the toolkit is asked to do for one step of the walk.
#[derive(Clone, Copy, Debug, PartialEq, Eq, Structural)]
pub enum Widget {
    /// Open a layout scope that stacks its content vertically.
    BeginVertical,
    /// Open a layout scope that lines its content up horizontally.
    BeginHorizontal,
    /// Close the layout scope that the same element opened.
    End,
    Label,
    Button,
    TextEdit,
    Separator,
}

/// One step of the walk: a request to the toolkit, the element it is for,
/// and the text to show, which is empty where the request shows none.
#[derive(Clone, Debug, PartialEq, Eq)]
pub struct RenderOp {
    pub widget: Widget,
    pub id: usize,
    pub text: String,
}

/// A step of the walk as specifications see it.
pub struct RenderOpView {
    pub widget: Widget,
    pub id: usize,
    pub text: Seq<char>,
}

impl View for RenderOp {
    type V = RenderOpView;

    open spec fn view(&self) -> RenderOpView {
        RenderOpView { widget: self.widget, id: self.id, text: self.text@ }
    }
}

/// The views of a vector of steps, item by item.
pub open spec fn ops_of(ops: Seq<RenderOp>) -> Seq<RenderOpView> {
    ops.map_values(|op: RenderOp| op@)
}

/// A step without text.
pub open spec fn bare(widget: Widget, id: usize) -> RenderOpView {
    RenderOpView { widget, id, text: Seq::empty() }
}

/// The steps for the element `id` and all below it. A vertical or horizontal
/// element opens a scope, has its children walked in order, and closes the
/// scope; the root has its children walked without a scope; a label, a
/// button and a text edit are one step each, with their text; a separator is
/// one step; hidden text and comments are none. `fuel` bounds the depth: an
/// element that has children walked takes one unit, and without any its
/// children are left out.
pub open spec fn render(v: HostView, id: usize, fuel: nat) -> Seq<RenderOpView>
    decreases fuel, 0nat,
{
    if !v.elements.contains_key(id) {
        Seq::empty()
    } else {
        let e = v.elements[id];
        let inner = if fuel == 0 {
            Seq::empty()
        } else {
            render_children(v, v.children[id], v.children[id].len(), (fuel - 1) as nat)
        };
        match e.kind {
            Kind::Root => inner,
            Kind::Vertical => seq![bare(Widget::BeginVertical, id)] + inner + seq![
                bare(Widget::End, id),
            ],
            Kind::Horizontal => seq![bare(Widget::BeginHorizontal, id)] + inner + seq![
                bare(Widget::End, id),
            ],
            Kind::Label => seq![RenderOpView { widget: Widget::Label, id, text: e.text }],
            Kind::Button => seq![RenderOpView { widget: Widget::Button, id, text: e.text }],
            Kind::TextEdit => seq![RenderOpView { widget: Widget::TextEdit, id, text: e.text }],
            Kind::Separator => seq![bare(Widget::Separator, id)],
            Kind::Hidden => Seq::empty(),
            Kind::Comment => Seq::empty(),
        }
    }
}

/// The steps for the first `k` of the elements `ids`, one after the other.
pub open spec fn render_children(v: HostView, ids: Seq<usize>, k: nat, fuel: nat) -> Seq<
    RenderOpView,
>
    decreases fuel, k + 1,
{
    if k == 0 || k > ids.len() {
        Seq::empty()
    } else {
        render_children(v, ids, (k - 1) as nat, fuel) + render(v, ids[k - 1], fuel)
    }
}

/// The steps of one frame: the walk from the root, with a unit of depth for
/// every element there is.
pub open spec fn frame(v: HostView) -> Seq<RenderOpView> {
    render(v, ROOT, v.elements.dom().len())
}

/// A path down the tree: it starts at the root, each element on it is a
/// child of the one before, and no element is on it twice.
pub open spec fn descent(v: HostView, path: Seq<usize>) -> bool {
    &&& path.len() > 0
    &&& path[0] == ROOT
    &&& forall|i: int| 0 < i < path.len() ==> v.children[path[i - 1]].contains(#[trigger] path[i])
    &&& path.no_duplicates()
}

/// A path down the tree stays one when a child of its last element joins it.
pub proof fn lemma_descent_extends(v: HostView, path: Seq<usize>, c: usize)
    requires
        v.wf(),
        descent(v, path),
        v.children[path.last()].contains(c),
    ensures
        descent(v, path.push(c)),
{
    let longer = path.push(c);
    let last = path.len() - 1;
    assert forall|i: int| 0 < i < longer.len() implies v.children[longer[i - 1]].contains(
        #[trigger] longer[i],
    ) by {
        if i < path.len() {
            assert(v.children[path[i - 1]].contains(path[i]));
        }
    }
    assert forall|i: int| 0 <= i < path.len() implies path[i] != c by {
        if path[i] == c {
            if i == 0 {
                assert(v.children[path.last()].contains(ROOT));
            } else {
                assert(v.children[path[i - 1]].contains(path[i]));
                assert(path[i - 1] == path[last]);
            }
        }
    }
    assert forall|i: int, j: int|
        0 <= i < longer.len() && 0 <= j < longer.len() && i != j implies longer[i]
        != longer[j] by {
        if i < path.len() && j < path.len() {
            assert(path[i] != path[j]);
        }
    }
}

/// A path down the tree is no longer than there are elements.
pub proof fn lemma_descent_is_short(v: HostView, path: Seq<usize>)
    requires
        v.wf(),
        descent(v, path),
    ensures
        path.len() <= v.elements.dom().len(),
{
    path.unique_seq_to_set();
    assert forall|x: usize| path.to_set().contains(x) implies v.elements.dom().contains(x) by {
        let i = choose|i: int| 0 <= i < path.len() && path[i] == x;
        if i > 0 {
            assert(v.children[path[i - 1]].contains(path[i]));
        }
    }
    vstd::set_lib::lemma_len_subset(path.to_set(), v.elements.dom());
}

/// Below a path down the tree, the steps for an element are the same for
/// any two depths that reach past the number of elements.
proof fn lemma_render_settles(v: HostView, path: Seq<usize>, fuel: nat, other: nat)
    requires
        v.wf(),
        descent(v, path),
        fuel + path.len() > v.elements.dom().len(),
        other + path.len() > v.elements.dom().len(),
    ensures
        render(v, path.last(), fuel) == render(v, path.last(), other),
    decreases fuel, 0nat,
{
    let id = path.last();
    lemma_descent_is_short(v, path);
    if v.elements.contains_key(id) {
        lemma_children_settle(
            v,
            path,
            v.children[id].len(),
            (fuel - 1) as nat,
            (other - 1) as nat,
        );
    }
}

/// Below a path down the tree, the steps for the children of its last
/// element are the same for any two depths that reach past the number of
/// elements.
proof fn lemma_children_settle(v: HostView, path: Seq<usize>, k: nat, fuel: nat, other: nat)
    requires
        v.wf(),
        descent(v, path),
        k <= v.children[path.last()].len(),
        fuel + path.len() + 1 > v.elements.dom().len(),
        other + path.len() + 1 > v.elements.dom().len(),
    ensures
        render_children(v, v.children[path.last()], k, fuel) == render_children(
            v,
            v.children[path.last()],
            k,
            other,
        ),
    decreases fuel, k + 1,
{
    if k > 0 {
        let ids = v.children[path.last()];
        let c = ids[k - 1];
        lemma_children_settle(v, path, (k - 1) as nat, fuel, other);
        assert(ids.contains(c));
        lemma_descent_extends(v, path, c);
        assert(path.push(c).last() == c);
        lemma_render_settles(v, path.push(c), fuel, other);
    }
}

/// The frame is the whole tree below the root: a walk with more depth than
/// there are elements lists the same steps.
pub proof fn lemma_frame_is_whole(v: HostView, fuel: nat)
    requires
        v.wf(),
        fuel >= v.elements.dom().len(),
    ensures
        render(v, ROOT, fuel) == frame(v),
{
    let path = seq![ROOT];
    assert(descent(v, path));
    assert(path.last() == ROOT);
    lemma_descent_is_short(v, path);
    lemma_render_settles(v, path, fuel, v.elements.dom().len());
}

impl Host {
    /// Appends the steps for the element `id` and all below it.
    fn walk_from(&self, id: usize, fuel: usize, out: &mut Vec<RenderOp>)
        requires
            self.wf(),
        ensures
            ops_of(final(out)@) == ops_of(old(out)@) + render(self@, id, fuel as nat),
        decreases fuel, 1nat,
    {
        let ghost start = ops_of(out@);
        match self.element(id) {
            None => {
                assert(start + Seq::<RenderOpView>::empty() =~= start);
            },
            Some(e) => {
                let ghost inner = if fuel == 0 {
                    Seq::<RenderOpView>::empty()
                } else {
                    render_children(
                        self@,
                        self@.children[id],
                        self@.children[id].len(),
                        (fuel - 1) as nat,
                    )
                };
                match e.kind() {
                    Kind::Root => {
                        self.walk_children(id, fuel, out);
                    },
                    Kind::Vertical => {
                        push_op(out, Widget::BeginVertical, id, String::new());
                        self.walk_children(id, fuel, out);
                        push_op(out, Widget::End, id, String::new());
                        assert(ops_of(out@) =~= start + (seq![bare(Widget::BeginVertical, id)]
                            + inner + seq![bare(Widget::End, id)]));
                    },
                    Kind::Horizontal => {
                        push_op(out, Widget::BeginHorizontal, id, String::new());
                        self.walk_children(id, fuel, out);
                        push_op(out, Widget::End, id, String::new());
                        assert(ops_of(out@) =~= start + (seq![bare(Widget::BeginHorizontal, id)]
                            + inner + seq![bare(Widget::End, id)]));
                    },
                    Kind::Label => {
                        push_op(out, Widget::Label, id, e.text());
                    },
                    Kind::Button => {
                        push_op(out, Widget::Button, id, e.text());
                    },
                    Kind::TextEdit => {
                        push_op(out, Widget::TextEdit, id, e.text());
                    },
                    Kind::Separator => {
                        push_op(out, Widget::Separator, id, String::new());
                    },
                    Kind::Hidden => {
                        assert(start + Seq::<RenderOpView>::empty() =~= start);
                    },
                    Kind::Comment => {
                        assert(start + Seq::<RenderOpView>::empty() =~= start);
                    },
                }
            },
        }
    }

    /// Appends the steps for the children of `id`, in order, where there is
    /// depth left for them.
    fn walk_children(&self, id: usize, fuel: usize, out: &mut Vec<RenderOp>)
        requires
            self.wf(),
        ensures
            ops_of(final(out)@) == ops_of(old(out)@) + (if fuel == 0 {
                Seq::<RenderOpView>::empty()
            } else {
                render_children(
                    self@,
                    self@.children[id],
                    self@.children[id].len(),
                    (fuel - 1) as nat,
                )
            }),
        decreases fuel, 0nat,
    {
        let ghost start = ops_of(out@);
        assert(start + Seq::<RenderOpView>::empty() =~= start);
        if fuel == 0 {
            return ;
        }
        match self.child_list(id) {
            None => {},
            Some(list) => {
                let mut k: usize = 0;
                while k < list.len()
                    invariant
                        k <= list.len(),
                        self.wf(),
                        fuel > 0,
                        list@ == self@.children[id],
                        ops_of(out@) == start + render_children(
                            self@,
                            list@,
                            k as nat,
                            (fuel - 1) as nat,
                        ),
                    decreases list.len() - k,
                {
                    let ghost so_far = render_children(self@, list@, k as nat, (fuel - 1) as nat);
                    self.walk_from(list[k], fuel - 1, out);
                    k += 1;
                    assert(ops_of(out@) =~= start + (so_far + render(
                        self@,
                        list@[k - 1],
                        (fuel - 1) as nat,
                    )));
                }
            },
        }
    }

    /// The steps of one frame: the whole tree below the root, depth first,
    /// each element before its children and the children in their order.
    pub fn walk(&self) -> (ops: Vec<RenderOp>)
        requires
            self.wf(),
        ensures
            ops_of(ops@) == frame(self@),
    {
        let mut out: Vec<RenderOp> = Vec::new();
        let fuel = self.count();
        assert(ops_of(out@) =~= Seq::<RenderOpView>::empty());
        self.walk_from(ROOT, fuel, &mut out);
        assert(Seq::<RenderOpView>::empty() + frame(self@) =~= frame(self@));
        out
    }
}

/// Appends one step.
fn push_op(out: &mut Vec<RenderOp>, widget: Widget, id: usize, text: String)
    ensures
        ops_of(final(out)@) == ops_of(old(out)@) + seq![RenderOpView { widget, id, text: text@ }],
{
    out.push(RenderOp { widget, id, text });
    assert(ops_of(out@) =~= ops_of(old(out)@) + seq![RenderOpView { widget, id, text: text@ }]);
}

} // verus!
