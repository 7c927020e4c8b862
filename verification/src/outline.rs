//! The outline of the tree: one line per element, indented by depth, for
//! diagnostic dumps. The host builds the lines; printing them is left to the
//! embedding.

use crate::element::{Element, ElementView, Kind};
use crate::host::{Host, HostView, ROOT};
use crate::text::{decimal, decimal_of, indent, indent_of};
use crate::walker::{descent, lemma_descent_extends, lemma_descent_is_short};
use vstd::prelude::*;
use vstd::string::StringExecFns;

verus! {

/// The name under which a kind appears in the outline.
pub open spec fn kind_name(kind: Kind) -> Seq<char> {
    match kind {
        Kind::Root => "Root"@,
        Kind::Hidden => "Hidden"@,
        Kind::Comment => "Comment"@,
        Kind::Label => "Label"@,
        Kind::Button => "Button"@,
        Kind::Vertical => "Vertical"@,
        Kind::Horizontal => "Horizontal"@,
        Kind::Separator => "Separator"@,
        Kind::TextEdit => "TextEdit"@,
    }
}

/// The line that opens an element in the outline: its indentation, the name
/// of its kind, its id in brackets and, for a kind that bears text, a colon
/// and the text.
pub open spec fn heading(e: ElementView, id: usize, depth: nat) -> Seq<char> {
    indent_of(depth) + kind_name(e.kind) + "("@ + decimal_of(id as nat) + ")"@ + (
    if e.kind.spec_bears_text() {
        ": "@ + e.text
    } else {
        Seq::empty()
    })
}

/// The lines for the element `id` and all below it: its heading, the lines
/// of its children one level deeper, in order, and a closing line. `fuel`
/// bounds the depth: an element takes one unit to have its children listed,
/// and without any they are left out.
pub open spec fn outline_of(v: HostView, id: usize, depth: nat, fuel: nat) -> Seq<Seq<char>>
    decreases fuel, 0nat,
{
    if !v.elements.contains_key(id) {
        Seq::empty()
    } else {
        seq![heading(v.elements[id], id, depth)] + (if fuel == 0 {
            Seq::empty()
        } else {
            outline_children(
                v,
                v.children[id],
                v.children[id].len(),
                depth + 1,
                (fuel - 1) as nat,
            )
        }) + seq![indent_of(depth) + "End"@]
    }
}

/// The lines for the first `k` of the elements `ids`, one after the other.
pub open spec fn outline_children(
    v: HostView,
    ids: Seq<usize>,
    k: nat,
    depth: nat,
    fuel: nat,
) -> Seq<Seq<char>>
    decreases fuel, k + 1,
{
    if k == 0 || k > ids.len() {
        Seq::empty()
    } else {
        outline_children(v, ids, (k - 1) as nat, depth, fuel) + outline_of(
            v,
            ids[k - 1],
            depth,
            fuel,
        )
    }
}

/// The views of a vector of lines, item by item.
pub open spec fn lines_of(lines: Seq<String>) -> Seq<Seq<char>> {
    lines.map_values(|s: String| s@)
}

/// Below a path down the tree, the lines for an element are the same for
/// any two depths that reach past the number of elements.
proof fn lemma_outline_settles(v: HostView, path: Seq<usize>, depth: nat, fuel: nat, other: nat)
    requires
        v.wf(),
        descent(v, path),
        fuel + path.len() > v.elements.dom().len(),
        other + path.len() > v.elements.dom().len(),
    ensures
        outline_of(v, path.last(), depth, fuel) == outline_of(v, path.last(), depth, other),
    decreases fuel, 0nat,
{
    let id = path.last();
    lemma_descent_is_short(v, path);
    if v.elements.contains_key(id) {
        lemma_outline_children_settle(
            v,
            path,
            v.children[id].len(),
            depth + 1,
            (fuel - 1) as nat,
            (other - 1) as nat,
        );
    }
}

/// Below a path down the tree, the lines for the children of its last
/// element are the same for any two depths that reach past the number of
/// elements.
proof fn lemma_outline_children_settle(
    v: HostView,
    path: Seq<usize>,
    k: nat,
    depth: nat,
    fuel: nat,
    other: nat,
)
    requires
        v.wf(),
        descent(v, path),
        k <= v.children[path.last()].len(),
        fuel + path.len() + 1 > v.elements.dom().len(),
        other + path.len() + 1 > v.elements.dom().len(),
    ensures
        outline_children(v, v.children[path.last()], k, depth, fuel) == outline_children(
            v,
            v.children[path.last()],
            k,
            depth,
            other,
        ),
    decreases fuel, k + 1,
{
    if k > 0 {
        let ids = v.children[path.last()];
        let c = ids[k - 1];
        lemma_outline_children_settle(v, path, (k - 1) as nat, depth, fuel, other);
        assert(ids.contains(c));
        lemma_descent_extends(v, path, c);
        assert(path.push(c).last() == c);
        lemma_outline_settles(v, path.push(c), depth, fuel, other);
    }
}

/// The outline from the root is the whole tree: with more depth than there
/// are elements the lines are the same.
pub proof fn lemma_outline_is_whole(v: HostView, fuel: nat)
    requires
        v.wf(),
        fuel >= v.elements.dom().len(),
    ensures
        outline_of(v, ROOT, 0, fuel) == outline_of(v, ROOT, 0, v.elements.dom().len()),
{
    let path = seq![ROOT];
    assert(descent(v, path));
    assert(path.last() == ROOT);
    lemma_descent_is_short(v, path);
    lemma_outline_settles(v, path, 0, fuel, v.elements.dom().len());
}

/// The name under which a kind appears in the outline.
fn name_of(kind: Kind) -> (r: &'static str)
    ensures
        r@ == kind_name(kind),
{
    match kind {
        Kind::Root => "Root",
        Kind::Hidden => "Hidden",
        Kind::Comment => "Comment",
        Kind::Label => "Label",
        Kind::Button => "Button",
        Kind::Vertical => "Vertical",
        Kind::Horizontal => "Horizontal",
        Kind::Separator => "Separator",
        Kind::TextEdit => "TextEdit",
    }
}

/// Writes the line that opens an element in the outline.
pub fn write_heading(e: &Element, id: usize, depth: usize) -> (r: String)
    ensures
        r@ == heading(e@, id, depth as nat),
{
    let kind = e.kind();
    let mut out = indent(depth);
    out.append(name_of(kind));
    out.append("(");
    out.append(decimal(id as u64).as_str());
    out.append(")");
    if kind.bears_text() {
        out.append(": ");
        out.append(e.text().as_str());
        assert(out@ =~= heading(e@, id, depth as nat));
    } else {
        assert(out@ =~= heading(e@, id, depth as nat));
    }
    out
}

impl Host {
    /// Appends the lines for the element `id` and all below it.
    fn outline_from(&self, id: usize, depth: usize, fuel: usize, out: &mut Vec<String>)
        requires
            self.wf(),
            depth + fuel <= usize::MAX,
        ensures
            lines_of(final(out)@) == lines_of(old(out)@) + outline_of(
                self@,
                id,
                depth as nat,
                fuel as nat,
            ),
        decreases fuel, 1nat,
    {
        let ghost start = lines_of(out@);
        match self.element(id) {
            None => {
                assert(start + Seq::<Seq<char>>::empty() =~= start);
            },
            Some(e) => {
                let first = write_heading(e, id, depth);
                let ghost first_line = first@;
                out.push(first);
                assert(lines_of(out@) =~= start + seq![first_line]);
                let ghost inner = if fuel == 0 {
                    Seq::<Seq<char>>::empty()
                } else {
                    outline_children(
                        self@,
                        self@.children[id],
                        self@.children[id].len(),
                        (depth + 1) as nat,
                        (fuel - 1) as nat,
                    )
                };
                if fuel > 0 {
                    match self.child_list(id) {
                        None => {},
                        Some(list) => {
                            let ghost base = lines_of(out@);
                            assert(base + Seq::<Seq<char>>::empty() =~= base);
                            let mut k: usize = 0;
                            while k < list.len()
                                invariant
                                    k <= list.len(),
                                    self.wf(),
                                    fuel > 0,
                                    depth + fuel <= usize::MAX,
                                    list@ == self@.children[id],
                                    lines_of(out@) == base + outline_children(
                                        self@,
                                        list@,
                                        k as nat,
                                        (depth + 1) as nat,
                                        (fuel - 1) as nat,
                                    ),
                                decreases list.len() - k,
                            {
                                let ghost so_far = outline_children(
                                    self@,
                                    list@,
                                    k as nat,
                                    (depth + 1) as nat,
                                    (fuel - 1) as nat,
                                );
                                self.outline_from(list[k], depth + 1, fuel - 1, out);
                                k += 1;
                                assert(lines_of(out@) =~= base + (so_far + outline_of(
                                    self@,
                                    list@[k - 1],
                                    (depth + 1) as nat,
                                    (fuel - 1) as nat,
                                )));
                            }
                        },
                    }
                }
                assert(lines_of(out@) =~= start + seq![first_line] + inner);
                let mut last = indent(depth);
                last.append("End");
                let ghost last_line = last@;
                let ghost mid = lines_of(out@);
                out.push(last);
                assert(lines_of(out@) =~= mid.push(last_line));
                assert(mid.push(last_line) =~= start + (seq![first_line] + inner + seq![
                    last_line,
                ]));
            },
        }
    }

    /// The outline of the element `id` and all below it, from depth zero;
    /// no lines for an id that was never created.
    pub fn outline(&self, id: usize) -> (lines: Vec<String>)
        requires
            self.wf(),
        ensures
            lines_of(lines@) == outline_of(self@, id, 0, self@.elements.dom().len()),
    {
        let mut out: Vec<String> = Vec::new();
        let fuel = self.count();
        assert(lines_of(out@) =~= Seq::<Seq<char>>::empty());
        self.outline_from(id, 0, fuel, &mut out);
        assert(Seq::<Seq<char>>::empty() + outline_of(self@, id, 0, fuel as nat) =~= outline_of(
            self@,
            id,
            0,
            fuel as nat,
        ));
        out
    }
}

} // verus!
