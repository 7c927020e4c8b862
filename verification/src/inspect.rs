//! The value inspector: a formatter for diagnostic dumps of dynamic values
//! that may refer to themselves. The values live in a graph whose nodes refer
//! to one another by index, so that the identity of a value is its index.

use crate::paint::{
    blue, blue_of, bold, bold_of, bold_red_of, cyan, cyan_of, escape_free, green, green_of,
    terminal_bold, terminal_bold_red, yellow, yellow_of,
};
use crate::text::{byte_len, indent, indent_of, join, join_of, views_of};
use vstd::prelude::*;
use vstd::string::StringExecFns;

verus! {

/// One dynamic value. Compound values name their parts by index into the
/// graph that holds them.
#[derive(Debug)]
pub enum Node {
    Null,
    Boolean(bool),
    /// A number, as the decimal text it prints as.
    Number(String),
    Text(String),
    /// A function, by its name; the empty name is an anonymous function.
    Function(String),
    /// The items of an array, in order.
    Array(Vec<usize>),
    /// The keys of an object, in order, and the value of each.
    Object(Vec<String>, Vec<usize>),
    /// Any other value, as the text it converts to.
    Other(String),
}

/// A node as specifications see it.
pub enum NodeView {
    Null,
    Boolean(bool),
    Number(Seq<char>),
    Text(Seq<char>),
    Function(Seq<char>),
    Array(Seq<usize>),
    Object(Seq<Seq<char>>, Seq<usize>),
    Other(Seq<char>),
}

impl View for Node {
    type V = NodeView;

    open spec fn view(&self) -> NodeView {
        match self {
            Node::Null => NodeView::Null,
            Node::Boolean(b) => NodeView::Boolean(*b),
            Node::Number(s) => NodeView::Number(s@),
            Node::Text(s) => NodeView::Text(s@),
            Node::Function(s) => NodeView::Function(s@),
            Node::Array(items) => NodeView::Array(items@),
            Node::Object(keys, values) => NodeView::Object(views_of(keys@), values@),
            Node::Other(s) => NodeView::Other(s@),
        }
    }
}

/// Whether every index in `ids` is below `limit`.
pub open spec fn below(ids: Seq<usize>, limit: nat) -> bool {
    forall|i: int| 0 <= i < ids.len() ==> (#[trigger] ids[i]) < limit
}

impl NodeView {
    /// Whether every part that the node names is one of the first `limit`
    /// nodes, and an object has one value for each key.
    pub open spec fn fits(self, limit: nat) -> bool {
        match self {
            NodeView::Array(items) => below(items, limit),
            NodeView::Object(keys, values) => keys.len() == values.len() && below(values, limit),
            _ => true,
        }
    }
}

/// Whether every index in `ids` is below `limit`.
fn all_below(ids: &Vec<usize>, limit: usize) -> (b: bool)
    ensures
        b == below(ids@, limit as nat),
{
    let mut i: usize = 0;
    while i < ids.len()
        invariant
            i <= ids.len(),
            forall|j: int| 0 <= j < i ==> (#[trigger] ids[j]) < limit,
        decreases ids.len() - i,
    {
        if ids[i] >= limit {
            return false;
        }
        i += 1;
    }
    true
}

impl Node {
    /// Whether every part that the node names is one of the first `limit`
    /// nodes, and an object has one value for each key.
    pub fn fits(&self, limit: usize) -> (b: bool)
        ensures
            b == self@.fits(limit as nat),
    {
        match self {
            Node::Array(items) => all_below(items, limit),
            Node::Object(keys, values) => keys.len() == values.len() && all_below(values, limit),
            _ => true,
        }
    }
}

/// A graph of dynamic values. A value may refer to any value of the graph,
/// itself included.
pub struct ValueGraph {
    nodes: Vec<Node>,
}

impl View for ValueGraph {
    type V = Seq<NodeView>;

    closed spec fn view(&self) -> Seq<NodeView> {
        self.nodes@.map_values(|n: Node| n@)
    }
}

/// Whether every node of `g` names parts inside `g` only.
pub open spec fn closed_graph(g: Seq<NodeView>) -> bool {
    forall|i: int| 0 <= i < g.len() ==> (#[trigger] g[i]).fits(g.len())
}

impl ValueGraph {
    /// The invariant of a graph: no node refers outside it.
    pub open spec fn wf(&self) -> bool {
        closed_graph(self@)
    }

    /// An empty graph.
    pub fn new() -> (g: ValueGraph)
        ensures
            g.wf(),
            g@.len() == 0,
    {
        ValueGraph { nodes: Vec::new() }
    }

    /// The number of values in the graph.
    pub fn len(&self) -> (n: usize)
        ensures
            n == self@.len(),
    {
        self.nodes.len()
    }

    /// Adds a value and answers its index, which is the former length of the
    /// graph. The value may refer to itself and to any earlier value; one
    /// that refers further is not added, nor is any once the indices are
    /// used up.
    pub fn add(&mut self, node: Node) -> (r: Option<usize>)
        requires
            old(self).wf(),
        ensures
            final(self).wf(),
            r is Some <==> old(self)@.len() < usize::MAX && node@.fits(old(self)@.len() + 1),
            match r {
                Some(id) => id == old(self)@.len() && final(self)@ == old(self)@.push(node@),
                None => final(self)@ == old(self)@,
            },
    {
        let id = self.nodes.len();
        if id == usize::MAX || !node.fits(id + 1) {
            return None;
        }
        self.nodes.push(node);
        proof {
            assert(self@ =~= old(self)@.push(node@));
            assert forall|i: int| 0 <= i < self@.len() implies (#[trigger] self@[i]).fits(
                self@.len(),
            ) by {
                if i < id {
                    assert(old(self)@[i].fits(old(self)@.len()));
                }
            }
        }
        Some(id)
    }

    /// Replaces the value at `id`, which lets an earlier value refer to a
    /// later one. Answers whether it did: the index must exist and the new
    /// value must refer inside the graph.
    pub fn set(&mut self, id: usize, node: Node) -> (done: bool)
        requires
            old(self).wf(),
        ensures
            final(self).wf(),
            done == (id < old(self)@.len() && node@.fits(old(self)@.len())),
            done ==> final(self)@ == old(self)@.update(id as int, node@),
            !done ==> final(self)@ == old(self)@,
    {
        let n = self.nodes.len();
        if id >= n || !node.fits(n) {
            return false;
        }
        self.nodes[id] = node;
        proof {
            assert(self@ =~= old(self)@.update(id as int, node@));
        }
        true
    }
}

/// The sum of the byte lengths of `parts`.
pub open spec fn total_bytes(parts: Seq<Seq<char>>) -> nat
    decreases parts.len(),
{
    if parts.len() == 0 {
        0
    } else {
        total_bytes(parts.drop_last()) + byte_len(parts.last())
    }
}

/// Whether the parts of a compound value go on one line: at most three of
/// them, of at most sixty bytes together.
pub open spec fn inline_of(parts: Seq<Seq<char>>) -> bool {
    parts.len() <= 3 && total_bytes(parts) <= 60
}

/// The first `k` lines of a block: each part on a line of its own, indented
/// to `depth`, with a comma after every part but the last of all.
pub open spec fn block_of(parts: Seq<Seq<char>>, k: nat, depth: nat) -> Seq<char>
    decreases k,
{
    if k == 0 || k > parts.len() {
        Seq::empty()
    } else {
        block_of(parts, (k - 1) as nat, depth) + indent_of(depth) + parts[k - 1] + (if k
            < parts.len() {
            ",\n"@
        } else {
            "\n"@
        })
    }
}

/// The text of a compound value with the given, non-empty parts: on one line
/// between brackets where the parts are small, else as a block in which each
/// part has a line one level deeper than the closing bracket. Objects take
/// curly brackets, arrays square ones.
pub open spec fn layout_of(parts: Seq<Seq<char>>, depth: nat, curly: bool) -> Seq<char> {
    if inline_of(parts) {
        (if curly {
            "{ "@
        } else {
            "[ "@
        }) + join_of(parts, ", "@) + (if curly {
            " }"@
        } else {
            " ]"@
        })
    } else {
        (if curly {
            "{\n"@
        } else {
            "[\n"@
        }) + block_of(parts, parts.len(), depth + 1) + indent_of(depth) + (if curly {
            "}"@
        } else {
            "]"@
        })
    }
}

proof fn lemma_total_bytes_prefix(parts: Seq<Seq<char>>, k: int)
    requires
        0 <= k <= parts.len(),
    ensures
        total_bytes(parts.take(k)) <= total_bytes(parts),
    decreases parts.len(),
{
    if k == parts.len() {
        assert(parts.take(k) == parts);
    } else {
        lemma_total_bytes_prefix(parts.drop_last(), k);
        assert(parts.drop_last().take(k) == parts.take(k));
    }
}

/// Decides whether the parts of a compound value go on one line.
pub fn fits_inline(parts: &Vec<String>) -> (b: bool)
    ensures
        b == inline_of(views_of(parts@)),
{
    if parts.len() > 3 {
        return false;
    }
    let ghost all = views_of(parts@);
    let mut total: usize = 0;
    let mut i: usize = 0;
    while i < parts.len()
        invariant
            i <= parts.len() <= 3,
            all == views_of(parts@),
            total == total_bytes(all.take(i as int)),
            total <= 60,
        decreases parts.len() - i,
    {
        let n = parts[i].as_str().as_bytes().len();
        proof {
            assert(all.take(i + 1).drop_last() == all.take(i as int));
            assert(all.take(i + 1).last() == parts[i as int]@);
        }
        if n > 60 - total {
            proof {
                lemma_total_bytes_prefix(all, i + 1);
            }
            return false;
        }
        total += n;
        i += 1;
    }
    assert(all.take(parts.len() as int) == all);
    true
}

/// Lays out the text of a compound value from its non-empty parts.
pub fn layout(parts: &Vec<String>, depth: usize, curly: bool) -> (r: String)
    ensures
        r@ == layout_of(views_of(parts@), depth as nat, curly),
{
    let ghost all = views_of(parts@);
    if fits_inline(parts) {
        let mut out = String::from_str(if curly { "{ " } else { "[ " });
        let inner = join(parts, ", ");
        out.append(inner.as_str());
        out.append(if curly { " }" } else { " ]" });
        out
    } else {
        let here = indent(depth);
        let mut deeper = here.clone();
        deeper.append("  ");
        assert(deeper@ == indent_of((depth + 1) as nat));
        let mut out = String::from_str(if curly { "{\n" } else { "[\n" });
        let ghost head = out@;
        let mut k: usize = 0;
        while k < parts.len()
            invariant
                k <= parts.len(),
                all == views_of(parts@),
                deeper@ == indent_of((depth + 1) as nat),
                out@ == head + block_of(all, k as nat, (depth + 1) as nat),
            decreases parts.len() - k,
        {
            let ghost before = block_of(all, k as nat, (depth + 1) as nat);
            out.append(deeper.as_str());
            out.append(parts[k].as_str());
            if k + 1 < parts.len() {
                out.append(",\n");
            } else {
                out.append("\n");
            }
            k += 1;
            proof {
                let last = if k < parts.len() {
                    ",\n"@
                } else {
                    "\n"@
                };
                assert(all[k - 1] == parts[k - 1]@);
                assert(block_of(all, k as nat, (depth + 1) as nat) == before + deeper@ + all[k
                    - 1] + last);
                assert(out@ =~= head + (before + deeper@ + all[k - 1] + last));
            }
        }
        out.append(here.as_str());
        out.append(if curly { "}" } else { "]" });
        proof {
            let tail = if curly {
                "}"@
            } else {
                "]"@
            };
            assert(out@ =~= head + block_of(all, parts.len() as nat, (depth + 1) as nat)
                + indent_of(depth as nat) + tail);
        }
        out
    }
}

/// The two pieces of text whose styling depends on the terminal: how `null`
/// prints, and what stands in for a value that is being printed already.
#[derive(Debug)]
pub struct Markers {
    pub null: String,
    pub circular: String,
}

/// The markers as specifications see them.
pub struct MarkersView {
    pub null: Seq<char>,
    pub circular: Seq<char>,
}

impl View for Markers {
    type V = MarkersView;

    open spec fn view(&self) -> MarkersView {
        MarkersView { null: self.null@, circular: self.circular@ }
    }
}

impl MarkersView {
    /// What the markers can be, whatever the terminal: `null` plain or bold,
    /// `[Circular]` plain or bold red.
    pub open spec fn for_terminal(self) -> bool {
        &&& (self.null == "null"@ || self.null == bold_of("null"@))
        &&& (self.circular == "[Circular]"@ || self.circular == bold_red_of("[Circular]"@))
    }
}

impl Markers {
    /// The markers as the terminal of this process gets them.
    pub fn for_terminal() -> (m: Markers)
        ensures
            m@.for_terminal(),
    {
        proof {
            reveal_strlit("null");
            reveal_strlit("[Circular]");
            assert(escape_free("null"@));
            assert(escape_free("[Circular]"@));
        }
        Markers { null: terminal_bold("null"), circular: terminal_bold_red("[Circular]") }
    }
}

/// The placeholder of a function of the given name.
pub open spec fn function_label(name: Seq<char>) -> Seq<char> {
    "[Function: "@ + (if name.len() == 0 {
        "<anonymous>"@
    } else {
        name
    }) + "]"@
}

/// The entries of an object: each key in blue, a colon, and the text of its
/// value.
pub open spec fn entries_of(keys: Seq<Seq<char>>, texts: Seq<Seq<char>>) -> Seq<Seq<char>> {
    Seq::new(keys.len(), |i: int| blue_of(keys[i]) + ": "@ + texts[i])
}

/// The text of the value `id` of the graph `g`, printed at nesting depth
/// `depth`. `on_path` marks the arrays and objects that are being printed:
/// those that hold this value, directly or through others. One of them met
/// again is a reference cycle and prints as the circular marker. A value
/// that is merely held in two places is no cycle and prints in full each
/// time. `member` says that the value is a part of a compound value, where a
/// string prints in quotes. `fuel` bounds the nesting: printing the parts of
/// a compound value takes one unit.
pub open spec fn show(
    g: Seq<NodeView>,
    id: usize,
    depth: nat,
    on_path: Seq<bool>,
    member: bool,
    m: MarkersView,
    fuel: nat,
) -> Seq<char>
    decreases fuel, 0nat,
{
    if id >= g.len() || id >= on_path.len() {
        Seq::empty()
    } else {
        match g[id as int] {
            NodeView::Null => m.null,
            NodeView::Boolean(b) => yellow_of(
                if b {
                    "true"@
                } else {
                    "false"@
                },
            ),
            NodeView::Number(n) => yellow_of(n),
            NodeView::Text(t) => if member {
                green_of("\""@ + t + "\""@)
            } else {
                t
            },
            NodeView::Function(name) => cyan_of(bold_of(function_label(name))),
            NodeView::Array(items) => {
                if on_path[id as int] {
                    m.circular
                } else if items.len() == 0 {
                    "[]"@
                } else if fuel == 0 {
                    Seq::empty()
                } else {
                    layout_of(
                        show_list(
                            g,
                            items,
                            items.len(),
                            depth + 1,
                            on_path.update(id as int, true),
                            m,
                            (fuel - 1) as nat,
                        ),
                        depth,
                        false,
                    )
                }
            },
            NodeView::Object(keys, values) => {
                if on_path[id as int] {
                    m.circular
                } else if keys.len() == 0 {
                    "{}"@
                } else if fuel == 0 {
                    Seq::empty()
                } else {
                    layout_of(
                        entries_of(
                            keys,
                            show_list(
                                g,
                                values,
                                values.len(),
                                depth + 1,
                                on_path.update(id as int, true),
                                m,
                                (fuel - 1) as nat,
                            ),
                        ),
                        depth,
                        true,
                    )
                }
            },
            NodeView::Other(t) => indent_of(depth) + t,
        }
    }
}

/// The texts of the first `k` of the values `ids`, each printed as a member
/// below the same path.
pub open spec fn show_list(
    g: Seq<NodeView>,
    ids: Seq<usize>,
    k: nat,
    depth: nat,
    on_path: Seq<bool>,
    m: MarkersView,
    fuel: nat,
) -> Seq<Seq<char>>
    decreases fuel, k + 1,
{
    if k == 0 || k > ids.len() {
        Seq::empty()
    } else {
        show_list(g, ids, (k - 1) as nat, depth, on_path, m, fuel).push(
            show(g, ids[k - 1], depth, on_path, true, m, fuel),
        )
    }
}

/// How many values are not on the path that `on_path` marks.
pub open spec fn off_path(on_path: Seq<bool>) -> nat
    decreases on_path.len(),
{
    if on_path.len() == 0 {
        0
    } else {
        off_path(on_path.drop_last()) + (if on_path.last() {
            0nat
        } else {
            1nat
        })
    }
}

/// Marking one more value leaves one fewer unmarked.
proof fn lemma_off_path_mark(on_path: Seq<bool>, i: int)
    requires
        0 <= i < on_path.len(),
        !on_path[i],
    ensures
        off_path(on_path.update(i, true)) + 1 == off_path(on_path),
    decreases on_path.len(),
{
    let marked = on_path.update(i, true);
    if i == on_path.len() - 1 {
        assert(marked.drop_last() == on_path.drop_last());
    } else {
        lemma_off_path_mark(on_path.drop_last(), i);
        assert(marked.drop_last() == on_path.drop_last().update(i, true));
    }
}

/// No more values are unmarked than there are values.
proof fn lemma_off_path_bound(on_path: Seq<bool>)
    ensures
        off_path(on_path) <= on_path.len(),
    decreases on_path.len(),
{
    if on_path.len() > 0 {
        lemma_off_path_bound(on_path.drop_last());
    }
}

/// The path above a value that nothing holds: none of `n` values is on it.
pub open spec fn empty_path(n: nat) -> Seq<bool> {
    Seq::new(n, |i: int| false)
}

/// The text of the value `root` printed on its own: at depth zero, held by
/// nothing, with a unit of nesting for every value of the graph.
pub open spec fn show_root(g: Seq<NodeView>, root: usize, m: MarkersView) -> Seq<char> {
    show(g, root, 0, empty_path(g.len()), false, m, g.len())
}

/// The texts of a line that logs the values `roots`: each printed on its
/// own.
pub open spec fn log_texts(g: Seq<NodeView>, roots: Seq<usize>, m: MarkersView) -> Seq<
    Seq<char>,
> {
    Seq::new(roots.len(), |i: int| show_root(g, roots[i], m))
}

impl ValueGraph {
    /// Prints the value `id` into a string. The marks are changed while the
    /// parts of the value are printed and are as they were at the end.
    fn show_node(
        &self,
        id: usize,
        depth: usize,
        on_path: &mut Vec<bool>,
        member: bool,
        markers: &Markers,
        Ghost(fuel): Ghost<nat>,
    ) -> (r: String)
        requires
            self.wf(),
            id < self@.len(),
            old(on_path).len() == self@.len(),
            off_path(old(on_path)@) <= fuel,
            depth + fuel <= usize::MAX,
        ensures
            final(on_path)@ == old(on_path)@,
            r@ == show(self@, id, depth as nat, old(on_path)@, member, markers@, fuel),
        decreases fuel, 0nat,
    {
        let ghost g = self@;
        assert(g[id as int] == self.nodes[id as int]@);
        assert(g[id as int].fits(g.len()));
        match &self.nodes[id] {
            Node::Null => markers.null.clone(),
            Node::Boolean(b) => if *b {
                yellow("true")
            } else {
                yellow("false")
            },
            Node::Number(n) => yellow(n.as_str()),
            Node::Text(t) => {
                if member {
                    let mut quoted = String::from_str("\"");
                    quoted.append(t.as_str());
                    quoted.append("\"");
                    green(quoted.as_str())
                } else {
                    t.clone()
                }
            },
            Node::Function(name) => {
                let mut label = String::from_str("[Function: ");
                if name.as_str().is_empty() {
                    label.append("<anonymous>");
                } else {
                    label.append(name.as_str());
                }
                label.append("]");
                let strong = bold(label.as_str());
                cyan(strong.as_str())
            },
            Node::Array(items) => {
                if on_path[id] {
                    return markers.circular.clone();
                }
                if items.len() == 0 {
                    return String::from_str("[]");
                }
                proof {
                    lemma_off_path_mark(on_path@, id as int);
                }
                on_path.set(id, true);
                let parts = self.show_parts(
                    items,
                    depth + 1,
                    on_path,
                    markers,
                    Ghost((fuel - 1) as nat),
                );
                on_path.set(id, false);
                assert(on_path@ =~= old(on_path)@);
                layout(&parts, depth, false)
            },
            Node::Object(keys, values) => {
                if on_path[id] {
                    return markers.circular.clone();
                }
                if keys.len() == 0 {
                    return String::from_str("{}");
                }
                proof {
                    lemma_off_path_mark(on_path@, id as int);
                }
                on_path.set(id, true);
                let parts = self.show_parts(
                    values,
                    depth + 1,
                    on_path,
                    markers,
                    Ghost((fuel - 1) as nat),
                );
                on_path.set(id, false);
                assert(on_path@ =~= old(on_path)@);
                let ghost want = entries_of(views_of(keys@), views_of(parts@));
                let mut entries: Vec<String> = Vec::new();
                let mut k: usize = 0;
                while k < keys.len()
                    invariant
                        k <= keys.len(),
                        keys.len() == parts.len(),
                        want == entries_of(views_of(keys@), views_of(parts@)),
                        views_of(entries@) == want.take(k as int),
                    decreases keys.len() - k,
                {
                    let mut entry = blue(keys[k].as_str());
                    entry.append(": ");
                    entry.append(parts[k].as_str());
                    proof {
                        assert(views_of(keys@)[k as int] == keys[k as int]@);
                        assert(views_of(parts@)[k as int] == parts[k as int]@);
                        assert(entry@ == want[k as int]);
                    }
                    let ghost so_far = views_of(entries@);
                    let ghost added = entry@;
                    entries.push(entry);
                    k += 1;
                    assert(views_of(entries@) =~= so_far.push(added));
                    assert(so_far.push(added) =~= want.take(k as int));
                }
                assert(want.take(keys.len() as int) == want);
                layout(&entries, depth, true)
            },
            Node::Other(t) => {
                let mut out = indent(depth);
                out.append(t.as_str());
                out
            },
        }
    }

    /// Prints the values `ids` as members, each below the same path.
    fn show_parts(
        &self,
        ids: &Vec<usize>,
        depth: usize,
        on_path: &mut Vec<bool>,
        markers: &Markers,
        Ghost(fuel): Ghost<nat>,
    ) -> (parts: Vec<String>)
        requires
            self.wf(),
            below(ids@, self@.len()),
            old(on_path).len() == self@.len(),
            off_path(old(on_path)@) <= fuel,
            depth + fuel <= usize::MAX,
        ensures
            final(on_path)@ == old(on_path)@,
            parts.len() == ids.len(),
            views_of(parts@) == show_list(
                self@,
                ids@,
                ids.len() as nat,
                depth as nat,
                old(on_path)@,
                markers@,
                fuel,
            ),
        decreases fuel, 1nat,
    {
        let mut parts: Vec<String> = Vec::new();
        let mut k: usize = 0;
        assert(views_of(parts@) =~= Seq::<Seq<char>>::empty());
        while k < ids.len()
            invariant
                k <= ids.len(),
                self.wf(),
                below(ids@, self@.len()),
                on_path@ == old(on_path)@,
                on_path.len() == self@.len(),
                parts.len() == k,
                off_path(old(on_path)@) <= fuel,
                depth + fuel <= usize::MAX,
                views_of(parts@) == show_list(
                    self@,
                    ids@,
                    k as nat,
                    depth as nat,
                    old(on_path)@,
                    markers@,
                    fuel,
                ),
            decreases ids.len() - k,
        {
            let ghost texts = views_of(parts@);
            let one = self.show_node(ids[k], depth, on_path, true, markers, Ghost(fuel));
            parts.push(one);
            k += 1;
            assert(views_of(parts@) =~= texts.push(one@));
        }
        parts
    }

    /// A vector of `n` marks, none set.
    fn fresh_marks(n: usize) -> (marks: Vec<bool>)
        ensures
            marks@ == empty_path(n as nat),
    {
        let mut marks: Vec<bool> = Vec::new();
        let mut i: usize = 0;
        while i < n
            invariant
                i <= n,
                marks@ == empty_path(i as nat),
            decreases n - i,
        {
            marks.push(false);
            i += 1;
            assert(marks@ =~= empty_path(i as nat));
        }
        marks
    }

    /// Prints the value `root` with the given markers: as a top-level value,
    /// at depth zero, held by nothing. `None` for an index that is not in the
    /// graph.
    pub fn inspect_with(&self, root: usize, markers: &Markers) -> (r: Option<String>)
        requires
            self.wf(),
        ensures
            match r {
                Some(text) => root < self@.len() && text@ == show_root(self@, root, markers@),
                None => root >= self@.len(),
            },
    {
        let n = self.nodes.len();
        if root >= n {
            return None;
        }
        let mut on_path = Self::fresh_marks(n);
        proof {
            lemma_off_path_bound(on_path@);
        }
        Some(self.show_node(root, 0, &mut on_path, false, markers, Ghost(n as nat)))
    }

    /// Prints the value `root` as the terminal of this process styles it.
    /// Whatever the terminal, the text is that of `show` for one of the
    /// markers that `for_terminal` allows. `None` for an index that is not in
    /// the graph.
    pub fn inspect(&self, root: usize) -> (r: Option<String>)
        requires
            self.wf(),
        ensures
            match r {
                Some(text) => root < self@.len() && exists|m: MarkersView|
                    m.for_terminal() && text@ == #[trigger] show_root(self@, root, m),
                None => root >= self@.len(),
            },
    {
        let markers = Markers::for_terminal();
        self.inspect_with(root, &markers)
    }

    /// The line that logs the values `roots` with the given markers: each
    /// value printed on its own, with one space between neighbours. `None`
    /// when one of the indices is not in the graph.
    pub fn log_line_with(&self, roots: &Vec<usize>, markers: &Markers) -> (r: Option<String>)
        requires
            self.wf(),
        ensures
            match r {
                Some(line) => below(roots@, self@.len()) && line@ == join_of(
                    log_texts(self@, roots@, markers@),
                    " "@,
                ),
                None => !below(roots@, self@.len()),
            },
    {
        let mut texts: Vec<String> = Vec::new();
        let mut i: usize = 0;
        while i < roots.len()
            invariant
                i <= roots.len(),
                self.wf(),
                below(roots@.take(i as int), self@.len()),
                views_of(texts@) == log_texts(self@, roots@, markers@).take(i as int),
            decreases roots.len() - i,
        {
            match self.inspect_with(roots[i], markers) {
                None => {
                    return None;
                },
                Some(text) => {
                    let ghost so_far = views_of(texts@);
                    texts.push(text);
                    assert(views_of(texts@) =~= so_far.push(text@));
                },
            }
            i += 1;
            assert(views_of(texts@) =~= log_texts(self@, roots@, markers@).take(i as int));
        }
        assert(roots@.take(roots.len() as int) == roots@);
        assert(log_texts(self@, roots@, markers@).take(roots.len() as int) == log_texts(
            self@,
            roots@,
            markers@,
        ));
        Some(join(&texts, " "))
    }

    /// The line that logs the values `roots` as the terminal of this process
    /// styles it. `None` when one of the indices is not in the graph.
    pub fn log_line(&self, roots: &Vec<usize>) -> (r: Option<String>)
        requires
            self.wf(),
        ensures
            match r {
                Some(line) => below(roots@, self@.len()) && exists|m: MarkersView|
                    m.for_terminal() && line@ == join_of(
                        #[trigger] log_texts(self@, roots@, m),
                        " "@,
                    ),
                None => !below(roots@, self@.len()),
            },
    {
        let markers = Markers::for_terminal();
        self.log_line_with(roots, &markers)
    }
}

} // verus!
