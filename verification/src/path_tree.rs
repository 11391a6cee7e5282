//! The directory tree of the summary reports: each path inserted component
//! by component, siblings kept in name order, as a `BTreeMap` of names
//! would keep them.
use vstd::prelude::*;

use crate::text::{lemma_lex_lt_total, lemma_lex_lt_transitive, lex_less, lex_lt, push_char, push_str, str_equal, texts};
use crate::utils::{capped_width, display_width, spaces};

verus! {

/// A node of the tree: a name, the entry that ends at it (by position), and
/// its children in name order.
pub struct TreeNode {
    pub name: String,
    pub entry: Option<usize>,
    pub children: Vec<TreeNode>,
}

/// A node as a mathematical value.
pub struct NodeModel {
    pub name: Seq<char>,
    pub entry: Option<usize>,
    pub children: Seq<NodeModel>,
}

/// The model of a node.
pub open spec fn node_model(n: TreeNode) -> NodeModel
    decreases n, 0nat,
{
    NodeModel { name: n.name@, entry: n.entry, children: nodes_model(n.children@) }
}

/// The models of a list of nodes.
pub open spec fn nodes_model(s: Seq<TreeNode>) -> Seq<NodeModel>
    decreases s, 1nat,
{
    if s.len() == 0 {
        Seq::empty()
    } else {
        nodes_model(s.drop_last()).push(node_model(s.last()))
    }
}

/// The models of a list of nodes, element by element.
pub proof fn lemma_nodes_model(s: Seq<TreeNode>)
    ensures
        nodes_model(s).len() == s.len(),
        forall|k: int| 0 <= k < s.len() ==> #[trigger] nodes_model(s)[k] == node_model(s[k]),
    decreases s.len(),
{
    if s.len() > 0 {
        lemma_nodes_model(s.drop_last());
    }
}

/// The first position among name-ordered siblings, from `i` on, whose name
/// is not before `name`.
pub open spec fn slot_from(children: Seq<NodeModel>, name: Seq<char>, i: int) -> int
    decreases children.len() - i,
{
    if i < 0 || i >= children.len() {
        children.len() as int
    } else if lex_lt(children[i].name, name) {
        slot_from(children, name, i + 1)
    } else {
        i
    }
}

/// A fresh node.
pub open spec fn leaf(name: Seq<char>) -> NodeModel {
    NodeModel { name, entry: None, children: Seq::empty() }
}

/// Inserts the path `parts` below a list of name-ordered siblings: the node
/// of each component is found or created in its place, and the node of the
/// last component records the entry (replacing an earlier one).
pub open spec fn insert_model(children: Seq<NodeModel>, parts: Seq<Seq<char>>, entry: usize) -> Seq<NodeModel>
    decreases parts.len(),
{
    if parts.len() == 0 {
        children
    } else {
        let name = parts[0];
        let i = slot_from(children, name, 0);
        let found = 0 <= i < children.len() && children[i].name == name;
        let node = if found { children[i] } else { leaf(name) };
        let updated = if parts.len() == 1 {
            NodeModel { name: node.name, entry: Some(entry), children: node.children }
        } else {
            NodeModel { name: node.name, entry: node.entry, children: insert_model(node.children, parts.drop_first(), entry) }
        };
        if found { children.update(i, updated) } else { children.insert(i, updated) }
    }
}

/// The tree of a list of paths, each with the position of its entry,
/// inserted in order.
pub open spec fn tree_model(paths: Seq<(Seq<Seq<char>>, usize)>) -> Seq<NodeModel>
    decreases paths.len(),
{
    if paths.len() == 0 {
        Seq::empty()
    } else {
        insert_model(tree_model(paths.drop_last()), paths.last().0, paths.last().1)
    }
}

/// Siblings in strictly increasing name order, at every level: each name
/// once among its siblings, as in a map keyed by name.
pub open spec fn well_ordered(ns: Seq<NodeModel>) -> bool
    decreases ns,
{
    &&& forall|i: int, j: int| 0 <= i < j < ns.len() ==> lex_lt(#[trigger] ns[i].name, #[trigger] ns[j].name)
    &&& forall|i: int| 0 <= i < ns.len() ==> well_ordered(#[trigger] ns[i].children)
}

/// The slot of a name: every sibling before it has a smaller name, and the
/// sibling at it, if any, does not.
proof fn lemma_slot(children: Seq<NodeModel>, name: Seq<char>, i: int)
    requires
        0 <= i,
    ensures
        i <= children.len() ==> i <= slot_from(children, name, i) <= children.len(),
        forall|k: int| i <= k < slot_from(children, name, i) ==> lex_lt(#[trigger] children[k].name, name),
        slot_from(children, name, i) < children.len() ==> !lex_lt(children[slot_from(children, name, i)].name, name),
    decreases children.len() - i,
{
    if i < children.len() && lex_lt(children[i].name, name) {
        lemma_slot(children, name, i + 1);
    }
}

/// Inserting a path keeps siblings in name order at every level.
pub proof fn lemma_insert_keeps_order(children: Seq<NodeModel>, parts: Seq<Seq<char>>, entry: usize)
    requires
        well_ordered(children),
    ensures
        well_ordered(insert_model(children, parts, entry)),
    decreases parts.len(),
{
    if parts.len() > 0 {
        let name = parts[0];
        let i = slot_from(children, name, 0);
        lemma_slot(children, name, 0);
        let found = 0 <= i < children.len() && children[i].name == name;
        let node = if found { children[i] } else { leaf(name) };
        if parts.len() > 1 {
            if found {
                assert(well_ordered(node.children));
            } else {
                assert(well_ordered(node.children)) by {
                    assert(node.children =~= Seq::<NodeModel>::empty());
                }
            }
            lemma_insert_keeps_order(node.children, parts.drop_first(), entry);
        } else if !found {
            assert(well_ordered(node.children)) by {
                assert(node.children =~= Seq::<NodeModel>::empty());
            }
        }
        let updated = if parts.len() == 1 {
            NodeModel { name: node.name, entry: Some(entry), children: node.children }
        } else {
            NodeModel { name: node.name, entry: node.entry, children: insert_model(node.children, parts.drop_first(), entry) }
        };
        assert(well_ordered(updated.children));
        let r = insert_model(children, parts, entry);
        if found {
            assert(r == children.update(i, updated));
            assert forall|a: int, b: int| 0 <= a < b < r.len() implies lex_lt(#[trigger] r[a].name, #[trigger] r[b].name) by {
                assert(children[a].name == r[a].name && children[b].name == r[b].name);
            }
            assert forall|a: int| 0 <= a < r.len() implies well_ordered(#[trigger] r[a].children) by {
                if a != i {
                    assert(r[a] == children[a]);
                }
            }
        } else {
            assert(r == children.insert(i, updated));
            if i < children.len() {
                lemma_lex_lt_total(children[i].name, name);
            }
            assert forall|a: int, b: int| 0 <= a < b < r.len() implies lex_lt(#[trigger] r[a].name, #[trigger] r[b].name) by {
                if b < i {
                    assert(r[a] == children[a] && r[b] == children[b]);
                } else if b == i {
                    assert(r[a] == children[a]);
                } else if a == i {
                    assert(r[b] == children[b - 1]);
                    if b - 1 > i {
                        lemma_lex_lt_transitive(name, children[i].name, children[b - 1].name);
                    }
                } else if a < i {
                    assert(r[a] == children[a] && r[b] == children[b - 1]);
                    if a < b - 1 {
                    } else {
                        assert(false);
                    }
                } else {
                    assert(r[a] == children[a - 1] && r[b] == children[b - 1]);
                }
            }
            assert forall|a: int| 0 <= a < r.len() implies well_ordered(#[trigger] r[a].children) by {
                if a < i {
                    assert(r[a] == children[a]);
                } else if a > i {
                    assert(r[a] == children[a - 1]);
                }
            }
        }
    }
}

/// The tree of any list of paths has its siblings in name order.
pub proof fn lemma_tree_well_ordered(paths: Seq<(Seq<Seq<char>>, usize)>)
    ensures
        well_ordered(tree_model(paths)),
    decreases paths.len(),
{
    if paths.len() > 0 {
        lemma_tree_well_ordered(paths.drop_last());
        lemma_insert_keeps_order(tree_model(paths.drop_last()), paths.last().0, paths.last().1);
    } else {
        assert(tree_model(paths) =~= Seq::<NodeModel>::empty());
    }
}

fn find_slot(children: &Vec<TreeNode>, name: &str) -> (r: usize)
    ensures
        r == slot_from(nodes_model(children@), name@, 0),
        r <= children@.len(),
{
    proof {
        lemma_nodes_model(children@);
    }
    let ghost m = nodes_model(children@);
    let mut i: usize = 0;
    while i < children.len()
        invariant
            i <= children@.len(),
            m == nodes_model(children@),
            m.len() == children@.len(),
            forall|k: int| 0 <= k < children@.len() ==> #[trigger] m[k] == node_model(children@[k]),
            slot_from(m, name@, i as int) == slot_from(m, name@, 0),
        decreases children@.len() - i,
    {
        assert(m[i as int].name == children@[i as int].name@);
        if !lex_less(children[i].name.as_str(), name) {
            return i;
        }
        i = i + 1;
    }
    i
}

/// Inserts the path `parts[from..]` with its entry below the given siblings.
pub fn insert_into_tree(children: &mut Vec<TreeNode>, parts: &Vec<String>, from: usize, entry: usize)
    requires
        from <= parts@.len(),
    ensures
        nodes_model(final(children)@) == insert_model(nodes_model(old(children)@), texts(parts@).skip(from as int), entry),
    decreases parts@.len() - from,
{
    let ghost before = nodes_model(children@);
    let ghost ps = texts(parts@).skip(from as int);
    proof {
        lemma_nodes_model(children@);
    }
    if from >= parts.len() {
        proof {
            assert(ps.len() == 0);
        }
        return;
    }
    let name = parts[from].as_str();
    proof {
        assert(ps[0] == parts@[from as int]@);
    }
    let i = find_slot(children, name);
    let found = i < children.len() && str_equal(children[i].name.as_str(), name);
    proof {
        if i < children@.len() {
            assert(before[i as int] == node_model(children@[i as int]));
        }
    }
    let ghost old_children = children@;
    let mut node = if found {
        children.remove(i)
    } else {
        TreeNode { name: name.to_owned(), entry: None, children: Vec::new() }
    };
    proof {
        if found {
            assert(node == old_children[i as int]);
            assert(node_model(node) == before[i as int]);
        } else {
            assert(nodes_model(node.children@) =~= Seq::<NodeModel>::empty());
            assert(node_model(node) == leaf(ps[0]));
        }
    }
    let ghost node_before = node_model(node);
    if from + 1 == parts.len() {
        node.entry = Some(entry);
        proof {
            assert(ps.len() == 1);
        }
    } else {
        insert_into_tree(&mut node.children, parts, from + 1, entry);
        proof {
            assert(texts(parts@).skip(from + 1) =~= ps.drop_first());
        }
    }
    let ghost node_after = node_model(node);
    let ghost mid = children@;
    children.insert(i, node);
    proof {
        lemma_nodes_model(children@);
        lemma_nodes_model(mid);
        let expected = insert_model(before, ps, entry);
        if found {
            assert(mid =~= old_children.remove(i as int));
            assert(children@ =~= old_children.update(i as int, children@[i as int]));
            assert(nodes_model(children@) =~= before.update(i as int, node_after));
        } else {
            assert(mid == old_children);
            assert(nodes_model(children@) =~= before.insert(i as int, node_after));
        }
        assert(nodes_model(children@) == expected);
    }
}


/// Which report draws the tree: the two-way summary ends a line without an
/// entry with `/` (a directory with children) or nothing; the three-way one
/// leaves such lines bare.
#[derive(Debug, Clone, Copy, PartialEq, Eq, Structural)]
pub enum Flavor {
    TwoWay,
    ThreeWay,
}

/// What the tree shows of each entry, by position: the text after its path
/// (its status tag), and whether it is a directory.
pub open spec fn text_at(tags: Seq<Seq<char>>, e: usize) -> Seq<char> {
    if e < tags.len() { tags[e as int] } else { Seq::empty() }
}

/// Whether the entry at a position is a directory.
pub open spec fn dir_at(dirs: Seq<bool>, e: usize) -> bool {
    e < dirs.len() && dirs[e as int]
}

/// The name of a node as drawn: with `/` when its entry is a directory.
pub open spec fn drawn_name(n: NodeModel, dirs: Seq<bool>) -> Seq<char> {
    match n.entry {
        Some(e) => if dir_at(dirs, e) { n.name + "/"@ } else { n.name },
        None => n.name,
    }
}

/// The connector before a node: none at the top level, else a branch, the
/// last sibling's bending down-right.
pub open spec fn connector(is_root: bool, last: bool) -> Seq<char> {
    if is_root { Seq::empty() } else if last { "└── "@ } else { "├── "@ }
}

/// The prefix of a node's children: a top-level node passes its own on;
/// the last sibling passes five spaces, others a bar and three spaces (both
/// five columns wide).
pub open spec fn child_prefix(prefix: Seq<char>, is_root: bool, last: bool) -> Seq<char> {
    if is_root { prefix } else if last { prefix + "     "@ } else { prefix + "│   "@ }
}

/// One line of the tree.
pub open spec fn tree_line(
    n: NodeModel,
    path: Seq<char>,
    flavor: Flavor,
    console: bool,
    max_width: usize,
    tags: Seq<Seq<char>>,
    dirs: Seq<bool>,
) -> Seq<char> {
    let bare: Seq<char> = if flavor == Flavor::TwoWay {
        if n.children.len() > 0 { "/"@ } else { Seq::empty() }
    } else {
        " "@
    };
    match n.entry {
        Some(e) => if !console && max_width > 0 {
            let w = capped_width(path);
            path + spaces(if w < max_width { (max_width - w) as nat } else { 0 }) + " "@ + text_at(tags, e) + "\n"@
        } else {
            path + " "@ + text_at(tags, e) + "\n"@
        },
        None => if !console && flavor == Flavor::ThreeWay { path + "\n"@ } else { path + " "@ + bare + "\n"@ },
    }
}

/// The lines of the nodes from position `i` on, each followed by its
/// children's lines, depth first.
#[verifier::opaque]
pub open spec fn render_from(
    nodes: Seq<NodeModel>,
    i: int,
    prefix: Seq<char>,
    is_root: bool,
    flavor: Flavor,
    console: bool,
    max_width: usize,
    tags: Seq<Seq<char>>,
    dirs: Seq<bool>,
) -> Seq<char>
    decreases nodes, nodes.len() - i,
{
    if i < 0 || i >= nodes.len() {
        Seq::empty()
    } else {
        let n = nodes[i];
        let last = i == nodes.len() - 1;
        let path = prefix + connector(is_root, last) + drawn_name(n, dirs);
        let below = if n.children.len() > 0 {
            render_from(n.children, 0, child_prefix(prefix, is_root, last), false, flavor, console, max_width, tags, dirs)
        } else {
            Seq::empty()
        };
        tree_line(n, path, flavor, console, max_width, tags, dirs) + below + render_from(
            nodes,
            i + 1,
            prefix,
            is_root,
            flavor,
            console,
            max_width,
            tags,
            dirs,
        )
    }
}

/// The lines of the nodes below a node.
pub open spec fn below_lines(
    n: NodeModel,
    prefix: Seq<char>,
    is_root: bool,
    last: bool,
    flavor: Flavor,
    console: bool,
    max_width: usize,
    tags: Seq<Seq<char>>,
    dirs: Seq<bool>,
) -> Seq<char> {
    if n.children.len() > 0 {
        render_from(n.children, 0, child_prefix(prefix, is_root, last), false, flavor, console, max_width, tags, dirs)
    } else {
        Seq::empty()
    }
}

/// One step of drawing: a node's line, the lines below it, then the rest.
pub proof fn lemma_render_step(
    nodes: Seq<NodeModel>,
    i: int,
    prefix: Seq<char>,
    is_root: bool,
    flavor: Flavor,
    console: bool,
    max_width: usize,
    tags: Seq<Seq<char>>,
    dirs: Seq<bool>,
)
    requires
        0 <= i < nodes.len(),
    ensures
        render_from(nodes, i, prefix, is_root, flavor, console, max_width, tags, dirs) == tree_line(
            nodes[i],
            prefix + connector(is_root, i == nodes.len() - 1) + drawn_name(nodes[i], dirs),
            flavor,
            console,
            max_width,
            tags,
            dirs,
        ) + below_lines(nodes[i], prefix, is_root, i == nodes.len() - 1, flavor, console, max_width, tags, dirs)
            + render_from(nodes, i + 1, prefix, is_root, flavor, console, max_width, tags, dirs),
{
    reveal(render_from);
}

/// Drawing past the last node gives nothing.
pub proof fn lemma_render_end(
    nodes: Seq<NodeModel>,
    prefix: Seq<char>,
    is_root: bool,
    flavor: Flavor,
    console: bool,
    max_width: usize,
    tags: Seq<Seq<char>>,
    dirs: Seq<bool>,
)
    ensures
        render_from(nodes, nodes.len() as int, prefix, is_root, flavor, console, max_width, tags, dirs) == Seq::<char>::empty(),
{
    reveal(render_from);
}

/// The widest drawn path of a node with an entry, from position `i` on and
/// below, as `display_width` measures it.
pub open spec fn widest_from(nodes: Seq<NodeModel>, i: int, prefix: Seq<char>, is_root: bool, dirs: Seq<bool>) -> usize
    decreases nodes, nodes.len() - i,
{
    if i < 0 || i >= nodes.len() {
        0
    } else {
        let n = nodes[i];
        let last = i == nodes.len() - 1;
        let own: usize = if n.entry is Some {
            capped_width(prefix + connector(is_root, last) + drawn_name(n, dirs))
        } else {
            0
        };
        let below: usize = if n.children.len() > 0 {
            widest_from(n.children, 0, child_prefix(prefix, is_root, last), false, dirs)
        } else {
            0
        };
        let rest = widest_from(nodes, i + 1, prefix, is_root, dirs);
        let m: usize = if own > below { own } else { below };
        if m > rest { m } else { rest }
    }
}

fn drawn_path(n: &TreeNode, prefix: &str, is_root: bool, last: bool, dirs: &Vec<bool>) -> (r: String)
    ensures
        r@ == prefix@ + connector(is_root, last) + drawn_name(node_model(*n), dirs@),
{
    let mut p = prefix.to_owned();
    if !is_root {
        if last {
            push_str(&mut p, "└── ");
        } else {
            push_str(&mut p, "├── ");
        }
    }
    push_str(&mut p, n.name.as_str());
    let slash = match n.entry {
        Some(e) => e < dirs.len() && dirs[e],
        None => false,
    };
    if slash {
        push_str(&mut p, "/");
    }
    proof {
        reveal_strlit("└── ");
        reveal_strlit("├── ");
        assert(p@ =~= prefix@ + connector(is_root, last) + drawn_name(node_model(*n), dirs@));
    }
    p
}

fn next_prefix(prefix: &str, is_root: bool, last: bool) -> (r: String)
    ensures
        r@ == child_prefix(prefix@, is_root, last),
{
    let mut p = prefix.to_owned();
    if !is_root {
        if last {
            push_str(&mut p, "     ");
        } else {
            push_str(&mut p, "│   ");
        }
    }
    p
}

/// The widest drawn path of a node with an entry, in the given siblings and
/// below.
pub fn calculate_max_path_width(nodes: &Vec<TreeNode>, prefix: &str, is_root: bool, dirs: &Vec<bool>) -> (r: usize)
    ensures
        r == widest_from(nodes_model(nodes@), 0, prefix@, is_root, dirs@),
    decreases nodes@,
{
    proof {
        lemma_nodes_model(nodes@);
    }
    let ghost m = nodes_model(nodes@);
    let mut best: usize = 0;
    let mut i: usize = 0;
    let count = nodes.len();
    while i < count
        invariant
            i <= count == nodes@.len(),
            m == nodes_model(nodes@),
            m.len() == count,
            forall|k: int| 0 <= k < count ==> #[trigger] m[k] == node_model(nodes@[k]),
            widest_from(m, 0, prefix@, is_root, dirs@) == (if best > widest_from(m, i as int, prefix@, is_root, dirs@) {
                best
            } else {
                widest_from(m, i as int, prefix@, is_root, dirs@)
            }),
        decreases count - i,
    {
        let n = &nodes[i];
        let last = i == count - 1;
        proof {
            assert(m[i as int] == node_model(*n));
            lemma_nodes_model(n.children@);
        }
        if n.entry.is_some() {
            let path = drawn_path(n, prefix, is_root, last, dirs);
            let w = display_width(path.as_str());
            if w > best {
                best = w;
            }
        }
        if n.children.len() > 0 {
            let np = next_prefix(prefix, is_root, last);
            let child = calculate_max_path_width(&n.children, np.as_str(), false, dirs);
            if child > best {
                best = child;
            }
        }
        i = i + 1;
    }
    best
}

fn push_line(
    out: &mut String,
    n: &TreeNode,
    path: &str,
    flavor: Flavor,
    console: bool,
    max_width: usize,
    tags: &Vec<String>,
    dirs: &Vec<bool>,
)
    ensures
        final(out)@ == old(out)@ + tree_line(node_model(*n), path@, flavor, console, max_width, texts(tags@), dirs@),
{
    let ghost tv = texts(tags@);
    let ghost out0 = out@;
    proof {
        lemma_nodes_model(n.children@);
    }
    match n.entry {
        Some(e) => {
            let tag: &str = if e < tags.len() { tags[e].as_str() } else { "" };
            proof {
                reveal_strlit("");
                assert(""@ =~= Seq::<char>::empty());
                if e < tags.len() {
                    assert(tv[e as int] == tags@[e as int]@);
                }
                assert(tag@ == text_at(tv, e));
            }
            push_str(out, path);
            if !console && max_width > 0 {
                let w = display_width(path);
                let pad: usize = if w < max_width { max_width - w } else { 0 };
                let mut k: usize = 0;
                let ghost base = out@;
                while k < pad
                    invariant
                        k <= pad,
                        out@ == base + spaces(k as nat),
                    decreases pad - k,
                {
                    push_char(out, ' ');
                    proof {
                        assert(base + spaces((k + 1) as nat) =~= (base + spaces(k as nat)).push(' '));
                    }
                    k = k + 1;
                }
            }
            push_str(out, " ");
            push_str(out, tag);
            push_str(out, "\n");
        },
        None => {
            push_str(out, path);
            if !console && flavor == Flavor::ThreeWay {
                push_str(out, "\n");
            } else {
                push_str(out, " ");
                if flavor == Flavor::TwoWay {
                    if n.children.len() > 0 {
                        push_str(out, "/");
                    }
                } else {
                    push_str(out, " ");
                }
                push_str(out, "\n");
            }
        },
    }
    proof {
        assert(out@ =~= out0 + tree_line(node_model(*n), path@, flavor, console, max_width, tv, dirs@));
    }
}

/// Draws the given siblings and their descendants.
#[verifier::rlimit(80)]
pub fn render_tree(
    nodes: &Vec<TreeNode>,
    prefix: &str,
    is_root: bool,
    flavor: Flavor,
    console: bool,
    max_width: usize,
    tags: &Vec<String>,
    dirs: &Vec<bool>,
) -> (r: String)
    ensures
        r@ == render_from(nodes_model(nodes@), 0, prefix@, is_root, flavor, console, max_width, texts(tags@), dirs@),
    decreases nodes@,
{
    proof {
        lemma_nodes_model(nodes@);
    }
    let ghost m = nodes_model(nodes@);
    let ghost tv = texts(tags@);
    let mut out = String::new();
    let mut i: usize = 0;
    let count = nodes.len();
    while i < count
        invariant
            i <= count == nodes@.len(),
            m == nodes_model(nodes@),
            tv == texts(tags@),
            m.len() == count,
            forall|k: int| 0 <= k < count ==> #[trigger] m[k] == node_model(nodes@[k]),
            out@ + render_from(m, i as int, prefix@, is_root, flavor, console, max_width, tv, dirs@) == render_from(
                m,
                0,
                prefix@,
                is_root,
                flavor,
                console,
                max_width,
                tv,
                dirs@,
            ),
        decreases count - i,
    {
        let n = &nodes[i];
        let last = i == count - 1;
        proof {
            assert(m[i as int] == node_model(*n));
            lemma_nodes_model(n.children@);
        }
        let ghost out0 = out@;
        let path = drawn_path(n, prefix, is_root, last, dirs);
        push_line(&mut out, n, path.as_str(), flavor, console, max_width, tags, dirs);
        proof {
            assert(out@ == out0 + tree_line(m[i as int], path@, flavor, console, max_width, tv, dirs@));
        }
        let ghost out1 = out@;
        if n.children.len() > 0 {
            let np = next_prefix(prefix, is_root, last);
            let sub = render_tree(&n.children, np.as_str(), false, flavor, console, max_width, tags, dirs);
            push_str(&mut out, sub.as_str());
        }
        proof {
            lemma_render_step(m, i as int, prefix@, is_root, flavor, console, max_width, tv, dirs@);
            assert(out@ =~= out1 + below_lines(m[i as int], prefix@, is_root, last, flavor, console, max_width, tv, dirs@));
            assert(out0 + render_from(m, i as int, prefix@, is_root, flavor, console, max_width, tv, dirs@) =~= out@
                + render_from(m, i + 1, prefix@, is_root, flavor, console, max_width, tv, dirs@));
        }
        i = i + 1;
    }
    proof {
        lemma_render_end(m, prefix@, is_root, flavor, console, max_width, tv, dirs@);
    }
    out
}
} // verus!
