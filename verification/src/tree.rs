//! The conversation tree: counting children, measuring how deep a message
//! sits below real forks, and the branch glyph drawn before it.
use vstd::prelude::*;

use crate::text::{lines, split_lines, str_equals};
use vstd::string::StrSliceExecFns;
use crate::types::{MessageNode, NodeModel};

verus! {

/// How many nodes name `parent` as their parent.
pub open spec fn count_children(nodes: Seq<NodeModel>, parent: Seq<char>) -> nat
    decreases nodes.len(),
{
    if nodes.len() == 0 {
        0
    } else {
        count_children(nodes.drop_last(), parent) + (if nodes.last().parent_id == Some(parent) {
            1nat
        } else {
            0nat
        })
    }
}

/// Whether `node` names `parent` as its parent.
fn has_parent(node: &MessageNode, parent: &str) -> (r: bool)
    ensures
        r == (node@.parent_id == Some(parent@)),
{
    match &node.parent_id {
        Some(p) => str_equals(p.as_str(), parent),
        None => false,
    }
}

/// The number of nodes whose parent is `parent_id`.
pub fn child_count(nodes: &[MessageNode], parent_id: &str) -> (r: usize)
    ensures
        r == count_children(nodes.deep_view(), parent_id@),
{
    let ghost all = nodes.deep_view();
    let n = nodes.len();
    let mut count: usize = 0;
    let mut i: usize = 0;
    assert(all.take(0) =~= Seq::<NodeModel>::empty());
    while i < n
        invariant
            i <= n,
            n == nodes@.len(),
            all == nodes.deep_view(),
            count == count_children(all.take(i as int), parent_id@),
            count <= i,
        decreases n - i,
    {
        assert(all.take(i + 1).drop_last() =~= all.take(i as int));
        assert(all.take(i + 1).last() == nodes@[i as int]@);
        if has_parent(&nodes[i], parent_id) {
            count += 1;
        }
        i += 1;
    }
    assert(all.take(n as int) =~= all);
    count
}


/// The index of the first node at or after `from` whose id is `id`, or
/// `nodes.len()` when there is none.
pub open spec fn find_id_from(nodes: Seq<NodeModel>, id: Seq<char>, from: int) -> int
    decreases nodes.len() - from,
{
    if from < 0 || from >= nodes.len() {
        nodes.len() as int
    } else if nodes[from].id == id {
        from
    } else {
        find_id_from(nodes, id, from + 1)
    }
}

/// The index of the first node whose id is `id`, or `nodes.len()`.
pub open spec fn find_id(nodes: Seq<NodeModel>, id: Seq<char>) -> int {
    find_id_from(nodes, id, 0)
}

/// The index of the first node whose id is `id`, or the length of `nodes`.
pub(crate) fn position_of_id(nodes: &[MessageNode], id: &str) -> (r: usize)
    ensures
        r == find_id(nodes.deep_view(), id@),
        r <= nodes@.len(),
{
    let ghost all = nodes.deep_view();
    let n = nodes.len();
    let mut j: usize = 0;
    while j < n
        invariant
            j <= n,
            n == nodes@.len(),
            all == nodes.deep_view(),
            find_id(all, id@) == find_id_from(all, id@, j as int),
        decreases n - j,
    {
        assert(all[j as int] == nodes@[j as int]@);
        if str_equals(nodes[j].id.as_str(), id) {
            return j;
        }
        j += 1;
    }
    n
}

/// Walking up from a node whose parent is `parent`, the number of ancestors
/// with more than one child; the walk stops at a missing parent, and after as
/// many steps as there are nodes.
pub open spec fn fork_depth(nodes: Seq<NodeModel>, parent: Option<Seq<char>>, traversed: nat) -> nat
    decreases nodes.len() - traversed,
{
    match parent {
        None => 0,
        Some(id) => {
            let k = find_id(nodes, id);
            if k >= nodes.len() {
                0
            } else {
                let here: nat = if count_children(nodes, nodes[k].id) > 1 {
                    1
                } else {
                    0
                };
                if traversed + 1 >= nodes.len() {
                    here
                } else {
                    here + fork_depth(nodes, nodes[k].parent_id, traversed + 1)
                }
            }
        },
    }
}

/// How many forks lie above `node`: a linear conversation stays flat and the
/// indentation grows only at an ancestor with several children.
pub fn branch_depth(nodes: &[MessageNode], node: &MessageNode) -> (r: usize)
    ensures
        r == fork_depth(nodes.deep_view(), node@.parent_id, 0),
{
    let ghost all = nodes.deep_view();
    let n = nodes.len();
    let mut depth: usize = 0;
    let mut traversed: usize = 0;
    let mut current: &MessageNode = node;
    loop
        invariant_except_break
            traversed <= n,
            traversed > 0 ==> traversed < n,
            depth <= traversed,
            depth + fork_depth(all, current@.parent_id, traversed as nat) == fork_depth(
                all,
                node@.parent_id,
                0,
            ),
        invariant
            n == nodes@.len(),
            all == nodes.deep_view(),
        ensures
            depth == fork_depth(all, node@.parent_id, 0),
        decreases n - traversed,
    {
        match &current.parent_id {
            None => {
                break ;
            },
            Some(id) => {
                let k = position_of_id(nodes, id.as_str());
                if k >= n {
                    break ;
                }
                let parent = &nodes[k];
                assert(all[k as int] == parent@);
                if child_count(nodes, parent.id.as_str()) > 1 {
                    depth += 1;
                }
                traversed += 1;
                if traversed >= n {
                    break ;
                }
                current = parent;
            },
        }
    }
    depth
}

/// Whether a node after position `index` has `parent` as its parent.
pub open spec fn has_later_sibling(nodes: Seq<NodeModel>, index: int, parent: Seq<char>) -> bool {
    exists|j: int| index < j < nodes.len() && #[trigger] nodes[j].parent_id == Some(parent)
}

/// The glyph drawn before the node at `index`: blank unless its parent has
/// several children, then a tee while a later sibling follows and a corner
/// for the last one.
pub open spec fn branch_glyph(nodes: Seq<NodeModel>, index: int, node: NodeModel) -> Seq<char> {
    match node.parent_id {
        None => "  "@,
        Some(p) => if count_children(nodes, p) <= 1 {
            "  "@
        } else if has_later_sibling(nodes, index, p) {
            "├─"@
        } else {
            "└─"@
        },
    }
}

/// The branch glyph for `node`, which stands at `index` in `nodes`.
pub fn branch_marker(nodes: &[MessageNode], index: usize, node: &MessageNode) -> (r: &'static str)
    requires
        index < usize::MAX,
    ensures
        r@ == branch_glyph(nodes.deep_view(), index as int, node@),
{
    let ghost all = nodes.deep_view();
    let parent_id = match &node.parent_id {
        Some(p) => p.as_str(),
        None => {
            return "  ";
        },
    };
    assert(node@.parent_id == Some(parent_id@));
    if child_count(nodes, parent_id) <= 1 {
        return "  ";
    }
    let n = nodes.len();
    let mut j: usize = index + 1;
    while j < n
        invariant
            index < j,
            n == nodes@.len(),
            all == nodes.deep_view(),
            node@.parent_id == Some(parent_id@),
            count_children(all, parent_id@) > 1,
            forall|k: int| index < k < j && k < n ==> #[trigger] all[k].parent_id != Some(parent_id@),
        decreases n - j,
    {
        assert(all[j as int] == nodes@[j as int]@);
        if has_parent(&nodes[j], parent_id) {
            assert(all[j as int].parent_id == Some(parent_id@));
            assert(has_later_sibling(all, index as int, parent_id@));
            return "├─";
        }
        j += 1;
    }
    "└─"
}


/// One row of the tree panel, in plain values.
#[derive(Clone, Debug, PartialEq, Eq)]
pub struct TreeRow {
    /// The cursor stands on this row.
    pub selected: bool,
    /// The message is the conversation's active leaf.
    pub active: bool,
    /// How many "│ " columns come before the branch glyph.
    pub indent: usize,
    /// The branch glyph.
    pub branch: &'static str,
    /// The user wrote the message.
    pub from_user: bool,
    /// The first characters of the message's first line.
    pub preview: String,
}

/// The mathematical value of a [`TreeRow`].
pub struct TreeRowModel {
    pub selected: bool,
    pub active: bool,
    pub indent: nat,
    pub branch: Seq<char>,
    pub from_user: bool,
    pub preview: Seq<char>,
}

impl DeepView for TreeRow {
    type V = TreeRowModel;

    open spec fn deep_view(&self) -> TreeRowModel {
        TreeRowModel {
            selected: self.selected,
            active: self.active,
            indent: self.indent as nat,
            branch: self.branch@,
            from_user: self.from_user,
            preview: self.preview@,
        }
    }
}

/// How many characters of a message the tree panel shows.
pub const PREVIEW_CHARS: usize = 10;

/// The first line of `content` (empty when there is none), cut to
/// [`PREVIEW_CHARS`] characters.
pub open spec fn preview_of(content: Seq<char>) -> Seq<char> {
    let ls = lines(content);
    let first = if ls.len() > 0 {
        ls[0]
    } else {
        seq![]
    };
    if first.len() <= PREVIEW_CHARS {
        first
    } else {
        first.take(PREVIEW_CHARS as int)
    }
}

/// The row for the node at `index` when `selected` is the cursor and
/// `active_leaf` the conversation's active leaf.
pub open spec fn tree_row(
    nodes: Seq<NodeModel>,
    index: int,
    selected: usize,
    active_leaf: Option<Seq<char>>,
) -> TreeRowModel {
    let node = nodes[index];
    let depth = fork_depth(nodes, node.parent_id, 0);
    TreeRowModel {
        selected: index == selected,
        active: active_leaf == Some(node.id),
        indent: if depth >= 1 {
            (depth - 1) as nat
        } else {
            0
        },
        branch: branch_glyph(nodes, index, node),
        from_user: node.role == "user"@,
        preview: preview_of(node.content),
    }
}

/// The preview text of a message.
pub fn preview(content: &str) -> (r: String)
    ensures
        r@ == preview_of(content@),
{
    let ls = split_lines(content);
    let first: &str = if ls.len() > 0 {
        ls[0]
    } else {
        proof {
            reveal_strlit("");
        }
        let empty: &str = "";
        assert(empty@ =~= Seq::<char>::empty());
        empty
    };
    let n = first.unicode_len();
    let end = if n <= PREVIEW_CHARS {
        n
    } else {
        PREVIEW_CHARS
    };
    let cut = first.substring_char(0, end);
    assert(n <= PREVIEW_CHARS ==> cut@ =~= first@);
    cut.to_owned()
}

/// The rows of the tree panel, one per node, in order.
pub fn tree_rows(nodes: &[MessageNode], selected: usize, active_leaf: &Option<String>) -> (r: Vec<
    TreeRow,
>)
    ensures
        r.deep_view() == Seq::new(
            nodes@.len(),
            |i: int| tree_row(nodes.deep_view(), i, selected, active_leaf.deep_view()),
        ),
{
    let ghost all = nodes.deep_view();
    let n = nodes.len();
    let mut rows: Vec<TreeRow> = Vec::new();
    let mut i: usize = 0;
    while i < n
        invariant
            i <= n,
            n == nodes@.len(),
            all == nodes.deep_view(),
            rows@.len() == i,
            forall|k: int|
                0 <= k < i ==> #[trigger] rows.deep_view()[k] == tree_row(
                    all,
                    k,
                    selected,
                    active_leaf.deep_view(),
                ),
        decreases n - i,
    {
        let node = &nodes[i];
        assert(all[i as int] == node@);
        let depth = branch_depth(nodes, node);
        let active = match active_leaf {
            Some(leaf) => str_equals(leaf.as_str(), node.id.as_str()),
            None => false,
        };
        let row = TreeRow {
            selected: i == selected,
            active,
            indent: depth.saturating_sub(1),
            branch: branch_marker(nodes, i, node),
            from_user: str_equals(node.role.as_str(), "user"),
            preview: preview(node.content.as_str()),
        };
        assert(row.deep_view() == tree_row(all, i as int, selected, active_leaf.deep_view()));
        let ghost before = rows.deep_view();
        rows.push(row);
        assert(rows.deep_view() =~= before.push(row.deep_view()));
        i += 1;
    }
    assert(rows.deep_view() =~= Seq::new(
        nodes@.len(),
        |i: int| tree_row(all, i, selected, active_leaf.deep_view()),
    ));
    rows
}

/// The first row the tree panel shows so that the cursor stays in a view
/// `height` rows high; kept to the low 16 bits.
pub open spec fn tree_scroll_of(selected: usize, height: usize) -> u16 {
    if selected >= height && height > 0 {
        (selected - height + 1) as u16
    } else {
        0
    }
}

pub fn tree_scroll(selected: usize, height: usize) -> (r: u16)
    ensures
        r == tree_scroll_of(selected, height),
{
    if selected >= height && height > 0 {
        (selected - height + 1) as u16
    } else {
        0
    }
}

} // verus!
