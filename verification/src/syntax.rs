//! Complexity metrics computed from the nodes of a syntax tree, listed in
//! pre-order with their depth below the root.

use vstd::prelude::*;

use crate::model::ComplexityMetrics;
use crate::text::{contains_str, has_infix, same_str};

verus! {

broadcast use vstd::std_specs::hash::group_hash_axioms;

/// One node of a syntax tree: its kind, whether it is named, the row it starts
/// on and its depth below the root (the root has depth 0).
#[derive(Debug, Clone)]
pub struct SyntaxNode {
    /// The node's kind, such as `function_item`.
    pub kind: String,
    /// Named nodes stand for grammar rules, anonymous ones for literal tokens.
    pub is_named: bool,
    /// The row (0-based) where the node starts.
    pub start_row: usize,
    /// Depth below the root.
    pub depth: u32,
}

/// A syntax node as a plain value.
pub type NodeView = (Seq<char>, bool, usize, u32);

impl View for SyntaxNode {
    type V = NodeView;

    open spec fn view(&self) -> NodeView {
        (self.kind@, self.is_named, self.start_row, self.depth)
    }
}

/// The plain values of a node list.
pub open spec fn nodes_view(v: Seq<SyntaxNode>) -> Seq<NodeView> {
    v.map_values(|n: SyntaxNode| n@)
}

/// Kinds that declare a function or method.
pub open spec fn is_function_kind(k: Seq<char>) -> bool {
    k == "function_item"@ || k == "function_declaration"@ || k == "method_definition"@
}

/// Kinds that add a branch to the control flow.
pub open spec fn is_branch_kind(k: Seq<char>) -> bool {
    k == "if_expression"@ || k == "if_statement"@ || k == "while_statement"@ || k
        == "for_statement"@
}

/// Number of function nodes.
pub open spec fn function_count(v: Seq<NodeView>) -> nat
    decreases v.len(),
{
    if v.len() == 0 {
        0
    } else {
        function_count(v.drop_last()) + if is_function_kind(v.last().0) {
            1nat
        } else {
            0nat
        }
    }
}

/// Number of branching nodes.
pub open spec fn branch_count(v: Seq<NodeView>) -> nat
    decreases v.len(),
{
    if v.len() == 0 {
        0
    } else {
        branch_count(v.drop_last()) + if is_branch_kind(v.last().0) {
            1nat
        } else {
            0nat
        }
    }
}

/// The greatest depth of any node (0 when there is none).
pub open spec fn max_depth(v: Seq<NodeView>) -> u32
    decreases v.len(),
{
    if v.len() == 0 {
        0
    } else if v.last().3 > max_depth(v.drop_last()) {
        v.last().3
    } else {
        max_depth(v.drop_last())
    }
}

/// A node that is left out of the line count together with everything below
/// it: an anonymous node or a comment.
pub open spec fn excludes_subtree(n: NodeView) -> bool {
    !n.1 || has_infix(n.0, "comment"@)
}

/// Node `i` lies in the subtree of node `j`: every node from `j` (exclusive) to
/// `i` (inclusive) is deeper than `j`.
pub open spec fn in_subtree(v: Seq<NodeView>, j: int, i: int) -> bool {
    0 <= j <= i < v.len() && forall|k: int| j < k <= i ==> #[trigger] v[k].3 > v[j].3
}

/// The shape of a tree's nodes listed in pre-order: the root comes first, at
/// depth 0; every later node lies below the root and is at most one level
/// deeper than the node listed before it.
pub open spec fn is_preorder_shape(v: Seq<NodeView>) -> bool {
    &&& v.len() >= 1
    &&& v[0].3 == 0
    &&& forall|i: int| 1 <= i < v.len() ==> 1 <= #[trigger] v[i].3 <= v[i - 1].3 + 1
}

/// Node `i` counts towards the lines of code: neither it nor any node whose
/// subtree holds it is excluded.
pub open spec fn counted(v: Seq<NodeView>, i: int) -> bool {
    !exists|j: int| #![trigger v[j]] in_subtree(v, j, i) && excludes_subtree(v[j])
}

/// The rows on which the counted nodes among the first `n` start.
pub open spec fn counted_rows_upto(v: Seq<NodeView>, n: int) -> Set<usize> {
    Set::new(|r: usize| exists|i: int| 0 <= i < n && counted(v, i) && #[trigger] v[i].2 == r)
}

/// The rows on which counted nodes start.
pub open spec fn counted_rows(v: Seq<NodeView>) -> Set<usize> {
    counted_rows_upto(v, v.len() as int)
}

/// The metrics of a node list: branches, distinct rows of counted nodes,
/// functions and the greatest depth.
pub open spec fn metrics_of(v: Seq<NodeView>) -> ComplexityMetrics {
    ComplexityMetrics {
        cyclomatic_complexity: branch_count(v) as u32,
        lines_of_code: counted_rows(v).len() as u32,
        function_count: function_count(v) as u32,
        max_nesting_depth: max_depth(v),
    }
}

/// The counts of a node list fit in a `u32`.
pub open spec fn counts_fit(v: Seq<NodeView>) -> bool {
    function_count(v) <= u32::MAX && branch_count(v) <= u32::MAX
}

/// The smallest depth among the excluded nodes whose subtree is still open
/// before node `i` is read (the state of a pre-order walk).
pub open spec fn open_exclusion(v: Seq<NodeView>, i: int) -> Option<u32>
    decreases i,
{
    if i <= 0 {
        None
    } else {
        let n = v[i - 1];
        match open_exclusion(v, i - 1) {
            Some(d) if n.3 > d => Some(d),
            _ => if excludes_subtree(n) {
                Some(n.3)
            } else {
                None
            },
        }
    }
}

proof fn lemma_open_exclusion(v: Seq<NodeView>, i: int)
    requires
        0 <= i <= v.len(),
    ensures
        open_exclusion(v, i) matches Some(d) ==> exists|j: int|
            0 <= j < i && excludes_subtree(#[trigger] v[j]) && v[j].3 == d && forall|k: int|
                j < k < i ==> #[trigger] v[k].3 > d,
        forall|j: int|
            0 <= j < i && excludes_subtree(#[trigger] v[j]) && (forall|k: int|
                j < k < i ==> #[trigger] v[k].3 > v[j].3) ==> open_exclusion(v, i) is Some
                && open_exclusion(v, i)->0 <= v[j].3,
    decreases i,
{
    if i > 0 {
        lemma_open_exclusion(v, i - 1);
        let n = v[i - 1];
        let prev = open_exclusion(v, i - 1);
        if prev is Some && n.3 > prev->0 {
            let d = prev->0;
            let j0 = choose|j: int|
                0 <= j < i - 1 && excludes_subtree(#[trigger] v[j]) && v[j].3 == d && forall|k: int|
                    j < k < i - 1 ==> #[trigger] v[k].3 > d;
            assert(forall|k: int| j0 < k < i ==> #[trigger] v[k].3 > d);
            assert forall|j: int|
                0 <= j < i && excludes_subtree(#[trigger] v[j]) && (forall|k: int|
                    j < k < i ==> #[trigger] v[k].3 > v[j].3) implies open_exclusion(v, i) is Some
                && open_exclusion(v, i)->0 <= v[j].3 by {
                if j < i - 1 {
                    assert(forall|k: int| j < k < i - 1 ==> #[trigger] v[k].3 > v[j].3);
                }
            }
        } else {
            assert forall|j: int|
                0 <= j < i && excludes_subtree(#[trigger] v[j]) && (forall|k: int|
                    j < k < i ==> #[trigger] v[k].3 > v[j].3) implies open_exclusion(v, i) is Some
                && open_exclusion(v, i)->0 <= v[j].3 by {
                if j < i - 1 {
                    assert(forall|k: int| j < k < i - 1 ==> #[trigger] v[k].3 > v[j].3);
                    assert(v[i - 1].3 > v[j].3);
                }
            }
            if excludes_subtree(n) {
                assert(forall|k: int| i - 1 < k < i ==> #[trigger] v[k].3 > n.3);
            }
        }
    }
}

/// Node `i` counts exactly when it is not excluded itself and no excluded
/// subtree is open at it.
proof fn lemma_counted_by_walk(v: Seq<NodeView>, i: int)
    requires
        0 <= i < v.len(),
    ensures
        counted(v, i) == (!excludes_subtree(v[i]) && !(open_exclusion(v, i) is Some && v[i].3
            > open_exclusion(v, i)->0)),
{
    lemma_open_exclusion(v, i);
    if excludes_subtree(v[i]) {
        assert(in_subtree(v, i, i));
    } else if open_exclusion(v, i) is Some && v[i].3 > open_exclusion(v, i)->0 {
        let d = open_exclusion(v, i)->0;
        let j = choose|j: int|
            0 <= j < i && excludes_subtree(#[trigger] v[j]) && v[j].3 == d && forall|k: int|
                j < k < i ==> #[trigger] v[k].3 > d;
        assert(in_subtree(v, j, i));
    } else {
        assert forall|j: int| #![trigger v[j]] in_subtree(v, j, i) implies !excludes_subtree(
            v[j],
        ) by {
            if j < i && excludes_subtree(v[j]) {
                assert(forall|k: int| j < k < i ==> #[trigger] v[k].3 > v[j].3);
            }
        }
    }
}

proof fn lemma_function_count_take(v: Seq<NodeView>, i: int)
    requires
        0 <= i < v.len(),
    ensures
        function_count(v.take(i + 1)) == function_count(v.take(i)) + if is_function_kind(
            v[i].0,
        ) {
            1nat
        } else {
            0nat
        },
        branch_count(v.take(i + 1)) == branch_count(v.take(i)) + if is_branch_kind(v[i].0) {
            1nat
        } else {
            0nat
        },
        max_depth(v.take(i + 1)) == if v[i].3 > max_depth(v.take(i)) {
            v[i].3
        } else {
            max_depth(v.take(i))
        },
{
    assert(v.take(i + 1).drop_last() =~= v.take(i));
}

proof fn lemma_counts_take_mono(v: Seq<NodeView>, i: int)
    requires
        0 <= i <= v.len(),
    ensures
        function_count(v.take(i)) <= function_count(v),
        branch_count(v.take(i)) <= branch_count(v),
    decreases v.len() - i,
{
    if i < v.len() {
        lemma_function_count_take(v, i);
        lemma_counts_take_mono(v, i + 1);
    } else {
        assert(v.take(i) =~= v);
    }
}

/// No more functions or branches than nodes.
pub proof fn lemma_counts_bounded(v: Seq<NodeView>)
    ensures
        function_count(v) <= v.len(),
        branch_count(v) <= v.len(),
    decreases v.len(),
{
    if v.len() > 0 {
        lemma_counts_bounded(v.drop_last());
    }
}

/// Whether the kind names a function.
fn is_function_kind_exec(k: &str) -> (b: bool)
    ensures
        b == is_function_kind(k@),
{
    same_str(k, "function_item") || same_str(k, "function_declaration") || same_str(
        k,
        "method_definition",
    )
}

/// Whether the kind names a branch.
fn is_branch_kind_exec(k: &str) -> (b: bool)
    ensures
        b == is_branch_kind(k@),
{
    same_str(k, "if_expression") || same_str(k, "if_statement") || same_str(k, "while_statement")
        || same_str(k, "for_statement")
}

/// Computes the complexity metrics of a tree from its nodes in pre-order.
pub fn metrics_from_nodes(nodes: &Vec<SyntaxNode>) -> (m: ComplexityMetrics)
    requires
        counts_fit(nodes_view(nodes@)),
    ensures
        m == metrics_of(nodes_view(nodes@)),
{
    let ghost v = nodes_view(nodes@);
    let mut functions: u32 = 0;
    let mut branches: u32 = 0;
    let mut depth: u32 = 0;
    let mut rows: std::collections::HashSet<usize> = std::collections::HashSet::new();
    let mut open: Option<u32> = None;
    let mut i: usize = 0;
    while i < nodes.len()
        invariant
            i <= nodes.len(),
            v == nodes_view(nodes@),
            counts_fit(v),
            functions == function_count(v.take(i as int)),
            branches == branch_count(v.take(i as int)),
            depth == max_depth(v.take(i as int)),
            open == open_exclusion(v, i as int),
            rows@ == counted_rows_upto(v, i as int),
        decreases nodes.len() - i,
    {
        let node = &nodes[i];
        proof {
            lemma_function_count_take(v, i as int);
            lemma_counts_take_mono(v, i + 1);
            lemma_counted_by_walk(v, i as int);
            assert(v[i as int] == node@);
        }
        if node.depth > depth {
            depth = node.depth;
        }
        if is_function_kind_exec(node.kind.as_str()) {
            functions = functions + 1;
        }
        if is_branch_kind_exec(node.kind.as_str()) {
            branches = branches + 1;
        }
        let inside_excluded = match open {
            Some(d) => node.depth > d,
            None => false,
        };
        let ghost before = rows@;
        if !inside_excluded {
            let excluded = !node.is_named || contains_str(node.kind.as_str(), "comment");
            if excluded {
                open = Some(node.depth);
            } else {
                open = None;
                rows.insert(node.start_row);
            }
        }
        proof {
            let now = counted_rows_upto(v, i + 1);
            if counted(v, i as int) {
                assert(rows@ =~= now) by {
                    assert forall|r: usize| now.contains(r) implies rows@.contains(r) by {
                        let k = choose|k: int|
                            0 <= k < i + 1 && counted(v, k) && #[trigger] v[k].2 == r;
                        if k < i {
                            assert(before.contains(r));
                        }
                    }
                    assert forall|r: usize| rows@.contains(r) implies now.contains(r) by {
                        if r != node.start_row {
                            let k = choose|k: int| 0 <= k < i && counted(v, k) && #[trigger] v[k].2 == r;
                            assert(0 <= k < i + 1 && counted(v, k) && v[k].2 == r);
                        } else {
                            assert(0 <= i < i + 1 && counted(v, i as int) && v[i as int].2 == r);
                        }
                    }
                }
            } else {
                assert(rows@ =~= now) by {
                    assert forall|r: usize| now.contains(r) implies rows@.contains(r) by {
                        let k = choose|k: int|
                            0 <= k < i + 1 && counted(v, k) && #[trigger] v[k].2 == r;
                        assert(k != i);
                        assert(before.contains(r));
                    }
                    assert forall|r: usize| rows@.contains(r) implies now.contains(r) by {
                        let k = choose|k: int| 0 <= k < i && counted(v, k) && #[trigger] v[k].2 == r;
                        assert(0 <= k < i + 1 && counted(v, k) && v[k].2 == r);
                    }
                }
            }
        }
        i = i + 1;
    }
    assert(v.take(nodes.len() as int) =~= v);
    ComplexityMetrics {
        cyclomatic_complexity: branches,
        lines_of_code: rows.len() as u32,
        function_count: functions,
        max_nesting_depth: depth,
    }
}

// ---------------------------------------------------------------------------
// Laws
// ---------------------------------------------------------------------------

/// The root's depth is a lower bound of the greatest depth, and every node's
/// depth is at most the greatest depth.
pub proof fn law_max_depth_bounds_every_node(v: Seq<NodeView>, i: int)
    requires
        0 <= i < v.len(),
    ensures
        v[i].3 <= max_depth(v),
    decreases v.len(),
{
    if i < v.len() - 1 {
        law_max_depth_bounds_every_node(v.drop_last(), i);
    }
}

/// A named, non-comment node with no excluded node above it has its row
/// counted, so a tree with such a node has at least one line of code.
pub proof fn law_counted_node_gives_a_line(v: Seq<NodeView>, i: int)
    requires
        0 <= i < v.len(),
        counted(v, i),
    ensures
        counted_rows(v).contains(v[i].2),
        counted_rows(v).len() >= 1,
{
    assert(counted_rows(v).contains(v[i].2));
    lemma_counted_rows_finite(v, v.len() as int);
    vstd::set_lib::lemma_set_empty_equivalency_len(counted_rows(v));
}

/// The rows of the counted nodes form a finite set, with no more rows than nodes.
pub proof fn lemma_counted_rows_finite(v: Seq<NodeView>, n: int)
    requires
        0 <= n <= v.len(),
    ensures
        counted_rows_upto(v, n).finite(),
        counted_rows_upto(v, n).len() <= n,
    decreases n,
{
    if n == 0 {
        assert(counted_rows_upto(v, 0) =~= Set::empty());
    } else {
        lemma_counted_rows_finite(v, n - 1);
        let prev = counted_rows_upto(v, n - 1);
        if counted(v, n - 1) {
            assert(counted_rows_upto(v, n) =~= prev.insert(v[n - 1].2)) by {
                assert forall|r: usize| #[trigger] counted_rows_upto(v, n).contains(r) implies prev.insert(v[n - 1].2).contains(r) by {
                    let k = choose|k: int| 0 <= k < n && counted(v, k) && #[trigger] v[k].2 == r;
                    if k < n - 1 {
                        assert(prev.contains(r));
                    }
                }
                assert forall|r: usize| #[trigger] prev.insert(v[n - 1].2).contains(r) implies counted_rows_upto(v, n).contains(r) by {
                    if r != v[n - 1].2 {
                        let k = choose|k: int| 0 <= k < n - 1 && counted(v, k) && #[trigger] v[k].2 == r;
                        assert(0 <= k < n && counted(v, k) && v[k].2 == r);
                    } else {
                        assert(0 <= n - 1 < n && counted(v, n - 1) && v[n - 1].2 == r);
                    }
                }
            }
        } else {
            assert(counted_rows_upto(v, n) =~= prev) by {
                assert forall|r: usize| #[trigger] counted_rows_upto(v, n).contains(r) implies prev.contains(r) by {
                    let k = choose|k: int| 0 <= k < n && counted(v, k) && #[trigger] v[k].2 == r;
                    assert(k != n - 1);
                }
                assert forall|r: usize| #[trigger] prev.contains(r) implies counted_rows_upto(v, n).contains(r) by {
                    let k = choose|k: int| 0 <= k < n - 1 && counted(v, k) && #[trigger] v[k].2 == r;
                    assert(0 <= k < n && counted(v, k) && v[k].2 == r);
                }
            }
        }
    }
}

/// Everything below an excluded node (anonymous or comment) is left out of the
/// line count.
pub proof fn law_excluded_subtree_not_counted(v: Seq<NodeView>, j: int, i: int)
    requires
        in_subtree(v, j, i),
        excludes_subtree(v[j]),
    ensures
        !counted(v, i),
{
}

/// When the root is anonymous or a comment, no node counts towards the lines
/// of code: every node lies in the root's subtree, so the line count is 0.
pub proof fn law_excluded_root_counts_no_line(v: Seq<NodeView>)
    requires
        is_preorder_shape(v),
        excludes_subtree(v[0]),
    ensures
        counted_rows(v) == Set::<usize>::empty(),
        metrics_of(v).lines_of_code == 0,
{
    assert forall|i: int| 0 <= i < v.len() implies !counted(v, i) by {
        assert(in_subtree(v, 0, i));
    }
    assert(counted_rows(v) =~= Set::<usize>::empty());
}


/// A node adds one to the branch count exactly when its kind is
/// `if_expression`, `if_statement`, `while_statement` or `for_statement`.
pub proof fn law_branch_kinds(v: Seq<NodeView>, n: NodeView)
    ensures
        branch_count(v.push(n)) == branch_count(v) + if n.0 == "if_expression"@ || n.0
            == "if_statement"@ || n.0 == "while_statement"@ || n.0 == "for_statement"@ {
            1nat
        } else {
            0nat
        },
{
    assert(v.push(n).drop_last() =~= v);
}

/// A node adds one to the function count exactly when its kind is
/// `function_item`, `function_declaration` or `method_definition`.
pub proof fn law_function_kinds(v: Seq<NodeView>, n: NodeView)
    ensures
        function_count(v.push(n)) == function_count(v) + if n.0 == "function_item"@ || n.0
            == "function_declaration"@ || n.0 == "method_definition"@ {
            1nat
        } else {
            0nat
        },
{
    assert(v.push(n).drop_last() =~= v);
}

} // verus!
