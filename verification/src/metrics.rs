//! Size and complexity measures of a parsed source text.

use crate::syntax::{is_control_flow, is_control_flow_kind, is_tree, NodeModel, SyntaxTree};
use crate::text::{lines, split_lines, to_chars};
use vstd::prelude::*;

verus! {

/// The baseline performance score given to every analysed text.
pub const PERFORMANCE_BASELINE: u32 = 85;

/// The baseline security score given to every analysed text.
pub const SECURITY_BASELINE: u32 = 90;

/// The test coverage assumed while no coverage data is supplied.
pub const DEFAULT_TEST_COVERAGE: u32 = 0;

/// The complexity above which a text counts as too complex.
pub const COMPLEXITY_LIMIT: usize = 10;

/// 1 for a control-flow node, 0 for any other.
pub open spec fn branch_weight(t: Seq<NodeModel>, i: int) -> int {
    if is_control_flow(t[i].kind) {
        1
    } else {
        0
    }
}

/// The cyclomatic complexity of the subtree at node `i`: 1, and for every
/// child its branch weight and its own complexity less the 1 it starts from.
pub open spec fn complexity(t: Seq<NodeModel>, i: int) -> int
    decreases t.len() - i, 1int, 0int,
{
    1 + children_sum(t, i, i + 1)
}

/// What the children of node `i` with index `from` or more add to its
/// complexity.
pub open spec fn children_sum(t: Seq<NodeModel>, i: int, from: int) -> int
    decreases t.len() - i, 0int, t.len() - from,
{
    if i < 0 || from <= i || from >= t.len() {
        0
    } else {
        let own = if t[from].parent == i {
            branch_weight(t, from) + complexity(t, from) - 1
        } else {
            0
        };
        own + children_sum(t, i, from + 1)
    }
}

/// The number of control-flow nodes with index `from` or more.
pub open spec fn control_flow_count(t: Seq<NodeModel>, from: int) -> int
    decreases t.len() - from,
{
    if from < 0 || from >= t.len() {
        0
    } else {
        branch_weight(t, from) + control_flow_count(t, from + 1)
    }
}

/// The sum of `children_sum(t, k, from)` over the nodes `k` up to `upto`.
pub open spec fn pending_sum(t: Seq<NodeModel>, upto: int, from: int) -> int
    decreases upto + 1,
{
    if upto < 0 {
        0
    } else {
        pending_sum(t, upto - 1, from) + children_sum(t, upto, from)
    }
}

proof fn lemma_children_sum_nonnegative(t: Seq<NodeModel>, i: int, from: int)
    ensures
        children_sum(t, i, from) >= 0,
    decreases t.len() - i, t.len() - from,
{
    if 0 <= i < from < t.len() {
        if t[from].parent == i {
            lemma_children_sum_nonnegative(t, from, from + 1);
            assert(complexity(t, from) == 1 + children_sum(t, from, from + 1));
        }
        lemma_children_sum_nonnegative(t, i, from + 1);
    }
}

/// Every subtree has complexity 1 or more.
pub proof fn lemma_complexity_positive(t: Seq<NodeModel>, i: int)
    ensures
        complexity(t, i) >= 1,
{
    lemma_children_sum_nonnegative(t, i, i + 1);
}

proof fn lemma_control_flow_count_bounds(t: Seq<NodeModel>, from: int)
    requires
        0 <= from <= t.len(),
    ensures
        0 <= control_flow_count(t, from) <= t.len() - from,
    decreases t.len() - from,
{
    if from < t.len() {
        lemma_control_flow_count_bounds(t, from + 1);
    }
}

/// Only the parent of node `j` gains from it when the sums reach down to `j`.
proof fn lemma_pending_step(t: Seq<NodeModel>, upto: int, j: int)
    requires
        0 <= upto < j < t.len(),
        0 <= t[j].parent < j,
    ensures
        pending_sum(t, upto, j) == pending_sum(t, upto, j + 1) + if t[j].parent <= upto {
            branch_weight(t, j) + complexity(t, j) - 1
        } else {
            0
        },
    decreases upto + 1,
{
    if upto > 0 {
        lemma_pending_step(t, upto - 1, j);
    } else {
        assert(pending_sum(t, -1, j) == 0);
        assert(pending_sum(t, -1, j + 1) == 0);
    }
}

proof fn lemma_pending_is_count(t: Seq<NodeModel>, j: int)
    requires
        is_tree(t),
        0 <= j < t.len(),
    ensures
        pending_sum(t, j, j + 1) == control_flow_count(t, j + 1),
    decreases t.len() - j,
{
    if j + 1 >= t.len() {
        lemma_pending_zero(t, j, j + 1);
    } else {
        lemma_pending_is_count(t, j + 1);
        lemma_pending_step(t, j, j + 1);
    }
}

proof fn lemma_pending_zero(t: Seq<NodeModel>, upto: int, from: int)
    requires
        from >= t.len(),
    ensures
        pending_sum(t, upto, from) == 0,
    decreases upto + 1,
{
    if upto >= 0 {
        lemma_pending_zero(t, upto - 1, from);
    }
}

proof fn lemma_term_below_pending(t: Seq<NodeModel>, k: int, upto: int, from: int)
    requires
        0 <= k <= upto,
    ensures
        0 <= children_sum(t, k, from) <= pending_sum(t, upto, from),
        pending_sum(t, upto, from) >= 0,
    decreases upto + 1,
{
    lemma_children_sum_nonnegative(t, upto, from);
    if upto > 0 {
        if k < upto {
            lemma_term_below_pending(t, k, upto - 1, from);
        } else {
            lemma_term_below_pending(t, 0, upto - 1, from);
        }
    } else {
        assert(pending_sum(t, -1, from) == 0);
    }
}

/// The complexity of a tree is 1 plus the number of control-flow nodes below
/// its root; so it is 1 with none of them and 2 with exactly one.
pub proof fn lemma_complexity_counts_control_flow(t: Seq<NodeModel>)
    requires
        is_tree(t),
    ensures
        complexity(t, 0) == 1 + control_flow_count(t, 1),
        complexity(t, 0) >= 1,
        control_flow_count(t, 1) == 0 ==> complexity(t, 0) == 1,
        control_flow_count(t, 1) == 1 ==> complexity(t, 0) == 2,
{
    lemma_pending_is_count(t, 0);
    assert(pending_sum(t, 0, 1) == pending_sum(t, -1, 1) + children_sum(t, 0, 1));
    lemma_control_flow_count_bounds(t, 1);
}

/// While the sums reach down to `from`, no node has gathered more than the
/// control-flow nodes from there on.
proof fn lemma_partial_bound(t: Seq<NodeModel>, k: int, from: int)
    requires
        is_tree(t),
        0 <= k < from <= t.len(),
    ensures
        0 <= children_sum(t, k, from) <= t.len() - from,
{
    lemma_term_below_pending(t, k, from - 1, from);
    lemma_pending_is_count(t, from - 1);
    lemma_control_flow_count_bounds(t, from);
}

/// The cyclomatic complexity of `tree`, gathered bottom-up over the arena.
pub fn cyclomatic_complexity(tree: &SyntaxTree) -> (r: usize)
    requires
        tree.wf(),
    ensures
        r == complexity(tree@, 0),
        r == 1 + control_flow_count(tree@, 1),
        r >= 1,
{
    let n: usize = tree.len();
    let ghost t = tree@;
    let mut acc: Vec<usize> = Vec::new();
    let mut i: usize = 0;
    while i < n
        invariant
            i <= n,
            acc.len() == i,
            forall|k: int| 0 <= k < i ==> acc@[k] == 1,
        decreases n - i,
    {
        acc.push(1);
        i += 1;
    }
    let mut j: usize = n - 1;
    while j > 0
        invariant
            j < n,
            n == t.len(),
            t == tree@,
            is_tree(t),
            acc.len() == n,
            forall|k: int| 0 <= k <= j ==> acc@[k] == 1 + children_sum(t, k, j + 1),
        decreases j,
    {
        let node = tree.node(j);
        let p: usize = node.parent;
        let weight: usize = if is_control_flow_kind(node.kind.as_str()) {
            1
        } else {
            0
        };
        proof {
            lemma_complexity_positive(t, j as int);
            lemma_partial_bound(t, p as int, j as int);
        }
        let gained: usize = acc[j] - 1;
        let total: usize = acc[p] + weight + gained;
        acc.set(p, total);
        j -= 1;
    }
    proof {
        lemma_complexity_counts_control_flow(t);
    }
    acc[0]
}

/// The measures of one analysed text that are whole numbers. The scores that
/// are fractions follow from them.
#[derive(Clone, Copy, Debug, PartialEq, Eq, Structural)]
pub struct CodeMetrics {
    /// The cyclomatic complexity, 1 or more.
    pub complexity: usize,
    /// The performance score, out of 100.
    pub performance: u32,
    /// The security score, out of 100.
    pub security: u32,
    /// The share of the code that tests cover, out of 100.
    pub test_coverage: u32,
    /// The number of lines.
    pub lines_of_code: usize,
}

/// Whether `metrics` are the measures of the source text `source` with
/// syntax tree `tree`: its complexity, its number of lines and the baselines.
pub open spec fn is_metrics_of(metrics: CodeMetrics, tree: Seq<NodeModel>, source: Seq<char>) -> bool {
    &&& metrics.complexity == complexity(tree, 0)
    &&& metrics.performance == PERFORMANCE_BASELINE
    &&& metrics.security == SECURITY_BASELINE
    &&& metrics.test_coverage == DEFAULT_TEST_COVERAGE
    &&& metrics.lines_of_code == lines(source).len()
}

/// The number of lines of `source`.
pub fn count_lines(source: &str) -> (r: usize)
    ensures
        r == lines(source@).len(),
{
    let text = to_chars(source);
    let parts = split_lines(&text);
    parts.len()
}

/// Measures a source text with its syntax tree.
pub fn calculate_metrics(tree: &SyntaxTree, source: &str) -> (r: CodeMetrics)
    requires
        tree.wf(),
    ensures
        is_metrics_of(r, tree@, source@),
        r.complexity >= 1,
{
    CodeMetrics {
        complexity: cyclomatic_complexity(tree),
        performance: PERFORMANCE_BASELINE,
        security: SECURITY_BASELINE,
        test_coverage: DEFAULT_TEST_COVERAGE,
        lines_of_code: count_lines(source),
    }
}

impl CodeMetrics {
    /// Whether the maintainability index has a value: the text has a line and
    /// more than one path, so that no logarithm of zero is taken. Where it has
    /// none the index counts as 0.
    pub fn maintainability_is_defined(&self) -> (r: bool)
        ensures
            r == (self.lines_of_code >= 1 && self.complexity >= 2),
    {
        self.lines_of_code >= 1 && self.complexity >= 2
    }

    /// Whether the text is more complex than `COMPLEXITY_LIMIT`.
    pub fn is_too_complex(&self) -> (r: bool)
        ensures
            r == (self.complexity > COMPLEXITY_LIMIT),
    {
        self.complexity > COMPLEXITY_LIMIT
    }

    /// By how much the complexity is over `COMPLEXITY_LIMIT`; 0 when it is not.
    pub fn excess_complexity(&self) -> (r: usize)
        ensures
            r == if self.complexity > COMPLEXITY_LIMIT {
                self.complexity - COMPLEXITY_LIMIT
            } else {
                0
            },
    {
        if self.complexity > COMPLEXITY_LIMIT {
            self.complexity - COMPLEXITY_LIMIT
        } else {
            0
        }
    }
}

} // verus!
