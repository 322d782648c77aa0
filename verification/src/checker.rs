//! The consistency checker: compares the base table's snapshot with the
//! snapshot of the view on each node, and reports per node.
//!
//! A mismatch is a result, not an error: the check never fails on one.

use crate::snapshot::{canonical, canonical_ignores_arrival_order, canonical_is_sorted_permutation, Row};
use crate::text::{decimal, push_decimal};
use vstd::prelude::*;
use vstd::string::StringExecFns;

verus! {

/// The outcome of comparing one node's view with the base table.
#[derive(Clone, Copy, Debug, PartialEq, Eq)]
pub enum Verdict {
    /// The view holds the rows of the base table, in the same order.
    Match,
    /// The view differs; the lengths of both snapshots are given.
    Mismatch { base_len: usize, view_len: usize },
}

/// The verdict on one node.
#[derive(Clone, Copy, Debug, PartialEq, Eq)]
pub struct NodeReport {
    /// The node's position in the list of nodes.
    pub node: usize,
    /// What the comparison found.
    pub verdict: Verdict,
}

/// The verdict on a view snapshot against the base snapshot.
pub open spec fn verdict_of(base: Seq<Row>, view: Seq<Row>) -> Verdict {
    if view == base {
        Verdict::Match
    } else {
        Verdict::Mismatch { base_len: base.len() as usize, view_len: view.len() as usize }
    }
}

/// The report on node number `node`.
pub open spec fn report_of(node: int, base: Seq<Row>, view: Seq<Row>) -> NodeReport {
    NodeReport { node: node as usize, verdict: verdict_of(base, view) }
}

/// The line that announces a match.
pub open spec fn match_line(node: nat) -> Seq<char> {
    "View from node #"@ + decimal(node) + " matches the base table"@
}

/// The first line of a mismatch.
pub open spec fn mismatch_line(node: nat) -> Seq<char> {
    "ERROR: View from node #"@ + decimal(node) + " doesn't match the base table"@
}

/// The second line of a mismatch: both lengths.
pub open spec fn lengths_line(base_len: nat, view_len: nat) -> Seq<char> {
    "base_rows.len(): "@ + decimal(base_len) + ", view_rows.len(): "@ + decimal(view_len)
}

impl NodeReport {
    /// The lines printed for this report.
    pub open spec fn lines(self) -> Seq<Seq<char>> {
        match self.verdict {
            Verdict::Match => seq![match_line(self.node as nat)],
            Verdict::Mismatch { base_len, view_len } => seq![
                mismatch_line(self.node as nat),
                lengths_line(base_len as nat, view_len as nat),
            ],
        }
    }

    /// Whether the node's view matched.
    pub fn passed(&self) -> (ok: bool)
        ensures
            ok == (self.verdict == Verdict::Match),
    {
        match self.verdict {
            Verdict::Match => true,
            Verdict::Mismatch { .. } => false,
        }
    }

    /// Renders the report: one line for a match, two for a mismatch.
    pub fn messages(&self) -> (rendered: Vec<String>)
        ensures
            rendered@.len() == self.lines().len(),
            forall|i: int| 0 <= i < rendered@.len() ==> (#[trigger] rendered@[i])@ == self.lines()[i],
    {
        let mut rendered: Vec<String> = Vec::new();
        match self.verdict {
            Verdict::Match => {
                let mut line = String::from_str("View from node #");
                push_decimal(&mut line, self.node);
                line.append(" matches the base table");
                rendered.push(line);
            },
            Verdict::Mismatch { base_len, view_len } => {
                let mut first = String::from_str("ERROR: View from node #");
                push_decimal(&mut first, self.node);
                first.append(" doesn't match the base table");
                rendered.push(first);
                let mut second = String::from_str("base_rows.len(): ");
                push_decimal(&mut second, base_len);
                second.append(", view_rows.len(): ");
                push_decimal(&mut second, view_len);
                rendered.push(second);
            },
        }
        rendered
    }
}

/// Tells whether two snapshots hold the same rows in the same order.
pub fn snapshots_equal(base: &Vec<Row>, view: &Vec<Row>) -> (equal: bool)
    ensures
        equal == (view@ == base@),
{
    if base.len() != view.len() {
        return false;
    }
    let mut i: usize = 0;
    while i < base.len()
        invariant
            i <= base.len(),
            base.len() == view.len(),
            forall|k: int| 0 <= k < i ==> base@[k] == view@[k],
        decreases base.len() - i,
    {
        let b: Row = base[i];
        let v: Row = view[i];
        if b.0 != v.0 || b.1 != v.1 || b.2 != v.2 {
            assert(base@[i as int] != view@[i as int]);
            return false;
        }
        i = i + 1;
    }
    assert(view@ =~= base@);
    true
}

/// Compares the view snapshot of node number `node` with the base snapshot.
pub fn check_node(node: usize, base: &Vec<Row>, view: &Vec<Row>) -> (report: NodeReport)
    ensures
        report == report_of(node as int, base@, view@),
{
    let verdict = if snapshots_equal(base, view) {
        Verdict::Match
    } else {
        Verdict::Mismatch { base_len: base.len(), view_len: view.len() }
    };
    NodeReport { node, verdict }
}

/// One pass of the check: the base snapshot against the view snapshot of
/// every node, in the order of the nodes.
pub fn check(base: &Vec<Row>, views: &Vec<Vec<Row>>) -> (reports: Vec<NodeReport>)
    ensures
        reports@.len() == views@.len(),
        forall|i: int|
            0 <= i < views@.len() ==> #[trigger] reports@[i] == report_of(i, base@, views@[i]@),
{
    let mut reports: Vec<NodeReport> = Vec::new();
    let mut node: usize = 0;
    while node < views.len()
        invariant
            node <= views.len(),
            reports@.len() == node,
            forall|i: int|
                0 <= i < node ==> #[trigger] reports@[i] == report_of(i, base@, views@[i]@),
        decreases views.len() - node,
    {
        let report = check_node(node, base, &views[node]);
        reports.push(report);
        node = node + 1;
    }
    reports
}

/// A view passes exactly if it equals the base snapshot as a sequence. A
/// view of another length, or with another row at some position, fails, and
/// the report gives the two lengths as they are.
pub proof fn passes_exactly_on_equal_snapshots(node: int, base: Seq<Row>, view: Seq<Row>)
    requires
        base.len() <= usize::MAX,
        view.len() <= usize::MAX,
    ensures
        report_of(node, base, view).verdict == Verdict::Match <==> view == base,
        view != base ==> report_of(node, base, view).verdict == (Verdict::Mismatch {
            base_len: base.len() as usize,
            view_len: view.len() as usize,
        }),
        view != base ==> report_of(node, base, view).verdict->base_len == base.len(),
        view != base ==> report_of(node, base, view).verdict->view_len == view.len(),
        base.len() != view.len() ==> view != base,
        (exists|i: int| 0 <= i < base.len() && 0 <= i < view.len() && base[i] != view[i]) ==> view
            != base,
{
}

/// Canonical snapshots match exactly if source and view hold the same rows,
/// each as often: the order in which either was read plays no part.
pub proof fn canonical_snapshots_match_on_same_rows(base_rows: Seq<Row>, view_rows: Seq<Row>)
    ensures
        verdict_of(canonical(base_rows), canonical(view_rows)) == Verdict::Match
            <==> view_rows.to_multiset() == base_rows.to_multiset(),
{
    canonical_is_sorted_permutation(base_rows);
    canonical_is_sorted_permutation(view_rows);
    if view_rows.to_multiset() == base_rows.to_multiset() {
        canonical_ignores_arrival_order(view_rows, base_rows);
    }
}

} // verus!
