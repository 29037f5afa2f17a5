//! The scan/rewrite metrics aggregator: a depth-first walk of a physical
//! execution-plan tree in which each node may expose a named counter set.
//! Each aggregate is present only if some node exposed it — absence is
//! distinguished from a true zero. Counter names are matched against a
//! fixed alias set; unknown names silently contribute nothing, so a
//! renamed counter degrades to "metric not observed" rather than failing.

use vstd::prelude::*;

use crate::strutil::str_eq;

verus! {

/// The mathematical value of a `PlanCounter`.
pub enum PlanCounterView {
    Count { name: Seq<char>, value: u64 },
    Pruning { name: Seq<char>, pruned: u64 },
    Other { name: Seq<char> },
}

/// One named counter of a plan node: a plain count, a pruning-specific
/// counter reporting its pruned total, or some other counter kind the
/// aggregator does not read.
#[derive(Clone, Debug)]
pub enum PlanCounter {
    Count { name: String, value: u64 },
    Pruning { name: String, pruned: u64 },
    Other { name: String },
}

impl View for PlanCounter {
    type V = PlanCounterView;

    open spec fn view(&self) -> PlanCounterView {
        match self {
            PlanCounter::Count { name, value } => PlanCounterView::Count {
                name: name@,
                value: *value,
            },
            PlanCounter::Pruning { name, pruned } => PlanCounterView::Pruning {
                name: name@,
                pruned: *pruned,
            },
            PlanCounter::Other { name } => PlanCounterView::Other { name: name@ },
        }
    }
}

impl DeepView for PlanCounter {
    type V = PlanCounterView;

    open spec fn deep_view(&self) -> PlanCounterView {
        self.view()
    }
}

/// The mathematical value of a `NodeMetrics`.
pub struct NodeMetricsView {
    pub counters: Seq<PlanCounterView>,
    pub elapsed_compute_nanos: Option<u64>,
}

/// The counter set one plan node exposes, with its self-reported elapsed
/// compute time.
#[derive(Clone, Debug)]
pub struct NodeMetrics {
    pub counters: Vec<PlanCounter>,
    pub elapsed_compute_nanos: Option<u64>,
}

impl View for NodeMetrics {
    type V = NodeMetricsView;

    open spec fn view(&self) -> NodeMetricsView {
        NodeMetricsView {
            counters: self.counters.deep_view(),
            elapsed_compute_nanos: self.elapsed_compute_nanos,
        }
    }
}

/// The mathematical value of a `PlanNode`.
pub struct PlanNodeView {
    pub metrics: Option<NodeMetricsView>,
    pub children: Seq<PlanNodeView>,
}

/// One node of a physical execution-plan tree; a node may or may not
/// expose a counter set.
#[derive(Debug)]
pub struct PlanNode {
    pub metrics: Option<NodeMetrics>,
    pub children: Vec<PlanNode>,
}

pub open spec fn spec_plan_node_view(n: PlanNode) -> PlanNodeView
    decreases n,
{
    PlanNodeView {
        metrics: match n.metrics {
            Some(m) => Some(m@),
            None => None,
        },
        children: Seq::new(
            n.children@.len(),
            |i: int|
                if 0 <= i < n.children@.len() {
                    spec_plan_node_view(n.children@[i])
                } else {
                    PlanNodeView { metrics: None, children: Seq::empty() }
                },
        ),
    }
}

impl View for PlanNode {
    type V = PlanNodeView;

    open spec fn view(&self) -> PlanNodeView {
        spec_plan_node_view(*self)
    }
}

impl DeepView for PlanNode {
    type V = PlanNodeView;

    open spec fn deep_view(&self) -> PlanNodeView {
        spec_plan_node_view(*self)
    }
}

/// The four independently-optional aggregates the walk produces.
#[derive(Clone, Copy, Debug, PartialEq, Eq, Structural)]
pub struct ScanMetrics {
    pub files_scanned: Option<u64>,
    pub files_pruned: Option<u64>,
    pub bytes_scanned: Option<u64>,
    pub scan_time_ms: Option<u64>,
}

pub open spec fn spec_sat_add(a: u64, b: u64) -> u64 {
    if a + b > u64::MAX {
        u64::MAX
    } else {
        (a + b) as u64
    }
}

fn sat_add(a: u64, b: u64) -> (r: u64)
    ensures
        r == spec_sat_add(a, b),
{
    if a > u64::MAX - b {
        u64::MAX
    } else {
        a + b
    }
}

pub open spec fn spec_is_files_scanned_name(name: Seq<char>) -> bool {
    name == "files_scanned"@ || name == "count_files_scanned"@
}

pub open spec fn spec_is_files_pruned_name(name: Seq<char>) -> bool {
    name == "files_pruned"@ || name == "count_files_pruned"@
}

pub open spec fn spec_is_pruning_stats_name(name: Seq<char>) -> bool {
    name == "files_ranges_pruned_statistics"@
}

pub open spec fn spec_is_bytes_scanned_name(name: Seq<char>) -> bool {
    name == "bytes_scanned"@
}

/// The running (seen, saturating total) state of one aggregate.
pub struct AggView {
    pub files_scanned_seen: bool,
    pub files_scanned: u64,
    pub files_pruned_seen: bool,
    pub files_pruned: u64,
    pub bytes_scanned_seen: bool,
    pub bytes_scanned: u64,
    pub scan_elapsed_seen: bool,
    pub scan_elapsed_nanos: u64,
}

pub open spec fn spec_agg_zero() -> AggView {
    AggView {
        files_scanned_seen: false,
        files_scanned: 0,
        files_pruned_seen: false,
        files_pruned: 0,
        bytes_scanned_seen: false,
        bytes_scanned: 0,
        scan_elapsed_seen: false,
        scan_elapsed_nanos: 0,
    }
}

pub open spec fn spec_agg_combine(a: AggView, b: AggView) -> AggView {
    AggView {
        files_scanned_seen: a.files_scanned_seen || b.files_scanned_seen,
        files_scanned: spec_sat_add(a.files_scanned, b.files_scanned),
        files_pruned_seen: a.files_pruned_seen || b.files_pruned_seen,
        files_pruned: spec_sat_add(a.files_pruned, b.files_pruned),
        bytes_scanned_seen: a.bytes_scanned_seen || b.bytes_scanned_seen,
        bytes_scanned: spec_sat_add(a.bytes_scanned, b.bytes_scanned),
        scan_elapsed_seen: a.scan_elapsed_seen || b.scan_elapsed_seen,
        scan_elapsed_nanos: spec_sat_add(a.scan_elapsed_nanos, b.scan_elapsed_nanos),
    }
}

/// The per-counter-set sums: count counters summed by alias set, with
/// pruning counters contributing their pruned totals.
pub open spec fn spec_counters_sum_files_scanned(cs: Seq<PlanCounterView>) -> (bool, u64)
    decreases cs.len(),
{
    if cs.len() == 0 {
        (false, 0u64)
    } else {
        let rest = spec_counters_sum_files_scanned(cs.drop_first());
        match cs[0] {
            PlanCounterView::Count { name, value } => if spec_is_files_scanned_name(name) {
                (true, spec_sat_add(value, rest.1))
            } else {
                rest
            },
            _ => rest,
        }
    }
}

pub open spec fn spec_counters_sum_files_pruned(cs: Seq<PlanCounterView>) -> (bool, u64)
    decreases cs.len(),
{
    if cs.len() == 0 {
        (false, 0u64)
    } else {
        let rest = spec_counters_sum_files_pruned(cs.drop_first());
        match cs[0] {
            PlanCounterView::Count { name, value } => if spec_is_files_pruned_name(name) {
                (true, spec_sat_add(value, rest.1))
            } else {
                rest
            },
            PlanCounterView::Pruning { name, pruned } => if spec_is_pruning_stats_name(name) {
                (true, spec_sat_add(pruned, rest.1))
            } else {
                rest
            },
            _ => rest,
        }
    }
}

pub open spec fn spec_counters_sum_bytes_scanned(cs: Seq<PlanCounterView>) -> (bool, u64)
    decreases cs.len(),
{
    if cs.len() == 0 {
        (false, 0u64)
    } else {
        let rest = spec_counters_sum_bytes_scanned(cs.drop_first());
        match cs[0] {
            PlanCounterView::Count { name, value } => if spec_is_bytes_scanned_name(name) {
                (true, spec_sat_add(value, rest.1))
            } else {
                rest
            },
            _ => rest,
        }
    }
}

pub open spec fn spec_counter_name(c: PlanCounterView) -> Seq<char> {
    match c {
        PlanCounterView::Count { name, .. } => name,
        PlanCounterView::Pruning { name, .. } => name,
        PlanCounterView::Other { name } => name,
    }
}

/// A node is classified as a scan node when its counter set exposes any
/// of the files-scanned, bytes-scanned or pruning-statistics names.
pub open spec fn spec_is_scan_node(cs: Seq<PlanCounterView>) -> bool {
    exists|i: int|
        0 <= i < cs.len() && {
            let name = spec_counter_name(#[trigger] cs[i]);
            spec_is_files_scanned_name(name) || spec_is_bytes_scanned_name(name)
                || spec_is_pruning_stats_name(name)
        }
}

/// What one node's own counter set contributes.
pub open spec fn spec_node_own_agg(n: PlanNodeView) -> AggView {
    match n.metrics {
        None => spec_agg_zero(),
        Some(m) => {
            let fs = spec_counters_sum_files_scanned(m.counters);
            let fp = spec_counters_sum_files_pruned(m.counters);
            let bs = spec_counters_sum_bytes_scanned(m.counters);
            let scan_node = spec_is_scan_node(m.counters);
            AggView {
                files_scanned_seen: fs.0,
                files_scanned: fs.1,
                files_pruned_seen: fp.0,
                files_pruned: fp.1,
                bytes_scanned_seen: bs.0,
                bytes_scanned: bs.1,
                scan_elapsed_seen: scan_node && m.elapsed_compute_nanos is Some,
                scan_elapsed_nanos: if scan_node {
                    match m.elapsed_compute_nanos {
                        Some(v) => v,
                        None => 0,
                    }
                } else {
                    0
                },
            }
        },
    }
}

/// The whole subtree's aggregate: the node's own contribution combined
/// with each child's, depth first.
pub open spec fn spec_tree_agg(n: PlanNodeView) -> AggView
    decreases n,
{
    spec_agg_combine(spec_node_own_agg(n), spec_forest_agg(n.children))
}

pub open spec fn spec_forest_agg(children: Seq<PlanNodeView>) -> AggView
    decreases children,
{
    if children.len() == 0 {
        spec_agg_zero()
    } else {
        spec_agg_combine(spec_tree_agg(children[0]), spec_forest_agg(children.drop_first()))
    }
}

fn name_is_files_scanned(name: &str) -> (r: bool)
    ensures
        r == spec_is_files_scanned_name(name@),
{
    str_eq(name, "files_scanned") || str_eq(name, "count_files_scanned")
}

fn name_is_files_pruned(name: &str) -> (r: bool)
    ensures
        r == spec_is_files_pruned_name(name@),
{
    str_eq(name, "files_pruned") || str_eq(name, "count_files_pruned")
}

fn name_is_pruning_stats(name: &str) -> (r: bool)
    ensures
        r == spec_is_pruning_stats_name(name@),
{
    str_eq(name, "files_ranges_pruned_statistics")
}

fn name_is_bytes_scanned(name: &str) -> (r: bool)
    ensures
        r == spec_is_bytes_scanned_name(name@),
{
    str_eq(name, "bytes_scanned")
}

/// The running aggregate, as the walk carries it.
struct Agg {
    files_scanned_seen: bool,
    files_scanned: u64,
    files_pruned_seen: bool,
    files_pruned: u64,
    bytes_scanned_seen: bool,
    bytes_scanned: u64,
    scan_elapsed_seen: bool,
    scan_elapsed_nanos: u64,
}

impl Agg {
    spec fn view_of(&self) -> AggView {
        AggView {
            files_scanned_seen: self.files_scanned_seen,
            files_scanned: self.files_scanned,
            files_pruned_seen: self.files_pruned_seen,
            files_pruned: self.files_pruned,
            bytes_scanned_seen: self.bytes_scanned_seen,
            bytes_scanned: self.bytes_scanned,
            scan_elapsed_seen: self.scan_elapsed_seen,
            scan_elapsed_nanos: self.scan_elapsed_nanos,
        }
    }
}

fn agg_zero() -> (r: Agg)
    ensures
        r.view_of() == spec_agg_zero(),
{
    Agg {
        files_scanned_seen: false,
        files_scanned: 0,
        files_pruned_seen: false,
        files_pruned: 0,
        bytes_scanned_seen: false,
        bytes_scanned: 0,
        scan_elapsed_seen: false,
        scan_elapsed_nanos: 0,
    }
}

fn agg_combine(a: Agg, b: Agg) -> (r: Agg)
    ensures
        r.view_of() == spec_agg_combine(a.view_of(), b.view_of()),
{
    Agg {
        files_scanned_seen: a.files_scanned_seen || b.files_scanned_seen,
        files_scanned: sat_add(a.files_scanned, b.files_scanned),
        files_pruned_seen: a.files_pruned_seen || b.files_pruned_seen,
        files_pruned: sat_add(a.files_pruned, b.files_pruned),
        bytes_scanned_seen: a.bytes_scanned_seen || b.bytes_scanned_seen,
        bytes_scanned: sat_add(a.bytes_scanned, b.bytes_scanned),
        scan_elapsed_seen: a.scan_elapsed_seen || b.scan_elapsed_seen,
        scan_elapsed_nanos: sat_add(a.scan_elapsed_nanos, b.scan_elapsed_nanos),
    }
}

fn node_own_agg(node: &PlanNode) -> (r: Agg)
    ensures
        r.view_of() == spec_node_own_agg(node@),
{
    let metrics = match &node.metrics {
        None => {
            return agg_zero();
        },
        Some(m) => m,
    };
    let cs = &metrics.counters;
    let len = cs.len();
    let mut files_scanned_seen = false;
    let mut files_scanned: u64 = 0;
    let mut files_pruned_seen = false;
    let mut files_pruned: u64 = 0;
    let mut bytes_scanned_seen = false;
    let mut bytes_scanned: u64 = 0;
    let mut scan_node = false;
    let mut i: usize = len;
    while i > 0
        invariant
            len == cs@.len(),
            i <= len,
            (files_scanned_seen, files_scanned) == spec_counters_sum_files_scanned(
                cs.deep_view().skip(i as int),
            ),
            (files_pruned_seen, files_pruned) == spec_counters_sum_files_pruned(
                cs.deep_view().skip(i as int),
            ),
            (bytes_scanned_seen, bytes_scanned) == spec_counters_sum_bytes_scanned(
                cs.deep_view().skip(i as int),
            ),
            scan_node == spec_is_scan_node(cs.deep_view().skip(i as int)),
        decreases i,
    {
        i -= 1;
        proof {
            assert(cs.deep_view().skip(i as int)[0] == cs.deep_view()[i as int]);
            assert(cs.deep_view().skip(i as int).drop_first() =~= cs.deep_view().skip(i + 1));
        }
        let ghost before = cs.deep_view().skip(i + 1);
        match &cs[i] {
            PlanCounter::Count { name, value } => {
                if name_is_files_scanned(name.as_str()) {
                    files_scanned = sat_add(*value, files_scanned);
                    files_scanned_seen = true;
                }
                if name_is_files_pruned(name.as_str()) {
                    files_pruned = sat_add(*value, files_pruned);
                    files_pruned_seen = true;
                }
                if name_is_bytes_scanned(name.as_str()) {
                    bytes_scanned = sat_add(*value, bytes_scanned);
                    bytes_scanned_seen = true;
                }
                if name_is_files_scanned(name.as_str()) || name_is_bytes_scanned(name.as_str())
                    || name_is_pruning_stats(name.as_str()) {
                    scan_node = true;
                }
            },
            PlanCounter::Pruning { name, pruned } => {
                if name_is_pruning_stats(name.as_str()) {
                    files_pruned = sat_add(*pruned, files_pruned);
                    files_pruned_seen = true;
                }
                if name_is_files_scanned(name.as_str()) || name_is_bytes_scanned(name.as_str())
                    || name_is_pruning_stats(name.as_str()) {
                    scan_node = true;
                }
            },
            PlanCounter::Other { name } => {
                if name_is_files_scanned(name.as_str()) || name_is_bytes_scanned(name.as_str())
                    || name_is_pruning_stats(name.as_str()) {
                    scan_node = true;
                }
            },
        }
        proof {
            let now = cs.deep_view().skip(i as int);
            assert(spec_is_scan_node(now) == (spec_is_scan_node(before) || {
                let name = spec_counter_name(now[0]);
                spec_is_files_scanned_name(name) || spec_is_bytes_scanned_name(name)
                    || spec_is_pruning_stats_name(name)
            })) by {
                if spec_is_scan_node(before) {
                    let w = choose|w: int|
                        0 <= w < before.len() && {
                            let name = spec_counter_name(#[trigger] before[w]);
                            spec_is_files_scanned_name(name) || spec_is_bytes_scanned_name(name)
                                || spec_is_pruning_stats_name(name)
                        };
                    assert(now[w + 1] == before[w]);
                }
                if spec_is_scan_node(now) {
                    let w = choose|w: int|
                        0 <= w < now.len() && {
                            let name = spec_counter_name(#[trigger] now[w]);
                            spec_is_files_scanned_name(name) || spec_is_bytes_scanned_name(name)
                                || spec_is_pruning_stats_name(name)
                        };
                    if w > 0 {
                        assert(before[w - 1] == now[w]);
                    }
                }
            }
        }
    }
    proof {
        assert(cs.deep_view().skip(0) =~= cs.deep_view());
        assert(node@.metrics == Some(metrics@));
        assert(metrics@.counters == cs.deep_view());
    }
    let elapsed = metrics.elapsed_compute_nanos;
    Agg {
        files_scanned_seen,
        files_scanned,
        files_pruned_seen,
        files_pruned,
        bytes_scanned_seen,
        bytes_scanned,
        scan_elapsed_seen: scan_node && elapsed.is_some(),
        scan_elapsed_nanos: if scan_node {
            match elapsed {
                Some(v) => v,
                None => 0,
            }
        } else {
            0
        },
    }
}

fn collect_tree_agg(node: &PlanNode) -> (r: Agg)
    ensures
        r.view_of() == spec_tree_agg(node@),
    decreases node,
{
    let own = node_own_agg(node);
    let mut acc = agg_zero();
    let count = node.children.len();
    let mut i: usize = count;
    while i > 0
        invariant
            count == node.children@.len(),
            i <= count,
            acc.view_of() == spec_forest_agg(node@.children.skip(i as int)),
        decreases i,
    {
        i -= 1;
        proof {
            assert(node@.children.skip(i as int)[0] == node@.children[i as int]);
            assert(node@.children.skip(i as int).drop_first() =~= node@.children.skip(i + 1));
            assert(node@.children[i as int] == node.children@[i as int]@);
        }
        let child_agg = collect_tree_agg(&node.children[i]);
        acc = agg_combine(child_agg, acc);
    }
    proof {
        assert(node@.children.skip(0) =~= node@.children);
    }
    agg_combine(own, acc)
}

/// What the finished walk reports: each aggregate present exactly when
/// some node exposed it, with scan time converted to whole milliseconds.
pub open spec fn spec_scan_metrics_of(n: PlanNodeView) -> ScanMetrics {
    let agg = spec_tree_agg(n);
    ScanMetrics {
        files_scanned: if agg.files_scanned_seen {
            Some(agg.files_scanned)
        } else {
            None
        },
        files_pruned: if agg.files_pruned_seen {
            Some(agg.files_pruned)
        } else {
            None
        },
        bytes_scanned: if agg.bytes_scanned_seen {
            Some(agg.bytes_scanned)
        } else {
            None
        },
        scan_time_ms: if agg.scan_elapsed_seen {
            Some((agg.scan_elapsed_nanos / 1000000) as u64)
        } else {
            None
        },
    }
}

/// Walks the plan tree and reports the four aggregates, exactly as
/// `spec_scan_metrics_of` states.
pub fn extract_scan_metrics(plan: &PlanNode) -> (r: ScanMetrics)
    ensures
        r == spec_scan_metrics_of(plan@),
{
    let agg = collect_tree_agg(plan);
    ScanMetrics {
        files_scanned: if agg.files_scanned_seen {
            Some(agg.files_scanned)
        } else {
            None
        },
        files_pruned: if agg.files_pruned_seen {
            Some(agg.files_pruned)
        } else {
            None
        },
        bytes_scanned: if agg.bytes_scanned_seen {
            Some(agg.bytes_scanned)
        } else {
            None
        },
        scan_time_ms: if agg.scan_elapsed_seen {
            Some(agg.scan_elapsed_nanos / 1000000)
        } else {
            None
        },
    }
}

} // verus!
