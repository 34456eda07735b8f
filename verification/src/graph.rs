//! Dependent timer graphs: a root timer unlocks follow-up nodes as their
//! prerequisites complete. The executor tracks, per root, which nodes were
//! already handed out and which completed.

use vstd::prelude::*;
use vstd::string::StringExecFns;

use crate::json::{dup_opt_json, opt_json_view, JsonModel, JsonValue};
use crate::timer::{dup_labels, labels_view};

verus! {

/// One follow-up node of a timer graph.
#[derive(Debug)]
pub struct TemporalGraphNode {
    pub id: String,
    /// The node identifiers that must complete before this node is ready;
    /// an empty list makes it ready as soon as the graph is registered.
    pub after: Vec<String>,
    pub offset_ms: Option<u64>,
    pub duration_ms: Option<u64>,
    pub metadata: Option<JsonValue>,
    pub labels: Vec<(String, String)>,
    pub action_bundle: Option<JsonValue>,
    pub agent_binding: Option<JsonValue>,
}

/// The mathematical shape of one graph node.
pub struct NodeModel {
    pub id: Seq<char>,
    pub after: Seq<Seq<char>>,
    pub offset_ms: Option<u64>,
    pub duration_ms: Option<u64>,
    pub metadata: Option<JsonModel>,
    pub labels: Seq<(Seq<char>, Seq<char>)>,
    pub action_bundle: Option<JsonModel>,
    pub agent_binding: Option<JsonModel>,
}

/// The views of a list of strings.
pub open spec fn strs_view(s: Seq<String>) -> Seq<Seq<char>> {
    Seq::new(s.len(), |i: int| s[i]@)
}

impl View for TemporalGraphNode {
    type V = NodeModel;

    open spec fn view(&self) -> NodeModel {
        NodeModel {
            id: self.id@,
            after: strs_view(self.after@),
            offset_ms: self.offset_ms,
            duration_ms: self.duration_ms,
            metadata: opt_json_view(self.metadata),
            labels: labels_view(self.labels@),
            action_bundle: opt_json_view(self.action_bundle),
            agent_binding: opt_json_view(self.agent_binding),
        }
    }
}

/// A graph as requested: a root marker and the follow-up nodes.
#[derive(Debug)]
pub struct TemporalGraphSpec {
    pub root: String,
    pub nodes: Vec<TemporalGraphNode>,
}

/// The identifier a graph's root carries when none is chosen.
pub fn default_root_id() -> (r: String)
    ensures
        r@ == "root"@,
{
    String::from_str("root")
}

fn dup_strings(v: &Vec<String>) -> (r: Vec<String>)
    ensures
        strs_view(r@) == strs_view(v@),
{
    let mut out: Vec<String> = Vec::new();
    let n = v.len();
    let mut i: usize = 0;
    while i < n
        invariant
            n == v@.len(),
            0 <= i <= n,
            out@.len() == i,
            forall|j: int| 0 <= j < i ==> (#[trigger] out@[j])@ == v@[j]@,
        decreases n - i,
    {
        out.push(v[i].clone());
        i += 1;
    }
    proof {
        assert(strs_view(out@) =~= strs_view(v@));
    }
    out
}

impl TemporalGraphNode {
    /// A deep copy whose model is exactly this one's.
    pub fn duplicate(&self) -> (r: Self)
        ensures
            r@ == self@,
    {
        TemporalGraphNode {
            id: self.id.clone(),
            after: dup_strings(&self.after),
            offset_ms: self.offset_ms,
            duration_ms: self.duration_ms,
            metadata: dup_opt_json(&self.metadata),
            labels: dup_labels(&self.labels),
            action_bundle: dup_opt_json(&self.action_bundle),
            agent_binding: dup_opt_json(&self.agent_binding),
        }
    }
}

/// Whether a list of strings holds `x`.
pub open spec fn strs_contain(s: Seq<Seq<char>>, x: Seq<char>) -> bool {
    exists|i: int| 0 <= i < s.len() && s[i] == x
}

fn vec_contains(v: &Vec<String>, x: &str) -> (r: bool)
    ensures
        r == strs_contain(strs_view(v@), x@),
{
    let n = v.len();
    let mut i: usize = 0;
    while i < n
        invariant
            n == v@.len(),
            0 <= i <= n,
            forall|j: int| 0 <= j < i ==> strs_view(v@)[j] != x@,
        decreases n - i,
    {
        proof {
            assert(strs_view(v@)[i as int] == v@[i as int]@);
        }
        if crate::strutil::str_eq(v[i].as_str(), x) {
            return true;
        }
        i += 1;
    }
    false
}

/// One registered graph in flight.
struct GraphRun {
    root_id: u128,
    root_node: String,
    nodes: Vec<TemporalGraphNode>,
    scheduled: Vec<String>,
    completed: Vec<String>,
}

/// The mathematical shape of a graph in flight.
pub struct RunModel {
    pub root_id: u128,
    pub root_node: Seq<char>,
    pub nodes: Seq<NodeModel>,
    pub scheduled: Seq<Seq<char>>,
    pub completed: Seq<Seq<char>>,
}

/// The models of a list of nodes.
pub open spec fn nodes_view(s: Seq<TemporalGraphNode>) -> Seq<NodeModel> {
    Seq::new(s.len(), |i: int| s[i]@)
}

impl View for GraphRun {
    type V = RunModel;

    closed spec fn view(&self) -> RunModel {
        RunModel {
            root_id: self.root_id,
            root_node: self.root_node@,
            nodes: nodes_view(self.nodes@),
            scheduled: strs_view(self.scheduled@),
            completed: strs_view(self.completed@),
        }
    }
}

/// Whether `node` is one of the nodes of a run registered under `root_id`.
pub open spec fn from_run_of(prev: Seq<RunModel>, root_id: u128, node: NodeModel) -> bool {
    exists|ri: int, i: int|
        0 <= ri < prev.len() && 0 <= i < (#[trigger] prev[ri]).nodes.len() && prev[ri].root_id
            == root_id && #[trigger] prev[ri].nodes[i] == node
}

/// Executes timer graphs: hands out each node once, as soon as its
/// prerequisites have completed, and drops a run once everything finished.
pub struct TemporalGraphExecutor {
    runs: Vec<GraphRun>,
}

/// The models of the registered runs.
spec fn runs_view(s: Seq<GraphRun>) -> Seq<RunModel> {
    Seq::new(s.len(), |i: int| s[i]@)
}

impl View for TemporalGraphExecutor {
    type V = Seq<RunModel>;

    closed spec fn view(&self) -> Seq<RunModel> {
        runs_view(self.runs@)
    }
}

impl TemporalGraphExecutor {
    /// An executor with no graphs in flight.
    pub fn new() -> (r: Self)
        ensures
            r@ =~= Seq::<RunModel>::empty(),
    {
        TemporalGraphExecutor { runs: Vec::new() }
    }

    /// Registers a graph under its root timer and hands out every node with
    /// no prerequisites, in declaration order. The root node counts as
    /// handed out from the start.
    pub fn register_root(&mut self, root_id: u128, graph: TemporalGraphSpec, root_node: String) -> (r:
        Vec<TemporalGraphNode>)
        ensures
            final(self)@.len() == old(self)@.len() + 1,
            forall|k: int| 0 <= k < old(self)@.len() ==> final(self)@[k] == old(self)@[k],
            ({
                let run = final(self)@.last();
                &&& run.root_id == root_id
                &&& run.root_node == root_node@
                &&& run.nodes == nodes_view(graph.nodes@)
                &&& run.completed =~= Seq::<Seq<char>>::empty()
                // handed out: the root marker plus every immediately ready node
                &&& nodes_view(r@) =~= nodes_view(graph.nodes@).filter(
                    |n: NodeModel| n.after.len() == 0,
                )
            }),
    {
        broadcast use vstd::seq_lib::group_seq_lib_default;

        let mut ready: Vec<TemporalGraphNode> = Vec::new();
        let mut scheduled: Vec<String> = Vec::new();
        scheduled.push(root_node.clone());
        let n = graph.nodes.len();
        let mut i: usize = 0;
        while i < n
            invariant
                n == graph.nodes@.len(),
                0 <= i <= n,
                nodes_view(ready@) =~= nodes_view(graph.nodes@).take(i as int).filter(
                    |nd: NodeModel| nd.after.len() == 0,
                ),
            decreases n - i,
        {
            proof {
                reveal(Seq::filter);
                assert(nodes_view(graph.nodes@).take(i + 1).drop_last() =~= nodes_view(
                    graph.nodes@,
                ).take(i as int));
                assert(nodes_view(graph.nodes@).take(i + 1).last() == nodes_view(graph.nodes@)[i as int]);
                assert(nodes_view(graph.nodes@)[i as int] == graph.nodes@[i as int]@);
            }
            if graph.nodes[i].after.len() == 0 {
                let copy = graph.nodes[i].duplicate();
                ready.push(copy);
                proof {
                    assert(nodes_view(ready@) =~= nodes_view(graph.nodes@).take(i + 1).filter(
                        |nd: NodeModel| nd.after.len() == 0,
                    ));
                }
            } else {
                proof {
                    assert(nodes_view(ready@) =~= nodes_view(graph.nodes@).take(i + 1).filter(
                        |nd: NodeModel| nd.after.len() == 0,
                    ));
                }
            }
            i += 1;
        }
        // record what was handed out
        let m = ready.len();
        let mut j: usize = 0;
        while j < m
            invariant
                m == ready@.len(),
                0 <= j <= m,
            decreases m - j,
        {
            scheduled.push(ready[j].id.clone());
            j += 1;
        }
        let run = GraphRun {
            root_id,
            root_node,
            nodes: graph.nodes,
            scheduled,
            completed: Vec::new(),
        };
        self.runs.push(run);
        proof {
            assert(nodes_view(graph.nodes@).take(n as int) =~= nodes_view(graph.nodes@));
            assert(final(self)@ =~= old(self)@.push(final(self)@.last()));
        }
        ready
    }

    /// Records the completion of one node under a root and hands out every
    /// node that thereby became ready, in declaration order; a run whose
    /// nodes have all completed, root included, is dropped. An unknown root
    /// yields nothing.
    pub fn record_completion(&mut self, root_id: u128, node_id: &str) -> (r: Vec<
        TemporalGraphNode,
    >)
        ensures
            forall|k: int|
                0 <= k < r@.len() ==> from_run_of(old(self)@, root_id, (#[trigger] r@[k])@),
    {
        let n = self.runs.len();
        let mut idx: usize = 0;
        let mut found = false;
        while idx < n && !found
            invariant
                n == self.runs@.len(),
                0 <= idx <= n,
                found ==> idx < n && self.runs@[idx as int].root_id == root_id,
                self@ == old(self)@,
            decreases n - idx + (if found { 0int } else { 1int }),
        {
            if self.runs[idx].root_id == root_id {
                found = true;
            } else {
                idx += 1;
            }
        }
        if !found {
            return Vec::new();
        }

        let run = self.runs.remove(idx);
        let ghost run0 = run@;
        let GraphRun { root_id: rid, root_node, nodes, mut scheduled, mut completed } = run;
        completed.push(String::from_str(node_id));

        let mut ready: Vec<TemporalGraphNode> = Vec::new();
        let count = nodes.len();
        let mut i: usize = 0;
        while i < count
            invariant
                count == nodes@.len(),
                0 <= i <= count,
                forall|k: int|
                    0 <= k < ready@.len() ==> exists|j: int|
                        0 <= j < nodes@.len() && (#[trigger] ready@[k])@ == nodes@[j]@,
            decreases count - i,
        {
            let deps_met = all_completed(&nodes[i].after, &completed);
            let seen = vec_contains(&scheduled, nodes[i].id.as_str());
            if deps_met && !seen {
                scheduled.push(nodes[i].id.clone());
                let copy = nodes[i].duplicate();
                proof {
                    assert(copy@ == nodes@[i as int]@);
                }
                ready.push(copy);
            }
            i += 1;
        }

        // drop the run once every node and the root completed
        if completed.len() <= nodes.len() {
            let run_back = GraphRun { root_id: rid, root_node, nodes, scheduled, completed };
            self.runs.insert(idx, run_back);
        }
        proof {
            assert(old(self)@.contains(run0)) by {
                assert(old(self)@[idx as int] == run0);
            }
            assert forall|k: int|
                0 <= k < ready@.len() implies from_run_of(
                old(self)@,
                root_id,
                (#[trigger] ready@[k])@,
            ) by {
                let j = choose|j: int| 0 <= j < nodes@.len() && (#[trigger] ready@[k])@ == nodes@[j]@;
                assert(run0.nodes[j] == nodes@[j]@);
                assert(0 <= j < run0.nodes.len());
                assert(run0.root_id == root_id);
                assert(old(self)@[idx as int] == run0);
                assert(0 <= idx < old(self)@.len() && 0 <= j < old(self)@[idx as int].nodes.len()
                    && old(self)@[idx as int].root_id == root_id && old(self)@[idx as int].nodes[j]
                    == ready@[k]@);
            }
        }
        ready
    }
}

/// Whether every prerequisite in `after` has completed.
fn all_completed(after: &Vec<String>, completed: &Vec<String>) -> (r: bool)
    ensures
        r == forall|j: int|
            0 <= j < after@.len() ==> strs_contain(strs_view(completed@), (#[trigger] after@[j])@),
{
    let n = after.len();
    let mut i: usize = 0;
    while i < n
        invariant
            n == after@.len(),
            0 <= i <= n,
            forall|j: int|
                0 <= j < i ==> strs_contain(strs_view(completed@), (#[trigger] after@[j])@),
        decreases n - i,
    {
        if !vec_contains(completed, after[i].as_str()) {
            return false;
        }
        i += 1;
    }
    true
}

} // verus!
