//! Dependency-ordered task graphs for build workflows.
//!
//! The graph structure lives in a `petgraph` directed graph whose node `i` is
//! the task at position `i`; the stable topological order and the failure
//! propagation rules are this module's own.
use vstd::prelude::*;
use petgraph::graph::{Graph, NodeIndex};
use petgraph::{Directed, Direction};
use crate::text::{owned, push_str};

verus! {

#[verifier::external_type_specification]
#[verifier::external_body]
#[verifier::reject_recursive_types(N)]
#[verifier::reject_recursive_types(E)]
#[verifier::reject_recursive_types(Ty)]
#[verifier::reject_recursive_types(Ix)]
pub struct ExGraph<N, E, Ty, Ix>(Graph<N, E, Ty, Ix>);

#[verifier::external_type_specification]
#[verifier::external_body]
pub struct ExDirected(Directed);

/// The graph type that holds task dependencies: node weights live beside it.
pub type DependencyGraph = Graph<(), (), Directed, u32>;

/// The number of nodes of a dependency graph.
pub uninterp spec fn graph_node_count(g: Graph<(), (), Directed, u32>) -> nat;

/// The edges of a dependency graph as (source, target) pairs, in the order they were added.
pub uninterp spec fn graph_edges(g: Graph<(), (), Directed, u32>) -> Seq<(usize, usize)>;

/// The sources of the edges into `v`, most recently added first.
pub open spec fn incoming_sources(edges: Seq<(usize, usize)>, v: usize) -> Seq<usize>
    decreases edges.len(),
{
    if edges.len() == 0 {
        Seq::empty()
    } else {
        let rest = incoming_sources(edges.drop_last(), v);
        if edges.last().1 == v {
            seq![edges.last().0] + rest
        } else {
            rest
        }
    }
}

/// `Graph::new`: an empty directed graph.
#[verifier::external_body]
fn graph_new() -> (g: Graph<(), (), Directed, u32>)
    ensures
        graph_node_count(g) == 0,
        graph_edges(g) == Seq::<(usize, usize)>::empty(),
{
    Graph::new()
}

/// `Graph::add_node`: appends a node and returns its index, the former node
/// count; it panics when the graph already holds `u32::MAX` nodes.
#[verifier::external_body]
fn graph_add_node(g: &mut Graph<(), (), Directed, u32>) -> (i: usize)
    requires
        graph_node_count(*old(g)) < 0xFFFF_FFFFnat,
    ensures
        i == graph_node_count(*old(g)),
        graph_node_count(*final(g)) == graph_node_count(*old(g)) + 1,
        graph_edges(*final(g)) == graph_edges(*old(g)),
{
    g.add_node(()).index()
}

/// `Graph::add_edge`: appends the edge `a -> b`; both nodes must exist.
#[verifier::external_body]
fn graph_add_edge(g: &mut Graph<(), (), Directed, u32>, a: usize, b: usize)
    requires
        a < graph_node_count(*old(g)),
        b < graph_node_count(*old(g)),
        graph_edges(*old(g)).len() < 0xFFFF_FFFFnat,
    ensures
        graph_node_count(*final(g)) == graph_node_count(*old(g)),
        graph_edges(*final(g)) == graph_edges(*old(g)).push((a, b)),
{
    g.add_edge(NodeIndex::new(a), NodeIndex::new(b), ());
}

/// `Graph::neighbors_directed(node, Incoming)`: the sources of the edges into
/// `node`, in reverse order of their addition.
#[verifier::external_body]
fn graph_incoming(g: &Graph<(), (), Directed, u32>, node: usize) -> (r: Vec<usize>)
    requires
        node < graph_node_count(*g),
    ensures
        r@ == incoming_sources(graph_edges(*g), node),
{
    g.neighbors_directed(NodeIndex::new(node), Direction::Incoming).map(|n| n.index()).collect()
}

/// How a workflow executor reacts after a task fails.
#[derive(Debug, Clone, Copy, PartialEq, Eq, Structural)]
pub enum FailurePolicy {
    FailFast,
    Continue,
}

/// Execution status tracked by workflow executors.
#[derive(Debug, Clone, Copy, PartialEq, Eq, Structural, Hash)]
pub enum TaskStatus {
    Planned,
    Succeeded,
    Failed,
    Skipped,
}

/// Stable user-facing task identity.
#[derive(Debug, Clone)]
pub struct TaskId(String);

impl View for TaskId {
    type V = Seq<char>;

    closed spec fn view(&self) -> Seq<char> {
        self.0@
    }
}

impl TaskId {
    /// A task id with the given text.
    pub fn new(value: String) -> (r: TaskId)
        ensures
            r@ == value@,
    {
        TaskId(value)
    }

    /// The text of the id.
    pub fn as_str(&self) -> (r: &str)
        ensures
            r@ == self@,
    {
        self.0.as_str()
    }

    /// An equal copy of the id.
    pub fn copied(&self) -> (r: TaskId)
        ensures
            r@ == self@,
    {
        TaskId(self.0.clone())
    }

    /// Whether two ids are the same.
    pub fn same(&self, other: &TaskId) -> (r: bool)
        ensures
            r == (self@ == other@),
    {
        self.0 == other.0
    }
}

/// A dependency graph whose task semantics are owned by the caller.
pub struct TaskGraph<K> {
    graph: Graph<(), (), Directed, u32>,
    ids: Vec<TaskId>,
    kinds: Vec<K>,
}

/// Whether the ids are pairwise distinct.
pub open spec fn distinct_ids(ids: Seq<Seq<char>>) -> bool {
    forall|i: int, j: int| 0 <= i < j < ids.len() ==> ids[i] != ids[j]
}

impl<K> TaskGraph<K> {
    /// The task ids, by node.
    pub closed spec fn ids(&self) -> Seq<Seq<char>> {
        self.ids@.map_values(|t: TaskId| t@)
    }

    /// The task kinds, by node.
    pub closed spec fn kinds(&self) -> Seq<K> {
        self.kinds@
    }

    /// The dependency edges `(dependency, dependent)`, in the order they were added.
    pub closed spec fn edges(&self) -> Seq<(usize, usize)> {
        graph_edges(self.graph)
    }

    /// The number of tasks.
    pub open spec fn len(&self) -> nat {
        self.ids().len()
    }

    /// The graph's internal consistency.
    pub closed spec fn wf(&self) -> bool {
        &&& graph_node_count(self.graph) == self.ids@.len()
        &&& self.kinds@.len() == self.ids@.len()
        &&& self.ids@.len() <= 0xFFFF_FFFFnat
        &&& distinct_ids(self.ids())
        &&& forall|k: int|
            0 <= k < graph_edges(self.graph).len() ==> (#[trigger] graph_edges(self.graph)[k]).0
                < self.ids@.len() && graph_edges(self.graph)[k].1 < self.ids@.len()
    }

    /// What a consistent graph guarantees its users: one kind per task and
    /// edges between existing tasks.
    pub proof fn lemma_wf(&self)
        requires
            self.wf(),
        ensures
            self.kinds().len() == self.len(),
            distinct_ids(self.ids()),
            forall|k: int|
                0 <= k < self.edges().len() ==> (#[trigger] self.edges()[k]).0 < self.len() && self.edges()[k].1
                    < self.len(),
    {
    }

    /// An empty graph.
    pub fn new() -> (r: Self)
        ensures
            r.wf(),
            r.ids() == Seq::<Seq<char>>::empty(),
            r.kinds() == Seq::<K>::empty(),
            r.edges() == Seq::<(usize, usize)>::empty(),
    {
        let r = TaskGraph { graph: graph_new(), ids: Vec::new(), kinds: Vec::new() };
        assert(r.ids() =~= Seq::<Seq<char>>::empty());
        r
    }

    /// The node of the task with id `id`, adding the task when no task has
    /// that id yet; an existing task keeps its kind, so shared dependencies
    /// stay one node.
    pub fn task(&mut self, id: TaskId, kind: K) -> (node: usize)
        requires
            old(self).wf(),
            !old(self).ids().contains(id@) ==> old(self).len() < 0xFFFF_FFFFnat,
        ensures
            final(self).wf(),
            final(self).edges() == old(self).edges(),
            old(self).ids().contains(id@) ==> {
                &&& final(self).ids() == old(self).ids()
                &&& final(self).kinds() == old(self).kinds()
                &&& node < old(self).len()
                &&& old(self).ids()[node as int] == id@
            },
            !old(self).ids().contains(id@) ==> {
                &&& final(self).ids() == old(self).ids().push(id@)
                &&& final(self).kinds() == old(self).kinds().push(kind)
                &&& node == old(self).len()
            },
    {
        let mut i: usize = 0;
        while i < self.ids.len()
            invariant
                *self == *old(self),
                old(self).wf(),
                i <= self.ids@.len(),
                forall|j: int| 0 <= j < i ==> self.ids@[j]@ != id@,
            decreases self.ids.len() - i,
        {
            if self.ids[i].same(&id) {
                assert(self.ids()[i as int] == id@);
                return i;
            }
            i += 1;
        }
        assert(!self.ids().contains(id@)) by {
            if self.ids().contains(id@) {
                let j = choose|j: int| 0 <= j < self.ids().len() && self.ids()[j] == id@;
                assert(self.ids@[j]@ == id@);
            }
        }
        let ghost old_ids = self.ids();
        let node = graph_add_node(&mut self.graph);
        self.ids.push(id);
        self.kinds.push(kind);
        assert(self.ids() =~= old_ids.push(id@));
        node
    }

    /// Records that `task` depends on `dependency`: the edge runs from the
    /// dependency to the dependent so that dependencies come first.
    pub fn depends_on(&mut self, task: usize, dependency: usize)
        requires
            old(self).wf(),
            task < old(self).len(),
            dependency < old(self).len(),
            old(self).edges().len() < 0xFFFF_FFFFnat,
        ensures
            final(self).wf(),
            final(self).ids() == old(self).ids(),
            final(self).kinds() == old(self).kinds(),
            final(self).edges() == old(self).edges().push((dependency, task)),
    {
        graph_add_edge(&mut self.graph, dependency, task);
        assert forall|k: int| 0 <= k < graph_edges(self.graph).len() implies (#[trigger] graph_edges(
            self.graph,
        )[k]).0 < self.ids@.len() && graph_edges(self.graph)[k].1 < self.ids@.len() by {
            if k < graph_edges(self.graph).len() - 1 {
                assert(graph_edges(self.graph)[k] == old(self).edges()[k]);
            }
        }
    }

    /// The id of `task`.
    pub fn id(&self, task: usize) -> (r: &TaskId)
        requires
            self.wf(),
            task < self.len(),
        ensures
            r@ == self.ids()[task as int],
    {
        &self.ids[task]
    }

    /// The kind of `task`.
    pub fn kind(&self, task: usize) -> (r: &K)
        requires
            self.wf(),
            task < self.len(),
        ensures
            *r == self.kinds()[task as int],
    {
        &self.kinds[task]
    }

    /// The number of tasks.
    pub fn node_count(&self) -> (r: usize)
        requires
            self.wf(),
        ensures
            r == self.len(),
    {
        self.ids.len()
    }

    /// The dependencies of `task`, most recently added first.
    pub fn dependencies(&self, task: usize) -> (r: Vec<usize>)
        requires
            self.wf(),
            task < self.len(),
        ensures
            r@ == incoming_sources(self.edges(), task),
    {
        graph_incoming(&self.graph, task)
    }

    /// The ids of the dependencies of `task`, most recently added first.
    pub fn dependency_ids(&self, task: usize) -> (r: Vec<&TaskId>)
        requires
            self.wf(),
            task < self.len(),
        ensures
            r@.len() == incoming_sources(self.edges(), task).len(),
            forall|i: int|
                0 <= i < r@.len() ==> (#[trigger] r@[i])@ == self.ids()[incoming_sources(
                    self.edges(),
                    task,
                )[i] as int],
    {
        let deps = graph_incoming(&self.graph, task);
        proof {
            lemma_incoming_bounded(self.edges(), task, self.len());
        }
        let mut out: Vec<&TaskId> = Vec::new();
        let mut i: usize = 0;
        while i < deps.len()
            invariant
                self.wf(),
                deps@ == incoming_sources(self.edges(), task),
                forall|j: int| 0 <= j < deps@.len() ==> deps@[j] < self.len(),
                i <= deps.len(),
                out@.len() == i,
                forall|j: int| 0 <= j < i ==> (#[trigger] out@[j])@ == self.ids()[deps@[j] as int],
            decreases deps.len() - i,
        {
            out.push(&self.ids[deps[i]]);
            i += 1;
        }
        out
    }

    /// The ids of the dependencies of `task` that failed or were skipped,
    /// most recently added first; `statuses` holds the status of each node.
    pub fn failed_dependency_ids(&self, task: usize, statuses: &Vec<TaskStatus>) -> (r: Vec<&TaskId>)
        requires
            self.wf(),
            task < self.len(),
            statuses.len() == self.len(),
        ensures
            views_of_ids(r@) == failed_ids(self.ids(), incoming_sources(self.edges(), task), statuses@),
    {
        let deps = graph_incoming(&self.graph, task);
        proof {
            lemma_incoming_bounded(self.edges(), task, self.len());
        }
        let mut out: Vec<&TaskId> = Vec::new();
        let mut i: usize = 0;
        while i < deps.len()
            invariant
                self.wf(),
                statuses.len() == self.len(),
                deps@ == incoming_sources(self.edges(), task),
                forall|j: int| 0 <= j < deps@.len() ==> deps@[j] < self.len(),
                i <= deps.len(),
                views_of_ids(out@) == failed_ids(self.ids(), deps@.take(i as int), statuses@),
            decreases deps.len() - i,
        {
            let d = deps[i];
            proof {
                assert(deps@.take(i + 1).drop_last() =~= deps@.take(i as int));
            }
            if matches!(statuses[d], TaskStatus::Failed | TaskStatus::Skipped) {
                out.push(&self.ids[d]);
                proof {
                    assert(views_of_ids(out@) =~= views_of_ids(out@.drop_last()).push(self.ids()[d as int]));
                }
            }
            i += 1;
        }
        assert(deps@.take(deps.len() as int) =~= deps@);
        out
    }
}

/// The texts of a list of ids.
pub open spec fn views_of_ids(v: Seq<&TaskId>) -> Seq<Seq<char>> {
    v.map_values(|t: &TaskId| t@)
}

/// The ids of the listed nodes whose status is failed or skipped, in list order.
pub open spec fn failed_ids(ids: Seq<Seq<char>>, nodes: Seq<usize>, statuses: Seq<TaskStatus>) -> Seq<Seq<char>>
    decreases nodes.len(),
{
    if nodes.len() == 0 {
        Seq::empty()
    } else {
        let rest = failed_ids(ids, nodes.drop_last(), statuses);
        let s = statuses[nodes.last() as int];
        if s == TaskStatus::Failed || s == TaskStatus::Skipped {
            rest.push(ids[nodes.last() as int])
        } else {
            rest
        }
    }
}

/// An id is among the failed ids of a list of nodes exactly when one of
/// the nodes has that id and its status is failed or skipped.
#[verifier::spinoff_prover]
proof fn lemma_failed_ids_contains(ids: Seq<Seq<char>>, nodes: Seq<usize>, statuses: Seq<TaskStatus>, x: Seq<char>)
    ensures
        failed_ids(ids, nodes, statuses).contains(x) <==> exists|k: int|
            0 <= k < nodes.len() && (statuses[#[trigger] nodes[k] as int] == TaskStatus::Failed
                || statuses[nodes[k] as int] == TaskStatus::Skipped) && ids[nodes[k] as int] == x,
    decreases nodes.len(),
{
    if nodes.len() > 0 {
        let p = nodes.drop_last();
        lemma_failed_ids_contains(ids, p, statuses, x);
        let rest = failed_ids(ids, p, statuses);
        let n = nodes.last();
        let bad = statuses[n as int] == TaskStatus::Failed || statuses[n as int] == TaskStatus::Skipped;
        if exists|k: int|
            0 <= k < p.len() && (statuses[#[trigger] p[k] as int] == TaskStatus::Failed
                || statuses[p[k] as int] == TaskStatus::Skipped) && ids[p[k] as int] == x {
            let k = choose|k: int|
                0 <= k < p.len() && (statuses[#[trigger] p[k] as int] == TaskStatus::Failed
                    || statuses[p[k] as int] == TaskStatus::Skipped) && ids[p[k] as int] == x;
            assert(nodes[k] == p[k]);
        }
        if exists|k: int|
            0 <= k < nodes.len() && (statuses[#[trigger] nodes[k] as int] == TaskStatus::Failed
                || statuses[nodes[k] as int] == TaskStatus::Skipped) && ids[nodes[k] as int] == x {
            let k = choose|k: int|
                0 <= k < nodes.len() && (statuses[#[trigger] nodes[k] as int] == TaskStatus::Failed
                    || statuses[nodes[k] as int] == TaskStatus::Skipped) && ids[nodes[k] as int] == x;
            if k < p.len() {
                assert(p[k] == nodes[k]);
            }
        }
        if bad {
            assert(failed_ids(ids, nodes, statuses) == rest.push(ids[n as int]));
            if rest.push(ids[n as int]).contains(x) {
                let j = choose|j: int| 0 <= j < rest.len() + 1 && rest.push(ids[n as int])[j] == x;
                if j < rest.len() {
                    assert(rest[j] == x);
                }
            }
            if rest.contains(x) {
                let j = choose|j: int| 0 <= j < rest.len() && rest[j] == x;
                assert(rest.push(ids[n as int])[j] == x);
            }
            if ids[n as int] == x {
                assert(rest.push(ids[n as int])[rest.len() as int] == x);
            }
        }
    }
}

/// A dependency that failed or was skipped is always reported: whenever an
/// edge runs from `d` into `task` and `d` failed or was skipped, the id of
/// `d` is among the failed dependencies of `task` (so `task` is skipped
/// and never runs); and only such dependencies are reported.
#[verifier::spinoff_prover]
pub proof fn lemma_failed_or_skipped_dependency_reported(
    ids: Seq<Seq<char>>,
    edges: Seq<(usize, usize)>,
    task: usize,
    statuses: Seq<TaskStatus>,
    x: Seq<char>,
)
    ensures
        failed_ids(ids, incoming_sources(edges, task), statuses).contains(x) <==> exists|d: usize|
            #![trigger ids[d as int], statuses[d as int]]
            incoming_sources(edges, task).contains(d) && (statuses[d as int] == TaskStatus::Failed
                || statuses[d as int] == TaskStatus::Skipped) && ids[d as int] == x,
        forall|d: usize|
            #![trigger statuses[d as int], incoming_sources(edges, task).contains(d)]
            incoming_sources(edges, task).contains(d) && (statuses[d as int] == TaskStatus::Failed
                || statuses[d as int] == TaskStatus::Skipped) ==> failed_ids(
                ids,
                incoming_sources(edges, task),
                statuses,
            ).contains(ids[d as int]) && failed_ids(ids, incoming_sources(edges, task), statuses).len() > 0,
{
    let nodes = incoming_sources(edges, task);
    lemma_failed_ids_contains(ids, nodes, statuses, x);
    if exists|d: usize|
        #![trigger ids[d as int], statuses[d as int]]
        nodes.contains(d) && (statuses[d as int] == TaskStatus::Failed || statuses[d as int]
            == TaskStatus::Skipped) && ids[d as int] == x {
        let d = choose|d: usize|
            #![trigger ids[d as int], statuses[d as int]]
            nodes.contains(d) && (statuses[d as int] == TaskStatus::Failed || statuses[d as int]
                == TaskStatus::Skipped) && ids[d as int] == x;
        let k = choose|k: int| 0 <= k < nodes.len() && nodes[k] == d;
        assert(statuses[nodes[k] as int] == statuses[d as int]);
    }
    if failed_ids(ids, nodes, statuses).contains(x) {
        let k = choose|k: int|
            0 <= k < nodes.len() && (statuses[#[trigger] nodes[k] as int] == TaskStatus::Failed
                || statuses[nodes[k] as int] == TaskStatus::Skipped) && ids[nodes[k] as int] == x;
        assert(nodes.contains(nodes[k]));
        assert(ids[nodes[k] as int] == x);
    }
    assert forall|d: usize|
        #![trigger statuses[d as int], incoming_sources(edges, task).contains(d)]
        incoming_sources(edges, task).contains(d) && (statuses[d as int] == TaskStatus::Failed
            || statuses[d as int] == TaskStatus::Skipped) implies failed_ids(ids, nodes, statuses).contains(
        ids[d as int],
    ) && failed_ids(ids, nodes, statuses).len() > 0 by {
        lemma_failed_ids_contains(ids, nodes, statuses, ids[d as int]);
        let k = choose|k: int| 0 <= k < nodes.len() && nodes[k] == d;
        assert(statuses[nodes[k] as int] == statuses[d as int]);
        assert(ids[nodes[k] as int] == ids[d as int]);
    }
}

/// A source is listed exactly when some edge runs from it into `v`.
pub proof fn lemma_incoming_contains(edges: Seq<(usize, usize)>, v: usize, u: usize)
    ensures
        incoming_sources(edges, v).contains(u) <==> exists|k: int|
            0 <= k < edges.len() && (#[trigger] edges[k]).1 == v && edges[k].0 == u,
    decreases edges.len(),
{
    if edges.len() > 0 {
        let p = edges.drop_last();
        lemma_incoming_contains(p, v, u);
        let rest = incoming_sources(p, v);
        if edges.last().1 == v {
            let s = seq![edges.last().0] + rest;
            if s.contains(u) {
                let i = choose|i: int| 0 <= i < s.len() && s[i] == u;
                if i > 0 {
                    assert(rest[i - 1] == u);
                    assert(rest.contains(u));
                    let k = choose|k: int| 0 <= k < p.len() && (#[trigger] p[k]).1 == v && p[k].0 == u;
                    assert(edges[k] == p[k]);
                } else {
                    assert(edges[edges.len() - 1].1 == v);
                }
            }
            if exists|k: int| 0 <= k < edges.len() && (#[trigger] edges[k]).1 == v && edges[k].0 == u {
                let k = choose|k: int| 0 <= k < edges.len() && (#[trigger] edges[k]).1 == v && edges[k].0 == u;
                if k == edges.len() - 1 {
                    assert(s[0] == u);
                } else {
                    assert(p[k] == edges[k]);
                    assert(rest.contains(u));
                    let i = choose|i: int| 0 <= i < rest.len() && rest[i] == u;
                    assert(s[i + 1] == u);
                }
            }
        } else {
            if exists|k: int| 0 <= k < edges.len() && (#[trigger] edges[k]).1 == v && edges[k].0 == u {
                let k = choose|k: int| 0 <= k < edges.len() && (#[trigger] edges[k]).1 == v && edges[k].0 == u;
                assert(k != edges.len() - 1);
                assert(p[k] == edges[k]);
            }
            if rest.contains(u) {
                let k = choose|k: int| 0 <= k < p.len() && (#[trigger] p[k]).1 == v && p[k].0 == u;
                assert(edges[k] == p[k]);
            }
        }
    }
}

/// The listed sources are nodes of the graph.
pub proof fn lemma_incoming_bounded(edges: Seq<(usize, usize)>, v: usize, n: nat)
    requires
        forall|k: int| 0 <= k < edges.len() ==> (#[trigger] edges[k]).0 < n && edges[k].1 < n,
    ensures
        forall|j: int|
            0 <= j < incoming_sources(edges, v).len() ==> #[trigger] incoming_sources(edges, v)[j] < n,
    decreases edges.len(),
{
    if edges.len() > 0 {
        let p = edges.drop_last();
        assert forall|k: int| 0 <= k < p.len() implies (#[trigger] p[k]).0 < n && p[k].1 < n by {
            assert(p[k] == edges[k]);
        }
        lemma_incoming_bounded(p, v, n);
        assert(edges[edges.len() - 1].0 < n);
        let rest = incoming_sources(p, v);
        if edges.last().1 == v {
            let s = seq![edges.last().0] + rest;
            assert forall|j: int| 0 <= j < s.len() implies #[trigger] s[j] < n by {
                if j > 0 {
                    assert(s[j] == rest[j - 1]);
                }
            }
        }
    }
}

} // verus!

verus! {

/// Whether `v` can run once the tasks in `done` have run: it is a task that
/// has not run, and every task it depends on has.
pub open spec fn ready(n: nat, edges: Seq<(usize, usize)>, done: Seq<usize>, v: usize) -> bool {
    &&& v < n
    &&& !done.contains(v)
    &&& forall|k: int| 0 <= k < edges.len() && (#[trigger] edges[k]).1 == v ==> done.contains(edges[k].0)
}

/// Position `i` of `order` holds the lowest-numbered task that was ready.
pub open spec fn chosen_at(n: nat, edges: Seq<(usize, usize)>, order: Seq<usize>, i: int) -> bool {
    &&& ready(n, edges, order.take(i), order[i])
    &&& forall|w: usize| w < order[i] ==> !ready(n, edges, order.take(i), w)
}

/// `order` is the stable topological order built so far: each position holds
/// the lowest-numbered task whose dependencies all come earlier.
pub open spec fn stable_order(n: nat, edges: Seq<(usize, usize)>, order: Seq<usize>) -> bool {
    forall|i: int| 0 <= i < order.len() ==> #[trigger] chosen_at(n, edges, order, i)
}

/// A non-empty set of tasks each of which depends on a task of the set; such
/// a set exists exactly when the dependencies contain a cycle.
pub open spec fn closed_set(n: nat, edges: Seq<(usize, usize)>, s: Set<usize>) -> bool {
    &&& exists|v: usize| s.contains(v)
    &&& forall|v: usize|
        s.contains(v) ==> v < n && exists|k: int|
            0 <= k < edges.len() && (#[trigger] edges[k]).1 == v && s.contains(edges[k].0)
}

/// The dependencies contain a cycle.
pub open spec fn has_cycle(n: nat, edges: Seq<(usize, usize)>) -> bool {
    exists|s: Set<usize>| closed_set(n, edges, s)
}

/// The sequence `0, 1, ..., n - 1`.
pub open spec fn range_seq(n: nat) -> Seq<usize> {
    Seq::new(n, |i: int| i as usize)
}

/// A repeat-free sequence whose items all occur in `s` is no longer than `s`.
pub proof fn lemma_subseq_len(q: Seq<usize>, s: Seq<usize>)
    requires
        q.no_duplicates(),
        forall|i: int| 0 <= i < q.len() ==> s.contains(#[trigger] q[i]),
    ensures
        q.len() <= s.len(),
    decreases q.len(),
{
    if q.len() > 0 {
        let x = q.last();
        assert(s.contains(q[q.len() - 1]));
        let k = choose|k: int| 0 <= k < s.len() && s[k] == x;
        let t = s.subrange(0, k) + s.subrange(k + 1, s.len() as int);
        let p = q.drop_last();
        assert forall|i: int| 0 <= i < p.len() implies t.contains(#[trigger] p[i]) by {
            assert(p[i] == q[i]);
            assert(q[i] != q[q.len() - 1]);
            assert(s.contains(q[i]));
            let m = choose|m: int| 0 <= m < s.len() && s[m] == q[i];
            if m < k {
                assert(t[m] == s[m]);
            } else {
                assert(m != k);
                assert(t[m - 1] == s[m]);
            }
        }
        assert(p.no_duplicates()) by {
            assert forall|i: int, j: int| 0 <= i < p.len() && 0 <= j < p.len() && i != j implies p[i] != p[j] by {
                assert(p[i] == q[i] && p[j] == q[j]);
            }
        }
        lemma_subseq_len(p, t);
    }
}

/// A repeat-free sequence of tasks below `n` has at most `n` items; when it
/// has fewer, some task is missing, and when it has `n`, none is.
pub proof fn lemma_order_count(order: Seq<usize>, n: nat)
    requires
        order.no_duplicates(),
        forall|i: int| 0 <= i < order.len() ==> #[trigger] order[i] < n,
        n <= usize::MAX + 1,
    ensures
        order.len() <= n,
        order.len() < n ==> exists|v: usize| v < n && !order.contains(v),
        order.len() == n ==> forall|v: usize| v < n ==> order.contains(v),
{
    let r = range_seq(n);
    assert forall|i: int| 0 <= i < order.len() implies r.contains(#[trigger] order[i]) by {
        assert(r[order[i] as int] == order[i]);
    }
    lemma_subseq_len(order, r);
    if order.len() < n {
        if forall|v: usize| v < n ==> order.contains(v) {
            assert(r.no_duplicates());
            assert forall|i: int| 0 <= i < r.len() implies order.contains(#[trigger] r[i]) by {
                assert(r[i] < n);
            }
            lemma_subseq_len(r, order);
        }
    }
    if order.len() == n {
        assert forall|v: usize| v < n implies order.contains(v) by {
            if !order.contains(v) {
                let t = r.subrange(0, v as int) + r.subrange(v + 1, n as int);
                assert forall|i: int| 0 <= i < order.len() implies t.contains(#[trigger] order[i]) by {
                    let w = order[i];
                    assert(w != v);
                    if w < v {
                        assert(t[w as int] == w);
                    } else {
                        assert(t[w - 1] == w);
                    }
                }
                lemma_subseq_len(order, t);
            }
        }
    }
}

/// Some position satisfying `p` is the first one that does.
proof fn lemma_first_position(order: Seq<usize>, s: Set<usize>, j: int)
    requires
        0 <= j < order.len(),
        s.contains(order[j]),
    ensures
        exists|i: int|
            0 <= i <= j && s.contains(order[i]) && forall|m: int| 0 <= m < i ==> !s.contains(#[trigger] order[m]),
    decreases j,
{
    if exists|m: int| 0 <= m < j && s.contains(#[trigger] order[m]) {
        let m = choose|m: int| 0 <= m < j && s.contains(#[trigger] order[m]);
        lemma_first_position(order, s, m);
    } else {
        assert(forall|m: int| 0 <= m < j ==> !s.contains(#[trigger] order[m]));
    }
}

/// A stable order has no repeats.
pub proof fn lemma_stable_no_repeats(n: nat, edges: Seq<(usize, usize)>, order: Seq<usize>)
    requires
        stable_order(n, edges, order),
    ensures
        order.no_duplicates(),
        forall|i: int| 0 <= i < order.len() ==> #[trigger] order[i] < n,
{
    assert forall|i: int, j: int| 0 <= i < order.len() && 0 <= j < order.len() && i != j implies order[i]
        != order[j] by {
        if i < j {
            assert(chosen_at(n, edges, order, j));
            assert(order.take(j)[i] == order[i]);
        } else {
            assert(chosen_at(n, edges, order, i));
            assert(order.take(i)[j] == order[j]);
        }
    }
    assert forall|i: int| 0 <= i < order.len() implies #[trigger] order[i] < n by {
        assert(chosen_at(n, edges, order, i));
    }
}

/// A complete stable order runs every task exactly once, and every task
/// after all the tasks it depends on.
pub proof fn lemma_stable_order_is_topological(n: nat, edges: Seq<(usize, usize)>, order: Seq<usize>)
    requires
        stable_order(n, edges, order),
        order.len() == n,
        n <= usize::MAX + 1,
    ensures
        order.no_duplicates(),
        forall|v: usize| v < n ==> order.contains(v),
        forall|k: int, i: int, j: int|
            #![trigger edges[k], order[i], order[j]]
            0 <= k < edges.len() && 0 <= i < order.len() && 0 <= j < order.len() && order[i]
                == edges[k].0 && order[j] == edges[k].1 ==> i < j,
{
    lemma_stable_no_repeats(n, edges, order);
    lemma_order_count(order, n);
    assert forall|k: int, i: int, j: int|
        #![trigger edges[k], order[i], order[j]]
        0 <= k < edges.len() && 0 <= i < order.len() && 0 <= j < order.len() && order[i]
            == edges[k].0 && order[j] == edges[k].1 implies i < j by {
        assert(chosen_at(n, edges, order, j));
        let pre = order.take(j);
        assert(pre.contains(edges[k].0));
        let m = choose|m: int| 0 <= m < pre.len() && pre[m] == edges[k].0;
        assert(order[m] == order[i]);
    }
}

#[verifier::rlimit(60)]
#[verifier::spinoff_prover]
proof fn lemma_no_closed_set(n: nat, edges: Seq<(usize, usize)>, order: Seq<usize>, s: Set<usize>)
    requires
        stable_order(n, edges, order),
        forall|v: usize| v < n ==> order.contains(v),
    ensures
        !closed_set(n, edges, s),
{
    if closed_set(n, edges, s) {
    let v0 = choose|v: usize| s.contains(v);
    assert(v0 < n);
    assert(order.contains(v0));
    let j0 = choose|j: int| 0 <= j < order.len() && order[j] == v0;
    lemma_first_position(order, s, j0);
    let i = choose|i: int|
        0 <= i <= j0 && s.contains(order[i]) && forall|m: int| 0 <= m < i ==> !s.contains(#[trigger] order[m]);
    let x = order[i];
    let k = choose|k: int| 0 <= k < edges.len() && (#[trigger] edges[k]).1 == x && s.contains(edges[k].0);
    assert(chosen_at(n, edges, order, i));
    let pre = order.take(i);
    assert(pre.contains(edges[k].0));
    let m = choose|m: int| 0 <= m < pre.len() && pre[m] == edges[k].0;
    assert(order[m] == edges[k].0);
    assert(!s.contains(order[m]));
    }
}

/// A complete stable order means the dependencies have no cycle.
pub proof fn lemma_complete_order_acyclic(n: nat, edges: Seq<(usize, usize)>, order: Seq<usize>)
    requires
        stable_order(n, edges, order),
        order.len() == n,
        n <= usize::MAX + 1,
    ensures
        !has_cycle(n, edges),
{
    lemma_stable_no_repeats(n, edges, order);
    lemma_order_count(order, n);
    if has_cycle(n, edges) {
        let s = choose|s: Set<usize>| closed_set(n, edges, s);
        lemma_no_closed_set(n, edges, order, s);
    }
}

/// When no task is ready, the tasks that have not run form a cycle.
pub proof fn lemma_stuck_order_cyclic(n: nat, edges: Seq<(usize, usize)>, order: Seq<usize>)
    requires
        order.no_duplicates(),
        forall|i: int| 0 <= i < order.len() ==> #[trigger] order[i] < n,
        order.len() < n,
        n <= usize::MAX + 1,
        forall|w: usize| !ready(n, edges, order, w),
        forall|k: int| 0 <= k < edges.len() ==> (#[trigger] edges[k]).0 < n,
    ensures
        has_cycle(n, edges),
{
    lemma_order_count(order, n);
    let s = Set::new(|v: usize| v < n && !order.contains(v));
    let v0 = choose|v: usize| v < n && !order.contains(v);
    assert(s.contains(v0));
    assert forall|v: usize| s.contains(v) implies v < n && exists|k: int|
        0 <= k < edges.len() && (#[trigger] edges[k]).1 == v && s.contains(edges[k].0) by {
        assert(!ready(n, edges, order, v));
        let k = choose|k: int| 0 <= k < edges.len() && (#[trigger] edges[k]).1 == v && !order.contains(edges[k].0);
        assert(s.contains(edges[k].0));
    }
    assert(closed_set(n, edges, s));
}

impl<K> TaskGraph<K> {
    /// Whether every dependency of `v` has run, given which tasks have run.
    fn dependencies_done(&self, v: usize, emitted: &Vec<bool>) -> (r: bool)
        requires
            self.wf(),
            v < self.len(),
            emitted.len() == self.len(),
        ensures
            r == forall|k: int|
                0 <= k < self.edges().len() && (#[trigger] self.edges()[k]).1 == v ==> emitted@[self.edges()[k].0 as int],
    {
        let deps = graph_incoming(&self.graph, v);
        proof {
            lemma_incoming_bounded(self.edges(), v, self.len());
        }
        let mut i: usize = 0;
        while i < deps.len()
            invariant
                self.wf(),
                emitted.len() == self.len(),
                deps@ == incoming_sources(self.edges(), v),
                forall|j: int| 0 <= j < deps@.len() ==> deps@[j] < self.len(),
                i <= deps.len(),
                forall|j: int| 0 <= j < i ==> emitted@[#[trigger] deps@[j] as int],
            decreases deps.len() - i,
        {
            if !emitted[deps[i]] {
                proof {
                    lemma_incoming_contains(self.edges(), v, deps@[i as int]);
                    assert(deps@.contains(deps@[i as int]));
                }
                return false;
            }
            i += 1;
        }
        proof {
            assert forall|k: int|
                0 <= k < self.edges().len() && (#[trigger] self.edges()[k]).1 == v implies emitted@[self.edges()[k].0 as int] by {
                lemma_incoming_contains(self.edges(), v, self.edges()[k].0);
                let j = choose|j: int| 0 <= j < deps@.len() && deps@[j] == self.edges()[k].0;
            }
        }
        true
    }

    /// The tasks in stable topological order: dependencies first and, among
    /// the tasks that are ready, the lowest-numbered (earliest added) first.
    /// Fails exactly when the dependencies contain a cycle.
    pub fn ordered(&self) -> (r: Result<Vec<usize>, String>)
        requires
            self.wf(),
        ensures
            r matches Ok(order) ==> order@.len() == self.len() && stable_order(self.len(), self.edges(), order@),
            r is Err <==> has_cycle(self.len(), self.edges()),
            r matches Err(e) ==> e@ == "xtask workflow graph has a dependency cycle"@,
    {
        let n = self.ids.len();
        let ghost edges = self.edges();
        let mut emitted: Vec<bool> = Vec::new();
        while emitted.len() < n
            invariant
                emitted.len() <= n,
                forall|v: int| 0 <= v < emitted.len() ==> !emitted@[v],
            decreases n - emitted.len(),
        {
            emitted.push(false);
        }
        let mut order: Vec<usize> = Vec::new();
        loop
            invariant
                self.wf(),
                n == self.len(),
                edges == self.edges(),
                emitted.len() == n,
                forall|v: int| 0 <= v < n ==> emitted@[v] == order@.contains(v as usize),
                stable_order(n as nat, edges, order@),
                order@.len() <= n,
            decreases n - order@.len(),
        {
            proof {
                lemma_stable_no_repeats(n as nat, edges, order@);
                lemma_order_count(order@, n as nat);
            }
            if order.len() == n {
                proof {
                    lemma_complete_order_acyclic(n as nat, edges, order@);
                }
                return Ok(order);
            }
            let mut chosen: Option<usize> = None;
            let mut v: usize = 0;
            while v < n && chosen.is_none()
                invariant
                    self.wf(),
                    n == self.len(),
                    edges == self.edges(),
                    emitted.len() == n,
                    forall|u: int| 0 <= u < n ==> emitted@[u] == order@.contains(u as usize),
                    v <= n,
                    chosen is None ==> forall|w: usize| w < v ==> !ready(n as nat, edges, order@, w),
                    chosen matches Some(x) ==> x < v && ready(n as nat, edges, order@, x) && forall|w: usize|
                        w < x ==> !ready(n as nat, edges, order@, w),
                decreases n - v,
            {
                let done = self.dependencies_done(v, &emitted);
                proof {
                    assert(ready(n as nat, edges, order@, v) == (!emitted@[v as int] && done));
                }
                if !emitted[v] && done {
                    chosen = Some(v);
                }
                v += 1;
            }
            match chosen {
                None => {
                    proof {
                        assert forall|w: usize| !ready(n as nat, edges, order@, w) by {
                            if w < n {
                                assert(w < v);
                            }
                        }
                        lemma_stuck_order_cyclic(n as nat, edges, order@);
                    }
                    let mut e = owned("xtask workflow graph has a dependency cycle");
                    return Err(e);
                },
                Some(x) => {
                    let ghost old_order = order@;
                    order.push(x);
                    emitted.set(x, true);
                    proof {
                        assert forall|i: int| 0 <= i < order@.len() implies #[trigger] chosen_at(
                            n as nat,
                            edges,
                            order@,
                            i,
                        ) by {
                            if i < old_order.len() {
                                assert(order@.take(i) =~= old_order.take(i));
                                assert(chosen_at(n as nat, edges, old_order, i));
                            } else {
                                assert(order@.take(i) =~= old_order);
                            }
                        }
                        assert forall|u: int| 0 <= u < n implies emitted@[u] == order@.contains(u as usize) by {
                            if u == x {
                                assert(order@[old_order.len() as int] == x);
                            } else {
                                if order@.contains(u as usize) {
                                    let j = choose|j: int| 0 <= j < order@.len() && order@[j] == u as usize;
                                    assert(j < old_order.len());
                                    assert(old_order[j] == u as usize);
                                }
                                if old_order.contains(u as usize) {
                                    let j = choose|j: int| 0 <= j < old_order.len() && old_order[j] == u as usize;
                                    assert(order@[j] == u as usize);
                                }
                            }
                        }
                        lemma_stable_no_repeats(n as nat, edges, order@);
                        lemma_order_count(order@, n as nat);
                    }
                },
            }
        }
    }
}

} // verus!
