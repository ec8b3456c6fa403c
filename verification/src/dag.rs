//! The dependency graph of a workflow and the order its nodes run in.
//!
//! The graph itself is a `petgraph` directed graph whose node `i` stands for
//! the workflow node at position `i`; the traversal is petgraph's `Topo`.

use vstd::prelude::*;
use petgraph::graph::DiGraph;
use crate::text::str_eq;
use crate::workflow::{edge_views, node_views, NodeView, WorkflowNode};

verus! {

#[verifier::external_type_specification]
#[verifier::external_body]
#[verifier::reject_recursive_types(N)]
#[verifier::reject_recursive_types(E)]
#[verifier::reject_recursive_types(Ty)]
#[verifier::reject_recursive_types(Ix)]
pub struct ExGraph<N, E, Ty, Ix>(petgraph::graph::Graph<N, E, Ty, Ix>);

#[verifier::external_type_specification]
#[verifier::external_body]
pub struct ExDirected(petgraph::Directed);

/// The links a graph holds, in the order they were added, each as the
/// positions of its source and its target.
pub uninterp spec fn graph_links(g: DiGraph<(), ()>) -> Seq<(usize, usize)>;

/// The number of nodes a graph holds.
pub uninterp spec fn graph_size(g: DiGraph<(), ()>) -> nat;

/// The sequence of node positions that petgraph's `Topo` walk yields on a
/// graph of `size` nodes holding `links`.
pub uninterp spec fn topo_walk(size: nat, links: Seq<(usize, usize)>) -> Seq<usize>;

/// `DiGraph::new()`: a graph with no nodes and no links.
#[verifier::external_body]
fn graph_new() -> (g: DiGraph<(), ()>)
    ensures
        graph_size(g) == 0,
        graph_links(g) == Seq::<(usize, usize)>::empty(),
{
    DiGraph::new()
}

/// `Graph::add_node`: appends one node, whose position is the former node
/// count, and leaves the links as they were. petgraph panics once the count
/// reaches the largest `u32`, which `requires` rules out.
#[verifier::external_body]
fn graph_add_node(g: &mut DiGraph<(), ()>) -> (i: usize)
    requires
        graph_size(*old(g)) < u32::MAX,
    ensures
        i == graph_size(*old(g)),
        graph_size(*final(g)) == graph_size(*old(g)) + 1,
        graph_links(*final(g)) == graph_links(*old(g)),
{
    g.add_node(()).index()
}

/// `Graph::add_edge`: appends the link `(a, b)`. petgraph panics when either
/// end is not a node or the link count reaches the largest `u32`; `requires`
/// rules both out.
#[verifier::external_body]
fn graph_add_edge(g: &mut DiGraph<(), ()>, a: usize, b: usize)
    requires
        a < graph_size(*old(g)),
        b < graph_size(*old(g)),
        graph_size(*old(g)) < u32::MAX,
        graph_links(*old(g)).len() + 1 < u32::MAX,
    ensures
        graph_size(*final(g)) == graph_size(*old(g)),
        graph_links(*final(g)) == graph_links(*old(g)).push((a, b)),
{
    g.add_edge(petgraph::graph::NodeIndex::new(a), petgraph::graph::NodeIndex::new(b), ());
}

/// `Graph::node_count`.
#[verifier::external_body]
fn graph_node_count(g: &DiGraph<(), ()>) -> (n: usize)
    ensures
        n == graph_size(*g),
{
    g.node_count()
}

/// `Graph::neighbors_directed(b, Incoming)`: the sources of the links into
/// `b`. Only which positions occur is stated; petgraph lists them newest
/// link first.
#[verifier::external_body]
fn graph_sources(g: &DiGraph<(), ()>, b: usize) -> (v: Vec<usize>)
    requires
        b < graph_size(*g),
        graph_size(*g) < u32::MAX,
    ensures
        forall|a: usize| v@.contains(a) <==> graph_links(*g).contains((a, b)),
{
    g.neighbors_directed(petgraph::graph::NodeIndex::new(b), petgraph::Direction::Incoming)
        .map(|n| n.index()).collect()
}

/// The whole walk of petgraph's `Topo` over `g`, as positions.
///
/// Besides naming the result, the contract states what `Topo::next` shows:
/// no position comes twice; every position is a node; a node is yielded only
/// after every source of a link into it; and when every link runs from a
/// lower to a higher position (so the graph has no cycle) every node is
/// yielded.
#[verifier::external_body]
fn topo_order(g: &DiGraph<(), ()>) -> (order: Vec<usize>)
    ensures
        order@ == topo_walk(graph_size(*g), graph_links(*g)),
        forall|i: int, j: int| 0 <= i < j < order@.len() ==> order@[i] != order@[j],
        forall|k: int| 0 <= k < order@.len() ==> order@[k] < graph_size(*g),
        forall|k: int, e: int|
            0 <= k < order@.len() && 0 <= e < graph_links(*g).len()
                && (#[trigger] graph_links(*g)[e]).1 == #[trigger] order@[k]
                ==> exists|j: int| 0 <= j < k && order@[j] == graph_links(*g)[e].0,
        (forall|e: int| 0 <= e < graph_links(*g).len()
            ==> (#[trigger] graph_links(*g)[e]).0 < graph_links(*g)[e].1)
            ==> order@.len() == graph_size(*g),
{
    petgraph::visit::Walker::iter(petgraph::visit::Topo::new(g), g).map(|n| n.index()).collect()
}

/// The position of the last node of `ns` whose id is `id`: the node that a
/// lookup by id finds once every node has been entered under its id.
pub open spec fn last_with_id(ns: Seq<NodeView>, id: Seq<char>) -> Option<int>
    decreases ns.len(),
{
    if ns.len() == 0 {
        None
    } else if ns.last().id == id {
        Some(ns.len() - 1)
    } else {
        last_with_id(ns.drop_last(), id)
    }
}

/// The links of the graph built from `ns` and the id pairs `es`: each pair
/// whose ids both name a node becomes a link between the last nodes with
/// those ids; the other pairs are dropped.
pub open spec fn dag_links(ns: Seq<NodeView>, es: Seq<(Seq<char>, Seq<char>)>) -> Seq<(usize, usize)>
    decreases es.len(),
{
    if es.len() == 0 {
        Seq::empty()
    } else {
        let prev = dag_links(ns, es.drop_last());
        match (last_with_id(ns, es.last().0), last_with_id(ns, es.last().1)) {
            (Some(a), Some(b)) => prev.push((a as usize, b as usize)),
            _ => prev,
        }
    }
}

/// The positions among the first `n` of `ns` that hold the last node with
/// their id, in ascending order.
pub open spec fn heads(ns: Seq<NodeView>, n: nat) -> Seq<usize>
    decreases n,
{
    if n == 0 {
        Seq::empty()
    } else {
        let prev = heads(ns, (n - 1) as nat);
        if last_with_id(ns, ns[n - 1].id) == Some(n - 1) {
            prev.push((n - 1) as usize)
        } else {
            prev
        }
    }
}

/// Whether some link from position `a` goes into a node whose id is `id`.
pub open spec fn links_into(ns: Seq<NodeView>, links: Seq<(usize, usize)>, a: usize, id: Seq<char>) -> bool {
    exists|e: int| 0 <= e < links.len() && (#[trigger] links[e]).0 == a && ns[links[e].1 as int].id == id
}

/// The positions of `hs`, in order, from which some link goes into a node
/// whose id is `id`: the nodes that must finish before that node.
pub open spec fn keep_linked(
    ns: Seq<NodeView>,
    links: Seq<(usize, usize)>,
    id: Seq<char>,
    hs: Seq<usize>,
) -> Seq<usize>
    decreases hs.len(),
{
    if hs.len() == 0 {
        Seq::empty()
    } else {
        let prev = keep_linked(ns, links, id, hs.drop_last());
        if links_into(ns, links, hs.last(), id) {
            prev.push(hs.last())
        } else {
            prev
        }
    }
}

proof fn lemma_heads_bounded(ns: Seq<NodeView>, n: nat)
    ensures
        forall|k: int| 0 <= k < heads(ns, n).len() ==> (#[trigger] heads(ns, n)[k]) < n,
    decreases n,
{
    if n > 0 {
        let prev = heads(ns, (n - 1) as nat);
        lemma_heads_bounded(ns, (n - 1) as nat);
        assert forall|k: int| 0 <= k < heads(ns, n).len() implies (#[trigger] heads(ns, n)[k]) < n by {
            if k < prev.len() {
                assert(heads(ns, n)[k] == prev[k]);
            }
        }
    }
}

/// `last_with_id` finds the last node with the id, or tells that none has it.
pub proof fn lemma_last_with_id(ns: Seq<NodeView>, id: Seq<char>)
    ensures
        match last_with_id(ns, id) {
            Some(i) => 0 <= i < ns.len() && ns[i].id == id && forall|j: int|
                i < j < ns.len() ==> (#[trigger] ns[j]).id != id,
            None => forall|j: int| 0 <= j < ns.len() ==> (#[trigger] ns[j]).id != id,
        },
    decreases ns.len(),
{
    if ns.len() > 0 {
        lemma_last_with_id(ns.drop_last(), id);
        if ns.last().id != id {
            assert forall|j: int| 0 <= j < ns.len() - 1 implies #[trigger] ns[j] == ns.drop_last()[j] by {}
        }
    }
}

proof fn lemma_dag_links_bounded(ns: Seq<NodeView>, es: Seq<(Seq<char>, Seq<char>)>)
    ensures
        dag_links(ns, es).len() <= es.len(),
        forall|e: int| 0 <= e < dag_links(ns, es).len() ==> (#[trigger] dag_links(ns, es)[e]).0 < ns.len()
            && dag_links(ns, es)[e].1 < ns.len(),
    decreases es.len(),
{
    if es.len() > 0 {
        lemma_dag_links_bounded(ns, es.drop_last());
        lemma_last_with_id(ns, es.last().0);
        lemma_last_with_id(ns, es.last().1);
    }
}

/// The position of the last node whose id is `id`.
fn last_index(nodes: &Vec<WorkflowNode>, id: &str) -> (r: Option<usize>)
    ensures
        r matches Some(i) ==> last_with_id(node_views(nodes@), id@) == Some(i as int),
        r is None ==> last_with_id(node_views(nodes@), id@) is None,
{
    let ghost ns = node_views(nodes@);
    proof {
        lemma_last_with_id(ns, id@);
    }
    let mut i: usize = nodes.len();
    while i > 0
        invariant
            i <= nodes.len(),
            ns == node_views(nodes@),
            forall|j: int| i <= j < ns.len() ==> (#[trigger] ns[j]).id != id@,
        decreases i,
    {
        if str_eq(nodes[i - 1].id.as_str(), id) {
            proof {
                let w = i - 1;
                lemma_last_with_id(ns, id@);
                assert(ns[w as int].id == id@);
                match last_with_id(ns, id@) {
                    Some(m) => {
                        if m > w {
                            assert(ns[m].id != id@);
                        } else if m < w {
                            assert(ns[w as int].id != id@);
                        }
                    },
                    None => {
                        assert(ns[w as int].id != id@);
                    },
                }
            }
            return Some(i - 1);
        }
        assert(ns[i - 1].id != id@);
        i -= 1;
    }
    None
}

/// A workflow's nodes with the graph of their dependencies: node `i` of the
/// graph stands for `nodes[i]`.
pub struct WorkflowDag {
    nodes: Vec<WorkflowNode>,
    graph: DiGraph<(), ()>,
    node_indices: Vec<usize>,
}

impl WorkflowDag {
    /// The nodes, in the order they were given.
    pub closed spec fn node_list(&self) -> Seq<NodeView> {
        node_views(self.nodes@)
    }

    /// The links of the graph, as positions of nodes.
    pub closed spec fn links(&self) -> Seq<(usize, usize)> {
        graph_links(self.graph)
    }

    /// The graph holds one node per workflow node, every link joins two of
    /// them, and `node_indices` lists each id's last node in ascending order.
    pub closed spec fn wf(&self) -> bool {
        &&& graph_size(self.graph) == self.nodes@.len()
        &&& self.nodes@.len() < u32::MAX
        &&& forall|e: int| 0 <= e < self.links().len() ==> (#[trigger] self.links()[e]).0
            < self.nodes@.len() && self.links()[e].1 < self.nodes@.len()
        &&& self.node_indices@ == heads(self.node_list(), self.nodes@.len() as nat)
    }

    /// Builds the graph of `nodes` linked by `edges` (pairs of node ids).
    /// Where several nodes share an id, links to and from that id attach to
    /// the last of them; a pair naming an unknown id is dropped.
    pub fn build(nodes: Vec<WorkflowNode>, edges: &[(String, String)]) -> (d: WorkflowDag)
        requires
            nodes.len() < u32::MAX,
            edges.len() + 1 < u32::MAX,
        ensures
            d.wf(),
            d.node_list() == node_views(nodes@),
            d.links() == dag_links(node_views(nodes@), edge_views(edges@)),
    {
        let ghost ns = node_views(nodes@);
        let ghost es = edge_views(edges@);
        let mut graph = graph_new();
        let mut i: usize = 0;
        while i < nodes.len()
            invariant
                i <= nodes.len() < u32::MAX,
                graph_size(graph) == i,
                graph_links(graph) == Seq::<(usize, usize)>::empty(),
            decreases nodes.len() - i,
        {
            graph_add_node(&mut graph);
            i += 1;
        }
        let mut k: usize = 0;
        while k < edges.len()
            invariant
                k <= edges.len(),
                edges.len() + 1 < u32::MAX,
                nodes.len() < u32::MAX,
                ns == node_views(nodes@),
                es == edge_views(edges@),
                graph_size(graph) == nodes.len(),
                graph_links(graph) == dag_links(ns, es.take(k as int)),
            decreases edges.len() - k,
        {
            proof {
                lemma_dag_links_bounded(ns, es.take(k as int));
                assert(es.take(k + 1).drop_last() =~= es.take(k as int));
            }
            let f = last_index(&nodes, edges[k].0.as_str());
            let t = last_index(&nodes, edges[k].1.as_str());
            match (f, t) {
                (Some(a), Some(b)) => {
                    proof {
                        lemma_last_with_id(ns, es[k as int].0);
                        lemma_last_with_id(ns, es[k as int].1);
                    }
                    graph_add_edge(&mut graph, a, b);
                },
                _ => {},
            }
            k += 1;
        }
        proof {
            assert(es.take(edges.len() as int) =~= es);
            lemma_dag_links_bounded(ns, es);
        }
        let mut node_indices: Vec<usize> = Vec::new();
        let mut j: usize = 0;
        while j < nodes.len()
            invariant
                j <= nodes.len(),
                ns == node_views(nodes@),
                node_indices@ == heads(ns, j as nat),
            decreases nodes.len() - j,
        {
            let h = last_index(&nodes, nodes[j].id.as_str());
            if h == Some(j) {
                node_indices.push(j);
            }
            j += 1;
        }
        WorkflowDag { nodes, graph, node_indices }
    }

    /// The order in which the traversal visits the nodes, as positions.
    pub open spec fn walk(&self) -> Seq<usize> {
        topo_walk(self.node_list().len(), self.links())
    }

    /// The nodes at `positions`, in that order.
    pub fn nodes_at(&self, positions: &Vec<usize>) -> (r: Vec<&WorkflowNode>)
        requires
            forall|k: int| 0 <= k < positions@.len() ==> #[trigger] positions@[k] < self.node_list().len(),
        ensures
            r@.len() == positions@.len(),
            forall|k: int| 0 <= k < r@.len() ==> (#[trigger] r@[k])@ == self.node_list()[positions@[k] as int],
    {
        let mut r: Vec<&WorkflowNode> = Vec::new();
        let mut k: usize = 0;
        while k < positions.len()
            invariant
                k <= positions.len(),
                forall|m: int| 0 <= m < positions@.len() ==> #[trigger] positions@[m] < self.node_list().len(),
                r@.len() == k,
                forall|m: int| 0 <= m < k ==> (#[trigger] r@[m])@ == self.node_list()[positions@[m] as int],
            decreases positions.len() - k,
        {
            let i = positions[k];
            r.push(&self.nodes[i]);
            k += 1;
        }
        r
    }

    /// The nodes in the order the traversal visits them. No node comes twice,
    /// none comes before a node that links into it, and when every link runs
    /// forward (from an earlier node to a later one) every node comes.
    pub fn execution_order(&self) -> (r: Vec<&WorkflowNode>)
        requires
            self.wf(),
        ensures
            r@.len() == self.walk().len(),
            forall|k: int| 0 <= k < r@.len() ==> (#[trigger] r@[k])@ == self.node_list()[self.walk()[k] as int],
            forall|k: int| 0 <= k < self.walk().len() ==> #[trigger] self.walk()[k] < self.node_list().len(),
            forall|i: int, j: int| 0 <= i < j < self.walk().len() ==> self.walk()[i] != self.walk()[j],
            forall|k: int, e: int|
                0 <= k < self.walk().len() && 0 <= e < self.links().len()
                    && (#[trigger] self.links()[e]).1 == #[trigger] self.walk()[k]
                    ==> exists|j: int| 0 <= j < k && self.walk()[j] == self.links()[e].0,
            (forall|e: int| 0 <= e < self.links().len()
                ==> (#[trigger] self.links()[e]).0 < self.links()[e].1)
                ==> self.walk().len() == self.node_list().len(),
    {
        let order = topo_order(&self.graph);
        self.nodes_at(&order)
    }

    /// The nodes that must finish before a node whose id is `node_id`: those
    /// from which a link goes into such a node, each listed once under its
    /// id's last node and in the order of their positions.
    pub fn predecessors(&self, node_id: &str) -> (r: Vec<&WorkflowNode>)
        requires
            self.wf(),
        ensures
            ({
                let p = keep_linked(self.node_list(), self.links(), node_id@,
                    heads(self.node_list(), self.node_list().len()));
                &&& r@.len() == p.len()
                &&& forall|k: int| 0 <= k < r@.len() ==> (#[trigger] r@[k])@ == self.node_list()[p[k] as int]
            }),
    {
        let ghost ns = self.node_list();
        let ghost links = self.links();
        let ghost hs = self.node_indices@;
        proof {
            lemma_heads_bounded(ns, ns.len());
        }
        let n = self.nodes.len();
        let mut r: Vec<&WorkflowNode> = Vec::new();
        let ghost mut p: Seq<usize> = Seq::empty();
        let mut m: usize = 0;
        while m < self.node_indices.len()
            invariant
                self.wf(),
                ns == self.node_list(),
                links == self.links(),
                hs == self.node_indices@,
                n == ns.len(),
                forall|k: int| 0 <= k < hs.len() ==> (#[trigger] hs[k]) < ns.len(),
                m <= hs.len(),
                p == keep_linked(ns, links, node_id@, hs.take(m as int)),
                r@.len() == p.len(),
                forall|k: int| 0 <= k < r@.len() ==> (#[trigger] r@[k])@ == ns[p[k] as int],
            decreases hs.len() - m,
        {
            let idx = self.node_indices[m];
            let mut found = false;
            let mut b: usize = 0;
            while b < n
                invariant
                    self.wf(),
                    ns == self.node_list(),
                    links == self.links(),
                    n == ns.len(),
                    idx < ns.len(),
                    b <= n,
                    found <==> exists|t: usize| t < b && ns[t as int].id == node_id@ && links.contains((idx, t)),
                decreases n - b,
            {
                if str_eq(self.nodes[b].id.as_str(), node_id) {
                    let srcs = graph_sources(&self.graph, b);
                    let mut q: usize = 0;
                    let ghost before = found;
                    while q < srcs.len()
                        invariant
                            q <= srcs.len(),
                            forall|a: usize| srcs@.contains(a) <==> links.contains((a, b)),
                            found <==> (before || exists|j: int| 0 <= j < q && srcs@[j] == idx),
                        decreases srcs.len() - q,
                    {
                        if srcs[q] == idx {
                            found = true;
                        }
                        q += 1;
                    }
                    proof {
                        if links.contains((idx, b)) {
                            assert(srcs@.contains(idx));
                        }
                        if exists|j: int| 0 <= j < srcs.len() && srcs@[j] == idx {
                            let j = choose|j: int| 0 <= j < srcs.len() && srcs@[j] == idx;
                            assert(srcs@.contains(srcs@[j]));
                        }
                        assert(ns[b as int] == self.nodes@[b as int]@);
                    }
                } else {
                    proof {
                        assert(ns[b as int] == self.nodes@[b as int]@);
                    }
                }
                proof {
                    assert forall|t: usize| t < b + 1 && ns[t as int].id == node_id@ && links.contains((idx, t))
                        implies t < b || (t == b && ns[b as int].id == node_id@ && links.contains((idx, b))) by {}
                }
                b += 1;
            }
            proof {
                if found {
                    let t = choose|t: usize| t < n && ns[t as int].id == node_id@ && links.contains((idx, t));
                    let e = choose|e: int| 0 <= e < links.len() && links[e] == (idx, t);
                    assert(links[e].0 == idx && ns[links[e].1 as int].id == node_id@);
                    assert(links_into(ns, links, idx, node_id@));
                } else {
                    assert forall|e: int| 0 <= e < links.len() && (#[trigger] links[e]).0 == idx
                        implies ns[links[e].1 as int].id != node_id@ by {
                        let t = links[e].1;
                        assert(t < n);
                        assert(links.contains((idx, t))) by {
                            assert(links[e] == (idx, t));
                        }
                    }
                }
                assert(hs.take(m + 1).drop_last() =~= hs.take(m as int));
            }
            if found {
                r.push(&self.nodes[idx]);
                proof {
                    p = p.push(idx);
                }
            }
            m += 1;
        }
        proof {
            assert(hs.take(hs.len() as int) =~= hs);
        }
        r
    }

    /// The number of nodes.
    pub fn node_count(&self) -> (n: usize)
        requires
            self.wf(),
        ensures
            n == self.node_list().len(),
    {
        graph_node_count(&self.graph)
    }
}

} // verus!
