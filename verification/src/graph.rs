//! The order of the headers: a graph of which header needs which, sorted topologically.

use vstd::prelude::*;
use vstd::set_lib::{lemma_int_range, lemma_subset_equality, set_int_range};
use petgraph::graph::{Graph, NodeIndex};
use petgraph::Directed;
use crate::outputs::Outputs;

verus! {

/// `petgraph::graph::Graph`, taken as a whole: what it holds is known only through
/// [`graph_nodes`] and [`graph_edges`].
#[verifier::external_type_specification]
#[verifier::external_body]
#[verifier::reject_recursive_types(N)]
#[verifier::reject_recursive_types(E)]
#[verifier::reject_recursive_types(D)]
#[verifier::reject_recursive_types(Ix)]
pub struct ExGraph<N, E, D, Ix>(petgraph::graph::Graph<N, E, D, Ix>);

/// `petgraph::Directed`, the marker of a graph whose edges have a direction.
#[verifier::external_type_specification]
#[verifier::external_body]
pub struct ExDirected(petgraph::Directed);

/// A directed graph whose nodes carry a header's name and are numbered from zero in
/// the order in which they were added.
pub type DepGraph = Graph<String, (), Directed, usize>;

/// The names that the nodes of `g` carry, by node index.
pub uninterp spec fn graph_nodes(g: DepGraph) -> Seq<Seq<char>>;

/// The edges of `g` as pairs of the node indices they lead from and to, in the order
/// in which they were added.
pub uninterp spec fn graph_edges(g: DepGraph) -> Seq<(usize, usize)>;

/// What `petgraph::algo::toposort` returns for a graph of `nodes` nodes to which the
/// edges `edges` were added in this order: the nodes in a topological order, or `None`
/// where it reports a cycle.
pub uninterp spec fn toposort_of(nodes: nat, edges: Seq<(usize, usize)>) -> Option<Seq<usize>>;

/// Whether `order` lists each of the nodes `0..nodes` once, and the source of every
/// edge before its target.
pub open spec fn is_topological_order(
    order: Seq<usize>,
    nodes: nat,
    edges: Seq<(usize, usize)>,
) -> bool {
    &&& order.len() == nodes
    &&& order.no_duplicates()
    &&& forall|i: int| 0 <= i < order.len() ==> order[i] < nodes
    &&& forall|i: int, j: int|
        0 <= i < order.len() && 0 <= j < order.len() && edges.contains((order[i], order[j]))
            ==> i < j
}

/// Whether `walk` follows edges from each of its nodes to the next, over one edge at
/// least.
pub open spec fn is_walk(walk: Seq<usize>, edges: Seq<(usize, usize)>) -> bool {
    &&& walk.len() >= 2
    &&& forall|k: int| 0 <= k < walk.len() - 1 ==> edges.contains((walk[k], #[trigger] walk[k + 1]))
}

/// Whether some walk along `edges` comes back to the node it started from.
pub open spec fn has_cycle(edges: Seq<(usize, usize)>) -> bool {
    exists|walk: Seq<usize>| is_walk(walk, edges) && walk.first() == walk.last()
}

/// `Graph::with_capacity`: a graph without nodes or edges.
#[verifier::external_body]
fn graph_new() -> (g: DepGraph)
    ensures
        graph_nodes(g) == Seq::<Seq<char>>::empty(),
        graph_edges(g) == Seq::<(usize, usize)>::empty(),
{
    Graph::with_capacity(0, 0)
}

/// `Graph::add_node`: adds a node that carries `name` and returns its index, which is
/// the number of nodes there were. The edges stay.
#[verifier::external_body]
fn graph_add_node(g: &mut DepGraph, name: String) -> (index: usize)
    ensures
        index == graph_nodes(*old(g)).len(),
        graph_nodes(*final(g)) == graph_nodes(*old(g)).push(name@),
        graph_edges(*final(g)) == graph_edges(*old(g)),
{
    g.add_node(name).index()
}

/// `Graph::add_edge`: adds an edge between two nodes of the graph, after the edges
/// that are there. The nodes stay.
#[verifier::external_body]
fn graph_add_edge(g: &mut DepGraph, from: usize, to: usize)
    requires
        from < graph_nodes(*old(g)).len(),
        to < graph_nodes(*old(g)).len(),
    ensures
        graph_nodes(*final(g)) == graph_nodes(*old(g)),
        graph_edges(*final(g)) == graph_edges(*old(g)).push((from, to)),
{
    g.add_edge(NodeIndex::new(from), NodeIndex::new(to), ());
}

/// `petgraph::algo::toposort`: for a graph without a cycle, the indices of all its
/// nodes in an order in which each node comes before its successors; `None` where
/// the graph has a cycle, of which an edge from a node to itself is one. Which of
/// several such orders it is depends on nothing but the number of nodes and the edges
/// in the order in which they were added.
#[verifier::external_body]
fn graph_toposort(g: &DepGraph) -> (r: Option<Vec<usize>>)
    ensures
        match r {
            Some(order) => toposort_of(graph_nodes(*g).len(), graph_edges(*g)) == Some(order@),
            None => toposort_of(graph_nodes(*g).len(), graph_edges(*g)) is None,
        },
        r matches Some(order) ==> is_topological_order(
            order@,
            graph_nodes(*g).len(),
            graph_edges(*g),
        ),
        r is None ==> has_cycle(graph_edges(*g)),
{
    match petgraph::algo::toposort(g, None) {
        Ok(order) => Some(order.into_iter().map(|node| node.index()).collect()),
        Err(_) => None,
    }
}

/// Whether every edge of `edges` leads from and to a node below `nodes`.
pub open spec fn edges_within(edges: Seq<(usize, usize)>, nodes: nat) -> bool {
    forall|k: int| 0 <= k < edges.len() ==> (#[trigger] edges[k]).0 < nodes && edges[k].1 < nodes
}

/// A topological order holds every node.
pub proof fn lemma_order_holds_every_node(
    order: Seq<usize>,
    nodes: nat,
    edges: Seq<(usize, usize)>,
    node: usize,
)
    requires
        is_topological_order(order, nodes, edges),
        node < nodes,
    ensures
        order.contains(node),
{
    let numbers = order.map_values(|v: usize| v as int);
    assert(numbers.no_duplicates()) by {
        assert forall|i: int, j: int|
            0 <= i < numbers.len() && 0 <= j < numbers.len() && i != j implies numbers[i]
            != numbers[j] by {
            assert(order[i] != order[j]);
        }
    }
    numbers.unique_seq_to_set();
    lemma_int_range(0, nodes as int);
    let all = set_int_range(0, nodes as int);
    assert(numbers.to_set().subset_of(all)) by {
        assert forall|x: int| numbers.to_set().contains(x) implies all.contains(x) by {
            let i = choose|i: int| 0 <= i < numbers.len() && numbers[i] == x;
            assert(order[i] < nodes);
        }
    }
    lemma_subset_equality(numbers.to_set(), all);
    assert(all.contains(node as int));
    assert(numbers.to_set().contains(node as int));
    let i = choose|i: int| 0 <= i < numbers.len() && numbers[i] == node as int;
    assert(order[i] == node);
}

/// Along a walk, a topological order only ever moves forward.
proof fn lemma_walk_moves_forward(
    order: Seq<usize>,
    nodes: nat,
    edges: Seq<(usize, usize)>,
    walk: Seq<usize>,
    k: int,
)
    requires
        is_topological_order(order, nodes, edges),
        edges_within(edges, nodes),
        is_walk(walk, edges),
        1 <= k < walk.len(),
    ensures
        order.contains(walk[0]),
        order.contains(walk[k]),
        order.index_of(walk[0]) < order.index_of(walk[k]),
    decreases k,
{
    let edge = (walk[k - 1], walk[k]);
    assert(walk[(k - 1) + 1] == walk[k]);
    assert(edges.contains(edge));
    let at = choose|at: int| 0 <= at < edges.len() && edges[at] == edge;
    assert(edges[at].0 < nodes && edges[at].1 < nodes);
    lemma_order_holds_every_node(order, nodes, edges, walk[k - 1]);
    lemma_order_holds_every_node(order, nodes, edges, walk[k]);
    let i = order.index_of(walk[k - 1]);
    let j = order.index_of(walk[k]);
    assert(edges.contains((order[i], order[j])));
    if k > 1 {
        lemma_walk_moves_forward(order, nodes, edges, walk, k - 1);
    }
}

/// A graph that has a topological order has no cycle.
pub proof fn lemma_ordered_graph_has_no_cycle(
    order: Seq<usize>,
    nodes: nat,
    edges: Seq<(usize, usize)>,
)
    requires
        is_topological_order(order, nodes, edges),
        edges_within(edges, nodes),
    ensures
        !has_cycle(edges),
{
    if has_cycle(edges) {
        let walk = choose|walk: Seq<usize>| is_walk(walk, edges) && walk.first() == walk.last();
        lemma_walk_moves_forward(order, nodes, edges, walk, walk.len() - 1);
    }
}

/// Two edges that lead back and forth between two nodes make a cycle.
pub proof fn lemma_mutual_edges_make_cycle(edges: Seq<(usize, usize)>, a: usize, b: usize)
    requires
        edges.contains((a, b)),
        edges.contains((b, a)),
    ensures
        has_cycle(edges),
{
    let walk = seq![a, b, a];
    assert(is_walk(walk, edges)) by {
        assert forall|k: int| 0 <= k < walk.len() - 1 implies edges.contains(
            (walk[k], #[trigger] walk[k + 1]),
        ) by {
            if k == 0 {
            } else {
            }
        }
    }
    assert(walk.first() == walk.last());
}

/// The order of edges: by the node they lead from, then by the node they lead to.
pub open spec fn edge_less(a: (usize, usize), b: (usize, usize)) -> bool {
    a.0 < b.0 || (a.0 == b.0 && a.1 < b.1)
}

/// Whether `edges` ascends strictly, so that no edge stands twice.
pub open spec fn strictly_sorted(edges: Seq<(usize, usize)>) -> bool {
    forall|i: int, j: int| 0 <= i < j < edges.len() ==> edge_less(edges[i], edges[j])
}

/// The ascending `edges` with `edge` at its place among them, once.
pub open spec fn with_edge(edges: Seq<(usize, usize)>, edge: (usize, usize)) -> Seq<(usize, usize)>
    decreases edges.len(),
{
    if edges.len() == 0 {
        seq![edge]
    } else if edges.last() == edge {
        edges
    } else if edge_less(edges.last(), edge) {
        edges.push(edge)
    } else {
        with_edge(edges.drop_last(), edge).push(edges.last())
    }
}

/// Adding an edge keeps the edges ascending and adds nothing else.
pub proof fn lemma_with_edge(edges: Seq<(usize, usize)>, edge: (usize, usize))
    requires
        strictly_sorted(edges),
    ensures
        strictly_sorted(with_edge(edges, edge)),
        forall|e: (usize, usize)| #[trigger]
            with_edge(edges, edge).contains(e) <==> (edges.contains(e) || e == edge),
    decreases edges.len(),
{
    let result = with_edge(edges, edge);
    if edges.len() == 0 {
        assert(result[0] == edge);
    } else if edges.last() == edge {
        assert(edges[edges.len() - 1] == edge);
    } else if edge_less(edges.last(), edge) {
        assert(result[result.len() - 1] == edge);
        assert forall|i: int, j: int| 0 <= i < j < result.len() implies edge_less(
            result[i],
            result[j],
        ) by {
            if j == result.len() - 1 && i < edges.len() - 1 {
                assert(edge_less(edges[i], edges[edges.len() - 1]));
            }
        }
        assert forall|e: (usize, usize)| result.contains(e) implies (edges.contains(e) || e
            == edge) by {
            let i = choose|i: int| 0 <= i < result.len() && result[i] == e;
            if i < edges.len() {
                assert(edges[i] == e);
            }
        }
        assert forall|e: (usize, usize)| edges.contains(e) implies result.contains(e) by {
            let i = choose|i: int| 0 <= i < edges.len() && edges[i] == e;
            assert(result[i] == e);
        }
    } else {
        let front = edges.drop_last();
        let last = edges.last();
        lemma_with_edge(front, edge);
        let inner = with_edge(front, edge);
        assert forall|i: int, j: int| 0 <= i < j < result.len() implies edge_less(
            result[i],
            result[j],
        ) by {
            if j == result.len() - 1 {
                assert(inner.contains(result[i]));
                if front.contains(result[i]) {
                    let at = choose|at: int| 0 <= at < front.len() && front[at] == result[i];
                    assert(edge_less(edges[at], edges[edges.len() - 1]));
                }
            }
        }
        assert forall|e: (usize, usize)| result.contains(e) implies (edges.contains(e) || e
            == edge) by {
            let i = choose|i: int| 0 <= i < result.len() && result[i] == e;
            if i < inner.len() {
                assert(inner.contains(e));
                if front.contains(e) {
                    let at = choose|at: int| 0 <= at < front.len() && front[at] == e;
                    assert(edges[at] == e);
                }
            } else {
                assert(edges[edges.len() - 1] == e);
            }
        }
        assert forall|e: (usize, usize)| (edges.contains(e) || e == edge) implies result.contains(
            e,
        ) by {
            if e == edge {
                assert(inner.contains(e));
                let at = choose|at: int| 0 <= at < inner.len() && inner[at] == e;
                assert(result[at] == e);
            } else {
                let i = choose|i: int| 0 <= i < edges.len() && edges[i] == e;
                if i < front.len() {
                    assert(front[i] == e);
                    assert(inner.contains(e));
                    let at = choose|at: int| 0 <= at < inner.len() && inner[at] == e;
                    assert(result[at] == e);
                } else {
                    assert(result[result.len() - 1] == e);
                }
            }
        }
    }
}

/// Where the first `at` of the ascending `edges` come before `edge` and the others
/// do not, adding `edge` puts it at `at`, or leaves `edges` as it is where `edge`
/// stands there already.
proof fn lemma_with_edge_at(edges: Seq<(usize, usize)>, edge: (usize, usize), at: int)
    requires
        strictly_sorted(edges),
        0 <= at <= edges.len(),
        forall|i: int| 0 <= i < at ==> edge_less(edges[i], edge),
        at < edges.len() ==> !edge_less(edges[at], edge),
    ensures
        with_edge(edges, edge) == if at < edges.len() && edges[at] == edge {
            edges
        } else {
            edges.insert(at, edge)
        },
    decreases edges.len(),
{
    if edges.len() == 0 {
        assert(edges.insert(at, edge) =~= seq![edge]);
    } else if edges.last() == edge {
        if at < edges.len() - 1 {
            assert(edge_less(edges[at], edges[edges.len() - 1]));
        }
    } else if edge_less(edges.last(), edge) {
        if at < edges.len() {
            if at < edges.len() - 1 {
                assert(edge_less(edges[at], edges[edges.len() - 1]));
            }
        }
        assert(edges.insert(at, edge) =~= edges.push(edge));
    } else {
        let front = edges.drop_last();
        lemma_with_edge_at(front, edge, at);
        if at < front.len() && front[at] == edge {
            assert(edge_less(edges[at], edges[edges.len() - 1]));
        } else {
            assert(front.insert(at, edge).push(edges.last()) =~= edges.insert(at, edge));
        }
    }
}

/// Puts `edge` at its place among the ascending `edges`, unless it stands there.
pub(crate) fn insert_edge(edges: &mut Vec<(usize, usize)>, edge: (usize, usize))
    requires
        strictly_sorted(old(edges)@),
    ensures
        final(edges)@ == with_edge(old(edges)@, edge),
{
    let mut at: usize = 0;
    while at < edges.len() && (edges[at].0 < edge.0 || (edges[at].0 == edge.0 && edges[at].1
        < edge.1))
        invariant
            at <= edges@.len(),
            edges@ == old(edges)@,
            forall|i: int| 0 <= i < at ==> edge_less(edges@[i], edge),
        decreases edges.len() - at,
    {
        at += 1;
    }
    proof {
        lemma_with_edge_at(edges@, edge, at as int);
    }
    if at < edges.len() && edges[at].0 == edge.0 && edges[at].1 == edge.1 {
        return ;
    }
    edges.insert(at, edge);
}

/// Sorts the files of `outputs` topologically by the edges `edges` between their
/// indices: each file comes before those that an edge leads to from it. There is no
/// such order exactly where the edges have a cycle.
pub fn sort_headers(outputs: &Outputs, edges: &Vec<(usize, usize)>) -> (r: Option<Vec<usize>>)
    requires
        edges_within(edges@, outputs@.len()),
    ensures
        match r {
            Some(order) => toposort_of(outputs@.len(), edges@) == Some(order@)
                && is_topological_order(order@, outputs@.len(), edges@),
            None => toposort_of(outputs@.len(), edges@) is None,
        },
        r is None <==> has_cycle(edges@),
{
    let mut graph = graph_new();
    let count = outputs.len();
    let mut i: usize = 0;
    while i < count
        invariant
            i <= count == outputs@.len(),
            graph_nodes(graph).len() == i,
            graph_edges(graph) == Seq::<(usize, usize)>::empty(),
        decreases count - i,
    {
        let _ = graph_add_node(&mut graph, outputs.name(i).clone());
        i += 1;
    }
    let mut k: usize = 0;
    while k < edges.len()
        invariant
            k <= edges@.len(),
            edges_within(edges@, outputs@.len()),
            graph_nodes(graph).len() == outputs@.len(),
            graph_edges(graph) == edges@.take(k as int),
        decreases edges.len() - k,
    {
        let (from, to) = edges[k];
        graph_add_edge(&mut graph, from, to);
        k += 1;
    }
    proof {
        assert(edges@.take(edges@.len() as int) =~= edges@);
    }
    let sorted = graph_toposort(&graph);
    proof {
        if sorted is Some {
            lemma_ordered_graph_has_no_cycle(sorted->0@, outputs@.len(), edges@);
        }
    }
    sorted
}

} // verus!
