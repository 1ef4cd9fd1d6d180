//! From the gathered declarations to the final headers: which header needs which, the
//! wrapping of each, and the header that includes them all.

use vstd::prelude::*;
use vstd::string::*;
use crate::graph::{
    edges_within, has_cycle, insert_edge, is_topological_order, lemma_mutual_edges_make_cycle,
    lemma_order_holds_every_node, lemma_with_edge, strictly_sorted, with_edge,
};
use crate::header::{header_text, wrap_header};
use crate::outputs::{find_key, lemma_position, lookup, position, Entries, Outputs};

verus! {

/// The edge that one use of a type gives: `fact` holds the header that uses the type
/// and the type's name. Where the name is registered in `decls`, and the header it is
/// registered for and the header that uses it are two of the `headers`, the edge leads
/// from the index of the first to the index of the second.
pub open spec fn fact_edge(headers: Entries, decls: Entries, fact: (Seq<char>, Seq<char>)) -> Option<
    (usize, usize),
> {
    match (position(headers, fact.0), lookup(decls, fact.1)) {
        (Some(consumer), Some(defined_in)) => match position(headers, defined_in) {
            Some(producer) => if producer != consumer {
                Some((producer as usize, consumer as usize))
            } else {
                None
            },
            None => None,
        },
        _ => None,
    }
}

/// The edges between the `headers` that the uses `facts` give, each once, in
/// ascending order.
pub open spec fn header_edges(headers: Entries, decls: Entries, facts: Entries) -> Seq<
    (usize, usize),
>
    decreases facts.len(),
{
    if facts.len() == 0 {
        Seq::empty()
    } else {
        let front = header_edges(headers, decls, facts.drop_last());
        match fact_edge(headers, decls, facts.last()) {
            Some(edge) => with_edge(front, edge),
            None => front,
        }
    }
}

/// The edges between headers ascend, lead from and to headers that are there, never
/// from a header to itself, and are exactly the edges that some use gives.
pub proof fn lemma_header_edges(headers: Entries, decls: Entries, facts: Entries)
    requires
        headers.len() <= usize::MAX,
    ensures
        strictly_sorted(header_edges(headers, decls, facts)),
        edges_within(header_edges(headers, decls, facts), headers.len()),
        forall|e: (usize, usize)| #[trigger]
            header_edges(headers, decls, facts).contains(e) <==> exists|k: int|
                0 <= k < facts.len() && fact_edge(headers, decls, #[trigger] facts[k]) == Some(e),
        forall|e: (usize, usize)| #[trigger]
            header_edges(headers, decls, facts).contains(e) ==> e.0 != e.1,
    decreases facts.len(),
{
    let edges = header_edges(headers, decls, facts);
    if facts.len() > 0 {
        let front_facts = facts.drop_last();
        let front = header_edges(headers, decls, front_facts);
        lemma_header_edges(headers, decls, front_facts);
        lemma_fact_edge(headers, decls, facts.last());
        match fact_edge(headers, decls, facts.last()) {
            Some(edge) => {
                lemma_with_edge(front, edge);
            },
            None => {},
        }
        assert forall|e: (usize, usize)| #[trigger] edges.contains(e) implies exists|k: int|
            0 <= k < facts.len() && fact_edge(headers, decls, #[trigger] facts[k]) == Some(e) by {
            if front.contains(e) {
                let k = choose|k: int|
                    0 <= k < front_facts.len() && fact_edge(
                        headers,
                        decls,
                        #[trigger] front_facts[k],
                    ) == Some(e);
                assert(facts[k] == front_facts[k]);
            } else {
                assert(facts[facts.len() - 1] == facts.last());
            }
        }
        assert forall|e: (usize, usize)|
            (exists|k: int|
                0 <= k < facts.len() && fact_edge(headers, decls, #[trigger] facts[k]) == Some(
                    e,
                )) implies #[trigger] edges.contains(e) by {
            let k = choose|k: int|
                0 <= k < facts.len() && fact_edge(headers, decls, #[trigger] facts[k]) == Some(e);
            if k < front_facts.len() {
                assert(front_facts[k] == facts[k]);
                assert(front.contains(e));
            }
        }
        assert forall|k: int| 0 <= k < edges.len() implies (#[trigger] edges[k]).0 < headers.len()
            && edges[k].1 < headers.len() by {
            assert(edges.contains(edges[k]));
            if front.contains(edges[k]) {
                let at = choose|at: int| 0 <= at < front.len() && front[at] == edges[k];
            }
        }
    }
}

/// An edge that a use gives leads between two different headers that are there.
pub proof fn lemma_fact_edge(headers: Entries, decls: Entries, fact: (Seq<char>, Seq<char>))
    requires
        headers.len() <= usize::MAX,
    ensures
        fact_edge(headers, decls, fact) matches Some(e) ==> e.0 < headers.len() && e.1
            < headers.len() && e.0 != e.1 && headers[e.1 as int].0 == fact.0 && lookup(
            decls,
            fact.1,
        ) == Some(headers[e.0 as int].0),
{
    lemma_position(headers, fact.0);
    lemma_position(decls, fact.1);
    if let Some(defined_in) = lookup(decls, fact.1) {
        lemma_position(headers, defined_in);
    }
}

/// Gathers the edges between the files of `outputs`: for each use in `deps` of a type
/// registered in `decls`, the edge from the file that defines the type to the file that
/// uses it.
pub fn collect_edges(
    outputs: &Outputs,
    decls: &Vec<(String, String)>,
    deps: &Vec<(String, String)>,
) -> (edges: Vec<(usize, usize)>)
    ensures
        edges@ == header_edges(outputs@, decls.deep_view(), deps.deep_view()),
        edges_within(edges@, outputs@.len()),
{
    let count = outputs.len();
    let ghost facts = deps.deep_view();
    let mut edges: Vec<(usize, usize)> = Vec::new();
    let mut k: usize = 0;
    while k < deps.len()
        invariant
            k <= deps@.len(),
            facts == deps.deep_view(),
            outputs@.len() <= usize::MAX,
            edges@ == header_edges(outputs@, decls.deep_view(), facts.take(k as int)),
        decreases deps.len() - k,
    {
        proof {
            assert(facts.take(k + 1).drop_last() =~= facts.take(k as int));
            lemma_header_edges(outputs@, decls.deep_view(), facts.take(k as int));
        }
        if let Some(consumer) = outputs.position(deps[k].0.as_str()) {
            if let Some(found) = find_key(decls, deps[k].1.as_str()) {
                if let Some(producer) = outputs.position(decls[found].1.as_str()) {
                    if producer != consumer {
                        insert_edge(&mut edges, (producer, consumer));
                    }
                }
            }
        }
        k += 1;
    }
    proof {
        assert(facts.take(deps@.len() as int) =~= facts);
        lemma_header_edges(outputs@, decls.deep_view(), facts);
    }
    edges
}

/// The line that includes `header`.
pub open spec fn include_line(header: Seq<char>) -> Seq<char> {
    "#include \""@ + header + "\"\n"@
}

/// One line for each index of `order`, including the header that stands there.
pub open spec fn includes_text(headers: Entries, order: Seq<usize>) -> Seq<char>
    decreases order.len(),
{
    if order.len() == 0 {
        Seq::empty()
    } else {
        includes_text(headers, order.drop_last()) + include_line(headers[order.last() as int].0)
    }
}

/// The text of the header that includes the files of `outputs` in the order `order`
/// of their indices.
pub fn umbrella_includes(outputs: &Outputs, order: &Vec<usize>) -> (s: String)
    requires
        forall|i: int| 0 <= i < order@.len() ==> order@[i] < outputs@.len(),
    ensures
        s@ == includes_text(outputs@, order@),
{
    let mut s = String::new();
    let mut i: usize = 0;
    while i < order.len()
        invariant
            i <= order@.len(),
            forall|i: int| 0 <= i < order@.len() ==> order@[i] < outputs@.len(),
            s@ == includes_text(outputs@, order@.take(i as int)),
        decreases order.len() - i,
    {
        proof {
            assert(order@.take(i + 1).drop_last() =~= order@.take(i as int));
        }
        let ghost before = s@;
        s.append("#include \"");
        s.append(outputs.name(order[i]).as_str());
        s.append("\"\n");
        proof {
            assert(s@ =~= before + include_line(outputs@[order@[i as int] as int].0));
        }
        i += 1;
    }
    proof {
        assert(order@.take(order@.len() as int) =~= order@);
    }
    s
}

/// `entries` with each text wrapped into the final text of its header.
pub open spec fn wrapped(entries: Entries) -> Entries {
    Seq::new(entries.len(), |i: int| (entries[i].0, header_text(entries[i].1, entries[i].0)))
}

/// Wraps the text of each file of `outputs` into the final text of its header.
pub fn wrap_headers(outputs: &mut Outputs)
    ensures
        final(outputs)@ == wrapped(old(outputs)@),
{
    let count = outputs.len();
    let mut i: usize = 0;
    while i < count
        invariant
            i <= count == old(outputs)@.len(),
            outputs@.len() == count,
            forall|j: int| 0 <= j < i ==> outputs@[j] == wrapped(old(outputs)@)[j],
            forall|j: int| i <= j < count ==> outputs@[j] == old(outputs)@[j],
        decreases count - i,
    {
        let text = wrap_header(outputs.text(i).as_str(), outputs.name(i).as_str());
        outputs.replace_text(i, text);
        i += 1;
    }
    assert(outputs@ =~= wrapped(old(outputs)@));
}

/// The includes for one order after another are the includes for the two orders
/// joined.
pub proof fn lemma_includes_concat(headers: Entries, first: Seq<usize>, second: Seq<usize>)
    ensures
        includes_text(headers, first + second) == includes_text(headers, first) + includes_text(
            headers,
            second,
        ),
    decreases second.len(),
{
    if second.len() == 0 {
        assert(first + second =~= first);
        assert(includes_text(headers, first) + Seq::<char>::empty() =~= includes_text(
            headers,
            first,
        ));
    } else {
        assert((first + second).drop_last() =~= first + second.drop_last());
        lemma_includes_concat(headers, first, second.drop_last());
        let line = include_line(headers[second.last() as int].0);
        assert(includes_text(headers, first) + includes_text(headers, second.drop_last()) + line
            =~= includes_text(headers, first) + (includes_text(headers, second.drop_last())
            + line));
    }
}

/// Where a header uses a type that another header defines, the header that includes
/// all the others includes the defining header first: whatever topological order of
/// the headers it goes by, the line of the header that defines the type stands before
/// the line of the header that uses it.
pub proof fn lemma_definition_comes_first(
    headers: Entries,
    decls: Entries,
    facts: Entries,
    order: Seq<usize>,
    k: int,
)
    requires
        headers.len() <= usize::MAX,
        is_topological_order(order, headers.len(), header_edges(headers, decls, facts)),
        0 <= k < facts.len(),
        fact_edge(headers, decls, facts[k]) is Some,
    ensures
        ({
            let edge = fact_edge(headers, decls, facts[k])->0;
            let defining = headers[edge.0 as int].0;
            let using = headers[edge.1 as int].0;
            &&& lookup(decls, facts[k].1) == Some(defining)
            &&& using == facts[k].0
            &&& exists|i: int, j: int|
                0 <= i < j < order.len() && order[i] == edge.0 && order[j] == edge.1
                    && includes_text(headers, order) == includes_text(headers, order.take(i))
                    + include_line(defining) + includes_text(headers, order.subrange(i + 1, j))
                    + include_line(using) + includes_text(headers, order.skip(j + 1))
        }),
{
    let edges = header_edges(headers, decls, facts);
    let edge = fact_edge(headers, decls, facts[k])->0;
    lemma_header_edges(headers, decls, facts);
    lemma_fact_edge(headers, decls, facts[k]);
    assert(edges.contains(edge));
    lemma_order_holds_every_node(order, headers.len(), edges, edge.0);
    lemma_order_holds_every_node(order, headers.len(), edges, edge.1);
    let i = order.index_of(edge.0);
    let j = order.index_of(edge.1);
    assert(edges.contains((order[i], order[j])));
    let before = order.take(i);
    let between = order.subrange(i + 1, j);
    let after = order.skip(j + 1);
    assert(order =~= before + seq![edge.0] + between + seq![edge.1] + after);
    lemma_includes_concat(headers, before + seq![edge.0] + between + seq![edge.1], after);
    lemma_includes_concat(headers, before + seq![edge.0] + between, seq![edge.1]);
    lemma_includes_concat(headers, before + seq![edge.0], between);
    lemma_includes_concat(headers, before, seq![edge.0]);
    assert(includes_text(headers, seq![edge.0]) =~= include_line(headers[edge.0 as int].0)) by {
        reveal_with_fuel(includes_text, 2);
        assert(seq![edge.0].drop_last() =~= Seq::<usize>::empty());
    }
    assert(includes_text(headers, seq![edge.1]) =~= include_line(headers[edge.1 as int].0)) by {
        reveal_with_fuel(includes_text, 2);
        assert(seq![edge.1].drop_last() =~= Seq::<usize>::empty());
    }
}

/// Two headers that each use a type that the other defines make a cycle, so that the
/// headers cannot be put in order.
pub proof fn lemma_mutual_use_is_cycle(
    headers: Entries,
    decls: Entries,
    facts: Entries,
    j: int,
    k: int,
)
    requires
        headers.len() <= usize::MAX,
        0 <= j < facts.len(),
        0 <= k < facts.len(),
        fact_edge(headers, decls, facts[j]) is Some,
        ({
            let there = fact_edge(headers, decls, facts[j])->0;
            fact_edge(headers, decls, facts[k]) == Some((there.1, there.0))
        }),
    ensures
        has_cycle(header_edges(headers, decls, facts)),
{
    let edges = header_edges(headers, decls, facts);
    let edge = fact_edge(headers, decls, facts[j])->0;
    lemma_header_edges(headers, decls, facts);
    assert(edges.contains(edge));
    assert(edges.contains((edge.1, edge.0)));
    lemma_mutual_edges_make_cycle(edges, edge.0, edge.1);
}

} // verus!
