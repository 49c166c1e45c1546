//! The task graph as the UI lays it out: each task's depth is its
//! distance from a task that nothing leads to, found breadth-first.
use vstd::prelude::*;
use crate::text::{contains_str, owned, str_eq, views};
use crate::tui::{ConflictInfo, GraphEdge, GraphNode};

verus! {

broadcast use vstd::seq_lib::seq_to_set_is_finite;

/// Some edge leads to `x`.
pub open spec fn has_incoming(edges: Seq<GraphEdge>, x: Seq<char>) -> bool {
    exists|e: int| 0 <= e < edges.len() && #[trigger] edges[e].to@ == x
}

/// `x` is a task that nothing leads to.
pub open spec fn is_root(nodes: Seq<GraphNode>, edges: Seq<GraphEdge>, x: Seq<char>) -> bool {
    &&& exists|i: int| 0 <= i < nodes.len() && #[trigger] nodes[i].id@ == x
    &&& !has_incoming(edges, x)
}

/// A path of exactly `k` edges leads from a root to `x`.
pub open spec fn reach(nodes: Seq<GraphNode>, edges: Seq<GraphEdge>, x: Seq<char>, k: nat) -> bool
    decreases k,
{
    if k == 0 {
        is_root(nodes, edges, x)
    } else {
        exists|e: int|
            0 <= e < edges.len() && #[trigger] edges[e].to@ == x && reach(nodes, edges, edges[e].from@, (k - 1) as nat)
    }
}

/// The shortest path from a root to `x` has `k` edges.
pub open spec fn at_distance(nodes: Seq<GraphNode>, edges: Seq<GraphEdge>, x: Seq<char>, k: nat) -> bool {
    &&& reach(nodes, edges, x, k)
    &&& forall|j: nat| j < k ==> !#[trigger] reach(nodes, edges, x, j)
}

/// Some path leads from a root to `x` with fewer than `k` edges.
pub open spec fn reached_before(nodes: Seq<GraphNode>, edges: Seq<GraphEdge>, x: Seq<char>, k: nat) -> bool {
    exists|j: nat| j < k && #[trigger] reach(nodes, edges, x, j)
}

/// No node before `i` has the id of node `i`.
pub open spec fn first_with_id(ns: Seq<GraphNode>, i: int) -> bool {
    forall|j: int| 0 <= j < i ==> ns[j].id@ != ns[i].id@
}

/// `b` is `a` with perhaps another depth.
pub open spec fn same_but_depth(a: GraphNode, b: GraphNode) -> bool {
    &&& b.id == a.id
    &&& b.label == a.label
    &&& b.goal == a.goal
    &&& b.status == a.status
    &&& b.agent_id == a.agent_id
    &&& b.children == a.children
}

/// A task reached at distance `k` is at some distance `k2 <= k`.
proof fn lemma_shortest(nodes: Seq<GraphNode>, edges: Seq<GraphEdge>, x: Seq<char>, k: nat)
    requires
        reach(nodes, edges, x, k),
    ensures
        exists|k2: nat| k2 <= k && #[trigger] at_distance(nodes, edges, x, k2),
    decreases k,
{
    if forall|j: nat| j < k ==> !#[trigger] reach(nodes, edges, x, j) {
        assert(at_distance(nodes, edges, x, k));
    } else {
        let j = choose|j: nat| j < k && #[trigger] reach(nodes, edges, x, j);
        lemma_shortest(nodes, edges, x, j);
    }
}

/// The distance of a task is unique.
proof fn lemma_distance_unique(nodes: Seq<GraphNode>, edges: Seq<GraphEdge>, x: Seq<char>, a: nat, b: nat)
    requires
        at_distance(nodes, edges, x, a),
        at_distance(nodes, edges, x, b),
    ensures
        a == b,
{
    if a < b {
        assert(!reach(nodes, edges, x, a));
    } else if b < a {
        assert(!reach(nodes, edges, x, b));
    }
}

/// A task at distance `m` has one at every smaller distance on its way.
proof fn lemma_distance_below(nodes: Seq<GraphNode>, edges: Seq<GraphEdge>, x: Seq<char>, m: nat, k: nat)
    requires
        at_distance(nodes, edges, x, m),
        k <= m,
    ensures
        exists|y: Seq<char>| #[trigger] at_distance(nodes, edges, y, k),
    decreases m,
{
    if k < m {
        let e = choose|e: int|
            0 <= e < edges.len() && #[trigger] edges[e].to@ == x && reach(nodes, edges, edges[e].from@, (m - 1) as nat);
        let y = edges[e].from@;
        assert forall|j: nat| j < (m - 1) as nat implies !#[trigger] reach(nodes, edges, y, j) by {
            if reach(nodes, edges, y, j) {
                assert(edges[e].to@ == x);
                assert(reach(nodes, edges, x, j + 1));
            }
        }
        lemma_distance_below(nodes, edges, y, (m - 1) as nat, k);
    }
}

/// The ids of a list, as a set.
pub open spec fn id_set(v: Seq<String>) -> Set<Seq<char>> {
    views(v).to_set()
}

/// The nodes `ns` are `orig` with the depth of each visited task set to
/// its distance: only the first node with a given id gets it.
pub open spec fn depths_set(orig: Seq<GraphNode>, edges: Seq<GraphEdge>, ns: Seq<GraphNode>, visited: Set<Seq<char>>) -> bool {
    &&& ns.len() == orig.len()
    &&& forall|i: int| 0 <= i < orig.len() ==> same_but_depth(orig[i], #[trigger] ns[i])
    &&& forall|i: int|
        0 <= i < orig.len() ==> if first_with_id(orig, i) && visited.contains(orig[i].id@) {
            at_distance(orig, edges, orig[i].id@, (#[trigger] ns[i]).depth as nat)
        } else {
            ns[i].depth == orig[i].depth
        }
}

fn has_incoming_edge(edges: &[GraphEdge], x: &str) -> (r: bool)
    ensures
        r == has_incoming(edges@, x@),
{
    let mut e: usize = 0;
    while e < edges.len()
        invariant
            e <= edges@.len(),
            forall|j: int| 0 <= j < e ==> edges@[j].to@ != x@,
        decreases edges@.len() - e,
    {
        if str_eq(edges[e].to.as_str(), x) {
            assert(edges@[e as int].to@ == x@);
            return true;
        }
        e = e + 1;
    }
    false
}

/// The ids of the tasks nothing leads to, in node order.
fn roots_of(nodes: &Vec<GraphNode>, edges: &[GraphEdge]) -> (r: Vec<String>)
    ensures
        forall|x: Seq<char>| #[trigger] id_set(r@).contains(x) <==> is_root(nodes@, edges@, x),
        r@.len() <= nodes@.len(),
{
    let mut out: Vec<String> = Vec::new();
    let mut i: usize = 0;
    while i < nodes.len()
        invariant
            i <= nodes@.len(),
            out@.len() <= i,
            forall|x: Seq<char>|
                #[trigger] id_set(out@).contains(x) <==> (!has_incoming(edges@, x) && exists|j: int|
                    0 <= j < i && #[trigger] nodes@[j].id@ == x),
        decreases nodes@.len() - i,
    {
        if !has_incoming_edge(edges, nodes[i].id.as_str()) {
            let ghost before = out@;
            out.push(owned(nodes[i].id.as_str()));
            proof {
                assert(views(out@) =~= views(before).push(nodes@[i as int].id@));
                assert forall|x: Seq<char>|
                    #[trigger] id_set(out@).contains(x) <==> (!has_incoming(edges@, x) && exists|j: int|
                        0 <= j < i + 1 && #[trigger] nodes@[j].id@ == x) by {
                    if x == nodes@[i as int].id@ {
                        assert(views(out@)[views(out@).len() - 1] == x);
                    }
                    if id_set(before).contains(x) {
                        let k = choose|k: int| 0 <= k < views(before).len() && views(before)[k] == x;
                        assert(views(out@)[k] == x);
                    }
                    if id_set(out@).contains(x) && x != nodes@[i as int].id@ {
                        let k = choose|k: int| 0 <= k < views(out@).len() && views(out@)[k] == x;
                        assert(views(before)[k] == x);
                    }
                }
            }
        } else {
            proof {
                assert forall|x: Seq<char>|
                    #[trigger] id_set(out@).contains(x) <==> (!has_incoming(edges@, x) && exists|j: int|
                        0 <= j < i + 1 && #[trigger] nodes@[j].id@ == x) by {
                    if !has_incoming(edges@, x) && exists|j: int| 0 <= j < i + 1 && #[trigger] nodes@[j].id@ == x {
                        let j = choose|j: int| 0 <= j < i + 1 && #[trigger] nodes@[j].id@ == x;
                        if j == i {
                            assert(has_incoming(edges@, nodes@[i as int].id@));
                        }
                    }
                }
            }
        }
        i = i + 1;
    }
    out
}

/// Gives the first node with id `id` the depth `depth`.
fn set_first_depth(nodes: &mut Vec<GraphNode>, id: &str, depth: usize)
    ensures
        final(nodes)@.len() == old(nodes)@.len(),
        forall|i: int| 0 <= i < old(nodes)@.len() ==> same_but_depth(old(nodes)@[i], #[trigger] final(nodes)@[i]),
        forall|i: int|
            0 <= i < old(nodes)@.len() ==> (#[trigger] final(nodes)@[i]).depth == if old(nodes)@[i].id@ == id@
                && first_with_id(old(nodes)@, i) {
                depth
            } else {
                old(nodes)@[i].depth
            },
{
    let mut i: usize = 0;
    while i < nodes.len()
        invariant
            i <= nodes@.len(),
            nodes@ == old(nodes)@,
            forall|j: int| 0 <= j < i ==> nodes@[j].id@ != id@,
        decreases nodes@.len() - i,
    {
        if str_eq(nodes[i].id.as_str(), id) {
            let ghost before = nodes@;
            let mut n = nodes.remove(i);
            n.depth = depth;
            nodes.insert(i, n);
            proof {
                assert(nodes@ =~= before.update(i as int, n));
                assert forall|k: int| 0 <= k < before.len() && k != i && before[k].id@ == id@ implies !first_with_id(before, k) by {
                    if k > i {
                        assert(before[i as int].id@ == before[k].id@);
                    }
                }
            }
            return;
        }
        i = i + 1;
    }
}

/// The targets of the edges leaving the tasks `from`.
pub open spec fn successors(edges: Seq<GraphEdge>, from: Set<Seq<char>>, y: Seq<char>) -> bool {
    exists|e: int| 0 <= e < edges.len() && #[trigger] edges[e].to@ == y && from.contains(edges[e].from@)
}

/// Visits the frontier of one level: each task of `frontier` not yet
/// visited gets depth `depth` and leads on to the targets of its edges,
/// which are returned.
fn visit_level(
    nodes: &mut Vec<GraphNode>,
    edges: &[GraphEdge],
    frontier: &Vec<String>,
    visited: &mut Vec<String>,
    depth: usize,
    Ghost(orig): Ghost<Seq<GraphNode>>,
) -> (next: Vec<String>)
    requires
        depths_set(orig, edges@, old(nodes)@, id_set(old(visited)@)),
        forall|x: Seq<char>|
            id_set(frontier@).contains(x) && !id_set(old(visited)@).contains(x) ==> at_distance(
                orig,
                edges@,
                x,
                depth as nat,
            ),
    ensures
        id_set(final(visited)@) == id_set(old(visited)@).union(id_set(frontier@)),
        depths_set(orig, edges@, final(nodes)@, id_set(final(visited)@)),
        forall|y: Seq<char>|
            #[trigger] id_set(next@).contains(y) <==> successors(
                edges@,
                id_set(frontier@).difference(id_set(old(visited)@)),
                y,
            ),
        next@.len() > 0 ==> final(visited)@.len() > old(visited)@.len(),
        final(visited)@.len() <= old(visited)@.len() + frontier@.len(),
        final(visited)@.len() >= old(visited)@.len(),
        views(old(visited)@).no_duplicates() ==> views(final(visited)@).no_duplicates(),
{
    let ghost v0 = id_set(visited@);
    let ghost len0 = visited@.len();
    let mut next: Vec<String> = Vec::new();
    let mut f: usize = 0;
    proof {
        assert(id_set(frontier@.take(0)) =~= Set::<Seq<char>>::empty());
        assert(id_set(next@) =~= Set::<Seq<char>>::empty());
        assert(v0.union(id_set(frontier@.take(0))) =~= v0);
    }
    while f < frontier.len()
        invariant
            f <= frontier@.len(),
            id_set(visited@) == v0.union(id_set(frontier@.take(f as int))),
            depths_set(orig, edges@, nodes@, id_set(visited@)),
            forall|x: Seq<char>|
                id_set(frontier@).contains(x) && !v0.contains(x) ==> at_distance(orig, edges@, x, depth as nat),
            forall|y: Seq<char>|
                #[trigger] id_set(next@).contains(y) <==> successors(
                    edges@,
                    id_set(frontier@.take(f as int)).difference(v0),
                    y,
                ),
            next@.len() > 0 ==> visited@.len() > len0,
            visited@.len() <= len0 + f,
            visited@.len() >= len0,
            views(old(visited)@).no_duplicates() ==> views(visited@).no_duplicates(),
            len0 == old(visited)@.len(),
            v0 == id_set(old(visited)@),
        decreases frontier@.len() - f,
    {
        let rid = frontier[f].as_str();
        let ghost taken = frontier@.take(f as int);
        let ghost taken1 = frontier@.take(f + 1);
        proof {
            assert(taken1 =~= taken.push(frontier@[f as int]));
            assert(views(taken1) =~= views(taken).push(rid@));
            views(taken).lemma_push_to_set_commute(rid@);
            assert(id_set(taken1) =~= id_set(taken).insert(rid@));
        }
        if !contains_str(visited, rid) {
            proof {
                assert(!views(visited@).contains(rid@));
                assert(!id_set(visited@).contains(rid@));
                assert(!v0.contains(rid@));
                assert(id_set(frontier@).contains(rid@)) by {
                    assert(views(frontier@)[f as int] == rid@);
                }
            }
            let ghost before_nodes = nodes@;
            let ghost before_visited = visited@;
            visited.push(owned(rid));
            set_first_depth(nodes, rid, depth);
            proof {
                assert(views(visited@) =~= views(before_visited).push(rid@));
                views(before_visited).lemma_push_to_set_commute(rid@);
                assert(id_set(visited@) =~= id_set(before_visited).insert(rid@));
                assert(id_set(visited@) =~= v0.union(id_set(taken1)));
                assert forall|i: int| 0 <= i < orig.len() implies if first_with_id(orig, i) && id_set(visited@).contains(orig[i].id@) {
                    at_distance(orig, edges@, orig[i].id@, (#[trigger] nodes@[i]).depth as nat)
                } else {
                    nodes@[i].depth == orig[i].depth
                } by {
                    assert(same_but_depth(orig[i], before_nodes[i]));
                    assert(before_nodes[i].id@ == orig[i].id@);
                    if first_with_id(orig, i) && orig[i].id@ == rid@ {
                        assert(first_with_id(before_nodes, i)) by {
                            assert forall|j: int| 0 <= j < i implies before_nodes[j].id@ != before_nodes[i].id@ by {
                                assert(same_but_depth(orig[j], before_nodes[j]));
                            }
                        }
                    } else if orig[i].id@ == rid@ {
                        assert(!first_with_id(before_nodes, i)) by {
                            let j = choose|j: int| 0 <= j < i && orig[j].id@ == orig[i].id@;
                            assert(same_but_depth(orig[j], before_nodes[j]));
                        }
                    }
                }
            }
            let ghost before_next = next@;
            let mut e: usize = 0;
            while e < edges.len()
                invariant
                    e <= edges@.len(),
                    forall|y: Seq<char>|
                        #[trigger] id_set(next@).contains(y) <==> (id_set(before_next).contains(y) || exists|k: int|
                            0 <= k < e && #[trigger] edges@[k].to@ == y && edges@[k].from@ == rid@),
                    next@.len() >= before_next.len(),
                decreases edges@.len() - e,
            {
                if str_eq(edges[e].from.as_str(), rid) {
                    let ghost nb = next@;
                    next.push(owned(edges[e].to.as_str()));
                    proof {
                        assert(views(next@) =~= views(nb).push(edges@[e as int].to@));
                        views(nb).lemma_push_to_set_commute(edges@[e as int].to@);
                        assert(id_set(next@) =~= id_set(nb).insert(edges@[e as int].to@));
                    }
                }
                e = e + 1;
            }
            proof {
                let fr1 = id_set(taken1).difference(v0);
                let fr0 = id_set(taken).difference(v0);
                assert(fr1 =~= fr0.insert(rid@));
                assert forall|y: Seq<char>| #[trigger] id_set(next@).contains(y) <==> successors(edges@, fr1, y) by {
                    if id_set(next@).contains(y) && !id_set(before_next).contains(y) {
                        let k = choose|k: int| 0 <= k < e && #[trigger] edges@[k].to@ == y && edges@[k].from@ == rid@;
                        assert(fr1.contains(edges@[k].from@));
                    }
                    if id_set(before_next).contains(y) {
                        let k = choose|k: int| 0 <= k < edges@.len() && #[trigger] edges@[k].to@ == y && fr0.contains(edges@[k].from@);
                        assert(fr1.contains(edges@[k].from@));
                    }
                    if successors(edges@, fr1, y) {
                        let k = choose|k: int| 0 <= k < edges@.len() && #[trigger] edges@[k].to@ == y && fr1.contains(edges@[k].from@);
                        if edges@[k].from@ != rid@ {
                            assert(fr0.contains(edges@[k].from@));
                        }
                    }
                }
                if views(old(visited)@).no_duplicates() {
                    assert(views(visited@).no_duplicates()) by {
                        let vs = views(visited@);
                        assert forall|a: int, b: int| 0 <= a < vs.len() && 0 <= b < vs.len() && a != b implies vs[a] != vs[b] by {
                            if a == vs.len() - 1 || b == vs.len() - 1 {
                                assert(!views(before_visited).contains(rid@));
                                let o = if a == vs.len() - 1 { b } else { a };
                                assert(views(before_visited)[o] == vs[o]);
                            } else {
                                assert(views(before_visited)[a] == vs[a]);
                                assert(views(before_visited)[b] == vs[b]);
                            }
                        }
                    }
                }
            }
        } else {
            proof {
                assert(views(visited@).contains(rid@));
                assert(id_set(visited@).contains(rid@));
                assert(id_set(visited@) =~= v0.union(id_set(taken1)));
                let fr1 = id_set(taken1).difference(v0);
                let fr0 = id_set(taken).difference(v0);
                if !v0.contains(rid@) {
                    assert(id_set(taken).contains(rid@));
                }
                assert(fr1 =~= fr0);
            }
        }
        f = f + 1;
    }
    proof {
        assert(frontier@.take(frontier@.len() as int) =~= frontier@);
    }
    next
}

/// Every id the layout can meet: the nodes' ids and the edges' targets.
pub open spec fn universe(nodes: Seq<GraphNode>, edges: Seq<GraphEdge>) -> Seq<Seq<char>> {
    nodes.map_values(|n: GraphNode| n.id@) + edges.map_values(|e: GraphEdge| e.to@)
}

/// Lays the task graph out in levels: every task that a path from a root
/// (a task nothing leads to) reaches gets as depth the number of edges on
/// the shortest such path, found breadth-first. Only the first node with a
/// given id carries it; every other depth, and everything else about the
/// nodes, stays as it was.
pub fn compute_depths(nodes: &mut Vec<GraphNode>, edges: &[GraphEdge])
    requires
        old(nodes)@.len() + edges@.len() < usize::MAX,
    ensures
        final(nodes)@.len() == old(nodes)@.len(),
        forall|i: int| 0 <= i < old(nodes)@.len() ==> same_but_depth(old(nodes)@[i], #[trigger] final(nodes)@[i]),
        forall|i: int|
            0 <= i < old(nodes)@.len() ==> if first_with_id(old(nodes)@, i) && exists|k: nat|
                #[trigger] reach(old(nodes)@, edges@, old(nodes)@[i].id@, k) {
                at_distance(old(nodes)@, edges@, old(nodes)@[i].id@, (#[trigger] final(nodes)@[i]).depth as nat)
            } else {
                final(nodes)@[i].depth == old(nodes)@[i].depth
            },
{
    let ghost orig = nodes@;
    let ghost u = universe(orig, edges@);
    let mut frontier = roots_of(nodes, edges);
    let mut visited: Vec<String> = Vec::new();
    let mut depth: usize = 0;
    proof {
        assert(id_set(visited@) =~= Set::<Seq<char>>::empty());
        assert(views(visited@) =~= Seq::<Seq<char>>::empty());
        u.lemma_cardinality_of_set();
        assert forall|x: Seq<char>| id_set(frontier@).contains(x) implies u.to_set().contains(x) by {
            let i = choose|i: int| 0 <= i < orig.len() && #[trigger] orig[i].id@ == x;
            assert(u[i] == x);
        }
        assert forall|x: Seq<char>|
            (id_set(frontier@).contains(x) && !id_set(visited@).contains(x)) <==> at_distance(orig, edges@, x, 0) by {
            if at_distance(orig, edges@, x, 0) {
                assert(reach(orig, edges@, x, 0));
            }
        }
        assert forall|i: int| 0 <= i < orig.len() implies same_but_depth(orig[i], #[trigger] nodes@[i]) by {}
    }
    while frontier.len() > 0
        invariant
            nodes@.len() == orig.len(),
            orig.len() + edges@.len() < usize::MAX,
            u == universe(orig, edges@),
            u.to_set().len() <= u.len(),
            depths_set(orig, edges@, nodes@, id_set(visited@)),
            forall|x: Seq<char>| #[trigger] id_set(visited@).contains(x) <==> reached_before(orig, edges@, x, depth as nat),
            forall|x: Seq<char>|
                (id_set(frontier@).contains(x) && !id_set(visited@).contains(x)) <==> #[trigger] at_distance(
                    orig,
                    edges@,
                    x,
                    depth as nat,
                ),
            views(visited@).no_duplicates(),
            id_set(visited@).subset_of(u.to_set()),
            id_set(frontier@).subset_of(u.to_set()),
            frontier@.len() > 0 ==> depth <= visited@.len(),
            visited@.len() <= u.len(),
        decreases 2 * (u.len() - visited@.len()) + if frontier@.len() > 0 {
            1int
        } else {
            0int
        },
    {
        let ghost v0 = id_set(visited@);
        let ghost f0 = id_set(frontier@);
        let ghost k = depth as nat;
        let ghost len0 = visited@.len();
        let next = visit_level(nodes, edges, &frontier, &mut visited, depth, Ghost(orig));
        proof {
            views(visited@).unique_seq_to_set();
            vstd::set_lib::lemma_len_subset(id_set(visited@), u.to_set());
            assert forall|x: Seq<char>|
                #[trigger] id_set(visited@).contains(x) <==> reached_before(orig, edges@, x, k + 1) by {
                if id_set(visited@).contains(x) {
                    if v0.contains(x) {
                        let j = choose|j: nat| j < k && #[trigger] reach(orig, edges@, x, j);
                        assert(reach(orig, edges@, x, j));
                    } else {
                        assert(at_distance(orig, edges@, x, k));
                        assert(reach(orig, edges@, x, k));
                    }
                }
                if reached_before(orig, edges@, x, k + 1) {
                    let j = choose|j: nat| j < k + 1 && #[trigger] reach(orig, edges@, x, j);
                    if j < k {
                        assert(reached_before(orig, edges@, x, k));
                    } else if !reached_before(orig, edges@, x, k) {
                        assert(at_distance(orig, edges@, x, k));
                    }
                }
            }
            assert forall|x: Seq<char>|
                (id_set(next@).contains(x) && !id_set(visited@).contains(x)) <==> #[trigger] at_distance(
                    orig,
                    edges@,
                    x,
                    k + 1,
                ) by {
                let fr = f0.difference(v0);
                if id_set(next@).contains(x) && !id_set(visited@).contains(x) {
                    let e = choose|e: int| 0 <= e < edges@.len() && #[trigger] edges@[e].to@ == x && fr.contains(edges@[e].from@);
                    assert(at_distance(orig, edges@, edges@[e].from@, k));
                    assert(reach(orig, edges@, x, k + 1));
                    assert forall|j: nat| j < k + 1 implies !#[trigger] reach(orig, edges@, x, j) by {
                        if reach(orig, edges@, x, j) {
                            assert(reached_before(orig, edges@, x, k + 1));
                        }
                    }
                }
                if at_distance(orig, edges@, x, k + 1) {
                    let e = choose|e: int|
                        0 <= e < edges@.len() && #[trigger] edges@[e].to@ == x && reach(orig, edges@, edges@[e].from@, k);
                    let y = edges@[e].from@;
                    assert forall|j: nat| j < k implies !#[trigger] reach(orig, edges@, y, j) by {
                        if reach(orig, edges@, y, j) {
                            assert(reach(orig, edges@, x, j + 1));
                        }
                    }
                    assert(at_distance(orig, edges@, y, k));
                    assert(fr.contains(y));
                    assert(successors(edges@, fr, x));
                    if reached_before(orig, edges@, x, k + 1) {
                        let j = choose|j: nat| j < k + 1 && #[trigger] reach(orig, edges@, x, j);
                        assert(!reach(orig, edges@, x, j));
                    }
                }
            }
            assert forall|x: Seq<char>| id_set(next@).contains(x) implies u.to_set().contains(x) by {
                let e = choose|e: int|
                    0 <= e < edges@.len() && #[trigger] edges@[e].to@ == x && f0.difference(v0).contains(edges@[e].from@);
                assert(u[orig.len() + e] == x);
            }
        }
        frontier = next;
        depth = depth + 1;
    }
    proof {
        assert forall|i: int|
            0 <= i < orig.len() implies if first_with_id(orig, i) && exists|k: nat|
                #[trigger] reach(orig, edges@, orig[i].id@, k) {
                at_distance(orig, edges@, orig[i].id@, (#[trigger] nodes@[i]).depth as nat)
            } else {
                nodes@[i].depth == orig[i].depth
            } by {
            let x = orig[i].id@;
            if exists|k: nat| #[trigger] reach(orig, edges@, x, k) {
                let k = choose|k: nat| #[trigger] reach(orig, edges@, x, k);
                lemma_shortest(orig, edges@, x, k);
                let m = choose|m: nat| m <= k && #[trigger] at_distance(orig, edges@, x, m);
                if m >= depth {
                    lemma_distance_below(orig, edges@, x, m, depth as nat);
                    let y = choose|y: Seq<char>| #[trigger] at_distance(orig, edges@, y, depth as nat);
                    assert(id_set(frontier@).contains(y));
                }
                assert(reach(orig, edges@, x, m));
                assert(id_set(visited@).contains(x));
            } else {
                if id_set(visited@).contains(x) {
                    let j = choose|j: nat| j < depth && #[trigger] reach(orig, edges@, x, j);
                    assert(reach(orig, edges@, x, j));
                }
            }
        }
    }
}

/// A task of a run: its label and the files it writes.
#[derive(Debug, Clone)]
pub struct TaskFiles {
    pub label: String,
    pub write_files: Vec<String>,
}

/// A conflict as plain text: the file and the two tasks' labels.
pub open spec fn conflict_view(c: ConflictInfo) -> (Seq<char>, Seq<char>, Seq<char>) {
    (c.file_path@, c.agent_a@, c.agent_b@)
}

/// The files of `ws` that `other` also writes, in `ws`'s order.
pub open spec fn shared_files(ws: Seq<Seq<char>>, other: Seq<Seq<char>>) -> Seq<Seq<char>>
    decreases ws.len(),
{
    if ws.len() == 0 {
        seq![]
    } else if other.contains(ws.last()) {
        shared_files(ws.drop_last(), other).push(ws.last())
    } else {
        shared_files(ws.drop_last(), other)
    }
}

/// The conflicts between task `a` and a later task `b`.
pub open spec fn pair_conflicts(a: TaskFiles, b: TaskFiles) -> Seq<(Seq<char>, Seq<char>, Seq<char>)> {
    shared_files(views(a.write_files@), views(b.write_files@)).map_values(
        |p: Seq<char>| (p, a.label@, b.label@),
    )
}

/// The conflicts of task `i` with the tasks after it and before `n`.
pub open spec fn row_conflicts(ts: Seq<TaskFiles>, i: int, n: int) -> Seq<(Seq<char>, Seq<char>, Seq<char>)>
    decreases n - i,
{
    if n <= i + 1 {
        seq![]
    } else {
        row_conflicts(ts, i, n - 1) + pair_conflicts(ts[i], ts[n - 1])
    }
}

/// The conflicts of the first `m` tasks with the tasks after each.
pub open spec fn conflicts_upto(ts: Seq<TaskFiles>, m: int) -> Seq<(Seq<char>, Seq<char>, Seq<char>)>
    decreases m,
{
    if m <= 0 {
        seq![]
    } else {
        conflicts_upto(ts, m - 1) + row_conflicts(ts, m - 1, ts.len() as int)
    }
}

/// Every pair of tasks that write the same file: for each task and each
/// later task, each file of the first that the second also writes, in
/// order.
pub fn write_conflicts(tasks: &[TaskFiles]) -> (r: Vec<ConflictInfo>)
    ensures
        r@.map_values(|c: ConflictInfo| conflict_view(c)) == conflicts_upto(tasks@, tasks@.len() as int),
{
    let mut out: Vec<ConflictInfo> = Vec::new();
    let mut i: usize = 0;
    while i < tasks.len()
        invariant
            i <= tasks@.len(),
            out@.map_values(|c: ConflictInfo| conflict_view(c)) == conflicts_upto(tasks@, i as int),
        decreases tasks@.len() - i,
    {
        let ghost base = out@.map_values(|c: ConflictInfo| conflict_view(c));
        let mut j: usize = i + 1;
        assert(row_conflicts(tasks@, i as int, j as int) =~= seq![]);
        assert(base + row_conflicts(tasks@, i as int, j as int) =~= base);
        while j < tasks.len()
            invariant
                i < tasks@.len(),
                i + 1 <= j <= tasks@.len(),
                out@.map_values(|c: ConflictInfo| conflict_view(c)) == base + row_conflicts(tasks@, i as int, j as int),
            decreases tasks@.len() - j,
        {
            let a = &tasks[i];
            let b = &tasks[j];
            let ghost before = out@.map_values(|c: ConflictInfo| conflict_view(c));
            let mut k: usize = 0;
            let ghost aw = views(a.write_files@);
            let ghost bw = views(b.write_files@);
            proof {
                assert(aw.take(0) =~= seq![]);
                assert(shared_files(aw.take(0), bw).map_values(|p: Seq<char>| (p, a.label@, b.label@)) =~= seq![]);
                assert(before + seq![] =~= before);
            }
            while k < a.write_files.len()
                invariant
                    k <= a.write_files@.len(),
                    aw == views(a.write_files@),
                    bw == views(b.write_files@),
                    out@.map_values(|c: ConflictInfo| conflict_view(c)) == before + shared_files(aw.take(k as int), bw).map_values(
                        |p: Seq<char>| (p, a.label@, b.label@),
                    ),
                decreases a.write_files@.len() - k,
            {
                let path = a.write_files[k].as_str();
                proof {
                    assert(aw.take(k + 1).drop_last() =~= aw.take(k as int));
                    assert(aw.take(k + 1).last() == path@);
                }
                if contains_str(&b.write_files, path) {
                    let ghost prev = out@;
                    out.push(ConflictInfo { file_path: owned(path), agent_a: owned(a.label.as_str()), agent_b: owned(b.label.as_str()) });
                    proof {
                        assert(bw.contains(path@));
                        assert(out@.map_values(|c: ConflictInfo| conflict_view(c)) =~= prev.map_values(
                            |c: ConflictInfo| conflict_view(c),
                        ).push((path@, a.label@, b.label@)));
                        assert(shared_files(aw.take(k + 1), bw) == shared_files(aw.take(k as int), bw).push(path@));
                        assert(before + shared_files(aw.take(k + 1), bw).map_values(|p: Seq<char>| (p, a.label@, b.label@))
                            =~= (before + shared_files(aw.take(k as int), bw).map_values(|p: Seq<char>| (p, a.label@, b.label@))).push(
                            (path@, a.label@, b.label@),
                        ));
                    }
                } else {
                    proof {
                        assert(!bw.contains(path@));
                        assert(shared_files(aw.take(k + 1), bw) == shared_files(aw.take(k as int), bw));
                    }
                }
                k = k + 1;
            }
            proof {
                assert(aw.take(aw.len() as int) =~= aw);
                assert(row_conflicts(tasks@, i as int, j + 1) == row_conflicts(tasks@, i as int, j as int) + pair_conflicts(
                    tasks@[i as int],
                    tasks@[j as int],
                ));
                assert(out@.map_values(|c: ConflictInfo| conflict_view(c)) =~= base + row_conflicts(tasks@, i as int, j + 1));
            }
            j = j + 1;
        }
        proof {
            assert(conflicts_upto(tasks@, i + 1) == conflicts_upto(tasks@, i as int) + row_conflicts(
                tasks@,
                i as int,
                tasks@.len() as int,
            ));
        }
        i = i + 1;
    }
    out
}

} // verus!
