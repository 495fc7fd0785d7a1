//! The symbolic wheel graph: each domain's outgoing edges, and the
//! shortest path table computed by breadth-first search.
use vstd::prelude::*;

use crate::text::{chars_of, decimal, push_decimal, push_str, string_of};
use crate::domain::{
    all_domains, aspect_of, domain_at, is_edge, relationship_of, CompositionAspect, Domain, Node,
    Relationship, WheelError,
};

verus! {

/// Steps along the wheel of the `k`-th outgoing edge of every domain:
/// itself, +1, -1, the two trines (+3, +6) and the opposite (+4).
pub open spec fn edge_step(k: int) -> int {
    if k == 0 {
        0
    } else if k == 1 {
        1
    } else if k == 2 {
        8
    } else if k == 3 {
        3
    } else if k == 4 {
        6
    } else {
        4
    }
}

/// The outgoing edges of `d`, in the order the graph stores them.
pub open spec fn edges_of(d: Domain) -> Seq<(Domain, CompositionAspect)> {
    seq![
        (d, CompositionAspect::Aligned),
        (d.shifted(1), CompositionAspect::Adjacent),
        (d.shifted(-1), CompositionAspect::Adjacent),
        (d.shifted(3), CompositionAspect::Harmonic),
        (d.shifted(6), CompositionAspect::Harmonic),
        (d.shifted(4), CompositionAspect::Antipodal),
    ]
}

/// There is an outgoing edge from position `a` to position `b`.
pub open spec fn out_edge(a: int, b: int) -> bool {
    let k = (b - a) % 9;
    k == 0 || k == 1 || k == 8 || k == 3 || k == 6 || k == 4
}

/// The shortest path from position `i` to position `j` that breadth-first
/// search over the outgoing edges finds: `[i]`, `[i, j]` for a direct edge,
/// and otherwise the detour through the next domain clockwise.
pub open spec fn path_positions(i: int, j: int) -> Seq<int> {
    if i == j {
        seq![i]
    } else if out_edge(i, j) {
        seq![i, j]
    } else {
        seq![i, (i + 1) % 9, j]
    }
}

/// `path_positions` as domains.
pub open spec fn wheel_path(from: Domain, to: Domain) -> Seq<Domain> {
    path_positions(from.idx(), to.idx()).map_values(|p: int| domain_at(p))
}

/// The table entry holds the path from position `a` to position `b`.
pub open spec fn holds_path(o: Option<Vec<Domain>>, a: int, b: int) -> bool {
    match o {
        Some(p) => p@ == wheel_path(domain_at(a), domain_at(b)),
        None => false,
    }
}

/// The node metadata `WheelGraph::node` reports, named by the English name.
pub open spec fn graph_node(n: Node, d: Domain) -> bool {
    n.describes(d, d.idx(), d.full_name_text())
}

/// The parent BFS assigns to position `x` when searching from `i`.
pub open spec fn bfs_parent(i: int, x: int) -> Option<usize> {
    if x == i {
        None
    } else if out_edge(i, x) {
        Some(i as usize)
    } else {
        Some(((i + 1) % 9) as usize)
    }
}

proof fn lemma_domain_at_idx(d: Domain)
    ensures
        domain_at(d.idx()) == d,
        0 <= d.idx() < 9,
{
}

proof fn lemma_idx_domain_at(x: int)
    requires
        0 <= x < 9,
    ensures
        domain_at(x).idx() == x,
{
}

/// The `k`-th stored edge of the domain at position `c` leads to position
/// `(c + edge_step(k)) % 9`.
proof fn lemma_edge_target(c: int, k: int)
    requires
        0 <= c < 9,
        0 <= k < 6,
    ensures
        edges_of(domain_at(c))[k].0.idx() == (c + edge_step(k)) % 9,
        edges_of(domain_at(c))[k].0 == domain_at((c + edge_step(k)) % 9),
{
    lemma_idx_domain_at(c);
    let t = (c + edge_step(k)) % 9;
    assert(0 <= t < 9);
    lemma_idx_domain_at(t);
    if k == 2 {
        assert((c + -1) % 9 == (c + 8) % 9);
    }
}

/// `out_edge(c, y)` holds exactly when some stored edge of `c` leads to `y`.
proof fn lemma_out_edge_listed(c: int, y: int)
    requires
        0 <= c < 9,
        0 <= y < 9,
    ensures
        out_edge(c, y) <==> exists|k: int| 0 <= k < 6 && (c + edge_step(k)) % 9 == y,
{
    if out_edge(c, y) {
        let d = (y - c) % 9;
        let k = if d == 0 {
            0int
        } else if d == 1 {
            1int
        } else if d == 8 {
            2int
        } else if d == 3 {
            3int
        } else if d == 6 {
            4int
        } else {
            5int
        };
        assert((c + edge_step(k)) % 9 == y);
    }
    if exists|k: int| 0 <= k < 6 && (c + edge_step(k)) % 9 == y {
        let k = choose|k: int| 0 <= k < 6 && (c + edge_step(k)) % 9 == y;
        assert(0 <= k < 6);
    }
}

/// Every position that is not an out-neighbour of `i` is an out-neighbour of
/// the next position clockwise.
proof fn lemma_detour(i: int, j: int)
    requires
        0 <= i < 9,
        0 <= j < 9,
        !out_edge(i, j),
    ensures
        out_edge((i + 1) % 9, j),
        out_edge(i, (i + 1) % 9),
        (i + 1) % 9 != i,
        j != i,
        j != (i + 1) % 9,
{
}

/// Distinct positions on the wheel number at most nine.
proof fn lemma_distinct_positions(s: Seq<int>)
    requires
        forall|p: int, q: int| 0 <= p < q < s.len() ==> #[trigger] s[p] != #[trigger] s[q],
        forall|p: int| 0 <= p < s.len() ==> 0 <= #[trigger] s[p] < 9,
    ensures
        s.len() <= 9,
{
    assert(s.no_duplicates()) by {
        assert forall|p: int, q: int| 0 <= p < s.len() && 0 <= q < s.len() && p != q implies s[p] != s[q] by {
            if p < q {
                assert(s[p] != s[q]);
            } else {
                assert(s[q] != s[p]);
            }
        }
    }
    s.unique_seq_to_set();
    vstd::set_lib::lemma_int_range(0, 9);
    assert(s.to_set().subset_of(vstd::set_lib::set_int_range(0, 9)));
    vstd::set_lib::lemma_len_subset(s.to_set(), vstd::set_lib::set_int_range(0, 9));
}

/// The symbolic wheel graph.
#[derive(Debug)]
pub struct WheelGraph {
    adjacency: Vec<Vec<(Domain, CompositionAspect)>>,
    shortest_paths: Vec<Vec<Option<Vec<Domain>>>>,
}

impl WheelGraph {
    /// The stored edges are `edges_of` and the path table holds `wheel_path`.
    #[verifier::type_invariant]
    spec fn wf(self) -> bool {
        &&& self.adjacency.len() == 9
        &&& forall|x: int| 0 <= x < 9 ==> #[trigger] self.adjacency@[x]@ == edges_of(domain_at(x))
        &&& self.shortest_paths.len() == 9
        &&& forall|i: int|
            0 <= i < 9 ==> #[trigger] self.shortest_paths@[i].len() == 9
        &&& forall|i: int, j: int|
            0 <= i < 9 && 0 <= j < 9 ==> holds_path(#[trigger] self.shortest_paths@[i]@[j], i, j)
    }

    /// The stored outgoing edges of the domain at position `x`.
    pub closed spec fn stored_edges(self, x: int) -> Seq<(Domain, CompositionAspect)> {
        self.adjacency@[x]@
    }

    /// The stored shortest path from position `i` to position `j`.
    pub closed spec fn stored_path(self, i: int, j: int) -> Option<Seq<Domain>> {
        match self.shortest_paths@[i]@[j] {
            Some(p) => Some(p@),
            None => None,
        }
    }

    fn build_adjacency() -> (r: Vec<Vec<(Domain, CompositionAspect)>>)
        ensures
            r.len() == 9,
            forall|x: int| 0 <= x < 9 ==> #[trigger] r@[x]@ == edges_of(domain_at(x)),
    {
        let all = Domain::all();
        let mut adjacency: Vec<Vec<(Domain, CompositionAspect)>> = Vec::new();
        let mut i: usize = 0;
        while i < 9
            invariant
                i <= 9,
                all@ == all_domains(),
                adjacency.len() == i,
                forall|x: int| 0 <= x < i ==> #[trigger] adjacency@[x]@ == edges_of(domain_at(x)),
            decreases 9 - i,
        {
            let domain = all[i];
            assert(domain == domain_at(i as int));
            let mut edges: Vec<(Domain, CompositionAspect)> = Vec::new();
            edges.push((domain, CompositionAspect::Aligned));
            let adj = domain.adjacent();
            edges.push((adj[0], CompositionAspect::Adjacent));
            edges.push((adj[1], CompositionAspect::Adjacent));
            let tri = domain.trines();
            edges.push((tri[0], CompositionAspect::Harmonic));
            edges.push((tri[1], CompositionAspect::Harmonic));
            edges.push((domain.offset(4), CompositionAspect::Antipodal));
            assert(edges@ =~= edges_of(domain));
            adjacency.push(edges);
            i = i + 1;
        }
        adjacency
    }

    /// Breadth-first search from position `start`: the parent of every position.
    #[verifier::spinoff_prover]
    #[verifier::rlimit(60)]
    fn bfs_parents(adjacency: &Vec<Vec<(Domain, CompositionAspect)>>, start: usize) -> (r: Vec<
        Option<usize>,
    >)
        requires
            start < 9,
            adjacency.len() == 9,
            forall|x: int| 0 <= x < 9 ==> #[trigger] adjacency@[x]@ == edges_of(domain_at(x)),
        ensures
            r.len() == 9,
            forall|x: int| 0 <= x < 9 ==> #[trigger] r@[x] == bfs_parent(start as int, x),
    {
        let ghost i = start as int;
        let mut visited: Vec<bool> = vec![false, false, false, false, false, false, false, false, false];
        let mut prev: Vec<Option<usize>> = vec![None, None, None, None, None, None, None, None, None];
        let mut queue: std::collections::VecDeque<usize> = std::collections::VecDeque::new();
        visited.set(start, true);
        queue.push_back(start);
        let ghost mut order: Seq<int> = seq![i];
        let ghost mut parent: Seq<int> = seq![0int];
        let ghost mut head: int = 0;
        assert(queue@ =~= order.subrange(head, order.len() as int).map_values(|p: int| p as usize));
        assert forall|x: int| 0 <= x < 9 implies (#[trigger] visited@[x] <==> order.contains(x)) by {
            if x == i {
                assert(order[0] == x);
            }
        }
        loop
            invariant_except_break
                queue@ =~= order.subrange(head, order.len() as int).map_values(|p: int| p as usize),
            invariant
                adjacency.len() == 9,
                forall|x: int| 0 <= x < 9 ==> #[trigger] adjacency@[x]@ == edges_of(domain_at(x)),
                0 <= i < 9,
                visited.len() == 9,
                prev.len() == 9,
                0 <= head <= order.len() <= 9,
                order.len() == parent.len(),
                order[0] == i,
                forall|p: int| 0 <= p < order.len() ==> 0 <= #[trigger] order[p] < 9,
                forall|p: int, q: int|
                    0 <= p < q < order.len() ==> #[trigger] order[p] != #[trigger] order[q],
                forall|x: int| 0 <= x < 9 ==> (#[trigger] visited@[x] <==> order.contains(x)),
                prev@[i] == None::<usize>,
                forall|p: int|
                    1 <= p < order.len() ==> {
                        &&& 0 <= #[trigger] parent[p] < head
                        &&& prev@[order[p]] == Some(order[parent[p]] as usize)
                        &&& out_edge(order[parent[p]], order[p])
                        &&& forall|q: int|
                            0 <= q < parent[p] ==> !out_edge(#[trigger] order[q], order[p])
                    },
                forall|q: int, y: int|
                    0 <= q < head && 0 <= y < 9 && out_edge(#[trigger] order[q], y) ==> #[trigger] visited@[y],
                head >= 1 ==> order.len() >= 2 && order[1] == (i + 1) % 9,
                head == 0 ==> order.len() == 1,
                order.len() >= 1,
            ensures
                head == order.len(),
            decreases 9 - head,
        {
            let popped = queue.pop_front();
            match popped {
                None => {
                    proof {
                        assert(order.len() - head == 0) by {
                            assert(queue@.len() == order.len() - head);
                        }
                    }
                    break;
                },
                Some(curr) => {
                    proof {
                        assert(queue@.len() + 1 == order.len() - head);
                        assert(curr == order[head]);
                    }
                    let ghost c = curr as int;
                    let mut k: usize = 0;
                    while k < 6
                        invariant
                            adjacency.len() == 9,
                            forall|x: int| 0 <= x < 9 ==> #[trigger] adjacency@[x]@ == edges_of(domain_at(x)),
                            0 <= i < 9,
                            0 <= c < 9,
                            c == order[head],
                            curr == c,
                            k <= 6,
                            visited.len() == 9,
                            prev.len() == 9,
                            0 <= head < order.len() <= 9,
                            order.len() == parent.len(),
                            queue@ =~= order.subrange(head + 1, order.len() as int).map_values(|p: int| p as usize),
                            order[0] == i,
                            forall|p: int| 0 <= p < order.len() ==> 0 <= #[trigger] order[p] < 9,
                            forall|p: int, q: int|
                                0 <= p < q < order.len() ==> #[trigger] order[p] != #[trigger] order[q],
                            forall|x: int| 0 <= x < 9 ==> (#[trigger] visited@[x] <==> order.contains(x)),
                            prev@[i] == None::<usize>,
                            forall|p: int|
                                1 <= p < order.len() ==> {
                                    &&& 0 <= #[trigger] parent[p] <= head
                                    &&& prev@[order[p]] == Some(order[parent[p]] as usize)
                                    &&& out_edge(order[parent[p]], order[p])
                                    &&& forall|q: int|
                                        0 <= q < parent[p] ==> !out_edge(#[trigger] order[q], order[p])
                                },
                            forall|q: int, y: int|
                                0 <= q < head && 0 <= y < 9 && out_edge(#[trigger] order[q], y) ==> #[trigger] visited@[y],
                            forall|kk: int|
                                0 <= kk < k ==> #[trigger] visited@[(c + edge_step(kk)) % 9],
                            head >= 1 ==> order.len() >= 2 && order[1] == (i + 1) % 9,
                            head == 0 && k >= 2 ==> order.len() >= 2 && order[1] == (i + 1) % 9,
                            head == 0 && k <= 1 ==> order.len() == 1,
                        decreases 6 - k,
                    {
                        let (neighbor, _) = adjacency[curr][k];
                        proof {
                            lemma_edge_target(c, k as int);
                        }
                        let nidx = neighbor.index();
                        assert(nidx == (c + edge_step(k as int)) % 9);
                        let ghost mut old_order: Seq<int> = order;
                        let ghost mut old_visited: Seq<bool> = visited@;
                        if !visited[nidx] {
                            proof {
                                lemma_out_edge_listed(c, nidx as int);
                                assert(out_edge(c, nidx as int));
                                assert forall|q: int| 0 <= q < head implies !out_edge(#[trigger] order[q], nidx as int) by {
                                    if out_edge(order[q], nidx as int) {
                                        assert(visited@[nidx as int]);
                                    }
                                }
                                assert(!order.contains(nidx as int));
                                old_order = order;
                                old_visited = visited@;
                                order = order.push(nidx as int);
                                parent = parent.push(head);
                                lemma_distinct_positions(order);
                            }
                            visited.set(nidx, true);
                            prev.set(nidx, Some(curr));
                            queue.push_back(nidx);
                            proof {
                                assert(order.contains(nidx as int)) by {
                                    assert(order[order.len() - 1] == nidx as int);
                                }
                                assert forall|x: int| 0 <= x < 9 implies (#[trigger] visited@[x] <==> order.contains(x)) by {
                                    if x != nidx as int {
                                        assert(visited@[x] == old_visited[x]);
                                        assert(old_visited[x] <==> old_order.contains(x));
                                        if order.contains(x) {
                                            let p = choose|p: int| 0 <= p < order.len() && order[p] == x;
                                            assert(p < old_order.len());
                                            assert(old_order[p] == x);
                                        }
                                        if old_order.contains(x) {
                                            let p = choose|p: int| 0 <= p < old_order.len() && old_order[p] == x;
                                            assert(order[p] == x);
                                        }
                                    }
                                }
                                if head == 0 && k == 1 {
                                    assert(nidx == (i + 1) % 9);
                                }
                            }
                        } else {
                            proof {
                                if head == 0 && k == 1 {
                                    assert(order.len() == 1);
                                    assert(order.contains(nidx as int));
                                    assert(nidx as int == i);
                                    assert(false);
                                }
                            }
                        }
                        k = k + 1;
                    }
                    proof {
                        assert forall|y: int| 0 <= y < 9 && out_edge(c, y) implies #[trigger] visited@[y] by {
                            lemma_out_edge_listed(c, y);
                            let kk = choose|kk: int| 0 <= kk < 6 && (c + edge_step(kk)) % 9 == y;
                            assert(visited@[(c + edge_step(kk)) % 9]);
                        }
                        head = head + 1;
                    }
                },
            }
        }
        proof {
            // every position is visited: start, its out-neighbours, and those of the next position
            assert(order.len() >= 2);
            assert forall|x: int| 0 <= x < 9 implies #[trigger] prev@[x] == bfs_parent(i, x) by {
                assert(out_edge(order[0], i));
                if x == i {
                } else {
                    let q0 = 0int;
                    if out_edge(i, x) {
                        assert(visited@[x]);
                    } else {
                        lemma_detour(i, x);
                        assert(out_edge(order[1], x));
                        assert(visited@[x]);
                    }
                    assert(order.contains(x));
                    let p = choose|p: int| 0 <= p < order.len() && order[p] == x;
                    assert(p != 0);
                    let pp = parent[p];
                    if out_edge(i, x) {
                        assert(out_edge(order[0], order[p]));
                        assert(pp == 0);
                    } else {
                        lemma_detour(i, x);
                        assert(!out_edge(order[0], order[p]));
                        assert(out_edge(order[1], order[p]));
                        assert(pp == 1);
                    }
                }
            }
        }
        prev
    }

    /// Create a new wheel graph with all 9 Vedic graha nodes.
    pub fn new() -> (r: Self)
        ensures
            forall|x: int| 0 <= x < 9 ==> #[trigger] r.stored_edges(x) == edges_of(domain_at(x)),
            forall|i: int, j: int|
                0 <= i < 9 && 0 <= j < 9 ==> #[trigger] r.stored_path(i, j) == Some(
                    wheel_path(domain_at(i), domain_at(j)),
                ),
    {
        let adjacency = Self::build_adjacency();
        let mut shortest_paths: Vec<Vec<Option<Vec<Domain>>>> = Vec::new();
        let mut i: usize = 0;
        while i < 9
            invariant
                i <= 9,
                adjacency.len() == 9,
                forall|x: int| 0 <= x < 9 ==> #[trigger] adjacency@[x]@ == edges_of(domain_at(x)),
                shortest_paths.len() == i,
                forall|a: int| 0 <= a < i ==> #[trigger] shortest_paths@[a].len() == 9,
                forall|a: int, b: int|
                    0 <= a < i && 0 <= b < 9 ==> holds_path(#[trigger] shortest_paths@[a]@[b], a, b),
            decreases 9 - i,
        {
            let prev = Self::bfs_parents(&adjacency, i);
            let mut row: Vec<Option<Vec<Domain>>> = Vec::new();
            let mut j: usize = 0;
            while j < 9
                invariant
                    i < 9,
                    j <= 9,
                    prev.len() == 9,
                    forall|x: int| 0 <= x < 9 ==> #[trigger] prev@[x] == bfs_parent(i as int, x),
                    row.len() == j,
                    forall|b: int|
                        0 <= b < j ==> holds_path(#[trigger] row@[b], i as int, b),
                decreases 9 - j,
            {
                let path = Self::trace_path(&prev, i, j);
                row.push(Some(path));
                j = j + 1;
            }
            shortest_paths.push(row);
            i = i + 1;
        }
        let r = WheelGraph { adjacency, shortest_paths };
        proof {
            assert forall|i: int, j: int| 0 <= i < 9 && 0 <= j < 9 implies #[trigger] r.stored_path(i, j)
                == Some(wheel_path(domain_at(i), domain_at(j))) by {
                assert(holds_path(r.shortest_paths@[i]@[j], i, j));
            }
        }
        r
    }

    /// Follows BFS parents back from `target` to `start`, then reverses.
    fn trace_path(prev: &Vec<Option<usize>>, start: usize, target: usize) -> (r: Vec<Domain>)
        requires
            start < 9,
            target < 9,
            prev.len() == 9,
            forall|x: int| 0 <= x < 9 ==> #[trigger] prev@[x] == bfs_parent(start as int, x),
        ensures
            r@ == wheel_path(domain_at(start as int), domain_at(target as int)),
    {
        let ghost full = path_positions(start as int, target as int).reverse();
        proof {
            lemma_idx_domain_at(start as int);
            lemma_idx_domain_at(target as int);
            if start != target && !out_edge(start as int, target as int) {
                lemma_detour(start as int, target as int);
            }
        }
        let mut back: Vec<Domain> = Vec::new();
        let mut cur: usize = target;
        loop
            invariant_except_break
                back.len() < full.len(),
                cur as int == full[back.len() as int],
            invariant
                start < 9,
                target < 9,
                prev.len() == 9,
                forall|x: int| 0 <= x < 9 ==> #[trigger] prev@[x] == bfs_parent(start as int, x),
                full == path_positions(start as int, target as int).reverse(),
                cur < 9,
                back.len() <= full.len(),
                back@ == full.take(back.len() as int).map_values(|p: int| domain_at(p)),
            ensures
                back.len() == full.len(),
            decreases full.len() - back.len(),
        {
            let d = match Domain::from_index(cur) {
                Some(d) => d,
                None => Domain::Surya,
            };
            back.push(d);
            proof {
                assert(full.take(back.len() as int) == full.take(back.len() - 1).push(cur as int));
            }
            match prev[cur] {
                Some(p) => {
                    proof {
                        assert(back.len() < full.len());
                        assert(p as int == full[back.len() as int]);
                    }
                    cur = p;
                },
                None => {
                    proof {
                        assert(cur == start);
                        assert(full[full.len() - 1] == start as int);
                        assert(back.len() == full.len());
                    }
                    break;
                },
            }
        }
        let r = reverse_domains(&back);
        proof {
            assert(full.take(full.len() as int) == full);
            assert(r@ =~= wheel_path(domain_at(start as int), domain_at(target as int)));
        }
        r
    }
}

/// `v` in reverse order.
fn reverse_domains(v: &Vec<Domain>) -> (r: Vec<Domain>)
    ensures
        r@ == v@.reverse(),
{
    let mut r: Vec<Domain> = Vec::new();
    let mut k: usize = v.len();
    while k > 0
        invariant
            k <= v.len(),
            r@ =~= v@.subrange(k as int, v.len() as int).reverse(),
        decreases k,
    {
        k = k - 1;
        r.push(v[k]);
    }
    r
}


/// `x` is the target of an outgoing edge of `d` whose aspect passes `filter`.
pub open spec fn listed_neighbor(d: Domain, x: Domain, filter: Option<CompositionAspect>) -> bool {
    exists|k: int|
        0 <= k < 6 && #[trigger] edges_of(d)[k].0 == x && (filter matches Some(a) ==> edges_of(
            d,
        )[k].1 == a)
}

/// The wheel diagram `render_wheel` draws.
pub open spec fn wheel_diagram() -> Seq<char> {
    WHEEL_DIAGRAM@
}

/// The nature of a relationship, as `describe_relationship` words it.
pub open spec fn nature_text(a: CompositionAspect) -> Seq<char> {
    if a.direct() {
        "direct flow"@
    } else {
        "requires mediation"@
    }
}

/// What `describe_relationship(from, to)` says.
pub open spec fn relationship_text(from: Domain, to: Domain) -> Seq<char> {
    let rel = relationship_of(from, to);
    from.symbol_text() + " "@ + from.full_name_text() + " → "@ + to.full_name_text() + ": "@
        + rel.aspect.display_text() + " (distance "@ + decimal(rel.distance as nat) + ", "@
        + nature_text(rel.aspect) + ")"@
}

/// The ASCII diagram of the wheel.
pub const WHEEL_DIAGRAM: &'static str = "            ☉ Surya
          /        \\
  ☋ Ketu            ☽ Chandra
 /                      \\
☊ Rahu                 ♂ Mangala
|                        |
♄ Shani                ☿ Budha
 \\                      /
  ♀ Shukra ——— ♃ Brihaspati

9 Vedic Grahas at 40° intervals:
  0°  ☉ Surya     — Self & Leadership
  40° ☽ Chandra   — Mind & Emotion
  80° ♂ Mangala   — Action & Engineering
  120°☿ Budha     — Logic & Communication
  160°♃ Brihaspati — Wisdom & Law
  200°♀ Shukra    — Arts & Value
  240°♄ Shani     — Structure & Time
  280°☊ Rahu      — Innovation & Tech
  320°☋ Ketu      — Spirituality & Science

Aspects (9-node wheel):
  Conjunction (0 steps):    self
  Sextile   (1 step, 40°):  adjacent flow
  Square    (2 steps, 80°): tension
  Trine     (3 steps, 120°): harmonic
  Opposition(4 steps, 160°): full aspect
";

/// A copy of `v`, element by element.
fn copy_domains(v: &Vec<Domain>) -> (r: Vec<Domain>)
    ensures
        r@ == v@,
{
    let mut r: Vec<Domain> = Vec::new();
    let mut k: usize = 0;
    while k < v.len()
        invariant
            k <= v.len(),
            r@ == v@.take(k as int),
        decreases v.len() - k,
    {
        r.push(v[k]);
        k = k + 1;
        proof {
            assert(v@.take(k as int) == v@.take(k - 1).push(v@[k - 1]));
        }
    }
    proof {
        assert(v@.take(k as int) == v@);
    }
    r
}

impl WheelGraph {
    /// The neighbours of a domain along its outgoing edges, optionally only
    /// those of one aspect, in wheel order.
    pub fn neighbors(&self, domain: Domain, aspect_filter: Option<CompositionAspect>) -> (r: Vec<
        Domain,
    >)
        ensures
            forall|a: int, b: int| 0 <= a < b < r.len() ==> r@[a].idx() < r@[b].idx(),
            forall|x: Domain| r@.contains(x) <==> listed_neighbor(domain, x, aspect_filter),
    {
        proof {
            use_type_invariant(self);
        }
        let edges = &self.adjacency[domain.index()];
        proof {
            lemma_domain_at_idx(domain);
        }
        let mut r: Vec<Domain> = Vec::new();
        let mut x: usize = 0;
        while x < 9
            invariant
                x <= 9,
                edges@ == edges_of(domain),
                forall|a: int, b: int| 0 <= a < b < r.len() ==> r@[a].idx() < r@[b].idx(),
                forall|a: int| 0 <= a < r.len() ==> #[trigger] r@[a].idx() < x,
                forall|y: Domain|
                    y.idx() < x ==> (r@.contains(y) <==> listed_neighbor(domain, y, aspect_filter)),
                forall|y: Domain| y.idx() >= x ==> !r@.contains(y),
            decreases 9 - x,
        {
            let target = match Domain::from_index(x) {
                Some(d) => d,
                None => Domain::Surya,
            };
            proof {
                lemma_idx_domain_at(x as int);
            }
            let mut found = false;
            let mut k: usize = 0;
            while k < 6
                invariant
                    k <= 6,
                    edges@ == edges_of(domain),
                    found <==> exists|kk: int|
                        0 <= kk < k && #[trigger] edges_of(domain)[kk].0 == target && (aspect_filter matches Some(
                            a,
                        ) ==> edges_of(domain)[kk].1 == a),
                decreases 6 - k,
            {
                let (n, a) = edges[k];
                let ok = match aspect_filter {
                    Some(f) => a == f,
                    None => true,
                };
                if n == target && ok {
                    found = true;
                }
                k = k + 1;
            }
            let ghost r0 = r@;
            if found {
                r.push(target);
            }
            proof {
                assert forall|y: Domain| y.idx() < x + 1 implies (r@.contains(y) <==> listed_neighbor(
                    domain,
                    y,
                    aspect_filter,
                )) by {
                    if y.idx() == x {
                        lemma_domain_at_idx(y);
                        assert(y == target);
                        if found {
                            assert(r@[r@.len() - 1] == y);
                        } else {
                            assert(!r0.contains(y));
                        }
                    } else {
                        if r@.contains(y) {
                            let p = choose|p: int| 0 <= p < r@.len() && r@[p] == y;
                            if p < r0.len() {
                                assert(r0.contains(y));
                            } else {
                                assert(r@[p] == target);
                                lemma_domain_at_idx(y);
                                assert(false);
                            }
                        }
                        if r0.contains(y) {
                            let p = choose|p: int| 0 <= p < r0.len() && r0[p] == y;
                            assert(r@[p] == y);
                        }
                    }
                }
                assert forall|y: Domain| y.idx() >= x + 1 implies !r@.contains(y) by {
                    if r@.contains(y) {
                        let p = choose|p: int| 0 <= p < r@.len() && r@[p] == y;
                        if p < r0.len() {
                            assert(r0.contains(y));
                        }
                    }
                }
            }
            x = x + 1;
        }
        proof {
            assert forall|y: Domain| r@.contains(y) <==> listed_neighbor(domain, y, aspect_filter) by {
                lemma_domain_at_idx(y);
            }
        }
        r
    }

    /// Get the relationship between two domains.
    pub fn relationship(&self, from: Domain, to: Domain) -> (r: Relationship)
        ensures
            r == relationship_of(from, to),
    {
        Relationship::new(from, to)
    }

    /// Find the shortest path between two domains (table lookup).
    pub fn shortest_path(&self, from: Domain, to: Domain) -> (r: Result<Vec<Domain>, WheelError>)
        ensures
            r matches Ok(p) && p@ == wheel_path(from, to),
    {
        proof {
            use_type_invariant(self);
            lemma_domain_at_idx(from);
            lemma_domain_at_idx(to);
        }
        let row = &self.shortest_paths[from.index()];
        assert(row.len() == 9);
        match &row[to.index()] {
            Some(p) => Ok(copy_domains(p)),
            None => Err(WheelError::NoPath(from, to)),
        }
    }

    /// Get the node metadata for a domain, named by its English name.
    pub fn node(&self, domain: Domain) -> (r: Node)
        ensures
            graph_node(r, domain),
    {
        Node {
            domain,
            symbol: domain.symbol(),
            name: domain.full_name(),
            description: domain.archetype(),
            index: domain.index(),
            opposite: domain.opposite(),
            trines: domain.trines(),
        }
    }

    /// Get all nodes with their metadata, in wheel order.
    pub fn all_nodes(&self) -> (r: Vec<Node>)
        ensures
            r.len() == 9,
            forall|i: int| 0 <= i < 9 ==> #[trigger] graph_node(r@[i], domain_at(i)),
    {
        let all = Domain::all();
        let mut r: Vec<Node> = Vec::new();
        let mut i: usize = 0;
        while i < 9
            invariant
                i <= 9,
                all@ == all_domains(),
                r.len() == i,
                forall|k: int| 0 <= k < i ==> #[trigger] graph_node(r@[k], domain_at(k)),
            decreases 9 - i,
        {
            let d = all[i];
            assert(d == domain_at(i as int));
            r.push(self.node(d));
            i = i + 1;
        }
        r
    }

    /// Get the structural composition relationship between two domains.
    pub fn aspect_between(&self, a: Domain, b: Domain) -> (r: CompositionAspect)
        ensures
            r == aspect_of(a, b),
    {
        CompositionAspect::between(a, b)
    }

    /// Whether the domains are 0, 1, 3 or 4 steps apart.
    pub fn has_edge(&self, from: Domain, to: Domain) -> (r: bool)
        ensures
            r == is_edge(from, to),
    {
        let i = from.index();
        let j = to.index();
        let diff = if i >= j {
            i - j
        } else {
            j - i
        };
        let min_diff = if diff < 9 - diff {
            diff
        } else {
            9 - diff
        };
        min_diff == 0 || min_diff == 1 || min_diff == 3 || min_diff == 4
    }

    /// Describe the relationship between two domains.
    pub fn describe_relationship(&self, from: Domain, to: Domain) -> (r: String)
        ensures
            r@ == relationship_text(from, to),
    {
        let rel = self.relationship(from, to);
        let mut v: Vec<char> = Vec::new();
        push_str(&mut v, from.symbol());
        push_str(&mut v, " ");
        push_str(&mut v, from.full_name());
        push_str(&mut v, " → ");
        push_str(&mut v, to.full_name());
        push_str(&mut v, ": ");
        let aspect = rel.aspect.to_string();
        push_str(&mut v, aspect.as_str());
        push_str(&mut v, " (distance ");
        push_decimal(&mut v, rel.distance as u64);
        push_str(&mut v, ", ");
        if rel.aspect.is_direct() {
            push_str(&mut v, "direct flow");
        } else {
            push_str(&mut v, "requires mediation");
        }
        push_str(&mut v, ")");
        string_of(&v)
    }

    /// Render the Vedic wheel as an ASCII diagram.
    pub fn render_wheel(&self) -> (r: String)
        ensures
            r@ == wheel_diagram(),
    {
        let v = chars_of(WHEEL_DIAGRAM);
        string_of(&v)
    }
}


/// A walk `find_paths` reports: it starts at `from`, ends at `to`, takes at
/// most `max_depth` steps along outgoing edges, and visits no domain before
/// `to` twice nor `to` itself early.
pub open spec fn valid_walk(w: Seq<Domain>, from: Domain, to: Domain, max_depth: int) -> bool {
    &&& 2 <= w.len() <= max_depth + 1
    &&& w[0] == from
    &&& w[w.len() - 1] == to
    &&& forall|k: int| 0 <= k < w.len() - 1 ==> out_edge(#[trigger] w[k].idx(), w[k + 1].idx())
    &&& forall|a: int, b: int| 0 <= a < b < w.len() - 1 ==> #[trigger] w[a] != #[trigger] w[b]
    &&& forall|a: int| 0 <= a < w.len() - 1 ==> #[trigger] w[a] != to
}

/// A partial walk the search still extends: starts at `from`, follows
/// outgoing edges, repeats no domain and has not reached `to`.
spec fn open_walk(p: Seq<Domain>, from: Domain, to: Domain) -> bool {
    &&& 1 <= p.len()
    &&& p[0] == from
    &&& forall|k: int| 0 <= k < p.len() - 1 ==> out_edge(#[trigger] p[k].idx(), p[k + 1].idx())
    &&& forall|a: int, b: int| 0 <= a < b < p.len() ==> #[trigger] p[a] != #[trigger] p[b]
    &&& forall|a: int| 0 <= a < p.len() ==> #[trigger] p[a] != to
}

/// `q` is a prefix of `w`.
spec fn is_prefix(q: Seq<Domain>, w: Seq<Domain>) -> bool {
    q.len() <= w.len() && w.take(q.len() as int) == q
}

/// `q` is a proper prefix of `w`.
spec fn stem_prefix(q: Seq<Domain>, w: Seq<Domain>) -> bool {
    q.len() < w.len() && w.take(q.len() as int) == q
}

/// Which of the six stored edges of `a` leads to `b`, counted in the order of
/// `edges_of`; 6 when none does.
pub open spec fn edge_rank(a: Domain, b: Domain) -> int {
    let s = (b.idx() - a.idx()) % 9;
    if s == 0 {
        0
    } else if s == 1 {
        1
    } else if s == 8 {
        2
    } else if s == 3 {
        3
    } else if s == 6 {
        4
    } else if s == 4 {
        5
    } else {
        6
    }
}

/// The stored-edge rank of each step of a walk.
pub open spec fn walk_ranks(w: Seq<Domain>) -> Seq<int> {
    if w.len() == 0 {
        Seq::empty()
    } else {
        Seq::new((w.len() - 1) as nat, |t: int| edge_rank(w[t], w[t + 1]))
    }
}

/// `a` and `b` agree before position `t`, and `a` is smaller at `t`.
pub open spec fn first_smaller_at(a: Seq<int>, b: Seq<int>, t: int) -> bool {
    &&& 0 <= t < a.len()
    &&& t < b.len()
    &&& a[t] < b[t]
    &&& a.take(t) == b.take(t)
}

/// `a` precedes `b` lexicographically.
pub open spec fn ranks_before(a: Seq<int>, b: Seq<int>) -> bool {
    exists|t: int| #[trigger] first_smaller_at(a, b, t)
}

/// The order in which breadth-first search reaches walks: fewer steps first;
/// among walks of as many steps, the one that leaves by the earlier stored
/// edge at the first step where the two part.
pub open spec fn found_before(a: Seq<Domain>, b: Seq<Domain>) -> bool {
    ||| a.len() < b.len()
    ||| a.len() == b.len() && ranks_before(walk_ranks(a), walk_ranks(b))
}

spec fn pow7(n: nat) -> nat
    decreases n,
{
    if n == 0 {
        1
    } else {
        7 * pow7((n - 1) as nat)
    }
}

/// Termination measure of the search queue: a walk of `n` domains weighs `7^(13 - n)`.
spec fn queue_weight(q: Seq<Vec<Domain>>) -> nat
    decreases q.len(),
{
    if q.len() == 0 {
        0
    } else {
        pow7((13 - q[0].len()) as nat) + queue_weight(q.drop_first())
    }
}

proof fn lemma_queue_weight_push(q: Seq<Vec<Domain>>, x: Vec<Domain>)
    ensures
        queue_weight(q.push(x)) == queue_weight(q) + pow7((13 - x.len()) as nat),
    decreases q.len(),
{
    let qx = q.push(x);
    assert(qx.len() > 0);
    if q.len() == 0 {
        assert(qx[0] == x);
        assert(qx.drop_first() =~= Seq::<Vec<Domain>>::empty());
        assert(queue_weight(qx.drop_first()) == 0);
        assert(queue_weight(q) == 0);
    } else {
        assert(qx[0] == q[0]);
        assert(qx.drop_first() =~= q.drop_first().push(x));
        lemma_queue_weight_push(q.drop_first(), x);
    }
}

proof fn lemma_pow7_positive(n: nat)
    ensures
        pow7(n) > 0,
    decreases n,
{
    if n > 0 {
        lemma_pow7_positive((n - 1) as nat);
    }
}

proof fn lemma_pow7_step(n: nat)
    requires
        n >= 1,
    ensures
        6 * pow7((n - 1) as nat) < pow7(n),
    decreases n,
{
    lemma_pow7_positive((n - 1) as nat);
}

/// The six stored edges of a domain lead to six different domains.
proof fn lemma_edge_targets_distinct(d: Domain, k1: int, k2: int)
    requires
        0 <= k1 < 6,
        0 <= k2 < 6,
        k1 != k2,
    ensures
        edges_of(d)[k1].0 != edges_of(d)[k2].0,
{
    lemma_domain_at_idx(d);
    lemma_edge_target(d.idx(), k1);
    lemma_edge_target(d.idx(), k2);
}

/// A stored edge of `d` leads to an out-neighbour, and every out-neighbour is
/// the target of some stored edge.
proof fn lemma_edges_are_out_edges(d: Domain, x: Domain)
    ensures
        out_edge(d.idx(), x.idx()) <==> exists|k: int| 0 <= k < 6 && #[trigger] edges_of(d)[k].0 == x,
{
    lemma_domain_at_idx(d);
    lemma_domain_at_idx(x);
    lemma_out_edge_listed(d.idx(), x.idx());
    if out_edge(d.idx(), x.idx()) {
        let k = choose|k: int| 0 <= k < 6 && (d.idx() + edge_step(k)) % 9 == x.idx();
        lemma_edge_target(d.idx(), k);
        assert(edges_of(d)[k].0 == x);
    }
    if exists|k: int| 0 <= k < 6 && #[trigger] edges_of(d)[k].0 == x {
        let k = choose|k: int| 0 <= k < 6 && #[trigger] edges_of(d)[k].0 == x;
        lemma_edge_target(d.idx(), k);
        assert((d.idx() + edge_step(k)) % 9 == x.idx());
    }
}

/// An open walk that steps to an unvisited domain other than `to` is still open.
proof fn lemma_extend_open(path: Seq<Domain>, from: Domain, to: Domain, next: Domain)
    requires
        open_walk(path, from, to),
        next != to,
        !path.contains(next),
        out_edge(path[path.len() - 1].idx(), next.idx()),
    ensures
        open_walk(path.push(next), from, to),
{
    let p = path.push(next);
    assert forall|k: int| 0 <= k < p.len() - 1 implies out_edge(#[trigger] p[k].idx(), p[k + 1].idx()) by {
        if k < path.len() - 1 {
            assert(p[k] == path[k] && p[k + 1] == path[k + 1]);
        }
    }
    assert forall|a: int, b: int| 0 <= a < b < p.len() implies #[trigger] p[a] != #[trigger] p[b] by {
        if b == p.len() - 1 {
            assert(p[a] == path[a]);
        } else {
            assert(p[a] == path[a] && p[b] == path[b]);
        }
    }
    assert forall|a: int| 0 <= a < p.len() implies #[trigger] p[a] != to by {
        if a < path.len() {
            assert(p[a] == path[a]);
        }
    }
}

/// How a valid walk continues past one of its proper prefixes.
proof fn lemma_walk_step(w: Seq<Domain>, from: Domain, to: Domain, md: int, path: Seq<Domain>)
    requires
        valid_walk(w, from, to, md),
        stem_prefix(path, w),
        path.len() >= 1,
    ensures
        out_edge(path[path.len() - 1].idx(), w[path.len() as int].idx()),
        w[path.len() as int] == to ==> w =~= path.push(to),
        w[path.len() as int] != to ==> {
            &&& path.len() + 2 <= w.len()
            &&& path.len() + 1 <= md
            &&& !path.contains(w[path.len() as int])
            &&& w.take(path.len() + 1 as int) =~= path.push(w[path.len() as int])
        },
{
    let n = path.len() as int;
    assert(w.take(n)[n - 1] == w[n - 1]);
    assert(out_edge(w[n - 1].idx(), w[n].idx()));
    assert forall|a: int| 0 <= a < n implies #[trigger] path[a] == w[a] by {
        assert(w.take(n)[a] == w[a]);
    }
    if w[n] == to {
        assert(n == w.len() - 1);
        assert(w =~= path.push(to));
    } else {
        assert(n != w.len() - 1);
        if path.contains(w[n]) {
            let a = choose|a: int| 0 <= a < n && path[a] == w[n];
            assert(w[a] == w[n]);
            assert(false);
        }
        assert(w.take(n + 1) =~= path.push(w[n]));
    }
}

/// Everything `find_paths` has established while the queue is being drained.
spec fn search_state(
    queue: Seq<Vec<Domain>>,
    paths: Seq<Vec<Domain>>,
    from: Domain,
    to: Domain,
    md: int,
) -> bool {
    &&& forall|i: int| 0 <= i < queue.len() ==> open_walk(#[trigger] queue[i]@, from, to)
    &&& forall|i: int| 0 <= i < queue.len() ==> 1 <= (#[trigger] queue[i]).len() <= 12
    &&& forall|i: int, j: int|
        0 <= i < j < queue.len() ==> (#[trigger] queue[i]).len() <= (#[trigger] queue[j]).len()
    &&& forall|i: int| 0 <= i < queue.len() ==> (#[trigger] queue[i]).len() <= queue[0].len() + 1
    &&& forall|i: int, j: int|
        0 <= i < queue.len() && 0 <= j < queue.len() && i != j ==> !is_prefix(
            #[trigger] queue[i]@,
            #[trigger] queue[j]@,
        )
    &&& forall|i: int| 0 <= i < paths.len() ==> valid_walk(#[trigger] paths[i]@, from, to, md)
    &&& forall|i: int, j: int| 0 <= i < j < paths.len() ==> #[trigger] paths[i]@ != #[trigger] paths[j]@
    &&& forall|i: int, j: int|
        0 <= i < j < paths.len() ==> (#[trigger] paths[i]).len() <= (#[trigger] paths[j]).len()
    &&& queue.len() > 0 ==> forall|i: int|
        0 <= i < paths.len() ==> (#[trigger] paths[i]).len() <= queue[0].len() + 1
    &&& forall|i: int, j: int|
        0 <= i < paths.len() && 0 <= j < queue.len() ==> !stem_prefix(
            (#[trigger] queue[j])@,
            (#[trigger] paths[i])@,
        )
    &&& forall|w: Seq<Domain>|
        valid_walk(w, from, to, md) ==> (exists|i: int|
            0 <= i < paths.len() && #[trigger] paths[i]@ == w) || (exists|j: int|
            0 <= j < queue.len() && stem_prefix(#[trigger] queue[j]@, w))
}

/// Progress while the head `q0[0]` of the queue is expanded along its
/// first `k` stored edges: the rest of the queue is kept, the one-step
/// extensions found so far are appended, and a walk reaching `to` is recorded.
spec fn expansion(
    q0: Seq<Vec<Domain>>,
    paths0: Seq<Vec<Domain>>,
    queue: Seq<Vec<Domain>>,
    paths: Seq<Vec<Domain>>,
    from: Domain,
    to: Domain,
    md: int,
    k: int,
) -> bool {
    let path = q0[0]@;
    let n = path.len() as int;
    let current = path[n - 1];
    &&& queue.len() >= q0.len() - 1
    &&& forall|i: int| 0 <= i < q0.len() - 1 ==> #[trigger] queue[i] == q0[i + 1]
    &&& forall|i: int|
        q0.len() - 1 <= i < queue.len() ==> (#[trigger] queue[i])@.len() == n + 1
            && queue[i]@.take(n) == path && open_walk(queue[i]@, from, to) && queue[i].len() <= 12
            && exists|kk: int| 0 <= kk < k && queue[i]@[n] == #[trigger] edges_of(current)[kk].0
    &&& forall|i: int, j: int|
        q0.len() - 1 <= i < j < queue.len() ==> (#[trigger] queue[i])@[n] != (#[trigger] queue[j])@[n]
    &&& paths0.len() <= paths.len() <= paths0.len() + 1
    &&& forall|i: int| 0 <= i < paths0.len() ==> #[trigger] paths[i] == paths0[i]
    &&& paths.len() == paths0.len() + 1 ==> paths[paths0.len() as int]@ == path.push(to)
    &&& (paths.len() == paths0.len() + 1) <==> exists|kk: int|
        0 <= kk < k && #[trigger] edges_of(current)[kk].0 == to
    &&& forall|w: Seq<Domain>|
        valid_walk(w, from, to, md) && stem_prefix(path, w) && (exists|kk: int|
            0 <= kk < k && #[trigger] edges_of(current)[kk].0 == w[n]) ==> (exists|i: int|
            0 <= i < paths.len() && #[trigger] paths[i]@ == w) || (exists|j: int|
            q0.len() - 1 <= j < queue.len() && stem_prefix(#[trigger] queue[j]@, w))
}

/// Dropping a head that is already `max_depth` steps long keeps the search state.
proof fn lemma_drain_keeps_state(
    q0: Seq<Vec<Domain>>,
    paths: Seq<Vec<Domain>>,
    from: Domain,
    to: Domain,
    md: int,
)
    requires
        q0.len() >= 1,
        search_state(q0, paths, from, to, md),
        q0[0].len() >= md + 1,
    ensures
        search_state(q0.drop_first(), paths, from, to, md),
{
    let q = q0.drop_first();
    assert forall|i: int| 0 <= i < q.len() implies #[trigger] q[i] == q0[i + 1] by {}
    if q.len() > 0 {
        assert(q0[0].len() <= q0[1].len());
    }
    assert forall|i: int, j: int|
        0 <= i < q.len() && 0 <= j < q.len() && i != j implies !is_prefix(
            #[trigger] q[i]@,
            #[trigger] q[j]@,
        ) by {
        assert(q[i] == q0[i + 1] && q[j] == q0[j + 1]);
    }
    assert forall|i: int, j: int|
        0 <= i < paths.len() && 0 <= j < q.len() implies !stem_prefix(
            (#[trigger] q[j])@,
            (#[trigger] paths[i])@,
        ) by {
        assert(q[j] == q0[j + 1]);
    }
    assert forall|w: Seq<Domain>| valid_walk(w, from, to, md) implies (exists|i: int|
        0 <= i < paths.len() && #[trigger] paths[i]@ == w) || (exists|j: int|
        0 <= j < q.len() && stem_prefix(#[trigger] q[j]@, w)) by {
        if !exists|i: int| 0 <= i < paths.len() && #[trigger] paths[i]@ == w {
            let j = choose|j: int| 0 <= j < q0.len() && stem_prefix(#[trigger] q0[j]@, w);
            assert(j > 0);
            assert(q[j - 1] == q0[j]);
        }
    }
}

/// The queue part of the search state after the head has been expanded.
#[verifier::spinoff_prover]
#[verifier::rlimit(40)]
proof fn lemma_level_queue(
    q0: Seq<Vec<Domain>>,
    paths0: Seq<Vec<Domain>>,
    queue: Seq<Vec<Domain>>,
    paths: Seq<Vec<Domain>>,
    from: Domain,
    to: Domain,
    md: int,
)
    requires
        q0.len() >= 1,
        search_state(q0, paths0, from, to, md),
        expansion(q0, paths0, queue, paths, from, to, md, 6),
    ensures
        forall|i: int| 0 <= i < queue.len() ==> open_walk(#[trigger] queue[i]@, from, to),
        forall|i: int| 0 <= i < queue.len() ==> 1 <= (#[trigger] queue[i]).len() <= 12,
        forall|i: int, j: int|
            0 <= i < j < queue.len() ==> (#[trigger] queue[i]).len() <= (#[trigger] queue[j]).len(),
        forall|i: int| 0 <= i < queue.len() ==> (#[trigger] queue[i]).len() <= queue[0].len() + 1,
        queue.len() > 0 ==> queue[0].len() >= q0[0].len(),
        forall|i: int, j: int|
            0 <= i < queue.len() && 0 <= j < queue.len() && i != j ==> !is_prefix(
                #[trigger] queue[i]@,
                #[trigger] queue[j]@,
            ),
{
    let path = q0[0]@;
    let n = path.len() as int;
    let m = q0.len() - 1;
    assert forall|i: int| 0 <= i < queue.len() implies #[trigger] queue[i].len() >= n && queue[i].len()
        <= n + 1 by {
        if i < m {
            assert(queue[i] == q0[i + 1]);
            assert(q0[0].len() <= q0[i + 1].len());
        }
    }
    assert forall|i: int, j: int|
        0 <= i < j < queue.len() implies (#[trigger] queue[i]).len() <= (#[trigger] queue[j]).len() by {
        if j < m {
            assert(queue[i] == q0[i + 1] && queue[j] == q0[j + 1]);
        }
    }
    assert forall|i: int| 0 <= i < queue.len() implies (#[trigger] queue[i]).len() <= queue[0].len()
        + 1 by {
        if m > 0 {
            assert(queue[0] == q0[1]);
        }
    }
    assert forall|i: int, j: int|
        0 <= i < queue.len() && 0 <= j < queue.len() && i != j implies !is_prefix(
            #[trigger] queue[i]@,
            #[trigger] queue[j]@,
        ) by {
        if i < m && j < m {
            assert(queue[i] == q0[i + 1] && queue[j] == q0[j + 1]);
        } else if i < m {
            // an older entry that prefixes an extension would prefix (or extend) the head
            let a = queue[i]@;
            assert(queue[i] == q0[i + 1]);
            if is_prefix(a, queue[j]@) {
                if a.len() <= n {
                    assert(path.take(a.len() as int) =~= queue[j]@.take(n).take(a.len() as int));
                    assert(queue[j]@.take(n).take(a.len() as int) =~= queue[j]@.take(a.len() as int));
                    assert(is_prefix(q0[i + 1]@, q0[0]@));
                } else {
                    assert(a =~= queue[j]@);
                    assert(a.take(n) =~= path);
                    assert(is_prefix(q0[0]@, q0[i + 1]@));
                }
            }
        } else if j < m {
            let b = queue[j]@;
            assert(queue[j] == q0[j + 1]);
            if is_prefix(queue[i]@, b) {
                assert(b =~= queue[i]@);
                assert(b.take(n) =~= path);
                assert(is_prefix(q0[0]@, q0[j + 1]@));
            }
        } else {
            if is_prefix(queue[i]@, queue[j]@) {
                assert(queue[i]@ =~= queue[j]@);
                assert(queue[i]@[n] == queue[j]@[n]);
                if i < j {
                    assert(queue[i]@[n] != queue[j]@[n]);
                } else {
                    assert(queue[j]@[n] != queue[i]@[n]);
                }
            }
        }
    }
}

/// The path part of the search state after the head has been expanded.
#[verifier::spinoff_prover]
#[verifier::rlimit(40)]
proof fn lemma_level_paths(
    q0: Seq<Vec<Domain>>,
    paths0: Seq<Vec<Domain>>,
    queue: Seq<Vec<Domain>>,
    paths: Seq<Vec<Domain>>,
    from: Domain,
    to: Domain,
    md: int,
)
    requires
        q0.len() >= 1,
        q0[0].len() <= md,
        search_state(q0, paths0, from, to, md),
        expansion(q0, paths0, queue, paths, from, to, md, 6),
        queue.len() > 0 ==> queue[0].len() >= q0[0].len(),
    ensures
        forall|i: int| 0 <= i < paths.len() ==> valid_walk(#[trigger] paths[i]@, from, to, md),
        forall|i: int, j: int| 0 <= i < j < paths.len() ==> #[trigger] paths[i]@ != #[trigger] paths[j]@,
        forall|i: int, j: int|
            0 <= i < j < paths.len() ==> (#[trigger] paths[i]).len() <= (#[trigger] paths[j]).len(),
        queue.len() > 0 ==> forall|i: int|
            0 <= i < paths.len() ==> (#[trigger] paths[i]).len() <= queue[0].len() + 1,
        forall|i: int, j: int|
            0 <= i < paths.len() && 0 <= j < queue.len() ==> !stem_prefix(
                (#[trigger] queue[j])@,
                (#[trigger] paths[i])@,
            ),
{
    let path = q0[0]@;
    let n = path.len() as int;
    let m = q0.len() - 1;
    let current = path[n - 1];
    let np = paths0.len() as int;
    if paths.len() == np + 1 {
        let kk = choose|kk: int| 0 <= kk < 6 && #[trigger] edges_of(current)[kk].0 == to;
        lemma_edges_are_out_edges(current, to);
        let w = path.push(to);
        assert(paths[np]@ == w);
        assert forall|k: int| 0 <= k < w.len() - 1 implies out_edge(#[trigger] w[k].idx(), w[k + 1].idx()) by {
            if k < n - 1 {
                assert(w[k] == path[k] && w[k + 1] == path[k + 1]);
            }
        }
        assert forall|a: int, b: int| 0 <= a < b < w.len() - 1 implies #[trigger] w[a] != #[trigger] w[b] by {
            assert(w[a] == path[a] && w[b] == path[b]);
        }
        assert forall|a: int| 0 <= a < w.len() - 1 implies #[trigger] w[a] != to by {
            assert(w[a] == path[a]);
        }
        assert(valid_walk(w, from, to, md));
        assert(stem_prefix(path, w)) by {
            assert(w.take(n) =~= path);
        }
        assert forall|i: int| 0 <= i < np implies #[trigger] paths[i]@ != w by {
            assert(paths[i] == paths0[i]);
        }
    }
    assert forall|i: int| 0 <= i < paths.len() implies valid_walk(#[trigger] paths[i]@, from, to, md) by {
        if i < np {
            assert(paths[i] == paths0[i]);
        }
    }
    assert forall|i: int, j: int| 0 <= i < j < paths.len() implies #[trigger] paths[i]@
        != #[trigger] paths[j]@ by {
        assert(paths[i] == paths0[i]);
        if j < np {
            assert(paths[j] == paths0[j]);
        }
    }
    assert forall|i: int, j: int|
        0 <= i < j < paths.len() implies (#[trigger] paths[i]).len() <= (#[trigger] paths[j]).len() by {
        assert(paths[i] == paths0[i]);
        if j < np {
            assert(paths[j] == paths0[j]);
        }
    }
    assert forall|i: int| 0 <= i < paths.len() implies (#[trigger] paths[i]).len() <= n + 1 by {
        if i < np {
            assert(paths[i] == paths0[i]);
        }
    }
    assert forall|i: int, j: int|
        0 <= i < paths.len() && 0 <= j < queue.len() implies !stem_prefix(
            (#[trigger] queue[j])@,
            (#[trigger] paths[i])@,
        ) by {
        if i < np {
            assert(paths[i] == paths0[i]);
            if j < m {
                assert(queue[j] == q0[j + 1]);
            } else {
                // an extension of the head that prefixes an old walk would make the head prefix it
                let p = paths[i]@;
                if stem_prefix(queue[j]@, p) {
                    assert(p.take(n) =~= queue[j]@.take(n));
                    assert(stem_prefix(q0[0]@, paths0[i]@));
                }
            }
        } else {
            if j < m {
                let a = queue[j]@;
                assert(queue[j] == q0[j + 1]);
                if stem_prefix(a, paths[i]@) {
                    assert(path.push(to).take(a.len() as int) =~= path.take(a.len() as int));
                    assert(is_prefix(q0[j + 1]@, q0[0]@));
                }
            }
        }
    }
}

/// Completeness after the head has been expanded: every valid walk is
/// recorded or still has a stem in the queue.
#[verifier::spinoff_prover]
proof fn lemma_level_complete(
    q0: Seq<Vec<Domain>>,
    paths0: Seq<Vec<Domain>>,
    queue: Seq<Vec<Domain>>,
    paths: Seq<Vec<Domain>>,
    from: Domain,
    to: Domain,
    md: int,
)
    requires
        q0.len() >= 1,
        search_state(q0, paths0, from, to, md),
        expansion(q0, paths0, queue, paths, from, to, md, 6),
    ensures
        forall|w: Seq<Domain>|
            valid_walk(w, from, to, md) ==> (exists|i: int|
                0 <= i < paths.len() && #[trigger] paths[i]@ == w) || (exists|j: int|
                0 <= j < queue.len() && stem_prefix(#[trigger] queue[j]@, w)),
{
    let path = q0[0]@;
    let n = path.len() as int;
    let current = path[n - 1];
    assert forall|w: Seq<Domain>| valid_walk(w, from, to, md) implies (exists|i: int|
        0 <= i < paths.len() && #[trigger] paths[i]@ == w) || (exists|j: int|
        0 <= j < queue.len() && stem_prefix(#[trigger] queue[j]@, w)) by {
        if exists|i: int| 0 <= i < paths0.len() && #[trigger] paths0[i]@ == w {
            let i = choose|i: int| 0 <= i < paths0.len() && #[trigger] paths0[i]@ == w;
            assert(paths[i] == paths0[i]);
        } else {
            let j = choose|j: int| 0 <= j < q0.len() && stem_prefix(#[trigger] q0[j]@, w);
            if j > 0 {
                assert(queue[j - 1] == q0[j]);
            } else {
                lemma_walk_step(w, from, to, md, path);
                lemma_edges_are_out_edges(current, w[n]);
            }
        }
    }
}

/// The `k`-th stored edge of `c` has rank `k`.
proof fn lemma_edge_rank(c: Domain, k: int)
    requires
        0 <= k < 6,
    ensures
        edge_rank(c, edges_of(c)[k].0) == k,
{
    lemma_domain_at_idx(c);
    lemma_edge_target(c.idx(), k);
}

/// The ranks of a walk stepped on to `d` are its ranks followed by the rank of that step.
proof fn lemma_ranks_push(p: Seq<Domain>, d: Domain)
    requires
        p.len() >= 1,
    ensures
        walk_ranks(p.push(d)) =~= walk_ranks(p).push(edge_rank(p[p.len() - 1], d)),
{
    let q = p.push(d);
    assert forall|t: int| 0 <= t < p.len() - 1 implies walk_ranks(q)[t] == walk_ranks(p)[t] by {
        assert(q[t] == p[t] && q[t + 1] == p[t + 1]);
    }
    assert(q[p.len() - 1] == p[p.len() - 1]);
    assert(q[p.len() as int] == d);
}

/// Walks that part at an earlier step keep their order whatever step follows.
proof fn lemma_ranks_before_push(a: Seq<int>, b: Seq<int>, x: int, y: int)
    requires
        ranks_before(a, b),
    ensures
        ranks_before(a.push(x), b.push(y)),
{
    let t = choose|t: int| #[trigger] first_smaller_at(a, b, t);
    assert(a.push(x).take(t) =~= a.take(t));
    assert(b.push(y).take(t) =~= b.take(t));
    assert(a.push(x)[t] == a[t] && b.push(y)[t] == b[t]);
    assert(first_smaller_at(a.push(x), b.push(y), t));
}

/// Two steps from the same walk are ordered by their ranks.
proof fn lemma_ranks_before_last(a: Seq<int>, x: int, y: int)
    requires
        x < y,
    ensures
        ranks_before(a.push(x), a.push(y)),
{
    let t = a.len() as int;
    assert(a.push(x).take(t) =~= a);
    assert(a.push(y).take(t) =~= a);
    assert(first_smaller_at(a.push(x), a.push(y), t));
}

/// The lexicographic order is transitive.
proof fn lemma_ranks_before_trans(a: Seq<int>, b: Seq<int>, c: Seq<int>)
    requires
        ranks_before(a, b),
        ranks_before(b, c),
    ensures
        ranks_before(a, c),
{
    let t1 = choose|t: int| #[trigger] first_smaller_at(a, b, t);
    let t2 = choose|t: int| #[trigger] first_smaller_at(b, c, t);
    if t1 < t2 {
        assert(b.take(t1) =~= b.take(t2).take(t1));
        assert(c.take(t1) =~= c.take(t2).take(t1));
        assert(b.take(t2)[t1] == c.take(t2)[t1]);
        assert(first_smaller_at(a, c, t1));
    } else if t2 < t1 {
        assert(a.take(t2) =~= a.take(t1).take(t2));
        assert(b.take(t2) =~= b.take(t1).take(t2));
        assert(a.take(t1)[t2] == b.take(t1)[t2]);
        assert(first_smaller_at(a, c, t2));
    } else {
        assert(first_smaller_at(a, c, t1));
    }
}

/// Walks of as many steps whose stems are ordered are ordered alike.
proof fn lemma_child_order(a: Seq<Domain>, b: Seq<Domain>)
    requires
        a.len() >= 2,
        b.len() >= 2,
        ranks_before(walk_ranks(a.drop_last()), walk_ranks(b.drop_last())),
    ensures
        ranks_before(walk_ranks(a), walk_ranks(b)),
{
    let pa = a.drop_last();
    let pb = b.drop_last();
    assert(a =~= pa.push(a[a.len() - 1]));
    assert(b =~= pb.push(b[b.len() - 1]));
    lemma_ranks_push(pa, a[a.len() - 1]);
    lemma_ranks_push(pb, b[b.len() - 1]);
    lemma_ranks_before_push(
        walk_ranks(pa),
        walk_ranks(pb),
        edge_rank(pa[pa.len() - 1], a[a.len() - 1]),
        edge_rank(pb[pb.len() - 1], b[b.len() - 1]),
    );
}

/// The order `find_paths` keeps among the walks it holds: the queue and the
/// recorded walks each in the order they are reached, a recorded walk one
/// step longer than a queued one stemming from a walk reached before it, and
/// likewise every queued walk one step longer than the head.
spec fn search_order(queue: Seq<Vec<Domain>>, paths: Seq<Vec<Domain>>) -> bool {
    &&& forall|i: int, j: int|
        0 <= i < j < queue.len() ==> found_before(#[trigger] queue[i]@, #[trigger] queue[j]@)
    &&& forall|i: int, j: int|
        0 <= i < j < paths.len() ==> found_before(#[trigger] paths[i]@, #[trigger] paths[j]@)
    &&& forall|i: int, j: int|
        0 <= i < paths.len() && 0 <= j < queue.len() && (#[trigger] paths[i]).len() == (
        #[trigger] queue[j]).len() + 1 ==> ranks_before(
            walk_ranks(paths[i]@.drop_last()),
            walk_ranks(queue[j]@),
        )
    &&& forall|j: int|
        0 <= j < queue.len() && (#[trigger] queue[j]).len() == queue[0].len() + 1 ==> ranks_before(
            walk_ranks(queue[j]@.drop_last()),
            walk_ranks(queue[0]@),
        )
}

/// While the head `q0[0]` is expanded along its first `k` stored edges, the
/// extensions appended so far leave by edges of rank below `k`, in rank order.
spec fn order_expansion(q0: Seq<Vec<Domain>>, queue: Seq<Vec<Domain>>, k: int) -> bool {
    let path = q0[0]@;
    let n = path.len() as int;
    let current = path[n - 1];
    &&& forall|i: int|
        q0.len() - 1 <= i < queue.len() ==> edge_rank(current, (#[trigger] queue[i])@[n]) < k
    &&& forall|i: int, j: int|
        q0.len() - 1 <= i < j < queue.len() ==> edge_rank(current, (#[trigger] queue[i])@[n])
            < edge_rank(current, (#[trigger] queue[j])@[n])
}

/// Dropping the head keeps the search order.
proof fn lemma_drain_keeps_order(
    q0: Seq<Vec<Domain>>,
    paths: Seq<Vec<Domain>>,
    from: Domain,
    to: Domain,
    md: int,
)
    requires
        q0.len() >= 1,
        search_state(q0, paths, from, to, md),
        search_order(q0, paths),
    ensures
        search_order(q0.drop_first(), paths),
{
    let q = q0.drop_first();
    let n = q0[0].len();
    assert forall|i: int| 0 <= i < q.len() implies #[trigger] q[i] == q0[i + 1] by {}
    assert forall|i: int, j: int| 0 <= i < j < q.len() implies found_before(
        #[trigger] q[i]@,
        #[trigger] q[j]@,
    ) by {
        assert(q[i] == q0[i + 1] && q[j] == q0[j + 1]);
    }
    assert forall|i: int, j: int|
        0 <= i < paths.len() && 0 <= j < q.len() && (#[trigger] paths[i]).len() == (
        #[trigger] q[j]).len() + 1 implies ranks_before(
        walk_ranks(paths[i]@.drop_last()),
        walk_ranks(q[j]@),
    ) by {
        assert(q[j] == q0[j + 1]);
    }
    assert forall|j: int| 0 <= j < q.len() && (#[trigger] q[j]).len() == q[0].len() + 1 implies ranks_before(
        walk_ranks(q[j]@.drop_last()),
        walk_ranks(q[0]@),
    ) by {
        assert(q[j] == q0[j + 1]);
        assert(q[0] == q0[1]);
        assert(q0[0].len() <= q0[1].len());
        assert(q0[j + 1].len() <= n + 1);
        assert(q0[1].len() == n);
        assert(found_before(q0[0]@, q0[1]@));
        lemma_ranks_before_trans(
            walk_ranks(q0[j + 1]@.drop_last()),
            walk_ranks(q0[0]@),
            walk_ranks(q0[1]@),
        );
    }
}

/// The search order after the head has been expanded.
#[verifier::spinoff_prover]
#[verifier::rlimit(40)]
proof fn lemma_level_order(
    q0: Seq<Vec<Domain>>,
    paths0: Seq<Vec<Domain>>,
    queue: Seq<Vec<Domain>>,
    paths: Seq<Vec<Domain>>,
    from: Domain,
    to: Domain,
    md: int,
)
    requires
        q0.len() >= 1,
        search_state(q0, paths0, from, to, md),
        search_order(q0, paths0),
        expansion(q0, paths0, queue, paths, from, to, md, 6),
        order_expansion(q0, queue, 6),
    ensures
        search_order(queue, paths),
{
    let head = q0[0]@;
    let n = head.len() as int;
    let m = q0.len() - 1;
    let np = paths0.len() as int;
    let current = head[n - 1];
    assert forall|i: int| m <= i < queue.len() implies (#[trigger] queue[i])@ =~= head.push(
        queue[i]@[n],
    ) && queue[i]@.drop_last() =~= head && walk_ranks(queue[i]@) =~= walk_ranks(head).push(
        edge_rank(current, queue[i]@[n]),
    ) by {
        assert(queue[i]@.take(n) == head);
        assert(queue[i]@ =~= head.push(queue[i]@[n]));
        lemma_ranks_push(head, queue[i]@[n]);
    }
    assert forall|i: int| 0 <= i < m implies #[trigger] queue[i] == q0[i + 1] && n <= q0[i + 1].len()
        <= n + 1 by {
        assert(q0[0].len() <= q0[i + 1].len());
    }
    if paths.len() == np + 1 {
        assert(paths[np]@.drop_last() =~= head);
    }
    assert forall|i: int| 0 <= i < np implies #[trigger] paths[i] == paths0[i] && paths0[i].len()
        <= n + 1 by {}
    // the walks in the queue
    assert forall|i: int, j: int| 0 <= i < j < queue.len() implies found_before(
        #[trigger] queue[i]@,
        #[trigger] queue[j]@,
    ) by {
        if j < m {
            assert(found_before(q0[i + 1]@, q0[j + 1]@));
        } else if i < m {
            if q0[i + 1].len() == n + 1 {
                assert(ranks_before(walk_ranks(q0[i + 1]@.drop_last()), walk_ranks(q0[0]@)));
                lemma_child_order(queue[i]@, queue[j]@);
            }
        } else {
            lemma_ranks_before_last(
                walk_ranks(head),
                edge_rank(current, queue[i]@[n]),
                edge_rank(current, queue[j]@[n]),
            );
        }
    }
    // the recorded walks
    assert forall|i: int, j: int| 0 <= i < j < paths.len() implies found_before(
        #[trigger] paths[i]@,
        #[trigger] paths[j]@,
    ) by {
        if j < np {
            assert(found_before(paths0[i]@, paths0[j]@));
        } else if paths0[i].len() == n + 1 {
            assert(ranks_before(walk_ranks(paths0[i]@.drop_last()), walk_ranks(q0[0]@)));
            lemma_child_order(paths[i]@, paths[j]@);
        }
    }
    // recorded walks against queued ones
    assert forall|i: int, j: int|
        0 <= i < paths.len() && 0 <= j < queue.len() && (#[trigger] paths[i]).len() == (
        #[trigger] queue[j]).len() + 1 implies ranks_before(
        walk_ranks(paths[i]@.drop_last()),
        walk_ranks(queue[j]@),
    ) by {
        if i < np {
            if j < m {
                assert(ranks_before(walk_ranks(paths0[i]@.drop_last()), walk_ranks(q0[j + 1]@)));
            }
        } else if j < m {
            assert(found_before(q0[0]@, q0[j + 1]@));
        }
    }
    // queued walks one step longer than the new head
    assert forall|j: int|
        0 <= j < queue.len() && (#[trigger] queue[j]).len() == queue[0].len() + 1 implies ranks_before(
        walk_ranks(queue[j]@.drop_last()),
        walk_ranks(queue[0]@),
    ) by {
        assert(m > 0);
        assert(q0[1].len() == n);
        assert(found_before(q0[0]@, q0[1]@));
        if j < m {
            lemma_ranks_before_trans(
                walk_ranks(q0[j + 1]@.drop_last()),
                walk_ranks(q0[0]@),
                walk_ranks(q0[1]@),
            );
        }
    }
}

/// Once the queue is empty, the recorded walks are all valid walks, each
/// once, in the order they were reached.
proof fn lemma_search_done(
    queue: Seq<Vec<Domain>>,
    paths: Seq<Vec<Domain>>,
    from: Domain,
    to: Domain,
    md: int,
)
    requires
        queue.len() == 0,
        search_state(queue, paths, from, to, md),
        search_order(queue, paths),
    ensures
        forall|i: int| 0 <= i < paths.len() ==> valid_walk(#[trigger] paths[i]@, from, to, md),
        forall|w: Seq<Domain>|
            valid_walk(w, from, to, md) ==> exists|i: int|
                0 <= i < paths.len() && #[trigger] paths[i]@ == w,
        forall|i: int, j: int| 0 <= i < j < paths.len() ==> #[trigger] paths[i]@ != #[trigger] paths[j]@,
        forall|i: int, j: int|
            0 <= i < j < paths.len() ==> (#[trigger] paths[i]).len() <= (#[trigger] paths[j]).len(),
        forall|i: int, j: int|
            0 <= i < j < paths.len() ==> found_before(#[trigger] paths[i]@, #[trigger] paths[j]@),
{
}

/// Whether `d` occurs in `path`.
fn path_contains(path: &Vec<Domain>, d: Domain) -> (r: bool)
    ensures
        r == path@.contains(d),
{
    let mut k: usize = 0;
    while k < path.len()
        invariant
            k <= path.len(),
            forall|a: int| 0 <= a < k ==> path@[a] != d,
        decreases path.len() - k,
    {
        if path[k] == d {
            return true;
        }
        k = k + 1;
    }
    false
}

/// `p` followed by `d`.
fn extended(p: &Vec<Domain>, d: Domain) -> (r: Vec<Domain>)
    ensures
        r@ == p@.push(d),
{
    let mut r = copy_domains(p);
    r.push(d);
    r
}

impl WheelGraph {
    /// Find all paths between `from` and `to` of at most `max_depth` steps,
    /// in the order breadth-first search reaches them: shortest first, and
    /// among paths of as many steps by the stored order of the edges taken.
    #[verifier::spinoff_prover]
    #[verifier::rlimit(100)]
    pub fn find_paths(&self, from: Domain, to: Domain, max_depth: usize) -> (r: Result<
        Vec<Vec<Domain>>,
        WheelError,
    >)
        ensures
            max_depth > 12 ==> (r matches Err(WheelError::MaxDepthExceeded(m)) && m == max_depth),
            max_depth <= 12 && from == to ==> (r matches Ok(ps) && ps.len() == 1 && ps@[0]@ == seq![
                from,
            ]),
            max_depth <= 12 && from != to ==> match r {
                Ok(ps) => {
                    &&& ps.len() > 0
                    &&& forall|i: int|
                        0 <= i < ps.len() ==> valid_walk(#[trigger] ps@[i]@, from, to, max_depth as int)
                    &&& forall|w: Seq<Domain>|
                        valid_walk(w, from, to, max_depth as int) ==> exists|i: int|
                            0 <= i < ps.len() && #[trigger] ps@[i]@ == w
                    &&& forall|i: int, j: int|
                        0 <= i < j < ps.len() ==> #[trigger] ps@[i]@ != #[trigger] ps@[j]@
                    &&& forall|i: int, j: int|
                        0 <= i < j < ps.len() ==> (#[trigger] ps@[i]).len() <= (#[trigger] ps@[j]).len()
                    &&& forall|i: int, j: int|
                        0 <= i < j < ps.len() ==> found_before(#[trigger] ps@[i]@, #[trigger] ps@[j]@)
                },
                Err(e) => (e matches WheelError::NoPath(a, b) && a == from && b == to) && forall|
                    w: Seq<Domain>,
                | !valid_walk(w, from, to, max_depth as int),
            },
    {
        proof {
            use_type_invariant(self);
        }
        if max_depth > 12 {
            return Err(WheelError::MaxDepthExceeded(max_depth));
        }
        if from == to {
            let mut single: Vec<Vec<Domain>> = Vec::new();
            let mut p: Vec<Domain> = Vec::new();
            p.push(from);
            single.push(p);
            return Ok(single);
        }
        let mut paths: Vec<Vec<Domain>> = Vec::new();
        let mut queue: std::collections::VecDeque<Vec<Domain>> = std::collections::VecDeque::new();
        let mut start: Vec<Domain> = Vec::new();
        start.push(from);
        queue.push_back(start);
        let ghost md = max_depth as int;
        proof {
            assert forall|w: Seq<Domain>| valid_walk(w, from, to, md) implies stem_prefix(
                queue@[0]@,
                w,
            ) by {
                assert(w.take(1) =~= seq![from]);
            }
            assert(search_state(queue@, paths@, from, to, md));
            assert(search_order(queue@, paths@));
        }
        while queue.len() > 0
            invariant
                from != to,
                md == max_depth as int,
                max_depth <= 12,
                self.adjacency.len() == 9,
                forall|x: int| 0 <= x < 9 ==> #[trigger] self.adjacency@[x]@ == edges_of(domain_at(x)),
                search_state(queue@, paths@, from, to, md),
                search_order(queue@, paths@),
            decreases queue_weight(queue@),
        {
            let ghost q0 = queue@;
            let ghost paths0 = paths@;
            let path = match queue.pop_front() {
                Some(p) => p,
                None => {
                    return Err(WheelError::NoPath(from, to));
                },
            };
            proof {
                assert(path == q0[0]);
                assert(queue@ =~= q0.drop_first());
                assert(queue_weight(q0) == pow7((13 - path.len()) as nat) + queue_weight(queue@));
                lemma_pow7_positive((13 - path.len()) as nat);
            }
            let current = path[path.len() - 1];
            let current_depth = path.len() - 1;
            if current_depth >= max_depth {
                proof {
                    lemma_drain_keeps_state(q0, paths@, from, to, md);
                    lemma_drain_keeps_order(q0, paths@, from, to, md);
                }
                continue;
            }
            let edges = &self.adjacency[current.index()];
            proof {
                lemma_domain_at_idx(current);
                assert forall|i: int| 0 <= i < q0.len() - 1 implies #[trigger] queue@[i] == q0[i + 1] by {}
            }
            let ghost mut pushed: int = 0;
            let mut k: usize = 0;
            while k < 6
                invariant
                    from != to,
                    md == max_depth as int,
                    max_depth <= 12,
                    0 <= k <= 6,
                    q0.len() >= 1,
                    path == q0[0],
                    search_state(q0, paths0, from, to, md),
                    search_order(q0, paths0),
                    path@.len() >= 1,
                    path@.len() - 1 < md,
                    current == path@[path@.len() - 1],
                    current_depth == path@.len() - 1,
                    edges@ == edges_of(current),
                    0 <= pushed <= k,
                    queue_weight(queue@) == queue_weight(q0.drop_first()) + pushed * pow7(
                        (13 - (path.len() + 1)) as nat,
                    ),
                    expansion(q0, paths0, queue@, paths@, from, to, md, k as int),
                    order_expansion(q0, queue@, k as int),
                decreases 6 - k,
            {
                let (next, _) = edges[k];
                proof {
                    lemma_edges_are_out_edges(current, next);
                    assert(out_edge(current.idx(), next.idx()));
                    assert forall|kk: int| 0 <= kk < k implies #[trigger] edges_of(current)[kk].0 != next by {
                        lemma_edge_targets_distinct(current, kk, k as int);
                    }
                }
                let ghost queue_before = queue@;
                let ghost paths_before = paths@;
                let seen = path_contains(&path, next);
                if next == to {
                    let full = extended(&path, next);
                    paths.push(full);
                } else if !seen && current_depth + 1 < max_depth {
                    let np = extended(&path, next);
                    proof {
                        lemma_queue_weight_push(queue@, np);
                        assert(np.len() == path.len() + 1);
                        assert((pushed + 1) * pow7((13 - (path.len() + 1)) as nat) == pushed * pow7(
                            (13 - (path.len() + 1)) as nat,
                        ) + pow7((13 - (path.len() + 1)) as nat)) by (nonlinear_arith);
                        pushed = pushed + 1;
                        lemma_extend_open(path@, from, to, next);
                        lemma_edge_rank(current, k as int);
                        assert(np@.take(path@.len() as int) =~= path@);
                        assert(np@[path@.len() as int] == edges_of(current)[k as int].0);
                    }
                    queue.push_back(np);
                }
                proof {
                    let n = path@.len() as int;
                    assert forall|i: int| 0 <= i < q0.len() - 1 implies #[trigger] queue@[i] == q0[i + 1] by {
                        assert(queue_before[i] == q0[i + 1]);
                    }
                    assert forall|w: Seq<Domain>|
                        valid_walk(w, from, to, md) && stem_prefix(path@, w) && (exists|kk: int|
                            0 <= kk < k + 1 && #[trigger] edges_of(current)[kk].0 == w[n])
                            implies (exists|i: int| 0 <= i < paths@.len() && #[trigger] paths@[i]@ == w)
                            || (exists|j: int|
                            q0.len() - 1 <= j < queue@.len() && stem_prefix(#[trigger] queue@[j]@, w)) by {
                        let kk = choose|kk: int| 0 <= kk < k + 1 && #[trigger] edges_of(current)[kk].0 == w[n];
                        if kk < k {
                            if exists|i: int| 0 <= i < paths_before.len() && #[trigger] paths_before[i]@ == w {
                                let i = choose|i: int| 0 <= i < paths_before.len() && #[trigger] paths_before[i]@ == w;
                                assert(paths@[i] == paths_before[i]);
                            } else {
                                let j = choose|j: int| q0.len() - 1 <= j < queue_before.len() && stem_prefix(#[trigger] queue_before[j]@, w);
                                assert(queue@[j] == queue_before[j]);
                            }
                        } else {
                            lemma_walk_step(w, from, to, md, path@);
                            if next == to {
                                assert(w =~= path@.push(to));
                                assert(paths@[paths@.len() - 1]@ == w);
                            } else {
                                assert(queue@[queue@.len() - 1]@ == path@.push(next));
                                assert(w.take(n + 1) =~= path@.push(next));
                            }
                        }
                    }
                    assert(expansion(q0, paths0, queue@, paths@, from, to, md, k + 1));
                    assert forall|i: int| q0.len() - 1 <= i < queue_before.len() implies #[trigger] queue@[i]
                        == queue_before[i] by {}
                    assert(order_expansion(q0, queue@, k + 1));
                }
                k = k + 1;
            }
            proof {
                lemma_level_queue(q0, paths0, queue@, paths@, from, to, md);
                lemma_level_paths(q0, paths0, queue@, paths@, from, to, md);
                lemma_level_complete(q0, paths0, queue@, paths@, from, to, md);
                lemma_level_order(q0, paths0, queue@, paths@, from, to, md);
                lemma_pow7_step((13 - path.len()) as nat);
                assert(pushed * pow7((13 - (path.len() + 1)) as nat) <= 6 * pow7(
                    (13 - (path.len() + 1)) as nat,
                )) by (nonlinear_arith)
                    requires
                        0 <= pushed <= 6,
                ;
                assert(((13 - path.len()) - 1) as nat == (13 - (path.len() + 1)) as nat);
            }
        }
        if paths.len() == 0 {
            proof {
                assert forall|w: Seq<Domain>| !valid_walk(w, from, to, md) by {
                    if valid_walk(w, from, to, md) {
                        assert(exists|i: int| 0 <= i < paths@.len() && #[trigger] paths@[i]@ == w);
                    }
                }
            }
            return Err(WheelError::NoPath(from, to));
        }
        proof {
            lemma_search_done(queue@, paths@, from, to, md);
        }
        let r: Result<Vec<Vec<Domain>>, WheelError> = Ok(paths);
        proof {
            assert(r matches Ok(ps) && ps.len() > 0);
            assert(r matches Ok(ps) && forall|w: Seq<Domain>|
                valid_walk(w, from, to, md) ==> exists|i: int|
                    0 <= i < ps.len() && #[trigger] ps@[i]@ == w);
        }
        r
    }
}


/// The table's shortest path is a walk that `find_paths` would report with at
/// most two steps, no walk from `from` to `to` is shorter, and a domain's path
/// to itself is the domain alone.
pub proof fn law_shortest_path_is_shortest(from: Domain, to: Domain, w: Seq<Domain>, max_depth: int)
    ensures
        from == to ==> wheel_path(from, to) == seq![from],
        from != to ==> valid_walk(wheel_path(from, to), from, to, 2),
        from != to && valid_walk(w, from, to, max_depth) ==> wheel_path(from, to).len() <= w.len(),
{
    let i = from.idx();
    let j = to.idx();
    lemma_domain_at_idx(from);
    lemma_domain_at_idx(to);
    let p = wheel_path(from, to);
    if from == to {
        assert(p =~= seq![from]);
    } else {
        assert(i != j);
        if out_edge(i, j) {
            assert(p.len() == 2);
            assert(p[0] == from && p[1] == to);
        } else {
            let m = (i + 1) % 9;
            assert(0 <= m < 9);
            lemma_idx_domain_at(m);
            assert(p.len() == 3);
            assert(p[0] == from && p[1] == domain_at(m) && p[2] == to);
            assert(out_edge(i, m));
            assert(out_edge(m, j));
            assert(domain_at(m) != from);
            assert(domain_at(m) != to);
            assert(forall|k: int| 0 <= k < p.len() - 1 ==> out_edge(#[trigger] p[k].idx(), p[k + 1].idx())) by {
                assert(p[0].idx() == i && p[1].idx() == m && p[2].idx() == j);
            }
        }
        if valid_walk(w, from, to, max_depth) && w.len() == 2 {
            assert(out_edge(w[0].idx(), w[1].idx()));
        }
    }
}



// ───────────────────────── neighbours, paths and out-edges ─────────────────────────

/// Domains in strictly increasing wheel position (sorted, no repeats).
pub open spec fn idx_sorted(s: Seq<Domain>) -> bool {
    forall|a: int, b: int| 0 <= a < b < s.len() ==> (#[trigger] s[a]).idx() < (#[trigger] s[b]).idx()
}

/// The stored aspect of every edge is the aspect of the two domains it joins.
proof fn lemma_edge_aspect(d: Domain, k: int)
    requires
        0 <= k < 6,
    ensures
        edges_of(d)[k].1 == aspect_of(d, edges_of(d)[k].0),
{
    lemma_domain_at_idx(d);
    lemma_edge_target(d.idx(), k);
}

/// A domain is an unfiltered neighbour of `d` exactly when `d` has an outgoing
/// edge to it; a neighbour under an aspect filter is an unfiltered neighbour
/// whose aspect with `d` is that aspect.
pub proof fn law_neighbors_are_out_edges(d: Domain, x: Domain, a: CompositionAspect)
    ensures
        listed_neighbor(d, x, None) <==> out_edge(d.idx(), x.idx()),
        listed_neighbor(d, x, Some(a)) <==> (listed_neighbor(d, x, None) && aspect_of(d, x) == a),
{
    lemma_edges_are_out_edges(d, x);
    if listed_neighbor(d, x, None) {
        let k = choose|k: int| 0 <= k < 6 && #[trigger] edges_of(d)[k].0 == x;
        lemma_edge_aspect(d, k);
        if aspect_of(d, x) == a {
            assert(listed_neighbor(d, x, Some(a)));
        }
    }
    if listed_neighbor(d, x, Some(a)) {
        let k = choose|k: int|
            0 <= k < 6 && #[trigger] edges_of(d)[k].0 == x && (Some(a) matches Some(b) ==> edges_of(
                d,
            )[k].1 == b);
        lemma_edge_aspect(d, k);
        assert(listed_neighbor(d, x, None));
    }
}

/// Filtering keeps increasing order.
proof fn lemma_filter_idx_sorted(s: Seq<Domain>, p: spec_fn(Domain) -> bool)
    requires
        idx_sorted(s),
    ensures
        idx_sorted(s.filter(p)),
    decreases s.len(),
{
    reveal(Seq::filter);
    if s.len() > 0 {
        let rest = s.drop_last();
        lemma_filter_idx_sorted(rest, p);
        let f = rest.filter(p);
        if p(s.last()) {
            assert forall|i: int| 0 <= i < f.len() implies (#[trigger] f[i]).idx() < s.last().idx() by {
                assert(f.contains(f[i]));
                rest.lemma_filter_contains_rev(p, f[i]);
                let j = choose|j: int| 0 <= j < rest.len() && rest[j] == f[i];
                assert(s[j] == rest[j]);
            }
            let g = f.push(s.last());
            assert forall|a: int, b: int| 0 <= a < b < g.len() implies (#[trigger] g[a]).idx() < (
            #[trigger] g[b]).idx() by {
                if b == g.len() - 1 {
                    assert(g[a] == f[a]);
                } else {
                    assert(g[a] == f[a] && g[b] == f[b]);
                }
            }
        }
    }
}

/// Two increasing lists of the same domains are the same list.
proof fn lemma_sorted_same_members(s: Seq<Domain>, t: Seq<Domain>)
    requires
        idx_sorted(s),
        idx_sorted(t),
        forall|x: Domain| s.contains(x) <==> t.contains(x),
    ensures
        s == t,
    decreases s.len(),
{
    if s.len() == 0 {
        if t.len() > 0 {
            assert(t.contains(t[0]));
        }
        assert(t =~= s);
    } else {
        assert(s.contains(s[0]));
        let j = choose|j: int| 0 <= j < t.len() && t[j] == s[0];
        assert(t.contains(t[0]));
        let i = choose|i: int| 0 <= i < s.len() && s[i] == t[0];
        lemma_domain_at_idx(s[0]);
        lemma_domain_at_idx(t[0]);
        assert(s[0].idx() == t[0].idx());
        assert(s[0] == t[0]);
        let s1 = s.drop_first();
        let t1 = t.drop_first();
        assert forall|x: Domain| s1.contains(x) <==> t1.contains(x) by {
            if s1.contains(x) {
                let a = choose|a: int| 0 <= a < s1.len() && s1[a] == x;
                assert(s[a + 1] == x);
                assert(t.contains(x));
                let b = choose|b: int| 0 <= b < t.len() && t[b] == x;
                if b == 0 {
                    assert(s[0].idx() < s[a + 1].idx());
                }
                assert(t1[b - 1] == x);
            }
            if t1.contains(x) {
                let b = choose|b: int| 0 <= b < t1.len() && t1[b] == x;
                assert(t[b + 1] == x);
                assert(s.contains(x));
                let a = choose|a: int| 0 <= a < s.len() && s[a] == x;
                if a == 0 {
                    assert(t[0].idx() < t[b + 1].idx());
                }
                assert(s1[a - 1] == x);
            }
        }
        lemma_sorted_same_members(s1, t1);
        assert(s =~= seq![s[0]] + s1);
        assert(t =~= seq![t[0]] + t1);
    }
}

/// Filtering the neighbours by an aspect is the unfiltered neighbour list,
/// filtered: for lists as `neighbors` returns them (increasing, holding
/// exactly the listed neighbours), the list under `Some(a)` is the list under
/// `None` kept to the domains whose aspect with `d` is `a`.
pub proof fn law_filtered_neighbors(
    d: Domain,
    a: CompositionAspect,
    all: Seq<Domain>,
    some: Seq<Domain>,
)
    requires
        idx_sorted(all),
        forall|x: Domain| all.contains(x) <==> listed_neighbor(d, x, None),
        idx_sorted(some),
        forall|x: Domain| some.contains(x) <==> listed_neighbor(d, x, Some(a)),
    ensures
        some == all.filter(|x: Domain| aspect_of(d, x) == a),
{
    let p = |x: Domain| aspect_of(d, x) == a;
    let f = all.filter(p);
    lemma_filter_idx_sorted(all, p);
    all.filter_lemma(p);
    assert forall|x: Domain| f.contains(x) <==> some.contains(x) by {
        law_neighbors_are_out_edges(d, x, a);
        if f.contains(x) {
            all.lemma_filter_contains_rev(p, x);
            let i = choose|i: int| 0 <= i < f.len() && f[i] == x;
            assert(p(f[i]));
        }
        if some.contains(x) {
            assert(listed_neighbor(d, x, Some(a)));
            assert(listed_neighbor(d, x, None) && aspect_of(d, x) == a);
            assert(all.contains(x));
            let i = choose|i: int| 0 <= i < all.len() && all[i] == x;
            assert(p(all[i]));
            assert(f.contains(all[i]));
        }
    }
    lemma_sorted_same_members(some, f);
}

/// A path along neighbour lists: starts at `from`, ends at `to`, and each
/// domain is an unfiltered neighbour of the one before.
pub open spec fn neighbor_path(p: Seq<Domain>, from: Domain, to: Domain) -> bool {
    &&& p.len() >= 1
    &&& p[0] == from
    &&& p[p.len() - 1] == to
    &&& forall|k: int| 0 <= k < p.len() - 1 ==> listed_neighbor(#[trigger] p[k], p[k + 1], None)
}

/// The shortest path is a neighbour path of at most three domains, a domain's
/// path to itself is the domain alone, and no neighbour path between the two,
/// repeated domains allowed, is shorter.
pub proof fn law_shortest_path_minimal(from: Domain, to: Domain, q: Seq<Domain>)
    ensures
        neighbor_path(wheel_path(from, to), from, to),
        wheel_path(from, to).len() <= 3,
        (wheel_path(from, to) == seq![from]) <==> from == to,
        neighbor_path(q, from, to) ==> wheel_path(from, to).len() <= q.len(),
{
    let p = wheel_path(from, to);
    law_shortest_path_is_shortest(from, to, q, 12);
    if from != to {
        assert forall|k: int| 0 <= k < p.len() - 1 implies listed_neighbor(#[trigger] p[k], p[k + 1], None) by {
            law_neighbors_are_out_edges(p[k], p[k + 1], CompositionAspect::Aligned);
        }
        assert(p.len() >= 2);
        assert(p != seq![from]);
        if neighbor_path(q, from, to) {
            if q.len() < 2 {
                assert(q[0] == from && q[q.len() - 1] == to);
            } else if q.len() == 2 {
                law_neighbors_are_out_edges(q[0], q[1], CompositionAspect::Aligned);
                law_shortest_path_is_shortest(from, to, q, 1);
                assert(valid_walk(q, from, to, 1));
            }
        }
    } else {
        assert forall|k: int| 0 <= k < p.len() - 1 implies listed_neighbor(#[trigger] p[k], p[k + 1], None) by {}
    }
}

/// `find_paths`'s walks stated over neighbour lists: a walk steps along
/// outgoing edges exactly when each domain is an unfiltered neighbour of the
/// one before.
pub proof fn law_walks_follow_neighbors(w: Seq<Domain>)
    ensures
        (forall|k: int| 0 <= k < w.len() - 1 ==> out_edge(#[trigger] w[k].idx(), w[k + 1].idx()))
            <==> (forall|k: int| 0 <= k < w.len() - 1 ==> listed_neighbor(#[trigger] w[k], w[k + 1], None)),
{
    assert forall|k: int| 0 <= k < w.len() - 1 implies (out_edge((#[trigger] w[k]).idx(), w[k + 1].idx())
        <==> listed_neighbor(w[k], w[k + 1], None)) by {
        law_neighbors_are_out_edges(w[k], w[k + 1], CompositionAspect::Aligned);
    }
}

} // verus!
