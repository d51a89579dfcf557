//! First sub-pass over `record` declarations: names, cycle detection and
//! resolution of field types.
use vstd::prelude::*;
use crate::ast::{self, Decl, Loc, TopLevel};
use crate::checker::state::Checker;
use crate::named::{find_named, has_name, is_first_named};
use crate::text::{cat3, cat5, str_eq};
use crate::types::Type;

verus! {

/// Names that would clash with Rust prelude types if they became the name of
/// a generated `struct`.
pub open spec fn spec_reserved_rust_name(n: Seq<char>) -> bool {
    n == "String"@ || n == "Vec"@ || n == "Option"@ || n == "Box"@ || n == "Result"@
}

pub fn is_reserved_rust_name(n: &str) -> (r: bool)
    ensures
        r == spec_reserved_rust_name(n@),
{
    str_eq(n, "String") || str_eq(n, "Vec") || str_eq(n, "Option") || str_eq(n, "Box") || str_eq(
        n,
        "Result",
    )
}

/// DFS colour of a record in the dependency graph.
#[derive(Clone, Copy, PartialEq, Eq, Structural)]
pub enum Color {
    White,
    Gray,
    Black,
}

/// Number of records not visited yet.
pub open spec fn count_white(s: Seq<Color>) -> nat
    decreases s.len(),
{
    if s.len() == 0 {
        0
    } else {
        count_white(s.drop_last()) + if s.last() == Color::White { 1nat } else { 0nat }
    }
}

proof fn lemma_count_white_update(s: Seq<Color>, i: int, c: Color)
    requires
        0 <= i < s.len(),
    ensures
        count_white(s.update(i, c)) == count_white(s) - (if s[i] == Color::White { 1int } else { 0int })
            + (if c == Color::White { 1int } else { 0int }),
    decreases s.len(),
{
    if i == s.len() - 1 {
        assert(s.update(i, c).drop_last() =~= s.drop_last());
    } else {
        lemma_count_white_update(s.drop_last(), i, c);
        assert(s.update(i, c).drop_last() =~= s.drop_last().update(i, c));
    }
}

proof fn lemma_count_white_bound(s: Seq<Color>)
    ensures
        count_white(s) <= s.len(),
    decreases s.len(),
{
    if s.len() > 0 {
        lemma_count_white_bound(s.drop_last());
    }
}

/// The dependency lists of a graph as sequences.
pub open spec fn graph_of(deps: Seq<Vec<usize>>) -> Seq<Seq<usize>> {
    deps.map_values(|v: Vec<usize>| v@)
}

/// `g` lists the dependencies held in `deps`.
spec fn same_graph(g: Seq<Seq<usize>>, deps: Seq<Vec<usize>>) -> bool {
    g.len() == deps.len() && forall|i: int| 0 <= i < deps.len() ==> #[trigger] g[i] == deps[i]@
}

proof fn lemma_graph_of(deps: Seq<Vec<usize>>)
    ensures
        same_graph(graph_of(deps), deps),
{
}

/// A dependency graph over record indices is well formed.
pub open spec fn graph_wf(g: Seq<Seq<usize>>) -> bool {
    forall|i: int, j: int| 0 <= i < g.len() && 0 <= j < g[i].len() ==> #[trigger] g[i][j] < g.len()
}

/// Record `u` depends directly on record `v`.
pub open spec fn is_edge(g: Seq<Seq<usize>>, u: int, v: int) -> bool {
    0 <= u < g.len() && exists|j: int| 0 <= j < g[u].len() && g[u][j] == v
}

/// The `k`-th node of `path` depends directly on the next one.
pub open spec fn linked(g: Seq<Seq<usize>>, path: Seq<int>, k: int) -> bool {
    is_edge(g, path[k], path[k + 1])
}

/// Each node of `path` depends directly on the next one.
pub open spec fn is_path(g: Seq<Seq<usize>>, path: Seq<int>) -> bool {
    forall|k: int| 0 <= k < path.len() - 1 ==> #[trigger] linked(g, path, k)
}

/// A path whose last node depends directly on its first one.
pub open spec fn is_cycle(g: Seq<Seq<usize>>, path: Seq<int>) -> bool {
    path.len() >= 1 && is_path(g, path) && is_edge(g, path.last(), path[0])
}

/// Record `v` lies on a cycle: it depends, directly or through others, on
/// itself.
pub open spec fn on_cycle(g: Seq<Seq<usize>>, v: int) -> bool {
    exists|path: Seq<int>| #[trigger] is_cycle(g, path) && path[0] == v
}

/// Some record depends, directly or through others, on itself.
pub open spec fn has_cycle(g: Seq<Seq<usize>>) -> bool {
    exists|path: Seq<int>| #[trigger] is_cycle(g, path)
}

/// `v` occurs in `order` before position `p`.
pub open spec fn comes_before(order: Seq<usize>, p: int, v: usize) -> bool {
    exists|q: int| 0 <= q < p && order[q] == v
}

/// Every record of `order` comes after each record it depends on.
pub open spec fn dependencies_first(g: Seq<Seq<usize>>, order: Seq<usize>) -> bool {
    forall|p: int, j: int|
        0 <= p < order.len() && 0 <= j < g[order[p] as int].len() ==> #[trigger] comes_before(
            order,
            p,
            g[order[p] as int][j],
        )
}

/// No record occurs twice in `order`.
pub open spec fn no_repeats(order: Seq<usize>) -> bool {
    forall|a: int, b: int| 0 <= a < b < order.len() ==> order[a] != order[b]
}

/// Every dependency of a record goes to a record of lower rank.
spec fn ranked(g: Seq<Seq<usize>>, rank: Seq<int>) -> bool {
    forall|u: int, j: int| 0 <= u < g.len() && 0 <= j < g[u].len() ==> rank[#[trigger] g[u][j] as int] < rank[u]
}

/// Finished records depend only on finished records of lower rank.
spec fn black_closed(g: Seq<Seq<usize>>, colors: Seq<Color>, rank: Seq<int>) -> bool {
    forall|u: int, j: int|
        0 <= u < g.len() && colors[u] == Color::Black && 0 <= j < g[u].len() ==> colors[#[trigger] g[u][j] as int]
            == Color::Black && rank[g[u][j] as int] < rank[u]
}

proof fn lemma_ranked_path(g: Seq<Seq<usize>>, rank: Seq<int>, path: Seq<int>, k: int)
    requires
        ranked(g, rank),
        is_path(g, path),
        0 <= k < path.len(),
    ensures
        k > 0 ==> rank[path[k]] < rank[path[0]],
    decreases k,
{
    if k > 0 {
        lemma_ranked_path(g, rank, path, k - 1);
        assert(linked(g, path, k - 1));
        let (a, b) = (path[k - 1], path[k]);
        let j = choose|j: int| 0 <= j < g[a].len() && #[trigger] g[a][j] == b;
        assert(rank[g[a][j] as int] < rank[a]);
    }
}

proof fn lemma_ranked_acyclic(g: Seq<Seq<usize>>, rank: Seq<int>)
    requires
        ranked(g, rank),
    ensures
        !has_cycle(g),
{
    if has_cycle(g) {
        let path = choose|path: Seq<int>| #[trigger] is_cycle(g, path);
        let last = path.len() - 1;
        lemma_ranked_path(g, rank, path, last);
        let (a, b) = (path[last], path[0]);
        let j = choose|j: int| 0 <= j < g[a].len() && #[trigger] g[a][j] == b;
        assert(rank[g[a][j] as int] < rank[a]);
    }
}

proof fn lemma_path_push(g: Seq<Seq<usize>>, path: Seq<int>, i: int)
    requires
        is_path(g, path),
        path.len() > 0 ==> is_edge(g, path.last(), i),
    ensures
        is_path(g, path.push(i)),
{
    let s = path.push(i);
    assert forall|k: int| 0 <= k < s.len() - 1 implies #[trigger] linked(g, s, k) by {
        if k < path.len() - 1 {
            assert(linked(g, path, k));
        }
    }
}

/// A path that reaches one of its own nodes again closes a cycle.
proof fn lemma_path_closes_cycle(g: Seq<Seq<usize>>, path: Seq<int>, v: int)
    requires
        is_path(g, path),
        path.contains(v),
        path.len() > 0,
        is_edge(g, path.last(), v),
    ensures
        has_cycle(g),
        on_cycle(g, v),
{
    let m = choose|m: int| 0 <= m < path.len() && path[m] == v;
    let c = path.subrange(m, path.len() as int);
    assert forall|k: int| 0 <= k < c.len() - 1 implies #[trigger] linked(g, c, k) by {
        assert(linked(g, path, k + m));
    }
    assert(is_cycle(g, c));
}

/// Depth-first visit from record `i`; the record on the current path that
/// is reached again, if any (it lies on a cycle).  `stack` is the path of records being
/// visited, and `rank` numbers the finished records in finishing order.
fn visit_for_cycle(
    i: usize,
    deps: &Vec<Vec<usize>>,
    Ghost(g): Ghost<Seq<Seq<usize>>>,
    colors: &mut Vec<Color>,
    Ghost(stack): Ghost<Seq<int>>,
    rank: &mut Ghost<Seq<int>>,
    clock: &mut Ghost<int>,
) -> (r: Option<usize>)
    requires
        same_graph(g, deps@),
        graph_wf(g),
        old(colors)@.len() == g.len(),
        old(rank)@.len() == g.len(),
        i < g.len(),
        black_closed(g, old(colors)@, old(rank)@),
        forall|u: int| 0 <= u < g.len() && old(colors)@[u] == Color::Black ==> old(rank)@[u] < old(clock)@,
        is_path(g, stack),
        stack.len() > 0 ==> is_edge(g, stack.last(), i as int),
        forall|u: int| 0 <= u < g.len() && old(colors)@[u] == Color::Gray ==> stack.contains(u),
    ensures
        final(colors)@.len() == g.len(),
        final(rank)@.len() == g.len(),
        count_white(final(colors)@) <= count_white(old(colors)@),
        r matches Some(c) ==> c < g.len() && on_cycle(g, c as int) && has_cycle(g),
        r is None ==> final(colors)@[i as int] == Color::Black,
        r is None ==> black_closed(g, final(colors)@, final(rank)@),
        r is None ==> forall|u: int|
            0 <= u < g.len() && final(colors)@[u] == Color::Black ==> final(rank)@[u] < final(clock)@,
        r is None ==> forall|u: int|
            0 <= u < g.len() && old(colors)@[u] == Color::Black ==> final(colors)@[u] == Color::Black
                && final(rank)@[u] == old(rank)@[u],
        r is None ==> forall|u: int|
            0 <= u < g.len() && final(colors)@[u] == Color::Gray ==> old(colors)@[u] == Color::Gray,
        r is None ==> forall|u: int|
            0 <= u < g.len() && old(colors)@[u] == Color::Gray ==> final(colors)@[u] == Color::Gray,
        r is None ==> final(clock)@ >= old(clock)@,
    decreases count_white(old(colors)@),
{
    match colors[i] {
        Color::Black => return None,
        Color::Gray => {
            proof {
                assert(old(colors)@[i as int] == Color::Gray);
                assert(stack.contains(i as int));
                if stack.len() > 0 {
                    lemma_path_closes_cycle(g, stack, i as int);
                }
            }
            return Some(i);
        },
        Color::White => {},
    }
    proof { lemma_count_white_update(colors@, i as int, Color::Gray); }
    colors.set(i, Color::Gray);
    let ghost path = stack.push(i as int);
    proof { lemma_path_push(g, stack, i as int); }
    let mut k: usize = 0;
    while k < deps[i].len()
        invariant
            same_graph(g, deps@),
            graph_wf(g),
            colors@.len() == g.len(),
            rank@.len() == g.len(),
            i < g.len(),
            k <= g[i as int].len(),
            count_white(colors@) < count_white(old(colors)@),
            colors@[i as int] == Color::Gray,
            path == stack.push(i as int),
            is_path(g, path),
            black_closed(g, colors@, rank@),
            forall|u: int| 0 <= u < g.len() && colors@[u] == Color::Black ==> rank@[u] < clock@,
            forall|u: int| 0 <= u < g.len() && old(colors)@[u] == Color::Black ==> colors@[u] == Color::Black,
            forall|u: int| 0 <= u < g.len() && old(colors)@[u] == Color::Black ==> rank@[u] == old(rank)@[u],
            forall|u: int|
                0 <= u < g.len() && colors@[u] == Color::Gray ==> old(colors)@[u] == Color::Gray || u == i,
            forall|u: int| 0 <= u < g.len() && old(colors)@[u] == Color::Gray ==> colors@[u] == Color::Gray,
            old(colors)@[i as int] == Color::White,
            forall|kk: int| 0 <= kk < k ==> colors@[#[trigger] g[i as int][kk] as int] == Color::Black,
            clock@ >= old(clock)@,
            forall|u: int| 0 <= u < g.len() && old(colors)@[u] == Color::Gray ==> stack.contains(u),
        decreases g[i as int].len() - k,
    {
        let dep = deps[i][k];
        proof {
            assert(g[i as int][k as int] == dep);
            assert forall|u: int| 0 <= u < g.len() && colors@[u] == Color::Gray implies path.contains(u) by {
                if u == i {
                    assert(path[path.len() - 1] == u);
                } else {
                    assert(old(colors)@[u] == Color::Gray);
                    assert(stack.contains(u));
                    let m = choose|m: int| 0 <= m < stack.len() && stack[m] == u;
                    assert(path[m] == u);
                }
            }
        }
        match visit_for_cycle(dep, deps, Ghost(g), colors, Ghost(path), rank, clock) {
            Some(c) => return Some(c),
            None => {},
        }
        k += 1;
    }
    proof {
        lemma_count_white_update(colors@, i as int, Color::Black);
        rank@ = rank@.update(i as int, clock@);
        clock@ = clock@ + 1;
    }
    colors.set(i, Color::Black);
    None
}

/// Post-order visit: every record after the records it depends on.
/// `stack` is the path of records whose visit is under way.
fn visit_in_order(
    i: usize,
    deps: &Vec<Vec<usize>>,
    Ghost(g): Ghost<Seq<Seq<usize>>>,
    visited: &mut Vec<Color>,
    order: &mut Vec<usize>,
    Ghost(stack): Ghost<Seq<int>>,
)
    requires
        same_graph(g, deps@),
        graph_wf(g),
        old(visited)@.len() == g.len(),
        i < g.len(),
        forall|j: int| 0 <= j < old(order)@.len() ==> old(order)@[j] < g.len(),
        no_repeats(old(order)@),
        forall|u: int| 0 <= u < g.len() ==> old(visited)@[u] != Color::Gray,
        forall|x: usize| old(order)@.contains(x) ==> old(visited)@[x as int] == Color::Black,
        forall|u: int|
            0 <= u < g.len() && old(visited)@[u] == Color::Black && !old(order)@.contains(u as usize)
                ==> stack.contains(u),
        is_path(g, stack),
        stack.len() > 0 ==> is_edge(g, stack.last(), i as int),
        !has_cycle(g) ==> dependencies_first(g, old(order)@),
    ensures
        final(visited)@.len() == g.len(),
        count_white(final(visited)@) <= count_white(old(visited)@),
        forall|j: int| 0 <= j < final(order)@.len() ==> final(order)@[j] < g.len(),
        no_repeats(final(order)@),
        forall|u: int| 0 <= u < g.len() ==> final(visited)@[u] != Color::Gray,
        forall|x: usize| final(order)@.contains(x) ==> final(visited)@[x as int] == Color::Black,
        forall|u: int|
            0 <= u < g.len() && final(visited)@[u] == Color::Black && !final(order)@.contains(u as usize)
                ==> stack.contains(u),
        final(visited)@[i as int] == Color::Black,
        forall|u: int| 0 <= u < g.len() && old(visited)@[u] == Color::Black ==> final(visited)@[u] == Color::Black,
        forall|x: usize|
            final(order)@.contains(x) ==> old(order)@.contains(x) || old(visited)@[x as int] != Color::Black,
        !has_cycle(g) ==> dependencies_first(g, final(order)@),
    decreases count_white(old(visited)@),
{
    if visited[i] == Color::Black {
        return;
    }
    proof {
        assert(visited@[i as int] != Color::Gray);
        lemma_count_white_update(visited@, i as int, Color::Black);
    }
    visited.set(i, Color::Black);
    let ghost path = stack.push(i as int);
    proof {
        lemma_path_push(g, stack, i as int);
        assert forall|u: int|
            0 <= u < g.len() && visited@[u] == Color::Black && !order@.contains(u as usize) implies path.contains(
            u,
        ) by {
            if u == i {
                assert(path[path.len() - 1] == u);
            } else {
                assert(old(visited)@[u] == Color::Black);
                assert(stack.contains(u));
                let m = choose|m: int| 0 <= m < stack.len() && stack[m] == u;
                assert(path[m] == u);
            }
        }
    }
    let mut k: usize = 0;
    while k < deps[i].len()
        invariant
            same_graph(g, deps@),
            graph_wf(g),
            visited@.len() == g.len(),
            i < g.len(),
            k <= g[i as int].len(),
            count_white(visited@) < count_white(old(visited)@),
            old(visited)@[i as int] == Color::White,
            forall|u: int| 0 <= u < g.len() ==> visited@[u] != Color::Gray,
            visited@[i as int] == Color::Black,
            path == stack.push(i as int),
            is_path(g, path),
            forall|j: int| 0 <= j < order@.len() ==> order@[j] < g.len(),
            no_repeats(order@),
            forall|x: usize| order@.contains(x) ==> visited@[x as int] == Color::Black,
            forall|u: int|
                0 <= u < g.len() && visited@[u] == Color::Black && !order@.contains(u as usize)
                    ==> path.contains(u),
            forall|u: int| 0 <= u < g.len() && old(visited)@[u] == Color::Black ==> visited@[u] == Color::Black,
            forall|x: usize|
                order@.contains(x) ==> old(order)@.contains(x) || old(visited)@[x as int] != Color::Black,
            !order@.contains(i),
            forall|kk: int| 0 <= kk < k ==> visited@[#[trigger] g[i as int][kk] as int] == Color::Black,
            !has_cycle(g) ==> dependencies_first(g, order@),
        decreases g[i as int].len() - k,
    {
        let dep = deps[i][k];
        proof { assert(g[i as int][k as int] == dep); }
        visit_in_order(dep, deps, Ghost(g), visited, order, Ghost(path));
        k += 1;
    }
    proof {
        if !has_cycle(g) {
            assert forall|j: int| 0 <= j < g[i as int].len() implies order@.contains(
                #[trigger] g[i as int][j],
            ) by {
                let v = g[i as int][j];
                assert(visited@[v as int] == Color::Black);
                if !order@.contains(v) {
                    assert(is_edge(g, i as int, v as int));
                    assert(path.last() == i as int);
                    lemma_path_closes_cycle(g, path, v as int);
                }
            }
            lemma_push_keeps_dependencies_first(g, order@, i);
        }
    }
    let ghost before = order@;
    order.push(i);
    proof {
        assert forall|u: int|
            0 <= u < g.len() && visited@[u] == Color::Black && !order@.contains(u as usize) implies stack.contains(
            u,
        ) by {
            if u == i {
                assert(order@[order@.len() - 1] == i);
            } else {
                if before.contains(u as usize) {
                    let q = choose|q: int| 0 <= q < before.len() && before[q] == u as usize;
                    assert(order@[q] == u as usize);
                }
                assert(path.contains(u));
                let m = choose|m: int| 0 <= m < path.len() && path[m] == u;
                assert(path[stack.len() as int] == i);
                assert(m < stack.len());
                assert(stack[m] == u);
            }
        }
    }
}

proof fn lemma_push_keeps_dependencies_first(g: Seq<Seq<usize>>, order: Seq<usize>, i: usize)
    requires
        dependencies_first(g, order),
        forall|j: int| 0 <= j < g[i as int].len() ==> order.contains(#[trigger] g[i as int][j]),
    ensures
        dependencies_first(g, order.push(i)),
{
    let s = order.push(i);
    assert forall|p: int, j: int| 0 <= p < s.len() && 0 <= j < g[s[p] as int].len() implies #[trigger] comes_before(
        s,
        p,
        g[s[p] as int][j],
    ) by {
        let v = g[s[p] as int][j];
        if p < order.len() {
            assert(comes_before(order, p, g[order[p] as int][j]));
            let q = choose|q: int| 0 <= q < p && order[q] == v;
            assert(s[q] == v);
        } else {
            assert(order.contains(g[i as int][j]));
            let q = choose|q: int| 0 <= q < order.len() && order[q] == v;
            assert(s[q] == v);
        }
    }
}

fn all_white(n: usize) -> (r: Vec<Color>)
    ensures
        r@.len() == n,
        forall|u: int| 0 <= u < n ==> r@[u] == Color::White,
{
    let mut v: Vec<Color> = Vec::new();
    let mut i: usize = 0;
    while i < n
        invariant
            i <= n,
            v@.len() == i,
            forall|u: int| 0 <= u < i ==> v@[u] == Color::White,
        decreases n - i,
    {
        v.push(Color::White);
        i += 1;
    }
    v
}

/// A record involved in a cycle of the dependency graph (a field whose type
/// names another record is an edge), if there is one: the first record that
/// the depth-first search meets again on its current path.  `None` exactly
/// when no record depends, directly or not, on itself.
pub fn find_recursive_record(deps: &Vec<Vec<usize>>) -> (r: Option<usize>)
    requires
        graph_wf(graph_of(deps@)),
    ensures
        r is None <==> !has_cycle(graph_of(deps@)),
        r matches Some(i) ==> i < deps@.len() && on_cycle(graph_of(deps@), i as int),
{
    let ghost g = graph_of(deps@);
    proof { lemma_graph_of(deps@); }
    let mut colors = all_white(deps.len());
    let ghost mut rank: Seq<int> = Seq::new(g.len(), |u: int| 0);
    let ghost mut clock: int = 0;
    let mut grank: Ghost<Seq<int>> = Ghost(rank);
    let mut gclock: Ghost<int> = Ghost(clock);
    let mut i: usize = 0;
    while i < deps.len()
        invariant
            g == graph_of(deps@),
            same_graph(g, deps@),
            graph_wf(g),
            colors@.len() == g.len(),
            grank@.len() == g.len(),
            i <= g.len(),
            black_closed(g, colors@, grank@),
            forall|u: int| 0 <= u < g.len() && colors@[u] == Color::Black ==> grank@[u] < gclock@,
            forall|u: int| 0 <= u < g.len() ==> colors@[u] != Color::Gray,
            forall|u: int| 0 <= u < i ==> colors@[u] == Color::Black,
        decreases g.len() - i,
    {
        match visit_for_cycle(i, deps, Ghost(g), &mut colors, Ghost(Seq::empty()), &mut grank, &mut gclock) {
            Some(c) => return Some(c),
            None => {},
        }
        i += 1;
    }
    proof {
        assert forall|u: int, j: int| 0 <= u < g.len() && 0 <= j < g[u].len() implies grank@[#[trigger] g[u][j] as int]
            < grank@[u] by {
            assert(colors@[u] == Color::Black);
        }
        lemma_ranked_acyclic(g, grank@);
    }
    None
}

/// The records in an order where each one comes after every record it
/// depends on: every record exactly once, and, when no record depends on
/// itself, dependencies first.
pub fn topological_order(deps: &Vec<Vec<usize>>) -> (r: Vec<usize>)
    requires
        graph_wf(graph_of(deps@)),
    ensures
        forall|j: int| 0 <= j < r@.len() ==> r@[j] < deps@.len(),
        no_repeats(r@),
        forall|u: usize| u < deps@.len() ==> r@.contains(u),
        !has_cycle(graph_of(deps@)) ==> dependencies_first(graph_of(deps@), r@),
{
    let ghost g = graph_of(deps@);
    proof { lemma_graph_of(deps@); }
    let mut visited = all_white(deps.len());
    let mut order: Vec<usize> = Vec::new();
    let mut i: usize = 0;
    while i < deps.len()
        invariant
            g == graph_of(deps@),
            same_graph(g, deps@),
            graph_wf(g),
            visited@.len() == g.len(),
            i <= g.len(),
            forall|j: int| 0 <= j < order@.len() ==> order@[j] < g.len(),
            no_repeats(order@),
            forall|u: int| 0 <= u < g.len() ==> visited@[u] != Color::Gray,
            forall|x: usize| order@.contains(x) ==> visited@[x as int] == Color::Black,
            forall|u: int|
                0 <= u < g.len() && visited@[u] == Color::Black ==> order@.contains(u as usize),
            forall|u: int| 0 <= u < i ==> visited@[u] == Color::Black,
            !has_cycle(g) ==> dependencies_first(g, order@),
        decreases g.len() - i,
    {
        let ghost none: Seq<int> = Seq::empty();
        visit_in_order(i, deps, Ghost(g), &mut visited, &mut order, Ghost(none));
        proof {
            assert forall|u: int| 0 <= u < g.len() && visited@[u] == Color::Black implies order@.contains(u as usize) by {
                if !order@.contains(u as usize) {
                    assert(none.contains(u));
                }
            }
        }
        i += 1;
    }
    proof {
        assert forall|u: usize| u < g.len() implies order@.contains(u) by {
            assert(visited@[u as int] == Color::Black);
        }
    }
    order
}

/// `raw` lists records of `program`: each entry names a `record`
/// declaration whose fields all have a written type, and names are unique.
pub open spec fn raw_records_wf(program: Seq<TopLevel>, raw: Seq<(String, usize)>) -> bool {
    &&& forall|i: int| 0 <= i < raw.len() ==> {
        &&& (#[trigger] raw[i]).1 < program.len()
        &&& program[raw[i].1 as int] matches TopLevel::TopLevelRecord { name, fields, .. }
        &&& name@ == raw[i].0@
        &&& forall|f: int| 0 <= f < fields@.len() ==> (#[trigger] fields@[f]).ty is Some
    }
    &&& forall|i: int, j: int| 0 <= i < j < raw.len() ==> raw[i].0@ != raw[j].0@
}

/// The fields of a record declaration can make a record: each has a
/// written type and no field name repeats.
pub open spec fn fields_acceptable(fields: Seq<Decl>) -> bool {
    &&& forall|f: int| 0 <= f < fields.len() ==> (#[trigger] fields[f]).ty is Some
    &&& forall|a: int, b: int| 0 <= a < b < fields.len() ==> fields[a].name@ != fields[b].name@
}

/// Some entry of `acc` is named `n`.
pub open spec fn names_record(acc: Seq<(Seq<char>, int)>, n: Seq<char>) -> bool {
    exists|k: int| 0 <= k < acc.len() && (#[trigger] acc[k]).0 == n
}

/// The records that the first `n` declarations of `program` register, by
/// name and position: a name used before, a reserved name or fields that
/// cannot make a record leave a declaration out.
pub open spec fn accepted_records(program: Seq<TopLevel>, n: int) -> Seq<(Seq<char>, int)>
    decreases n,
{
    if n <= 0 {
        Seq::empty()
    } else {
        let prev = accepted_records(program, n - 1);
        match program[n - 1] {
            TopLevel::TopLevelRecord { name, fields, .. } => if !names_record(prev, name@)
                && !spec_reserved_rust_name(name@) && fields_acceptable(fields@) {
                prev.push((name@, n - 1))
            } else {
                prev
            },
            _ => prev,
        }
    }
}

/// No record that the checker registers carries a name reserved by Rust.
pub proof fn law_accepted_records_unreserved(program: Seq<TopLevel>, n: int, k: int)
    requires
        0 <= k < accepted_records(program, n).len(),
    ensures
        !spec_reserved_rust_name(accepted_records(program, n)[k].0),
    decreases n,
{
    if n > 0 {
        let prev = accepted_records(program, n - 1);
        if k < prev.len() {
            law_accepted_records_unreserved(program, n - 1, k);
        }
    }
}

/// Names and positions of a list of raw records.
pub open spec fn names_positions(raw: Seq<(String, usize)>) -> Seq<(Seq<char>, int)> {
    raw.map_values(|e: (String, usize)| (e.0@, e.1 as int))
}

/// Whether a field before position `f` has the name of field `f`.
fn name_used_before(fields: &Vec<Decl>, f: usize) -> (r: bool)
    requires
        f < fields@.len(),
    ensures
        r == exists|g: int| 0 <= g < f && fields@[g].name@ == fields@[f as int].name@,
{
    let mut g: usize = 0;
    while g < f
        invariant
            f < fields@.len(),
            g <= f,
            forall|h: int| 0 <= h < g ==> fields@[h].name@ != fields@[f as int].name@,
        decreases f - g,
    {
        if str_eq(fields[g].name.as_str(), fields[f].name.as_str()) {
            return true;
        }
        g += 1;
    }
    false
}

proof fn lemma_fields_acceptable_step(fields: Seq<Decl>, f: int)
    requires
        0 <= f < fields.len(),
    ensures
        fields_acceptable(fields.take(f + 1)) == (fields_acceptable(fields.take(f)) && !(exists|g: int|
            0 <= g < f && fields[g].name@ == fields[f].name@) && fields[f].ty is Some),
{
    let before = fields.take(f);
    let after = fields.take(f + 1);
    assert(after == before.push(fields[f]));
    if fields_acceptable(after) {
        assert forall|g: int| 0 <= g < f implies fields[g].name@ != fields[f].name@ by {
            assert(after[g] == fields[g]);
            assert(after[f] == fields[f]);
        }
        assert(after[f].ty is Some);
        assert forall|g: int| 0 <= g < before.len() implies (#[trigger] before[g]).ty is Some by {
            assert(before[g] == after[g]);
        }
        assert forall|a: int, b: int| 0 <= a < b < before.len() implies before[a].name@ != before[b].name@ by {
            assert(before[a] == after[a]);
            assert(before[b] == after[b]);
        }
    }
    if fields_acceptable(before) && !(exists|g: int| 0 <= g < f && fields[g].name@ == fields[f].name@)
        && fields[f].ty is Some {
        assert forall|a: int, b: int| 0 <= a < b < after.len() implies after[a].name@ != after[b].name@ by {
            if b == f {
                assert(after[a] == fields[a]);
            } else {
                assert(before[a] == after[a]);
                assert(before[b] == after[b]);
            }
        }
        assert forall|g: int| 0 <= g < after.len() implies (#[trigger] after[g]).ty is Some by {
            if g < f {
                assert(before[g] == after[g]);
            }
        }
    }
}

impl Checker {
    /// Checks the fields of record `name`: reports a repeated field name
    /// and a field without a written type; `true` when there is neither.
    fn check_record_fields(&mut self, name: &str, fields: &Vec<Decl>) -> (ok: bool)
        requires
            old(self).wf(),
        ensures
            old(self).same_scope_but_locs(*final(self)),
            final(self).wf(),
            final(self).errors@.len() >= old(self).errors@.len(),
            ok == fields_acceptable(fields@),
    {
        let mut ok = true;
        let mut f: usize = 0;
        while f < fields.len()
            invariant
                f <= fields@.len(),
                old(self).same_scope_but_locs(*self),
                self.wf(),
                self.errors@.len() >= old(self).errors@.len(),
                ok == fields_acceptable(fields@.take(f as int)),
            decreases fields@.len() - f,
        {
            let field = &fields[f];
            proof { lemma_fields_acceptable_step(fields@, f as int); }
            if name_used_before(fields, f) {
                self.error(field.loc, cat5("campo '", field.name.as_str(), "' duplicado no record '", name, "'."));
                ok = false;
            }
            if field.ty.is_none() {
                self.error(field.loc, cat3("campo '", field.name.as_str(), "' precisa de um tipo explícito."));
                ok = false;
            }
            f += 1;
        }
        proof { assert(fields@.take(fields@.len() as int) == fields@); }
        ok
    }

    /// Registers the name and the raw fields of every record: rejects a
    /// repeated name, a reserved Rust name, and a repeated or untyped field.
    pub fn collect_record_names(&mut self, program: &Vec<TopLevel>) -> (raw: Vec<(String, usize)>)
        requires
            old(self).wf(),
        ensures
            old(self).same_scope_but_locs(*final(self)),
            final(self).wf(),
            final(self).errors@.len() >= old(self).errors@.len(),
            raw_records_wf(program@, raw@),
            names_positions(raw@) == accepted_records(program@, program@.len() as int),
    {
        let mut raw: Vec<(String, usize)> = Vec::new();
        let mut p: usize = 0;
        while p < program.len()
            invariant
                p <= program@.len(),
                old(self).same_scope_but_locs(*self),
                self.wf(),
                self.errors@.len() >= old(self).errors@.len(),
                raw_records_wf(program@, raw@),
                names_positions(raw@) == accepted_records(program@, p as int),
            decreases program@.len() - p,
        {
            let ghost acc = accepted_records(program@, p as int);
            proof {
                assert(accepted_records(program@, p + 1) == match program@[p as int] {
                    TopLevel::TopLevelRecord { name, fields, .. } => if !names_record(acc, name@)
                        && !spec_reserved_rust_name(name@) && fields_acceptable(fields@) {
                        acc.push((name@, p as int))
                    } else {
                        acc
                    },
                    _ => acc,
                });
            }
            match &program[p] {
                TopLevel::TopLevelRecord { loc, name, fields } => {
                    proof {
                        assert(names_record(acc, name@) == has_name(raw@, name@)) by {
                            if names_record(acc, name@) {
                                let k = choose|k: int| 0 <= k < acc.len() && (#[trigger] acc[k]).0 == name@;
                                assert(raw@[k].0@ == acc[k].0);
                            }
                            if has_name(raw@, name@) {
                                let k = choose|k: int| 0 <= k < raw@.len() && raw@[k].0@ == name@;
                                assert(acc[k].0 == raw@[k].0@);
                            }
                        }
                    }
                    if find_named(&raw, name.as_str()).is_some() {
                        self.error(*loc, cat3("'", name.as_str(), "' já foi declarado antes."));
                    } else if is_reserved_rust_name(name.as_str()) {
                        self.error(*loc, cat3("'", name.as_str(), "' é um nome reservado do Rust; escolha outro nome de record."));
                    } else {
                        let ok = self.check_record_fields(name.as_str(), fields);
                        if ok {
                            self.record_def_locs.push((name.clone(), *loc));
                            let mut locs: Vec<(String, Loc)> = Vec::new();
                            let mut g: usize = 0;
                            while g < fields.len()
                                invariant
                                    g <= fields@.len(),
                                decreases fields@.len() - g,
                            {
                                locs.push((fields[g].name.clone(), fields[g].loc));
                                g += 1;
                            }
                            self.field_def_locs.push((name.clone(), locs));
                            let ghost before = raw@;
                            raw.push((name.clone(), p));
                            proof {
                                assert forall|i: int, j: int| 0 <= i < j < raw@.len() implies raw@[i].0@ != raw@[j].0@ by {
                                    if j == raw@.len() - 1 {
                                        assert(raw@[i] == before[i]);
                                    }
                                }
                                assert(names_positions(raw@) =~= acc.push((name@, p as int)));
                            }
                        }
                    }
                },
                _ => {},
            }
            p += 1;
        }
        raw
    }
}

/// `k` is the first position of `acc` named `n`.
pub open spec fn first_record_named(acc: Seq<(Seq<char>, int)>, n: Seq<char>, k: int) -> bool {
    &&& 0 <= k < acc.len()
    &&& acc[k].0 == n
    &&& forall|j: int| 0 <= j < k ==> acc[j].0 != n
}

/// Position of the first accepted record named `n`.
pub open spec fn record_index(acc: Seq<(Seq<char>, int)>, n: Seq<char>) -> Option<int> {
    if exists|k: int| first_record_named(acc, n, k) {
        Some(choose|k: int| first_record_named(acc, n, k))
    } else {
        None
    }
}

/// Positions, among the accepted records `acc`, of the records that the
/// first `n` of `fields` name directly, in field order.
pub open spec fn field_deps(fields: Seq<Decl>, acc: Seq<(Seq<char>, int)>, n: int) -> Seq<usize>
    decreases n,
{
    if n <= 0 {
        Seq::empty()
    } else {
        let prev = field_deps(fields, acc, n - 1);
        match fields[n - 1].ty {
            Some(ast::Type::TypeName { name, .. }) => match record_index(acc, name@) {
                Some(k) => prev.push(k as usize),
                None => prev,
            },
            _ => prev,
        }
    }
}

/// The dependency graph over the records `acc` of `program`: each record
/// depends on the records its fields name directly.
pub open spec fn record_graph_of(program: Seq<TopLevel>, acc: Seq<(Seq<char>, int)>) -> Seq<Seq<usize>> {
    Seq::new(
        acc.len(),
        |i: int|
            match program[acc[i].1] {
                TopLevel::TopLevelRecord { fields, .. } => field_deps(fields@, acc, fields@.len() as int),
                _ => Seq::empty(),
            },
    )
}

/// The dependency graph of the records that `program` declares.
pub open spec fn record_graph(program: Seq<TopLevel>) -> Seq<Seq<usize>> {
    record_graph_of(program, accepted_records(program, program.len() as int))
}

proof fn lemma_record_index_found(raw: Seq<(String, usize)>, n: Seq<char>, k: int)
    requires
        is_first_named(raw, n, k),
    ensures
        record_index(names_positions(raw), n) == Some(k),
{
    let acc = names_positions(raw);
    assert forall|j: int| 0 <= j < k implies acc[j].0 != n by {
        assert(acc[j].0 == raw[j].0@);
    }
    assert(first_record_named(acc, n, k));
    let c = choose|c: int| first_record_named(acc, n, c);
    if c < k {
        assert(acc[c].0 == raw[c].0@);
    }
    if k < c {
        assert(acc[k].0 == n);
    }
}

proof fn lemma_record_index_missing(raw: Seq<(String, usize)>, n: Seq<char>)
    requires
        !has_name(raw, n),
    ensures
        record_index(names_positions(raw), n) is None,
{
    let acc = names_positions(raw);
    if exists|k: int| first_record_named(acc, n, k) {
        let k = choose|k: int| first_record_named(acc, n, k);
        assert(raw[k].0@ == acc[k].0);
    }
}

/// The dependency graph of the raw records: an edge from a record to each
/// record that one of its fields names directly.
pub fn record_deps(program: &Vec<TopLevel>, raw: &Vec<(String, usize)>) -> (deps: Vec<Vec<usize>>)
    requires
        raw_records_wf(program@, raw@),
    ensures
        deps@.len() == raw@.len(),
        graph_wf(graph_of(deps@)),
        graph_of(deps@) == record_graph_of(program@, names_positions(raw@)),
{
    let ghost acc = names_positions(raw@);
    let ghost spec_graph = record_graph_of(program@, acc);
    let mut deps: Vec<Vec<usize>> = Vec::new();
    let mut i: usize = 0;
    while i < raw.len()
        invariant
            i <= raw@.len(),
            raw_records_wf(program@, raw@),
            acc == names_positions(raw@),
            spec_graph == record_graph_of(program@, acc),
            deps@.len() == i,
            forall|a: int, b: int| 0 <= a < deps@.len() && 0 <= b < deps@[a]@.len() ==> #[trigger] deps@[a]@[b] < raw@.len(),
            forall|a: int| 0 <= a < deps@.len() ==> #[trigger] deps@[a]@ == spec_graph[a],
        decreases raw@.len() - i,
    {
        let mut out: Vec<usize> = Vec::new();
        let idx = raw[i].1;
        proof { assert(acc[i as int].1 == idx as int); }
        match &program[idx] {
            TopLevel::TopLevelRecord { fields, .. } => {
                let mut f: usize = 0;
                while f < fields.len()
                    invariant
                        f <= fields@.len(),
                        acc == names_positions(raw@),
                        forall|b: int| 0 <= b < out@.len() ==> #[trigger] out@[b] < raw@.len(),
                        out@ == field_deps(fields@, acc, f as int),
                    decreases fields@.len() - f,
                {
                    match &fields[f].ty {
                        Some(ast::Type::TypeName { name, .. }) => match find_named(raw, name.as_str()) {
                            Some(k) => {
                                proof { lemma_record_index_found(raw@, name@, k as int); }
                                out.push(k);
                            },
                            None => {
                                proof { lemma_record_index_missing(raw@, name@); }
                            },
                        },
                        _ => {},
                    }
                    f += 1;
                }
            },
            _ => {},
        }
        proof { assert(out@ == spec_graph[i as int]); }
        deps.push(out);
        i += 1;
    }
    proof {
        lemma_graph_of(deps@);
        assert(graph_of(deps@) =~= spec_graph);
    }
    deps
}

/// An entry of the record table after the record pass: one that was there
/// before, or an accepted record of `program`, typed as the record of its
/// own name.
pub open spec fn registered_entry(before: Seq<(String, Type)>, acc: Seq<(Seq<char>, int)>, e: (String, Type)) -> bool {
    ||| has_name(before, e.0@)
    ||| names_record(acc, e.0@) && (e.1 matches Type::Record { name, .. } && name@ == e.0@)
}

impl Checker {
    /// Records first, functions after: registers every record of the
    /// program with its resolved field types.  A recursive record (a cycle
    /// of fields naming records directly) is rejected, and a record whose
    /// fields do not resolve is left out.
    pub fn collect_records(&mut self, program: &Vec<TopLevel>)
        requires
            old(self).wf(),
        ensures
            final(self).wf(),
            final(self).st == old(self).st,
            final(self).modules == old(self).modules,
            final(self).loop_depth == old(self).loop_depth,
            final(self).errors@.len() >= old(self).errors@.len(),
            has_cycle(record_graph(program@)) ==> final(self).records == old(self).records
                && final(self).errors@.len() > old(self).errors@.len(),
            forall|k: int|
                0 <= k < final(self).records@.len() ==> registered_entry(
                    old(self).records@,
                    accepted_records(program@, program@.len() as int),
                    #[trigger] final(self).records@[k],
                ),
    {
        let ghost acc = accepted_records(program@, program@.len() as int);
        let raw = self.collect_record_names(program);
        let deps = record_deps(program, &raw);
        proof {
            assert forall|k: int| 0 <= k < self.records@.len() implies registered_entry(
                old(self).records@,
                acc,
                #[trigger] self.records@[k],
            ) by {
                assert(has_name(old(self).records@, self.records@[k].0@)) by {
                    assert(old(self).records@[k] == self.records@[k]);
                }
            }
        }
        match find_recursive_record(&deps) {
            Some(ci) => {
                let idx = raw[ci].1;
                let loc = match &program[idx] {
                    TopLevel::TopLevelRecord { loc, .. } => *loc,
                    _ => Loc { line: 1, col: 1 },
                };
                let msg = cat3(
                    "o record '",
                    raw[ci].0.as_str(),
                    "' é recursivo (direta ou indiretamente); esta fase não suporta indireção para quebrar o ciclo.",
                );
                self.error(loc, msg);
                return;
            },
            None => {},
        }
        // Placeholders first, so that a record reached only through a
        // composite (`filhos: {No}`) resolves while it is being processed.
        let mut i: usize = 0;
        while i < raw.len()
            invariant
                i <= raw@.len(),
                self.wf(),
                self.st == old(self).st,
                self.modules == old(self).modules,
                self.loop_depth == old(self).loop_depth,
                self.errors@.len() >= old(self).errors@.len(),
                names_positions(raw@) == acc,
                forall|k: int| 0 <= k < self.records@.len() ==> registered_entry(old(self).records@, acc, #[trigger] self.records@[k]),
            decreases raw@.len() - i,
        {
            proof { assert(acc[i as int].0 == raw@[i as int].0@); }
            self.records.push((raw[i].0.clone(), Type::Record { name: raw[i].0.clone(), fields: Vec::new() }));
            i += 1;
        }
        let order = topological_order(&deps);
        let mut o: usize = 0;
        while o < order.len()
            invariant
                o <= order@.len(),
                raw_records_wf(program@, raw@),
                deps@.len() == raw@.len(),
                forall|j: int| 0 <= j < order@.len() ==> order@[j] < deps@.len(),
                self.wf(),
                self.st == old(self).st,
                self.modules == old(self).modules,
                self.loop_depth == old(self).loop_depth,
                self.errors@.len() >= old(self).errors@.len(),
                names_positions(raw@) == acc,
                forall|k: int| 0 <= k < self.records@.len() ==> registered_entry(old(self).records@, acc, #[trigger] self.records@[k]),
            decreases order@.len() - o,
        {
            let ri = order[o];
            let name = &raw[ri].0;
            let idx = raw[ri].1;
            match &program[idx] {
                TopLevel::TopLevelRecord { fields, .. } => {
                    let ghost records_now = self.records;
                    proof { assert(acc[ri as int].0 == name@); }
                    let mut typed_fields: Vec<(String, Type)> = Vec::new();
                    let mut ok = true;
                    let mut f: usize = 0;
                    while f < fields.len()
                        invariant
                            f <= fields@.len(),
                            self.wf(),
                            self.st == old(self).st,
                            self.modules == old(self).modules,
                            self.loop_depth == old(self).loop_depth,
                            self.errors@.len() >= old(self).errors@.len(),
                            self.records == records_now,
                        decreases fields@.len() - f,
                    {
                        match &fields[f].ty {
                            Some(annotated) => match self.resolve_type(annotated) {
                                Some(ty) => typed_fields.push((fields[f].name.clone(), ty)),
                                None => ok = false,
                            },
                            None => ok = false,
                        }
                        f += 1;
                    }
                    if ok {
                        let record_ty = Type::Record { name: name.clone(), fields: crate::types::copy_fields(&typed_fields) };
                        match find_named(&self.record_def_locs, name.as_str()) {
                            Some(d) => {
                                let def_loc = self.record_def_locs[d].1;
                                self.record_use(def_loc, def_loc, name.as_str(), &record_ty);
                            },
                            None => {},
                        }
                        match find_named(&self.field_def_locs, name.as_str()) {
                            Some(d) => {
                                let mut g: usize = 0;
                                while g < typed_fields.len()
                                    invariant
                                        g <= typed_fields@.len(),
                                        d < self.field_def_locs@.len(),
                                        self.wf(),
                                        self.st == old(self).st,
                                        self.modules == old(self).modules,
                                        self.loop_depth == old(self).loop_depth,
                                        self.errors@.len() >= old(self).errors@.len(),
                                        self.records == records_now,
                                    decreases typed_fields@.len() - g,
                                {
                                    match find_named(&self.field_def_locs[d].1, typed_fields[g].0.as_str()) {
                                        Some(e) => {
                                            let floc = self.field_def_locs[d].1[e].1;
                                            self.record_use(floc, floc, typed_fields[g].0.as_str(), &typed_fields[g].1);
                                        },
                                        None => {},
                                    }
                                    g += 1;
                                }
                            },
                            None => {},
                        }
                        match find_named(&self.records, name.as_str()) {
                            Some(k) => {
                                let ghost before = self.records@;
                                self.records.set(k, (name.clone(), record_ty));
                                proof {
                                    assert forall|j: int| 0 <= j < self.records@.len() implies registered_entry(
                                        old(self).records@,
                                        acc,
                                        #[trigger] self.records@[j],
                                    ) by {
                                        if j != k {
                                            assert(self.records@[j] == before[j]);
                                        }
                                    }
                                }
                            },
                            None => {},
                        }
                    } else {
                        match find_named(&self.records, name.as_str()) {
                            Some(k) => {
                                let ghost before = self.records@;
                                self.records.remove(k);
                                proof {
                                    assert forall|j: int| 0 <= j < self.records@.len() implies registered_entry(
                                        old(self).records@,
                                        acc,
                                        #[trigger] self.records@[j],
                                    ) by {
                                        if j < k {
                                            assert(self.records@[j] == before[j]);
                                        } else {
                                            assert(self.records@[j] == before[j + 1]);
                                        }
                                    }
                                }
                            },
                            None => {},
                        }
                    }
                },
                _ => {},
            }
            o += 1;
        }
    }
}

} // verus!
