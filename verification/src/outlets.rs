//! Which candidate-ocean sites are connected to the map edge.
//!
//! A site is an outlet when it is a candidate ocean and a chain of adjacent
//! candidate oceans leads from it to a candidate on the boundary. Candidate
//! pockets that are cut off from the boundary are not outlets.

use vstd::prelude::*;
use crate::error::TerrainError;
use terrain_graph::edge_attributed_undirected::EdgeAttributedUndirectedGraph;

verus! {

/// The mesh graph as its builder makes it: sites joined by edges, each edge
/// with its length in fixed point.
#[verifier::external_type_specification]
#[verifier::external_body]
#[verifier::reject_recursive_types(Attr)]
pub struct ExEdgeAttributedUndirectedGraph<Attr: Copy + Clone + Default>(
    EdgeAttributedUndirectedGraph<Attr>,
);

/// What a mesh graph holds: for each site, the sites that it shares an edge
/// with, in the order in which the edges were added.
pub uninterp spec fn adjacency(graph: EdgeAttributedUndirectedGraph<i64>) -> Seq<Seq<usize>>;

/// Calls `order` of the graph, which gives the number of its adjacency lists.
#[verifier::external_body]
fn order_of(graph: &EdgeAttributedUndirectedGraph<i64>) -> (order: usize)
    ensures
        order == adjacency(*graph).len(),
{
    graph.order()
}

/// Calls `neighbors_of` of the graph and drops the lengths of the edges.
///
/// The graph gives the adjacency list of the site. It panics for a site that
/// the graph does not have.
#[verifier::external_body]
fn neighbors_of(graph: &EdgeAttributedUndirectedGraph<i64>, site: usize) -> (row: Vec<usize>)
    requires
        site < adjacency(*graph).len(),
    ensures
        row@ == adjacency(*graph)[site as int],
{
    graph.neighbors_of(site).iter().map(|edge| edge.0).collect()
}

/// Site `a` lists site `b`.
pub open spec fn adjacent(rows: Seq<Seq<usize>>, a: int, b: int) -> bool {
    &&& 0 <= a < rows.len()
    &&& exists|k: int| 0 <= k < rows[a].len() && #[trigger] rows[a][k] == b
}

/// Sites `path[k]` and `path[k + 1]` share an edge.
pub open spec fn linked(rows: Seq<Seq<usize>>, path: Seq<int>, k: int) -> bool {
    adjacent(rows, path[k], path[k + 1])
}

/// `path` starts at one of `seeds`, stays on candidate oceans and follows edges.
pub open spec fn ocean_path(
    rows: Seq<Seq<usize>>,
    candidate: Seq<bool>,
    seeds: Seq<usize>,
    path: Seq<int>,
) -> bool {
    &&& path.len() > 0
    &&& exists|s: int| 0 <= s < seeds.len() && #[trigger] seeds[s] == path[0]
    &&& forall|k: int|
        0 <= k < path.len() ==> 0 <= #[trigger] path[k] < candidate.len() && candidate[path[k]]
    &&& forall|k: int| 0 <= k < path.len() - 1 ==> #[trigger] linked(rows, path, k)
}

/// Some chain of candidate oceans leads from a seed to `site`.
pub open spec fn connected_to_edge(
    rows: Seq<Seq<usize>>,
    candidate: Seq<bool>,
    seeds: Seq<usize>,
    site: int,
) -> bool {
    exists|path: Seq<int>| #[trigger] ocean_path(rows, candidate, seeds, path) && path.last() == site
}

/// Some seed is a candidate ocean.
pub open spec fn has_ocean_seed(candidate: Seq<bool>, seeds: Seq<usize>) -> bool {
    exists|s: int|
        0 <= s < seeds.len() && (#[trigger] seeds[s]) < candidate.len() && candidate[seeds[s] as int]
}

/// `site` waits in the worklist.
pub open spec fn queued(queue: Seq<usize>, site: int) -> bool {
    exists|q: int| 0 <= q < queue.len() && #[trigger] queue[q] == site
}

/// How many entries of `marks` are still false.
pub open spec fn unmarked(marks: Seq<bool>) -> nat
    decreases marks.len(),
{
    if marks.len() == 0 {
        0
    } else {
        unmarked(marks.drop_last()) + if marks.last() {
            0nat
        } else {
            1nat
        }
    }
}

/// Marking one more site leaves one site less unmarked.
proof fn lemma_unmarked_update(marks: Seq<bool>, i: int)
    requires
        0 <= i < marks.len(),
        !marks[i],
    ensures
        unmarked(marks.update(i, true)) + 1 == unmarked(marks),
    decreases marks.len(),
{
    let after = marks.update(i, true);
    if i == marks.len() - 1 {
        assert(after.drop_last() == marks.drop_last());
    } else {
        assert(after.drop_last() == marks.drop_last().update(i, true));
        lemma_unmarked_update(marks.drop_last(), i);
    }
}

/// A path that ends at `a` goes on to any candidate neighbour of `a`.
proof fn lemma_extend_path(
    rows: Seq<Seq<usize>>,
    candidate: Seq<bool>,
    seeds: Seq<usize>,
    a: int,
    b: int,
)
    requires
        connected_to_edge(rows, candidate, seeds, a),
        adjacent(rows, a, b),
        0 <= b < candidate.len(),
        candidate[b],
    ensures
        connected_to_edge(rows, candidate, seeds, b),
{
    let path = choose|path: Seq<int>| #[trigger]
        ocean_path(rows, candidate, seeds, path) && path.last() == a;
    let longer = path.push(b);
    assert(longer[0] == path[0]);
    assert forall|k: int| 0 <= k < longer.len() - 1 implies #[trigger] linked(rows, longer, k) by {
        if k < path.len() - 1 {
            assert(linked(rows, path, k));
        }
    }
    assert(ocean_path(rows, candidate, seeds, longer));
    assert(longer.last() == b);
}

/// A candidate seed is connected to the edge by the path that holds it alone.
proof fn lemma_seed_connected(rows: Seq<Seq<usize>>, candidate: Seq<bool>, seeds: Seq<usize>, s: int)
    requires
        0 <= s < seeds.len(),
        seeds[s] < candidate.len(),
        candidate[seeds[s] as int],
    ensures
        connected_to_edge(rows, candidate, seeds, seeds[s] as int),
{
    let path = seq![seeds[s] as int];
    assert(seeds[s] == path[0]);
    assert(ocean_path(rows, candidate, seeds, path));
    assert(path.last() == seeds[s] as int);
}

/// A set of marks that holds every candidate seed and is closed under stepping
/// to a candidate neighbour holds the end of every ocean path.
proof fn lemma_closed_marks_hold_path(
    rows: Seq<Seq<usize>>,
    candidate: Seq<bool>,
    seeds: Seq<usize>,
    marks: Seq<bool>,
    path: Seq<int>,
)
    requires
        marks.len() == candidate.len(),
        ocean_path(rows, candidate, seeds, path),
        forall|s: int|
            0 <= s < seeds.len() && (#[trigger] seeds[s]) < candidate.len() && candidate[seeds[s] as int]
                ==> marks[seeds[s] as int],
        forall|a: int, b: int|
            0 <= a < marks.len() && marks[a] && #[trigger] adjacent(rows, a, b) && 0 <= b
                < candidate.len() && candidate[b] ==> marks[b],
    ensures
        marks[path.last()],
    decreases path.len(),
{
    if path.len() == 1 {
        let s = choose|s: int| 0 <= s < seeds.len() && #[trigger] seeds[s] == path[0];
        assert(candidate[path[0]]);
    } else {
        let shorter = path.drop_last();
        assert(shorter[0] == path[0]);
        assert forall|k: int| 0 <= k < shorter.len() - 1 implies #[trigger] linked(
            rows,
            shorter,
            k,
        ) by {
            assert(linked(rows, path, k));
        }
        assert forall|k: int| 0 <= k < shorter.len() implies 0 <= #[trigger] shorter[k]
            < candidate.len() && candidate[shorter[k]] by {
            assert(shorter[k] == path[k]);
        }
        assert(ocean_path(rows, candidate, seeds, shorter));
        lemma_closed_marks_hold_path(rows, candidate, seeds, marks, shorter);
        let last = path.len() - 1;
        assert(linked(rows, path, last - 1));
        assert(shorter.last() == path[last - 1]);
        assert(candidate[path[last]]);
    }
}

/// The seeds of the search: every site index from `interior + 1` up to the
/// number of sites, the range in which the boundary sites lie.
pub fn boundary_start_index(interior: usize, site_count: usize) -> (seeds: Vec<usize>)
    ensures
        seeds@.len() == if interior < site_count {
            site_count - interior - 1
        } else {
            0
        },
        forall|k: int| 0 <= k < seeds@.len() ==> #[trigger] seeds@[k] == interior + 1 + k,
{
    let mut seeds: Vec<usize> = Vec::new();
    if interior >= site_count {
        return seeds;
    }
    let mut i: usize = interior + 1;
    while i < site_count
        invariant
            interior + 1 <= i <= site_count,
            seeds@.len() == i - interior - 1,
            forall|k: int| 0 <= k < seeds@.len() ==> #[trigger] seeds@[k] == interior + 1 + k,
        decreases site_count - i,
    {
        seeds.push(i);
        i = i + 1;
    }
    seeds
}

/// The boundary sites of `start_index` that are candidate oceans, in order.
fn candidate_seeds(base_is_outlet: &Vec<bool>, start_index: &Vec<usize>) -> (queue: Vec<usize>)
    requires
        forall|s: int|
            0 <= s < start_index@.len() ==> (#[trigger] start_index@[s]) < base_is_outlet@.len(),
    ensures
        forall|q: int|
            0 <= q < queue@.len() ==> (#[trigger] queue@[q]) < base_is_outlet@.len()
                && base_is_outlet@[queue@[q] as int] && queued(start_index@, queue@[q] as int),
        forall|t: int|
            0 <= t < start_index@.len() && base_is_outlet@[(#[trigger] start_index@[t]) as int]
                ==> queued(queue@, start_index@[t] as int),
{
    let mut queue: Vec<usize> = Vec::new();
    let mut s: usize = 0;
    while s < start_index.len()
        invariant
            s <= start_index@.len(),
            forall|t: int|
                0 <= t < start_index@.len() ==> (#[trigger] start_index@[t]) < base_is_outlet@.len(),
            forall|q: int|
                0 <= q < queue@.len() ==> (#[trigger] queue@[q]) < base_is_outlet@.len()
                    && base_is_outlet@[queue@[q] as int] && queued(start_index@, queue@[q] as int),
            forall|t: int|
                0 <= t < s && base_is_outlet@[(#[trigger] start_index@[t]) as int] ==> queued(
                    queue@,
                    start_index@[t] as int,
                ),
        decreases start_index@.len() - s,
    {
        let site = start_index[s];
        if base_is_outlet[site] {
            let ghost before = queue@;
            queue.push(site);
            proof {
                assert(queue@[before.len() as int] == site);
                assert forall|t: int|
                    0 <= t < s + 1 && base_is_outlet@[(
                    #[trigger] start_index@[t]) as int] implies queued(queue@, start_index@[t] as int) by {
                    if t < s {
                        let q = choose|q: int|
                            0 <= q < before.len() && #[trigger] before[q] == start_index@[t];
                        assert(queue@[q] == start_index@[t]);
                    }
                }
            }
        }
        s = s + 1;
    }
    queue
}

/// Every site in the worklist is a candidate ocean that is connected to the
/// edge.
pub open spec fn worklist_ok(
    rows: Seq<Seq<usize>>,
    candidate: Seq<bool>,
    seeds: Seq<usize>,
    queue: Seq<usize>,
) -> bool {
    forall|q: int|
        0 <= q < queue.len() ==> (#[trigger] queue[q]) < candidate.len() && candidate[queue[q] as int]
            && connected_to_edge(rows, candidate, seeds, queue[q] as int)
}

/// Every marked site is a candidate ocean that is connected to the edge.
pub open spec fn marks_sound(
    rows: Seq<Seq<usize>>,
    candidate: Seq<bool>,
    seeds: Seq<usize>,
    marks: Seq<bool>,
) -> bool {
    forall|i: int|
        0 <= i < marks.len() && #[trigger] marks[i] ==> candidate[i] && connected_to_edge(
            rows,
            candidate,
            seeds,
            i,
        )
}

/// Every candidate seed is marked or waits in the worklist.
pub open spec fn seeds_covered(
    candidate: Seq<bool>,
    seeds: Seq<usize>,
    marks: Seq<bool>,
    queue: Seq<usize>,
) -> bool {
    forall|t: int|
        0 <= t < seeds.len() && (#[trigger] seeds[t]) < candidate.len() && candidate[seeds[t] as int]
            ==> marks[seeds[t] as int] || queued(queue, seeds[t] as int)
}

/// The first `upto` neighbours of `a` that are candidate oceans are marked or
/// wait in the worklist.
pub open spec fn row_covered(
    rows: Seq<Seq<usize>>,
    candidate: Seq<bool>,
    marks: Seq<bool>,
    queue: Seq<usize>,
    a: int,
    upto: int,
) -> bool {
    forall|k: int|
        0 <= k < upto && (#[trigger] rows[a][k]) < candidate.len() && candidate[rows[a][k] as int] ==> marks[rows[a][k] as int]
            || queued(queue, rows[a][k] as int)
}

/// The candidate neighbours of every marked site are marked or wait in the
/// worklist.
pub open spec fn marks_covered(
    rows: Seq<Seq<usize>>,
    candidate: Seq<bool>,
    marks: Seq<bool>,
    queue: Seq<usize>,
) -> bool {
    forall|a: int|
        0 <= a < marks.len() && #[trigger] marks[a] ==> row_covered(
            rows,
            candidate,
            marks,
            queue,
            a,
            rows[a].len() as int,
        )
}

/// What holds of the search between two visits.
pub open spec fn search_ok(
    rows: Seq<Seq<usize>>,
    candidate: Seq<bool>,
    seeds: Seq<usize>,
    marks: Seq<bool>,
    queue: Seq<usize>,
) -> bool {
    &&& rows.len() == candidate.len()
    &&& marks.len() == candidate.len()
    &&& worklist_ok(rows, candidate, seeds, queue)
    &&& marks_sound(rows, candidate, seeds, marks)
    &&& seeds_covered(candidate, seeds, marks, queue)
    &&& marks_covered(rows, candidate, marks, queue)
}

/// A worklist that has only grown still holds what it held.
proof fn lemma_covered_by_more(
    rows: Seq<Seq<usize>>,
    candidate: Seq<bool>,
    seeds: Seq<usize>,
    marks_before: Seq<bool>,
    queue_before: Seq<usize>,
    marks: Seq<bool>,
    queue: Seq<usize>,
)
    requires
        marks.len() == marks_before.len(),
        marks.len() == candidate.len(),
        forall|i: int| 0 <= i < marks.len() && marks_before[i] ==> marks[i],
        forall|x: int|
            queued(queue_before, x) ==> queued(queue, x) || (0 <= x < marks.len() && marks[x]),
    ensures
        seeds_covered(candidate, seeds, marks_before, queue_before) ==> seeds_covered(
            candidate,
            seeds,
            marks,
            queue,
        ),
        forall|a: int, upto: int|
            0 <= a < marks.len() && 0 <= upto <= rows[a].len() && #[trigger] row_covered(
                rows,
                candidate,
                marks_before,
                queue_before,
                a,
                upto,
            ) ==> row_covered(rows, candidate, marks, queue, a, upto),
{
    if seeds_covered(candidate, seeds, marks_before, queue_before) {
        assert forall|t: int|
            0 <= t < seeds.len() && (#[trigger] seeds[t]) < candidate.len() && candidate[seeds[t] as int] implies marks[seeds[t] as int]
            || queued(queue, seeds[t] as int) by {
            let x = seeds[t] as int;
            if !marks_before[x] {
                assert(queued(queue_before, x));
            }
        }
    }
    assert forall|a: int, upto: int|
        0 <= a < marks.len() && 0 <= upto <= rows[a].len() && #[trigger] row_covered(
            rows,
            candidate,
            marks_before,
            queue_before,
            a,
            upto,
        ) implies row_covered(rows, candidate, marks, queue, a, upto) by {
        assert forall|k: int|
            0 <= k < upto && (#[trigger] rows[a][k]) < candidate.len() && candidate[rows[a][k] as int] implies marks[rows[a][k] as int]
            || queued(queue, rows[a][k] as int) by {
            let x = rows[a][k] as int;
            if !marks_before[x] {
                assert(queued(queue_before, x));
            }
        }
    }
}

/// Takes one site from the worklist. If it is not marked yet, marks it and
/// puts its candidate neighbours that are not marked on the worklist.
fn visit(
    graph: &EdgeAttributedUndirectedGraph<i64>,
    base_is_outlet: &Vec<bool>,
    outlets: &mut Vec<bool>,
    queue: &mut Vec<usize>,
    Ghost(seeds): Ghost<Seq<usize>>,
)
    requires
        old(queue)@.len() > 0,
        search_ok(adjacency(*graph), base_is_outlet@, seeds, old(outlets)@, old(queue)@),
    ensures
        search_ok(adjacency(*graph), base_is_outlet@, seeds, final(outlets)@, final(queue)@),
        unmarked(final(outlets)@) < unmarked(old(outlets)@) || (unmarked(final(outlets)@) == unmarked(
            old(outlets)@,
        ) && final(queue)@.len() < old(queue)@.len()),
{
    let ghost rows = adjacency(*graph);
    let ghost candidate = base_is_outlet@;
    let ghost queue_before = queue@;
    let ghost marks_before = outlets@;
    let i = queue.pop().unwrap();
    proof {
        assert(queue_before[queue_before.len() - 1] == i);
        assert forall|x: int| queued(queue_before, x) && x != i implies queued(queue@, x) by {
            let q = choose|q: int| 0 <= q < queue_before.len() && #[trigger] queue_before[q] == x;
            assert(queue@[q] == x);
        }
        assert(worklist_ok(rows, candidate, seeds, queue@)) by {
            assert forall|q: int| 0 <= q < queue@.len() implies (#[trigger] queue@[q]) < candidate.len()
                && candidate[queue@[q] as int] && connected_to_edge(
                rows,
                candidate,
                seeds,
                queue@[q] as int,
            ) by {
                assert(queue@[q] == queue_before[q]);
            }
        }
    }
    if outlets[i] {
        proof {
            lemma_covered_by_more(
                rows,
                candidate,
                seeds,
                marks_before,
                queue_before,
                outlets@,
                queue@,
            );
        }
        return ;
    }
    outlets[i] = true;
    let ghost marks = outlets@;
    let ghost queue_middle = queue@;
    proof {
        lemma_unmarked_update(marks_before, i as int);
        lemma_covered_by_more(rows, candidate, seeds, marks_before, queue_before, marks, queue_middle);
    }
    let row = neighbors_of(graph, i);
    let mut k: usize = 0;
    while k < row.len()
        invariant
            k <= row@.len(),
            row@ == rows[i as int],
            i < candidate.len(),
            rows.len() == candidate.len(),
            candidate == base_is_outlet@,
            outlets@ == marks,
            marks.len() == candidate.len(),
            marks[i as int],
            connected_to_edge(rows, candidate, seeds, i as int),
            worklist_ok(rows, candidate, seeds, queue@),
            forall|x: int| queued(queue_middle, x) ==> queued(queue@, x),
            row_covered(rows, candidate, marks, queue@, i as int, k as int),
        decreases row@.len() - k,
    {
        let j = row[k];
        let ghost queue_inner = queue@;
        if j < outlets.len() && !outlets[j] && base_is_outlet[j] {
            queue.push(j);
            proof {
                assert(adjacent(rows, i as int, j as int));
                lemma_extend_path(rows, candidate, seeds, i as int, j as int);
                assert(queue@[queue_inner.len() as int] == j);
                assert forall|q: int| 0 <= q < queue@.len() implies (#[trigger] queue@[q])
                    < candidate.len() && candidate[queue@[q] as int] && connected_to_edge(
                    rows,
                    candidate,
                    seeds,
                    queue@[q] as int,
                ) by {
                    if q < queue_inner.len() {
                        assert(queue@[q] == queue_inner[q]);
                    }
                }
            }
        }
        proof {
            assert forall|x: int| queued(queue_inner, x) implies queued(queue@, x) by {
                let q = choose|q: int| 0 <= q < queue_inner.len() && #[trigger] queue_inner[q] == x;
                assert(queue@[q] == x);
            }
            assert forall|n: int|
                0 <= n < k + 1 && (#[trigger] rows[i as int][n]) < candidate.len() && candidate[rows[i as int][n] as int] implies marks[rows[i as int][n] as int]
                || queued(queue@, rows[i as int][n] as int) by {
                let x = rows[i as int][n] as int;
                if n < k {
                    if !marks[x] {
                        assert(queued(queue_inner, x));
                    }
                } else {
                    if !marks[x] {
                        assert(queue@[queue_inner.len() as int] == j);
                    }
                }
            }
        }
        k = k + 1;
    }
    proof {
        lemma_covered_by_more(rows, candidate, seeds, marks, queue_middle, marks, queue@);
        assert(marks_sound(rows, candidate, seeds, marks)) by {
            assert forall|a: int| 0 <= a < marks.len() && #[trigger] marks[a] implies candidate[a]
                && connected_to_edge(rows, candidate, seeds, a) by {
                if a != i {
                    assert(marks_before[a]);
                }
            }
        }
        assert(marks_covered(rows, candidate, marks, queue@)) by {
            assert forall|a: int| 0 <= a < marks.len() && #[trigger] marks[a] implies row_covered(
                rows,
                candidate,
                marks,
                queue@,
                a,
                rows[a].len() as int,
            ) by {
                if a != i {
                    assert(marks_before[a]);
                    assert(row_covered(
                        rows,
                        candidate,
                        marks_before,
                        queue_before,
                        a,
                        rows[a].len() as int,
                    ));
                    assert(row_covered(
                        rows,
                        candidate,
                        marks,
                        queue_middle,
                        a,
                        rows[a].len() as int,
                    ));
                }
            }
        }
    }
}

/// When the worklist is empty, exactly the sites that are connected to the
/// edge are marked.
proof fn lemma_search_done(
    rows: Seq<Seq<usize>>,
    candidate: Seq<bool>,
    seeds: Seq<usize>,
    marks: Seq<bool>,
    queue: Seq<usize>,
)
    requires
        search_ok(rows, candidate, seeds, marks, queue),
        queue.len() == 0,
    ensures
        forall|i: int|
            0 <= i < marks.len() ==> (#[trigger] marks[i] <==> connected_to_edge(
                rows,
                candidate,
                seeds,
                i,
            )),
{
    assert forall|a: int, b: int|
        0 <= a < marks.len() && marks[a] && #[trigger] adjacent(rows, a, b) && 0 <= b
            < candidate.len() && candidate[b] implies marks[b] by {
        let k = choose|k: int|
            0 <= k < rows[a].len() && #[trigger] rows[a][k] == b;
        assert(row_covered(rows, candidate, marks, queue, a, rows[a].len() as int));
        assert(!queued(queue, b));
    }
    assert forall|s: int|
        0 <= s < seeds.len() && (#[trigger] seeds[s]) < candidate.len() && candidate[seeds[s] as int] implies marks[seeds[s] as int] by {
        assert(!queued(queue, seeds[s] as int));
    }
    assert forall|i: int| 0 <= i < marks.len() implies (#[trigger] marks[i] <==> connected_to_edge(
        rows,
        candidate,
        seeds,
        i,
    )) by {
        if connected_to_edge(rows, candidate, seeds, i) {
            let path = choose|path: Seq<int>| #[trigger]
                ocean_path(rows, candidate, seeds, path) && path.last() == i;
            lemma_closed_marks_hold_path(rows, candidate, seeds, marks, path);
        }
    }
}

/// The lists do not fit the graph: the number of sites, the number of flags
/// and the number of adjacency lists differ, or a start is no site.
pub open spec fn misfit(
    rows: Seq<Seq<usize>>,
    site_count: usize,
    candidate: Seq<bool>,
    seeds: Seq<usize>,
) -> bool {
    ||| rows.len() != site_count
    ||| candidate.len() != site_count
    ||| exists|s: int| 0 <= s < seeds.len() && (#[trigger] seeds[s]) >= site_count
}

/// Whether every start is a site.
fn starts_in_range(start_index: &Vec<usize>, site_count: usize) -> (fits: bool)
    ensures
        fits <==> forall|s: int| 0 <= s < start_index@.len() ==> (#[trigger] start_index@[s]) < site_count,
{
    let mut s: usize = 0;
    while s < start_index.len()
        invariant
            s <= start_index@.len(),
            forall|t: int| 0 <= t < s ==> (#[trigger] start_index@[t]) < site_count,
        decreases start_index@.len() - s,
    {
        if start_index[s] >= site_count {
            return false;
        }
        s = s + 1;
    }
    true
}

/// Marks the sites that are connected to the map edge through candidate oceans.
///
/// `base_is_outlet` flags the candidate oceans and `start_index` lists the
/// boundary sites. The search starts at the boundary sites that are candidates
/// and only ever steps onto a candidate. Without any such start there is no
/// outlet at all and the result is `NoReachableOutlet`. Lists that do not fit
/// the graph are refused as `InvalidRasterDimensions`.
pub fn determine_outlets(
    site_count: usize,
    base_is_outlet: &Vec<bool>,
    start_index: &Vec<usize>,
    graph: &EdgeAttributedUndirectedGraph<i64>,
) -> (result: Result<Vec<bool>, TerrainError>)
    ensures
        result == Err::<Vec<bool>, TerrainError>(TerrainError::InvalidRasterDimensions) <==> misfit(
            adjacency(*graph),
            site_count,
            base_is_outlet@,
            start_index@,
        ),
        result == Err::<Vec<bool>, TerrainError>(TerrainError::NoReachableOutlet) <==> (!misfit(
            adjacency(*graph),
            site_count,
            base_is_outlet@,
            start_index@,
        ) && !has_ocean_seed(base_is_outlet@, start_index@)),
        result is Ok <==> (!misfit(adjacency(*graph), site_count, base_is_outlet@, start_index@)
            && has_ocean_seed(base_is_outlet@, start_index@)),
        result is Ok ==> result->Ok_0@.len() == site_count,
        result is Ok ==> result->Ok_0@.contains(true),
        result is Ok ==> forall|i: int|
            0 <= i < site_count && #[trigger] result->Ok_0@[i] ==> base_is_outlet@[i],
        result is Ok ==> forall|i: int|
            0 <= i < site_count ==> (#[trigger] result->Ok_0@[i] <==> connected_to_edge(
                adjacency(*graph),
                base_is_outlet@,
                start_index@,
                i,
            )),
{
    let ghost rows = adjacency(*graph);
    let ghost candidate = base_is_outlet@;
    let ghost seeds = start_index@;
    if order_of(graph) != site_count || base_is_outlet.len() != site_count || !starts_in_range(
        start_index,
        site_count,
    ) {
        return Err(TerrainError::InvalidRasterDimensions);
    }
    let mut queue = candidate_seeds(base_is_outlet, start_index);
    if queue.len() == 0 {
        proof {
            if has_ocean_seed(candidate, seeds) {
                let t = choose|t: int|
                    0 <= t < seeds.len() && (#[trigger] seeds[t]) < candidate.len() && candidate[seeds[t] as int];
                assert(queued(queue@, seeds[t] as int));
            }
        }
        return Err(TerrainError::NoReachableOutlet);
    }
    let ghost witness: int;
    proof {
        let first = queue@[0];
        let t = choose|t: int| 0 <= t < seeds.len() && #[trigger] seeds[t] == first;
        witness = t;
        assert(candidate[seeds[t] as int]);
        assert(has_ocean_seed(candidate, seeds));
        assert forall|q: int| 0 <= q < queue@.len() implies (#[trigger] queue@[q]) < candidate.len()
            && candidate[queue@[q] as int] && connected_to_edge(
            rows,
            candidate,
            seeds,
            queue@[q] as int,
        ) by {
            let s = choose|s: int| 0 <= s < seeds.len() && #[trigger] seeds[s] == queue@[q];
            lemma_seed_connected(rows, candidate, seeds, s);
        }
    }
    let mut outlets: Vec<bool> = Vec::new();
    let mut n: usize = 0;
    while n < site_count
        invariant
            n <= site_count,
            outlets@.len() == n,
            forall|i: int| 0 <= i < n ==> !(#[trigger] outlets@[i]),
        decreases site_count - n,
    {
        outlets.push(false);
        n = n + 1;
    }
    assert(search_ok(rows, candidate, seeds, outlets@, queue@));
    while queue.len() > 0
        invariant
            search_ok(adjacency(*graph), base_is_outlet@, seeds, outlets@, queue@),
        decreases unmarked(outlets@), queue@.len(),
    {
        visit(graph, base_is_outlet, &mut outlets, &mut queue, Ghost(seeds));
    }
    proof {
        lemma_search_done(rows, candidate, seeds, outlets@, queue@);
        lemma_seed_connected(rows, candidate, seeds, witness);
        assert(outlets@[seeds[witness] as int] == true);
        assert(outlets@.contains(true));
    }
    Ok(outlets)
}

} // verus!
