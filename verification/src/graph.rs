//! The dependency graph: topological ordering and cycle detection over
//! the dependency relation among beads.
//!
//! The core works on an index-level adjacency list; `deps[a]` holds the
//! indices of the nodes that node `a` depends on. Either a topological
//! order of all nodes is produced, in which every node stands after all
//! of its dependencies, or a concrete dependency cycle is returned. The
//! two witnesses exclude each other, so the result is determined by the
//! graph alone.

use vstd::prelude::*;
use vstd::seq_lib::group_seq_properties;
use vstd::set_lib::{lemma_int_range, lemma_len_subset, set_int_range};

use crate::bead::{seq_contains_id, Bead, BeadId};
use crate::error::RigsError;

verus! {

/// Every listed dependency points at a node of the graph.
pub open spec fn graph_wf(deps: Seq<Vec<usize>>) -> bool {
    forall|a: int, j: int|
        0 <= a < deps.len() && 0 <= j < deps[a]@.len() ==> (#[trigger] deps[a]@[j]) < deps.len()
}

/// Node `a` lists node `b` among its dependencies.
pub open spec fn has_dep(deps: Seq<Vec<usize>>, a: int, b: int) -> bool {
    exists|j: int| 0 <= j < deps[a]@.len() && deps[a]@[j] == b
}

/// `ord` is a topological order of the whole graph: it contains every
/// node exactly once, and no member depends on itself or on any member
/// that stands at the same or a later position — so every node stands
/// after all of its dependencies.
pub open spec fn spec_topo_ok(deps: Seq<Vec<usize>>, ord: Seq<usize>) -> bool {
    &&& ord.len() == deps.len()
    &&& ord.no_duplicates()
    &&& forall|v: usize| (v as int) < deps.len() ==> ord.contains(v)
    &&& forall|k: int, m: int|
        0 <= k <= m < ord.len() ==> !has_dep(deps, ord[k] as int, ord[m] as int)
}

/// `c` is a dependency cycle: every member depends on the next, and the
/// last depends on the first.
pub open spec fn spec_index_cycle(deps: Seq<Vec<usize>>, c: Seq<usize>) -> bool {
    &&& c.len() >= 1
    &&& forall|k: int| 0 <= k < c.len() ==> (#[trigger] c[k]) < deps.len()
    &&& forall|k: int|
        0 <= k < c.len() ==> has_dep(
            deps,
            (#[trigger] c[k]) as int,
            c[if k + 1 == c.len() {
                0int
            } else {
                k + 1
            }] as int,
        )
}

/// A duplicate-free sequence of values below `n` has at most `n`
/// elements.
proof fn lemma_distinct_below(s: Seq<usize>, n: nat)
    requires
        s.no_duplicates(),
        forall|i: int| 0 <= i < s.len() ==> (#[trigger] s[i]) < n,
    ensures
        s.len() <= n,
{
    broadcast use group_seq_properties;

    let si = s.map_values(|v: usize| v as int);
    assert(si.no_duplicates());
    si.unique_seq_to_set();
    assert forall|x: int| si.to_set().contains(x) implies set_int_range(0, n as int).contains(
        x,
    ) by {
        assert(si.contains(x));
        let i = choose|i: int| 0 <= i < si.len() && si[i] == x;
        assert(s[i] < n);
    }
    assert(si.to_set().subset_of(set_int_range(0, n as int)));
    lemma_int_range(0, n as int);
    lemma_len_subset(si.to_set(), set_int_range(0, n as int));
}

/// A duplicate-free sequence of values below `n` that avoids one value
/// below `n` has at most `n - 1` elements.
proof fn lemma_distinct_below_excluding(s: Seq<usize>, n: nat, v: int)
    requires
        s.no_duplicates(),
        forall|i: int| 0 <= i < s.len() ==> (#[trigger] s[i]) < n,
        0 <= v < n,
        forall|i: int| 0 <= i < s.len() ==> (#[trigger] s[i]) != v,
    ensures
        s.len() <= n - 1,
{
    broadcast use group_seq_properties;

    let si = s.map_values(|x: usize| x as int);
    assert(si.no_duplicates());
    si.unique_seq_to_set();
    let range_minus = set_int_range(0, n as int).remove(v);
    assert forall|x: int| si.to_set().contains(x) implies range_minus.contains(x) by {
        assert(si.contains(x));
        let i = choose|i: int| 0 <= i < si.len() && si[i] == x;
        assert(s[i] < n && s[i] != v);
    }
    assert(si.to_set().subset_of(range_minus));
    lemma_int_range(0, n as int);
    assert(set_int_range(0, n as int).contains(v));
    assert(range_minus.len() == n - 1);
    lemma_len_subset(si.to_set(), range_minus);
}

/// A sequence that contains every value below `n` has at least `n`
/// elements.
proof fn lemma_covers_length(s: Seq<usize>, n: nat)
    requires
        n <= usize::MAX,
        forall|v: usize| (v as int) < n ==> s.contains(v),
    ensures
        s.len() >= n,
{
    broadcast use group_seq_properties;

    let si = s.map_values(|v: usize| v as int);
    assert forall|x: int| set_int_range(0, n as int).contains(x) implies si.to_set().contains(
        x,
    ) by {
        assert(s.contains(x as usize));
        let m = choose|m: int| 0 <= m < s.len() && s[m] == x as usize;
        assert(si[m] == x);
        assert(si.contains(x));
    }
    assert(set_int_range(0, n as int).subset_of(si.to_set()));
    lemma_int_range(0, n as int);
    si.lemma_cardinality_of_set();
    lemma_len_subset(set_int_range(0, n as int), si.to_set());
}

/// Are all of node `v`'s dependencies already processed?
fn all_deps_processed(deps: &Vec<Vec<usize>>, processed: &Vec<bool>, v: usize) -> (r: bool)
    requires
        v < deps@.len(),
        processed@.len() == deps@.len(),
        graph_wf(deps@),
    ensures
        r == forall|j: int|
            0 <= j < deps@[v as int]@.len() ==> processed@[(#[trigger] deps@[v as int]@[j]) as int],
{
    let row = &deps[v];
    let mut j: usize = 0;
    while j < row.len()
        invariant
            row == deps@[v as int],
            v < deps@.len(),
            processed@.len() == deps@.len(),
            graph_wf(deps@),
            j <= row@.len(),
            forall|t: int| 0 <= t < j ==> processed@[(#[trigger] row@[t]) as int],
        decreases row@.len() - j,
    {
        if !processed[row[j]] {
            return false;
        }
        j += 1;
    }
    true
}

/// Find the position of `x` in `s`, if present.
fn position_of(s: &Vec<usize>, x: usize) -> (r: Option<usize>)
    ensures
        r matches Some(p) ==> p < s@.len() && s@[p as int] == x,
        r is None ==> forall|t: int| 0 <= t < s@.len() ==> s@[t] != x,
{
    let mut t: usize = 0;
    while t < s.len()
        invariant
            t <= s@.len(),
            forall|q: int| 0 <= q < t ==> s@[q] != x,
        decreases s@.len() - t,
    {
        if s[t] == x {
            return Some(t);
        }
        t += 1;
    }
    None
}

/// Walk unprocessed dependencies from an unprocessed start node until a
/// node repeats, which closes a cycle. Callable exactly when some node is
/// unprocessed and every unprocessed node has an unprocessed dependency.
#[verifier::rlimit(100)]
#[verifier::spinoff_prover]
fn find_cycle(deps: &Vec<Vec<usize>>, processed: &Vec<bool>) -> (r: Vec<usize>)
    requires
        graph_wf(deps@),
        processed@.len() == deps@.len(),
        exists|w: int| 0 <= w < deps@.len() && !processed@[w],
        forall|w: int|
            0 <= w < deps@.len() && !(#[trigger] processed@[w]) ==> exists|j: int|
                0 <= j < deps@[w]@.len() && !processed@[(deps@[w]@[j]) as int],
    ensures
        spec_index_cycle(deps@, r@),
{
    let n = deps.len();
    let mut start: Option<usize> = None;
    let mut s: usize = 0;
    while s < n
        invariant
            n == deps@.len(),
            processed@.len() == n,
            s <= n,
            start is None ==> forall|w: int| 0 <= w < s ==> processed@[w],
            start matches Some(u) ==> u < n && !processed@[u as int],
        decreases n - s,
    {
        if start.is_none() && !processed[s] {
            start = Some(s);
        }
        s += 1;
    }
    let mut cur: usize;
    match start {
        Some(u) => {
            cur = u;
        },
        None => {
            // unreachable: some node is unprocessed
            proof {
                let w = choose|w: int| 0 <= w < deps@.len() && !processed@[w];
                assert(processed@[w]);
            }
            cur = 0;
            proof {
                assert(false);
            }
        },
    }
    let mut path: Vec<usize> = Vec::new();
    let mut t: usize = 0;
    while t <= n
        invariant
            n == deps@.len(),
            graph_wf(deps@),
            processed@.len() == n,
            t == path@.len(),
            cur < n,
            !processed@[cur as int],
            path@.no_duplicates(),
            forall|q: int| 0 <= q < path@.len() ==> (#[trigger] path@[q]) < n,
            forall|q: int| 0 <= q < path@.len() ==> !processed@[(#[trigger] path@[q]) as int],
            forall|q: int|
                0 <= q < path@.len() - 1 ==> has_dep(
                    deps@,
                    (#[trigger] path@[q]) as int,
                    path@[q + 1] as int,
                ),
            path@.len() > 0 ==> has_dep(deps@, path@[path@.len() - 1] as int, cur as int),
            forall|w: int|
                0 <= w < n && !(#[trigger] processed@[w]) ==> exists|j: int|
                    0 <= j < deps@[w]@.len() && !processed@[(deps@[w]@[j]) as int],
        decreases n + 1 - t,
    {
        match position_of(&path, cur) {
            Some(p) => {
                let mut cycle: Vec<usize> = Vec::new();
                let mut q: usize = p;
                while q < path.len()
                    invariant
                        p <= q <= path@.len(),
                        cycle@ =~= path@.subrange(p as int, q as int),
                    decreases path@.len() - q,
                {
                    cycle.push(path[q]);
                    q += 1;
                }
                proof {
                    assert(cycle@ =~= path@.subrange(p as int, path@.len() as int));
                    let c = cycle@;
                    let len = c.len();
                    assert(len >= 1);
                    assert(c[0] == path@[p as int]);
                    assert(path@[p as int] == cur);
                    assert(c[len - 1] == path@[path@.len() - 1]);
                    assert forall|k: int|
                        0 <= k < len implies has_dep(
                        deps@,
                        (#[trigger] c[k]) as int,
                        c[if k + 1 == len {
                            0int
                        } else {
                            k + 1
                        }] as int,
                    ) by {
                        if k + 1 < len {
                            assert(c[k] == path@[p + k]);
                            assert(c[k + 1] == path@[p + k + 1]);
                            assert(has_dep(deps@, path@[p + k] as int, path@[p + k + 1] as int));
                        } else {
                            assert(c[k] == path@[path@.len() - 1]);
                            assert(has_dep(deps@, path@[path@.len() - 1] as int, cur as int));
                        }
                    }
                }
                return cycle;
            },
            None => {
                path.push(cur);
                // find an unprocessed dependency of cur; one exists
                // because every unprocessed node has one
                let row = &deps[cur];
                let mut found: Option<usize> = None;
                let mut j: usize = 0;
                while j < row.len()
                    invariant
                        row == deps@[cur as int],
                        cur < n,
                        n == deps@.len(),
                        graph_wf(deps@),
                        processed@.len() == n,
                        j <= row@.len(),
                        found is None ==> forall|q: int|
                            0 <= q < j ==> processed@[(#[trigger] row@[q]) as int],
                        found matches Some(d) ==> d < n && !processed@[d as int] && has_dep(
                            deps@,
                            cur as int,
                            d as int,
                        ),
                    decreases row@.len() - j,
                {
                    if found.is_none() && !processed[row[j]] {
                        found = Some(row[j]);
                    }
                    j += 1;
                }
                match found {
                    Some(d) => {
                        cur = d;
                    },
                    None => {
                        // unreachable: cur is unprocessed, so it has an
                        // unprocessed dependency
                        proof {
                            let jj = choose|q: int|
                                0 <= q < deps@[cur as int]@.len() && !processed@[
                                    (deps@[cur as int]@[q]) as int
                                ];
                            assert(processed@[(row@[jj]) as int]);
                            assert(false);
                        }
                    },
                }
                proof {
                    // the path stays within the n distinct unprocessed
                    // nodes, so the step counter cannot overflow
                    lemma_distinct_below(path@, n as nat);
                }
            },
        }
        t += 1;
    }
    // unreachable: the path would hold more than n distinct nodes
    proof {
        lemma_distinct_below(path@, n as nat);
        assert(false);
    }
    Vec::new()
}

/// Order the nodes so that every node stands after all of its
/// dependencies, or return a dependency cycle. The two outcomes exclude
/// each other, so which one is returned is determined by the graph.
pub fn topo_order(deps: &Vec<Vec<usize>>) -> (r: Result<Vec<usize>, Vec<usize>>)
    requires
        graph_wf(deps@),
    ensures
        r matches Ok(ord) ==> spec_topo_ok(deps@, ord@),
        r matches Err(c) ==> spec_index_cycle(deps@, c@),
{
    let n = deps.len();
    let mut processed: Vec<bool> = Vec::new();
    let mut z: usize = 0;
    while z < n
        invariant
            z <= n,
            processed@.len() == z,
            forall|v: int| 0 <= v < z ==> !(#[trigger] processed@[v]),
        decreases n - z,
    {
        processed.push(false);
        z += 1;
    }
    let mut ord: Vec<usize> = Vec::new();
    while ord.len() < n
        invariant
            n == deps@.len(),
            graph_wf(deps@),
            processed@.len() == n,
            ord@.len() <= n,
            ord@.no_duplicates(),
            forall|m: int| 0 <= m < ord@.len() ==> (#[trigger] ord@[m]) < n,
            forall|v: int| 0 <= v < n ==> ((#[trigger] processed@[v]) <==> ord@.contains(v as usize)),
            forall|k: int, j: int|
                #![trigger deps@[ord@[k] as int]@[j]]
                0 <= k < ord@.len() && 0 <= j < deps@[ord@[k] as int]@.len() ==> processed@[
                    (deps@[ord@[k] as int]@[j]) as int
                ],
            forall|k: int, m: int|
                0 <= k <= m < ord@.len() ==> !has_dep(deps@, ord@[k] as int, ord@[m] as int),
        decreases n - ord.len(),
    {
        // One pass: find a node that is not processed but whose
        // dependencies all are.
        let mut cand: Option<usize> = None;
        let mut v: usize = 0;
        while v < n
            invariant
                n == deps@.len(),
                graph_wf(deps@),
                processed@.len() == n,
                v <= n,
                cand is None ==> forall|w: int|
                    0 <= w < v ==> (processed@[w] || exists|j: int|
                        0 <= j < deps@[w]@.len() && !processed@[(#[trigger] deps@[w]@[j]) as int]),
                cand matches Some(c) ==> c < n && !processed@[c as int] && forall|j: int|
                    0 <= j < deps@[c as int]@.len() ==> processed@[
                        (#[trigger] deps@[c as int]@[j]) as int
                    ],
            decreases n - v,
        {
            if cand.is_none() && !processed[v] {
                if all_deps_processed(deps, &processed, v) {
                    cand = Some(v);
                }
            }
            v += 1;
        }
        match cand {
            Some(c) => {
                let ghost old_ord = ord@;
                let ghost old_proc = processed@;
                ord.push(c);
                processed[c] = true;
                proof {
                    assert(ord@ =~= old_ord.push(c));
                    assert(processed@ =~= old_proc.update(c as int, true));
                    assert forall|w: int|
                        0 <= w < n implies ((#[trigger] processed@[w]) <==> ord@.contains(
                        w as usize,
                    )) by {
                        if w == c as int {
                            assert(ord@[ord@.len() - 1] == c);
                            assert(ord@.contains(w as usize));
                        } else {
                            assert(processed@[w] == old_proc[w]);
                            if old_proc[w] {
                                assert(old_ord.contains(w as usize));
                                let m = choose|m: int|
                                    0 <= m < old_ord.len() && old_ord[m] == w as usize;
                                assert(ord@[m] == w as usize);
                                assert(ord@.contains(w as usize));
                            }
                            if ord@.contains(w as usize) {
                                let m = choose|m: int|
                                    0 <= m < ord@.len() && ord@[m] == w as usize;
                                assert(m < old_ord.len());
                                assert(old_ord[m] == w as usize);
                                assert(old_ord.contains(w as usize));
                            }
                        }
                    }
                    assert forall|k: int, j: int|
                        #![trigger deps@[ord@[k] as int]@[j]]
                        0 <= k < ord@.len() && 0 <= j < deps@[ord@[k] as int]@.len()
                            implies processed@[(deps@[ord@[k] as int]@[j]) as int] by {
                        let d = deps@[ord@[k] as int]@[j];
                        if k < ord@.len() - 1 {
                            assert(ord@[k] == old_ord[k]);
                            assert(deps@[old_ord[k] as int]@[j] == d);
                            assert(old_proc[d as int]);
                        } else {
                            assert(ord@[k] == c);
                            assert(old_proc[d as int]);
                        }
                        assert(processed@[d as int]);
                    }
                    assert forall|k: int, m: int|
                        0 <= k <= m < ord@.len() implies !has_dep(
                        deps@,
                        ord@[k] as int,
                        ord@[m] as int,
                    ) by {
                        if m < ord@.len() - 1 {
                            assert(ord@[k] == old_ord[k] && ord@[m] == old_ord[m]);
                            assert(!has_dep(deps@, old_ord[k] as int, old_ord[m] as int));
                        } else {
                            assert(ord@[m] == c);
                            if has_dep(deps@, ord@[k] as int, c as int) {
                                let j = choose|j: int|
                                    0 <= j < deps@[ord@[k] as int]@.len() && deps@[
                                        ord@[k] as int
                                    ]@[j] == c as int;
                                if k < ord@.len() - 1 {
                                    assert(ord@[k] == old_ord[k]);
                                    assert(deps@[old_ord[k] as int]@[j] == c);
                                    assert(old_proc[c as int]);
                                } else {
                                    assert(ord@[k] == c);
                                    assert(deps@[c as int]@[j] == c);
                                    assert(old_proc[c as int]);
                                }
                                assert(false);
                            }
                        }
                    }
                }
            },
            None => {
                // Every unprocessed node has an unprocessed dependency:
                // some node is unprocessed, so a cycle must exist.
                proof {
                    if forall|w: int| 0 <= w < n ==> #[trigger] processed@[w] {
                        assert forall|w: usize| (w as int) < n implies ord@.contains(w) by {
                            assert(processed@[w as int]);
                        }
                        lemma_covers_length(ord@, n as nat);
                    }
                }
                let cycle = find_cycle(deps, &processed);
                return Err(cycle);
            },
        }
    }
    proof {
        assert forall|v: usize| (v as int) < n implies ord@.contains(v) by {
            if !processed@[v as int] {
                // then v never entered the order, yet the order holds n
                // distinct values below n that all avoid v
                assert forall|i: int| 0 <= i < ord@.len() implies (#[trigger] ord@[i])
                    != v by {
                    if ord@[i] == v {
                        assert(ord@.contains(v));
                        assert(processed@[v as int]);
                    }
                }
                lemma_distinct_below_excluding(ord@, n as nat, v as int);
                assert(false);
            }
        }
    }
    Ok(ord)
}


/// The position of node `v` in the order `ord`, assuming it occurs.
pub open spec fn ord_pos(ord: Seq<usize>, v: usize) -> int {
    choose|m: int| 0 <= m < ord.len() && ord[m] == v
}

/// Around a cycle, positions in a topological order strictly decrease:
/// the position of the first member exceeds the position of member `k`.
proof fn lemma_cycle_pos_decreases(deps: Seq<Vec<usize>>, ord: Seq<usize>, c: Seq<usize>, k: int)
    requires
        spec_topo_ok(deps, ord),
        spec_index_cycle(deps, c),
        1 <= k < c.len(),
    ensures
        0 <= ord_pos(ord, c[k]) < ord.len(),
        ord[ord_pos(ord, c[k])] == c[k],
        ord_pos(ord, c[0]) > ord_pos(ord, c[k]),
    decreases k,
{
    assert(ord.contains(c[k]));
    assert(ord.contains(c[k - 1]));
    let p = ord_pos(ord, c[k - 1]);
    let q = ord_pos(ord, c[k]);
    assert(0 <= p < ord.len() && ord[p] == c[k - 1]);
    assert(0 <= q < ord.len() && ord[q] == c[k]);
    assert(has_dep(deps, c[k - 1] as int, c[k] as int));
    if p <= q {
        assert(!has_dep(deps, ord[p] as int, ord[q] as int));
    }
    assert(p > q);
    if k > 1 {
        lemma_cycle_pos_decreases(deps, ord, c, k - 1);
    }
}

/// A topological order and a dependency cycle cannot both exist for one
/// graph: the two witnesses of `topo_order` exclude each other.
pub proof fn lemma_topo_excludes_cycle(deps: Seq<Vec<usize>>, ord: Seq<usize>, c: Seq<usize>)
    requires
        spec_topo_ok(deps, ord),
    ensures
        !spec_index_cycle(deps, c),
{
    if spec_index_cycle(deps, c) {
        let last = c.len() - 1;
        if last == 0 {
            // a self-dependency contradicts the order's pairwise condition
            assert(ord.contains(c[0]));
            let p = ord_pos(ord, c[0]);
            assert(0 <= p < ord.len() && ord[p] == c[0]);
            assert(has_dep(deps, c[0] as int, c[0] as int));
            assert(!has_dep(deps, ord[p] as int, ord[p] as int));
        } else {
            lemma_cycle_pos_decreases(deps, ord, c, last);
            // the wrap-around edge forces the first position below the last
            assert(ord.contains(c[0]));
            let p = ord_pos(ord, c[last]);
            let q = ord_pos(ord, c[0]);
            assert(0 <= q < ord.len() && ord[q] == c[0]);
            assert(has_dep(deps, c[last] as int, c[0] as int));
            if p <= q {
                assert(!has_dep(deps, ord[p] as int, ord[q] as int));
            }
            assert(p > q);
        }
    }
}

// ---------------------------------------------------------------------------
// The dependency relation among beads
// ---------------------------------------------------------------------------

/// The bead at index `a` depends on the bead at index `b`.
pub open spec fn spec_bead_edge(beads: Seq<Bead>, a: int, b: int) -> bool {
    &&& 0 <= a < beads.len()
    &&& 0 <= b < beads.len()
    &&& seq_contains_id(beads[a].dependencies@, beads[b].id@)
}

/// The beads carry pairwise distinct ids.
pub open spec fn spec_distinct_ids(beads: Seq<Bead>) -> bool {
    forall|i: int, j: int| 0 <= i < j < beads.len() ==> beads[i].id@ != beads[j].id@
}

/// `ord` is a topological order of the beads: every bead stands after
/// all of the beads it depends on.
pub open spec fn spec_bead_topo_ok(beads: Seq<Bead>, ord: Seq<usize>) -> bool {
    &&& ord.len() == beads.len()
    &&& ord.no_duplicates()
    &&& forall|v: usize| (v as int) < beads.len() ==> ord.contains(v)
    &&& forall|k: int, m: int|
        0 <= k <= m < ord.len() ==> !spec_bead_edge(beads, ord[k] as int, ord[m] as int)
}

/// Member `k` of the id list names a bead whose dependency list holds
/// the next id of the list, wrapping around at the end.
pub open spec fn spec_cycle_step(beads: Seq<Bead>, ids: Seq<BeadId>, k: int) -> bool {
    exists|a: int|
        0 <= a < beads.len() && beads[a].id@ == ids[k]@ && seq_contains_id(
            beads[a].dependencies@,
            ids[if k + 1 == ids.len() {
                0int
            } else {
                k + 1
            }]@,
        )
}

/// `ids` names a dependency cycle among the beads: each id is the id of
/// some bead whose dependency list holds the next id, wrapping around.
pub open spec fn spec_id_cycle(beads: Seq<Bead>, ids: Seq<BeadId>) -> bool {
    &&& ids.len() >= 1
    &&& forall|k: int| 0 <= k < ids.len() ==> #[trigger] spec_cycle_step(beads, ids, k)
}

/// Find the index of the bead with the given id, if any.
fn find_bead_index(beads: &Vec<Bead>, id: &BeadId) -> (r: Option<usize>)
    ensures
        r matches Some(b) ==> (b as int) < beads@.len() && beads@[b as int].id@ == id@,
        r is None ==> forall|b: int| 0 <= b < beads@.len() ==> beads@[b].id@ != id@,
{
    let mut b: usize = 0;
    while b < beads.len()
        invariant
            b <= beads@.len(),
            forall|q: int| 0 <= q < b ==> beads@[q].id@ != id@,
        decreases beads@.len() - b,
    {
        if &beads[b].id == id {
            return Some(b);
        }
        b += 1;
    }
    None
}

/// Check that the dependency relation among the given beads is acyclic.
/// Dependencies on ids outside the given set cannot close a cycle and
/// are ignored. On success a topological order of the beads exists; on
/// failure the error lists the member ids of a concrete cycle, each
/// depending on the next.
pub fn check_acyclic(beads: &Vec<Bead>) -> (r: Result<(), RigsError>)
    requires
        spec_distinct_ids(beads@),
    ensures
        r is Ok ==> exists|ord: Seq<usize>| spec_bead_topo_ok(beads@, ord),
        r matches Err(e) ==> e matches RigsError::DependencyCycle(ids) && spec_id_cycle(
            beads@,
            ids@,
        ),
{
    let n = beads.len();
    let mut deps: Vec<Vec<usize>> = Vec::new();
    let mut a: usize = 0;
    while a < n
        invariant
            n == beads@.len(),
            spec_distinct_ids(beads@),
            deps@.len() == a,
            a <= n,
            forall|x: int, j: int|
                0 <= x < a && 0 <= j < deps@[x]@.len() ==> (#[trigger] deps@[x]@[j]) < n,
            forall|x: int, b: int|
                0 <= x < a ==> (#[trigger] has_dep(deps@, x, b) <==> spec_bead_edge(beads@, x, b)),
        decreases n - a,
    {
        let mut row: Vec<usize> = Vec::new();
        let dep_count = beads[a].dependencies.len();
        let mut t: usize = 0;
        while t < dep_count
            invariant
                n == beads@.len(),
                spec_distinct_ids(beads@),
                a < n,
                dep_count == beads@[a as int].dependencies@.len(),
                t <= dep_count,
                forall|q: int| 0 <= q < row@.len() ==> (#[trigger] row@[q]) < n,
                forall|b: int|
                    #![trigger beads@[b]]
                    0 <= b < n ==> ((exists|q: int| 0 <= q < row@.len() && row@[q] == b)
                        <==> exists|t2: int|
                        0 <= t2 < t && beads@[b].id@ == (#[trigger] beads@[
                            a as int
                        ].dependencies@[t2])@),
            decreases dep_count - t,
        {
            let ghost old_row = row@;
            match find_bead_index(beads, &beads[a].dependencies[t]) {
                Some(bidx) => {
                    row.push(bidx);
                    proof {
                        assert(row@ =~= old_row.push(bidx));
                        assert forall|b: int|
                            #![trigger beads@[b]]
                            0 <= b < n implies ((exists|q: int|
                            0 <= q < row@.len() && row@[q] == b) <==> exists|t2: int|
                            0 <= t2 < t + 1 && beads@[b].id@ == (#[trigger] beads@[
                                a as int
                            ].dependencies@[t2])@) by {
                            if b == bidx as int {
                                assert(row@[row@.len() - 1] == bidx);
                                assert(beads@[b].id@ == beads@[a as int].dependencies@[t as int]@);
                            } else {
                                assert((exists|q: int| 0 <= q < old_row.len() && old_row[q] == b)
                                    <==> (exists|t2: int|
                                    0 <= t2 < t && beads@[b].id@ == beads@[
                                        a as int
                                    ].dependencies@[t2]@));
                                if exists|q: int| 0 <= q < row@.len() && row@[q] == b {
                                    let q = choose|q: int| 0 <= q < row@.len() && row@[q] == b;
                                    assert(q < old_row.len());
                                    assert(old_row[q] == b);
                                    let t2 = choose|t2: int|
                                        0 <= t2 < t && beads@[b].id@ == beads@[
                                            a as int
                                        ].dependencies@[t2]@;
                                    assert(0 <= t2 < t + 1 && beads@[b].id@ == beads@[
                                        a as int
                                    ].dependencies@[t2]@);
                                }
                                if exists|t2: int|
                                    0 <= t2 < t + 1 && beads@[b].id@ == beads@[
                                        a as int
                                    ].dependencies@[t2]@ {
                                    let t2 = choose|t2: int|
                                        0 <= t2 < t + 1 && beads@[b].id@ == beads@[
                                            a as int
                                        ].dependencies@[t2]@;
                                    if t2 == t {
                                        // two distinct beads would share one id
                                        assert(beads@[bidx as int].id@ == beads@[b].id@);
                                        assert(false);
                                    } else {
                                        let q = choose|q: int|
                                            0 <= q < old_row.len() && old_row[q] == b;
                                        assert(row@[q] == b);
                                    }
                                }
                            }
                        }
                    }
                },
                None => {
                    proof {
                        assert forall|b: int|
                            #![trigger beads@[b]]
                            0 <= b < n implies ((exists|q: int|
                            0 <= q < row@.len() && row@[q] == b) <==> exists|t2: int|
                            0 <= t2 < t + 1 && beads@[b].id@ == (#[trigger] beads@[
                                a as int
                            ].dependencies@[t2])@) by {
                            assert((exists|q: int| 0 <= q < row@.len() && row@[q] == b)
                                <==> (exists|t2: int|
                                0 <= t2 < t && beads@[b].id@ == beads@[
                                    a as int
                                ].dependencies@[t2]@));
                            if exists|t2: int|
                                0 <= t2 < t + 1 && beads@[b].id@ == beads@[
                                    a as int
                                ].dependencies@[t2]@ {
                                let t2 = choose|t2: int|
                                    0 <= t2 < t + 1 && beads@[b].id@ == beads@[
                                        a as int
                                    ].dependencies@[t2]@;
                                assert(t2 != t);
                                assert(0 <= t2 < t && beads@[b].id@ == beads@[
                                    a as int
                                ].dependencies@[t2]@);
                            }
                        }
                    }
                },
            }
            t += 1;
        }
        let ghost old_deps = deps@;
        deps.push(row);
        proof {
            assert(deps@ =~= old_deps.push(row));
            assert forall|x: int, b: int|
                0 <= x < a + 1 implies (#[trigger] has_dep(deps@, x, b) <==> spec_bead_edge(
                beads@,
                x,
                b,
            )) by {
                if x < a as int {
                    assert(deps@[x] == old_deps[x]);
                    assert(has_dep(deps@, x, b) == has_dep(old_deps, x, b));
                } else {
                    assert(deps@[x] == row);
                    if has_dep(deps@, x, b) {
                        let j = choose|j: int| 0 <= j < row@.len() && row@[j] == b;
                        assert(0 <= b < n);
                        let t2 = choose|t2: int|
                            0 <= t2 < dep_count && beads@[b].id@ == beads@[
                                a as int
                            ].dependencies@[t2]@;
                        assert(seq_contains_id(beads@[a as int].dependencies@, beads@[b].id@));
                    }
                    if spec_bead_edge(beads@, x, b) {
                        let j = choose|j: int|
                            0 <= j < beads@[a as int].dependencies@.len() && beads@[
                                a as int
                            ].dependencies@[j]@ == beads@[b].id@;
                        assert(beads@[b].id@ == beads@[a as int].dependencies@[j]@);
                        let q = choose|q: int| 0 <= q < row@.len() && row@[q] == b;
                        assert(has_dep(deps@, x, b));
                    }
                }
            }
        }
        a += 1;
    }
    match topo_order(&deps) {
        Ok(ord) => {
            proof {
                assert forall|k: int, m: int|
                    0 <= k <= m < ord@.len() implies !spec_bead_edge(
                    beads@,
                    ord@[k] as int,
                    ord@[m] as int,
                ) by {
                    if spec_bead_edge(beads@, ord@[k] as int, ord@[m] as int) {
                        assert(has_dep(deps@, ord@[k] as int, ord@[m] as int));
                    }
                }
                assert(spec_bead_topo_ok(beads@, ord@));
            }
            Ok(())
        },
        Err(cycle) => {
            let mut ids: Vec<BeadId> = Vec::new();
            let mut k: usize = 0;
            while k < cycle.len()
                invariant
                    n == beads@.len(),
                    spec_index_cycle(deps@, cycle@),
                    deps@.len() == n,
                    ids@.len() == k,
                    k <= cycle@.len(),
                    forall|q: int|
                        0 <= q < k ==> (#[trigger] ids@[q])@ == beads@[cycle@[q] as int].id@,
                decreases cycle@.len() - k,
            {
                ids.push(beads[cycle[k]].id.clone());
                k += 1;
            }
            proof {
                let c = cycle@;
                let len = c.len();
                assert forall|k2: int|
                    0 <= k2 < ids@.len() implies #[trigger] spec_cycle_step(beads@, ids@, k2) by {
                    let a2 = c[k2] as int;
                    let nxt = if k2 + 1 == len as int {
                        0int
                    } else {
                        k2 + 1
                    };
                    assert(has_dep(deps@, c[k2] as int, c[nxt] as int));
                    assert(spec_bead_edge(beads@, c[k2] as int, c[nxt] as int));
                    assert(ids@[nxt]@ == beads@[c[nxt] as int].id@);
                    assert(beads@[a2].id@ == ids@[k2]@);
                    assert(0 <= a2 < beads@.len() && beads@[a2].id@ == ids@[k2]@
                        && seq_contains_id(beads@[a2].dependencies@, ids@[nxt]@));
                }
                assert(spec_id_cycle(beads@, ids@));
            }
            Err(RigsError::DependencyCycle(ids))
        },
    }
}

} // verus!
