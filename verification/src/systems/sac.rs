//! Flocking: the per-tick visibility graph over all fish pairs, and the
//! three forces that consume it, in order: separation, then alignment,
//! then cohesion. Each force feeds the next within the same tick.

use vstd::prelude::*;

use crate::components::{
    clamp_turn, spec_point_away, spec_point_towards, Agent, Position, Rotation,
};
use crate::constants::{ALIGNMENT, COHESION, POS_LIMIT, SEPARATION};
use crate::math::{div_trunc, div_trunc_i64, is_heading, lemma_norm_angle_range, norm_angle};
use crate::utils::{can_see_position, spec_can_see};

verus! {

/// Whether fish `i` currently perceives fish `j`: both are fish, `i` is
/// not fleeing, and the can-see predicate holds from `i` to `j`.
pub open spec fn sees(all: Seq<Agent>, i: int, j: int) -> bool {
    &&& 0 <= i < all.len()
    &&& 0 <= j < all.len()
    &&& i != j
    &&& all[i].kind is Fish
    &&& all[j].kind is Fish
    &&& !all[i].fleeing.0
    &&& spec_can_see(
        all[i].position,
        all[i].rotation.0 as int,
        all[i].vision,
        all[j].size.0 as int,
        all[j].position,
    )
}

/// The ascending list of indices among the first `j` agents that fish `i`
/// perceives.
pub open spec fn visible_upto(all: Seq<Agent>, i: int, j: int) -> Seq<usize>
    decreases j,
{
    if j <= 0 {
        Seq::empty()
    } else {
        let p = visible_upto(all, i, j - 1);
        if sees(all, i, j - 1) {
            p.push((j - 1) as usize)
        } else {
            p
        }
    }
}

/// The full visibility list of fish `i`.
pub open spec fn spec_visible(all: Seq<Agent>, i: int) -> Seq<usize> {
    visible_upto(all, i, all.len() as int)
}

/// The visibility graph of the whole population.
pub open spec fn spec_graph(all: Seq<Agent>) -> Seq<Seq<usize>> {
    Seq::new(all.len(), |i: int| spec_visible(all, i))
}

/// The view of an adjacency-list graph.
pub open spec fn graph_view(g: Seq<Vec<usize>>) -> Seq<Seq<usize>> {
    g.map_values(|row: Vec<usize>| row@)
}

/// Structural soundness of a graph against a population of `n` agents.
pub open spec fn graph_wf(g: Seq<Seq<usize>>, n: int) -> bool {
    &&& g.len() == n
    &&& forall|i: int, k: int|
        0 <= i < g.len() && 0 <= k < g[i].len() ==> (#[trigger] g[i][k]) < n
    &&& forall|i: int| 0 <= i < g.len() ==> (#[trigger] g[i]).len() <= n
}

/// A visibility list over the first `j` agents has at most `j` entries.
pub proof fn lemma_visible_upto_len(all: Seq<Agent>, i: int, j: int)
    requires
        0 <= j,
    ensures
        visible_upto(all, i, j).len() <= j,
    decreases j,
{
    if j > 0 {
        lemma_visible_upto_len(all, i, j - 1);
    }
}

/// Every entry of a visibility list indexes an agent that is seen, and
/// lies below the scanned bound.
pub proof fn lemma_visible_upto_elems(all: Seq<Agent>, i: int, j: int)
    requires
        0 <= j <= all.len(),
        all.len() <= usize::MAX,
    ensures
        forall|k: int|
            0 <= k < visible_upto(all, i, j).len() ==> sees(
                all,
                i,
                #[trigger] visible_upto(all, i, j)[k] as int,
            ) && visible_upto(all, i, j)[k] < j,
    decreases j,
{
    if j > 0 {
        lemma_visible_upto_elems(all, i, j - 1);
        let p = visible_upto(all, i, j - 1);
        let v = visible_upto(all, i, j);
        assert forall|k: int| 0 <= k < v.len() implies sees(all, i, v[k] as int) && v[k] < j by {
            if sees(all, i, j - 1) {
                if k < p.len() {
                    assert(v[k] == p[k]);
                } else {
                    assert(v[k] == (j - 1) as usize);
                }
            } else {
                assert(v[k] == p[k]);
            }
        }
    }
}

/// An agent that is not an observing fish has an empty visibility list.
pub proof fn lemma_visible_upto_not_observer(all: Seq<Agent>, i: int, j: int)
    requires
        !(0 <= i < all.len() && all[i].kind is Fish && !all[i].fleeing.0),
    ensures
        visible_upto(all, i, j) == Seq::<usize>::empty(),
    decreases j,
{
    if j > 0 {
        lemma_visible_upto_not_observer(all, i, j - 1);
    }
}

/// The visibility graph is structurally sound.
pub proof fn lemma_spec_graph_wf(all: Seq<Agent>)
    requires
        all.len() <= usize::MAX,
    ensures
        graph_wf(spec_graph(all), all.len() as int),
{
    assert forall|i: int, k: int|
        0 <= i < spec_graph(all).len() && 0 <= k < spec_graph(all)[i].len() implies (
    #[trigger] spec_graph(all)[i][k]) < all.len() by {
        lemma_visible_upto_elems(all, i, all.len() as int);
    }
    assert forall|i: int| 0 <= i < spec_graph(all).len() implies (#[trigger] spec_graph(
        all,
    )[i]).len() <= all.len() by {
        lemma_visible_upto_len(all, i, all.len() as int);
    }
}

/// Builds the visibility graph: for every fish, the ascending list of
/// fish it currently perceives. A fleeing fish contributes no outgoing
/// edges but can still be seen by others.
pub fn visibility_graph(agents: &Vec<Agent>) -> (g: Vec<Vec<usize>>)
    requires
        forall|k: int| 0 <= k < agents@.len() ==> (#[trigger] agents@[k]).wf(),
    ensures
        graph_view(g@) == spec_graph(agents@),
        g@.len() == agents@.len(),
{
    let n = agents.len();
    let mut g: Vec<Vec<usize>> = Vec::new();
    let mut i: usize = 0;
    while i < n
        invariant
            n == agents@.len(),
            0 <= i <= n,
            forall|k: int| 0 <= k < n ==> (#[trigger] agents@[k]).wf(),
            g@.len() == i,
            forall|k: int| 0 <= k < i ==> (#[trigger] g@[k])@ == spec_visible(agents@, k),
        decreases n - i,
    {
        let mut row: Vec<usize> = Vec::new();
        let a = agents[i];
        if matches!(a.kind, crate::components::Kind::Fish) && !a.fleeing.0 {
            let mut j: usize = 0;
            while j < n
                invariant
                    n == agents@.len(),
                    0 <= j <= n,
                    0 <= i < n,
                    forall|k: int| 0 <= k < n ==> (#[trigger] agents@[k]).wf(),
                    a == agents@[i as int],
                    a.kind is Fish,
                    !a.fleeing.0,
                    row@ == visible_upto(agents@, i as int, j as int),
                decreases n - j,
            {
                if j != i {
                    let b = agents[j];
                    if matches!(b.kind, crate::components::Kind::Fish) {
                        if can_see_position(a.position, a.rotation, a.vision, b.size, b.position)
                        {
                            row.push(j);
                        }
                    }
                }
                j = j + 1;
            }
        } else {
            proof {
                lemma_visible_upto_not_observer(agents@, i as int, n as int);
            }
        }
        g.push(row);
        i = i + 1;
    }
    proof {
        assert(graph_view(g@) =~= spec_graph(agents@));
    }
    g
}

/// The separation turn accumulated by fish `me` over its first `k`
/// visible neighbors: each contributes the heading that points away from
/// it, clamped to the separation limit, and the running sum is kept
/// normalized.
pub open spec fn sep_acc(all: Seq<Agent>, me: int, ns: Seq<usize>, k: int) -> int
    decreases k,
{
    if k <= 0 {
        0
    } else {
        let prev = sep_acc(all, me, ns, k - 1);
        let nj = ns[k - 1] as int;
        norm_angle(
            prev + clamp_turn(
                norm_angle(spec_point_away(all[me].position, all[nj].position)
                    - all[me].rotation.0),
                SEPARATION as int,
            ),
        )
    }
}

/// What the separation pass leaves at index `i`.
pub open spec fn sep_update(all: Seq<Agent>, g: Seq<Seq<usize>>, i: int) -> Agent {
    let a = all[i];
    if a.kind is Fish && !a.fleeing.0 {
        Agent {
            rotation: Rotation(
                norm_angle(a.rotation.0 + sep_acc(all, i, g[i], g[i].len() as int)) as i64,
            ),
            ..a
        }
    } else {
        a
    }
}

/// The separation accumulator is always a normalized heading.
pub proof fn lemma_sep_acc_heading(all: Seq<Agent>, me: int, ns: Seq<usize>, k: int)
    ensures
        k > 0 ==> is_heading(sep_acc(all, me, ns, k)),
        k <= 0 ==> sep_acc(all, me, ns, k) == 0,
    decreases k,
{
    if k > 0 {
        lemma_sep_acc_heading(all, me, ns, k - 1);
        let prev = sep_acc(all, me, ns, k - 1);
        let nj = ns[k - 1] as int;
        lemma_norm_angle_range(
            prev + clamp_turn(
                norm_angle(spec_point_away(all[me].position, all[nj].position)
                    - all[me].rotation.0),
                SEPARATION as int,
            ),
        );
    }
}

/// The separation pass: every observing fish turns away from each visible
/// neighbor, each contribution clamped, all of them summed.
pub fn separation(agents: &mut Vec<Agent>, g: &Vec<Vec<usize>>)
    requires
        forall|k: int| 0 <= k < old(agents)@.len() ==> (#[trigger] old(agents)@[k]).wf(),
        graph_wf(graph_view(g@), old(agents)@.len() as int),
    ensures
        final(agents)@.len() == old(agents)@.len(),
        forall|i: int|
            0 <= i < old(agents)@.len() ==> final(agents)@[i] == sep_update(
                old(agents)@,
                graph_view(g@),
                i,
            ),
        forall|k: int| 0 <= k < final(agents)@.len() ==> (#[trigger] final(agents)@[k]).wf(),
{
    let ghost orig = agents@;
    let ghost gv = graph_view(g@);
    let n = agents.len();
    let mut i: usize = 0;
    while i < n
        invariant
            n == orig.len() == agents@.len(),
            0 <= i <= n,
            gv == graph_view(g@),
            g@.len() == n,
            graph_wf(gv, n as int),
            forall|k: int| 0 <= k < n ==> (#[trigger] orig[k]).wf(),
            forall|k: int| i <= k < n ==> agents@[k] == orig[k],
            forall|k: int| 0 <= k < i ==> agents@[k] == #[trigger] sep_update(orig, gv, k),
            forall|k: int| 0 <= k < n ==> (#[trigger] agents@[k]).position == orig[k].position,
            forall|k: int| 0 <= k < n ==> (#[trigger] agents@[k]).wf(),
        decreases n - i,
    {
        let a = agents[i];
        if matches!(a.kind, crate::components::Kind::Fish) && !a.fleeing.0 {
            let row = &g[i];
            let m = row.len();
            let mut acc: i64 = 0;
            let mut k: usize = 0;
            assert(row@ == gv[i as int]);
            while k < m
                invariant
                    n == orig.len() == agents@.len(),
                    0 <= k <= m,
                    0 <= i < n,
                    m == row@.len(),
                    row@ == gv[i as int],
                    graph_wf(gv, n as int),
                    forall|k2: int| 0 <= k2 < n ==> (#[trigger] orig[k2]).wf(),
                    forall|k2: int| i <= k2 < n ==> agents@[k2] == orig[k2],
                    forall|k2: int|
                        0 <= k2 < i ==> agents@[k2] == #[trigger] sep_update(orig, gv, k2),
                    forall|k2: int| 0 <= k2 < n ==> (#[trigger] agents@[k2]).position
                        == orig[k2].position,
                    a == orig[i as int],
                    a.wf(),
                    acc == sep_acc(orig, i as int, row@, k as int),
                    k > 0 ==> is_heading(acc as int),
                    k == 0 ==> acc == 0,
                decreases m - k,
            {
                let nj = row[k];
                assert(gv[i as int][k as int] == row@[k as int]);
                let b = agents[nj];
                assert(b.position == orig[nj as int].position);
                let inc = a.position.steer_away(b.position, a.rotation, SEPARATION);
                acc = crate::utils::normalize_radians(acc + inc.0);
                proof {
                    lemma_sep_acc_heading(orig, i as int, row@, k as int + 1);
                }
                k = k + 1;
            }
            let mut a2 = a;
            a2.rotation = Rotation::new(a.rotation.0 + acc);
            proof {
                if m == 0 {
                    crate::math::lemma_norm_angle_identity(a.rotation.0 as int);
                }
            }
            agents[i] = a2;
        }
        i = i + 1;
    }
}

/// The alignment turn accumulated by fish `me` over its first `k` visible
/// neighbors: each contributes the signed difference between the
/// neighbor's current heading and the fish's own, clamped to the
/// alignment limit, and the running sum is kept normalized.
pub open spec fn align_acc(cur: Seq<Agent>, me: int, ns: Seq<usize>, k: int) -> int
    decreases k,
{
    if k <= 0 {
        0
    } else {
        let prev = align_acc(cur, me, ns, k - 1);
        let nj = ns[k - 1] as int;
        norm_angle(
            prev + clamp_turn(
                norm_angle(cur[nj].rotation.0 - cur[me].rotation.0),
                ALIGNMENT as int,
            ),
        )
    }
}

/// What the alignment pass leaves at index `i`: every contribution is
/// read from `cur`, the population state as the pass began, so the pass
/// has no feedback within itself.
pub open spec fn align_update_one(cur: Seq<Agent>, g: Seq<Seq<usize>>, i: int) -> Agent {
    let a = cur[i];
    if a.kind is Fish && !a.fleeing.0 {
        Agent {
            rotation: Rotation(
                norm_angle(a.rotation.0 + align_acc(cur, i, g[i], g[i].len() as int)) as i64,
            ),
            ..a
        }
    } else {
        a
    }
}

/// The alignment accumulator is always a normalized heading.
pub proof fn lemma_align_acc_heading(cur: Seq<Agent>, me: int, ns: Seq<usize>, k: int)
    ensures
        k > 0 ==> is_heading(align_acc(cur, me, ns, k)),
        k <= 0 ==> align_acc(cur, me, ns, k) == 0,
    decreases k,
{
    if k > 0 {
        lemma_align_acc_heading(cur, me, ns, k - 1);
        let prev = align_acc(cur, me, ns, k - 1);
        let nj = ns[k - 1] as int;
        lemma_norm_angle_range(
            prev + clamp_turn(norm_angle(cur[nj].rotation.0 - cur[me].rotation.0), ALIGNMENT as int),
        );
    }
}

/// The alignment pass: every observing fish turns toward the headings of
/// its visible neighbors as they stood when the pass began, one clamped
/// contribution per neighbor. All contributions are read before any
/// heading is written, so the pass sees no partial updates of itself.
pub fn alignment(agents: &mut Vec<Agent>, g: &Vec<Vec<usize>>)
    requires
        forall|k: int| 0 <= k < old(agents)@.len() ==> (#[trigger] old(agents)@[k]).wf(),
        graph_wf(graph_view(g@), old(agents)@.len() as int),
    ensures
        final(agents)@.len() == old(agents)@.len(),
        forall|i: int|
            0 <= i < old(agents)@.len() ==> final(agents)@[i] == align_update_one(
                old(agents)@,
                graph_view(g@),
                i,
            ),
        forall|k: int| 0 <= k < final(agents)@.len() ==> (#[trigger] final(agents)@[k]).wf(),
{
    let ghost orig = agents@;
    let ghost gv = graph_view(g@);
    let n = agents.len();
    let mut new_rots: Vec<i64> = Vec::new();
    let mut i: usize = 0;
    while i < n
        invariant
            n == orig.len() == agents@.len(),
            0 <= i <= n,
            agents@ == orig,
            gv == graph_view(g@),
            g@.len() == n,
            graph_wf(gv, n as int),
            forall|k: int| 0 <= k < n ==> (#[trigger] orig[k]).wf(),
            new_rots@.len() == i,
            forall|k: int|
                0 <= k < i ==> new_rots@[k] == align_update_one(orig, gv, k).rotation.0,
        decreases n - i,
    {
        let a = agents[i];
        if matches!(a.kind, crate::components::Kind::Fish) && !a.fleeing.0 {
            let row = &g[i];
            let m = row.len();
            let mut acc: i64 = 0;
            let mut k: usize = 0;
            assert(row@ == gv[i as int]);
            while k < m
                invariant
                    n == orig.len() == agents@.len(),
                    0 <= k <= m,
                    0 <= i < n,
                    agents@ == orig,
                    m == row@.len(),
                    row@ == gv[i as int],
                    graph_wf(gv, n as int),
                    forall|k2: int| 0 <= k2 < n ==> (#[trigger] orig[k2]).wf(),
                    a == orig[i as int],
                    a.wf(),
                    acc == align_acc(orig, i as int, row@, k as int),
                    k > 0 ==> is_heading(acc as int),
                    k == 0 ==> acc == 0,
                decreases m - k,
            {
                let nj = row[k];
                assert(gv[i as int][k as int] == row@[k as int]);
                let b = agents[nj];
                let rel = crate::utils::normalize_radians(b.rotation.0 - a.rotation.0);
                let inc: i64 = if rel > ALIGNMENT {
                    ALIGNMENT
                } else if rel < -ALIGNMENT {
                    -ALIGNMENT
                } else {
                    rel
                };
                acc = crate::utils::normalize_radians(acc + inc);
                proof {
                    lemma_align_acc_heading(orig, i as int, row@, k as int + 1);
                }
                k = k + 1;
            }
            let r2 = crate::utils::normalize_radians(a.rotation.0 + acc);
            new_rots.push(r2);
        } else {
            new_rots.push(a.rotation.0);
        }
        i = i + 1;
    }
    let mut i: usize = 0;
    while i < n
        invariant
            n == orig.len() == agents@.len(),
            0 <= i <= n,
            gv == graph_view(g@),
            graph_wf(gv, n as int),
            forall|k: int| 0 <= k < n ==> (#[trigger] orig[k]).wf(),
            new_rots@.len() == n,
            forall|k: int|
                0 <= k < n ==> new_rots@[k] == align_update_one(orig, gv, k).rotation.0,
            forall|k: int| i <= k < n ==> agents@[k] == orig[k],
            forall|k: int| 0 <= k < i ==> agents@[k] == #[trigger] align_update_one(orig, gv, k),
            forall|k: int| 0 <= k < n ==> (#[trigger] agents@[k]).wf(),
        decreases n - i,
    {
        let a = agents[i];
        let mut a2 = a;
        a2.rotation = Rotation(new_rots[i]);
        agents[i] = a2;
        proof {
            let u = align_update_one(orig, gv, i as int);
            if orig[i as int].kind is Fish && !orig[i as int].fleeing.0 {
                lemma_align_acc_heading(
                    orig,
                    i as int,
                    gv[i as int],
                    gv[i as int].len() as int,
                );
                lemma_norm_angle_range(
                    orig[i as int].rotation.0 + align_acc(
                        orig,
                        i as int,
                        gv[i as int],
                        gv[i as int].len() as int,
                    ),
                );
            }
            assert(a2 == u);
        }
        i = i + 1;
    }
}

/// The sum of the x coordinates of the first `k` listed neighbors.
pub open spec fn sum_x(all: Seq<Agent>, ns: Seq<usize>, k: int) -> int
    decreases k,
{
    if k <= 0 {
        0
    } else {
        sum_x(all, ns, k - 1) + all[ns[k - 1] as int].position.x
    }
}

/// The sum of the y coordinates of the first `k` listed neighbors.
pub open spec fn sum_y(all: Seq<Agent>, ns: Seq<usize>, k: int) -> int
    decreases k,
{
    if k <= 0 {
        0
    } else {
        sum_y(all, ns, k - 1) + all[ns[k - 1] as int].position.y
    }
}

/// The centroid of a fish's visible neighbors, each coordinate the
/// truncated quotient of the coordinate sum by the neighbor count.
pub open spec fn spec_centroid(all: Seq<Agent>, ns: Seq<usize>) -> Position {
    Position {
        x: div_trunc(sum_x(all, ns, ns.len() as int), ns.len() as int) as i64,
        y: div_trunc(sum_y(all, ns, ns.len() as int), ns.len() as int) as i64,
    }
}

/// What the cohesion pass leaves at index `i`: an observing fish with at
/// least one visible neighbor turns toward their centroid, clamped to the
/// cohesion limit; with none it is unchanged.
pub open spec fn coh_update(all: Seq<Agent>, g: Seq<Seq<usize>>, i: int) -> Agent {
    let a = all[i];
    let ns = g[i];
    if a.kind is Fish && !a.fleeing.0 && ns.len() > 0 {
        let c = spec_centroid(all, ns);
        let turn = clamp_turn(
            norm_angle(spec_point_towards(a.position, c) - a.rotation.0),
            COHESION as int,
        );
        Agent { rotation: Rotation(norm_angle(a.rotation.0 + turn) as i64), ..a }
    } else {
        a
    }
}

/// Coordinate sums over in-limit positions grow by at most the position
/// limit per neighbor.
pub proof fn lemma_sum_bounds(all: Seq<Agent>, ns: Seq<usize>, k: int)
    requires
        0 <= k <= ns.len(),
        forall|k2: int| 0 <= k2 < ns.len() ==> (#[trigger] ns[k2]) < all.len(),
        forall|k2: int| 0 <= k2 < all.len() ==> (#[trigger] all[k2]).position.in_limit(),
    ensures
        -(k * POS_LIMIT as int) <= sum_x(all, ns, k) <= k * POS_LIMIT as int,
        -(k * POS_LIMIT as int) <= sum_y(all, ns, k) <= k * POS_LIMIT as int,
    decreases k,
{
    if k > 0 {
        lemma_sum_bounds(all, ns, k - 1);
        assert((k - 1) * POS_LIMIT as int + POS_LIMIT as int == k * POS_LIMIT as int)
            by (nonlinear_arith);
    }
}

/// The centroid of in-limit positions is in limit.
pub proof fn lemma_centroid_in_limit(all: Seq<Agent>, ns: Seq<usize>)
    requires
        ns.len() > 0,
        forall|k2: int| 0 <= k2 < ns.len() ==> (#[trigger] ns[k2]) < all.len(),
        forall|k2: int| 0 <= k2 < all.len() ==> (#[trigger] all[k2]).position.in_limit(),
    ensures
        spec_centroid(all, ns).in_limit(),
{
    let n = ns.len() as int;
    lemma_sum_bounds(all, ns, n);
    assert(n * POS_LIMIT as int == POS_LIMIT as int * n) by (nonlinear_arith);
    crate::math::lemma_div_trunc_bound(sum_x(all, ns, n), n, POS_LIMIT as int);
    crate::math::lemma_div_trunc_bound(sum_y(all, ns, n), n, POS_LIMIT as int);
}

/// The cohesion pass: every observing fish with visible neighbors steers
/// toward their centroid, one clamped contribution in all.
pub fn cohesion(agents: &mut Vec<Agent>, g: &Vec<Vec<usize>>)
    requires
        forall|k: int| 0 <= k < old(agents)@.len() ==> (#[trigger] old(agents)@[k]).wf(),
        graph_wf(graph_view(g@), old(agents)@.len() as int),
        old(agents)@.len() <= 1_000_000,
    ensures
        final(agents)@.len() == old(agents)@.len(),
        forall|i: int|
            0 <= i < old(agents)@.len() ==> final(agents)@[i] == coh_update(
                old(agents)@,
                graph_view(g@),
                i,
            ),
        forall|k: int| 0 <= k < final(agents)@.len() ==> (#[trigger] final(agents)@[k]).wf(),
{
    let ghost orig = agents@;
    let ghost gv = graph_view(g@);
    let n = agents.len();
    let mut i: usize = 0;
    while i < n
        invariant
            n == orig.len() == agents@.len(),
            0 <= i <= n,
            n <= 1_000_000,
            gv == graph_view(g@),
            g@.len() == n,
            graph_wf(gv, n as int),
            forall|k: int| 0 <= k < n ==> (#[trigger] orig[k]).wf(),
            forall|k: int| i <= k < n ==> agents@[k] == orig[k],
            forall|k: int| 0 <= k < i ==> agents@[k] == #[trigger] coh_update(orig, gv, k),
            forall|k: int| 0 <= k < n ==> (#[trigger] agents@[k]).position == orig[k].position,
            forall|k: int| 0 <= k < n ==> (#[trigger] agents@[k]).wf(),
        decreases n - i,
    {
        let a = agents[i];
        let row = &g[i];
        let m = row.len();
        assert(row@ == gv[i as int]);
        if matches!(a.kind, crate::components::Kind::Fish) && !a.fleeing.0 && m > 0 {
            let mut sx: i64 = 0;
            let mut sy: i64 = 0;
            let mut k: usize = 0;
            while k < m
                invariant
                    n == orig.len() == agents@.len(),
                    0 <= k <= m,
                    0 <= i < n,
                    n <= 1_000_000,
                    m == row@.len(),
                    m <= n,
                    row@ == gv[i as int],
                    graph_wf(gv, n as int),
                    forall|k2: int| 0 <= k2 < n ==> (#[trigger] orig[k2]).wf(),
                    forall|k2: int| i <= k2 < n ==> agents@[k2] == orig[k2],
                    forall|k2: int|
                        0 <= k2 < i ==> agents@[k2] == #[trigger] coh_update(orig, gv, k2),
                    forall|k2: int| 0 <= k2 < n ==> (#[trigger] agents@[k2]).position
                        == orig[k2].position,
                    sx == sum_x(orig, row@, k as int),
                    sy == sum_y(orig, row@, k as int),
                    -(k as int * POS_LIMIT as int) <= sx as int <= k as int * POS_LIMIT as int,
                    -(k as int * POS_LIMIT as int) <= sy as int <= k as int * POS_LIMIT as int,
                decreases m - k,
            {
                let nj = row[k];
                assert(gv[i as int][k as int] == row@[k as int]);
                let b = agents[nj];
                assert(b.position == orig[nj as int].position);
                proof {
                    assert((k as int) * POS_LIMIT as int + POS_LIMIT as int == (k as int + 1)
                        * POS_LIMIT as int) by (nonlinear_arith);
                    assert((k as int + 1) * POS_LIMIT as int <= 1_000_000int
                        * POS_LIMIT as int) by (nonlinear_arith)
                        requires 0 <= k as int + 1 <= 1_000_000int;
                }
                sx = sx + b.position.x;
                sy = sy + b.position.y;
                k = k + 1;
            }
            proof {
                lemma_centroid_in_limit(orig, row@);
                assert(m as int * POS_LIMIT as int == POS_LIMIT as int * m as int)
                    by (nonlinear_arith);
                crate::math::lemma_div_trunc_bound(sx as int, m as int, POS_LIMIT as int);
                crate::math::lemma_div_trunc_bound(sy as int, m as int, POS_LIMIT as int);
            }
            let cx = div_trunc_i64(sx, m as i64);
            let cy = div_trunc_i64(sy, m as i64);
            let c = Position { x: cx, y: cy };
            let turn = a.position.steer_towards(c, a.rotation, COHESION);
            let mut a2 = a;
            a2.rotation = Rotation::new(a.rotation.0 + turn.0);
            agents[i] = a2;
        }
        i = i + 1;
    }
}

/// A fish with no visible neighbors is left unchanged by each of the
/// three flocking forces: with an empty visibility list, separation,
/// alignment and cohesion all contribute no turn.
pub proof fn lemma_no_neighbors_no_turn(all: Seq<Agent>, g: Seq<Seq<usize>>, i: int)
    requires
        0 <= i < all.len(),
        0 <= i < g.len(),
        all[i].wf(),
        g[i].len() == 0,
    ensures
        sep_update(all, g, i) == all[i],
        align_update_one(all, g, i) == all[i],
        coh_update(all, g, i) == all[i],
{
    crate::math::lemma_norm_angle_identity(all[i].rotation.0 as int);
}

/// The whole flocking stage of one tick: the visibility graph of the
/// incoming population feeds separation, whose output feeds alignment,
/// whose output feeds cohesion.
pub open spec fn spec_sac(all: Seq<Agent>) -> Seq<Agent> {
    let g = spec_graph(all);
    let s1 = Seq::new(all.len(), |i: int| sep_update(all, g, i));
    let s2 = Seq::new(s1.len(), |i: int| align_update_one(s1, g, i));
    Seq::new(s2.len(), |i: int| coh_update(s2, g, i))
}

/// The flocking stage: builds the visibility graph over all fish pairs,
/// then applies separation, alignment and cohesion, in that order; each
/// force reads the headings the previous force committed, and none reads
/// a partial update of its own pass.
pub fn sac(agents: &mut Vec<Agent>)
    requires
        forall|k: int| 0 <= k < old(agents)@.len() ==> (#[trigger] old(agents)@[k]).wf(),
        old(agents)@.len() <= 1_000_000,
    ensures
        final(agents)@.len() == old(agents)@.len(),
        final(agents)@ == spec_sac(old(agents)@),
        forall|k: int| 0 <= k < final(agents)@.len() ==> (#[trigger] final(agents)@[k]).wf(),
        forall|k: int|
            0 <= k < final(agents)@.len() ==> {
                let before = old(agents)@[k];
                let after = #[trigger] final(agents)@[k];
                after.kind == before.kind && after.size == before.size && after.vision
                    == before.vision && after.position == before.position && after.speed
                    == before.speed && after.fleeing == before.fleeing
            },
{
    let ghost orig = agents@;
    let g = visibility_graph(agents);
    let ghost gv = graph_view(g@);
    proof {
        lemma_spec_graph_wf(orig);
    }
    separation(agents, &g);
    let ghost s1 = agents@;
    proof {
        assert(s1 =~= Seq::new(orig.len(), |i: int| sep_update(orig, gv, i)));
    }
    alignment(agents, &g);
    let ghost s2 = agents@;
    proof {
        assert(s2 =~= Seq::new(s1.len(), |i: int| align_update_one(s1, gv, i)));
    }
    cohesion(agents, &g);
    proof {
        assert(agents@ =~= spec_sac(orig));
        assert forall|k: int| 0 <= k < agents@.len() implies {
            let before = orig[k];
            let after = #[trigger] agents@[k];
            after.kind == before.kind && after.size == before.size && after.vision
                == before.vision && after.position == before.position && after.speed
                == before.speed && after.fleeing == before.fleeing
        } by {
            assert(s1[k] == sep_update(orig, gv, k));
            assert(s2[k] == align_update_one(s1, gv, k));
            assert(agents@[k] == coh_update(s2, gv, k));
        }
    }
}

} // verus!
