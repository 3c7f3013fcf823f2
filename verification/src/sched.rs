//! The dispatch logic: candidate ordering, readiness, provider selection
//! by affinity and capacity, and the per-cycle planning that assigns,
//! defers, or skips each candidate bead.

use vstd::multiset::Multiset;
use vstd::prelude::*;

use crate::bead::{Bead, BeadStatus, TaskType};
use crate::convoy::{spec_status_of, status_of, StatusList};
use crate::provider::Provider;
use crate::tank::{Tank, TankHealth};

verus! {

// ---------------------------------------------------------------------------
// Candidate ordering: priority first, then creation time
// ---------------------------------------------------------------------------

/// `a` ranks no later than `b`: higher priority first, earlier creation
/// first within a priority band.
pub open spec fn ranks_no_later(a: Bead, b: Bead) -> bool {
    ||| a.priority.spec_rank() > b.priority.spec_rank()
    ||| (a.priority.spec_rank() == b.priority.spec_rank() && a.created_at <= b.created_at)
}

/// The sequence is ordered by descending priority, ascending creation
/// time.
pub open spec fn spec_dispatch_sorted(s: Seq<Bead>) -> bool {
    forall|i: int, j: int| 0 <= i < j < s.len() ==> ranks_no_later(#[trigger] s[i], #[trigger] s[j])
}

/// Does `a` rank no later than `b`?
fn ranks_before(a: &Bead, b: &Bead) -> (r: bool)
    ensures
        r == ranks_no_later(*a, *b),
{
    let ra = a.priority.rank();
    let rb = b.priority.rank();
    ra > rb || (ra == rb && a.created_at <= b.created_at)
}


/// The index of the first candidate that ranks no later than every other
/// one: the candidate a stable selection takes next.
pub open spec fn spec_first_pick(s: Seq<Bead>) -> int
    decreases s.len(),
{
    if s.len() <= 1 {
        0
    } else {
        let r = 1 + spec_first_pick(s.drop_first());
        if 0 <= r < s.len() && ranks_no_later(s[0], s[r]) {
            0
        } else {
            r
        }
    }
}

/// The dispatch order as a function of the candidate set: repeatedly
/// take the first earliest-ranked candidate. The fuel equals the length,
/// so the recursion consumes the whole sequence.
pub open spec fn spec_order_rec(s: Seq<Bead>, fuel: nat) -> Seq<Bead>
    decreases fuel,
{
    if s.len() == 0 || fuel == 0 {
        Seq::<Bead>::empty()
    } else {
        let p0 = spec_first_pick(s);
        let p = if 0 <= p0 < s.len() {
            p0
        } else {
            0int
        };
        seq![s[p]] + spec_order_rec(s.remove(p), (fuel - 1) as nat)
    }
}

/// The dispatch order as a function of the candidate set.
pub open spec fn spec_dispatch_order(s: Seq<Bead>) -> Seq<Bead> {
    spec_order_rec(s, s.len())
}

/// The first pick is in range, ranks no later than every candidate, and
/// no earlier-positioned candidate ranks no later than it.
proof fn lemma_first_pick(s: Seq<Bead>)
    requires
        s.len() > 0,
    ensures
        0 <= spec_first_pick(s) < s.len(),
        forall|t: int| 0 <= t < s.len() ==> ranks_no_later(s[spec_first_pick(s)], #[trigger] s[t]),
        forall|t: int| 0 <= t < spec_first_pick(s) ==> !ranks_no_later(#[trigger] s[t], s[spec_first_pick(s)]),
    decreases s.len(),
{
    if s.len() > 1 {
        lemma_first_pick(s.drop_first());
        let fp_tail = spec_first_pick(s.drop_first());
        let r = 1 + fp_tail;
        assert(s.drop_first()[fp_tail] == s[r]);
        assert forall|t: int| 1 <= t < s.len() implies ranks_no_later(s[r], #[trigger] s[t]) by {
            assert(s.drop_first()[t - 1] == s[t]);
            assert(ranks_no_later(s.drop_first()[fp_tail], s.drop_first()[t - 1]));
        }
        if ranks_no_later(s[0], s[r]) {
            assert(spec_first_pick(s) == 0);
        } else {
            assert(spec_first_pick(s) == r);
            assert(ranks_no_later(s[r], s[0]));
            assert forall|t: int| 0 <= t < r implies !ranks_no_later(#[trigger] s[t], s[r]) by {
                if t > 0 {
                    assert(s.drop_first()[t - 1] == s[t]);
                    assert(!ranks_no_later(s.drop_first()[t - 1], s.drop_first()[fp_tail]));
                }
            }
        }
    }
}

/// Any index with the first pick's two properties is the first pick.
proof fn lemma_first_pick_unique(s: Seq<Bead>, m: int)
    requires
        s.len() > 0,
        0 <= m < s.len(),
        forall|t: int| 0 <= t < s.len() ==> ranks_no_later(s[m], #[trigger] s[t]),
        forall|t: int| 0 <= t < m ==> !ranks_no_later(#[trigger] s[t], s[m]),
    ensures
        m == spec_first_pick(s),
{
    lemma_first_pick(s);
    let fp = spec_first_pick(s);
    if m < fp {
        assert(ranks_no_later(s[m], s[fp]));
        assert(!ranks_no_later(s[m], s[fp]));
    }
    if fp < m {
        assert(ranks_no_later(s[fp], s[m]));
        assert(!ranks_no_later(s[fp], s[m]));
    }
}

/// Order candidates for dispatch: by priority descending, then creation
/// time ascending. The result is a permutation of the input; on a fixed
/// candidate set the order is a function of the set alone.
pub fn order_candidates(beads: Vec<Bead>) -> (r: Vec<Bead>)
    ensures
        r@ == spec_dispatch_order(beads@),
        spec_dispatch_sorted(r@),
        r@.to_multiset() == beads@.to_multiset(),
        r@.len() == beads@.len(),
{
    broadcast use vstd::seq_lib::group_to_multiset_ensures;

    let ghost orig = beads@;
    let mut rest = beads;
    let mut out: Vec<Bead> = Vec::new();
    while rest.len() > 0
        invariant
            spec_dispatch_sorted(out@),
            spec_dispatch_order(orig) =~= out@ + spec_order_rec(rest@, rest@.len()),
            out@.to_multiset().add(rest@.to_multiset()) =~= orig.to_multiset(),
            out@.len() + rest@.len() == orig.len(),
            forall|i: int, j: int|
                0 <= i < out@.len() && 0 <= j < rest@.len() ==> ranks_no_later(
                    #[trigger] out@[i],
                    #[trigger] rest@[j],
                ),
        decreases rest@.len(),
    {
        // pick the first element that ranks no later than all others
        let mut mi: usize = 0;
        let mut q: usize = 1;
        while q < rest.len()
            invariant
                rest@.len() > 0,
                mi < q <= rest@.len(),
                forall|t: int| 0 <= t < q ==> ranks_no_later(rest@[mi as int], #[trigger] rest@[t]),
                forall|t: int|
                    0 <= t < mi ==> !ranks_no_later(#[trigger] rest@[t], rest@[mi as int]),
            decreases rest@.len() - q,
        {
            if !ranks_before(&rest[mi], &rest[q]) {
                let ghost old_mi = mi as int;
                mi = q;
                proof {
                    // earlier candidates all rank strictly later than the
                    // new pick, else the old pick would rank no later
                    assert forall|t: int|
                        0 <= t < mi implies !ranks_no_later(#[trigger] rest@[t], rest@[mi as int])
                        by {
                        assert(ranks_no_later(rest@[old_mi], rest@[t]));
                    }
                }
            }
            proof {
                // the ranking is total: one of the two orders holds
                assert(ranks_no_later(rest@[mi as int], rest@[q as int]));
            }
            q += 1;
        }
        let ghost old_out = out@;
        let ghost old_rest = rest@;
        proof {
            lemma_first_pick_unique(rest@, mi as int);
        }
        let x = rest.remove(mi);
        out.push(x);
        proof {
            broadcast use vstd::seq_lib::group_to_multiset_ensures;

            assert(spec_order_rec(old_rest, old_rest.len()) =~= seq![old_rest[mi as int]]
                + spec_order_rec(old_rest.remove(mi as int), (old_rest.len() - 1) as nat));
            assert((out@ + spec_order_rec(rest@, rest@.len())) =~= (old_out + spec_order_rec(
                old_rest,
                old_rest.len(),
            )));
            assert(out@ =~= old_out.push(x));
            assert(rest@ =~= old_rest.remove(mi as int));
            assert(x == old_rest[mi as int]);
            assert(old_out.push(x).to_multiset() =~= old_out.to_multiset().insert(x));
            assert(old_rest.remove(mi as int).to_multiset() =~= old_rest.to_multiset().remove(
                old_rest[mi as int],
            ));
            assert(old_rest.contains(x));
            assert(old_rest.to_multiset().count(x) > 0);
            assert(out@.to_multiset().add(rest@.to_multiset()) =~= orig.to_multiset());
            assert forall|i: int, j: int|
                0 <= i < out@.len() && 0 <= j < rest@.len() implies ranks_no_later(
                #[trigger] out@[i],
                #[trigger] rest@[j],
            ) by {
                assert(rest@[j] == if j < mi as int {
                    old_rest[j]
                } else {
                    old_rest[j + 1]
                });
                if i < out@.len() - 1 {
                    assert(out@[i] == old_out[i]);
                } else {
                    assert(out@[i] == x);
                    assert(ranks_no_later(old_rest[mi as int], rest@[j]));
                }
            }
            assert forall|i: int, j: int|
                0 <= i < j < out@.len() implies ranks_no_later(
                #[trigger] out@[i],
                #[trigger] out@[j],
            ) by {
                if j < out@.len() - 1 {
                    assert(out@[i] == old_out[i] && out@[j] == old_out[j]);
                } else {
                    assert(out@[j] == x);
                    assert(old_rest.to_multiset().count(x) > 0);
                    assert(ranks_no_later(old_out[i], old_rest[mi as int]));
                }
            }
        }
    }
    proof {
        assert(rest@.to_multiset() =~= Multiset::<Bead>::empty());
        assert(out@.to_multiset() =~= orig.to_multiset());
        assert(spec_order_rec(rest@, rest@.len()) =~= Seq::<Bead>::empty());
        assert(out@ =~= spec_dispatch_order(orig));
    }
    out
}

// ---------------------------------------------------------------------------
// Readiness
// ---------------------------------------------------------------------------

/// A bead's status admits dispatch at time `now`: pending, queued, or
/// deferred with its retry time reached.
pub open spec fn spec_status_ready(b: Bead, now: i64) -> bool {
    ||| b.status == BeadStatus::Pending
    ||| b.status == BeadStatus::Queued
    ||| (b.status == BeadStatus::Deferred && match b.deferred_until {
        Some(t) => t <= now,
        None => true,
    })
}

/// A bead is ready at time `now`: its status admits dispatch and every
/// dependency is recorded as completed.
pub open spec fn spec_is_ready(b: Bead, statuses: Seq<(crate::bead::BeadId, BeadStatus)>, now: i64) -> bool {
    &&& spec_status_ready(b, now)
    &&& forall|i: int|
        0 <= i < b.dependencies.len() ==> spec_status_of(
            statuses,
            (#[trigger] b.dependencies[i])@,
        ) == Some(BeadStatus::Completed)
}

/// Check whether a bead is ready for dispatch at time `now`.
pub fn is_ready(b: &Bead, statuses: &StatusList, now: i64) -> (r: bool)
    ensures
        r == spec_is_ready(*b, statuses@, now),
{
    let status_ok = match b.status {
        BeadStatus::Pending => true,
        BeadStatus::Queued => true,
        BeadStatus::Deferred => match b.deferred_until {
            Some(t) => t <= now,
            None => true,
        },
        _ => false,
    };
    if !status_ok {
        return false;
    }
    let mut i: usize = 0;
    while i < b.dependencies.len()
        invariant
            i <= b.dependencies@.len(),
            forall|k: int|
                0 <= k < i ==> spec_status_of(statuses@, (#[trigger] b.dependencies@[k])@) == Some(
                    BeadStatus::Completed,
                ),
        decreases b.dependencies@.len() - i,
    {
        let st = status_of(statuses, &b.dependencies[i]);
        let met = match st {
            Some(s) => matches!(s, BeadStatus::Completed),
            None => false,
        };
        if !met {
            return false;
        }
        i += 1;
    }
    true
}

// ---------------------------------------------------------------------------
// Provider selection
// ---------------------------------------------------------------------------

/// Some tank in the pool belongs to provider `p` and can cover `est`
/// tokens.
pub open spec fn spec_eligible(tanks: Seq<Tank>, p: Provider, est: u64) -> bool {
    exists|i: int|
        0 <= i < tanks.len() && (#[trigger] tanks[i]).provider == p && tanks[i].remaining >= est
            && tanks[i].health != TankHealth::Empty
}

/// The first eligible provider of the ranked list, if any.
pub open spec fn spec_select_from(affs: Seq<(Provider, u32)>, tanks: Seq<Tank>, est: u64) -> Option<
    Provider,
>
    decreases affs.len(),
{
    if affs.len() == 0 {
        None
    } else if spec_eligible(tanks, affs[0].0, est) {
        Some(affs[0].0)
    } else {
        spec_select_from(affs.drop_first(), tanks, est)
    }
}

/// The provider selected for a bead: its preferred provider when that one
/// is eligible, else the first eligible provider of the task type's
/// affinity list.
pub open spec fn spec_select(
    task: TaskType,
    preferred: Option<Provider>,
    tanks: Seq<Tank>,
    est: u64,
) -> Option<Provider> {
    match preferred {
        Some(p) => if spec_eligible(tanks, p, est) {
            Some(p)
        } else {
            spec_select_from(task.spec_affinities(), tanks, est)
        },
        None => spec_select_from(task.spec_affinities(), tanks, est),
    }
}

/// Is some tank of provider `p` able to cover `est` tokens?
fn eligible(tanks: &Vec<Tank>, p: Provider, est: u64) -> (r: bool)
    ensures
        r == spec_eligible(tanks@, p, est),
{
    let mut i: usize = 0;
    while i < tanks.len()
        invariant
            i <= tanks@.len(),
            forall|k: int|
                0 <= k < i ==> !((#[trigger] tanks@[k]).provider == p && tanks@[k].remaining >= est
                    && tanks@[k].health != TankHealth::Empty),
        decreases tanks@.len() - i,
    {
        if tanks[i].provider == p && tanks[i].can_consume(est) {
            return true;
        }
        i += 1;
    }
    false
}

/// Select a provider for a task: the preferred provider first when
/// eligible, then the affinity list in rank order.
pub fn select_provider(
    task: TaskType,
    preferred: Option<Provider>,
    tanks: &Vec<Tank>,
    est: u64,
) -> (r: Option<Provider>)
    ensures
        r == spec_select(task, preferred, tanks@, est),
{
    if let Some(p) = preferred {
        if eligible(tanks, p, est) {
            return Some(p);
        }
    }
    let affs = task.provider_affinities();
    let mut i: usize = 0;
    proof {
        assert(affs@.skip(0) =~= affs@);
    }
    while i < affs.len()
        invariant
            i <= affs@.len(),
            affs@ == task.spec_affinities(),
            match preferred {
                Some(p) => !spec_eligible(tanks@, p, est),
                None => true,
            },
            spec_select_from(affs@, tanks@, est) == spec_select_from(
                affs@.skip(i as int),
                tanks@,
                est,
            ),
        decreases affs@.len() - i,
    {
        proof {
            assert(affs@.skip(i as int)[0] == affs@[i as int]);
        }
        if eligible(tanks, affs[i].0, est) {
            return Some(affs[i].0);
        }
        proof {
            assert(affs@.skip(i as int).drop_first() =~= affs@.skip(i + 1));
        }
        i += 1;
    }
    proof {
        assert(affs@.skip(affs@.len() as int).len() == 0);
    }
    None
}

// ---------------------------------------------------------------------------
// Deferral times
// ---------------------------------------------------------------------------

/// Does provider `p` appear in the affinity list?
pub open spec fn spec_in_affinity(affs: Seq<(Provider, u32)>, p: Provider) -> bool {
    exists|i: int| 0 <= i < affs.len() && (#[trigger] affs[i]).0 == p
}

/// The earliest window end among the tanks of the providers in the
/// affinity list, if any such tank exists.
pub open spec fn spec_earliest_affinity_reset(
    tanks: Seq<Tank>,
    affs: Seq<(Provider, u32)>,
) -> Option<int>
    decreases tanks.len(),
{
    if tanks.len() == 0 {
        None
    } else {
        let rest = spec_earliest_affinity_reset(tanks.drop_last(), affs);
        if !spec_in_affinity(affs, tanks.last().provider) {
            rest
        } else {
            match rest {
                None => Some(tanks.last().window_end as int),
                Some(m) => Some(
                    if (tanks.last().window_end as int) < m {
                        tanks.last().window_end as int
                    } else {
                        m
                    },
                ),
            }
        }
    }
}

/// The earliest window end among all tanks, if any tank exists.
pub open spec fn spec_next_reset(tanks: Seq<Tank>) -> Option<int>
    decreases tanks.len(),
{
    if tanks.len() == 0 {
        None
    } else {
        match spec_next_reset(tanks.drop_last()) {
            None => Some(tanks.last().window_end as int),
            Some(m) => Some(
                if (tanks.last().window_end as int) < m {
                    tanks.last().window_end as int
                } else {
                    m
                },
            ),
        }
    }
}

/// Is provider `p` in the affinity list?
fn in_affinity(affs: &Vec<(Provider, u32)>, p: Provider) -> (r: bool)
    ensures
        r == spec_in_affinity(affs@, p),
{
    let mut i: usize = 0;
    while i < affs.len()
        invariant
            i <= affs@.len(),
            forall|k: int| 0 <= k < i ==> (#[trigger] affs@[k]).0 != p,
        decreases affs@.len() - i,
    {
        if affs[i].0 == p {
            return true;
        }
        i += 1;
    }
    false
}

/// The earliest window end among the tanks of the task's affinity
/// providers: the analytic bound on how long a deferred bead must wait.
pub fn earliest_affinity_reset(tanks: &Vec<Tank>, task: TaskType) -> (r: Option<i64>)
    ensures
        match r {
            Some(t) => spec_earliest_affinity_reset(tanks@, task.spec_affinities()) == Some(
                t as int,
            ),
            None => spec_earliest_affinity_reset(tanks@, task.spec_affinities()) is None,
        },
{
    let affs = task.provider_affinities();
    let mut best: Option<i64> = None;
    let mut i: usize = 0;
    while i < tanks.len()
        invariant
            i <= tanks@.len(),
            affs@ == task.spec_affinities(),
            match best {
                Some(t) => spec_earliest_affinity_reset(tanks@.take(i as int), affs@) == Some(
                    t as int,
                ),
                None => spec_earliest_affinity_reset(tanks@.take(i as int), affs@) is None,
            },
        decreases tanks@.len() - i,
    {
        proof {
            let t = tanks@.take(i + 1 as int);
            assert(t.drop_last() =~= tanks@.take(i as int));
            assert(t.last() == tanks@[i as int]);
        }
        if in_affinity(&affs, tanks[i].provider) {
            let we = tanks[i].window_end;
            best = match best {
                None => Some(we),
                Some(m) => Some(if we < m { we } else { m }),
            };
        }
        i += 1;
    }
    proof {
        assert(tanks@.take(tanks@.len() as int) =~= tanks@);
    }
    best
}

/// The earliest window end among all tanks: the global reset bound when
/// every provider is exhausted.
pub fn next_reset(tanks: &Vec<Tank>) -> (r: Option<i64>)
    ensures
        match r {
            Some(t) => spec_next_reset(tanks@) == Some(t as int),
            None => spec_next_reset(tanks@) is None,
        },
{
    let mut best: Option<i64> = None;
    let mut i: usize = 0;
    while i < tanks.len()
        invariant
            i <= tanks@.len(),
            match best {
                Some(t) => spec_next_reset(tanks@.take(i as int)) == Some(t as int),
                None => spec_next_reset(tanks@.take(i as int)) is None,
            },
        decreases tanks@.len() - i,
    {
        proof {
            let t = tanks@.take(i + 1 as int);
            assert(t.drop_last() =~= tanks@.take(i as int));
            assert(t.last() == tanks@[i as int]);
        }
        let we = tanks[i].window_end;
        best = match best {
            None => Some(we),
            Some(m) => Some(if we < m { we } else { m }),
        };
        i += 1;
    }
    proof {
        assert(tanks@.take(tanks@.len() as int) =~= tanks@);
    }
    best
}

// ---------------------------------------------------------------------------
// Dispatch
// ---------------------------------------------------------------------------

/// The outcome of planning one candidate bead.
#[derive(Clone, Copy, Debug, PartialEq, Eq, Structural)]
pub enum DispatchOutcome {
    /// A provider was selected and the bead moved to execution.
    Dispatched(Provider),
    /// No provider was eligible; the bead was deferred until this time.
    DeferredUntil(i64),
    /// The bead was not a ready candidate, or the concurrency bound was
    /// already filled.
    Skipped,
}

/// How many outcomes dispatched a bead.
pub open spec fn spec_count_dispatched(outs: Seq<DispatchOutcome>) -> nat
    decreases outs.len(),
{
    if outs.len() == 0 {
        0
    } else {
        spec_count_dispatched(outs.drop_last()) + if outs.last() matches
            DispatchOutcome::Dispatched(_) {
            1nat
        } else {
            0nat
        }
    }
}

/// The time a bead with no eligible provider waits for: the earliest
/// window end among its affinity providers' tanks; failing that, the
/// earliest window end of any tank; failing that, a fixed fallback from
/// `now`.
pub open spec fn spec_defer_time(tanks: Seq<Tank>, task: TaskType, now: i64) -> int {
    match spec_earliest_affinity_reset(tanks, task.spec_affinities()) {
        Some(t) => t,
        None => match spec_next_reset(tanks) {
            Some(g) => g,
            None => now + crate::error::EXHAUSTED_FALLBACK_MS,
        },
    }
}

/// A selected provider always has an eligible tank.
proof fn lemma_select_from_eligible(affs: Seq<(Provider, u32)>, tanks: Seq<Tank>, est: u64)
    ensures
        spec_select_from(affs, tanks, est) matches Some(p) ==> spec_eligible(tanks, p, est),
    decreases affs.len(),
{
    if affs.len() > 0 {
        lemma_select_from_eligible(affs.drop_first(), tanks, est);
    }
}

/// Dispatch one ready candidate against the current tank state: select a
/// provider (the preferred one first, then the affinity list), reserve
/// the estimated tokens from its tank and move the bead to execution; or,
/// when no provider is eligible, defer the bead until the analytic reset
/// bound. The candidate must be ready against the given statuses — its
/// status admits dispatch and every dependency is completed — so a bead
/// with an unmet dependency can never reach execution through here.
pub fn dispatch_one(
    bead: &mut Bead,
    statuses: &StatusList,
    tanks: &mut Vec<Tank>,
    now: i64,
) -> (r: DispatchOutcome)
    requires
        spec_is_ready(*old(bead), statuses@, now),
        0 <= now <= crate::clock::MAX_TS,
    ensures
        r !== DispatchOutcome::Skipped,
        r matches DispatchOutcome::Dispatched(p) ==> {
            &&& spec_select(
                old(bead).task_type,
                old(bead).preferred_provider,
                old(tanks)@,
                old(bead).estimated_tokens,
            ) == Some(p)
            &&& *final(bead) == (Bead {
                status: BeadStatus::InProgress,
                assigned_provider: Some(p),
                started_at: Some(now),
                ..*old(bead)
            })
            &&& exists|k: int|
                0 <= k < old(tanks)@.len() && (#[trigger] old(tanks)@[k]).provider == p && old(
                    tanks,
                )@[k].remaining >= old(bead).estimated_tokens && old(tanks)@[k].health
                    != TankHealth::Empty && final(tanks)@ == old(tanks)@.update(
                    k,
                    crate::tank::spec_after_consume(
                        old(tanks)@[k],
                        old(bead).estimated_tokens,
                        now,
                    ),
                )
        },
        r matches DispatchOutcome::DeferredUntil(t) ==> {
            &&& spec_select(
                old(bead).task_type,
                old(bead).preferred_provider,
                old(tanks)@,
                old(bead).estimated_tokens,
            ) is None
            &&& t == spec_defer_time(old(tanks)@, old(bead).task_type, now)
            &&& *final(bead) == (Bead {
                status: BeadStatus::Deferred,
                deferred_until: Some(t),
                ..*old(bead)
            })
            &&& final(tanks)@ == old(tanks)@
        },
{
    let est = bead.estimated_tokens;
    match select_provider(bead.task_type, bead.preferred_provider, tanks, est) {
        Some(p) => {
            proof {
                lemma_select_from_eligible(
                    old(bead).task_type.spec_affinities(),
                    tanks@,
                    est,
                );
                assert(spec_eligible(tanks@, p, est));
            }
            let mut k: usize = 0;
            let n = tanks.len();
            let mut idx: Option<usize> = None;
            while k < n
                invariant
                    n == tanks@.len(),
                    k <= n,
                    spec_eligible(tanks@, p, est),
                    idx is None ==> forall|q: int|
                        0 <= q < k ==> !((#[trigger] tanks@[q]).provider == p && tanks@[
                            q
                        ].remaining >= est && tanks@[q].health != TankHealth::Empty),
                    idx matches Some(x) ==> x < n && tanks@[x as int].provider == p && tanks@[
                        x as int
                    ].remaining >= est && tanks@[x as int].health != TankHealth::Empty,
                decreases n - k,
            {
                if idx.is_none() && tanks[k].provider == p && tanks[k].can_consume(est) {
                    idx = Some(k);
                }
                k += 1;
            }
            match idx {
                Some(x) => {
                    let mut t = tanks[x];
                    let ghost before = t;
                    let res = t.consume_at(est, now);
                    proof {
                        assert(res is Ok);
                        assert(t == crate::tank::spec_after_consume(before, est, now));
                    }
                    tanks[x] = t;
                    bead.status = BeadStatus::InProgress;
                    bead.assigned_provider = Some(p);
                    bead.started_at = Some(now);
                    proof {
                        assert(final(tanks)@ =~= old(tanks)@.update(
                            x as int,
                            crate::tank::spec_after_consume(old(tanks)@[x as int], est, now),
                        ));
                    }
                    DispatchOutcome::Dispatched(p)
                },
                None => {
                    // unreachable: a selected provider has an eligible tank
                    proof {
                        let q = choose|q: int|
                            0 <= q < tanks@.len() && (#[trigger] tanks@[q]).provider == p && tanks@[
                                q
                            ].remaining >= est && tanks@[q].health != TankHealth::Empty;
                        assert(false);
                    }
                    DispatchOutcome::Skipped
                },
            }
        },
        None => {
            let t: i64 = match earliest_affinity_reset(tanks, bead.task_type) {
                Some(t) => t,
                None => match next_reset(tanks) {
                    Some(g) => g,
                    None => now + (crate::error::EXHAUSTED_FALLBACK_MS as i64),
                },
            };
            bead.status = BeadStatus::Deferred;
            bead.deferred_until = Some(t);
            DispatchOutcome::DeferredUntil(t)
        },
    }
}

/// Law: a ready bead has every dependency recorded as completed, so a
/// bead that the planner moves to execution never has an unmet
/// dependency.
pub proof fn lemma_ready_deps_completed(
    b: Bead,
    statuses: Seq<(crate::bead::BeadId, BeadStatus)>,
    now: i64,
)
    requires
        spec_is_ready(b, statuses, now),
    ensures
        forall|i: int|
            0 <= i < b.dependencies.len() ==> spec_status_of(
                statuses,
                (#[trigger] b.dependencies[i])@,
            ) == Some(BeadStatus::Completed),
{
}


/// One planning step: how one candidate, one outcome, and the tank state
/// before and after relate. A skipped bead is untouched and was either
/// not ready or blocked by the concurrency bound; a dispatched bead got
/// the selected provider and its tank reservation; a deferred bead had
/// no eligible provider and waits for the analytic reset bound.
pub open spec fn spec_step_ok(
    b_in: Bead,
    b_out: Bead,
    tanks_in: Seq<Tank>,
    tanks_out: Seq<Tank>,
    o: DispatchOutcome,
    now: i64,
    ready: bool,
    blocked: bool,
) -> bool {
    match o {
        DispatchOutcome::Skipped => b_out == b_in && tanks_out == tanks_in && (!ready || blocked),
        DispatchOutcome::Dispatched(p) => {
            &&& ready
            &&& !blocked
            &&& spec_select(b_in.task_type, b_in.preferred_provider, tanks_in, b_in.estimated_tokens)
                == Some(p)
            &&& b_out == (Bead {
                status: BeadStatus::InProgress,
                assigned_provider: Some(p),
                started_at: Some(now),
                ..b_in
            })
            &&& exists|k: int|
                0 <= k < tanks_in.len() && (#[trigger] tanks_in[k]).provider == p
                    && tanks_in[k].remaining >= b_in.estimated_tokens && tanks_in[k].health
                    != TankHealth::Empty && tanks_out == tanks_in.update(
                    k,
                    crate::tank::spec_after_consume(tanks_in[k], b_in.estimated_tokens, now),
                )
        },
        DispatchOutcome::DeferredUntil(t) => {
            &&& ready
            &&& !blocked
            &&& spec_select(b_in.task_type, b_in.preferred_provider, tanks_in, b_in.estimated_tokens)
                is None
            &&& t == spec_defer_time(tanks_in, b_in.task_type, now)
            &&& b_out == (Bead { status: BeadStatus::Deferred, deferred_until: Some(t), ..b_in })
            &&& tanks_out == tanks_in
        },
    }
}

/// The whole plan is a chain of such steps over an intermediate sequence
/// of tank states.
pub open spec fn spec_plan_trace(
    beads_in: Seq<Bead>,
    beads_out: Seq<Bead>,
    outs: Seq<DispatchOutcome>,
    statuses: Seq<(crate::bead::BeadId, BeadStatus)>,
    now: i64,
    slots: int,
    trace: Seq<Seq<Tank>>,
) -> bool {
    &&& trace.len() == outs.len() + 1
    &&& beads_out.len() == outs.len()
    &&& beads_in.len() == outs.len()
    &&& forall|i: int|
        #![trigger outs[i]]
        0 <= i < outs.len() ==> spec_step_ok(
            beads_in[i],
            beads_out[i],
            trace[i],
            trace[i + 1],
            outs[i],
            now,
            spec_is_ready(beads_in[i], statuses, now),
            spec_count_dispatched(outs.take(i)) >= slots,
        )
}

/// Plan one dispatch cycle over candidates already ordered for dispatch:
/// each candidate in turn is skipped when it is not ready or the
/// concurrency bound is filled, dispatched when a provider is eligible,
/// and deferred otherwise. Returns the beads (in their given order) and
/// one outcome per bead. A paused scheduler plans with zero slots, which
/// skips every candidate without touching any state.
#[verifier::rlimit(100)]
#[verifier::spinoff_prover]
pub fn plan_dispatch(
    beads: Vec<Bead>,
    statuses: &StatusList,
    tanks: &mut Vec<Tank>,
    slots: usize,
    now: i64,
) -> (r: (Vec<Bead>, Vec<DispatchOutcome>))
    requires
        0 <= now <= crate::clock::MAX_TS,
    ensures
        r.0@.len() == beads@.len(),
        r.1@.len() == beads@.len(),
        spec_count_dispatched(r.1@) <= slots,
        exists|trace: Seq<Seq<Tank>>|
            #![trigger spec_plan_trace(beads@, r.0@, r.1@, statuses@, now, slots as int, trace)]
            trace[0] == old(tanks)@ && trace[beads@.len() as int] == final(tanks)@
                && spec_plan_trace(beads@, r.0@, r.1@, statuses@, now, slots as int, trace),
        forall|i: int|
            0 <= i < beads@.len() ==> match #[trigger] r.1@[i] {
                DispatchOutcome::Skipped => r.0@[i] == beads@[i] && (!spec_is_ready(
                    beads@[i],
                    statuses@,
                    now,
                ) || spec_count_dispatched(r.1@.take(i)) >= slots),
                DispatchOutcome::Dispatched(p) => spec_is_ready(beads@[i], statuses@, now)
                    && spec_count_dispatched(r.1@.take(i)) < slots && r.0@[i] == (Bead {
                    status: BeadStatus::InProgress,
                    assigned_provider: Some(p),
                    started_at: Some(now),
                    ..beads@[i]
                }),
                DispatchOutcome::DeferredUntil(t) => spec_is_ready(beads@[i], statuses@, now)
                    && spec_count_dispatched(r.1@.take(i)) < slots && r.0@[i] == (Bead {
                    status: BeadStatus::Deferred,
                    deferred_until: Some(t),
                    ..beads@[i]
                }),
            },
        final(tanks)@.len() == old(tanks)@.len(),
{
    let ghost orig = beads@;
    let mut rest = beads;
    let mut done: Vec<Bead> = Vec::new();
    let mut outs: Vec<DispatchOutcome> = Vec::new();
    let mut used: usize = 0;
    let ghost mut trace: Seq<Seq<Tank>> = seq![tanks@];
    while rest.len() > 0
        invariant
            0 <= now <= crate::clock::MAX_TS,
            done@.len() + rest@.len() == orig.len(),
            outs@.len() == done@.len(),
            rest@ =~= orig.skip(done@.len() as int),
            used == spec_count_dispatched(outs@),
            used <= slots,
            tanks@.len() == old(tanks)@.len(),
            trace.len() == outs@.len() + 1,
            trace[0] == old(tanks)@,
            trace.last() == tanks@,
            spec_plan_trace(
                orig.take(done@.len() as int),
                done@,
                outs@,
                statuses@,
                now,
                slots as int,
                trace,
            ),
            forall|i: int|
                0 <= i < done@.len() ==> match #[trigger] outs@[i] {
                    DispatchOutcome::Skipped => done@[i] == orig[i] && (!spec_is_ready(
                        orig[i],
                        statuses@,
                        now,
                    ) || spec_count_dispatched(outs@.take(i)) >= slots),
                    DispatchOutcome::Dispatched(p) => spec_is_ready(orig[i], statuses@, now)
                        && spec_count_dispatched(outs@.take(i)) < slots && done@[i] == (Bead {
                        status: BeadStatus::InProgress,
                        assigned_provider: Some(p),
                        started_at: Some(now),
                        ..orig[i]
                    }),
                    DispatchOutcome::DeferredUntil(t) => spec_is_ready(orig[i], statuses@, now)
                        && spec_count_dispatched(outs@.take(i)) < slots && done@[i] == (Bead {
                        status: BeadStatus::Deferred,
                        deferred_until: Some(t),
                        ..orig[i]
                    }),
                },
        decreases rest@.len(),
    {
        let ghost i = done@.len() as int;
        let ghost tanks_before = tanks@;
        let mut b = rest.remove(0);
        proof {
            assert(b == orig[i]);
        }
        let ghost b_in = b;
        let ghost blocked = spec_count_dispatched(outs@) >= slots;
        let ready = is_ready(&b, statuses, now);
        let outcome: DispatchOutcome;
        if used >= slots {
            outcome = DispatchOutcome::Skipped;
        } else if !ready {
            outcome = DispatchOutcome::Skipped;
        } else {
            let o = dispatch_one(&mut b, statuses, tanks, now);
            if matches!(o, DispatchOutcome::Dispatched(_)) {
                used += 1;
            }
            outcome = o;
        }
        let ghost old_outs = outs@;
        let ghost old_done = done@;
        done.push(b);
        outs.push(outcome);
        proof {
            trace = trace.push(tanks@);
            assert(outs@.drop_last() =~= old_outs);
            assert(outs@.take(i) =~= old_outs);
            assert(outs@.take(i + 1).drop_last() =~= outs@.take(i));
            assert(rest@ =~= orig.skip(done@.len() as int));
            assert(spec_step_ok(
                b_in,
                b,
                tanks_before,
                tanks@,
                outcome,
                now,
                spec_is_ready(b_in, statuses@, now),
                blocked,
            ));
            assert forall|q: int|
                #![trigger outs@[q]]
                0 <= q < done@.len() implies spec_step_ok(
                orig.take(done@.len() as int)[q],
                done@[q],
                trace[q],
                trace[q + 1],
                outs@[q],
                now,
                spec_is_ready(orig.take(done@.len() as int)[q], statuses@, now),
                spec_count_dispatched(outs@.take(q)) >= slots,
            ) by {
                if q < done@.len() - 1 {
                    assert(outs@.take(q) =~= old_outs.take(q));
                    assert(done@[q] == old_done[q]);
                    assert(outs@[q] == old_outs[q]);
                    assert(orig.take(done@.len() as int)[q] == orig.take(i)[q]);
                    assert(spec_step_ok(
                        orig.take(i)[q],
                        old_done[q],
                        trace[q],
                        trace[q + 1],
                        old_outs[q],
                        now,
                        spec_is_ready(orig.take(i)[q], statuses@, now),
                        spec_count_dispatched(old_outs.take(q)) >= slots,
                    ));
                } else {
                    assert(outs@.take(q) =~= old_outs);
                    assert(done@[q] == b);
                    assert(outs@[q] == outcome);
                    assert(trace[q] == tanks_before);
                    assert(trace[q + 1] == tanks@);
                    assert(orig.take(done@.len() as int)[q] == b_in);
                }
            }
            assert(spec_plan_trace(
                orig.take(done@.len() as int),
                done@,
                outs@,
                statuses@,
                now,
                slots as int,
                trace,
            ));
        }
    }
    proof {
        assert(orig.take(orig.len() as int) =~= orig);
        assert(trace[outs@.len() as int] == tanks@);
        assert(spec_plan_trace(orig, done@, outs@, statuses@, now, slots as int, trace));
    }
    (done, outs)
}

// ---------------------------------------------------------------------------
// Completion and failure
// ---------------------------------------------------------------------------

/// The state of a tank after reconciling a reservation of `est` tokens
/// against an actual use of `actual` at time `now`: the difference is
/// credited back (clamped to capacity) or charged on top (clamped to
/// zero), so the bead never leaves the tank over- or under-charged.
pub open spec fn spec_after_reconcile(t: Tank, est: u64, actual: u64, now: i64) -> Tank {
    let rem = if actual <= est {
        if t.remaining + (est - actual) >= t.capacity {
            t.capacity as int
        } else {
            t.remaining + (est - actual)
        }
    } else {
        if t.remaining >= actual - est {
            t.remaining - (actual - est)
        } else {
            0int
        }
    };
    let tw = if actual <= est {
        if t.tokens_this_window >= est - actual {
            t.tokens_this_window - (est - actual)
        } else {
            0int
        }
    } else {
        if t.tokens_this_window + (actual - est) <= u64::MAX {
            t.tokens_this_window + (actual - est)
        } else {
            u64::MAX as int
        }
    };
    Tank {
        remaining: rem as u64,
        tokens_this_window: tw as u64,
        health: crate::tank::health_of(
            rem as u64,
            t.capacity,
            crate::tank::DEFAULT_YELLOW,
            crate::tank::DEFAULT_RED,
        ),
        updated_at: now,
        ..t
    }
}

/// Record a successful execution: the actual token count, completion
/// time and output are written to the bead, which completes, and the
/// tank reservation is reconciled against the actual use. Fails without
/// any change when the bead is not executing.
pub fn complete_bead(
    bead: &mut Bead,
    tank: &mut Tank,
    actual: u64,
    output: String,
    now: i64,
) -> (r: Result<(), crate::error::RigsError>)
    requires
        old(tank).inv(),
    ensures
        r is Ok <==> old(bead).status == BeadStatus::InProgress,
        r is Ok ==> *final(bead) == (Bead {
            status: BeadStatus::Completed,
            actual_tokens: Some(actual),
            completed_at: Some(now),
            output: Some(output),
            ..*old(bead)
        }),
        r is Ok ==> *final(tank) == spec_after_reconcile(
            *old(tank),
            old(bead).estimated_tokens,
            actual,
            now,
        ),
        r is Ok ==> final(tank).inv(),
        r matches Err(e) ==> *final(bead) == *old(bead) && *final(tank) == *old(tank) && (e
            matches crate::error::RigsError::InvalidStateTransition { from, to }
            && from == old(bead).status && to == BeadStatus::Reviewing),
    {
    if !matches!(bead.status, BeadStatus::InProgress) {
        return Err(crate::error::RigsError::InvalidStateTransition {
            from: bead.status,
            to: BeadStatus::Reviewing,
        });
    }
    let est = bead.estimated_tokens;
    reconcile_tank(tank, est, actual, now);
    bead.status = BeadStatus::Completed;
    bead.actual_tokens = Some(actual);
    bead.completed_at = Some(now);
    bead.output = Some(output);
    Ok(())
}

/// Reconcile a tank after execution: credit back an over-reservation or
/// charge an under-reservation, clamped to the tank bounds, and
/// recompute health.
fn reconcile_tank(tank: &mut Tank, est: u64, actual: u64, now: i64)
    requires
        old(tank).inv(),
    ensures
        *final(tank) == spec_after_reconcile(*old(tank), est, actual, now),
        final(tank).inv(),
{
    if actual <= est {
        let refund = est - actual;
        self_credit(tank, refund);
    } else {
        let extra = actual - est;
        tank.remaining = if tank.remaining >= extra {
            tank.remaining - extra
        } else {
            0
        };
        tank.tokens_this_window = if tank.tokens_this_window <= u64::MAX - extra {
            tank.tokens_this_window + extra
        } else {
            u64::MAX
        };
    }
    tank.health = crate::tank::TankHealth::from_ratio(
        tank.remaining,
        tank.capacity,
        crate::tank::DEFAULT_YELLOW,
        crate::tank::DEFAULT_RED,
    );
    tank.updated_at = now;
}

/// Credit tokens back to a tank, clamped to capacity, and reduce the
/// window counter accordingly.
fn self_credit(tank: &mut Tank, refund: u64)
    requires
        old(tank).inv(),
    ensures
        final(tank).remaining == if old(tank).remaining + refund >= old(tank).capacity {
            old(tank).capacity as int
        } else {
            old(tank).remaining + refund
        },
        final(tank).tokens_this_window == if old(tank).tokens_this_window >= refund {
            old(tank).tokens_this_window - refund
        } else {
            0int
        },
        final(tank).capacity == old(tank).capacity,
        final(tank).provider == old(tank).provider,
        final(tank).window_start == old(tank).window_start,
        final(tank).window_end == old(tank).window_end,
        final(tank).health == old(tank).health,
        final(tank).last_request == old(tank).last_request,
        final(tank).requests_this_window == old(tank).requests_this_window,
        final(tank).updated_at == old(tank).updated_at,
        final(tank).inv(),
{
    tank.remaining = if refund >= tank.capacity - tank.remaining {
        tank.capacity
    } else {
        tank.remaining + refund
    };
    tank.tokens_this_window = if tank.tokens_this_window >= refund {
        tank.tokens_this_window - refund
    } else {
        0
    };
}


/// Cancel a bead, refunding any held reservation. A bead that was
/// assigned or executing holds a reservation of its estimated tokens,
/// which is credited back to the tank; cancelling from any other
/// non-terminal status touches no tank. Cancelling an already-cancelled
/// bead is a no-op; cancelling a completed or failed bead is an error.
pub fn cancel_bead(
    bead: &mut Bead,
    tank: &mut Tank,
    now: i64,
) -> (r: Result<(), crate::error::RigsError>)
    requires
        old(tank).inv(),
    ensures
        r is Ok <==> (old(bead).status != BeadStatus::Completed && old(bead).status
            != BeadStatus::Failed),
        old(bead).status == BeadStatus::Cancelled ==> r is Ok && *final(bead) == *old(bead)
            && *final(tank) == *old(tank),
        (r is Ok && old(bead).status != BeadStatus::Cancelled) ==> *final(bead) == (Bead {
            status: BeadStatus::Cancelled,
            completed_at: Some(now),
            ..*old(bead)
        }),
        (r is Ok && (old(bead).status == BeadStatus::Assigned || old(bead).status
            == BeadStatus::InProgress)) ==> {
            &&& final(tank).remaining == if old(tank).remaining + old(bead).estimated_tokens
                >= old(tank).capacity {
                old(tank).capacity as int
            } else {
                old(tank).remaining + old(bead).estimated_tokens
            }
            &&& final(tank).capacity == old(tank).capacity
            &&& final(tank).provider == old(tank).provider
            &&& final(tank).inv()
        },
        (r is Ok && old(bead).status != BeadStatus::Assigned && old(bead).status
            != BeadStatus::InProgress) ==> *final(tank) == *old(tank),
        r matches Err(e) ==> *final(bead) == *old(bead) && *final(tank) == *old(tank) && (e
            matches crate::error::RigsError::InvalidStateTransition { from, to }
            && from == old(bead).status && to == BeadStatus::Cancelled),
{
    let held = matches!(bead.status, BeadStatus::Assigned | BeadStatus::InProgress);
    let est = bead.estimated_tokens;
    let r = bead.cancel(now);
    if r.is_ok() && held {
        self_credit(tank, est);
    }
    r
}

/// Whether a failure is retried: the error must be recoverable and the
/// retry budget not yet exhausted.
pub open spec fn spec_will_retry(e: crate::error::RigsError, retries: u32, budget: u32) -> bool {
    crate::error::spec_is_recoverable(e) && retries < budget
}

/// The time until which a failed-but-retriable bead is deferred: the
/// classifier's suggested wait from `now`, clamped to the library's time
/// bound; for a single-provider rate limit, the later of that and the
/// provider window's own reset, so a retry never comes before either
/// bound allows it.
pub open spec fn spec_retry_time(
    e: crate::error::RigsError,
    t: Tank,
    now: i64,
) -> int {
    let wait = match crate::error::spec_suggested_wait(e, now) {
        Some(w) => w as int,
        None => 0int,
    };
    let base = if now + wait > crate::clock::MAX_TS {
        crate::clock::MAX_TS as int
    } else {
        now + wait
    };
    if e matches crate::error::RigsError::RateLimitExceeded { .. } && t.window_end > base {
        t.window_end as int
    } else {
        base
    }
}

/// Record a failed execution. A recoverable error within the retry
/// budget defers the bead until the computed retry time and refunds the
/// token reservation; otherwise the bead fails, the error message is
/// persisted, and the reservation is not refunded — that capacity was
/// genuinely spent attempting the task. Fails without any change when
/// the bead is not executing.
pub fn fail_bead(
    bead: &mut Bead,
    tank: &mut Tank,
    err: &crate::error::RigsError,
    retries: u32,
    budget: u32,
    now: i64,
) -> (r: Result<(), crate::error::RigsError>)
    requires
        old(tank).inv(),
        0 <= now <= crate::clock::MAX_TS,
    ensures
        r is Ok <==> old(bead).status == BeadStatus::InProgress,
        (r is Ok && spec_will_retry(*err, retries, budget)) ==> {
            &&& *final(bead) == (Bead {
                status: BeadStatus::Deferred,
                deferred_until: Some(spec_retry_time(*err, *old(tank), now) as i64),
                ..*old(bead)
            })
            &&& final(tank).remaining == if old(tank).remaining + old(bead).estimated_tokens
                >= old(tank).capacity {
                old(tank).capacity as int
            } else {
                old(tank).remaining + old(bead).estimated_tokens
            }
            &&& final(tank).capacity == old(tank).capacity
            &&& final(tank).provider == old(tank).provider
            &&& final(tank).window_end == old(tank).window_end
            &&& final(tank).inv()
        },
        (r is Ok && !spec_will_retry(*err, retries, budget)) ==> {
            &&& (final(bead).error matches Some(m) && m@ == crate::error::spec_message(*err))
            &&& *final(bead) == (Bead {
                status: BeadStatus::Failed,
                completed_at: Some(now),
                error: final(bead).error,
                ..*old(bead)
            })
            &&& *final(tank) == *old(tank)
        },
        r matches Err(e) ==> *final(bead) == *old(bead) && *final(tank) == *old(tank) && (e
            matches crate::error::RigsError::InvalidStateTransition { from, to }
            && from == old(bead).status && to == BeadStatus::Failed),
{
    if !matches!(bead.status, BeadStatus::InProgress) {
        return Err(crate::error::RigsError::InvalidStateTransition {
            from: bead.status,
            to: BeadStatus::Failed,
        });
    }
    if err.is_recoverable() && retries < budget {
        let wait: u64 = match err.suggested_wait(now) {
            Some(w) => w,
            None => 0,
        };
        let base: i64 = if wait > (crate::clock::MAX_TS - now) as u64 {
            crate::clock::MAX_TS
        } else {
            now + (wait as i64)
        };
        let until: i64 = if matches!(err, crate::error::RigsError::RateLimitExceeded { .. })
            && tank.window_end > base {
            tank.window_end
        } else {
            base
        };
        self_credit(tank, bead.estimated_tokens);
        bead.status = BeadStatus::Deferred;
        bead.deferred_until = Some(until);
        Ok(())
    } else {
        bead.status = BeadStatus::Failed;
        bead.completed_at = Some(now);
        bead.error = Some(err.message());
        Ok(())
    }
}

} // verus!
