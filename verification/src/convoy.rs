//! Convoys: named groups of beads whose aggregate progress and status are
//! computed from the current statuses of their members, never stored.

use vstd::prelude::*;

use crate::bead::{contains_id, seq_contains_id, spec_is_terminal, BeadId, BeadStatus};
use crate::clock;
use crate::clock::MAX_TS;

verus! {

/// Unique identifier for a convoy.
pub type ConvoyId = String;

/// A list of bead statuses keyed by id; lookups take the first entry with
/// a matching id.
pub type StatusList = Vec<(BeadId, BeadStatus)>;

/// Status of a convoy.
#[derive(Clone, Copy, Debug, PartialEq, Eq, Structural)]
pub enum ConvoyStatus {
    /// Being decomposed into beads.
    Planning,
    /// Ready to execute.
    Queued,
    /// Some beads in progress.
    InProgress,
    /// Paused, for example while all providers are exhausted.
    Paused,
    /// All beads completed successfully.
    Completed,
    /// One or more beads failed.
    Failed,
}

/// Terminal convoy statuses.
pub open spec fn spec_convoy_terminal(s: ConvoyStatus) -> bool {
    s == ConvoyStatus::Completed || s == ConvoyStatus::Failed
}

impl ConvoyStatus {
    /// Check if this is a terminal status.
    pub fn is_terminal(&self) -> (r: bool)
        ensures
            r == spec_convoy_terminal(*self),
    {
        matches!(self, ConvoyStatus::Completed | ConvoyStatus::Failed)
    }
}

/// The status recorded for the bead with the given id: the first entry
/// with a matching id, if any.
pub open spec fn spec_status_of(entries: Seq<(BeadId, BeadStatus)>, id: Seq<char>) -> Option<
    BeadStatus,
>
    decreases entries.len(),
{
    if entries.len() == 0 {
        None
    } else if entries[0].0@ == id {
        Some(entries[0].1)
    } else {
        spec_status_of(entries.drop_first(), id)
    }
}

/// Look up the status recorded for `id`.
pub fn status_of(entries: &StatusList, id: &BeadId) -> (r: Option<BeadStatus>)
    ensures
        r == spec_status_of(entries@, id@),
{
    let mut i: usize = 0;
    proof {
        assert(entries@.skip(0) =~= entries@);
    }
    while i < entries.len()
        invariant
            i <= entries@.len(),
            spec_status_of(entries@, id@) == spec_status_of(entries@.skip(i as int), id@),
        decreases entries@.len() - i,
    {
        if &entries[i].0 == id {
            proof {
                assert(entries@.skip(i as int)[0] == entries@[i as int]);
            }
            return Some(entries[i].1);
        }
        proof {
            assert(entries@.skip(i as int).drop_first() =~= entries@.skip(i + 1));
        }
        i += 1;
    }
    proof {
        assert(entries@.skip(entries@.len() as int).len() == 0);
    }
    None
}

/// Is the bead recorded as completed?
pub open spec fn spec_is_completed(entries: Seq<(BeadId, BeadStatus)>, id: Seq<char>) -> bool {
    spec_status_of(entries, id) == Some(BeadStatus::Completed)
}

/// How many of `beads` are recorded as completed.
pub open spec fn spec_count_completed(beads: Seq<BeadId>, entries: Seq<(BeadId, BeadStatus)>) -> nat
    decreases beads.len(),
{
    if beads.len() == 0 {
        0
    } else {
        spec_count_completed(beads.drop_last(), entries) + if spec_is_completed(
            entries,
            beads.last()@,
        ) {
            1nat
        } else {
            0nat
        }
    }
}

/// The aggregation bucket a recorded status falls into: completed and
/// failed stand alone, the active statuses count as in progress, deferred
/// stands alone, and everything else (including an unknown id) counts as
/// pending.
pub open spec fn spec_bucket(s: Option<BeadStatus>) -> int {
    match s {
        Some(BeadStatus::Completed) => 0,
        Some(BeadStatus::Failed) => 1,
        Some(BeadStatus::InProgress) => 2,
        Some(BeadStatus::Assigned) => 2,
        Some(BeadStatus::Reviewing) => 2,
        Some(BeadStatus::Deferred) => 3,
        _ => 4,
    }
}

/// How many of `beads` fall into bucket `b`.
pub open spec fn spec_count_bucket(
    beads: Seq<BeadId>,
    entries: Seq<(BeadId, BeadStatus)>,
    b: int,
) -> nat
    decreases beads.len(),
{
    if beads.len() == 0 {
        0
    } else {
        spec_count_bucket(beads.drop_last(), entries, b) + if spec_bucket(
            spec_status_of(entries, beads.last()@),
        ) == b {
            1nat
        } else {
            0nat
        }
    }
}

/// Counts of beads by aggregation bucket in a convoy.
#[derive(Clone, Copy, Debug, Default, PartialEq, Eq, Structural)]
pub struct StatusCounts {
    pub pending: usize,
    pub in_progress: usize,
    pub completed: usize,
    pub failed: usize,
    pub deferred: usize,
}

impl StatusCounts {
    /// The total number of counted beads.
    pub fn total(&self) -> (r: usize)
        requires
            self.pending + self.in_progress + self.completed + self.failed + self.deferred
                <= usize::MAX,
        ensures
            r == self.pending + self.in_progress + self.completed + self.failed + self.deferred,
    {
        self.pending + self.in_progress + self.completed + self.failed + self.deferred
    }
}

/// Relies on uuid::Uuid::new_v4 and its Display implementation: a freshly
/// generated UUID rendered in the hyphenated form, 36 ASCII characters.
#[verifier::external_body]
fn fresh_uuid_string() -> (r: String)
    ensures
        r@.len() == 36,
{
    uuid::Uuid::new_v4().to_string()
}

/// A batch of related beads, typically created from decomposing one goal.
#[derive(Clone, Debug)]
pub struct Convoy {
    /// Unique identifier.
    pub id: ConvoyId,
    /// Human-readable name.
    pub name: String,
    /// Original goal, if created from decomposition.
    pub goal: Option<String>,
    /// Beads in this convoy, in execution order.
    pub beads: Vec<BeadId>,
    /// Current status.
    pub status: ConvoyStatus,
    /// When created (milliseconds since the epoch).
    pub created_at: i64,
    /// When completed, if finished.
    pub completed_at: Option<i64>,
    /// Arbitrary metadata; lookups take the first entry with a matching
    /// key.
    pub metadata: Vec<(String, String)>,
}

/// The metadata value recorded for a key: the first entry with a matching
/// key, if any.
pub open spec fn spec_meta_get(entries: Seq<(String, String)>, key: Seq<char>) -> Option<Seq<char>>
    decreases entries.len(),
{
    if entries.len() == 0 {
        None
    } else if entries[0].0@ == key {
        Some(entries[0].1@)
    } else {
        spec_meta_get(entries.drop_first(), key)
    }
}

/// Updating the first entry holding a given key changes that key's value
/// and no other key's.
proof fn lemma_meta_get_update(s: Seq<(String, String)>, i0: int, v: String, k2: Seq<char>)
    requires
        0 <= i0 < s.len(),
        forall|j: int| 0 <= j < i0 ==> (#[trigger] s[j]).0@ != s[i0].0@,
    ensures
        spec_meta_get(s.update(i0, (s[i0].0, v)), k2) == if k2 == s[i0].0@ {
            Some(v@)
        } else {
            spec_meta_get(s, k2)
        },
    decreases i0,
{
    let t = s.update(i0, (s[i0].0, v));
    if i0 == 0 {
        assert(t[0] == (s[0].0, v));
        if k2 != s[0].0@ {
            assert(t.drop_first() =~= s.drop_first());
        }
    } else {
        assert(t[0] == s[0]);
        assert(t.drop_first() =~= s.drop_first().update(i0 - 1, (s.drop_first()[i0 - 1].0, v)));
        assert(s.drop_first()[i0 - 1] == s[i0]);
        assert forall|j: int| 0 <= j < i0 - 1 implies (#[trigger] s.drop_first()[j]).0@
            != s.drop_first()[i0 - 1].0@ by {
            assert(s.drop_first()[j] == s[j + 1]);
        }
        lemma_meta_get_update(s.drop_first(), i0 - 1, v, k2);
        if t[0].0@ == k2 {
            assert(spec_meta_get(t, k2) == Some(s[0].1@));
            assert(spec_meta_get(s, k2) == Some(s[0].1@));
            assert(k2 != s[i0].0@);
        }
    }
}

impl Convoy {
    /// Create a new convoy, freshly identified, in the planning state.
    pub fn new(name: String) -> (r: Convoy)
        ensures
            r.id@.len() == 36,
            r.name == name,
            r.goal is None,
            r.beads@.len() == 0,
            r.status == ConvoyStatus::Planning,
            0 <= r.created_at <= MAX_TS,
            r.completed_at is None,
            r.metadata@.len() == 0,
    {
        let now = clock::clamp_ts(clock::now_millis());
        Convoy {
            id: fresh_uuid_string(),
            name,
            goal: None,
            beads: Vec::new(),
            status: ConvoyStatus::Planning,
            created_at: now,
            completed_at: None,
            metadata: Vec::new(),
        }
    }

    /// Create a convoy from a decomposed goal, queued with its beads.
    pub fn from_goal(name: String, goal: String, beads: Vec<BeadId>) -> (r: Convoy)
        ensures
            r.id@.len() == 36,
            r.name == name,
            r.goal == Some(goal),
            r.beads == beads,
            r.status == ConvoyStatus::Queued,
            0 <= r.created_at <= MAX_TS,
            r.completed_at is None,
            r.metadata@.len() == 0,
    {
        let now = clock::clamp_ts(clock::now_millis());
        Convoy {
            id: fresh_uuid_string(),
            name,
            goal: Some(goal),
            beads,
            status: ConvoyStatus::Queued,
            created_at: now,
            completed_at: None,
            metadata: Vec::new(),
        }
    }

    /// Add a bead to the convoy; a no-op when it is already a member.
    pub fn add_bead(&mut self, bead_id: BeadId)
        ensures
            final(self).beads@ == if seq_contains_id(old(self).beads@, bead_id@) {
                old(self).beads@
            } else {
                old(self).beads@.push(bead_id)
            },
            final(self).id == old(self).id,
            final(self).name == old(self).name,
            final(self).goal == old(self).goal,
            final(self).status == old(self).status,
            final(self).created_at == old(self).created_at,
            final(self).completed_at == old(self).completed_at,
            final(self).metadata == old(self).metadata,
    {
        if !contains_id(&self.beads, &bead_id) {
            self.beads.push(bead_id);
        }
    }

    /// Progress as a fraction: how many member beads are completed, out of
    /// how many members there are. An empty convoy reports zero of zero,
    /// read as no progress by convention.
    pub fn progress(&self, statuses: &StatusList) -> (r: (usize, usize))
        ensures
            r.0 == spec_count_completed(self.beads@, statuses@),
            r.1 == self.beads@.len(),
    {
        let mut completed: usize = 0;
        let mut i: usize = 0;
        while i < self.beads.len()
            invariant
                i <= self.beads@.len(),
                completed == spec_count_completed(self.beads@.take(i as int), statuses@),
                completed <= i,
            decreases self.beads@.len() - i,
        {
            let st = status_of(statuses, &self.beads[i]);
            proof {
                let t = self.beads@.take(i + 1 as int);
                assert(t.drop_last() =~= self.beads@.take(i as int));
                assert(t.last() == self.beads@[i as int]);
            }
            if let Some(s) = st {
                if matches!(s, BeadStatus::Completed) {
                    completed = completed + 1;
                }
            }
            i += 1;
        }
        proof {
            assert(self.beads@.take(self.beads@.len() as int) =~= self.beads@);
        }
        (completed, self.beads.len())
    }

    /// Count member beads by aggregation bucket.
    pub fn status_counts(&self, statuses: &StatusList) -> (r: StatusCounts)
        ensures
            r.completed == spec_count_bucket(self.beads@, statuses@, 0),
            r.failed == spec_count_bucket(self.beads@, statuses@, 1),
            r.in_progress == spec_count_bucket(self.beads@, statuses@, 2),
            r.deferred == spec_count_bucket(self.beads@, statuses@, 3),
            r.pending == spec_count_bucket(self.beads@, statuses@, 4),
    {
        let mut counts = StatusCounts { pending: 0, in_progress: 0, completed: 0, failed: 0, deferred: 0 };
        let mut i: usize = 0;
        while i < self.beads.len()
            invariant
                i <= self.beads@.len(),
                counts.completed == spec_count_bucket(self.beads@.take(i as int), statuses@, 0),
                counts.failed == spec_count_bucket(self.beads@.take(i as int), statuses@, 1),
                counts.in_progress == spec_count_bucket(self.beads@.take(i as int), statuses@, 2),
                counts.deferred == spec_count_bucket(self.beads@.take(i as int), statuses@, 3),
                counts.pending == spec_count_bucket(self.beads@.take(i as int), statuses@, 4),
                counts.completed <= i && counts.failed <= i && counts.in_progress <= i
                    && counts.deferred <= i && counts.pending <= i,
            decreases self.beads@.len() - i,
        {
            let st = status_of(statuses, &self.beads[i]);
            proof {
                let t = self.beads@.take(i + 1 as int);
                assert(t.drop_last() =~= self.beads@.take(i as int));
                assert(t.last() == self.beads@[i as int]);
            }
            match st {
                Some(BeadStatus::Completed) => {
                    counts.completed = counts.completed + 1;
                },
                Some(BeadStatus::Failed) => {
                    counts.failed = counts.failed + 1;
                },
                Some(BeadStatus::InProgress) | Some(BeadStatus::Assigned)
                | Some(BeadStatus::Reviewing) => {
                    counts.in_progress = counts.in_progress + 1;
                },
                Some(BeadStatus::Deferred) => {
                    counts.deferred = counts.deferred + 1;
                },
                _ => {
                    counts.pending = counts.pending + 1;
                },
            }
            i += 1;
        }
        proof {
            assert(self.beads@.take(self.beads@.len() as int) =~= self.beads@);
        }
        counts
    }

    /// Check if every member bead is in a terminal status.
    pub fn is_complete(&self, statuses: &StatusList) -> (r: bool)
        ensures
            r == forall|i: int|
                0 <= i < self.beads@.len() ==> match spec_status_of(
                    statuses@,
                    (#[trigger] self.beads@[i])@,
                ) {
                    Some(s) => spec_is_terminal(s),
                    None => false,
                },
    {
        let mut i: usize = 0;
        while i < self.beads.len()
            invariant
                i <= self.beads@.len(),
                forall|k: int|
                    0 <= k < i ==> match spec_status_of(
                        statuses@,
                        (#[trigger] self.beads@[k])@,
                    ) {
                        Some(s) => spec_is_terminal(s),
                        None => false,
                    },
            decreases self.beads@.len() - i,
        {
            let terminal = match status_of(statuses, &self.beads[i]) {
                Some(s) => s.is_terminal(),
                None => false,
            };
            if !terminal {
                return false;
            }
            i += 1;
        }
        true
    }

    /// Check if any member bead failed.
    pub fn has_failures(&self, statuses: &StatusList) -> (r: bool)
        ensures
            r == exists|i: int|
                0 <= i < self.beads@.len() && spec_status_of(
                    statuses@,
                    (#[trigger] self.beads@[i])@,
                ) == Some(BeadStatus::Failed),
    {
        let mut i: usize = 0;
        while i < self.beads.len()
            invariant
                i <= self.beads@.len(),
                forall|k: int|
                    0 <= k < i ==> spec_status_of(statuses@, (#[trigger] self.beads@[k])@)
                        != Some(BeadStatus::Failed),
            decreases self.beads@.len() - i,
        {
            let st = status_of(statuses, &self.beads[i]);
            if let Some(s) = st {
                if matches!(s, BeadStatus::Failed) {
                    return true;
                }
            }
            i += 1;
        }
        false
    }

    /// Set a metadata value: replace the value of the first entry with
    /// this key, or append a new entry when the key is absent. Every other
    /// key's value is unchanged.
    pub fn set_metadata(&mut self, key: String, value: String)
        ensures
            forall|k2: Seq<char>|
                #[trigger] spec_meta_get(final(self).metadata@, k2) == if k2 == key@ {
                    Some(value@)
                } else {
                    spec_meta_get(old(self).metadata@, k2)
                },
            final(self).id == old(self).id,
            final(self).name == old(self).name,
            final(self).goal == old(self).goal,
            final(self).beads == old(self).beads,
            final(self).status == old(self).status,
            final(self).created_at == old(self).created_at,
            final(self).completed_at == old(self).completed_at,
    {
        let ghost orig = self.metadata@;
        let mut i: usize = 0;
        while i < self.metadata.len()
            invariant
                i <= self.metadata@.len(),
                self.metadata@ == orig,
                orig == old(self).metadata@,
                self.id == old(self).id,
                self.name == old(self).name,
                self.goal == old(self).goal,
                self.beads == old(self).beads,
                self.status == old(self).status,
                self.created_at == old(self).created_at,
                self.completed_at == old(self).completed_at,
                forall|j: int| 0 <= j < i ==> (#[trigger] orig[j]).0@ != key@,
            decreases self.metadata@.len() - i,
        {
            if self.metadata[i].0 == key {
                let k_old = self.metadata[i].0.clone();
                self.metadata[i] = (k_old, value);
                proof {
                    assert(self.metadata@ =~= orig.update(i as int, (orig[i as int].0, value)));
                    assert forall|k2: Seq<char>|
                        #[trigger] spec_meta_get(self.metadata@, k2) == if k2 == key@ {
                            Some(value@)
                        } else {
                            spec_meta_get(orig, k2)
                        } by {
                        lemma_meta_get_update(orig, i as int, value, k2);
                    }
                }
                return;
            }
            i += 1;
        }
        self.metadata.push((key, value));
        proof {
            let s2 = self.metadata@;
            assert forall|k2: Seq<char>|
                #[trigger] spec_meta_get(s2, k2) == if k2 == key@ {
                    Some(value@)
                } else {
                    spec_meta_get(orig, k2)
                } by {
            lemma_meta_get_push(orig, key, value, k2);
            }
        }
    }
}

/// Appending an entry with a fresh key adds that key's value and changes
/// no other key's; the keys before it all differ from it.
proof fn lemma_meta_get_push(s: Seq<(String, String)>, key: String, v: String, k2: Seq<char>)
    requires
        forall|j: int| 0 <= j < s.len() ==> (#[trigger] s[j]).0@ != key@,
    ensures
        spec_meta_get(s.push((key, v)), k2) == if k2 == key@ {
            Some(v@)
        } else {
            spec_meta_get(s, k2)
        },
    decreases s.len(),
{
    if s.len() == 0 {
        assert(s.push((key, v))[0] == (key, v));
        if k2 != key@ {
            assert(s.push((key, v)).drop_first() =~= Seq::<(String, String)>::empty());
        }
    } else {
        assert(s.push((key, v))[0] == s[0]);
        assert(s.push((key, v)).drop_first() =~= s.drop_first().push((key, v)));
        assert forall|j: int| 0 <= j < s.drop_first().len() implies (#[trigger] s.drop_first()[j]).0@
            != key@ by {
            assert(s.drop_first()[j] == s[j + 1]);
        }
        lemma_meta_get_push(s.drop_first(), key, v, k2);
        if s[0].0@ == k2 {
            assert(k2 != key@);
        }
    }
}

impl Convoy {
    /// The convoy status derived from member bead statuses: completed
    /// when every member is terminal and none failed, failed when every
    /// member is terminal and at least one failed, and otherwise the
    /// convoy's current status, which pause and resume commands drive.
    pub fn derive_status(&self, statuses: &StatusList) -> (r: ConvoyStatus)
        ensures
            r == {
                let all_terminal = forall|i: int|
                    0 <= i < self.beads@.len() ==> match spec_status_of(
                        statuses@,
                        (#[trigger] self.beads@[i])@,
                    ) {
                        Some(s) => spec_is_terminal(s),
                        None => false,
                    };
                let any_failed = exists|i: int|
                    0 <= i < self.beads@.len() && spec_status_of(
                        statuses@,
                        (#[trigger] self.beads@[i])@,
                    ) == Some(BeadStatus::Failed);
                if all_terminal && any_failed {
                    ConvoyStatus::Failed
                } else if all_terminal {
                    ConvoyStatus::Completed
                } else {
                    self.status
                }
            },
    {
        if self.is_complete(statuses) {
            if self.has_failures(statuses) {
                ConvoyStatus::Failed
            } else {
                ConvoyStatus::Completed
            }
        } else {
            self.status
        }
    }
}

} // verus!
