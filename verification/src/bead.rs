//! Beads: the schedulable units of work, their identifiers, task types,
//! priorities, and lifecycle state machine.

use vstd::prelude::*;

use crate::clock;
use crate::clock::MAX_TS;
use crate::provider::Provider;
use crate::text::string_from_ascii;

verus! {

// ---------------------------------------------------------------------------
// Bead identifiers
// ---------------------------------------------------------------------------

/// Is `x` the code of an ASCII decimal digit?
pub open spec fn is_digit_val(x: int) -> bool {
    48 <= x <= 57
}

/// Is `x` the code of an ASCII lowercase letter?
pub open spec fn is_lower_val(x: int) -> bool {
    97 <= x <= 122
}

/// Is `x` the code of an ASCII uppercase letter?
pub open spec fn is_upper_val(x: int) -> bool {
    65 <= x <= 90
}

/// A character accepted in the suffix of a user-supplied id.
pub open spec fn spec_alnum(c: char) -> bool {
    is_digit_val(c as int) || is_lower_val(c as int) || is_upper_val(c as int)
}

/// A character as stored in an id: digits and lowercase letters only.
pub open spec fn spec_stored(c: char) -> bool {
    is_digit_val(c as int) || is_lower_val(c as int)
}

/// The code of the lowercase form of the character with code `x`.
pub open spec fn spec_lower_val(x: int) -> int {
    if 65 <= x <= 90 {
        x + 32
    } else {
        x
    }
}

/// A string accepted as a bead id on input: "gt-" followed by five ASCII
/// alphanumeric characters, in either case.
pub open spec fn valid_id_input(s: Seq<char>) -> bool {
    &&& s.len() == 8
    &&& s[0] == 'g'
    &&& s[1] == 't'
    &&& s[2] == '-'
    &&& forall|i: int| 3 <= i < 8 ==> spec_alnum(#[trigger] s[i])
}

/// A bead id as stored: "gt-" followed by five lowercase alphanumeric
/// characters.
pub open spec fn valid_bead_id(s: Seq<char>) -> bool {
    &&& s.len() == 8
    &&& s[0] == 'g'
    &&& s[1] == 't'
    &&& s[2] == '-'
    &&& forall|i: int| 3 <= i < 8 ==> spec_stored(#[trigger] s[i])
}

/// The stored id `t` is the case-folded form of the input `s`.
pub open spec fn id_matches_input(t: Seq<char>, s: Seq<char>) -> bool {
    &&& t.len() == s.len()
    &&& forall|i: int| 0 <= i < s.len() ==> (#[trigger] t[i]) as int == spec_lower_val(s[i] as int)
}

/// Error for an id that is not "gt-" plus five alphanumerics; carries the
/// rejected input.
#[derive(Clone, Debug)]
pub struct InvalidBeadId(pub String);

/// Unique identifier for a bead, of the form "gt-" plus five lowercase
/// alphanumeric characters.
#[derive(Debug)]
pub struct BeadId(String);

impl Clone for BeadId {
    /// The clone denotes the same identifier.
    fn clone(&self) -> (r: Self)
        ensures
            r@ == self@,
    {
        BeadId(self.0.clone())
    }
}

impl View for BeadId {
    type V = Seq<char>;

    closed spec fn view(&self) -> Seq<char> {
        self.0@
    }
}

impl PartialEq for BeadId {
    fn eq(&self, other: &BeadId) -> (r: bool) {
        self.0 == other.0
    }
}

impl vstd::std_specs::cmp::PartialEqSpecImpl for BeadId {
    open spec fn obeys_eq_spec() -> bool {
        true
    }

    open spec fn eq_spec(&self, other: &BeadId) -> bool {
        self@ == other@
    }
}

/// Relies on rand's thread_rng and Rng::gen_range: a value drawn from the
/// half-open range below 36; gen_range panics only on an empty range.
#[verifier::external_body]
fn random_index36() -> (r: u8)
    ensures
        r < 36,
{
    rand::Rng::gen_range(&mut rand::thread_rng(), 0..36u8)
}

impl BeadId {
    /// Generate a new id: "gt-" plus five random characters drawn from the
    /// digits and lowercase letters. The result always satisfies the same
    /// validation that `parse` applies to user-supplied ids.
    pub fn new() -> (r: BeadId)
        ensures
            valid_bead_id(r@),
    {
        let mut bytes: Vec<u8> = Vec::new();
        bytes.push(103); // 'g'
        bytes.push(116); // 't'
        bytes.push(45); // '-'
        let mut k: usize = 0;
        while k < 5
            invariant
                k <= 5,
                bytes@.len() == 3 + k,
                bytes@[0] == 103,
                bytes@[1] == 116,
                bytes@[2] == 45,
                forall|i: int|
                    3 <= i < bytes@.len() ==> is_digit_val(#[trigger] bytes@[i] as int)
                        || is_lower_val(bytes@[i] as int),
            decreases 5 - k,
        {
            let idx = random_index36();
            let b: u8 = if idx < 10 {
                48 + idx
            } else {
                97 + (idx - 10)
            };
            bytes.push(b);
            k += 1;
        }
        let s = string_from_ascii(&bytes);
        proof {
            assert(s@[0] as int == 103);
            assert(s@[1] as int == 116);
            assert(s@[2] as int == 45);
            assert(s@[0] == 'g');
            assert(s@[1] == 't');
            assert(s@[2] == '-');
        }
        BeadId(s)
    }

    /// Parse an id from a string: accepted iff it is "gt-" followed by five
    /// ASCII alphanumerics, case-folded on accept; rejected otherwise, with
    /// the offending input carried in the error.
    pub fn parse(s: &str) -> (r: Result<BeadId, InvalidBeadId>)
        ensures
            r is Ok <==> valid_id_input(s@),
            r matches Ok(id) ==> valid_bead_id(id@) && id_matches_input(id@, s@),
            r matches Err(e) ==> e.0@ == s@,
    {
        if !s.is_ascii() {
            proof {
                if valid_id_input(s@) {
                    assert forall|i: int| 0 <= i < s@.len() implies '\0' <= #[trigger] s@[i]
                        <= '\u{7f}' by {
                        if i >= 3 {
                            assert(spec_alnum(s@[i]));
                        }
                    }
                }
            }
            return Err(InvalidBeadId(s.to_owned()));
        }
        let n = s.unicode_len();
        if n != 8 {
            return Err(InvalidBeadId(s.to_owned()));
        }
        if s.get_ascii(0) != 103 || s.get_ascii(1) != 116 || s.get_ascii(2) != 45 {
            return Err(InvalidBeadId(s.to_owned()));
        }
        let mut bytes: Vec<u8> = Vec::new();
        bytes.push(103);
        bytes.push(116);
        bytes.push(45);
        let mut k: usize = 3;
        while k < 8
            invariant
                3 <= k <= 8,
                s@.len() == 8,
                vstd::string::is_ascii(s),
                bytes@.len() == k,
                bytes@[0] == 103,
                bytes@[1] == 116,
                bytes@[2] == 45,
                forall|i: int| 3 <= i < k ==> spec_alnum(#[trigger] s@[i]),
                forall|i: int|
                    3 <= i < k ==> (#[trigger] bytes@[i]) as int == spec_lower_val(s@[i] as int),
            decreases 8 - k,
        {
            let b = s.get_ascii(k);
            let is_digit = 48 <= b && b <= 57;
            let is_low = 97 <= b && b <= 122;
            let is_up = 65 <= b && b <= 90;
            if !(is_digit || is_low || is_up) {
                proof {
                    assert(s@[k as int] as int == b as int);
                    assert(!spec_alnum(s@[k as int]));
                }
                return Err(InvalidBeadId(s.to_owned()));
            }
            let folded: u8 = if is_up {
                b + 32
            } else {
                b
            };
            bytes.push(folded);
            k += 1;
        }
        let t = string_from_ascii(&bytes);
        proof {
            assert(t@[0] as int == 103 && t@[1] as int == 116 && t@[2] as int == 45);
            assert(t@[0] == 'g' && t@[1] == 't' && t@[2] == '-');
            assert(s@[0] as int == 103 && s@[1] as int == 116 && s@[2] as int == 45);
            assert(s@[0] == 'g' && s@[1] == 't' && s@[2] == '-');
            assert forall|i: int| 0 <= i < 8 implies (#[trigger] t@[i]) as int == spec_lower_val(
                s@[i] as int,
            ) by {}
            assert forall|i: int| 3 <= i < 8 implies spec_stored(#[trigger] t@[i]) by {
                assert(spec_alnum(s@[i]));
            }
        }
        Ok(BeadId(t))
    }

    /// The string form of the id.
    pub fn as_str(&self) -> (r: &str)
        ensures
            r@ == self@,
    {
        self.0.as_str()
    }
}

/// A well-formed stored id is accepted unchanged by the validation that
/// `parse` applies: generated ids always round-trip through `parse`.
pub proof fn lemma_stored_id_parses(s: Seq<char>)
    requires
        valid_bead_id(s),
    ensures
        valid_id_input(s),
        id_matches_input(s, s),
{
    assert forall|i: int| 3 <= i < 8 implies spec_alnum(#[trigger] s[i]) by {
        assert(spec_stored(s[i]));
    }
    assert forall|i: int| 0 <= i < s.len() implies (#[trigger] s[i]) as int == spec_lower_val(
        s[i] as int,
    ) by {
        if 3 <= i < 8 {
            assert(spec_stored(s[i]));
        }
    }
}

// ---------------------------------------------------------------------------
// Task types and provider affinity
// ---------------------------------------------------------------------------

/// Type of task, used for routing to providers.
#[derive(Clone, Copy, Debug, PartialEq, Eq, Structural)]
pub enum TaskType {
    /// Write new code or features.
    Implementation,
    /// Review existing code.
    Review,
    /// Research a topic or solution.
    Research,
    /// Refactor existing code.
    Refactor,
    /// Write or fix tests.
    Test,
    /// Write documentation.
    Documentation,
    /// Debug an issue.
    Debug,
    /// Design architecture or an API.
    Design,
}

impl TaskType {
    /// The best provider for the task type.
    pub open spec fn spec_preferred_provider(self) -> Provider {
        match self {
            TaskType::Implementation => Provider::Nova,
            TaskType::Review => Provider::Codex,
            TaskType::Research => Provider::Gemini,
            TaskType::Refactor => Provider::Nova,
            TaskType::Test => Provider::Codex,
            TaskType::Documentation => Provider::Nova,
            TaskType::Debug => Provider::Codex,
            TaskType::Design => Provider::Nova,
        }
    }

    /// Get the best provider for the task type.
    pub fn preferred_provider(&self) -> (r: Provider)
        ensures
            r == self.spec_preferred_provider(),
    {
        match self {
            TaskType::Implementation => Provider::Nova,
            TaskType::Review => Provider::Codex,
            TaskType::Research => Provider::Gemini,
            TaskType::Refactor => Provider::Nova,
            TaskType::Test => Provider::Codex,
            TaskType::Documentation => Provider::Nova,
            TaskType::Debug => Provider::Codex,
            TaskType::Design => Provider::Nova,
        }
    }

    /// The static affinity table: providers ranked for the task type, each
    /// with a weight in thousandths.
    pub open spec fn spec_affinities(self) -> Seq<(Provider, u32)> {
        match self {
            TaskType::Implementation => seq![
                (Provider::Nova, 1000u32),
                (Provider::Codex, 700u32),
                (Provider::Gemini, 500u32),
            ],
            TaskType::Review => seq![
                (Provider::Codex, 1000u32),
                (Provider::Nova, 800u32),
                (Provider::Gemini, 500u32),
            ],
            TaskType::Research => seq![
                (Provider::Gemini, 1000u32),
                (Provider::Nova, 600u32),
                (Provider::Codex, 400u32),
            ],
            TaskType::Refactor => seq![
                (Provider::Nova, 1000u32),
                (Provider::Codex, 800u32),
                (Provider::Gemini, 400u32),
            ],
            TaskType::Test => seq![
                (Provider::Codex, 1000u32),
                (Provider::Nova, 700u32),
                (Provider::Gemini, 400u32),
            ],
            TaskType::Documentation => seq![
                (Provider::Nova, 1000u32),
                (Provider::Gemini, 700u32),
                (Provider::Codex, 500u32),
            ],
            TaskType::Debug => seq![
                (Provider::Codex, 1000u32),
                (Provider::Nova, 900u32),
                (Provider::Gemini, 400u32),
            ],
            TaskType::Design => seq![
                (Provider::Nova, 1000u32),
                (Provider::Gemini, 600u32),
                (Provider::Codex, 400u32),
            ],
        }
    }

    /// All providers ranked by affinity for the task type, with weights in
    /// thousandths.
    pub fn provider_affinities(&self) -> (r: Vec<(Provider, u32)>)
        ensures
            r@ == self.spec_affinities(),
    {
        let mut v: Vec<(Provider, u32)> = Vec::new();
        match self {
            TaskType::Implementation => {
                v.push((Provider::Nova, 1000));
                v.push((Provider::Codex, 700));
                v.push((Provider::Gemini, 500));
            },
            TaskType::Review => {
                v.push((Provider::Codex, 1000));
                v.push((Provider::Nova, 800));
                v.push((Provider::Gemini, 500));
            },
            TaskType::Research => {
                v.push((Provider::Gemini, 1000));
                v.push((Provider::Nova, 600));
                v.push((Provider::Codex, 400));
            },
            TaskType::Refactor => {
                v.push((Provider::Nova, 1000));
                v.push((Provider::Codex, 800));
                v.push((Provider::Gemini, 400));
            },
            TaskType::Test => {
                v.push((Provider::Codex, 1000));
                v.push((Provider::Nova, 700));
                v.push((Provider::Gemini, 400));
            },
            TaskType::Documentation => {
                v.push((Provider::Nova, 1000));
                v.push((Provider::Gemini, 700));
                v.push((Provider::Codex, 500));
            },
            TaskType::Debug => {
                v.push((Provider::Codex, 1000));
                v.push((Provider::Nova, 900));
                v.push((Provider::Gemini, 400));
            },
            TaskType::Design => {
                v.push((Provider::Nova, 1000));
                v.push((Provider::Gemini, 600));
                v.push((Provider::Codex, 400));
            },
        }
        proof {
            assert(v@ =~= self.spec_affinities());
        }
        v
    }
}

/// The top entry of the affinity table is the preferred provider, with full
/// weight.
pub proof fn lemma_preferred_is_top_affinity(t: TaskType)
    ensures
        t.spec_affinities().len() == 3,
        t.spec_affinities()[0].0 == t.spec_preferred_provider(),
        t.spec_affinities()[0].1 == 1000u32,
{
}

// ---------------------------------------------------------------------------
// Priority
// ---------------------------------------------------------------------------

/// Priority level for a bead; `Low` ranks below `Normal`, which ranks below
/// `High` and `Critical`.
#[derive(Clone, Copy, Debug, PartialEq, Eq, Structural)]
pub enum Priority {
    Low,
    Normal,
    High,
    Critical,
}

impl Priority {
    /// Numeric rank; larger means more urgent.
    pub open spec fn spec_rank(self) -> int {
        match self {
            Priority::Low => 0,
            Priority::Normal => 1,
            Priority::High => 2,
            Priority::Critical => 3,
        }
    }

    /// Numeric rank; larger means more urgent.
    pub fn rank(&self) -> (r: u32)
        ensures
            r == self.spec_rank(),
    {
        match self {
            Priority::Low => 0,
            Priority::Normal => 1,
            Priority::High => 2,
            Priority::Critical => 3,
        }
    }
}

impl Default for Priority {
    /// The default priority is `Normal`.
    fn default() -> (r: Self)
        ensures
            r == Priority::Normal,
    {
        Priority::Normal
    }
}

// ---------------------------------------------------------------------------
// Status and the lifecycle state machine
// ---------------------------------------------------------------------------

/// Status of a bead in the pipeline.
#[derive(Clone, Copy, Debug, PartialEq, Eq, Structural)]
pub enum BeadStatus {
    /// Waiting in queue, not yet processed.
    Pending,
    /// Being optimized before queueing.
    Optimizing,
    /// Ready for execution, waiting for capacity.
    Queued,
    /// Assigned to a worker.
    Assigned,
    /// Currently being executed by a provider.
    InProgress,
    /// Waiting for a rate-limit reset or backoff.
    Deferred,
    /// Output under review.
    Reviewing,
    /// Successfully completed.
    Completed,
    /// Failed after retries.
    Failed,
    /// Cancelled by the user.
    Cancelled,
}

/// Terminal statuses: no further transitions except none.
pub open spec fn spec_is_terminal(s: BeadStatus) -> bool {
    s == BeadStatus::Completed || s == BeadStatus::Failed || s == BeadStatus::Cancelled
}

/// Statuses in which a bead is actively being worked on.
pub open spec fn spec_is_active(s: BeadStatus) -> bool {
    s == BeadStatus::Optimizing || s == BeadStatus::Assigned || s == BeadStatus::InProgress
        || s == BeadStatus::Reviewing
}

/// The legal transitions of the bead state machine.
pub open spec fn legal_transition(from: BeadStatus, to: BeadStatus) -> bool {
    ||| (from == BeadStatus::Pending && to == BeadStatus::Optimizing)
    ||| (from == BeadStatus::Optimizing && to == BeadStatus::Queued)
    ||| (from == BeadStatus::Queued && to == BeadStatus::Assigned)
    ||| (from == BeadStatus::Assigned && to == BeadStatus::InProgress)
    ||| (from == BeadStatus::InProgress && to == BeadStatus::Reviewing)
    ||| (from == BeadStatus::Reviewing && to == BeadStatus::Completed)
    ||| (from == BeadStatus::Reviewing && to == BeadStatus::Failed)
    ||| (from == BeadStatus::InProgress && to == BeadStatus::Failed)
    ||| (!spec_is_terminal(from) && to == BeadStatus::Cancelled)
    ||| (from == BeadStatus::InProgress && to == BeadStatus::Deferred)
    ||| (from == BeadStatus::Assigned && to == BeadStatus::Deferred)
    ||| (from == BeadStatus::Failed && to == BeadStatus::Deferred)
    ||| (from == BeadStatus::Deferred && to == BeadStatus::Queued)
    ||| (from == BeadStatus::Deferred && to == BeadStatus::Pending)
}

impl BeadStatus {
    /// Check if this is a terminal status.
    pub fn is_terminal(&self) -> (r: bool)
        ensures
            r == spec_is_terminal(*self),
    {
        matches!(self, BeadStatus::Completed | BeadStatus::Failed | BeadStatus::Cancelled)
    }

    /// Check if this bead is actively being worked on.
    pub fn is_active(&self) -> (r: bool)
        ensures
            r == spec_is_active(*self),
    {
        matches!(
            self,
            BeadStatus::Optimizing | BeadStatus::Assigned | BeadStatus::InProgress
                | BeadStatus::Reviewing
        )
    }

    /// Whether the state machine allows moving from this status to `to`.
    pub fn can_transition_to(&self, to: BeadStatus) -> (r: bool)
        ensures
            r == legal_transition(*self, to),
    {
        match (self, to) {
            (BeadStatus::Pending, BeadStatus::Optimizing) => true,
            (BeadStatus::Optimizing, BeadStatus::Queued) => true,
            (BeadStatus::Queued, BeadStatus::Assigned) => true,
            (BeadStatus::Assigned, BeadStatus::InProgress) => true,
            (BeadStatus::InProgress, BeadStatus::Reviewing) => true,
            (BeadStatus::Reviewing, BeadStatus::Completed) => true,
            (BeadStatus::Reviewing, BeadStatus::Failed) => true,
            (BeadStatus::InProgress, BeadStatus::Failed) => true,
            (_, BeadStatus::Cancelled) => !self.is_terminal(),
            (BeadStatus::InProgress, BeadStatus::Deferred) => true,
            (BeadStatus::Assigned, BeadStatus::Deferred) => true,
            (BeadStatus::Failed, BeadStatus::Deferred) => true,
            (BeadStatus::Deferred, BeadStatus::Queued) => true,
            (BeadStatus::Deferred, BeadStatus::Pending) => true,
            _ => false,
        }
    }
}

// ---------------------------------------------------------------------------
// The bead itself
// ---------------------------------------------------------------------------

/// A unit of work: what to do, how urgent it is, where it stands in its
/// lifecycle, and what it depends on. Timestamps are milliseconds since the
/// Unix epoch.
#[derive(Clone, Debug)]
pub struct Bead {
    /// Unique identifier.
    pub id: BeadId,
    /// Short descriptive title.
    pub title: String,
    /// Full task description / prompt.
    pub description: String,
    /// Type of task for routing.
    pub task_type: TaskType,
    /// Priority for scheduling.
    pub priority: Priority,
    /// Current status.
    pub status: BeadStatus,
    /// Estimated tokens.
    pub estimated_tokens: u64,
    /// Actual tokens used, after execution.
    pub actual_tokens: Option<u64>,
    /// User-requested provider preference.
    pub preferred_provider: Option<Provider>,
    /// Provider assigned by dispatch.
    pub assigned_provider: Option<Provider>,
    /// Criteria for success.
    pub acceptance_criteria: Vec<String>,
    /// Dependencies on other beads.
    pub dependencies: Vec<BeadId>,
    /// Parent convoy, if part of a batch.
    pub convoy_id: Option<String>,
    /// Creation time.
    pub created_at: i64,
    /// When execution started, if it has.
    pub started_at: Option<i64>,
    /// When the bead reached a terminal status, if it has.
    pub completed_at: Option<i64>,
    /// Earliest retry time while deferred.
    pub deferred_until: Option<i64>,
    /// Optimized prompt, overriding the description when present.
    pub optimized_prompt: Option<String>,
    /// Execution output.
    pub output: Option<String>,
    /// Error message, if failed.
    pub error: Option<String>,
}

/// Does `ids` contain an id with the given character sequence?
pub open spec fn seq_contains_id(ids: Seq<BeadId>, t: Seq<char>) -> bool {
    exists|j: int| 0 <= j < ids.len() && ids[j]@ == t
}

/// Does every dependency appear in `completed`?
pub open spec fn spec_deps_met(deps: Seq<BeadId>, completed: Seq<BeadId>) -> bool {
    forall|i: int| 0 <= i < deps.len() ==> seq_contains_id(completed, #[trigger] deps[i]@)
}

/// Linear scan for an id in a vector of ids.
pub fn contains_id(ids: &Vec<BeadId>, id: &BeadId) -> (r: bool)
    ensures
        r == seq_contains_id(ids@, id@),
{
    let mut j: usize = 0;
    while j < ids.len()
        invariant
            j <= ids@.len(),
            forall|k: int| 0 <= k < j ==> ids@[k]@ != id@,
        decreases ids@.len() - j,
    {
        if &ids[j] == id {
            return true;
        }
        j += 1;
    }
    false
}

impl Bead {
    /// Create a new bead with the minimal required fields: freshly
    /// identified, pending, with default priority and no dependencies.
    pub fn new(title: String, description: String, task_type: TaskType) -> (r: Bead)
        ensures
            valid_bead_id(r.id@),
            r.title == title,
            r.description == description,
            r.task_type == task_type,
            r.priority == Priority::Normal,
            r.status == BeadStatus::Pending,
            r.estimated_tokens == 0,
            r.actual_tokens is None,
            r.preferred_provider is None,
            r.assigned_provider is None,
            r.acceptance_criteria@.len() == 0,
            r.dependencies@.len() == 0,
            r.convoy_id is None,
            0 <= r.created_at <= MAX_TS,
            r.started_at is None,
            r.completed_at is None,
            r.deferred_until is None,
            r.optimized_prompt is None,
            r.output is None,
            r.error is None,
    {
        let now = clock::clamp_ts(clock::now_millis());
        Bead {
            id: BeadId::new(),
            title,
            description,
            task_type,
            priority: Priority::Normal,
            status: BeadStatus::Pending,
            estimated_tokens: 0,
            actual_tokens: None,
            preferred_provider: None,
            assigned_provider: None,
            acceptance_criteria: Vec::new(),
            dependencies: Vec::new(),
            convoy_id: None,
            created_at: now,
            started_at: None,
            completed_at: None,
            deferred_until: None,
            optimized_prompt: None,
            output: None,
            error: None,
        }
    }

    /// Builder: set priority.
    pub fn with_priority(self, priority: Priority) -> (r: Bead)
        ensures
            r == (Bead { priority, ..self }),
    {
        Bead { priority, ..self }
    }

    /// Builder: set preferred provider.
    pub fn with_provider(self, provider: Provider) -> (r: Bead)
        ensures
            r == (Bead { preferred_provider: Some(provider), ..self }),
    {
        Bead { preferred_provider: Some(provider), ..self }
    }

    /// Builder: set acceptance criteria.
    pub fn with_criteria(self, criteria: Vec<String>) -> (r: Bead)
        ensures
            r == (Bead { acceptance_criteria: criteria, ..self }),
    {
        Bead { acceptance_criteria: criteria, ..self }
    }

    /// Builder: set dependencies.
    pub fn with_dependencies(self, deps: Vec<BeadId>) -> (r: Bead)
        ensures
            r == (Bead { dependencies: deps, ..self }),
    {
        Bead { dependencies: deps, ..self }
    }

    /// Builder: set estimated tokens.
    pub fn with_estimate(self, tokens: u64) -> (r: Bead)
        ensures
            r == (Bead { estimated_tokens: tokens, ..self }),
    {
        Bead { estimated_tokens: tokens, ..self }
    }

    /// The prompt to use for execution: the optimized prompt when present
    /// always takes precedence over the raw description.
    pub fn effective_prompt(&self) -> (r: &str)
        ensures
            r@ == match self.optimized_prompt {
                Some(ref p) => p@,
                None => self.description@,
            },
    {
        match &self.optimized_prompt {
            Some(p) => p.as_str(),
            None => self.description.as_str(),
        }
    }

    /// Move the bead to status `to` if the state machine allows it,
    /// recording `now` as the start time on entering execution and as the
    /// completion time on entering a terminal status. An illegal move is
    /// rejected and leaves the bead unchanged.
    pub fn transition(&mut self, to: BeadStatus, now: i64) -> (r: Result<(), crate::error::RigsError>)
        ensures
            r is Ok <==> legal_transition(old(self).status, to),
            r is Ok ==> *final(self) == (Bead {
                status: to,
                started_at: if to == BeadStatus::InProgress {
                    Some(now)
                } else {
                    old(self).started_at
                },
                completed_at: if spec_is_terminal(to) {
                    Some(now)
                } else {
                    old(self).completed_at
                },
                ..*old(self)
            }),
            r matches Err(e) ==> *final(self) == *old(self) && (e matches
                crate::error::RigsError::InvalidStateTransition { from, to: t }
                && from == old(self).status && t == to),
    {
        if !self.status.can_transition_to(to) {
            return Err(crate::error::RigsError::InvalidStateTransition {
                from: self.status,
                to,
            });
        }
        self.status = to;
        if matches!(to, BeadStatus::InProgress) {
            self.started_at = Some(now);
        }
        if to.is_terminal() {
            self.completed_at = Some(now);
        }
        Ok(())
    }

    /// Cancel the bead at time `now`. Cancelling an already-cancelled
    /// bead is a no-op; cancelling a completed or failed bead is an
    /// error; any other status moves to cancelled immediately.
    pub fn cancel(&mut self, now: i64) -> (r: Result<(), crate::error::RigsError>)
        ensures
            r is Ok <==> (old(self).status != BeadStatus::Completed && old(self).status
                != BeadStatus::Failed),
            old(self).status == BeadStatus::Cancelled ==> r is Ok && *final(self) == *old(self),
            (r is Ok && old(self).status != BeadStatus::Cancelled) ==> *final(self) == (Bead {
                status: BeadStatus::Cancelled,
                completed_at: Some(now),
                ..*old(self)
            }),
            r matches Err(e) ==> *final(self) == *old(self) && (e matches
                crate::error::RigsError::InvalidStateTransition { from, to }
                && from == old(self).status && to == BeadStatus::Cancelled),
    {
        if matches!(self.status, BeadStatus::Cancelled) {
            return Ok(());
        }
        if matches!(self.status, BeadStatus::Completed | BeadStatus::Failed) {
            return Err(crate::error::RigsError::InvalidStateTransition {
                from: self.status,
                to: BeadStatus::Cancelled,
            });
        }
        self.status = BeadStatus::Cancelled;
        self.completed_at = Some(now);
        Ok(())
    }

    /// Check if all dependencies appear in the completed set.
    pub fn dependencies_met(&self, completed: &Vec<BeadId>) -> (r: bool)
        ensures
            r == spec_deps_met(self.dependencies@, completed@),
    {
        let mut i: usize = 0;
        while i < self.dependencies.len()
            invariant
                i <= self.dependencies@.len(),
                forall|k: int|
                    0 <= k < i ==> seq_contains_id(completed@, #[trigger] self.dependencies@[k]@),
            decreases self.dependencies@.len() - i,
        {
            if !contains_id(completed, &self.dependencies[i]) {
                return false;
            }
            i += 1;
        }
        true
    }
}

} // verus!
