//! Task scheduling: task kinds and priorities, execution envelopes and timeouts.
use vstd::prelude::*;
use crate::env::fresh_id;
use crate::text::owned;

verus! {

/// A task waiting for or under execution.
#[derive(Debug, Clone)]
pub struct ScheduledTask {
    pub task_id: u128,
    pub task_type: TaskType,
    pub priority: TaskPriority,
    pub max_duration_ms: u64,
    pub memory_budget_bytes: u64,
    pub deterministic_key: Option<String>,
    pub retry_policy: RetryPolicy,
    /// Milliseconds since the Unix epoch.
    pub submitted_at: i64,
    pub age_count: u64,
}

/// The kind of work a task does.
#[derive(Debug, Clone, Copy, PartialEq, Eq, Structural)]
pub enum TaskType {
    SyncOperation,
    ReplayOperation,
    Reconciliation,
    EventProcessing,
    CheckpointCreation,
    FederationSync,
    GovernanceEvaluation,
    Compaction,
}

/// How urgently a task runs.
#[derive(Debug, Clone, Copy, PartialEq, Eq, PartialOrd, Ord, Structural)]
pub enum TaskPriority {
    Background,
    Normal,
    High,
    Critical,
    Sovereign,
}

/// The execution state of a task.
#[derive(Debug, Clone)]
pub struct TaskState {
    pub task_id: u128,
    pub status: ExecutionStatus,
    /// Milliseconds since the Unix epoch.
    pub started_at: Option<i64>,
    pub retry_count: u32,
    pub error: Option<String>,
}

/// Where a task is in its life.
#[derive(Debug, Clone, Copy, PartialEq, Eq, Structural)]
pub enum ExecutionStatus {
    Queued,
    Running,
    Completed,
    Failed,
    TimedOut,
    Cancelled,
}

/// How a failed task is retried.
#[derive(Debug, Clone)]
pub enum RetryPolicy {
    NoRetry,
    FixedDelay(u32, u64),
    ExponentialBackoff(u32, u64, u64),
}

/// Creates execution envelopes.
pub struct ExecutionEnvelopeEngine;

/// The bounds a task executes within.
#[derive(Debug, Clone)]
pub struct ExecutionEnvelope {
    pub envelope_id: u128,
    pub task_type: TaskType,
    pub max_duration_ms: u64,
    pub max_memory_bytes: u64,
    pub deterministic: bool,
    pub replay_safe: bool,
    pub isolation_group: String,
}

/// A pool of bounded workers.
pub struct BoundedWorkerRuntime;

/// Computes deterministic timeouts.
pub struct DeterministicTimeoutEngine;

/// Contains panics of executed tasks.
pub struct PanicContainmentEngine;

/// The name under which a task type is shown.
pub open spec fn task_type_name(t: TaskType) -> Seq<char> {
    match t {
        TaskType::SyncOperation => "SyncOperation"@,
        TaskType::ReplayOperation => "ReplayOperation"@,
        TaskType::Reconciliation => "Reconciliation"@,
        TaskType::EventProcessing => "EventProcessing"@,
        TaskType::CheckpointCreation => "CheckpointCreation"@,
        TaskType::FederationSync => "FederationSync"@,
        TaskType::GovernanceEvaluation => "GovernanceEvaluation"@,
        TaskType::Compaction => "Compaction"@,
    }
}

impl TaskType {
    /// The name under which the task type is shown.
    pub fn name(&self) -> (r: &'static str)
        ensures
            r@ == task_type_name(*self),
    {
        match self {
            TaskType::SyncOperation => "SyncOperation",
            TaskType::ReplayOperation => "ReplayOperation",
            TaskType::Reconciliation => "Reconciliation",
            TaskType::EventProcessing => "EventProcessing",
            TaskType::CheckpointCreation => "CheckpointCreation",
            TaskType::FederationSync => "FederationSync",
            TaskType::GovernanceEvaluation => "GovernanceEvaluation",
            TaskType::Compaction => "Compaction",
        }
    }
}

/// The level of a priority: background 0, normal 1, high 2, critical 3, sovereign 4.
pub open spec fn priority_level(p: TaskPriority) -> int {
    match p {
        TaskPriority::Background => 0,
        TaskPriority::Normal => 1,
        TaskPriority::High => 2,
        TaskPriority::Critical => 3,
        TaskPriority::Sovereign => 4,
    }
}

/// The score of a priority: a thousand per level above background.
pub open spec fn priority_score(p: TaskPriority) -> i64 {
    match p {
        TaskPriority::Background => 0,
        TaskPriority::Normal => 1000,
        TaskPriority::High => 2000,
        TaskPriority::Critical => 3000,
        TaskPriority::Sovereign => 4000,
    }
}

/// The score of a priority; see `priority_score`.
pub fn priority_to_score(p: TaskPriority) -> (r: i64)
    ensures
        r == priority_score(p),
        r == 1000 * priority_level(p),
{
    match p {
        TaskPriority::Background => 0,
        TaskPriority::Normal => 1000,
        TaskPriority::High => 2000,
        TaskPriority::Critical => 3000,
        TaskPriority::Sovereign => 4000,
    }
}

impl ExecutionEnvelopeEngine {
    /// A new engine.
    pub fn new() -> (r: Self) {
        ExecutionEnvelopeEngine
    }

    /// A deterministic, replay-safe envelope for a task of type `task_type`, isolated in the
    /// group named after the type.
    pub fn create_envelope(&self, task_type: TaskType, duration_ms: u64, memory_bytes: u64) -> (r: ExecutionEnvelope)
        ensures
            r.task_type == task_type,
            r.max_duration_ms == duration_ms,
            r.max_memory_bytes == memory_bytes,
            r.deterministic,
            r.replay_safe,
            r.isolation_group@ == task_type_name(task_type),
    {
        ExecutionEnvelope {
            envelope_id: fresh_id(),
            task_type,
            max_duration_ms: duration_ms,
            max_memory_bytes: memory_bytes,
            deterministic: true,
            replay_safe: true,
            isolation_group: owned(task_type.name()),
        }
    }
}

impl BoundedWorkerRuntime {
    /// A new runtime.
    pub fn new() -> (r: Self) {
        BoundedWorkerRuntime
    }
}

impl PanicContainmentEngine {
    /// A new engine.
    pub fn new() -> (r: Self) {
        PanicContainmentEngine
    }
}

/// The base timeout of a task type, in milliseconds.
pub open spec fn base_timeout(t: TaskType) -> u64 {
    match t {
        TaskType::SyncOperation => 30_000,
        TaskType::ReplayOperation => 300_000,
        TaskType::Reconciliation => 60_000,
        TaskType::EventProcessing => 5_000,
        TaskType::CheckpointCreation => 30_000,
        TaskType::FederationSync => 120_000,
        TaskType::GovernanceEvaluation => 10_000,
        TaskType::Compaction => 300_000,
    }
}

/// The timeout of a task: the larger of its base timeout and its estimate, times one more
/// than its retry count, with the multiplier capped at five.
pub open spec fn timeout_for(t: TaskType, estimated: u64, retry_count: u32) -> int {
    let base = if base_timeout(t) >= estimated { base_timeout(t) } else { estimated };
    let mult = if retry_count + 1 <= 5 { retry_count + 1 } else { 5 };
    base * mult
}

impl DeterministicTimeoutEngine {
    /// A new engine.
    pub fn new() -> (r: Self) {
        DeterministicTimeoutEngine
    }

    /// The timeout of a task; see `timeout_for`.
    pub fn compute_timeout(&self, task_type: TaskType, estimated_duration_ms: u64, retry_count: u32) -> (r: u64)
        requires
            retry_count < u32::MAX,
            timeout_for(task_type, estimated_duration_ms, retry_count) <= u64::MAX,
        ensures
            r == timeout_for(task_type, estimated_duration_ms, retry_count),
    {
        let base: u64 = match task_type {
            TaskType::SyncOperation => 30_000,
            TaskType::ReplayOperation => 300_000,
            TaskType::Reconciliation => 60_000,
            TaskType::EventProcessing => 5_000,
            TaskType::CheckpointCreation => 30_000,
            TaskType::FederationSync => 120_000,
            TaskType::GovernanceEvaluation => 10_000,
            TaskType::Compaction => 300_000,
        };
        let b = if base >= estimated_duration_ms { base } else { estimated_duration_ms };
        let next = retry_count + 1;
        let mult: u32 = if next <= 5 { next } else { 5 };
        b * (mult as u64)
    }
}

} // verus!

verus! {

/// Timestamps within the range of chrono's date-times.
pub open spec fn clock_time(t: i64) -> bool {
    -0x20_0000_0000_0000 < t < 0x20_0000_0000_0000
}

/// The value of bytes read as a little-endian unsigned number.
pub open spec fn le_value(bytes: Seq<u8>) -> nat
    decreases bytes.len(),
{
    if bytes.len() == 0 { 0 } else { (bytes[0] as nat) + 256 * le_value(bytes.drop_first()) }
}

/// The sixteen big-endian bytes of an identifier.
pub open spec fn be_bytes128(id: u128) -> Seq<u8> {
    Seq::new(16, |i: int| ((id as nat / crate::crypto::pow256((15 - i) as nat)) % 256) as u8)
}

/// The sixteen big-endian bytes of `id`, the layout `uuid::Uuid::as_bytes` gives an
/// identifier.
fn id_bytes(id: u128) -> (r: Vec<u8>)
    ensures
        r@ == be_bytes128(id),
{
    let mut out: Vec<u8> = Vec::new();
    for k in 0..16usize
        invariant
            out@.len() == k,
    {
        out.push(0);
    }
    let mut x: u128 = id;
    proof {
        assert(crate::crypto::pow256(0) == 1);
        assert(id as nat / 1 == id as nat);
    }
    for i in 0..16usize
        invariant
            out@.len() == 16,
            x as nat == id as nat / crate::crypto::pow256(i as nat),
            forall|k: int| 16 - i <= k < 16 ==> #[trigger] out@[k] == be_bytes128(id)[k],
    {
        proof {
            crate::crypto::lemma_next_power(id as nat, i as nat);
        }
        out.set(15 - i, (x % 256) as u8);
        x = x / 256;
    }
    proof {
        assert(out@ =~= be_bytes128(id));
    }
    out
}

/// The tiebreaker of a task among tasks of equal score: the first eight bytes of the
/// SHA-256 of the seed (little-endian) and the task's identifier, read little-endian,
/// modulo a thousand.
pub open spec fn tiebreaker(seed: u64, id: u128) -> int {
    (le_value(crate::crypto::sha256_digest(crate::crypto::le_bytes64(seed) + be_bytes128(id)).take(8)) % 1000) as int
}

/// The status recorded for `id`, if any.
pub open spec fn status_of(states: Seq<TaskState>, id: u128) -> Option<ExecutionStatus>
    decreases states.len(),
{
    if states.len() == 0 {
        None
    } else if states[0].task_id == id {
        Some(states[0].status)
    } else {
        status_of(states.drop_first(), id)
    }
}

/// The states with the state of `st.task_id` replaced by `st`, or `st` added after them.
pub open spec fn put_state(states: Seq<TaskState>, st: TaskState) -> Seq<TaskState> {
    if exists|i: int| 0 <= i < states.len() && (#[trigger] states[i]).task_id == st.task_id {
        states.update(choose|i: int| 0 <= i < states.len() && (#[trigger] states[i]).task_id == st.task_id, st)
    } else {
        states.push(st)
    }
}

/// How many states have status `s`.
pub open spec fn count_status(states: Seq<TaskState>, s: ExecutionStatus) -> nat
    decreases states.len(),
{
    if states.len() == 0 { 0 } else { count_status(states.drop_last(), s) + (if states.last().status == s { 1nat } else { 0nat }) }
}

/// The milliseconds from `submitted_at` to `now`, as an unsigned count (a negative span
/// wraps around).
pub open spec fn elapsed_ms(now: i64, submitted_at: i64) -> int {
    if now - submitted_at >= 0 { now - submitted_at } else { 0x1_0000_0000_0000_0000 + (now - submitted_at) }
}

/// The task has run out of time at `now` while queued or running.
pub open spec fn expired(t: ScheduledTask, states: Seq<TaskState>, now: i64) -> bool {
    elapsed_ms(now, t.submitted_at) > t.max_duration_ms
        && (status_of(states, t.task_id) == Some(ExecutionStatus::Queued) || status_of(states, t.task_id) == Some(ExecutionStatus::Running))
}

/// Some task of the queue with identifier `id` has run out of time.
pub open spec fn expires_id(queue: Seq<ScheduledTask>, states: Seq<TaskState>, now: i64, id: u128) -> bool {
    exists|i: int| 0 <= i < queue.len() && (#[trigger] queue[i]).task_id == id && expired(queue[i], states, now)
}

/// The state of a task after timing out the tasks of `queue` that ran out of time.
pub open spec fn timeout_state(st: TaskState, queue: Seq<ScheduledTask>, states: Seq<TaskState>, now: i64) -> TaskState {
    if expires_id(queue, states, now, st.task_id) { TaskState { status: ExecutionStatus::TimedOut, ..st } } else { st }
}

/// The states after timing out every task of `queue` that ran out of time.
pub open spec fn timed_out_states(queue: Seq<ScheduledTask>, states: Seq<TaskState>, now: i64) -> Seq<TaskState> {
    Seq::new(states.len(), |j: int| timeout_state(states[j], queue, states, now))
}

/// A task aged by one step when it is queued in `states` (saturating).
pub open spec fn age_task(t: ScheduledTask, states: Seq<TaskState>) -> ScheduledTask {
    if status_of(states, t.task_id) == Some(ExecutionStatus::Queued) {
        ScheduledTask { age_count: if t.age_count < u64::MAX { (t.age_count + 1) as u64 } else { u64::MAX }, ..t }
    } else {
        t
    }
}

/// The first `n` tasks of the queue after dropping those that ran out of time and ageing
/// the queued ones.
pub open spec fn aged_prefix(queue: Seq<ScheduledTask>, states: Seq<TaskState>, now: i64, n: int) -> Seq<ScheduledTask>
    decreases n,
{
    if n <= 0 {
        Seq::empty()
    } else if expires_id(queue, states, now, queue[n - 1].task_id) {
        aged_prefix(queue, states, now, n - 1)
    } else {
        aged_prefix(queue, states, now, n - 1).push(age_task(queue[n - 1], timed_out_states(queue, states, now)))
    }
}

/// The queue after dropping the tasks that ran out of time and ageing the queued ones.
pub open spec fn aged_queue(queue: Seq<ScheduledTask>, states: Seq<TaskState>, now: i64) -> Seq<ScheduledTask> {
    aged_prefix(queue, states, now, queue.len() as int)
}

/// The scheduling score of a task: its priority's score, its age up to a thousand, and
/// its tiebreaker.
pub open spec fn task_score(t: ScheduledTask, seed: u64) -> int {
    priority_score(t.priority) + (if t.age_count < 1000 { t.age_count as int } else { 1000 }) + tiebreaker(seed, t.task_id)
}

/// The position of the first queued task of highest score among the first `n`, if any.
pub open spec fn best_task(queue: Seq<ScheduledTask>, states: Seq<TaskState>, seed: u64, n: int) -> Option<int>
    decreases n,
{
    if n <= 0 {
        None
    } else {
        let b = best_task(queue, states, seed, n - 1);
        if status_of(states, queue[n - 1].task_id) == Some(ExecutionStatus::Queued)
            && (b is None || task_score(queue[n - 1], seed) > task_score(queue[b->0], seed)) {
            Some(n - 1)
        } else {
            b
        }
    }
}

/// Schedules tasks by priority with ageing against starvation, a deterministic tiebreaker
/// and bounded concurrency; tasks out of time are timed out.
pub struct DeterministicScheduler {
    max_concurrency: usize,
    execution_queue: Vec<ScheduledTask>,
    active_tasks: Vec<TaskState>,
    scheduler_id: u128,
    deterministic_seed: u64,
}

/// The scheduler's queue and concurrency.
#[derive(Debug)]
pub struct SchedulerReport {
    pub scheduler_id: u128,
    pub queue_depth: usize,
    pub active_count: usize,
    pub max_concurrency: usize,
}

impl DeterministicScheduler {
    #[verifier::type_invariant]
    spec fn distinct_states(&self) -> bool {
        &&& forall|i: int, j: int| 0 <= i < j < self.active_tasks@.len() ==>
            (#[trigger] self.active_tasks@[i]).task_id != (#[trigger] self.active_tasks@[j]).task_id
        &&& forall|i: int| 0 <= i < self.execution_queue@.len() ==> clock_time((#[trigger] self.execution_queue@[i]).submitted_at)
    }

    /// The tasks waiting, in submission order.
    pub closed spec fn queue(&self) -> Seq<ScheduledTask> {
        self.execution_queue@
    }

    /// The recorded state of each submitted task.
    pub closed spec fn states(&self) -> Seq<TaskState> {
        self.active_tasks@
    }

    /// The most tasks that may run at once.
    pub closed spec fn concurrency(&self) -> usize {
        self.max_concurrency
    }

    /// The seed of the tiebreaker.
    pub closed spec fn seed(&self) -> u64 {
        self.deterministic_seed
    }

    /// An empty scheduler running at most `max_concurrency` tasks at once, with seed 42.
    pub fn new(max_concurrency: usize) -> (r: Self)
        ensures
            r.queue().len() == 0,
            r.states().len() == 0,
            r.concurrency() == max_concurrency,
            r.seed() == 42,
    {
        DeterministicScheduler {
            max_concurrency,
            execution_queue: Vec::new(),
            active_tasks: Vec::new(),
            scheduler_id: fresh_id(),
            deterministic_seed: 42,
        }
    }

    /// The scheduler with tiebreaker seed `seed`.
    pub fn with_seed(self, seed: u64) -> (r: Self)
        ensures
            r.queue() == self.queue(),
            r.states() == self.states(),
            r.concurrency() == self.concurrency(),
            r.seed() == seed,
    {
        let mut s = self;
        proof {
            use_type_invariant(&s);
        }
        s.deterministic_seed = seed;
        s
    }

    fn position_of(&self, id: u128) -> (r: Option<usize>)
        ensures
            match r {
                Some(i) => i < self.states().len() && self.states()[i as int].task_id == id,
                None => forall|i: int| 0 <= i < self.states().len() ==> (#[trigger] self.states()[i]).task_id != id,
            },
    {
        let n = self.active_tasks.len();
        for i in 0..n
            invariant
                n == self.active_tasks@.len(),
                forall|j: int| 0 <= j < i ==> (#[trigger] self.active_tasks@[j]).task_id != id,
        {
            if self.active_tasks[i].task_id == id {
                return Some(i);
            }
        }
        None
    }

    /// Queues `task`, recording it as queued (a task submitted again starts over).
    pub fn submit(&mut self, task: ScheduledTask)
        requires
            clock_time(task.submitted_at),
        ensures
            final(self).queue() == old(self).queue().push(task),
            final(self).states() == put_state(old(self).states(), TaskState {
                task_id: task.task_id, status: ExecutionStatus::Queued, started_at: None, retry_count: 0, error: None }),
            final(self).concurrency() == old(self).concurrency(),
            final(self).seed() == old(self).seed(),
    {
        proof {
            use_type_invariant(&*self);
        }
        let state = TaskState { task_id: task.task_id, status: ExecutionStatus::Queued, started_at: None, retry_count: 0, error: None };
        let pos = self.position_of(task.task_id);
        let ghost s = self.active_tasks@;
        let mut states: Vec<TaskState> = Vec::new();
        std::mem::swap(&mut states, &mut self.active_tasks);
        match pos {
            Some(i) => {
                proof {
                    assert forall|k: int| 0 <= k < s.len() && (#[trigger] s[k]).task_id == task.task_id implies k == i by {
                        if k != i as int {
                            if k < i as int { assert(s[k].task_id != s[i as int].task_id); }
                            else { assert(s[i as int].task_id != s[k].task_id); }
                        }
                    }
                }
                states.set(i, state);
            },
            None => {
                states.push(state);
            },
        }
        self.active_tasks = states;
        let mut queue: Vec<ScheduledTask> = Vec::new();
        std::mem::swap(&mut queue, &mut self.execution_queue);
        queue.push(task);
        self.execution_queue = queue;
    }
}

proof fn lemma_le_value_bound(b: Seq<u8>)
    ensures
        le_value(b) < crate::crypto::pow256(b.len()),
    decreases b.len(),
{
    if b.len() > 0 {
        lemma_le_value_bound(b.drop_first());
        assert(crate::crypto::pow256(b.len()) == 256 * crate::crypto::pow256((b.len() - 1) as nat));
    }
}

proof fn lemma_status_of_index(states: Seq<TaskState>, i: int)
    requires
        0 <= i < states.len(),
        forall|a: int, b: int| 0 <= a < b < states.len() ==> (#[trigger] states[a]).task_id != (#[trigger] states[b]).task_id,
    ensures
        status_of(states, states[i].task_id) == Some(states[i].status),
    decreases states.len(),
{
    if i > 0 {
        assert(states[0].task_id != states[i].task_id);
        let t = states.drop_first();
        assert forall|a: int, b: int| 0 <= a < b < t.len() implies (#[trigger] t[a]).task_id != (#[trigger] t[b]).task_id by {
            assert(t[a] == states[a + 1] && t[b] == states[b + 1]);
        }
        lemma_status_of_index(t, i - 1);
    }
}

proof fn lemma_status_of_absent(states: Seq<TaskState>, id: u128)
    requires
        forall|i: int| 0 <= i < states.len() ==> (#[trigger] states[i]).task_id != id,
    ensures
        status_of(states, id) is None,
    decreases states.len(),
{
    if states.len() > 0 {
        let t = states.drop_first();
        assert forall|i: int| 0 <= i < t.len() implies (#[trigger] t[i]).task_id != id by {
            assert(t[i] == states[i + 1]);
        }
        lemma_status_of_absent(t, id);
    }
}

proof fn lemma_count_status_bound(states: Seq<TaskState>, s: ExecutionStatus)
    ensures
        count_status(states, s) <= states.len(),
    decreases states.len(),
{
    if states.len() > 0 {
        lemma_count_status_bound(states.drop_last(), s);
    }
}

impl DeterministicScheduler {
    fn status_in(&self, id: u128) -> (r: Option<ExecutionStatus>)
        ensures
            r == status_of(self.states(), id),
    {
        proof {
            use_type_invariant(self);
        }
        match self.position_of(id) {
            Some(i) => {
                proof {
                    lemma_status_of_index(self.active_tasks@, i as int);
                }
                Some(self.active_tasks[i].status)
            },
            None => {
                proof {
                    lemma_status_of_absent(self.active_tasks@, id);
                }
                None
            },
        }
    }

    fn count_in(&self, s: ExecutionStatus) -> (r: usize)
        ensures
            r == count_status(self.states(), s),
    {
        let n = self.active_tasks.len();
        let mut c: usize = 0;
        for i in 0..n
            invariant
                n == self.active_tasks@.len(),
                c == count_status(self.active_tasks@.take(i as int), s),
                c <= i,
        {
            assert(self.active_tasks@.take(i + 1).drop_last() =~= self.active_tasks@.take(i as int));
            if self.active_tasks[i].status == s {
                c = c + 1;
            }
        }
        assert(self.active_tasks@.take(n as int) =~= self.active_tasks@);
        c
    }

    /// The tiebreaker of task `id`; see `tiebreaker`.
    pub fn tiebreaker_of(&self, id: u128) -> (r: i64)
        ensures
            r == tiebreaker(self.seed(), id),
    {
        let seed_bytes = crate::crypto::u64_le(self.deterministic_seed);
        let idb = id_bytes(id);
        let input = crate::crypto::concat_bytes(seed_bytes.as_slice(), idb.as_slice());
        let digest = crate::crypto::sha256(input.as_slice());
        let ghost b = digest@.take(8);
        let mut v: u64 = 0;
        let mut i: usize = 8;
        proof {
            assert(b.subrange(8, 8) =~= Seq::<u8>::empty());
        }
        while i > 0
            invariant
                i <= 8,
                digest@.len() == 32,
                b == digest@.take(8),
                v == le_value(b.subrange(i as int, 8)),
            decreases i,
        {
            i = i - 1;
            proof {
                assert(b.subrange(i as int, 8).drop_first() =~= b.subrange(i + 1, 8));
                lemma_le_value_bound(b.subrange(i as int, 8));
                lemma_pow256_eight();
                lemma_pow256_mono((8 - i) as nat, 8);
            }
            v = digest[i] as u64 + 256 * v;
        }
        assert(b.subrange(0, 8) =~= b);
        (v % 1000) as i64
    }
}

proof fn lemma_pow256_eight()
    ensures
        crate::crypto::pow256(8) == 0x1_0000_0000_0000_0000,
{
    assert(crate::crypto::pow256(0) == 1);
    assert(crate::crypto::pow256(1) == 0x100);
    assert(crate::crypto::pow256(2) == 0x1_0000);
    assert(crate::crypto::pow256(3) == 0x100_0000);
    assert(crate::crypto::pow256(4) == 0x1_0000_0000);
    assert(crate::crypto::pow256(5) == 0x100_0000_0000);
    assert(crate::crypto::pow256(6) == 0x1_0000_0000_0000);
    assert(crate::crypto::pow256(7) == 0x100_0000_0000_0000);
}

proof fn lemma_pow256_mono(a: nat, b: nat)
    requires
        a <= b,
    ensures
        crate::crypto::pow256(a) <= crate::crypto::pow256(b),
    decreases b,
{
    if a < b {
        lemma_pow256_mono(a, (b - 1) as nat);
        assert(crate::crypto::pow256(b) == 256 * crate::crypto::pow256((b - 1) as nat));
    }
}

fn ids_contain(v: &Vec<u128>, id: u128) -> (r: bool)
    ensures
        r == v@.contains(id),
{
    let n = v.len();
    for i in 0..n
        invariant
            n == v@.len(),
            forall|j: int| 0 <= j < i ==> v@[j] != id,
    {
        if v[i] == id {
            assert(v@[i as int] == id);
            return true;
        }
    }
    false
}

impl DeterministicScheduler {
    /// What picking the next task at time `now` does, leaving `after` and returning `r`.
    /// With as many tasks running as allowed, nothing happens. Otherwise the queued or
    /// running tasks that ran out of time are timed out and dropped from the queue, the
    /// queued tasks age by one step, and the queued task of highest score (the first among
    /// equals) leaves the queue and is returned.
    pub open spec fn schedules(&self, after: Self, r: Option<ScheduledTask>, now: i64) -> bool {
        &&& after.concurrency() == self.concurrency()
        &&& after.seed() == self.seed()
        &&& count_status(self.states(), ExecutionStatus::Running) >= self.concurrency() ==> {
            &&& r is None
            &&& after.queue() == self.queue()
            &&& after.states() == self.states()
        }
        &&& count_status(self.states(), ExecutionStatus::Running) < self.concurrency() ==> {
            let st = timed_out_states(self.queue(), self.states(), now);
            let q = aged_queue(self.queue(), self.states(), now);
            &&& after.states() == st
            &&& match best_task(q, st, self.seed(), q.len() as int) {
                Some(b) => r == Some(q[b]) && after.queue() == q.remove(b),
                None => r is None && after.queue() == q,
            }
        }
    }

    /// Picks the next task at time `now`, as `schedules` says.
    pub fn schedule_next_at(&mut self, now: i64) -> (r: Option<ScheduledTask>)
        requires
            clock_time(now),
        ensures
            old(self).schedules(*final(self), r, now),
    {
        proof {
            use_type_invariant(&*self);
        }
        let running = self.count_in(ExecutionStatus::Running);
        if running >= self.max_concurrency {
            return None;
        }
        let ghost queue0 = self.execution_queue@;
        let ghost states0 = self.active_tasks@;
        let n = self.execution_queue.len();
        let mut expired_ids: Vec<u128> = Vec::new();
        for k in 0..n
            invariant
                n == queue0.len(),
                queue0 == self.execution_queue@,
                states0 == self.active_tasks@,
                clock_time(now),
                forall|i: int| 0 <= i < queue0.len() ==> clock_time((#[trigger] queue0[i]).submitted_at),
                forall|id: u128| expired_ids@.contains(id) <==> exists|i: int| 0 <= i < k && (#[trigger] queue0[i]).task_id == id
                    && expired(queue0[i], states0, now),
        {
            let t = &self.execution_queue[k];
            assert(clock_time(queue0[k as int].submitted_at));
            let diff: i64 = now - t.submitted_at;
            let elapsed: u64 = if diff >= 0 { diff as u64 } else { u64::MAX - ((-diff - 1) as u64) };
            assert(elapsed == elapsed_ms(now, t.submitted_at));
            let ghost before = expired_ids@;
            if elapsed > t.max_duration_ms {
                let st = self.status_in(t.task_id);
                match st {
                    Some(ExecutionStatus::Queued) | Some(ExecutionStatus::Running) => {
                        expired_ids.push(t.task_id);
                    },
                    _ => {},
                }
            }
            proof {
                assert forall|id: u128| expired_ids@.contains(id) <==> exists|i: int| 0 <= i < k + 1
                    && (#[trigger] queue0[i]).task_id == id && expired(queue0[i], states0, now) by {
                    if expired_ids@.contains(id) && !before.contains(id) {
                        assert(expired_ids@ == before.push(queue0[k as int].task_id));
                        let j = choose|j: int| 0 <= j < expired_ids@.len() && expired_ids@[j] == id;
                        assert(j == before.len());
                        assert(queue0[k as int].task_id == id);
                    }
                    if before.contains(id) {
                        let j = choose|j: int| 0 <= j < before.len() && before[j] == id;
                        assert(expired_ids@[j] == id);
                    }
                    if exists|i: int| 0 <= i < k + 1 && (#[trigger] queue0[i]).task_id == id && expired(queue0[i], states0, now) {
                        let i = choose|i: int| 0 <= i < k + 1 && (#[trigger] queue0[i]).task_id == id && expired(queue0[i], states0, now);
                        if i == k {
                            assert(expired_ids@ == before.push(id));
                            assert(expired_ids@[before.len() as int] == id);
                        }
                    }
                }
            }
        }
        assert(forall|id: u128| expired_ids@.contains(id) <==> expires_id(queue0, states0, now, id));
        // time out the expired tasks
        let mut states: Vec<TaskState> = Vec::new();
        std::mem::swap(&mut states, &mut self.active_tasks);
        let m = states.len();
        for j in 0..m
            invariant
                m == states@.len(),
                m == states0.len(),
                forall|id: u128| expired_ids@.contains(id) <==> expires_id(queue0, states0, now, id),
                forall|q: int| 0 <= q < j ==> #[trigger] states@[q] == timeout_state(states0[q], queue0, states0, now),
                forall|q: int| j <= q < m ==> #[trigger] states@[q] == states0[q],
        {
            if ids_contain(&expired_ids, states[j].task_id) {
                let mut slot = TaskState { task_id: 0, status: ExecutionStatus::Queued, started_at: None, retry_count: 0, error: None };
                states.set_and_swap(j, &mut slot);
                slot.status = ExecutionStatus::TimedOut;
                states.set_and_swap(j, &mut slot);
            }
        }
        assert(states@ =~= timed_out_states(queue0, states0, now));
        proof {
            assert forall|a: int, b: int| 0 <= a < b < states@.len() implies
                (#[trigger] states@[a]).task_id != (#[trigger] states@[b]).task_id by {
                assert(states@[a].task_id == states0[a].task_id);
                assert(states@[b].task_id == states0[b].task_id);
            }
        }
        self.active_tasks = states;
        // drop expired tasks and age the queued ones
        let mut old_q: Vec<ScheduledTask> = Vec::new();
        std::mem::swap(&mut old_q, &mut self.execution_queue);
        let mut new_q: Vec<ScheduledTask> = Vec::new();
        let mut k: usize = 0;
        while k < n
            invariant
                n == queue0.len(),
                k <= n,
                old_q@ == queue0.subrange(k as int, n as int),
                self.active_tasks@ == timed_out_states(queue0, states0, now),
                self.deterministic_seed == old(self).deterministic_seed,
                self.max_concurrency == old(self).max_concurrency,
                forall|i: int| 0 <= i < queue0.len() ==> clock_time((#[trigger] queue0[i]).submitted_at),
                forall|i: int| 0 <= i < new_q@.len() ==> clock_time((#[trigger] new_q@[i]).submitted_at),
                forall|id: u128| expired_ids@.contains(id) <==> expires_id(queue0, states0, now, id),
                new_q@ == aged_prefix(queue0, states0, now, k as int),
            decreases n - k,
        {
            let mut t = old_q.remove(0);
            assert(t == queue0[k as int]);
            assert(old_q@ =~= queue0.subrange(k + 1, n as int));
            if !ids_contain(&expired_ids, t.task_id) {
                let st = self.status_in(t.task_id);
                match st {
                    Some(ExecutionStatus::Queued) => {
                        t.age_count = if t.age_count < u64::MAX { t.age_count + 1 } else { u64::MAX };
                    },
                    _ => {},
                }
                new_q.push(t);
            }
            k = k + 1;
        }
        self.execution_queue = new_q;
        let ghost q = self.execution_queue@;
        let ghost st = self.active_tasks@;
        assert(q == aged_queue(queue0, states0, now));
        // pick the best queued task
        let len = self.execution_queue.len();
        let mut best: Option<usize> = None;
        let mut best_score: i64 = i64::MIN;
        for i in 0..len
            invariant
                len == q.len(),
                q == self.execution_queue@,
                st == self.active_tasks@,
                best matches Some(b) ==> b < i && best_score == task_score(q[b as int], self.deterministic_seed),
                best is None ==> best_score == i64::MIN,
                (match best { Some(b) => Some(b as int), None => None }) == best_task(q, st, self.deterministic_seed, i as int),
        {
            let t = &self.execution_queue[i];
            match self.status_in(t.task_id) {
                Some(ExecutionStatus::Queued) => {
                    let age: i64 = if t.age_count < 1000 { t.age_count as i64 } else { 1000 };
                    let tb = self.tiebreaker_of(t.task_id);
                    let score = priority_to_score(t.priority) + age + tb;
                    if score > best_score {
                        best_score = score;
                        best = Some(i);
                    }
                },
                _ => {},
            }
        }
        match best {
            Some(b) => {
                let mut queue: Vec<ScheduledTask> = Vec::new();
                std::mem::swap(&mut queue, &mut self.execution_queue);
                let t = queue.remove(b);
                proof {
                    assert forall|i: int| 0 <= i < queue@.len() implies clock_time((#[trigger] queue@[i]).submitted_at) by {
                        if i < b { assert(queue@[i] == q[i]); } else { assert(queue@[i] == q[i + 1]); }
                    }
                }
                self.execution_queue = queue;
                Some(t)
            },
            None => None,
        }
    }

    /// Picks the next task at the time the clock gives, as `schedules` says.
    pub fn schedule_next(&mut self) -> (r: Option<ScheduledTask>)
        ensures
            exists|now: i64| clock_time(now) && #[trigger] old(self).schedules(*final(self), r, now),
    {
        let now = crate::env::now_millis();
        let r = self.schedule_next_at(now);
        assert(old(self).schedules(*self, r, now));
        r
    }

    /// Cancels task `task_id`: it leaves the queue, and a queued or running task becomes
    /// cancelled. Returns whether either happened.
    pub fn cancel_task(&mut self, task_id: u128) -> (r: bool)
        ensures
            final(self).queue() == keep_other_tasks(old(self).queue(), task_id),
            final(self).concurrency() == old(self).concurrency(),
            final(self).seed() == old(self).seed(),
            match status_of(old(self).states(), task_id) {
                Some(s) => (s == ExecutionStatus::Queued || s == ExecutionStatus::Running) ==>
                    final(self).states() == put_state(old(self).states(), TaskState { status: ExecutionStatus::Cancelled,
                        ..old(self).states()[state_index(old(self).states(), task_id)] }),
                None => true,
            },
            !(status_of(old(self).states(), task_id) == Some(ExecutionStatus::Queued)
                || status_of(old(self).states(), task_id) == Some(ExecutionStatus::Running)) ==> final(self).states() == old(self).states(),
            r == (final(self).queue().len() < old(self).queue().len()
                || status_of(old(self).states(), task_id) == Some(ExecutionStatus::Queued)
                || status_of(old(self).states(), task_id) == Some(ExecutionStatus::Running)),
    {
        proof {
            use_type_invariant(&*self);
        }
        let ghost queue0 = self.execution_queue@;
        let mut old_q: Vec<ScheduledTask> = Vec::new();
        std::mem::swap(&mut old_q, &mut self.execution_queue);
        let before = old_q.len();
        let mut kept: Vec<ScheduledTask> = Vec::new();
        let mut k: usize = 0;
        while k < before
            invariant
                before == queue0.len(),
                k <= before,
                old_q@ == queue0.subrange(k as int, before as int),
                kept@ == keep_other_tasks(queue0.take(k as int), task_id),
                kept@.len() <= k,
                forall|i: int| 0 <= i < queue0.len() ==> clock_time((#[trigger] queue0[i]).submitted_at),
                forall|i: int| 0 <= i < kept@.len() ==> clock_time((#[trigger] kept@[i]).submitted_at),
            decreases before - k,
        {
            let t = old_q.remove(0);
            assert(t == queue0[k as int]);
            assert(old_q@ =~= queue0.subrange(k + 1, before as int));
            assert(queue0.take(k + 1).drop_last() =~= queue0.take(k as int));
            if t.task_id != task_id {
                kept.push(t);
            }
            k = k + 1;
        }
        assert(queue0.take(before as int) =~= queue0);
        let removed = before > kept.len();
        self.execution_queue = kept;
        let pos = self.position_of(task_id);
        match pos {
            Some(i) => {
                proof {
                    lemma_status_of_index(self.active_tasks@, i as int);
                    lemma_state_index(self.active_tasks@, i as int);
                }
                let status = self.active_tasks[i].status;
                match status {
                    ExecutionStatus::Queued | ExecutionStatus::Running => {
                        let ghost s0 = self.active_tasks@;
                        let mut states: Vec<TaskState> = Vec::new();
                        std::mem::swap(&mut states, &mut self.active_tasks);
                        let mut slot = TaskState { task_id: 0, status: ExecutionStatus::Queued, started_at: None, retry_count: 0, error: None };
                        states.set_and_swap(i, &mut slot);
                        slot.status = ExecutionStatus::Cancelled;
                        let ghost cancelled = slot;
                        states.set_and_swap(i, &mut slot);
                        proof {
                            lemma_put_existing(s0, i as int, cancelled);
                            assert forall|a: int, b: int| 0 <= a < b < states@.len() implies
                                (#[trigger] states@[a]).task_id != (#[trigger] states@[b]).task_id by {
                                assert(states@[a].task_id == s0[a].task_id);
                                assert(states@[b].task_id == s0[b].task_id);
                            }
                        }
                        self.active_tasks = states;
                        true
                    },
                    _ => removed,
                }
            },
            None => {
                proof {
                    lemma_status_of_absent(self.active_tasks@, task_id);
                }
                removed
            },
        }
    }
}

/// The tasks of `queue` other than `id`, in order.
pub open spec fn keep_other_tasks(queue: Seq<ScheduledTask>, id: u128) -> Seq<ScheduledTask>
    decreases queue.len(),
{
    if queue.len() == 0 {
        Seq::empty()
    } else if queue.last().task_id != id {
        keep_other_tasks(queue.drop_last(), id).push(queue.last())
    } else {
        keep_other_tasks(queue.drop_last(), id)
    }
}

/// The position of the state of `id` (meaningful when there is one).
pub open spec fn state_index(states: Seq<TaskState>, id: u128) -> int {
    choose|i: int| 0 <= i < states.len() && (#[trigger] states[i]).task_id == id
}

proof fn lemma_state_index(states: Seq<TaskState>, i: int)
    requires
        0 <= i < states.len(),
        forall|a: int, b: int| 0 <= a < b < states.len() ==> (#[trigger] states[a]).task_id != (#[trigger] states[b]).task_id,
    ensures
        state_index(states, states[i].task_id) == i,
{
    let j = state_index(states, states[i].task_id);
    if j != i {
        if j < i { assert(states[j].task_id != states[i].task_id); } else { assert(states[i].task_id != states[j].task_id); }
    }
}

proof fn lemma_put_existing(states: Seq<TaskState>, i: int, st: TaskState)
    requires
        0 <= i < states.len(),
        st.task_id == states[i].task_id,
        forall|a: int, b: int| 0 <= a < b < states.len() ==> (#[trigger] states[a]).task_id != (#[trigger] states[b]).task_id,
    ensures
        put_state(states, st) == states.update(i, st),
{
    let j = choose|j: int| 0 <= j < states.len() && (#[trigger] states[j]).task_id == st.task_id;
    if j != i {
        if j < i { assert(states[j].task_id != states[i].task_id); } else { assert(states[i].task_id != states[j].task_id); }
    }
}

impl DeterministicScheduler {
    /// Records task `task_id` as completed or failed, when it has a state.
    pub fn complete_task(&mut self, task_id: u128, success: bool)
        ensures
            final(self).queue() == old(self).queue(),
            final(self).concurrency() == old(self).concurrency(),
            final(self).seed() == old(self).seed(),
            status_of(old(self).states(), task_id) is Some ==> final(self).states() == put_state(old(self).states(), TaskState {
                status: if success { ExecutionStatus::Completed } else { ExecutionStatus::Failed },
                ..old(self).states()[state_index(old(self).states(), task_id)] }),
            status_of(old(self).states(), task_id) is None ==> final(self).states() == old(self).states(),
    {
        proof {
            use_type_invariant(&*self);
        }
        match self.position_of(task_id) {
            Some(i) => {
                proof {
                    lemma_status_of_index(self.active_tasks@, i as int);
                    lemma_state_index(self.active_tasks@, i as int);
                }
                let ghost s0 = self.active_tasks@;
                let mut states: Vec<TaskState> = Vec::new();
                std::mem::swap(&mut states, &mut self.active_tasks);
                let mut slot = TaskState { task_id: 0, status: ExecutionStatus::Queued, started_at: None, retry_count: 0, error: None };
                states.set_and_swap(i, &mut slot);
                slot.status = if success { ExecutionStatus::Completed } else { ExecutionStatus::Failed };
                let ghost done = slot;
                states.set_and_swap(i, &mut slot);
                proof {
                    lemma_put_existing(s0, i as int, done);
                    assert forall|a: int, b: int| 0 <= a < b < states@.len() implies
                        (#[trigger] states@[a]).task_id != (#[trigger] states@[b]).task_id by {
                        assert(states@[a].task_id == s0[a].task_id);
                        assert(states@[b].task_id == s0[b].task_id);
                    }
                }
                self.active_tasks = states;
            },
            None => {
                proof {
                    lemma_status_of_absent(self.active_tasks@, task_id);
                }
            },
        }
    }

    /// The queue depth and the number of running tasks.
    pub fn get_state(&self) -> (r: SchedulerReport)
        ensures
            r.queue_depth == self.queue().len(),
            r.active_count == count_status(self.states(), ExecutionStatus::Running),
            r.max_concurrency == self.concurrency(),
    {
        SchedulerReport {
            scheduler_id: self.scheduler_id,
            queue_depth: self.execution_queue.len(),
            active_count: self.count_in(ExecutionStatus::Running),
            max_concurrency: self.max_concurrency,
        }
    }

    /// The number of timed-out tasks.
    pub fn timed_out_count(&self) -> (r: usize)
        ensures
            r == count_status(self.states(), ExecutionStatus::TimedOut),
    {
        self.count_in(ExecutionStatus::TimedOut)
    }

    /// The number of cancelled tasks.
    pub fn cancelled_count(&self) -> (r: usize)
        ensures
            r == count_status(self.states(), ExecutionStatus::Cancelled),
    {
        self.count_in(ExecutionStatus::Cancelled)
    }
}

/// Priority scores rise a thousand per level: background 0, normal 1000, high 2000,
/// critical 3000, sovereign 4000.
pub proof fn lemma_priority_scores()
    ensures
        priority_score(TaskPriority::Background) == 0,
        priority_score(TaskPriority::Normal) == 1000,
        priority_score(TaskPriority::High) == 2000,
        priority_score(TaskPriority::Critical) == 3000,
        priority_score(TaskPriority::Sovereign) == 4000,
        forall|p: TaskPriority, q: TaskPriority| priority_level(p) < priority_level(q)
            ==> #[trigger] priority_score(p) + 1000 <= #[trigger] priority_score(q),
{
}

/// The tiebreaker lies below a thousand.
proof fn lemma_tiebreaker_bounds(seed: u64, id: u128)
    ensures
        0 <= tiebreaker(seed, id) < 1000,
{
}

/// The task chosen among the first `n` is queued and has the highest score among the
/// queued ones; nothing is chosen only when none of them is queued.
pub proof fn lemma_best_task_highest(queue: Seq<ScheduledTask>, states: Seq<TaskState>, seed: u64, n: int)
    requires
        0 <= n <= queue.len(),
    ensures
        best_task(queue, states, seed, n) is None <==> forall|j: int| 0 <= j < n
            ==> status_of(states, (#[trigger] queue[j]).task_id) != Some(ExecutionStatus::Queued),
        best_task(queue, states, seed, n) matches Some(k) ==> {
            &&& 0 <= k < n
            &&& status_of(states, queue[k].task_id) == Some(ExecutionStatus::Queued)
            &&& forall|j: int| 0 <= j < n && status_of(states, (#[trigger] queue[j]).task_id) == Some(ExecutionStatus::Queued)
                ==> task_score(queue[j], seed) <= task_score(queue[k], seed)
            &&& forall|j: int| 0 <= j < k && status_of(states, (#[trigger] queue[j]).task_id) == Some(ExecutionStatus::Queued)
                ==> task_score(queue[j], seed) < task_score(queue[k], seed)
        },
    decreases n,
{
    if n > 0 {
        lemma_best_task_highest(queue, states, seed, n - 1);
    }
}

/// Ageing raises a task's score one point per step, up to a thousand steps: of two tasks
/// alike but for their age, the older scores higher while it is under a thousand steps
/// old, and ageing beyond a thousand steps adds nothing.
pub proof fn lemma_age_bonus(t: ScheduledTask, u: ScheduledTask, seed: u64)
    requires
        t.priority == u.priority,
        t.task_id == u.task_id,
    ensures
        t.age_count < u.age_count <= 1000 ==> task_score(u, seed) == task_score(t, seed) + (u.age_count - t.age_count),
        1000 <= t.age_count && 1000 <= u.age_count ==> task_score(t, seed) == task_score(u, seed),
{
}

/// Among queued tasks of equal age, the task scheduled has the highest priority level:
/// a queued task of a higher level is always picked before one of a lower level.
pub proof fn lemma_scheduled_has_top_priority(queue: Seq<ScheduledTask>, states: Seq<TaskState>, seed: u64, n: int, j: int)
    requires
        0 <= n <= queue.len(),
        0 <= j < n,
        status_of(states, queue[j].task_id) == Some(ExecutionStatus::Queued),
        best_task(queue, states, seed, n) matches Some(k) && queue[k].age_count == queue[j].age_count,
    ensures
        best_task(queue, states, seed, n) matches Some(k)
            && priority_level(queue[j].priority) <= priority_level(queue[k].priority),
{
    lemma_best_task_highest(queue, states, seed, n);
    let k = best_task(queue, states, seed, n)->0;
    lemma_tiebreaker_bounds(seed, queue[j].task_id);
    lemma_tiebreaker_bounds(seed, queue[k].task_id);
    lemma_priority_scores();
    assert(task_score(queue[j], seed) <= task_score(queue[k], seed));
    if priority_level(queue[j].priority) > priority_level(queue[k].priority) {
        assert(priority_score(queue[k].priority) + 1000 <= priority_score(queue[j].priority));
        assert(false);
    }
}

/// Recording the state `st` among task states whose ids are distinct makes the status of
/// `st` the one found for its task. `submit` records a task's state as `Queued`, so a
/// submitted task is then found queued.
pub proof fn lemma_submitted_is_queued(states: Seq<TaskState>, st: TaskState)
    requires
        forall|a: int, b: int| 0 <= a < b < states.len() ==> (#[trigger] states[a]).task_id != (#[trigger] states[b]).task_id,
    ensures
        status_of(put_state(states, st), st.task_id) == Some(st.status),
{
    let t = put_state(states, st);
    if exists|i: int| 0 <= i < states.len() && (#[trigger] states[i]).task_id == st.task_id {
        let i = choose|i: int| 0 <= i < states.len() && (#[trigger] states[i]).task_id == st.task_id;
        assert forall|a: int, b: int| 0 <= a < b < t.len() implies (#[trigger] t[a]).task_id != (#[trigger] t[b]).task_id by {
            assert(t[a].task_id == states[a].task_id);
            assert(t[b].task_id == states[b].task_id);
        }
        lemma_status_of_index(t, i);
    } else {
        assert forall|a: int, b: int| 0 <= a < b < t.len() implies (#[trigger] t[a]).task_id != (#[trigger] t[b]).task_id by {
            if b == states.len() {
                assert(t[a] == states[a]);
            }
        }
        lemma_status_of_index(t, states.len() as int);
    }
}

} // verus!

verus! {

/// Tracks load against a threshold and engages degradation while overloaded.
pub struct OverloadController {
    pub controller_id: u128,
    /// The last assessed load, in thousandths of capacity, rounded down (saturating).
    pub current_load_millis: u64,
    /// The load from which the controller is overloaded, in thousandths.
    pub overload_threshold_millis: u64,
    pub is_overloaded: bool,
    /// Milliseconds since the Unix epoch at which the current overload began.
    pub degraded_since: Option<i64>,
    pub rejection_count: u64,
}

/// The state of a worker pool.
#[derive(Debug)]
pub struct WorkerPoolState {
    pub pool_id: u128,
    pub max_workers: usize,
    pub active_workers: usize,
    pub queue_depth: usize,
    /// The share of workers active, in thousandths, rounded down (0 for no workers),
    /// saturating at the largest `u64`.
    pub saturation_millis: u64,
}

/// `active` of `max` in thousandths, rounded down; 0 when `max` is 0.
pub open spec fn share_millis(active: int, max: int) -> int {
    if max > 0 { (1000 * active) / max } else { 0 }
}

/// `active` of `max` in thousandths, rounded down, saturating at the largest `u64`.
pub open spec fn share_capped(active: int, max: int) -> int {
    if share_millis(active, max) <= u64::MAX { share_millis(active, max) } else { u64::MAX as int }
}

/// `active` of `max` in thousandths, rounded down, saturating at the largest `u64`.
fn share_of(active: usize, max: usize) -> (r: u64)
    ensures
        r == share_capped(active as int, max as int),
{
    if max > 0 {
        let a = active as u128;
        let m = max as u128;
        let q = (1000 * a) / m;
        if q > 0xffff_ffff_ffff_ffff {
            0xffff_ffff_ffff_ffff
        } else {
            q as u64
        }
    } else {
        0
    }
}

impl OverloadController {
    /// A controller that is not overloaded, overloaded from `threshold_millis` thousandths.
    pub fn new(threshold_millis: u64) -> (r: Self)
        ensures
            r.current_load_millis == 0,
            r.overload_threshold_millis == threshold_millis,
            !r.is_overloaded,
            r.degraded_since is None,
            r.rejection_count == 0,
    {
        OverloadController {
            controller_id: fresh_id(),
            current_load_millis: 0,
            overload_threshold_millis: threshold_millis,
            is_overloaded: false,
            degraded_since: None,
            rejection_count: 0,
        }
    }

    /// Assesses the load of `active_tasks` of `max_tasks` and returns it in thousandths.
    /// The controller is overloaded while the load reaches the threshold; entering
    /// overload records when, leaving it clears that.
    pub fn assess_load(&mut self, active_tasks: usize, max_tasks: usize) -> (r: u64)
        ensures
            r == share_capped(active_tasks as int, max_tasks as int),
            final(self).current_load_millis == r,
            final(self).is_overloaded == (r >= old(self).overload_threshold_millis),
            final(self).is_overloaded && !old(self).is_overloaded ==> final(self).degraded_since is Some,
            !final(self).is_overloaded && old(self).is_overloaded ==> final(self).degraded_since is None,
            final(self).is_overloaded == old(self).is_overloaded ==> final(self).degraded_since == old(self).degraded_since,
            final(self).overload_threshold_millis == old(self).overload_threshold_millis,
            final(self).controller_id == old(self).controller_id,
            final(self).rejection_count == old(self).rejection_count,
    {
        let load = share_of(active_tasks, max_tasks);
        self.current_load_millis = load;
        let was_overloaded = self.is_overloaded;
        self.is_overloaded = load >= self.overload_threshold_millis;
        if self.is_overloaded && !was_overloaded {
            self.degraded_since = Some(crate::env::now_millis());
        } else if !self.is_overloaded && was_overloaded {
            self.degraded_since = None;
        }
        load
    }

    /// Whether new work is rejected: while overloaded.
    pub fn should_reject(&self) -> (r: bool)
        ensures
            r == self.is_overloaded,
    {
        self.is_overloaded
    }
}

impl BoundedWorkerRuntime {
    /// The state of a pool of `max` workers, `active` of them busy, with `queue` waiting.
    pub fn compute_pool_state(active: usize, max: usize, queue: usize) -> (r: WorkerPoolState)
        ensures
            r.max_workers == max,
            r.active_workers == active,
            r.queue_depth == queue,
            r.saturation_millis == share_capped(active as int, max as int),
    {
        WorkerPoolState {
            pool_id: fresh_id(),
            max_workers: max,
            active_workers: active,
            queue_depth: queue,
            saturation_millis: share_of(active, max),
        }
    }
}

impl Default for ExecutionEnvelopeEngine {
    /// The same as `ExecutionEnvelopeEngine::new()`.
    fn default() -> (r: Self)
    {
        Self::new()
    }
}

impl Default for BoundedWorkerRuntime {
    /// The same as `BoundedWorkerRuntime::new()`.
    fn default() -> (r: Self)
    {
        Self::new()
    }
}

impl Default for PanicContainmentEngine {
    /// The same as `PanicContainmentEngine::new()`.
    fn default() -> (r: Self)
    {
        Self::new()
    }
}

impl Default for DeterministicTimeoutEngine {
    /// The same as `DeterministicTimeoutEngine::new()`.
    fn default() -> (r: Self)
    {
        Self::new()
    }
}

impl Default for DeterministicScheduler {
    /// The same as `DeterministicScheduler::new(64)`.
    fn default() -> (r: Self)
        ensures
            r.queue().len() == 0,
            r.states().len() == 0,
            r.concurrency() == 64,
            r.seed() == 42,
    {
        Self::new(64)
    }
}

impl Default for OverloadController {
    /// The same as `OverloadController::new(800)`.
    fn default() -> (r: Self)
        ensures
            r.current_load_millis == 0,
            r.overload_threshold_millis == 800,
            !r.is_overloaded,
            r.degraded_since is None,
            r.rejection_count == 0,
    {
        Self::new(800)
    }
}

} // verus!
