//! Replay runtime: session states, resource budgets and retry decisions.
use vstd::prelude::*;
use crate::text::{cat3, cat6, str_contains, occurs_in, u64_text, decimal};

verus! {

/// Where a replay session is in its life.
#[derive(Debug, Clone, Copy, PartialEq, Eq, Structural)]
pub enum ReplaySessionStatus {
    Initializing,
    Replaying,
    Verifying,
    Completed,
    Failed,
    TimedOut,
}

/// Creates replay budgets.
pub struct ReplayResourceEnforcer;

/// The resources a replay session may use.
#[derive(Debug, Clone)]
pub struct ReplayBudget {
    pub max_events_per_session: u64,
    pub max_memory_per_session: u64,
    pub max_duration_per_session: u64,
    pub max_concurrent_sessions: usize,
    pub max_checkpoints_per_session: u32,
}

/// Decides whether failed work is retried.
pub struct DeterministicRetryGovernor;

/// Whether and when to retry.
#[derive(Debug, Clone)]
pub struct RetryDecision {
    pub should_retry: bool,
    pub retry_delay_ms: u64,
    pub retry_count: u32,
    pub reason: String,
}

impl ReplayResourceEnforcer {
    /// A new enforcer.
    pub fn new() -> (r: Self) {
        ReplayResourceEnforcer
    }

    /// A budget with the given limits, ten concurrent sessions and a hundred checkpoints
    /// per session.
    pub fn create_budget(max_events: u64, max_memory: u64, max_duration: u64) -> (r: ReplayBudget)
        ensures
            r.max_events_per_session == max_events,
            r.max_memory_per_session == max_memory,
            r.max_duration_per_session == max_duration,
            r.max_concurrent_sessions == 10,
            r.max_checkpoints_per_session == 100,
    {
        ReplayBudget {
            max_events_per_session: max_events,
            max_memory_per_session: max_memory,
            max_duration_per_session: max_duration,
            max_concurrent_sessions: 10,
            max_checkpoints_per_session: 100,
        }
    }
}

/// The delay before retry number `retry_count + 1` after error `error`: by attempt for
/// timeouts (a second) and overloads (five seconds), a tenth of a second for replay
/// errors, half a second otherwise.
pub open spec fn retry_delay(retry_count: u32, error: Seq<char>) -> int {
    if occurs_in("timeout"@, error) {
        1000 * (retry_count + 1)
    } else if occurs_in("overload"@, error) {
        5000 * (retry_count + 1)
    } else if occurs_in("replay"@, error) {
        100
    } else {
        500
    }
}

impl DeterministicRetryGovernor {
    /// A new governor.
    pub fn new() -> (r: Self) {
        DeterministicRetryGovernor
    }

    /// Retries while fewer than `max_retries` retries were made, after the delay that the
    /// error calls for.
    pub fn decide_retry(&self, retry_count: u32, max_retries: u32, error: &str) -> (r: RetryDecision)
        ensures
            if retry_count >= max_retries {
                &&& !r.should_retry
                &&& r.retry_delay_ms == 0
                &&& r.retry_count == retry_count
                &&& r.reason@ == "Max retries ("@ + decimal(max_retries as nat) + ") exceeded"@
            } else {
                &&& r.should_retry
                &&& r.retry_delay_ms == retry_delay(retry_count, error@)
                &&& r.retry_count == retry_count + 1
                &&& r.reason@ == "Retry #"@ + decimal((retry_count + 1) as nat) + " after "@
                    + decimal(retry_delay(retry_count, error@) as nat) + "ms: "@ + error@
            },
    {
        if retry_count >= max_retries {
            return RetryDecision {
                should_retry: false,
                retry_delay_ms: 0,
                retry_count,
                reason: cat3("Max retries (", u64_text(max_retries as u64).as_str(), ") exceeded"),
            };
        }
        let next = retry_count + 1;
        let delay: u64 = if str_contains(error, "timeout") {
            1000 * (next as u64)
        } else if str_contains(error, "overload") {
            5000 * (next as u64)
        } else if str_contains(error, "replay") {
            100
        } else {
            500
        };
        RetryDecision {
            should_retry: true,
            retry_delay_ms: delay,
            retry_count: next,
            reason: cat6("Retry #", u64_text(next as u64).as_str(), " after ", u64_text(delay).as_str(), "ms: ", error),
        }
    }
}

} // verus!

verus! {

/// The resources a replay session has used.
#[derive(Debug, Clone, Copy)]
pub struct ResourceAccount {
    pub events_processed: u64,
    pub memory_used_bytes: u64,
    pub cpu_time_ms: u64,
    pub duration_ms: u64,
    pub checkpoint_count: u32,
    /// The share of the execution envelope used, in thousandths.
    pub envelope_usage_millis: u64,
}

/// A replay of a range of a stream.
#[derive(Debug)]
pub struct ReplaySession {
    pub session_id: u128,
    pub stream_id: String,
    pub replay_range: (u64, u64),
    pub status: ReplaySessionStatus,
    pub resource_accounting: ResourceAccount,
    /// Milliseconds since the Unix epoch.
    pub started_at: i64,
    pub deterministic_key: Vec<u8>,
}

/// The replay sessions running, at most a fixed number at a time.
pub struct ReplayRuntime {
    active_sessions: Vec<ReplaySession>,
    max_concurrent_replays: usize,
}

/// The fields of a session, with strings and bytes by their contents.
pub open spec fn session_view(s: ReplaySession)
    -> (u128, Seq<char>, (u64, u64), ReplaySessionStatus, ResourceAccount, i64, Seq<u8>) {
    (s.session_id, s.stream_id@, s.replay_range, s.status, s.resource_accounting, s.started_at, s.deterministic_key@)
}

/// The position of the first session with id `id`, or -1.
pub open spec fn session_index(s: Seq<ReplaySession>, id: u128) -> int
    decreases s.len(),
{
    if s.len() == 0 {
        -1
    } else {
        let k = session_index(s.drop_last(), id);
        if k >= 0 { k } else if s.last().session_id == id { s.len() - 1 } else { -1 }
    }
}

/// An account with nothing used.
pub open spec fn empty_account(a: ResourceAccount) -> bool {
    a.events_processed == 0 && a.memory_used_bytes == 0 && a.cpu_time_ms == 0 && a.duration_ms == 0
        && a.checkpoint_count == 0 && a.envelope_usage_millis == 0
}

/// The budget violations of an account.
pub open spec fn budget_violations(a: ResourceAccount, b: ReplayBudget) -> Seq<Seq<char>> {
    (if a.events_processed > b.max_events_per_session {
        seq!["Events processed ("@ + decimal(a.events_processed as nat) + ") exceeds budget ("@
            + decimal(b.max_events_per_session as nat) + ")"@]
    } else { Seq::empty() })
    + (if a.memory_used_bytes > b.max_memory_per_session {
        seq!["Memory used ("@ + decimal(a.memory_used_bytes as nat) + " bytes) exceeds budget ("@
            + decimal(b.max_memory_per_session as nat) + " bytes)"@]
    } else { Seq::empty() })
    + (if a.duration_ms > b.max_duration_per_session {
        seq!["Duration ("@ + decimal(a.duration_ms as nat) + "ms) exceeds budget ("@
            + decimal(b.max_duration_per_session as nat) + "ms)"@]
    } else { Seq::empty() })
}

proof fn lemma_session_index_found(s: Seq<ReplaySession>, id: u128, m: int)
    requires
        1 <= m <= s.len(),
        session_index(s.take(m), id) >= 0,
    ensures
        session_index(s, id) == session_index(s.take(m), id),
    decreases s.len() - m,
{
    if m < s.len() {
        assert(s.take(m + 1).drop_last() =~= s.take(m));
        lemma_session_index_found(s, id, m + 1);
    } else {
        assert(s.take(m) =~= s);
    }
}

proof fn lemma_session_index_bounds(s: Seq<ReplaySession>, id: u128)
    ensures
        -1 <= session_index(s, id) < s.len(),
        session_index(s, id) >= 0 ==> s[session_index(s, id)].session_id == id,
    decreases s.len(),
{
    if s.len() > 0 {
        lemma_session_index_bounds(s.drop_last(), id);
    }
}

/// A copy of `s`.
fn copy_session(s: &ReplaySession) -> (r: ReplaySession)
    ensures
        session_view(r) == session_view(*s),
{
    ReplaySession {
        session_id: s.session_id,
        stream_id: s.stream_id.clone(),
        replay_range: s.replay_range,
        status: s.status,
        resource_accounting: s.resource_accounting,
        started_at: s.started_at,
        deterministic_key: crate::crypto::bytes_of(s.deterministic_key.as_slice()),
    }
}

impl ReplayRuntime {
    /// The sessions, oldest first.
    pub closed spec fn sessions(&self) -> Seq<ReplaySession> {
        self.active_sessions@
    }

    /// The most sessions at a time.
    pub closed spec fn capacity(&self) -> usize {
        self.max_concurrent_replays
    }

    /// A runtime with no sessions allowing `max_concurrent` at a time.
    pub fn new(max_concurrent: usize) -> (r: Self)
        ensures
            r.sessions().len() == 0,
            r.capacity() == max_concurrent,
    {
        ReplayRuntime { active_sessions: Vec::new(), max_concurrent_replays: max_concurrent }
    }

    /// The position of the session with id `id`.
    fn find_session(&self, id: u128) -> (r: Option<usize>)
        ensures
            match r {
                Some(i) => i == session_index(self.sessions(), id) && i < self.sessions().len(),
                None => session_index(self.sessions(), id) == -1,
            },
    {
        let ghost s = self.active_sessions@;
        let n = self.active_sessions.len();
        for i in 0..n
            invariant
                n == s.len(),
                s == self.active_sessions@,
                session_index(s.take(i as int), id) == -1,
        {
            proof {
                assert(s.take(i + 1).drop_last() =~= s.take(i as int));
            }
            if self.active_sessions[i].session_id == id {
                proof {
                    lemma_session_index_found(s, id, i + 1);
                }
                return Some(i);
            }
        }
        proof {
            assert(s.take(n as int) =~= s);
        }
        None
    }

    /// Starts a replay of `from..to` of `stream_id` unless the runtime is full. The new
    /// session has a fresh id, is initializing, has used nothing and is kept by the runtime.
    pub fn start_session(&mut self, stream_id: &str, from: u64, to: u64) -> (r: Option<ReplaySession>)
        ensures
            match r {
                None => old(self).sessions().len() >= old(self).capacity()
                    && final(self).sessions() == old(self).sessions(),
                Some(s) => {
                    &&& old(self).sessions().len() < old(self).capacity()
                    &&& s.stream_id@ == stream_id@
                    &&& s.replay_range == (from, to)
                    &&& s.status == ReplaySessionStatus::Initializing
                    &&& empty_account(s.resource_accounting)
                    &&& s.deterministic_key@.len() == 0
                    &&& ({
                        let k = session_index(old(self).sessions(), s.session_id);
                        if k >= 0 {
                            final(self).sessions().len() == old(self).sessions().len()
                                && (forall|i: int| 0 <= i < old(self).sessions().len() && i != k
                                    ==> final(self).sessions()[i] == old(self).sessions()[i])
                                && session_view(final(self).sessions()[k]) == session_view(s)
                        } else {
                            final(self).sessions().len() == old(self).sessions().len() + 1
                                && final(self).sessions().take(old(self).sessions().len() as int) == old(self).sessions()
                                && session_view(final(self).sessions().last()) == session_view(s)
                        }
                    })
                },
            },
            final(self).capacity() == old(self).capacity(),
            old(self).sessions().len() <= old(self).capacity() ==> final(self).sessions().len() <= final(self).capacity(),
    {
        if self.active_sessions.len() >= self.max_concurrent_replays {
            return None;
        }
        let account = ResourceAccount {
            events_processed: 0,
            memory_used_bytes: 0,
            cpu_time_ms: 0,
            duration_ms: 0,
            checkpoint_count: 0,
            envelope_usage_millis: 0,
        };
        let session = ReplaySession {
            session_id: crate::env::fresh_id(),
            stream_id: crate::text::owned(stream_id),
            replay_range: (from, to),
            status: ReplaySessionStatus::Initializing,
            resource_accounting: account,
            started_at: crate::env::now_millis(),
            deterministic_key: Vec::new(),
        };
        let copy = copy_session(&session);
        proof {
            lemma_session_index_bounds(self.active_sessions@, session.session_id);
        }
        match self.find_session(session.session_id) {
            Some(k) => {
                self.active_sessions.set(k, copy);
            },
            None => {
                self.active_sessions.push(copy);
                proof {
                    assert(self.active_sessions@.take(old(self).active_sessions@.len() as int) =~= old(self).active_sessions@);
                }
            },
        }
        Some(session)
    }

    /// Records the resources used by session `session_id`, which is now replaying; an
    /// unknown session changes nothing.
    pub fn update_resource_usage(&mut self, session_id: u128, account: ResourceAccount)
        ensures
            ({
                let k = session_index(old(self).sessions(), session_id);
                if k >= 0 {
                    final(self).sessions() == old(self).sessions().update(k, ReplaySession {
                        resource_accounting: account,
                        status: ReplaySessionStatus::Replaying,
                        ..old(self).sessions()[k]
                    })
                } else {
                    final(self).sessions() == old(self).sessions()
                }
            }),
            final(self).capacity() == old(self).capacity(),
    {
        match self.find_session(session_id) {
            Some(k) => {
                let mut s = self.active_sessions.remove(k);
                s.resource_accounting = account;
                s.status = ReplaySessionStatus::Replaying;
                self.active_sessions.insert(k, s);
                proof {
                    assert(self.active_sessions@ =~= old(self).active_sessions@.update(k as int, s));
                }
            },
            None => {},
        }
    }

    /// Ends session `session_id` as completed or failed and records how long it ran (the
    /// clock's milliseconds since its start, wrapped to an unsigned count); an unknown
    /// session changes nothing.
    pub fn complete_session(&mut self, session_id: u128, success: bool)
        ensures
            ({
                let k = session_index(old(self).sessions(), session_id);
                if k >= 0 {
                    let o = old(self).sessions()[k];
                    let f = final(self).sessions()[k];
                    &&& final(self).sessions().len() == old(self).sessions().len()
                    &&& forall|i: int| 0 <= i < old(self).sessions().len() && i != k
                        ==> final(self).sessions()[i] == old(self).sessions()[i]
                    &&& f.status == (if success { ReplaySessionStatus::Completed } else { ReplaySessionStatus::Failed })
                    &&& f.session_id == o.session_id && f.stream_id == o.stream_id && f.replay_range == o.replay_range
                    &&& f.started_at == o.started_at && f.deterministic_key == o.deterministic_key
                    &&& f.resource_accounting == ResourceAccount { duration_ms: f.resource_accounting.duration_ms, ..o.resource_accounting }
                } else {
                    final(self).sessions() == old(self).sessions()
                }
            }),
            final(self).capacity() == old(self).capacity(),
    {
        match self.find_session(session_id) {
            Some(k) => {
                let mut s = self.active_sessions.remove(k);
                s.status = if success { ReplaySessionStatus::Completed } else { ReplaySessionStatus::Failed };
                let now = crate::env::now_millis();
                let elapsed: i128 = now as i128 - s.started_at as i128;
                s.resource_accounting.duration_ms = #[verifier::truncate] (elapsed as u64);
                self.active_sessions.insert(k, s);
                proof {
                    assert(self.active_sessions@ =~= old(self).active_sessions@.update(k as int, s));
                }
            },
            None => {},
        }
    }

    /// The sessions, oldest first.
    pub fn get_active_sessions(&self) -> (r: Vec<&ReplaySession>)
        ensures
            crate::store::derefs(r@) == self.sessions(),
    {
        let mut r: Vec<&ReplaySession> = Vec::new();
        let n = self.active_sessions.len();
        for i in 0..n
            invariant
                n == self.active_sessions@.len(),
                r@.len() == i,
                forall|j: int| 0 <= j < i ==> *r@[j] == (#[trigger] self.active_sessions@[j]),
        {
            r.push(&self.active_sessions[i]);
        }
        proof {
            assert(crate::store::derefs(r@) =~= self.active_sessions@);
        }
        r
    }

    /// The most sessions at a time.
    pub fn max_concurrent(&self) -> (r: usize)
        ensures
            r == self.capacity(),
    {
        self.max_concurrent_replays
    }
}

impl ReplayResourceEnforcer {
    /// The ways `account` exceeds `budget`: events, memory and duration, in that order.
    pub fn enforce_budget(account: &ResourceAccount, budget: &ReplayBudget) -> (r: Vec<String>)
        ensures
            crate::text::strs_view(r@) == budget_violations(*account, *budget),
    {
        let mut v: Vec<String> = Vec::new();
        if account.events_processed > budget.max_events_per_session {
            let a = u64_text(account.events_processed);
            let b = u64_text(budget.max_events_per_session);
            v.push(crate::text::cat5("Events processed (", a.as_str(), ") exceeds budget (", b.as_str(), ")"));
        }
        let ghost v1 = v@;
        if account.memory_used_bytes > budget.max_memory_per_session {
            let a = u64_text(account.memory_used_bytes);
            let b = u64_text(budget.max_memory_per_session);
            v.push(crate::text::cat5("Memory used (", a.as_str(), " bytes) exceeds budget (", b.as_str(), " bytes)"));
        }
        let ghost v2 = v@;
        if account.duration_ms > budget.max_duration_per_session {
            let a = u64_text(account.duration_ms);
            let b = u64_text(budget.max_duration_per_session);
            v.push(crate::text::cat5("Duration (", a.as_str(), "ms) exceeds budget (", b.as_str(), "ms)"));
        }
        proof {
            assert(crate::text::strs_view(v@) =~= budget_violations(*account, *budget));
        }
        v
    }
}

impl Default for ReplayResourceEnforcer {
    /// The same as `ReplayResourceEnforcer::new()`.
    fn default() -> (r: Self)
    {
        Self::new()
    }
}

impl Default for DeterministicRetryGovernor {
    /// The same as `DeterministicRetryGovernor::new()`.
    fn default() -> (r: Self)
    {
        Self::new()
    }
}

impl Default for ReplayRuntime {
    /// The same as `ReplayRuntime::new(10)`.
    fn default() -> (r: Self)
        ensures
            r.sessions().len() == 0,
            r.capacity() == 10,
    {
        Self::new(10)
    }
}

} // verus!
