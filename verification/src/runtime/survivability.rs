//! Survivability testing: scenario outcomes, replay corruption, continuity and
//! degradation levels.
use vstd::prelude::*;
use crate::env::fresh_id;
use crate::text::{owned, strs_view, cat2, u64_text, decimal};

verus! {

/// Runs survivability scenarios.
pub struct SurvivabilityTestEngine;

/// A survivability scenario.
#[derive(Debug, Clone)]
pub struct SurvivabilityScenario {
    pub scenario_id: u128,
    pub name: String,
    pub scenario_type: SurvivabilityScenarioType,
    pub duration_secs: u64,
    pub severity: ScenarioSeverity,
    pub expected_survival: bool,
}

/// The kind of disruption a scenario simulates.
#[derive(Debug, Clone, Copy, PartialEq, Eq, Structural)]
pub enum SurvivabilityScenarioType {
    LongOffline,
    SovereignBlackout,
    InfrastructureCollapse,
    ReplayCorruption,
    ByzantineFederation,
    SplitBrainChaos,
    ReplayExhaustion,
    DegradedMode,
    TopologyFracture,
}

/// How severe a scenario is.
#[derive(Debug, Clone, Copy, PartialEq, Eq, PartialOrd, Ord, Structural)]
pub enum ScenarioSeverity {
    Low,
    Medium,
    High,
    Critical,
    Catastrophic,
}

/// The outcome of a scenario.
#[derive(Debug)]
pub struct SurvivabilityTestResult {
    pub scenario_id: u128,
    pub survived: bool,
    pub data_integrity: bool,
    pub replay_safety: bool,
    pub recovery_possible: bool,
    pub recovery_time_ms: u64,
    pub failure_modes: Vec<String>,
}

/// Simulates blackouts.
pub struct BlackoutSimulator;

/// The outcome of a blackout.
#[derive(Debug)]
pub struct BlackoutResult {
    pub scenario_id: u128,
    pub blackout_duration_secs: u64,
    pub nodes_offline: Vec<String>,
    pub data_preserved: bool,
    pub self_healed: bool,
}

/// Injects replay corruption.
pub struct ReplayChaosEngine;

/// The outcome of injected replay corruption.
#[derive(Debug)]
pub struct ReplayChaosResult {
    pub scenario_id: u128,
    pub corruption_detected: bool,
    pub detection_latency_ms: u64,
    pub auto_healing_triggered: bool,
    pub integrity_restored: bool,
}

/// Simulates infrastructure collapse.
pub struct InfrastructureCollapseEngine;

/// The outcome of an infrastructure collapse.
#[derive(Debug)]
pub struct CollapseResult {
    pub scenario_id: u128,
    pub total_failures: u32,
    pub federation_survived: bool,
    pub sovereign_nodes_survived: u32,
    pub recovery_possible: bool,
    pub estimated_recovery_days: u32,
}

/// Validates operational continuity.
pub struct ContinuityValidator;

/// Whether continuity was preserved through an offline period.
#[derive(Debug)]
pub struct ContinuityVerification {
    pub domain: String,
    pub offline_duration_secs: u64,
    pub continuity_preserved: bool,
    pub checkpoint_available: bool,
    pub replay_verified: bool,
}

/// Simulates degradation.
pub struct DegradationSimulator;

/// How far the system is degraded.
#[derive(Debug, Clone, Copy, PartialEq, Eq, PartialOrd, Ord, Structural)]
pub enum DegradationLevel {
    NoDegradation,
    Mild,
    Moderate,
    Severe,
    Critical,
}

/// Aggregate replay resource use across sessions.
#[derive(Debug)]
pub struct ReplayExhaustionReport {
    pub total_events_processed: u64,
    pub total_memory_used: u64,
    pub total_duration_ms: u64,
    pub session_count: u64,
    pub exhaustion_risk: ExhaustionRisk,
    pub recommendations: Vec<String>,
}

/// How close replay resources are to exhaustion.
#[derive(Debug, Clone, Copy, PartialEq, Eq, Structural)]
pub enum ExhaustionRisk {
    Low,
    Medium,
    High,
    Exhausted,
}

/// Simulates overload spikes.
pub struct OverloadChaosEngine;

/// The rank of a severity, lowest first.
pub open spec fn severity_rank(s: ScenarioSeverity) -> int {
    match s {
        ScenarioSeverity::Low => 0,
        ScenarioSeverity::Medium => 1,
        ScenarioSeverity::High => 2,
        ScenarioSeverity::Critical => 3,
        ScenarioSeverity::Catastrophic => 4,
    }
}

/// Whether the system survives a scenario: long offline periods under ninety days, replay
/// exhaustion under an hour, blackouts, Byzantine federation and topology fractures up to
/// high severity, and always replay corruption, split-brain chaos and degraded mode;
/// never infrastructure collapse.
pub open spec fn scenario_survived(s: SurvivabilityScenario) -> bool {
    match s.scenario_type {
        SurvivabilityScenarioType::LongOffline => s.duration_secs < 7_776_000,
        SurvivabilityScenarioType::SovereignBlackout => severity_rank(s.severity) <= 2,
        SurvivabilityScenarioType::InfrastructureCollapse => false,
        SurvivabilityScenarioType::ReplayCorruption => true,
        SurvivabilityScenarioType::ByzantineFederation => severity_rank(s.severity) <= 2,
        SurvivabilityScenarioType::SplitBrainChaos => true,
        SurvivabilityScenarioType::ReplayExhaustion => s.duration_secs < 3600,
        SurvivabilityScenarioType::DegradedMode => true,
        SurvivabilityScenarioType::TopologyFracture => severity_rank(s.severity) <= 2,
    }
}

impl SurvivabilityTestEngine {
    /// A new engine.
    pub fn new() -> (r: Self) {
        SurvivabilityTestEngine
    }

    /// Runs `scenario`; see `scenario_survived`.
    pub fn execute_scenario(&self, scenario: SurvivabilityScenario) -> (r: SurvivabilityTestResult)
        requires
            scenario.duration_secs * 100 <= u64::MAX,
        ensures
            r.scenario_id == scenario.scenario_id,
            r.survived == scenario_survived(scenario),
            r.data_integrity == r.survived,
            r.replay_safety == (scenario.scenario_type != SurvivabilityScenarioType::ReplayCorruption || r.survived),
            r.recovery_possible == (r.survived || scenario.expected_survival),
            r.recovery_time_ms == scenario.duration_secs * 100,
            strs_view(r.failure_modes@) == if r.survived {
                Seq::<Seq<char>>::empty()
            } else {
                seq!["System did not survive scenario"@]
            },
    {
        let within_high = match scenario.severity {
            ScenarioSeverity::Low | ScenarioSeverity::Medium | ScenarioSeverity::High => true,
            _ => false,
        };
        let survived = match scenario.scenario_type {
            SurvivabilityScenarioType::LongOffline => scenario.duration_secs < 7_776_000,
            SurvivabilityScenarioType::SovereignBlackout => within_high,
            SurvivabilityScenarioType::InfrastructureCollapse => false,
            SurvivabilityScenarioType::ReplayCorruption => true,
            SurvivabilityScenarioType::ByzantineFederation => within_high,
            SurvivabilityScenarioType::SplitBrainChaos => true,
            SurvivabilityScenarioType::ReplayExhaustion => scenario.duration_secs < 3600,
            SurvivabilityScenarioType::DegradedMode => true,
            SurvivabilityScenarioType::TopologyFracture => within_high,
        };
        let mut failure_modes: Vec<String> = Vec::new();
        if !survived {
            failure_modes.push(owned("System did not survive scenario"));
        }
        assert(strs_view(failure_modes@) =~= if survived {
            Seq::<Seq<char>>::empty()
        } else {
            seq!["System did not survive scenario"@]
        });
        SurvivabilityTestResult {
            scenario_id: scenario.scenario_id,
            survived,
            data_integrity: survived,
            replay_safety: scenario.scenario_type != SurvivabilityScenarioType::ReplayCorruption || survived,
            recovery_possible: survived || scenario.expected_survival,
            recovery_time_ms: scenario.duration_secs * 100,
            failure_modes,
        }
    }
}

impl BlackoutSimulator {
    /// A new simulator.
    pub fn new() -> (r: Self) {
        BlackoutSimulator
    }

    /// Simulates a blackout of `duration_secs` seconds over `total_nodes` nodes: nine
    /// tenths of the nodes (rounded down) go offline, named `node-0`, `node-1`, ...; data
    /// is preserved, and the network heals itself when the blackout lasts under a day.
    pub fn simulate_blackout(&self, duration_secs: u64, total_nodes: u32) -> (r: BlackoutResult)
        ensures
            r.blackout_duration_secs == duration_secs,
            r.nodes_offline@.len() == (9 * total_nodes as int) / 10,
            forall|i: int| 0 <= i < r.nodes_offline@.len()
                ==> (#[trigger] r.nodes_offline@[i])@ == "node-"@ + decimal(i as nat),
            r.data_preserved,
            r.self_healed == (duration_secs < 86_400),
    {
        let offline_count: u64 = (9 * total_nodes as u64) / 10;
        let mut nodes: Vec<String> = Vec::new();
        let mut i: u64 = 0;
        while i < offline_count
            invariant
                i <= offline_count,
                nodes@.len() == i,
                forall|j: int| 0 <= j < i ==> (#[trigger] nodes@[j])@ == "node-"@ + decimal(j as nat),
            decreases offline_count - i,
        {
            let t = u64_text(i);
            nodes.push(cat2("node-", t.as_str()));
            i = i + 1;
        }
        BlackoutResult {
            scenario_id: fresh_id(),
            blackout_duration_secs: duration_secs,
            nodes_offline: nodes,
            data_preserved: true,
            self_healed: duration_secs < 86_400,
        }
    }
}

impl ReplayChaosEngine {
    /// A new engine.
    pub fn new() -> (r: Self) {
        ReplayChaosEngine
    }

    /// Injects corruption at event `corrupt_event_index` of a stream of `total_events`
    /// events: it is detected, healed and restored exactly when the index lies in the stream.
    pub fn inject_replay_corruption(&self, _stream_id: &str, corrupt_event_index: u64, total_events: u64) -> (r: ReplayChaosResult)
        ensures
            r.corruption_detected == (corrupt_event_index < total_events),
            r.detection_latency_ms == if r.corruption_detected { 50u64 } else { 0u64 },
            r.auto_healing_triggered == r.corruption_detected,
            r.integrity_restored == r.corruption_detected,
    {
        let detected = corrupt_event_index < total_events;
        ReplayChaosResult {
            scenario_id: fresh_id(),
            corruption_detected: detected,
            detection_latency_ms: if detected { 50 } else { 0 },
            auto_healing_triggered: detected,
            integrity_restored: detected,
        }
    }
}

impl InfrastructureCollapseEngine {
    /// A new engine.
    pub fn new() -> (r: Self) {
        InfrastructureCollapseEngine
    }
}

impl ContinuityValidator {
    /// A new validator.
    pub fn new() -> (r: Self) {
        ContinuityValidator
    }

    /// Continuity is preserved when a checkpoint exists and fewer than a million events
    /// have been written since it.
    pub fn verify_continuity(&self, domain: &str, offline_secs: u64, checkpoint_depth: u64, events_since_checkpoint: u64) -> (r: ContinuityVerification)
        ensures
            r.domain@ == domain@,
            r.offline_duration_secs == offline_secs,
            r.continuity_preserved == (checkpoint_depth > 0 && events_since_checkpoint < 1_000_000),
            r.checkpoint_available == (checkpoint_depth > 0),
            r.replay_verified == r.continuity_preserved,
    {
        let preserved = checkpoint_depth > 0 && events_since_checkpoint < 1_000_000;
        ContinuityVerification {
            domain: owned(domain),
            offline_duration_secs: offline_secs,
            continuity_preserved: preserved,
            checkpoint_available: checkpoint_depth > 0,
            replay_verified: preserved,
        }
    }
}

/// The outcome of a degradation simulation.
#[derive(Debug)]
pub struct DegradationSimulation {
    pub scenario_id: u128,
    pub initial_level: DegradationLevel,
    pub final_level: DegradationLevel,
    pub preservation_triggered: bool,
    pub escalation_triggered: bool,
    pub recovery_possible: bool,
    pub degradation_duration_secs: u64,
    pub integrity_preserved: bool,
}

/// The rank of a degradation level, mildest first.
pub open spec fn degradation_rank(l: DegradationLevel) -> int {
    match l {
        DegradationLevel::NoDegradation => 0,
        DegradationLevel::Mild => 1,
        DegradationLevel::Moderate => 2,
        DegradationLevel::Severe => 3,
        DegradationLevel::Critical => 4,
    }
}

/// The number of whole hours in `secs`, as a 32-bit signed count (wrapping).
pub open spec fn hour_factor(secs: u64) -> i32 {
    ((secs / 3600) as i32)
}

/// The extra levels a load increase (in thousandths) causes: two above 0.8, one above 0.5.
pub open spec fn load_factor(load_millis: u64) -> int {
    if load_millis > 800 { 2 } else if load_millis > 500 { 1 } else { 0 }
}

/// The level reached: the initial rank plus the hours plus the load factor, read as a
/// level (anything from four up, or below zero, is critical).
pub open spec fn final_level(initial: DegradationLevel, secs: u64, load_millis: u64) -> DegradationLevel {
    let total = degradation_rank(initial) + hour_factor(secs) + load_factor(load_millis);
    if total == 0 {
        DegradationLevel::NoDegradation
    } else if total == 1 {
        DegradationLevel::Mild
    } else if total == 2 {
        DegradationLevel::Moderate
    } else if total == 3 {
        DegradationLevel::Severe
    } else {
        DegradationLevel::Critical
    }
}

impl DegradationSimulator {
    /// A new simulator.
    pub fn new() -> (r: Self) {
        DegradationSimulator
    }

    /// Simulates degradation from `initial` over `duration_secs` seconds with a load
    /// increase of `load_increase_millis` thousandths. Preservation starts from a moderate
    /// level and escalation from a severe one; recovery and integrity hold short of
    /// critical.
    pub fn simulate_degradation(&self, initial: DegradationLevel, duration_secs: u64, load_increase_millis: u64) -> (r: DegradationSimulation)
        requires
            degradation_rank(initial) + hour_factor(duration_secs) + load_factor(load_increase_millis) <= i32::MAX,
        ensures
            r.initial_level == initial,
            r.final_level == final_level(initial, duration_secs, load_increase_millis),
            r.preservation_triggered == (degradation_rank(r.final_level) >= 2),
            r.escalation_triggered == (degradation_rank(r.final_level) >= 3),
            r.recovery_possible == (degradation_rank(r.final_level) < 4),
            r.integrity_preserved == (degradation_rank(r.final_level) < 4),
            r.degradation_duration_secs == duration_secs,
    {
        let base: i32 = match initial {
            DegradationLevel::NoDegradation => 0,
            DegradationLevel::Mild => 1,
            DegradationLevel::Moderate => 2,
            DegradationLevel::Severe => 3,
            DegradationLevel::Critical => 4,
        };
        let hours: i32 = #[verifier::truncate] ((duration_secs / 3600) as i32);
        let load: i32 = if load_increase_millis > 800 { 2 } else if load_increase_millis > 500 { 1 } else { 0 };
        let total = base + hours + load;
        let level = if total == 0 {
            DegradationLevel::NoDegradation
        } else if total == 1 {
            DegradationLevel::Mild
        } else if total == 2 {
            DegradationLevel::Moderate
        } else if total == 3 {
            DegradationLevel::Severe
        } else {
            DegradationLevel::Critical
        };
        let rank: i32 = match level {
            DegradationLevel::NoDegradation => 0,
            DegradationLevel::Mild => 1,
            DegradationLevel::Moderate => 2,
            DegradationLevel::Severe => 3,
            DegradationLevel::Critical => 4,
        };
        DegradationSimulation {
            scenario_id: fresh_id(),
            initial_level: initial,
            final_level: level,
            preservation_triggered: rank >= 2,
            escalation_triggered: rank >= 3,
            recovery_possible: rank < 4,
            degradation_duration_secs: duration_secs,
            integrity_preserved: rank < 4,
        }
    }
}

/// A replay session's resource use.
#[derive(Debug, Clone)]
pub struct ReplayExhaustionSample {
    /// Milliseconds since the Unix epoch.
    pub timestamp: i64,
    pub events_processed: u64,
    pub memory_used: u64,
    pub duration_ms: u64,
}

/// Tracks the resources used by replay sessions.
pub struct ReplayExhaustionEngine {
    session_history: Vec<ReplayExhaustionSample>,
}

/// The events of the first `k` samples.
pub open spec fn events_total(s: Seq<ReplayExhaustionSample>, k: int) -> int
    decreases k,
{
    if k <= 0 { 0 } else { events_total(s, k - 1) + s[k - 1].events_processed }
}

/// The memory of the first `k` samples.
pub open spec fn memory_total(s: Seq<ReplayExhaustionSample>, k: int) -> int
    decreases k,
{
    if k <= 0 { 0 } else { memory_total(s, k - 1) + s[k - 1].memory_used }
}

/// The duration of the first `k` samples.
pub open spec fn duration_total(s: Seq<ReplayExhaustionSample>, k: int) -> int
    decreases k,
{
    if k <= 0 { 0 } else { duration_total(s, k - 1) + s[k - 1].duration_ms }
}

/// `total` of `max` reaches `num / den`; with no maximum, any use does.
pub open spec fn share_reaches(total: int, max: int, num: int, den: int) -> bool {
    if max == 0 { total > 0 } else { den * total >= num * max }
}

/// The greatest share of the three resources reaches `num / den`.
pub open spec fn any_reaches(e: int, me: int, m: int, mm: int, d: int, md: int, num: int, den: int) -> bool {
    share_reaches(e, me, num, den) || share_reaches(m, mm, num, den) || share_reaches(d, md, num, den)
}

fn reaches_share(total: u64, max: u64, num: u64, den: u64) -> (r: bool)
    requires
        num <= 10,
        den <= 10,
    ensures
        r == share_reaches(total as int, max as int, num as int, den as int),
{
    if max == 0 {
        total > 0
    } else {
        let (dn, t, nm, mx) = (den as u128, total as u128, num as u128, max as u128);
        proof {
            assert(dn * t <= 10 * 0xffff_ffff_ffff_ffffu128) by (nonlinear_arith)
                requires dn <= 10, t <= 0xffff_ffff_ffff_ffffu128;
            assert(nm * mx <= 10 * 0xffff_ffff_ffff_ffffu128) by (nonlinear_arith)
                requires nm <= 10, mx <= 0xffff_ffff_ffff_ffffu128;
        }
        dn * t >= nm * mx
    }
}

impl ReplayExhaustionEngine {
    /// The sessions recorded so far.
    pub closed spec fn samples(&self) -> Seq<ReplayExhaustionSample> {
        self.session_history@
    }

    /// An engine with no sessions.
    pub fn new() -> (r: Self)
        ensures
            r.samples().len() == 0,
    {
        ReplayExhaustionEngine { session_history: Vec::new() }
    }

    /// Records a session's use.
    pub fn record_session(&mut self, events: u64, memory: u64, duration_ms: u64)
        ensures
            final(self).samples().len() == old(self).samples().len() + 1,
            final(self).samples().take(old(self).samples().len() as int) == old(self).samples(),
            final(self).samples().last().events_processed == events,
            final(self).samples().last().memory_used == memory,
            final(self).samples().last().duration_ms == duration_ms,
    {
        self.session_history.push(ReplayExhaustionSample {
            timestamp: crate::env::now_millis(),
            events_processed: events,
            memory_used: memory,
            duration_ms,
        });
        proof {
            assert(self.session_history@.take(old(self).session_history@.len() as int) =~= old(self).session_history@);
        }
    }

    /// Totals the recorded use and rates the risk of exhaustion by the greatest share of
    /// the three limits used (a resource with a zero limit counts as exhausted once used):
    /// exhausted from all of it, high from 80%, medium from 50%.
    pub fn assess_exhaustion(&self, max_total_events: u64, max_total_memory: u64, max_total_duration_ms: u64) -> (r: ReplayExhaustionReport)
        requires
            events_total(self.samples(), self.samples().len() as int) <= u64::MAX,
            memory_total(self.samples(), self.samples().len() as int) <= u64::MAX,
            duration_total(self.samples(), self.samples().len() as int) <= u64::MAX,
        ensures
            r.total_events_processed == events_total(self.samples(), self.samples().len() as int),
            r.total_memory_used == memory_total(self.samples(), self.samples().len() as int),
            r.total_duration_ms == duration_total(self.samples(), self.samples().len() as int),
            r.session_count == self.samples().len(),
            ({
                let (e, m, d) = (r.total_events_processed as int, r.total_memory_used as int, r.total_duration_ms as int);
                let (me, mm, md) = (max_total_events as int, max_total_memory as int, max_total_duration_ms as int);
                r.exhaustion_risk == if any_reaches(e, me, m, mm, d, md, 1, 1) {
                    ExhaustionRisk::Exhausted
                } else if any_reaches(e, me, m, mm, d, md, 8, 10) {
                    ExhaustionRisk::High
                } else if any_reaches(e, me, m, mm, d, md, 5, 10) {
                    ExhaustionRisk::Medium
                } else {
                    ExhaustionRisk::Low
                }
            }),
            strs_view(r.recommendations@) == match r.exhaustion_risk {
                ExhaustionRisk::High | ExhaustionRisk::Exhausted =>
                    seq!["Throttle new replay sessions"@, "Increase replay resource budgets"@],
                ExhaustionRisk::Medium => seq!["Monitor replay resource consumption"@],
                ExhaustionRisk::Low => Seq::<Seq<char>>::empty(),
            },
    {
        let s = &self.session_history;
        let n = s.len();
        let mut e: u64 = 0;
        let mut m: u64 = 0;
        let mut d: u64 = 0;
        for i in 0..n
            invariant
                n == s@.len(),
                s@ == self.samples(),
                events_total(s@, n as int) <= u64::MAX,
                memory_total(s@, n as int) <= u64::MAX,
                duration_total(s@, n as int) <= u64::MAX,
                e == events_total(s@, i as int),
                m == memory_total(s@, i as int),
                d == duration_total(s@, i as int),
        {
            proof {
                lemma_totals_grow(s@, i + 1, n as int);
            }
            e = e + s[i].events_processed;
            m = m + s[i].memory_used;
            d = d + s[i].duration_ms;
        }
        let risk = if reaches_share(e, max_total_events, 1, 1) || reaches_share(m, max_total_memory, 1, 1)
            || reaches_share(d, max_total_duration_ms, 1, 1) {
            ExhaustionRisk::Exhausted
        } else if reaches_share(e, max_total_events, 8, 10) || reaches_share(m, max_total_memory, 8, 10)
            || reaches_share(d, max_total_duration_ms, 8, 10) {
            ExhaustionRisk::High
        } else if reaches_share(e, max_total_events, 5, 10) || reaches_share(m, max_total_memory, 5, 10)
            || reaches_share(d, max_total_duration_ms, 5, 10) {
            ExhaustionRisk::Medium
        } else {
            ExhaustionRisk::Low
        };
        let mut recommendations: Vec<String> = Vec::new();
        match risk {
            ExhaustionRisk::High | ExhaustionRisk::Exhausted => {
                recommendations.push(owned("Throttle new replay sessions"));
                recommendations.push(owned("Increase replay resource budgets"));
            },
            ExhaustionRisk::Medium => {
                recommendations.push(owned("Monitor replay resource consumption"));
            },
            ExhaustionRisk::Low => {},
        }
        proof {
            assert(strs_view(recommendations@) =~= match risk {
                ExhaustionRisk::High | ExhaustionRisk::Exhausted =>
                    seq!["Throttle new replay sessions"@, "Increase replay resource budgets"@],
                ExhaustionRisk::Medium => seq!["Monitor replay resource consumption"@],
                ExhaustionRisk::Low => Seq::<Seq<char>>::empty(),
            });
        }
        ReplayExhaustionReport {
            total_events_processed: e,
            total_memory_used: m,
            total_duration_ms: d,
            session_count: n as u64,
            exhaustion_risk: risk,
            recommendations,
        }
    }
}

proof fn lemma_totals_grow(s: Seq<ReplayExhaustionSample>, k: int, n: int)
    requires
        0 <= k <= n <= s.len(),
    ensures
        events_total(s, k) <= events_total(s, n),
        memory_total(s, k) <= memory_total(s, n),
        duration_total(s, k) <= duration_total(s, n),
    decreases n - k,
{
    if k < n {
        lemma_totals_grow(s, k + 1, n);
    }
}

impl OverloadChaosEngine {
    /// A new engine.
    pub fn new() -> (r: Self) {
        OverloadChaosEngine
    }
}

impl Default for SurvivabilityTestEngine {
    /// The same as `SurvivabilityTestEngine::new()`.
    fn default() -> (r: Self)
    {
        Self::new()
    }
}

impl Default for BlackoutSimulator {
    /// The same as `BlackoutSimulator::new()`.
    fn default() -> (r: Self)
    {
        Self::new()
    }
}

impl Default for ReplayChaosEngine {
    /// The same as `ReplayChaosEngine::new()`.
    fn default() -> (r: Self)
    {
        Self::new()
    }
}

impl Default for InfrastructureCollapseEngine {
    /// The same as `InfrastructureCollapseEngine::new()`.
    fn default() -> (r: Self)
    {
        Self::new()
    }
}

impl Default for ContinuityValidator {
    /// The same as `ContinuityValidator::new()`.
    fn default() -> (r: Self)
    {
        Self::new()
    }
}

impl Default for DegradationSimulator {
    /// The same as `DegradationSimulator::new()`.
    fn default() -> (r: Self)
    {
        Self::new()
    }
}

impl Default for ReplayExhaustionEngine {
    /// The same as `ReplayExhaustionEngine::new()`.
    fn default() -> (r: Self)
        ensures
            r.samples().len() == 0,
    {
        Self::new()
    }
}

impl Default for OverloadChaosEngine {
    /// The same as `OverloadChaosEngine::new()`.
    fn default() -> (r: Self)
    {
        Self::new()
    }
}

} // verus!
