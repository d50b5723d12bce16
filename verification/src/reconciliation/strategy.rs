//! Conflict strategies and the matrix that assigns one to each entity type.
use vstd::prelude::*;
use crate::store::{KeyedStore, lookup, stored, lemma_lookup_after_store};
use crate::text::owned;

verus! {

/// How a conflict between two versions of a record is settled.
#[derive(Debug, Clone, Copy, PartialEq, Eq, Structural)]
pub enum ConflictStrategy {
    Lww,
    MinistryAuthor,
    ServiceMerge,
    AdditiveMerge,
    Manual,
}

/// The name of a strategy.
pub open spec fn strategy_name(s: ConflictStrategy) -> Seq<char> {
    match s {
        ConflictStrategy::Lww => "lww"@,
        ConflictStrategy::MinistryAuthor => "ministry_author"@,
        ConflictStrategy::ServiceMerge => "service_merge"@,
        ConflictStrategy::AdditiveMerge => "additive_merge"@,
        ConflictStrategy::Manual => "manual"@,
    }
}

/// The strategies that settle conflicts without a person: last-writer-wins, the higher
/// authority, and additive merge.
pub open spec fn auto_resolvable(s: ConflictStrategy) -> bool {
    s == ConflictStrategy::Lww || s == ConflictStrategy::MinistryAuthor || s == ConflictStrategy::AdditiveMerge
}

impl ConflictStrategy {
    /// The strategy's name.
    pub fn as_str(&self) -> (r: &'static str)
        ensures
            r@ == strategy_name(*self),
    {
        match self {
            ConflictStrategy::Lww => "lww",
            ConflictStrategy::MinistryAuthor => "ministry_author",
            ConflictStrategy::ServiceMerge => "service_merge",
            ConflictStrategy::AdditiveMerge => "additive_merge",
            ConflictStrategy::Manual => "manual",
        }
    }

    /// Whether the strategy settles conflicts without a person.
    pub fn is_auto_resolvable(&self) -> (r: bool)
        ensures
            r == auto_resolvable(*self),
    {
        match self {
            ConflictStrategy::Lww | ConflictStrategy::MinistryAuthor | ConflictStrategy::AdditiveMerge => true,
            _ => false,
        }
    }
}

/// The strategy for each entity type, with a default for types not registered.
pub struct ResolutionMatrix {
    strategies: KeyedStore<ConflictStrategy>,
    default_strategy: ConflictStrategy,
}

impl ResolutionMatrix {
    /// The registered entity types with their strategies, in order of first registration.
    pub closed spec fn assigned(&self) -> Seq<(String, ConflictStrategy)> {
        self.strategies.entries()
    }

    /// The strategy used for types not registered.
    pub closed spec fn fallback(&self) -> ConflictStrategy {
        self.default_strategy
    }

    /// The strategy that settles conflicts on `entity_type`: the registered one, else the
    /// default.
    pub open spec fn strategy_for(&self, entity_type: Seq<char>) -> ConflictStrategy {
        match lookup(self.assigned(), entity_type) {
            Some(s) => s,
            None => self.fallback(),
        }
    }

    /// A matrix with no registrations and the given default.
    pub fn new(default_strategy: ConflictStrategy) -> (r: Self)
        ensures
            r.assigned().len() == 0,
            r.fallback() == default_strategy,
    {
        ResolutionMatrix { strategies: KeyedStore::new(), default_strategy }
    }

    /// Registers `strategy` for `entity_type`, replacing an earlier registration.
    pub fn register(&mut self, entity_type: &str, strategy: ConflictStrategy)
        ensures
            exists|k: String| k@ == entity_type@ && final(self).assigned() == #[trigger] stored(old(self).assigned(), k, strategy),
            final(self).strategy_for(entity_type@) == strategy,
            forall|t: Seq<char>| t != entity_type@ ==> #[trigger] final(self).strategy_for(t) == old(self).strategy_for(t),
            final(self).fallback() == old(self).fallback(),
    {
        let key = owned(entity_type);
        let ghost k = key;
        let ghost before = self.strategies.entries();
        self.strategies.insert(key, strategy);
        proof {
            lemma_lookup_after_store(before, k, strategy, entity_type@);
            assert forall|t: Seq<char>| t != entity_type@ implies #[trigger] self.strategy_for(t) == old(self).strategy_for(t) by {
                lemma_lookup_after_store(before, k, strategy, t);
            }
        }
    }

    /// The registered entity types with their strategies, in order of first registration.
    pub fn assignments(&self) -> (r: Vec<(String, ConflictStrategy)>)
        ensures
            r@.len() == self.assigned().len(),
            forall|i: int| 0 <= i < r@.len()
                ==> (#[trigger] r@[i]).0@ == self.assigned()[i].0@ && r@[i].1 == self.assigned()[i].1,
    {
        let n = self.strategies.len();
        let mut out: Vec<(String, ConflictStrategy)> = Vec::new();
        for i in 0..n
            invariant
                n == self.assigned().len(),
                out@.len() == i,
                forall|j: int| 0 <= j < i
                    ==> (#[trigger] out@[j]).0@ == self.assigned()[j].0@ && out@[j].1 == self.assigned()[j].1,
        {
            let (k, v) = self.strategies.entry_at(i);
            out.push((k.clone(), *v));
        }
        out
    }

    /// The strategy used for types not registered.
    pub fn default_strategy(&self) -> (r: ConflictStrategy)
        ensures
            r == self.fallback(),
    {
        self.default_strategy
    }

    /// The strategy for `entity_type`; there always is one.
    pub fn get_strategy(&self, entity_type: &str) -> (r: Option<&ConflictStrategy>)
        ensures
            r == Some(&self.strategy_for(entity_type@)),
    {
        match self.strategies.get(entity_type) {
            Some(s) => Some(s),
            None => Some(&self.default_strategy),
        }
    }

    /// Whether conflicts on `entity_type` are settled without a person.
    pub fn is_auto_resolvable(&self, entity_type: &str) -> (r: bool)
        ensures
            r == auto_resolvable(self.strategy_for(entity_type@)),
    {
        match self.get_strategy(entity_type) {
            Some(s) => s.is_auto_resolvable(),
            None => false,
        }
    }
}

/// The standard strategies of the sync engine's entity types.
pub open spec fn standard_strategy(entity_type: Seq<char>) -> ConflictStrategy {
    if entity_type == "Shift"@ || entity_type == "AttendancePolicy"@ || entity_type == "PolicyDefinition"@
        || entity_type == "NodeRegistry"@ {
        ConflictStrategy::MinistryAuthor
    } else if entity_type == "LeaveRequest"@ || entity_type == "LeaveBalance"@ {
        ConflictStrategy::ServiceMerge
    } else if entity_type == "RoleAssignment"@ {
        ConflictStrategy::AdditiveMerge
    } else if entity_type == "LedgerEntry"@ {
        ConflictStrategy::Manual
    } else {
        ConflictStrategy::Lww
    }
}

impl Default for ResolutionMatrix {
    /// The standard matrix: clock events, attendance exceptions, accrual policies, user
    /// profiles, device trust, sync configuration and checkpoints by last writer; shifts,
    /// attendance and other policy definitions and the node registry by authority; leave
    /// requests and balances by service merge; role assignments by additive merge; ledger
    /// entries by hand; anything else by last writer.
    #[verifier::rlimit(50)]
    fn default() -> (r: Self)
        ensures
            forall|t: Seq<char>| #[trigger] r.strategy_for(t) == standard_strategy(t),
            r.strategy_for("ClockEvent"@) == ConflictStrategy::Lww,
            r.strategy_for("AttendanceException"@) == ConflictStrategy::Lww,
            r.strategy_for("Shift"@) == ConflictStrategy::MinistryAuthor,
            r.strategy_for("AttendancePolicy"@) == ConflictStrategy::MinistryAuthor,
            r.strategy_for("LeaveRequest"@) == ConflictStrategy::ServiceMerge,
            r.strategy_for("LeaveBalance"@) == ConflictStrategy::ServiceMerge,
            r.strategy_for("AccrualPolicy"@) == ConflictStrategy::Lww,
            r.strategy_for("UserProfile"@) == ConflictStrategy::Lww,
            r.strategy_for("RoleAssignment"@) == ConflictStrategy::AdditiveMerge,
            r.strategy_for("DeviceTrust"@) == ConflictStrategy::Lww,
            r.strategy_for("LedgerEntry"@) == ConflictStrategy::Manual,
            r.strategy_for("PolicyDefinition"@) == ConflictStrategy::MinistryAuthor,
            r.strategy_for("SyncConfig"@) == ConflictStrategy::Lww,
            r.strategy_for("NodeRegistry"@) == ConflictStrategy::MinistryAuthor,
            r.strategy_for("SyncCheckpoint"@) == ConflictStrategy::Lww,
    {
        let mut m = ResolutionMatrix::new(ConflictStrategy::Lww);
        proof {
            reveal_strlit("ClockEvent");
            reveal_strlit("AttendanceException");
            reveal_strlit("Shift");
            reveal_strlit("AttendancePolicy");
            reveal_strlit("LeaveRequest");
            reveal_strlit("LeaveBalance");
            reveal_strlit("AccrualPolicy");
            reveal_strlit("UserProfile");
            reveal_strlit("RoleAssignment");
            reveal_strlit("DeviceTrust");
            reveal_strlit("LedgerEntry");
            reveal_strlit("PolicyDefinition");
            reveal_strlit("SyncConfig");
            reveal_strlit("NodeRegistry");
            reveal_strlit("SyncCheckpoint");
        }
        let ghost m0 = m;
        m.register("ClockEvent", ConflictStrategy::Lww);
        let ghost m1 = m;
        m.register("AttendanceException", ConflictStrategy::Lww);
        let ghost m2 = m;
        m.register("Shift", ConflictStrategy::MinistryAuthor);
        let ghost m3 = m;
        m.register("AttendancePolicy", ConflictStrategy::MinistryAuthor);
        let ghost m4 = m;
        m.register("LeaveRequest", ConflictStrategy::ServiceMerge);
        let ghost m5 = m;
        m.register("LeaveBalance", ConflictStrategy::ServiceMerge);
        let ghost m6 = m;
        m.register("AccrualPolicy", ConflictStrategy::Lww);
        let ghost m7 = m;
        m.register("UserProfile", ConflictStrategy::Lww);
        let ghost m8 = m;
        m.register("RoleAssignment", ConflictStrategy::AdditiveMerge);
        let ghost m9 = m;
        m.register("DeviceTrust", ConflictStrategy::Lww);
        let ghost m10 = m;
        m.register("LedgerEntry", ConflictStrategy::Manual);
        let ghost m11 = m;
        m.register("PolicyDefinition", ConflictStrategy::MinistryAuthor);
        let ghost m12 = m;
        m.register("SyncConfig", ConflictStrategy::Lww);
        let ghost m13 = m;
        m.register("NodeRegistry", ConflictStrategy::MinistryAuthor);
        let ghost m14 = m;
        m.register("SyncCheckpoint", ConflictStrategy::Lww);
        let ghost m15 = m;
        assert("ClockEvent"@.len() == 10 && "ClockEvent"@[0] == 'C' && "ClockEvent"@[1] == 'l' && "ClockEvent"@[4] == 'k');
        assert("AttendanceException"@.len() == 19 && "AttendanceException"@[0] == 'A' && "AttendanceException"@[1] == 't' && "AttendanceException"@[4] == 'n');
        assert("Shift"@.len() == 5 && "Shift"@[0] == 'S' && "Shift"@[1] == 'h' && "Shift"@[4] == 't');
        assert("AttendancePolicy"@.len() == 16 && "AttendancePolicy"@[0] == 'A' && "AttendancePolicy"@[1] == 't' && "AttendancePolicy"@[4] == 'n');
        assert("LeaveRequest"@.len() == 12 && "LeaveRequest"@[0] == 'L' && "LeaveRequest"@[1] == 'e' && "LeaveRequest"@[4] == 'e');
        assert("LeaveBalance"@.len() == 12 && "LeaveBalance"@[0] == 'L' && "LeaveBalance"@[1] == 'e' && "LeaveBalance"@[4] == 'e');
        assert("AccrualPolicy"@.len() == 13 && "AccrualPolicy"@[0] == 'A' && "AccrualPolicy"@[1] == 'c' && "AccrualPolicy"@[4] == 'u');
        assert("UserProfile"@.len() == 11 && "UserProfile"@[0] == 'U' && "UserProfile"@[1] == 's' && "UserProfile"@[4] == 'P');
        assert("RoleAssignment"@.len() == 14 && "RoleAssignment"@[0] == 'R' && "RoleAssignment"@[1] == 'o' && "RoleAssignment"@[4] == 'A');
        assert("DeviceTrust"@.len() == 11 && "DeviceTrust"@[0] == 'D' && "DeviceTrust"@[1] == 'e' && "DeviceTrust"@[4] == 'c');
        assert("LedgerEntry"@.len() == 11 && "LedgerEntry"@[0] == 'L' && "LedgerEntry"@[1] == 'e' && "LedgerEntry"@[4] == 'e');
        assert("PolicyDefinition"@.len() == 16 && "PolicyDefinition"@[0] == 'P' && "PolicyDefinition"@[1] == 'o' && "PolicyDefinition"@[4] == 'c');
        assert("SyncConfig"@.len() == 10 && "SyncConfig"@[0] == 'S' && "SyncConfig"@[1] == 'y' && "SyncConfig"@[4] == 'C');
        assert("NodeRegistry"@.len() == 12 && "NodeRegistry"@[0] == 'N' && "NodeRegistry"@[1] == 'o' && "NodeRegistry"@[4] == 'R');
        assert("SyncCheckpoint"@.len() == 14 && "SyncCheckpoint"@[0] == 'S' && "SyncCheckpoint"@[1] == 'y' && "SyncCheckpoint"@[4] == 'C');
        proof {
            assert forall|t: Seq<char>| #[trigger] m.strategy_for(t) == standard_strategy(t) by {
                if t == "ClockEvent"@ || t == "AttendanceException"@ || t == "Shift"@ || t == "AttendancePolicy"@ || t == "LeaveRequest"@ || t == "LeaveBalance"@ || t == "AccrualPolicy"@ || t == "UserProfile"@ || t == "RoleAssignment"@ || t == "DeviceTrust"@ || t == "LedgerEntry"@ || t == "PolicyDefinition"@ || t == "SyncConfig"@ || t == "NodeRegistry"@ || t == "SyncCheckpoint"@ {
                    if t == "ClockEvent"@ {
                        assert(m1.strategy_for(t) == ConflictStrategy::Lww);
                    }
                    if t == "AttendanceException"@ {
                        assert(m2.strategy_for(t) == ConflictStrategy::Lww);
                    }
                    if t == "Shift"@ {
                        assert(m3.strategy_for(t) == ConflictStrategy::MinistryAuthor);
                    }
                    if t == "AttendancePolicy"@ {
                        assert(m4.strategy_for(t) == ConflictStrategy::MinistryAuthor);
                    }
                    if t == "LeaveRequest"@ {
                        assert(m5.strategy_for(t) == ConflictStrategy::ServiceMerge);
                    }
                    if t == "LeaveBalance"@ {
                        assert(m6.strategy_for(t) == ConflictStrategy::ServiceMerge);
                    }
                    if t == "AccrualPolicy"@ {
                        assert(m7.strategy_for(t) == ConflictStrategy::Lww);
                    }
                    if t == "UserProfile"@ {
                        assert(m8.strategy_for(t) == ConflictStrategy::Lww);
                    }
                    if t == "RoleAssignment"@ {
                        assert(m9.strategy_for(t) == ConflictStrategy::AdditiveMerge);
                    }
                    if t == "DeviceTrust"@ {
                        assert(m10.strategy_for(t) == ConflictStrategy::Lww);
                    }
                    if t == "LedgerEntry"@ {
                        assert(m11.strategy_for(t) == ConflictStrategy::Manual);
                    }
                    if t == "PolicyDefinition"@ {
                        assert(m12.strategy_for(t) == ConflictStrategy::MinistryAuthor);
                    }
                    if t == "SyncConfig"@ {
                        assert(m13.strategy_for(t) == ConflictStrategy::Lww);
                    }
                    if t == "NodeRegistry"@ {
                        assert(m14.strategy_for(t) == ConflictStrategy::MinistryAuthor);
                    }
                    if t == "SyncCheckpoint"@ {
                        assert(m15.strategy_for(t) == ConflictStrategy::Lww);
                    }
                } else {
                    assert(m0.strategy_for(t) == ConflictStrategy::Lww);
                }
            }
        }
        proof {
            lemma_standard_table();
        }
        m
    }
}

/// The standard table, entity type by entity type: clock events, attendance exceptions,
/// accrual policies, user profiles, device trust, sync configuration and checkpoints by
/// last writer; shifts, attendance policies, policy definitions and the node registry by
/// authority; leave requests and balances by service merge; role assignments by additive
/// merge; ledger entries by hand; and a type outside the table by last writer.
pub proof fn lemma_standard_table()
    ensures
        standard_strategy("ClockEvent"@) == ConflictStrategy::Lww,
        standard_strategy("AttendanceException"@) == ConflictStrategy::Lww,
        standard_strategy("Shift"@) == ConflictStrategy::MinistryAuthor,
        standard_strategy("AttendancePolicy"@) == ConflictStrategy::MinistryAuthor,
        standard_strategy("LeaveRequest"@) == ConflictStrategy::ServiceMerge,
        standard_strategy("LeaveBalance"@) == ConflictStrategy::ServiceMerge,
        standard_strategy("AccrualPolicy"@) == ConflictStrategy::Lww,
        standard_strategy("UserProfile"@) == ConflictStrategy::Lww,
        standard_strategy("RoleAssignment"@) == ConflictStrategy::AdditiveMerge,
        standard_strategy("DeviceTrust"@) == ConflictStrategy::Lww,
        standard_strategy("LedgerEntry"@) == ConflictStrategy::Manual,
        standard_strategy("PolicyDefinition"@) == ConflictStrategy::MinistryAuthor,
        standard_strategy("SyncConfig"@) == ConflictStrategy::Lww,
        standard_strategy("NodeRegistry"@) == ConflictStrategy::MinistryAuthor,
        standard_strategy("SyncCheckpoint"@) == ConflictStrategy::Lww,
        standard_strategy("Unregistered"@) == ConflictStrategy::Lww,
{
    reveal_strlit("ClockEvent");
    reveal_strlit("AttendanceException");
    reveal_strlit("Shift");
    reveal_strlit("AttendancePolicy");
    reveal_strlit("LeaveRequest");
    reveal_strlit("LeaveBalance");
    reveal_strlit("AccrualPolicy");
    reveal_strlit("UserProfile");
    reveal_strlit("RoleAssignment");
    reveal_strlit("DeviceTrust");
    reveal_strlit("LedgerEntry");
    reveal_strlit("PolicyDefinition");
    reveal_strlit("SyncConfig");
    reveal_strlit("NodeRegistry");
    reveal_strlit("SyncCheckpoint");
    reveal_strlit("Unregistered");
    assert("ClockEvent"@.len() == 10);
    assert("AttendanceException"@.len() == 19);
    assert("Shift"@.len() == 5);
    assert("AttendancePolicy"@.len() == 16);
    assert("LeaveRequest"@.len() == 12);
    assert("LeaveBalance"@.len() == 12);
    assert("AccrualPolicy"@.len() == 13);
    assert("UserProfile"@.len() == 11);
    assert("RoleAssignment"@.len() == 14);
    assert("DeviceTrust"@.len() == 11);
    assert("LedgerEntry"@.len() == 11);
    assert("PolicyDefinition"@.len() == 16);
    assert("SyncConfig"@.len() == 10);
    assert("NodeRegistry"@.len() == 12);
    assert("SyncCheckpoint"@.len() == 14);
    assert("Unregistered"@.len() == 12);
    assert("Unregistered"@[0] == 'U' && "NodeRegistry"@[0] == 'N' && "LeaveRequest"@[0] == 'L' && "LeaveBalance"@[0] == 'L');
    assert("LeaveRequest"@[5] == 'R' && "LeaveBalance"@[5] == 'B');
    assert("Shift"@[0] == 'S' && "AttendancePolicy"@[0] == 'A' && "PolicyDefinition"@[0] == 'P' && "RoleAssignment"@[0] == 'R');
    assert("AttendanceException"@[0] == 'A' && "AccrualPolicy"@[0] == 'A' && "UserProfile"@[0] == 'U' && "DeviceTrust"@[0] == 'D');
    assert("LedgerEntry"@[0] == 'L' && "SyncConfig"@[0] == 'S' && "SyncCheckpoint"@[0] == 'S' && "ClockEvent"@[0] == 'C');
    assert("UserProfile"@[1] == 's' && "DeviceTrust"@[1] == 'e' && "LedgerEntry"@[1] == 'e');
}

} // verus!
