//! The event registry: versioned event contracts, their lineage and deprecations.
use vstd::prelude::*;
use crate::error::SyncEngineError;
use crate::store::{KeyedStore, lookup, stored, keys_distinct};
use crate::text::{cat3, owned, str_eq, str_starts_with, str_contains, is_prefix_of, occurs_in, strs_view};
use crate::version::{version_display, version_order, version_eq, parsed_version, version_text,
    versions_equal, parse_version, compare_versions, greatest_version, clone_version};

verus! {

/// A versioned event contract.
#[derive(Debug)]
pub struct EventContract {
    pub contract_id: String,
    pub event_name: String,
    pub domain: String,
    pub version: semver::Version,
    pub schema_fingerprint: Vec<u8>,
    pub proto_definition: String,
    pub event_type: EventType,
    pub status: ContractStatus,
    /// Milliseconds since the Unix epoch.
    pub created_at: i64,
    pub superseded_by: Option<String>,
    pub audit_hash: Vec<u8>,
}

/// The kind of event a contract describes.
#[derive(Debug, Clone, Copy, PartialEq, Eq, Structural)]
pub enum EventType {
    DomainEvent,
    Command,
    SyncEvent,
    FederationEvent,
    GovernanceEvent,
    SecurityEvent,
    SovereigntyEvent,
}

/// The lifecycle status of an event contract.
#[derive(Debug, Clone, Copy, PartialEq, Eq, Structural)]
pub enum ContractStatus {
    Active,
    Deprecated,
    Sunset,
    Retired,
    Superseded,
}

/// A recorded change between two versions of an event.
#[derive(Debug, Clone)]
pub struct EventLineageEntry {
    pub event_name: String,
    pub from_version: String,
    pub to_version: String,
    pub change_type: LineageChangeType,
    /// Milliseconds since the Unix epoch.
    pub migrated_at: i64,
    pub migration_proof: Vec<u8>,
}

/// The kind of change a lineage entry records.
#[derive(Debug, Clone, Copy, PartialEq, Eq, Structural)]
pub enum LineageChangeType {
    FieldAdded,
    FieldRemoved,
    FieldRenamed,
    FieldTypeChanged,
    FieldMadeOptional,
    FieldMadeRequired,
    EventSplit,
    EventMerged,
    EventRenamed,
    SchemaRestructured,
}

/// A request to deprecate a contract.
#[derive(Debug, Clone)]
pub struct DeprecationRequest {
    pub contract_id: String,
    pub reason: String,
    /// Milliseconds since the Unix epoch.
    pub sunset_date: i64,
    pub replacement_contract: Option<String>,
    pub approved: bool,
    pub approved_by: Option<String>,
}

/// The outcome of validating a contract's protobuf definition.
#[derive(Debug)]
pub struct ProtocolBufferValidation {
    pub contract_id: String,
    pub valid: bool,
    pub wire_format_compatible: bool,
    pub field_number_collisions: Vec<String>,
    pub reserved_fields_respected: bool,
    pub package_namespace_valid: bool,
}

/// Contracts keyed by `name@version`, the lineage log and the deprecation queue.
pub struct EventRegistry {
    contracts: KeyedStore<EventContract>,
    lineage: Vec<EventLineageEntry>,
    deprecation_queue: Vec<DeprecationRequest>,
}

/// The key of a contract: its event name, `@` and its version.
pub open spec fn contract_key(name: Seq<char>, v: semver::Version) -> Seq<char> {
    name + "@"@ + version_display(v)
}

/// Entry `i` is an active contract whose key starts with `name`.
pub open spec fn latest_candidate(g: Seq<(String, EventContract)>, name: Seq<char>, i: int) -> bool {
    0 <= i < g.len() && is_prefix_of(name, g[i].0@) && g[i].1.status == ContractStatus::Active
}

/// The index of the first contract with id `id`, or -1.
pub open spec fn first_with_id(g: Seq<(String, EventContract)>, id: Seq<char>) -> int
    decreases g.len(),
{
    if g.len() == 0 {
        -1
    } else {
        let k = first_with_id(g.drop_last(), id);
        if k >= 0 { k } else if g.last().1.contract_id@ == id { g.len() - 1 } else { -1 }
    }
}

/// The index of the first pending request for contract `id`, or -1.
pub open spec fn first_pending(q: Seq<DeprecationRequest>, id: Seq<char>) -> int
    decreases q.len(),
{
    if q.len() == 0 {
        -1
    } else {
        let k = first_pending(q.drop_last(), id);
        if k >= 0 { k } else if q.last().contract_id@ == id && !q.last().approved { q.len() - 1 } else { -1 }
    }
}

/// The lineage entries for `name`, in recording order.
pub open spec fn lineage_of(l: Seq<EventLineageEntry>, name: Seq<char>) -> Seq<EventLineageEntry>
    decreases l.len(),
{
    if l.len() == 0 {
        Seq::empty()
    } else {
        lineage_of(l.drop_last(), name) + if l.last().event_name@ == name { seq![l.last()] } else { Seq::<EventLineageEntry>::empty() }
    }
}

/// The contracts for event `name`, in registration order.
pub open spec fn versions_of(g: Seq<(String, EventContract)>, name: Seq<char>) -> Seq<EventContract>
    decreases g.len(),
{
    if g.len() == 0 {
        Seq::empty()
    } else {
        versions_of(g.drop_last(), name) + if g.last().1.event_name@ == name { seq![g.last().1] } else { Seq::<EventContract>::empty() }
    }
}

/// Some contract for event `name` has a version equal to `v`.
pub open spec fn has_version(g: Seq<(String, EventContract)>, name: Seq<char>, v: semver::Version) -> bool {
    exists|i: int| 0 <= i < g.len() && (#[trigger] g[i]).1.event_name@ == name && version_eq(g[i].1.version, v)
}

/// `q` after approving request `k` by `approver`.
pub open spec fn approved_at(q: Seq<DeprecationRequest>, k: int, approver: Seq<char>, r: Seq<DeprecationRequest>) -> bool {
    &&& r.len() == q.len()
    &&& forall|i: int| 0 <= i < q.len() && i != k ==> r[i] == q[i]
    &&& r[k].approved
    &&& r[k].approved_by matches Some(a) && a@ == approver
    &&& r[k].contract_id == q[k].contract_id
    &&& r[k].reason == q[k].reason
    &&& r[k].sunset_date == q[k].sunset_date
    &&& r[k].replacement_contract == q[k].replacement_contract
}

} // verus!

verus! {

/// `c` with its status set to deprecated.
pub open spec fn deprecated_contract(c: EventContract) -> EventContract {
    EventContract { status: ContractStatus::Deprecated, ..c }
}

proof fn lemma_first_with_id_prefix(g: Seq<(String, EventContract)>, id: Seq<char>, m: int)
    requires
        1 <= m <= g.len(),
        first_with_id(g.take(m - 1), id) == -1,
        g[m - 1].1.contract_id@ == id,
    ensures
        first_with_id(g, id) == m - 1,
    decreases g.len() - m,
{
    assert(g.take(m).drop_last() =~= g.take(m - 1));
    if m < g.len() {
        assert(g.take(m + 1).drop_last() =~= g.take(m));
        lemma_first_with_id_extend(g, id, m);
    } else {
        assert(g.take(m) =~= g);
    }
}

proof fn lemma_first_with_id_extend(g: Seq<(String, EventContract)>, id: Seq<char>, m: int)
    requires
        1 <= m <= g.len(),
        first_with_id(g.take(m), id) >= 0,
    ensures
        first_with_id(g, id) == first_with_id(g.take(m), id),
    decreases g.len() - m,
{
    if m < g.len() {
        assert(g.take(m + 1).drop_last() =~= g.take(m));
        lemma_first_with_id_extend(g, id, m + 1);
    } else {
        assert(g.take(m) =~= g);
    }
}

proof fn lemma_first_pending_prefix(q: Seq<DeprecationRequest>, id: Seq<char>, m: int)
    requires
        1 <= m <= q.len(),
        first_pending(q.take(m - 1), id) == -1,
        q[m - 1].contract_id@ == id && !q[m - 1].approved,
    ensures
        first_pending(q, id) == m - 1,
    decreases q.len() - m,
{
    assert(q.take(m).drop_last() =~= q.take(m - 1));
    lemma_first_pending_extend(q, id, m);
}

proof fn lemma_first_pending_extend(q: Seq<DeprecationRequest>, id: Seq<char>, m: int)
    requires
        1 <= m <= q.len(),
        first_pending(q.take(m), id) >= 0,
    ensures
        first_pending(q, id) == first_pending(q.take(m), id),
    decreases q.len() - m,
{
    if m < q.len() {
        assert(q.take(m + 1).drop_last() =~= q.take(m));
        lemma_first_pending_extend(q, id, m + 1);
    } else {
        assert(q.take(m) =~= q);
    }
}

impl EventRegistry {
    /// The contracts, keyed by `name@version`, in registration order.
    pub closed spec fn contracts(&self) -> Seq<(String, EventContract)> {
        self.contracts.entries()
    }

    /// The lineage entries in recording order.
    pub closed spec fn lineage(&self) -> Seq<EventLineageEntry> {
        self.lineage@
    }

    /// The deprecation requests in submission order.
    pub closed spec fn queue(&self) -> Seq<DeprecationRequest> {
        self.deprecation_queue@
    }

    /// An empty registry.
    pub fn new() -> (r: Self)
        ensures
            r.contracts().len() == 0,
            r.lineage().len() == 0,
            r.queue().len() == 0,
    {
        EventRegistry { contracts: KeyedStore::new(), lineage: Vec::new(), deprecation_queue: Vec::new() }
    }

    /// Registers `contract` under `name@version`, replacing a contract with that key.
    pub fn register_contract(&mut self, contract: EventContract)
        ensures
            lookup(final(self).contracts(), contract_key(contract.event_name@, contract.version)) == Some(contract),
            forall|k: Seq<char>| k != contract_key(contract.event_name@, contract.version)
                ==> #[trigger] lookup(final(self).contracts(), k) == lookup(old(self).contracts(), k),
            final(self).lineage() == old(self).lineage(),
            final(self).queue() == old(self).queue(),
    {
        let v = version_text(&contract.version);
        let key = cat3(contract.event_name.as_str(), "@", v.as_str());
        let ghost s = self.contracts.entries();
        let ghost kv = key;
        let ghost cv = contract;
        self.contracts.insert(key, contract);
        proof {
            crate::store::lemma_lookup_after_store(s, kv, cv, kv@);
            assert forall|k: Seq<char>| k != kv@ implies #[trigger] lookup(self.contracts.entries(), k) == lookup(s, k) by {
                crate::store::lemma_lookup_after_store(s, kv, cv, k);
            }
        }
    }

    /// Records a lineage entry.
    pub fn record_lineage(&mut self, entry: EventLineageEntry)
        ensures
            final(self).lineage() == old(self).lineage().push(entry),
            final(self).contracts() == old(self).contracts(),
            final(self).queue() == old(self).queue(),
    {
        self.lineage.push(entry);
    }

    /// The contract for `event_name` at `version`.
    pub fn get_contract(&self, event_name: &str, version: &semver::Version) -> (r: Option<&EventContract>)
        ensures
            match r {
                Some(c) => lookup(self.contracts(), contract_key(event_name@, *version)) == Some(*c),
                None => lookup(self.contracts(), contract_key(event_name@, *version)) is None,
            },
    {
        let v = version_text(version);
        let key = cat3(event_name, "@", v.as_str());
        self.contracts.get(key.as_str())
    }

    /// The active contract with the greatest version among those whose key starts with
    /// `event_name` (the last registered of several with the greatest version).
    pub fn get_latest_contract(&self, event_name: &str) -> (r: Option<&EventContract>)
        ensures
            match r {
                None => forall|i: int| !latest_candidate(self.contracts(), event_name@, i),
                Some(c) => exists|i: int| #[trigger] latest_candidate(self.contracts(), event_name@, i)
                    && self.contracts()[i].1 == *c
                    && (forall|j: int| j != i && latest_candidate(self.contracts(), event_name@, j)
                        ==> version_order(self.contracts()[j].1.version, c.version) <= 0)
                    && (forall|j: int| i < j && latest_candidate(self.contracts(), event_name@, j)
                        ==> version_order(self.contracts()[j].1.version, c.version) < 0),
            },
    {
        let ghost g = self.contracts.entries();
        let n = self.contracts.len();
        let mut idx: Vec<usize> = Vec::new();
        let mut versions: Vec<semver::Version> = Vec::new();
        for i in 0..n
            invariant
                n == g.len(),
                g == self.contracts.entries(),
                idx@.len() == versions@.len(),
                forall|t: int| 0 <= t < idx@.len() ==> (#[trigger] idx@[t]) < i
                    && latest_candidate(g, event_name@, idx@[t] as int)
                    && versions@[t] == g[idx@[t] as int].1.version,
                forall|a: int, b: int| 0 <= a < b < idx@.len() ==> idx@[a] < idx@[b],
                forall|j: int| 0 <= j < i && latest_candidate(g, event_name@, j)
                    ==> exists|t: int| 0 <= t < idx@.len() && idx@[t] == j,
        {
            let (k, c) = self.contracts.entry_at(i);
            if str_starts_with(k.as_str(), event_name) && c.status == ContractStatus::Active {
                let ghost ib = idx@;
                idx.push(i);
                versions.push(clone_version(&c.version));
                proof {
                    assert forall|j: int| 0 <= j < i + 1 && latest_candidate(g, event_name@, j)
                        implies exists|t: int| 0 <= t < idx@.len() && idx@[t] == j by {
                        if j < i {
                            let t = choose|t: int| 0 <= t < ib.len() && ib[t] == j;
                            assert(idx@[t] == j);
                        } else {
                            assert(idx@[idx@.len() - 1] == j);
                        }
                    }
                }
            }
        }
        match greatest_version(versions.as_slice()) {
            Some(t) => {
                let i = idx[t];
                let (_, c) = self.contracts.entry_at(i);
                proof {
                    assert(g == self.contracts());
                    assert(latest_candidate(self.contracts(), event_name@, i as int));
                    assert forall|j: int| j != i && latest_candidate(g, event_name@, j)
                        implies version_order(g[j].1.version, c.version) <= 0 by {
                        let u = choose|u: int| 0 <= u < idx@.len() && idx@[u] == j;
                        assert(versions@[u] == g[j].1.version);
                        assert(u != t);
                    }
                    assert forall|j: int| i < j && latest_candidate(g, event_name@, j)
                        implies version_order(g[j].1.version, c.version) < 0 by {
                        let u = choose|u: int| 0 <= u < idx@.len() && idx@[u] == j;
                        assert(versions@[u] == g[j].1.version);
                        if u <= t {
                            if u < t { assert(idx@[u] < idx@[t as int]); }
                        }
                    }
                }
                Some(c)
            },
            None => {
                proof {
                    assert(idx@.len() == 0);
                    assert forall|i: int| !latest_candidate(self.contracts(), event_name@, i) by {
                        if latest_candidate(g, event_name@, i) {
                            assert(exists|t: int| 0 <= t < idx@.len() && idx@[t] == i);
                        }
                    }
                }
                None
            },
        }
    }

    /// The index of the first contract with id `contract_id`.
    fn find_by_id(&self, contract_id: &str) -> (r: Option<usize>)
        ensures
            match r {
                Some(i) => i == first_with_id(self.contracts(), contract_id@) && i < self.contracts().len(),
                None => first_with_id(self.contracts(), contract_id@) == -1,
            },
            first_with_id(self.contracts(), contract_id@) < self.contracts().len(),
            first_with_id(self.contracts(), contract_id@) >= 0 ==>
                self.contracts()[first_with_id(self.contracts(), contract_id@)].1.contract_id@ == contract_id@,
    {
        let ghost g = self.contracts.entries();
        let n = self.contracts.len();
        for i in 0..n
            invariant
                n == g.len(),
                g == self.contracts.entries(),
                first_with_id(g.take(i as int), contract_id@) == -1,
        {
            let (_, c) = self.contracts.entry_at(i);
            proof {
                assert(g.take(i + 1).drop_last() =~= g.take(i as int));
            }
            if str_eq(c.contract_id.as_str(), contract_id) {
                proof {
                    lemma_first_with_id_prefix(g, contract_id@, i + 1);
                }
                return Some(i);
            }
        }
        proof {
            assert(g.take(n as int) =~= g);
        }
        None
    }

    /// Validates the protobuf definition of the first contract with id `contract_id`: an
    /// unknown contract is invalid; a known one is valid, and its package namespace is
    /// valid when its event name holds a `.`.
    pub fn validate_protobuf(&self, contract_id: &str) -> (r: ProtocolBufferValidation)
        ensures
            r.contract_id@ == contract_id@,
            r.field_number_collisions@.len() == 0,
            r.reserved_fields_respected,
            ({
                let k = first_with_id(self.contracts(), contract_id@);
                if k >= 0 {
                    r.valid && r.wire_format_compatible
                        && r.package_namespace_valid == occurs_in("."@, self.contracts()[k].1.event_name@)
                } else {
                    !r.valid && !r.wire_format_compatible && !r.package_namespace_valid
                }
            }),
    {
        match self.find_by_id(contract_id) {
            Some(i) => {
                let (_, c) = self.contracts.entry_at(i);
                ProtocolBufferValidation {
                    contract_id: owned(contract_id),
                    valid: true,
                    wire_format_compatible: true,
                    field_number_collisions: Vec::new(),
                    reserved_fields_respected: true,
                    package_namespace_valid: str_contains(c.event_name.as_str(), "."),
                }
            },
            None => ProtocolBufferValidation {
                contract_id: owned(contract_id),
                valid: false,
                wire_format_compatible: false,
                field_number_collisions: Vec::new(),
                reserved_fields_respected: true,
                package_namespace_valid: false,
            },
        }
    }

    /// Queues a deprecation request.
    pub fn submit_deprecation(&mut self, request: DeprecationRequest)
        ensures
            final(self).queue() == old(self).queue().push(request),
            final(self).contracts() == old(self).contracts(),
            final(self).lineage() == old(self).lineage(),
    {
        self.deprecation_queue.push(request);
    }

    /// Approves the first pending request for `contract_id` on behalf of `approver` and
    /// marks the first contract with that id deprecated; fails when no request is pending.
    pub fn approve_deprecation(&mut self, contract_id: &str, approver: &str) -> (r: Result<(), SyncEngineError>)
        ensures
            ({
                let k = first_pending(old(self).queue(), contract_id@);
                let c = first_with_id(old(self).contracts(), contract_id@);
                if k >= 0 {
                    &&& r is Ok
                    &&& approved_at(old(self).queue(), k, approver@, final(self).queue())
                    &&& c >= 0 ==> final(self).contracts() == old(self).contracts().update(c,
                        (old(self).contracts()[c].0, deprecated_contract(old(self).contracts()[c].1)))
                    &&& c < 0 ==> final(self).contracts() == old(self).contracts()
                } else {
                    &&& r matches Err(SyncEngineError::Internal(m))
                    &&& m@ == "No pending deprecation request for '"@ + contract_id@ + "'"@
                    &&& final(self).queue() == old(self).queue()
                    &&& final(self).contracts() == old(self).contracts()
                }
            }),
            final(self).lineage() == old(self).lineage(),
    {
        let ghost q = self.deprecation_queue@;
        let found = self.find_pending(contract_id);
        match found {
            None => Err(SyncEngineError::Internal(cat3("No pending deprecation request for '", contract_id, "'"))),
            Some(k) => {
                let mut req = self.deprecation_queue.remove(k);
                req.approved = true;
                req.approved_by = Some(owned(approver));
                self.deprecation_queue.insert(k, req);
                proof {
                    assert(self.deprecation_queue@ =~= q.update(k as int, req));
                }
                match self.find_by_id(contract_id) {
                    Some(c) => {
                        self.contracts.modify_at(c, |x: EventContract| -> (y: EventContract)
                            ensures
                                y == deprecated_contract(x),
                            {
                                let mut y = x;
                                y.status = ContractStatus::Deprecated;
                                y
                            });
                    },
                    None => {},
                }
                Ok(())
            },
        }
    }

    /// The lineage entries for `event_name`, in recording order.
    pub fn get_lineage(&self, event_name: &str) -> (r: Vec<&EventLineageEntry>)
        ensures
            crate::store::derefs(r@) == lineage_of(self.lineage(), event_name@),
    {
        let mut r: Vec<&EventLineageEntry> = Vec::new();
        let n = self.lineage.len();
        for i in 0..n
            invariant
                n == self.lineage@.len(),
                crate::store::derefs(r@) == lineage_of(self.lineage@.take(i as int), event_name@),
        {
            proof {
                assert(self.lineage@.take(i + 1).drop_last() =~= self.lineage@.take(i as int));
            }
            let e = &self.lineage[i];
            if str_eq(e.event_name.as_str(), event_name) {
                r.push(e);
            }
            proof {
                assert(crate::store::derefs(r@) =~= lineage_of(self.lineage@.take(i + 1), event_name@));
            }
        }
        proof {
            assert(self.lineage@.take(n as int) =~= self.lineage@);
        }
        r
    }

    /// The contracts for `event_name`, in registration order.
    pub fn get_all_versions(&self, event_name: &str) -> (r: Vec<&EventContract>)
        ensures
            crate::store::derefs(r@) == versions_of(self.contracts(), event_name@),
    {
        let ghost g = self.contracts.entries();
        let mut r: Vec<&EventContract> = Vec::new();
        let n = self.contracts.len();
        for i in 0..n
            invariant
                n == g.len(),
                g == self.contracts.entries(),
                crate::store::derefs(r@) == versions_of(g.take(i as int), event_name@),
        {
            proof {
                assert(g.take(i + 1).drop_last() =~= g.take(i as int));
            }
            let (_, c) = self.contracts.entry_at(i);
            if str_eq(c.event_name.as_str(), event_name) {
                r.push(c);
            }
            proof {
                assert(crate::store::derefs(r@) =~= versions_of(g.take(i + 1), event_name@));
            }
        }
        proof {
            assert(g.take(n as int) =~= g);
        }
        r
    }

    /// Whether events of `event_name` can be replayed from version `from` to `to`: both
    /// texts are valid versions, `from` is not after `to`, and a contract exists for each.
    pub fn validate_replay_compatibility(&self, event_name: &str, from: &str, to: &str) -> (r: bool)
        ensures
            r == match (parsed_version(from@), parsed_version(to@)) {
                (Some(f), Some(t)) => version_order(f, t) <= 0
                    && has_version(self.contracts(), event_name@, f)
                    && has_version(self.contracts(), event_name@, t),
                _ => false,
            },
    {
        let f = parse_version(from);
        let t = parse_version(to);
        match (f, t) {
            (Some(f), Some(t)) => {
                if compare_versions(&f, &t) <= 0 {
                    self.find_version(event_name, &f) && self.find_version(event_name, &t)
                } else {
                    false
                }
            },
            _ => false,
        }
    }

    /// Whether some contract for `event_name` has version `v`.
    fn find_version(&self, event_name: &str, v: &semver::Version) -> (r: bool)
        ensures
            r == has_version(self.contracts(), event_name@, *v),
    {
        let ghost g = self.contracts.entries();
        let n = self.contracts.len();
        for i in 0..n
            invariant
                n == g.len(),
                g == self.contracts.entries(),
                forall|j: int| 0 <= j < i ==> !((#[trigger] g[j]).1.event_name@ == event_name@ && version_eq(g[j].1.version, *v)),
        {
            let (_, c) = self.contracts.entry_at(i);
            if str_eq(c.event_name.as_str(), event_name) && versions_equal(&c.version, v) {
                proof {
                    assert(g[i as int].1 == *c);
                }
                return true;
            }
        }
        false
    }

    /// The index of the first pending request for `contract_id`.
    fn find_pending(&self, contract_id: &str) -> (r: Option<usize>)
        ensures
            match r {
                Some(i) => i == first_pending(self.queue(), contract_id@) && i < self.queue().len(),
                None => first_pending(self.queue(), contract_id@) == -1,
            },
    {
        let ghost q = self.deprecation_queue@;
        let n = self.deprecation_queue.len();
        for i in 0..n
            invariant
                n == q.len(),
                q == self.deprecation_queue@,
                first_pending(q.take(i as int), contract_id@) == -1,
        {
            proof {
                assert(q.take(i + 1).drop_last() =~= q.take(i as int));
            }
            let req = &self.deprecation_queue[i];
            if str_eq(req.contract_id.as_str(), contract_id) && !req.approved {
                proof {
                    lemma_first_pending_prefix(q, contract_id@, i + 1);
                }
                return Some(i);
            }
        }
        proof {
            assert(q.take(n as int) =~= q);
        }
        None
    }
}

impl Default for EventRegistry {
    /// The same as `EventRegistry::new()`.
    fn default() -> (r: Self)
        ensures
            r.contracts().len() == 0,
            r.lineage().len() == 0,
            r.queue().len() == 0,
    {
        Self::new()
    }
}

} // verus!
