//! The architecture registry: bounded contexts, their owners, context maps and
//! anti-corruption layers.
use vstd::prelude::*;
use crate::governance::{GovernanceViolation, PolicyEvalResult, PolicySeverity, violation_is};
use crate::store::{KeyedStore, has_key, lookup, stored, derefs, values_of, key_index, lemma_lookup_after_store};
use crate::text::{cat3, cat5, owned, str_eq, strs_view, pairs_view};

verus! {

/// A bounded context registered in the architecture.
#[derive(Debug, Clone)]
pub struct BoundedContext {
    pub name: String,
    pub owner: String,
    pub domain: String,
    pub context_type: ContextType,
    pub interfaces: Vec<ContextInterface>,
    pub allowed_dependencies: Vec<String>,
    pub forbidden_dependencies: Vec<String>,
    pub events_published: Vec<String>,
    pub events_subscribed: Vec<String>,
    pub sovereignty_zone: String,
    pub status: ContextStatus,
}

/// The role of a bounded context.
#[derive(Debug, Clone, Copy, PartialEq, Eq, Structural)]
pub enum ContextType {
    Core,
    Supporting,
    Generic,
    Sovereignty,
    Federation,
}

/// An interface a context offers.
#[derive(Debug, Clone)]
pub struct ContextInterface {
    pub name: String,
    pub version: String,
    pub protocol: String,
    pub direction: InterfaceDirection,
    pub schema_contract: Option<String>,
}

/// Which way an interface carries traffic.
#[derive(Debug, Clone, Copy, PartialEq, Eq, Structural)]
pub enum InterfaceDirection {
    Inbound,
    Outbound,
    Bidirectional,
}

/// Lifecycle status of a context.
#[derive(Debug, Clone, Copy, PartialEq, Eq, Structural)]
pub enum ContextStatus {
    Active,
    Deprecated,
    Retired,
    UnderReview,
}

/// A relationship between two contexts.
#[derive(Debug, Clone)]
pub struct ContextMapEntry {
    pub source: String,
    pub target: String,
    pub relationship: ContextRelationship,
    pub acl_required: bool,
}

/// The kind of relationship between two contexts.
#[derive(Debug, Clone, Copy, PartialEq, Eq, Structural)]
pub enum ContextRelationship {
    UpstreamDownstream,
    Partnership,
    SharedKernel,
    SeparateWays,
    OpenHostService,
    PublishedLanguage,
    Conformist,
    AntiCorruptionLayer,
}

/// A translation layer between two contexts.
#[derive(Debug, Clone)]
pub struct AntiCorruptionLayer {
    pub name: String,
    pub source_context: String,
    pub target_context: String,
    pub translation_rules: Vec<String>,
    pub active: bool,
}

/// Findings on the boundaries of one context.
#[derive(Debug)]
pub struct BoundaryAnalysis {
    pub context_name: String,
    pub incoming_dependencies: Vec<String>,
    pub outgoing_dependencies: Vec<String>,
    pub violations: Vec<String>,
    pub missing_acls: Vec<String>,
}

/// Central registry for bounded contexts and their relationships.
pub struct ArchitectureRegistry {
    contexts: KeyedStore<BoundedContext>,
    context_maps: KeyedStore<Vec<ContextMapEntry>>,
    ownership_registry: KeyedStore<String>,
    anti_corruption_layers: Vec<AntiCorruptionLayer>,
}

/// The allowed dependencies of a context that are not registered contexts, as findings.
pub open spec fn dependency_findings(deps: Seq<String>, ctxs: Seq<(String, BoundedContext)>) -> Seq<Seq<char>>
    decreases deps.len(),
{
    if deps.len() == 0 {
        Seq::<Seq<char>>::empty()
    } else {
        dependency_findings(deps.drop_last(), ctxs) + if !has_key(ctxs, deps.last()@) {
            seq!["Allowed dependency '"@ + deps.last()@ + "' is not a registered context"@]
        } else {
            Seq::<Seq<char>>::empty()
        }
    }
}

/// Some layer translates from `s` to `t`.
pub open spec fn has_layer(acls: Seq<AntiCorruptionLayer>, s: Seq<char>, t: Seq<char>) -> bool {
    exists|i: int| 0 <= i < acls.len() && (#[trigger] acls[i]).source_context@ == s && acls[i].target_context@ == t
}

/// The map entries that require a layer but have none, as findings.
pub open spec fn acl_findings(entries: Seq<ContextMapEntry>, acls: Seq<AntiCorruptionLayer>) -> Seq<Seq<char>>
    decreases entries.len(),
{
    if entries.len() == 0 {
        Seq::<Seq<char>>::empty()
    } else {
        let e = entries.last();
        acl_findings(entries.drop_last(), acls) + if e.acl_required && !has_layer(acls, e.source@, e.target@) {
            seq!["Missing ACL between '"@ + e.source@ + "' and '"@ + e.target@ + "'"@]
        } else {
            Seq::<Seq<char>>::empty()
        }
    }
}

/// The missing-layer findings of the entries, leaving out the entries from `s` to `t`.
pub open spec fn acl_findings_except(entries: Seq<ContextMapEntry>, acls: Seq<AntiCorruptionLayer>, s: Seq<char>, t: Seq<char>) -> Seq<Seq<char>>
    decreases entries.len(),
{
    if entries.len() == 0 {
        Seq::<Seq<char>>::empty()
    } else {
        let e = entries.last();
        acl_findings_except(entries.drop_last(), acls, s, t)
            + if e.acl_required && !has_layer(acls, e.source@, e.target@) && !(e.source@ == s && e.target@ == t) {
            seq!["Missing ACL between '"@ + e.source@ + "' and '"@ + e.target@ + "'"@]
        } else {
            Seq::<Seq<char>>::empty()
        }
    }
}

/// Registering a layer from `s` to `t` removes exactly the missing-layer findings of the
/// map entries from `s` to `t`; the other findings stay, in order.
pub proof fn lemma_acl_removes_own_findings(entries: Seq<ContextMapEntry>, acls: Seq<AntiCorruptionLayer>, acl: AntiCorruptionLayer)
    ensures
        acl_findings(entries, acls.push(acl))
            == acl_findings_except(entries, acls, acl.source_context@, acl.target_context@),
    decreases entries.len(),
{
    if entries.len() > 0 {
        lemma_acl_removes_own_findings(entries.drop_last(), acls, acl);
        let e = entries.last();
        let a2 = acls.push(acl);
        if has_layer(a2, e.source@, e.target@) {
            let i = choose|i: int| 0 <= i < a2.len() && (#[trigger] a2[i]).source_context@ == e.source@ && a2[i].target_context@ == e.target@;
            if i < acls.len() {
                assert(acls[i] == a2[i]);
            }
        }
        if has_layer(acls, e.source@, e.target@) {
            let i = choose|i: int| 0 <= i < acls.len() && (#[trigger] acls[i]).source_context@ == e.source@ && acls[i].target_context@ == e.target@;
            assert(a2[i] == acls[i]);
        }
        if e.source@ == acl.source_context@ && e.target@ == acl.target_context@ {
            assert(a2[acls.len() as int] == acl);
        }
    }
}

/// Some interface of the list is named `name`.
pub open spec fn has_interface(ifs: Seq<ContextInterface>, name: Seq<char>) -> bool {
    exists|i: int| 0 <= i < ifs.len() && (#[trigger] ifs[i]).name@ == name
}

impl ArchitectureRegistry {
    /// Registered contexts under their names.
    pub closed spec fn contexts(&self) -> Seq<(String, BoundedContext)> {
        self.contexts.entries()
    }

    /// Context-map entries under their source context.
    pub closed spec fn context_maps(&self) -> Seq<(String, Vec<ContextMapEntry>)> {
        self.context_maps.entries()
    }

    /// Owners under context names.
    pub closed spec fn owners(&self) -> Seq<(String, String)> {
        self.ownership_registry.entries()
    }

    /// Every registered context has its owner recorded under its name, and nothing else
    /// has an owner.
    pub open spec fn owners_follow_contexts(&self) -> bool {
        forall|k: Seq<char>| match (#[trigger] lookup(self.owners(), k), lookup(self.contexts(), k)) {
            (Some(o), Some(c)) => o@ == c.owner@,
            (None, None) => true,
            _ => false,
        }
    }

    /// The registry's invariant: owners follow contexts.
    #[verifier::type_invariant]
    spec fn owners_kept(&self) -> bool {
        self.owners_follow_contexts()
    }

    /// Anti-corruption layers in registration order.
    pub closed spec fn acls(&self) -> Seq<AntiCorruptionLayer> {
        self.anti_corruption_layers@
    }

    /// An empty registry.
    pub fn new() -> (r: Self)
        ensures
            r.contexts().len() == 0,
            r.context_maps().len() == 0,
            r.owners().len() == 0,
            r.acls().len() == 0,
            r.owners_follow_contexts(),
    {
        ArchitectureRegistry {
            contexts: KeyedStore::new(),
            context_maps: KeyedStore::new(),
            ownership_registry: KeyedStore::new(),
            anti_corruption_layers: Vec::new(),
        }
    }

    /// Registers `context` under its name and records its owner.
    pub fn register_context(&mut self, context: BoundedContext)
        ensures
            final(self).contexts() == stored(old(self).contexts(), context.name, context),
            final(self).owners() == stored(old(self).owners(), context.name, context.owner),
            lookup(final(self).contexts(), context.name@) == Some(context),
            lookup(final(self).owners(), context.name@) matches Some(o) && o@ == context.owner@,
            forall|k: Seq<char>| k != context.name@ ==> #[trigger] lookup(final(self).contexts(), k) == lookup(old(self).contexts(), k)
                && lookup(final(self).owners(), k) == lookup(old(self).owners(), k),
            final(self).owners_follow_contexts(),
            final(self).context_maps() == old(self).context_maps(),
            final(self).acls() == old(self).acls(),
    {
        proof {
            use_type_invariant(&*self);
        }
        let name = context.name.clone();
        let owner = context.owner.clone();
        let ghost cg = context;
        let ghost og = owner;
        let ghost ng = name;
        let ghost old_self = *self;
        let mut taken = ArchitectureRegistry::new();
        std::mem::swap(&mut taken, self);
        let ArchitectureRegistry { mut contexts, context_maps, mut ownership_registry, anti_corruption_layers } = taken;
        let ghost cs0 = contexts.entries();
        let ghost os0 = ownership_registry.entries();
        ownership_registry.insert(name.clone(), owner);
        contexts.insert(name, context);
        proof {
            assert(cs0 == old_self.contexts());
            assert(os0 == old_self.owners());
            assert(ng@ == cg.name@);
            lemma_lookup_after_store(cs0, cg.name, cg, cg.name@);
            assert(ownership_registry.entries() == stored(os0, cg.name, og)) by {
                assert(ownership_registry.entries() == stored(os0, ng, og));
            }
            lemma_lookup_after_store(os0, cg.name, og, cg.name@);
            assert(og@ == cg.owner@);
            assert forall|k: Seq<char>| k != cg.name@ implies #[trigger] lookup(contexts.entries(), k) == lookup(cs0, k)
                && lookup(ownership_registry.entries(), k) == lookup(os0, k) by {
                lemma_lookup_after_store(cs0, cg.name, cg, k);
                lemma_lookup_after_store(os0, cg.name, og, k);
            }
            assert forall|k: Seq<char>| match (#[trigger] lookup(ownership_registry.entries(), k), lookup(contexts.entries(), k)) {
                (Some(o), Some(c)) => o@ == c.owner@,
                (None, None) => true,
                _ => false,
            } by {
                if k != cg.name@ {
                    assert(lookup(old_self.owners(), k) == lookup(os0, k));
                }
            }
        }
        *self = ArchitectureRegistry { contexts, context_maps, ownership_registry, anti_corruption_layers };
    }

    /// Appends `entry` to the context map of its source context.
    pub fn register_context_map(&mut self, entry: ContextMapEntry)
        ensures
            lookup(final(self).context_maps(), entry.source@) matches Some(l) && l@ == match lookup(old(self).context_maps(), entry.source@) {
                Some(ol) => ol@,
                None => Seq::<ContextMapEntry>::empty(),
            }.push(entry),
            forall|k: Seq<char>| k != entry.source@ ==> lookup(final(self).context_maps(), k) == lookup(old(self).context_maps(), k),
            final(self).contexts() == old(self).contexts(),
            final(self).owners() == old(self).owners(),
            final(self).acls() == old(self).acls(),
    {
        proof {
            use_type_invariant(&*self);
        }
        let source = entry.source.clone();
        let mut maps: KeyedStore<Vec<ContextMapEntry>> = KeyedStore::new();
        std::mem::swap(&mut maps, &mut self.context_maps);
        maps.push_into(source, entry);
        self.context_maps = maps;
    }

    /// Adds an anti-corruption layer.
    pub fn register_acl(&mut self, acl: AntiCorruptionLayer)
        ensures
            final(self).acls() == old(self).acls().push(acl),
            final(self).contexts() == old(self).contexts(),
            final(self).context_maps() == old(self).context_maps(),
            final(self).owners() == old(self).owners(),
    {
        proof {
            use_type_invariant(&*self);
        }
        let mut acls: Vec<AntiCorruptionLayer> = Vec::new();
        std::mem::swap(&mut acls, &mut self.anti_corruption_layers);
        acls.push(acl);
        self.anti_corruption_layers = acls;
    }

    /// The context registered under `name`.
    pub fn get_context(&self, name: &str) -> (r: Option<&BoundedContext>)
        ensures
            match r {
                Some(c) => lookup(self.contexts(), name@) == Some(*c),
                None => lookup(self.contexts(), name@) is None,
            },
    {
        self.contexts.get(name)
    }

    /// The owner recorded for context `context_name`: the owner of the context registered
    /// under that name, and none where no context is.
    pub fn get_owner(&self, context_name: &str) -> (r: Option<&String>)
        ensures
            match r {
                Some(o) => {
                    &&& lookup(self.owners(), context_name@) == Some(*o)
                    &&& lookup(self.contexts(), context_name@) matches Some(c) && o@ == c.owner@
                },
                None => {
                    &&& lookup(self.owners(), context_name@) is None
                    &&& lookup(self.contexts(), context_name@) is None
                },
            },
    {
        proof {
            use_type_invariant(self);
            assert(match (lookup(self.owners(), context_name@), lookup(self.contexts(), context_name@)) {
                (Some(o), Some(c)) => o@ == c.owner@,
                (None, None) => true,
                _ => false,
            });
        }
        self.ownership_registry.get(context_name)
    }

    /// What `verify_interface` answers for these arguments.
    pub open spec fn interface_outcome(&self, context_name: Seq<char>, interface: Seq<char>, r: PolicyEvalResult) -> bool {
        match lookup(self.contexts(), context_name) {
            Some(ctx) => if has_interface(ctx.interfaces@, interface) {
                r is Pass
            } else {
                r matches PolicyEvalResult::Violation(v) && violation_is(
                    v,
                    "RequiredInterface"@,
                    PolicySeverity::Error,
                    "Context '"@ + context_name + "' missing required interface '"@ + interface + "'"@,
                    Seq::empty(),
                    seq!["Implement interface '"@ + interface + "' on context '"@ + context_name + "'"@],
                )
            },
            None => r matches PolicyEvalResult::Violation(v) && violation_is(
                v,
                "RequiredInterface"@,
                PolicySeverity::Critical,
                "Context '"@ + context_name + "' not found in architecture registry"@,
                Seq::empty(),
                seq!["Register context '"@ + context_name + "' in architecture registry"@],
            ),
        }
    }

    /// Checks that context `context_name` is registered and offers an interface named `interface`.
    pub fn verify_interface(&self, context_name: &str, interface: &str) -> (r: PolicyEvalResult)
        ensures
            self.interface_outcome(context_name@, interface@, r),

    {
        match self.contexts.get(context_name) {
            Some(ctx) => {
                let n = ctx.interfaces.len();
                let mut found = false;
                for i in 0..n
                    invariant
                        n == ctx.interfaces@.len(),
                        found == exists|j: int| 0 <= j < i && (#[trigger] ctx.interfaces@[j]).name@ == interface@,
                {
                    if str_eq(ctx.interfaces[i].name.as_str(), interface) {
                        found = true;
                    }
                }
                if found {
                    PolicyEvalResult::Pass
                } else {
                    let mut remediations: Vec<String> = Vec::new();
                    remediations.push(cat5("Implement interface '", interface, "' on context '", context_name, "'"));
                    let v = GovernanceViolation {
                        policy_id: 0,
                        policy_name: owned("RequiredInterface"),
                        severity: PolicySeverity::Error,
                        message: cat5("Context '", context_name, "' missing required interface '", interface, "'"),
                        context: Vec::new(),
                        remediations,
                    };
                    proof {
                        assert(strs_view(v.remediations@) =~= seq!["Implement interface '"@ + interface@ + "' on context '"@ + context_name@ + "'"@]);
                        assert(pairs_view(v.context@) =~= Seq::empty());
                    }
                    PolicyEvalResult::Violation(v)
                }
            },
            None => {
                let mut remediations: Vec<String> = Vec::new();
                remediations.push(cat3("Register context '", context_name, "' in architecture registry"));
                let v = GovernanceViolation {
                    policy_id: 0,
                    policy_name: owned("RequiredInterface"),
                    severity: PolicySeverity::Critical,
                    message: cat3("Context '", context_name, "' not found in architecture registry"),
                    context: Vec::new(),
                    remediations,
                };
                proof {
                    assert(strs_view(v.remediations@) =~= seq!["Register context '"@ + context_name@ + "' in architecture registry"@]);
                    assert(pairs_view(v.context@) =~= Seq::empty());
                }
                PolicyEvalResult::Violation(v)
            },
        }
    }

    /// All registered contexts.
    pub fn list_contexts(&self) -> (r: Vec<&BoundedContext>)
        ensures
            derefs(r@) == values_of(self.contexts()),
    {
        self.contexts.values()
    }

    /// The anti-corruption layers, in registration order.
    pub fn list_acls(&self) -> (r: &[AntiCorruptionLayer])
        ensures
            r@ == self.acls(),
    {
        self.anti_corruption_layers.as_slice()
    }

    /// Reports on context `name`: allowed dependencies that are not registered contexts,
    /// and map entries from it that require an anti-corruption layer but have none.
    pub fn analyze_context_boundaries(&self, name: &str) -> (r: BoundaryAnalysis)
        ensures
            r.context_name@ == name@,
            r.incoming_dependencies@.len() == 0,
            r.outgoing_dependencies@.len() == 0,
            strs_view(r.violations@) == match lookup(self.contexts(), name@) {
                Some(ctx) => dependency_findings(ctx.allowed_dependencies@, self.contexts()),
                None => Seq::<Seq<char>>::empty(),
            },
            strs_view(r.missing_acls@) == match lookup(self.contexts(), name@) {
                Some(ctx) => match lookup(self.context_maps(), name@) {
                    Some(entries) => acl_findings(entries@, self.acls()),
                    None => Seq::<Seq<char>>::empty(),
                },
                None => Seq::<Seq<char>>::empty(),
            },
    {
        let mut violations: Vec<String> = Vec::new();
        let mut missing_acls: Vec<String> = Vec::new();
        if let Some(ctx) = self.contexts.get(name) {
            let deps = &ctx.allowed_dependencies;
            let nd = deps.len();
            for i in 0..nd
                invariant
                    nd == deps@.len(),
                    strs_view(violations@) == dependency_findings(deps@.take(i as int), self.contexts.entries()),
            {
                let ghost before = violations@;
                assert(deps@.take(i + 1).drop_last() =~= deps@.take(i as int));
                if !self.contexts.contains_key(deps[i].as_str()) {
                    violations.push(cat3("Allowed dependency '", deps[i].as_str(), "' is not a registered context"));
                }
                assert(strs_view(violations@) =~= dependency_findings(deps@.take(i + 1), self.contexts.entries()));
            }
            assert(deps@.take(nd as int) =~= deps@);
            if let Some(maps) = self.context_maps.get(name) {
                let nm = maps.len();
                for i in 0..nm
                    invariant
                        nm == maps@.len(),
                        strs_view(missing_acls@) == acl_findings(maps@.take(i as int), self.anti_corruption_layers@),
                {
                    let entry = &maps[i];
                    assert(maps@.take(i + 1).drop_last() =~= maps@.take(i as int));
                    if entry.acl_required {
                        let na = self.anti_corruption_layers.len();
                        let mut has_acl = false;
                        for j in 0..na
                            invariant
                                na == self.anti_corruption_layers@.len(),
                                has_acl == exists|k: int| 0 <= k < j
                                    && (#[trigger] self.anti_corruption_layers@[k]).source_context@ == entry.source@
                                    && self.anti_corruption_layers@[k].target_context@ == entry.target@,
                        {
                            let a = &self.anti_corruption_layers[j];
                            if str_eq(a.source_context.as_str(), entry.source.as_str())
                                && str_eq(a.target_context.as_str(), entry.target.as_str()) {
                                has_acl = true;
                            }
                        }
                        if !has_acl {
                            missing_acls.push(cat5("Missing ACL between '", entry.source.as_str(), "' and '", entry.target.as_str(), "'"));
                        }
                    }
                    assert(strs_view(missing_acls@) =~= acl_findings(maps@.take(i + 1), self.anti_corruption_layers@));
                }
                assert(maps@.take(nm as int) =~= maps@);
            }
        }
        BoundaryAnalysis {
            context_name: owned(name),
            incoming_dependencies: Vec::new(),
            outgoing_dependencies: Vec::new(),
            violations,
            missing_acls,
        }
    }
}

impl Default for ArchitectureRegistry {
    /// The same as `ArchitectureRegistry::new()`.
    fn default() -> (r: Self)
        ensures
            r.owners_follow_contexts(),
            r.contexts().len() == 0,
            r.context_maps().len() == 0,
            r.owners().len() == 0,
            r.acls().len() == 0,
    {
        Self::new()
    }
}

} // verus!
