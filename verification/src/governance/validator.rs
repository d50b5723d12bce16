//! Validation of bounded-context boundaries and dependency hygiene.
use vstd::prelude::*;
use crate::governance::{GovernanceContext, GovernanceViolation, PolicyEvalResult, PolicySeverity, violation_is};
use crate::store::{KeyedStore, has_key, lookup, stored};
use crate::text::{cat3, cat4, cat5, owned, str_eq, list_contains, lists, strs_view, pairs_view};

verus! {

/// What a bounded context owns and exposes.
#[derive(Debug, Clone)]
pub struct BoundaryDefinition {
    pub context_name: String,
    pub owned_packages: Vec<String>,
    pub exposed_interfaces: Vec<String>,
    pub published_events: Vec<String>,
    pub subscribed_events: Vec<String>,
}

/// Types shared by several contexts.
#[derive(Debug, Clone)]
pub struct SharedKernel {
    pub name: String,
    pub participating_contexts: Vec<String>,
    pub shared_types: Vec<String>,
}

/// A rule that context boundaries must follow.
#[derive(Debug, Clone)]
pub enum ValidationRule {
    NoDirectDbAccess(String, Vec<String>),
    MustUseInterface(String, String),
    NoCircularReference(String),
    OwnershipScope(String, Vec<String>),
    EventNamespace(String, String),
}

/// Findings on the isolation of one context.
#[derive(Debug)]
pub struct ContextIsolationReport {
    pub context_name: String,
    pub boundary_defined: bool,
    pub owned_packages: Vec<String>,
    pub exposed_interfaces: Vec<String>,
    pub leak_violations: Vec<String>,
    pub isolated: bool,
}

/// Validates bounded-context boundaries and dependency hygiene.
pub struct BoundedContextValidator {
    context_boundaries: KeyedStore<BoundaryDefinition>,
    allowed_crossings: KeyedStore<Vec<String>>,
    forbidden_crossings: KeyedStore<Vec<String>>,
    shared_kernels: Vec<SharedKernel>,
    validation_rules: Vec<ValidationRule>,
}

/// `t` is among the crossings recorded from `s`.
pub open spec fn crossing_listed(cs: Seq<(String, Vec<String>)>, s: Seq<char>, t: Seq<char>) -> bool {
    lookup(cs, s) matches Some(l) && lists(l@, t)
}

/// The crossing sets after recording a crossing from `s` to `t`, by membership.
pub open spec fn crossing_added(before: Seq<(String, Vec<String>)>, after: Seq<(String, Vec<String>)>, s: Seq<char>, t: Seq<char>) -> bool {
    &&& lookup(after, s) is Some
    &&& forall|x: Seq<char>| #[trigger] crossing_listed(after, s, x) == (x == t || crossing_listed(before, s, x))
    &&& forall|k: Seq<char>| k != s ==> #[trigger] lookup(after, k) == lookup(before, k)
}

/// One finding per forbidden crossing, in recording order.
pub open spec fn forbidden_findings(cs: Seq<(String, Vec<String>)>) -> Seq<Seq<char>>
    decreases cs.len(),
{
    if cs.len() == 0 {
        Seq::<Seq<char>>::empty()
    } else {
        forbidden_findings(cs.drop_last()) + crossing_lines(cs.last().0@, cs.last().1@)
    }
}

/// The findings for the crossings from `s` to each of `ts`.
pub open spec fn crossing_lines(s: Seq<char>, ts: Seq<String>) -> Seq<Seq<char>>
    decreases ts.len(),
{
    if ts.len() == 0 {
        Seq::<Seq<char>>::empty()
    } else {
        crossing_lines(s, ts.drop_last()).push("Boundary violation: "@ + s + " -> "@ + ts.last()@)
    }
}

/// For each boundary that exposes no interfaces, one finding per owned package.
pub open spec fn exposure_findings(bs: Seq<(String, BoundaryDefinition)>) -> Seq<Seq<char>>
    decreases bs.len(),
{
    if bs.len() == 0 {
        Seq::<Seq<char>>::empty()
    } else {
        let b = bs.last();
        exposure_findings(bs.drop_last()) + if b.1.exposed_interfaces@.len() == 0 {
            Seq::new(b.1.owned_packages@.len(), |i: int| "Context '"@ + b.0@ + "' owns packages but exposes no interfaces"@)
        } else {
            Seq::<Seq<char>>::empty()
        }
    }
}

impl BoundedContextValidator {
    /// Boundary definitions under context names.
    pub closed spec fn boundaries(&self) -> Seq<(String, BoundaryDefinition)> {
        self.context_boundaries.entries()
    }

    /// Allowed crossings: the targets each source may depend on.
    pub closed spec fn allowed(&self) -> Seq<(String, Vec<String>)> {
        self.allowed_crossings.entries()
    }

    /// Forbidden crossings: the targets each source must not depend on.
    pub closed spec fn forbidden(&self) -> Seq<(String, Vec<String>)> {
        self.forbidden_crossings.entries()
    }

    /// Shared kernels.
    pub closed spec fn kernels(&self) -> Seq<SharedKernel> {
        self.shared_kernels@
    }

    /// The validator's invariant: no shared kernel is registered, as nothing registers one.
    #[verifier::type_invariant]
    spec fn no_kernels(&self) -> bool {
        self.shared_kernels@.len() == 0
    }

    /// Validation rules in the order they were added.
    pub closed spec fn rules(&self) -> Seq<ValidationRule> {
        self.validation_rules@
    }

    /// A validator with no boundaries, crossings, kernels or rules.
    pub fn new() -> (r: Self)
        ensures
            r.boundaries().len() == 0,
            r.allowed().len() == 0,
            r.forbidden().len() == 0,
            r.kernels().len() == 0,
            r.rules().len() == 0,
    {
        BoundedContextValidator {
            context_boundaries: KeyedStore::new(),
            allowed_crossings: KeyedStore::new(),
            forbidden_crossings: KeyedStore::new(),
            shared_kernels: Vec::new(),
            validation_rules: Vec::new(),
        }
    }

    /// Registers `boundary` under its context name.
    pub fn register_boundary(&mut self, boundary: BoundaryDefinition)
        ensures
            final(self).boundaries() == stored(old(self).boundaries(), boundary.context_name, boundary),
            final(self).allowed() == old(self).allowed(),
            final(self).forbidden() == old(self).forbidden(),
            final(self).kernels() == old(self).kernels(),
            final(self).rules() == old(self).rules(),
    {
        proof {
            use_type_invariant(&*self);
        }
        let name = boundary.context_name.clone();
        let mut store: KeyedStore<BoundaryDefinition> = KeyedStore::new();
        std::mem::swap(&mut store, &mut self.context_boundaries);
        store.insert(name, boundary);
        self.context_boundaries = store;
    }

    /// Adds `target` to the set of crossings in `store` recorded from `source`.
    fn add_crossing(store: &mut KeyedStore<Vec<String>>, source: &str, target: &str)
        ensures
            crossing_added(old(store).entries(), final(store).entries(), source@, target@),
            crossing_listed(old(store).entries(), source@, target@) ==> final(store).entries() == old(store).entries(),
    {
        let present = match store.get(source) {
            Some(l) => list_contains(l, target),
            None => false,
        };
        if present {
            assert forall|x: Seq<char>| #[trigger] crossing_listed(store.entries(), source@, x)
                == (x == target@ || crossing_listed(store.entries(), source@, x)) by {}
        } else {
            store.push_into(owned(source), owned(target));
            proof {
                let after = store.entries();
                let before = old(store).entries();
                assert forall|x: Seq<char>| #[trigger] crossing_listed(after, source@, x)
                    == (x == target@ || crossing_listed(before, source@, x)) by {
                    let l = lookup(after, source@)->0;
                    if lists(l@, x) {
                        let i = choose|i: int| 0 <= i < l@.len() && (#[trigger] l@[i])@ == x;
                        if i < l@.len() - 1 {
                            let ol = lookup(before, source@)->0;
                            assert(ol@[i]@ == x);
                        }
                    }
                    if crossing_listed(before, source@, x) {
                        let ol = lookup(before, source@)->0;
                        let i = choose|i: int| 0 <= i < ol@.len() && (#[trigger] ol@[i])@ == x;
                        assert(l@[i]@ == x);
                    }
                    if x == target@ {
                        assert(l@[l@.len() - 1]@ == x);
                    }
                }
            }
        }
    }

    /// Records that `source` may depend on `target`.
    pub fn allow_crossing(&mut self, source: &str, target: &str)
        ensures
            crossing_added(old(self).allowed(), final(self).allowed(), source@, target@),
            crossing_listed(old(self).allowed(), source@, target@) ==> final(self).allowed() == old(self).allowed(),
            final(self).boundaries() == old(self).boundaries(),
            final(self).forbidden() == old(self).forbidden(),
            final(self).kernels() == old(self).kernels(),
            final(self).rules() == old(self).rules(),
    {
        proof {
            use_type_invariant(&*self);
        }
        let mut store: KeyedStore<Vec<String>> = KeyedStore::new();
        std::mem::swap(&mut store, &mut self.allowed_crossings);
        Self::add_crossing(&mut store, source, target);
        self.allowed_crossings = store;
    }

    /// Records that `source` must not depend on `target`.
    pub fn forbid_crossing(&mut self, source: &str, target: &str)
        ensures
            crossing_added(old(self).forbidden(), final(self).forbidden(), source@, target@),
            crossing_listed(old(self).forbidden(), source@, target@) ==> final(self).forbidden() == old(self).forbidden(),
            final(self).boundaries() == old(self).boundaries(),
            final(self).allowed() == old(self).allowed(),
            final(self).kernels() == old(self).kernels(),
            final(self).rules() == old(self).rules(),
    {
        proof {
            use_type_invariant(&*self);
        }
        let mut store: KeyedStore<Vec<String>> = KeyedStore::new();
        std::mem::swap(&mut store, &mut self.forbidden_crossings);
        Self::add_crossing(&mut store, source, target);
        self.forbidden_crossings = store;
    }

    /// Adds a validation rule.
    pub fn add_rule(&mut self, rule: ValidationRule)
        ensures
            final(self).rules() == old(self).rules().push(rule),
            final(self).boundaries() == old(self).boundaries(),
            final(self).allowed() == old(self).allowed(),
            final(self).forbidden() == old(self).forbidden(),
            final(self).kernels() == old(self).kernels(),
    {
        proof {
            use_type_invariant(&*self);
        }
        let mut rules: Vec<ValidationRule> = Vec::new();
        std::mem::swap(&mut rules, &mut self.validation_rules);
        rules.push(rule);
        self.validation_rules = rules;
    }

    /// What `validate_dependency` answers for these arguments.
    pub open spec fn dependency_outcome(&self, source: Seq<char>, target: Seq<char>, r: PolicyEvalResult) -> bool {
        if crossing_listed(self.forbidden(), source, target) {
            r matches PolicyEvalResult::Violation(v) && violation_is(
                v,
                "NoCrossContextDependency"@,
                PolicySeverity::Error,
                "Forbidden cross-context dependency: '"@ + source + "' depends on '"@ + target + "'"@,
                seq![("source"@, source), ("target"@, target)],
                seq!["Introduce anti-corruption layer between '"@ + source + "' and '"@ + target + "'"@,
                     "Refactor '"@ + source + "' to depend on interface instead of '"@ + target + "' directly"@],
            )
        } else if has_key(self.allowed(), source) && !crossing_listed(self.allowed(), source, target)
            && has_key(self.boundaries(), target) {
            r matches PolicyEvalResult::Warning(w) && w@ == "Undeclared cross-context dependency: '"@ + source
                + "' -> '"@ + target + "'. Dependencies should be explicitly allowed."@
        } else {
            r is Pass
        }
    }

    /// Checks a dependency of `source` on `target`: a forbidden crossing is a violation; a
    /// crossing missing from the allowed set of `source` is a warning where `target` has a
    /// boundary definition.
    pub fn validate_dependency(&self, source: &str, target: &str, _context: &GovernanceContext) -> (r: PolicyEvalResult)
        ensures
            self.dependency_outcome(source@, target@, r),

    {
        match self.forbidden_crossings.get(source) {
            Some(forbidden) => {
                if list_contains(forbidden, target) {
                    let mut context: Vec<(String, String)> = Vec::new();
                    context.push((owned("source"), owned(source)));
                    context.push((owned("target"), owned(target)));
                    let mut remediations: Vec<String> = Vec::new();
                    remediations.push(cat5("Introduce anti-corruption layer between '", source, "' and '", target, "'"));
                    remediations.push(cat5("Refactor '", source, "' to depend on interface instead of '", target, "' directly"));
                    let v = GovernanceViolation {
                        policy_id: 0,
                        policy_name: owned("NoCrossContextDependency"),
                        severity: PolicySeverity::Error,
                        message: cat5("Forbidden cross-context dependency: '", source, "' depends on '", target, "'"),
                        context,
                        remediations,
                    };
                    proof {
                        assert(strs_view(v.remediations@) =~= seq!["Introduce anti-corruption layer between '"@ + source@ + "' and '"@ + target@ + "'"@,
                            "Refactor '"@ + source@ + "' to depend on interface instead of '"@ + target@ + "' directly"@]);
                        assert(pairs_view(v.context@) =~= seq![("source"@, source@), ("target"@, target@)]);
                    }
                    return PolicyEvalResult::Violation(v);
                }
            },
            None => {},
        }
        match self.allowed_crossings.get(source) {
            Some(allowed) => {
                if !list_contains(allowed, target) {
                    if !self.context_boundaries.contains_key(target) {
                        return PolicyEvalResult::Pass;
                    }
                    return PolicyEvalResult::Warning(cat5("Undeclared cross-context dependency: '", source, "' -> '", target,
                        "'. Dependencies should be explicitly allowed."));
                }
            },
            None => {},
        }
        PolicyEvalResult::Pass
    }

    /// Reports whether context `context_name` has a boundary definition and no forbidden
    /// crossings, with the packages and interfaces of its definition.
    pub fn validate_context_isolation(&self, context_name: &str) -> (r: ContextIsolationReport)
        ensures
            r.context_name@ == context_name@,
            r.boundary_defined == has_key(self.boundaries(), context_name@),
            match lookup(self.boundaries(), context_name@) {
                Some(b) => r.owned_packages@ == b.owned_packages@ && r.exposed_interfaces@ == b.exposed_interfaces@,
                None => r.owned_packages@.len() == 0 && r.exposed_interfaces@.len() == 0,
            },
            r.leak_violations@.len() == 0,
            r.isolated == (has_key(self.boundaries(), context_name@)
                && !(lookup(self.forbidden(), context_name@) matches Some(f) && f@.len() != 0)),
    {
        let mut boundary_defined = false;
        let mut owned_packages: Vec<String> = Vec::new();
        let mut exposed_interfaces: Vec<String> = Vec::new();
        match self.context_boundaries.get(context_name) {
            Some(b) => {
                boundary_defined = true;
                owned_packages = b.owned_packages.clone();
                exposed_interfaces = b.exposed_interfaces.clone();
                assert(owned_packages@ =~= b.owned_packages@);
                assert(exposed_interfaces@ =~= b.exposed_interfaces@);
            },
            None => {},
        }
        let has_forbidden = match self.forbidden_crossings.get(context_name) {
            Some(f) => f.len() != 0,
            None => false,
        };
        ContextIsolationReport {
            context_name: owned(context_name),
            boundary_defined,
            owned_packages,
            exposed_interfaces,
            leak_violations: Vec::new(),
            isolated: boundary_defined && !has_forbidden,
        }
    }

    /// The first shared kernel named `kernel_name`. No shared kernel is ever registered, so
    /// there is none.
    pub fn validate_shared_kernel(&self, kernel_name: &str) -> (r: Option<&SharedKernel>)
        ensures
            self.kernels().len() == 0,
            r is None,
            match r {
                Some(k) => exists|i: int| 0 <= i < self.kernels().len() && self.kernels()[i] == *k
                    && k.name@ == kernel_name@
                    && forall|j: int| 0 <= j < i ==> (#[trigger] self.kernels()[j]).name@ != kernel_name@,
                None => forall|j: int| 0 <= j < self.kernels().len() ==> (#[trigger] self.kernels()[j]).name@ != kernel_name@,
            },
    {
        proof {
            use_type_invariant(self);
        }
        let n = self.shared_kernels.len();
        for i in 0..n
            invariant
                n == self.shared_kernels@.len(),
                n == 0,
                forall|j: int| 0 <= j < i ==> (#[trigger] self.shared_kernels@[j]).name@ != kernel_name@,
        {
            if str_eq(self.shared_kernels[i].name.as_str(), kernel_name) {
                assert(0 <= i < self.kernels().len() && self.kernels()[i as int] == self.shared_kernels@[i as int]
                    && self.shared_kernels@[i as int].name@ == kernel_name@
                    && forall|j: int| 0 <= j < i ==> (#[trigger] self.kernels()[j]).name@ != kernel_name@);
                return Some(&self.shared_kernels[i]);
            }
        }
        None
    }

    /// All boundary findings: one per forbidden crossing, then, for each boundary that
    /// exposes no interfaces, one per package it owns.
    pub fn collect_all_violations(&self) -> (r: Vec<String>)
        ensures
            strs_view(r@) == forbidden_findings(self.forbidden()) + exposure_findings(self.boundaries()),
    {
        let mut violations: Vec<String> = Vec::new();
        let nf = self.forbidden_crossings.len();
        for i in 0..nf
            invariant
                nf == self.forbidden_crossings.entries().len(),
                strs_view(violations@) == forbidden_findings(self.forbidden_crossings.entries().take(i as int)),
        {
            let (source, targets) = self.forbidden_crossings.entry_at(i);
            let ghost before = violations@;
            let nt = targets.len();
            for j in 0..nt
                invariant
                    nt == targets@.len(),
                    strs_view(violations@) == strs_view(before) + crossing_lines(source@, targets@.take(j as int)),
            {
                assert(targets@.take(j + 1).drop_last() =~= targets@.take(j as int));
                let ghost prev = violations@;
                let msg = cat4("Boundary violation: ", source.as_str(), " -> ", targets[j].as_str());
                violations.push(msg);
                assert(strs_view(violations@) =~= strs_view(prev).push(msg@));
                assert(targets@.take(j + 1).last() == targets@[j as int]);
                assert(strs_view(violations@) =~= strs_view(before) + crossing_lines(source@, targets@.take(j + 1)));
            }
            assert(targets@.take(nt as int) =~= targets@);
            assert(self.forbidden_crossings.entries().take(i + 1).drop_last() =~= self.forbidden_crossings.entries().take(i as int));
        }
        assert(self.forbidden_crossings.entries().take(nf as int) =~= self.forbidden_crossings.entries());
        let ghost mid = violations@;
        let nb = self.context_boundaries.len();
        for i in 0..nb
            invariant
                nb == self.context_boundaries.entries().len(),
                strs_view(violations@) == strs_view(mid) + exposure_findings(self.context_boundaries.entries().take(i as int)),
        {
            let (name, boundary) = self.context_boundaries.entry_at(i);
            let ghost before = violations@;
            let np = boundary.owned_packages.len();
            let ghost line = "Context '"@ + name@ + "' owns packages but exposes no interfaces"@;
            if boundary.exposed_interfaces.len() == 0 {
                for j in 0..np
                    invariant
                        line == "Context '"@ + name@ + "' owns packages but exposes no interfaces"@,
                        strs_view(violations@) == strs_view(before) + Seq::new(j as nat, |k: int| line),
                {
                    let ghost prev = violations@;
                    let msg = cat3("Context '", name.as_str(), "' owns packages but exposes no interfaces");
                    violations.push(msg);
                    assert(strs_view(violations@) =~= strs_view(prev).push(line));
                    assert(strs_view(violations@) =~= strs_view(before) + Seq::new((j + 1) as nat, |k: int| line));
                }
            }
            assert(exposure_findings(self.context_boundaries.entries().take(i + 1)) =~=
                exposure_findings(self.context_boundaries.entries().take(i as int)) + if boundary.exposed_interfaces@.len() == 0 {
                    Seq::new(np as nat, |k: int| line)
                } else {
                    Seq::<Seq<char>>::empty()
                }) by {
                assert(self.context_boundaries.entries().take(i + 1).drop_last() =~= self.context_boundaries.entries().take(i as int));
            }
            assert(self.context_boundaries.entries().take(i + 1).drop_last() =~= self.context_boundaries.entries().take(i as int));
            assert(strs_view(violations@) =~= strs_view(mid) + exposure_findings(self.context_boundaries.entries().take(i + 1)));
        }
        assert(self.context_boundaries.entries().take(nb as int) =~= self.context_boundaries.entries());
        violations
    }
}

impl Default for BoundedContextValidator {
    /// The same as `BoundedContextValidator::new()`.
    fn default() -> (r: Self)
        ensures
            r.boundaries().len() == 0,
            r.allowed().len() == 0,
            r.forbidden().len() == 0,
            r.kernels().len() == 0,
            r.rules().len() == 0,
    {
        Self::new()
    }
}

} // verus!
