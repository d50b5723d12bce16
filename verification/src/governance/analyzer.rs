//! Dependency analysis of the architecture: components, their dependencies and
//! dependents, coupling counts, dependency cycles and change impact.
use vstd::prelude::*;
use crate::store::{KeyedStore, lookup, stored, has_key, key_index, keys_distinct, lemma_key_index_unique, lemma_lookup_after_store};
use crate::text::{owned, str_eq, list_contains, lists, strs_view, clone_strings};
use crate::env::now_millis;

verus! {

/// A component of the dependency graph.
#[derive(Debug, Clone)]
pub struct DependencyNode {
    pub name: String,
    /// The components this one depends on, each once, in the order first declared.
    pub dependencies: Vec<String>,
    /// The components that depend on this one, each once, in the order first declared.
    pub dependents: Vec<String>,
    pub metadata: Vec<(String, String)>,
}

/// The coupling counts of a component and the thresholds they cross. With `e`
/// dependencies and `a` dependents, the instability is `e / (e + a)` (0 when both are 0)
/// and the distance from the main sequence is `1 - instability`.
#[derive(Debug, Clone)]
pub struct CouplingCounts {
    pub component: String,
    pub afferent_coupling: usize,
    pub efferent_coupling: usize,
    /// The instability exceeds 0.7.
    pub high_instability: bool,
    /// More than 20 dependents.
    pub high_afferent: bool,
    /// More than 15 dependencies.
    pub high_efferent: bool,
    /// The distance from the main sequence exceeds 0.5.
    pub far_from_main: bool,
}

/// A cycle of dependencies: each component depends on the next, the last on the first.
#[derive(Debug, Clone)]
pub struct DependencyCycle {
    pub nodes: Vec<String>,
    pub length: usize,
}

/// What a change to a component affects.
#[derive(Debug)]
pub struct ImpactAnalysis {
    pub changed_component: String,
    pub directly_affected: Vec<String>,
    pub transitive_dependencies: Vec<String>,
    pub total_affected: usize,
}

/// The dependency graph, with the cycles found by the last analysis.
pub struct DependencyAnalyzer {
    nodes: KeyedStore<DependencyNode>,
    cycles: Vec<DependencyCycle>,
    /// Milliseconds since the Unix epoch of the last cycle analysis.
    analysis_timestamp: Option<i64>,
}

/// The dependencies of component `k` (none when it is not registered).
pub open spec fn deps_of(g: Seq<(String, DependencyNode)>, k: Seq<char>) -> Seq<Seq<char>> {
    match lookup(g, k) {
        Some(n) => strs_view(n.dependencies@),
        None => Seq::empty(),
    }
}

/// The dependents of component `k` (none when it is not registered).
pub open spec fn dependents_of(g: Seq<(String, DependencyNode)>, k: Seq<char>) -> Seq<Seq<char>> {
    match lookup(g, k) {
        Some(n) => strs_view(n.dependents@),
        None => Seq::empty(),
    }
}

/// Component `a` depends on component `b`.
pub open spec fn depends_on(g: Seq<(String, DependencyNode)>, a: Seq<char>, b: Seq<char>) -> bool {
    deps_of(g, a).contains(b)
}

/// `s` with `x` added at the end unless it is already there.
pub open spec fn add_name(s: Seq<Seq<char>>, x: Seq<char>) -> Seq<Seq<char>> {
    if s.contains(x) { s } else { s.push(x) }
}

/// Every name of `names` is a registered component.
pub open spec fn names_known(g: Seq<(String, DependencyNode)>, names: Seq<String>) -> bool {
    forall|j: int| 0 <= j < names.len() ==> has_key(g, (#[trigger] names[j])@)
}

/// Every dependency and dependent of every component is itself registered.
pub open spec fn closed_graph(g: Seq<(String, DependencyNode)>) -> bool {
    forall|i: int| 0 <= i < g.len() ==> names_known(g, (#[trigger] g[i]).1.dependencies@)
        && names_known(g, g[i].1.dependents@)
}

/// `c` is a cycle of `g`: its components are distinct, each depends on the next and the
/// last on the first.
pub open spec fn is_cycle(g: Seq<(String, DependencyNode)>, c: Seq<Seq<char>>) -> bool {
    &&& c.len() >= 1
    &&& forall|i: int| 0 <= i < c.len() - 1 ==> depends_on(g, #[trigger] c[i], c[i + 1])
    &&& depends_on(g, c.last(), c[0])
    &&& forall|i: int, j: int| 0 <= i < j < c.len() ==> #[trigger] c[i] != #[trigger] c[j]
}

/// `c` is a well-formed report of a cycle of `g`.
pub open spec fn cycle_ok(g: Seq<(String, DependencyNode)>, c: DependencyCycle) -> bool {
    c.length == c.nodes@.len() && is_cycle(g, strs_view(c.nodes@))
}

/// The fields of a cycle report, with strings by their characters.
pub open spec fn cycle_view(c: DependencyCycle) -> (Seq<Seq<char>>, usize) {
    (strs_view(c.nodes@), c.length)
}

/// The cycle reports of `cs`, by their views.
pub open spec fn cycles_view(cs: Seq<DependencyCycle>) -> Seq<(Seq<Seq<char>>, usize)> {
    cs.map_values(|c: DependencyCycle| cycle_view(c))
}

/// The node registered for a new component: no dependencies or dependents.
pub open spec fn fresh_node(n: DependencyNode, name: Seq<char>, metadata: Seq<(String, String)>) -> bool {
    n.name@ == name && n.dependencies@.len() == 0 && n.dependents@.len() == 0 && n.metadata@ == metadata
}

/// `m` is `n` with `t` added to its dependencies.
pub open spec fn with_dependency(n: DependencyNode, m: DependencyNode, t: Seq<char>) -> bool {
    &&& m.name == n.name
    &&& m.dependents == n.dependents
    &&& m.metadata == n.metadata
    &&& strs_view(m.dependencies@) == add_name(strs_view(n.dependencies@), t)
}

/// `m` is `n` with `s` added to its dependents.
pub open spec fn with_dependent(n: DependencyNode, m: DependencyNode, s: Seq<char>) -> bool {
    &&& m.name == n.name
    &&& m.dependencies == n.dependencies
    &&& m.metadata == n.metadata
    &&& strs_view(m.dependents@) == add_name(strs_view(n.dependents@), s)
}

proof fn lemma_lists_contains(list: Seq<String>, k: Seq<char>)
    ensures
        lists(list, k) == strs_view(list).contains(k),
{
    if lists(list, k) {
        let j = choose|j: int| 0 <= j < list.len() && (#[trigger] list[j])@ == k;
        assert(strs_view(list)[j] == k);
    }
    if strs_view(list).contains(k) {
        let j = choose|j: int| 0 <= j < strs_view(list).len() && strs_view(list)[j] == k;
        assert(list[j]@ == k);
    }
}

/// `n` with `t` added to its dependencies unless already there.
fn add_dependency(n: DependencyNode, t: String) -> (m: DependencyNode)
    ensures
        with_dependency(n, m, t@),
{
    let mut m = n;
    proof {
        lemma_lists_contains(m.dependencies@, t@);
    }
    if !list_contains(&m.dependencies, t.as_str()) {
        let ghost before = m.dependencies@;
        m.dependencies.push(t);
        proof {
            assert(strs_view(m.dependencies@) =~= strs_view(before).push(m.dependencies@.last()@));
        }
    }
    m
}

/// `n` with `s` added to its dependents unless already there.
fn add_dependent(n: DependencyNode, s: String) -> (m: DependencyNode)
    ensures
        with_dependent(n, m, s@),
{
    let mut m = n;
    proof {
        lemma_lists_contains(m.dependents@, s@);
    }
    if !list_contains(&m.dependents, s.as_str()) {
        let ghost before = m.dependents@;
        m.dependents.push(s);
        proof {
            assert(strs_view(m.dependents@) =~= strs_view(before).push(m.dependents@.last()@));
        }
    }
    m
}

proof fn lemma_has_key_lookup(g: Seq<(String, DependencyNode)>, k: Seq<char>)
    requires
        keys_distinct(g),
    ensures
        has_key(g, k) == (lookup(g, k) is Some),
{
}

/// Registers `name` with no dependencies or metadata unless it is already there.
fn ensure_node(nodes: &mut KeyedStore<DependencyNode>, name: &str)
    requires
        closed_graph(old(nodes).entries()),
    ensures
        closed_graph(final(nodes).entries()),
        keys_distinct(final(nodes).entries()),
        forall|k: Seq<char>| #[trigger] has_key(final(nodes).entries(), k) == (has_key(old(nodes).entries(), k) || k == name@),
        forall|k: Seq<char>| #[trigger] deps_of(final(nodes).entries(), k) == deps_of(old(nodes).entries(), k),
        forall|k: Seq<char>| #[trigger] dependents_of(final(nodes).entries(), k) == dependents_of(old(nodes).entries(), k),
{
    let ghost g = nodes.entries();
    if !nodes.contains_key(name) {
        let node = DependencyNode {
            name: owned(name),
            dependencies: Vec::new(),
            dependents: Vec::new(),
            metadata: Vec::new(),
        };
        let ghost nv = node;
        let key = owned(name);
        let ghost kv = key;
        nodes.insert(key, node);
        proof {
            let g2 = nodes.entries();
            crate::store::lemma_stored_distinct(g, kv, nv);
            assert forall|k: Seq<char>| #[trigger] has_key(g2, k) == (has_key(g, k) || k == name@) by {
                lemma_lookup_after_store(g, kv, nv, k);
                lemma_has_key_lookup(g, k);
                lemma_has_key_lookup(g2, k);
            }
            assert forall|k: Seq<char>| #[trigger] deps_of(g2, k) == deps_of(g, k) by {
                lemma_lookup_after_store(g, kv, nv, k);
                if k == name@ {
                    lemma_has_key_lookup(g, k);
                    assert(strs_view(nv.dependencies@) =~= Seq::<Seq<char>>::empty());
                }
            }
            assert forall|k: Seq<char>| #[trigger] dependents_of(g2, k) == dependents_of(g, k) by {
                lemma_lookup_after_store(g, kv, nv, k);
                if k == name@ {
                    lemma_has_key_lookup(g, k);
                    assert(strs_view(nv.dependents@) =~= Seq::<Seq<char>>::empty());
                }
            }
            assert(g2 == g.push((kv, nv)));
            assert forall|i: int| 0 <= i < g2.len() implies names_known(g2, (#[trigger] g2[i]).1.dependencies@)
                && names_known(g2, g2[i].1.dependents@) by {
                if i < g.len() {
                    assert(g2[i] == g[i]);
                    assert(names_known(g, g[i].1.dependencies@));
                    assert(names_known(g, g[i].1.dependents@));
                }
            }
        }
    } else {
        let _ = nodes.position(name);
    }
}

/// Adds `t`, a registered component, to the dependencies of the component at `i`.
fn link_dependency(nodes: &mut KeyedStore<DependencyNode>, i: usize, t: String)
    requires
        closed_graph(old(nodes).entries()),
        keys_distinct(old(nodes).entries()),
        i < old(nodes).entries().len(),
        has_key(old(nodes).entries(), t@),
    ensures
        closed_graph(final(nodes).entries()),
        keys_distinct(final(nodes).entries()),
        forall|k: Seq<char>| #[trigger] has_key(final(nodes).entries(), k) == has_key(old(nodes).entries(), k),
        deps_of(final(nodes).entries(), old(nodes).entries()[i as int].0@)
            == add_name(deps_of(old(nodes).entries(), old(nodes).entries()[i as int].0@), t@),
        forall|k: Seq<char>| k != old(nodes).entries()[i as int].0@
            ==> #[trigger] deps_of(final(nodes).entries(), k) == deps_of(old(nodes).entries(), k),
        forall|k: Seq<char>| #[trigger] dependents_of(final(nodes).entries(), k) == dependents_of(old(nodes).entries(), k),
{
    let ghost g = nodes.entries();
    let ghost tv = t@;
    proof {
        lemma_key_index_unique(g, i as int);
    }
    nodes.modify_at(i, move |n: DependencyNode| -> (m: DependencyNode)
        ensures
            with_dependency(n, m, tv),
        {
            add_dependency(n, t)
        });
    proof {
        let g2 = nodes.entries();
        let w = g2[i as int].1;
        let k0 = g[i as int].0;
        assert(g2 == g.update(i as int, (k0, w)));
        assert(g2 == stored(g, k0, w));
        crate::store::lemma_stored_distinct(g, k0, w);
        assert forall|k: Seq<char>| #[trigger] has_key(g2, k) == has_key(g, k) by {
            lemma_lookup_after_store(g, k0, w, k);
            lemma_has_key_lookup(g, k);
            lemma_has_key_lookup(g2, k);
        }
        lemma_lookup_after_store(g, k0, w, k0@);
        assert forall|k: Seq<char>| k != k0@ implies #[trigger] deps_of(g2, k) == deps_of(g, k) by {
            lemma_lookup_after_store(g, k0, w, k);
        }
        assert forall|k: Seq<char>| #[trigger] dependents_of(g2, k) == dependents_of(g, k) by {
            lemma_lookup_after_store(g, k0, w, k);
        }
        assert forall|a: int| 0 <= a < g2.len() implies names_known(g2, (#[trigger] g2[a]).1.dependencies@)
            && names_known(g2, g2[a].1.dependents@) by {
            assert(names_known(g, g[a].1.dependencies@));
            assert(names_known(g, g[a].1.dependents@));
            if a == i {
                assert forall|j: int| 0 <= j < w.dependencies@.len() implies has_key(g2, (#[trigger] w.dependencies@[j])@) by {
                    let nd = g[i as int].1.dependencies@;
                    assert(strs_view(w.dependencies@)[j] == w.dependencies@[j]@);
                    assert(strs_view(w.dependencies@) == add_name(strs_view(nd), tv));
                    if j < nd.len() {
                        assert(strs_view(w.dependencies@)[j] == strs_view(nd)[j]);
                        assert(has_key(g, nd[j]@));
                        assert(has_key(g2, nd[j]@));
                    } else {
                        assert(!strs_view(nd).contains(tv));
                        assert(strs_view(w.dependencies@).len() == w.dependencies@.len());
                        assert(strs_view(nd).len() == nd.len());
                        assert(j == nd.len());
                        assert(strs_view(w.dependencies@)[j] == tv);
                        assert(has_key(g2, tv));
                    }
                }
            }
        }
    }
}

/// Adds `s`, a registered component, to the dependents of the component at `i`.
fn link_dependent(nodes: &mut KeyedStore<DependencyNode>, i: usize, s: String)
    requires
        closed_graph(old(nodes).entries()),
        keys_distinct(old(nodes).entries()),
        i < old(nodes).entries().len(),
        has_key(old(nodes).entries(), s@),
    ensures
        closed_graph(final(nodes).entries()),
        keys_distinct(final(nodes).entries()),
        forall|k: Seq<char>| #[trigger] has_key(final(nodes).entries(), k) == has_key(old(nodes).entries(), k),
        dependents_of(final(nodes).entries(), old(nodes).entries()[i as int].0@)
            == add_name(dependents_of(old(nodes).entries(), old(nodes).entries()[i as int].0@), s@),
        forall|k: Seq<char>| k != old(nodes).entries()[i as int].0@
            ==> #[trigger] dependents_of(final(nodes).entries(), k) == dependents_of(old(nodes).entries(), k),
        forall|k: Seq<char>| #[trigger] deps_of(final(nodes).entries(), k) == deps_of(old(nodes).entries(), k),
{
    let ghost g = nodes.entries();
    let ghost sv = s@;
    proof {
        lemma_key_index_unique(g, i as int);
    }
    nodes.modify_at(i, move |n: DependencyNode| -> (m: DependencyNode)
        ensures
            with_dependent(n, m, sv),
        {
            add_dependent(n, s)
        });
    proof {
        let g2 = nodes.entries();
        let w = g2[i as int].1;
        let k0 = g[i as int].0;
        assert(g2 == g.update(i as int, (k0, w)));
        assert(g2 == stored(g, k0, w));
        crate::store::lemma_stored_distinct(g, k0, w);
        assert forall|k: Seq<char>| #[trigger] has_key(g2, k) == has_key(g, k) by {
            lemma_lookup_after_store(g, k0, w, k);
            lemma_has_key_lookup(g, k);
            lemma_has_key_lookup(g2, k);
        }
        lemma_lookup_after_store(g, k0, w, k0@);
        assert forall|k: Seq<char>| k != k0@ implies #[trigger] dependents_of(g2, k) == dependents_of(g, k) by {
            lemma_lookup_after_store(g, k0, w, k);
        }
        assert forall|k: Seq<char>| #[trigger] deps_of(g2, k) == deps_of(g, k) by {
            lemma_lookup_after_store(g, k0, w, k);
        }
        assert forall|a: int| 0 <= a < g2.len() implies names_known(g2, (#[trigger] g2[a]).1.dependencies@)
            && names_known(g2, g2[a].1.dependents@) by {
            assert(names_known(g, g[a].1.dependencies@));
            assert(names_known(g, g[a].1.dependents@));
            if a == i {
                assert forall|j: int| 0 <= j < w.dependents@.len() implies has_key(g2, (#[trigger] w.dependents@[j])@) by {
                    let nd = g[i as int].1.dependents@;
                    assert(strs_view(w.dependents@)[j] == w.dependents@[j]@);
                    assert(strs_view(w.dependents@) == add_name(strs_view(nd), sv));
                    if j < nd.len() {
                        assert(strs_view(w.dependents@)[j] == strs_view(nd)[j]);
                        assert(has_key(g, nd[j]@));
                        assert(has_key(g2, nd[j]@));
                    } else {
                        assert(!strs_view(nd).contains(sv));
                        assert(strs_view(w.dependents@).len() == w.dependents@.len());
                        assert(strs_view(nd).len() == nd.len());
                        assert(j == nd.len());
                        assert(strs_view(w.dependents@)[j] == sv);
                        assert(has_key(g2, sv));
                    }
                }
            }
        }
    }
}

/// The names of the components at the positions of `p`.
pub open spec fn path_names(g: Seq<(String, DependencyNode)>, p: Seq<usize>) -> Seq<Seq<char>> {
    p.map_values(|i: usize| g[i as int].0@)
}

/// `p` is a path of distinct positions of `g`, each component depending on the next.
pub open spec fn path_ok(g: Seq<(String, DependencyNode)>, p: Seq<usize>) -> bool {
    &&& forall|j: int| 0 <= j < p.len() ==> (#[trigger] p[j]) < g.len()
    &&& forall|a: int, b: int| 0 <= a < b < p.len() ==> #[trigger] p[a] != #[trigger] p[b]
    &&& forall|j: int| 0 <= j < p.len() - 1 ==> depends_on(g, g[(#[trigger] p[j]) as int].0@, g[p[j + 1] as int].0@)
}

/// The number of unmarked entries among the first `k` of `v`.
pub open spec fn unmarked(v: Seq<bool>, k: int) -> nat
    decreases k,
{
    if k <= 0 { 0 } else { unmarked(v, k - 1) + (if v[k - 1] { 0nat } else { 1nat }) }
}

proof fn lemma_mark(v: Seq<bool>, u: int, k: int)
    requires
        0 <= u < v.len(),
        !v[u],
        0 <= k <= v.len(),
    ensures
        k > u ==> unmarked(v.update(u, true), k) + 1 == unmarked(v, k),
        k <= u ==> unmarked(v.update(u, true), k) == unmarked(v, k),
    decreases k,
{
    if k > 0 {
        lemma_mark(v, u, k - 1);
    }
}

proof fn lemma_marks_grow(v1: Seq<bool>, v2: Seq<bool>, k: int)
    requires
        v1.len() == v2.len(),
        0 <= k <= v1.len(),
        forall|i: int| 0 <= i < v1.len() && #[trigger] v1[i] ==> v2[i],
    ensures
        unmarked(v2, k) <= unmarked(v1, k),
    decreases k,
{
    if k > 0 {
        lemma_marks_grow(v1, v2, k - 1);
    }
}

/// The cut of a path from position `p` on, closed by an edge from its last component back
/// to the component at `p`, is a cycle.
#[verifier::rlimit(80)]
#[verifier::spinoff_prover]
proof fn lemma_cycle_sound(g: Seq<(String, DependencyNode)>, path: Seq<usize>, p: int)
    requires
        keys_distinct(g),
        path_ok(g, path),
        0 <= p < path.len(),
        depends_on(g, g[path.last() as int].0@, g[path[p] as int].0@),
    ensures
        is_cycle(g, path_names(g, path.subrange(p, path.len() as int))),
{
    let c = path_names(g, path.subrange(p, path.len() as int));
    assert(c.len() == path.len() - p);
    assert forall|i: int| 0 <= i < c.len() - 1 implies depends_on(g, #[trigger] c[i], c[i + 1]) by {
        assert(c[i] == g[path[p + i] as int].0@);
        assert(c[i + 1] == g[path[p + i + 1] as int].0@);
    }
    assert(c.last() == g[path.last() as int].0@);
    assert(c[0] == g[path[p] as int].0@);
    assert forall|i: int, j: int| 0 <= i < j < c.len() implies #[trigger] c[i] != #[trigger] c[j] by {
        let a = path[p + i] as int;
        let b = path[p + j] as int;
        assert(c[i] == g[a].0@);
        assert(c[j] == g[b].0@);
        assert(a != b);
        assert(a < g.len() && b < g.len());
        if a < b {
            assert(g[a].0@ != g[b].0@);
        } else {
            assert(g[b].0@ != g[a].0@);
        }
    }
}

/// The position of `x` in `path`, if it is there.
fn find_index(path: &Vec<usize>, x: usize) -> (r: Option<usize>)
    ensures
        match r {
            Some(p) => p < path@.len() && path@[p as int] == x,
            None => forall|j: int| 0 <= j < path@.len() ==> path@[j] != x,
        },
{
    let n = path.len();
    for i in 0..n
        invariant
            n == path@.len(),
            forall|j: int| 0 <= j < i ==> path@[j] != x,
    {
        if path[i] == x {
            return Some(i);
        }
    }
    None
}

/// The cycle made of the components at positions `p..` of `path`.
fn cycle_from(nodes: &KeyedStore<DependencyNode>, path: &Vec<usize>, p: usize) -> (r: DependencyCycle)
    requires
        p < path@.len(),
        forall|j: int| 0 <= j < path@.len() ==> (#[trigger] path@[j]) < nodes.entries().len(),
    ensures
        strs_view(r.nodes@) == path_names(nodes.entries(), path@.subrange(p as int, path@.len() as int)),
        r.length == r.nodes@.len(),
{
    let mut names: Vec<String> = Vec::new();
    let n = path.len();
    let ghost g = nodes.entries();
    let mut q = p;
    while q < n
        invariant
            p <= q <= n,
            n == path@.len(),
            g == nodes.entries(),
            forall|j: int| 0 <= j < path@.len() ==> (#[trigger] path@[j]) < g.len(),
            strs_view(names@) == path_names(g, path@.subrange(p as int, q as int)),
        decreases n - q,
    {
        let (k, _) = nodes.entry_at(path[q]);
        let ghost before = names@;
        names.push(k.clone());
        proof {
            assert(strs_view(names@) =~= strs_view(before).push(g[path@[q as int] as int].0@));
            assert(path@.subrange(p as int, q + 1) =~= path@.subrange(p as int, q as int).push(path@[q as int]));
            assert(path_names(g, path@.subrange(p as int, q + 1)) =~= path_names(g, path@.subrange(p as int, q as int)).push(g[path@[q as int] as int].0@));
        }
        q = q + 1;
    }
    let length = names.len();
    DependencyCycle { nodes: names, length }
}

/// Position `i` is on `path`.
pub open spec fn on_path(path: Seq<usize>, i: int) -> bool {
    exists|k: int| 0 <= k < path.len() && path[k] as int == i
}

/// The finishing times of a depth-first search that has found no cycle: every finished
/// component is marked and finished before `clock`; every marked component off the path
/// has finished; and every component finished after each of its dependencies.
pub open spec fn finish_ok(g: Seq<(String, DependencyNode)>, fin: Map<int, nat>, clock: nat, visited: Seq<bool>, path: Seq<usize>) -> bool {
    &&& forall|i: int| #[trigger] fin.dom().contains(i) ==> 0 <= i < g.len() && visited[i] && fin[i] < clock
    &&& forall|i: int| 0 <= i < g.len() && #[trigger] visited[i] && !on_path(path, i) ==> fin.dom().contains(i)
    &&& forall|i: int, j: int| fin.dom().contains(i) && 0 <= j < g.len() && #[trigger] depends_on(g, g[i].0@, g[j].0@)
        ==> fin.dom().contains(j) && fin[j] < fin[i]
}

/// `f2` keeps every finishing time of `f1`.
pub open spec fn fin_grows(f1: Map<int, nat>, f2: Map<int, nat>) -> bool {
    forall|i: int| #[trigger] f1.dom().contains(i) ==> f2.dom().contains(i) && f2[i] == f1[i]
}

/// Along a cycle, finishing times fall by at least one at each step.
proof fn lemma_descending(g: Seq<(String, DependencyNode)>, fin: Map<int, nat>, c: Seq<Seq<char>>, k: int)
    requires
        keys_distinct(g),
        is_cycle(g, c),
        0 <= k < c.len(),
        forall|t: int| 0 <= t < c.len() ==> has_key(g, #[trigger] c[t]),
        forall|i: int| 0 <= i < g.len() ==> #[trigger] fin.dom().contains(i),
        forall|i: int, j: int| fin.dom().contains(i) && 0 <= j < g.len() && #[trigger] depends_on(g, g[i].0@, g[j].0@)
            ==> fin.dom().contains(j) && fin[j] < fin[i],
    ensures
        fin[key_index(g, c[k])] + k <= fin[key_index(g, c[0])],
    decreases k,
{
    if k > 0 {
        lemma_descending(g, fin, c, k - 1);
        let a = key_index(g, c[k - 1]);
        let b = key_index(g, c[k]);
        assert(has_key(g, c[k - 1]) && has_key(g, c[k]));
        assert(g[a].0@ == c[k - 1]);
        assert(g[b].0@ == c[k]);
        assert(depends_on(g, c[k - 1], c[k]));
        assert(depends_on(g, g[a].0@, g[b].0@));
        assert(fin.dom().contains(a));
    }
}

/// With every component finished after its dependencies, there is no cycle.
proof fn lemma_no_cycle(g: Seq<(String, DependencyNode)>, fin: Map<int, nat>)
    requires
        keys_distinct(g),
        closed_graph(g),
        forall|i: int| 0 <= i < g.len() ==> #[trigger] fin.dom().contains(i),
        forall|i: int, j: int| fin.dom().contains(i) && 0 <= j < g.len() && #[trigger] depends_on(g, g[i].0@, g[j].0@)
            ==> fin.dom().contains(j) && fin[j] < fin[i],
    ensures
        forall|c: Seq<Seq<char>>| !is_cycle(g, c),
{
    assert forall|c: Seq<Seq<char>>| !is_cycle(g, c) by {
        if is_cycle(g, c) {
            assert forall|t: int| 0 <= t < c.len() implies has_key(g, #[trigger] c[t]) by {
                let s = if t < c.len() - 1 { t } else { c.len() - 1 };
                let nxt = if t < c.len() - 1 { c[t + 1] } else { c[0] };
                assert(depends_on(g, c[s], nxt));
                assert(deps_of(g, c[s]).len() > 0);
                assert(lookup(g, c[s]) is Some);
                if t == c.len() - 1 {
                    assert(c[s] == c[t]);
                } else {
                    assert(c[s] == c[t]);
                }
            }
            lemma_descending(g, fin, c, c.len() - 1);
            let a = key_index(g, c.last());
            let b = key_index(g, c[0]);
            assert(g[a].0@ == c.last());
            assert(g[b].0@ == c[0]);
            assert(depends_on(g, g[a].0@, g[b].0@));
            assert(fin.dom().contains(a));
            assert(c.last() == c[c.len() - 1]);
        }
    }
}

/// Depth-first search from the marked component at `u`: every dependency that leads back
/// to a component on the current path closes a cycle, which is reported; unmarked
/// dependencies are marked and searched in turn.
fn search_cycles(
    nodes: &KeyedStore<DependencyNode>,
    u: usize,
    visited: &mut Vec<bool>,
    path: &mut Vec<usize>,
    cycles: &mut Vec<DependencyCycle>,
    Ghost(fin): Ghost<Map<int, nat>>,
    Ghost(clock): Ghost<nat>,
) -> (r: Ghost<(Map<int, nat>, nat)>)
    requires
        keys_distinct(nodes.entries()),
        closed_graph(nodes.entries()),
        old(cycles)@.len() == 0 ==> finish_ok(nodes.entries(), fin, clock, old(visited)@.update(u as int, false), old(path)@)
            && !fin.dom().contains(u as int),
        u < nodes.entries().len(),
        old(visited)@.len() == nodes.entries().len(),
        old(visited)@[u as int],
        path_ok(nodes.entries(), old(path)@),
        forall|j: int| 0 <= j < old(path)@.len() ==> old(path)@[j] != u,
        old(path)@.len() > 0 ==> depends_on(nodes.entries(), nodes.entries()[old(path)@.last() as int].0@,
            nodes.entries()[u as int].0@),
        forall|i: int| 0 <= i < old(cycles)@.len() ==> cycle_ok(nodes.entries(), #[trigger] old(cycles)@[i]),
    ensures
        final(path)@ == old(path)@,
        final(visited)@.len() == old(visited)@.len(),
        forall|i: int| 0 <= i < old(visited)@.len() && #[trigger] old(visited)@[i] ==> final(visited)@[i],
        forall|i: int| 0 <= i < final(cycles)@.len() ==> cycle_ok(nodes.entries(), #[trigger] final(cycles)@[i]),
        final(cycles)@.len() >= old(cycles)@.len(),
        final(cycles)@.len() == 0 ==> finish_ok(nodes.entries(), r@.0, r@.1, final(visited)@, final(path)@)
            && fin_grows(fin, r@.0) && r@.0.dom().contains(u as int)
            && (forall|i: int| #[trigger] r@.0.dom().contains(i) && !fin.dom().contains(i) ==> !on_path(old(path)@, i)),
    decreases unmarked(old(visited)@, old(visited)@.len() as int),
{
    let ghost g = nodes.entries();
    let ghost nn = g.len() as int;
    let ghost v0 = visited@;
    let ghost p0 = path@;
    path.push(u);
    proof {
        assert(path_ok(g, path@)) by {
            assert forall|j: int| 0 <= j < path@.len() - 1 implies depends_on(g, g[(#[trigger] path@[j]) as int].0@, g[path@[j + 1] as int].0@) by {
                if j < p0.len() - 1 {
                    assert(path@[j] == p0[j] && path@[j + 1] == p0[j + 1]);
                } else {
                    assert(path@[j] == p0.last() && path@[j + 1] == u);
                }
            }
            assert forall|a: int, b: int| 0 <= a < b < path@.len() implies #[trigger] path@[a] != #[trigger] path@[b] by {
                if b < p0.len() {
                    assert(path@[a] == p0[a] && path@[b] == p0[b]);
                } else {
                    assert(path@[a] == p0[a]);
                }
            }
        }
    }
    let (_, node) = nodes.entry_at(u);
    let ghost mut fin_c: Map<int, nat> = fin;
    let ghost mut clock_c: nat = clock;
    let ghost c0 = cycles@.len();
    proof {
        lemma_key_index_unique(g, u as int);
        assert(deps_of(g, g[u as int].0@) == strs_view(node.dependencies@));
        assert(names_known(g, g[u as int].1.dependencies@));
        if c0 == 0 {
            let vu = v0.update(u as int, false);
            assert forall|i: int| #[trigger] fin.dom().contains(i) implies 0 <= i < g.len() && v0[i] && fin[i] < clock by {
                assert(vu[i]);
            }
            assert forall|i: int| 0 <= i < g.len() && #[trigger] v0[i] && !on_path(path@, i) implies fin.dom().contains(i) by {
                if i == u as int {
                    assert(path@[p0.len() as int] == u);
                } else {
                    assert(vu[i]);
                    if on_path(p0, i) {
                        let k = choose|k: int| 0 <= k < p0.len() && p0[k] as int == i;
                        assert(path@[k] == p0[k]);
                    }
                }
            }
        }
    }
    let m = node.dependencies.len();
    for j in 0..m
        invariant
            g == nodes.entries(),
            nn == g.len(),
            keys_distinct(g),
            u < nn,
            m == node.dependencies@.len(),
            deps_of(g, g[u as int].0@) == strs_view(node.dependencies@),
            path@ == p0.push(u),
            path_ok(g, path@),
            visited@.len() == nn,
            v0.len() == nn,
            forall|i: int| 0 <= i < nn && #[trigger] v0[i] ==> visited@[i],
            unmarked(visited@, nn) <= unmarked(v0, nn),
            v0 == old(visited)@,
            forall|i: int| 0 <= i < cycles@.len() ==> cycle_ok(g, #[trigger] cycles@[i]),
            closed_graph(g),
            names_known(g, node.dependencies@),
            cycles@.len() >= c0,
            c0 == old(cycles)@.len(),
            cycles@.len() == 0 ==> {
                &&& finish_ok(g, fin_c, clock_c, visited@, path@)
                &&& !fin_c.dom().contains(u as int)
                &&& fin_grows(fin, fin_c)
                &&& forall|i: int| #[trigger] fin_c.dom().contains(i) && !fin.dom().contains(i) ==> !on_path(p0.push(u), i)
                &&& forall|k: int| 0 <= k < j ==> fin_c.dom().contains(key_index(g, (#[trigger] node.dependencies@[k])@))
            },
    {
        let dep = &node.dependencies[j];
        let ghost cb = cycles@.len();
        proof {
            assert(has_key(g, node.dependencies@[j as int]@));
        }
        proof {
            assert(strs_view(node.dependencies@)[j as int] == dep@);
        }
        match nodes.position(dep.as_str()) {
            Some(idx) => {
                proof {
                    assert(g[idx as int].0@ == dep@);
                    assert(depends_on(g, g[u as int].0@, g[idx as int].0@));
                }
                match find_index(path, idx) {
                    Some(p) => {
                        let c = cycle_from(nodes, path, p);
                        proof {
                            assert(path@.last() == u);
                            lemma_cycle_sound(g, path@, p as int);
                        }
                        cycles.push(c);
                    },
                    None => {
                        if !visited[idx] {
                            let ghost vb = visited@;
                            proof {
                                lemma_mark(vb, idx as int, nn);
                            }
                            visited.set(idx, true);
                            let ghost vm = visited@;
                            proof {
                                if cycles@.len() == 0 {
                                    assert(vm.update(idx as int, false) =~= vb);
                                    assert(!vb[idx as int]);
                                }
                            }
                            let res = search_cycles(nodes, idx, visited, path, cycles, Ghost(fin_c), Ghost(clock_c));
                            proof {
                                assert forall|i: int| 0 <= i < nn && #[trigger] v0[i] implies visited@[i] by {
                                    assert(vb[i]);
                                    assert(vm[i]);
                                }
                                lemma_marks_grow(vm, visited@, nn);
                                if cycles@.len() == 0 {
                                    let fold = fin_c;
                                    fin_c = res@.0;
                                    clock_c = res@.1;
                                    assert forall|i: int| #[trigger] fin.dom().contains(i) implies fin_c.dom().contains(i) && fin_c[i] == fin[i] by {
                                        assert(fold.dom().contains(i));
                                    }
                                    assert forall|k: int| 0 <= k < j + 1 implies fin_c.dom().contains(key_index(g, (#[trigger] node.dependencies@[k])@)) by {
                                        if k < j {
                                            assert(fold.dom().contains(key_index(g, node.dependencies@[k]@)));
                                        } else {
                                            assert(node.dependencies@[k]@ == dep@);
                                            lemma_key_index_unique(g, idx as int);
                                        }
                                    }
                                    assert(on_path(path@, u as int)) by {
                                        assert(path@[p0.len() as int] == u);
                                    }
                                    assert(!fin_c.dom().contains(u as int));
                                    assert forall|i: int| #[trigger] fin_c.dom().contains(i) && !fin.dom().contains(i)
                                        implies !on_path(p0.push(u), i) by {
                                        if !fold.dom().contains(i) {
                                            assert(!on_path(path@, i));
                                        }
                                    }
                                }
                            }
                        } else {
                            proof {
                                if cycles@.len() == 0 {
                                    assert(!on_path(path@, idx as int));
                                    assert forall|k: int| 0 <= k < j + 1 implies fin_c.dom().contains(key_index(g, (#[trigger] node.dependencies@[k])@)) by {
                                        if k == j {
                                            assert(node.dependencies@[k]@ == dep@);
                                            lemma_key_index_unique(g, idx as int);
                                        }
                                    }
                                }
                            }
                        }
                    },
                }
            },
            None => {
                proof {
                    assert(false);
                }
            },
        }
    }
    path.pop();
    proof {
        assert(path@ =~= p0);
    }
    let ghost fin_out = fin_c.insert(u as int, clock_c);
    let ghost clock_out: nat = clock_c + 1;
    proof {
        if cycles@.len() == 0 {
            let pp = p0.push(u);
            assert forall|i: int| #[trigger] fin_out.dom().contains(i) implies 0 <= i < g.len() && visited@[i] && fin_out[i] < clock_out by {
                if i == u as int {
                    assert(v0[u as int]);
                } else {
                    assert(fin_c.dom().contains(i));
                }
            }
            assert forall|i: int| 0 <= i < g.len() && #[trigger] visited@[i] && !on_path(p0, i) implies fin_out.dom().contains(i) by {
                if i != u as int {
                    if on_path(pp, i) {
                        let k = choose|k: int| 0 <= k < pp.len() && pp[k] as int == i;
                        if k < p0.len() {
                            assert(pp[k] == p0[k]);
                        }
                    }
                    assert(fin_c.dom().contains(i));
                }
            }
            assert forall|i: int, jj: int| fin_out.dom().contains(i) && 0 <= jj < g.len() && #[trigger] depends_on(g, g[i].0@, g[jj].0@)
                implies fin_out.dom().contains(jj) && fin_out[jj] < fin_out[i] by {
                if i == u as int {
                    assert(deps_of(g, g[u as int].0@).contains(g[jj].0@));
                    let k = choose|k: int| 0 <= k < deps_of(g, g[u as int].0@).len() && deps_of(g, g[u as int].0@)[k] == g[jj].0@;
                    assert(strs_view(node.dependencies@)[k] == node.dependencies@[k]@);
                    lemma_key_index_unique(g, jj);
                    assert(fin_c.dom().contains(key_index(g, node.dependencies@[k]@)));
                    assert(fin_c.dom().contains(jj));
                    assert(jj != u as int);
                } else {
                    assert(fin_c.dom().contains(i));
                    assert(fin_c.dom().contains(jj));
                    assert(jj != u as int);
                }
            }
            assert(path@ == p0);
            assert forall|i: int| #[trigger] fin_out.dom().contains(i) && !fin.dom().contains(i) implies !on_path(p0, i) by {
                if i == u as int {
                    if on_path(p0, i) {
                        let k = choose|k: int| 0 <= k < p0.len() && p0[k] as int == i;
                    }
                } else {
                    assert(fin_c.dom().contains(i));
                    if on_path(p0, i) {
                        let k = choose|k: int| 0 <= k < p0.len() && p0[k] as int == i;
                        assert(pp[k] == p0[k]);
                        assert(on_path(pp, i));
                    }
                }
            }
        }
    }
    Ghost((fin_out, clock_out))
}

/// `w` is a walk along dependents: each component is a dependent of the one before it.
pub open spec fn dependent_walk(g: Seq<(String, DependencyNode)>, w: Seq<Seq<char>>) -> bool {
    w.len() >= 2 && forall|i: int| 0 <= i < w.len() - 1 ==> dependents_of(g, #[trigger] w[i]).contains(w[i + 1])
}

/// A change to `a` reaches `b`: `b` depends on `a`, or on a component a change to `a`
/// reaches.
pub open spec fn reaches(g: Seq<(String, DependencyNode)>, a: Seq<char>, b: Seq<char>) -> bool {
    exists|w: Seq<Seq<char>>| #[trigger] dependent_walk(g, w) && w[0] == a && w.last() == b
}

/// Every name of `ns` is among `all`.
pub open spec fn all_among(ns: Seq<Seq<char>>, all: Seq<Seq<char>>) -> bool {
    forall|j: int| 0 <= j < ns.len() ==> all.contains(#[trigger] ns[j])
}

/// A walk along dependents from `a` stays within `set` when `set` holds the dependents of
/// `a` and of each of its members.
proof fn lemma_walk_within(g: Seq<(String, DependencyNode)>, set: Seq<Seq<char>>, a: Seq<char>, w: Seq<Seq<char>>)
    requires
        all_among(dependents_of(g, a), set),
        forall|j: int| 0 <= j < set.len() ==> all_among(dependents_of(g, #[trigger] set[j]), set),
        dependent_walk(g, w),
        w[0] == a,
    ensures
        set.contains(w.last()),
    decreases w.len(),
{
    if w.len() == 2 {
        assert(dependents_of(g, w[0]).contains(w[1]));
        let k = choose|k: int| 0 <= k < dependents_of(g, a).len() && dependents_of(g, a)[k] == w[1];
        assert(set.contains(dependents_of(g, a)[k]));
    } else {
        let v = w.drop_last();
        assert forall|i: int| 0 <= i < v.len() - 1 implies dependents_of(g, #[trigger] v[i]).contains(v[i + 1]) by {
            assert(v[i] == w[i] && v[i + 1] == w[i + 1]);
        }
        lemma_walk_within(g, set, a, v);
        let x = v.last();
        let j = choose|j: int| 0 <= j < set.len() && set[j] == x;
        assert(all_among(dependents_of(g, set[j]), set));
        assert(dependents_of(g, w[w.len() - 2]).contains(w[w.len() - 1]));
        let k = choose|k: int| 0 <= k < dependents_of(g, x).len() && dependents_of(g, x)[k] == w.last();
        assert(set.contains(dependents_of(g, x)[k]));
    }
}

/// Positions of `order` hold `i`.
pub open spec fn contains_at_spec(order: Seq<usize>, i: int) -> bool {
    exists|j: int| 0 <= j < order.len() && order[j] as int == i
}

/// A change reaching `x` (or made to it) reaches each dependent of `x`.
proof fn lemma_reach_extend(g: Seq<(String, DependencyNode)>, a: Seq<char>, x: Seq<char>, d: Seq<char>)
    requires
        x == a || reaches(g, a, x),
        dependents_of(g, x).contains(d),
    ensures
        reaches(g, a, d),
{
    if x == a {
        let w = seq![a, d];
        assert(dependent_walk(g, w));
    } else {
        let w0 = choose|w: Seq<Seq<char>>| #[trigger] dependent_walk(g, w) && w[0] == a && w.last() == x;
        let w = w0.push(d);
        assert forall|i: int| 0 <= i < w.len() - 1 implies dependents_of(g, #[trigger] w[i]).contains(w[i + 1]) by {
            if i < w0.len() - 1 {
                assert(w[i] == w0[i] && w[i + 1] == w0[i + 1]);
            } else {
                assert(w[i] == x);
            }
        }
        assert(dependent_walk(g, w));
    }
}

/// Adds to `order` (and marks) each dependent of the component `x` not marked yet.
#[verifier::rlimit(60)]
#[verifier::spinoff_prover]
fn expand_dependents(
    nodes: &KeyedStore<DependencyNode>,
    x: &DependencyNode,
    xname: Ghost<Seq<char>>,
    changed: Ghost<Seq<char>>,
    marked: &mut Vec<bool>,
    order: &mut Vec<usize>,
)
    requires
        keys_distinct(nodes.entries()),
        closed_graph(nodes.entries()),
        lookup(nodes.entries(), xname@) == Some(*x),
        xname@ == changed@ || reaches(nodes.entries(), changed@, xname@),
        old(marked)@.len() == nodes.entries().len(),
        unmarked(old(marked)@, old(marked)@.len() as int) + old(order)@.len() == nodes.entries().len(),
        forall|j: int| 0 <= j < old(order)@.len() ==> (#[trigger] old(order)@[j]) < nodes.entries().len()
            && old(marked)@[old(order)@[j] as int],
        forall|i: int| 0 <= i < old(marked)@.len() && #[trigger] old(marked)@[i]
            ==> contains_at_spec(old(order)@, i),
        forall|a: int, b: int| 0 <= a < b < old(order)@.len() ==> #[trigger] old(order)@[a] != #[trigger] old(order)@[b],
        forall|j: int| 0 <= j < old(order)@.len()
            ==> reaches(nodes.entries(), changed@, nodes.entries()[(#[trigger] old(order)@[j]) as int].0@),
    ensures
        final(marked)@.len() == nodes.entries().len(),
        unmarked(final(marked)@, final(marked)@.len() as int) + final(order)@.len() == nodes.entries().len(),
        final(order)@.len() >= old(order)@.len(),
        final(order)@.take(old(order)@.len() as int) == old(order)@,
        forall|j: int| 0 <= j < final(order)@.len() ==> (#[trigger] final(order)@[j]) < nodes.entries().len()
            && final(marked)@[final(order)@[j] as int],
        forall|i: int| 0 <= i < final(marked)@.len() && #[trigger] final(marked)@[i]
            ==> contains_at_spec(final(order)@, i),
        forall|a: int, b: int| 0 <= a < b < final(order)@.len() ==> #[trigger] final(order)@[a] != #[trigger] final(order)@[b],
        forall|j: int| 0 <= j < final(order)@.len()
            ==> reaches(nodes.entries(), changed@, nodes.entries()[(#[trigger] final(order)@[j]) as int].0@),
        all_among(dependents_of(nodes.entries(), xname@), path_names(nodes.entries(), final(order)@)),
{
    let ghost g = nodes.entries();
    let ghost n = g.len() as int;
    let ghost o0 = order@;
    let ghost ki = key_index(g, xname@);
    proof {
        assert(has_key(g, xname@));
        assert(g[ki].1 == *x);
        assert(names_known(g, g[ki].1.dependents@));
    }
    let m = x.dependents.len();
    for jj in 0..m
        invariant
            g == nodes.entries(),
            n == g.len(),
            keys_distinct(g),
            m == x.dependents@.len(),
            names_known(g, x.dependents@),
            dependents_of(g, xname@) == strs_view(x.dependents@),
            xname@ == changed@ || reaches(g, changed@, xname@),
            marked@.len() == n,
            unmarked(marked@, n) + order@.len() == n,
            order@.len() >= o0.len(),
            order@.take(o0.len() as int) == o0,
            forall|j: int| 0 <= j < order@.len() ==> (#[trigger] order@[j]) < n && marked@[order@[j] as int],
            forall|i: int| 0 <= i < n && #[trigger] marked@[i] ==> contains_at_spec(order@, i),
            forall|a: int, b: int| 0 <= a < b < order@.len() ==> #[trigger] order@[a] != #[trigger] order@[b],
            forall|j: int| 0 <= j < order@.len() ==> reaches(g, changed@, g[(#[trigger] order@[j]) as int].0@),
            forall|k: int| 0 <= k < jj ==> path_names(g, order@).contains(#[trigger] strs_view(x.dependents@)[k]),
    {
        let d = &x.dependents[jj];
        proof {
            assert(strs_view(x.dependents@)[jj as int] == d@);
            assert(has_key(g, x.dependents@[jj as int]@));
        }
        match nodes.position(d.as_str()) {
            Some(idx) => {
                let ghost dn = d@;
                proof {
                    assert(g[idx as int].0@ == dn);
                    assert(dependents_of(g, xname@).contains(dn));
                    lemma_reach_extend(g, changed@, xname@, dn);
                }
                let ghost oc = order@;
                if !marked[idx] {
                    let ghost mb = marked@;
                    let ghost ob = order@;
                    proof {
                        lemma_mark(mb, idx as int, n);
                        assert forall|j: int| 0 <= j < ob.len() implies ob[j] != idx by {
                            assert(mb[ob[j] as int]);
                        }
                    }
                    marked.set(idx, true);
                    order.push(idx);
                    proof {
                        assert(order@.take(o0.len() as int) =~= ob.take(o0.len() as int));
                        assert forall|i: int| 0 <= i < n && #[trigger] marked@[i] implies contains_at_spec(order@, i) by {
                            if i == idx {
                                assert(order@[order@.len() - 1] as int == i);
                            } else {
                                assert(mb[i]);
                                let j = choose|j: int| 0 <= j < ob.len() && ob[j] as int == i;
                                assert(order@[j] == ob[j]);
                            }
                        }
                        assert forall|j: int| 0 <= j < order@.len() implies (#[trigger] order@[j]) < n && marked@[order@[j] as int] by {
                            if j < ob.len() {
                                assert(order@[j] == ob[j]);
                            }
                        }
                        assert forall|j: int| 0 <= j < order@.len() implies reaches(g, changed@, g[(#[trigger] order@[j]) as int].0@) by {
                            if j < ob.len() {
                                assert(order@[j] == ob[j]);
                            }
                        }
                    }
                }
                proof {
                    assert(marked@[idx as int]);
                    let j = choose|j: int| 0 <= j < order@.len() && order@[j] == idx;
                    assert(path_names(g, order@)[j] == dn);
                    assert forall|k: int| 0 <= k < jj + 1 implies path_names(g, order@).contains(#[trigger] strs_view(x.dependents@)[k]) by {
                        if k == jj {
                            assert(strs_view(x.dependents@)[k] == dn);
                        } else {
                            assert(path_names(g, oc).contains(strs_view(x.dependents@)[k]));
                            let t = choose|t: int| 0 <= t < path_names(g, oc).len() && path_names(g, oc)[t] == strs_view(x.dependents@)[k];
                            assert(order@[t] == oc[t]);
                            assert(path_names(g, order@)[t] == path_names(g, oc)[t]);
                        }
                    }
                }
            },
            None => {
                proof {
                    assert(false);
                }
            },
        }
    }
    proof {
        assert forall|j: int| 0 <= j < dependents_of(g, xname@).len()
            implies path_names(g, order@).contains(#[trigger] dependents_of(g, xname@)[j]) by {
            assert(dependents_of(g, xname@)[j] == strs_view(x.dependents@)[j]);
        }
    }
}

proof fn lemma_among_grow(g: Seq<(String, DependencyNode)>, ns: Seq<Seq<char>>, o: Seq<usize>, o2: Seq<usize>)
    requires
        all_among(ns, path_names(g, o)),
        o2.len() >= o.len(),
        o2.take(o.len() as int) == o,
    ensures
        all_among(ns, path_names(g, o2)),
{
    assert forall|j: int| 0 <= j < ns.len() implies path_names(g, o2).contains(#[trigger] ns[j]) by {
        assert(path_names(g, o).contains(ns[j]));
        let t = choose|t: int| 0 <= t < path_names(g, o).len() && path_names(g, o)[t] == ns[j];
        assert(o2[t] == o2.take(o.len() as int)[t]);
        assert(path_names(g, o2)[t] == ns[j]);
    }
}

/// The components a change to `changed` reaches, by position, in breadth-first order.
fn affected_components(nodes: &KeyedStore<DependencyNode>, changed: &str) -> (order: Vec<usize>)
    requires
        closed_graph(nodes.entries()),
    ensures
        forall|j: int| 0 <= j < order@.len() ==> (#[trigger] order@[j]) < nodes.entries().len(),
        forall|a: int, b: int| 0 <= a < b < order@.len() ==> #[trigger] order@[a] != #[trigger] order@[b],
        forall|x: Seq<char>| #[trigger] path_names(nodes.entries(), order@).contains(x)
            == reaches(nodes.entries(), changed@, x),
{
    let ghost g = nodes.entries();
    let n = nodes.len();
    let mut marked: Vec<bool> = Vec::new();
    for i in 0..n
        invariant
            marked@.len() == i,
            forall|k: int| 0 <= k < i ==> !marked@[k],
            unmarked(marked@, i as int) == i,
    {
        let ghost mb = marked@;
        marked.push(false);
        proof {
            assert forall|k: int| 0 <= k <= i implies unmarked(marked@, k) == unmarked(mb, k) by {
                lemma_unmarked_prefix(mb, marked@, k);
            }
        }
    }
    let mut order: Vec<usize> = Vec::new();
    match nodes.get(changed) {
        Some(x) => {
            expand_dependents(nodes, x, Ghost(changed@), Ghost(changed@), &mut marked, &mut order);
            let mut h: usize = 0;
            while h < order.len()
                invariant
                    g == nodes.entries(),
                    n == g.len(),
                    keys_distinct(g),
                    closed_graph(g),
                    h <= order@.len(),
                    marked@.len() == n,
                    unmarked(marked@, n as int) + order@.len() == n,
                    forall|j: int| 0 <= j < order@.len() ==> (#[trigger] order@[j]) < n && marked@[order@[j] as int],
                    forall|i: int| 0 <= i < n && #[trigger] marked@[i] ==> contains_at_spec(order@, i),
                    forall|a: int, b: int| 0 <= a < b < order@.len() ==> #[trigger] order@[a] != #[trigger] order@[b],
                    forall|j: int| 0 <= j < order@.len() ==> reaches(g, changed@, g[(#[trigger] order@[j]) as int].0@),
                    all_among(dependents_of(g, changed@), path_names(g, order@)),
                    forall|j: int| 0 <= j < h ==> all_among(dependents_of(g, #[trigger] path_names(g, order@)[j]), path_names(g, order@)),
                decreases n - h,
            {
                let ghost ob = order@;
                let (k, y) = nodes.entry_at(order[h]);
                proof {
                    lemma_key_index_unique(g, order@[h as int] as int);
                    assert(path_names(g, ob)[h as int] == k@);
                }
                expand_dependents(nodes, y, Ghost(k@), Ghost(changed@), &mut marked, &mut order);
                proof {
                    lemma_among_grow(g, dependents_of(g, changed@), ob, order@);
                    assert forall|j: int| 0 <= j < h + 1 implies all_among(dependents_of(g, #[trigger] path_names(g, order@)[j]), path_names(g, order@)) by {
                        assert(order@[j] == ob[j]);
                        assert(path_names(g, order@)[j] == path_names(g, ob)[j]);
                        if j < h {
                            lemma_among_grow(g, dependents_of(g, path_names(g, ob)[j]), ob, order@);
                        }
                    }
                    lemma_unmarked_bound(marked@, n as int);
                }
                h = h + 1;
            }
            proof {
                let set = path_names(g, order@);
                assert forall|j: int| 0 <= j < set.len() implies all_among(dependents_of(g, #[trigger] set[j]), set) by {}
                assert forall|x: Seq<char>| #[trigger] set.contains(x) == reaches(g, changed@, x) by {
                    if set.contains(x) {
                        let t = choose|t: int| 0 <= t < set.len() && set[t] == x;
                        assert(reaches(g, changed@, g[order@[t] as int].0@));
                    }
                    if reaches(g, changed@, x) {
                        let w = choose|w: Seq<Seq<char>>| #[trigger] dependent_walk(g, w) && w[0] == changed@ && w.last() == x;
                        lemma_walk_within(g, set, changed@, w);
                    }
                }
            }
        },
        None => {
            proof {
                let set = path_names(g, order@);
                assert(set.len() == 0);
                assert(dependents_of(g, changed@).len() == 0);
                assert forall|x: Seq<char>| #[trigger] set.contains(x) == reaches(g, changed@, x) by {
                    if reaches(g, changed@, x) {
                        let w = choose|w: Seq<Seq<char>>| #[trigger] dependent_walk(g, w) && w[0] == changed@ && w.last() == x;
                        lemma_walk_within(g, set, changed@, w);
                    }
                }
            }
        },
    }
    order
}

proof fn lemma_unmarked_prefix(a: Seq<bool>, b: Seq<bool>, k: int)
    requires
        0 <= k <= a.len(),
        k <= b.len(),
        forall|i: int| 0 <= i < k ==> a[i] == b[i],
    ensures
        unmarked(a, k) == unmarked(b, k),
    decreases k,
{
    if k > 0 {
        lemma_unmarked_prefix(a, b, k - 1);
    }
}

proof fn lemma_unmarked_bound(a: Seq<bool>, k: int)
    requires
        0 <= k,
    ensures
        unmarked(a, k) <= k,
    decreases k,
{
    if k > 0 {
        lemma_unmarked_bound(a, k - 1);
    }
}

/// `w` is a walk along dependencies: each component depends on the next.
pub open spec fn dependency_walk(g: Seq<(String, DependencyNode)>, w: Seq<Seq<char>>) -> bool {
    w.len() >= 1 && forall|i: int| 0 <= i < w.len() - 1 ==> depends_on(g, #[trigger] w[i], w[i + 1])
}

/// No walk along dependencies from `a` comes back to a component it passed: no dependency
/// cycle can be reached from `a`.
pub open spec fn simple_from(g: Seq<(String, DependencyNode)>, a: Seq<char>) -> bool {
    forall|w: Seq<Seq<char>>| #[trigger] dependency_walk(g, w) && w[0] == a
        ==> forall|i: int, j: int| 0 <= i < j < w.len() ==> w[i] != w[j]
}

/// `d` is reached from `a` by one or more steps along dependencies.
pub open spec fn below(g: Seq<(String, DependencyNode)>, a: Seq<char>, d: Seq<char>) -> bool {
    exists|w: Seq<Seq<char>>| #[trigger] dependency_walk(g, w) && w.len() >= 2 && w[0] == a && w.last() == d
}

/// A change to some component below `a` reaches `x`, another component than it.
pub open spec fn reached_below(g: Seq<(String, DependencyNode)>, a: Seq<char>, x: Seq<char>) -> bool {
    exists|d: Seq<char>| #[trigger] below(g, a, d) && reaches(g, d, x) && x != d
}

/// A change to `d` affects `x`, directly or through a component below `d`.
pub open spec fn affected_via(g: Seq<(String, DependencyNode)>, d: Seq<char>, x: Seq<char>) -> bool {
    (reaches(g, d, x) && x != d) || reached_below(g, d, x)
}

/// A component below `a` is one of the dependencies of `a` or lies below one of them.
proof fn lemma_below_first_step(g: Seq<(String, DependencyNode)>, a: Seq<char>, d: Seq<char>)
    requires
        below(g, a, d),
    ensures
        exists|e: Seq<char>| #[trigger] depends_on(g, a, e) && (e == d || below(g, e, d)),
{
    let w = choose|w: Seq<Seq<char>>| #[trigger] dependency_walk(g, w) && w.len() >= 2 && w[0] == a && w.last() == d;
    assert(depends_on(g, w[0], w[1]));
    if w.len() > 2 {
        let w2 = w.drop_first();
        assert forall|i: int| 0 <= i < w2.len() - 1 implies depends_on(g, #[trigger] w2[i], w2[i + 1]) by {
            assert(w2[i] == w[i + 1] && w2[i + 1] == w[i + 2]);
        }
        assert(dependency_walk(g, w2));
        assert(w2.last() == d);
        assert(w2[0] == w[1]);
        assert(below(g, w[1], d));
    } else {
        assert(w[1] == w.last());
    }
}

proof fn lemma_below_prepend(g: Seq<(String, DependencyNode)>, a: Seq<char>, d: Seq<char>, e: Seq<char>)
    requires
        depends_on(g, a, d),
        d == e || below(g, d, e),
    ensures
        below(g, a, e),
{
    if d == e {
        let w = seq![a, d];
        assert(dependency_walk(g, w));
    } else {
        let w0 = choose|w: Seq<Seq<char>>| #[trigger] dependency_walk(g, w) && w.len() >= 2 && w[0] == d && w.last() == e;
        let w = seq![a] + w0;
        assert forall|i: int| 0 <= i < w.len() - 1 implies depends_on(g, #[trigger] w[i], w[i + 1]) by {
            if i > 0 {
                assert(w[i] == w0[i - 1] && w[i + 1] == w0[i]);
            } else {
                assert(w[1] == w0[0]);
            }
        }
        assert(dependency_walk(g, w));
        assert(w.last() == w0.last());
    }
}

/// Distinct registered names are no more than the registered components.
proof fn lemma_distinct_keys_bound(g: Seq<(String, DependencyNode)>, c: Seq<Seq<char>>)
    requires
        keys_distinct(g),
        forall|j: int| 0 <= j < c.len() ==> has_key(g, #[trigger] c[j]),
        forall|i: int, j: int| 0 <= i < j < c.len() ==> c[i] != c[j],
    ensures
        c.len() <= g.len(),
{
    let idx = c.map_values(|x: Seq<char>| key_index(g, x));
    assert forall|i: int, j: int| 0 <= i < idx.len() && 0 <= j < idx.len() && i != j implies idx[i] != idx[j] by {
        assert(has_key(g, c[i]) && has_key(g, c[j]));
        assert(g[idx[i]].0@ == c[i]);
        assert(g[idx[j]].0@ == c[j]);
        if i < j { assert(c[i] != c[j]); } else { assert(c[j] != c[i]); }
    }
    assert(idx.no_duplicates());
    idx.unique_seq_to_set();
    vstd::set_lib::lemma_int_range(0, g.len() as int);
    assert(idx.to_set().subset_of(vstd::set_lib::set_int_range(0, g.len() as int))) by {
        assert forall|v: int| idx.to_set().contains(v) implies vstd::set_lib::set_int_range(0, g.len() as int).contains(v) by {
            let k = choose|k: int| 0 <= k < idx.len() && idx[k] == v;
            assert(has_key(g, c[k]));
        }
    }
    vstd::set_lib::lemma_len_subset(idx.to_set(), vstd::set_lib::set_int_range(0, g.len() as int));
}

/// Positions of `order` name distinct components.
proof fn lemma_names_distinct(g: Seq<(String, DependencyNode)>, order: Seq<usize>, a: int, b: int)
    requires
        keys_distinct(g),
        forall|j: int| 0 <= j < order.len() ==> (#[trigger] order[j]) < g.len(),
        forall|x: int, y: int| 0 <= x < y < order.len() ==> #[trigger] order[x] != #[trigger] order[y],
        0 <= a < order.len(),
        0 <= b < order.len(),
        a != b,
    ensures
        path_names(g, order)[a] != path_names(g, order)[b],
{
    let x = order[a] as int;
    let y = order[b] as int;
    if a < b { assert(x != y); } else { assert(order[b] != order[a]); }
    if x < y { assert(g[x].0@ != g[y].0@); } else { assert(g[y].0@ != g[x].0@); }
}

/// Adding a string at the end keeps every string that was there and adds the new one.
proof fn lemma_names_grow(ss: Seq<String>, s2: Seq<String>)
    requires
        s2.len() == ss.len() + 1,
        forall|i: int| 0 <= i < ss.len() ==> s2[i] == ss[i],
    ensures
        forall|y: Seq<char>| strs_view(ss).contains(y) ==> #[trigger] strs_view(s2).contains(y),
        strs_view(s2).contains(s2.last()@),
{
    assert forall|y: Seq<char>| strs_view(ss).contains(y) implies #[trigger] strs_view(s2).contains(y) by {
        let t = choose|t: int| 0 <= t < strs_view(ss).len() && strs_view(ss)[t] == y;
        assert(strs_view(s2)[t] == y);
    }
    assert(strs_view(s2)[ss.len() as int] == s2.last()@);
}

/// What a change to `changed` affects; `chain` is the walk along dependencies by which
/// `changed` was reached.
fn impact_of(nodes: &KeyedStore<DependencyNode>, changed: &str, chain: Ghost<Seq<Seq<char>>>) -> (r: ImpactAnalysis)
    requires
        closed_graph(nodes.entries()),
        keys_distinct(nodes.entries()),
        dependency_walk(nodes.entries(), chain@),
        chain@.last() == changed@,
        simple_from(nodes.entries(), chain@[0]),
        forall|j: int| 1 <= j < chain@.len() ==> has_key(nodes.entries(), #[trigger] chain@[j]),
    ensures
        r.changed_component@ == changed@,
        forall|x: Seq<char>| #[trigger] strs_view(r.directly_affected@).contains(x)
            == (reaches(nodes.entries(), changed@, x) && x != changed@),
        forall|a: int, b: int| 0 <= a < b < r.directly_affected@.len()
            ==> (#[trigger] r.directly_affected@[a])@ != (#[trigger] r.directly_affected@[b])@,
        r.total_affected == r.directly_affected@.len() + if reaches(nodes.entries(), changed@, changed@) { 1int } else { 0int },
        forall|j: int| 0 <= j < r.transitive_dependencies@.len()
            ==> reached_below(nodes.entries(), changed@, (#[trigger] r.transitive_dependencies@[j])@),
        forall|x: Seq<char>| reached_below(nodes.entries(), changed@, x)
            ==> #[trigger] strs_view(r.transitive_dependencies@).contains(x),
    decreases nodes.entries().len() + 1 - chain@.len(),
{
    let ghost g = nodes.entries();
    proof {
        // the chain never repeats a component, so it is no longer than the graph plus its root
        let c = chain@;
        assert(forall|i: int, j: int| 0 <= i < j < c.len() ==> c[i] != c[j]);
        let rest = c.drop_first();
        assert forall|j: int| 0 <= j < rest.len() implies has_key(g, #[trigger] rest[j]) by {
            assert(rest[j] == c[j + 1]);
        }
        assert forall|i: int, j: int| 0 <= i < j < rest.len() implies rest[i] != rest[j] by {
            assert(rest[i] == c[i + 1] && rest[j] == c[j + 1]);
        }
        lemma_distinct_keys_bound(g, rest);
    }
    let order = affected_components(nodes, changed);
    let ghost names = path_names(g, order@);
    let mut direct: Vec<String> = Vec::new();
    let mut skipped: usize = 0;
    let no = order.len();
    for i in 0..no
        invariant
            g == nodes.entries(),
            keys_distinct(g),
            no == order@.len(),
            names == path_names(g, order@),
            forall|j: int| 0 <= j < order@.len() ==> (#[trigger] order@[j]) < g.len(),
            forall|a: int, b: int| 0 <= a < b < order@.len() ==> #[trigger] order@[a] != #[trigger] order@[b],
            forall|x: Seq<char>| #[trigger] strs_view(direct@).contains(x)
                == (names.take(i as int).contains(x) && x != changed@),
            forall|a: int, b: int| 0 <= a < b < direct@.len() ==> (#[trigger] direct@[a])@ != (#[trigger] direct@[b])@,
            skipped <= 1,
            skipped == 1 <==> names.take(i as int).contains(changed@),
            direct@.len() + skipped == i,
    {
        let (k, _) = nodes.entry_at(order[i]);
        let ghost before = direct@;
        proof {
            assert(names[i as int] == k@);
            assert(names.take(i + 1) =~= names.take(i as int).push(k@));
            assert forall|t: int| 0 <= t < i implies names.take(i as int)[t] != k@ by {
                lemma_names_distinct(g, order@, t, i as int);
            }
            assert(!names.take(i as int).contains(k@));
            assert forall|x: Seq<char>| #[trigger] names.take(i + 1).contains(x)
                == (names.take(i as int).contains(x) || x == k@) by {
                if names.take(i as int).contains(x) {
                    let t = choose|t: int| 0 <= t < names.take(i as int).len() && #[trigger] names.take(i as int)[t] == x;
                    assert(names.take(i + 1)[t] == x);
                }
                if x == k@ {
                    assert(names.take(i + 1)[i as int] == x);
                }
                if names.take(i + 1).contains(x) {
                    let t = choose|t: int| 0 <= t < names.take(i + 1).len() && #[trigger] names.take(i + 1)[t] == x;
                    if t < i {
                        assert(names.take(i as int)[t] == x);
                    }
                }
            }
        }
        if str_eq(k.as_str(), changed) {
            skipped = skipped + 1;
        } else {
            direct.push(k.clone());
            proof {
                assert(strs_view(direct@) =~= strs_view(before).push(k@));
                assert forall|x: Seq<char>| #[trigger] strs_view(direct@).contains(x)
                    == (names.take(i + 1).contains(x) && x != changed@) by {
                    if x == k@ {
                        assert(strs_view(direct@)[strs_view(direct@).len() - 1] == x);
                    }
                    if strs_view(direct@).contains(x) && x != k@ {
                        let t = choose|t: int| 0 <= t < strs_view(direct@).len() && strs_view(direct@)[t] == x;
                        assert(strs_view(before)[t] == x);
                    }
                    if strs_view(before).contains(x) {
                        let t = choose|t: int| 0 <= t < strs_view(before).len() && strs_view(before)[t] == x;
                        assert(strs_view(direct@)[t] == x);
                    }
                }
                assert forall|a: int, b: int| 0 <= a < b < direct@.len() implies (#[trigger] direct@[a])@ != (#[trigger] direct@[b])@ by {
                    if b == direct@.len() - 1 {
                        assert(strs_view(before).contains(direct@[a]@)) by {
                            assert(strs_view(before)[a] == direct@[a]@);
                        }
                    }
                }
            }
        }
    }
    proof {
        assert(names.take(no as int) =~= names);
    }
    let total = order.len();
    let mut transitive: Vec<String> = Vec::new();
    match nodes.get(changed) {
        Some(node) => {
            let m = node.dependencies.len();
            proof {
                assert(deps_of(g, changed@) == strs_view(node.dependencies@));
                assert(has_key(g, changed@));
                let ki = key_index(g, changed@);
                assert(names_known(g, g[ki].1.dependencies@));
            }
            for j in 0..m
                invariant
                    g == nodes.entries(),
                    closed_graph(g),
                    keys_distinct(g),
                    m == node.dependencies@.len(),
                    deps_of(g, changed@) == strs_view(node.dependencies@),
                    names_known(g, node.dependencies@),
                    dependency_walk(g, chain@),
                    chain@.last() == changed@,
                    simple_from(g, chain@[0]),
                    forall|t: int| 1 <= t < chain@.len() ==> has_key(g, #[trigger] chain@[t]),
                    forall|t: int| 0 <= t < transitive@.len() ==> reached_below(g, changed@, (#[trigger] transitive@[t])@),
                    forall|k: int, x: Seq<char>| 0 <= k < j && #[trigger] affected_via(g, node.dependencies@[k]@, x)
                        ==> strs_view(transitive@).contains(x),
            {
                let dep = &node.dependencies[j];
                let ghost c2 = chain@.push(dep@);
                proof {
                    assert(strs_view(node.dependencies@)[j as int] == dep@);
                    assert(depends_on(g, changed@, dep@));
                    assert forall|i: int| 0 <= i < c2.len() - 1 implies depends_on(g, #[trigger] c2[i], c2[i + 1]) by {
                        if i < chain@.len() - 1 {
                            assert(c2[i] == chain@[i] && c2[i + 1] == chain@[i + 1]);
                        } else {
                            assert(c2[i] == changed@);
                        }
                    }
                    assert(dependency_walk(g, c2));
                    assert(has_key(g, node.dependencies@[j as int]@));
                    assert forall|t: int| 1 <= t < c2.len() implies has_key(g, #[trigger] c2[t]) by {
                        if t < chain@.len() { assert(c2[t] == chain@[t]); }
                    }
                    let rest = c2.drop_first();
                    assert(forall|a: int, b: int| 0 <= a < b < c2.len() ==> c2[a] != c2[b]);
                    assert forall|t: int| 0 <= t < rest.len() implies has_key(g, #[trigger] rest[t]) by {
                        assert(rest[t] == c2[t + 1]);
                    }
                    assert forall|a: int, b: int| 0 <= a < b < rest.len() implies rest[a] != rest[b] by {
                        assert(rest[a] == c2[a + 1] && rest[b] == c2[b + 1]);
                    }
                    lemma_distinct_keys_bound(g, rest);
                }
                let sub = impact_of(nodes, dep.as_str(), Ghost(c2));
                let nd = sub.directly_affected.len();
                for t in 0..nd
                    invariant
                        nd == sub.directly_affected@.len(),
                        depends_on(g, changed@, dep@),
                        forall|x: Seq<char>| #[trigger] strs_view(sub.directly_affected@).contains(x)
                            == (reaches(g, dep@, x) && x != dep@),
                        forall|u: int| 0 <= u < transitive@.len() ==> reached_below(g, changed@, (#[trigger] transitive@[u])@),
                        forall|k: int, x: Seq<char>| 0 <= k < j && #[trigger] affected_via(g, node.dependencies@[k]@, x)
                            ==> strs_view(transitive@).contains(x),
                        forall|u: int| 0 <= u < t ==> strs_view(transitive@).contains((#[trigger] sub.directly_affected@[u])@),
                {
                    let x = sub.directly_affected[t].clone();
                    proof {
                        assert(strs_view(sub.directly_affected@)[t as int] == x@);
                        assert(strs_view(sub.directly_affected@).contains(x@));
                        assert(reaches(g, dep@, x@));
                        lemma_below_prepend(g, changed@, dep@, dep@);
                        assert(below(g, changed@, dep@));
                    }
                    let ghost tb = transitive@;
                    transitive.push(x);
                    proof {
                        assert forall|u: int| 0 <= u < transitive@.len() implies reached_below(g, changed@, (#[trigger] transitive@[u])@) by {
                            if u < tb.len() { assert(transitive@[u] == tb[u]); }
                        }
                        lemma_names_grow(tb, transitive@);
                        assert(transitive@.last() == sub.directly_affected@[t as int]);
                    }
                }
                let nt = sub.transitive_dependencies.len();
                for t in 0..nt
                    invariant
                        nt == sub.transitive_dependencies@.len(),
                        depends_on(g, changed@, dep@),
                        forall|u: int| 0 <= u < sub.transitive_dependencies@.len()
                            ==> reached_below(g, dep@, (#[trigger] sub.transitive_dependencies@[u])@),
                        forall|u: int| 0 <= u < transitive@.len() ==> reached_below(g, changed@, (#[trigger] transitive@[u])@),
                        forall|k: int, x: Seq<char>| 0 <= k < j && #[trigger] affected_via(g, node.dependencies@[k]@, x)
                            ==> strs_view(transitive@).contains(x),
                        forall|u: int| 0 <= u < nd ==> strs_view(transitive@).contains((#[trigger] sub.directly_affected@[u])@),
                        nd == sub.directly_affected@.len(),
                        forall|u: int| 0 <= u < t ==> strs_view(transitive@).contains((#[trigger] sub.transitive_dependencies@[u])@),
                {
                    let x = sub.transitive_dependencies[t].clone();
                    proof {
                        assert(reached_below(g, dep@, sub.transitive_dependencies@[t as int]@));
                        let d2 = choose|d2: Seq<char>| #[trigger] below(g, dep@, d2) && reaches(g, d2, x@) && x@ != d2;
                        lemma_below_prepend(g, changed@, dep@, d2);
                    }
                    let ghost tb = transitive@;
                    transitive.push(x);
                    proof {
                        assert forall|u: int| 0 <= u < transitive@.len() implies reached_below(g, changed@, (#[trigger] transitive@[u])@) by {
                            if u < tb.len() { assert(transitive@[u] == tb[u]); }
                        }
                        lemma_names_grow(tb, transitive@);
                        assert(transitive@.last() == sub.transitive_dependencies@[t as int]);
                    }
                }
                proof {
                    assert forall|k: int, x: Seq<char>| 0 <= k < j + 1 && #[trigger] affected_via(g, node.dependencies@[k]@, x)
                        implies strs_view(transitive@).contains(x) by {
                        if k == j {
                            assert(node.dependencies@[k]@ == dep@);
                            if reaches(g, dep@, x) && x != dep@ {
                                assert(strs_view(sub.directly_affected@).contains(x));
                                let u = choose|u: int| 0 <= u < strs_view(sub.directly_affected@).len()
                                    && strs_view(sub.directly_affected@)[u] == x;
                                assert(sub.directly_affected@[u]@ == x);
                            } else {
                                assert(strs_view(sub.transitive_dependencies@).contains(x));
                                let u = choose|u: int| 0 <= u < strs_view(sub.transitive_dependencies@).len()
                                    && strs_view(sub.transitive_dependencies@)[u] == x;
                                assert(sub.transitive_dependencies@[u]@ == x);
                            }
                        }
                    }
                }
            }
            proof {
                assert forall|x: Seq<char>| reached_below(g, changed@, x)
                    implies #[trigger] strs_view(transitive@).contains(x) by {
                    let d = choose|d: Seq<char>| #[trigger] below(g, changed@, d) && reaches(g, d, x) && x != d;
                    lemma_below_first_step(g, changed@, d);
                    let e = choose|e: Seq<char>| #[trigger] depends_on(g, changed@, e) && (e == d || below(g, e, d));
                    let k = choose|k: int| 0 <= k < strs_view(node.dependencies@).len() && strs_view(node.dependencies@)[k] == e;
                    assert(node.dependencies@[k]@ == e);
                    assert(affected_via(g, node.dependencies@[k]@, x));
                }
            }
        },
        None => {
            proof {
                assert forall|x: Seq<char>| reached_below(g, changed@, x)
                    implies #[trigger] strs_view(transitive@).contains(x) by {
                    let d = choose|d: Seq<char>| #[trigger] below(g, changed@, d) && reaches(g, d, x) && x != d;
                    lemma_below_first_step(g, changed@, d);
                    let e = choose|e: Seq<char>| #[trigger] depends_on(g, changed@, e) && (e == d || below(g, e, d));
                    assert(deps_of(g, changed@).len() == 0);
                }
            }
        },
    }
    proof {
        assert forall|x: Seq<char>| #[trigger] strs_view(direct@).contains(x)
            == (reaches(g, changed@, x) && x != changed@) by {
            assert(names.contains(x) == reaches(g, changed@, x));
        }
        assert(names.contains(changed@) == reaches(g, changed@, changed@));
    }
    ImpactAnalysis {
        changed_component: owned(changed),
        directly_affected: direct,
        transitive_dependencies: transitive,
        total_affected: total,
    }
}

/// A copy of `cs`.
fn copy_cycles(cs: &Vec<DependencyCycle>) -> (r: Vec<DependencyCycle>)
    ensures
        cycles_view(r@) == cycles_view(cs@),
{
    let mut r: Vec<DependencyCycle> = Vec::new();
    let n = cs.len();
    for i in 0..n
        invariant
            n == cs@.len(),
            cycles_view(r@) == cycles_view(cs@.take(i as int)),
    {
        let c = DependencyCycle { nodes: clone_strings(&cs[i].nodes), length: cs[i].length };
        let ghost before = r@;
        r.push(c);
        proof {
            assert(cycles_view(r@) =~= cycles_view(before).push(cycle_view(c)));
            assert(cs@.take(i + 1) =~= cs@.take(i as int).push(cs@[i as int]));
            assert(cycles_view(cs@.take(i + 1)) =~= cycles_view(cs@.take(i as int)).push(cycle_view(cs@[i as int])));
        }
    }
    proof {
        assert(cs@.take(n as int) =~= cs@);
    }
    r
}

impl DependencyAnalyzer {
    #[verifier::type_invariant]
    spec fn well_formed(&self) -> bool {
        closed_graph(self.nodes.entries())
    }

    /// The components, by name, in the order first registered.
    pub closed spec fn graph(&self) -> Seq<(String, DependencyNode)> {
        self.nodes.entries()
    }

    /// The cycles found by the last analysis.
    pub closed spec fn cycles(&self) -> Seq<DependencyCycle> {
        self.cycles@
    }

    /// When the last cycle analysis ran.
    pub closed spec fn analysed_at(&self) -> Option<i64> {
        self.analysis_timestamp
    }

    /// An analyzer with no components.
    pub fn new() -> (r: Self)
        ensures
            r.graph().len() == 0,
            r.cycles().len() == 0,
            r.analysed_at() is None,
    {
        DependencyAnalyzer { nodes: KeyedStore::new(), cycles: Vec::new(), analysis_timestamp: None }
    }

    /// Adds `name` with `metadata` and no dependencies, unless it is already registered.
    pub fn register_component(&mut self, name: &str, metadata: Vec<(String, String)>)
        ensures
            has_key(old(self).graph(), name@) ==> final(self).graph() == old(self).graph(),
            !has_key(old(self).graph(), name@) ==> final(self).graph().len() == old(self).graph().len() + 1
                && final(self).graph().take(old(self).graph().len() as int) == old(self).graph()
                && final(self).graph().last().0@ == name@
                && fresh_node(final(self).graph().last().1, name@, metadata@),
            final(self).cycles() == old(self).cycles(),
            final(self).analysed_at() == old(self).analysed_at(),
    {
        proof {
            use_type_invariant(&*self);
        }
        if !self.nodes.contains_key(name) {
            let node = DependencyNode {
                name: owned(name),
                dependencies: Vec::new(),
                dependents: Vec::new(),
                metadata,
            };
            let ghost g = self.nodes.entries();
            let mut nodes: KeyedStore<DependencyNode> = KeyedStore::new();
            std::mem::swap(&mut nodes, &mut self.nodes);
            nodes.insert(owned(name), node);
            proof {
                let g2 = nodes.entries();
                assert(g2 == g.push(g2.last()));
                assert(g2.take(g.len() as int) =~= g);
                assert forall|k: Seq<char>| has_key(g, k) implies has_key(g2, k) by {
                    let i = choose|i: int| 0 <= i < g.len() && (#[trigger] g[i]).0@ == k;
                    assert(g2[i] == g[i]);
                }
                assert forall|i: int| 0 <= i < g2.len() implies names_known(g2, (#[trigger] g2[i]).1.dependencies@)
                    && names_known(g2, g2[i].1.dependents@) by {
                    if i < g.len() {
                        assert(g2[i] == g[i]);
                        assert(names_known(g, g[i].1.dependencies@));
                        assert(names_known(g, g[i].1.dependents@));
                    }
                }
            }
            self.nodes = nodes;
        }
    }

    /// Records that `source` depends on `target`, registering either component that is not
    /// registered yet. A component cannot depend on itself: then nothing changes.
    pub fn register_dependency(&mut self, source: &str, target: &str)
        ensures
            source@ == target@ ==> final(self).graph() == old(self).graph(),
            source@ != target@ ==> {
                &&& forall|k: Seq<char>| #[trigger] has_key(final(self).graph(), k)
                    == (has_key(old(self).graph(), k) || k == source@ || k == target@)
                &&& deps_of(final(self).graph(), source@) == add_name(deps_of(old(self).graph(), source@), target@)
                &&& depends_on(final(self).graph(), source@, target@)
                &&& dependents_of(final(self).graph(), target@) == add_name(dependents_of(old(self).graph(), target@), source@)
                &&& forall|k: Seq<char>| k != source@ ==> #[trigger] deps_of(final(self).graph(), k) == deps_of(old(self).graph(), k)
                &&& forall|k: Seq<char>| k != target@ ==> #[trigger] dependents_of(final(self).graph(), k) == dependents_of(old(self).graph(), k)
            },
            final(self).cycles() == old(self).cycles(),
            final(self).analysed_at() == old(self).analysed_at(),
    {
        proof {
            use_type_invariant(&*self);
        }
        if str_eq(source, target) {
            return;
        }
        let ghost g0 = self.nodes.entries();
        let mut nodes: KeyedStore<DependencyNode> = KeyedStore::new();
        std::mem::swap(&mut nodes, &mut self.nodes);
        ensure_node(&mut nodes, source);
        ensure_node(&mut nodes, target);
        let ghost g1 = nodes.entries();
        assert(has_key(g1, source@));
        assert(has_key(g1, target@));
        let i = match nodes.position(source) { Some(i) => i, None => { self.nodes = nodes; return; } };
        link_dependency(&mut nodes, i, owned(target));
        let ghost g2 = nodes.entries();
        assert(has_key(g2, source@));
        let j = match nodes.position(target) { Some(j) => j, None => { self.nodes = nodes; return; } };
        link_dependent(&mut nodes, j, owned(source));
        proof {
            let g3 = nodes.entries();
            assert forall|k: Seq<char>| #[trigger] has_key(g3, k)
                == (has_key(g0, k) || k == source@ || k == target@) by {
                assert(has_key(g3, k) == has_key(g2, k));
                assert(has_key(g2, k) == has_key(g1, k));
            }
            assert forall|k: Seq<char>| k != source@ implies #[trigger] deps_of(g3, k) == deps_of(g0, k) by {
                assert(deps_of(g3, k) == deps_of(g2, k));
                assert(deps_of(g2, k) == deps_of(g1, k));
            }
            assert forall|k: Seq<char>| k != target@ implies #[trigger] dependents_of(g3, k) == dependents_of(g0, k) by {
                assert(dependents_of(g2, k) == dependents_of(g1, k));
            }
            assert(deps_of(g1, source@) == deps_of(g0, source@));
            assert(dependents_of(g2, target@) == dependents_of(g1, target@));
            let d0 = deps_of(g0, source@);
            if !d0.contains(target@) {
                assert(add_name(d0, target@)[d0.len() as int] == target@);
            }
        }
        self.nodes = nodes;
    }

    /// Whether `source` depends on `target`.
    pub fn has_dependency(&self, source: &str, target: &str) -> (r: bool)
        ensures
            r == depends_on(self.graph(), source@, target@),
    {
        match self.nodes.get(source) {
            Some(n) => {
                proof {
                    lemma_lists_contains(n.dependencies@, target@);
                }
                list_contains(&n.dependencies, target)
            },
            None => false,
        }
    }

    /// The coupling counts of `component` and the thresholds they cross (an unregistered
    /// component has no dependencies or dependents).
    pub fn coupling_counts(&self, component: &str) -> (r: CouplingCounts)
        ensures
            r.component@ == component@,
            r.efferent_coupling == deps_of(self.graph(), component@).len(),
            r.afferent_coupling == dependents_of(self.graph(), component@).len(),
            r.high_instability == (10 * r.efferent_coupling > 7 * (r.efferent_coupling + r.afferent_coupling)),
            r.high_afferent == (r.afferent_coupling > 20),
            r.high_efferent == (r.efferent_coupling > 15),
            r.far_from_main == (2 * r.efferent_coupling < r.efferent_coupling + r.afferent_coupling
                || r.efferent_coupling + r.afferent_coupling == 0),
    {
        let (efferent, afferent) = match self.nodes.get(component) {
            Some(n) => (n.dependencies.len(), n.dependents.len()),
            None => (0, 0),
        };
        let e = efferent as u128;
        let a = afferent as u128;
        CouplingCounts {
            component: owned(component),
            afferent_coupling: afferent,
            efferent_coupling: efferent,
            high_instability: 10 * e > 7 * (e + a),
            high_afferent: afferent > 20,
            high_efferent: efferent > 15,
            far_from_main: 2 * e < e + a || e + a == 0,
        }
    }

    /// Finds dependency cycles by depth-first search from each component in turn, records
    /// them with the time of the analysis, and returns them. Every cycle returned is a cycle
    /// of the graph.
    pub fn detect_cycles(&mut self) -> (r: Vec<DependencyCycle>)
        ensures
            final(self).graph() == old(self).graph(),
            forall|i: int| 0 <= i < r@.len() ==> cycle_ok(final(self).graph(), #[trigger] r@[i]),
            r@.len() == 0 <==> forall|c: Seq<Seq<char>>| !is_cycle(final(self).graph(), c),
            cycles_view(final(self).cycles()) == cycles_view(r@),
            final(self).analysed_at() is Some,
    {
        proof {
            use_type_invariant(&*self);
        }
        let n = self.nodes.len();
        let ghost g = self.nodes.entries();
        let mut visited: Vec<bool> = Vec::new();
        for i in 0..n
            invariant
                visited@.len() == i,
                forall|k: int| 0 <= k < i ==> !visited@[k],
        {
            visited.push(false);
        }
        let mut path: Vec<usize> = Vec::new();
        let mut cycles: Vec<DependencyCycle> = Vec::new();
        let ghost mut fin: Map<int, nat> = Map::empty();
        let ghost mut clock: nat = 0;

        for i in 0..n
            invariant
                n == g.len(),
                g == self.nodes.entries(),
                keys_distinct(g),
                closed_graph(g),
                visited@.len() == n,
                path@.len() == 0,
                forall|k: int| 0 <= k < cycles@.len() ==> cycle_ok(g, #[trigger] cycles@[k]),
                forall|k: int| 0 <= k < i ==> #[trigger] visited@[k],
                cycles@.len() == 0 ==> finish_ok(g, fin, clock, visited@, path@),
        {
            if !visited[i] {
                let ghost vb = visited@;
                visited.set(i, true);
                proof {
                    if cycles@.len() == 0 {
                        assert(visited@.update(i as int, false) =~= vb);
                    }
                }
                let ghost vm = visited@;
                let res = search_cycles(&self.nodes, i, &mut visited, &mut path, &mut cycles, Ghost(fin), Ghost(clock));
                proof {
                    assert forall|k: int| 0 <= k < i + 1 implies #[trigger] visited@[k] by {
                        assert(vm[k]);
                    }
                    if cycles@.len() == 0 {
                        fin = res@.0;
                        clock = res@.1;
                    }
                }
            }
        }
        proof {
            if cycles@.len() == 0 {
                assert forall|k: int| 0 <= k < n implies #[trigger] fin.dom().contains(k) by {
                    assert(visited@[k]);
                    assert(!on_path(path@, k));
                }
                lemma_no_cycle(g, fin);
                assert(forall|c: Seq<Seq<char>>| !is_cycle(self.nodes.entries(), c));
            } else {
                assert(cycle_ok(g, cycles@[0]));
                assert(is_cycle(g, strs_view(cycles@[0].nodes@)));
            }
        }
        self.cycles = copy_cycles(&cycles);
        self.analysis_timestamp = Some(now_millis());
        assert(self.graph() == g);
        cycles
    }

    /// What a change to `changed_component` affects: every component that depends on it,
    /// directly or through others (itself excluded), their number (itself included when a
    /// cycle leads back to it), and, for each of its dependencies in turn, what a change
    /// to that dependency affects. No dependency cycle may be reachable from the component:
    /// the analysis would not end.
    pub fn compute_impact_analysis(&self, changed_component: &str) -> (r: ImpactAnalysis)
        requires
            simple_from(self.graph(), changed_component@),
        ensures
            r.changed_component@ == changed_component@,
            forall|x: Seq<char>| #[trigger] strs_view(r.directly_affected@).contains(x)
                == (reaches(self.graph(), changed_component@, x) && x != changed_component@),
            forall|a: int, b: int| 0 <= a < b < r.directly_affected@.len()
                ==> (#[trigger] r.directly_affected@[a])@ != (#[trigger] r.directly_affected@[b])@,
            r.total_affected == r.directly_affected@.len()
                + if reaches(self.graph(), changed_component@, changed_component@) { 1int } else { 0int },
            forall|j: int| 0 <= j < r.transitive_dependencies@.len()
                ==> reached_below(self.graph(), changed_component@, (#[trigger] r.transitive_dependencies@[j])@),
            forall|x: Seq<char>| reached_below(self.graph(), changed_component@, x)
                ==> #[trigger] strs_view(r.transitive_dependencies@).contains(x),
    {
        proof {
            use_type_invariant(self);
        }
        let _ = self.nodes.len();
        let ghost c = seq![changed_component@];
        proof {
            assert(dependency_walk(self.graph(), c));
        }
        impact_of(&self.nodes, changed_component, Ghost(c))
    }

    /// Whether the coupling score of `component` exceeds `max_millis` thousandths. With `e`
    /// dependencies and `a` dependents the score is `0.6 + 0.1 * e / (e + a)`, or `0.6`
    /// when both are 0; the comparison is made exactly.
    pub fn coupling_exceeds(&self, component: &str, max_millis: u64) -> (r: bool)
        ensures
            ({
                let e = deps_of(self.graph(), component@).len() as int;
                let a = dependents_of(self.graph(), component@).len() as int;
                r == if e + a == 0 { 600 > max_millis } else { 600 * (e + a) + 100 * e > max_millis * (e + a) }
            }),
    {
        let counts = self.coupling_counts(component);
        let e = counts.efferent_coupling as u128;
        let t = e + counts.afferent_coupling as u128;
        let m = max_millis as u128;
        if t == 0 {
            600 > m
        } else if m >= 700 {
            proof {
                assert(600 * t + 100 * e <= m * t) by (nonlinear_arith)
                    requires m >= 700, e <= t;
            }
            false
        } else {
            proof {
                assert(m * t <= 700 * t) by (nonlinear_arith)
                    requires m < 700;
            }
            600 * t + 100 * e > m * t
        }
    }

    /// The names of the registered components, in the order first registered.
    pub fn component_names(&self) -> (r: Vec<String>)
        ensures
            strs_view(r@) == crate::store::keys_of(self.graph()),
    {
        let n = self.nodes.len();
        let mut r: Vec<String> = Vec::new();
        for i in 0..n
            invariant
                n == self.graph().len(),
                strs_view(r@) == crate::store::keys_of(self.graph()).take(i as int),
        {
            let (k, _) = self.nodes.entry_at(i);
            let ghost before = r@;
            r.push(k.clone());
            proof {
                assert(strs_view(r@) =~= strs_view(before).push(k@));
                assert(crate::store::keys_of(self.graph()).take(i + 1)
                    =~= crate::store::keys_of(self.graph()).take(i as int).push(k@));
            }
        }
        proof {
            assert(crate::store::keys_of(self.graph()).take(n as int) =~= crate::store::keys_of(self.graph()));
        }
        r
    }

    /// The cycles found by the last analysis.
    pub fn recorded_cycles(&self) -> (r: &[DependencyCycle])
        ensures
            r@ == self.cycles(),
    {
        self.cycles.as_slice()
    }
}

impl Default for DependencyAnalyzer {
    /// The same as `DependencyAnalyzer::new()`.
    fn default() -> (r: Self)
        ensures
            r.graph().len() == 0,
            r.cycles().len() == 0,
            r.analysed_at() is None,
    {
        Self::new()
    }
}

} // verus!
