//! Semantic versions, carried through certifications as `semver::Version` values.
use vstd::prelude::*;

verus! {

/// `semver::Version`, carried through the library without being looked into.
#[verifier::external_type_specification]
#[verifier::external_body]
pub struct ExVersion(semver::Version);

/// A copy of `v`.
///
/// Calls `<semver::Version as Clone>::clone`, which the crate derives field by field;
/// the copy equals `v`.
#[verifier::external_body]
pub(crate) fn clone_version(v: &semver::Version) -> (r: semver::Version)
    ensures
        r == *v,
{
    v.clone()
}

} // verus!

verus! {

/// Where semver places version `a` relative to `b`: -1 before, 0 level, 1 after.
pub uninterp spec fn version_order(a: semver::Version, b: semver::Version) -> int;

/// Whether semver's `==` holds of two versions.
pub uninterp spec fn version_eq(a: semver::Version, b: semver::Version) -> bool;

/// The version semver reads from a text, if the text is a valid version.
pub uninterp spec fn parsed_version(text: Seq<char>) -> Option<semver::Version>;

/// How semver writes a version (`major.minor.patch`, then `-pre` and `+build` when present).
pub uninterp spec fn version_display(v: semver::Version) -> Seq<char>;

/// The release version `major.minor.patch` with no pre-release or build metadata.
pub uninterp spec fn release_version(major: u64, minor: u64, patch: u64) -> semver::Version;

/// Compares two versions by semver precedence.
///
/// Calls `Ord::cmp` on `semver::Version`, which orders by major, minor and patch, then by
/// pre-release (a release after its pre-releases) and build metadata. As `Ord` requires,
/// the order is total: comparing the other way round gives the opposite answer, and
/// whatever is not after `b` is not after an `a` that is not before `b`.
#[verifier::external_body]
pub(crate) fn compare_versions(a: &semver::Version, b: &semver::Version) -> (r: i8)
    ensures
        r == version_order(*a, *b),
        -1 <= r <= 1,
        version_order(*b, *a) == -r,
        forall|x: semver::Version| r >= 0 && #[trigger] version_order(x, *b) <= 0 ==> version_order(x, *a) <= 0,
{
    match a.cmp(b) {
        std::cmp::Ordering::Less => -1,
        std::cmp::Ordering::Equal => 0,
        std::cmp::Ordering::Greater => 1,
    }
}

/// Whether two versions are equal.
///
/// Calls `PartialEq::eq` on `semver::Version`, derived over its fields.
#[verifier::external_body]
pub(crate) fn versions_equal(a: &semver::Version, b: &semver::Version) -> (r: bool)
    ensures
        r == version_eq(*a, *b),
{
    a == b
}

/// Reads a version from `text`.
///
/// Calls `semver::Version::parse`, whose result depends on the text alone; an invalid
/// text gives `None`.
#[verifier::external_body]
pub(crate) fn parse_version(text: &str) -> (r: Option<semver::Version>)
    ensures
        r == parsed_version(text@),
{
    semver::Version::parse(text).ok()
}

/// Writes `v` as text.
///
/// Calls `semver::Version`'s `Display` through `to_string`.
#[verifier::external_body]
pub(crate) fn version_text(v: &semver::Version) -> (r: String)
    ensures
        r@ == version_display(*v),
{
    v.to_string()
}

/// The release version `major.minor.patch`.
///
/// Calls `semver::Version::new`.
#[verifier::external_body]
pub(crate) fn release(major: u64, minor: u64, patch: u64) -> (r: semver::Version)
    ensures
        r == release_version(major, minor, patch),
{
    semver::Version::new(major, minor, patch)
}

} // verus!

verus! {

/// The position of the greatest version, the last such when several are greatest.
pub(crate) fn greatest_version(versions: &[semver::Version]) -> (r: Option<usize>)
    ensures
        match r {
            None => versions@.len() == 0,
            Some(i) => i < versions@.len()
                && (forall|j: int| 0 <= j < versions@.len() && j != i
                    ==> version_order(versions@[j], versions@[i as int]) <= 0)
                && (forall|j: int| i < j < versions@.len() ==> version_order(versions@[j], versions@[i as int]) < 0),
        },
{
    let n = versions.len();
    if n == 0 {
        return None;
    }
    let mut best: usize = 0;
    for j in 1..n
        invariant
            n == versions@.len(),
            best < j,
            forall|k: int| 0 <= k < j && k != best ==> version_order(versions@[k], versions@[best as int]) <= 0,
            forall|k: int| best < k < j ==> version_order(versions@[k], versions@[best as int]) < 0,
    {
        let c = compare_versions(&versions[j], &versions[best]);
        if c >= 0 {
            proof {
                assert forall|k: int| 0 <= k < j + 1 && k != j implies version_order(versions@[k], versions@[j as int]) <= 0 by {
                    if k != best as int {
                        assert(version_order(versions@[k], versions@[best as int]) <= 0);
                    }
                }
            }
            best = j;
        }
    }
    Some(best)
}

} // verus!
