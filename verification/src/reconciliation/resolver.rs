//! Resolution of conflicting payloads by the strategy registered for their record type.
use vstd::prelude::*;
use vstd::string::StringSliceAdditionalSpecFns;
use crate::reconciliation::strategy::{ConflictStrategy, ResolutionMatrix};
use crate::records::{NodeIdentity, VersionVector, same_version, tier_rank_of};
use crate::text::{cat2, owned, strs_view, chars_le, chars_sorted, sort_strings, str_eq, list_contains, lists, decimal};
use crate::crypto::{byte_strings, bytes_le, bytes_sorted, sort_byte_strings, bytes_eq};
use crate::json::{entry_views, json_i64, json_strings, json_string_array, json_byte_set_object, json_byte_set_member,
    decode_json_i64, decode_json_strings, encode_json_strings, decode_json_byte_set_object, encode_json_byte_set_member};

verus! {

/// Settles conflicts with the strategies of a matrix.
pub struct Resolver {
    pub matrix: ResolutionMatrix,
}

/// How a conflict was settled.
#[derive(Debug, Clone)]
pub enum Resolution {
    AcceptLocal,
    AcceptRemote,
    Merged(Vec<u8>),
    Escalated(ConflictEscalation),
}

/// A conflict handed to a person, with both payloads and both version vectors.
#[derive(Debug, Clone)]
pub struct ConflictEscalation {
    pub record_type: String,
    pub reason: String,
    pub local_payload: Vec<u8>,
    pub remote_payload: Vec<u8>,
    pub local_version: VersionVector,
    pub remote_version: VersionVector,
}

/// The decimal rendering of an integer, with a leading minus sign when negative.
pub open spec fn int_text(n: int) -> Seq<char> {
    if n < 0 { "-"@ + decimal((-n) as nat) } else { decimal(n as nat) }
}

/// The decimal rendering of `n`, with a leading minus sign when it is negative.
fn i128_text(n: i128) -> (r: String)
    ensures
        r@ == int_text(n as int),
{
    if n < 0 {
        let m: u128 = if n == i128::MIN { 170141183460469231731687303715884105728u128 } else { (-n) as u128 };
        let t = crate::text::u128_text(m);
        cat2("-", t.as_str())
    } else {
        crate::text::u128_text(n as u128)
    }
}

/// The balance a leave-balance payload holds: its JSON integer, or zero when it holds none.
pub open spec fn balance_of(payload: Seq<u8>) -> int {
    match json_i64(payload) {
        Some(v) => v as int,
        None => 0,
    }
}

/// The strings a payload holds as a JSON array of strings, or none.
pub open spec fn listed_strings(payload: Seq<u8>) -> Seq<Seq<char>> {
    match json_strings(payload) {
        Some(v) => v,
        None => Seq::empty(),
    }
}

/// The list under the first of the first `n` entries named `name`, if any.
pub open spec fn member_named(entries: Seq<(Seq<char>, Seq<Seq<u8>>)>, name: Seq<char>, n: int) -> Option<Seq<Seq<u8>>>
    decreases n,
{
    if n <= 0 {
        None
    } else {
        match member_named(entries, name, n - 1) {
            Some(v) => Some(v),
            None => if entries[n - 1].0 == name { Some(entries[n - 1].1) } else { None },
        }
    }
}

/// The elements of a grow-only set given a payload and the JSON object decoded from it:
/// the object's `elements` member, or else the payload itself as the one element.
pub open spec fn elements_given(payload: Seq<u8>, object: Option<Seq<(Seq<char>, Seq<Seq<u8>>)>>) -> Seq<Seq<u8>> {
    match object {
        Some(entries) => match member_named(entries, "elements"@, entries.len() as int) {
            Some(v) => v,
            None => seq![payload],
        },
        None => seq![payload],
    }
}

/// The elements of the grow-only set a payload holds.
pub open spec fn set_elements(payload: Seq<u8>) -> Seq<Seq<u8>> {
    elements_given(payload, json_byte_set_object(payload))
}

/// `out` holds each of the values in `a` and `b` once, in strictly ascending order.
pub open spec fn sorted_union_of_strings(out: Seq<Seq<char>>, a: Seq<Seq<char>>, b: Seq<Seq<char>>) -> bool {
    &&& chars_sorted(out)
    &&& forall|p: int, q: int| 0 <= p < q < out.len() ==> #[trigger] out[p] != #[trigger] out[q]
    &&& forall|x: Seq<char>| out.contains(x) <==> (a.contains(x) || b.contains(x))
}

/// `out` holds each of the byte strings in `a` and `b` once, in strictly ascending order.
pub open spec fn sorted_union_of_bytes(out: Seq<Seq<u8>>, a: Seq<Seq<u8>>, b: Seq<Seq<u8>>) -> bool {
    &&& bytes_sorted(out)
    &&& forall|p: int, q: int| 0 <= p < q < out.len() ==> #[trigger] out[p] != #[trigger] out[q]
    &&& forall|x: Seq<u8>| out.contains(x) <==> (a.contains(x) || b.contains(x))
}

/// What resolving a conflict on `record_type` gives, by the strategy registered for it:
/// last writer wins by the versions' local timestamps (ties keep the local version); the
/// version from the node of equal or higher tier wins (ties take the remote version); leave
/// balances are summed; other service records and additive records are merged as sets;
/// manual records are escalated.
pub open spec fn resolution_is(
    r: Resolution,
    strategy: ConflictStrategy,
    record_type: Seq<char>,
    local: Seq<u8>,
    remote: Seq<u8>,
    local_vv: VersionVector,
    remote_vv: VersionVector,
    local_node: NodeIdentity,
    remote_node: NodeIdentity,
) -> bool {
    match strategy {
        ConflictStrategy::Lww => r == (if local_vv.local_timestamp >= remote_vv.local_timestamp {
            Resolution::AcceptLocal
        } else {
            Resolution::AcceptRemote
        }),
        ConflictStrategy::MinistryAuthor => r == (if tier_rank_of(remote_node.node_type) >= tier_rank_of(local_node.node_type) {
            Resolution::AcceptRemote
        } else {
            Resolution::AcceptLocal
        }),
        ConflictStrategy::ServiceMerge => if record_type == "LeaveBalance"@ {
            r matches Resolution::Merged(b) && b@ == encode_utf8_spec(int_text(balance_of(local) + balance_of(remote)))
        } else {
            r matches Resolution::Merged(b) && exists|out: Seq<Seq<char>>|
                sorted_union_of_strings(out, listed_strings(local), listed_strings(remote)) && b@ == #[trigger] json_string_array(out)
        },
        ConflictStrategy::AdditiveMerge => r matches Resolution::Merged(b) && exists|out: Seq<Seq<u8>>|
            sorted_union_of_bytes(out, set_elements(local), set_elements(remote)) && b@ == #[trigger] json_byte_set_member("elements"@, out),
        ConflictStrategy::Manual => r matches Resolution::Escalated(e) && e.record_type@ == record_type
            && e.reason@ == "Manual resolution required by strategy"@ && e.local_payload@ == local && e.remote_payload@ == remote
            && same_version(e.local_version, local_vv) && same_version(e.remote_version, remote_vv),
    }
}

/// The UTF-8 bytes of a character sequence.
pub open spec fn encode_utf8_spec(s: Seq<char>) -> Seq<u8> {
    vstd::utf8::encode_utf8(s)
}

/// Each of the values of `a` and `b` once, in ascending order.
pub fn union_sorted_strings(a: &Vec<String>, b: &Vec<String>) -> (r: Vec<String>)
    ensures
        sorted_union_of_strings(strs_view(r@), strs_view(a@), strs_view(b@)),
{
    broadcast use vstd::seq_lib::group_to_multiset_ensures;
    let mut all: Vec<String> = crate::text::clone_strings(a);
    let nb = b.len();
    for i in 0..nb
        invariant
            nb == b@.len(),
            all@ == a@ + b@.take(i as int),
    {
        all.push(b[i].clone());
        assert(all@ =~= a@ + b@.take(i + 1));
    }
    assert(b@.take(nb as int) =~= b@);
    assert(strs_view(all@) =~= strs_view(a@) + strs_view(b@));
    let ghost joined = strs_view(all@);
    sort_strings(&mut all);
    let ghost sorted = strs_view(all@);
    assert forall|x: Seq<char>| sorted.contains(x) <==> joined.contains(x) by {
        assert(sorted.to_multiset().count(x) == joined.to_multiset().count(x));
    }
    let n = all.len();
    let mut out: Vec<String> = Vec::new();
    let ghost mut idx: Seq<int> = Seq::empty();
    for i in 0..n
        invariant
            n == all@.len(),
            sorted == strs_view(all@),
            chars_sorted(sorted),
            idx.len() == out@.len(),
            forall|p: int| 0 <= p < idx.len() ==> 0 <= #[trigger] idx[p] < i && strs_view(out@)[p] == sorted[idx[p]],
            forall|p: int, q: int| 0 <= p < q < idx.len() ==> #[trigger] idx[p] < #[trigger] idx[q],
            forall|p: int, q: int| 0 <= p < q < out@.len() ==> #[trigger] strs_view(out@)[p] != #[trigger] strs_view(out@)[q],
            forall|k: int| 0 <= k < i ==> strs_view(out@).contains(#[trigger] sorted[k]),
    {
        let ghost before = strs_view(out@);
        let ghost out_before = out@;
        let ghost mut wit: int = 0;
        if !list_contains(&out, all[i].as_str()) {
            out.push(all[i].clone());
            proof {
                idx = idx.push(i as int);
                assert(strs_view(out@) =~= before.push(sorted[i as int]));
                wit = out@.len() - 1;
                assert forall|p: int, q: int| 0 <= p < q < out@.len() implies #[trigger] strs_view(out@)[p] != #[trigger] strs_view(out@)[q] by {
                    if q == out@.len() - 1 {
                        assert(out_before[p]@ != all@[i as int]@);
                    }
                }
            }
        } else {
            proof {
                let w = choose|j: int| 0 <= j < out@.len() && (#[trigger] out@[j])@ == all@[i as int]@;
                assert(strs_view(out@)[w] == sorted[i as int]);
                wit = w;
            }
        }
        proof {
            assert forall|k: int| 0 <= k < i + 1 implies strs_view(out@).contains(#[trigger] sorted[k]) by {
                if k < i {
                    let w = choose|j: int| 0 <= j < before.len() && before[j] == sorted[k];
                    assert(strs_view(out@)[w] == sorted[k]);
                } else {
                    assert(strs_view(out@)[wit] == sorted[k]);
                }
            }
        }
    }
    proof {
        let o = strs_view(out@);
        assert forall|p: int, q: int| 0 <= p < q < o.len() implies chars_le(#[trigger] o[p], #[trigger] o[q]) by {
            assert(idx[p] < idx[q]);
        }
        assert forall|x: Seq<char>| o.contains(x) <==> (strs_view(a@).contains(x) || strs_view(b@).contains(x)) by {
            if o.contains(x) {
                let p = choose|p: int| 0 <= p < o.len() && o[p] == x;
                assert(sorted[idx[p]] == x);
            }
            if sorted.contains(x) {
                let k = choose|k: int| 0 <= k < sorted.len() && sorted[k] == x;
                assert(o.contains(sorted[k]));
            }
            assert(joined.contains(x) <==> (strs_view(a@).contains(x) || strs_view(b@).contains(x))) by {
                if joined.contains(x) {
                    let k = choose|k: int| 0 <= k < joined.len() && joined[k] == x;
                    if k < strs_view(a@).len() {
                        assert(strs_view(a@)[k] == x);
                    } else {
                        assert(strs_view(b@)[k - strs_view(a@).len()] == x);
                    }
                }
                if strs_view(a@).contains(x) {
                    let k = choose|k: int| 0 <= k < strs_view(a@).len() && strs_view(a@)[k] == x;
                    assert(joined[k] == x);
                }
                if strs_view(b@).contains(x) {
                    let k = choose|k: int| 0 <= k < strs_view(b@).len() && strs_view(b@)[k] == x;
                    assert(joined[k + strs_view(a@).len()] == x);
                }
            }
        }
    }
    out
}

fn list_holds_bytes(list: &Vec<Vec<u8>>, key: &[u8]) -> (r: bool)
    ensures
        r == byte_strings(list@).contains(key@),
{
    let n = list.len();
    for i in 0..n
        invariant
            n == list@.len(),
            forall|j: int| 0 <= j < i ==> (#[trigger] list@[j])@ != key@,
    {
        if bytes_eq(list[i].as_slice(), key) {
            assert(byte_strings(list@)[i as int] == key@);
            return true;
        }
    }
    assert forall|j: int| 0 <= j < list@.len() implies byte_strings(list@)[j] != key@ by {
        assert(list@[j]@ != key@);
    }
    false
}

/// Each of the byte strings of `a` and `b` once, in ascending order.
pub fn union_sorted_bytes(a: &Vec<Vec<u8>>, b: &Vec<Vec<u8>>) -> (r: Vec<Vec<u8>>)
    ensures
        sorted_union_of_bytes(byte_strings(r@), byte_strings(a@), byte_strings(b@)),
{
    broadcast use vstd::seq_lib::group_to_multiset_ensures;
    let mut all: Vec<Vec<u8>> = Vec::new();
    let na = a.len();
    for i in 0..na
        invariant
            na == a@.len(),
            byte_strings(all@) == byte_strings(a@).take(i as int),
    {
        let c = crate::crypto::bytes_of(&a[i]);
        let ghost old_all = all@;
        all.push(c);
        assert(byte_strings(all@) =~= byte_strings(old_all).push(a@[i as int]@));
        assert(byte_strings(all@) =~= byte_strings(a@).take(i + 1));
    }
    let nb = b.len();
    for i in 0..nb
        invariant
            na == a@.len(),
            nb == b@.len(),
            byte_strings(all@) == byte_strings(a@).take(na as int) + byte_strings(b@).take(i as int),
    {
        let c = crate::crypto::bytes_of(&b[i]);
        let ghost old_all = all@;
        all.push(c);
        assert(byte_strings(all@) =~= byte_strings(old_all).push(b@[i as int]@));
        assert(byte_strings(all@) =~= byte_strings(a@).take(na as int) + byte_strings(b@).take(i + 1));
    }
    assert(byte_strings(a@).take(na as int) =~= byte_strings(a@));
    assert(byte_strings(b@).take(nb as int) =~= byte_strings(b@));
    let ghost joined = byte_strings(all@);
    sort_byte_strings(&mut all);
    let ghost sorted = byte_strings(all@);
    assert forall|x: Seq<u8>| sorted.contains(x) <==> joined.contains(x) by {
        assert(sorted.to_multiset().count(x) == joined.to_multiset().count(x));
    }
    let n = all.len();
    let mut out: Vec<Vec<u8>> = Vec::new();
    let ghost mut idx: Seq<int> = Seq::empty();
    for i in 0..n
        invariant
            n == all@.len(),
            sorted == byte_strings(all@),
            bytes_sorted(sorted),
            idx.len() == out@.len(),
            forall|p: int| 0 <= p < idx.len() ==> 0 <= #[trigger] idx[p] < i && byte_strings(out@)[p] == sorted[idx[p]],
            forall|p: int, q: int| 0 <= p < q < idx.len() ==> #[trigger] idx[p] < #[trigger] idx[q],
            forall|p: int, q: int| 0 <= p < q < out@.len() ==> #[trigger] byte_strings(out@)[p] != #[trigger] byte_strings(out@)[q],
            forall|k: int| 0 <= k < i ==> byte_strings(out@).contains(#[trigger] sorted[k]),
    {
        let ghost before = byte_strings(out@);
        let ghost mut wit: int = 0;
        if !list_holds_bytes(&out, all[i].as_slice()) {
            out.push(crate::crypto::bytes_of(&all[i]));
            proof {
                idx = idx.push(i as int);
                assert(byte_strings(out@) =~= before.push(sorted[i as int]));
                wit = out@.len() - 1;
                assert forall|p: int, q: int| 0 <= p < q < out@.len() implies #[trigger] byte_strings(out@)[p] != #[trigger] byte_strings(out@)[q] by {
                    if q == out@.len() - 1 {
                        assert(before[p] != sorted[i as int]);
                    }
                }
            }
        } else {
            proof {
                let w = choose|j: int| 0 <= j < before.len() && before[j] == sorted[i as int];
                wit = w;
            }
        }
        proof {
            assert forall|k: int| 0 <= k < i + 1 implies byte_strings(out@).contains(#[trigger] sorted[k]) by {
                if k < i {
                    let w = choose|j: int| 0 <= j < before.len() && before[j] == sorted[k];
                    assert(byte_strings(out@)[w] == sorted[k]);
                } else {
                    assert(byte_strings(out@)[wit] == sorted[k]);
                }
            }
        }
    }
    proof {
        let o = byte_strings(out@);
        let sa = byte_strings(a@);
        let sb = byte_strings(b@);
        assert forall|p: int, q: int| 0 <= p < q < o.len() implies bytes_le(#[trigger] o[p], #[trigger] o[q]) by {
            assert(idx[p] < idx[q]);
        }
        assert forall|x: Seq<u8>| o.contains(x) <==> (sa.contains(x) || sb.contains(x)) by {
            if o.contains(x) {
                let p = choose|p: int| 0 <= p < o.len() && o[p] == x;
                assert(sorted[idx[p]] == x);
            }
            if sorted.contains(x) {
                let k = choose|k: int| 0 <= k < sorted.len() && sorted[k] == x;
                assert(o.contains(sorted[k]));
            }
            if joined.contains(x) {
                let k = choose|k: int| 0 <= k < joined.len() && joined[k] == x;
                if k < sa.len() {
                    assert(sa[k] == x);
                } else {
                    assert(sb[k - sa.len()] == x);
                }
            }
            if sa.contains(x) {
                let k = choose|k: int| 0 <= k < sa.len() && sa[k] == x;
                assert(joined[k] == x);
            }
            if sb.contains(x) {
                let k = choose|k: int| 0 <= k < sb.len() && sb[k] == x;
                assert(joined[k + sa.len()] == x);
            }
        }
    }
    out
}

fn copy_slice(v: &[u8]) -> (r: Vec<u8>)
    ensures
        r@ == v@,
{
    let mut r: Vec<u8> = Vec::new();
    let n = v.len();
    for i in 0..n
        invariant
            n == v@.len(),
            r@ == v@.take(i as int),
    {
        r.push(v[i]);
        assert(r@ =~= v@.take(i + 1));
    }
    assert(v@.take(n as int) =~= v@);
    r
}

/// The JSON payload of the sum of two leave balances, each read as zero when absent.
pub fn merge_balances(local: Option<i64>, remote: Option<i64>) -> (r: Vec<u8>)
    ensures
        r@ == encode_utf8_spec(int_text(
            (match local { Some(v) => v as int, None => 0 }) + (match remote { Some(v) => v as int, None => 0 }))),
{
    let l: i64 = match local { Some(v) => v, None => 0 };
    let m: i64 = match remote { Some(v) => v, None => 0 };
    let total = i128_text(l as i128 + m as i128);
    copy_slice(total.as_str().as_bytes())
}

/// The elements of a grow-only set held by `payload`, given the JSON object decoded from
/// it: the object's `elements` member, or else the payload itself as the one element.
pub fn elements_from(payload: &[u8], object: Option<Vec<(String, Vec<Vec<u8>>)>>) -> (r: Vec<Vec<u8>>)
    ensures
        byte_strings(r@) == elements_given(payload@, match object {
            Some(v) => Some(entry_views(v@)),
            None => None,
        }),
{
    match object {
        Some(entries) => {
            let ghost es = entry_views(entries@);
            let n = entries.len();
            let mut k: usize = 0;
            while k < n
                invariant
                    n == entries@.len(),
                    object == Some(entries),
                    es == entry_views(entries@),
                    k <= n,
                    member_named(es, "elements"@, k as int) is None,
                decreases n - k,
            {
                if str_eq(entries[k].0.as_str(), "elements") {
                    let mut found: Vec<Vec<u8>> = Vec::new();
                    let m = entries[k].1.len();
                    for q in 0..m
                        invariant
                            k < n,
                            n == entries@.len(),
                            m == entries@[k as int].1@.len(),
                            byte_strings(found@) == byte_strings(entries@[k as int].1@).take(q as int),
                    {
                        let c = crate::crypto::bytes_of(&entries[k].1[q]);
                        let ghost old_found = found@;
                        found.push(c);
                        assert(byte_strings(found@) =~= byte_strings(old_found).push(entries@[k as int].1@[q as int]@));
                        assert(byte_strings(found@) =~= byte_strings(entries@[k as int].1@).take(q + 1));
                    }
                    assert(byte_strings(entries@[k as int].1@).take(m as int) =~= byte_strings(entries@[k as int].1@));
                    assert(member_named(es, "elements"@, k + 1) == Some(es[k as int].1));
                    proof {
                        lemma_member_named_stable(es, "elements"@, k + 1, n as int);
                        assert(es.len() == n);
                        assert(byte_strings(found@) == es[k as int].1);
                        assert(elements_given(payload@, Some(es)) == es[k as int].1);
                    }
                    return found;
                }
                k = k + 1;
            }
            let mut one: Vec<Vec<u8>> = Vec::new();
            one.push(copy_slice(payload));
            assert(byte_strings(one@) =~= seq![payload@]);
            one
        },
        None => {
            let mut one: Vec<Vec<u8>> = Vec::new();
            one.push(copy_slice(payload));
            assert(byte_strings(one@) =~= seq![payload@]);
            one
        },
    }
}

proof fn lemma_member_named_stable(entries: Seq<(Seq<char>, Seq<Seq<u8>>)>, name: Seq<char>, k: int, n: int)
    requires
        0 <= k <= n,
        member_named(entries, name, k) is Some,
    ensures
        member_named(entries, name, n) == member_named(entries, name, k),
    decreases n - k,
{
    if n > k {
        lemma_member_named_stable(entries, name, k, n - 1);
    }
}

impl Resolver {
    /// A resolver using `matrix`.
    pub fn new(matrix: ResolutionMatrix) -> (r: Self)
        ensures
            r.matrix == matrix,
    {
        Resolver { matrix }
    }

    /// Settles a conflict between the local and remote payloads of a record of
    /// `record_type` by the strategy registered for that type (see `resolution_is`), given
    /// the two versions and the nodes that hold them.
    pub fn resolve(
        &self,
        record_type: &str,
        local_payload: &[u8],
        remote_payload: &[u8],
        local_vv: &VersionVector,
        remote_vv: &VersionVector,
        local_node: &NodeIdentity,
        remote_node: &NodeIdentity,
    ) -> (r: Resolution)
        ensures
            resolution_is(r, self.matrix.strategy_for(record_type@), record_type@, local_payload@, remote_payload@,
                *local_vv, *remote_vv, *local_node, *remote_node),
    {
        let strategy = match self.matrix.get_strategy(record_type) {
            Some(s) => *s,
            None => ConflictStrategy::Lww,
        };
        match strategy {
            ConflictStrategy::Lww => {
                if local_vv.local_timestamp >= remote_vv.local_timestamp { Resolution::AcceptLocal } else { Resolution::AcceptRemote }
            },
            ConflictStrategy::MinistryAuthor => {
                if remote_node.node_type.tier_rank() >= local_node.node_type.tier_rank() {
                    Resolution::AcceptRemote
                } else {
                    Resolution::AcceptLocal
                }
            },
            ConflictStrategy::ServiceMerge => {
                if str_eq(record_type, "LeaveBalance") {
                    Resolution::Merged(merge_balances(decode_json_i64(local_payload), decode_json_i64(remote_payload)))
                } else {
                    let a = match decode_json_strings(local_payload) { Some(v) => v, None => Vec::new() };
                    let b = match decode_json_strings(remote_payload) { Some(v) => v, None => Vec::new() };
                    assert(strs_view(a@) == listed_strings(local_payload@));
                    assert(strs_view(b@) == listed_strings(remote_payload@));
                    let merged = union_sorted_strings(&a, &b);
                    let bytes = encode_json_strings(&merged);
                    assert(sorted_union_of_strings(strs_view(merged@), listed_strings(local_payload@), listed_strings(remote_payload@)));
                    Resolution::Merged(bytes)
                }
            },
            ConflictStrategy::AdditiveMerge => {
                let a = elements_from(local_payload, decode_json_byte_set_object(local_payload));
                let b = elements_from(remote_payload, decode_json_byte_set_object(remote_payload));
                assert(byte_strings(a@) == set_elements(local_payload@));
                assert(byte_strings(b@) == set_elements(remote_payload@));
                let merged = union_sorted_bytes(&a, &b);
                let bytes = encode_json_byte_set_member("elements", &merged);
                assert(sorted_union_of_bytes(byte_strings(merged@), set_elements(local_payload@), set_elements(remote_payload@)));
                Resolution::Merged(bytes)
            },
            ConflictStrategy::Manual => {
                Resolution::Escalated(ConflictEscalation {
                    record_type: owned(record_type),
                    reason: owned("Manual resolution required by strategy"),
                    local_payload: copy_slice(local_payload),
                    remote_payload: copy_slice(remote_payload),
                    local_version: local_vv.copy(),
                    remote_version: remote_vv.copy(),
                })
            },
        }
    }
}

} // verus!

verus! {

proof fn lemma_chars_le_antisymmetric(a: Seq<char>, b: Seq<char>)
    requires
        chars_le(a, b),
        chars_le(b, a),
    ensures
        a == b,
    decreases a.len(),
{
    if a.len() > 0 && b.len() > 0 && a[0] == b[0] {
        lemma_chars_le_antisymmetric(a.drop_first(), b.drop_first());
        assert(a =~= seq![a[0]] + a.drop_first());
        assert(b =~= seq![b[0]] + b.drop_first());
    } else if a.len() > 0 && b.len() > 0 {
        assert(false);
    } else {
        assert(a.len() == 0 && b.len() == 0);
        assert(a =~= b);
    }
}

proof fn lemma_bytes_le_antisymmetric(a: Seq<u8>, b: Seq<u8>)
    requires
        bytes_le(a, b),
        bytes_le(b, a),
    ensures
        a == b,
    decreases a.len(),
{
    if a.len() > 0 && b.len() > 0 && a[0] == b[0] {
        lemma_bytes_le_antisymmetric(a.drop_first(), b.drop_first());
        assert(a =~= seq![a[0]] + a.drop_first());
        assert(b =~= seq![b[0]] + b.drop_first());
    } else if a.len() > 0 && b.len() > 0 {
        assert(false);
    } else {
        assert(a.len() == 0 && b.len() == 0);
        assert(a =~= b);
    }
}

/// Two ascending, repetition-free lists of the same strings are the same list.
proof fn lemma_sorted_strings_unique(o1: Seq<Seq<char>>, o2: Seq<Seq<char>>)
    requires
        crate::text::chars_sorted(o1),
        crate::text::chars_sorted(o2),
        forall|p: int, q: int| 0 <= p < q < o1.len() ==> #[trigger] o1[p] != #[trigger] o1[q],
        forall|p: int, q: int| 0 <= p < q < o2.len() ==> #[trigger] o2[p] != #[trigger] o2[q],
        forall|x: Seq<char>| o1.contains(x) <==> o2.contains(x),
    ensures
        o1 == o2,
    decreases o1.len(),
{
    if o1.len() == 0 {
        if o2.len() > 0 {
            assert(o2.contains(o2[0]));
        }
        assert(o1 =~= o2);
    } else {
        assert(o1.contains(o1[0]));
        let j = choose|j: int| 0 <= j < o2.len() && o2[j] == o1[0];
        assert(o2.contains(o2[0]));
        let i = choose|i: int| 0 <= i < o1.len() && o1[i] == o2[0];
        if i > 0 && j > 0 {
            assert(crate::text::chars_le(o1[0], o1[i]));
            assert(crate::text::chars_le(o2[0], o2[j]));
            lemma_chars_le_antisymmetric(o1[0], o2[0]);
        }
        assert(o1[0] == o2[0]);
        let t1 = o1.drop_first();
        let t2 = o2.drop_first();
        assert forall|x: Seq<char>| t1.contains(x) <==> t2.contains(x) by {
            if t1.contains(x) {
                let p = choose|p: int| 0 <= p < t1.len() && t1[p] == x;
                assert(o1[p + 1] == x);
                assert(o1.contains(x));
                let q = choose|q: int| 0 <= q < o2.len() && o2[q] == x;
                assert(q != 0);
                assert(t2[q - 1] == x);
            }
            if t2.contains(x) {
                let p = choose|p: int| 0 <= p < t2.len() && t2[p] == x;
                assert(o2[p + 1] == x);
                assert(o2.contains(x));
                let q = choose|q: int| 0 <= q < o1.len() && o1[q] == x;
                assert(q != 0);
                assert(t1[q - 1] == x);
            }
        }
        assert forall|p: int, q: int| 0 <= p < q < t1.len() implies crate::text::chars_le(#[trigger] t1[p], #[trigger] t1[q]) by {
            assert(t1[p] == o1[p + 1] && t1[q] == o1[q + 1]);
        }
        assert forall|p: int, q: int| 0 <= p < q < t2.len() implies crate::text::chars_le(#[trigger] t2[p], #[trigger] t2[q]) by {
            assert(t2[p] == o2[p + 1] && t2[q] == o2[q + 1]);
        }
        assert forall|p: int, q: int| 0 <= p < q < t1.len() implies #[trigger] t1[p] != #[trigger] t1[q] by {
            assert(t1[p] == o1[p + 1] && t1[q] == o1[q + 1]);
        }
        assert forall|p: int, q: int| 0 <= p < q < t2.len() implies #[trigger] t2[p] != #[trigger] t2[q] by {
            assert(t2[p] == o2[p + 1] && t2[q] == o2[q + 1]);
        }
        lemma_sorted_strings_unique(t1, t2);
        assert(o1 =~= seq![o1[0]] + t1);
        assert(o2 =~= seq![o2[0]] + t2);
    }
}

/// Two ascending, repetition-free lists of the same byte strings are the same list.
proof fn lemma_sorted_bytes_unique(o1: Seq<Seq<u8>>, o2: Seq<Seq<u8>>)
    requires
        bytes_sorted(o1),
        bytes_sorted(o2),
        forall|p: int, q: int| 0 <= p < q < o1.len() ==> #[trigger] o1[p] != #[trigger] o1[q],
        forall|p: int, q: int| 0 <= p < q < o2.len() ==> #[trigger] o2[p] != #[trigger] o2[q],
        forall|x: Seq<u8>| o1.contains(x) <==> o2.contains(x),
    ensures
        o1 == o2,
    decreases o1.len(),
{
    if o1.len() == 0 {
        if o2.len() > 0 {
            assert(o2.contains(o2[0]));
        }
        assert(o1 =~= o2);
    } else {
        assert(o1.contains(o1[0]));
        let j = choose|j: int| 0 <= j < o2.len() && o2[j] == o1[0];
        assert(o2.contains(o2[0]));
        let i = choose|i: int| 0 <= i < o1.len() && o1[i] == o2[0];
        if i > 0 && j > 0 {
            assert(bytes_le(o1[0], o1[i]));
            assert(bytes_le(o2[0], o2[j]));
            lemma_bytes_le_antisymmetric(o1[0], o2[0]);
        }
        assert(o1[0] == o2[0]);
        let t1 = o1.drop_first();
        let t2 = o2.drop_first();
        assert forall|x: Seq<u8>| t1.contains(x) <==> t2.contains(x) by {
            if t1.contains(x) {
                let p = choose|p: int| 0 <= p < t1.len() && t1[p] == x;
                assert(o1[p + 1] == x);
                assert(o1.contains(x));
                let q = choose|q: int| 0 <= q < o2.len() && o2[q] == x;
                assert(q != 0);
                assert(t2[q - 1] == x);
            }
            if t2.contains(x) {
                let p = choose|p: int| 0 <= p < t2.len() && t2[p] == x;
                assert(o2[p + 1] == x);
                assert(o2.contains(x));
                let q = choose|q: int| 0 <= q < o1.len() && o1[q] == x;
                assert(q != 0);
                assert(t1[q - 1] == x);
            }
        }
        assert forall|p: int, q: int| 0 <= p < q < t1.len() implies bytes_le(#[trigger] t1[p], #[trigger] t1[q]) by {
            assert(t1[p] == o1[p + 1] && t1[q] == o1[q + 1]);
        }
        assert forall|p: int, q: int| 0 <= p < q < t2.len() implies bytes_le(#[trigger] t2[p], #[trigger] t2[q]) by {
            assert(t2[p] == o2[p + 1] && t2[q] == o2[q + 1]);
        }
        assert forall|p: int, q: int| 0 <= p < q < t1.len() implies #[trigger] t1[p] != #[trigger] t1[q] by {
            assert(t1[p] == o1[p + 1] && t1[q] == o1[q + 1]);
        }
        assert forall|p: int, q: int| 0 <= p < q < t2.len() implies #[trigger] t2[p] != #[trigger] t2[q] by {
            assert(t2[p] == o2[p + 1] && t2[q] == o2[q + 1]);
        }
        lemma_sorted_bytes_unique(t1, t2);
        assert(o1 =~= seq![o1[0]] + t1);
        assert(o2 =~= seq![o2[0]] + t2);
    }
}

/// Merging is commutative. Resolving a conflict by a merge strategy gives the same
/// merged payload whichever side is local.
pub proof fn lemma_merge_commutes(
    r1: Resolution,
    r2: Resolution,
    strategy: ConflictStrategy,
    record_type: Seq<char>,
    a: Seq<u8>,
    b: Seq<u8>,
    va: VersionVector,
    vb: VersionVector,
    na: NodeIdentity,
    nb: NodeIdentity,
)
    requires
        strategy == ConflictStrategy::ServiceMerge || strategy == ConflictStrategy::AdditiveMerge,
        resolution_is(r1, strategy, record_type, a, b, va, vb, na, nb),
        resolution_is(r2, strategy, record_type, b, a, vb, va, nb, na),
    ensures
        r1 matches Resolution::Merged(x) && r2 matches Resolution::Merged(y) && x@ == y@,
{
    if strategy == ConflictStrategy::ServiceMerge {
        if record_type == "LeaveBalance"@ {
            assert(balance_of(a) + balance_of(b) == balance_of(b) + balance_of(a));
        } else {
            let o1 = choose|out: Seq<Seq<char>>| sorted_union_of_strings(out, listed_strings(a), listed_strings(b))
                && r1->Merged_0@ == #[trigger] json_string_array(out);
            let o2 = choose|out: Seq<Seq<char>>| sorted_union_of_strings(out, listed_strings(b), listed_strings(a))
                && r2->Merged_0@ == #[trigger] json_string_array(out);
            lemma_sorted_strings_unique(o1, o2);
        }
    } else {
        let o1 = choose|out: Seq<Seq<u8>>| sorted_union_of_bytes(out, set_elements(a), set_elements(b))
            && r1->Merged_0@ == #[trigger] json_byte_set_member("elements"@, out);
        let o2 = choose|out: Seq<Seq<u8>>| sorted_union_of_bytes(out, set_elements(b), set_elements(a))
            && r2->Merged_0@ == #[trigger] json_byte_set_member("elements"@, out);
        lemma_sorted_bytes_unique(o1, o2);
    }
}

} // verus!

verus! {

/// The payload a resolution keeps: the local or remote one, or the merged one; none for
/// an escalation.
pub open spec fn kept_payload(r: Resolution, local: Seq<u8>, remote: Seq<u8>) -> Option<Seq<u8>> {
    match r {
        Resolution::AcceptLocal => Some(local),
        Resolution::AcceptRemote => Some(remote),
        Resolution::Merged(m) => Some(m@),
        Resolution::Escalated(_) => None,
    }
}

/// When the two versions differ in timestamp (last writer wins) or in authority (by
/// authority), both sides keep the same payload whichever of them resolves the conflict.
pub proof fn lemma_both_sides_agree(
    r1: Resolution,
    r2: Resolution,
    strategy: ConflictStrategy,
    record_type: Seq<char>,
    a: Seq<u8>,
    b: Seq<u8>,
    va: VersionVector,
    vb: VersionVector,
    na: NodeIdentity,
    nb: NodeIdentity,
)
    requires
        strategy == ConflictStrategy::Lww ==> va.local_timestamp != vb.local_timestamp,
        strategy == ConflictStrategy::MinistryAuthor ==> tier_rank_of(na.node_type) != tier_rank_of(nb.node_type),
        strategy != ConflictStrategy::Manual,
        resolution_is(r1, strategy, record_type, a, b, va, vb, na, nb),
        resolution_is(r2, strategy, record_type, b, a, vb, va, nb, na),
    ensures
        kept_payload(r1, a, b) == kept_payload(r2, b, a),
        kept_payload(r1, a, b) is Some,
{
    if strategy == ConflictStrategy::ServiceMerge || strategy == ConflictStrategy::AdditiveMerge {
        lemma_merge_commutes(r1, r2, strategy, record_type, a, b, va, vb, na, nb);
    }
}

} // verus!
