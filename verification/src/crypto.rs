//! Digests and encodings: SHA-256, lowercase hexadecimal and little-endian integers.
use vstd::prelude::*;

verus! {

/// The SHA-256 digest of a byte sequence.
pub uninterp spec fn sha256_digest(data: Seq<u8>) -> Seq<u8>;

/// The SHA-256 digest of `data`.
///
/// Calls `sha2::Sha256::digest`; the digest is a function of the input bytes alone and
/// is 32 bytes long. Nothing else is stated of its value.
#[verifier::external_body]
pub(crate) fn sha256(data: &[u8]) -> (r: Vec<u8>)
    ensures
        r@ == sha256_digest(data@),
        r@.len() == 32,
{
    <sha2::Sha256 as sha2::Digest>::digest(data).to_vec()
}

/// The lowercase hexadecimal character of a digit below sixteen.
pub open spec fn hex_digit(d: u8) -> char {
    if d < 10 { (48 + d) as char } else { (87 + d) as char }
}

/// The lowercase hexadecimal encoding of bytes: two characters per byte, high half first.
pub open spec fn hex_text(bytes: Seq<u8>) -> Seq<char>
    decreases bytes.len(),
{
    if bytes.len() == 0 {
        Seq::<char>::empty()
    } else {
        hex_text(bytes.drop_last()) + seq![hex_digit(bytes.last() / 16), hex_digit(bytes.last() % 16)]
    }
}

/// The lowercase hexadecimal encoding of `data`.
///
/// Calls `hex::encode`, which writes two lowercase digits per byte, high half first.
#[verifier::external_body]
pub(crate) fn hex_encode(data: &[u8]) -> (r: String)
    ensures
        r@ == hex_text(data@),
{
    hex::encode(data)
}

/// The eight little-endian bytes of a 64-bit value.
pub open spec fn le_bytes64(n: u64) -> Seq<u8> {
    Seq::new(8, |i: int| ((n as nat / pow256(i as nat)) % 256) as u8)
}

/// 256 to the power `i`.
pub open spec fn pow256(i: nat) -> nat
    decreases i,
{
    if i == 0 { 1 } else { 256 * pow256((i - 1) as nat) }
}

/// Dividing by 256 once more moves to the next power.
pub(crate) proof fn lemma_next_power(n: nat, i: nat)
    ensures
        (n / pow256(i)) / 256 == n / pow256(i + 1),
        pow256(i) > 0,
    decreases i,
{
    if i > 0 {
        lemma_next_power(n, (i - 1) as nat);
    }
    assert(pow256(i + 1) == 256 * pow256(i));
    vstd::arithmetic::div_mod::lemma_div_denominator(n as int, pow256(i) as int, 256);
    assert(pow256(i) * 256 == 256 * pow256(i)) by (nonlinear_arith);
}

/// The eight little-endian bytes of `n`.
pub(crate) fn u64_le(n: u64) -> (r: Vec<u8>)
    ensures
        r@ == le_bytes64(n),
{
    let mut out: Vec<u8> = Vec::new();
    let mut x: u64 = n;
    proof {
        assert(pow256(0) == 1);
        assert(n as nat / 1 == n as nat);
    }
    for i in 0..8usize
        invariant
            out@.len() == i,
            x as nat == n as nat / pow256(i as nat),
            forall|k: int| 0 <= k < i ==> #[trigger] out@[k] == le_bytes64(n)[k],
    {
        proof {
            lemma_next_power(n as nat, i as nat);
        }
        out.push((x % 256) as u8);
        x = x / 256;
    }
    proof {
        assert(out@ =~= le_bytes64(n));
    }
    out
}

/// Whether two byte vectors are equal.
pub fn bytes_eq(a: &[u8], b: &[u8]) -> (r: bool)
    ensures
        r == (a@ == b@),
{
    if a.len() != b.len() {
        return false;
    }
    let n = a.len();
    for i in 0..n
        invariant
            n == a@.len(),
            n == b@.len(),
            forall|j: int| 0 <= j < i ==> a@[j] == b@[j],
    {
        if a[i] != b[i] {
            return false;
        }
    }
    assert(a@ =~= b@);
    true
}

/// The concatenation of byte slices.
pub fn concat_bytes(a: &[u8], b: &[u8]) -> (r: Vec<u8>)
    ensures
        r@ == a@ + b@,
{
    let mut r: Vec<u8> = Vec::new();
    let n = a.len();
    for i in 0..n
        invariant
            n == a@.len(),
            r@ == a@.take(i as int),
    {
        r.push(a[i]);
        assert(r@ =~= a@.take(i + 1));
    }
    let m = b.len();
    for i in 0..m
        invariant
            m == b@.len(),
            r@ == a@.take(n as int) + b@.take(i as int),
    {
        r.push(b[i]);
        assert(r@ =~= a@.take(n as int) + b@.take(i + 1));
    }
    assert(a@.take(n as int) =~= a@);
    assert(b@.take(m as int) =~= b@);
    r
}

} // verus!

verus! {

/// Lexicographic order on byte strings.
pub open spec fn bytes_le(a: Seq<u8>, b: Seq<u8>) -> bool
    decreases a.len(),
{
    if a.len() == 0 {
        true
    } else if b.len() == 0 {
        false
    } else if a[0] != b[0] {
        a[0] < b[0]
    } else {
        bytes_le(a.drop_first(), b.drop_first())
    }
}

/// The views of a list of byte strings.
pub open spec fn byte_strings(v: Seq<Vec<u8>>) -> Seq<Seq<u8>> {
    v.map_values(|b: Vec<u8>| b@)
}

/// The byte strings are in ascending lexicographic order.
pub open spec fn bytes_sorted(s: Seq<Seq<u8>>) -> bool {
    forall|i: int, j: int| 0 <= i < j < s.len() ==> bytes_le(#[trigger] s[i], #[trigger] s[j])
}

/// Sorts `v` in ascending lexicographic order.
///
/// Calls `slice::sort` on byte vectors, which `Ord` orders lexicographically.
#[verifier::external_body]
pub(crate) fn sort_byte_strings(v: &mut Vec<Vec<u8>>)
    ensures
        byte_strings(final(v)@).to_multiset() == byte_strings(old(v)@).to_multiset(),
        final(v)@.len() == old(v)@.len(),
        bytes_sorted(byte_strings(final(v)@)),
{
    v.sort();
}

} // verus!

verus! {

/// A new vector with the bytes of `v`.
pub fn bytes_of(v: &[u8]) -> (r: Vec<u8>)
    ensures
        r@ == v@,
{
    let mut r: Vec<u8> = Vec::new();
    let n = v.len();
    for i in 0..n
        invariant
            n == v@.len(),
            r@ == v@.take(i as int),
    {
        r.push(v[i]);
        assert(r@ =~= v@.take(i + 1));
    }
    assert(v@.take(n as int) =~= v@);
    r
}

} // verus!

verus! {

/// A new vector with the first `n` bytes of `v`.
pub fn prefix_bytes(v: &[u8], n: usize) -> (r: Vec<u8>)
    requires
        n <= v@.len(),
    ensures
        r@ == v@.take(n as int),
{
    let mut r: Vec<u8> = Vec::new();
    for i in 0..n
        invariant
            n <= v@.len(),
            r@ == v@.take(i as int),
    {
        r.push(v[i]);
        assert(r@ =~= v@.take(i + 1));
    }
    r
}

} // verus!
