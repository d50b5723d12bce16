//! Text helpers: comparisons of string slices, message assembly and decimal rendering.
use vstd::prelude::*;
use vstd::string::StrSliceExecFns;

verus! {

/// `p` is a prefix of `s`.
pub open spec fn is_prefix_of(p: Seq<char>, s: Seq<char>) -> bool {
    p.len() <= s.len() && s.subrange(0, p.len() as int) == p
}

/// `p` occurs in `s` as a contiguous run of characters.
pub open spec fn occurs_in(p: Seq<char>, s: Seq<char>) -> bool {
    exists|i: int| 0 <= i && i + p.len() <= s.len() && #[trigger] s.subrange(i, i + p.len()) == p
}

/// The character of a decimal digit.
pub open spec fn digit_char(d: nat) -> char {
    (48 + d) as char
}

/// The decimal rendering of a natural number, most significant digit first.
pub open spec fn decimal(n: nat) -> Seq<char>
    decreases n,
{
    if n < 10 {
        seq![digit_char(n)]
    } else {
        decimal(n / 10).push(digit_char(n % 10))
    }
}

/// Whether two string slices hold the same characters.
///
/// Calls `<str as PartialEq>::eq`, which compares the two slices character by character.
#[verifier::external_body]
pub(crate) fn str_eq(a: &str, b: &str) -> (r: bool)
    ensures
        r == (a@ == b@),
{
    a == b
}

/// Whether `s` begins with `p`.
///
/// Calls `str::starts_with` with a string-slice pattern.
#[verifier::external_body]
pub(crate) fn str_starts_with(s: &str, p: &str) -> (r: bool)
    ensures
        r == is_prefix_of(p@, s@),
{
    s.starts_with(p)
}

/// Whether `p` occurs in `s`.
///
/// Calls `str::contains` with a string-slice pattern.
#[verifier::external_body]
pub(crate) fn str_contains(s: &str, p: &str) -> (r: bool)
    ensures
        r == occurs_in(p@, s@),
{
    s.contains(p)
}

/// The decimal rendering of `n`.
pub(crate) fn u128_text(n: u128) -> (r: String)
    ensures
        r@ == decimal(n as nat),
    decreases n,
{
    let d = hex_digit((n % 10) as u8);
    proof {
        assert(hex_char((n % 10) as nat) == digit_char((n % 10) as nat));
    }
    if n < 10 {
        owned(d)
    } else {
        let head = u128_text(n / 10);
        cat2(head.as_str(), d)
    }
}

/// The decimal rendering of `n`.
pub(crate) fn u64_text(n: u64) -> (r: String)
    ensures
        r@ == decimal(n as nat),
{
    u128_text(n as u128)
}

/// A new string holding `a` followed by `b`.
pub fn cat2(a: &str, b: &str) -> (r: String)
    ensures
        r@ == a@ + b@,
{
    let mut s = String::from_str(a);
    s.append(b);
    s
}

/// A new string holding `a`, `b` and `c` in that order.
pub fn cat3(a: &str, b: &str, c: &str) -> (r: String)
    ensures
        r@ == a@ + b@ + c@,
{
    let mut s = String::from_str(a);
    s.append(b);
    s.append(c);
    s
}

/// A new string holding the four parts in order.
pub fn cat4(a: &str, b: &str, c: &str, d: &str) -> (r: String)
    ensures
        r@ == a@ + b@ + c@ + d@,
{
    let mut s = String::from_str(a);
    s.append(b);
    s.append(c);
    s.append(d);
    s
}

/// A new string holding the five parts in order.
pub fn cat5(a: &str, b: &str, c: &str, d: &str, e: &str) -> (r: String)
    ensures
        r@ == a@ + b@ + c@ + d@ + e@,
{
    let mut s = String::from_str(a);
    s.append(b);
    s.append(c);
    s.append(d);
    s.append(e);
    s
}

/// A new string holding the six parts in order.
pub fn cat6(a: &str, b: &str, c: &str, d: &str, e: &str, f: &str) -> (r: String)
    ensures
        r@ == a@ + b@ + c@ + d@ + e@ + f@,
{
    let mut s = String::from_str(a);
    s.append(b);
    s.append(c);
    s.append(d);
    s.append(e);
    s.append(f);
    s
}

/// A new string holding the seven parts in order.
pub fn cat7(a: &str, b: &str, c: &str, d: &str, e: &str, f: &str, g: &str) -> (r: String)
    ensures
        r@ == a@ + b@ + c@ + d@ + e@ + f@ + g@,
{
    let mut s = String::from_str(a);
    s.append(b);
    s.append(c);
    s.append(d);
    s.append(e);
    s.append(f);
    s.append(g);
    s
}

/// A new string with the characters of `s`.
pub fn owned(s: &str) -> (r: String)
    ensures
        r@ == s@,
{
    String::from_str(s)
}

} // verus!

verus! {

/// The character sequences of a sequence of strings.
pub open spec fn strs_view(v: Seq<String>) -> Seq<Seq<char>> {
    v.map_values(|s: String| s@)
}

/// The character sequences of a sequence of string pairs.
pub open spec fn pairs_view(v: Seq<(String, String)>) -> Seq<(Seq<char>, Seq<char>)> {
    v.map_values(|p: (String, String)| (p.0@, p.1@))
}

/// Whether `key` equals one of the strings in `list`.
pub open spec fn lists(list: Seq<String>, key: Seq<char>) -> bool {
    exists|i: int| 0 <= i < list.len() && (#[trigger] list[i])@ == key
}

/// Whether some string of `list` equals `key`.
pub fn list_contains(list: &Vec<String>, key: &str) -> (r: bool)
    ensures
        r == lists(list@, key@),
{
    let n = list.len();
    for i in 0..n
        invariant
            n == list@.len(),
            forall|j: int| 0 <= j < i ==> (#[trigger] list@[j])@ != key@,
    {
        if str_eq(list[i].as_str(), key) {
            return true;
        }
    }
    false
}

} // verus!

verus! {

/// Sixteen to the power `n`.
pub open spec fn pow16(n: nat) -> nat
    decreases n,
{
    if n == 0 { 1 } else { 16 * pow16((n - 1) as nat) }
}

/// The lowercase hexadecimal character of a digit below sixteen.
pub open spec fn hex_char(d: nat) -> char {
    if d < 10 { (48 + d) as char } else { (87 + d) as char }
}

/// The `k`-th hexadecimal digit of a 128-bit value, counting from the most significant.
pub open spec fn nibble(id: u128, k: nat) -> nat {
    ((id as nat) / pow16((31 - k) as nat)) % 16
}

/// The digit position shown at character `i` of the hyphenated form.
pub open spec fn uuid_digit_index(i: int) -> nat {
    if i < 8 { i as nat } else if i < 13 { (i - 1) as nat } else if i < 18 { (i - 2) as nat } else if i < 23 { (i - 3) as nat } else { (i - 4) as nat }
}

/// The hyphenated lowercase form of a 128-bit identifier: 32 hexadecimal digits in
/// groups of 8, 4, 4, 4 and 12.
pub open spec fn uuid_text(id: u128) -> Seq<char> {
    Seq::new(36, |i: int| if i == 8 || i == 13 || i == 18 || i == 23 { '-' } else { hex_char(nibble(id, uuid_digit_index(i))) })
}

/// The hyphenated form of identifier `id`.
///
/// Calls `uuid::Uuid::from_u128(id).to_string()`; the crate documents the `Display` form
/// as the lowercase hyphenated form.
#[verifier::external_body]
pub(crate) fn id_text(id: u128) -> (r: String)
    ensures
        r@ == uuid_text(id),
{
    uuid::Uuid::from_u128(id).to_string()
}

} // verus!

verus! {

/// Lexicographic order on character sequences, by code point.
pub open spec fn chars_le(a: Seq<char>, b: Seq<char>) -> bool
    decreases a.len(),
{
    if a.len() == 0 {
        true
    } else if b.len() == 0 {
        false
    } else if a[0] != b[0] {
        (a[0] as u32) < (b[0] as u32)
    } else {
        chars_le(a.drop_first(), b.drop_first())
    }
}

/// The sequence is in ascending lexicographic order.
pub open spec fn chars_sorted(s: Seq<Seq<char>>) -> bool {
    forall|i: int, j: int| 0 <= i < j < s.len() ==> chars_le(#[trigger] s[i], #[trigger] s[j])
}

/// Sorts `v` in ascending order.
///
/// Calls `slice::sort` on strings, which orders them lexicographically by their UTF-8
/// bytes; that is the order of their characters by code point.
#[verifier::external_body]
pub(crate) fn sort_strings(v: &mut Vec<String>)
    ensures
        strs_view(final(v)@).to_multiset() == strs_view(old(v)@).to_multiset(),
        final(v)@.len() == old(v)@.len(),
        chars_sorted(strs_view(final(v)@)),
{
    v.sort();
}

/// A copy of a list of strings.
pub fn clone_strings(v: &Vec<String>) -> (r: Vec<String>)
    ensures
        r@ == v@,
{
    let mut r: Vec<String> = Vec::new();
    let n = v.len();
    for i in 0..n
        invariant
            n == v@.len(),
            r@ == v@.take(i as int),
    {
        r.push(v[i].clone());
        assert(r@ =~= v@.take(i + 1));
    }
    assert(v@.take(n as int) =~= v@);
    r
}

} // verus!

verus! {

/// The UTC rendering of an instant given in milliseconds since the Unix epoch, as chrono
/// writes a `DateTime<Utc>` for display.
pub uninterp spec fn utc_text(millis: i64) -> Seq<char>;

/// The UTC rendering of the instant `millis` milliseconds after the Unix epoch.
///
/// Calls `chrono::DateTime::from_timestamp_millis` and the date-time's `to_string`. chrono
/// represents every instant from the start of the year -262143 to the end of the year
/// 262142, which are the bounds required here; the rendering depends on the instant
/// alone (always UTC). Its characters are not stated here.
#[verifier::external_body]
pub(crate) fn utc_timestamp_text(millis: i64) -> (r: String)
    requires
        -8_334_601_315_200_000 <= millis <= 8_210_266_876_799_999,
    ensures
        r@ == utc_text(millis),
{
    match chrono::DateTime::from_timestamp_millis(millis) {
        Some(d) => d.to_string(),
        None => String::new(),
    }
}

} // verus!

verus! {

/// The lowercase form of a string, as Rust's `str::to_lowercase` maps it by the Unicode
/// lowercase mapping.
pub uninterp spec fn lowercase_of(s: Seq<char>) -> Seq<char>;

/// The lowercase form of `s`.
///
/// Calls `str::to_lowercase`, whose result depends on the characters of `s` alone; the
/// Unicode case mapping it applies is not written out here.
#[verifier::external_body]
pub(crate) fn to_lowercase(s: &str) -> (r: String)
    ensures
        r@ == lowercase_of(s@),
{
    s.to_lowercase()
}

} // verus!

verus! {

/// Whether some string of the slice `list` equals `key`.
pub fn slice_lists(list: &[String], key: &str) -> (r: bool)
    ensures
        r == lists(list@, key@),
{
    let n = list.len();
    for i in 0..n
        invariant
            n == list@.len(),
            forall|j: int| 0 <= j < i ==> (#[trigger] list@[j])@ != key@,
    {
        if str_eq(list[i].as_str(), key) {
            return true;
        }
    }
    false
}

} // verus!

verus! {

/// The part of `s` after its last `/`, or all of `s` when it holds none.
pub open spec fn last_segment(s: Seq<char>) -> Seq<char>
    decreases s.len(),
{
    if s.len() == 0 {
        s
    } else if s.last() == '/' {
        Seq::empty()
    } else {
        last_segment(s.drop_last()).push(s.last())
    }
}

/// The part of `path` after its last `/`, or all of it when it holds none.
pub(crate) fn last_path_segment(path: &str) -> (r: String)
    ensures
        r@ == last_segment(path@),
{
    let n = path.unicode_len();
    let mut i = n;
    proof {
        assert(path@.take(n as int) =~= path@);
        assert(last_segment(path@) + path@.subrange(n as int, n as int) =~= last_segment(path@));
    }
    while i > 0 && path.get_char(i - 1) != '/'
        invariant
            i <= n,
            n == path@.len(),
            last_segment(path@) == last_segment(path@.take(i as int)) + path@.subrange(i as int, n as int),
        decreases i,
    {
        proof {
            let t = path@.take(i as int);
            assert(t.drop_last() =~= path@.take(i - 1));
            assert(t.last() == path@[i - 1]);
            assert(path@.subrange(i - 1, n as int) =~= seq![path@[i - 1]] + path@.subrange(i as int, n as int));
            assert(last_segment(path@.take(i - 1)).push(path@[i - 1]) + path@.subrange(i as int, n as int)
                =~= last_segment(path@.take(i - 1)) + path@.subrange(i - 1, n as int));
        }
        i = i - 1;
    }
    proof {
        if i > 0 {
            assert(path@.take(i as int).last() == path@[i - 1]);
        }
        assert(last_segment(path@.take(i as int)) =~= Seq::<char>::empty());
        assert(last_segment(path@) =~= path@.subrange(i as int, n as int));
    }
    owned(path.substring_char(i, n))
}

} // verus!

verus! {

/// A sequence is a prefix of itself followed by anything.
pub proof fn lemma_prefix_of_concat(a: Seq<char>, b: Seq<char>)
    ensures
        is_prefix_of(a, a + b),
{
    assert((a + b).subrange(0, a.len() as int) =~= a);
}

} // verus!

verus! {

/// The debug rendering of a list of strings: each string quoted with its special
/// characters escaped, separated by ", ", between square brackets.
pub uninterp spec fn debug_list(items: Seq<Seq<char>>) -> Seq<char>;

/// The debug rendering of `items`.
///
/// Calls `format!("{:?}", items)`; the rendering depends on the strings alone. How the
/// characters of each string are escaped is not written out here.
#[verifier::external_body]
pub(crate) fn debug_list_text(items: &[String]) -> (r: String)
    ensures
        r@ == debug_list(strs_view(items@)),
{
    format!("{:?}", items)
}

} // verus!

verus! {

/// Byte `b` in lowercase hexadecimal without leading zeros.
pub open spec fn hex_byte(b: u8) -> Seq<char> {
    if b < 16 {
        seq![hex_char(b as nat)]
    } else {
        seq![hex_char((b / 16) as nat), hex_char((b % 16) as nat)]
    }
}

/// The bytes of `bytes` in lowercase hexadecimal, separated by ", ".
pub open spec fn hex_items(bytes: Seq<u8>) -> Seq<char>
    decreases bytes.len(),
{
    if bytes.len() == 0 {
        Seq::empty()
    } else if bytes.len() == 1 {
        hex_byte(bytes[0])
    } else {
        hex_items(bytes.drop_last()) + seq![',', ' '] + hex_byte(bytes.last())
    }
}

/// The lowercase-hex debug rendering of a byte list, as `format!("{:x?}", bytes)` writes
/// it: each byte in hex without leading zeros, separated by ", ", between square brackets.
pub open spec fn hex_debug_text(bytes: Seq<u8>) -> Seq<char> {
    seq!['['] + hex_items(bytes) + seq![']']
}

/// The hexadecimal digit `d` as a one-character string.
fn hex_digit(d: u8) -> (r: &'static str)
    requires
        d < 16,
    ensures
        r@ == seq![hex_char(d as nat)],
{
    proof {
        reveal_strlit("0"); reveal_strlit("1"); reveal_strlit("2"); reveal_strlit("3");
        reveal_strlit("4"); reveal_strlit("5"); reveal_strlit("6"); reveal_strlit("7");
        reveal_strlit("8"); reveal_strlit("9"); reveal_strlit("a"); reveal_strlit("b");
        reveal_strlit("c"); reveal_strlit("d"); reveal_strlit("e"); reveal_strlit("f");
    }
    match d {
        0 => "0",
        1 => "1",
        2 => "2",
        3 => "3",
        4 => "4",
        5 => "5",
        6 => "6",
        7 => "7",
        8 => "8",
        9 => "9",
        10 => "a",
        11 => "b",
        12 => "c",
        13 => "d",
        14 => "e",
        _ => "f",
    }
}

/// The lowercase-hex debug rendering of `bytes`.
pub(crate) fn hex_debug(bytes: &[u8]) -> (r: String)
    ensures
        r@ == hex_debug_text(bytes@),
{
    proof {
        reveal_strlit("[");
        reveal_strlit("]");
        reveal_strlit(", ");
    }
    let mut s = String::from_str("[");
    let n = bytes.len();
    for i in 0..n
        invariant
            n == bytes@.len(),
            s@ == seq!['['] + hex_items(bytes@.take(i as int)),
    {
        let ghost before = s@;
        if i > 0 {
            s.append(", ");
        }
        let ghost sep = s@;
        let b = bytes[i];
        if b >= 16 {
            s.append(hex_digit(b / 16));
        }
        s.append(hex_digit(b % 16));
        proof {
            let t = bytes@.take(i + 1);
            assert(t.drop_last() =~= bytes@.take(i as int));
            assert(t.last() == b);
            assert(s@ =~= sep + hex_byte(b));
            if i == 0 {
                assert(t =~= seq![b]);
                assert(s@ =~= seq!['['] + hex_items(t));
            } else {
                reveal_strlit(", ");
                assert(sep =~= before + seq![',', ' ']);
                assert(hex_items(t) == hex_items(bytes@.take(i as int)) + seq![',', ' '] + hex_byte(b));
                assert(s@ =~= seq!['['] + hex_items(t));
            }
        }
    }
    proof {
        assert(bytes@.take(n as int) =~= bytes@);
    }
    s.append("]");
    s
}

} // verus!

verus! {

/// The debug rendering of a string: the string quoted, with its special characters
/// escaped.
pub uninterp spec fn debug_str(s: Seq<char>) -> Seq<char>;

/// The debug rendering of `s`.
///
/// Calls `format!("{:?}", s)`, whose output depends on the characters of `s` alone. How
/// characters are escaped is not written out here.
#[verifier::external_body]
pub(crate) fn debug_string(s: &str) -> (r: String)
    ensures
        r@ == debug_str(s@),
{
    format!("{:?}", s)
}

} // verus!
