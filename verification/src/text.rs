//! Byte-level text utilities shared by the repository and the persistence
//! layer: case folding, equality, substring search, blank detection and
//! decimal parsing.
//!
//! Strings are compared through their UTF-8 encodings (`encode_utf8` of the
//! character view). Since UTF-8 is self-synchronizing, byte-level substring
//! search agrees with the usual notion of one string occurring inside
//! another.
use vstd::prelude::*;

verus! {

use vstd::string::StringSliceAdditionalSpecFns;
use vstd::utf8::encode_utf8;
use vstd::utf8::decode_utf8;

/// The character sequence `str::to_lowercase` produces; it depends on the
/// input characters alone.
pub uninterp spec fn lower_of(s: Seq<char>) -> Seq<char>;

/// ASCII lowercasing of one character: `A`..`Z` get their lowercase form,
/// everything else is unchanged.
pub open spec fn ascii_lower_char(c: char) -> char {
    if 65 <= (c as u32) && (c as u32) <= 90 {
        (((c as u8) + 32) as u8) as char
    } else {
        c
    }
}

/// Pointwise ASCII lowercasing of a character sequence.
pub open spec fn ascii_lower_chars(s: Seq<char>) -> Seq<char> {
    s.map_values(|c: char| ascii_lower_char(c))
}

/// `v` and `h` spell the same ASCII text up to letter case.
pub open spec fn ascii_case_variant(v: Seq<char>, h: Seq<char>) -> bool {
    &&& vstd::utf8::is_ascii_chars(v)
    &&& vstd::utf8::is_ascii_chars(h)
    &&& ascii_lower_chars(v) == ascii_lower_chars(h)
}

/// Every character is ASCII and none is an uppercase letter, so that case
/// folding leaves the sequence unchanged.
pub open spec fn ascii_no_upper(s: Seq<char>) -> bool {
    forall|i: int|
        0 <= i < s.len() ==> (s[i] as u32) < 128 && !(65 <= (s[i] as u32) && (s[i] as u32) <= 90)
}

/// ASCII lowercasing leaves a sequence without uppercase letters as it is.
pub proof fn lemma_ascii_no_upper_fixed(s: Seq<char>)
    requires
        ascii_no_upper(s),
    ensures
        ascii_lower_chars(s) == s,
{
    assert(ascii_lower_chars(s) =~= s);
}

/// Relies on `str::to_lowercase`: the result is a function of the input
/// characters alone, and on an ASCII string it is exactly the pointwise
/// ASCII lowercasing.
#[verifier::external_body]
pub fn lowercase(s: &str) -> (r: String)
    ensures
        r@ == lower_of(s@),
        vstd::utf8::is_ascii_chars(s@) ==> r@ == ascii_lower_chars(s@),
{
    s.to_lowercase()
}

/// Equal UTF-8 encodings come from equal character sequences.
pub proof fn lemma_encode_utf8_injective(a: Seq<char>, b: Seq<char>)
    requires
        encode_utf8(a) == encode_utf8(b),
    ensures
        a == b,
{
    broadcast use vstd::utf8::encode_utf8_decode_utf8;

    assert(decode_utf8(encode_utf8(a)) == a);
    assert(decode_utf8(encode_utf8(b)) == b);
}

/// Exact byte-for-byte equality of two slices.
pub fn bytes_eq(a: &[u8], b: &[u8]) -> (r: bool)
    ensures
        r == (a@ == b@),
{
    if a.len() != b.len() {
        return false;
    }
    let mut i: usize = 0;
    while i < a.len()
        invariant
            a@.len() == b@.len(),
            i <= a@.len(),
            forall|j: int| 0 <= j < i ==> a@[j] == b@[j],
        decreases a@.len() - i,
    {
        if a[i] != b[i] {
            return false;
        }
        i = i + 1;
    }
    proof {
        assert(a@ =~= b@);
    }
    true
}

/// Character-for-character equality of two string slices.
pub fn str_eq(a: &str, b: &str) -> (r: bool)
    ensures
        r == (a@ == b@),
{
    let r = bytes_eq(a.as_bytes(), b.as_bytes());
    proof {
        if a.spec_bytes() == b.spec_bytes() {
            lemma_encode_utf8_injective(a@, b@);
        }
    }
    r
}

/// `sub` occurs contiguously inside `s`.
pub open spec fn is_byte_substr(sub: Seq<u8>, s: Seq<u8>) -> bool {
    exists|i: int| 0 <= i && i + sub.len() <= s.len() && #[trigger] s.subrange(i, i + sub.len()) == sub
}

/// `sub` occurs inside `s`, compared through the UTF-8 encodings of both.
pub open spec fn is_substr(sub: Seq<char>, s: Seq<char>) -> bool {
    is_byte_substr(encode_utf8(sub), encode_utf8(s))
}

/// `needle` matches `hay` at position `at`.
fn bytes_match_at(hay: &[u8], needle: &[u8], at: usize) -> (r: bool)
    requires
        at + needle@.len() <= hay@.len(),
    ensures
        r == (hay@.subrange(at as int, at + needle@.len()) == needle@),
{
    let mut j: usize = 0;
    let hlen = hay.len();
    while j < needle.len()
        invariant
            at + needle@.len() <= hay@.len(),
            hlen == hay@.len(),
            j <= needle@.len(),
            forall|k: int| 0 <= k < j ==> hay@[at + k] == needle@[k],
        decreases needle@.len() - j,
    {
        if hay[at + j] != needle[j] {
            proof {
                assert(hay@.subrange(at as int, at + needle@.len())[j as int] != needle@[j as int]);
            }
            return false;
        }
        j = j + 1;
    }
    proof {
        assert(hay@.subrange(at as int, at + needle@.len()) =~= needle@);
    }
    true
}

/// Byte-level substring search.
pub fn contains_bytes(hay: &[u8], needle: &[u8]) -> (r: bool)
    ensures
        r == is_byte_substr(needle@, hay@),
{
    if needle.len() > hay.len() {
        return false;
    }
    if needle.len() == 0 {
        proof {
            assert(hay@.subrange(0, 0 + needle@.len() as int) =~= needle@);
        }
        return true;
    }
    let mut i: usize = 0;
    let last = hay.len() - needle.len();
    let hlen = hay.len();
    while i <= last
        invariant
            1 <= needle@.len() <= hay@.len(),
            hlen == hay@.len(),
            last == hay@.len() - needle@.len(),
            i <= last + 1,
            forall|p: int|
                0 <= p < i ==> #[trigger] hay@.subrange(p, p + needle@.len()) != needle@,
        decreases last + 1 - i,
    {
        if bytes_match_at(hay, needle, i) {
            return true;
        }
        i = i + 1;
    }
    false
}

/// Substring search on string slices, through their UTF-8 encodings.
pub fn contains_str(hay: &str, needle: &str) -> (r: bool)
    ensures
        r == is_substr(needle@, hay@),
{
    contains_bytes(hay.as_bytes(), needle.as_bytes())
}

/// The byte is an ASCII decimal digit.
pub open spec fn is_dec_digit(b: u8) -> bool {
    48 <= b && b <= 57
}

/// Every byte is a decimal digit.
pub open spec fn all_dec_digits(s: Seq<u8>) -> bool {
    forall|i: int| 0 <= i < s.len() ==> is_dec_digit(#[trigger] s[i])
}

/// The number written in `s`, read as base-10, most significant digit
/// first.
pub open spec fn dec_value(s: Seq<u8>) -> int
    decreases s.len(),
{
    if s.len() == 0 {
        0
    } else {
        dec_value(s.drop_last()) * 10 + (s.last() - 48)
    }
}

/// `s` spells a decimal number that fits in 64 bits: nonempty, digits
/// only, value within range.
pub open spec fn spells_u64(s: Seq<u8>) -> bool {
    s.len() > 0 && all_dec_digits(s) && dec_value(s) <= u64::MAX
}

proof fn lemma_dec_value_nonneg(s: Seq<u8>)
    requires
        all_dec_digits(s),
    ensures
        dec_value(s) >= 0,
    decreases s.len(),
{
    if s.len() > 0 {
        assert(all_dec_digits(s.drop_last()));
        lemma_dec_value_nonneg(s.drop_last());
    }
}

/// Reads a line as an unsigned 64-bit decimal number; exactly the strings
/// of digits whose value fits are accepted.
pub fn parse_u64_dec(s: &str) -> (r: Option<u64>)
    ensures
        r is Some <==> spells_u64(s.spec_bytes()),
        r matches Some(v) ==> v == dec_value(s.spec_bytes()),
{
    let bytes = s.as_bytes();
    if bytes.len() == 0 {
        return None;
    }
    let mut acc: u64 = 0;
    let mut i: usize = 0;
    while i < bytes.len()
        invariant
            bytes@ == s.spec_bytes(),
            0 < bytes@.len(),
            i <= bytes@.len(),
            all_dec_digits(bytes@.subrange(0, i as int)),
            acc == dec_value(bytes@.subrange(0, i as int)),
        decreases bytes@.len() - i,
    {
        let b = bytes[i];
        if !(48 <= b && b <= 57) {
            proof {
                assert(bytes@.subrange(0, bytes@.len() as int) =~= bytes@);
            }
            return None;
        }
        let d = (b - 48) as u64;
        proof {
            assert(bytes@.subrange(0, i + 1).drop_last() =~= bytes@.subrange(0, i as int));
            lemma_dec_value_nonneg(bytes@.subrange(0, i as int));
        }
        if acc > (u64::MAX - d) / 10 {
            proof {
                assert(acc > (u64::MAX - d) / 10 ==> acc * 10 + d > u64::MAX) by (nonlinear_arith);
                let t = bytes@.subrange(0, i + 1);
                assert(t.last() == bytes@[i as int]);
                assert(all_dec_digits(t)) by {
                    assert(forall|k: int| 0 <= k < i ==> t[k] == bytes@.subrange(0, i as int)[k]);
                }
                assert(dec_value(t) > u64::MAX);
                lemma_dec_prefix_exceeds(bytes@, i + 1);
            }
            return None;
        }
        proof {
            assert(acc <= (u64::MAX - d) / 10 ==> acc * 10 + d <= u64::MAX) by (nonlinear_arith);
        }
        acc = acc * 10 + d;
        i = i + 1;
    }
    proof {
        assert(bytes@.subrange(0, bytes@.len() as int) =~= bytes@);
    }
    Some(acc)
}

/// Once a digit prefix exceeds the 64-bit range, the whole string does.
proof fn lemma_dec_prefix_exceeds(s: Seq<u8>, i: int)
    requires
        0 <= i <= s.len(),
        all_dec_digits(s.subrange(0, i)),
        dec_value(s.subrange(0, i)) > u64::MAX,
    ensures
        !spells_u64(s),
    decreases s.len() - i,
{
    if i < s.len() {
        if all_dec_digits(s) {
            let t = s.subrange(0, i + 1);
            assert(t.drop_last() =~= s.subrange(0, i));
            assert(all_dec_digits(t.drop_last()));
            assert(is_dec_digit(s[i]));
            assert(dec_value(t) == dec_value(s.subrange(0, i)) * 10 + (s[i] - 48));
            assert(dec_value(t) > u64::MAX);
            assert(all_dec_digits(t)) by {
                assert(forall|k: int| 0 <= k < t.len() ==> t[k] == s[k]);
            }
            lemma_dec_prefix_exceeds(s, i + 1);
        }
    } else {
        assert(s.subrange(0, i) =~= s);
    }
}

/// ASCII whitespace byte: space, tab, line feed, vertical tab, form feed or
/// carriage return.
pub open spec fn is_ws_byte(b: u8) -> bool {
    b == 32 || (9 <= b && b <= 13)
}

/// The sequence holds nothing but ASCII whitespace.
pub open spec fn is_blank_bytes(s: Seq<u8>) -> bool {
    forall|i: int| 0 <= i < s.len() ==> is_ws_byte(#[trigger] s[i])
}

/// The string holds nothing but ASCII whitespace (the rule this library
/// uses for "blank" lines, stated over the UTF-8 encoding).
pub open spec fn is_blank(s: Seq<char>) -> bool {
    is_blank_bytes(encode_utf8(s))
}

/// Blank test for a line of text.
pub fn str_is_blank(s: &str) -> (r: bool)
    ensures
        r == is_blank(s@),
{
    let bytes = s.as_bytes();
    let mut i: usize = 0;
    while i < bytes.len()
        invariant
            i <= bytes@.len(),
            bytes@ == s.spec_bytes(),
            forall|j: int| 0 <= j < i ==> is_ws_byte(#[trigger] bytes@[j]),
        decreases bytes@.len() - i,
    {
        let b = bytes[i];
        if !(b == 32 || (9 <= b && b <= 13)) {
            return false;
        }
        i = i + 1;
    }
    true
}

} // verus!
