//! Perceptual-hash arithmetic: 64-bit signatures, Hamming distance and the
//! hexadecimal reading of content hashes.
use vstd::prelude::*;

verus! {

use vstd::arithmetic::power2::pow2;
use vstd::arithmetic::power2::lemma_pow2_unfold;
use vstd::arithmetic::power2::lemma2_to64;
use vstd::string::StringSliceAdditionalSpecFns;

/// Number of set bits in the binary writing of `x`.
pub open spec fn pop_count(x: int) -> nat
    decreases x,
{
    if x <= 0 {
        0
    } else {
        ((x % 2) + pop_count(x / 2)) as nat
    }
}

/// Hamming distance between two 64-bit signatures: the number of bit
/// positions where they differ.
pub open spec fn spec_distance(a: u64, b: u64) -> nat {
    pop_count((a ^ b) as int)
}

proof fn lemma_pop_count_bound(x: int, n: nat)
    requires
        0 <= x < pow2(n),
    ensures
        pop_count(x) <= n,
    decreases n,
{
    if x > 0 {
        if n == 0 {
            assert(pow2(0) == 1) by {
                vstd::arithmetic::power2::lemma_pow2(0);
                vstd::arithmetic::power::lemma_pow0(2);
            }
        } else {
            lemma_pow2_unfold(n);
            lemma_pop_count_bound(x / 2, (n - 1) as nat);
        }
    }
}

/// Hamming distance of two 64-bit perceptual hashes.
pub fn distance(l_hash: u64, r_hash: u64) -> (r: u32)
    ensures
        r == spec_distance(l_hash, r_hash),
        r <= 64,
{
    let x: u64 = l_hash ^ r_hash;
    proof {
        lemma2_to64();
        lemma_pop_count_bound(x as int, 64);
    }
    let mut cur: u64 = x;
    let mut count: u32 = 0;
    while cur > 0
        invariant
            count + pop_count(cur as int) == pop_count(x as int),
            pop_count(x as int) <= 64,
        decreases cur,
    {
        count = count + (cur % 2) as u32;
        cur = cur / 2;
    }
    count
}

/// A hash is at distance zero from itself.
pub proof fn lemma_distance_self_zero(p: u64)
    ensures
        spec_distance(p, p) == 0,
{
    assert(p ^ p == 0) by (bit_vector);
}

/// Hamming distance does not depend on the order of its arguments.
pub proof fn lemma_distance_symmetric(a: u64, b: u64)
    ensures
        spec_distance(a, b) == spec_distance(b, a),
{
    assert(a ^ b == b ^ a) by (bit_vector);
}

/// Distance zero only between identical hashes.
pub proof fn lemma_distance_zero_only_self(a: u64, b: u64)
    requires
        spec_distance(a, b) == 0,
    ensures
        a == b,
{
    lemma_pop_count_zero((a ^ b) as int);
    assert(a ^ b == 0 ==> a == b) by (bit_vector);
}

proof fn lemma_pop_count_zero(x: int)
    requires
        0 <= x,
        pop_count(x) == 0,
    ensures
        x == 0,
    decreases x,
{
    if x > 0 {
        if x % 2 == 0 {
            lemma_pop_count_zero(x / 2);
        }
    }
}

/// Bit `k` (counting from the least significant end) is set in `h`.
pub open spec fn bit_set(h: u64, k: u64) -> bool {
    (h >> k) & 1 == 1
}

proof fn lemma_or_sets_bit(h: u64, s: u64)
    requires
        s < 64,
    ensures
        bit_set(h | (1u64 << s), s),
{
    assert(((h | (1u64 << s)) >> s) & 1 == 1) by (bit_vector)
        requires
            s < 64,
    ;
}

proof fn lemma_or_keeps_other_bits(h: u64, s: u64, k: u64)
    requires
        s < 64,
        k < 64,
        k != s,
    ensures
        bit_set(h | (1u64 << s), k) == bit_set(h, k),
{
    assert(((h | (1u64 << s)) >> k) & 1 == (h >> k) & 1) by (bit_vector)
        requires
            s < 64 && k < 64 && k != s,
    ;
}

proof fn lemma_zero_has_no_bits(k: u64)
    ensures
        !bit_set(0u64, k),
{
    assert((0u64 >> k) & 1 == 0) by (bit_vector);
}

/// The difference hash of a 9-wide, 8-high luma grid: scanning the grid
/// row-wise, position `j` compares a pixel with its right neighbour, and the
/// comparison lands in bit `63 - j` of the signature. Computing it twice on
/// the same grid gives the same signature, as corpus building requires.
pub fn difference_hash(pixels: &Vec<Vec<u8>>) -> (hash: u64)
    requires
        pixels@.len() == 8,
        forall|y: int| 0 <= y < 8 ==> (#[trigger] pixels@[y])@.len() == 9,
    ensures
        forall|j: int|
            0 <= j < 64 ==> (bit_set(hash, (63 - j) as u64) <==> (#[trigger] pixels@[j / 8])@[j % 8]
                > pixels@[j / 8]@[j % 8 + 1]),
{
    let mut hash: u64 = 0;
    let mut j: usize = 0;
    proof {
        assert(forall|k: u64| !bit_set(0u64, k)) by {
            assert forall|k: u64| !bit_set(0u64, k) by {
                lemma_zero_has_no_bits(k);
            }
        }
    }
    while j < 64
        invariant
            pixels@.len() == 8,
            forall|y: int| 0 <= y < 8 ==> (#[trigger] pixels@[y])@.len() == 9,
            j <= 64,
            forall|t: int|
                0 <= t < j ==> (bit_set(hash, (63 - t) as u64) <==> (#[trigger] pixels@[t / 8])@[t
                    % 8] > pixels@[t / 8]@[t % 8 + 1]),
            forall|k: u64| k <= 63 - j ==> !bit_set(hash, k),
        decreases 64 - j,
    {
        let y = j / 8;
        let x = j % 8;
        let row = &pixels[y];
        let old_hash: Ghost<u64> = Ghost(hash);
        if row[x] > row[x + 1] {
            let shift = (63 - j) as u64;
            hash = hash | (1u64 << shift);
            proof {
                lemma_or_sets_bit(old_hash@, shift);
                assert forall|t: int| 0 <= t < j implies (#[trigger] bit_set(
                    hash,
                    (63 - t) as u64,
                ) == bit_set(old_hash@, (63 - t) as u64)) by {
                    lemma_or_keeps_other_bits(old_hash@, shift, (63 - t) as u64);
                }
                assert forall|k: u64| k <= 63 - (j + 1) implies !bit_set(hash, k) by {
                    lemma_or_keeps_other_bits(old_hash@, shift, k);
                }
            }
        } else {
            proof {
                assert(!bit_set(hash, (63 - j) as u64));
            }
        }
        j = j + 1;
    }
    hash
}

/// Why reading a hexadecimal number can fail, mirroring the standard
/// integer-parsing error kinds.
#[derive(Debug, Clone, Copy, PartialEq, Eq, Structural)]
pub enum HexParseError {
    Empty,
    InvalidDigit,
    Overflow,
}

/// The byte is an ASCII hexadecimal digit.
pub open spec fn is_hex_digit(b: u8) -> bool {
    (48 <= b && b <= 57) || (97 <= b && b <= 102) || (65 <= b && b <= 70)
}

/// Numeric value of one hexadecimal digit byte.
pub open spec fn hex_digit_value(b: u8) -> int {
    if 48 <= b && b <= 57 {
        b - 48
    } else if 97 <= b && b <= 102 {
        b - 87
    } else {
        b - 55
    }
}

/// Every byte is a hexadecimal digit.
pub open spec fn all_hex_digits(s: Seq<u8>) -> bool {
    forall|i: int| 0 <= i < s.len() ==> is_hex_digit(#[trigger] s[i])
}

/// The number written in `s`, read as base-16, most significant digit first.
pub open spec fn hex_value(s: Seq<u8>) -> int
    decreases s.len(),
{
    if s.len() == 0 {
        0
    } else {
        hex_value(s.drop_last()) * 16 + hex_digit_value(s.last())
    }
}

proof fn lemma_hex_value_nonneg(s: Seq<u8>)
    requires
        all_hex_digits(s),
    ensures
        hex_value(s) >= 0,
    decreases s.len(),
{
    if s.len() > 0 {
        assert(all_hex_digits(s.drop_last()));
        lemma_hex_value_nonneg(s.drop_last());
    }
}

proof fn lemma_hex_value_prefix_monotone(s: Seq<u8>, i: int)
    requires
        all_hex_digits(s),
        0 <= i <= s.len(),
    ensures
        hex_value(s) >= hex_value(s.subrange(0, i)),
    decreases s.len() - i,
{
    if i < s.len() {
        let t = s.subrange(0, i + 1);
        assert(t.drop_last() =~= s.subrange(0, i));
        assert(all_hex_digits(t.drop_last()));
        lemma_hex_value_nonneg(s.subrange(0, i));
        lemma_hex_value_prefix_monotone(s, i + 1);
        assert(hex_value(t) == hex_value(s.subrange(0, i)) * 16 + hex_digit_value(t.last()));
    } else {
        assert(s.subrange(0, i) =~= s);
    }
}

/// Reads a 64-bit number written in hexadecimal, as stored perceptual
/// hashes sometimes are. Exactly the digit forms `0`..`9`, `a`..`f` and
/// `A`..`F` are accepted; the empty string, any other character and any
/// value above `u64::MAX` are rejected, each with its own error.
pub fn hex_to_u64(hex: &str) -> (r: Result<u64, HexParseError>)
    ensures
        (r matches Ok(v) ==> hex.spec_bytes().len() > 0 && all_hex_digits(hex.spec_bytes())
            && v == hex_value(hex.spec_bytes())),
        r == Err::<u64, HexParseError>(HexParseError::Empty) <==> hex.spec_bytes().len() == 0,
        r == Err::<u64, HexParseError>(HexParseError::InvalidDigit) <==> (hex.spec_bytes().len()
            > 0 && !all_hex_digits(hex.spec_bytes())),
        r == Err::<u64, HexParseError>(HexParseError::Overflow) <==> (hex.spec_bytes().len() > 0
            && all_hex_digits(hex.spec_bytes()) && hex_value(hex.spec_bytes()) > u64::MAX),
{
    let bytes = hex.as_bytes();
    if bytes.len() == 0 {
        return Err(HexParseError::Empty);
    }
    let mut acc: u64 = 0;
    let mut overflowed: bool = false;
    let mut i: usize = 0;
    while i < bytes.len()
        invariant
            bytes@ == hex.spec_bytes(),
            0 < bytes@.len(),
            i <= bytes@.len(),
            all_hex_digits(bytes@.subrange(0, i as int)),
            !overflowed ==> acc == hex_value(bytes@.subrange(0, i as int)),
            overflowed ==> hex_value(bytes@.subrange(0, i as int)) > u64::MAX,
        decreases bytes@.len() - i,
    {
        let b = bytes[i];
        let d: u64;
        if 48 <= b && b <= 57 {
            d = (b - 48) as u64;
        } else if 97 <= b && b <= 102 {
            d = (b - 87) as u64;
        } else if 65 <= b && b <= 70 {
            d = (b - 55) as u64;
        } else {
            proof {
                assert(bytes@.subrange(0, bytes@.len() as int) =~= bytes@);
            }
            return Err(HexParseError::InvalidDigit);
        }
        proof {
            assert(bytes@.subrange(0, i + 1).drop_last() =~= bytes@.subrange(0, i as int));
            lemma_hex_value_nonneg(bytes@.subrange(0, i as int));
        }
        if overflowed {
        } else if acc > (u64::MAX - d) / 16 {
            overflowed = true;
            proof {
                assert(hex_value(bytes@.subrange(0, i + 1)) == acc * 16 + d);
                assert(acc > (u64::MAX - d) / 16 ==> acc * 16 + d > u64::MAX) by (nonlinear_arith);
            }
        } else {
            proof {
                assert(acc <= (u64::MAX - d) / 16 ==> acc * 16 + d <= u64::MAX) by (nonlinear_arith);
            }
            acc = acc * 16 + d;
        }
        i = i + 1;
    }
    proof {
        assert(bytes@.subrange(0, bytes@.len() as int) =~= bytes@);
    }
    if overflowed {
        return Err(HexParseError::Overflow);
    }
    Ok(acc)
}

} // verus!
