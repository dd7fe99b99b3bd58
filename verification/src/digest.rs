//! Content-hash fingerprints: MD5 and SHA-1 digests of a file's bytes,
//! rendered as lowercase hexadecimal strings for the corpus files.
use vstd::prelude::*;

use sha1::Digest;

verus! {

/// The 16-byte MD5 digest of a byte sequence.
pub uninterp spec fn md5_of(data: Seq<u8>) -> Seq<u8>;

/// The 20-byte SHA-1 digest of a byte sequence.
pub uninterp spec fn sha1_of(data: Seq<u8>) -> Seq<u8>;

/// Lowercase hexadecimal digit for a value below 16.
pub open spec fn hex_digit_char(n: u8) -> char {
    if n < 10 {
        (n + 48) as char
    } else {
        (n + 87) as char
    }
}

/// Lowercase hexadecimal writing of a byte sequence: two digits per byte,
/// high nibble first.
pub open spec fn hex_of(data: Seq<u8>) -> Seq<char> {
    Seq::new(
        data.len() * 2,
        |i: int|
            if i % 2 == 0 {
                hex_digit_char(data[i / 2] / 16)
            } else {
                hex_digit_char(data[i / 2] % 16)
            },
    )
}

/// Relies on md5::compute: the digest is 16 bytes and depends on the input
/// bytes alone.
#[verifier::external_body]
fn md5_digest(data: &[u8]) -> (r: Vec<u8>)
    ensures
        r@ == md5_of(data@),
        r@.len() == 16,
{
    md5::compute(data).0.to_vec()
}

/// Relies on sha1::Sha1::digest: the digest is 20 bytes and depends on the
/// input bytes alone.
#[verifier::external_body]
fn sha1_digest(data: &[u8]) -> (r: Vec<u8>)
    ensures
        r@ == sha1_of(data@),
        r@.len() == 20,
{
    sha1::Sha1::digest(data).to_vec()
}

/// Relies on hex::encode: the result writes each byte as two lowercase
/// hexadecimal digits, in order.
#[verifier::external_body]
fn hex_encode(data: &[u8]) -> (r: String)
    ensures
        r@ == hex_of(data@),
{
    hex::encode(data)
}

/// MD5 content hash of a file's bytes as the corpus stores it: 32 lowercase
/// hexadecimal characters.
pub fn md5_hex(data: &[u8]) -> (r: String)
    ensures
        r@ == hex_of(md5_of(data@)),
        r@.len() == 32,
{
    let digest = md5_digest(data);
    hex_encode(digest.as_slice())
}

/// SHA-1 content hash of a file's bytes: 40 lowercase hexadecimal
/// characters.
pub fn sha1_hex(data: &[u8]) -> (r: String)
    ensures
        r@ == hex_of(sha1_of(data@)),
        r@.len() == 40,
{
    let digest = sha1_digest(data);
    hex_encode(digest.as_slice())
}

/// A hexadecimal writing never holds an uppercase letter, so case folding
/// leaves it unchanged.
pub proof fn lemma_hex_of_ascii_no_upper(data: Seq<u8>)
    ensures
        crate::text::ascii_no_upper(hex_of(data)),
{
    assert forall|i: int| 0 <= i < hex_of(data).len() implies (hex_of(data)[i] as u32) < 128 && !(
    65 <= (hex_of(data)[i] as u32) && (hex_of(data)[i] as u32) <= 90) by {
        let b = if i % 2 == 0 {
            data[i / 2] / 16
        } else {
            data[i / 2] % 16
        };
        assert(b < 16);
        assert(hex_of(data)[i] == hex_digit_char(b));
    }
}

} // verus!
