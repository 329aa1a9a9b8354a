//! SHA-256 digests in lower-case hexadecimal.

use sha2::Digest;
use vstd::prelude::*;
use vstd::utf8::encode_utf8;

verus! {

/// The SHA-256 digest of some bytes.
pub uninterp spec fn sha256(bytes: Seq<u8>) -> Seq<u8>;

/// `sha2::Sha256::digest`: the 32 bytes of the digest, which depend on the bytes alone.
#[verifier::external_body]
fn sha256_digest(bytes: &[u8]) -> (r: Vec<u8>)
    ensures
        r@ == sha256(bytes@),
        r@.len() == 32,
{
    sha2::Sha256::digest(bytes).to_vec()
}

/// The lower-case hexadecimal digit of a number below sixteen.
pub open spec fn hex_digit(n: u8) -> char {
    if n < 10 {
        ((48 + n) as u8) as char
    } else {
        ((87 + n) as u8) as char
    }
}

/// Two hexadecimal digits for each byte, the high one first.
pub open spec fn hex_text(bytes: Seq<u8>) -> Seq<char> {
    Seq::new(
        2 * bytes.len(),
        |i: int|
            hex_digit(
                if i % 2 == 0 {
                    bytes[i / 2] / 16
                } else {
                    bytes[i / 2] % 16
                },
            ),
    )
}

/// `hex::encode`: two lower-case digits for each byte.
#[verifier::external_body]
fn hex_encode(bytes: &[u8]) -> (r: String)
    ensures
        r@ == hex_text(bytes@),
{
    hex::encode(bytes)
}

/// The digest of some bytes, written in hexadecimal.
pub open spec fn sha256_text(bytes: Seq<u8>) -> Seq<char> {
    hex_text(sha256(bytes))
}

/// Whether a character is a hexadecimal digit of either case.
pub open spec fn is_hex(c: char) -> bool {
    ('0' <= c && c <= '9') || ('a' <= c && c <= 'f') || ('A' <= c && c <= 'F')
}

/// Whether a text has the form of a digest: sixty-four hexadecimal digits.
pub open spec fn digest_form(s: Seq<char>) -> bool {
    s.len() == 64 && forall|i: int| 0 <= i < s.len() ==> is_hex(#[trigger] s[i])
}

/// Thirty-two bytes in hexadecimal have the form of a digest.
pub proof fn lemma_hex_text_form(bytes: Seq<u8>)
    requires
        bytes.len() == 32,
    ensures
        digest_form(hex_text(bytes)),
{
    assert forall|i: int| 0 <= i < 64 implies is_hex(#[trigger] hex_text(bytes)[i]) by {
        let n: u8 = if i % 2 == 0 {
            bytes[i / 2] / 16
        } else {
            bytes[i / 2] % 16
        };
        assert(n < 16);
    }
}

/// Digests some bytes.
pub fn sha256_hex(bytes: &[u8]) -> (r: String)
    ensures
        r@ == sha256_text(bytes@),
        digest_form(r@),
{
    let digest = sha256_digest(bytes);
    proof {
        lemma_hex_text_form(digest@);
    }
    hex_encode(digest.as_slice())
}

/// Digests the UTF-8 bytes of a text.
pub fn sha256_hex_of_text(text: &str) -> (r: String)
    ensures
        r@ == sha256_text(encode_utf8(text@)),
        digest_form(r@),
{
    sha256_hex(text.as_bytes())
}

} // verus!
