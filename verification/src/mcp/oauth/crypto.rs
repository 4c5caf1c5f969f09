//! The cryptographic primitives the authorization server relies on:
//! randomness, SHA-256 and URL-safe base64.

use base64::Engine;
use rand::Rng;
use sha2::Digest;
use vstd::prelude::*;

verus! {

/// `n` random bytes, through `rand::thread_rng().fill`. Claimed: exactly `n`
/// bytes come back; their values are random and left unsaid.
#[verifier::external_body]
pub(crate) fn random_bytes(n: usize) -> (v: Vec<u8>)
    ensures
        v@.len() == n,
{
    let mut buf = vec![0u8; n];
    rand::thread_rng().fill(&mut buf[..]);
    buf
}

/// The SHA-256 digest of `data`.
pub uninterp spec fn sha256(data: Seq<u8>) -> Seq<u8>;

/// SHA-256 of `data`, through `sha2::Sha256::digest`. Claimed: the result is
/// the digest of `data` and has 32 bytes.
#[verifier::external_body]
pub(crate) fn sha256_digest(data: &[u8]) -> (d: Vec<u8>)
    ensures
        d@ == sha256(data@),
        d@.len() == 32,
{
    sha2::Sha256::digest(data).to_vec()
}

/// The character of the URL-safe base64 alphabet for the six bits `v`.
pub open spec fn base64url_char(v: nat) -> char {
    if v < 26 {
        (65 + v) as char
    } else if v < 52 {
        (97 + (v - 26)) as char
    } else if v < 62 {
        (48 + (v - 52)) as char
    } else if v == 62 {
        '-'
    } else {
        '_'
    }
}

/// URL-safe base64 without padding (RFC 4648, section 5): each group of three
/// bytes becomes four characters; a final group of one or two bytes becomes
/// two or three.
pub open spec fn base64url_nopad(data: Seq<u8>) -> Seq<char>
    decreases data.len(),
{
    if data.len() == 0 {
        Seq::empty()
    } else if data.len() == 1 {
        seq![base64url_char((data[0] / 4) as nat), base64url_char(((data[0] % 4) * 16) as nat)]
    } else if data.len() == 2 {
        seq![
            base64url_char((data[0] / 4) as nat),
            base64url_char(((data[0] % 4) * 16 + data[1] / 16) as nat),
            base64url_char(((data[1] % 16) * 4) as nat),
        ]
    } else {
        seq![
            base64url_char((data[0] / 4) as nat),
            base64url_char(((data[0] % 4) * 16 + data[1] / 16) as nat),
            base64url_char(((data[1] % 16) * 4 + data[2] / 64) as nat),
            base64url_char((data[2] % 64) as nat),
        ] + base64url_nopad(data.skip(3))
    }
}

/// URL-safe base64 without padding, through
/// `base64::engine::general_purpose::URL_SAFE_NO_PAD.encode`. Claimed: the
/// encoding RFC 4648 defines, as `base64url_nopad` states it.
#[verifier::external_body]
pub(crate) fn base64url_encode(data: &[u8]) -> (s: String)
    ensures
        s@ == base64url_nopad(data@),
{
    base64::engine::general_purpose::URL_SAFE_NO_PAD.encode(data)
}

/// The length of an unpadded base64 encoding: four characters for every
/// three bytes, rounded up.
pub proof fn lemma_base64url_len(data: Seq<u8>)
    ensures
        base64url_nopad(data).len() == (4 * data.len() + 2) / 3,
    decreases data.len(),
{
    if data.len() >= 3 {
        lemma_base64url_len(data.skip(3));
    }
}

/// Whether `t` is the unpadded base64url encoding of some `n` bytes.
pub open spec fn encodes_bytes(t: Seq<char>, n: nat) -> bool {
    exists|b: Seq<u8>| b.len() == n && t == #[trigger] base64url_nopad(b)
}

/// A token of `byte_len` random bytes, base64url-encoded.
pub fn random_token(byte_len: usize) -> (t: String)
    ensures
        encodes_bytes(t@, byte_len as nat),
        t@.len() == (4 * byte_len + 2) / 3,
{
    let bytes = random_bytes(byte_len);
    proof {
        lemma_base64url_len(bytes@);
    }
    base64url_encode(bytes.as_slice())
}

} // verus!
