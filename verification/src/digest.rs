//! SHA3-512 digests and lower-case hex encoding.

use sha3::Digest;
use vstd::prelude::*;

verus! {

/// The SHA3-512 digest of `data`.
///
/// The digest itself is computed by the `sha3` crate; this name stands for
/// its result, which depends on the input bytes alone.
pub uninterp spec fn sha3_512(data: Seq<u8>) -> Seq<u8>;

/// The sixteen lower-case hex digits, by value.
pub open spec fn hex_digits() -> Seq<char> {
    seq!['0', '1', '2', '3', '4', '5', '6', '7', '8', '9', 'a', 'b', 'c', 'd', 'e', 'f']
}

/// Lower-case hex encoding: two digits per byte, high nibble first.
pub open spec fn hex_lower(data: Seq<u8>) -> Seq<char> {
    Seq::new(
        2 * data.len(),
        |i: int|
            if i % 2 == 0 {
                hex_digits()[data[i / 2] as int / 16]
            } else {
                hex_digits()[data[i / 2] as int % 16]
            },
    )
}

/// Trusted: calls `Sha3_512::digest` of the `sha3` crate and copies the
/// output into a vector. The contract names the result and gives its
/// length: the output of SHA3-512 has 64 bytes.
#[verifier::external_body]
pub(crate) fn sha3_512_digest(data: &[u8]) -> (out: Vec<u8>)
    ensures
        out@ == sha3_512(data@),
        out@.len() == 64,
{
    sha3::Sha3_512::digest(data).to_vec()
}

/// Trusted: calls `hex::encode`, which writes each byte as two digits from
/// the table `0123456789abcdef`, high nibble first.
#[verifier::external_body]
pub(crate) fn hex_encode(data: &[u8]) -> (text: String)
    ensures
        text@ == hex_lower(data@),
{
    hex::encode(data)
}

/// Hex text of the SHA3-512 digest of `data`.
pub open spec fn digest_hex(data: Seq<u8>) -> Seq<char> {
    hex_lower(sha3_512(data))
}

/// Hashes `data` with SHA3-512 and returns the digest as lower-case hex.
pub fn sha3_512_hex(data: &[u8]) -> (text: String)
    ensures
        text@ == digest_hex(data@),
        text@.len() == 128,
{
    let raw = sha3_512_digest(data);
    hex_encode(raw.as_slice())
}

/// Hex texts tell byte strings apart: two byte strings with the same
/// hex text are the same byte string.
pub proof fn lemma_hex_tells_apart(a: Seq<u8>, b: Seq<u8>)
    requires
        hex_lower(a) == hex_lower(b),
    ensures
        a == b,
{
    assert(hex_lower(a).len() == 2 * a.len() && hex_lower(b).len() == 2 * b.len());
    assert forall|i: int| 0 <= i < a.len() implies a[i] == b[i] by {
        let (x, y) = (a[i] as int, b[i] as int);
        assert(hex_lower(a)[2 * i] == hex_digits()[x / 16]);
        assert(hex_lower(b)[2 * i] == hex_digits()[y / 16]);
        assert(hex_lower(a)[2 * i + 1] == hex_digits()[x % 16]);
        assert(hex_lower(b)[2 * i + 1] == hex_digits()[y % 16]);
        assert(forall|p: int, q: int|
            0 <= p < 16 && 0 <= q < 16 && #[trigger] hex_digits()[p] == #[trigger] hex_digits()[q]
                ==> p == q);
        assert(x / 16 == y / 16 && x % 16 == y % 16);
    }
    assert(a =~= b);
}

/// Two inputs have different hash texts exactly where their digests differ.
pub proof fn lemma_hash_texts_differ(a: Seq<u8>, b: Seq<u8>)
    ensures
        digest_hex(a) != digest_hex(b) <==> sha3_512(a) != sha3_512(b),
{
    if digest_hex(a) == digest_hex(b) {
        lemma_hex_tells_apart(sha3_512(a), sha3_512(b));
    }
}

} // verus!
