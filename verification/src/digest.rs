//! SHA-256, as the `sha2` crate computes it, and the short hexadecimal
//! digests built from it.
use vstd::prelude::*;
use crate::fmt::{digit_char, hex_byte, hex_bytes, hex_of};

verus! {

/// The SHA-256 digest of a byte string.
pub uninterp spec fn sha256_digest(data: Seq<u8>) -> Seq<u8>;

/// Calls `sha2::Sha256::digest` (the `Digest` trait of the `digest` crate)
/// on `data` and returns the 32 output bytes. Trusted: the result is the
/// SHA-256 digest of `data`, a function of `data` alone, 32 bytes long.
#[verifier::external_body]
pub(crate) fn sha256(data: &[u8]) -> (r: Vec<u8>)
    ensures
        r@ == sha256_digest(data@),
        r@.len() == 32,
{
    <sha2::Sha256 as sha2::Digest>::digest(data).to_vec()
}

/// Lowercase hexadecimal text of the first `n` bytes of the SHA-256 digest.
pub open spec fn short_digest_hex(data: Seq<u8>, n: nat) -> Seq<char> {
    hex_bytes(sha256_digest(data).take(n as int))
}

/// A lowercase hexadecimal digit.
pub open spec fn is_lower_hex(c: char) -> bool {
    ('0' <= c && c <= '9') || ('a' <= c && c <= 'f')
}

/// `n` lowercase hexadecimal digits.
pub open spec fn lower_hex_text(s: Seq<char>, n: nat) -> bool {
    s.len() == n && forall|i: int| 0 <= i < s.len() ==> is_lower_hex(#[trigger] s[i])
}

/// The hex text of a byte string has two lowercase hex digits per byte.
pub proof fn lemma_hex_bytes_shape(bs: Seq<u8>)
    ensures
        lower_hex_text(hex_bytes(bs), 2 * bs.len()),
    decreases bs.len(),
{
    if bs.len() > 0 {
        lemma_hex_bytes_shape(bs.drop_last());
        let b = bs.last();
        assert(b / 16 < 16 && b % 16 < 16);
        let h = hex_byte(b);
        assert(is_lower_hex(digit_char((b / 16) as nat)));
        assert(is_lower_hex(digit_char((b % 16) as nat)));
        assert(is_lower_hex(h[0]) && is_lower_hex(h[1]));
        let all = hex_bytes(bs);
        let head = hex_bytes(bs.drop_last());
        assert(all == head + h);
        assert forall|i: int| 0 <= i < all.len() implies is_lower_hex(#[trigger] all[i]) by {
            if i < head.len() {
                assert(all[i] == head[i]);
            } else {
                assert(all[i] == h[i - head.len()]);
            }
        }
    }
}

/// Hex text of the first `n` digest bytes of `data` (`n` at most 32): `2n`
/// lowercase hex digits.
pub fn digest_prefix_hex(data: &[u8], n: usize) -> (r: Vec<char>)
    requires
        n <= 32,
    ensures
        r@ == short_digest_hex(data@, n as nat),
        lower_hex_text(r@, 2 * n as nat),
{
    let d = sha256(data);
    let mut head: Vec<u8> = Vec::new();
    let mut i: usize = 0;
    while i < n
        invariant
            n <= 32,
            d@.len() == 32,
            i <= n,
            head@ == d@.take(i as int),
        decreases n - i,
    {
        head.push(d[i]);
        i = i + 1;
        assert(head@ =~= d@.take(i as int));
    }
    proof {
        lemma_hex_bytes_shape(head@);
    }
    hex_of(&head)
}

} // verus!
