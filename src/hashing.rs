//! SHA-256 digests rendered as lowercase hexadecimal text.

use vstd::prelude::*;
use crate::chain::Chain;
use crate::encoding::Encode;

verus! {

/// Number of bytes in a SHA-256 digest.
pub const DIGEST_LEN: usize = 32;

/// Number of hexadecimal characters in a rendered digest.
pub const HASH_HEX_LEN: usize = 64;

/// The SHA-256 digest of `data`.
pub uninterp spec fn sha256_of(data: Seq<u8>) -> Seq<u8>;

/// Relies on sha2::Sha256::digest: the 32-byte SHA-256 digest of the input,
/// which depends on the input bytes alone.
#[verifier::external_body]
fn sha256(data: &[u8]) -> (r: Vec<u8>)
    ensures
        r@ == sha256_of(data@),
        r@.len() == DIGEST_LEN,
{
    <sha2::Sha256 as sha2::Digest>::digest(data).to_vec()
}

/// The sixteen lowercase hexadecimal digits, in order of value.
pub open spec fn hex_digits() -> Seq<char> {
    seq!['0', '1', '2', '3', '4', '5', '6', '7', '8', '9', 'a', 'b', 'c', 'd', 'e', 'f']
}

/// Each byte as two lowercase hexadecimal digits, high nibble first.
pub open spec fn hex_seq(b: Seq<u8>) -> Seq<char> {
    Seq::new(
        2 * b.len(),
        |i: int|
            if i % 2 == 0 {
                hex_digits()[(b[i / 2] / 16) as int]
            } else {
                hex_digits()[(b[i / 2] % 16) as int]
            },
    )
}

/// The hash of a byte string: its SHA-256 digest in hexadecimal.
pub open spec fn hash_of(data: Seq<u8>) -> Seq<char> {
    hex_seq(sha256_of(data))
}

/// The digit for a value below sixteen, as a one-character string.
fn hex_digit(n: u8) -> (r: &'static str)
    requires
        n < 16,
    ensures
        r@ == seq![hex_digits()[n as int]],
{
    let digits = "0123456789abcdef";
    proof {
        reveal_strlit("0123456789abcdef");
    }
    assert(digits@ =~= hex_digits());
    assert(digits.is_ascii());
    let r = digits.substring_ascii(n as usize, n as usize + 1);
    assert(r@ =~= seq![hex_digits()[n as int]]);
    r
}

impl Chain {
    /// Renders bytes as lowercase hexadecimal, two digits per byte.
    pub fn hex_to_string(vec_res: &[u8]) -> (s: String)
        ensures
            s@ == hex_seq(vec_res@),
    {
        let mut s = String::new();
        let mut i: usize = 0;
        while i < vec_res.len()
            invariant
                i <= vec_res@.len(),
                s@ == hex_seq(vec_res@.subrange(0, i as int)),
            decreases vec_res@.len() - i,
        {
            let b = vec_res[i];
            s.append(hex_digit(b / 16));
            s.append(hex_digit(b % 16));
            i = i + 1;
            assert(s@ =~= hex_seq(vec_res@.subrange(0, i as int)));
        }
        assert(vec_res@.subrange(0, i as int) =~= vec_res@);
        s
    }

    /// The hash of a record: the SHA-256 digest of its canonical encoding, in hexadecimal.
    pub fn hash<T: Encode>(item: &T) -> (s: String)
        ensures
            s@ == hash_of(item.encoding()),
            s@.len() == HASH_HEX_LEN,
    {
        let bytes = item.encode();
        let d = sha256(bytes.as_slice());
        Chain::hex_to_string(d.as_slice())
    }
}

} // verus!
