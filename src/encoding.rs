//! Canonical byte encodings of the records that get hashed.

use vstd::prelude::*;
use vstd::utf8::encode_utf8;

verus! {

/// The little-endian encoding of `n` in `k` bytes (higher bytes are dropped).
pub open spec fn le_bytes(n: nat, k: nat) -> Seq<u8>
    decreases k,
{
    if k == 0 {
        Seq::empty()
    } else {
        seq![(n % 256) as u8] + le_bytes(n / 256, (k - 1) as nat)
    }
}

/// A string as its UTF-8 bytes, preceded by their count in eight bytes.
pub open spec fn framed(s: Seq<char>) -> Seq<u8> {
    le_bytes(encode_utf8(s).len(), 8) + encode_utf8(s)
}

/// Appends the `k` low bytes of `n`, least significant first.
pub fn push_le(out: &mut Vec<u8>, n: u64, k: u64)
    ensures
        final(out)@ == old(out)@ + le_bytes(n as nat, k as nat),
    decreases k,
{
    if k == 0 {
        assert(old(out)@ + le_bytes(n as nat, 0) =~= old(out)@);
    } else {
        let ghost before = out@;
        out.push((n % 256) as u8);
        push_le(out, n / 256, k - 1);
        assert(before + le_bytes(n as nat, k as nat) =~= before.push((n % 256) as u8) + le_bytes(
            (n / 256) as nat,
            (k - 1) as nat,
        ));
    }
}

/// Appends the framed encoding of `s`.
pub fn push_framed(out: &mut Vec<u8>, s: &str)
    ensures
        final(out)@ == old(out)@ + framed(s@),
{
    let bytes = s.as_bytes();
    push_le(out, bytes.len() as u64, 8);
    let ghost mid = out@;
    let mut i: usize = 0;
    while i < bytes.len()
        invariant
            i <= bytes@.len(),
            bytes@ == encode_utf8(s@),
            out@ == mid + bytes@.subrange(0, i as int),
        decreases bytes@.len() - i,
    {
        out.push(bytes[i]);
        i = i + 1;
        assert(out@ =~= mid + bytes@.subrange(0, i as int));
    }
    assert(bytes@.subrange(0, i as int) =~= bytes@);
    assert(out@ =~= old(out)@ + framed(s@));
}

/// A record with a canonical byte encoding: equal values encode to equal bytes.
pub trait Encode {
    spec fn encoding(&self) -> Seq<u8>;

    fn encode(&self) -> (r: Vec<u8>)
        ensures
            r@ == self.encoding(),
    ;
}

impl Encode for String {
    open spec fn encoding(&self) -> Seq<u8> {
        encode_utf8(self@)
    }

    fn encode(&self) -> (r: Vec<u8>) {
        self.as_str().as_bytes_vec()
    }
}

} // verus!
