//! The proof-of-work search over a header's nonce.

use vstd::prelude::*;
use crate::block::{Header, HeaderView, header_hash};
use crate::chain::Chain;
use crate::hashing::HASH_HEX_LEN;

verus! {

/// The first `d` characters of `hash` exist and are all `'0'`.
pub open spec fn meets_difficulty(hash: Seq<char>, d: u32) -> bool {
    d <= hash.len() && forall|i: int| 0 <= i < d ==> hash[i] == '0'
}

/// A header whose hash meets its own difficulty.
pub open spec fn is_sealed(h: HeaderView) -> bool {
    meets_difficulty(header_hash(h), h.difficulty)
}

/// The header with its nonce replaced.
pub open spec fn with_nonce(h: HeaderView, n: u32) -> HeaderView {
    HeaderView { nonce: n, ..h }
}

/// Whether the first `difficulty` characters of `hash` are all `'0'`.
pub fn has_leading_zeros(hash: &String, difficulty: u32) -> (r: bool)
    ensures
        r == meets_difficulty(hash@, difficulty),
{
    let len = hash.as_str().unicode_len();
    if difficulty as usize > len {
        return false;
    }
    let mut i: usize = 0;
    while i < difficulty as usize
        invariant
            difficulty <= hash@.len(),
            i <= difficulty,
            forall|j: int| 0 <= j < i ==> hash@[j] == '0',
        decreases difficulty - i,
    {
        if hash.as_str().get_char(i) != '0' {
            return false;
        }
        i = i + 1;
    }
    true
}

impl Chain {
    /// Raises the header's nonce, starting from its current value, to the first
    /// one at which the header is sealed. Fails when no nonce up to `u32::MAX`
    /// works; a difficulty above the length of a hash is never met.
    pub fn proof_of_work(header: &mut Header) -> (found: bool)
        ensures
            final(header)@ == with_nonce(old(header)@, final(header).nonce),
            found ==> is_sealed(final(header)@),
            found ==> old(header).nonce <= final(header).nonce,
            found ==> old(header).difficulty <= HASH_HEX_LEN,
            found ==> forall|n: u32|
                old(header).nonce <= n < final(header).nonce ==> !is_sealed(
                    #[trigger] with_nonce(old(header)@, n),
                ),
            !found ==> old(header).difficulty > HASH_HEX_LEN || forall|n: u32|
                old(header).nonce <= n ==> !is_sealed(#[trigger] with_nonce(old(header)@, n)),
    {
        if header.difficulty as usize > HASH_HEX_LEN {
            return false;
        }
        let ghost start = header@;
        loop
            invariant
                header.difficulty as usize <= HASH_HEX_LEN,
                start == old(header)@,
                header@ == with_nonce(start, header.nonce),
                start.nonce <= header.nonce,
                forall|n: u32|
                    start.nonce <= n < header.nonce ==> !is_sealed(
                        #[trigger] with_nonce(start, n),
                    ),
            decreases u32::MAX - header.nonce,
        {
            let hash = Chain::hash::<Header>(&*header);
            if has_leading_zeros(&hash, header.difficulty) {
                return true;
            }
            assert(header@ == with_nonce(start, header.nonce));
            if header.nonce == u32::MAX {
                return false;
            }
            header.nonce = header.nonce + 1;
        }
    }
}

} // verus!
