//! Deterministic content hashing of declaration text.
//!
//! Every generated symbol and every metadata entry is keyed by a 64-bit
//! hash of the declaration text it was generated from, so that identical
//! declarations collide deliberately (idempotent re-registration) while
//! distinct declarations are expected to differ (a collision between two
//! different declarations is a hard generation error, detected by the
//! pass, never silently tolerated).

use vstd::prelude::*;

verus! {

/// Initial state of the hash (the Fowler–Noll–Vo offset basis).
pub const HASH_BASIS: u64 = 0xcbf29ce484222325;

/// Multiplier folded in after each character (the Fowler–Noll–Vo prime).
pub const HASH_PRIME: u64 = 0x100000001b3;

/// One step of the hash: fold character `c` into state `h`.
pub open spec fn hash_step(h: u64, c: char) -> u64 {
    vstd::wrapping::u64_specs::wrapping_mul(h ^ (c as u64), HASH_PRIME)
}

/// Hash of a character sequence: the basis folded over every character in
/// order. A pure function of the text alone, so byte-identical declaration
/// text always yields the same hash.
pub open spec fn content_hash(s: Seq<char>) -> u64
    decreases s.len(),
{
    if s.len() == 0 {
        HASH_BASIS
    } else {
        hash_step(content_hash(s.drop_last()), s.last())
    }
}

/// Computes the content hash of `s`.
pub fn hash_str(s: &str) -> (h: u64)
    ensures
        h == content_hash(s@),
{
    let n = s.unicode_len();
    let mut h: u64 = HASH_BASIS;
    let mut i: usize = 0;
    while i < n
        invariant
            i <= n,
            n == s@.len(),
            h == content_hash(s@.take(i as int)),
        decreases n - i,
    {
        let c = s.get_char(i);
        h = (h ^ (c as u64)).wrapping_mul(HASH_PRIME);
        i = i + 1;
        proof {
            assert(s@.take(i as int).drop_last() =~= s@.take(i - 1));
            assert(s@.take(i as int).last() == s@[i - 1]);
        }
    }
    proof {
        assert(s@.take(n as int) =~= s@);
    }
    h
}

/// Two byte-identical declaration texts always carry the same content hash:
/// the hash is a pure function of the text.
pub proof fn lemma_hash_deterministic(s1: Seq<char>, s2: Seq<char>)
    requires
        s1 == s2,
    ensures
        content_hash(s1) == content_hash(s2),
{
}

} // verus!
