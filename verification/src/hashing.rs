//! Content hashing for deduplication.
//!
//! Adjacent hourly captures overlap, so every payload is hashed and a line
//! whose payload hash was already seen is dropped. Any stable 64-bit hash of
//! the payload bytes serves; this is the 64-bit FNV-1a function.

use vstd::prelude::*;

use vstd::string::StrSliceExecFns;
use vstd::string::StringSliceAdditionalSpecFns;
use vstd::wrapping::u64_specs;

verus! {

pub const FNV_OFFSET_BASIS: u64 = 0xcbf2_9ce4_8422_2325;

pub const FNV_PRIME: u64 = 0x0000_0100_0000_01b3;

/// FNV-1a folded over `bs`, starting from state `h`.
pub open spec fn fnv1a_from(h: u64, bs: Seq<u8>) -> u64
    decreases bs.len(),
{
    if bs.len() == 0 {
        h
    } else {
        fnv1a_from(u64_specs::wrapping_mul(h ^ (bs[0] as u64), FNV_PRIME), bs.drop_first())
    }
}

/// The 64-bit FNV-1a hash of a byte sequence.
pub open spec fn fnv1a(bs: Seq<u8>) -> u64 {
    fnv1a_from(FNV_OFFSET_BASIS, bs)
}

/// The dedup hash of a payload: FNV-1a over its UTF-8 bytes.
pub open spec fn content_hash(s: Seq<char>) -> u64 {
    fnv1a(vstd::utf8::encode_utf8(s))
}

/// Hash a payload for the dedup index.
pub fn hash_content(s: &str) -> (r: u64)
    ensures
        r == content_hash(s@),
{
    let bs = s.as_bytes_vec();
    let n = bs.len();
    let mut h: u64 = FNV_OFFSET_BASIS;
    let mut i: usize = 0;
    proof {
        assert(bs@.skip(0) =~= bs@);
    }
    while i < n
        invariant
            n == bs@.len(),
            bs@ == s.spec_bytes(),
            i <= n,
            fnv1a(s.spec_bytes()) == fnv1a_from(h, bs@.skip(i as int)),
        decreases n - i,
    {
        let ghost pre = bs@.skip(i as int);
        h = (h ^ (bs[i] as u64)).wrapping_mul(FNV_PRIME);
        proof {
            assert(bs@.skip(i as int + 1) =~= pre.drop_first());
        }
        i = i + 1;
    }
    proof {
        assert(bs@.skip(n as int) =~= Seq::<u8>::empty());
    }
    h
}

} // verus!
