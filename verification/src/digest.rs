//! The hash behind bucketing.
use sha2::{Digest, Sha256};
use vstd::prelude::*;

verus! {

/// The SHA-256 digest of `data`.
pub uninterp spec fn sha256(data: Seq<u8>) -> Seq<u8>;

/// Calls `Sha256::digest`, which hashes the whole of `data` in one call. The
/// digest is a function of the bytes alone and is 32 bytes long; what those
/// bytes are is not stated. Believed, not proved.
#[verifier::external_body]
pub(crate) fn sha256_digest(data: &[u8]) -> (digest: Vec<u8>)
    ensures
        digest@ == sha256(data@),
        digest@.len() == 32,
{
    Sha256::digest(data).to_vec()
}

/// The number that `bytes` spell in base 256, most significant byte first.
pub open spec fn big_endian(bytes: Seq<u8>) -> nat
    decreases bytes.len(),
{
    if bytes.len() == 0 {
        0
    } else {
        big_endian(bytes.drop_last()) * 256 + bytes.last() as nat
    }
}

/// Up to seven bytes leave room for one more in a `u64`.
proof fn lemma_seven_bytes_leave_room(bytes: Seq<u8>)
    requires
        bytes.len() <= 7,
    ensures
        big_endian(bytes) <= 0xff_ffff_ffff_ffff,
{
    reveal_with_fuel(big_endian, 8);
}

/// The first eight bytes of a digest, read as a big-endian number.
pub fn leading_u64(digest: &[u8]) -> (number: u64)
    requires
        digest@.len() >= 8,
    ensures
        number == big_endian(digest@.take(8)),
{
    let mut number: u64 = 0;
    let mut i: usize = 0;
    while i < 8
        invariant
            i <= 8,
            digest@.len() >= 8,
            number == big_endian(digest@.take(i as int)),
        decreases 8 - i,
    {
        proof {
            lemma_seven_bytes_leave_room(digest@.take(i as int));
            assert(digest@.take(i + 1).drop_last() =~= digest@.take(i as int));
        }
        number = number * 256 + digest[i] as u64;
        i += 1;
    }
    number
}

} // verus!
