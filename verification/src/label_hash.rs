//! Label hasher: a deterministic map from label strings to 32-bit hashes.

use vstd::prelude::*;
use vstd::string::StringSliceAdditionalSpecFns;
use vstd::utf8::encode_utf8;

verus! {

/// Starting state of the hash before the salt is mixed in.
pub const HASH_BASIS: u32 = 2166136261u32;

/// Multiplier of one mixing round.
pub const HASH_PRIME: u64 = 16777619u64;

/// One round: fold the byte into the state, then multiply modulo 2^32.
pub open spec fn mix(h: u32, b: u8) -> u32 {
    (((h ^ (b as u32)) as int * HASH_PRIME as int) % 4294967296) as u32
}

/// The state a hash starts from under the given salt.
pub open spec fn seeded(salt: Option<u32>) -> u32 {
    match salt {
        Some(s) => HASH_BASIS ^ s,
        None => HASH_BASIS,
    }
}

/// Hash of a byte string: the rounds applied to its bytes from first to last.
pub open spec fn hash_bytes(bytes: Seq<u8>, salt: Option<u32>) -> u32
    decreases bytes.len(),
{
    if bytes.len() == 0 {
        seeded(salt)
    } else {
        mix(hash_bytes(bytes.drop_last(), salt), bytes.last())
    }
}

/// Hash of a label: the hash of its UTF-8 bytes.
pub open spec fn label_hash(label: Seq<char>, salt: Option<u32>) -> u32 {
    hash_bytes(encode_utf8(label), salt)
}

fn mix_byte(h: u32, b: u8) -> (r: u32)
    ensures
        r == mix(h, b),
{
    let x: u64 = (h ^ (b as u32)) as u64;
    let p: u64 = (x * HASH_PRIME) % 4294967296u64;
    p as u32
}

/// Hashes a label under an optional salt. Total, and the same label and salt
/// always give the same hash.
pub fn hash_label(label: &str, salt: Option<u32>) -> (h: u32)
    ensures
        h == label_hash(label@, salt),
{
    let bytes = label.as_bytes();
    let mut h: u32 = match salt {
        Some(s) => HASH_BASIS ^ s,
        None => HASH_BASIS,
    };
    let mut i: usize = 0;
    assert(bytes@.take(0) =~= Seq::<u8>::empty());
    while i < bytes.len()
        invariant
            i <= bytes@.len(),
            bytes@ == label.spec_bytes(),
            h == hash_bytes(bytes@.take(i as int), salt),
        decreases bytes@.len() - i,
    {
        assert(bytes@.take(i + 1).drop_last() =~= bytes@.take(i as int));
        h = mix_byte(h, bytes[i]);
        i = i + 1;
    }
    assert(bytes@.take(i as int) =~= bytes@);
    h
}

} // verus!
