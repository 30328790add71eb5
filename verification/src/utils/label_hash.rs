//! Hashing of labels into the 4-byte keys of the label indices.
use vstd::prelude::*;
use vstd::string::StringSliceAdditionalSpecFns;

verus! {

/// The 32-bit XXH32 hash of `data` under `seed`, as computed by the
/// `twox_hash` crate.
pub uninterp spec fn xxhash32(seed: u32, data: Seq<u8>) -> u32;

/// `twox_hash::XxHash32::with_seed(seed)`, fed `data` with `write`, read with
/// `finish_32`: the XXH32 hash of the bytes, a function of `seed` and `data`.
#[verifier::external_body]
fn xxhash32_of(data: &[u8], seed: u32) -> (r: u32)
    ensures
        r == xxhash32(seed, data@),
{
    let mut hash = twox_hash::XxHash32::with_seed(seed);
    std::hash::Hasher::write(&mut hash, data);
    hash.finish_32()
}

/// The four bytes of `h`, most significant first.
pub open spec fn u32_be_bytes(h: u32) -> Seq<u8> {
    seq![
        (h / 0x100_0000) as u8,
        ((h / 0x1_0000) % 0x100) as u8,
        ((h / 0x100) % 0x100) as u8,
        (h % 0x100) as u8,
    ]
}

/// The big-endian bytes of a 32-bit value.
pub fn u32_to_be_bytes(h: u32) -> (r: [u8; 4])
    ensures
        r@ == u32_be_bytes(h),
{
    let b0 = (h >> 24) as u8;
    let b1 = ((h >> 16) & 0xff) as u8;
    let b2 = ((h >> 8) & 0xff) as u8;
    let b3 = (h & 0xff) as u8;
    assert(b0 == (h / 0x100_0000) as u8) by (bit_vector)
        requires b0 == (h >> 24) as u8;
    assert(b1 == ((h / 0x1_0000) % 0x100) as u8) by (bit_vector)
        requires b1 == ((h >> 16) & 0xff) as u8;
    assert(b2 == ((h / 0x100) % 0x100) as u8) by (bit_vector)
        requires b2 == ((h >> 8) & 0xff) as u8;
    assert(b3 == (h % 0x100) as u8) by (bit_vector)
        requires b3 == (h & 0xff) as u8;
    let r = [b0, b1, b2, b3];
    assert(r@ =~= u32_be_bytes(h));
    r
}

/// Hashes a label into the 4-byte key under which it is indexed: the
/// big-endian bytes of the XXH32 hash of the label's UTF-8 bytes, with seed
/// `seed`, or 0 when none is given.
pub fn hash_label(label: &str, seed: Option<u32>) -> (r: [u8; 4])
    ensures
        r@ == u32_be_bytes(xxhash32(
            match seed {
                Some(s) => s,
                None => 0u32,
            },
            label.spec_bytes(),
        )),
{
    let s = match seed {
        Some(s) => s,
        None => 0u32,
    };
    let h = xxhash32_of(label.as_bytes(), s);
    u32_to_be_bytes(h)
}

} // verus!
