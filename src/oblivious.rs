use vstd::prelude::*;
use rand::{RngCore, SeedableRng};
use std::hash::BuildHasher;
use crate::codec::{base64_decoded, base64_of, encodable, from_base64, to_base64};
use crate::error::Error;

verus! {

/// The 64-bit seed that std's default hasher gives for a master id, a
/// consumer id and a key id, hashed in that order.
pub uninterp spec fn seed_of(master: Seq<char>, consumer: Seq<char>, id: u128) -> u64;

/// The first `len` bytes of the ChaCha20 stream seeded from `seed`.
pub uninterp spec fn chacha_keystream(seed: u64, len: nat) -> Seq<u8>;

/// Relies on `BuildHasher::hash_one` of std's `DefaultHasher` built by
/// `BuildHasherDefault` (fixed keys, not seeded per process), over the
/// master id, the consumer id and the key id as a uuid.
#[verifier::external_body]
fn oblivious_seed(master: &str, consumer: &str, id: u128) -> (r: u64)
    ensures
        r == seed_of(master@, consumer@, id),
{
    std::hash::BuildHasherDefault::<std::collections::hash_map::DefaultHasher>::default()
        .hash_one((master, consumer, uuid::Uuid::from_u128(id)))
}

/// Relies on rand_chacha's `ChaChaRng` (0.3), seeded by
/// `SeedableRng::seed_from_u64` and read by `RngCore::fill_bytes`: `len`
/// bytes that depend on the seed alone.
#[verifier::external_body]
fn keystream(seed: u64, len: usize) -> (r: Vec<u8>)
    ensures
        r@ == chacha_keystream(seed, len as nat),
        r@.len() == len,
{
    let mut rng = rand_chacha::ChaChaRng::seed_from_u64(seed);
    let mut v = vec![0u8; len];
    rng.fill_bytes(&mut v);
    v
}

/// The output for the 2-bit group `g` of `byte` under the basis byte: with
/// basis bit `g` clear, the group's high bit moved to the low position and
/// a clear high bit; with it set, the group's low bit and a set high bit.
pub open spec fn group_out(byte: u8, basis: u8, g: u8) -> u8 {
    if (basis >> g) & 1 == 0 {
        (byte >> (2 * g + 1) as u8) & 1
    } else {
        2 | ((byte >> (2 * g) as u8) & 1)
    }
}

/// The oblivious form of one byte: its four groups, each transformed by
/// `group_out`, at their own bit positions.
pub open spec fn oblivious_byte(byte: u8, basis: u8) -> u8 {
    group_out(byte, basis, 0) | (group_out(byte, basis, 1) << 2u8) | (group_out(byte, basis, 2)
        << 4u8) | (group_out(byte, basis, 3) << 6u8)
}

/// The oblivious form of `content`, byte `i` taking its basis from byte
/// `i` of the keystream, used cyclically.
pub open spec fn oblivious_seq(content: Seq<u8>, stream: Seq<u8>) -> Seq<u8> {
    Seq::new(content.len(), |i: int| oblivious_byte(content[i], stream[i % stream.len() as int]))
}

/// The content handed out for an oblivious key, or `None` where the stored
/// content is not base64 or too long to encode again.
pub open spec fn oblivious_content_of(
    content: Seq<char>,
    master: Seq<char>,
    consumer: Seq<char>,
    id: u128,
) -> Option<Seq<char>> {
    match base64_decoded(content) {
        Some(b) => if encodable(b.len()) {
            Some(
                base64_of(
                    oblivious_seq(b, chacha_keystream(seed_of(master, consumer, id), b.len())),
                ),
            )
        } else {
            None
        },
        None => None,
    }
}

fn reveal_group(byte: u8, basis: u8, g: u8) -> (r: u8)
    requires
        g < 4,
    ensures
        r == group_out(byte, basis, g),
        r < 4,
{
    if (basis >> g) & 1 == 0 {
        let r = (byte >> (2 * g + 1)) & 1;
        assert(r < 4) by (bit_vector)
            requires
                r == (byte >> (2 * g + 1) as u8) & 1,
        ;
        r
    } else {
        let r = 2 | ((byte >> (2 * g)) & 1);
        assert(r < 4) by (bit_vector)
            requires
                r == 2 | ((byte >> (2 * g) as u8) & 1),
        ;
        r
    }
}

/// Transforms one byte of content under one keystream byte.
pub fn transform_byte(byte: u8, basis: u8) -> (r: u8)
    ensures
        r == oblivious_byte(byte, basis),
{
    let g0 = reveal_group(byte, basis, 0);
    let g1 = reveal_group(byte, basis, 1);
    let g2 = reveal_group(byte, basis, 2);
    let g3 = reveal_group(byte, basis, 3);
    g0 | (g1 << 2u8) | (g2 << 4u8) | (g3 << 6u8)
}

/// Transforms each byte of `content` with the keystream byte at the same
/// position, taken cyclically.
pub fn transform_bytes(content: &[u8], stream: &[u8]) -> (r: Vec<u8>)
    requires
        stream@.len() > 0 || content@.len() == 0,
    ensures
        r@ == oblivious_seq(content@, stream@),
{
    let mut out: Vec<u8> = Vec::with_capacity(content.len());
    let mut i: usize = 0;
    while i < content.len()
        invariant
            stream@.len() > 0 || content@.len() == 0,
            i <= content@.len(),
            out@ =~= oblivious_seq(content@, stream@).subrange(0, i as int),
        decreases content@.len() - i,
    {
        let basis = stream[i % stream.len()];
        out.push(transform_byte(content[i], basis));
        i = i + 1;
    }
    out
}

/// The content handed out for an oblivious key with stored content
/// `content`, requested by `consumer` under `master`: the stored bytes
/// transformed with the keystream seeded from the three ids, as base64.
pub fn oblivious_content(content: &str, master: &str, consumer: &str, id: u128) -> (r: Result<
    String,
    Error,
>)
    ensures
        match r {
            Ok(s) => oblivious_content_of(content@, master@, consumer@, id) == Some(s@),
            Err(e) => oblivious_content_of(content@, master@, consumer@, id) is None
                && e == Error::InternalError,
        },
{
    let bytes = match from_base64(content) {
        Some(b) => b,
        None => return Err(Error::InternalError),
    };
    if bytes.len() / 3 > (usize::MAX - 4) / 4 {
        return Err(Error::InternalError);
    }
    let seed = oblivious_seed(master, consumer, id);
    let stream = keystream(seed, bytes.len());
    let out = transform_bytes(bytes.as_slice(), stream.as_slice());
    Ok(to_base64(out.as_slice()))
}

} // verus!
