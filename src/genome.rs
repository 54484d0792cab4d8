//! Genome derivation: the entropy payload, its hash, and the crossover of two
//! parents under a selector mask.
use parity_scale_codec::Encode;
use vstd::prelude::*;

verus! {

/// Little-endian bytes of a `u32`.
pub open spec fn le_bytes_u32(x: u32) -> Seq<u8> {
    seq![
        (x & 0xff) as u8,
        ((x >> 8u32) & 0xff) as u8,
        ((x >> 16u32) & 0xff) as u8,
        ((x >> 24u32) & 0xff) as u8,
    ]
}

/// Little-endian bytes of a `u64`.
pub open spec fn le_bytes_u64(x: u64) -> Seq<u8> {
    seq![
        (x & 0xff) as u8,
        ((x >> 8u64) & 0xff) as u8,
        ((x >> 16u64) & 0xff) as u8,
        ((x >> 24u64) & 0xff) as u8,
        ((x >> 32u64) & 0xff) as u8,
        ((x >> 40u64) & 0xff) as u8,
        ((x >> 48u64) & 0xff) as u8,
        ((x >> 56u64) & 0xff) as u8,
    ]
}

/// An optional index: a tag byte, then the index when there is one.
pub open spec fn option_u32_bytes(n: Option<u32>) -> Seq<u8> {
    match n {
        Some(v) => seq![1u8] + le_bytes_u32(v),
        None => seq![0u8],
    }
}

/// The bytes that are hashed into a genome: the random seed, the account,
/// and the index of the call within its block.
pub open spec fn payload_bytes(seed: Seq<u8>, who: u64, nonce: Option<u32>) -> Seq<u8> {
    seed + le_bytes_u64(who) + option_u32_bytes(nonce)
}

/// What BLAKE2b with a 16-byte output gives for `data`.
pub uninterp spec fn blake2_128_of(data: Seq<u8>) -> Seq<u8>;

/// Relies on parity-scale-codec's `Encode` for a triple: the three parts in
/// turn, a byte array as its bytes, integers little-endian, an `Option` as
/// tag 0 or tag 1 followed by the value.
#[verifier::external_body]
fn encode_payload(seed: &[u8; 32], who: u64, nonce: Option<u32>) -> (r: Vec<u8>)
    ensures
        r@ == payload_bytes(seed@, who, nonce),
{
    (seed, who, nonce).encode()
}

/// Relies on `sp_crypto_hashing::blake2_128`: a 16-byte BLAKE2b digest.
#[verifier::external_body]
fn blake2_128(data: &Vec<u8>) -> (r: [u8; 16])
    ensures
        r@ == blake2_128_of(data@),
{
    sp_crypto_hashing::blake2_128(data)
}

/// Draws sixteen bytes from the block's random seed, the caller and the
/// index of the call, so that two calls in one block differ.
pub fn random_value(seed: &[u8; 32], who: u64, nonce: Option<u32>) -> (r: [u8; 16])
    ensures
        r@ == blake2_128_of(payload_bytes(seed@, who, nonce)),
{
    let payload = encode_payload(seed, who, nonce);
    blake2_128(&payload)
}

/// One byte of a child: bits of `a` where the selector is set, else of `b`.
pub open spec fn select_byte(a: u8, b: u8, s: u8) -> u8 {
    (a & s) | (b & !s)
}

/// The child genome, lane by lane.
pub open spec fn crossover_spec(p1: Seq<u8>, p2: Seq<u8>, s: Seq<u8>) -> Seq<u8> {
    Seq::new(16, |i: int| select_byte(p1[i], p2[i], s[i]))
}

/// Combines two parent genomes under a selector mask.
pub fn crossover(p1: &[u8; 16], p2: &[u8; 16], selector: &[u8; 16]) -> (r: [u8; 16])
    ensures
        r@ == crossover_spec(p1@, p2@, selector@),
{
    let mut data: [u8; 16] = [0u8; 16];
    let mut i: usize = 0;
    while i < 16
        invariant
            i <= 16,
            data@.len() == 16,
            forall|j: int| 0 <= j < i ==> data@[j] == select_byte(p1@[j], p2@[j], selector@[j]),
        decreases 16 - i,
    {
        data[i] = (p1[i] & selector[i]) | (p2[i] & !selector[i]);
        i = i + 1;
    }
    assert(data@ =~= crossover_spec(p1@, p2@, selector@));
    data
}

} // verus!
