//! Random bytes for the handshake nonce and the per-frame masking keys.
//!
//! A cryptographically strong generator is used because masking is the
//! protocol's defense against certain proxy-poisoning attacks.

use rand::{RngCore, SeedableRng};
use rand_chacha::ChaCha20Rng;
use vstd::prelude::*;

verus! {

/// `rand_chacha`'s ChaCha20 generator, declared so that verified code can
/// own one. Its state is opaque here.
#[verifier::external_type_specification]
#[verifier::external_body]
pub struct ExChaCha20Rng(ChaCha20Rng);

/// Relies on `ChaCha20Rng::from_entropy` (`SeedableRng`): seeds a fresh
/// generator from the operating system's entropy source. It panics only
/// if that source fails, an environmental failure out of any caller's
/// hands, like running out of memory.
#[verifier::external_body]
pub fn fresh_rng() -> ChaCha20Rng {
    ChaCha20Rng::from_entropy()
}

/// Relies on `RngCore::fill_bytes`: fills the buffer with output of the
/// generator. Nothing is assumed of the drawn values, only their count.
#[verifier::external_body]
pub fn random_bytes(rng: &mut ChaCha20Rng, count: usize) -> (r: Vec<u8>)
    ensures
        r@.len() == count,
{
    let mut buf = vec![0u8; count];
    rng.fill_bytes(&mut buf);
    buf
}

} // verus!
