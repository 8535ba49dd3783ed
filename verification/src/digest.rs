//! SHA-256 digests, computed by the Soroban host.
use vstd::prelude::*;

verus! {

/// A 32-byte identifier or digest.
pub type Hash32 = [u8; 32];

/// Largest input, in bytes, that [`sha256`] is asked to hash.
pub const SHA256_MAX_INPUT: usize = 65536;

/// The SHA-256 digest of `data`. The function is not defined here: its values
/// are those that the Soroban host computes.
pub uninterp spec fn sha256_digest(data: Seq<u8>) -> [u8; 32];

/// Calls `soroban_sdk::crypto::Crypto::sha256` on a host of its own, made by
/// `soroban_sdk::Env::default`.
///
/// Trusted: the returned array holds the SHA-256 digest of `data`. The host
/// meters the call against a budget of 100,000,000 instructions and 40 MiB;
/// hashing costs it well under a hundred instructions per byte, so inputs of
/// at most [`SHA256_MAX_INPUT`] bytes stay far below both limits and the call
/// returns.
#[verifier::external_body]
pub(crate) fn sha256(data: &Vec<u8>) -> (digest: Hash32)
    requires
        data@.len() <= SHA256_MAX_INPUT,
    ensures
        digest == sha256_digest(data@),
{
    let env = soroban_sdk::Env::default();
    let bytes = soroban_sdk::Bytes::from_slice(&env, data.as_slice());
    env.crypto().sha256(&bytes).to_array()
}

/// Hashes `data`, or returns `None` when it is longer than
/// [`SHA256_MAX_INPUT`] bytes.
pub fn digest_of(data: &Vec<u8>) -> (r: Option<Hash32>)
    ensures
        data@.len() > SHA256_MAX_INPUT ==> r is None,
        data@.len() <= SHA256_MAX_INPUT ==> r == Some(sha256_digest(data@)),
{
    if data.len() > SHA256_MAX_INPUT {
        None
    } else {
        Some(sha256(data))
    }
}

} // verus!
