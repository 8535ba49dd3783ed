//! Identifiers of pools, contributions, withdrawals and remittances: each is
//! the SHA-256 digest of a byte string that holds who asked, when, and a
//! counter that never repeats.
use vstd::prelude::*;
use vstd::bytes::*;
use vstd::utf8::encode_utf8;
use crate::digest::{sha256, sha256_digest, Hash32, SHA256_MAX_INPUT};
use crate::identity::Address;

verus! {

/// The longest pool name, in bytes of UTF-8, for which an identifier is
/// derived: what one digest call takes, less the 57 bytes that the other
/// parts of the preimage fill.
pub const MAX_NAME_BYTES: usize = SHA256_MAX_INPUT - 57;

/// An address as bytes: one byte for its kind, then its 32 bytes.
pub open spec fn address_bytes(a: Address) -> Seq<u8> {
    match a {
        Address::Account(k) => seq![0u8] + k@,
        Address::Contract(k) => seq![1u8] + k@,
    }
}

/// A positive amount as sixteen bytes, least significant first.
pub open spec fn amount_bytes(amount: i128) -> Seq<u8> {
    spec_u128_to_le_bytes(amount as u128)
}

/// The bytes hashed into a pool's identifier: the creator, the length of the
/// name and the name, the ledger time and the number of pools made before.
pub open spec fn pool_preimage(creator: Address, name: Seq<char>, timestamp: u64, count: u64) -> Seq<
    u8,
> {
    address_bytes(creator) + spec_u64_to_le_bytes(encode_utf8(name).len() as u64) + encode_utf8(
        name,
    ) + spec_u64_to_le_bytes(timestamp) + spec_u64_to_le_bytes(count)
}

/// The bytes hashed into a contribution's identifier.
pub open spec fn contribution_preimage(
    contributor: Address,
    pool_id: Hash32,
    amount: i128,
    timestamp: u64,
    count: u64,
) -> Seq<u8> {
    address_bytes(contributor) + pool_id@ + amount_bytes(amount) + spec_u64_to_le_bytes(timestamp)
        + spec_u64_to_le_bytes(count)
}

/// The bytes hashed into a withdrawal's identifier.
pub open spec fn withdrawal_preimage(
    requester: Address,
    recipient: Address,
    pool_id: Hash32,
    amount: i128,
    timestamp: u64,
    count: u64,
) -> Seq<u8> {
    address_bytes(requester) + address_bytes(recipient) + pool_id@ + amount_bytes(amount)
        + spec_u64_to_le_bytes(timestamp) + spec_u64_to_le_bytes(count)
}

/// The bytes hashed into a remittance's identifier.
pub open spec fn remittance_preimage(sender: Address, timestamp: u64, count: u64) -> Seq<u8> {
    address_bytes(sender) + spec_u64_to_le_bytes(timestamp) + spec_u64_to_le_bytes(count)
}

fn push_all(out: &mut Vec<u8>, src: &[u8])
    ensures
        final(out)@ == old(out)@ + src@,
{
    let mut i: usize = 0;
    while i < src.len()
        invariant
            i <= src@.len(),
            out@ == old(out)@ + src@.take(i as int),
        decreases src@.len() - i,
    {
        out.push(src[i]);
        i += 1;
        assert(out@ =~= old(out)@ + src@.take(i as int));
    }
    assert(src@.take(src@.len() as int) =~= src@);
}

fn push_address(out: &mut Vec<u8>, a: &Address)
    ensures
        final(out)@ == old(out)@ + address_bytes(*a),
{
    match a {
        Address::Account(k) => {
            out.push(0u8);
            push_all(out, k.as_slice());
        },
        Address::Contract(k) => {
            out.push(1u8);
            push_all(out, k.as_slice());
        },
    }
    assert(out@ =~= old(out)@ + address_bytes(*a));
}

fn push_u64(out: &mut Vec<u8>, x: u64)
    ensures
        final(out)@ == old(out)@ + spec_u64_to_le_bytes(x),
        spec_u64_to_le_bytes(x).len() == 8,
{
    let bytes = u64_to_le_bytes(x);
    push_all(out, bytes.as_slice());
}

fn push_amount(out: &mut Vec<u8>, amount: i128)
    requires
        amount >= 0,
    ensures
        final(out)@ == old(out)@ + amount_bytes(amount),
        amount_bytes(amount).len() == 16,
{
    let bytes = u128_to_le_bytes(amount as u128);
    push_all(out, bytes.as_slice());
}

/// Derives a pool's identifier, or `None` when the name is longer than
/// [`MAX_NAME_BYTES`].
pub fn derive_pool_id(creator: &Address, name: &String, timestamp: u64, count: u64) -> (r: Option<
    Hash32,
>)
    ensures
        encode_utf8(name@).len() > MAX_NAME_BYTES ==> r is None,
        encode_utf8(name@).len() <= MAX_NAME_BYTES ==> r == Some(
            sha256_digest(pool_preimage(*creator, name@, timestamp, count)),
        ),
{
    let text = name.as_str().as_bytes();
    if text.len() > MAX_NAME_BYTES {
        return None;
    }
    let mut data: Vec<u8> = Vec::new();
    push_address(&mut data, creator);
    push_u64(&mut data, text.len() as u64);
    push_all(&mut data, text);
    push_u64(&mut data, timestamp);
    push_u64(&mut data, count);
    assert(data@ =~= pool_preimage(*creator, name@, timestamp, count));
    Some(sha256(&data))
}

/// Derives a contribution's identifier.
pub fn derive_contribution_id(
    contributor: &Address,
    pool_id: &Hash32,
    amount: i128,
    timestamp: u64,
    count: u64,
) -> (id: Hash32)
    requires
        amount >= 0,
    ensures
        id == sha256_digest(contribution_preimage(*contributor, *pool_id, amount, timestamp, count)),
{
    let mut data: Vec<u8> = Vec::new();
    push_address(&mut data, contributor);
    push_all(&mut data, pool_id.as_slice());
    push_amount(&mut data, amount);
    push_u64(&mut data, timestamp);
    push_u64(&mut data, count);
    assert(data@ =~= contribution_preimage(*contributor, *pool_id, amount, timestamp, count));
    sha256(&data)
}

/// Derives a withdrawal's identifier.
pub fn derive_withdrawal_id(
    requester: &Address,
    recipient: &Address,
    pool_id: &Hash32,
    amount: i128,
    timestamp: u64,
    count: u64,
) -> (id: Hash32)
    requires
        amount >= 0,
    ensures
        id == sha256_digest(
            withdrawal_preimage(*requester, *recipient, *pool_id, amount, timestamp, count),
        ),
{
    let mut data: Vec<u8> = Vec::new();
    push_address(&mut data, requester);
    push_address(&mut data, recipient);
    push_all(&mut data, pool_id.as_slice());
    push_amount(&mut data, amount);
    push_u64(&mut data, timestamp);
    push_u64(&mut data, count);
    assert(data@ =~= withdrawal_preimage(
        *requester,
        *recipient,
        *pool_id,
        amount,
        timestamp,
        count,
    ));
    sha256(&data)
}

/// Derives a remittance's identifier.
pub fn derive_remittance_id(sender: &Address, timestamp: u64, count: u64) -> (id: Hash32)
    ensures
        id == sha256_digest(remittance_preimage(*sender, timestamp, count)),
{
    let mut data: Vec<u8> = Vec::new();
    push_address(&mut data, sender);
    push_u64(&mut data, timestamp);
    push_u64(&mut data, count);
    assert(data@ =~= remittance_preimage(*sender, timestamp, count));
    sha256(&data)
}

} // verus!
