//! Looking things up in the stored records of the fund pool.
use vstd::prelude::*;
use crate::digest::Hash32;
use crate::family_pool::{
    browses, has_role, member_addresses, pool_ids, pool_states, withdrawal_ids, Member,
    MemberRole, PoolRecord, Withdrawal,
};
use crate::identity::{bytes32_eq, Address};
use crate::search::{is_first, lemma_position_absent, lemma_position_found, position};

verus! {

/// The position of the first member with address `party`.
pub fn member_position(members: &Vec<Member>, party: &Address) -> (r: Option<usize>)
    ensures
        match r {
            Some(i) => position(member_addresses(members@), *party) == Some(i as int) && i
                < members@.len(),
            None => position(member_addresses(members@), *party) is None,
        },
{
    let ghost keys = member_addresses(members@);
    let mut i: usize = 0;
    while i < members.len()
        invariant
            i <= members@.len(),
            keys == member_addresses(members@),
            forall|j: int| 0 <= j < i ==> keys[j] != *party,
        decreases members@.len() - i,
    {
        if members[i].address.same(party) {
            proof {
                assert(is_first(keys, *party, i as int));
                lemma_position_found(keys, *party, i as int);
            }
            return Some(i);
        }
        i += 1;
    }
    proof {
        lemma_position_absent(keys, *party);
    }
    None
}

/// Tells whether `party` is a member with the given role.
pub fn holds_role(members: &Vec<Member>, party: &Address, role: MemberRole) -> (r: bool)
    ensures
        r == has_role(members@, *party, role),
{
    let mut i: usize = 0;
    while i < members.len()
        invariant
            i <= members@.len(),
            forall|j: int|
                0 <= j < i ==> !(members@[j].address == *party && members@[j].role == role),
        decreases members@.len() - i,
    {
        if members[i].address.same(party) && members[i].role == role {
            return true;
        }
        i += 1;
    }
    false
}

/// Tells whether `party` is a member with a role other than recipient.
pub fn is_browsing(members: &Vec<Member>, party: &Address) -> (r: bool)
    ensures
        r == browses(members@, *party),
{
    let mut i: usize = 0;
    while i < members.len()
        invariant
            i <= members@.len(),
            forall|j: int|
                0 <= j < i ==> !(members@[j].address == *party && members@[j].role
                    != MemberRole::Recipient),
        decreases members@.len() - i,
    {
        if members[i].address.same(party) && members[i].role != MemberRole::Recipient {
            return true;
        }
        i += 1;
    }
    false
}

/// The position of the first identifier equal to `id`.
pub fn id_position(list: &Vec<Hash32>, id: &Hash32) -> (r: Option<usize>)
    ensures
        match r {
            Some(i) => position(list@, *id) == Some(i as int) && i < list@.len(),
            None => position(list@, *id) is None,
        },
{
    let mut i: usize = 0;
    while i < list.len()
        invariant
            i <= list@.len(),
            forall|j: int| 0 <= j < i ==> list@[j] != *id,
        decreases list@.len() - i,
    {
        if bytes32_eq(&list[i], id) {
            proof {
                assert(is_first(list@, *id, i as int));
                lemma_position_found(list@, *id, i as int);
            }
            return Some(i);
        }
        i += 1;
    }
    proof {
        lemma_position_absent(list@, *id);
    }
    None
}

/// The position of the first withdrawal with identifier `id`.
pub fn withdrawal_position(log: &Vec<Withdrawal>, id: &Hash32) -> (r: Option<usize>)
    ensures
        match r {
            Some(i) => position(withdrawal_ids(log@), *id) == Some(i as int) && i < log@.len(),
            None => position(withdrawal_ids(log@), *id) is None,
        },
{
    let ghost keys = withdrawal_ids(log@);
    let mut i: usize = 0;
    while i < log.len()
        invariant
            i <= log@.len(),
            keys == withdrawal_ids(log@),
            forall|j: int| 0 <= j < i ==> keys[j] != *id,
        decreases log@.len() - i,
    {
        if bytes32_eq(&log[i].id, id) {
            proof {
                assert(is_first(keys, *id, i as int));
                lemma_position_found(keys, *id, i as int);
            }
            return Some(i);
        }
        i += 1;
    }
    proof {
        lemma_position_absent(keys, *id);
    }
    None
}

/// The position of the first pool with identifier `id`.
pub fn pool_position(pools: &Vec<PoolRecord>, id: &Hash32) -> (r: Option<usize>)
    ensures
        match r {
            Some(i) => position(pool_ids(pool_states(pools@)), *id) == Some(i as int) && i
                < pools@.len(),
            None => position(pool_ids(pool_states(pools@)), *id) is None,
        },
{
    let ghost keys = pool_ids(pool_states(pools@));
    let mut i: usize = 0;
    while i < pools.len()
        invariant
            i <= pools@.len(),
            keys == pool_ids(pool_states(pools@)),
            forall|j: int| 0 <= j < i ==> keys[j] != *id,
        decreases pools@.len() - i,
    {
        if bytes32_eq(&pools[i].pool.id, id) {
            proof {
                assert(is_first(keys, *id, i as int));
                lemma_position_found(keys, *id, i as int);
            }
            return Some(i);
        }
        i += 1;
    }
    proof {
        lemma_position_absent(keys, *id);
    }
    None
}

} // verus!
