//! Checking a stored pool against what holds of every pool.
use vstd::prelude::*;
use crate::digest::Hash32;
use crate::family_pool::{
    browses, contributed, index_matches, index_users, lemma_contributed_prefix,
    lemma_contributed_step, lemma_released_prefix, lemma_released_step, listed, listing_agrees,
    listings, member_addresses, pool_ids, pool_states, pools_of, released, withdrawal_ids,
    Contribution, Member, MemberRole, PoolRecord, PoolState, UserPools, UserPoolsState,
    Withdrawal, WithdrawalStatus,
};
use crate::identity::{addresses_distinct, bytes32_eq, hashes_distinct, Address};
use crate::pool_lookup::{holds_role, is_browsing, pool_position};
use crate::search::{
    distinct, is_first, lemma_position_absent, lemma_position_distinct, lemma_position_found,
    lemma_position_is_first, position,
};

verus! {

/// Tells whether every contribution has a positive amount.
fn contributions_positive(log: &Vec<Contribution>) -> (r: bool)
    ensures
        r == (forall|i: int| 0 <= i < log@.len() ==> (#[trigger] log@[i]).amount > 0),
{
    let mut i: usize = 0;
    while i < log.len()
        invariant
            i <= log@.len(),
            forall|j: int| 0 <= j < i ==> (#[trigger] log@[j]).amount > 0,
        decreases log@.len() - i,
    {
        if log[i].amount <= 0 {
            return false;
        }
        i += 1;
    }
    true
}

/// Tells whether every withdrawal has a positive amount.
fn withdrawals_positive(log: &Vec<Withdrawal>) -> (r: bool)
    ensures
        r == (forall|i: int| 0 <= i < log@.len() ==> (#[trigger] log@[i]).amount > 0),
{
    let mut i: usize = 0;
    while i < log.len()
        invariant
            i <= log@.len(),
            forall|j: int| 0 <= j < i ==> (#[trigger] log@[j]).amount > 0,
        decreases log@.len() - i,
    {
        if log[i].amount <= 0 {
            return false;
        }
        i += 1;
    }
    true
}

/// The addresses of the members, in order.
fn addresses_of(members: &Vec<Member>) -> (r: Vec<Address>)
    ensures
        r@ == member_addresses(members@),
{
    let mut out: Vec<Address> = Vec::new();
    let mut i: usize = 0;
    while i < members.len()
        invariant
            i <= members@.len(),
            out@.len() == i,
            forall|j: int| 0 <= j < i ==> out@[j] == members@[j].address,
        decreases members@.len() - i,
    {
        out.push(members[i].address);
        i += 1;
    }
    assert(out@ =~= member_addresses(members@));
    out
}

/// The identifiers of the withdrawals, in order.
fn ids_of(log: &Vec<Withdrawal>) -> (r: Vec<Hash32>)
    ensures
        r@ == withdrawal_ids(log@),
{
    let mut out: Vec<Hash32> = Vec::new();
    let mut i: usize = 0;
    while i < log.len()
        invariant
            i <= log@.len(),
            out@.len() == i,
            forall|j: int| 0 <= j < i ==> out@[j] == log@[j].id,
        decreases log@.len() - i,
    {
        out.push(log[i].id);
        i += 1;
    }
    assert(out@ =~= withdrawal_ids(log@));
    out
}

/// Tells whether the balance is the sum of the contributions less the sum
/// of the settled withdrawals. The two logs are walked side by side, so that
/// the running difference stays in range however large the sums are.
fn reconciles(record: &PoolRecord) -> (r: bool)
    requires
        record.pool.balance >= 0,
        forall|i: int|
            0 <= i < record.contributions@.len() ==> (#[trigger] record.contributions@[i]).amount
                > 0,
        forall|i: int|
            0 <= i < record.withdrawals@.len() ==> (#[trigger] record.withdrawals@[i]).amount > 0,
    ensures
        r == (contributed(record.contributions@) - released(record.withdrawals@)
            == record.pool.balance),
{
    let paid_in = &record.contributions;
    let paid_out = &record.withdrawals;
    let mut a: usize = 0;
    let mut b: usize = 0;
    let mut diff: i128 = 0;
    assert(paid_in@.take(0) =~= Seq::<Contribution>::empty());
    assert(paid_out@.take(0) =~= Seq::<Withdrawal>::empty());
    while a < paid_in.len() || b < paid_out.len()
        invariant
            a <= paid_in@.len(),
            b <= paid_out@.len(),
            paid_in == &record.contributions,
            paid_out == &record.withdrawals,
            record.pool.balance >= 0,
            forall|i: int| 0 <= i < paid_in@.len() ==> (#[trigger] paid_in@[i]).amount > 0,
            forall|i: int| 0 <= i < paid_out@.len() ==> (#[trigger] paid_out@[i]).amount > 0,
            diff == contributed(paid_in@.take(a as int)) - released(paid_out@.take(b as int)),
        decreases paid_in@.len() - a + paid_out@.len() - b,
    {
        if b < paid_out.len() && (diff >= 0 || a == paid_in.len()) {
            proof {
                lemma_released_step(paid_out@, b as int);
            }
            let w = paid_out[b];
            let out: i128 = match w.status {
                WithdrawalStatus::Approved => w.amount,
                WithdrawalStatus::Completed => w.amount,
                _ => 0,
            };
            if diff >= 0 {
                diff = diff - out;
            } else {
                proof {
                    assert(paid_in@.take(a as int) =~= paid_in@);
                    lemma_released_prefix(paid_out@, b + 1);
                }
                return false;
            }
            b += 1;
        } else {
            proof {
                lemma_contributed_step(paid_in@, a as int);
            }
            let amount = paid_in[a].amount;
            if diff < 0 {
                diff = diff + amount;
            } else {
                match diff.checked_add(amount) {
                    Some(v) => {
                        diff = v;
                    },
                    None => {
                        proof {
                            assert(paid_out@.take(b as int) =~= paid_out@);
                            lemma_contributed_prefix(paid_in@, a + 1);
                        }
                        return false;
                    },
                }
            }
            a += 1;
        }
    }
    assert(paid_in@.take(a as int) =~= paid_in@);
    assert(paid_out@.take(b as int) =~= paid_out@);
    diff == record.pool.balance
}

/// Tells whether a stored pool is well formed: a positive limit, a balance
/// that is not negative and equals contributions less settled withdrawals,
/// the creator among the members as an admin, no party a member twice, no two
/// withdrawals under one identifier, and only positive amounts in the logs.
pub fn audit(record: &PoolRecord) -> (r: bool)
    ensures
        r == record@.wf(),
{
    if record.pool.withdrawal_limit <= 0 || record.pool.balance < 0 {
        return false;
    }
    if !holds_role(&record.members, &record.pool.creator, MemberRole::Admin) {
        return false;
    }
    let addresses = addresses_of(&record.members);
    if !addresses_distinct(&addresses) {
        return false;
    }
    if !contributions_positive(&record.contributions) {
        return false;
    }
    if !withdrawals_positive(&record.withdrawals) {
        return false;
    }
    let requests = ids_of(&record.withdrawals);
    if !hashes_distinct(&requests) {
        return false;
    }
    reconciles(record)
}


/// Whether the member at position `m` of the pool at position `i`, unless it
/// is a recipient, finds the pool in its list.
pub open spec fn member_is_listed(
    index: Seq<UserPoolsState>,
    pools: Seq<PoolState>,
    i: int,
    m: int,
) -> bool {
    pools[i].members[m].role != MemberRole::Recipient ==> listed(
        index,
        pools[i].members[m].address,
        pools[i].pool.id,
    )
}

/// Whether the pool at position `j` of the list at position `k` has the
/// party of that list as a member that is no recipient.
pub open spec fn listing_is_member(
    index: Seq<UserPoolsState>,
    pools: Seq<PoolState>,
    k: int,
    j: int,
) -> bool {
    match position(pool_ids(pools), index[k].pools[j]) {
        Some(i) => browses(pools[i].members, index[k].user),
        None => false,
    }
}

/// An index that lists every member that is no recipient, and nobody else,
/// matches the pools.
pub proof fn lemma_index_matches(index: Seq<UserPoolsState>, pools: Seq<PoolState>)
    requires
        distinct(pool_ids(pools)),
        forall|i: int, m: int|
            0 <= i < pools.len() && 0 <= m < pools[i].members.len() ==> #[trigger] member_is_listed(
                index,
                pools,
                i,
                m,
            ),
        forall|k: int, j: int|
            0 <= k < index.len() && 0 <= j < index[k].pools.len() ==> #[trigger] listing_is_member(
                index,
                pools,
                k,
                j,
            ),
    ensures
        index_matches(index, pools),
{
    assert forall|i: int, u: Address| 0 <= i < pools.len() implies #[trigger] listing_agrees(
        index,
        pools,
        i,
        u,
    ) by {
        let id = pools[i].pool.id;
        if browses(pools[i].members, u) {
            let m = choose|m: int|
                0 <= m < pools[i].members.len() && pools[i].members[m].address == u
                    && pools[i].members[m].role != MemberRole::Recipient;
            assert(member_is_listed(index, pools, i, m));
        }
        if listed(index, u, id) {
            lemma_position_is_first(index_users(index), u);
            let k = position(index_users(index), u)->0;
            let j = choose|j: int| 0 <= j < index[k].pools.len() && index[k].pools[j] == id;
            assert(listing_is_member(index, pools, k, j));
            assert(pool_ids(pools)[i] == id);
            lemma_position_distinct(pool_ids(pools), i);
        }
    }
}

/// A member that is no recipient and is not listed shows that the index does
/// not match the pools.
pub proof fn lemma_member_not_listed(
    index: Seq<UserPoolsState>,
    pools: Seq<PoolState>,
    i: int,
    m: int,
)
    requires
        0 <= i < pools.len(),
        0 <= m < pools[i].members.len(),
        !member_is_listed(index, pools, i, m),
    ensures
        !index_matches(index, pools),
{
    assert(browses(pools[i].members, pools[i].members[m].address));
    assert(!listing_agrees(index, pools, i, pools[i].members[m].address));
}

/// A listing of a pool under a party that is no member of it, or a
/// recipient, shows that the index does not match the pools.
pub proof fn lemma_listing_not_member(
    index: Seq<UserPoolsState>,
    pools: Seq<PoolState>,
    k: int,
    j: int,
)
    requires
        distinct(index_users(index)),
        0 <= k < index.len(),
        0 <= j < index[k].pools.len(),
        position(pool_ids(pools), index[k].pools[j]) is Some,
        !listing_is_member(index, pools, k, j),
    ensures
        !index_matches(index, pools),
{
    let id = index[k].pools[j];
    lemma_position_is_first(pool_ids(pools), id);
    let i = position(pool_ids(pools), id)->0;
    assert(index_users(index)[k] == index[k].user);
    lemma_position_distinct(index_users(index), k);
    assert(pools_of(index, index[k].user) == index[k].pools);
    assert(pools[i].pool.id == id);
    assert(listed(index, index[k].user, pools[i].pool.id));
    assert(!listing_agrees(index, pools, i, index[k].user));
}

/// Tells whether the index lists `id` under `user`.
fn is_listed(index: &Vec<UserPools>, user: &Address, id: &Hash32) -> (r: bool)
    ensures
        r == listed(listings(index@), *user, *id),
{
    let ghost model = listings(index@);
    let ghost users = index_users(model);
    let mut k: usize = 0;
    while k < index.len()
        invariant
            k <= index@.len(),
            model == listings(index@),
            users == index_users(model),
            forall|n: int| 0 <= n < k ==> users[n] != *user,
        decreases index@.len() - k,
    {
        if index[k].user.same(user) {
            proof {
                assert(is_first(users, *user, k as int));
                lemma_position_found(users, *user, k as int);
            }
            let list = &index[k].pools;
            let mut j: usize = 0;
            while j < list.len()
                invariant
                    j <= list@.len(),
                    k < index@.len(),
                    model == listings(index@),
                    users == index_users(model),
                    position(users, *user) == Some(k as int),
                    list@ == model[k as int].pools,
                    forall|n: int| 0 <= n < j ==> list@[n] != *id,
                decreases list@.len() - j,
            {
                if bytes32_eq(&list[j], id) {
                    assert(list@[j as int] == *id);
                    return true;
                }
                j += 1;
            }
            return false;
        }
        k += 1;
    }
    proof {
        lemma_position_absent(users, *user);
    }
    false
}

/// Tells whether the index lists under every party exactly the pools of which
/// it is a member that is no recipient, given pools with distinct
/// identifiers and an index of distinct parties that lists existing pools
/// only.
pub(crate) fn index_matches_pools(pools: &Vec<PoolRecord>, index: &Vec<UserPools>) -> (r: bool)
    requires
        distinct(pool_ids(pool_states(pools@))),
        distinct(index_users(listings(index@))),
        forall|k: int, j: int|
            0 <= k < index@.len() && 0 <= j < index@[k].pools@.len() ==> position(
                pool_ids(pool_states(pools@)),
                #[trigger] index@[k].pools@[j],
            ) is Some,
    ensures
        r == index_matches(listings(index@), pool_states(pools@)),
{
    let ghost held = pool_states(pools@);
    let ghost lists = listings(index@);
    let mut i: usize = 0;
    while i < pools.len()
        invariant
            i <= pools@.len(),
            held == pool_states(pools@),
            lists == listings(index@),
            forall|a: int, m: int|
                0 <= a < i && 0 <= m < held[a].members.len() ==> #[trigger] member_is_listed(
                    lists,
                    held,
                    a,
                    m,
                ),
        decreases pools@.len() - i,
    {
        let members = &pools[i].members;
        let mut m: usize = 0;
        while m < members.len()
            invariant
                m <= members@.len(),
                i < pools@.len(),
                held == pool_states(pools@),
                lists == listings(index@),
                members@ == held[i as int].members,
                forall|n: int| 0 <= n < m ==> #[trigger] member_is_listed(lists, held, i as int, n),
            decreases members@.len() - m,
        {
            if members[m].role != MemberRole::Recipient && !is_listed(
                index,
                &members[m].address,
                &pools[i].pool.id,
            ) {
                proof {
                    lemma_member_not_listed(lists, held, i as int, m as int);
                }
                return false;
            }
            m += 1;
        }
        i += 1;
    }
    let mut k: usize = 0;
    while k < index.len()
        invariant
            k <= index@.len(),
            held == pool_states(pools@),
            lists == listings(index@),
            distinct(pool_ids(held)),
            distinct(index_users(lists)),
            forall|a: int, b: int|
                0 <= a < index@.len() && 0 <= b < index@[a].pools@.len() ==> position(
                    pool_ids(held),
                    #[trigger] index@[a].pools@[b],
                ) is Some,
            forall|a: int, b: int|
                0 <= a < k && 0 <= b < lists[a].pools.len() ==> #[trigger] listing_is_member(
                    lists,
                    held,
                    a,
                    b,
                ),
        decreases index@.len() - k,
    {
        let list = &index[k].pools;
        let mut j: usize = 0;
        while j < list.len()
            invariant
                j <= list@.len(),
                k < index@.len(),
                held == pool_states(pools@),
                lists == listings(index@),
                distinct(pool_ids(held)),
                distinct(index_users(lists)),
                list@ == lists[k as int].pools,
                forall|a: int, b: int|
                    0 <= a < index@.len() && 0 <= b < index@[a].pools@.len() ==> position(
                        pool_ids(held),
                        #[trigger] index@[a].pools@[b],
                    ) is Some,
                forall|b: int| 0 <= b < j ==> #[trigger] listing_is_member(lists, held, k as int, b),
            decreases list@.len() - j,
        {
            assert(position(pool_ids(held), index@[k as int].pools@[j as int]) is Some);
            let found = pool_position(pools, &list[j]);
            let member = match found {
                Some(p) => is_browsing(&pools[p].members, &index[k].user),
                None => false,
            };
            if !member {
                proof {
                    lemma_listing_not_member(lists, held, k as int, j as int);
                }
                return false;
            }
            j += 1;
        }
        k += 1;
    }
    proof {
        lemma_index_matches(lists, held);
    }
    true
}

} // verus!
