//! The fund pool: its records and the mathematical model of a ledger of
//! pools.
use vstd::prelude::*;
use crate::digest::Hash32;
use crate::identity::Address;
use crate::search::{distinct, lemma_position_is_first, lemma_position_push, position};

verus! {

/// What a member may do in a pool.
#[derive(Clone, Copy, Debug, PartialEq, Eq, Structural)]
pub enum MemberRole {
    Admin,
    Contributor,
    Recipient,
}

/// Where a withdrawal stands. `Pending` is the only state that can change.
#[derive(Clone, Copy, Debug, PartialEq, Eq, Structural)]
pub enum WithdrawalStatus {
    Pending,
    Approved,
    Rejected,
    Completed,
}

/// The period that a pool's withdrawal limit is meant for. It is recorded and
/// not enforced.
#[derive(Clone, Copy, Debug, PartialEq, Eq, Structural)]
pub enum WithdrawalPeriod {
    Daily,
    Weekly,
    Monthly,
}

/// A party's membership of one pool.
#[derive(Clone, Copy, Debug, PartialEq, Eq)]
pub struct Member {
    pub address: Address,
    pub role: MemberRole,
    pub added_at: u64,
}

/// Another name of [`Member`].
pub type PoolMember = Member;

/// The receipt of one deposit into a pool.
#[derive(Clone, Copy, Debug, PartialEq, Eq)]
pub struct Contribution {
    pub id: Hash32,
    pub contributor: Address,
    pub amount: i128,
    pub token: Address,
    pub created_at: u64,
}

/// A request to release funds from a pool.
#[derive(Clone, Copy, Debug, PartialEq, Eq)]
pub struct Withdrawal {
    pub id: Hash32,
    pub requester: Address,
    pub recipient: Address,
    pub amount: i128,
    pub token: Address,
    pub status: WithdrawalStatus,
    pub created_at: u64,
    pub completed_at: u64,
}

/// The head record of a pool.
#[derive(Debug, PartialEq, Eq)]
pub struct FamilyPool {
    pub id: Hash32,
    pub name: String,
    pub creator: Address,
    pub token: Address,
    pub balance: i128,
    pub withdrawal_limit: i128,
    pub withdrawal_period: WithdrawalPeriod,
    pub created_at: u64,
}

/// A pool with its members and its two logs, as it is stored.
#[derive(Debug, PartialEq, Eq)]
pub struct PoolRecord {
    pub pool: FamilyPool,
    pub members: Vec<Member>,
    pub contributions: Vec<Contribution>,
    pub withdrawals: Vec<Withdrawal>,
}

/// The pools listed under one party, as stored.
#[derive(Debug, PartialEq, Eq)]
pub struct UserPools {
    pub user: Address,
    pub pools: Vec<Hash32>,
}

/// The model of a [`PoolRecord`].
pub struct PoolState {
    pub pool: FamilyPool,
    pub members: Seq<Member>,
    pub contributions: Seq<Contribution>,
    pub withdrawals: Seq<Withdrawal>,
}

/// The model of a [`UserPools`].
pub struct UserPoolsState {
    pub user: Address,
    pub pools: Seq<Hash32>,
}

/// The model of the whole ledger of pools.
pub struct LedgerState {
    pub admin: Option<Address>,
    pub pools: Seq<PoolState>,
    pub user_pools: Seq<UserPoolsState>,
}

impl View for PoolRecord {
    type V = PoolState;

    open spec fn view(&self) -> PoolState {
        PoolState {
            pool: self.pool,
            members: self.members@,
            contributions: self.contributions@,
            withdrawals: self.withdrawals@,
        }
    }
}

impl View for UserPools {
    type V = UserPoolsState;

    open spec fn view(&self) -> UserPoolsState {
        UserPoolsState { user: self.user, pools: self.pools@ }
    }
}

/// The models of the stored pools, in order.
pub open spec fn pool_states(records: Seq<PoolRecord>) -> Seq<PoolState> {
    Seq::new(records.len(), |i: int| records[i]@)
}

/// The models of the stored listings, in order.
pub open spec fn listings(index: Seq<UserPools>) -> Seq<UserPoolsState> {
    Seq::new(index.len(), |i: int| index[i]@)
}

/// Whether a withdrawal in this state has taken its amount out of the pool.
pub open spec fn is_settled(status: WithdrawalStatus) -> bool {
    status == WithdrawalStatus::Approved || status == WithdrawalStatus::Completed
}

/// The sum of the amounts of all contributions.
pub open spec fn contributed(log: Seq<Contribution>) -> int
    decreases log.len(),
{
    if log.len() == 0 {
        0
    } else {
        contributed(log.drop_last()) + log.last().amount
    }
}

/// The sum of the amounts of the withdrawals that have been settled.
pub open spec fn released(log: Seq<Withdrawal>) -> int
    decreases log.len(),
{
    if log.len() == 0 {
        0
    } else {
        released(log.drop_last()) + if is_settled(log.last().status) {
            log.last().amount as int
        } else {
            0
        }
    }
}

/// The addresses of the members, in order.
pub open spec fn member_addresses(members: Seq<Member>) -> Seq<Address> {
    Seq::new(members.len(), |i: int| members[i].address)
}

/// Whether `party` is a member.
pub open spec fn is_member(members: Seq<Member>, party: Address) -> bool {
    position(member_addresses(members), party) is Some
}

/// Whether `party` is a member with the given role.
pub open spec fn has_role(members: Seq<Member>, party: Address, role: MemberRole) -> bool {
    exists|i: int|
        0 <= i < members.len() && members[i].address == party && members[i].role == role
}

/// The identifiers of the withdrawals, in order.
pub open spec fn withdrawal_ids(log: Seq<Withdrawal>) -> Seq<Hash32> {
    Seq::new(log.len(), |i: int| log[i].id)
}

/// The identifiers of the pools, in order.
pub open spec fn pool_ids(pools: Seq<PoolState>) -> Seq<Hash32> {
    Seq::new(pools.len(), |i: int| pools[i].pool.id)
}

/// The parties that the index lists, in order.
pub open spec fn index_users(index: Seq<UserPoolsState>) -> Seq<Address> {
    Seq::new(index.len(), |i: int| index[i].user)
}

/// The pools that the index lists under `user`; none for a party it does not
/// know.
pub open spec fn pools_of(index: Seq<UserPoolsState>, user: Address) -> Seq<Hash32> {
    match position(index_users(index), user) {
        Some(k) => index[k].pools,
        None => Seq::empty(),
    }
}

/// `list` without `id`.
pub open spec fn without(list: Seq<Hash32>, id: Hash32) -> Seq<Hash32> {
    match position(list, id) {
        Some(j) => list.remove(j),
        None => list,
    }
}

/// The index after `id` is listed under `user`, once.
pub open spec fn index_add(index: Seq<UserPoolsState>, user: Address, id: Hash32) -> Seq<
    UserPoolsState,
> {
    match position(index_users(index), user) {
        Some(k) => if index[k].pools.contains(id) {
            index
        } else {
            index.update(k, UserPoolsState { user, pools: index[k].pools.push(id) })
        },
        None => index.push(UserPoolsState { user, pools: seq![id] }),
    }
}

/// The index after `id` is no longer listed under `user`.
pub open spec fn index_remove(index: Seq<UserPoolsState>, user: Address, id: Hash32) -> Seq<
    UserPoolsState,
> {
    match position(index_users(index), user) {
        Some(k) => index.update(k, UserPoolsState { user, pools: without(index[k].pools, id) }),
        None => index,
    }
}

impl PoolState {
    /// What holds of every pool: the limit is positive, the balance is not
    /// negative, the creator is an admin, no party is a member twice, no two
    /// withdrawals share an identifier, every logged amount is positive, and
    /// the balance is what was contributed less what was released.
    pub open spec fn wf(self) -> bool {
        &&& self.pool.withdrawal_limit > 0
        &&& self.pool.balance >= 0
        &&& has_role(self.members, self.pool.creator, MemberRole::Admin)
        &&& distinct(member_addresses(self.members))
        &&& distinct(withdrawal_ids(self.withdrawals))
        &&& forall|i: int|
            0 <= i < self.contributions.len() ==> (#[trigger] self.contributions[i]).amount > 0
        &&& forall|i: int|
            0 <= i < self.withdrawals.len() ==> (#[trigger] self.withdrawals[i]).amount > 0
        &&& contributed(self.contributions) - released(self.withdrawals) == self.pool.balance
    }
}

/// What holds of the pools of every ledger: each is well formed, and no two
/// share an identifier.
pub open spec fn pools_wf(pools: Seq<PoolState>) -> bool {
    &&& forall|i: int| 0 <= i < pools.len() ==> (#[trigger] pools[i]).wf()
    &&& distinct(pool_ids(pools))
}

/// What holds of the index of every ledger: no party is listed twice, no pool
/// is listed twice under one party, and every pool listed exists.
pub open spec fn index_wf(index: Seq<UserPoolsState>, pools: Seq<PoolState>) -> bool {
    &&& distinct(index_users(index))
    &&& forall|k: int| 0 <= k < index.len() ==> distinct((#[trigger] index[k]).pools)
    &&& forall|k: int, j: int|
        0 <= k < index.len() && 0 <= j < index[k].pools.len() ==> position(
            pool_ids(pools),
            #[trigger] index[k].pools[j],
        ) is Some
}

/// Whether `party` is a member with a role other than recipient: one that
/// finds the pool in its list.
pub open spec fn browses(members: Seq<Member>, party: Address) -> bool {
    exists|m: int|
        0 <= m < members.len() && members[m].address == party && members[m].role
            != MemberRole::Recipient
}

/// Whether the index lists `id` under `user`.
pub open spec fn listed(index: Seq<UserPoolsState>, user: Address, id: Hash32) -> bool {
    pools_of(index, user).contains(id)
}

/// Whether the index and the pool at position `i` agree on `user`: the pool
/// is listed under the party if and only if the party is a member that is no
/// recipient.
pub open spec fn listing_agrees(
    index: Seq<UserPoolsState>,
    pools: Seq<PoolState>,
    i: int,
    user: Address,
) -> bool {
    listed(index, user, pools[i].pool.id) == browses(pools[i].members, user)
}

/// Whether the index lists under every party exactly the pools of which it is
/// a member that is no recipient.
pub open spec fn index_matches(index: Seq<UserPoolsState>, pools: Seq<PoolState>) -> bool {
    forall|i: int, user: Address|
        0 <= i < pools.len() ==> #[trigger] listing_agrees(index, pools, i, user)
}

impl LedgerState {
    /// What holds of every ledger that the engine reaches.
    pub open spec fn wf(self) -> bool {
        &&& pools_wf(self.pools)
        &&& index_wf(self.user_pools, self.pools)
        &&& index_matches(self.user_pools, self.pools)
    }
}

/// Among distinct identifiers, the list without `id` holds what the list
/// held, but for `id`.
pub proof fn lemma_without_contains(list: Seq<Hash32>, id: Hash32, x: Hash32)
    requires
        distinct(list),
    ensures
        without(list, id).contains(x) == (list.contains(x) && x != id),
{
    lemma_position_is_first(list, id);
    let rest = without(list, id);
    match position(list, id) {
        Some(j) => {
            if rest.contains(x) {
                let w = choose|w: int| 0 <= w < rest.len() && rest[w] == x;
                let w0 = if w < j {
                    w
                } else {
                    w + 1
                };
                assert(list[w0] == x);
                assert(w0 != j);
                assert(list[w0] != list[j]);
            }
            if list.contains(x) && x != id {
                let w = choose|w: int| 0 <= w < list.len() && list[w] == x;
                let w1 = if w < j {
                    w
                } else {
                    w - 1
                };
                assert(rest[w1] == x);
            }
        },
        None => {
            if list.contains(x) {
                let w = choose|w: int| 0 <= w < list.len() && list[w] == x;
                assert(list[w] != id);
            }
        },
    }
}

/// After `id` is listed under `user`, the index lists what it listed, and
/// `id` under `user`.
pub proof fn lemma_listed_after_add(
    index: Seq<UserPoolsState>,
    user: Address,
    id: Hash32,
    u: Address,
    x: Hash32,
)
    ensures
        listed(index_add(index, user, id), u, x) == (listed(index, u, x) || (u == user && x == id)),
{
    let users = index_users(index);
    let after = index_add(index, user, id);
    lemma_position_is_first(users, user);
    lemma_position_is_first(users, u);
    match position(users, user) {
        Some(k) => {
            if !index[k].pools.contains(id) {
                let longer = index[k].pools.push(id);
                assert(index_users(after) =~= users);
                if u == user {
                    assert(pools_of(after, u) == longer);
                    if longer.contains(x) {
                        let w = choose|w: int| 0 <= w < longer.len() && longer[w] == x;
                        if w < index[k].pools.len() {
                            assert(index[k].pools[w] == x);
                        }
                    }
                    if index[k].pools.contains(x) {
                        let w = choose|w: int|
                            0 <= w < index[k].pools.len() && index[k].pools[w] == x;
                        assert(longer[w] == x);
                    }
                    if x == id {
                        assert(longer[longer.len() - 1] == x);
                    }
                } else {
                    match position(users, u) {
                        Some(m) => {
                            assert(users[m] == u);
                            assert(after[m] == index[m]);
                        },
                        None => {},
                    }
                }
            }
        },
        None => {
            assert(index_users(after) =~= users.push(user));
            lemma_position_push(users, user, u);
            if u == user {
                assert(pools_of(after, u) == seq![id]);
                assert(seq![id][0] == id);
            } else {
                match position(users, u) {
                    Some(m) => {
                        assert(after[m] == index[m]);
                    },
                    None => {},
                }
            }
        },
    }
}

/// After `id` is taken off the list of `user`, the index lists what it
/// listed, but for `id` under `user`.
pub proof fn lemma_listed_after_remove(
    index: Seq<UserPoolsState>,
    user: Address,
    id: Hash32,
    u: Address,
    x: Hash32,
)
    requires
        forall|k: int| 0 <= k < index.len() ==> distinct((#[trigger] index[k]).pools),
    ensures
        listed(index_remove(index, user, id), u, x) == (listed(index, u, x) && !(u == user && x
            == id)),
{
    let users = index_users(index);
    let after = index_remove(index, user, id);
    lemma_position_is_first(users, user);
    lemma_position_is_first(users, u);
    match position(users, user) {
        Some(k) => {
            assert(index_users(after) =~= users);
            assert(distinct(index[k].pools));
            lemma_without_contains(index[k].pools, id, x);
            if u != user {
                match position(users, u) {
                    Some(m) => {
                        assert(users[m] == u);
                        assert(after[m] == index[m]);
                    },
                    None => {},
                }
            }
        },
        None => {},
    }
}

/// With one member more, the parties that find the pool in their lists are
/// those that did, and the new member unless it is a recipient.
pub proof fn lemma_browses_push(members: Seq<Member>, m: Member, u: Address)
    ensures
        browses(members.push(m), u) == (browses(members, u) || (m.address == u && m.role
            != MemberRole::Recipient)),
{
    let longer = members.push(m);
    if browses(members, u) {
        let w = choose|w: int|
            0 <= w < members.len() && members[w].address == u && members[w].role
                != MemberRole::Recipient;
        assert(longer[w] == members[w]);
    }
    if m.address == u && m.role != MemberRole::Recipient {
        assert(longer[members.len() as int] == m);
    }
    if browses(longer, u) {
        let w = choose|w: int|
            0 <= w < longer.len() && longer[w].address == u && longer[w].role
                != MemberRole::Recipient;
        if w < members.len() {
            assert(members[w] == longer[w]);
        }
    }
}

/// With one member less, where no party is a member twice, the parties that
/// find the pool in their lists are those that did, but for the one removed.
pub proof fn lemma_browses_remove(members: Seq<Member>, j: int, u: Address)
    requires
        0 <= j < members.len(),
        distinct(member_addresses(members)),
    ensures
        browses(members.remove(j), u) == (browses(members, u) && u != members[j].address),
{
    let rest = members.remove(j);
    let keys = member_addresses(members);
    if browses(rest, u) {
        let w = choose|w: int|
            0 <= w < rest.len() && rest[w].address == u && rest[w].role != MemberRole::Recipient;
        let w0 = if w < j {
            w
        } else {
            w + 1
        };
        assert(members[w0] == rest[w]);
        assert(keys[w0] != keys[j]);
    }
    if browses(members, u) && u != members[j].address {
        let w = choose|w: int|
            0 <= w < members.len() && members[w].address == u && members[w].role
                != MemberRole::Recipient;
        let w1 = if w < j {
            w
        } else {
            w - 1
        };
        assert(rest[w1] == members[w]);
    }
}

/// Listing an existing pool under a party keeps the index well formed.
pub proof fn lemma_index_add_wf(
    index: Seq<UserPoolsState>,
    pools: Seq<PoolState>,
    user: Address,
    id: Hash32,
)
    requires
        index_wf(index, pools),
        position(pool_ids(pools), id) is Some,
    ensures
        index_wf(index_add(index, user, id), pools),
{
    let users = index_users(index);
    let after = index_add(index, user, id);
    lemma_position_is_first(users, user);
    match position(users, user) {
        Some(k) => {
            if !index[k].pools.contains(id) {
                let listed = index[k].pools.push(id);
                assert(index_users(after) =~= users);
                assert(distinct(listed)) by {
                    assert forall|a: int, b: int| 0 <= a < b < listed.len() implies listed[a]
                        != listed[b] by {
                        if b == listed.len() - 1 {
                            assert(index[k].pools.contains(index[k].pools[a]));
                        }
                    }
                }
                assert forall|m: int| 0 <= m < after.len() implies distinct(
                    (#[trigger] after[m]).pools,
                ) by {
                    if m != k {
                        assert(after[m] == index[m]);
                    }
                }
                assert forall|m: int, j: int|
                    0 <= m < after.len() && 0 <= j < after[m].pools.len() implies position(
                    pool_ids(pools),
                    #[trigger] after[m].pools[j],
                ) is Some by {
                    if m != k {
                        assert(after[m].pools[j] == index[m].pools[j]);
                    } else if j < index[k].pools.len() {
                        assert(after[m].pools[j] == index[k].pools[j]);
                    }
                }
            }
        },
        None => {
            assert(index_users(after) =~= users.push(user));
            assert forall|m: int| 0 <= m < after.len() implies distinct(
                (#[trigger] after[m]).pools,
            ) by {
                if m < index.len() {
                    assert(after[m] == index[m]);
                }
            }
            assert forall|m: int, j: int|
                0 <= m < after.len() && 0 <= j < after[m].pools.len() implies position(
                pool_ids(pools),
                #[trigger] after[m].pools[j],
            ) is Some by {
                if m < index.len() {
                    assert(after[m].pools[j] == index[m].pools[j]);
                }
            }
        },
    }
}

/// Taking a pool off a party's list keeps the index well formed.
pub proof fn lemma_index_remove_wf(
    index: Seq<UserPoolsState>,
    pools: Seq<PoolState>,
    user: Address,
    id: Hash32,
)
    requires
        index_wf(index, pools),
    ensures
        index_wf(index_remove(index, user, id), pools),
{
    let users = index_users(index);
    let after = index_remove(index, user, id);
    lemma_position_is_first(users, user);
    match position(users, user) {
        Some(k) => {
            let before = index[k].pools;
            let listed = without(before, id);
            lemma_position_is_first(before, id);
            assert(index_users(after) =~= users);
            assert(distinct(listed) && forall|j: int|
                0 <= j < listed.len() ==> before.contains(#[trigger] listed[j])) by {
                match position(before, id) {
                    Some(r) => {
                        assert forall|j: int| 0 <= j < listed.len() implies before.contains(
                            #[trigger] listed[j],
                        ) by {
                            if j < r {
                                assert(listed[j] == before[j]);
                            } else {
                                assert(listed[j] == before[j + 1]);
                            }
                        }
                        assert forall|a: int, b: int| 0 <= a < b < listed.len() implies listed[a]
                            != listed[b] by {
                            let a0 = if a < r {
                                a
                            } else {
                                a + 1
                            };
                            let b0 = if b < r {
                                b
                            } else {
                                b + 1
                            };
                            assert(listed[a] == before[a0] && listed[b] == before[b0]);
                        }
                    },
                    None => {
                        assert forall|j: int| 0 <= j < listed.len() implies before.contains(
                            #[trigger] listed[j],
                        ) by {
                            assert(listed[j] == before[j]);
                        }
                    },
                }
            }
            assert forall|m: int| 0 <= m < after.len() implies distinct(
                (#[trigger] after[m]).pools,
            ) by {
                if m != k {
                    assert(after[m] == index[m]);
                }
            }
            assert forall|m: int, j: int|
                0 <= m < after.len() && 0 <= j < after[m].pools.len() implies position(
                pool_ids(pools),
                #[trigger] after[m].pools[j],
            ) is Some by {
                if m != k {
                    assert(after[m].pools[j] == index[m].pools[j]);
                } else {
                    assert(before.contains(listed[j]));
                    let w = choose|w: int| 0 <= w < before.len() && before[w] == listed[j];
                    assert(index[k].pools[w] == listed[j]);
                }
            }
        },
        None => {},
    }
}

/// An index that is well formed over some pools stays so over pools that
/// have every identifier the former had.
pub proof fn lemma_index_wf_over(
    index: Seq<UserPoolsState>,
    pools: Seq<PoolState>,
    later: Seq<PoolState>,
)
    requires
        index_wf(index, pools),
        forall|id: Hash32|
            position(pool_ids(pools), id) is Some ==> position(pool_ids(later), id) is Some,
    ensures
        index_wf(index, later),
{
}

/// Adding a contribution adds its amount to the sum.
pub proof fn lemma_contributed_push(log: Seq<Contribution>, c: Contribution)
    ensures
        contributed(log.push(c)) == contributed(log) + c.amount,
{
    assert(log.push(c).drop_last() =~= log);
}

/// Adding a withdrawal adds its amount to the sum if it is settled.
pub proof fn lemma_released_push(log: Seq<Withdrawal>, w: Withdrawal)
    ensures
        released(log.push(w)) == released(log) + if is_settled(w.status) {
            w.amount as int
        } else {
            0
        },
{
    assert(log.push(w).drop_last() =~= log);
}

/// Replacing one withdrawal changes the sum by the difference of what the
/// two count for.
pub proof fn lemma_released_update(log: Seq<Withdrawal>, i: int, w: Withdrawal)
    requires
        0 <= i < log.len(),
    ensures
        released(log.update(i, w)) == released(log) - (if is_settled(log[i].status) {
            log[i].amount as int
        } else {
            0
        }) + (if is_settled(w.status) {
            w.amount as int
        } else {
            0
        }),
    decreases log.len(),
{
    let after = log.update(i, w);
    if i == log.len() - 1 {
        assert(after.drop_last() =~= log.drop_last());
    } else {
        assert(after.drop_last() =~= log.drop_last().update(i, w));
        lemma_released_update(log.drop_last(), i, w);
    }
}


/// The sum over the first `k` contributions and the `k`-th makes the sum
/// over the first `k + 1`.
pub proof fn lemma_contributed_step(log: Seq<Contribution>, k: int)
    requires
        0 <= k < log.len(),
    ensures
        contributed(log.take(k + 1)) == contributed(log.take(k)) + log[k].amount,
{
    assert(log.take(k + 1) =~= log.take(k).push(log[k]));
    lemma_contributed_push(log.take(k), log[k]);
}

/// The sum over the first `k` withdrawals and what the `k`-th counts for
/// makes the sum over the first `k + 1`.
pub proof fn lemma_released_step(log: Seq<Withdrawal>, k: int)
    requires
        0 <= k < log.len(),
    ensures
        released(log.take(k + 1)) == released(log.take(k)) + if is_settled(log[k].status) {
            log[k].amount as int
        } else {
            0
        },
{
    assert(log.take(k + 1) =~= log.take(k).push(log[k]));
    lemma_released_push(log.take(k), log[k]);
}

/// Where no amount is negative, the sum over a prefix is at most the sum
/// over the whole log.
pub proof fn lemma_contributed_prefix(log: Seq<Contribution>, k: int)
    requires
        0 <= k <= log.len(),
        forall|i: int| 0 <= i < log.len() ==> (#[trigger] log[i]).amount >= 0,
    ensures
        contributed(log.take(k)) <= contributed(log),
    decreases log.len() - k,
{
    if k == log.len() {
        assert(log.take(k) =~= log);
    } else {
        lemma_contributed_step(log, k);
        lemma_contributed_prefix(log, k + 1);
    }
}

/// Where no amount is negative, the sum over a prefix is at most the sum
/// over the whole log.
pub proof fn lemma_released_prefix(log: Seq<Withdrawal>, k: int)
    requires
        0 <= k <= log.len(),
        forall|i: int| 0 <= i < log.len() ==> (#[trigger] log[i]).amount >= 0,
    ensures
        released(log.take(k)) <= released(log),
    decreases log.len() - k,
{
    if k == log.len() {
        assert(log.take(k) =~= log);
    } else {
        lemma_released_step(log, k);
        lemma_released_prefix(log, k + 1);
    }
}

} // verus!
