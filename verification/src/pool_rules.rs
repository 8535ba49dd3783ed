//! The rules of the fund pool engine, as functions on the model of the
//! ledger: what each operation returns and what it leaves behind.
use vstd::prelude::*;
use crate::digest::Hash32;
use crate::error::Error;
use crate::family_pool::{
    has_role, index_add, index_remove, index_users, index_wf, is_member, lemma_browses_push,
    lemma_browses_remove, lemma_contributed_push, lemma_index_add_wf, lemma_index_remove_wf,
    lemma_index_wf_over, lemma_listed_after_add, lemma_listed_after_remove, lemma_released_push,
    lemma_released_update, listed, listing_agrees, member_addresses, pool_ids, pools_of, pools_wf,
    withdrawal_ids, Contribution, FamilyPool, LedgerState, Member, MemberRole, PoolState,
    Withdrawal, WithdrawalPeriod, WithdrawalStatus,
};
use crate::host::{CallContext, Direction, Transfer, TransferOutcome};
use crate::identity::Address;
use crate::search::{distinct, lemma_position_is_first, lemma_position_push, position};

verus! {

/// The pool as `create_pool` makes it.
pub open spec fn opened_pool(
    ctx: CallContext,
    creator: Address,
    name: String,
    token: Address,
    withdrawal_limit: i128,
    withdrawal_period: WithdrawalPeriod,
    id: Hash32,
) -> PoolState {
    PoolState {
        pool: FamilyPool {
            id,
            name,
            creator,
            token,
            balance: 0,
            withdrawal_limit,
            withdrawal_period,
            created_at: ctx.timestamp,
        },
        members: seq![Member { address: creator, role: MemberRole::Admin, added_at: ctx.timestamp }],
        contributions: Seq::empty(),
        withdrawals: Seq::empty(),
    }
}

impl PoolState {
    /// The pool with another balance.
    pub open spec fn with_balance(self, balance: int) -> PoolState {
        PoolState { pool: FamilyPool { balance: balance as i128, ..self.pool }, ..self }
    }
}

impl LedgerState {
    /// The position of the pool with the given identifier.
    pub open spec fn find_pool(self, id: Hash32) -> Option<int> {
        position(pool_ids(self.pools), id)
    }

    /// The number of contributions that the pool has logged; zero for an
    /// unknown pool.
    pub open spec fn contribution_count(self, pool_id: Hash32) -> u64 {
        match self.find_pool(pool_id) {
            Some(i) => self.pools[i].contributions.len() as u64,
            None => 0,
        }
    }

    /// The number of withdrawals that the pool has logged; zero for an
    /// unknown pool.
    pub open spec fn withdrawal_count(self, pool_id: Hash32) -> u64 {
        match self.find_pool(pool_id) {
            Some(i) => self.pools[i].withdrawals.len() as u64,
            None => 0,
        }
    }

    /// What `get_pool` returns: the head record of the pool.
    pub open spec fn get_pool(self, pool_id: Hash32) -> Result<FamilyPool, Error> {
        match self.find_pool(pool_id) {
            Some(i) => Ok(self.pools[i].pool),
            None => Err(Error::NotFound),
        }
    }

    /// What `get_pool_members` returns: the members, in the order in which
    /// they were added.
    pub open spec fn get_pool_members(self, pool_id: Hash32) -> Result<Seq<Member>, Error> {
        match self.find_pool(pool_id) {
            Some(i) => Ok(self.pools[i].members),
            None => Err(Error::NotFound),
        }
    }

    /// What `get_pool_contributions` returns: the receipts, oldest first.
    pub open spec fn get_pool_contributions(self, pool_id: Hash32) -> Result<
        Seq<Contribution>,
        Error,
    > {
        match self.find_pool(pool_id) {
            Some(i) => Ok(self.pools[i].contributions),
            None => Err(Error::NotFound),
        }
    }

    /// What `get_pool_withdrawals` returns: the requests, oldest first.
    pub open spec fn get_pool_withdrawals(self, pool_id: Hash32) -> Result<Seq<Withdrawal>, Error> {
        match self.find_pool(pool_id) {
            Some(i) => Ok(self.pools[i].withdrawals),
            None => Err(Error::NotFound),
        }
    }

    /// What `get_user_pools` returns: the head records of the pools listed
    /// under the party, in the order in which they were listed.
    pub open spec fn get_user_pools(self, user: Address) -> Seq<FamilyPool> {
        let ids = pools_of(self.user_pools, user);
        Seq::new(ids.len(), |j: int| self.pools[self.find_pool(ids[j])->0].pool)
    }

    /// The ledger with the pool at position `i` replaced.
    pub open spec fn with_pool(self, i: int, pool: PoolState) -> LedgerState {
        LedgerState { pools: self.pools.update(i, pool), ..self }
    }

    /// The outcome of `initialize`: the first call, made by the party itself,
    /// sets the administrator.
    pub open spec fn initialize(self, ctx: CallContext, admin: Address) -> (LedgerState, Result<
        (),
        Error,
    >) {
        if self.admin is Some {
            (self, Err(Error::AlreadyInitialized))
        } else if !ctx.authorizes(admin) {
            (self, Err(Error::NotAuthorized))
        } else {
            (LedgerState { admin: Some(admin), ..self }, Ok(()))
        }
    }

    /// The outcome of creating a pool under the identifier `id`: the pool is
    /// added with a balance of zero, empty logs and the creator as its only
    /// member, an admin, and is listed under the creator.
    pub open spec fn create_pool(
        self,
        ctx: CallContext,
        creator: Address,
        name: String,
        token: Address,
        withdrawal_limit: i128,
        withdrawal_period: WithdrawalPeriod,
        id: Hash32,
    ) -> (LedgerState, Result<Hash32, Error>) {
        if !ctx.authorizes(creator) {
            (self, Err(Error::NotAuthorized))
        } else if withdrawal_limit <= 0 {
            (self, Err(Error::InvalidArgument))
        } else if self.find_pool(id) is Some {
            (self, Err(Error::AlreadyExists))
        } else {
            (
                LedgerState {
                    pools: self.pools.push(
                        opened_pool(
                            ctx,
                            creator,
                            name,
                            token,
                            withdrawal_limit,
                            withdrawal_period,
                            id,
                        ),
                    ),
                    user_pools: index_add(self.user_pools, creator, id),
                    ..self
                },
                Ok(id),
            )
        }
    }

    /// The outcome of `add_member`: an admin of the pool adds a party that is
    /// not yet a member; unless it is a recipient, the pool is listed under
    /// it.
    pub open spec fn add_member(
        self,
        ctx: CallContext,
        pool_id: Hash32,
        admin: Address,
        new_member: Address,
        role: MemberRole,
    ) -> (LedgerState, Result<(), Error>) {
        if !ctx.authorizes(admin) {
            (self, Err(Error::NotAuthorized))
        } else {
            match self.find_pool(pool_id) {
                None => (self, Err(Error::NotFound)),
                Some(i) => {
                    let p = self.pools[i];
                    if !has_role(p.members, admin, MemberRole::Admin) {
                        (self, Err(Error::NotAuthorized))
                    } else if is_member(p.members, new_member) {
                        (self, Err(Error::AlreadyExists))
                    } else {
                        (
                            LedgerState {
                                pools: self.pools.update(
                                    i,
                                    PoolState {
                                        members: p.members.push(
                                            Member {
                                                address: new_member,
                                                role,
                                                added_at: ctx.timestamp,
                                            },
                                        ),
                                        ..p
                                    },
                                ),
                                user_pools: if role != MemberRole::Recipient {
                                    index_add(self.user_pools, new_member, pool_id)
                                } else {
                                    self.user_pools
                                },
                                ..self
                            },
                            Ok(()),
                        )
                    }
                },
            }
        }
    }

    /// The outcome of `remove_member`: an admin of the pool removes a member
    /// other than the creator, and the pool is no longer listed under it.
    pub open spec fn remove_member(
        self,
        ctx: CallContext,
        pool_id: Hash32,
        admin: Address,
        target: Address,
    ) -> (LedgerState, Result<(), Error>) {
        if !ctx.authorizes(admin) {
            (self, Err(Error::NotAuthorized))
        } else {
            match self.find_pool(pool_id) {
                None => (self, Err(Error::NotFound)),
                Some(i) => {
                    let p = self.pools[i];
                    if !has_role(p.members, admin, MemberRole::Admin) {
                        (self, Err(Error::NotAuthorized))
                    } else if target == p.pool.creator {
                        (self, Err(Error::Forbidden))
                    } else {
                        match position(member_addresses(p.members), target) {
                            None => (self, Err(Error::NotFound)),
                            Some(j) => (
                                LedgerState {
                                    pools: self.pools.update(
                                        i,
                                        PoolState { members: p.members.remove(j), ..p },
                                    ),
                                    user_pools: index_remove(self.user_pools, target, pool_id),
                                    ..self
                                },
                                Ok(()),
                            ),
                        }
                    }
                },
            }
        }
    }

    /// The transfer that a contribution needs, or why the contribution is
    /// refused before any transfer.
    pub open spec fn contribution_transfer(
        self,
        ctx: CallContext,
        pool_id: Hash32,
        contributor: Address,
        amount: i128,
    ) -> Result<Transfer, Error> {
        if !ctx.authorizes(contributor) {
            Err(Error::NotAuthorized)
        } else if amount <= 0 {
            Err(Error::InvalidArgument)
        } else {
            match self.find_pool(pool_id) {
                None => Err(Error::NotFound),
                Some(i) => {
                    let p = self.pools[i];
                    if !is_member(p.members, contributor) {
                        Err(Error::NotMember)
                    } else if p.pool.balance + amount > i128::MAX {
                        Err(Error::InvalidArgument)
                    } else {
                        Ok(
                            Transfer {
                                token: p.pool.token,
                                direction: Direction::Deposit,
                                party: contributor,
                                amount,
                            },
                        )
                    }
                },
            }
        }
    }

    /// The outcome of a contribution that is recorded under `id`: once the
    /// transfer has settled, a receipt is appended and the balance grows by
    /// the amount.
    pub open spec fn contribute(
        self,
        ctx: CallContext,
        pool_id: Hash32,
        contributor: Address,
        amount: i128,
        outcome: TransferOutcome,
        id: Hash32,
    ) -> (LedgerState, Result<Hash32, Error>) {
        match self.contribution_transfer(ctx, pool_id, contributor, amount) {
            Err(e) => (self, Err(e)),
            Ok(_) => if outcome == TransferOutcome::Failed {
                (self, Err(Error::TransferFailed))
            } else {
                let i = self.find_pool(pool_id)->0;
                let p = self.pools[i];
                (
                    self.with_pool(
                        i,
                        PoolState {
                            contributions: p.contributions.push(
                                Contribution {
                                    id,
                                    contributor,
                                    amount,
                                    token: p.pool.token,
                                    created_at: ctx.timestamp,
                                },
                            ),
                            ..p.with_balance(p.pool.balance + amount)
                        },
                    ),
                    Ok(id),
                )
            },
        }
    }

    /// The transfer that a withdrawal request under the identifier `id`
    /// needs, or why the request is refused before any transfer. The
    /// requester has to be a member; then the amount is held against the
    /// limit, and only then against the balance. A member's own request needs
    /// no transfer; an admin's request is paid out at once. An identifier
    /// that a withdrawal of the pool has already is refused.
    pub open spec fn withdrawal_transfer(
        self,
        ctx: CallContext,
        pool_id: Hash32,
        requester: Address,
        recipient: Address,
        amount: i128,
        id: Hash32,
    ) -> Result<Option<Transfer>, Error> {
        if !ctx.authorizes(requester) {
            Err(Error::NotAuthorized)
        } else if amount <= 0 {
            Err(Error::InvalidArgument)
        } else {
            match self.find_pool(pool_id) {
                None => Err(Error::NotFound),
                Some(i) => {
                    let p = self.pools[i];
                    let by_admin = has_role(p.members, requester, MemberRole::Admin);
                    if !is_member(p.members, requester) {
                        Err(Error::NotMember)
                    } else if amount > p.pool.withdrawal_limit {
                        Err(Error::LimitExceeded)
                    } else if amount > p.pool.balance {
                        Err(Error::InsufficientFunds)
                    } else if recipient != requester && !by_admin {
                        Err(Error::Forbidden)
                    } else if recipient != requester && !has_role(
                        p.members,
                        recipient,
                        MemberRole::Recipient,
                    ) {
                        Err(Error::InvalidRecipient)
                    } else if position(withdrawal_ids(p.withdrawals), id) is Some {
                        Err(Error::AlreadyExists)
                    } else if by_admin {
                        Ok(
                            Some(
                                Transfer {
                                    token: p.pool.token,
                                    direction: Direction::Payout,
                                    party: recipient,
                                    amount,
                                },
                            ),
                        )
                    } else {
                        Ok(None)
                    }
                },
            }
        }
    }

    /// The outcome of a withdrawal request that is recorded under `id`: a
    /// member's request is logged as pending; an admin's request, once its
    /// transfer has settled, is logged as approved and taken off the balance.
    pub open spec fn request_withdrawal(
        self,
        ctx: CallContext,
        pool_id: Hash32,
        requester: Address,
        recipient: Address,
        amount: i128,
        outcome: TransferOutcome,
        id: Hash32,
    ) -> (LedgerState, Result<Hash32, Error>) {
        match self.withdrawal_transfer(ctx, pool_id, requester, recipient, amount, id) {
            Err(e) => (self, Err(e)),
            Ok(transfer) => if transfer is Some && outcome == TransferOutcome::Failed {
                (self, Err(Error::TransferFailed))
            } else {
                let i = self.find_pool(pool_id)->0;
                let p = self.pools[i];
                let paid = transfer is Some;
                let request = Withdrawal {
                    id,
                    requester,
                    recipient,
                    amount,
                    token: p.pool.token,
                    status: if paid {
                        WithdrawalStatus::Approved
                    } else {
                        WithdrawalStatus::Pending
                    },
                    created_at: ctx.timestamp,
                    completed_at: if paid {
                        ctx.timestamp
                    } else {
                        0
                    },
                };
                (
                    self.with_pool(
                        i,
                        PoolState {
                            withdrawals: p.withdrawals.push(request),
                            ..p.with_balance(
                                if paid {
                                    p.pool.balance - amount
                                } else {
                                    p.pool.balance as int
                                },
                            )
                        },
                    ),
                    Ok(id),
                )
            },
        }
    }

    /// The transfer that deciding a withdrawal needs, or why the decision is
    /// refused before any transfer. A rejection needs none.
    pub open spec fn settlement_transfer(
        self,
        ctx: CallContext,
        pool_id: Hash32,
        withdrawal_id: Hash32,
        admin: Address,
        approve: bool,
    ) -> Result<Option<Transfer>, Error> {
        if !ctx.authorizes(admin) {
            Err(Error::NotAuthorized)
        } else {
            match self.find_pool(pool_id) {
                None => Err(Error::NotFound),
                Some(i) => {
                    let p = self.pools[i];
                    if !has_role(p.members, admin, MemberRole::Admin) {
                        Err(Error::NotAuthorized)
                    } else {
                        match position(withdrawal_ids(p.withdrawals), withdrawal_id) {
                            None => Err(Error::NotFound),
                            Some(j) => {
                                let w = p.withdrawals[j];
                                if w.status != WithdrawalStatus::Pending {
                                    Err(Error::InvalidState)
                                } else if !approve {
                                    Ok(None)
                                } else if p.pool.balance < w.amount {
                                    Err(Error::InsufficientFunds)
                                } else {
                                    Ok(
                                        Some(
                                            Transfer {
                                                token: p.pool.token,
                                                direction: Direction::Payout,
                                                party: w.recipient,
                                                amount: w.amount,
                                            },
                                        ),
                                    )
                                }
                            },
                        }
                    }
                },
            }
        }
    }

    /// The outcome of deciding a withdrawal: a pending request becomes
    /// rejected, or, once its transfer has settled, approved and taken off
    /// the balance.
    pub open spec fn process_withdrawal(
        self,
        ctx: CallContext,
        pool_id: Hash32,
        withdrawal_id: Hash32,
        admin: Address,
        approve: bool,
        outcome: TransferOutcome,
    ) -> (LedgerState, Result<(), Error>) {
        match self.settlement_transfer(ctx, pool_id, withdrawal_id, admin, approve) {
            Err(e) => (self, Err(e)),
            Ok(transfer) => if transfer is Some && outcome == TransferOutcome::Failed {
                (self, Err(Error::TransferFailed))
            } else {
                let i = self.find_pool(pool_id)->0;
                let p = self.pools[i];
                let j = position(withdrawal_ids(p.withdrawals), withdrawal_id)->0;
                let w = p.withdrawals[j];
                let decided = Withdrawal {
                    status: if approve {
                        WithdrawalStatus::Approved
                    } else {
                        WithdrawalStatus::Rejected
                    },
                    completed_at: ctx.timestamp,
                    ..w
                };
                (
                    self.with_pool(
                        i,
                        PoolState {
                            withdrawals: p.withdrawals.update(j, decided),
                            ..p.with_balance(
                                if approve {
                                    p.pool.balance - w.amount
                                } else {
                                    p.pool.balance as int
                                },
                            )
                        },
                    ),
                    Ok(()),
                )
            },
        }
    }

    /// The outcome of `update_withdrawal_limit`: an admin of the pool sets a
    /// positive limit.
    pub open spec fn update_withdrawal_limit(
        self,
        ctx: CallContext,
        pool_id: Hash32,
        admin: Address,
        new_limit: i128,
    ) -> (LedgerState, Result<(), Error>) {
        if !ctx.authorizes(admin) {
            (self, Err(Error::NotAuthorized))
        } else if new_limit <= 0 {
            (self, Err(Error::InvalidArgument))
        } else {
            match self.find_pool(pool_id) {
                None => (self, Err(Error::NotFound)),
                Some(i) => {
                    let p = self.pools[i];
                    if !has_role(p.members, admin, MemberRole::Admin) {
                        (self, Err(Error::NotAuthorized))
                    } else {
                        (
                            self.with_pool(
                                i,
                                PoolState {
                                    pool: FamilyPool { withdrawal_limit: new_limit, ..p.pool },
                                    ..p
                                },
                            ),
                            Ok(()),
                        )
                    }
                },
            }
        }
    }

    /// The outcome of `update_withdrawal_period`: an admin of the pool sets
    /// the period.
    pub open spec fn update_withdrawal_period(
        self,
        ctx: CallContext,
        pool_id: Hash32,
        admin: Address,
        new_period: WithdrawalPeriod,
    ) -> (LedgerState, Result<(), Error>) {
        if !ctx.authorizes(admin) {
            (self, Err(Error::NotAuthorized))
        } else {
            match self.find_pool(pool_id) {
                None => (self, Err(Error::NotFound)),
                Some(i) => {
                    let p = self.pools[i];
                    if !has_role(p.members, admin, MemberRole::Admin) {
                        (self, Err(Error::NotAuthorized))
                    } else {
                        (
                            self.with_pool(
                                i,
                                PoolState {
                                    pool: FamilyPool { withdrawal_period: new_period, ..p.pool },
                                    ..p
                                },
                            ),
                            Ok(()),
                        )
                    }
                },
            }
        }
    }
}


/// Replacing a pool by a well-formed pool of the same identifier keeps the
/// pools well formed and the index well formed over them.
pub proof fn lemma_with_pool_parts(s: LedgerState, i: int, p: PoolState)
    requires
        s.wf(),
        0 <= i < s.pools.len(),
        p.wf(),
        p.pool.id == s.pools[i].pool.id,
    ensures
        pools_wf(s.with_pool(i, p).pools),
        index_wf(s.user_pools, s.with_pool(i, p).pools),
        pool_ids(s.with_pool(i, p).pools) == pool_ids(s.pools),
{
    let after = s.pools.update(i, p);
    assert(pool_ids(after) =~= pool_ids(s.pools));
    assert forall|k: int| 0 <= k < after.len() implies (#[trigger] after[k]).wf() by {
        if k != i {
            assert(after[k] == s.pools[k]);
        }
    }
    lemma_index_wf_over(s.user_pools, s.pools, after);
}

/// Replacing a pool by a well-formed pool of the same identifier and the
/// same members keeps the ledger well formed.
pub proof fn lemma_with_pool_wf(s: LedgerState, i: int, p: PoolState)
    requires
        s.wf(),
        0 <= i < s.pools.len(),
        p.wf(),
        p.pool.id == s.pools[i].pool.id,
        p.members == s.pools[i].members,
    ensures
        s.with_pool(i, p).wf(),
        pool_ids(s.with_pool(i, p).pools) == pool_ids(s.pools),
{
    lemma_with_pool_parts(s, i, p);
    let after = s.pools.update(i, p);
    assert forall|k: int, u: Address| 0 <= k < after.len() implies #[trigger] listing_agrees(
        s.user_pools,
        after,
        k,
        u,
    ) by {
        assert(listing_agrees(s.user_pools, s.pools, k, u));
        if k != i {
            assert(after[k] == s.pools[k]);
        }
    }
}

/// Where a pool is found, its position is in range and holds that pool.
pub proof fn lemma_find_pool(s: LedgerState, id: Hash32)
    ensures
        match s.find_pool(id) {
            Some(i) => 0 <= i < s.pools.len() && s.pools[i].pool.id == id,
            None => forall|k: int| 0 <= k < s.pools.len() ==> s.pools[k].pool.id != id,
        },
{
    lemma_position_is_first(pool_ids(s.pools), id);
    match s.find_pool(id) {
        Some(i) => {},
        None => {
            assert forall|k: int| 0 <= k < s.pools.len() implies s.pools[k].pool.id != id by {
                assert(pool_ids(s.pools)[k] != id);
            }
        },
    }
}

/// `initialize` keeps the ledger well formed.
pub proof fn lemma_initialize_wf(s: LedgerState, ctx: CallContext, admin: Address)
    requires
        s.wf(),
    ensures
        s.initialize(ctx, admin).0.wf(),
{
}

/// `create_pool` keeps the ledger well formed.
pub proof fn lemma_create_pool_wf(
    s: LedgerState,
    ctx: CallContext,
    creator: Address,
    name: String,
    token: Address,
    withdrawal_limit: i128,
    withdrawal_period: WithdrawalPeriod,
    id: Hash32,
)
    requires
        s.wf(),
    ensures
        s.create_pool(ctx, creator, name, token, withdrawal_limit, withdrawal_period, id).0.wf(),
{
    let out = s.create_pool(ctx, creator, name, token, withdrawal_limit, withdrawal_period, id);
    if out.1 is Ok {
        let fresh = opened_pool(ctx, creator, name, token, withdrawal_limit, withdrawal_period, id);
        let after = s.pools.push(fresh);
        lemma_find_pool(s, id);
        assert(fresh.members[0].address == creator);
        assert(fresh.wf());
        assert(pool_ids(after) =~= pool_ids(s.pools).push(id));
        assert forall|k: int| 0 <= k < after.len() implies (#[trigger] after[k]).wf() by {
            if k < s.pools.len() {
                assert(after[k] == s.pools[k]);
            }
        }
        assert(distinct(pool_ids(after))) by {
            assert forall|a: int, b: int| 0 <= a < b < after.len() implies pool_ids(after)[a]
                != pool_ids(after)[b] by {
                if b == s.pools.len() {
                    assert(s.pools[a].pool.id != id);
                } else {
                    assert(pool_ids(s.pools)[a] != pool_ids(s.pools)[b]);
                }
            }
        }
        assert forall|other: Hash32| position(pool_ids(s.pools), other) is Some implies position(
            pool_ids(after),
            other,
        ) is Some by {
            lemma_position_push(pool_ids(s.pools), id, other);
        }
        lemma_index_wf_over(s.user_pools, s.pools, after);
        lemma_position_push(pool_ids(s.pools), id, id);
        lemma_index_add_wf(s.user_pools, after, creator, id);
        let index = index_add(s.user_pools, creator, id);
        assert forall|k: int, u: Address| 0 <= k < after.len() implies #[trigger] listing_agrees(
            index,
            after,
            k,
            u,
        ) by {
            lemma_listed_after_add(s.user_pools, creator, id, u, after[k].pool.id);
            if k < s.pools.len() {
                assert(listing_agrees(s.user_pools, s.pools, k, u));
                assert(after[k] == s.pools[k]);
                assert(s.pools[k].pool.id != id);
            } else {
                lemma_listed_pool_exists(s, u, id);
                if u == creator {
                    assert(fresh.members[0].address == u);
                }
            }
        }
    }
}

/// A pool that the index of a well-formed ledger lists under some party is
/// on the ledger.
pub proof fn lemma_listed_pool_exists(s: LedgerState, u: Address, id: Hash32)
    requires
        s.wf(),
    ensures
        listed(s.user_pools, u, id) ==> s.find_pool(id) is Some,
{
    if listed(s.user_pools, u, id) {
        lemma_position_is_first(index_users(s.user_pools), u);
        let k = position(index_users(s.user_pools), u)->0;
        let w = choose|w: int|
            0 <= w < s.user_pools[k].pools.len() && s.user_pools[k].pools[w] == id;
        assert(position(pool_ids(s.pools), s.user_pools[k].pools[w]) is Some);
    }
}

/// `add_member` keeps the ledger well formed.
pub proof fn lemma_add_member_wf(
    s: LedgerState,
    ctx: CallContext,
    pool_id: Hash32,
    admin: Address,
    new_member: Address,
    role: MemberRole,
)
    requires
        s.wf(),
    ensures
        s.add_member(ctx, pool_id, admin, new_member, role).0.wf(),
{
    let out = s.add_member(ctx, pool_id, admin, new_member, role);
    if out.1 is Ok {
        lemma_find_pool(s, pool_id);
        let i = s.find_pool(pool_id)->0;
        let p = s.pools[i];
        let m = Member { address: new_member, role, added_at: ctx.timestamp };
        let q = PoolState { members: p.members.push(m), ..p };
        assert(p.wf());
        lemma_position_is_first(member_addresses(p.members), new_member);
        assert(member_addresses(q.members) =~= member_addresses(p.members).push(new_member));
        let c = choose|c: int|
            0 <= c < p.members.len() && p.members[c].address == p.pool.creator && p.members[c].role
                == MemberRole::Admin;
        assert(q.members[c] == p.members[c]);
        assert(q.wf());
        lemma_with_pool_parts(s, i, q);
        let after = s.with_pool(i, q).pools;
        if role != MemberRole::Recipient {
            lemma_index_add_wf(s.user_pools, after, new_member, pool_id);
        }
        assert forall|k: int, u: Address| 0 <= k < after.len() implies #[trigger] listing_agrees(
            out.0.user_pools,
            after,
            k,
            u,
        ) by {
            assert(listing_agrees(s.user_pools, s.pools, k, u));
            if role != MemberRole::Recipient {
                lemma_listed_after_add(s.user_pools, new_member, pool_id, u, after[k].pool.id);
            }
            if k != i {
                assert(after[k] == s.pools[k]);
                assert(pool_ids(s.pools)[k] != pool_ids(s.pools)[i]);
            } else {
                lemma_browses_push(p.members, m, u);
            }
        }
    }
}

/// `remove_member` keeps the ledger well formed.
pub proof fn lemma_remove_member_wf(
    s: LedgerState,
    ctx: CallContext,
    pool_id: Hash32,
    admin: Address,
    target: Address,
)
    requires
        s.wf(),
    ensures
        s.remove_member(ctx, pool_id, admin, target).0.wf(),
{
    let out = s.remove_member(ctx, pool_id, admin, target);
    if out.1 is Ok {
        lemma_find_pool(s, pool_id);
        let i = s.find_pool(pool_id)->0;
        let p = s.pools[i];
        let keys = member_addresses(p.members);
        lemma_position_is_first(keys, target);
        let j = position(keys, target)->0;
        let q = PoolState { members: p.members.remove(j), ..p };
        assert(p.wf());
        let c = choose|c: int|
            0 <= c < p.members.len() && p.members[c].address == p.pool.creator && p.members[c].role
                == MemberRole::Admin;
        assert(keys[j] == target);
        assert(c != j);
        let c2 = if c < j {
            c
        } else {
            c - 1
        };
        assert(q.members[c2] == p.members[c]);
        assert(distinct(member_addresses(q.members))) by {
            assert forall|a: int, b: int| 0 <= a < b < q.members.len() implies member_addresses(
                q.members,
            )[a] != member_addresses(q.members)[b] by {
                let a0 = if a < j {
                    a
                } else {
                    a + 1
                };
                let b0 = if b < j {
                    b
                } else {
                    b + 1
                };
                assert(q.members[a] == p.members[a0] && q.members[b] == p.members[b0]);
                assert(keys[a0] != keys[b0]);
            }
        }
        assert(q.wf());
        lemma_with_pool_parts(s, i, q);
        let after = s.with_pool(i, q).pools;
        lemma_index_remove_wf(s.user_pools, after, target, pool_id);
        assert forall|k: int, u: Address| 0 <= k < after.len() implies #[trigger] listing_agrees(
            out.0.user_pools,
            after,
            k,
            u,
        ) by {
            assert(listing_agrees(s.user_pools, s.pools, k, u));
            lemma_listed_after_remove(s.user_pools, target, pool_id, u, after[k].pool.id);
            if k != i {
                assert(after[k] == s.pools[k]);
                assert(pool_ids(s.pools)[k] != pool_ids(s.pools)[i]);
            } else {
                lemma_browses_remove(p.members, j, u);
            }
        }
    }
}

/// `contribute` keeps the ledger well formed.
pub proof fn lemma_contribute_wf(
    s: LedgerState,
    ctx: CallContext,
    pool_id: Hash32,
    contributor: Address,
    amount: i128,
    outcome: TransferOutcome,
    id: Hash32,
)
    requires
        s.wf(),
    ensures
        s.contribute(ctx, pool_id, contributor, amount, outcome, id).0.wf(),
{
    let out = s.contribute(ctx, pool_id, contributor, amount, outcome, id);
    if out.1 is Ok {
        lemma_find_pool(s, pool_id);
        let i = s.find_pool(pool_id)->0;
        let p = s.pools[i];
        let receipt = Contribution {
            id,
            contributor,
            amount,
            token: p.pool.token,
            created_at: ctx.timestamp,
        };
        let q = PoolState {
            contributions: p.contributions.push(receipt),
            ..p.with_balance(p.pool.balance + amount)
        };
        assert(p.wf());
        lemma_contributed_push(p.contributions, receipt);
        assert forall|k: int| 0 <= k < q.contributions.len() implies (
        #[trigger] q.contributions[k]).amount > 0 by {
            if k < p.contributions.len() {
                assert(q.contributions[k] == p.contributions[k]);
            }
        }
        assert(q.wf());
        lemma_with_pool_wf(s, i, q);
    }
}

/// `request_withdrawal` keeps the ledger well formed.
pub proof fn lemma_request_withdrawal_wf(
    s: LedgerState,
    ctx: CallContext,
    pool_id: Hash32,
    requester: Address,
    recipient: Address,
    amount: i128,
    outcome: TransferOutcome,
    id: Hash32,
)
    requires
        s.wf(),
    ensures
        s.request_withdrawal(ctx, pool_id, requester, recipient, amount, outcome, id).0.wf(),
{
    let out = s.request_withdrawal(ctx, pool_id, requester, recipient, amount, outcome, id);
    if out.1 is Ok {
        lemma_find_pool(s, pool_id);
        let i = s.find_pool(pool_id)->0;
        let p = s.pools[i];
        let q = out.0.pools[i];
        let request = q.withdrawals[p.withdrawals.len() as int];
        assert(q.withdrawals =~= p.withdrawals.push(request));
        assert(p.wf());
        lemma_released_push(p.withdrawals, request);
        assert forall|k: int| 0 <= k < q.withdrawals.len() implies (
        #[trigger] q.withdrawals[k]).amount > 0 by {
            if k < p.withdrawals.len() {
                assert(q.withdrawals[k] == p.withdrawals[k]);
            }
        }
        lemma_position_is_first(withdrawal_ids(p.withdrawals), id);
        assert(withdrawal_ids(q.withdrawals) =~= withdrawal_ids(p.withdrawals).push(id));
        assert(distinct(withdrawal_ids(q.withdrawals))) by {
            assert forall|a: int, b: int| 0 <= a < b < q.withdrawals.len() implies withdrawal_ids(
                q.withdrawals,
            )[a] != withdrawal_ids(q.withdrawals)[b] by {
                if b == p.withdrawals.len() {
                    assert(withdrawal_ids(p.withdrawals)[a] != id);
                } else {
                    assert(withdrawal_ids(p.withdrawals)[a] != withdrawal_ids(p.withdrawals)[b]);
                }
            }
        }
        assert(q.wf());
        lemma_with_pool_wf(s, i, q);
        assert(out.0 == s.with_pool(i, q));
    }
}

/// `process_withdrawal` keeps the ledger well formed.
pub proof fn lemma_process_withdrawal_wf(
    s: LedgerState,
    ctx: CallContext,
    pool_id: Hash32,
    withdrawal_id: Hash32,
    admin: Address,
    approve: bool,
    outcome: TransferOutcome,
)
    requires
        s.wf(),
    ensures
        s.process_withdrawal(ctx, pool_id, withdrawal_id, admin, approve, outcome).0.wf(),
{
    let out = s.process_withdrawal(ctx, pool_id, withdrawal_id, admin, approve, outcome);
    if out.1 is Ok {
        lemma_find_pool(s, pool_id);
        let i = s.find_pool(pool_id)->0;
        let p = s.pools[i];
        lemma_position_is_first(withdrawal_ids(p.withdrawals), withdrawal_id);
        let j = position(withdrawal_ids(p.withdrawals), withdrawal_id)->0;
        let q = out.0.pools[i];
        let decided = q.withdrawals[j];
        assert(q.withdrawals =~= p.withdrawals.update(j, decided));
        assert(p.wf());
        assert(p.withdrawals[j].amount > 0);
        lemma_released_update(p.withdrawals, j, decided);
        assert forall|k: int| 0 <= k < q.withdrawals.len() implies (
        #[trigger] q.withdrawals[k]).amount > 0 by {
            if k != j {
                assert(q.withdrawals[k] == p.withdrawals[k]);
            }
        }
        assert(withdrawal_ids(q.withdrawals) =~= withdrawal_ids(p.withdrawals));
        assert(q.wf());
        lemma_with_pool_wf(s, i, q);
        assert(out.0 == s.with_pool(i, q));
    }
}

/// `update_withdrawal_limit` keeps the ledger well formed.
pub proof fn lemma_update_withdrawal_limit_wf(
    s: LedgerState,
    ctx: CallContext,
    pool_id: Hash32,
    admin: Address,
    new_limit: i128,
)
    requires
        s.wf(),
    ensures
        s.update_withdrawal_limit(ctx, pool_id, admin, new_limit).0.wf(),
{
    let out = s.update_withdrawal_limit(ctx, pool_id, admin, new_limit);
    if out.1 is Ok {
        lemma_find_pool(s, pool_id);
        let i = s.find_pool(pool_id)->0;
        assert(s.pools[i].wf());
        lemma_with_pool_wf(s, i, out.0.pools[i]);
        assert(out.0 == s.with_pool(i, out.0.pools[i]));
    }
}

/// `update_withdrawal_period` keeps the ledger well formed.
pub proof fn lemma_update_withdrawal_period_wf(
    s: LedgerState,
    ctx: CallContext,
    pool_id: Hash32,
    admin: Address,
    new_period: WithdrawalPeriod,
)
    requires
        s.wf(),
    ensures
        s.update_withdrawal_period(ctx, pool_id, admin, new_period).0.wf(),
{
    let out = s.update_withdrawal_period(ctx, pool_id, admin, new_period);
    if out.1 is Ok {
        lemma_find_pool(s, pool_id);
        let i = s.find_pool(pool_id)->0;
        assert(s.pools[i].wf());
        lemma_with_pool_wf(s, i, out.0.pools[i]);
        assert(out.0 == s.with_pool(i, out.0.pools[i]));
    }
}

} // verus!
