//! The fund pool engine: the operations on a ledger of pools.
use vstd::prelude::*;
use vstd::utf8::encode_utf8;
use crate::digest::{sha256_digest, Hash32};
use crate::error::Error;
use crate::family_pool::{
    index_add, index_remove, index_users, listings, pool_ids, pool_states, pools_of, Contribution,
    FamilyPool, LedgerState, Member, MemberRole, PoolRecord, UserPools, Withdrawal,
    WithdrawalPeriod, WithdrawalStatus,
};
use crate::host::{CallContext, Direction, Transfer, TransferOutcome};
use crate::identity::{addresses_distinct, hashes_distinct, Address};
use crate::ids::{
    contribution_preimage, derive_contribution_id, derive_pool_id, derive_withdrawal_id,
    pool_preimage, withdrawal_preimage, MAX_NAME_BYTES,
};
use crate::pool_audit::{audit, index_matches_pools};
use crate::pool_lookup::{
    holds_role, id_position, member_position, pool_position, withdrawal_position,
};
use crate::pool_rules::{
    lemma_add_member_wf, lemma_contribute_wf, lemma_create_pool_wf, lemma_find_pool,
    lemma_process_withdrawal_wf, lemma_remove_member_wf, lemma_request_withdrawal_wf,
    lemma_update_withdrawal_limit_wf, lemma_update_withdrawal_period_wf,
};
use crate::search::{
    distinct, is_first, lemma_position_absent, lemma_position_found, lemma_position_is_first,
    position,
};

verus! {

/// The ledger of pools, with the index of the pools listed under each party.
pub struct FamilyPoolContract {
    admin: Option<Address>,
    pools: Vec<PoolRecord>,
    user_pools: Vec<UserPools>,
}

impl View for FamilyPoolContract {
    type V = LedgerState;

    closed spec fn view(&self) -> LedgerState {
        LedgerState {
            admin: self.admin,
            pools: pool_states(self.pools@),
            user_pools: listings(self.user_pools@),
        }
    }
}

/// A copy of a pool's head record.
fn copy_pool(p: &FamilyPool) -> (r: FamilyPool)
    ensures
        r == *p,
{
    FamilyPool {
        id: p.id,
        name: p.name.clone(),
        creator: p.creator,
        token: p.token,
        balance: p.balance,
        withdrawal_limit: p.withdrawal_limit,
        withdrawal_period: p.withdrawal_period,
        created_at: p.created_at,
    }
}

impl FamilyPoolContract {
    /// Whether the ledger is well formed. Every operation keeps it so.
    pub open spec fn wf(&self) -> bool {
        self@.wf()
    }

    /// A ledger without pools.
    pub fn new() -> (r: Self)
        ensures
            r.wf(),
            r@.admin is None,
            r@.pools.len() == 0,
            r@.user_pools.len() == 0,
    {
        FamilyPoolContract { admin: None, pools: Vec::new(), user_pools: Vec::new() }
    }

    /// The position of the pool with the given identifier.
    fn find_pool(&self, id: &Hash32) -> (r: Option<usize>)
        ensures
            match r {
                Some(i) => self@.find_pool(*id) == Some(i as int) && i < self.pools@.len(),
                None => self@.find_pool(*id) is None,
            },
    {
        pool_position(&self.pools, id)
    }

    /// The position of `user` in the index.
    fn find_user(&self, user: &Address) -> (r: Option<usize>)
        ensures
            match r {
                Some(k) => position(index_users(self@.user_pools), *user) == Some(k as int) && k
                    < self.user_pools@.len(),
                None => position(index_users(self@.user_pools), *user) is None,
            },
    {
        let ghost keys = index_users(self@.user_pools);
        let mut i: usize = 0;
        while i < self.user_pools.len()
            invariant
                i <= self.user_pools@.len(),
                keys == index_users(self@.user_pools),
                keys.len() == self.user_pools@.len(),
                forall|j: int| 0 <= j < i ==> keys[j] != *user,
            decreases self.user_pools@.len() - i,
        {
            if self.user_pools[i].user.same(user) {
                proof {
                    assert(is_first(keys, *user, i as int));
                    lemma_position_found(keys, *user, i as int);
                }
                return Some(i);
            }
            i += 1;
        }
        proof {
            lemma_position_absent(keys, *user);
        }
        None
    }

    /// Lists `id` under `user`, once.
    fn list_pool(&mut self, user: Address, id: Hash32)
        ensures
            final(self)@ == (LedgerState {
                user_pools: index_add(old(self)@.user_pools, user, id),
                ..old(self)@
            }),
    {
        match self.find_user(&user) {
            Some(k) => {
                if id_position(&self.user_pools[k].pools, &id).is_none() {
                    proof {
                        lemma_position_is_first(self.user_pools@[k as int].pools@, id);
                    }
                    self.user_pools[k].pools.push(id);
                    assert(self@.user_pools =~= index_add(old(self)@.user_pools, user, id));
                } else {
                    proof {
                        lemma_position_is_first(self.user_pools@[k as int].pools@, id);
                    }
                }
            },
            None => {
                let mut pools: Vec<Hash32> = Vec::new();
                pools.push(id);
                self.user_pools.push(UserPools { user, pools });
                assert(self@.user_pools =~= index_add(old(self)@.user_pools, user, id));
            },
        }
        assert(self@.pools =~= old(self)@.pools);
    }

    /// Records who administers the ledger. Only the first call succeeds.
    pub fn initialize(&mut self, ctx: &CallContext, admin: Address) -> (r: Result<(), Error>)
        requires
            old(self).wf(),
        ensures
            final(self).wf(),
            (final(self)@, r) == old(self)@.initialize(*ctx, admin),
    {
        if self.admin.is_some() {
            return Err(Error::AlreadyInitialized);
        }
        if !ctx.require_auth(&admin) {
            return Err(Error::NotAuthorized);
        }
        self.admin = Some(admin);
        assert(self@.pools =~= old(self)@.pools);
        assert(self@.user_pools =~= old(self)@.user_pools);
        Ok(())
    }

    /// Takes `id` off the list of `user`.
    fn unlist_pool(&mut self, user: Address, id: Hash32)
        ensures
            final(self)@ == (LedgerState {
                user_pools: index_remove(old(self)@.user_pools, user, id),
                ..old(self)@
            }),
    {
        match self.find_user(&user) {
            Some(k) => {
                match id_position(&self.user_pools[k].pools, &id) {
                    Some(j) => {
                        self.user_pools[k].pools.remove(j);
                    },
                    None => {},
                }
                assert(self@.user_pools =~= index_remove(old(self)@.user_pools, user, id));
            },
            None => {},
        }
        assert(self@.pools =~= old(self)@.pools);
    }

    /// Creates a pool under the identifier `id`, with `creator` as its admin,
    /// and lists it under the creator.
    ///
    /// Fails with `NotAuthorized` unless the host has verified the creator,
    /// with `InvalidArgument` unless the limit is positive, and with
    /// `AlreadyExists` if a pool has this identifier.
    pub fn create_pool_with_id(
        &mut self,
        ctx: &CallContext,
        creator: Address,
        name: String,
        token: Address,
        withdrawal_limit: i128,
        withdrawal_period: WithdrawalPeriod,
        id: Hash32,
    ) -> (r: Result<Hash32, Error>)
        requires
            old(self).wf(),
        ensures
            final(self).wf(),
            (final(self)@, r) == old(self)@.create_pool(
                *ctx,
                creator,
                name,
                token,
                withdrawal_limit,
                withdrawal_period,
                id,
            ),
    {
        if !ctx.require_auth(&creator) {
            return Err(Error::NotAuthorized);
        }
        if withdrawal_limit <= 0 {
            return Err(Error::InvalidArgument);
        }
        if self.find_pool(&id).is_some() {
            return Err(Error::AlreadyExists);
        }
        proof {
            lemma_create_pool_wf(
                old(self)@,
                *ctx,
                creator,
                name,
                token,
                withdrawal_limit,
                withdrawal_period,
                id,
            );
        }
        let mut members: Vec<Member> = Vec::new();
        members.push(Member { address: creator, role: MemberRole::Admin, added_at: ctx.timestamp });
        let record = PoolRecord {
            pool: FamilyPool {
                id,
                name,
                creator,
                token,
                balance: 0,
                withdrawal_limit,
                withdrawal_period,
                created_at: ctx.timestamp,
            },
            members,
            contributions: Vec::new(),
            withdrawals: Vec::new(),
        };
        self.pools.push(record);
        assert(self@.pools =~= old(self)@.pools.push(record@));
        assert(record@.members =~= seq![
            Member { address: creator, role: MemberRole::Admin, added_at: ctx.timestamp },
        ]);
        assert(self@.user_pools =~= old(self)@.user_pools);
        self.list_pool(creator, id);
        Ok(id)
    }

    /// Creates a pool whose identifier is the digest of the creator, the
    /// name, the ledger time and the number of pools made so far.
    ///
    /// Fails as [`Self::create_pool_with_id`] does, and with
    /// `InvalidArgument` if the name is longer than [`MAX_NAME_BYTES`].
    pub fn create_pool(
        &mut self,
        ctx: &CallContext,
        creator: Address,
        name: String,
        token: Address,
        withdrawal_limit: i128,
        withdrawal_period: WithdrawalPeriod,
    ) -> (r: Result<Hash32, Error>)
        requires
            old(self).wf(),
        ensures
            final(self).wf(),
            ctx.authorizes(creator) && withdrawal_limit > 0 && encode_utf8(name@).len()
                > MAX_NAME_BYTES ==> r == Err::<Hash32, Error>(Error::InvalidArgument)
                && final(self)@ == old(self)@,
            !(ctx.authorizes(creator) && withdrawal_limit > 0 && encode_utf8(name@).len()
                > MAX_NAME_BYTES) ==> (final(self)@, r) == old(self)@.create_pool(
                *ctx,
                creator,
                name,
                token,
                withdrawal_limit,
                withdrawal_period,
                sha256_digest(
                    pool_preimage(creator, name@, ctx.timestamp, old(self)@.pools.len() as u64),
                ),
            ),
    {
        if !ctx.require_auth(&creator) {
            return Err(Error::NotAuthorized);
        }
        if withdrawal_limit <= 0 {
            return Err(Error::InvalidArgument);
        }
        match derive_pool_id(&creator, &name, ctx.timestamp, self.pools.len() as u64) {
            None => Err(Error::InvalidArgument),
            Some(id) => self.create_pool_with_id(
                ctx,
                creator,
                name,
                token,
                withdrawal_limit,
                withdrawal_period,
                id,
            ),
        }
    }

    /// Adds `new_member` to a pool with the given role. Unless the role is
    /// `Recipient`, the pool is listed under the new member.
    ///
    /// Fails with `NotAuthorized` unless the host has verified `admin` and
    /// `admin` is an admin of the pool, with `NotFound` for an unknown pool,
    /// and with `AlreadyExists` if the party is a member already.
    pub fn add_member(
        &mut self,
        ctx: &CallContext,
        pool_id: &Hash32,
        admin: Address,
        new_member: Address,
        role: MemberRole,
    ) -> (r: Result<(), Error>)
        requires
            old(self).wf(),
        ensures
            final(self).wf(),
            (final(self)@, r) == old(self)@.add_member(*ctx, *pool_id, admin, new_member, role),
    {
        if !ctx.require_auth(&admin) {
            return Err(Error::NotAuthorized);
        }
        let i = match self.find_pool(pool_id) {
            None => { return Err(Error::NotFound); },
            Some(i) => i,
        };
        if !holds_role(&self.pools[i].members, &admin, MemberRole::Admin) {
            return Err(Error::NotAuthorized);
        }
        if member_position(&self.pools[i].members, &new_member).is_some() {
            return Err(Error::AlreadyExists);
        }
        proof {
            lemma_add_member_wf(old(self)@, *ctx, *pool_id, admin, new_member, role);
        }
        self.pools[i].members.push(
            Member { address: new_member, role, added_at: ctx.timestamp },
        );
        assert(self@.pools =~= old(self)@.add_member(
            *ctx,
            *pool_id,
            admin,
            new_member,
            role,
        ).0.pools);
        assert(self@.user_pools =~= old(self)@.user_pools);
        if role != MemberRole::Recipient {
            self.list_pool(new_member, *pool_id);
        }
        Ok(())
    }

    /// Removes `target` from a pool and takes the pool off its list.
    ///
    /// Fails with `NotAuthorized` unless the host has verified `admin` and
    /// `admin` is an admin of the pool, with `NotFound` for an unknown pool
    /// or a party that is not a member, and with `Forbidden` if `target` is
    /// the pool's creator.
    pub fn remove_member(
        &mut self,
        ctx: &CallContext,
        pool_id: &Hash32,
        admin: Address,
        target: Address,
    ) -> (r: Result<(), Error>)
        requires
            old(self).wf(),
        ensures
            final(self).wf(),
            (final(self)@, r) == old(self)@.remove_member(*ctx, *pool_id, admin, target),
            old(self)@.find_pool(*pool_id) matches Some(i) && target == old(
                self,
            )@.pools[i].pool.creator ==> r is Err,
    {
        if !ctx.require_auth(&admin) {
            return Err(Error::NotAuthorized);
        }
        let i = match self.find_pool(pool_id) {
            None => { return Err(Error::NotFound); },
            Some(i) => i,
        };
        if !holds_role(&self.pools[i].members, &admin, MemberRole::Admin) {
            return Err(Error::NotAuthorized);
        }
        if target.same(&self.pools[i].pool.creator) {
            return Err(Error::Forbidden);
        }
        let j = match member_position(&self.pools[i].members, &target) {
            None => { return Err(Error::NotFound); },
            Some(j) => j,
        };
        proof {
            lemma_remove_member_wf(old(self)@, *ctx, *pool_id, admin, target);
        }
        self.pools[i].members.remove(j);
        assert(self@.pools =~= old(self)@.remove_member(*ctx, *pool_id, admin, target).0.pools);
        assert(self@.user_pools =~= old(self)@.user_pools);
        self.unlist_pool(target, *pool_id);
        Ok(())
    }

    /// Tells which transfer a contribution needs, or why the contribution is
    /// refused. The ledger is not changed.
    ///
    /// Fails with `NotAuthorized` unless the host has verified the
    /// contributor, with `InvalidArgument` unless the amount is positive and
    /// the balance can take it, with `NotFound` for an unknown pool, and with
    /// `NotMember` if the contributor is not a member.
    pub fn contribution_transfer(
        &self,
        ctx: &CallContext,
        pool_id: &Hash32,
        contributor: Address,
        amount: i128,
    ) -> (r: Result<Transfer, Error>)
        ensures
            r == self@.contribution_transfer(*ctx, *pool_id, contributor, amount),
    {
        if !ctx.require_auth(&contributor) {
            return Err(Error::NotAuthorized);
        }
        if amount <= 0 {
            return Err(Error::InvalidArgument);
        }
        let i = match self.find_pool(pool_id) {
            None => { return Err(Error::NotFound); },
            Some(i) => i,
        };
        if member_position(&self.pools[i].members, &contributor).is_none() {
            return Err(Error::NotMember);
        }
        match self.pools[i].pool.balance.checked_add(amount) {
            None => Err(Error::InvalidArgument),
            Some(_) => Ok(
                Transfer {
                    token: self.pools[i].pool.token,
                    direction: Direction::Deposit,
                    party: contributor,
                    amount,
                },
            ),
        }
    }

    /// Records a contribution under the identifier `id`, given how the
    /// transfer named by [`Self::contribution_transfer`] ended.
    ///
    /// Fails as `contribution_transfer` does, and with `TransferFailed` if
    /// the transfer failed; then nothing is recorded. Otherwise a receipt is
    /// appended and the balance grows by the amount.
    pub fn contribute_with_id(
        &mut self,
        ctx: &CallContext,
        pool_id: &Hash32,
        contributor: Address,
        amount: i128,
        outcome: TransferOutcome,
        id: Hash32,
    ) -> (r: Result<Hash32, Error>)
        requires
            old(self).wf(),
        ensures
            final(self).wf(),
            (final(self)@, r) == old(self)@.contribute(
                *ctx,
                *pool_id,
                contributor,
                amount,
                outcome,
                id,
            ),
    {
        match self.contribution_transfer(ctx, pool_id, contributor, amount) {
            Err(e) => { return Err(e); },
            Ok(_) => {},
        }
        match outcome {
            TransferOutcome::Failed => { return Err(Error::TransferFailed); },
            TransferOutcome::Settled => {},
        }
        let i = match self.find_pool(pool_id) {
            None => { return Err(Error::NotFound); },
            Some(i) => i,
        };
        proof {
            lemma_contribute_wf(old(self)@, *ctx, *pool_id, contributor, amount, outcome, id);
        }
        let token = self.pools[i].pool.token;
        let balance = self.pools[i].pool.balance;
        self.pools[i].contributions.push(
            Contribution { id, contributor, amount, token, created_at: ctx.timestamp },
        );
        self.pools[i].pool.balance = balance + amount;
        assert(self@.pools =~= old(self)@.contribute(
            *ctx,
            *pool_id,
            contributor,
            amount,
            outcome,
            id,
        ).0.pools);
        assert(self@.user_pools =~= old(self)@.user_pools);
        Ok(id)
    }

    /// Records a contribution whose identifier is the digest of the
    /// contributor, the pool, the amount, the ledger time and the number of
    /// contributions that the pool has logged.
    pub fn contribute(
        &mut self,
        ctx: &CallContext,
        pool_id: &Hash32,
        contributor: Address,
        amount: i128,
        outcome: TransferOutcome,
    ) -> (r: Result<Hash32, Error>)
        requires
            old(self).wf(),
        ensures
            final(self).wf(),
            (final(self)@, r) == old(self)@.contribute(
                *ctx,
                *pool_id,
                contributor,
                amount,
                outcome,
                sha256_digest(
                    contribution_preimage(
                        contributor,
                        *pool_id,
                        amount,
                        ctx.timestamp,
                        old(self)@.contribution_count(*pool_id),
                    ),
                ),
            ),
    {
        match self.contribution_transfer(ctx, pool_id, contributor, amount) {
            Err(e) => { return Err(e); },
            Ok(_) => {},
        }
        let i = match self.find_pool(pool_id) {
            None => { return Err(Error::NotFound); },
            Some(i) => i,
        };
        let count = self.pools[i].contributions.len() as u64;
        let id = derive_contribution_id(&contributor, pool_id, amount, ctx.timestamp, count);
        self.contribute_with_id(ctx, pool_id, contributor, amount, outcome, id)
    }

    /// Tells which transfer a withdrawal request needs, or why the request
    /// is refused. The ledger is not changed.
    ///
    /// Fails with `NotAuthorized` unless the host has verified the
    /// requester, with `InvalidArgument` unless the amount is positive, with
    /// `NotFound` for an unknown pool, with `NotMember` if the requester is
    /// not a member, with `LimitExceeded` above the pool's limit, with
    /// `InsufficientFunds` above the balance, with `Forbidden` if a member
    /// who is no admin asks for another party, with `InvalidRecipient` if
    /// that party is not a member with the recipient role, and with
    /// `AlreadyExists` if a withdrawal of the pool has the identifier `id`.
    pub fn withdrawal_transfer_with_id(
        &self,
        ctx: &CallContext,
        pool_id: &Hash32,
        requester: Address,
        recipient: Address,
        amount: i128,
        id: &Hash32,
    ) -> (r: Result<Option<Transfer>, Error>)
        ensures
            r == self@.withdrawal_transfer(*ctx, *pool_id, requester, recipient, amount, *id),
    {
        if !ctx.require_auth(&requester) {
            return Err(Error::NotAuthorized);
        }
        if amount <= 0 {
            return Err(Error::InvalidArgument);
        }
        let i = match self.find_pool(pool_id) {
            None => { return Err(Error::NotFound); },
            Some(i) => i,
        };
        let record = &self.pools[i];
        if member_position(&record.members, &requester).is_none() {
            return Err(Error::NotMember);
        }
        if amount > record.pool.withdrawal_limit {
            return Err(Error::LimitExceeded);
        }
        if amount > record.pool.balance {
            return Err(Error::InsufficientFunds);
        }
        let by_admin = holds_role(&record.members, &requester, MemberRole::Admin);
        let for_other = !recipient.same(&requester);
        if for_other && !by_admin {
            return Err(Error::Forbidden);
        }
        if for_other && !holds_role(&record.members, &recipient, MemberRole::Recipient) {
            return Err(Error::InvalidRecipient);
        }
        if withdrawal_position(&record.withdrawals, id).is_some() {
            return Err(Error::AlreadyExists);
        }
        if by_admin {
            Ok(
                Some(
                    Transfer {
                        token: record.pool.token,
                        direction: Direction::Payout,
                        party: recipient,
                        amount,
                    },
                ),
            )
        } else {
            Ok(None)
        }
    }

    /// The identifier of the pool's next withdrawal: the digest of the
    /// requester, the recipient, the pool, the amount, the ledger time and
    /// the number of withdrawals that the pool has logged.
    fn next_withdrawal_id(
        &self,
        ctx: &CallContext,
        pool_id: &Hash32,
        requester: &Address,
        recipient: &Address,
        amount: i128,
    ) -> (id: Hash32)
        ensures
            amount >= 0 ==> id == sha256_digest(
                withdrawal_preimage(
                    *requester,
                    *recipient,
                    *pool_id,
                    amount,
                    ctx.timestamp,
                    self@.withdrawal_count(*pool_id),
                ),
            ),
    {
        if amount < 0 {
            return [0u8;32];
        }
        let count = match self.find_pool(pool_id) {
            Some(i) => self.pools[i].withdrawals.len() as u64,
            None => 0,
        };
        derive_withdrawal_id(requester, recipient, pool_id, amount, ctx.timestamp, count)
    }

    /// Tells which transfer a withdrawal request needs, when its identifier
    /// is the digest of the requester, the recipient, the pool, the amount,
    /// the ledger time and the number of withdrawals that the pool has
    /// logged. Fails as [`Self::withdrawal_transfer_with_id`] does.
    pub fn withdrawal_transfer(
        &self,
        ctx: &CallContext,
        pool_id: &Hash32,
        requester: Address,
        recipient: Address,
        amount: i128,
    ) -> (r: Result<Option<Transfer>, Error>)
        ensures
            r == self@.withdrawal_transfer(
                *ctx,
                *pool_id,
                requester,
                recipient,
                amount,
                sha256_digest(
                    withdrawal_preimage(
                        requester,
                        recipient,
                        *pool_id,
                        amount,
                        ctx.timestamp,
                        self@.withdrawal_count(*pool_id),
                    ),
                ),
            ),
    {
        let id = self.next_withdrawal_id(ctx, pool_id, &requester, &recipient, amount);
        self.withdrawal_transfer_with_id(ctx, pool_id, requester, recipient, amount, &id)
    }

    /// Records a withdrawal request under the identifier `id`, given how the
    /// transfer named by [`Self::withdrawal_transfer_with_id`], if any,
    /// ended.
    ///
    /// Fails as `withdrawal_transfer_with_id` does, and with `TransferFailed` if a
    /// transfer was needed and failed; then nothing is recorded. A member's
    /// request is logged as pending. An admin's request is logged as approved
    /// and its amount leaves the balance.
    pub fn request_withdrawal_with_id(
        &mut self,
        ctx: &CallContext,
        pool_id: &Hash32,
        requester: Address,
        recipient: Address,
        amount: i128,
        outcome: TransferOutcome,
        id: Hash32,
    ) -> (r: Result<Hash32, Error>)
        requires
            old(self).wf(),
        ensures
            final(self).wf(),
            (final(self)@, r) == old(self)@.request_withdrawal(
                *ctx,
                *pool_id,
                requester,
                recipient,
                amount,
                outcome,
                id,
            ),
    {
        let transfer = match self.withdrawal_transfer_with_id(
            ctx,
            pool_id,
            requester,
            recipient,
            amount,
            &id,
        ) {
            Err(e) => { return Err(e); },
            Ok(t) => t,
        };
        let paid = transfer.is_some();
        match outcome {
            TransferOutcome::Failed => {
                if paid {
                    return Err(Error::TransferFailed);
                }
            },
            TransferOutcome::Settled => {},
        }
        let i = match self.find_pool(pool_id) {
            None => { return Err(Error::NotFound); },
            Some(i) => i,
        };
        proof {
            lemma_request_withdrawal_wf(
                old(self)@,
                *ctx,
                *pool_id,
                requester,
                recipient,
                amount,
                outcome,
                id,
            );
        }
        let token = self.pools[i].pool.token;
        let balance = self.pools[i].pool.balance;
        let request = Withdrawal {
            id,
            requester,
            recipient,
            amount,
            token,
            status: if paid {
                WithdrawalStatus::Approved
            } else {
                WithdrawalStatus::Pending
            },
            created_at: ctx.timestamp,
            completed_at: if paid {
                ctx.timestamp
            } else {
                0
            },
        };
        self.pools[i].withdrawals.push(request);
        if paid {
            self.pools[i].pool.balance = balance - amount;
        }
        assert(self@.pools =~= old(self)@.request_withdrawal(
            *ctx,
            *pool_id,
            requester,
            recipient,
            amount,
            outcome,
            id,
        ).0.pools);
        assert(self@.user_pools =~= old(self)@.user_pools);
        Ok(id)
    }

    /// Records a withdrawal request whose identifier is the digest of the
    /// requester, the recipient, the pool, the amount, the ledger time and
    /// the number of withdrawals that the pool has logged.
    pub fn request_withdrawal(
        &mut self,
        ctx: &CallContext,
        pool_id: &Hash32,
        requester: Address,
        recipient: Address,
        amount: i128,
        outcome: TransferOutcome,
    ) -> (r: Result<Hash32, Error>)
        requires
            old(self).wf(),
        ensures
            final(self).wf(),
            (final(self)@, r) == old(self)@.request_withdrawal(
                *ctx,
                *pool_id,
                requester,
                recipient,
                amount,
                outcome,
                sha256_digest(
                    withdrawal_preimage(
                        requester,
                        recipient,
                        *pool_id,
                        amount,
                        ctx.timestamp,
                        old(self)@.withdrawal_count(*pool_id),
                    ),
                ),
            ),
    {
        let id = self.next_withdrawal_id(ctx, pool_id, &requester, &recipient, amount);
        self.request_withdrawal_with_id(ctx, pool_id, requester, recipient, amount, outcome, id)
    }

    /// Tells which transfer deciding a withdrawal needs, or why the decision
    /// is refused. The ledger is not changed.
    ///
    /// Fails with `NotAuthorized` unless the host has verified `admin` and
    /// `admin` is an admin of the pool, with `NotFound` for an unknown pool
    /// or withdrawal, with `InvalidState` unless the withdrawal is pending,
    /// and, for an approval, with `InsufficientFunds` if the balance is below
    /// the amount.
    pub fn settlement_transfer(
        &self,
        ctx: &CallContext,
        pool_id: &Hash32,
        withdrawal_id: &Hash32,
        admin: Address,
        approve: bool,
    ) -> (r: Result<Option<Transfer>, Error>)
        ensures
            r == self@.settlement_transfer(*ctx, *pool_id, *withdrawal_id, admin, approve),
    {
        if !ctx.require_auth(&admin) {
            return Err(Error::NotAuthorized);
        }
        let i = match self.find_pool(pool_id) {
            None => { return Err(Error::NotFound); },
            Some(i) => i,
        };
        let record = &self.pools[i];
        if !holds_role(&record.members, &admin, MemberRole::Admin) {
            return Err(Error::NotAuthorized);
        }
        let j = match withdrawal_position(&record.withdrawals, withdrawal_id) {
            None => { return Err(Error::NotFound); },
            Some(j) => j,
        };
        let w = record.withdrawals[j];
        if w.status != WithdrawalStatus::Pending {
            return Err(Error::InvalidState);
        }
        if !approve {
            return Ok(None);
        }
        if record.pool.balance < w.amount {
            return Err(Error::InsufficientFunds);
        }
        Ok(
            Some(
                Transfer {
                    token: record.pool.token,
                    direction: Direction::Payout,
                    party: w.recipient,
                    amount: w.amount,
                },
            ),
        )
    }

    /// Approves or rejects a pending withdrawal, given how the transfer named
    /// by [`Self::settlement_transfer`], if any, ended.
    ///
    /// Fails as `settlement_transfer` does, and with `TransferFailed` if a
    /// transfer was needed and failed; then nothing changes. A rejection
    /// moves no funds. An approval takes the amount off the balance. Either
    /// way the withdrawal leaves the pending state for good and its time of
    /// completion is set.
    pub fn process_withdrawal(
        &mut self,
        ctx: &CallContext,
        pool_id: &Hash32,
        withdrawal_id: &Hash32,
        admin: Address,
        approve: bool,
        outcome: TransferOutcome,
    ) -> (r: Result<(), Error>)
        requires
            old(self).wf(),
        ensures
            final(self).wf(),
            (final(self)@, r) == old(self)@.process_withdrawal(
                *ctx,
                *pool_id,
                *withdrawal_id,
                admin,
                approve,
                outcome,
            ),
    {
        let transfer = match self.settlement_transfer(ctx, pool_id, withdrawal_id, admin, approve) {
            Err(e) => { return Err(e); },
            Ok(t) => t,
        };
        match outcome {
            TransferOutcome::Failed => {
                if transfer.is_some() {
                    return Err(Error::TransferFailed);
                }
            },
            TransferOutcome::Settled => {},
        }
        let i = match self.find_pool(pool_id) {
            None => { return Err(Error::NotFound); },
            Some(i) => i,
        };
        let j = match withdrawal_position(&self.pools[i].withdrawals, withdrawal_id) {
            None => { return Err(Error::NotFound); },
            Some(j) => j,
        };
        proof {
            lemma_process_withdrawal_wf(
                old(self)@,
                *ctx,
                *pool_id,
                *withdrawal_id,
                admin,
                approve,
                outcome,
            );
        }
        let w = self.pools[i].withdrawals[j];
        let balance = self.pools[i].pool.balance;
        self.pools[i].withdrawals[j] = Withdrawal {
            status: if approve {
                WithdrawalStatus::Approved
            } else {
                WithdrawalStatus::Rejected
            },
            completed_at: ctx.timestamp,
            ..w
        };
        if approve {
            self.pools[i].pool.balance = balance - w.amount;
        }
        assert(self@.pools =~= old(self)@.process_withdrawal(
            *ctx,
            *pool_id,
            *withdrawal_id,
            admin,
            approve,
            outcome,
        ).0.pools);
        assert(self@.user_pools =~= old(self)@.user_pools);
        Ok(())
    }

    /// Approves a pending withdrawal: [`Self::process_withdrawal`] with
    /// `approve` set.
    pub fn approve_withdrawal(
        &mut self,
        ctx: &CallContext,
        approver: Address,
        pool_id: &Hash32,
        withdrawal_id: &Hash32,
        outcome: TransferOutcome,
    ) -> (r: Result<(), Error>)
        requires
            old(self).wf(),
        ensures
            final(self).wf(),
            (final(self)@, r) == old(self)@.process_withdrawal(
                *ctx,
                *pool_id,
                *withdrawal_id,
                approver,
                true,
                outcome,
            ),
    {
        self.process_withdrawal(ctx, pool_id, withdrawal_id, approver, true, outcome)
    }

    /// Sets a pool's withdrawal limit.
    ///
    /// Fails with `NotAuthorized` unless the host has verified `admin` and
    /// `admin` is an admin of the pool, with `InvalidArgument` unless the
    /// limit is positive, and with `NotFound` for an unknown pool.
    pub fn update_withdrawal_limit(
        &mut self,
        ctx: &CallContext,
        pool_id: &Hash32,
        admin: Address,
        new_limit: i128,
    ) -> (r: Result<(), Error>)
        requires
            old(self).wf(),
        ensures
            final(self).wf(),
            (final(self)@, r) == old(self)@.update_withdrawal_limit(
                *ctx,
                *pool_id,
                admin,
                new_limit,
            ),
    {
        if !ctx.require_auth(&admin) {
            return Err(Error::NotAuthorized);
        }
        if new_limit <= 0 {
            return Err(Error::InvalidArgument);
        }
        let i = match self.find_pool(pool_id) {
            None => { return Err(Error::NotFound); },
            Some(i) => i,
        };
        if !holds_role(&self.pools[i].members, &admin, MemberRole::Admin) {
            return Err(Error::NotAuthorized);
        }
        proof {
            lemma_update_withdrawal_limit_wf(old(self)@, *ctx, *pool_id, admin, new_limit);
        }
        self.pools[i].pool.withdrawal_limit = new_limit;
        assert(self@.pools =~= old(self)@.update_withdrawal_limit(
            *ctx,
            *pool_id,
            admin,
            new_limit,
        ).0.pools);
        assert(self@.user_pools =~= old(self)@.user_pools);
        Ok(())
    }

    /// Sets a pool's withdrawal period.
    ///
    /// Fails with `NotAuthorized` unless the host has verified `admin` and
    /// `admin` is an admin of the pool, and with `NotFound` for an unknown
    /// pool.
    pub fn update_withdrawal_period(
        &mut self,
        ctx: &CallContext,
        pool_id: &Hash32,
        admin: Address,
        new_period: WithdrawalPeriod,
    ) -> (r: Result<(), Error>)
        requires
            old(self).wf(),
        ensures
            final(self).wf(),
            (final(self)@, r) == old(self)@.update_withdrawal_period(
                *ctx,
                *pool_id,
                admin,
                new_period,
            ),
    {
        if !ctx.require_auth(&admin) {
            return Err(Error::NotAuthorized);
        }
        let i = match self.find_pool(pool_id) {
            None => { return Err(Error::NotFound); },
            Some(i) => i,
        };
        if !holds_role(&self.pools[i].members, &admin, MemberRole::Admin) {
            return Err(Error::NotAuthorized);
        }
        proof {
            lemma_update_withdrawal_period_wf(old(self)@, *ctx, *pool_id, admin, new_period);
        }
        self.pools[i].pool.withdrawal_period = new_period;
        assert(self@.pools =~= old(self)@.update_withdrawal_period(
            *ctx,
            *pool_id,
            admin,
            new_period,
        ).0.pools);
        assert(self@.user_pools =~= old(self)@.user_pools);
        Ok(())
    }

    /// The head record of a pool; `NotFound` for an unknown pool.
    pub fn get_pool(&self, pool_id: &Hash32) -> (r: Result<&FamilyPool, Error>)
        ensures
            match r {
                Ok(pool) => self@.get_pool(*pool_id) == Ok::<FamilyPool, Error>(*pool),
                Err(e) => self@.get_pool(*pool_id) == Err::<FamilyPool, Error>(e),
            },
    {
        match self.find_pool(pool_id) {
            Some(i) => Ok(&self.pools[i].pool),
            None => Err(Error::NotFound),
        }
    }

    /// The members of a pool; `NotFound` for an unknown pool.
    pub fn get_pool_members(&self, pool_id: &Hash32) -> (r: Result<&Vec<Member>, Error>)
        ensures
            match r {
                Ok(members) => self@.get_pool_members(*pool_id) == Ok::<Seq<Member>, Error>(
                    members@,
                ),
                Err(e) => self@.get_pool_members(*pool_id) == Err::<Seq<Member>, Error>(e),
            },
    {
        match self.find_pool(pool_id) {
            Some(i) => Ok(&self.pools[i].members),
            None => Err(Error::NotFound),
        }
    }

    /// The contributions to a pool; `NotFound` for an unknown pool.
    pub fn get_pool_contributions(&self, pool_id: &Hash32) -> (r: Result<
        &Vec<Contribution>,
        Error,
    >)
        ensures
            match r {
                Ok(log) => self@.get_pool_contributions(*pool_id) == Ok::<
                    Seq<Contribution>,
                    Error,
                >(log@),
                Err(e) => self@.get_pool_contributions(*pool_id) == Err::<
                    Seq<Contribution>,
                    Error,
                >(e),
            },
    {
        match self.find_pool(pool_id) {
            Some(i) => Ok(&self.pools[i].contributions),
            None => Err(Error::NotFound),
        }
    }

    /// The withdrawals of a pool; `NotFound` for an unknown pool.
    pub fn get_pool_withdrawals(&self, pool_id: &Hash32) -> (r: Result<&Vec<Withdrawal>, Error>)
        ensures
            match r {
                Ok(log) => self@.get_pool_withdrawals(*pool_id) == Ok::<Seq<Withdrawal>, Error>(
                    log@,
                ),
                Err(e) => self@.get_pool_withdrawals(*pool_id) == Err::<Seq<Withdrawal>, Error>(e),
            },
    {
        match self.find_pool(pool_id) {
            Some(i) => Ok(&self.pools[i].withdrawals),
            None => Err(Error::NotFound),
        }
    }

    /// The identifiers of the pools listed under a party; none for a party
    /// that the index does not know.
    pub fn get_user_pool_ids(&self, user: &Address) -> (r: Vec<Hash32>)
        ensures
            r@ == pools_of(self@.user_pools, *user),
    {
        let mut ids: Vec<Hash32> = Vec::new();
        match self.find_user(user) {
            None => {},
            Some(k) => {
                let listed = &self.user_pools[k].pools;
                let mut j: usize = 0;
                while j < listed.len()
                    invariant
                        j <= listed@.len(),
                        ids@ == listed@.take(j as int),
                    decreases listed@.len() - j,
                {
                    ids.push(listed[j]);
                    j += 1;
                    assert(ids@ =~= listed@.take(j as int));
                }
                assert(listed@.take(listed@.len() as int) =~= listed@);
            },
        }
        ids
    }

    /// The head records of the pools listed under a party; none for a party
    /// that the index does not know.
    pub fn get_user_pools(&self, user: &Address) -> (r: Vec<FamilyPool>)
        requires
            self.wf(),
        ensures
            r@ == self@.get_user_pools(*user),
    {
        let ids = self.get_user_pool_ids(user);
        let mut found: Vec<FamilyPool> = Vec::new();
        let mut j: usize = 0;
        proof {
            lemma_position_is_first(index_users(self@.user_pools), *user);
        }
        while j < ids.len()
            invariant
                j <= ids@.len(),
                self.wf(),
                ids@ == pools_of(self@.user_pools, *user),
                forall|m: int| 0 <= m < ids@.len() ==> self@.find_pool(#[trigger] ids@[m]) is Some,
                found@ == self@.get_user_pools(*user).take(j as int),
            decreases ids@.len() - j,
        {
            match self.find_pool(&ids[j]) {
                Some(i) => {
                    found.push(copy_pool(&self.pools[i].pool));
                },
                None => {},
            }
            j += 1;
            assert(found@ =~= self@.get_user_pools(*user).take(j as int));
        }
        assert(self@.get_user_pools(*user).take(ids@.len() as int) =~= self@.get_user_pools(*user));
        found
    }

    /// The number of pools made so far.
    pub fn get_pool_count(&self) -> (r: usize)
        ensures
            r == self@.pools.len(),
    {
        self.pools.len()
    }

    /// The administrator of the ledger, once it is set.
    pub fn admin(&self) -> (r: Option<Address>)
        ensures
            r == self@.admin,
    {
        self.admin
    }

    /// Tells whether the stored record of a pool is well formed, its balance
    /// being its contributions less its settled withdrawals; `NotFound` for
    /// an unknown pool. On a ledger that the engine has reached the answer is
    /// yes.
    pub fn reconcile(&self, pool_id: &Hash32) -> (r: Result<bool, Error>)
        ensures
            match self@.find_pool(*pool_id) {
                Some(i) => r == Ok::<bool, Error>(self@.pools[i].wf()),
                None => r == Err::<bool, Error>(Error::NotFound),
            },
            self.wf() && r is Ok ==> r == Ok::<bool, Error>(true),
    {
        proof {
            lemma_find_pool(self@, *pool_id);
        }
        match self.find_pool(pool_id) {
            Some(i) => Ok(audit(&self.pools[i])),
            None => Err(Error::NotFound),
        }
    }

    /// The stored pools, in order of creation.
    pub fn pools(&self) -> (r: &Vec<PoolRecord>)
        ensures
            pool_states(r@) == self@.pools,
    {
        &self.pools
    }

    /// The stored index: for each party, the pools listed under it.
    pub fn user_pools(&self) -> (r: &Vec<UserPools>)
        ensures
            listings(r@) == self@.user_pools,
    {
        &self.user_pools
    }

    /// Makes a ledger of stored parts, or `None` where the parts are not a
    /// well-formed ledger.
    pub fn restore(admin: Option<Address>, pools: Vec<PoolRecord>, user_pools: Vec<UserPools>) -> (r:
        Option<Self>)
        ensures
            match r {
                Some(ledger) => ledger.wf() && ledger@ == (LedgerState {
                    admin,
                    pools: pool_states(pools@),
                    user_pools: listings(user_pools@),
                }),
                None => !(LedgerState {
                    admin,
                    pools: pool_states(pools@),
                    user_pools: listings(user_pools@),
                }).wf(),
            },
    {
        let ghost model = LedgerState {
            admin,
            pools: pool_states(pools@),
            user_pools: listings(user_pools@),
        };
        let mut ids: Vec<Hash32> = Vec::new();
        let mut i: usize = 0;
        while i < pools.len()
            invariant
                i <= pools@.len(),
                model == (LedgerState {
                    admin,
                    pools: pool_states(pools@),
                    user_pools: listings(user_pools@),
                }),
                ids@.len() == i,
                forall|j: int| 0 <= j < i ==> ids@[j] == pools@[j].pool.id,
                forall|j: int| 0 <= j < i ==> (#[trigger] model.pools[j]).wf(),
            decreases pools@.len() - i,
        {
            if !audit(&pools[i]) {
                assert(!model.pools[i as int].wf());
                return None;
            }
            ids.push(pools[i].pool.id);
            i += 1;
        }
        assert(ids@ =~= pool_ids(model.pools));
        if !hashes_distinct(&ids) {
            return None;
        }
        let mut users: Vec<Address> = Vec::new();
        let mut k: usize = 0;
        while k < user_pools.len()
            invariant
                k <= user_pools@.len(),
                model == (LedgerState {
                    admin,
                    pools: pool_states(pools@),
                    user_pools: listings(user_pools@),
                }),
                ids@ == pool_ids(model.pools),
                users@.len() == k,
                forall|m: int| 0 <= m < k ==> users@[m] == user_pools@[m].user,
                forall|m: int| 0 <= m < k ==> distinct((#[trigger] model.user_pools[m]).pools),
                forall|m: int, j: int|
                    0 <= m < k && 0 <= j < model.user_pools[m].pools.len() ==> position(
                        pool_ids(model.pools),
                        #[trigger] model.user_pools[m].pools[j],
                    ) is Some,
            decreases user_pools@.len() - k,
        {
            let listed = &user_pools[k].pools;
            assert(listed@ == model.user_pools[k as int].pools);
            if !hashes_distinct(listed) {
                return None;
            }
            let mut j: usize = 0;
            while j < listed.len()
                invariant
                    j <= listed@.len(),
                    k < user_pools@.len(),
                    model == (LedgerState {
                        admin,
                        pools: pool_states(pools@),
                        user_pools: listings(user_pools@),
                    }),
                    listed@ == model.user_pools[k as int].pools,
                    ids@ == pool_ids(model.pools),
                    forall|n: int|
                        0 <= n < j ==> position(pool_ids(model.pools), #[trigger] listed@[n])
                            is Some,
                decreases listed@.len() - j,
            {
                if id_position(&ids, &listed[j]).is_none() {
                    assert(position(pool_ids(model.pools), model.user_pools[k as int].pools[j as int])
                        is None);
                    return None;
                }
                j += 1;
            }
            users.push(user_pools[k].user);
            k += 1;
        }
        assert(users@ =~= index_users(model.user_pools));
        if !addresses_distinct(&users) {
            return None;
        }
        assert forall|a: int, b: int|
            0 <= a < user_pools@.len() && 0 <= b < user_pools@[a].pools@.len() implies position(
            pool_ids(pool_states(pools@)),
            #[trigger] user_pools@[a].pools@[b],
        ) is Some by {
            assert(position(pool_ids(model.pools), model.user_pools[a].pools[b]) is Some);
        }
        if !index_matches_pools(&pools, &user_pools) {
            return None;
        }
        Some(FamilyPoolContract { admin, pools, user_pools })
    }
}

} // verus!
