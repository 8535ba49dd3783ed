//! What holds of the fund pool engine whatever is asked of it.
use vstd::prelude::*;
use crate::digest::Hash32;
use crate::error::Error;
use crate::family_pool::{
    browses, contributed, has_role, is_member, listed, listing_agrees, member_addresses, released,
    withdrawal_ids, Contribution, FamilyPool, LedgerState, MemberRole, Withdrawal,
    WithdrawalPeriod, WithdrawalStatus,
};
use crate::host::{CallContext, Direction, Transfer, TransferOutcome};
use crate::identity::Address;
use crate::pool_rules::{
    lemma_add_member_wf, lemma_contribute_wf, lemma_create_pool_wf, lemma_find_pool,
    lemma_initialize_wf, lemma_process_withdrawal_wf, lemma_remove_member_wf,
    lemma_request_withdrawal_wf, lemma_update_withdrawal_limit_wf,
    lemma_update_withdrawal_period_wf,
};
use crate::search::{lemma_position_distinct, lemma_position_is_first, position};

verus! {

/// One call of an operation that can change the ledger, with its arguments.
pub enum PoolCall {
    Initialize { admin: Address },
    CreatePool {
        creator: Address,
        name: String,
        token: Address,
        withdrawal_limit: i128,
        withdrawal_period: WithdrawalPeriod,
        id: Hash32,
    },
    AddMember { pool_id: Hash32, admin: Address, new_member: Address, role: MemberRole },
    RemoveMember { pool_id: Hash32, admin: Address, target: Address },
    Contribute {
        pool_id: Hash32,
        contributor: Address,
        amount: i128,
        outcome: TransferOutcome,
        id: Hash32,
    },
    RequestWithdrawal {
        pool_id: Hash32,
        requester: Address,
        recipient: Address,
        amount: i128,
        outcome: TransferOutcome,
        id: Hash32,
    },
    ProcessWithdrawal {
        pool_id: Hash32,
        withdrawal_id: Hash32,
        admin: Address,
        approve: bool,
        outcome: TransferOutcome,
    },
    UpdateWithdrawalLimit { pool_id: Hash32, admin: Address, new_limit: i128 },
    UpdateWithdrawalPeriod { pool_id: Hash32, admin: Address, new_period: WithdrawalPeriod },
}

impl LedgerState {
    /// The ledger after a call, whether the call succeeded or not.
    pub open spec fn after(self, ctx: CallContext, call: PoolCall) -> LedgerState {
        match call {
            PoolCall::Initialize { admin } => self.initialize(ctx, admin).0,
            PoolCall::CreatePool { creator, name, token, withdrawal_limit, withdrawal_period, id } => {
                self.create_pool(
                    ctx,
                    creator,
                    name,
                    token,
                    withdrawal_limit,
                    withdrawal_period,
                    id,
                ).0
            },
            PoolCall::AddMember { pool_id, admin, new_member, role } => self.add_member(
                ctx,
                pool_id,
                admin,
                new_member,
                role,
            ).0,
            PoolCall::RemoveMember { pool_id, admin, target } => self.remove_member(
                ctx,
                pool_id,
                admin,
                target,
            ).0,
            PoolCall::Contribute { pool_id, contributor, amount, outcome, id } => self.contribute(
                ctx,
                pool_id,
                contributor,
                amount,
                outcome,
                id,
            ).0,
            PoolCall::RequestWithdrawal { pool_id, requester, recipient, amount, outcome, id } => {
                self.request_withdrawal(ctx, pool_id, requester, recipient, amount, outcome, id).0
            },
            PoolCall::ProcessWithdrawal { pool_id, withdrawal_id, admin, approve, outcome } => {
                self.process_withdrawal(ctx, pool_id, withdrawal_id, admin, approve, outcome).0
            },
            PoolCall::UpdateWithdrawalLimit { pool_id, admin, new_limit } => {
                self.update_withdrawal_limit(ctx, pool_id, admin, new_limit).0
            },
            PoolCall::UpdateWithdrawalPeriod { pool_id, admin, new_period } => {
                self.update_withdrawal_period(ctx, pool_id, admin, new_period).0
            },
        }
    }
}

/// Whether a withdrawal may pass from one status to the other: it stays as
/// it is, or it leaves `Pending` for `Approved` or `Rejected`.
pub open spec fn status_step(before: WithdrawalStatus, after: WithdrawalStatus) -> bool {
    before == after || (before == WithdrawalStatus::Pending && (after == WithdrawalStatus::Approved
        || after == WithdrawalStatus::Rejected))
}

/// Every call leaves a well-formed ledger well formed.
pub proof fn law_calls_keep_the_ledger_well_formed(s: LedgerState, ctx: CallContext, call: PoolCall)
    requires
        s.wf(),
    ensures
        s.after(ctx, call).wf(),
{
    match call {
        PoolCall::Initialize { admin } => lemma_initialize_wf(s, ctx, admin),
        PoolCall::CreatePool { creator, name, token, withdrawal_limit, withdrawal_period, id } => {
            lemma_create_pool_wf(
                s,
                ctx,
                creator,
                name,
                token,
                withdrawal_limit,
                withdrawal_period,
                id,
            )
        },
        PoolCall::AddMember { pool_id, admin, new_member, role } => lemma_add_member_wf(
            s,
            ctx,
            pool_id,
            admin,
            new_member,
            role,
        ),
        PoolCall::RemoveMember { pool_id, admin, target } => lemma_remove_member_wf(
            s,
            ctx,
            pool_id,
            admin,
            target,
        ),
        PoolCall::Contribute { pool_id, contributor, amount, outcome, id } => lemma_contribute_wf(
            s,
            ctx,
            pool_id,
            contributor,
            amount,
            outcome,
            id,
        ),
        PoolCall::RequestWithdrawal { pool_id, requester, recipient, amount, outcome, id } => {
            lemma_request_withdrawal_wf(s, ctx, pool_id, requester, recipient, amount, outcome, id)
        },
        PoolCall::ProcessWithdrawal { pool_id, withdrawal_id, admin, approve, outcome } => {
            lemma_process_withdrawal_wf(s, ctx, pool_id, withdrawal_id, admin, approve, outcome)
        },
        PoolCall::UpdateWithdrawalLimit { pool_id, admin, new_limit } => {
            lemma_update_withdrawal_limit_wf(s, ctx, pool_id, admin, new_limit)
        },
        PoolCall::UpdateWithdrawalPeriod { pool_id, admin, new_period } => {
            lemma_update_withdrawal_period_wf(s, ctx, pool_id, admin, new_period)
        },
    }
}

/// In a well-formed ledger, and so after any call, the balance of every pool
/// is the sum of its contributions less the sum of its approved or completed
/// withdrawals.
pub proof fn law_balance_is_contributions_less_releases(
    s: LedgerState,
    ctx: CallContext,
    call: PoolCall,
    i: int,
)
    requires
        s.wf(),
        0 <= i < s.after(ctx, call).pools.len(),
    ensures
        contributed(s.after(ctx, call).pools[i].contributions) - released(
            s.after(ctx, call).pools[i].withdrawals,
        ) == s.after(ctx, call).pools[i].pool.balance,
{
    law_calls_keep_the_ledger_well_formed(s, ctx, call);
    assert(s.after(ctx, call).pools[i].wf());
}

/// No call takes a withdrawal off the record or changes what it asks for,
/// and the only change of status that a call makes is from `Pending` to
/// `Approved` or `Rejected`: those two are final, and nothing becomes
/// `Pending` again.
pub proof fn law_withdrawals_only_leave_pending(
    s: LedgerState,
    ctx: CallContext,
    call: PoolCall,
    i: int,
    j: int,
)
    requires
        0 <= i < s.pools.len(),
        0 <= j < s.pools[i].withdrawals.len(),
    ensures
        i < s.after(ctx, call).pools.len(),
        s.after(ctx, call).pools[i].pool.id == s.pools[i].pool.id,
        j < s.after(ctx, call).pools[i].withdrawals.len(),
        s.after(ctx, call).pools[i].withdrawals[j].id == s.pools[i].withdrawals[j].id,
        s.after(ctx, call).pools[i].withdrawals[j].amount == s.pools[i].withdrawals[j].amount,
        s.after(ctx, call).pools[i].withdrawals[j].recipient == s.pools[i].withdrawals[j].recipient,
        status_step(
            s.pools[i].withdrawals[j].status,
            s.after(ctx, call).pools[i].withdrawals[j].status,
        ),
{
    match call {
        PoolCall::Initialize { admin } => {},
        PoolCall::CreatePool { creator, name, token, withdrawal_limit, withdrawal_period, id } => {},
        PoolCall::AddMember { pool_id, admin, new_member, role } => {
            lemma_find_pool(s, pool_id);
        },
        PoolCall::RemoveMember { pool_id, admin, target } => {
            lemma_find_pool(s, pool_id);
        },
        PoolCall::Contribute { pool_id, contributor, amount, outcome, id } => {
            lemma_find_pool(s, pool_id);
        },
        PoolCall::RequestWithdrawal { pool_id, requester, recipient, amount, outcome, id } => {
            lemma_find_pool(s, pool_id);
        },
        PoolCall::ProcessWithdrawal { pool_id, withdrawal_id, admin, approve, outcome } => {
            lemma_find_pool(s, pool_id);
            match s.find_pool(pool_id) {
                Some(k) => {
                    lemma_position_is_first(withdrawal_ids(s.pools[k].withdrawals), withdrawal_id);
                },
                None => {},
            }
        },
        PoolCall::UpdateWithdrawalLimit { pool_id, admin, new_limit } => {
            lemma_find_pool(s, pool_id);
        },
        PoolCall::UpdateWithdrawalPeriod { pool_id, admin, new_period } => {
            lemma_find_pool(s, pool_id);
        },
    }
}

/// In a well-formed ledger, and so after any call, a pool is listed under a
/// party if and only if the party is a member of it with a role other than
/// recipient.
pub proof fn law_the_index_lists_memberships(
    s: LedgerState,
    ctx: CallContext,
    call: PoolCall,
    i: int,
    user: Address,
)
    requires
        s.wf(),
        0 <= i < s.after(ctx, call).pools.len(),
    ensures
        listed(s.after(ctx, call).user_pools, user, s.after(ctx, call).pools[i].pool.id) == browses(
            s.after(ctx, call).pools[i].members,
            user,
        ),
{
    law_calls_keep_the_ledger_well_formed(s, ctx, call);
    assert(listing_agrees(s.after(ctx, call).user_pools, s.after(ctx, call).pools, i, user));
}

/// No call takes a pool off the ledger or changes its identifier, its name,
/// its creator, its token or its time of creation, and no call takes a
/// contribution off a pool's log or changes it.
pub proof fn law_pools_and_receipts_persist(
    s: LedgerState,
    ctx: CallContext,
    call: PoolCall,
    i: int,
    j: int,
)
    requires
        0 <= i < s.pools.len(),
        0 <= j < s.pools[i].contributions.len(),
    ensures
        i < s.after(ctx, call).pools.len(),
        s.after(ctx, call).pools[i].pool.id == s.pools[i].pool.id,
        s.after(ctx, call).pools[i].pool.name == s.pools[i].pool.name,
        s.after(ctx, call).pools[i].pool.creator == s.pools[i].pool.creator,
        s.after(ctx, call).pools[i].pool.token == s.pools[i].pool.token,
        s.after(ctx, call).pools[i].pool.created_at == s.pools[i].pool.created_at,
        j < s.after(ctx, call).pools[i].contributions.len(),
        s.after(ctx, call).pools[i].contributions[j] == s.pools[i].contributions[j],
{
    match call {
        PoolCall::Initialize { admin } => {},
        PoolCall::CreatePool { creator, name, token, withdrawal_limit, withdrawal_period, id } => {},
        PoolCall::AddMember { pool_id, admin, new_member, role } => {
            lemma_find_pool(s, pool_id);
        },
        PoolCall::RemoveMember { pool_id, admin, target } => {
            lemma_find_pool(s, pool_id);
        },
        PoolCall::Contribute { pool_id, contributor, amount, outcome, id } => {
            lemma_find_pool(s, pool_id);
        },
        PoolCall::RequestWithdrawal { pool_id, requester, recipient, amount, outcome, id } => {
            lemma_find_pool(s, pool_id);
        },
        PoolCall::ProcessWithdrawal { pool_id, withdrawal_id, admin, approve, outcome } => {
            lemma_find_pool(s, pool_id);
        },
        PoolCall::UpdateWithdrawalLimit { pool_id, admin, new_limit } => {
            lemma_find_pool(s, pool_id);
        },
        PoolCall::UpdateWithdrawalPeriod { pool_id, admin, new_period } => {
            lemma_find_pool(s, pool_id);
        },
    }
}

/// In a well-formed ledger every withdrawal is the one that its identifier
/// finds in its pool, so that each pending withdrawal can be decided.
pub proof fn law_every_withdrawal_is_found_by_its_id(s: LedgerState, i: int, j: int)
    requires
        s.wf(),
        0 <= i < s.pools.len(),
        0 <= j < s.pools[i].withdrawals.len(),
    ensures
        position(withdrawal_ids(s.pools[i].withdrawals), s.pools[i].withdrawals[j].id) == Some(j),
{
    assert(s.pools[i].wf());
    lemma_position_distinct(withdrawal_ids(s.pools[i].withdrawals), j);
}

/// Removing the creator of a pool fails and changes nothing, whoever asks.
pub proof fn law_the_creator_is_never_removed(
    s: LedgerState,
    ctx: CallContext,
    pool_id: Hash32,
    admin: Address,
    target: Address,
)
    requires
        s.find_pool(pool_id) matches Some(i) && target == s.pools[i].pool.creator,
    ensures
        s.remove_member(ctx, pool_id, admin, target).1 is Err,
        s.remove_member(ctx, pool_id, admin, target).0 == s,
{
}

/// A request for more than the pool's limit, made by a member of the pool
/// whom the host has verified, fails with `LimitExceeded` and changes
/// nothing, whatever the member's role and whatever the balance.
pub proof fn law_a_request_above_the_limit_fails(
    s: LedgerState,
    ctx: CallContext,
    pool_id: Hash32,
    requester: Address,
    recipient: Address,
    amount: i128,
    outcome: TransferOutcome,
    id: Hash32,
)
    requires
        s.wf(),
        ctx.authorizes(requester),
        s.find_pool(pool_id) matches Some(i) && is_member(s.pools[i].members, requester) && amount
            > s.pools[i].pool.withdrawal_limit,
    ensures
        s.withdrawal_transfer(ctx, pool_id, requester, recipient, amount, id) == Err::<
            Option<Transfer>,
            Error,
        >(Error::LimitExceeded),
        s.request_withdrawal(ctx, pool_id, requester, recipient, amount, outcome, id) == (
            s,
            Err::<Hash32, Error>(Error::LimitExceeded),
        ),
{
    lemma_find_pool(s, pool_id);
    let i = s.find_pool(pool_id)->0;
    assert(s.pools[i].wf());
}

/// A request by a party that is no member of the pool, verified by the host
/// and for a positive amount, fails with `NotMember` and changes nothing,
/// whatever the amount.
pub proof fn law_a_request_by_a_stranger_fails(
    s: LedgerState,
    ctx: CallContext,
    pool_id: Hash32,
    requester: Address,
    recipient: Address,
    amount: i128,
    outcome: TransferOutcome,
    id: Hash32,
)
    requires
        ctx.authorizes(requester),
        amount > 0,
        s.find_pool(pool_id) matches Some(i) && !is_member(s.pools[i].members, requester),
    ensures
        s.withdrawal_transfer(ctx, pool_id, requester, recipient, amount, id) == Err::<
            Option<Transfer>,
            Error,
        >(Error::NotMember),
        s.request_withdrawal(ctx, pool_id, requester, recipient, amount, outcome, id) == (
            s,
            Err::<Hash32, Error>(Error::NotMember),
        ),
{
}

/// A contribution of a positive amount that the balance can take, made by a
/// member whom the host has verified: the transfer asked for is a deposit of
/// the amount by the contributor in the pool's token. Once it has settled,
/// the receipt is appended under the given identifier with the pool's token
/// and the ledger time, the balance grows by the amount, and nothing else
/// changes. If it failed, nothing changes at all.
pub proof fn law_a_settled_contribution_is_recorded(
    s: LedgerState,
    ctx: CallContext,
    pool_id: Hash32,
    contributor: Address,
    amount: i128,
    id: Hash32,
)
    requires
        ctx.authorizes(contributor),
        amount > 0,
        s.find_pool(pool_id) matches Some(i) && is_member(s.pools[i].members, contributor)
            && s.pools[i].pool.balance + amount <= i128::MAX,
    ensures
        ({
            let i = s.find_pool(pool_id)->0;
            let p = s.pools[i];
            let done = s.contribute(
                ctx,
                pool_id,
                contributor,
                amount,
                TransferOutcome::Settled,
                id,
            );
            &&& s.contribution_transfer(ctx, pool_id, contributor, amount) == Ok::<Transfer, Error>(
                Transfer {
                    token: p.pool.token,
                    direction: Direction::Deposit,
                    party: contributor,
                    amount,
                },
            )
            &&& done.1 == Ok::<Hash32, Error>(id)
            &&& done.0 == s.with_pool(i, done.0.pools[i])
            &&& done.0.pools[i].pool.balance == p.pool.balance + amount
            &&& done.0.pools[i].contributions == p.contributions.push(
                Contribution {
                    id,
                    contributor,
                    amount,
                    token: p.pool.token,
                    created_at: ctx.timestamp,
                },
            )
            &&& done.0.pools[i].members == p.members
            &&& done.0.pools[i].withdrawals == p.withdrawals
            &&& done.0.pools[i].pool == (FamilyPool {
                balance: (p.pool.balance + amount) as i128,
                ..p.pool
            })
            &&& s.contribute(ctx, pool_id, contributor, amount, TransferOutcome::Failed, id) == (
                s,
                Err::<Hash32, Error>(Error::TransferFailed),
            )
        }),
{
    lemma_find_pool(s, pool_id);
}

/// A member that is no admin asks for itself, under an identifier that is
/// new to the pool, for a positive amount within the limit and the balance:
/// no transfer is asked for, the request is appended as pending with the
/// given fields, made at the ledger time and not completed, and the balance
/// and everything else stay as they were.
pub proof fn law_a_members_own_request_is_pending(
    s: LedgerState,
    ctx: CallContext,
    pool_id: Hash32,
    requester: Address,
    amount: i128,
    outcome: TransferOutcome,
    id: Hash32,
)
    requires
        ctx.authorizes(requester),
        amount > 0,
        s.find_pool(pool_id) matches Some(i) && is_member(s.pools[i].members, requester)
            && !has_role(s.pools[i].members, requester, MemberRole::Admin) && amount
            <= s.pools[i].pool.withdrawal_limit && amount <= s.pools[i].pool.balance && position(
            withdrawal_ids(s.pools[i].withdrawals),
            id,
        ) is None,
    ensures
        ({
            let i = s.find_pool(pool_id)->0;
            let p = s.pools[i];
            let done = s.request_withdrawal(ctx, pool_id, requester, requester, amount, outcome, id);
            &&& s.withdrawal_transfer(ctx, pool_id, requester, requester, amount, id) == Ok::<
                Option<Transfer>,
                Error,
            >(None)
            &&& done.1 == Ok::<Hash32, Error>(id)
            &&& done.0 == s.with_pool(i, done.0.pools[i])
            &&& done.0.pools[i].withdrawals == p.withdrawals.push(
                Withdrawal {
                    id,
                    requester,
                    recipient: requester,
                    amount,
                    token: p.pool.token,
                    status: WithdrawalStatus::Pending,
                    created_at: ctx.timestamp,
                    completed_at: 0,
                },
            )
            &&& done.0.pools[i].pool == p.pool
            &&& done.0.pools[i].members == p.members
            &&& done.0.pools[i].contributions == p.contributions
        }),
{
    lemma_find_pool(s, pool_id);
}

/// An admin asks for itself or for a member with the recipient role, under
/// an identifier that is new to the pool, for a positive amount within the
/// limit and the balance: the transfer asked for is a payout of the amount
/// to the recipient in the pool's token. Once it has settled, the request
/// is appended as approved, completed at the ledger time, the balance falls
/// by the amount, and nothing else changes. If it failed, nothing changes at
/// all.
pub proof fn law_an_admins_request_is_paid_at_once(
    s: LedgerState,
    ctx: CallContext,
    pool_id: Hash32,
    requester: Address,
    recipient: Address,
    amount: i128,
    id: Hash32,
)
    requires
        ctx.authorizes(requester),
        amount > 0,
        s.find_pool(pool_id) matches Some(i) && has_role(
            s.pools[i].members,
            requester,
            MemberRole::Admin,
        ) && (recipient == requester || has_role(
            s.pools[i].members,
            recipient,
            MemberRole::Recipient,
        )) && amount <= s.pools[i].pool.withdrawal_limit && amount <= s.pools[i].pool.balance
            && position(withdrawal_ids(s.pools[i].withdrawals), id) is None,
    ensures
        ({
            let i = s.find_pool(pool_id)->0;
            let p = s.pools[i];
            let done = s.request_withdrawal(
                ctx,
                pool_id,
                requester,
                recipient,
                amount,
                TransferOutcome::Settled,
                id,
            );
            &&& s.withdrawal_transfer(ctx, pool_id, requester, recipient, amount, id) == Ok::<
                Option<Transfer>,
                Error,
            >(
                Some(
                    Transfer {
                        token: p.pool.token,
                        direction: Direction::Payout,
                        party: recipient,
                        amount,
                    },
                ),
            )
            &&& done.1 == Ok::<Hash32, Error>(id)
            &&& done.0 == s.with_pool(i, done.0.pools[i])
            &&& done.0.pools[i].withdrawals == p.withdrawals.push(
                Withdrawal {
                    id,
                    requester,
                    recipient,
                    amount,
                    token: p.pool.token,
                    status: WithdrawalStatus::Approved,
                    created_at: ctx.timestamp,
                    completed_at: ctx.timestamp,
                },
            )
            &&& done.0.pools[i].pool.balance == p.pool.balance - amount
            &&& done.0.pools[i].pool == (FamilyPool {
                balance: (p.pool.balance - amount) as i128,
                ..p.pool
            })
            &&& done.0.pools[i].members == p.members
            &&& done.0.pools[i].contributions == p.contributions
            &&& s.request_withdrawal(
                ctx,
                pool_id,
                requester,
                recipient,
                amount,
                TransferOutcome::Failed,
                id,
            ) == (s, Err::<Hash32, Error>(Error::TransferFailed))
        }),
{
    lemma_find_pool(s, pool_id);
    let i = s.find_pool(pool_id)->0;
    let members = s.pools[i].members;
    let w = choose|w: int|
        0 <= w < members.len() && members[w].address == requester && members[w].role
            == MemberRole::Admin;
    assert(member_addresses(members)[w] == requester);
    lemma_position_is_first(member_addresses(members), requester);
}

/// Of two approvals of the same withdrawal, one after the other, the second
/// fails once the first has succeeded: it finds the withdrawal no longer
/// pending. Where the second is made by a verified admin of the pool, the
/// failure is `InvalidState`. The second changes nothing.
pub proof fn law_a_withdrawal_is_approved_once(
    s: LedgerState,
    first: CallContext,
    second: CallContext,
    pool_id: Hash32,
    withdrawal_id: Hash32,
    first_admin: Address,
    second_admin: Address,
    first_outcome: TransferOutcome,
    second_outcome: TransferOutcome,
)
    requires
        s.process_withdrawal(first, pool_id, withdrawal_id, first_admin, true, first_outcome).1
            is Ok,
    ensures
        ({
            let mid = s.process_withdrawal(
                first,
                pool_id,
                withdrawal_id,
                first_admin,
                true,
                first_outcome,
            ).0;
            let again = mid.process_withdrawal(
                second,
                pool_id,
                withdrawal_id,
                second_admin,
                true,
                second_outcome,
            );
            &&& again.1 is Err
            &&& again.0 == mid
            &&& second.authorizes(second_admin) && has_role(
                s.pools[s.find_pool(pool_id)->0].members,
                second_admin,
                MemberRole::Admin,
            ) ==> again.1 == Err::<(), Error>(Error::InvalidState)
        }),
{
    lemma_find_pool(s, pool_id);
    let i = s.find_pool(pool_id)->0;
    let before = s.pools[i].withdrawals;
    lemma_position_is_first(withdrawal_ids(before), withdrawal_id);
    let j = position(withdrawal_ids(before), withdrawal_id)->0;
    let mid = s.process_withdrawal(
        first,
        pool_id,
        withdrawal_id,
        first_admin,
        true,
        first_outcome,
    ).0;
    assert(crate::family_pool::pool_ids(mid.pools) =~= crate::family_pool::pool_ids(s.pools));
    assert(withdrawal_ids(mid.pools[i].withdrawals) =~= withdrawal_ids(before));
    assert(mid.pools[i].withdrawals[j].status == WithdrawalStatus::Approved);
}

} // verus!
