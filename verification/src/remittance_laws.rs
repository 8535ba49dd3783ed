//! What holds of the remittance escrow engine whatever is asked of it.
use vstd::prelude::*;
use crate::digest::Hash32;
use crate::error::Error;
use crate::host::{CallContext, Direction, Transfer, TransferOutcome};
use crate::identity::Address;
use crate::rates::lemma_scaled_at_most_amount;
use crate::remittance::{
    lemma_cancel_remittance_wf, lemma_create_remittance_wf, lemma_find_remittance,
    lemma_redeem_remittance_wf, remittance_ids, EscrowState, Recipient, RemittanceStatus,
};
use crate::search::lemma_position_push;

verus! {

/// One call of an operation that can change the escrow, with its arguments.
#[allow(inconsistent_fields)]
pub enum EscrowCall {
    Initialize { admin: Address, fee_bps: u32, insurance_bps: u32 },
    UpdateFeePercentage { admin: Address, fee_bps: u32 },
    UpdateInsurancePercentage { admin: Address, insurance_bps: u32 },
    CreateRemittance {
        sender: Address,
        recipient: Recipient,
        amount: i128,
        source_token: Address,
        target_token: Address,
        exchange_rate: u64,
        insurance: bool,
        redemption_code: Hash32,
        notes: String,
        outcome: TransferOutcome,
        id: Hash32,
    },
    RedeemRemittance {
        id: Hash32,
        redemption_code: Hash32,
        recipient: Address,
        outcome: TransferOutcome,
    },
    CancelRemittance { id: Hash32, sender: Address, outcome: TransferOutcome },
}

impl EscrowState {
    /// The escrow after a call, whether the call succeeded or not.
    pub open spec fn after(self, ctx: CallContext, call: EscrowCall) -> EscrowState {
        match call {
            EscrowCall::Initialize { admin, fee_bps, insurance_bps } => self.initialize(
                ctx,
                admin,
                fee_bps,
                insurance_bps,
            ).0,
            EscrowCall::UpdateFeePercentage { admin, fee_bps } => self.update_fee_percentage(
                ctx,
                admin,
                fee_bps,
            ).0,
            EscrowCall::UpdateInsurancePercentage { admin, insurance_bps } => {
                self.update_insurance_percentage(ctx, admin, insurance_bps).0
            },
            EscrowCall::CreateRemittance {
                sender,
                recipient,
                amount,
                source_token,
                target_token,
                exchange_rate,
                insurance,
                redemption_code,
                notes,
                outcome,
                id,
            } => self.create_remittance(
                ctx,
                sender,
                recipient,
                amount,
                source_token,
                target_token,
                exchange_rate,
                insurance,
                redemption_code,
                notes,
                outcome,
                id,
            ).0,
            EscrowCall::RedeemRemittance { id, redemption_code, recipient, outcome } => {
                self.redeem_remittance(ctx, id, redemption_code, recipient, outcome).0
            },
            EscrowCall::CancelRemittance { id, sender, outcome } => self.cancel_remittance(
                ctx,
                id,
                sender,
                outcome,
            ).0,
        }
    }
}

/// Whether a remittance may pass from one status to the other: it stays as
/// it is, or it leaves `Pending` for `Completed` or `Cancelled`.
pub open spec fn remittance_step(before: RemittanceStatus, after: RemittanceStatus) -> bool {
    before == after || (before == RemittanceStatus::Pending && (after
        == RemittanceStatus::Completed || after == RemittanceStatus::Cancelled))
}

/// Every call leaves a well-formed escrow well formed.
pub proof fn law_calls_keep_the_escrow_well_formed(s: EscrowState, ctx: CallContext, call: EscrowCall)
    requires
        s.wf(),
    ensures
        s.after(ctx, call).wf(),
{
    match call {
        EscrowCall::Initialize { admin, fee_bps, insurance_bps } => {},
        EscrowCall::UpdateFeePercentage { admin, fee_bps } => {},
        EscrowCall::UpdateInsurancePercentage { admin, insurance_bps } => {},
        EscrowCall::CreateRemittance {
            sender,
            recipient,
            amount,
            source_token,
            target_token,
            exchange_rate,
            insurance,
            redemption_code,
            notes,
            outcome,
            id,
        } => lemma_create_remittance_wf(
            s,
            ctx,
            sender,
            recipient,
            amount,
            source_token,
            target_token,
            exchange_rate,
            insurance,
            redemption_code,
            notes,
            outcome,
            id,
        ),
        EscrowCall::RedeemRemittance { id, redemption_code, recipient, outcome } => {
            lemma_redeem_remittance_wf(s, ctx, id, redemption_code, recipient, outcome)
        },
        EscrowCall::CancelRemittance { id, sender, outcome } => lemma_cancel_remittance_wf(
            s,
            ctx,
            id,
            sender,
            outcome,
        ),
    }
}

/// No call takes a remittance off the record or changes its amounts, its
/// parties or its code, and the only change of status that a call makes is
/// from `Pending` to `Completed` or `Cancelled`: those two are final.
pub proof fn law_remittances_only_leave_pending(
    s: EscrowState,
    ctx: CallContext,
    call: EscrowCall,
    i: int,
)
    requires
        0 <= i < s.remittances.len(),
    ensures
        i < s.after(ctx, call).remittances.len(),
        s.after(ctx, call).remittances[i].id == s.remittances[i].id,
        s.after(ctx, call).remittances[i].sender == s.remittances[i].sender,
        s.after(ctx, call).remittances[i].amount == s.remittances[i].amount,
        s.after(ctx, call).remittances[i].fee == s.remittances[i].fee,
        s.after(ctx, call).remittances[i].insurance == s.remittances[i].insurance,
        s.after(ctx, call).remittances[i].insurance_fee == s.remittances[i].insurance_fee,
        s.after(ctx, call).remittances[i].exchange_rate == s.remittances[i].exchange_rate,
        s.after(ctx, call).remittances[i].redemption_code == s.remittances[i].redemption_code,
        remittance_step(s.remittances[i].status, s.after(ctx, call).remittances[i].status),
{
    match call {
        EscrowCall::RedeemRemittance { id, redemption_code, recipient, outcome } => {
            lemma_find_remittance(s, id);
        },
        EscrowCall::CancelRemittance { id, sender, outcome } => {
            lemma_find_remittance(s, id);
        },
        _ => {},
    }
}

/// A redemption with a code that differs from the one on record in at least
/// one byte, made for a pending remittance by a recipient whom the host has
/// verified, fails with `Forbidden`: no transfer is asked for, and the escrow,
/// the remittance's status with it, stays as it was.
pub proof fn law_a_wrong_code_redeems_nothing(
    s: EscrowState,
    ctx: CallContext,
    id: Hash32,
    redemption_code: Hash32,
    recipient: Address,
    outcome: TransferOutcome,
)
    requires
        ctx.authorizes(recipient),
        s.find(id) matches Some(i) && s.remittances[i].status == RemittanceStatus::Pending
            && exists|k: int|
            0 <= k < 32 && redemption_code[k] != s.remittances[i].redemption_code[k],
    ensures
        s.redemption_transfer(ctx, id, redemption_code, recipient) == Err::<Transfer, Error>(
            Error::Forbidden,
        ),
        s.redeem_remittance(ctx, id, redemption_code, recipient, outcome) == (
            s,
            Err::<(), Error>(Error::Forbidden),
        ),
{
}

/// What is escrowed comes back on cancellation as far as insurance covers
/// it. A remittance that was made with success took the amount, the fee and
/// the insurance fee from its sender; when the sender then cancels it, the
/// refund asked for is that whole sum if it was insured, and the amount
/// alone if it was not.
pub proof fn law_cancellation_refunds_what_insurance_covers(
    s: EscrowState,
    ctx: CallContext,
    later: CallContext,
    sender: Address,
    recipient: Recipient,
    amount: i128,
    source_token: Address,
    target_token: Address,
    exchange_rate: u64,
    insurance: bool,
    redemption_code: Hash32,
    notes: String,
    id: Hash32,
)
    requires
        s.wf(),
        later.authorizes(sender),
        s.create_remittance(
            ctx,
            sender,
            recipient,
            amount,
            source_token,
            target_token,
            exchange_rate,
            insurance,
            redemption_code,
            notes,
            TransferOutcome::Settled,
            id,
        ).1 is Ok,
    ensures
        ({
            let fee = s.fee_on(amount);
            let insurance_fee = s.insurance_fee_on(amount, insurance);
            let made = s.create_remittance(
                ctx,
                sender,
                recipient,
                amount,
                source_token,
                target_token,
                exchange_rate,
                insurance,
                redemption_code,
                notes,
                TransferOutcome::Settled,
                id,
            ).0;
            &&& s.escrow_transfer(
                ctx,
                sender,
                amount,
                source_token,
                exchange_rate,
                insurance,
                id,
            ) == Ok::<Transfer, Error>(
                Transfer {
                    token: source_token,
                    direction: Direction::Deposit,
                    party: sender,
                    amount: (amount + fee + insurance_fee) as i128,
                },
            )
            &&& amount + fee + insurance_fee <= i128::MAX
            &&& made.refund_transfer(later, id, sender) == Ok::<Transfer, Error>(
                Transfer {
                    token: source_token,
                    direction: Direction::Payout,
                    party: sender,
                    amount: if insurance {
                        (amount + fee + insurance_fee) as i128
                    } else {
                        amount
                    },
                },
            )
        }),
{
    let settings = s.settings->0;
    lemma_scaled_at_most_amount(amount, settings.fee_bps as u64);
    lemma_scaled_at_most_amount(amount, settings.insurance_bps as u64);
    lemma_find_remittance(s, id);
    let made = s.create_remittance(
        ctx,
        sender,
        recipient,
        amount,
        source_token,
        target_token,
        exchange_rate,
        insurance,
        redemption_code,
        notes,
        TransferOutcome::Settled,
        id,
    ).0;
    assert(remittance_ids(made.remittances) =~= remittance_ids(s.remittances).push(id));
    lemma_position_push(remittance_ids(s.remittances), id, id);
}

} // verus!
