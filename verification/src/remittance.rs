//! The escrowed remittance: its record, the model of the escrow, and the
//! rules of the engine as functions on that model.
use vstd::prelude::*;
use crate::digest::Hash32;
use crate::error::Error;
use crate::host::{CallContext, Direction, Transfer, TransferOutcome};
use crate::identity::Address;
use crate::rates::{lemma_scaled_at_most_amount, scaled};
use crate::search::{distinct, lemma_position_is_first, position};

verus! {

/// The highest fee or insurance rate, in basis points: ten per cent.
pub const MAX_RATE_BPS: u32 = 1000;

/// Where a remittance stands. `Pending` is the only state that can change.
/// `Expired` is part of the record format; no operation reaches it.
#[derive(Clone, Copy, Debug, PartialEq, Eq, Structural)]
pub enum RemittanceStatus {
    Pending,
    Completed,
    Cancelled,
    Expired,
}

/// Who a remittance is meant for: a party of the ledger, or somebody known
/// by an identifier from outside it, such as a phone number.
#[derive(Debug, PartialEq, Eq)]
pub enum Recipient {
    Party(Address),
    Phone(String),
}

/// One escrowed transfer.
#[derive(Debug, PartialEq, Eq)]
pub struct Remittance {
    pub id: Hash32,
    pub sender: Address,
    pub recipient: Recipient,
    pub amount: i128,
    pub source_token: Address,
    pub target_token: Address,
    pub exchange_rate: u64,
    pub fee: i128,
    pub insurance: bool,
    pub insurance_fee: i128,
    pub redemption_code: Hash32,
    pub status: RemittanceStatus,
    pub created_at: u64,
    pub completed_at: Option<u64>,
    pub notes: String,
}

/// Who administers the escrow, and the rates it charges.
#[derive(Clone, Copy, Debug, PartialEq, Eq)]
pub struct Settings {
    pub admin: Address,
    pub fee_bps: u32,
    pub insurance_bps: u32,
}

/// The model of the escrow.
pub struct EscrowState {
    pub settings: Option<Settings>,
    pub remittances: Seq<Remittance>,
}

/// The share of `amount` that `bps` basis points come to, rounded toward
/// zero.
pub open spec fn share(amount: i128, bps: u32) -> int {
    scaled(amount, bps as u64)
}

/// What is paid to the recipient: the amount at the exchange rate, which is
/// in basis points, rounded toward zero.
pub open spec fn target_amount(amount: i128, exchange_rate: u64) -> int {
    scaled(amount, exchange_rate)
}

/// What a remittance takes from its sender: the amount and both fees.
pub open spec fn escrowed(r: Remittance) -> int {
    r.amount + r.fee + r.insurance_fee
}

/// What a cancelled remittance gives back: everything if it was insured, the
/// amount alone if not.
pub open spec fn refund(r: Remittance) -> int {
    if r.insurance {
        escrowed(r)
    } else {
        r.amount as int
    }
}

/// What stays in custody of what a remittance took from its sender: all of
/// it while pending, the fees once redeemed, and what was not refunded once
/// cancelled.
pub open spec fn held(r: Remittance) -> int {
    match r.status {
        RemittanceStatus::Pending => escrowed(r),
        RemittanceStatus::Completed => r.fee + r.insurance_fee,
        RemittanceStatus::Cancelled => escrowed(r) - refund(r),
        RemittanceStatus::Expired => escrowed(r),
    }
}

/// The identifiers of the remittances, in order.
pub open spec fn remittance_ids(list: Seq<Remittance>) -> Seq<Hash32> {
    Seq::new(list.len(), |i: int| list[i].id)
}

/// The identifiers of the remittances that `sender` made, oldest first.
pub open spec fn sent_by(list: Seq<Remittance>, sender: Address) -> Seq<Hash32>
    decreases list.len(),
{
    if list.len() == 0 {
        Seq::empty()
    } else if list.last().sender == sender {
        sent_by(list.drop_last(), sender).push(list.last().id)
    } else {
        sent_by(list.drop_last(), sender)
    }
}

/// Whether two recipients are the same: the same party, or the same
/// identifier.
pub open spec fn same_recipient(a: Recipient, b: Recipient) -> bool {
    match (a, b) {
        (Recipient::Party(x), Recipient::Party(y)) => x == y,
        (Recipient::Phone(x), Recipient::Phone(y)) => x@ == y@,
        _ => false,
    }
}

/// The identifiers of the remittances meant for `recipient`, oldest first.
pub open spec fn meant_for(list: Seq<Remittance>, recipient: Recipient) -> Seq<Hash32>
    decreases list.len(),
{
    if list.len() == 0 {
        Seq::empty()
    } else if same_recipient(list.last().recipient, recipient) {
        meant_for(list.drop_last(), recipient).push(list.last().id)
    } else {
        meant_for(list.drop_last(), recipient)
    }
}

/// What holds of every remittance on record: the amount is positive, the
/// fees are not negative, an uninsured remittance carries no insurance fee,
/// and both the escrowed sum and the amount at the exchange rate fit the
/// machine's integers.
pub open spec fn remittance_wf(r: Remittance) -> bool {
    &&& r.amount > 0
    &&& r.fee >= 0
    &&& r.insurance_fee >= 0
    &&& !r.insurance ==> r.insurance_fee == 0
    &&& escrowed(r) <= i128::MAX
    &&& target_amount(r.amount, r.exchange_rate) <= i128::MAX
}

impl EscrowState {
    /// What holds of every escrow that the engine reaches: the rates are at
    /// most [`MAX_RATE_BPS`], each remittance is well formed, and no two
    /// share an identifier.
    pub open spec fn wf(self) -> bool {
        &&& self.settings matches Some(s) ==> s.fee_bps <= MAX_RATE_BPS && s.insurance_bps
            <= MAX_RATE_BPS
        &&& forall|i: int|
            0 <= i < self.remittances.len() ==> remittance_wf(#[trigger] self.remittances[i])
        &&& distinct(remittance_ids(self.remittances))
    }

    /// The position of the remittance with the given identifier.
    pub open spec fn find(self, id: Hash32) -> Option<int> {
        position(remittance_ids(self.remittances), id)
    }

    /// The escrow with the remittance at position `i` replaced.
    pub open spec fn with_remittance(self, i: int, r: Remittance) -> EscrowState {
        EscrowState { remittances: self.remittances.update(i, r), ..self }
    }

    /// The outcome of `initialize`: the first call, made by the
    /// administrator itself with rates in range, sets the settings.
    pub open spec fn initialize(
        self,
        ctx: CallContext,
        admin: Address,
        fee_bps: u32,
        insurance_bps: u32,
    ) -> (EscrowState, Result<(), Error>) {
        if self.settings is Some {
            (self, Err(Error::AlreadyInitialized))
        } else if !ctx.authorizes(admin) {
            (self, Err(Error::NotAuthorized))
        } else if fee_bps > MAX_RATE_BPS || insurance_bps > MAX_RATE_BPS {
            (self, Err(Error::InvalidArgument))
        } else {
            (
                EscrowState {
                    settings: Some(Settings { admin, fee_bps, insurance_bps }),
                    ..self
                },
                Ok(()),
            )
        }
    }

    /// Why a change of rate is refused, if it is.
    pub open spec fn rate_change_refused(self, ctx: CallContext, admin: Address, bps: u32) -> Option<
        Error,
    > {
        if !ctx.authorizes(admin) {
            Some(Error::NotAuthorized)
        } else {
            match self.settings {
                None => Some(Error::InvalidState),
                Some(s) => if s.admin != admin {
                    Some(Error::Forbidden)
                } else if bps > MAX_RATE_BPS {
                    Some(Error::InvalidArgument)
                } else {
                    None
                },
            }
        }
    }

    /// The outcome of `update_fee_percentage`: the administrator sets the fee
    /// rate for remittances made from now on.
    pub open spec fn update_fee_percentage(self, ctx: CallContext, admin: Address, bps: u32) -> (
        EscrowState,
        Result<(), Error>,
    ) {
        match self.rate_change_refused(ctx, admin, bps) {
            Some(e) => (self, Err(e)),
            None => (
                EscrowState {
                    settings: Some(Settings { fee_bps: bps, ..self.settings->0 }),
                    ..self
                },
                Ok(()),
            ),
        }
    }

    /// The outcome of `update_insurance_percentage`: the administrator sets
    /// the insurance rate for remittances made from now on.
    pub open spec fn update_insurance_percentage(
        self,
        ctx: CallContext,
        admin: Address,
        bps: u32,
    ) -> (EscrowState, Result<(), Error>) {
        match self.rate_change_refused(ctx, admin, bps) {
            Some(e) => (self, Err(e)),
            None => (
                EscrowState {
                    settings: Some(Settings { insurance_bps: bps, ..self.settings->0 }),
                    ..self
                },
                Ok(()),
            ),
        }
    }

    /// The fee on `amount` at the current rate.
    pub open spec fn fee_on(self, amount: i128) -> int {
        share(amount, self.settings->0.fee_bps)
    }

    /// The insurance fee on `amount` at the current rate; nothing without
    /// insurance.
    pub open spec fn insurance_fee_on(self, amount: i128, insurance: bool) -> int {
        if insurance {
            share(amount, self.settings->0.insurance_bps)
        } else {
            0
        }
    }

    /// The transfer that a new remittance under the identifier `id` needs,
    /// or why the remittance is refused before any transfer.
    pub open spec fn escrow_transfer(
        self,
        ctx: CallContext,
        sender: Address,
        amount: i128,
        source_token: Address,
        exchange_rate: u64,
        insurance: bool,
        id: Hash32,
    ) -> Result<Transfer, Error> {
        if !ctx.authorizes(sender) {
            Err(Error::NotAuthorized)
        } else if self.settings is None {
            Err(Error::InvalidState)
        } else if amount <= 0 {
            Err(Error::InvalidArgument)
        } else if target_amount(amount, exchange_rate) > i128::MAX || amount + self.fee_on(amount)
            + self.insurance_fee_on(amount, insurance) > i128::MAX {
            Err(Error::InvalidArgument)
        } else if self.find(id) is Some {
            Err(Error::AlreadyExists)
        } else {
            Ok(
                Transfer {
                    token: source_token,
                    direction: Direction::Deposit,
                    party: sender,
                    amount: (amount + self.fee_on(amount) + self.insurance_fee_on(
                        amount,
                        insurance,
                    )) as i128,
                },
            )
        }
    }

    /// The outcome of making a remittance under the identifier `id`: once
    /// the transfer has settled, the remittance is on record as pending.
    pub open spec fn create_remittance(
        self,
        ctx: CallContext,
        sender: Address,
        recipient: Recipient,
        amount: i128,
        source_token: Address,
        target_token: Address,
        exchange_rate: u64,
        insurance: bool,
        redemption_code: Hash32,
        notes: String,
        outcome: TransferOutcome,
        id: Hash32,
    ) -> (EscrowState, Result<Hash32, Error>) {
        match self.escrow_transfer(ctx, sender, amount, source_token, exchange_rate, insurance, id) {
            Err(e) => (self, Err(e)),
            Ok(_) => if outcome == TransferOutcome::Failed {
                (self, Err(Error::TransferFailed))
            } else {
                (
                    EscrowState {
                        remittances: self.remittances.push(
                            Remittance {
                                id,
                                sender,
                                recipient,
                                amount,
                                source_token,
                                target_token,
                                exchange_rate,
                                fee: self.fee_on(amount) as i128,
                                insurance,
                                insurance_fee: self.insurance_fee_on(amount, insurance) as i128,
                                redemption_code,
                                status: RemittanceStatus::Pending,
                                created_at: ctx.timestamp,
                                completed_at: None,
                                notes,
                            },
                        ),
                        ..self
                    },
                    Ok(id),
                )
            },
        }
    }

    /// The transfer that a redemption needs, or why the redemption is
    /// refused before any transfer.
    pub open spec fn redemption_transfer(
        self,
        ctx: CallContext,
        id: Hash32,
        redemption_code: Hash32,
        recipient: Address,
    ) -> Result<Transfer, Error> {
        if !ctx.authorizes(recipient) {
            Err(Error::NotAuthorized)
        } else {
            match self.find(id) {
                None => Err(Error::NotFound),
                Some(i) => {
                    let r = self.remittances[i];
                    if r.status != RemittanceStatus::Pending {
                        Err(Error::InvalidState)
                    } else if r.recipient matches Recipient::Party(p) && p != recipient {
                        Err(Error::Forbidden)
                    } else if r.redemption_code != redemption_code {
                        Err(Error::Forbidden)
                    } else {
                        Ok(
                            Transfer {
                                token: r.target_token,
                                direction: Direction::Payout,
                                party: recipient,
                                amount: target_amount(r.amount, r.exchange_rate) as i128,
                            },
                        )
                    }
                },
            }
        }
    }

    /// The outcome of a redemption: once the transfer has settled, the
    /// remittance is completed at the ledger time.
    pub open spec fn redeem_remittance(
        self,
        ctx: CallContext,
        id: Hash32,
        redemption_code: Hash32,
        recipient: Address,
        outcome: TransferOutcome,
    ) -> (EscrowState, Result<(), Error>) {
        match self.redemption_transfer(ctx, id, redemption_code, recipient) {
            Err(e) => (self, Err(e)),
            Ok(_) => if outcome == TransferOutcome::Failed {
                (self, Err(Error::TransferFailed))
            } else {
                let i = self.find(id)->0;
                (
                    self.with_remittance(
                        i,
                        Remittance {
                            status: RemittanceStatus::Completed,
                            completed_at: Some(ctx.timestamp),
                            ..self.remittances[i]
                        },
                    ),
                    Ok(()),
                )
            },
        }
    }

    /// The transfer that a cancellation needs, or why the cancellation is
    /// refused before any transfer.
    pub open spec fn refund_transfer(self, ctx: CallContext, id: Hash32, sender: Address) -> Result<
        Transfer,
        Error,
    > {
        if !ctx.authorizes(sender) {
            Err(Error::NotAuthorized)
        } else {
            match self.find(id) {
                None => Err(Error::NotFound),
                Some(i) => {
                    let r = self.remittances[i];
                    if r.status != RemittanceStatus::Pending {
                        Err(Error::InvalidState)
                    } else if r.sender != sender {
                        Err(Error::Forbidden)
                    } else {
                        Ok(
                            Transfer {
                                token: r.source_token,
                                direction: Direction::Payout,
                                party: sender,
                                amount: refund(r) as i128,
                            },
                        )
                    }
                },
            }
        }
    }

    /// The outcome of a cancellation: once the transfer has settled, the
    /// remittance is cancelled.
    pub open spec fn cancel_remittance(
        self,
        ctx: CallContext,
        id: Hash32,
        sender: Address,
        outcome: TransferOutcome,
    ) -> (EscrowState, Result<(), Error>) {
        match self.refund_transfer(ctx, id, sender) {
            Err(e) => (self, Err(e)),
            Ok(_) => if outcome == TransferOutcome::Failed {
                (self, Err(Error::TransferFailed))
            } else {
                let i = self.find(id)->0;
                (
                    self.with_remittance(
                        i,
                        Remittance { status: RemittanceStatus::Cancelled, ..self.remittances[i] },
                    ),
                    Ok(()),
                )
            },
        }
    }

    /// What `get_remittance` returns.
    pub open spec fn get_remittance(self, id: Hash32) -> Result<Remittance, Error> {
        match self.find(id) {
            Some(i) => Ok(self.remittances[i]),
            None => Err(Error::NotFound),
        }
    }

    /// What `held_in_custody` returns.
    pub open spec fn held_in_custody(self, id: Hash32) -> Result<int, Error> {
        match self.find(id) {
            Some(i) => Ok(held(self.remittances[i])),
            None => Err(Error::NotFound),
        }
    }
}


/// Where a remittance is found, its position is in range and holds that
/// remittance.
pub proof fn lemma_find_remittance(s: EscrowState, id: Hash32)
    ensures
        match s.find(id) {
            Some(i) => 0 <= i < s.remittances.len() && s.remittances[i].id == id,
            None => forall|k: int| 0 <= k < s.remittances.len() ==> s.remittances[k].id != id,
        },
{
    lemma_position_is_first(remittance_ids(s.remittances), id);
    match s.find(id) {
        Some(i) => {},
        None => {
            assert forall|k: int| 0 <= k < s.remittances.len() implies s.remittances[k].id
                != id by {
                assert(remittance_ids(s.remittances)[k] != id);
            }
        },
    }
}

/// Replacing a remittance by a well-formed one of the same identifier keeps
/// the escrow well formed.
pub proof fn lemma_with_remittance_wf(s: EscrowState, i: int, r: Remittance)
    requires
        s.wf(),
        0 <= i < s.remittances.len(),
        remittance_wf(r),
        r.id == s.remittances[i].id,
    ensures
        s.with_remittance(i, r).wf(),
{
    let after = s.remittances.update(i, r);
    assert(remittance_ids(after) =~= remittance_ids(s.remittances));
    assert forall|k: int| 0 <= k < after.len() implies remittance_wf(#[trigger] after[k]) by {
        if k != i {
            assert(after[k] == s.remittances[k]);
        }
    }
}

/// `create_remittance` keeps the escrow well formed.
pub proof fn lemma_create_remittance_wf(
    s: EscrowState,
    ctx: CallContext,
    sender: Address,
    recipient: Recipient,
    amount: i128,
    source_token: Address,
    target_token: Address,
    exchange_rate: u64,
    insurance: bool,
    redemption_code: Hash32,
    notes: String,
    outcome: TransferOutcome,
    id: Hash32,
)
    requires
        s.wf(),
    ensures
        s.create_remittance(
            ctx,
            sender,
            recipient,
            amount,
            source_token,
            target_token,
            exchange_rate,
            insurance,
            redemption_code,
            notes,
            outcome,
            id,
        ).0.wf(),
{
    let out = s.create_remittance(
        ctx,
        sender,
        recipient,
        amount,
        source_token,
        target_token,
        exchange_rate,
        insurance,
        redemption_code,
        notes,
        outcome,
        id,
    );
    if out.1 is Ok {
        let settings = s.settings->0;
        lemma_scaled_at_most_amount(amount, settings.fee_bps as u64);
        lemma_scaled_at_most_amount(amount, settings.insurance_bps as u64);
        lemma_find_remittance(s, id);
        let after = out.0.remittances;
        let made = after[s.remittances.len() as int];
        assert(remittance_wf(made));
        assert(remittance_ids(after) =~= remittance_ids(s.remittances).push(id));
        assert forall|k: int| 0 <= k < after.len() implies remittance_wf(#[trigger] after[k]) by {
            if k < s.remittances.len() {
                assert(after[k] == s.remittances[k]);
            }
        }
        assert(distinct(remittance_ids(after))) by {
            assert forall|a: int, b: int| 0 <= a < b < after.len() implies remittance_ids(after)[a]
                != remittance_ids(after)[b] by {
                if b == s.remittances.len() {
                    assert(s.remittances[a].id != id);
                } else {
                    assert(remittance_ids(s.remittances)[a] != remittance_ids(s.remittances)[b]);
                }
            }
        }
    }
}

/// `redeem_remittance` keeps the escrow well formed.
pub proof fn lemma_redeem_remittance_wf(
    s: EscrowState,
    ctx: CallContext,
    id: Hash32,
    redemption_code: Hash32,
    recipient: Address,
    outcome: TransferOutcome,
)
    requires
        s.wf(),
    ensures
        s.redeem_remittance(ctx, id, redemption_code, recipient, outcome).0.wf(),
{
    let out = s.redeem_remittance(ctx, id, redemption_code, recipient, outcome);
    if out.1 is Ok {
        lemma_find_remittance(s, id);
        let i = s.find(id)->0;
        assert(remittance_wf(s.remittances[i]));
        lemma_with_remittance_wf(s, i, out.0.remittances[i]);
    }
}

/// `cancel_remittance` keeps the escrow well formed.
pub proof fn lemma_cancel_remittance_wf(
    s: EscrowState,
    ctx: CallContext,
    id: Hash32,
    sender: Address,
    outcome: TransferOutcome,
)
    requires
        s.wf(),
    ensures
        s.cancel_remittance(ctx, id, sender, outcome).0.wf(),
{
    let out = s.cancel_remittance(ctx, id, sender, outcome);
    if out.1 is Ok {
        lemma_find_remittance(s, id);
        let i = s.find(id)->0;
        assert(remittance_wf(s.remittances[i]));
        lemma_with_remittance_wf(s, i, out.0.remittances[i]);
    }
}

} // verus!
