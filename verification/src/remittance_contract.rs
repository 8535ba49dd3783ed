//! The remittance escrow engine: the operations on an escrow.
use vstd::prelude::*;
use crate::digest::{sha256_digest, Hash32};
use crate::error::Error;
use crate::host::{CallContext, Direction, Transfer, TransferOutcome};
use crate::identity::{bytes32_eq, hashes_distinct, Address};
use crate::ids::{derive_remittance_id, remittance_preimage};
use crate::rates::{lemma_scaled_at_most_amount, scale};
use crate::remittance::{
    lemma_cancel_remittance_wf, lemma_create_remittance_wf, lemma_redeem_remittance_wf, meant_for,
    remittance_ids, remittance_wf, same_recipient, sent_by, EscrowState, Recipient, Remittance,
    RemittanceStatus, Settings, MAX_RATE_BPS,
};
use crate::search::{is_first, lemma_position_absent, lemma_position_found, position};

verus! {

/// The escrow: its settings and every remittance made, oldest first.
pub struct RemittanceContract {
    settings: Option<Settings>,
    remittances: Vec<Remittance>,
}

impl View for RemittanceContract {
    type V = EscrowState;

    closed spec fn view(&self) -> EscrowState {
        EscrowState { settings: self.settings, remittances: self.remittances@ }
    }
}

/// Tells whether two recipients are the same.
fn recipients_match(a: &Recipient, b: &Recipient) -> (r: bool)
    ensures
        r == same_recipient(*a, *b),
{
    match (a, b) {
        (Recipient::Party(x), Recipient::Party(y)) => x.same(y),
        (Recipient::Phone(x), Recipient::Phone(y)) => *x == *y,
        _ => false,
    }
}

/// Tells whether a stored remittance is well formed.
fn remittance_ok(r: &Remittance) -> (ok: bool)
    ensures
        ok == remittance_wf(*r),
{
    if r.amount <= 0 || r.fee < 0 || r.insurance_fee < 0 {
        return false;
    }
    if !r.insurance && r.insurance_fee != 0 {
        return false;
    }
    let with_fee = match r.amount.checked_add(r.fee) {
        None => { return false; },
        Some(v) => v,
    };
    if with_fee.checked_add(r.insurance_fee).is_none() {
        return false;
    }
    scale(r.amount, r.exchange_rate).is_some()
}

impl RemittanceContract {
    /// Whether the escrow is well formed. Every operation keeps it so.
    pub open spec fn wf(&self) -> bool {
        self@.wf()
    }

    /// An escrow that has not been set up and holds nothing.
    pub fn new() -> (r: Self)
        ensures
            r.wf(),
            r@.settings is None,
            r@.remittances.len() == 0,
    {
        RemittanceContract { settings: None, remittances: Vec::new() }
    }

    /// The position of the remittance with the given identifier.
    fn find(&self, id: &Hash32) -> (r: Option<usize>)
        ensures
            match r {
                Some(i) => self@.find(*id) == Some(i as int) && i < self.remittances@.len(),
                None => self@.find(*id) is None,
            },
    {
        let ghost keys = remittance_ids(self.remittances@);
        let mut i: usize = 0;
        while i < self.remittances.len()
            invariant
                i <= self.remittances@.len(),
                keys == remittance_ids(self.remittances@),
                forall|j: int| 0 <= j < i ==> keys[j] != *id,
            decreases self.remittances@.len() - i,
        {
            if bytes32_eq(&self.remittances[i].id, id) {
                proof {
                    assert(is_first(keys, *id, i as int));
                    lemma_position_found(keys, *id, i as int);
                }
                return Some(i);
            }
            i += 1;
        }
        proof {
            lemma_position_absent(keys, *id);
        }
        None
    }

    /// Sets the administrator and the two rates. Only the first call
    /// succeeds.
    ///
    /// Fails with `AlreadyInitialized` on an escrow that was set up, with
    /// `NotAuthorized` unless the host has verified `admin`, and with
    /// `InvalidArgument` if a rate is above [`MAX_RATE_BPS`].
    pub fn initialize(
        &mut self,
        ctx: &CallContext,
        admin: Address,
        fee_bps: u32,
        insurance_bps: u32,
    ) -> (r: Result<(), Error>)
        requires
            old(self).wf(),
        ensures
            final(self).wf(),
            (final(self)@, r) == old(self)@.initialize(*ctx, admin, fee_bps, insurance_bps),
    {
        if self.settings.is_some() {
            return Err(Error::AlreadyInitialized);
        }
        if !ctx.require_auth(&admin) {
            return Err(Error::NotAuthorized);
        }
        if fee_bps > MAX_RATE_BPS || insurance_bps > MAX_RATE_BPS {
            return Err(Error::InvalidArgument);
        }
        self.settings = Some(Settings { admin, fee_bps, insurance_bps });
        Ok(())
    }

    /// The settings, if the change of a rate to `bps` by `admin` is in
    /// order.
    fn rate_change(&self, ctx: &CallContext, admin: &Address, bps: u32) -> (r: Result<
        Settings,
        Error,
    >)
        ensures
            match r {
                Ok(s) => self@.rate_change_refused(*ctx, *admin, bps) is None && self@.settings
                    == Some(s),
                Err(e) => self@.rate_change_refused(*ctx, *admin, bps) == Some(e),
            },
    {
        if !ctx.require_auth(admin) {
            return Err(Error::NotAuthorized);
        }
        let settings = match self.settings {
            None => { return Err(Error::InvalidState); },
            Some(s) => s,
        };
        if !settings.admin.same(admin) {
            return Err(Error::Forbidden);
        }
        if bps > MAX_RATE_BPS {
            return Err(Error::InvalidArgument);
        }
        Ok(settings)
    }

    /// Sets the fee rate for remittances made from now on.
    ///
    /// Fails with `NotAuthorized` unless the host has verified `admin`, with
    /// `InvalidState` on an escrow that was not set up, with `Forbidden` if
    /// `admin` is not the administrator, and with `InvalidArgument` if the
    /// rate is above [`MAX_RATE_BPS`].
    pub fn update_fee_percentage(&mut self, ctx: &CallContext, admin: Address, fee_bps: u32) -> (r:
        Result<(), Error>)
        requires
            old(self).wf(),
        ensures
            final(self).wf(),
            (final(self)@, r) == old(self)@.update_fee_percentage(*ctx, admin, fee_bps),
    {
        match self.rate_change(ctx, &admin, fee_bps) {
            Err(e) => Err(e),
            Ok(s) => {
                self.settings = Some(
                    Settings { admin: s.admin, fee_bps, insurance_bps: s.insurance_bps },
                );
                Ok(())
            },
        }
    }

    /// Sets the insurance rate for remittances made from now on. Fails as
    /// [`Self::update_fee_percentage`] does.
    pub fn update_insurance_percentage(
        &mut self,
        ctx: &CallContext,
        admin: Address,
        insurance_bps: u32,
    ) -> (r: Result<(), Error>)
        requires
            old(self).wf(),
        ensures
            final(self).wf(),
            (final(self)@, r) == old(self)@.update_insurance_percentage(*ctx, admin, insurance_bps),
    {
        match self.rate_change(ctx, &admin, insurance_bps) {
            Err(e) => Err(e),
            Ok(s) => {
                self.settings = Some(Settings { admin: s.admin, fee_bps: s.fee_bps, insurance_bps });
                Ok(())
            },
        }
    }

    /// Tells which transfer a new remittance under the identifier `id`
    /// needs, or why the remittance is refused. The escrow is not changed.
    ///
    /// Fails with `NotAuthorized` unless the host has verified the sender,
    /// with `InvalidState` on an escrow that was not set up, with
    /// `InvalidArgument` unless the amount is positive and both the sum to
    /// escrow and the amount at the exchange rate fit in 128 bits, and with
    /// `AlreadyExists` if a remittance has this identifier.
    pub fn escrow_transfer_with_id(
        &self,
        ctx: &CallContext,
        sender: Address,
        amount: i128,
        source_token: Address,
        exchange_rate: u64,
        insurance: bool,
        id: &Hash32,
    ) -> (r: Result<Transfer, Error>)
        requires
            self.wf(),
        ensures
            r == self@.escrow_transfer(
                *ctx,
                sender,
                amount,
                source_token,
                exchange_rate,
                insurance,
                *id,
            ),
            r matches Ok(t) ==> t.amount == amount + self@.fee_on(amount) + self@.insurance_fee_on(
                amount,
                insurance,
            ),
    {
        if !ctx.require_auth(&sender) {
            return Err(Error::NotAuthorized);
        }
        let settings = match self.settings {
            None => { return Err(Error::InvalidState); },
            Some(s) => s,
        };
        if amount <= 0 {
            return Err(Error::InvalidArgument);
        }
        proof {
            lemma_scaled_at_most_amount(amount, settings.fee_bps as u64);
            lemma_scaled_at_most_amount(amount, settings.insurance_bps as u64);
        }
        if scale(amount, exchange_rate).is_none() {
            return Err(Error::InvalidArgument);
        }
        let fee = match scale(amount, settings.fee_bps as u64) {
            None => { return Err(Error::InvalidArgument); },
            Some(v) => v,
        };
        let insurance_fee = if insurance {
            match scale(amount, settings.insurance_bps as u64) {
                None => { return Err(Error::InvalidArgument); },
                Some(v) => v,
            }
        } else {
            0
        };
        let with_fee = match amount.checked_add(fee) {
            None => { return Err(Error::InvalidArgument); },
            Some(v) => v,
        };
        let total = match with_fee.checked_add(insurance_fee) {
            None => { return Err(Error::InvalidArgument); },
            Some(v) => v,
        };
        if self.find(id).is_some() {
            return Err(Error::AlreadyExists);
        }
        Ok(
            Transfer {
                token: source_token,
                direction: Direction::Deposit,
                party: sender,
                amount: total,
            },
        )
    }

    /// Tells which transfer a new remittance needs, when its identifier is
    /// the digest of the sender, the ledger time and the number of
    /// remittances made so far.
    pub fn escrow_transfer(
        &self,
        ctx: &CallContext,
        sender: Address,
        amount: i128,
        source_token: Address,
        exchange_rate: u64,
        insurance: bool,
    ) -> (r: Result<Transfer, Error>)
        requires
            self.wf(),
        ensures
            r == self@.escrow_transfer(
                *ctx,
                sender,
                amount,
                source_token,
                exchange_rate,
                insurance,
                sha256_digest(
                    remittance_preimage(sender, ctx.timestamp, self@.remittances.len() as u64),
                ),
            ),
    {
        let id = derive_remittance_id(&sender, ctx.timestamp, self.remittances.len() as u64);
        self.escrow_transfer_with_id(
            ctx,
            sender,
            amount,
            source_token,
            exchange_rate,
            insurance,
            &id,
        )
    }

    /// Puts a remittance on record under the identifier `id`, given how the
    /// transfer named by [`Self::escrow_transfer_with_id`] ended.
    ///
    /// Fails as `escrow_transfer_with_id` does, and with `TransferFailed` if
    /// the transfer failed; then nothing is recorded. Otherwise the
    /// remittance is pending, with the fee and the insurance fee at the
    /// current rates.
    pub fn create_remittance_with_id(
        &mut self,
        ctx: &CallContext,
        sender: Address,
        recipient: Recipient,
        amount: i128,
        source_token: Address,
        target_token: Address,
        exchange_rate: u64,
        insurance: bool,
        redemption_code: Hash32,
        notes: String,
        outcome: TransferOutcome,
        id: Hash32,
    ) -> (r: Result<Hash32, Error>)
        requires
            old(self).wf(),
        ensures
            final(self).wf(),
            (final(self)@, r) == old(self)@.create_remittance(
                *ctx,
                sender,
                recipient,
                amount,
                source_token,
                target_token,
                exchange_rate,
                insurance,
                redemption_code,
                notes,
                outcome,
                id,
            ),
    {
        match self.escrow_transfer_with_id(
            ctx,
            sender,
            amount,
            source_token,
            exchange_rate,
            insurance,
            &id,
        ) {
            Err(e) => { return Err(e); },
            Ok(_) => {},
        }
        match outcome {
            TransferOutcome::Failed => { return Err(Error::TransferFailed); },
            TransferOutcome::Settled => {},
        }
        let settings = match self.settings {
            None => { return Err(Error::InvalidState); },
            Some(s) => s,
        };
        proof {
            lemma_scaled_at_most_amount(amount, settings.fee_bps as u64);
            lemma_scaled_at_most_amount(amount, settings.insurance_bps as u64);
            lemma_create_remittance_wf(
                old(self)@,
                *ctx,
                sender,
                recipient,
                amount,
                source_token,
                target_token,
                exchange_rate,
                insurance,
                redemption_code,
                notes,
                outcome,
                id,
            );
        }
        let fee = match scale(amount, settings.fee_bps as u64) {
            None => { return Err(Error::InvalidArgument); },
            Some(v) => v,
        };
        let insurance_fee = if insurance {
            match scale(amount, settings.insurance_bps as u64) {
                None => { return Err(Error::InvalidArgument); },
                Some(v) => v,
            }
        } else {
            0
        };
        self.remittances.push(
            Remittance {
                id,
                sender,
                recipient,
                amount,
                source_token,
                target_token,
                exchange_rate,
                fee,
                insurance,
                insurance_fee,
                redemption_code,
                status: RemittanceStatus::Pending,
                created_at: ctx.timestamp,
                completed_at: None,
                notes,
            },
        );
        Ok(id)
    }

    /// Puts a remittance on record whose identifier is the digest of the
    /// sender, the ledger time and the number of remittances made so far,
    /// given how the transfer named by [`Self::escrow_transfer`] ended.
    pub fn create_remittance(
        &mut self,
        ctx: &CallContext,
        sender: Address,
        recipient: Recipient,
        amount: i128,
        source_token: Address,
        target_token: Address,
        exchange_rate: u64,
        insurance: bool,
        redemption_code: Hash32,
        notes: String,
        outcome: TransferOutcome,
    ) -> (r: Result<Hash32, Error>)
        requires
            old(self).wf(),
        ensures
            final(self).wf(),
            (final(self)@, r) == old(self)@.create_remittance(
                *ctx,
                sender,
                recipient,
                amount,
                source_token,
                target_token,
                exchange_rate,
                insurance,
                redemption_code,
                notes,
                outcome,
                sha256_digest(
                    remittance_preimage(sender, ctx.timestamp, old(self)@.remittances.len() as u64),
                ),
            ),
    {
        let id = derive_remittance_id(&sender, ctx.timestamp, self.remittances.len() as u64);
        self.create_remittance_with_id(
            ctx,
            sender,
            recipient,
            amount,
            source_token,
            target_token,
            exchange_rate,
            insurance,
            redemption_code,
            notes,
            outcome,
            id,
        )
    }

    /// Tells which transfer a redemption needs, or why the redemption is
    /// refused. The escrow is not changed.
    ///
    /// Fails with `NotAuthorized` unless the host has verified the
    /// recipient, with `NotFound` for an unknown remittance, with
    /// `InvalidState` unless the remittance is pending, and with `Forbidden`
    /// if the remittance is meant for another party or the code differs from
    /// the one on record in any byte.
    pub fn redemption_transfer(
        &self,
        ctx: &CallContext,
        id: &Hash32,
        redemption_code: &Hash32,
        recipient: Address,
    ) -> (r: Result<Transfer, Error>)
        requires
            self.wf(),
        ensures
            r == self@.redemption_transfer(*ctx, *id, *redemption_code, recipient),
    {
        if !ctx.require_auth(&recipient) {
            return Err(Error::NotAuthorized);
        }
        let i = match self.find(id) {
            None => { return Err(Error::NotFound); },
            Some(i) => i,
        };
        let record = &self.remittances[i];
        if record.status != RemittanceStatus::Pending {
            return Err(Error::InvalidState);
        }
        match &record.recipient {
            Recipient::Party(p) => {
                if !p.same(&recipient) {
                    return Err(Error::Forbidden);
                }
            },
            Recipient::Phone(_) => {},
        }
        if !bytes32_eq(&record.redemption_code, redemption_code) {
            return Err(Error::Forbidden);
        }
        assert(remittance_wf(self@.remittances[i as int]));
        match scale(record.amount, record.exchange_rate) {
            None => Err(Error::InvalidState),
            Some(amount) => Ok(
                Transfer {
                    token: record.target_token,
                    direction: Direction::Payout,
                    party: recipient,
                    amount,
                },
            ),
        }
    }

    /// Completes a pending remittance, given how the transfer named by
    /// [`Self::redemption_transfer`] ended.
    ///
    /// Fails as `redemption_transfer` does, and with `TransferFailed` if the
    /// transfer failed; then nothing changes. Otherwise the remittance is
    /// completed at the ledger time; its fees stay in custody.
    pub fn redeem_remittance(
        &mut self,
        ctx: &CallContext,
        id: &Hash32,
        redemption_code: &Hash32,
        recipient: Address,
        outcome: TransferOutcome,
    ) -> (r: Result<(), Error>)
        requires
            old(self).wf(),
        ensures
            final(self).wf(),
            (final(self)@, r) == old(self)@.redeem_remittance(
                *ctx,
                *id,
                *redemption_code,
                recipient,
                outcome,
            ),
    {
        match self.redemption_transfer(ctx, id, redemption_code, recipient) {
            Err(e) => { return Err(e); },
            Ok(_) => {},
        }
        match outcome {
            TransferOutcome::Failed => { return Err(Error::TransferFailed); },
            TransferOutcome::Settled => {},
        }
        let i = match self.find(id) {
            None => { return Err(Error::NotFound); },
            Some(i) => i,
        };
        proof {
            lemma_redeem_remittance_wf(old(self)@, *ctx, *id, *redemption_code, recipient, outcome);
        }
        self.remittances[i].status = RemittanceStatus::Completed;
        self.remittances[i].completed_at = Some(ctx.timestamp);
        assert(self@.remittances =~= old(self)@.redeem_remittance(
            *ctx,
            *id,
            *redemption_code,
            recipient,
            outcome,
        ).0.remittances);
        Ok(())
    }

    /// Tells which transfer a cancellation needs, or why the cancellation is
    /// refused. The escrow is not changed.
    ///
    /// Fails with `NotAuthorized` unless the host has verified the sender,
    /// with `NotFound` for an unknown remittance, with `InvalidState` unless
    /// the remittance is pending, and with `Forbidden` if another party made
    /// it. The refund is everything that was escrowed if the remittance is
    /// insured, the amount alone if not.
    pub fn refund_transfer(&self, ctx: &CallContext, id: &Hash32, sender: Address) -> (r: Result<
        Transfer,
        Error,
    >)
        requires
            self.wf(),
        ensures
            r == self@.refund_transfer(*ctx, *id, sender),
    {
        if !ctx.require_auth(&sender) {
            return Err(Error::NotAuthorized);
        }
        let i = match self.find(id) {
            None => { return Err(Error::NotFound); },
            Some(i) => i,
        };
        let record = &self.remittances[i];
        if record.status != RemittanceStatus::Pending {
            return Err(Error::InvalidState);
        }
        if !record.sender.same(&sender) {
            return Err(Error::Forbidden);
        }
        assert(remittance_wf(self@.remittances[i as int]));
        let amount = if record.insurance {
            record.amount + record.fee + record.insurance_fee
        } else {
            record.amount
        };
        Ok(
            Transfer {
                token: record.source_token,
                direction: Direction::Payout,
                party: sender,
                amount,
            },
        )
    }

    /// Cancels a pending remittance, given how the transfer named by
    /// [`Self::refund_transfer`] ended.
    ///
    /// Fails as `refund_transfer` does, and with `TransferFailed` if the
    /// transfer failed; then nothing changes. Otherwise the remittance is
    /// cancelled; its time of completion stays unset.
    pub fn cancel_remittance(
        &mut self,
        ctx: &CallContext,
        id: &Hash32,
        sender: Address,
        outcome: TransferOutcome,
    ) -> (r: Result<(), Error>)
        requires
            old(self).wf(),
        ensures
            final(self).wf(),
            (final(self)@, r) == old(self)@.cancel_remittance(*ctx, *id, sender, outcome),
    {
        match self.refund_transfer(ctx, id, sender) {
            Err(e) => { return Err(e); },
            Ok(_) => {},
        }
        match outcome {
            TransferOutcome::Failed => { return Err(Error::TransferFailed); },
            TransferOutcome::Settled => {},
        }
        let i = match self.find(id) {
            None => { return Err(Error::NotFound); },
            Some(i) => i,
        };
        proof {
            lemma_cancel_remittance_wf(old(self)@, *ctx, *id, sender, outcome);
        }
        self.remittances[i].status = RemittanceStatus::Cancelled;
        assert(self@.remittances =~= old(self)@.cancel_remittance(
            *ctx,
            *id,
            sender,
            outcome,
        ).0.remittances);
        Ok(())
    }

    /// The remittance with the given identifier; `NotFound` if there is
    /// none.
    pub fn get_remittance(&self, id: &Hash32) -> (r: Result<&Remittance, Error>)
        ensures
            match r {
                Ok(found) => self@.get_remittance(*id) == Ok::<Remittance, Error>(*found),
                Err(e) => self@.get_remittance(*id) == Err::<Remittance, Error>(e),
            },
    {
        match self.find(id) {
            Some(i) => Ok(&self.remittances[i]),
            None => Err(Error::NotFound),
        }
    }

    /// The number of remittances made so far.
    pub fn get_remittance_count(&self) -> (r: usize)
        ensures
            r == self@.remittances.len(),
    {
        self.remittances.len()
    }

    /// The identifiers of the remittances that `sender` made, oldest first;
    /// none for a party that made none.
    pub fn get_user_remittances(&self, sender: &Address) -> (r: Vec<Hash32>)
        ensures
            r@ == sent_by(self@.remittances, *sender),
    {
        let mut ids: Vec<Hash32> = Vec::new();
        let mut i: usize = 0;
        assert(self.remittances@.take(0).len() == 0);
        while i < self.remittances.len()
            invariant
                i <= self.remittances@.len(),
                ids@ == sent_by(self.remittances@.take(i as int), *sender),
            decreases self.remittances@.len() - i,
        {
            let ghost next = self.remittances@.take(i + 1);
            assert(next.drop_last() =~= self.remittances@.take(i as int));
            assert(next.last() == self.remittances@[i as int]);
            if self.remittances[i].sender.same(sender) {
                ids.push(self.remittances[i].id);
            }
            i += 1;
        }
        assert(self.remittances@.take(i as int) =~= self.remittances@);
        ids
    }

    /// The identifiers of the remittances meant for `recipient`, oldest
    /// first; none for a recipient that none is meant for.
    pub fn get_recipient_remittances(&self, recipient: &Recipient) -> (r: Vec<Hash32>)
        ensures
            r@ == meant_for(self@.remittances, *recipient),
    {
        let mut ids: Vec<Hash32> = Vec::new();
        let mut i: usize = 0;
        assert(self.remittances@.take(0).len() == 0);
        while i < self.remittances.len()
            invariant
                i <= self.remittances@.len(),
                ids@ == meant_for(self.remittances@.take(i as int), *recipient),
            decreases self.remittances@.len() - i,
        {
            let ghost next = self.remittances@.take(i + 1);
            assert(next.drop_last() =~= self.remittances@.take(i as int));
            assert(next.last() == self.remittances@[i as int]);
            if recipients_match(&self.remittances[i].recipient, recipient) {
                ids.push(self.remittances[i].id);
            }
            i += 1;
        }
        assert(self.remittances@.take(i as int) =~= self.remittances@);
        ids
    }

    /// What is still in custody of what the remittance took from its sender;
    /// `NotFound` for an unknown remittance.
    pub fn held_in_custody(&self, id: &Hash32) -> (r: Result<i128, Error>)
        requires
            self.wf(),
        ensures
            match r {
                Ok(v) => self@.held_in_custody(*id) == Ok::<int, Error>(v as int),
                Err(e) => self@.held_in_custody(*id) == Err::<int, Error>(e),
            },
    {
        let i = match self.find(id) {
            None => { return Err(Error::NotFound); },
            Some(i) => i,
        };
        let record = &self.remittances[i];
        assert(remittance_wf(self@.remittances[i as int]));
        let fees = record.fee + record.insurance_fee;
        match record.status {
            RemittanceStatus::Pending => Ok(record.amount + fees),
            RemittanceStatus::Completed => Ok(fees),
            RemittanceStatus::Cancelled => if record.insurance {
                Ok(0)
            } else {
                Ok(fees)
            },
            RemittanceStatus::Expired => Ok(record.amount + fees),
        }
    }

    /// The settings, once the escrow is set up.
    pub fn settings(&self) -> (r: Option<Settings>)
        ensures
            r == self@.settings,
    {
        self.settings
    }

    /// The stored remittances, oldest first.
    pub fn remittances(&self) -> (r: &Vec<Remittance>)
        ensures
            r@ == self@.remittances,
    {
        &self.remittances
    }

    /// Makes an escrow of stored parts, or `None` where the parts are not a
    /// well-formed escrow.
    pub fn restore(settings: Option<Settings>, remittances: Vec<Remittance>) -> (r: Option<Self>)
        ensures
            match r {
                Some(escrow) => escrow.wf() && escrow@ == (EscrowState {
                    settings,
                    remittances: remittances@,
                }),
                None => !(EscrowState { settings, remittances: remittances@ }).wf(),
            },
    {
        match settings {
            Some(s) => {
                if s.fee_bps > MAX_RATE_BPS || s.insurance_bps > MAX_RATE_BPS {
                    return None;
                }
            },
            None => {},
        }
        let mut ids: Vec<Hash32> = Vec::new();
        let mut i: usize = 0;
        while i < remittances.len()
            invariant
                i <= remittances@.len(),
                ids@.len() == i,
                forall|j: int| 0 <= j < i ==> ids@[j] == remittances@[j].id,
                forall|j: int| 0 <= j < i ==> remittance_wf(#[trigger] remittances@[j]),
            decreases remittances@.len() - i,
        {
            if !remittance_ok(&remittances[i]) {
                return None;
            }
            ids.push(remittances[i].id);
            i += 1;
        }
        assert(ids@ =~= remittance_ids(remittances@));
        if !hashes_distinct(&ids) {
            return None;
        }
        Some(RemittanceContract { settings, remittances })
    }
}

} // verus!
