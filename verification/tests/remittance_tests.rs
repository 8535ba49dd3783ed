use custody_ledger::error::Error;
use custody_ledger::host::{CallContext, Direction, Transfer, TransferOutcome};
use custody_ledger::identity::Address;
use custody_ledger::remittance::{Recipient, RemittanceStatus, Settings};
use custody_ledger::remittance_contract::RemittanceContract;

const OK: TransferOutcome = TransferOutcome::Settled;

fn party(n: u8) -> Address {
    Address::Account([n; 32])
}

fn source() -> Address {
    Address::Contract([0xa1; 32])
}

fn target() -> Address {
    Address::Contract([0xa2; 32])
}

fn at(invoker: Address, timestamp: u64) -> CallContext {
    CallContext { invoker, timestamp }
}

fn code() -> [u8; 32] {
    let mut c = [0u8; 32];
    for (i, b) in c.iter_mut().enumerate() {
        *b = i as u8;
    }
    c
}

/// An escrow set up by party 9 with the given rates.
fn escrow(fee_bps: u32, insurance_bps: u32) -> RemittanceContract {
    let mut e = RemittanceContract::new();
    e.initialize(&at(party(9), 1), party(9), fee_bps, insurance_bps).unwrap();
    e
}

/// Makes a remittance of `amount` from party 1 to party 2 at par.
fn send(e: &mut RemittanceContract, amount: i128, insurance: bool) -> [u8; 32] {
    e.create_remittance(
        &at(party(1), 50),
        party(1),
        Recipient::Party(party(2)),
        amount,
        source(),
        target(),
        10000,
        insurance,
        code(),
        String::from("rent"),
        OK,
    )
    .unwrap()
}

#[test]
fn initialize_sets_the_rates_once() {
    let mut e = RemittanceContract::new();
    assert_eq!(e.settings(), None);
    assert_eq!(e.initialize(&at(party(8), 1), party(9), 100, 50), Err(Error::NotAuthorized));
    assert_eq!(e.initialize(&at(party(9), 1), party(9), 1001, 50), Err(Error::InvalidArgument));
    assert_eq!(e.initialize(&at(party(9), 1), party(9), 100, 1001), Err(Error::InvalidArgument));
    assert_eq!(e.settings(), None);
    assert_eq!(e.initialize(&at(party(9), 1), party(9), 1000, 0), Ok(()));
    assert_eq!(e.settings(), Some(Settings { admin: party(9), fee_bps: 1000, insurance_bps: 0 }));
    assert_eq!(e.initialize(&at(party(9), 2), party(9), 1, 1), Err(Error::AlreadyInitialized));
    assert_eq!(e.initialize(&at(party(8), 2), party(8), 1, 1), Err(Error::AlreadyInitialized));
    assert_eq!(e.settings(), Some(Settings { admin: party(9), fee_bps: 1000, insurance_bps: 0 }));
}

#[test]
fn uninsured_round_trip_escrows_1010_and_refunds_1000() {
    let mut e = escrow(100, 50);
    assert_eq!(
        e.escrow_transfer(&at(party(1), 50), party(1), 1000, source(), 10000, false),
        Ok(Transfer { token: source(), direction: Direction::Deposit, party: party(1), amount: 1010 })
    );
    let id = send(&mut e, 1000, false);
    let r = e.get_remittance(&id).unwrap();
    assert_eq!(r.amount, 1000);
    assert_eq!(r.fee, 10);
    assert_eq!(r.insurance_fee, 0);
    assert_eq!(r.status, RemittanceStatus::Pending);
    assert_eq!(e.held_in_custody(&id), Ok(1010));
    assert_eq!(
        e.refund_transfer(&at(party(1), 60), &id, party(1)),
        Ok(Transfer { token: source(), direction: Direction::Payout, party: party(1), amount: 1000 })
    );
    assert_eq!(e.cancel_remittance(&at(party(1), 60), &id, party(1), OK), Ok(()));
    let r = e.get_remittance(&id).unwrap();
    assert_eq!(r.status, RemittanceStatus::Cancelled);
    assert_eq!(r.completed_at, None);
    // the fee is forfeited and stays in custody
    assert_eq!(e.held_in_custody(&id), Ok(10));
}

#[test]
fn insured_round_trip_escrows_1015_and_refunds_1015() {
    let mut e = escrow(100, 50);
    assert_eq!(
        e.escrow_transfer(&at(party(1), 50), party(1), 1000, source(), 10000, true),
        Ok(Transfer { token: source(), direction: Direction::Deposit, party: party(1), amount: 1015 })
    );
    let id = send(&mut e, 1000, true);
    let r = e.get_remittance(&id).unwrap();
    assert_eq!(r.fee, 10);
    assert_eq!(r.insurance_fee, 5);
    assert!(r.insurance);
    assert_eq!(e.held_in_custody(&id), Ok(1015));
    assert_eq!(
        e.refund_transfer(&at(party(1), 60), &id, party(1)),
        Ok(Transfer { token: source(), direction: Direction::Payout, party: party(1), amount: 1015 })
    );
    assert_eq!(e.cancel_remittance(&at(party(1), 60), &id, party(1), OK), Ok(()));
    assert_eq!(e.get_remittance(&id).unwrap().status, RemittanceStatus::Cancelled);
    assert_eq!(e.held_in_custody(&id), Ok(0));
}

#[test]
fn fees_are_rounded_toward_zero() {
    let mut e = escrow(100, 50);
    // 199 * 100 / 10000 = 1.99, 199 * 50 / 10000 = 0.995
    let id = send(&mut e, 199, true);
    let r = e.get_remittance(&id).unwrap();
    assert_eq!(r.fee, 1);
    assert_eq!(r.insurance_fee, 0);
    let id = send(&mut e, 99, false);
    assert_eq!(e.get_remittance(&id).unwrap().fee, 0);
    let id = send(&mut e, 1_234_567, true);
    let r = e.get_remittance(&id).unwrap();
    assert_eq!(r.fee, 12_345);
    assert_eq!(r.insurance_fee, 6_172);
}

#[test]
fn create_remittance_records_what_was_asked() {
    let mut e = escrow(250, 0);
    let id = e
        .create_remittance(
            &at(party(1), 77),
            party(1),
            Recipient::Phone(String::from("+254700000001")),
            4000,
            source(),
            target(),
            12500,
            false,
            code(),
            String::from("school fees"),
            OK,
        )
        .unwrap();
    let r = e.get_remittance(&id).unwrap();
    assert_eq!(r.id, id);
    assert_eq!(r.sender, party(1));
    assert_eq!(r.recipient, Recipient::Phone(String::from("+254700000001")));
    assert_eq!(r.amount, 4000);
    assert_eq!(r.source_token, source());
    assert_eq!(r.target_token, target());
    assert_eq!(r.exchange_rate, 12500);
    assert_eq!(r.fee, 100);
    assert!(!r.insurance);
    assert_eq!(r.insurance_fee, 0);
    assert_eq!(r.redemption_code, code());
    assert_eq!(r.status, RemittanceStatus::Pending);
    assert_eq!(r.created_at, 77);
    assert_eq!(r.completed_at, None);
    assert_eq!(r.notes, "school fees");
    assert_eq!(e.get_remittance_count(), 1);
}

#[test]
fn create_remittance_id_is_the_digest_of_sender_time_and_count() {
    let mut e = escrow(100, 50);
    let first = send(&mut e, 10, false);
    let second = send(&mut e, 10, false);
    assert_ne!(first, second);
    let mut preimage: Vec<u8> = vec![0u8];
    preimage.extend_from_slice(&[1u8; 32]);
    preimage.extend_from_slice(&50u64.to_le_bytes());
    preimage.extend_from_slice(&1u64.to_le_bytes());
    assert_eq!(Some(second), custody_ledger::digest::digest_of(&preimage));
}

#[test]
fn create_remittance_failures_record_nothing() {
    let mut e = RemittanceContract::new();
    let ctx = at(party(1), 50);
    let make = |e: &mut RemittanceContract, ctx: &CallContext, amount: i128, rate: u64, outcome| {
        e.create_remittance(
            ctx,
            party(1),
            Recipient::Party(party(2)),
            amount,
            source(),
            target(),
            rate,
            true,
            code(),
            String::new(),
            outcome,
        )
    };
    assert_eq!(make(&mut e, &ctx, 10, 10000, OK), Err(Error::InvalidState));
    e.initialize(&at(party(9), 1), party(9), 1000, 1000).unwrap();
    assert_eq!(make(&mut e, &at(party(2), 50), 10, 10000, OK), Err(Error::NotAuthorized));
    assert_eq!(make(&mut e, &ctx, 0, 10000, OK), Err(Error::InvalidArgument));
    assert_eq!(make(&mut e, &ctx, -1, 10000, OK), Err(Error::InvalidArgument));
    // amount and fees together do not fit
    assert_eq!(make(&mut e, &ctx, i128::MAX, 10000, OK), Err(Error::InvalidArgument));
    // the amount at the exchange rate does not fit
    assert_eq!(make(&mut e, &ctx, i128::MAX / 2, 30000, OK), Err(Error::InvalidArgument));
    assert_eq!(make(&mut e, &ctx, 10, 10000, TransferOutcome::Failed), Err(Error::TransferFailed));
    assert_eq!(e.get_remittance_count(), 0);
    assert!(e.get_user_remittances(&party(1)).is_empty());
    // the largest amount whose escrow fits: amount * 1.2 <= i128::MAX
    let largest = i128::MAX / 12 * 10;
    assert!(make(&mut e, &ctx, largest, 10000, OK).is_ok());
}

#[test]
fn create_remittance_with_id_rejects_a_taken_id() {
    let mut e = escrow(100, 50);
    let id = [5u8; 32];
    let make = |e: &mut RemittanceContract, outcome| {
        e.create_remittance_with_id(
            &at(party(1), 50),
            party(1),
            Recipient::Party(party(2)),
            10,
            source(),
            target(),
            10000,
            false,
            code(),
            String::new(),
            outcome,
            id,
        )
    };
    assert_eq!(make(&mut e, OK), Ok(id));
    assert_eq!(
        e.escrow_transfer_with_id(&at(party(1), 50), party(1), 10, source(), 10000, false, &id),
        Err(Error::AlreadyExists)
    );
    assert_eq!(make(&mut e, OK), Err(Error::AlreadyExists));
    assert_eq!(e.get_remittance_count(), 1);
}

#[test]
fn redeem_pays_the_amount_at_the_exchange_rate() {
    let mut e = escrow(100, 50);
    let id = e
        .create_remittance(
            &at(party(1), 50),
            party(1),
            Recipient::Party(party(2)),
            1001,
            source(),
            target(),
            12345,
            true,
            code(),
            String::new(),
            OK,
        )
        .unwrap();
    let ctx = at(party(2), 90);
    // 1001 * 12345 / 10000 = 1235.7345
    assert_eq!(
        e.redemption_transfer(&ctx, &id, &code(), party(2)),
        Ok(Transfer { token: target(), direction: Direction::Payout, party: party(2), amount: 1235 })
    );
    assert_eq!(e.redeem_remittance(&ctx, &id, &code(), party(2), OK), Ok(()));
    let r = e.get_remittance(&id).unwrap();
    assert_eq!(r.status, RemittanceStatus::Completed);
    assert_eq!(r.completed_at, Some(90));
    // both fees stay in custody: 10 and 5
    assert_eq!(e.held_in_custody(&id), Ok(15));
    assert_eq!(e.redeem_remittance(&ctx, &id, &code(), party(2), OK), Err(Error::InvalidState));
    assert_eq!(e.cancel_remittance(&at(party(1), 91), &id, party(1), OK), Err(Error::InvalidState));
    assert_eq!(e.get_remittance(&id).unwrap().status, RemittanceStatus::Completed);
}

#[test]
fn a_remittance_for_a_phone_number_goes_to_whoever_holds_the_code() {
    let mut e = escrow(100, 50);
    let phone = Recipient::Phone(String::from("+15550100"));
    let id = e
        .create_remittance(
            &at(party(1), 50),
            party(1),
            Recipient::Phone(String::from("+15550100")),
            500,
            source(),
            target(),
            10000,
            false,
            code(),
            String::new(),
            OK,
        )
        .unwrap();
    assert_eq!(e.get_recipient_remittances(&phone), vec![id]);
    assert_eq!(e.redeem_remittance(&at(party(7), 60), &id, &code(), party(7), OK), Ok(()));
    assert_eq!(e.get_remittance(&id).unwrap().status, RemittanceStatus::Completed);
}

#[test]
fn redeem_with_a_wrong_code_is_forbidden_and_changes_nothing() {
    let mut e = escrow(100, 50);
    let id = send(&mut e, 1000, true);
    let ctx = at(party(2), 90);
    for byte in 0..32 {
        for bit in [0x01u8, 0x80] {
            let mut wrong = code();
            wrong[byte] ^= bit;
            assert_eq!(e.redemption_transfer(&ctx, &id, &wrong, party(2)), Err(Error::Forbidden));
            assert_eq!(e.redeem_remittance(&ctx, &id, &wrong, party(2), OK), Err(Error::Forbidden));
        }
    }
    let r = e.get_remittance(&id).unwrap();
    assert_eq!(r.status, RemittanceStatus::Pending);
    assert_eq!(r.completed_at, None);
    assert_eq!(e.held_in_custody(&id), Ok(1015));
    // the right code still works
    assert_eq!(e.redeem_remittance(&ctx, &id, &code(), party(2), OK), Ok(()));
}

#[test]
fn redeem_failures() {
    let mut e = escrow(100, 50);
    let id = send(&mut e, 1000, false);
    assert_eq!(
        e.redeem_remittance(&at(party(1), 90), &id, &code(), party(2), OK),
        Err(Error::NotAuthorized)
    );
    assert_eq!(
        e.redeem_remittance(&at(party(2), 90), &[0u8; 32], &code(), party(2), OK),
        Err(Error::NotFound)
    );
    // the right code in the hands of another party
    assert_eq!(
        e.redeem_remittance(&at(party(3), 90), &id, &code(), party(3), OK),
        Err(Error::Forbidden)
    );
    assert_eq!(
        e.redeem_remittance(&at(party(2), 90), &id, &code(), party(2), TransferOutcome::Failed),
        Err(Error::TransferFailed)
    );
    let r = e.get_remittance(&id).unwrap();
    assert_eq!(r.status, RemittanceStatus::Pending);
    assert_eq!(r.completed_at, None);
}

#[test]
fn cancel_failures() {
    let mut e = escrow(100, 50);
    let id = send(&mut e, 1000, false);
    assert_eq!(
        e.cancel_remittance(&at(party(2), 60), &id, party(1), OK),
        Err(Error::NotAuthorized)
    );
    assert_eq!(
        e.cancel_remittance(&at(party(1), 60), &[0u8; 32], party(1), OK),
        Err(Error::NotFound)
    );
    assert_eq!(e.cancel_remittance(&at(party(2), 60), &id, party(2), OK), Err(Error::Forbidden));
    assert_eq!(
        e.cancel_remittance(&at(party(1), 60), &id, party(1), TransferOutcome::Failed),
        Err(Error::TransferFailed)
    );
    assert_eq!(e.get_remittance(&id).unwrap().status, RemittanceStatus::Pending);
    assert_eq!(e.cancel_remittance(&at(party(1), 60), &id, party(1), OK), Ok(()));
    assert_eq!(e.cancel_remittance(&at(party(1), 61), &id, party(1), OK), Err(Error::InvalidState));
    assert_eq!(
        e.redeem_remittance(&at(party(2), 62), &id, &code(), party(2), OK),
        Err(Error::InvalidState)
    );
    assert_eq!(e.get_remittance(&id).unwrap().status, RemittanceStatus::Cancelled);
}

#[test]
fn rate_updates_are_for_the_administrator_and_apply_from_then_on() {
    let mut e = escrow(100, 50);
    let earlier = send(&mut e, 1000, true);
    assert_eq!(e.update_fee_percentage(&at(party(8), 2), party(9), 200), Err(Error::NotAuthorized));
    assert_eq!(e.update_fee_percentage(&at(party(8), 2), party(8), 200), Err(Error::Forbidden));
    assert_eq!(
        e.update_fee_percentage(&at(party(9), 2), party(9), 1001),
        Err(Error::InvalidArgument)
    );
    assert_eq!(
        e.update_insurance_percentage(&at(party(8), 2), party(8), 200),
        Err(Error::Forbidden)
    );
    assert_eq!(
        e.update_insurance_percentage(&at(party(9), 2), party(9), 1001),
        Err(Error::InvalidArgument)
    );
    assert_eq!(e.settings(), Some(Settings { admin: party(9), fee_bps: 100, insurance_bps: 50 }));
    assert_eq!(e.update_fee_percentage(&at(party(9), 2), party(9), 200), Ok(()));
    assert_eq!(e.update_insurance_percentage(&at(party(9), 2), party(9), 1000), Ok(()));
    assert_eq!(e.settings(), Some(Settings { admin: party(9), fee_bps: 200, insurance_bps: 1000 }));
    let later = send(&mut e, 1000, true);
    assert_eq!(e.get_remittance(&earlier).unwrap().fee, 10);
    assert_eq!(e.get_remittance(&earlier).unwrap().insurance_fee, 5);
    assert_eq!(e.get_remittance(&later).unwrap().fee, 20);
    assert_eq!(e.get_remittance(&later).unwrap().insurance_fee, 100);
    let mut fresh = RemittanceContract::new();
    assert_eq!(fresh.update_fee_percentage(&at(party(9), 2), party(9), 1), Err(Error::InvalidState));
}

#[test]
fn lookups_by_sender_and_by_recipient() {
    let mut e = escrow(100, 50);
    let a = send(&mut e, 10, false);
    let b = e
        .create_remittance(
            &at(party(3), 51),
            party(3),
            Recipient::Party(party(2)),
            20,
            source(),
            target(),
            10000,
            false,
            code(),
            String::new(),
            OK,
        )
        .unwrap();
    let c = send(&mut e, 30, true);
    assert_eq!(e.get_user_remittances(&party(1)), vec![a, c]);
    assert_eq!(e.get_user_remittances(&party(3)), vec![b]);
    assert!(e.get_user_remittances(&party(2)).is_empty());
    assert_eq!(e.get_recipient_remittances(&Recipient::Party(party(2))), vec![a, b, c]);
    assert!(e.get_recipient_remittances(&Recipient::Party(party(1))).is_empty());
    assert!(e.get_recipient_remittances(&Recipient::Phone(String::from("2"))).is_empty());
    assert_eq!(e.get_remittance(&[0u8; 32]).err(), Some(Error::NotFound));
    assert_eq!(e.held_in_custody(&[0u8; 32]), Err(Error::NotFound));
    assert_eq!(e.get_remittance_count(), 3);
}
