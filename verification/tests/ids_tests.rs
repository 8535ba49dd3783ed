use custody_ledger::digest::digest_of;
use custody_ledger::error::Error;
use custody_ledger::family_pool::{MemberRole, WithdrawalPeriod};
use custody_ledger::host::{CallContext, TransferOutcome};
use custody_ledger::identity::Address;
use custody_ledger::ids::{
    derive_contribution_id, derive_pool_id, derive_remittance_id, derive_withdrawal_id,
};
use custody_ledger::pool_contract::FamilyPoolContract;

fn le128(x: u128) -> [u8; 16] {
    x.to_le_bytes()
}

#[test]
fn contribution_id_layout() {
    let who = Address::Contract([3; 32]);
    let pool = [4u8; 32];
    let mut bytes: Vec<u8> = vec![1u8];
    bytes.extend_from_slice(&[3u8; 32]);
    bytes.extend_from_slice(&pool);
    bytes.extend_from_slice(&le128(0x0102_0304));
    bytes.extend_from_slice(&9u64.to_le_bytes());
    bytes.extend_from_slice(&2u64.to_le_bytes());
    assert_eq!(bytes.len(), 33 + 32 + 16 + 8 + 8);
    assert_eq!(Some(derive_contribution_id(&who, &pool, 0x0102_0304, 9, 2)), digest_of(&bytes));
    assert_ne!(
        derive_contribution_id(&who, &pool, 0x0102_0304, 9, 2),
        derive_contribution_id(&who, &pool, 0x0102_0304, 9, 3)
    );
}

#[test]
fn withdrawal_id_layout() {
    let from = Address::Account([5; 32]);
    let to = Address::Account([6; 32]);
    let pool = [7u8; 32];
    let mut bytes: Vec<u8> = vec![0u8];
    bytes.extend_from_slice(&[5u8; 32]);
    bytes.push(0u8);
    bytes.extend_from_slice(&[6u8; 32]);
    bytes.extend_from_slice(&pool);
    bytes.extend_from_slice(&le128(i128::MAX as u128));
    bytes.extend_from_slice(&u64::MAX.to_le_bytes());
    bytes.extend_from_slice(&0u64.to_le_bytes());
    assert_eq!(
        Some(derive_withdrawal_id(&from, &to, &pool, i128::MAX, u64::MAX, 0)),
        digest_of(&bytes)
    );
}

#[test]
fn remittance_id_layout() {
    let from = Address::Account([8; 32]);
    let mut bytes: Vec<u8> = vec![0u8];
    bytes.extend_from_slice(&[8u8; 32]);
    bytes.extend_from_slice(&77u64.to_le_bytes());
    bytes.extend_from_slice(&3u64.to_le_bytes());
    assert_eq!(Some(derive_remittance_id(&from, 77, 3)), digest_of(&bytes));
}

#[test]
fn pool_id_layout_counts_the_bytes_of_the_name() {
    let who = Address::Account([1; 32]);
    let name = String::from("caf\u{e9}");
    let mut bytes: Vec<u8> = vec![0u8];
    bytes.extend_from_slice(&[1u8; 32]);
    bytes.extend_from_slice(&5u64.to_le_bytes());
    bytes.extend_from_slice(name.as_bytes());
    bytes.extend_from_slice(&1u64.to_le_bytes());
    bytes.extend_from_slice(&0u64.to_le_bytes());
    assert_eq!(derive_pool_id(&who, &name, 1, 0), digest_of(&bytes));
    assert_eq!(derive_pool_id(&who, &"x".repeat(65480), 1, 0), None);
}

#[test]
fn ids_in_the_ledger_are_the_derived_ones() {
    let admin = Address::Account([1; 32]);
    let token = Address::Contract([2; 32]);
    let ctx = CallContext { invoker: admin, timestamp: 40 };
    let mut ledger = FamilyPoolContract::new();
    let pool = ledger
        .create_pool(&ctx, admin, String::from("p"), token, 100, WithdrawalPeriod::Monthly)
        .unwrap();
    assert_eq!(Some(pool), derive_pool_id(&admin, &String::from("p"), 40, 0));
    let member = Address::Account([3; 32]);
    ledger.add_member(&ctx, &pool, admin, member, MemberRole::Contributor).unwrap();
    let first = ledger.contribute(&ctx, &pool, admin, 60, TransferOutcome::Settled).unwrap();
    assert_eq!(first, derive_contribution_id(&admin, &pool, 60, 40, 0));
    let second = ledger.contribute(&ctx, &pool, admin, 60, TransferOutcome::Settled).unwrap();
    assert_eq!(second, derive_contribution_id(&admin, &pool, 60, 40, 1));
    let later = CallContext { invoker: member, timestamp: 41 };
    let asked = ledger
        .request_withdrawal(&later, &pool, member, member, 10, TransferOutcome::Settled)
        .unwrap();
    assert_eq!(asked, derive_withdrawal_id(&member, &member, &pool, 10, 41, 0));
    let explicit = ledger
        .request_withdrawal_with_id(
            &later,
            &pool,
            member,
            member,
            10,
            TransferOutcome::Settled,
            [0xab; 32],
        )
        .unwrap();
    assert_eq!(explicit, [0xab; 32]);
    // an identifier that a withdrawal of the pool has is refused, before any transfer
    assert_eq!(
        ledger.withdrawal_transfer_with_id(&later, &pool, member, member, 10, &[0xab; 32]),
        Err(Error::AlreadyExists)
    );
    assert_eq!(
        ledger.withdrawal_transfer_with_id(&later, &pool, member, member, 10, &asked),
        Err(Error::AlreadyExists)
    );
    assert_eq!(
        ledger.withdrawal_transfer_with_id(&later, &pool, member, member, 10, &[0xac; 32]),
        Ok(None)
    );
    assert_eq!(
        ledger.request_withdrawal_with_id(
            &later,
            &pool,
            member,
            member,
            10,
            TransferOutcome::Settled,
            [0xab; 32],
        ),
        Err(Error::AlreadyExists)
    );
    assert_eq!(
        ledger.request_withdrawal_with_id(
            &ctx,
            &pool,
            admin,
            admin,
            5,
            TransferOutcome::Settled,
            asked,
        ),
        Err(Error::AlreadyExists)
    );
    assert_eq!(ledger.get_pool_withdrawals(&pool).unwrap().len(), 2);
    assert_eq!(ledger.get_pool(&pool).unwrap().balance, 120);
    // the other checks come first
    assert_eq!(
        ledger.withdrawal_transfer_with_id(&later, &pool, member, member, 101, &[0xab; 32]),
        Err(Error::LimitExceeded)
    );
    assert_eq!(
        ledger.withdrawal_transfer_with_id(&later, &pool, member, admin, 10, &[0xab; 32]),
        Err(Error::Forbidden)
    );
    // both can still be decided, each by its own identifier
    assert_eq!(
        ledger.process_withdrawal(&ctx, &pool, &[0xab; 32], admin, false, TransferOutcome::Settled),
        Ok(())
    );
    assert_eq!(
        ledger.process_withdrawal(&ctx, &pool, &asked, admin, true, TransferOutcome::Settled),
        Ok(())
    );
    assert_eq!(ledger.get_pool(&pool).unwrap().balance, 110);
    let receipt = ledger
        .contribute_with_id(&ctx, &pool, admin, 1, TransferOutcome::Settled, [0xcd; 32])
        .unwrap();
    assert_eq!(receipt, [0xcd; 32]);
    assert_eq!(ledger.get_pool_contributions(&pool).unwrap()[2].id, [0xcd; 32]);
    assert_eq!(ledger.get_pool_withdrawals(&pool).unwrap()[1].id, [0xab; 32]);
}
