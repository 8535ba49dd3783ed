use custody_ledger::error::Error;
use custody_ledger::family_pool::{
    Contribution, FamilyPool, Member, MemberRole, PoolRecord, UserPools, Withdrawal,
    WithdrawalPeriod, WithdrawalStatus,
};
use custody_ledger::host::{CallContext, TransferOutcome};
use custody_ledger::identity::{addresses_distinct, hashes_distinct, Address};
use custody_ledger::pool_audit::audit;
use custody_ledger::pool_contract::FamilyPoolContract;
use custody_ledger::remittance::{Recipient, Remittance, RemittanceStatus, Settings};
use custody_ledger::remittance_contract::RemittanceContract;

const APPROVED: WithdrawalStatus = WithdrawalStatus::Approved;
const COMPLETED: WithdrawalStatus = WithdrawalStatus::Completed;
const PENDING: WithdrawalStatus = WithdrawalStatus::Pending;
const REJECTED: WithdrawalStatus = WithdrawalStatus::Rejected;

fn acct(n: u8) -> Address {
    Address::Account([n; 32])
}

fn coin() -> Address {
    Address::Contract([0xc0; 32])
}

fn deposit(amount: i128) -> Contribution {
    Contribution { id: [0; 32], contributor: acct(1), amount, token: coin(), created_at: 1 }
}

fn request(amount: i128, status: WithdrawalStatus) -> Withdrawal {
    Withdrawal {
        id: [0; 32],
        requester: acct(1),
        recipient: acct(1),
        amount,
        token: coin(),
        status,
        created_at: 1,
        completed_at: 0,
    }
}

fn record(
    id: u8,
    balance: i128,
    paid_in: Vec<Contribution>,
    mut paid_out: Vec<Withdrawal>,
) -> PoolRecord {
    for (n, w) in paid_out.iter_mut().enumerate() {
        w.id = [n as u8; 32];
    }
    PoolRecord {
        pool: FamilyPool {
            id: [id; 32],
            name: String::from("p"),
            creator: acct(1),
            token: coin(),
            balance,
            withdrawal_limit: 10,
            withdrawal_period: WithdrawalPeriod::Daily,
            created_at: 1,
        },
        members: vec![Member { address: acct(1), role: MemberRole::Admin, added_at: 1 }],
        contributions: paid_in,
        withdrawals: paid_out,
    }
}

#[test]
fn audit_accepts_a_balance_that_reconciles() {
    assert!(audit(&record(1, 0, vec![], vec![])));
    assert!(audit(&record(1, 60, vec![deposit(100)], vec![request(40, APPROVED)])));
    assert!(audit(&record(
        1,
        50,
        vec![deposit(100), deposit(5)],
        vec![request(40, APPROVED), request(7, PENDING), request(9, REJECTED), request(15, COMPLETED)]
    )));
    assert!(!audit(&record(1, 61, vec![deposit(100)], vec![request(40, APPROVED)])));
    assert!(!audit(&record(1, 59, vec![deposit(100)], vec![request(40, APPROVED)])));
    assert!(!audit(&record(1, 60, vec![deposit(100)], vec![request(40, PENDING)])));
    assert!(!audit(&record(1, 1, vec![], vec![])));
    // more was released than was contributed
    assert!(!audit(&record(1, 0, vec![deposit(10)], vec![request(40, APPROVED)])));
}

#[test]
fn audit_reconciles_sums_beyond_128_bits() {
    let big = i128::MAX;
    assert!(audit(&record(
        1,
        big,
        vec![deposit(big), deposit(big), deposit(big)],
        vec![request(big, APPROVED), request(big, APPROVED)]
    )));
    assert!(audit(&record(
        1,
        3,
        vec![deposit(big), deposit(big), deposit(3)],
        vec![request(big, APPROVED), request(big, APPROVED)]
    )));
    assert!(!audit(&record(1, big, vec![deposit(big), deposit(big)], vec![])));
    assert!(!audit(&record(
        1,
        big,
        vec![deposit(big), deposit(big), deposit(big)],
        vec![request(big, APPROVED), request(big - 1, APPROVED)]
    )));
}

#[test]
fn audit_rejects_ill_formed_records() {
    let mut r = record(1, 0, vec![], vec![]);
    r.pool.withdrawal_limit = 0;
    assert!(!audit(&r));
    let r = record(1, -1, vec![], vec![request(1, WithdrawalStatus::Approved)]);
    assert!(!audit(&r));
    let mut r = record(1, 0, vec![], vec![]);
    r.members[0].role = MemberRole::Contributor;
    assert!(!audit(&r));
    let mut r = record(1, 0, vec![], vec![]);
    r.members.push(Member { address: acct(1), role: MemberRole::Recipient, added_at: 2 });
    assert!(!audit(&r));
    assert!(!audit(&record(1, 0, vec![deposit(0)], vec![])));
    assert!(!audit(&record(1, 0, vec![], vec![request(0, WithdrawalStatus::Pending)])));
    assert!(!audit(&record(1, 0, vec![deposit(5), deposit(-5)], vec![])));
    // two withdrawals under one identifier
    let mut r = record(1, 0, vec![], vec![request(1, PENDING), request(2, REJECTED)]);
    assert!(audit(&r));
    r.withdrawals[1].id = r.withdrawals[0].id;
    assert!(!audit(&r));
}

#[test]
fn a_ledger_is_restored_from_what_it_exports() {
    let mut ledger = FamilyPoolContract::new();
    let ctx = CallContext { invoker: acct(1), timestamp: 5 };
    ledger.initialize(&ctx, acct(1)).unwrap();
    let id = ledger
        .create_pool(&ctx, acct(1), String::from("p"), coin(), 100, WithdrawalPeriod::Daily)
        .unwrap();
    ledger.add_member(&ctx, &id, acct(1), acct(2), MemberRole::Contributor).unwrap();
    ledger.contribute(&ctx, &id, acct(1), 70, TransferOutcome::Settled).unwrap();
    ledger.request_withdrawal(&ctx, &id, acct(1), acct(1), 30, TransferOutcome::Settled).unwrap();
    assert_eq!(ledger.reconcile(&id), Ok(true));
    assert_eq!(ledger.reconcile(&[0u8; 32]), Err(Error::NotFound));

    let copy_pools = |l: &FamilyPoolContract| -> Vec<PoolRecord> {
        l.pools()
            .iter()
            .map(|r| PoolRecord {
                pool: FamilyPool {
                    id: r.pool.id,
                    name: r.pool.name.clone(),
                    creator: r.pool.creator,
                    token: r.pool.token,
                    balance: r.pool.balance,
                    withdrawal_limit: r.pool.withdrawal_limit,
                    withdrawal_period: r.pool.withdrawal_period,
                    created_at: r.pool.created_at,
                },
                members: r.members.clone(),
                contributions: r.contributions.clone(),
                withdrawals: r.withdrawals.clone(),
            })
            .collect()
    };
    let copy_index = |l: &FamilyPoolContract| -> Vec<UserPools> {
        l.user_pools().iter().map(|u| UserPools { user: u.user, pools: u.pools.clone() }).collect()
    };
    let again =
        FamilyPoolContract::restore(ledger.admin(), copy_pools(&ledger), copy_index(&ledger)).unwrap();
    assert_eq!(again.pools(), ledger.pools());
    assert_eq!(again.user_pools(), ledger.user_pools());
    assert_eq!(again.admin(), Some(acct(1)));
    assert_eq!(again.get_pool(&id).unwrap().balance, 40);

    // a balance that does not reconcile
    let mut pools = copy_pools(&ledger);
    pools[0].pool.balance = 41;
    assert!(FamilyPoolContract::restore(None, pools, copy_index(&ledger)).is_none());
    // two pools with one identifier
    let mut pools = copy_pools(&ledger);
    pools.extend(copy_pools(&ledger));
    assert!(FamilyPoolContract::restore(None, pools, Vec::new()).is_none());
    // a listing of a pool that does not exist
    let index = vec![UserPools { user: acct(1), pools: vec![[0u8; 32]] }];
    assert!(FamilyPoolContract::restore(None, copy_pools(&ledger), index).is_none());
    // a pool listed twice under one party
    let index = vec![UserPools { user: acct(1), pools: vec![id, id] }];
    assert!(FamilyPoolContract::restore(None, copy_pools(&ledger), index).is_none());
    // a party indexed twice
    let index = vec![
        UserPools { user: acct(1), pools: vec![id] },
        UserPools { user: acct(1), pools: vec![] },
    ];
    assert!(FamilyPoolContract::restore(None, copy_pools(&ledger), index).is_none());
    // a member that is no recipient and is not listed
    assert!(FamilyPoolContract::restore(None, copy_pools(&ledger), Vec::new()).is_none());
    let index = vec![UserPools { user: acct(1), pools: vec![id] }];
    assert!(FamilyPoolContract::restore(None, copy_pools(&ledger), index).is_none());
    // a listing under a party that is no member
    let index = vec![
        UserPools { user: acct(1), pools: vec![id] },
        UserPools { user: acct(2), pools: vec![id] },
        UserPools { user: acct(3), pools: vec![id] },
    ];
    assert!(FamilyPoolContract::restore(None, copy_pools(&ledger), index).is_none());
    // a listing under a recipient
    let mut pools = copy_pools(&ledger);
    pools[0].members[1].role = MemberRole::Recipient;
    assert!(FamilyPoolContract::restore(None, pools, copy_index(&ledger)).is_none());
    // parties with empty lists are in order
    let index = vec![
        UserPools { user: acct(2), pools: vec![id] },
        UserPools { user: acct(7), pools: vec![] },
        UserPools { user: acct(1), pools: vec![id] },
    ];
    assert!(FamilyPoolContract::restore(None, copy_pools(&ledger), index).is_some());
    assert!(FamilyPoolContract::restore(None, Vec::new(), Vec::new()).is_some());
}

fn stored(id: u8, amount: i128, fee: i128, insurance: bool, insurance_fee: i128, rate: u64) -> Remittance {
    Remittance {
        id: [id; 32],
        sender: acct(1),
        recipient: Recipient::Party(acct(2)),
        amount,
        source_token: coin(),
        target_token: coin(),
        exchange_rate: rate,
        fee,
        insurance,
        insurance_fee,
        redemption_code: [7; 32],
        status: RemittanceStatus::Pending,
        created_at: 1,
        completed_at: None,
        notes: String::new(),
    }
}

#[test]
fn an_escrow_is_restored_from_well_formed_parts_only() {
    let settings = Some(Settings { admin: acct(9), fee_bps: 100, insurance_bps: 50 });
    let e = RemittanceContract::restore(
        settings,
        vec![stored(1, 1000, 10, true, 5, 10000), stored(2, 1, 0, false, 0, 0)],
    )
    .unwrap();
    assert_eq!(e.settings(), settings);
    assert_eq!(e.get_remittance_count(), 2);
    assert_eq!(e.remittances()[0].fee, 10);
    assert_eq!(e.held_in_custody(&[1u8; 32]), Ok(1015));
    let bad_settings = Some(Settings { admin: acct(9), fee_bps: 1001, insurance_bps: 50 });
    assert!(RemittanceContract::restore(bad_settings, Vec::new()).is_none());
    let bad_settings = Some(Settings { admin: acct(9), fee_bps: 0, insurance_bps: 1001 });
    assert!(RemittanceContract::restore(bad_settings, Vec::new()).is_none());
    let reject = |r: Remittance| {
        assert!(RemittanceContract::restore(None, vec![r]).is_none());
    };
    reject(stored(1, 0, 0, false, 0, 1));
    reject(stored(1, 10, -1, false, 0, 1));
    reject(stored(1, 10, 0, true, -1, 1));
    reject(stored(1, 10, 0, false, 1, 1));
    reject(stored(1, i128::MAX, 1, false, 0, 1));
    reject(stored(1, i128::MAX - 1, 1, true, 1, 1));
    reject(stored(1, i128::MAX, 0, false, 0, 10001));
    assert!(RemittanceContract::restore(
        None,
        vec![stored(1, 5, 0, false, 0, 1), stored(1, 6, 0, false, 0, 1)]
    )
    .is_none());
    assert!(RemittanceContract::restore(None, Vec::new()).is_some());
}

#[test]
fn distinctness_checks() {
    assert!(hashes_distinct(&vec![]));
    assert!(hashes_distinct(&vec![[1u8; 32], [2u8; 32], [3u8; 32]]));
    assert!(!hashes_distinct(&vec![[1u8; 32], [2u8; 32], [1u8; 32]]));
    assert!(addresses_distinct(&vec![acct(1), Address::Contract([1; 32]), acct(2)]));
    assert!(!addresses_distinct(&vec![acct(1), acct(2), acct(2)]));
}
