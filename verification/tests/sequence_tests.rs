use custody_ledger::family_pool::{
    FamilyPool, Member, MemberRole, PoolRecord, UserPools, WithdrawalPeriod, WithdrawalStatus,
};
use custody_ledger::host::{CallContext, TransferOutcome};
use custody_ledger::identity::Address;
use custody_ledger::pool_contract::FamilyPoolContract;
use custody_ledger::pool_lookup::{
    holds_role, id_position, is_browsing, member_position, pool_position, withdrawal_position,
};

struct Dice(u64);

impl Dice {
    fn roll(&mut self, sides: u64) -> u64 {
        self.0 = self.0.wrapping_mul(6364136223846793005).wrapping_add(1442695040888963407);
        (self.0 >> 33) % sides
    }
}

fn person(n: u64) -> Address {
    Address::Account([n as u8; 32])
}

fn copy_pools(l: &FamilyPoolContract) -> Vec<PoolRecord> {
    l.pools()
        .iter()
        .map(|r| PoolRecord {
            pool: FamilyPool {
                id: r.pool.id,
                name: r.pool.name.clone(),
                creator: r.pool.creator,
                token: r.pool.token,
                balance: r.pool.balance,
                withdrawal_limit: r.pool.withdrawal_limit,
                withdrawal_period: r.pool.withdrawal_period,
                created_at: r.pool.created_at,
            },
            members: r.members.clone(),
            contributions: r.contributions.clone(),
            withdrawals: r.withdrawals.clone(),
        })
        .collect()
}

fn copy_index(l: &FamilyPoolContract) -> Vec<UserPools> {
    l.user_pools().iter().map(|u| UserPools { user: u.user, pools: u.pools.clone() }).collect()
}

/// What holds of the ledger at every moment, checked on the stored records.
fn examine(ledger: &FamilyPoolContract) {
    for record in ledger.pools() {
        let id = record.pool.id;
        assert_eq!(ledger.reconcile(&id), Ok(true));
        let paid_in: i128 = record.contributions.iter().map(|c| c.amount).sum();
        let paid_out: i128 = record
            .withdrawals
            .iter()
            .filter(|w| {
                w.status == WithdrawalStatus::Approved || w.status == WithdrawalStatus::Completed
            })
            .map(|w| w.amount)
            .sum();
        assert_eq!(paid_in - paid_out, record.pool.balance);
        assert!(record.pool.balance >= 0);
        assert!(holds_role(&record.members, &record.pool.creator, MemberRole::Admin));
        for n in 0..8 {
            let who = person(n);
            let listed = ledger.get_user_pool_ids(&who).contains(&id);
            assert_eq!(listed, is_browsing(&record.members, &who));
        }
    }
    let again =
        FamilyPoolContract::restore(ledger.admin(), copy_pools(ledger), copy_index(ledger)).unwrap();
    assert_eq!(again.pools(), ledger.pools());
    assert_eq!(again.user_pools(), ledger.user_pools());
}

#[test]
fn a_long_run_of_calls_keeps_the_books() {
    let mut dice = Dice(2024);
    let mut ledger = FamilyPoolContract::new();
    let token = Address::Contract([0x70; 32]);
    let mut pools: Vec<[u8; 32]> = Vec::new();
    let mut seen: Vec<(u8, WithdrawalStatus)> = Vec::new();
    let mut successes = 0;
    for step in 0..600u64 {
        let caller = person(dice.roll(6));
        let ctx = CallContext { invoker: caller, timestamp: 1000 + step / 3 };
        let outcome =
            if dice.roll(5) == 0 { TransferOutcome::Failed } else { TransferOutcome::Settled };
        let pool = if pools.is_empty() { [0u8; 32] } else { pools[dice.roll(pools.len() as u64) as usize] };
        let other = person(dice.roll(8));
        let amount = dice.roll(400) as i128 - 20;
        let ok = match dice.roll(9) {
            0 if pools.len() < 3 => {
                let made = ledger.create_pool(
                    &ctx,
                    caller,
                    String::from("pool"),
                    token,
                    250,
                    WithdrawalPeriod::Weekly,
                );
                if let Ok(id) = made {
                    pools.push(id);
                }
                made.is_ok()
            }
            1 => {
                let role = match dice.roll(3) {
                    0 => MemberRole::Admin,
                    1 => MemberRole::Contributor,
                    _ => MemberRole::Recipient,
                };
                ledger.add_member(&ctx, &pool, caller, other, role).is_ok()
            }
            2 => ledger.remove_member(&ctx, &pool, caller, other).is_ok(),
            3 | 4 => ledger.contribute(&ctx, &pool, caller, amount, outcome).is_ok(),
            5 => ledger.request_withdrawal(&ctx, &pool, caller, caller, amount, outcome).is_ok(),
            6 => ledger.request_withdrawal(&ctx, &pool, caller, other, amount, outcome).is_ok(),
            7 => {
                let log = match ledger.get_pool_withdrawals(&pool) {
                    Ok(log) if !log.is_empty() => log,
                    _ => continue,
                };
                let request = log[dice.roll(log.len() as u64) as usize].id;
                ledger
                    .process_withdrawal(&ctx, &pool, &request, caller, dice.roll(2) == 0, outcome)
                    .is_ok()
            }
            _ => ledger.update_withdrawal_limit(&ctx, &pool, caller, amount).is_ok(),
        };
        if ok {
            successes += 1;
        }
        examine(&ledger);
        // a withdrawal only ever leaves the pending state, and only for approval or rejection
        let mut now: Vec<(u8, WithdrawalStatus)> = Vec::new();
        for (p, record) in ledger.pools().iter().enumerate() {
            for w in record.withdrawals.iter() {
                now.push((p as u8, w.status));
            }
        }
        assert!(now.len() >= seen.len());
        let mut at = 0;
        for (p, record) in ledger.pools().iter().enumerate() {
            let before: Vec<&(u8, WithdrawalStatus)> =
                seen.iter().filter(|(q, _)| *q == p as u8).collect();
            assert!(record.withdrawals.len() >= before.len());
            for (j, (_, was)) in before.iter().enumerate() {
                let is = record.withdrawals[j].status;
                assert!(
                    *was == is
                        || (*was == WithdrawalStatus::Pending
                            && (is == WithdrawalStatus::Approved
                                || is == WithdrawalStatus::Rejected))
                );
                at += 1;
            }
        }
        assert_eq!(at, seen.len());
        seen = now;
    }
    assert!(successes > 50);
    assert!(!pools.is_empty());
}

#[test]
fn lookups_in_stored_records() {
    let members = vec![
        Member { address: person(1), role: MemberRole::Admin, added_at: 0 },
        Member { address: person(2), role: MemberRole::Recipient, added_at: 0 },
        Member { address: person(3), role: MemberRole::Contributor, added_at: 0 },
    ];
    assert_eq!(member_position(&members, &person(1)), Some(0));
    assert_eq!(member_position(&members, &person(3)), Some(2));
    assert_eq!(member_position(&members, &person(4)), None);
    assert!(holds_role(&members, &person(2), MemberRole::Recipient));
    assert!(!holds_role(&members, &person(2), MemberRole::Admin));
    assert!(!holds_role(&members, &person(9), MemberRole::Admin));
    assert!(is_browsing(&members, &person(1)));
    assert!(!is_browsing(&members, &person(2)));
    assert!(is_browsing(&members, &person(3)));
    assert!(!is_browsing(&members, &person(4)));
    let ids = vec![[1u8; 32], [2u8; 32], [1u8; 32]];
    assert_eq!(id_position(&ids, &[1u8; 32]), Some(0));
    assert_eq!(id_position(&ids, &[2u8; 32]), Some(1));
    assert_eq!(id_position(&ids, &[3u8; 32]), None);
    let mut ledger = FamilyPoolContract::new();
    let ctx = CallContext { invoker: person(1), timestamp: 1 };
    let token = Address::Contract([0x70; 32]);
    let a = ledger
        .create_pool(&ctx, person(1), String::from("a"), token, 10, WithdrawalPeriod::Daily)
        .unwrap();
    let b = ledger
        .create_pool(&ctx, person(1), String::from("b"), token, 10, WithdrawalPeriod::Daily)
        .unwrap();
    assert_eq!(pool_position(ledger.pools(), &a), Some(0));
    assert_eq!(pool_position(ledger.pools(), &b), Some(1));
    assert_eq!(pool_position(ledger.pools(), &[0u8; 32]), None);
    ledger.contribute(&ctx, &b, person(1), 9, TransferOutcome::Settled).unwrap();
    let first = ledger
        .request_withdrawal(&ctx, &b, person(1), person(1), 1, TransferOutcome::Settled)
        .unwrap();
    let second = ledger
        .request_withdrawal(&ctx, &b, person(1), person(1), 1, TransferOutcome::Settled)
        .unwrap();
    let log = ledger.get_pool_withdrawals(&b).unwrap();
    assert_eq!(withdrawal_position(log, &first), Some(0));
    assert_eq!(withdrawal_position(log, &second), Some(1));
    assert_eq!(withdrawal_position(log, &[0u8; 32]), None);
}
