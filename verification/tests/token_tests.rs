use custody_ledger::error::Error;
use custody_ledger::host::CallContext;
use custody_ledger::identity::Address;
use custody_ledger::token_wrapper::{Keepers, TokenInfo, TokenWrapperContract};

fn who(n: u8) -> Address {
    Address::Account([n; 32])
}

fn asset(n: u8) -> Address {
    Address::Contract([n; 32])
}

fn by(invoker: Address, timestamp: u64) -> CallContext {
    CallContext { invoker, timestamp }
}

fn s(text: &str) -> String {
    String::from(text)
}

/// A registry set up by party 1, with party 2 as the oracle.
fn registry() -> TokenWrapperContract {
    let mut r = TokenWrapperContract::new();
    r.initialize(&by(who(1), 1), who(1), who(2)).unwrap();
    r
}

fn register(
    r: &mut TokenWrapperContract,
    code: &str,
    symbol: &str,
    country: &str,
    address: u8,
    stable: bool,
    rate: i128,
) -> Result<(), Error> {
    r.register_token(
        &by(who(1), 10),
        who(1),
        s(code),
        s("name"),
        s(symbol),
        7,
        who(5),
        asset(address),
        stable,
        s(country),
        rate,
    )
}

#[test]
fn registry_initialize_succeeds_once() {
    let mut r = TokenWrapperContract::new();
    assert_eq!(r.keepers(), None);
    assert_eq!(r.initialize(&by(who(3), 1), who(1), who(2)), Err(Error::NotAuthorized));
    assert_eq!(r.initialize(&by(who(1), 1), who(1), who(2)), Ok(()));
    assert_eq!(r.keepers(), Some(Keepers { admin: who(1), oracle: who(2) }));
    assert_eq!(r.initialize(&by(who(3), 1), who(3), who(3)), Err(Error::AlreadyInitialized));
    assert_eq!(r.keepers(), Some(Keepers { admin: who(1), oracle: who(2) }));
}

#[test]
fn register_token_records_the_token() {
    let mut r = registry();
    assert_eq!(register(&mut r, "USDC", "$", "US", 1, true, 10000), Ok(()));
    let t = r.get_token_by_code(&s("USDC")).unwrap();
    assert_eq!(
        *t,
        TokenInfo {
            code: s("USDC"),
            name: s("name"),
            symbol: s("$"),
            decimal: 7,
            issuer: who(5),
            token_address: asset(1),
            is_stablecoin: true,
            country_code: s("US"),
            exchange_rate: 10000,
            created_at: 10,
        }
    );
    assert_eq!(r.get_token_info(&s("USDC")).unwrap().code, "USDC");
    assert_eq!(r.get_token_list(), vec![s("USDC")]);
}

#[test]
fn register_token_failures() {
    let mut fresh = TokenWrapperContract::new();
    assert_eq!(register(&mut fresh, "A", "a", "AA", 1, false, 1), Err(Error::InvalidState));
    let mut r = registry();
    assert_eq!(register(&mut r, "A", "a", "AA", 1, false, 1), Ok(()));
    assert_eq!(register(&mut r, "A", "b", "BB", 2, false, 1), Err(Error::AlreadyExists));
    let not_admin = r.register_token(
        &by(who(2), 10),
        who(2),
        s("B"),
        s("n"),
        s("b"),
        7,
        who(5),
        asset(2),
        false,
        s("BB"),
        1,
    );
    assert_eq!(not_admin, Err(Error::Forbidden));
    let not_verified = r.register_token(
        &by(who(2), 10),
        who(1),
        s("B"),
        s("n"),
        s("b"),
        7,
        who(5),
        asset(2),
        false,
        s("BB"),
        1,
    );
    assert_eq!(not_verified, Err(Error::NotAuthorized));
    assert_eq!(r.get_all_tokens().len(), 1);
}

#[test]
fn register_token_takes_any_rate() {
    let mut r = registry();
    assert_eq!(register(&mut r, "ZERO", "z", "ZZ", 1, false, 0), Ok(()));
    assert_eq!(register(&mut r, "NEG", "n", "NN", 2, true, -5), Ok(()));
    assert_eq!(register(&mut r, "MIN", "m", "MM", 3, false, i128::MIN), Ok(()));
    assert_eq!(register(&mut r, "MAX", "x", "XX", 4, false, i128::MAX), Ok(()));
    assert_eq!(r.get_token_by_code(&s("ZERO")).unwrap().exchange_rate, 0);
    assert_eq!(r.get_token_by_code(&s("NEG")).unwrap().exchange_rate, -5);
    assert_eq!(r.get_token_by_code(&s("MIN")).unwrap().exchange_rate, i128::MIN);
    assert_eq!(r.get_token_by_code(&s("MAX")).unwrap().exchange_rate, i128::MAX);
    assert_eq!(r.get_token_list(), vec![s("ZERO"), s("NEG"), s("MIN"), s("MAX")]);
    let t = r.get_token_by_code(&s("NEG")).unwrap();
    assert_eq!(t.name, "name");
    assert_eq!(t.symbol, "n");
    assert_eq!(t.decimal, 7);
    assert_eq!(t.issuer, who(5));
    assert_eq!(t.token_address, asset(2));
    assert!(t.is_stablecoin);
    assert_eq!(t.country_code, "NN");
    assert_eq!(t.created_at, 10);
    // a taken code is refused and what is stored stays
    assert_eq!(register(&mut r, "ZERO", "q", "QQ", 9, true, 7), Err(Error::AlreadyExists));
    assert_eq!(r.get_token_by_code(&s("ZERO")).unwrap().exchange_rate, 0);
    assert_eq!(r.get_token_list().len(), 4);
}

#[test]
fn lookups_by_symbol_country_and_address_give_the_latest() {
    let mut r = registry();
    register(&mut r, "KES1", "KSh", "KE", 1, false, 77).unwrap();
    register(&mut r, "USDC", "$", "US", 2, true, 10000).unwrap();
    register(&mut r, "KES2", "KSh", "KE", 1, true, 78).unwrap();
    assert_eq!(r.get_token_by_symbol(&s("KSh")).unwrap().code, "KES2");
    assert_eq!(r.get_token_by_country(&s("KE")).unwrap().code, "KES2");
    assert_eq!(r.get_token_by_address(&asset(1)), Ok(s("KES2")));
    assert_eq!(r.get_token_by_symbol(&s("$")).unwrap().code, "USDC");
    assert_eq!(r.get_token_by_country(&s("US")).unwrap().code, "USDC");
    assert_eq!(r.get_token_by_address(&asset(2)), Ok(s("USDC")));
    assert_eq!(r.get_token_by_symbol(&s("?")).err(), Some(Error::NotFound));
    assert_eq!(r.get_token_by_country(&s("??")).err(), Some(Error::NotFound));
    assert_eq!(r.get_token_by_address(&asset(9)), Err(Error::NotFound));
    assert_eq!(r.get_token_by_code(&s("nope")).err(), Some(Error::NotFound));
    assert_eq!(r.get_token_list(), vec![s("KES1"), s("USDC"), s("KES2")]);
    let all = r.get_all_tokens();
    assert_eq!(all.len(), 3);
    assert_eq!(all[0].code, "KES1");
    assert_eq!(all[2].exchange_rate, 78);
    let stable = r.get_stablecoins();
    assert_eq!(stable.len(), 2);
    assert_eq!(stable[0].code, "USDC");
    assert_eq!(stable[1].code, "KES2");
}

#[test]
fn the_oracle_sets_rates() {
    let mut r = registry();
    register(&mut r, "KES", "KSh", "KE", 1, false, 77).unwrap();
    let oracle = by(who(2), 20);
    assert_eq!(r.update_exchange_rate(&oracle, who(2), &s("KES"), 80), Ok(()));
    assert_eq!(r.get_token_by_code(&s("KES")).unwrap().exchange_rate, 80);
    assert_eq!(r.update_token_exchange_rate(&oracle, who(2), &s("KES"), 81), Ok(()));
    assert_eq!(r.get_token_by_code(&s("KES")).unwrap().exchange_rate, 81);
    assert_eq!(r.update_exchange_rate(&oracle, who(1), &s("KES"), 5), Err(Error::NotAuthorized));
    assert_eq!(
        r.update_exchange_rate(&by(who(1), 20), who(1), &s("KES"), 5),
        Err(Error::Forbidden)
    );
    assert_eq!(r.update_exchange_rate(&oracle, who(2), &s("NONE"), 5), Err(Error::NotFound));
    assert_eq!(r.get_token_by_code(&s("KES")).unwrap().exchange_rate, 81);
    // any rate is stored
    assert_eq!(r.update_exchange_rate(&oracle, who(2), &s("KES"), 0), Ok(()));
    assert_eq!(r.get_token_by_code(&s("KES")).unwrap().exchange_rate, 0);
    assert_eq!(r.update_exchange_rate(&oracle, who(2), &s("KES"), -3), Ok(()));
    assert_eq!(r.get_token_by_code(&s("KES")).unwrap().exchange_rate, -3);
    let mut fresh = TokenWrapperContract::new();
    assert_eq!(
        fresh.update_exchange_rate(&oracle, who(2), &s("KES"), 5),
        Err(Error::InvalidState)
    );
}

#[test]
fn the_administrator_names_oracle_and_successor() {
    let mut r = registry();
    assert_eq!(r.update_oracle(&by(who(2), 5), who(2), who(3)), Err(Error::Forbidden));
    assert_eq!(r.update_oracle(&by(who(2), 5), who(1), who(3)), Err(Error::NotAuthorized));
    assert_eq!(r.update_oracle(&by(who(1), 5), who(1), who(3)), Ok(()));
    assert_eq!(r.keepers(), Some(Keepers { admin: who(1), oracle: who(3) }));
    assert_eq!(r.transfer_admin(&by(who(3), 5), who(3), who(4)), Err(Error::Forbidden));
    assert_eq!(r.transfer_admin(&by(who(1), 5), who(1), who(4)), Ok(()));
    assert_eq!(r.keepers(), Some(Keepers { admin: who(4), oracle: who(3) }));
    assert_eq!(r.transfer_admin(&by(who(1), 5), who(1), who(1)), Err(Error::Forbidden));
    let mut fresh = TokenWrapperContract::new();
    assert_eq!(fresh.update_oracle(&by(who(1), 5), who(1), who(3)), Err(Error::InvalidState));
    assert_eq!(fresh.transfer_admin(&by(who(1), 5), who(1), who(3)), Err(Error::InvalidState));
}

#[test]
fn amounts_convert_by_way_of_the_common_unit() {
    let mut r = registry();
    register(&mut r, "USDC", "$", "US", 1, true, 10000).unwrap();
    register(&mut r, "KES", "KSh", "KE", 2, false, 77).unwrap();
    register(&mut r, "EUR", "E", "EU", 3, false, 10800).unwrap();
    // 1000 * 10000 / 77 = 129870.1..; 129870 * 10000 / 10000
    assert_eq!(r.calculate_exchange_rate(&s("KES"), &s("USDC"), 1000), Ok(129870));
    // 1000 * 10000 / 10000 = 1000; 1000 * 77 / 10000 = 7.7
    assert_eq!(r.calculate_exchange_rate(&s("USDC"), &s("KES"), 1000), Ok(7));
    // 999 * 10000 / 10800 = 925; 925 * 77 / 10000 = 7.1225
    assert_eq!(r.calculate_exchange_rate(&s("EUR"), &s("KES"), 999), Ok(7));
    assert_eq!(r.calculate_exchange_rate(&s("EUR"), &s("EUR"), 0), Ok(0));
    // negative amounts convert, rounded toward zero:
    // -999 * 10000 / 10800 = -925; -925 * 77 / 10000 = -7.1225
    assert_eq!(r.calculate_exchange_rate(&s("EUR"), &s("KES"), -999), Ok(-7));
    assert_eq!(r.calculate_exchange_rate(&s("EUR"), &s("KES"), -1), Ok(0));
    // -1000 * 10000 / 77 = -129870.1..
    assert_eq!(r.calculate_exchange_rate(&s("KES"), &s("USDC"), -1000), Ok(-129870));
    assert_eq!(
        r.calculate_exchange_rate(&s("EUR"), &s("KES"), i128::MIN / 10000 - 1),
        Err(Error::InvalidArgument)
    );
    assert_eq!(
        r.calculate_exchange_rate(&s("EUR"), &s("KES"), i128::MAX / 10000 + 1),
        Err(Error::InvalidArgument)
    );
    assert_eq!(
        r.calculate_exchange_rate(&s("KES"), &s("EUR"), i128::MAX / 10000),
        Err(Error::InvalidArgument)
    );
    assert_eq!(r.calculate_exchange_rate(&s("NONE"), &s("KES"), 1), Err(Error::NotFound));
    assert_eq!(r.calculate_exchange_rate(&s("KES"), &s("NONE"), 1), Err(Error::NotFound));
}

#[test]
fn conversions_with_rates_of_any_sign() {
    let mut r = registry();
    register(&mut r, "ZERO", "z", "ZZ", 1, false, 0).unwrap();
    register(&mut r, "NEG", "n", "NN", 2, false, -3).unwrap();
    register(&mut r, "POS", "p", "PP", 3, false, 7).unwrap();
    // a rate of zero cannot be divided by
    assert_eq!(r.calculate_exchange_rate(&s("ZERO"), &s("POS"), 5), Err(Error::InvalidState));
    assert_eq!(r.calculate_exchange_rate(&s("ZERO"), &s("ZERO"), 0), Err(Error::InvalidState));
    assert_eq!(r.get_exchange_rate(&s("POS"), &s("ZERO")), Err(Error::InvalidState));
    // but it can be multiplied by
    assert_eq!(r.calculate_exchange_rate(&s("POS"), &s("ZERO"), 5), Ok(0));
    assert_eq!(r.get_exchange_rate(&s("ZERO"), &s("POS")), Ok(0));
    // 10 * 10000 / -3 = -33333; -33333 * 7 / 10000 = -23.3331
    assert_eq!(r.calculate_exchange_rate(&s("NEG"), &s("POS"), 10), Ok(-23));
    // -10 * 10000 / -3 = 33333; 33333 * -3 / 10000 = -9.9999
    assert_eq!(r.calculate_exchange_rate(&s("NEG"), &s("NEG"), -10), Ok(-9));
    // 7 * 1000000 / -3 = -2333333.3
    assert_eq!(r.get_exchange_rate(&s("POS"), &s("NEG")), Ok(-2_333_333));
    assert_eq!(r.get_exchange_rate(&s("NEG"), &s("POS")), Ok(-428_571));
    assert_eq!(r.get_exchange_rate(&s("NEG"), &s("NEG")), Ok(1_000_000));
}

#[test]
fn rates_between_tokens_are_in_millionths() {
    let mut r = registry();
    register(&mut r, "A", "a", "AA", 1, false, 3).unwrap();
    register(&mut r, "B", "b", "BB", 2, false, 7).unwrap();
    register(&mut r, "BIG", "c", "CC", 3, false, i128::MAX / 1_000_000 + 1).unwrap();
    assert_eq!(r.get_exchange_rate(&s("A"), &s("B")), Ok(428_571));
    assert_eq!(r.get_exchange_rate(&s("B"), &s("A")), Ok(2_333_333));
    assert_eq!(r.get_exchange_rate(&s("A"), &s("A")), Ok(1_000_000));
    assert_eq!(r.get_exchange_rate(&s("BIG"), &s("A")), Err(Error::InvalidArgument));
    assert_eq!(r.get_exchange_rate(&s("A"), &s("C")), Err(Error::NotFound));
    assert_eq!(r.get_exchange_rate(&s("C"), &s("A")), Err(Error::NotFound));
}

#[test]
fn a_registry_is_restored_from_well_formed_parts_only() {
    let mut r = registry();
    register(&mut r, "A", "a", "AA", 1, false, 3).unwrap();
    register(&mut r, "B", "b", "BB", 2, true, 7).unwrap();
    let parts = r.get_all_tokens();
    let again = TokenWrapperContract::restore(r.keepers(), parts).unwrap();
    assert_eq!(again.tokens(), r.tokens());
    assert_eq!(again.keepers(), r.keepers());
    let mut twice = r.get_all_tokens();
    twice.extend(r.get_all_tokens());
    assert!(TokenWrapperContract::restore(None, twice).is_none());
    let mut odd = r.get_all_tokens();
    odd[0].exchange_rate = -1;
    odd[1].exchange_rate = 0;
    let restored = TokenWrapperContract::restore(None, odd).unwrap();
    assert_eq!(restored.tokens()[0].exchange_rate, -1);
    assert_eq!(restored.tokens()[1].exchange_rate, 0);
    assert!(TokenWrapperContract::restore(None, Vec::new()).is_some());
}
