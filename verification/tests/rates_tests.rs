use custody_ledger::identity::{bytes32_eq, Address};
use custody_ledger::rates::{divide, scale};

#[test]
fn scale_rounds_toward_zero() {
    assert_eq!(scale(1000, 100), Some(10));
    assert_eq!(scale(1000, 50), Some(5));
    assert_eq!(scale(199, 50), Some(0));
    assert_eq!(scale(19_999, 5000), Some(9_999));
    assert_eq!(scale(0, 12345), Some(0));
    assert_eq!(scale(7, 0), Some(0));
    assert_eq!(scale(123_456_789, 10000), Some(123_456_789));
}

#[test]
fn scale_does_not_overflow_on_the_way() {
    assert_eq!(scale(i128::MAX, 10000), Some(i128::MAX));
    assert_eq!(scale(i128::MAX, 1), Some(i128::MAX / 10000));
    assert_eq!(scale(i128::MAX, 5000), Some(i128::MAX / 2));
    assert_eq!(scale(i128::MAX, 10001), None);
    assert_eq!(scale(i128::MAX / 2 + 2, 20000), None);
    assert_eq!(scale(i128::MAX / 2, 20000), Some(i128::MAX - 1));
    assert_eq!(scale(1u128 .wrapping_shl(60) as i128, u64::MAX), Some(((1i128 << 60) / 10000) * (u64::MAX as i128) + (((1i128 << 60) % 10000) * (u64::MAX as i128)) / 10000));
}

#[test]
fn bytes32_eq_sees_every_byte() {
    let a = [0x5au8; 32];
    assert!(bytes32_eq(&a, &a.clone()));
    for i in 0..32 {
        let mut b = a;
        b[i] ^= 1;
        assert!(!bytes32_eq(&a, &b));
    }
}

#[test]
fn addresses_compare_by_kind_and_key() {
    let a = Address::Account([1; 32]);
    assert!(a.same(&Address::Account([1; 32])));
    assert!(!a.same(&Address::Account([2; 32])));
    assert!(!a.same(&Address::Contract([1; 32])));
    assert!(Address::Contract([1; 32]).same(&Address::Contract([1; 32])));
}

#[test]
fn a_call_is_authorized_by_its_verified_invoker_only() {
    let ctx =
        custody_ledger::host::CallContext { invoker: Address::Account([4; 32]), timestamp: 0 };
    assert!(ctx.require_auth(&Address::Account([4; 32])));
    assert!(!ctx.require_auth(&Address::Account([5; 32])));
    assert!(!ctx.require_auth(&Address::Contract([4; 32])));
}

#[test]
fn divide_rounds_toward_zero() {
    assert_eq!(divide(7, 2), Some(3));
    assert_eq!(divide(-7, 2), Some(-3));
    assert_eq!(divide(7, -2), Some(-3));
    assert_eq!(divide(-7, -2), Some(3));
    assert_eq!(divide(0, -5), Some(0));
    assert_eq!(divide(1, i128::MIN), Some(0));
    assert_eq!(divide(i128::MIN, 1), Some(i128::MIN));
    assert_eq!(divide(i128::MIN, i128::MIN), Some(1));
    assert_eq!(divide(i128::MAX, -1), Some(-i128::MAX));
    assert_eq!(divide(5, 0), None);
    assert_eq!(divide(0, 0), None);
    assert_eq!(divide(i128::MIN, -1), None);
}
