use disperse::amount::{resolve_amount, ResolvedAmount};
use disperse::uint256::Uint256;

fn u(x: u64) -> Uint256 {
    Uint256::from_u64(x)
}

#[test]
fn literal_amount_is_identity() {
    // Without the percentage flag the concrete amount is the literal, exactly,
    // whatever the balance — even when it exceeds it.
    let r = resolve_amount(&u(42), false, &u(10));
    assert!(matches!(r, ResolvedAmount::Amount(a) if a == u(42)));
    let r = resolve_amount(&u(0), false, &u(0));
    assert!(matches!(r, ResolvedAmount::Amount(a) if a == u(0)));
}

#[test]
fn percentage_amount_is_floored() {
    let r = resolve_amount(&u(10), true, &u(1000));
    assert!(matches!(r, ResolvedAmount::Amount(a) if a == u(100)));
    // floor, not round: 7 * 50 / 100 == 3.5 -> 3
    let r = resolve_amount(&u(50), true, &u(7));
    assert!(matches!(r, ResolvedAmount::Amount(a) if a == u(3)));
}

#[test]
fn percentage_of_hundred_is_whole_balance() {
    let r = resolve_amount(&u(100), true, &u(12345));
    assert!(matches!(r, ResolvedAmount::Amount(a) if a == u(12345)));
}

#[test]
fn percentage_above_hundred_exceeds_balance() {
    let r = resolve_amount(&u(150), true, &u(200));
    assert!(matches!(r, ResolvedAmount::ExceedsBalance));
    let r = resolve_amount(&u(200), true, &u(1));
    assert!(matches!(r, ResolvedAmount::ExceedsBalance));
}

#[test]
fn percentage_above_hundred_can_still_floor_to_balance() {
    // 1 * 150 / 100 floors to 1, which is exactly the balance.
    let r = resolve_amount(&u(150), true, &u(1));
    assert!(matches!(r, ResolvedAmount::Amount(a) if a == u(1)));
}

#[test]
fn percentage_of_zero_balance_is_zero() {
    let r = resolve_amount(&u(75), true, &u(0));
    assert!(matches!(r, ResolvedAmount::Amount(a) if a == u(0)));
}

#[test]
fn percentage_of_large_balance_is_exact() {
    // balance = 2^64 (limb1 == 1); 10% of it is (2^64) / 10.
    let balance = Uint256 { limb0: 0, limb1: 1, limb2: 0, limb3: 0 };
    let expected: u64 = ((1u128 << 64) / 10) as u64;
    let r = resolve_amount(&u(10), true, &balance);
    assert!(matches!(r, ResolvedAmount::Amount(a) if a == u(expected)));
}

#[test]
fn parse_accepts_decimal_strings() {
    assert_eq!(Uint256::from_decimal("0"), Some(u(0)));
    assert_eq!(Uint256::from_decimal("42"), Some(u(42)));
    assert_eq!(Uint256::from_decimal("00123"), Some(u(123)));
    assert_eq!(
        Uint256::from_decimal("18446744073709551616"),
        Some(Uint256 { limb0: 0, limb1: 1, limb2: 0, limb3: 0 })
    );
}

#[test]
fn parse_accepts_the_largest_amount() {
    // 2^256 - 1
    let max = "115792089237316195423570985008687907853269984665640564039457584007913129639935";
    let all_ones = Uint256 {
        limb0: u64::MAX,
        limb1: u64::MAX,
        limb2: u64::MAX,
        limb3: u64::MAX,
    };
    assert_eq!(Uint256::from_decimal(max), Some(all_ones));
}

#[test]
fn parse_rejects_out_of_range_and_malformed() {
    // 2^256
    let over = "115792089237316195423570985008687907853269984665640564039457584007913129639936";
    assert_eq!(Uint256::from_decimal(over), None);
    assert_eq!(Uint256::from_decimal(""), None);
    assert_eq!(Uint256::from_decimal("12x3"), None);
    assert_eq!(Uint256::from_decimal("-5"), None);
    assert_eq!(Uint256::from_decimal("1.5"), None);
}

#[test]
fn uint256_comparison_and_division() {
    let a = Uint256 { limb0: 0, limb1: 2, limb2: 0, limb3: 0 };
    let b = Uint256 { limb0: u64::MAX, limb1: 1, limb2: 0, limb3: 0 };
    assert!(a.gt(&b));
    assert!(!b.gt(&a));
    let (q, r) = u(1007).divmod_small(100);
    assert_eq!(q, u(10));
    assert_eq!(r, 7);
}
