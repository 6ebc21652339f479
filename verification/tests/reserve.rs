use pool::storage::ReserveData;
use soroban_sdk::Env;

fn reserve(b_rate: i128, d_rate: i128) -> ReserveData {
    ReserveData {
        d_rate,
        b_rate,
        ir_mod: 1_0000000,
        b_supply: 100_0000000,
        d_supply: 75_0000000,
        backstop_credit: 0,
        last_time: 0,
    }
}

#[test]
fn test_to_underlying_at_rate_one() {
    let e = Env::default();
    let r = reserve(1_000_000_000_000, 1_000_000_000_000);
    assert_eq!(r.to_underlying_b(&e, 1_2345678, false), 1_2345678);
    assert_eq!(r.to_underlying_b(&e, 1_2345678, true), 1_2345678);
    assert_eq!(r.to_underlying_d(&e, 1_2345678, false), 1_2345678);
    assert_eq!(r.from_underlying_b(&e, 1_2345678, false), 1_2345678);
    assert_eq!(r.from_underlying_d(&e, 1_2345678, true), 1_2345678);
    assert_eq!(r.to_underlying_b(&e, 0, true), 0);
}

#[test]
fn test_to_underlying_rounds_as_asked() {
    let e = Env::default();
    let r = reserve(1_500_000_000_001, 1_321_834_961_000);
    // 3 * 1.500000000001 = 4.500000000003
    assert_eq!(r.to_underlying_b(&e, 3, false), 4);
    assert_eq!(r.to_underlying_b(&e, 3, true), 5);
    // 1_2345678 * 1.321834961 = 16318948.80...
    assert_eq!(r.to_underlying_d(&e, 1_2345678, false), 1_6318948);
    assert_eq!(r.to_underlying_d(&e, 1_2345678, true), 1_6318949);
    // an exact product is the same both ways
    let r = reserve(1_100_000_000_000, 1_250_000_000_000);
    assert_eq!(r.to_underlying_b(&e, 100, false), 110);
    assert_eq!(r.to_underlying_b(&e, 100, true), 110);
    assert_eq!(r.to_underlying_d(&e, 8, false), 10);
    assert_eq!(r.to_underlying_d(&e, 8, true), 10);
}

#[test]
fn test_from_underlying_rounds_as_asked() {
    let e = Env::default();
    let r = reserve(3_000_000_000_000, 1_321_834_961_000);
    // 5 / 3 = 1.66...
    assert_eq!(r.from_underlying_b(&e, 5, false), 1);
    assert_eq!(r.from_underlying_b(&e, 5, true), 2);
    // 1_6318949 / 1.321834961 = 12345678.09...
    assert_eq!(r.from_underlying_d(&e, 1_6318949, false), 1_2345678);
    assert_eq!(r.from_underlying_d(&e, 1_6318949, true), 1_2345679);
    assert_eq!(r.from_underlying_b(&e, 6, false), 2);
    assert_eq!(r.from_underlying_b(&e, 6, true), 2);
}

#[test]
fn test_underlying_round_trip_within_one_unit() {
    let e = Env::default();
    // 3 * 1e12 mod 1.5e12 = 0: nothing is lost
    let r = reserve(1_500_000_000_000, 1_500_000_000_000);
    let tokens = r.from_underlying_b(&e, 3, false);
    assert_eq!(tokens, 2);
    assert_eq!(r.to_underlying_b(&e, tokens, false), 3);
    // 4 * 1e12 mod 1.5e12 = 1e12: one unit is lost
    let tokens = r.from_underlying_d(&e, 4, false);
    assert_eq!(tokens, 2);
    assert_eq!(r.to_underlying_d(&e, tokens, false), 3);
}

#[test]
fn test_underlying_round_trip_with_more_dust() {
    let e = Env::default();
    // 3 * 1e12 mod 1.9e12 = 1.1e12, more than one unit: two units are lost
    let r = reserve(1_900_000_000_000, 1_900_000_000_000);
    let tokens = r.from_underlying_b(&e, 3, false);
    assert_eq!(tokens, 1);
    assert_eq!(r.to_underlying_b(&e, tokens, false), 1);
}

#[test]
fn test_token_round_trip_within_one_token() {
    let e = Env::default();
    let r = reserve(1_900_000_000_000, 2_718_281_828_459);
    for tokens in [0i128, 1, 2, 3, 7, 1_0000000, 123_4567891] {
        let amount = r.to_underlying_b(&e, tokens, false);
        let back = r.from_underlying_b(&e, amount, false);
        assert!(tokens - 1 <= back && back <= tokens);
        let amount = r.to_underlying_d(&e, tokens, false);
        let back = r.from_underlying_d(&e, amount, false);
        assert!(tokens - 1 <= back && back <= tokens);
    }
    // 1 token is worth 1.9 units, rounded down 1, which buys no whole token
    assert_eq!(r.from_underlying_b(&e, r.to_underlying_b(&e, 1, false), false), 0);
}

#[test]
fn test_conversion_wider_than_128_bits() {
    let e = Env::default();
    let r = reserve(1_000_000_000_000, 2_000_000_000_000);
    assert_eq!(r.to_underlying_b(&e, i128::MAX, false), i128::MAX);
    assert_eq!(r.from_underlying_b(&e, i128::MAX, true), i128::MAX);
    assert_eq!(r.from_underlying_d(&e, i128::MAX, false), i128::MAX / 2);
    assert_eq!(r.from_underlying_d(&e, i128::MAX, true), i128::MAX / 2 + 1);
}

#[test]
fn test_conversion_of_negative_numbers() {
    let e = Env::default();
    let r = reserve(1_500_000_000_000, -2_000_000_000_000);
    // -3 * 1.5 = -4.5
    assert_eq!(r.to_underlying_b(&e, -3, false), -5);
    assert_eq!(r.to_underlying_b(&e, -3, true), -4);
    // -5 / 1.5 = -3.33...
    assert_eq!(r.from_underlying_b(&e, -5, false), -4);
    assert_eq!(r.from_underlying_b(&e, -5, true), -3);
    // 5 / -2 = -2.5
    assert_eq!(r.from_underlying_d(&e, 5, false), -3);
    assert_eq!(r.from_underlying_d(&e, 5, true), -2);
    // -5 / -2 = 2.5
    assert_eq!(r.from_underlying_d(&e, -5, false), 2);
    assert_eq!(r.from_underlying_d(&e, -5, true), 3);
    // 3 * -2 = -6
    assert_eq!(r.to_underlying_d(&e, 3, false), -6);
    assert_eq!(r.to_underlying_d(&e, 3, true), -6);
}
