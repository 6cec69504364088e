use sanctifier::amm::{
    calculate_liquidity_burn, calculate_liquidity_mint, calculate_swap_output, integer_sqrt,
};

#[test]
fn test_basic_swap() {
    // Pool with 1000 of each token, 0.3% fee
    let output = calculate_swap_output(1000, 1000, 100, 30).unwrap();
    assert!(output > 0);
    assert!(output < 100); // Should be less due to slippage and fees
}

#[test]
fn test_initial_liquidity() {
    let liquidity = calculate_liquidity_mint(0, 0, 1000, 1000, 0).unwrap();
    assert_eq!(liquidity, 1000); // sqrt(1000 * 1000) = 1000
}

#[test]
fn test_add_liquidity() {
    // Existing pool: 1000 A, 2000 B, 500 LP tokens
    let liquidity = calculate_liquidity_mint(1000, 2000, 100, 200, 500).unwrap();
    assert_eq!(liquidity, 50); // (100 * 500) / 1000 = 50
}

#[test]
fn test_remove_liquidity() {
    // Pool: 1000 A, 2000 B, 500 LP tokens, burn 100
    let (amount_a, amount_b) = calculate_liquidity_burn(1000, 2000, 100, 500).unwrap();
    assert_eq!(amount_a, 200); // (1000 * 100) / 500 = 200
    assert_eq!(amount_b, 400); // (2000 * 100) / 500 = 400
}

#[test]
fn test_swap_exact_value() {
    // No fee: output = (900 * 100) / (100 + 100)... with reserves 100/900 and
    // input 100: (900 * 100 * 10000) / (100 * 10000 + 100 * 10000) = 450.
    let output = calculate_swap_output(100, 900, 100, 0).unwrap();
    assert_eq!(output, 450);
}

#[test]
fn test_swap_rejects_zero_amount() {
    assert_eq!(
        calculate_swap_output(1000, 1000, 0, 30),
        Err("Amount in must be positive")
    );
}

#[test]
fn test_swap_rejects_empty_reserves() {
    assert_eq!(
        calculate_swap_output(0, 1000, 10, 30),
        Err("Reserves must be positive")
    );
    assert_eq!(
        calculate_swap_output(1000, 0, 10, 30),
        Err("Reserves must be positive")
    );
}

#[test]
fn test_swap_rejects_full_fee() {
    assert_eq!(
        calculate_swap_output(1000, 1000, 10, 10000),
        Err("Fee must be less than 100%")
    );
}

#[test]
fn test_swap_overflow_errors() {
    assert_eq!(
        calculate_swap_output(1, 1, u128::MAX, 0),
        Err("Fee calculation overflow")
    );
    assert_eq!(
        calculate_swap_output(1, u128::MAX, u128::MAX / 10000, 0),
        Err("Numerator overflow")
    );
    assert_eq!(
        calculate_swap_output(u128::MAX, 1, 1, 0),
        Err("Denominator overflow")
    );
}

#[test]
fn test_mint_rejects_zero_amounts() {
    assert_eq!(
        calculate_liquidity_mint(1, 1, 0, 5, 10),
        Err("Amounts must be positive")
    );
    assert_eq!(
        calculate_liquidity_mint(1, 1, 5, 0, 10),
        Err("Amounts must be positive")
    );
}

#[test]
fn test_mint_initial_overflow() {
    assert_eq!(
        calculate_liquidity_mint(0, 0, u128::MAX, 2, 0),
        Err("Initial liquidity overflow")
    );
}

#[test]
fn test_mint_rejects_empty_reserves() {
    assert_eq!(
        calculate_liquidity_mint(0, 5, 10, 10, 100),
        Err("Reserves must be positive")
    );
}

#[test]
fn test_mint_share_overflow() {
    assert_eq!(
        calculate_liquidity_mint(1, 1, u128::MAX, 2, 2),
        Err("Liquidity A calculation overflow")
    );
    assert_eq!(
        calculate_liquidity_mint(u128::MAX, 1, 1, u128::MAX, 2),
        Err("Liquidity B calculation overflow")
    );
}

#[test]
fn test_mint_too_small() {
    // 1 * 10 / 1000 rounds to zero on both sides.
    assert_eq!(
        calculate_liquidity_mint(1000, 1000, 1, 1, 10),
        Err("Liquidity amount too small")
    );
}

#[test]
fn test_burn_error_cases() {
    assert_eq!(
        calculate_liquidity_burn(1000, 1000, 0, 100),
        Err("Liquidity must be positive")
    );
    assert_eq!(
        calculate_liquidity_burn(1000, 1000, 10, 0),
        Err("Total supply is zero")
    );
    assert_eq!(
        calculate_liquidity_burn(1000, 1000, 101, 100),
        Err("Liquidity exceeds total supply")
    );
    assert_eq!(
        calculate_liquidity_burn(u128::MAX, 1000, 2, 2),
        Err("Amount A calculation overflow")
    );
    assert_eq!(
        calculate_liquidity_burn(1000, u128::MAX, 2, 2),
        Err("Amount B calculation overflow")
    );
    // 1 * 1 / 100 rounds to zero.
    assert_eq!(
        calculate_liquidity_burn(1, 1000, 1, 100),
        Err("Burn amounts too small")
    );
}

#[test]
fn test_integer_sqrt_exact_values() {
    assert_eq!(integer_sqrt(0), 0);
    assert_eq!(integer_sqrt(1), 1);
    assert_eq!(integer_sqrt(15), 3);
    assert_eq!(integer_sqrt(16), 4);
    assert_eq!(integer_sqrt(1_000_000), 1000);
    assert_eq!(integer_sqrt(u128::MAX), (1u128 << 64) - 1);
}
