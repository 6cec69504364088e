use sanctifier::token::{burn_pure, mint_pure, transfer_pure, TokenContract, TokenWithBugs};

#[test]
fn test_transfer_pure_conservation() {
    let (new_from, new_to) = transfer_pure(100, 50, 30).unwrap();
    assert_eq!(new_from, 70);
    assert_eq!(new_to, 80);
    assert_eq!(new_from + new_to, 100 + 50);
}

#[test]
fn test_transfer_pure_rejects_non_positive_amount() {
    assert_eq!(transfer_pure(100, 50, 0), Err("Amount must be positive"));
    assert_eq!(transfer_pure(100, 50, -5), Err("Amount must be positive"));
}

#[test]
fn test_transfer_pure_insufficient_balance() {
    // The subtraction would leave the i128 range.
    assert_eq!(
        transfer_pure(i128::MIN, 0, 1),
        Err("Insufficient balance")
    );
}

#[test]
fn test_transfer_pure_receiver_overflow() {
    assert_eq!(
        transfer_pure(100, i128::MAX, 1),
        Err("Receiver balance overflow")
    );
}

#[test]
fn test_mint_pure() {
    assert_eq!(mint_pure(10, 5), Ok(15));
    assert_eq!(mint_pure(10, 0), Err("Mint amount must be positive"));
    assert_eq!(mint_pure(i128::MAX, 1), Err("Mint overflow"));
}

#[test]
fn test_burn_pure() {
    assert_eq!(burn_pure(10, 4), Ok(6));
    assert_eq!(burn_pure(10, -1), Err("Burn amount must be positive"));
    assert_eq!(burn_pure(i128::MIN, 1), Err("Insufficient balance to burn"));
}

#[test]
fn test_token_contract_transfer() {
    let (from, to) = TokenContract::transfer(1000, 1, 999);
    assert_eq!(from, 1);
    assert_eq!(to, 1000);
}

#[test]
fn test_token_with_bugs_unchecked_updates() {
    // The vulnerable transfer lets a balance go negative.
    let (from, to) = TokenWithBugs::transfer(10, 0, 25);
    assert_eq!(from, -15);
    assert_eq!(to, 25);
    assert_eq!(TokenWithBugs::mint(7, 3), 10);
}
