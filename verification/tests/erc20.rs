use erc20::token::Error;
use erc20::token::Event;
use erc20::token::TokenOperations;

fn new_token() -> TokenOperations {
    TokenOperations::new(b"Token".to_vec(), b"TOK".to_vec(), 12)
}

#[test]
fn should_fail_burn_if_insufficient_balance() {
    let mut t = new_token();
    let owner = 1;
    // owner has 0 tokens initially
    assert_eq!(t.burn(owner, 100), Err(Error::InsufficientBalance));
}

#[test]
fn should_increase_total_supply_on_mint() {
    let mut t = new_token();
    assert!(t.mint(1, 100).is_ok());
    assert!(t.mint(2, 200).is_ok());
    assert_eq!(t.get_total_supply(), 300);
}

#[test]
fn should_fail_transfer_insufficient_balance() {
    let mut t = new_token();
    assert_eq!(t.transfer(1, 1, 50), Err(Error::InsufficientBalance));
}

#[test]
fn should_decrease_total_supply_on_burn() {
    let mut t = new_token();
    assert!(t.mint(1, 100).is_ok());
    assert!(t.burn(1, 50).is_ok());
    assert_eq!(t.get_total_supply(), 50);
}

#[test]
fn test_events() {
    let mut t = new_token();
    assert_eq!(
        t.mint(1, 100),
        Ok(Event::Mint { account: 1, value: 100 })
    );
    assert_eq!(
        t.transfer(1, 2, 50),
        Ok(Event::Transfer { from: 1, to: 2, value: 50 })
    );
    assert_eq!(
        t.approve(1, 2, 50),
        Ok(Event::Approval { owner: 1, spender: 2, value: 50 })
    );
    assert_eq!(
        t.transfer_from(2, 1, 3, 40),
        Ok(Event::Transfer { from: 1, to: 3, value: 40 })
    );
    assert_eq!(t.burn(1, 10), Ok(Event::Burn { account: 1, value: 10 }));
}

#[test]
fn should_transfer_tokens_between_accounts() {
    let mut t = new_token();
    assert!(t.mint(1, 100).is_ok());
    assert!(t.transfer(1, 2, 50).is_ok());
    assert_eq!(t.get_total_supply(), 100);
    assert_eq!(t.get_balance(1), 50);
    assert_eq!(t.get_balance(2), 50);
}

#[test]
fn should_transfer_from_tokens_between_accounts_after_approval() {
    let mut t = new_token();
    let owner = 1;
    let spender = 2;
    let target = 3;
    assert!(t.mint(owner, 500).is_ok());
    assert!(t.approve(owner, spender, 128).is_ok());
    assert_eq!(t.get_allowance(owner, spender), 128);

    assert!(t.transfer_from(spender, owner, target, 50).is_ok());
    assert_eq!(t.get_allowance(owner, spender), 78);
    assert_eq!(t.get_total_supply(), 500);
    assert_eq!(t.get_balance(owner), 450);
    assert_eq!(t.get_balance(target), 50);
    assert_eq!(t.get_balance(spender), 0);
}

#[test]
fn should_fail_transfer_if_insufficient_balance() {
    let mut t = new_token();
    let owner = 1;
    let spender = 2;
    // owner has 0 tokens initially
    assert_eq!(t.transfer(owner, spender, 100), Err(Error::InsufficientBalance));
}

#[test]
fn approve_replaces_last_write_wins() {
    let mut t = new_token();
    assert!(t.approve(1, 2, 100).is_ok());
    assert!(t.approve(1, 2, 30).is_ok());
    assert_eq!(t.get_allowance(1, 2), 30);
}

#[test]
fn increase_allowance_adjusts() {
    let mut t = new_token();
    assert!(t.approve(1, 2, 100).is_ok());
    assert_eq!(
        t.increase_allowance(1, 2, 30),
        Ok(Event::Approval { owner: 1, spender: 2, value: 130 })
    );
    assert_eq!(t.get_allowance(1, 2), 130);
}

#[test]
fn decrease_allowance_adjusts() {
    let mut t = new_token();
    assert!(t.approve(1, 2, 100).is_ok());
    assert_eq!(
        t.decrease_allowance(1, 2, 40),
        Ok(Event::Approval { owner: 1, spender: 2, value: 60 })
    );
    assert_eq!(t.get_allowance(1, 2), 60);
}

#[test]
fn burn_below_balance_then_reject_second_burn() {
    let mut t = new_token();
    assert!(t.mint(1, 100).is_ok());
    assert!(t.burn(1, 50).is_ok());
    assert_eq!(t.get_balance(1), 50);
    assert_eq!(t.get_total_supply(), 50);
    assert_eq!(t.burn(1, 100), Err(Error::InsufficientBalance));
    assert_eq!(t.get_total_supply(), 50);
    assert_eq!(t.get_balance(1), 50);
}

#[test]
fn self_transfer_preserves_balance() {
    let mut t = new_token();
    assert!(t.mint(1, 100).is_ok());
    assert_eq!(
        t.transfer(1, 1, 40),
        Ok(Event::Transfer { from: 1, to: 1, value: 40 })
    );
    assert_eq!(t.get_balance(1), 100);
    assert_eq!(t.get_total_supply(), 100);
    // a self-transfer still requires a sufficient balance
    assert_eq!(t.transfer(1, 1, 101), Err(Error::InsufficientBalance));
}

#[test]
fn transfer_from_to_same_account_preserves_balance() {
    let mut t = new_token();
    assert!(t.mint(1, 100).is_ok());
    assert!(t.approve(1, 2, 50).is_ok());
    assert_eq!(
        t.transfer_from(2, 1, 1, 30),
        Ok(Event::Transfer { from: 1, to: 1, value: 30 })
    );
    assert_eq!(t.get_balance(1), 100);
    assert_eq!(t.get_allowance(1, 2), 20);
}

#[test]
fn transfer_from_checks_allowance_before_balance() {
    let mut t = new_token();
    // both the allowance and the balance are insufficient: the allowance
    // check fires first
    assert_eq!(t.transfer_from(2, 1, 3, 50), Err(Error::InsufficientAllowance));
    // sufficient allowance but insufficient balance
    assert!(t.approve(1, 2, 80).is_ok());
    assert_eq!(t.transfer_from(2, 1, 3, 50), Err(Error::InsufficientBalance));
    // the failed calls consumed no allowance
    assert_eq!(t.get_allowance(1, 2), 80);
}

#[test]
fn increase_allowance_overflow_rejected() {
    let mut t = new_token();
    assert!(t.approve(1, 2, u64::MAX).is_ok());
    assert_eq!(t.increase_allowance(1, 2, 1), Err(Error::AllowanceOverflow));
    assert_eq!(t.get_allowance(1, 2), u64::MAX);
}

#[test]
fn decrease_allowance_underflow_rejected() {
    let mut t = new_token();
    assert!(t.approve(1, 2, 10).is_ok());
    assert_eq!(t.decrease_allowance(1, 2, 11), Err(Error::AllowanceUnderflow));
    assert_eq!(t.get_allowance(1, 2), 10);
}

#[test]
fn mint_supply_overflow_rejected() {
    let mut t = new_token();
    assert!(t.mint(1, u64::MAX).is_ok());
    assert_eq!(t.mint(2, 1), Err(Error::SupplyOverflow));
    assert_eq!(t.get_total_supply(), u64::MAX);
    assert_eq!(t.get_balance(1), u64::MAX);
    assert_eq!(t.get_balance(2), 0);
}

#[test]
fn failed_operation_changes_nothing() {
    let mut t = new_token();
    assert!(t.mint(1, 60).is_ok());
    assert!(t.approve(1, 2, 5).is_ok());
    assert_eq!(t.transfer(1, 2, 100), Err(Error::InsufficientBalance));
    assert_eq!(t.transfer_from(2, 1, 3, 50), Err(Error::InsufficientAllowance));
    assert_eq!(t.burn(1, 61), Err(Error::InsufficientBalance));
    assert_eq!(t.get_balance(1), 60);
    assert_eq!(t.get_balance(2), 0);
    assert_eq!(t.get_balance(3), 0);
    assert_eq!(t.get_total_supply(), 60);
    assert_eq!(t.get_allowance(1, 2), 5);
}

#[test]
fn conservation_holds_after_each_operation() {
    let mut t = new_token();
    assert_eq!(t.get_total_supply(), 0);
    assert!(t.mint(1, 300).is_ok());
    assert_eq!(t.get_total_supply(), t.get_balance(1));
    assert!(t.transfer(1, 2, 120).is_ok());
    assert_eq!(t.get_total_supply(), t.get_balance(1) + t.get_balance(2));
    assert!(t.approve(1, 3, 100).is_ok());
    assert_eq!(t.get_total_supply(), t.get_balance(1) + t.get_balance(2));
    assert!(t.transfer_from(3, 1, 3, 80).is_ok());
    assert_eq!(
        t.get_total_supply(),
        t.get_balance(1) + t.get_balance(2) + t.get_balance(3)
    );
    assert!(t.burn(2, 20).is_ok());
    assert_eq!(
        t.get_total_supply(),
        t.get_balance(1) + t.get_balance(2) + t.get_balance(3)
    );
    assert_eq!(t.get_total_supply(), 280);
}

#[test]
fn metadata_is_kept() {
    let t = TokenOperations::new(b"MyToken".to_vec(), b"MTK".to_vec(), 18);
    let (name, symbol, decimals) = t.get_metadata();
    assert_eq!(name, &b"MyToken".to_vec());
    assert_eq!(symbol, &b"MTK".to_vec());
    assert_eq!(decimals, 18);
}
