//! Error cases, codes and supply conservation of the token ledger.

use orbit_haul::token::{MetadataError, OrbitHaulToken, TokenError};

fn ready(supply: i128) -> OrbitHaulToken {
    let mut t = OrbitHaulToken::new();
    t.initialize(1, String::from("OrbitHaulToken"), String::from("NVN"), supply).unwrap();
    t
}

#[test]
fn token_error_codes() {
    assert_eq!(TokenError::AlreadyInitialized.code(), 1);
    assert_eq!(TokenError::NotInitialized.code(), 2);
    assert_eq!(TokenError::Unauthorized.code(), 3);
    assert_eq!(TokenError::InvalidAmount.code(), 4);
    assert_eq!(TokenError::InsufficientBalance.code(), 5);
    assert_eq!(TokenError::InsufficientAllowance.code(), 6);
    assert_eq!(TokenError::Overflow.code(), 7);
}

#[test]
fn metadata_error_codes() {
    assert_eq!(MetadataError::NotInitialized.code(), 1);
    assert_eq!(MetadataError::Unauthorized.code(), 2);
    assert_eq!(MetadataError::KeyNotAllowed.code(), 3);
    assert_eq!(MetadataError::KeyNotFound.code(), 4);
    assert_eq!(MetadataError::KeyAlreadyExists.code(), 5);
}

#[test]
fn uninitialized_token_refuses_everything() {
    let mut t = OrbitHaulToken::new();
    let key = String::from("website");
    assert_eq!(t.get_admin(), Err(TokenError::NotInitialized));
    assert_eq!(t.name(), Err(TokenError::NotInitialized));
    assert_eq!(t.symbol(), Err(TokenError::NotInitialized));
    assert_eq!(t.total_supply(), 0);
    assert_eq!(t.balance(1), 0);
    assert_eq!(t.transfer(1, 2, 5), Err(TokenError::NotInitialized));
    assert_eq!(t.mint(1, 2, 5), Err(TokenError::NotInitialized));
    assert_eq!(t.approve(1, 2, 5), Err(TokenError::NotInitialized));
    assert_eq!(t.transfer_from(2, 1, 3, 5), Err(TokenError::NotInitialized));
    assert_eq!(t.add_allowed_metadata_key(1, &key), Err(MetadataError::NotInitialized));
    assert_eq!(t.set_metadata(1, &key, &key), Err(MetadataError::NotInitialized));
    assert_eq!(t.remove_metadata(1, &key), Err(MetadataError::NotInitialized));
    assert_eq!(t.remove_allowed_metadata_key(1, &key), Err(MetadataError::NotInitialized));
}

#[test]
fn invalid_amounts_are_refused() {
    let mut fresh = OrbitHaulToken::new();
    assert_eq!(
        fresh.initialize(1, String::from("a"), String::from("b"), -1),
        Err(TokenError::InvalidAmount)
    );
    let mut t = ready(100);
    assert_eq!(t.transfer(1, 2, 0), Err(TokenError::InvalidAmount));
    assert_eq!(t.transfer(1, 2, -3), Err(TokenError::InvalidAmount));
    assert_eq!(t.mint(1, 2, 0), Err(TokenError::InvalidAmount));
    assert_eq!(t.approve(1, 2, -1), Err(TokenError::InvalidAmount));
    assert_eq!(t.transfer_from(2, 1, 3, 0), Err(TokenError::InvalidAmount));
    assert_eq!(t.approve(1, 2, 0), Ok(()));
    assert_eq!(t.balance(1), 100);
}

#[test]
fn mint_beyond_representable_supply_overflows() {
    let mut t = ready(i128::MAX - 10);
    assert_eq!(t.mint(1, 2, 11), Err(TokenError::Overflow));
    assert_eq!(t.total_supply(), i128::MAX - 10);
    assert_eq!(t.mint(1, 2, 10), Ok(()));
    assert_eq!(t.total_supply(), i128::MAX);
    assert_eq!(t.balance(2), 10);
}

#[test]
fn spending_allowance_checks_allowance_before_balance() {
    let mut t = ready(1_000);
    assert_eq!(t.transfer(1, 5, 50), Ok(()));
    assert_eq!(t.approve(5, 7, 100), Ok(()));
    assert_eq!(t.transfer_from(7, 5, 9, 101), Err(TokenError::InsufficientAllowance));
    assert_eq!(t.transfer_from(7, 5, 9, 60), Err(TokenError::InsufficientBalance));
    assert_eq!(t.allowance(5, 7), 100);
    assert_eq!(t.transfer_from(7, 5, 9, 50), Ok(()));
    assert_eq!(t.allowance(5, 7), 50);
    assert_eq!(t.balance(5), 0);
    assert_eq!(t.balance(9), 50);
    assert_eq!(t.allowance(7, 5), 0);
}

#[test]
fn transfer_to_self_keeps_balance() {
    let mut t = ready(300);
    assert_eq!(t.transfer(1, 1, 120), Ok(()));
    assert_eq!(t.balance(1), 300);
    assert_eq!(t.transfer(1, 1, 301), Err(TokenError::InsufficientBalance));
}

#[test]
fn supply_stays_the_sum_of_balances() {
    let mut t = ready(1_000);
    t.transfer(1, 2, 300).unwrap();
    t.mint(1, 3, 250).unwrap();
    t.approve(2, 4, 200).unwrap();
    t.transfer_from(4, 2, 5, 150).unwrap();
    assert_eq!(t.transfer(3, 2, 251), Err(TokenError::InsufficientBalance));
    let sum: i128 = (1..=5).map(|a| t.balance(a)).sum();
    assert_eq!(sum, t.total_supply());
    assert_eq!(t.total_supply(), 1_250);
    assert_eq!(
        (t.balance(1), t.balance(2), t.balance(3), t.balance(4), t.balance(5)),
        (700, 150, 250, 0, 150)
    );
}

#[test]
fn failed_operations_leave_the_ledger_unchanged() {
    let mut t = ready(100);
    assert_eq!(t.mint(2, 2, 50), Err(TokenError::Unauthorized));
    assert_eq!(t.transfer(2, 1, 1), Err(TokenError::InsufficientBalance));
    assert_eq!(t.total_supply(), 100);
    assert_eq!(t.balance(1), 100);
    assert_eq!(t.balance(2), 0);
}

#[test]
fn metadata_read_after_write_and_overwrite() {
    let mut t = ready(1);
    let key = String::from("website");
    t.add_allowed_metadata_key(1, &key).unwrap();
    t.set_metadata(1, &key, &String::from("a")).unwrap();
    t.set_metadata(1, &key, &String::from("b")).unwrap();
    assert_eq!(t.get_metadata(&key), Some(String::from("b")));
    assert_eq!(t.get_metadata(&String::from("other")), None);
    t.remove_metadata(1, &key).unwrap();
    assert_eq!(t.remove_metadata(1, &key), Err(MetadataError::KeyNotFound));
    assert!(t.is_metadata_key_allowed(&key));
}

#[test]
fn allowlisted_key_can_be_written_at_once_and_removed_again() {
    let mut t = ready(0);
    let key = String::from("website");
    let other = String::from("logo");
    t.add_allowed_metadata_key(1, &other).unwrap();
    t.set_metadata(1, &other, &String::from("nvn.png")).unwrap();
    assert_eq!(t.set_metadata(1, &key, &String::from("x")), Err(MetadataError::KeyNotAllowed));
    t.add_allowed_metadata_key(1, &key).unwrap();
    t.set_metadata(1, &key, &String::from("https://orbithaul.io")).unwrap();
    assert_eq!(t.get_metadata(&key), Some(String::from("https://orbithaul.io")));
    t.remove_metadata(1, &key).unwrap();
    assert_eq!(t.get_metadata(&key), None);
    assert_eq!(t.get_metadata(&other), Some(String::from("nvn.png")));
}

#[test]
fn admin_is_kept_through_every_operation() {
    let mut t = ready(100);
    let key = String::from("k");
    t.mint(1, 2, 5).unwrap();
    t.transfer(2, 3, 1).unwrap();
    t.approve(3, 4, 1).unwrap();
    t.transfer_from(4, 3, 2, 1).unwrap();
    t.add_allowed_metadata_key(1, &key).unwrap();
    t.set_metadata(1, &key, &String::from("v")).unwrap();
    t.remove_metadata(1, &key).unwrap();
    t.remove_allowed_metadata_key(1, &key).unwrap();
    assert_eq!(t.get_admin(), Ok(1));
    assert_eq!(
        t.initialize(9, String::from("Other"), String::from("OTH"), 0),
        Err(TokenError::AlreadyInitialized)
    );
    assert_eq!(t.get_admin(), Ok(1));
}
