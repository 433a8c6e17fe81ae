//! The stand-in token contracts.

use orbit_haul::mock_tokens::{FixtureReplayToken, MockFailingToken, MockTokenError};

#[test]
fn failing_token_refuses_every_transfer() {
    assert_eq!(MockFailingToken::transfer(1, 2, 100), Err(MockTokenError::TransferFailed));
    assert_eq!(MockFailingToken::transfer(2, 1, 0), Err(MockTokenError::TransferFailed));
    assert_eq!(MockTokenError::TransferFailed.code(), 1);
}

#[test]
fn failing_token_reports_seven_decimals_and_accepts_mint() {
    assert_eq!(MockFailingToken::decimals(), 7);
    MockFailingToken::mint(1, 2, 500);
}

#[test]
fn fixture_token_accepts_transfers() {
    FixtureReplayToken::transfer(1, 2, 100);
    assert_eq!(FixtureReplayToken::decimals(), 7);
}
