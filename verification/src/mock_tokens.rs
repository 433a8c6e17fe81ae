//! Token contracts that stand in for real ones when settlement paths are
//! exercised: one whose transfers always fail, one whose transfers do nothing.

use vstd::prelude::*;

verus! {

/// The decimals reported by both stand-in tokens.
pub const MOCK_TOKEN_DECIMALS: u32 = 7;

/// The error a failing token reports.
#[derive(Clone, Copy, Debug, PartialEq, Eq)]
pub enum MockTokenError {
    /// The transfer was refused.
    TransferFailed,
}

impl MockTokenError {
    /// The contract error code under which the error is reported.
    pub fn code(&self) -> (code: u32)
        ensures
            code == 1,
    {
        match self {
            MockTokenError::TransferFailed => 1,
        }
    }
}

/// A token whose every transfer fails, so that the failure paths of escrow
/// deposits, releases and refunds can be observed.
#[derive(Clone, Copy, Debug, PartialEq, Eq)]
pub struct MockFailingToken;

impl MockFailingToken {
    /// The number of decimals of the token.
    pub fn decimals() -> (decimals: u32)
        ensures
            decimals == MOCK_TOKEN_DECIMALS,
    {
        MOCK_TOKEN_DECIMALS
    }

    /// A transfer from `from` to `to`: always refused.
    pub fn transfer(from: u64, to: u64, amount: i128) -> (result: Result<(), MockTokenError>)
        ensures
            result == Err::<(), MockTokenError>(MockTokenError::TransferFailed),
    {
        Err(MockTokenError::TransferFailed)
    }

    /// Minting: accepted, and without effect.
    pub fn mint(admin: u64, to: u64, amount: i128) {
    }
}

/// A token whose transfers succeed without moving anything, for flows where
/// only the shipment side is observed.
#[derive(Clone, Copy, Debug, PartialEq, Eq)]
pub struct FixtureReplayToken;

impl FixtureReplayToken {
    /// A transfer from `from` to `to`: accepted, and without effect.
    pub fn transfer(from: u64, to: u64, amount: i128) {
    }

    /// The number of decimals of the token.
    pub fn decimals() -> (decimals: u32)
        ensures
            decimals == MOCK_TOKEN_DECIMALS,
    {
        MOCK_TOKEN_DECIMALS
    }
}

} // verus!
