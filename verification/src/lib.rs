//! Verified core of the OrbitHaul logistics contracts: the per-actor rate
//! limiter, the OrbitHaul token ledger, the shipment contract with its escrow,
//! milestones, disputes and settlements, the events it publishes with their
//! idempotency keys, and the stand-in token contracts used to exercise
//! settlement failures.

pub mod rate_limit;
pub mod mock_tokens;
pub mod assoc;
pub mod supply;
pub mod token;
pub mod events;
pub mod shipment;
pub mod event_topics;
pub mod shipment_events;
pub mod multisig;
