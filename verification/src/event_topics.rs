//! The topics under which the shipment contract publishes its events.

use vstd::prelude::*;

verus! {

pub const SHIPMENT_CREATED: &'static str = "shipment_created";
pub const STATUS_UPDATED: &'static str = "status_updated";
pub const ESCROW_DEPOSITED: &'static str = "escrow_deposited";
pub const ESCROW_RELEASED: &'static str = "escrow_released";
pub const ESCROW_REFUNDED: &'static str = "escrow_refunded";
pub const DISPUTE_RAISED: &'static str = "dispute_raised";
pub const DISPUTE_RESOLVED: &'static str = "dispute_resolved";
pub const ESCROW_FROZEN: &'static str = "escrow_frozen";
pub const MILESTONE_RECORDED: &'static str = "milestone_recorded";
pub const SHIPMENT_CANCELLED: &'static str = "shipment_cancelled";
pub const DELIVERY_SUCCESS: &'static str = "delivery_success";
pub const ROLE_CHANGED: &'static str = "role_changed";

} // verus!
