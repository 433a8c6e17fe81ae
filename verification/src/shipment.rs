//! The shipment contract: registered companies create shipments carried by
//! carriers they whitelisted, lock the price in escrow, and the escrow is paid
//! out to the carrier on delivery or milestones, refunded to the company, or
//! frozen by a dispute until the admin resolves it.
//!
//! Token movements are performed by the caller-supplied `transfer` function,
//! called with the token contract the shipment contract was bound to at
//! initialization, then sender, recipient and amount.  A transfer that
//! reports failure leaves the contract unchanged.
//! Every completed movement is recorded as a settlement.

use vstd::prelude::*;
use crate::assoc::lemma_push_to_set;
use crate::shipment_events::{Role, RoleAction, ShipmentEvent, SHIPMENT_EVENT_DOMAIN};
use crate::multisig::{copy_entries, AdminAction, AdminCouncil, CouncilError, CouncilView, Proposal};
use crate::events::{idempotency_preimage, lemma_idempotency_preimage_injective};
use vstd::string::StringSliceAdditionalSpecFns;

verus! {

/// The life-cycle stage of a shipment.
#[derive(Clone, Copy, Debug, PartialEq, Eq, Structural)]
pub enum ShipmentStatus {
    Created,
    InTransit,
    Delivered,
    Disputed,
    Cancelled,
}

/// How the admin settles a dispute.
#[derive(Clone, Copy, Debug, PartialEq, Eq, Structural)]
pub enum DisputeResolution {
    /// The escrow goes back to the company and the shipment is cancelled.
    RefundToCompany,
    /// The escrow goes to the carrier and the shipment counts as delivered.
    ReleaseToCarrier,
}

/// The kind of token movement a settlement records.
#[derive(Clone, Copy, Debug, PartialEq, Eq, Structural)]
pub enum SettlementOperation {
    /// From the company into escrow.
    Deposit,
    /// From escrow to the carrier.
    Release,
    /// From escrow back to the company.
    Refund,
}

/// The state of a recorded settlement.
#[derive(Clone, Copy, Debug, PartialEq, Eq, Structural)]
pub enum SettlementState {
    /// The token movement went through.
    Completed,
}

/// A recorded token movement.
#[derive(Clone, Copy, Debug, PartialEq, Eq, Structural)]
pub struct Settlement {
    pub shipment_id: u64,
    pub operation: SettlementOperation,
    pub state: SettlementState,
    pub amount: i128,
}

/// The errors of the shipment contract.
#[derive(Clone, Copy, Debug, PartialEq, Eq, Structural)]
pub enum OrbitHaulError {
    AlreadyInitialized,
    NotInitialized,
    Unauthorized,
    RoleNotFound,
    CarrierNotWhitelisted,
    InvalidDeadline,
    InvalidMilestones,
    ShipmentNotFound,
    InvalidStatus,
    InvalidAmount,
    EscrowAlreadyDeposited,
    NoEscrow,
    EscrowLocked,
    MilestoneAlreadyPaid,
    SettlementNotFound,
    CounterOverflow,
    TokenTransferFailed,
    /// The admin council refused.
    Council(CouncilError),
}

/// A shipment, identified by its position: shipment `id` is the `id`-th one created.
#[derive(Clone, Copy, Debug)]
pub struct Shipment {
    pub id: u64,
    pub sender: u64,
    pub receiver: u64,
    pub carrier: u64,
    pub data_hash: [u8; 32],
    pub deadline: u64,
    pub status: ShipmentStatus,
    /// Tokens of this shipment still held in escrow.
    pub escrow_amount: i128,
    /// Tokens deposited into escrow for this shipment.
    pub total_escrow: i128,
    /// The number of the last numbered event about this shipment.
    pub event_count: u32,
}

/// A payment checkpoint of a shipment: reaching it releases `percentage` percent
/// of the deposited escrow to the carrier.
#[derive(Debug)]
pub struct Milestone {
    pub shipment_id: u64,
    pub checkpoint: String,
    pub percentage: u32,
    pub paid: bool,
}

/// A token movement the contract asks for.
#[derive(Clone, Copy, Debug, PartialEq, Eq, Structural)]
pub struct Payout {
    /// The token contract whose tokens move: the one the contract is bound to.
    pub token: u64,
    pub from: u64,
    pub to: u64,
    pub amount: i128,
}

/// The abstract state of a shipment contract.
pub struct ShipmentLedger {
    pub initialized: bool,
    pub admin: u64,
    /// The token contract the escrow is held in.
    pub token: u64,
    /// The account of this contract, which holds the escrow.
    pub address: u64,
    pub companies: Set<u64>,
    pub suspended: Set<u64>,
    pub carriers: Set<u64>,
    /// The (company, carrier) pairs a company allowed to carry its shipments.
    pub whitelist: Set<(u64, u64)>,
    pub shipments: Seq<Shipment>,
    pub milestones: Seq<Milestone>,
    pub settlements: Seq<Settlement>,
    /// The events published and not yet handed out.
    pub events: Seq<ShipmentEvent>,
    /// The admin council that decides on administrative actions.
    pub council: CouncilView,
}

/// The escrow still held for the shipments of `s`, all together.
pub open spec fn escrow_sum(s: Seq<Shipment>) -> int
    decreases s.len(),
{
    if s.len() == 0 {
        0
    } else {
        escrow_sum(s.drop_last()) + s.last().escrow_amount
    }
}

/// How a settlement changes the escrow held: deposits add, payouts subtract.
pub open spec fn signed_amount(st: Settlement) -> int {
    match st.operation {
        SettlementOperation::Deposit => st.amount as int,
        _ => -(st.amount as int),
    }
}

/// The net escrow that the settlements of `s` moved into the contract.
pub open spec fn settled_sum(s: Seq<Settlement>) -> int
    decreases s.len(),
{
    if s.len() == 0 {
        0
    } else {
        settled_sum(s.drop_last()) + signed_amount(s.last())
    }
}

pub proof fn lemma_escrow_sum_update(s: Seq<Shipment>, i: int, x: Shipment)
    requires
        0 <= i < s.len(),
    ensures
        escrow_sum(s.update(i, x)) == escrow_sum(s) - s[i].escrow_amount + x.escrow_amount,
    decreases s.len(),
{
    let t = s.update(i, x);
    if i == s.len() - 1 {
        assert(t.drop_last() =~= s.drop_last());
    } else {
        lemma_escrow_sum_update(s.drop_last(), i, x);
        assert(t.drop_last() =~= s.drop_last().update(i, x));
    }
}

pub proof fn lemma_escrow_sum_push(s: Seq<Shipment>, x: Shipment)
    ensures
        escrow_sum(s.push(x)) == escrow_sum(s) + x.escrow_amount,
{
    assert(s.push(x).drop_last() =~= s);
}

pub proof fn lemma_settled_sum_push(s: Seq<Settlement>, x: Settlement)
    ensures
        settled_sum(s.push(x)) == settled_sum(s) + signed_amount(x),
{
    assert(s.push(x).drop_last() =~= s);
}

/// Each numbered event of `events` is about an existing shipment and carries a
/// number no greater than that shipment's count, and the numbers of the events
/// about one shipment strictly increase along the log.
pub open spec fn events_numbered(events: Seq<ShipmentEvent>, shipments: Seq<Shipment>) -> bool {
    &&& forall|i: int| 0 <= i < events.len() && (#[trigger] events[i].numbering()) is Some ==> {
        let (id, c) = events[i].numbering().unwrap();
        &&& 1 <= id <= shipments.len()
        &&& 1 <= c <= shipments[id - 1].event_count
    }
    &&& forall|i: int, j: int| 0 <= i < j < events.len() && (#[trigger] events[i].numbering()) is Some
        && (#[trigger] events[j].numbering()) is Some
        && events[i].numbering().unwrap().0 == events[j].numbering().unwrap().0
        ==> events[i].numbering().unwrap().1 < events[j].numbering().unwrap().1
}

pub proof fn lemma_numbered_same_counts(events: Seq<ShipmentEvent>, s: Seq<Shipment>, t: Seq<Shipment>)
    requires
        events_numbered(events, s),
        s.len() <= t.len(),
        forall|i: int| 0 <= i < s.len() ==> #[trigger] t[i].event_count == s[i].event_count,
    ensures
        events_numbered(events, t),
{
    assert forall|i: int| 0 <= i < events.len() && (#[trigger] events[i].numbering()) is Some implies {
        let (id, c) = events[i].numbering().unwrap();
        &&& 1 <= id <= t.len()
        &&& 1 <= c <= t[id - 1].event_count
    } by {
        let (id, c) = events[i].numbering().unwrap();
        assert(t[id - 1].event_count == s[id - 1].event_count);
    }
}

pub proof fn lemma_numbered_emit(events: Seq<ShipmentEvent>, s: Seq<Shipment>, id: u64, ev: ShipmentEvent)
    requires
        events_numbered(events, s),
        1 <= id <= s.len(),
        s[id - 1].event_count < u32::MAX,
        ev.numbering() == Some((id, (s[id - 1].event_count + 1) as u32)),
    ensures
        events_numbered(events.push(ev), s.update(id - 1, Shipment { event_count: (s[id - 1].event_count + 1) as u32, ..s[id - 1] })),
{
    let t = s.update(id - 1, Shipment { event_count: (s[id - 1].event_count + 1) as u32, ..s[id - 1] });
    let e = events.push(ev);
    assert forall|i: int| 0 <= i < e.len() && (#[trigger] e[i].numbering()) is Some implies {
        let (k, c) = e[i].numbering().unwrap();
        &&& 1 <= k <= t.len()
        &&& 1 <= c <= t[k - 1].event_count
    } by {
        if i < events.len() {
            assert(e[i] == events[i]);
            let (k, c) = events[i].numbering().unwrap();
            assert(1 <= c <= s[k - 1].event_count);
        }
    }
    assert forall|i: int, j: int| 0 <= i < j < e.len() && (#[trigger] e[i].numbering()) is Some
        && (#[trigger] e[j].numbering()) is Some
        && e[i].numbering().unwrap().0 == e[j].numbering().unwrap().0
        implies e[i].numbering().unwrap().1 < e[j].numbering().unwrap().1 by {
        assert(e[i] == events[i]);
        if j < events.len() {
            assert(e[j] == events[j]);
        } else {
            assert(e[j] == ev);
            let (k, c) = events[i].numbering().unwrap();
            assert(c <= s[k - 1].event_count);
        }
    }
}

pub proof fn lemma_numbered_notice(events: Seq<ShipmentEvent>, s: Seq<Shipment>, ev: ShipmentEvent)
    requires
        events_numbered(events, s),
        ev.numbering() is None,
    ensures
        events_numbered(events.push(ev), s),
{
    let e = events.push(ev);
    assert forall|i: int| 0 <= i < e.len() && (#[trigger] e[i].numbering()) is Some implies {
        let (k, c) = e[i].numbering().unwrap();
        &&& 1 <= k <= s.len()
        &&& 1 <= c <= s[k - 1].event_count
    } by {
        assert(e[i] == events[i]);
    }
    assert forall|i: int, j: int| 0 <= i < j < e.len() && (#[trigger] e[i].numbering()) is Some
        && (#[trigger] e[j].numbering()) is Some
        && e[i].numbering().unwrap().0 == e[j].numbering().unwrap().0
        implies e[i].numbering().unwrap().1 < e[j].numbering().unwrap().1 by {
        assert(e[i] == events[i]);
        assert(e[j] == events[j]);
    }
}

impl ShipmentLedger {
    /// Every shipment sits at the position its id names, holds between none
    /// and all of what was deposited for it, and the escrow held over all
    /// shipments is exactly the net of the recorded settlements.
    pub open spec fn consistent(self) -> bool {
        &&& forall|i: int| 0 <= i < self.shipments.len() ==> #[trigger] self.shipments[i].id == i + 1
        &&& forall|i: int| 0 <= i < self.shipments.len() ==> 0 <= #[trigger] self.shipments[i].escrow_amount <= self.shipments[i].total_escrow
        &&& forall|i: int| 0 <= i < self.settlements.len() ==> #[trigger] self.settlements[i].amount > 0
        &&& forall|j: int| 0 <= j < self.milestones.len() ==> #[trigger] self.milestones[j].percentage <= 100
        &&& escrow_sum(self.shipments) == settled_sum(self.settlements)
        &&& self.shipments.len() < u64::MAX
        &&& events_numbered(self.events, self.shipments)
    }

    /// Whether shipment `id` exists.
    pub open spec fn has_shipment(self, id: u64) -> bool {
        1 <= id <= self.shipments.len()
    }

    /// Shipment `id`.
    pub open spec fn shipment(self, id: u64) -> Shipment {
        self.shipments[id - 1]
    }

    /// The state with shipment `id` replaced by `s`.
    pub open spec fn with_shipment(self, id: u64, s: Shipment) -> ShipmentLedger {
        ShipmentLedger { shipments: self.shipments.update(id - 1, s), ..self }
    }

    /// The state with the settlement `st` recorded, if any.
    pub open spec fn with_settlement(self, st: Option<Settlement>) -> ShipmentLedger {
        match st {
            Some(st) => ShipmentLedger { settlements: self.settlements.push(st), ..self },
            None => self,
        }
    }

    /// A completed settlement of `amount` for shipment `id`.
    pub open spec fn completed(id: u64, operation: SettlementOperation, amount: i128) -> Settlement {
        Settlement { shipment_id: id, operation, state: SettlementState::Completed, amount }
    }

    /// The number the next numbered event about shipment `id` gets.
    pub open spec fn next_counter(self, id: u64) -> u32 {
        (self.shipment(id).event_count + 1) as u32
    }

    /// The state after publishing the numbered event `ev` about shipment `id`.
    pub open spec fn emit_numbered(self, id: u64, ev: ShipmentEvent) -> ShipmentLedger {
        ShipmentLedger {
            shipments: self.shipments.update(id - 1, Shipment { event_count: self.next_counter(id), ..self.shipment(id) }),
            events: self.events.push(ev),
            ..self
        }
    }

    /// The state after publishing the event `ev`, which is not numbered.
    pub open spec fn emit_notice(self, ev: ShipmentEvent) -> ShipmentLedger {
        ShipmentLedger { events: self.events.push(ev), ..self }
    }

    /// Shipment `id` has no room for `k` more numbered events.
    pub open spec fn lacks_room(self, id: u64, k: int) -> bool {
        self.shipment(id).event_count + k > u32::MAX
    }

    /// `caller` is a registered company that is not suspended.
    pub open spec fn is_active_company(self, caller: u64) -> bool {
        self.companies.contains(caller) && !self.suspended.contains(caller)
    }

    /// What creating a shipment does: on success, the new id and the state after.
    pub open spec fn create_outcome(
        self,
        sender: u64,
        receiver: u64,
        carrier: u64,
        data_hash: [u8; 32],
        milestones: Seq<(String, u32)>,
        deadline: u64,
        now: u64,
    ) -> Result<(u64, ShipmentLedger), OrbitHaulError> {
        if !self.initialized {
            Err(OrbitHaulError::NotInitialized)
        } else if !self.is_active_company(sender) {
            Err(OrbitHaulError::Unauthorized)
        } else if !self.whitelist.contains((sender, carrier)) {
            Err(OrbitHaulError::CarrierNotWhitelisted)
        } else if deadline <= now {
            Err(OrbitHaulError::InvalidDeadline)
        } else if !milestones_valid(milestones) {
            Err(OrbitHaulError::InvalidMilestones)
        } else if self.shipments.len() + 1 >= u64::MAX {
            Err(OrbitHaulError::CounterOverflow)
        } else {
            let id = (self.shipments.len() + 1) as u64;
            let base = ShipmentLedger {
                shipments: self.shipments.push(
                    Shipment {
                        id,
                        sender,
                        receiver,
                        carrier,
                        data_hash,
                        deadline,
                        status: ShipmentStatus::Created,
                        escrow_amount: 0,
                        total_escrow: 0,
                        event_count: 0,
                    },
                ),
                milestones: self.milestones + new_milestones(id, milestones),
                ..self
            };
            Ok(
                (
                    id,
                    base.emit_numbered(
                        id,
                        ShipmentEvent::ShipmentCreated { shipment_id: id, sender, receiver, token: self.token, data_hash, counter: 1 },
                    ),
                ),
            )
        }
    }

    /// The checks every operation on shipment `id` starts with.
    pub open spec fn shipment_guard(self, id: u64) -> Option<OrbitHaulError> {
        if !self.initialized {
            Some(OrbitHaulError::NotInitialized)
        } else if !self.has_shipment(id) {
            Some(OrbitHaulError::ShipmentNotFound)
        } else {
            None
        }
    }

    /// What the carrier reporting a new status does.
    pub open spec fn update_status_outcome(self, caller: u64, id: u64, status: ShipmentStatus, data_hash: [u8; 32]) -> Result<ShipmentLedger, OrbitHaulError> {
        if let Some(e) = self.shipment_guard(id) {
            Err(e)
        } else if caller != self.shipment(id).carrier {
            Err(OrbitHaulError::Unauthorized)
        } else if !(self.shipment(id).status == ShipmentStatus::Created && status == ShipmentStatus::InTransit) {
            Err(OrbitHaulError::InvalidStatus)
        } else if self.lacks_room(id, 1) {
            Err(OrbitHaulError::CounterOverflow)
        } else {
            let s = self.shipment(id);
            let v1 = self.with_shipment(id, Shipment { status, data_hash, ..s });
            Ok(v1.emit_numbered(id, ShipmentEvent::StatusUpdated {
                shipment_id: id, old_status: s.status, new_status: status, token: self.token, data_hash, counter: v1.next_counter(id),
            }))
        }
    }

    /// What raising a dispute does: the shipment, and its escrow, are frozen.
    pub open spec fn dispute_outcome(self, caller: u64, id: u64, reason_hash: [u8; 32], now: u64) -> Result<ShipmentLedger, OrbitHaulError> {
        if let Some(e) = self.shipment_guard(id) {
            Err(e)
        } else if caller != self.shipment(id).sender && caller != self.shipment(id).receiver && caller != self.shipment(id).carrier {
            Err(OrbitHaulError::Unauthorized)
        } else if self.shipment(id).status != ShipmentStatus::Created && self.shipment(id).status != ShipmentStatus::InTransit {
            Err(OrbitHaulError::InvalidStatus)
        } else {
            Ok(self.with_shipment(id, Shipment { status: ShipmentStatus::Disputed, ..self.shipment(id) })
                .emit_notice(ShipmentEvent::DisputeRaised { shipment_id: id, raised_by: caller, reason_hash })
                .emit_notice(ShipmentEvent::EscrowFrozen { shipment_id: id, reason_hash, caller, timestamp: now }))
        }
    }

    /// What the company cancelling a shipment without escrow does.
    pub open spec fn cancel_outcome(self, caller: u64, id: u64, reason_hash: [u8; 32]) -> Result<ShipmentLedger, OrbitHaulError> {
        if let Some(e) = self.shipment_guard(id) {
            Err(e)
        } else if caller != self.shipment(id).sender {
            Err(OrbitHaulError::Unauthorized)
        } else if self.shipment(id).status != ShipmentStatus::Created {
            Err(OrbitHaulError::InvalidStatus)
        } else if self.shipment(id).escrow_amount != 0 {
            Err(OrbitHaulError::EscrowLocked)
        } else if self.lacks_room(id, 1) {
            Err(OrbitHaulError::CounterOverflow)
        } else {
            let v1 = self.with_shipment(id, Shipment { status: ShipmentStatus::Cancelled, ..self.shipment(id) });
            Ok(v1.emit_numbered(id, ShipmentEvent::ShipmentCancelled { shipment_id: id, caller, reason_hash, counter: v1.next_counter(id) }))
        }
    }

    /// What depositing `amount` into the escrow of shipment `id` asks for and,
    /// once the tokens moved, leads to.
    pub open spec fn deposit_plan(self, caller: u64, id: u64, amount: i128) -> Result<(Option<Payout>, ShipmentLedger), OrbitHaulError> {
        if let Some(e) = self.shipment_guard(id) {
            Err(e)
        } else if caller != self.shipment(id).sender {
            Err(OrbitHaulError::Unauthorized)
        } else if self.shipment(id).status != ShipmentStatus::Created {
            Err(OrbitHaulError::InvalidStatus)
        } else if self.shipment(id).total_escrow != 0 {
            Err(OrbitHaulError::EscrowAlreadyDeposited)
        } else if amount <= 0 {
            Err(OrbitHaulError::InvalidAmount)
        } else if self.lacks_room(id, 1) {
            Err(OrbitHaulError::CounterOverflow)
        } else {
            let v1 = self.with_shipment(id, Shipment { escrow_amount: amount, total_escrow: amount, ..self.shipment(id) })
                .with_settlement(Some(Self::completed(id, SettlementOperation::Deposit, amount)));
            Ok(
                (
                    Some(Payout { token: self.token, from: caller, to: self.address, amount }),
                    v1.emit_numbered(id, ShipmentEvent::EscrowDeposited { shipment_id: id, from: caller, amount, token: self.token, counter: v1.next_counter(id) }),
                ),
            )
        }
    }

    /// Paying the whole escrow of shipment `id` to `to`, leaving the shipment in `status`.
    pub open spec fn pay_out_all(self, id: u64, to: u64, status: ShipmentStatus, operation: SettlementOperation) -> (Option<Payout>, ShipmentLedger) {
        let e = self.shipment(id).escrow_amount;
        let next = self.with_shipment(id, Shipment { status, escrow_amount: 0, ..self.shipment(id) });
        if e > 0 {
            (Some(Payout { token: self.token, from: self.address, to, amount: e }), next.with_settlement(Some(Self::completed(id, operation, e))))
        } else {
            (None, next)
        }
    }

    /// The state after publishing, if `amount` is positive, the numbered
    /// event of `amount` moving out of the escrow of shipment `id` to `to`.
    pub open spec fn emit_payout(self, id: u64, operation: SettlementOperation, to: u64, amount: i128) -> ShipmentLedger {
        if amount > 0 {
            match operation {
                SettlementOperation::Refund => self.emit_numbered(id, ShipmentEvent::EscrowRefunded {
                    shipment_id: id, to, amount, token: self.token, counter: self.next_counter(id) }),
                _ => self.emit_numbered(id, ShipmentEvent::EscrowReleased {
                    shipment_id: id, to, amount, token: self.token, counter: self.next_counter(id) }),
            }
        } else {
            self
        }
    }

    /// What the receiver confirming delivery asks for and leads to: the escrow
    /// left goes to the carrier.
    pub open spec fn confirm_delivery_plan(self, caller: u64, id: u64, confirmation_hash: [u8; 32], now: u64) -> Result<(Option<Payout>, ShipmentLedger), OrbitHaulError> {
        if let Some(e) = self.shipment_guard(id) {
            Err(e)
        } else if caller != self.shipment(id).receiver {
            Err(OrbitHaulError::Unauthorized)
        } else if self.shipment(id).status != ShipmentStatus::InTransit {
            Err(OrbitHaulError::InvalidStatus)
        } else if self.lacks_room(id, 3) {
            Err(OrbitHaulError::CounterOverflow)
        } else {
            let s = self.shipment(id);
            let (p, v1) = self.pay_out_all(id, s.carrier, ShipmentStatus::Delivered, SettlementOperation::Release);
            let v2 = v1.emit_numbered(id, ShipmentEvent::StatusUpdated {
                shipment_id: id, old_status: ShipmentStatus::InTransit, new_status: ShipmentStatus::Delivered,
                token: self.token, data_hash: confirmation_hash, counter: v1.next_counter(id) });
            let v3 = v2.emit_payout(id, SettlementOperation::Release, s.carrier, s.escrow_amount);
            Ok((p, v3.emit_numbered(id, ShipmentEvent::DeliverySuccess {
                carrier: s.carrier, shipment_id: id, timestamp: now, counter: v3.next_counter(id) })))
        }
    }

    /// What the company reclaiming the escrow of a shipment not yet under way
    /// asks for and leads to.
    pub open spec fn refund_plan(self, caller: u64, id: u64) -> Result<(Option<Payout>, ShipmentLedger), OrbitHaulError> {
        if let Some(e) = self.shipment_guard(id) {
            Err(e)
        } else if caller != self.shipment(id).sender {
            Err(OrbitHaulError::Unauthorized)
        } else if self.shipment(id).status != ShipmentStatus::Created {
            Err(OrbitHaulError::InvalidStatus)
        } else if self.shipment(id).escrow_amount == 0 {
            Err(OrbitHaulError::NoEscrow)
        } else if self.lacks_room(id, 1) {
            Err(OrbitHaulError::CounterOverflow)
        } else {
            let s = self.shipment(id);
            let (p, v1) = self.pay_out_all(id, s.sender, ShipmentStatus::Cancelled, SettlementOperation::Refund);
            Ok((p, v1.emit_payout(id, SettlementOperation::Refund, s.sender, s.escrow_amount)))
        }
    }

    /// What the admin resolving a dispute asks for and leads to.
    pub open spec fn resolve_plan(self, caller: u64, id: u64, resolution: DisputeResolution, reason_hash: [u8; 32]) -> Result<(Option<Payout>, ShipmentLedger), OrbitHaulError> {
        if !self.initialized {
            Err(OrbitHaulError::NotInitialized)
        } else if caller != self.admin {
            Err(OrbitHaulError::Unauthorized)
        } else if !self.has_shipment(id) {
            Err(OrbitHaulError::ShipmentNotFound)
        } else if self.shipment(id).status != ShipmentStatus::Disputed {
            Err(OrbitHaulError::InvalidStatus)
        } else if self.lacks_room(id, 2) {
            Err(OrbitHaulError::CounterOverflow)
        } else {
            let s = self.shipment(id);
            let (to, status, operation) = match resolution {
                DisputeResolution::RefundToCompany => (s.sender, ShipmentStatus::Cancelled, SettlementOperation::Refund),
                DisputeResolution::ReleaseToCarrier => (s.carrier, ShipmentStatus::Delivered, SettlementOperation::Release),
            };
            let (p, v1) = self.pay_out_all(id, to, status, operation);
            let v2 = v1.emit_numbered(id, ShipmentEvent::DisputeResolved {
                shipment_id: id, resolution, reason_hash, admin: caller, counter: v1.next_counter(id) });
            Ok((p, v2.emit_payout(id, operation, to, s.escrow_amount)))
        }
    }

    /// What the carrier reaching `checkpoint` asks for and leads to: the
    /// checkpoint is published; an unpaid milestone of that name releases its
    /// share of the deposit, capped by the escrow left.
    pub open spec fn milestone_plan(self, caller: u64, id: u64, checkpoint: String, data_hash: [u8; 32]) -> Result<(Option<Payout>, ShipmentLedger), OrbitHaulError> {
        if let Some(e) = self.shipment_guard(id) {
            Err(e)
        } else if caller != self.shipment(id).carrier {
            Err(OrbitHaulError::Unauthorized)
        } else if self.shipment(id).status != ShipmentStatus::InTransit {
            Err(OrbitHaulError::InvalidStatus)
        } else if self.lacks_room(id, 2) {
            Err(OrbitHaulError::CounterOverflow)
        } else {
            let recorded = |v: ShipmentLedger| v.emit_numbered(id, ShipmentEvent::MilestoneRecorded {
                shipment_id: id, checkpoint, data_hash, reporter: caller, counter: v.next_counter(id) });
            match first_milestone(self.milestones, id, checkpoint@) {
                None => Ok((None, recorded(self))),
                Some(j) => {
                    let m = self.milestones[j];
                    let s = self.shipment(id);
                    if m.paid {
                        Err(OrbitHaulError::MilestoneAlreadyPaid)
                    } else {
                        let pay = milestone_payment(s.total_escrow as int, m.percentage as int, s.escrow_amount as int);
                        let paid = ShipmentLedger {
                            milestones: self.milestones.update(j, Milestone { paid: true, ..m }),
                            ..self.with_shipment(id, Shipment { escrow_amount: (s.escrow_amount - pay) as i128, ..s })
                        };
                        if pay > 0 {
                            let v1 = paid.with_settlement(Some(Self::completed(id, SettlementOperation::Release, pay as i128)));
                            Ok((Some(Payout { token: self.token, from: self.address, to: s.carrier, amount: pay as i128 }),
                                recorded(v1).emit_payout(id, SettlementOperation::Release, s.carrier, pay as i128)))
                        } else {
                            Ok((None, recorded(paid)))
                        }
                    }
                },
            }
        }
    }
}


/// The sum of the percentages of a milestone schedule.
pub open spec fn percentage_sum(ms: Seq<(String, u32)>) -> int
    decreases ms.len(),
{
    if ms.len() == 0 {
        0
    } else {
        percentage_sum(ms.drop_last()) + ms.last().1
    }
}

/// A schedule is either empty, or shares out the whole escrow: every milestone
/// pays between 1 and 100 percent and the percentages add up to 100.
pub open spec fn milestones_valid(ms: Seq<(String, u32)>) -> bool {
    ms.len() == 0 || ((forall|i: int| 0 <= i < ms.len() ==> 1 <= #[trigger] ms[i].1 <= 100) && percentage_sum(ms) == 100)
}

/// The unpaid milestones of shipment `id` made from the schedule `ms`.
pub open spec fn new_milestones(id: u64, ms: Seq<(String, u32)>) -> Seq<Milestone> {
    ms.map_values(|p: (String, u32)| Milestone { shipment_id: id, checkpoint: p.0, percentage: p.1, paid: false })
}

/// Milestone `m` belongs to shipment `id` and is named `checkpoint`.
pub open spec fn milestone_matches(m: Milestone, id: u64, checkpoint: Seq<char>) -> bool {
    m.shipment_id == id && m.checkpoint@ == checkpoint
}

/// The position of the first milestone of shipment `id` named `checkpoint`.
pub open spec fn first_milestone(ms: Seq<Milestone>, id: u64, checkpoint: Seq<char>) -> Option<int> {
    if exists|j: int| 0 <= j < ms.len() && milestone_matches(ms[j], id, checkpoint) && forall|k: int| 0 <= k < j ==> !milestone_matches(#[trigger] ms[k], id, checkpoint) {
        Some(choose|j: int| 0 <= j < ms.len() && milestone_matches(ms[j], id, checkpoint) && forall|k: int| 0 <= k < j ==> !milestone_matches(#[trigger] ms[k], id, checkpoint))
    } else {
        None
    }
}

/// The payment a milestone of `percentage` percent releases: its share of the
/// deposit, rounded down, but never more than the escrow left.
pub open spec fn milestone_payment(total: int, percentage: int, escrow: int) -> int {
    let share = total * percentage / 100;
    if share <= escrow { share } else { escrow }
}

/// The transfer function was called as `plan` asks, on the token contract
/// `before` is bound to, and `result` and the state change from `before` to
/// `after` follow: failure of the plan changes nothing; a plan without token
/// movement applies at once; a token movement that goes through applies the
/// plan, one that fails changes nothing.
pub open spec fn follows_plan<F: FnOnce(u64, u64, u64, i128) -> bool>(
    transfer: F,
    result: Result<(), OrbitHaulError>,
    before: ShipmentLedger,
    after: ShipmentLedger,
    plan: Result<(Option<Payout>, ShipmentLedger), OrbitHaulError>,
) -> bool {
    match plan {
        Err(e) => result == Err::<(), OrbitHaulError>(e) && after == before,
        Ok((None, next)) => result is Ok && after == next,
        Ok((Some(p), next)) => {
            ||| result is Ok && after == next && p.token == before.token
                && call_ensures(transfer, (before.token, p.from, p.to, p.amount), true)
            ||| result == Err::<(), OrbitHaulError>(OrbitHaulError::TokenTransferFailed) && after == before
                && p.token == before.token
                && call_ensures(transfer, (before.token, p.from, p.to, p.amount), false)
        },
    }
}

/// A plain state change: on success the new state, on failure the error and no change.
pub open spec fn follows_outcome(result: Result<(), OrbitHaulError>, before: ShipmentLedger, after: ShipmentLedger, outcome: Result<ShipmentLedger, OrbitHaulError>) -> bool {
    match outcome {
        Ok(next) => result is Ok && after == next,
        Err(e) => result == Err::<(), OrbitHaulError>(e) && after == before,
    }
}

/// One instance of the shipment contract.
pub struct OrbitHaulShipment {
    initialized: bool,
    admin: u64,
    token: u64,
    address: u64,
    companies: Vec<u64>,
    suspended: Vec<u64>,
    carriers: Vec<u64>,
    whitelist: Vec<(u64, u64)>,
    shipments: Vec<Shipment>,
    milestones: Vec<Milestone>,
    settlements: Vec<Settlement>,
    events: Vec<ShipmentEvent>,
    council: AdminCouncil,
}

impl View for OrbitHaulShipment {
    type V = ShipmentLedger;

    closed spec fn view(&self) -> ShipmentLedger {
        ShipmentLedger {
            initialized: self.initialized,
            admin: self.admin,
            token: self.token,
            address: self.address,
            companies: self.companies@.to_set(),
            suspended: self.suspended@.to_set(),
            carriers: self.carriers@.to_set(),
            whitelist: self.whitelist@.to_set(),
            shipments: self.shipments@,
            milestones: self.milestones@,
            settlements: self.settlements@,
            events: self.events@,
            council: self.council@,
        }
    }
}


pub proof fn lemma_percentage_sum_prefix(ms: Seq<(String, u32)>, k: int)
    requires
        0 <= k <= ms.len(),
    ensures
        percentage_sum(ms.take(k)) <= percentage_sum(ms),
    decreases ms.len(),
{
    if k == ms.len() {
        assert(ms.take(k) =~= ms);
    } else {
        lemma_percentage_sum_prefix(ms.drop_last(), k);
        assert(ms.take(k) =~= ms.drop_last().take(k));
    }
}

proof fn lemma_share_split(total: int, percentage: int)
    requires
        total >= 0,
        0 <= percentage <= 100,
    ensures
        total * percentage / 100 == (total / 100) * percentage + (total % 100) * percentage / 100,
        (total / 100) * percentage <= total,
        (total % 100) * percentage <= 10000,
        0 <= total * percentage / 100 <= total,
{
    let q = total / 100;
    let r = total % 100;
    assert(total == 100 * q + r && 0 <= r < 100) by (nonlinear_arith)
        requires
            q == total / 100,
            r == total % 100,
            total >= 0,
    ;
    assert(total * percentage == 100 * (q * percentage) + r * percentage) by (nonlinear_arith)
        requires
            total == 100 * q + r,
    ;
    assert((100 * (q * percentage) + r * percentage) / 100 == q * percentage + (r * percentage) / 100) by (nonlinear_arith)
        requires
            r >= 0,
            percentage >= 0,
            q >= 0,
    ;
    assert(q * percentage <= q * 100) by (nonlinear_arith)
        requires
            q >= 0,
            percentage <= 100,
    ;
    assert(r * percentage <= 100 * 100) by (nonlinear_arith)
        requires
            0 <= r < 100,
            0 <= percentage <= 100,
    ;
    assert(0 <= total * percentage / 100 <= total) by (nonlinear_arith)
        requires
            total >= 0,
            0 <= percentage <= 100,
    ;
}

fn schedule_is_valid(ms: &Vec<(String, u32)>) -> (valid: bool)
    ensures
        valid == milestones_valid(ms@),
{
    if ms.len() == 0 {
        return true;
    }
    let mut sum: u64 = 0;
    let mut i: usize = 0;
    while i < ms.len()
        invariant
            i <= ms@.len(),
            sum == percentage_sum(ms@.take(i as int)),
            sum <= 100,
            forall|j: int| 0 <= j < i ==> 1 <= #[trigger] ms@[j].1 <= 100,
        decreases ms@.len() - i,
    {
        let p = ms[i].1;
        if p < 1 || p > 100 {
            return false;
        }
        proof {
            assert(ms@.take(i + 1).drop_last() =~= ms@.take(i as int));
        }
        sum = sum + p as u64;
        i = i + 1;
        if sum > 100 {
            proof {
                lemma_percentage_sum_prefix(ms@, i as int);
            }
            return false;
        }
    }
    proof {
        assert(ms@.take(ms@.len() as int) =~= ms@);
    }
    sum == 100
}

fn contains_account(v: &Vec<u64>, a: u64) -> (found: bool)
    ensures
        found == v@.to_set().contains(a),
{
    let mut i: usize = 0;
    while i < v.len()
        invariant
            i <= v@.len(),
            forall|j: int| 0 <= j < i ==> v@[j] != a,
        decreases v@.len() - i,
    {
        if v[i] == a {
            assert(v@[i as int] == a);
            return true;
        }
        i = i + 1;
    }
    false
}

fn contains_pair(v: &Vec<(u64, u64)>, a: u64, b: u64) -> (found: bool)
    ensures
        found == v@.to_set().contains((a, b)),
{
    let mut i: usize = 0;
    while i < v.len()
        invariant
            i <= v@.len(),
            forall|j: int| 0 <= j < i ==> v@[j] != (a, b),
        decreases v@.len() - i,
    {
        let p = v[i];
        if p.0 == a && p.1 == b {
            assert(v@[i as int] == (a, b));
            return true;
        }
        i = i + 1;
    }
    false
}

impl OrbitHaulShipment {
    /// The representation invariant: the abstract state is consistent and an
    /// uninitialized contract holds nothing.
    pub closed spec fn wf(&self) -> bool {
        &&& self@.consistent()
        &&& self.council.wf()
        &&& !self.initialized ==> {
            &&& self.companies@.len() == 0
            &&& self.suspended@.len() == 0
            &&& self.carriers@.len() == 0
            &&& self.whitelist@.len() == 0
            &&& self.shipments@.len() == 0
            &&& self.milestones@.len() == 0
            &&& self.settlements@.len() == 0
        }
    }

    /// Every well-formed contract holds exactly the net of its settlements in
    /// escrow, and numbers the events of each shipment in increasing order.
    pub proof fn lemma_wf_consistent(&self)
        requires
            self.wf(),
        ensures
            self@.consistent(),
    {
    }

    /// A freshly deployed contract whose own account is `address`.
    pub fn new(address: u64) -> (contract: Self)
        ensures
            contract.wf(),
            !contract@.initialized,
            contract@.address == address,
            contract@.companies == Set::<u64>::empty(),
            contract@.suspended == Set::<u64>::empty(),
            contract@.carriers == Set::<u64>::empty(),
            contract@.whitelist == Set::<(u64, u64)>::empty(),
            contract@.shipments == Seq::<Shipment>::empty(),
            contract@.milestones == Seq::<Milestone>::empty(),
            contract@.settlements == Seq::<Settlement>::empty(),
            contract@.events == Seq::<ShipmentEvent>::empty(),
            !contract@.council.active(),
            contract@.council.proposals.len() == 0,
    {
        let c = OrbitHaulShipment {
            initialized: false,
            admin: 0,
            token: 0,
            address,
            companies: Vec::new(),
            suspended: Vec::new(),
            carriers: Vec::new(),
            whitelist: Vec::new(),
            shipments: Vec::new(),
            milestones: Vec::new(),
            settlements: Vec::new(),
            events: Vec::new(),
            council: AdminCouncil::new(),
        };
        proof {
            assert(c.companies@.to_set() =~= Set::<u64>::empty());
            assert(c.suspended@.to_set() =~= Set::<u64>::empty());
            assert(c.carriers@.to_set() =~= Set::<u64>::empty());
            assert(c.whitelist@.to_set() =~= Set::<(u64, u64)>::empty());
        }
        c
    }

    /// Binds the contract to its admin and to the token its escrow is held in.
    pub fn initialize(&mut self, admin: u64, token: u64) -> (result: Result<(), OrbitHaulError>)
        requires
            old(self).wf(),
        ensures
            final(self).wf(),
            old(self)@.initialized ==> result == Err::<(), OrbitHaulError>(OrbitHaulError::AlreadyInitialized) && final(self)@ == old(self)@,
            !old(self)@.initialized ==> result is Ok && final(self)@ == (ShipmentLedger { initialized: true, admin, token, ..old(self)@ }),
    {
        if self.initialized {
            return Err(OrbitHaulError::AlreadyInitialized);
        }
        self.initialized = true;
        self.admin = admin;
        self.token = token;
        Ok(())
    }

    fn check_admin(&self, caller: u64) -> (result: Result<(), OrbitHaulError>)
        ensures
            result == (if !self@.initialized {
                Err(OrbitHaulError::NotInitialized)
            } else if caller != self@.admin {
                Err(OrbitHaulError::Unauthorized)
            } else {
                Ok::<(), OrbitHaulError>(())
            }),
    {
        if !self.initialized {
            Err(OrbitHaulError::NotInitialized)
        } else if caller != self.admin {
            Err(OrbitHaulError::Unauthorized)
        } else {
            Ok(())
        }
    }

    fn emit_notice(&mut self, ev: ShipmentEvent)
        requires
            old(self).wf(),
            ev.numbering() is None,
        ensures
            final(self).wf(),
            final(self)@ == old(self)@.emit_notice(ev),
    {
        proof {
            lemma_numbered_notice(self.events@, self.shipments@, ev);
        }
        self.events.push(ev);
        assert(self@.milestones == old(self)@.milestones);
    }

    fn emit_numbered(&mut self, id: u64, ev: ShipmentEvent)
        requires
            old(self).wf(),
            old(self)@.has_shipment(id),
            !old(self)@.lacks_room(id, 1),
            ev.numbering() == Some((id, old(self)@.next_counter(id))),
        ensures
            final(self).wf(),
            final(self)@ == old(self)@.emit_numbered(id, ev),
    {
        proof {
            assert(self.shipments.len() == self.shipments@.len());
        }
        let idx = (id - 1) as usize;
        let s = self.shipments[idx];
        let t = Shipment { event_count: s.event_count + 1, ..s };
        proof {
            lemma_escrow_sum_update(self.shipments@, idx as int, t);
            lemma_numbered_emit(self.events@, self.shipments@, id, ev);
        }
        self.shipments.set(idx, t);
        self.events.push(ev);
        assert(self@.milestones == old(self)@.milestones);
    }

    fn emit_payout(&mut self, id: u64, operation: SettlementOperation, to: u64, amount: i128)
        requires
            old(self).wf(),
            old(self)@.has_shipment(id),
            amount > 0 ==> !old(self)@.lacks_room(id, 1),
        ensures
            final(self).wf(),
            final(self)@ == old(self)@.emit_payout(id, operation, to, amount),
    {
        if amount > 0 {
            proof {
                assert(self.shipments.len() == self.shipments@.len());
            }
            let counter = self.shipments[(id - 1) as usize].event_count + 1;
            let token = self.token;
            match operation {
                SettlementOperation::Refund => self.emit_numbered(id, ShipmentEvent::EscrowRefunded { shipment_id: id, to, amount, token, counter }),
                _ => self.emit_numbered(id, ShipmentEvent::EscrowReleased { shipment_id: id, to, amount, token, counter }),
            }
        }
    }

    /// Hands out the events published since the last call, oldest first.
    pub fn take_events(&mut self) -> (events: Vec<ShipmentEvent>)
        requires
            old(self).wf(),
        ensures
            final(self).wf(),
            events@ == old(self)@.events,
            final(self)@ == (ShipmentLedger { events: Seq::<ShipmentEvent>::empty(), ..old(self)@ }),
    {
        let mut events: Vec<ShipmentEvent> = Vec::new();
        std::mem::swap(&mut events, &mut self.events);
        assert(self@.milestones == old(self)@.milestones);
        events
    }

    /// The events published since they were last handed out, oldest first.
    pub fn events(&self) -> (events: &Vec<ShipmentEvent>)
        ensures
            events@ == self@.events,
    {
        &self.events
    }

    /// Registers `company`.  Only the admin may.
    pub fn add_company(&mut self, caller: u64, company: u64, now: u64) -> (result: Result<(), OrbitHaulError>)
        requires
            old(self).wf(),
        ensures
            final(self).wf(),
            !old(self)@.initialized ==> result == Err::<(), OrbitHaulError>(OrbitHaulError::NotInitialized),
            old(self)@.initialized && caller != old(self)@.admin ==> result == Err::<(), OrbitHaulError>(OrbitHaulError::Unauthorized),
            result is Ok <==> old(self)@.initialized && caller == old(self)@.admin,
            result is Ok ==> final(self)@ == (ShipmentLedger { companies: old(self)@.companies.insert(company), ..old(self)@ }).emit_notice(
                ShipmentEvent::RoleChanged { action: RoleAction::Assigned, admin: caller, target: company, role: Role::Company, timestamp: now }),
            result is Err ==> final(self)@ == old(self)@,
    {
        self.check_admin(caller)?;
        self.companies.push(company);
        proof {
            lemma_push_to_set(old(self).companies@, company);
        }
        self.emit_notice(ShipmentEvent::RoleChanged { action: RoleAction::Assigned, admin: caller, target: company, role: Role::Company, timestamp: now });
        Ok(())
    }

    /// Registers `carrier`.  Only the admin may.
    pub fn add_carrier(&mut self, caller: u64, carrier: u64, now: u64) -> (result: Result<(), OrbitHaulError>)
        requires
            old(self).wf(),
        ensures
            final(self).wf(),
            !old(self)@.initialized ==> result == Err::<(), OrbitHaulError>(OrbitHaulError::NotInitialized),
            old(self)@.initialized && caller != old(self)@.admin ==> result == Err::<(), OrbitHaulError>(OrbitHaulError::Unauthorized),
            result is Ok <==> old(self)@.initialized && caller == old(self)@.admin,
            result is Ok ==> final(self)@ == (ShipmentLedger { carriers: old(self)@.carriers.insert(carrier), ..old(self)@ }).emit_notice(
                ShipmentEvent::RoleChanged { action: RoleAction::Assigned, admin: caller, target: carrier, role: Role::Carrier, timestamp: now }),
            result is Err ==> final(self)@ == old(self)@,
    {
        self.check_admin(caller)?;
        self.carriers.push(carrier);
        proof {
            lemma_push_to_set(old(self).carriers@, carrier);
        }
        self.emit_notice(ShipmentEvent::RoleChanged { action: RoleAction::Assigned, admin: caller, target: carrier, role: Role::Carrier, timestamp: now });
        Ok(())
    }

    /// Suspends `company`: it can no longer create shipments or whitelist
    /// carriers.  Only the admin may, and only for a registered company.
    pub fn suspend_company(&mut self, caller: u64, company: u64, now: u64) -> (result: Result<(), OrbitHaulError>)
        requires
            old(self).wf(),
        ensures
            final(self).wf(),
            !old(self)@.initialized ==> result == Err::<(), OrbitHaulError>(OrbitHaulError::NotInitialized),
            old(self)@.initialized && caller != old(self)@.admin ==> result == Err::<(), OrbitHaulError>(OrbitHaulError::Unauthorized),
            old(self)@.initialized && caller == old(self)@.admin && !old(self)@.companies.contains(company)
                ==> result == Err::<(), OrbitHaulError>(OrbitHaulError::RoleNotFound),
            result is Ok <==> old(self)@.initialized && caller == old(self)@.admin && old(self)@.companies.contains(company),
            result is Ok ==> final(self)@ == (ShipmentLedger { suspended: old(self)@.suspended.insert(company), ..old(self)@ }).emit_notice(
                ShipmentEvent::RoleChanged { action: RoleAction::Suspended, admin: caller, target: company, role: Role::Company, timestamp: now }),
            result is Err ==> final(self)@ == old(self)@,
    {
        self.check_admin(caller)?;
        if !contains_account(&self.companies, company) {
            return Err(OrbitHaulError::RoleNotFound);
        }
        self.suspended.push(company);
        proof {
            lemma_push_to_set(old(self).suspended@, company);
        }
        self.emit_notice(ShipmentEvent::RoleChanged { action: RoleAction::Suspended, admin: caller, target: company, role: Role::Company, timestamp: now });
        Ok(())
    }

    /// `caller`, an active company, allows the registered `carrier` to carry
    /// its shipments.
    pub fn add_carrier_to_whitelist(&mut self, caller: u64, carrier: u64) -> (result: Result<(), OrbitHaulError>)
        requires
            old(self).wf(),
        ensures
            final(self).wf(),
            !old(self)@.initialized ==> result == Err::<(), OrbitHaulError>(OrbitHaulError::NotInitialized),
            old(self)@.initialized && !old(self)@.is_active_company(caller) ==> result == Err::<(), OrbitHaulError>(OrbitHaulError::Unauthorized),
            old(self)@.initialized && old(self)@.is_active_company(caller) && !old(self)@.carriers.contains(carrier)
                ==> result == Err::<(), OrbitHaulError>(OrbitHaulError::RoleNotFound),
            result is Ok <==> old(self)@.initialized && old(self)@.is_active_company(caller) && old(self)@.carriers.contains(carrier),
            result is Ok ==> final(self)@ == (ShipmentLedger { whitelist: old(self)@.whitelist.insert((caller, carrier)), ..old(self)@ }),
            result is Err ==> final(self)@ == old(self)@,
    {
        if !self.initialized {
            return Err(OrbitHaulError::NotInitialized);
        }
        if !contains_account(&self.companies, caller) || contains_account(&self.suspended, caller) {
            return Err(OrbitHaulError::Unauthorized);
        }
        if !contains_account(&self.carriers, carrier) {
            return Err(OrbitHaulError::RoleNotFound);
        }
        self.whitelist.push((caller, carrier));
        proof {
            lemma_push_to_set(old(self).whitelist@, (caller, carrier));
        }
        Ok(())
    }

    fn locate(&self, id: u64) -> (result: Result<usize, OrbitHaulError>)
        requires
            self.wf(),
        ensures
            match self@.shipment_guard(id) {
                Some(e) => result == Err::<usize, OrbitHaulError>(e),
                None => result matches Ok(i) && i == id - 1 && i < self@.shipments.len(),
            },
    {
        if !self.initialized {
            return Err(OrbitHaulError::NotInitialized);
        }
        if id == 0 || id > self.shipments.len() as u64 {
            return Err(OrbitHaulError::ShipmentNotFound);
        }
        Ok((id - 1) as usize)
    }

    fn commit(&mut self, id: u64, s: Shipment, st: Option<Settlement>)
        requires
            old(self).wf(),
            old(self)@.has_shipment(id),
            s.id == id,
            s.event_count == old(self)@.shipment(id).event_count,
            0 <= s.escrow_amount <= s.total_escrow,
            match st {
                None => s.escrow_amount == old(self)@.shipment(id).escrow_amount,
                Some(x) => x.amount > 0 && s.escrow_amount == old(self)@.shipment(id).escrow_amount + signed_amount(x),
            },
        ensures
            final(self).wf(),
            final(self)@ == old(self)@.with_shipment(id, s).with_settlement(st),
    {
        proof {
            assert(self.shipments.len() == self.shipments@.len());
        }
        let idx = (id - 1) as usize;
        proof {
            lemma_escrow_sum_update(self.shipments@, idx as int, s);
            lemma_numbered_same_counts(self.events@, self.shipments@, self.shipments@.update(idx as int, s));
        }
        self.shipments.set(idx, s);
        match st {
            Some(x) => {
                proof {
                    lemma_settled_sum_push(self.settlements@, x);
                }
                self.settlements.push(x);
            },
            None => {},
        }
        assert(self@.milestones == old(self)@.milestones);
    }

    /// Creates a shipment from the active company `sender` to `receiver`,
    /// carried by `carrier`, which `sender` must have whitelisted, due after
    /// `now` at `deadline`, paid out along the milestone schedule `milestones`.
    /// Returns its id: one more than the number of shipments before.
    pub fn create_shipment(
        &mut self,
        sender: u64,
        receiver: u64,
        carrier: u64,
        data_hash: [u8; 32],
        milestones: &Vec<(String, u32)>,
        deadline: u64,
        now: u64,
    ) -> (result: Result<u64, OrbitHaulError>)
        requires
            old(self).wf(),
        ensures
            final(self).wf(),
            match old(self)@.create_outcome(sender, receiver, carrier, data_hash, milestones@, deadline, now) {
                Ok((id, next)) => result == Ok::<u64, OrbitHaulError>(id) && final(self)@ == next,
                Err(e) => result == Err::<u64, OrbitHaulError>(e) && final(self)@ == old(self)@,
            },
    {
        if !self.initialized {
            return Err(OrbitHaulError::NotInitialized);
        }
        if !self.is_active_company(sender) {
            return Err(OrbitHaulError::Unauthorized);
        }
        if !contains_pair(&self.whitelist, sender, carrier) {
            return Err(OrbitHaulError::CarrierNotWhitelisted);
        }
        if deadline <= now {
            return Err(OrbitHaulError::InvalidDeadline);
        }
        if !schedule_is_valid(milestones) {
            return Err(OrbitHaulError::InvalidMilestones);
        }
        if self.shipments.len() as u64 >= u64::MAX - 1 {
            return Err(OrbitHaulError::CounterOverflow);
        }
        let id = self.shipments.len() as u64 + 1;
        let mut fresh: Vec<Milestone> = Vec::new();
        let mut i: usize = 0;
        while i < milestones.len()
            invariant
                i <= milestones@.len(),
                fresh@ == new_milestones(id, milestones@.take(i as int)),
                milestones_valid(milestones@),
            decreases milestones@.len() - i,
        {
            let entry = &milestones[i];
            let m = Milestone { shipment_id: id, checkpoint: entry.0.clone(), percentage: entry.1, paid: false };
            fresh.push(m);
            proof {
                assert(fresh@ =~= new_milestones(id, milestones@.take(i + 1)));
            }
            i = i + 1;
        }
        proof {
            assert(milestones@.take(milestones@.len() as int) =~= milestones@);
        }
        let shipment = Shipment {
            id,
            sender,
            receiver,
            carrier,
            data_hash,
            deadline,
            status: ShipmentStatus::Created,
            escrow_amount: 0,
            total_escrow: 0,
            event_count: 0,
        };
        proof {
            lemma_escrow_sum_push(self.shipments@, shipment);
            lemma_numbered_same_counts(self.events@, self.shipments@, self.shipments@.push(shipment));
        }
        self.shipments.push(shipment);
        self.milestones.append(&mut fresh);
        let token = self.token;
        self.emit_numbered(id, ShipmentEvent::ShipmentCreated { shipment_id: id, sender, receiver, token, data_hash, counter: 1 });
        Ok(id)
    }

    /// The carrier reports that shipment `id` is under way, with the data hash
    /// of its report.  Only `Created` shipments can go `InTransit`.
    pub fn update_status(&mut self, caller: u64, id: u64, status: ShipmentStatus, data_hash: [u8; 32]) -> (result: Result<(), OrbitHaulError>)
        requires
            old(self).wf(),
        ensures
            final(self).wf(),
            follows_outcome(result, old(self)@, final(self)@, old(self)@.update_status_outcome(caller, id, status, data_hash)),
    {
        let idx = self.locate(id)?;
        let s = self.shipments[idx];
        if caller != s.carrier {
            return Err(OrbitHaulError::Unauthorized);
        }
        if !(s.status == ShipmentStatus::Created && status == ShipmentStatus::InTransit) {
            return Err(OrbitHaulError::InvalidStatus);
        }
        if s.event_count == u32::MAX {
            return Err(OrbitHaulError::CounterOverflow);
        }
        self.commit(id, Shipment { status, data_hash, ..s }, None);
        let token = self.token;
        self.emit_numbered(id, ShipmentEvent::StatusUpdated {
            shipment_id: id, old_status: s.status, new_status: status, token, data_hash, counter: s.event_count + 1 });
        Ok(())
    }

    /// A party of shipment `id` disputes it, for the reason whose hash is
    /// `reason_hash`: the shipment and its escrow stay frozen until the admin
    /// resolves the dispute.
    pub fn raise_dispute(&mut self, caller: u64, id: u64, reason_hash: [u8; 32], now: u64) -> (result: Result<(), OrbitHaulError>)
        requires
            old(self).wf(),
        ensures
            final(self).wf(),
            follows_outcome(result, old(self)@, final(self)@, old(self)@.dispute_outcome(caller, id, reason_hash, now)),
    {
        let idx = self.locate(id)?;
        let s = self.shipments[idx];
        if caller != s.sender && caller != s.receiver && caller != s.carrier {
            return Err(OrbitHaulError::Unauthorized);
        }
        if s.status != ShipmentStatus::Created && s.status != ShipmentStatus::InTransit {
            return Err(OrbitHaulError::InvalidStatus);
        }
        self.commit(id, Shipment { status: ShipmentStatus::Disputed, ..s }, None);
        self.emit_notice(ShipmentEvent::DisputeRaised { shipment_id: id, raised_by: caller, reason_hash });
        self.emit_notice(ShipmentEvent::EscrowFrozen { shipment_id: id, reason_hash, caller, timestamp: now });
        Ok(())
    }

    /// The company cancels shipment `id` before it is under way, for the
    /// reason whose hash is `reason_hash`; any escrow must have been refunded
    /// first.
    pub fn cancel_shipment(&mut self, caller: u64, id: u64, reason_hash: [u8; 32]) -> (result: Result<(), OrbitHaulError>)
        requires
            old(self).wf(),
        ensures
            final(self).wf(),
            follows_outcome(result, old(self)@, final(self)@, old(self)@.cancel_outcome(caller, id, reason_hash)),
    {
        let idx = self.locate(id)?;
        let s = self.shipments[idx];
        if caller != s.sender {
            return Err(OrbitHaulError::Unauthorized);
        }
        if s.status != ShipmentStatus::Created {
            return Err(OrbitHaulError::InvalidStatus);
        }
        if s.escrow_amount != 0 {
            return Err(OrbitHaulError::EscrowLocked);
        }
        if s.event_count == u32::MAX {
            return Err(OrbitHaulError::CounterOverflow);
        }
        self.commit(id, Shipment { status: ShipmentStatus::Cancelled, ..s }, None);
        self.emit_numbered(id, ShipmentEvent::ShipmentCancelled { shipment_id: id, caller, reason_hash, counter: s.event_count + 1 });
        Ok(())
    }

    /// The company locks `amount` in the escrow of shipment `id`: `transfer`
    /// moves the tokens from the company to this contract first.
    pub fn deposit_escrow<F: FnOnce(u64, u64, u64, i128) -> bool>(&mut self, caller: u64, id: u64, amount: i128, transfer: F) -> (result: Result<(), OrbitHaulError>)
        requires
            old(self).wf(),
            forall|t: u64, a: u64, b: u64, c: i128| call_requires(transfer, (t, a, b, c)),
        ensures
            final(self).wf(),
            follows_plan(transfer, result, old(self)@, final(self)@, old(self)@.deposit_plan(caller, id, amount)),
    {
        let idx = self.locate(id)?;
        let s = self.shipments[idx];
        if caller != s.sender {
            return Err(OrbitHaulError::Unauthorized);
        }
        if s.status != ShipmentStatus::Created {
            return Err(OrbitHaulError::InvalidStatus);
        }
        if s.total_escrow != 0 {
            return Err(OrbitHaulError::EscrowAlreadyDeposited);
        }
        if amount <= 0 {
            return Err(OrbitHaulError::InvalidAmount);
        }
        if s.event_count == u32::MAX {
            return Err(OrbitHaulError::CounterOverflow);
        }
        if !transfer(self.token, caller, self.address, amount) {
            return Err(OrbitHaulError::TokenTransferFailed);
        }
        let st = Settlement { shipment_id: id, operation: SettlementOperation::Deposit, state: SettlementState::Completed, amount };
        self.commit(id, Shipment { escrow_amount: amount, total_escrow: amount, ..s }, Some(st));
        let token = self.token;
        self.emit_numbered(id, ShipmentEvent::EscrowDeposited { shipment_id: id, from: caller, amount, token, counter: s.event_count + 1 });
        Ok(())
    }

    fn pay_out_all<F: FnOnce(u64, u64, u64, i128) -> bool>(
        &mut self,
        id: u64,
        to: u64,
        status: ShipmentStatus,
        operation: SettlementOperation,
        transfer: F,
    ) -> (result: Result<(), OrbitHaulError>)
        requires
            old(self).wf(),
            old(self)@.has_shipment(id),
            operation != SettlementOperation::Deposit,
            forall|t: u64, a: u64, b: u64, c: i128| call_requires(transfer, (t, a, b, c)),
        ensures
            final(self).wf(),
            follows_plan(transfer, result, old(self)@, final(self)@, Ok(old(self)@.pay_out_all(id, to, status, operation))),
    {
        proof {
            assert(self.shipments.len() == self.shipments@.len());
        }
        let s = self.shipments[(id - 1) as usize];
        let e = s.escrow_amount;
        if e > 0 {
            if !transfer(self.token, self.address, to, e) {
                return Err(OrbitHaulError::TokenTransferFailed);
            }
            let st = Settlement { shipment_id: id, operation, state: SettlementState::Completed, amount: e };
            self.commit(id, Shipment { status, escrow_amount: 0, ..s }, Some(st));
        } else {
            self.commit(id, Shipment { status, escrow_amount: 0, ..s }, None);
        }
        Ok(())
    }

    /// The receiver confirms delivery of shipment `id` at time `now`, with the
    /// hash of its confirmation: the escrow left is paid to the carrier by
    /// `transfer`, and the shipment is delivered.
    pub fn confirm_delivery<F: FnOnce(u64, u64, u64, i128) -> bool>(&mut self, caller: u64, id: u64, confirmation_hash: [u8; 32], now: u64, transfer: F) -> (result: Result<(), OrbitHaulError>)
        requires
            old(self).wf(),
            forall|t: u64, a: u64, b: u64, c: i128| call_requires(transfer, (t, a, b, c)),
        ensures
            final(self).wf(),
            follows_plan(transfer, result, old(self)@, final(self)@, old(self)@.confirm_delivery_plan(caller, id, confirmation_hash, now)),
    {
        let idx = self.locate(id)?;
        let s = self.shipments[idx];
        if caller != s.receiver {
            return Err(OrbitHaulError::Unauthorized);
        }
        if s.status != ShipmentStatus::InTransit {
            return Err(OrbitHaulError::InvalidStatus);
        }
        if s.event_count > u32::MAX - 3 {
            return Err(OrbitHaulError::CounterOverflow);
        }
        self.pay_out_all(id, s.carrier, ShipmentStatus::Delivered, SettlementOperation::Release, transfer)?;
        let token = self.token;
        self.emit_numbered(id, ShipmentEvent::StatusUpdated {
            shipment_id: id, old_status: ShipmentStatus::InTransit, new_status: ShipmentStatus::Delivered,
            token, data_hash: confirmation_hash, counter: s.event_count + 1 });
        self.emit_payout(id, SettlementOperation::Release, s.carrier, s.escrow_amount);
        let counter = self.shipments[idx].event_count + 1;
        self.emit_numbered(id, ShipmentEvent::DeliverySuccess { carrier: s.carrier, shipment_id: id, timestamp: now, counter });
        Ok(())
    }

    /// The company takes back the escrow of shipment `id` before it is under
    /// way: `transfer` returns the tokens, and the shipment is cancelled.
    pub fn refund_escrow<F: FnOnce(u64, u64, u64, i128) -> bool>(&mut self, caller: u64, id: u64, transfer: F) -> (result: Result<(), OrbitHaulError>)
        requires
            old(self).wf(),
            forall|t: u64, a: u64, b: u64, c: i128| call_requires(transfer, (t, a, b, c)),
        ensures
            final(self).wf(),
            follows_plan(transfer, result, old(self)@, final(self)@, old(self)@.refund_plan(caller, id)),
    {
        let idx = self.locate(id)?;
        let s = self.shipments[idx];
        if caller != s.sender {
            return Err(OrbitHaulError::Unauthorized);
        }
        if s.status != ShipmentStatus::Created {
            return Err(OrbitHaulError::InvalidStatus);
        }
        if s.escrow_amount == 0 {
            return Err(OrbitHaulError::NoEscrow);
        }
        if s.event_count == u32::MAX {
            return Err(OrbitHaulError::CounterOverflow);
        }
        self.pay_out_all(id, s.sender, ShipmentStatus::Cancelled, SettlementOperation::Refund, transfer)?;
        self.emit_payout(id, SettlementOperation::Refund, s.sender, s.escrow_amount);
        Ok(())
    }

    /// The admin resolves the dispute over shipment `id`, for the reason whose
    /// hash is `reason_hash`: the escrow goes to the company or to the carrier
    /// as `resolution` says.
    pub fn resolve_dispute<F: FnOnce(u64, u64, u64, i128) -> bool>(&mut self, caller: u64, id: u64, resolution: DisputeResolution, reason_hash: [u8; 32], transfer: F) -> (result: Result<(), OrbitHaulError>)
        requires
            old(self).wf(),
            forall|t: u64, a: u64, b: u64, c: i128| call_requires(transfer, (t, a, b, c)),
        ensures
            final(self).wf(),
            follows_plan(transfer, result, old(self)@, final(self)@, old(self)@.resolve_plan(caller, id, resolution, reason_hash)),
    {
        if !self.initialized {
            return Err(OrbitHaulError::NotInitialized);
        }
        if caller != self.admin {
            return Err(OrbitHaulError::Unauthorized);
        }
        let idx = self.locate(id)?;
        let s = self.shipments[idx];
        if s.status != ShipmentStatus::Disputed {
            return Err(OrbitHaulError::InvalidStatus);
        }
        if s.event_count > u32::MAX - 2 {
            return Err(OrbitHaulError::CounterOverflow);
        }
        let (to, status, operation) = match resolution {
            DisputeResolution::RefundToCompany => (s.sender, ShipmentStatus::Cancelled, SettlementOperation::Refund),
            DisputeResolution::ReleaseToCarrier => (s.carrier, ShipmentStatus::Delivered, SettlementOperation::Release),
        };
        self.pay_out_all(id, to, status, operation, transfer)?;
        self.emit_numbered(id, ShipmentEvent::DisputeResolved { shipment_id: id, resolution, reason_hash, admin: caller, counter: s.event_count + 1 });
        self.emit_payout(id, operation, to, s.escrow_amount);
        Ok(())
    }

    fn find_milestone(&self, id: u64, checkpoint: &String) -> (found: Option<usize>)
        ensures
            match first_milestone(self@.milestones, id, checkpoint@) {
                None => found is None,
                Some(j) => found matches Some(i) && i == j && i < self@.milestones.len(),
            },
    {
        let mut i: usize = 0;
        while i < self.milestones.len()
            invariant
                i <= self.milestones@.len(),
                forall|k: int| 0 <= k < i ==> !milestone_matches(#[trigger] self.milestones@[k], id, checkpoint@),
            decreases self.milestones@.len() - i,
        {
            if self.milestones[i].shipment_id == id && self.milestones[i].checkpoint == *checkpoint {
                proof {
                    let ms = self@.milestones;
                    assert(milestone_matches(ms[i as int], id, checkpoint@));
                    let j = choose|j: int| 0 <= j < ms.len() && milestone_matches(ms[j], id, checkpoint@) && forall|k: int| 0 <= k < j ==> !milestone_matches(#[trigger] ms[k], id, checkpoint@);
                    if j < i {
                        assert(!milestone_matches(ms[j], id, checkpoint@));
                    }
                    if j > i {
                        assert(!milestone_matches(ms[i as int], id, checkpoint@));
                    }
                }
                return Some(i);
            }
            i = i + 1;
        }
        None
    }

    /// The carrier reports reaching `checkpoint` on shipment `id`, with the
    /// hash of its report.  The checkpoint is published; the first milestone
    /// of that name, if unpaid, releases its share of the deposit (capped by
    /// the escrow left) to the carrier through `transfer`, and is marked paid.
    pub fn record_milestone<F: FnOnce(u64, u64, u64, i128) -> bool>(&mut self, caller: u64, id: u64, checkpoint: &String, data_hash: [u8; 32], transfer: F) -> (result: Result<(), OrbitHaulError>)
        requires
            old(self).wf(),
            forall|t: u64, a: u64, b: u64, c: i128| call_requires(transfer, (t, a, b, c)),
        ensures
            final(self).wf(),
            follows_plan(transfer, result, old(self)@, final(self)@, old(self)@.milestone_plan(caller, id, *checkpoint, data_hash)),
    {
        let idx = self.locate(id)?;
        let s = self.shipments[idx];
        if caller != s.carrier {
            return Err(OrbitHaulError::Unauthorized);
        }
        if s.status != ShipmentStatus::InTransit {
            return Err(OrbitHaulError::InvalidStatus);
        }
        if s.event_count > u32::MAX - 2 {
            return Err(OrbitHaulError::CounterOverflow);
        }
        let j = match self.find_milestone(id, checkpoint) {
            None => {
                self.emit_numbered(id, ShipmentEvent::MilestoneRecorded {
                    shipment_id: id, checkpoint: checkpoint.clone(), data_hash, reporter: caller, counter: s.event_count + 1 });
                return Ok(());
            },
            Some(j) => j,
        };
        if self.milestones[j].paid {
            return Err(OrbitHaulError::MilestoneAlreadyPaid);
        }
        let percentage = self.milestones[j].percentage;
        proof {
            lemma_share_split(s.total_escrow as int, percentage as int);
        }
        let share = (s.total_escrow / 100) * (percentage as i128) + (s.total_escrow % 100) * (percentage as i128) / 100;
        let pay = if share <= s.escrow_amount { share } else { s.escrow_amount };
        if pay > 0 {
            if !transfer(self.token, self.address, s.carrier, pay) {
                return Err(OrbitHaulError::TokenTransferFailed);
            }
        }
        let checkpoint_name = self.milestones[j].checkpoint.clone();
        let owner = self.milestones[j].shipment_id;
        let ghost before = self@;
        self.milestones.set(j, Milestone { shipment_id: owner, checkpoint: checkpoint_name, percentage, paid: true });
        let st = if pay > 0 {
            Some(Settlement { shipment_id: id, operation: SettlementOperation::Release, state: SettlementState::Completed, amount: pay })
        } else {
            None
        };
        proof {
            assert(self@.shipments == before.shipments);
            assert(self@.settlements == before.settlements);
            assert(self@.events == before.events);
        }
        self.commit(id, Shipment { escrow_amount: s.escrow_amount - pay, ..s }, st);
        self.emit_numbered(id, ShipmentEvent::MilestoneRecorded {
            shipment_id: id, checkpoint: checkpoint.clone(), data_hash, reporter: caller, counter: s.event_count + 1 });
        self.emit_payout(id, SettlementOperation::Release, s.carrier, pay);
        Ok(())
    }

    /// Whether `company` is registered and not suspended.
    pub fn is_active_company(&self, company: u64) -> (active: bool)
        ensures
            active == self@.is_active_company(company),
    {
        contains_account(&self.companies, company) && !contains_account(&self.suspended, company)
    }

    /// Whether `carrier` is registered.
    pub fn is_carrier(&self, carrier: u64) -> (registered: bool)
        ensures
            registered == self@.carriers.contains(carrier),
    {
        contains_account(&self.carriers, carrier)
    }

    /// Whether `company` allowed `carrier` to carry its shipments.
    pub fn is_whitelisted(&self, company: u64, carrier: u64) -> (allowed: bool)
        ensures
            allowed == self@.whitelist.contains((company, carrier)),
    {
        contains_pair(&self.whitelist, company, carrier)
    }

    /// The number of shipments created.
    pub fn get_shipment_count(&self) -> (count: u64)
        requires
            self.wf(),
        ensures
            count == self@.shipments.len(),
    {
        self.shipments.len() as u64
    }

    /// The number of settlements recorded.
    pub fn get_settlement_count(&self) -> (count: u64)
        requires
            self.wf(),
        ensures
            count == self@.settlements.len(),
    {
        self.settlements.len() as u64
    }

    /// Shipment `id`.
    pub fn get_shipment(&self, id: u64) -> (result: Result<Shipment, OrbitHaulError>)
        requires
            self.wf(),
        ensures
            self@.has_shipment(id) ==> result == Ok::<Shipment, OrbitHaulError>(self@.shipment(id)),
            !self@.has_shipment(id) ==> result == Err::<Shipment, OrbitHaulError>(OrbitHaulError::ShipmentNotFound),
    {
        if id == 0 || id > self.shipments.len() as u64 {
            return Err(OrbitHaulError::ShipmentNotFound);
        }
        Ok(self.shipments[(id - 1) as usize])
    }

    /// The escrow still held for shipment `id`.
    pub fn get_escrow_balance(&self, id: u64) -> (result: Result<i128, OrbitHaulError>)
        requires
            self.wf(),
        ensures
            self@.has_shipment(id) ==> result == Ok::<i128, OrbitHaulError>(self@.shipment(id).escrow_amount),
            !self@.has_shipment(id) ==> result == Err::<i128, OrbitHaulError>(OrbitHaulError::ShipmentNotFound),
    {
        if id == 0 || id > self.shipments.len() as u64 {
            return Err(OrbitHaulError::ShipmentNotFound);
        }
        Ok(self.shipments[(id - 1) as usize].escrow_amount)
    }

    /// Settlement number `n`, counting from one in the order they were recorded.
    pub fn get_settlement(&self, n: u64) -> (result: Result<Settlement, OrbitHaulError>)
        requires
            self.wf(),
        ensures
            1 <= n <= self@.settlements.len() ==> result == Ok::<Settlement, OrbitHaulError>(self@.settlements[n - 1]),
            !(1 <= n <= self@.settlements.len()) ==> result == Err::<Settlement, OrbitHaulError>(OrbitHaulError::SettlementNotFound),
    {
        if n == 0 || n > self.settlements.len() as u64 {
            return Err(OrbitHaulError::SettlementNotFound);
        }
        Ok(self.settlements[(n - 1) as usize])
    }
}

} // verus!

verus! {

/// Delivered and cancelled shipments are final: no operation on them succeeds,
/// so neither their status nor their escrow changes again.
pub proof fn lemma_closed_shipments_are_final(
    v: ShipmentLedger,
    id: u64,
    caller: u64,
    status: ShipmentStatus,
    data_hash: [u8; 32],
    amount: i128,
    resolution: DisputeResolution,
    checkpoint: String,
    hash: [u8; 32],
    now: u64,
)
    requires
        v.has_shipment(id),
        v.shipment(id).status == ShipmentStatus::Delivered || v.shipment(id).status
            == ShipmentStatus::Cancelled,
    ensures
        v.update_status_outcome(caller, id, status, data_hash) is Err,
        v.dispute_outcome(caller, id, hash, now) is Err,
        v.cancel_outcome(caller, id, hash) is Err,
        v.deposit_plan(caller, id, amount) is Err,
        v.confirm_delivery_plan(caller, id, hash, now) is Err,
        v.refund_plan(caller, id) is Err,
        v.resolve_plan(caller, id, resolution, hash) is Err,
        v.milestone_plan(caller, id, checkpoint, hash) is Err,
{
}

/// A dispute freezes the escrow: while a shipment is disputed, every operation
/// on it but the admin's resolution fails, so its escrow can only move through
/// that resolution.
pub proof fn lemma_disputed_escrow_is_frozen(
    v: ShipmentLedger,
    id: u64,
    caller: u64,
    status: ShipmentStatus,
    data_hash: [u8; 32],
    amount: i128,
    checkpoint: String,
    hash: [u8; 32],
    now: u64,
)
    requires
        v.has_shipment(id),
        v.shipment(id).status == ShipmentStatus::Disputed,
    ensures
        v.update_status_outcome(caller, id, status, data_hash) is Err,
        v.dispute_outcome(caller, id, hash, now) is Err,
        v.cancel_outcome(caller, id, hash) is Err,
        v.deposit_plan(caller, id, amount) is Err,
        v.confirm_delivery_plan(caller, id, hash, now) is Err,
        v.refund_plan(caller, id) is Err,
        v.milestone_plan(caller, id, checkpoint, hash) is Err,
{
}

/// The contract never pays out more than a shipment holds: every token
/// movement out of the contract that an operation asks for is positive and at
/// most the escrow of the shipment concerned, and comes from the contract's own
/// account.
pub proof fn lemma_payouts_covered_by_escrow(
    v: ShipmentLedger,
    id: u64,
    caller: u64,
    resolution: DisputeResolution,
    checkpoint: String,
    hash: [u8; 32],
    now: u64,
)
    requires
        v.consistent(),
    ensures
        v.confirm_delivery_plan(caller, id, hash, now) matches Ok((Some(p), _)) ==> p.from == v.address && 0
            < p.amount <= v.shipment(id).escrow_amount,
        v.refund_plan(caller, id) matches Ok((Some(p), _)) ==> p.from == v.address && 0 < p.amount
            <= v.shipment(id).escrow_amount,
        v.resolve_plan(caller, id, resolution, hash) matches Ok((Some(p), _)) ==> p.from == v.address
            && 0 < p.amount <= v.shipment(id).escrow_amount,
        v.milestone_plan(caller, id, checkpoint, hash) matches Ok((Some(p), _)) ==> p.from == v.address
            && 0 < p.amount <= v.shipment(id).escrow_amount,
{
}

/// Deposits are the only way tokens enter escrow: a deposit asks to move
/// exactly the amount deposited from the depositing company into the contract,
/// and the shipment then holds exactly that amount.
pub proof fn lemma_deposit_moves_exactly_the_amount(v: ShipmentLedger, caller: u64, id: u64, amount: i128)
    requires
        v.deposit_plan(caller, id, amount) is Ok,
    ensures
        ({
            let (p, next) = v.deposit_plan(caller, id, amount).unwrap();
            &&& p == Some(Payout { token: v.token, from: caller, to: v.address, amount })
            &&& next.shipment(id).escrow_amount == amount
            &&& next.shipment(id).total_escrow == amount
            &&& next.settlements == v.settlements.push(ShipmentLedger::completed(id, SettlementOperation::Deposit, amount))
        }),
{
}

} // verus!

verus! {

/// Replay protection for event consumers: two numbered events in the log of a
/// consistent contract never share an idempotency preimage, so their keys
/// differ unless SHA-256 collides.
pub proof fn lemma_logged_event_keys_are_distinct(v: ShipmentLedger, i: int, j: int)
    requires
        v.consistent(),
        0 <= i < j < v.events.len(),
        v.events[i].numbering() is Some,
        v.events[j].numbering() is Some,
    ensures
        ({
            let (id_i, c_i) = v.events[i].numbering().unwrap();
            let (id_j, c_j) = v.events[j].numbering().unwrap();
            idempotency_preimage(SHIPMENT_EVENT_DOMAIN, id_i, v.events[i].spec_topic().spec_bytes(), c_i)
                != idempotency_preimage(SHIPMENT_EVENT_DOMAIN, id_j, v.events[j].spec_topic().spec_bytes(), c_j)
        }),
{
    let (id_i, c_i) = v.events[i].numbering().unwrap();
    let (id_j, c_j) = v.events[j].numbering().unwrap();
    let ti = v.events[i].spec_topic().spec_bytes();
    let tj = v.events[j].spec_topic().spec_bytes();
    if idempotency_preimage(SHIPMENT_EVENT_DOMAIN, id_i, ti, c_i) == idempotency_preimage(SHIPMENT_EVENT_DOMAIN, id_j, tj, c_j) {
        lemma_idempotency_preimage_injective(SHIPMENT_EVENT_DOMAIN, id_i, ti, c_i, SHIPMENT_EVENT_DOMAIN, id_j, tj, c_j);
        assert(v.events[i].numbering().unwrap().1 < v.events[j].numbering().unwrap().1);
    }
}

} // verus!

verus! {

/// `next` has the shipments of `v`, all but shipment `id` unchanged.
pub open spec fn others_unchanged(v: ShipmentLedger, next: ShipmentLedger, id: u64) -> bool {
    &&& next.shipments.len() == v.shipments.len()
    &&& forall|k: u64| v.has_shipment(k) && k != id ==> #[trigger] next.shipment(k) == v.shipment(k)
}

/// Shipments are isolated from one another: an operation on shipment `id`
/// changes no other shipment, neither its status, its escrow nor its events.
pub proof fn lemma_operations_touch_only_their_shipment(
    v: ShipmentLedger,
    id: u64,
    caller: u64,
    status: ShipmentStatus,
    amount: i128,
    resolution: DisputeResolution,
    checkpoint: String,
    hash: [u8; 32],
    now: u64,
)
    ensures
        v.update_status_outcome(caller, id, status, hash) matches Ok(next) ==> others_unchanged(v, next, id),
        v.dispute_outcome(caller, id, hash, now) matches Ok(next) ==> others_unchanged(v, next, id),
        v.cancel_outcome(caller, id, hash) matches Ok(next) ==> others_unchanged(v, next, id),
        v.deposit_plan(caller, id, amount) matches Ok((_, next)) ==> others_unchanged(v, next, id),
        v.confirm_delivery_plan(caller, id, hash, now) matches Ok((_, next)) ==> others_unchanged(v, next, id),
        v.refund_plan(caller, id) matches Ok((_, next)) ==> others_unchanged(v, next, id),
        v.resolve_plan(caller, id, resolution, hash) matches Ok((_, next)) ==> others_unchanged(v, next, id),
        v.milestone_plan(caller, id, checkpoint, hash) matches Ok((_, next)) ==> others_unchanged(v, next, id),
{
}

} // verus!

verus! {

impl ShipmentLedger {
    /// The checks a batch of milestone records on shipment `id` starts with.
    pub open spec fn batch_guard(self, caller: u64, id: u64) -> Option<OrbitHaulError> {
        if let Some(e) = self.shipment_guard(id) {
            Some(e)
        } else if caller != self.shipment(id).carrier {
            Some(OrbitHaulError::Unauthorized)
        } else if self.shipment(id).status != ShipmentStatus::InTransit {
            Some(OrbitHaulError::InvalidStatus)
        } else {
            None
        }
    }

    /// The state after recording the checkpoints of `ms` on shipment `id` one
    /// after the other, each as a single record whose token movement went
    /// through; the first error met, if any.
    pub open spec fn batch_records(self, caller: u64, id: u64, ms: Seq<(String, [u8; 32])>) -> Result<ShipmentLedger, OrbitHaulError>
        decreases ms.len(),
    {
        if ms.len() == 0 {
            match self.batch_guard(caller, id) {
                Some(e) => Err(e),
                None => Ok(self),
            }
        } else {
            match self.batch_records(caller, id, ms.drop_last()) {
                Err(e) => Err(e),
                Ok(v) => match v.milestone_plan(caller, id, ms.last().0, ms.last().1) {
                    Err(e) => Err(e),
                    Ok((_, next)) => Ok(next),
                },
            }
        }
    }

    /// What recording a batch of checkpoints asks for and leads to: the records
    /// applied in order, all or none; the escrow they release goes to the
    /// carrier in one token movement.
    pub open spec fn batch_plan(self, caller: u64, id: u64, ms: Seq<(String, [u8; 32])>) -> Result<(Option<Payout>, ShipmentLedger), OrbitHaulError> {
        match self.batch_records(caller, id, ms) {
            Err(e) => Err(e),
            Ok(next) => {
                let total = self.shipment(id).escrow_amount - next.shipment(id).escrow_amount;
                if total > 0 {
                    Ok((Some(Payout { token: self.token, from: self.address, to: self.shipment(id).carrier, amount: total as i128 }), next))
                } else {
                    Ok((None, next))
                }
            },
        }
    }
}

/// Once a prefix of a batch fails, the whole batch fails with that error.
pub proof fn lemma_batch_error_persists(v: ShipmentLedger, caller: u64, id: u64, ms: Seq<(String, [u8; 32])>, k: int)
    requires
        0 <= k <= ms.len(),
        v.batch_records(caller, id, ms.take(k)) is Err,
    ensures
        v.batch_records(caller, id, ms) == v.batch_records(caller, id, ms.take(k)),
    decreases ms.len() - k,
{
    if k < ms.len() {
        assert(ms.take(k + 1).drop_last() =~= ms.take(k));
        lemma_batch_error_persists(v, caller, id, ms, k + 1);
    } else {
        assert(ms.take(k) =~= ms);
    }
}

/// A batch whose shared checks fail fails with that error, whatever it holds.
pub proof fn lemma_batch_guard_first(v: ShipmentLedger, caller: u64, id: u64, ms: Seq<(String, [u8; 32])>)
    requires
        v.batch_guard(caller, id) is Some,
    ensures
        v.batch_records(caller, id, ms) == Err::<ShipmentLedger, OrbitHaulError>(v.batch_guard(caller, id).unwrap()),
    decreases ms.len(),
{
    if ms.len() > 0 {
        lemma_batch_guard_first(v, caller, id, ms.drop_last());
    }
}

/// A batch of one checkpoint asks for and leads to exactly what recording
/// that checkpoint alone does.
pub proof fn lemma_batch_of_one(v: ShipmentLedger, caller: u64, id: u64, checkpoint: String, data_hash: [u8; 32])
    requires
        v.consistent(),
    ensures
        v.batch_plan(caller, id, seq![(checkpoint, data_hash)]) == v.milestone_plan(caller, id, checkpoint, data_hash),
{
    let ms = seq![(checkpoint, data_hash)];
    assert(ms.drop_last() =~= Seq::<(String, [u8; 32])>::empty());
    assert(ms.last() == (checkpoint, data_hash));
    assert(v.batch_records(caller, id, ms.drop_last()) == match v.batch_guard(caller, id) {
        Some(e) => Err(e),
        None => Ok::<ShipmentLedger, OrbitHaulError>(v),
    });
    match v.milestone_plan(caller, id, checkpoint, data_hash) {
        Ok((p, next)) => {
            assert(v.batch_records(caller, id, ms) == Ok::<ShipmentLedger, OrbitHaulError>(next));
            let s = v.shipment(id);
            match first_milestone(v.milestones, id, checkpoint@) {
                None => {
                    assert(next.shipment(id).escrow_amount == s.escrow_amount);
                },
                Some(j) => {
                    let m = v.milestones[j];
                    let pay = milestone_payment(s.total_escrow as int, m.percentage as int, s.escrow_amount as int);
                    assert(next.shipment(id).escrow_amount == s.escrow_amount - pay);
                },
            }
        },
        Err(e) => {
            assert(v.batch_records(caller, id, ms) == Err::<ShipmentLedger, OrbitHaulError>(e));
        },
    }
}

impl Milestone {
    fn duplicate(&self) -> (copy: Milestone)
        ensures
            copy == *self,
    {
        Milestone { shipment_id: self.shipment_id, checkpoint: self.checkpoint.clone(), percentage: self.percentage, paid: self.paid }
    }
}

fn copy_milestones(v: &Vec<Milestone>) -> (copy: Vec<Milestone>)
    ensures
        copy@ == v@,
{
    let mut copy: Vec<Milestone> = Vec::new();
    let mut i: usize = 0;
    while i < v.len()
        invariant
            i <= v@.len(),
            copy@ == v@.take(i as int),
        decreases v@.len() - i,
    {
        copy.push(v[i].duplicate());
        proof {
            assert(copy@ =~= v@.take(i + 1));
        }
        i = i + 1;
    }
    proof {
        assert(v@.take(v@.len() as int) =~= v@);
    }
    copy
}

fn copy_events(v: &Vec<ShipmentEvent>) -> (copy: Vec<ShipmentEvent>)
    ensures
        copy@ == v@,
{
    let mut copy: Vec<ShipmentEvent> = Vec::new();
    let mut i: usize = 0;
    while i < v.len()
        invariant
            i <= v@.len(),
            copy@ == v@.take(i as int),
        decreases v@.len() - i,
    {
        copy.push(v[i].duplicate());
        proof {
            assert(copy@ =~= v@.take(i + 1));
        }
        i = i + 1;
    }
    proof {
        assert(v@.take(v@.len() as int) =~= v@);
    }
    copy
}

impl OrbitHaulShipment {
    fn snapshot(&self) -> (copy: OrbitHaulShipment)
        requires
            self.wf(),
        ensures
            copy.wf(),
            copy@ == self@,
    {
        OrbitHaulShipment {
            initialized: self.initialized,
            admin: self.admin,
            token: self.token,
            address: self.address,
            companies: copy_entries(&self.companies),
            suspended: copy_entries(&self.suspended),
            carriers: copy_entries(&self.carriers),
            whitelist: copy_entries(&self.whitelist),
            shipments: copy_entries(&self.shipments),
            milestones: copy_milestones(&self.milestones),
            settlements: copy_entries(&self.settlements),
            events: copy_events(&self.events),
            council: self.council.duplicate(),
        }
    }

    /// The carrier reports reaching each checkpoint of `milestones` on
    /// shipment `id`, in order, with the hash of each report.  The batch is
    /// applied as the single records would be, one after the other, or not at
    /// all: the first error leaves the contract unchanged.  The escrow the
    /// records release goes to the carrier through `transfer` in one movement;
    /// if it fails, nothing changes either.
    pub fn record_milestones_batch<F: FnOnce(u64, u64, u64, i128) -> bool>(
        &mut self,
        caller: u64,
        id: u64,
        milestones: &Vec<(String, [u8; 32])>,
        transfer: F,
    ) -> (result: Result<(), OrbitHaulError>)
        requires
            old(self).wf(),
            forall|t: u64, a: u64, b: u64, c: i128| call_requires(transfer, (t, a, b, c)),
        ensures
            final(self).wf(),
            follows_plan(transfer, result, old(self)@, final(self)@, old(self)@.batch_plan(caller, id, milestones@)),
    {
        let ghost v = self@;
        proof {
            if v.batch_guard(caller, id) is Some {
                lemma_batch_guard_first(v, caller, id, milestones@);
            }
        }
        let idx = self.locate(id)?;
        let s = self.shipments[idx];
        if caller != s.carrier {
            return Err(OrbitHaulError::Unauthorized);
        }
        if s.status != ShipmentStatus::InTransit {
            return Err(OrbitHaulError::InvalidStatus);
        }
        let mut trial = self.snapshot();
        proof {
            assert(milestones@.take(0) =~= Seq::<(String, [u8; 32])>::empty());
        }
        let mut i: usize = 0;
        while i < milestones.len()
            invariant
                i <= milestones@.len(),
                trial.wf(),
                self.wf(),
                v == self@,
                v.has_shipment(id),
                v.batch_records(caller, id, milestones@.take(i as int)) == Ok::<ShipmentLedger, OrbitHaulError>(trial@),
            decreases milestones@.len() - i,
        {
            let entry = &milestones[i];
            let accept = |token: u64, from: u64, to: u64, amount: i128| -> (moved: bool)
                ensures
                    moved,
            {
                true
            };
            let ghost before = trial@;
            let r = trial.record_milestone(caller, id, &entry.0, entry.1, accept);
            proof {
                assert(milestones@.take(i + 1).drop_last() =~= milestones@.take(i as int));
                assert(milestones@.take(i + 1).last() == milestones@[i as int]);
            }
            match r {
                Err(e) => {
                    proof {
                        lemma_batch_error_persists(v, caller, id, milestones@, i + 1);
                    }
                    return Err(e);
                },
                Ok(()) => {},
            }
            i = i + 1;
        }
        proof {
            assert(milestones@.take(milestones@.len() as int) =~= milestones@);
        }
        proof {
            assert(trial.shipments.len() == trial.shipments@.len());
        }
        let total = s.escrow_amount - trial.shipments[idx].escrow_amount;
        if total > 0 {
            if !transfer(self.token, self.address, s.carrier, total) {
                return Err(OrbitHaulError::TokenTransferFailed);
            }
        }
        *self = trial;
        Ok(())
    }
}

impl ShipmentLedger {
    /// What the admin setting up the council of `admins`, deciding by
    /// `threshold` approvals, does.
    pub open spec fn init_multisig_outcome(self, caller: u64, admins: Seq<u64>, threshold: u32) -> Result<ShipmentLedger, OrbitHaulError> {
        if !self.initialized {
            Err(OrbitHaulError::NotInitialized)
        } else if caller != self.admin {
            Err(OrbitHaulError::Unauthorized)
        } else if self.council.active() {
            Err(OrbitHaulError::Council(CouncilError::AlreadySetUp))
        } else if !CouncilView::valid_config(admins, threshold) {
            Err(OrbitHaulError::Council(CouncilError::InvalidConfig))
        } else {
            Ok(ShipmentLedger { council: CouncilView::formed(admins, threshold), ..self })
        }
    }

    /// What a council admin proposing `action` does: the new proposal's id and
    /// the state after.
    pub open spec fn propose_action_outcome(self, caller: u64, action: AdminAction) -> Result<(u64, ShipmentLedger), OrbitHaulError> {
        if !self.initialized {
            Err(OrbitHaulError::NotInitialized)
        } else {
            match self.council.propose_outcome(caller, action) {
                Err(e) => Err(OrbitHaulError::Council(e)),
                Ok((id, council)) => Ok((id, ShipmentLedger { council, ..self })),
            }
        }
    }

    /// What a council admin approving proposal `id` does.
    pub open spec fn approve_action_outcome(self, caller: u64, id: u64) -> Result<ShipmentLedger, OrbitHaulError> {
        if !self.initialized {
            Err(OrbitHaulError::NotInitialized)
        } else {
            match self.council.approve_outcome(caller, id) {
                Err(e) => Err(OrbitHaulError::Council(e)),
                Ok(council) => Ok(ShipmentLedger { council, ..self }),
            }
        }
    }
}

impl OrbitHaulShipment {
    /// The admin sets up the council of `admins` that decides administrative
    /// actions by `threshold` approvals: at least two distinct admins, and a
    /// threshold between one and their number.
    pub fn init_multisig(&mut self, caller: u64, admins: &Vec<u64>, threshold: u32) -> (result: Result<(), OrbitHaulError>)
        requires
            old(self).wf(),
        ensures
            final(self).wf(),
            follows_outcome(result, old(self)@, final(self)@, old(self)@.init_multisig_outcome(caller, admins@, threshold)),
    {
        self.check_admin(caller)?;
        match self.council.set_up(admins, threshold) {
            Err(e) => Err(OrbitHaulError::Council(e)),
            Ok(()) => {
                assert(self@.milestones == old(self)@.milestones);
                Ok(())
            },
        }
    }

    /// A council admin proposes `action`; returns the new proposal's id.  The
    /// proposer's approval counts at once, and the proposal is executed when
    /// that reaches the threshold.
    pub fn propose_action(&mut self, caller: u64, action: AdminAction) -> (result: Result<u64, OrbitHaulError>)
        requires
            old(self).wf(),
        ensures
            final(self).wf(),
            match old(self)@.propose_action_outcome(caller, action) {
                Ok((id, next)) => result == Ok::<u64, OrbitHaulError>(id) && final(self)@ == next,
                Err(e) => result == Err::<u64, OrbitHaulError>(e) && final(self)@ == old(self)@,
            },
    {
        if !self.initialized {
            return Err(OrbitHaulError::NotInitialized);
        }
        match self.council.propose(caller, action) {
            Err(e) => Err(OrbitHaulError::Council(e)),
            Ok(id) => {
                assert(self@.milestones == old(self)@.milestones);
                Ok(id)
            },
        }
    }

    /// A council admin approves proposal `id`; the proposal is executed once
    /// its approvals reach the threshold.
    pub fn approve_action(&mut self, caller: u64, id: u64) -> (result: Result<(), OrbitHaulError>)
        requires
            old(self).wf(),
        ensures
            final(self).wf(),
            follows_outcome(result, old(self)@, final(self)@, old(self)@.approve_action_outcome(caller, id)),
    {
        if !self.initialized {
            return Err(OrbitHaulError::NotInitialized);
        }
        match self.council.approve(caller, id) {
            Err(e) => Err(OrbitHaulError::Council(e)),
            Ok(()) => {
                assert(self@.milestones == old(self)@.milestones);
                Ok(())
            },
        }
    }

    /// Proposal `id` of the council.
    pub fn get_proposal(&self, id: u64) -> (result: Option<Proposal>)
        requires
            self.wf(),
        ensures
            self@.council.has_proposal(id) ==> result == Some(self@.council.proposal(id)),
            !self@.council.has_proposal(id) ==> result is None,
    {
        self.council.get_proposal(id)
    }
}

} // verus!

verus! {

/// Token isolation: every token movement an operation asks for is on the token
/// contract the shipment contract was bound to, so contracts bound to different
/// tokens never move each other's tokens.
pub proof fn lemma_token_movements_use_the_bound_token(
    v: ShipmentLedger,
    id: u64,
    caller: u64,
    amount: i128,
    resolution: DisputeResolution,
    checkpoint: String,
    hash: [u8; 32],
    now: u64,
    batch: Seq<(String, [u8; 32])>,
)
    ensures
        v.deposit_plan(caller, id, amount) matches Ok((Some(p), _)) ==> p.token == v.token,
        v.confirm_delivery_plan(caller, id, hash, now) matches Ok((Some(p), _)) ==> p.token == v.token,
        v.refund_plan(caller, id) matches Ok((Some(p), _)) ==> p.token == v.token,
        v.resolve_plan(caller, id, resolution, hash) matches Ok((Some(p), _)) ==> p.token == v.token,
        v.milestone_plan(caller, id, checkpoint, hash) matches Ok((Some(p), _)) ==> p.token == v.token,
        v.batch_plan(caller, id, batch) matches Ok((Some(p), _)) ==> p.token == v.token,
{
}

} // verus!

verus! {

/// Milestone isolation: recording a checkpoint on shipment `id` changes no
/// milestone of any other shipment, whatever their names.
pub proof fn lemma_milestone_record_touches_only_its_shipment(
    v: ShipmentLedger,
    caller: u64,
    id: u64,
    checkpoint: String,
    data_hash: [u8; 32],
)
    ensures
        v.milestone_plan(caller, id, checkpoint, data_hash) matches Ok((_, next)) ==> {
            &&& next.milestones.len() == v.milestones.len()
            &&& forall|j: int| 0 <= j < v.milestones.len() && v.milestones[j].shipment_id != id
                ==> #[trigger] next.milestones[j] == v.milestones[j]
        },
{
    if let Some(j) = first_milestone(v.milestones, id, checkpoint@) {
        assert(milestone_matches(v.milestones[j], id, checkpoint@));
    }
}

/// A milestone of shipment `id` is paid by reaching its checkpoint: when the
/// first milestone of shipment `id` named `checkpoint` is unpaid, recording
/// that checkpoint succeeds, marks exactly that milestone paid, and releases
/// its share of the deposit (rounded down, at most the escrow left) from the
/// contract to the carrier, whatever other shipments' milestones of that name
/// hold.
pub proof fn lemma_milestone_record_pays_its_own_milestone(
    v: ShipmentLedger,
    caller: u64,
    id: u64,
    checkpoint: String,
    data_hash: [u8; 32],
    j: int,
)
    requires
        v.consistent(),
        v.initialized,
        v.has_shipment(id),
        caller == v.shipment(id).carrier,
        v.shipment(id).status == ShipmentStatus::InTransit,
        v.shipment(id).event_count + 2 <= u32::MAX,
        0 <= j < v.milestones.len(),
        v.milestones[j].shipment_id == id,
        v.milestones[j].checkpoint@ == checkpoint@,
        !v.milestones[j].paid,
        forall|k: int| 0 <= k < j ==> !(#[trigger] v.milestones[k].shipment_id == id && v.milestones[k].checkpoint@ == checkpoint@),
    ensures
        v.milestone_plan(caller, id, checkpoint, data_hash) matches Ok((p, next)) && {
            let s = v.shipment(id);
            let share = s.total_escrow * v.milestones[j].percentage / 100;
            let pay: int = if share <= s.escrow_amount { share } else { s.escrow_amount as int };
            &&& next.milestones[j].paid
            &&& next.milestones[j].shipment_id == id
            &&& next.shipment(id).escrow_amount == s.escrow_amount - pay
            &&& pay > 0 ==> p == Some(Payout { token: v.token, from: v.address, to: s.carrier, amount: pay as i128 })
            &&& pay <= 0 ==> p is None
        },
{
    let ms = v.milestones;
    let cp = checkpoint@;
    assert(milestone_matches(ms[j], id, cp));
    assert(forall|k: int| 0 <= k < j ==> !milestone_matches(#[trigger] ms[k], id, cp));
    let c = choose|c: int| 0 <= c < ms.len() && milestone_matches(ms[c], id, cp) && forall|k: int| 0 <= k < c ==> !milestone_matches(#[trigger] ms[k], id, cp);
    assert(c == j) by {
        if c < j {
            assert(!milestone_matches(ms[c], id, cp));
        }
        if c > j {
            assert(!milestone_matches(ms[j], id, cp));
        }
    }
    assert(first_milestone(ms, id, cp) == Some(j));
    let s = v.shipment(id);
    assert(0 <= s.escrow_amount <= s.total_escrow);
    assert(ms[j].percentage <= 100);
    lemma_share_split(s.total_escrow as int, ms[j].percentage as int);
}

/// A dispute resolution pays the party it names: a refund to the company
/// sends the whole escrow to the shipment's sender and cancels the shipment;
/// a release to the carrier sends it to the shipment's carrier and delivers
/// it.  A shipment holding escrow always gets that movement.
pub proof fn lemma_resolution_pays_the_named_party(
    v: ShipmentLedger,
    caller: u64,
    id: u64,
    resolution: DisputeResolution,
    reason_hash: [u8; 32],
)
    ensures
        v.resolve_plan(caller, id, resolution, reason_hash) matches Ok((p, next)) ==> {
            let s = v.shipment(id);
            let to = match resolution {
                DisputeResolution::RefundToCompany => s.sender,
                DisputeResolution::ReleaseToCarrier => s.carrier,
            };
            &&& s.escrow_amount > 0 ==> p == Some(Payout { token: v.token, from: v.address, to, amount: s.escrow_amount })
            &&& s.escrow_amount <= 0 ==> p is None
            &&& next.shipment(id).escrow_amount == 0
            &&& resolution == DisputeResolution::RefundToCompany ==> next.shipment(id).status == ShipmentStatus::Cancelled
            &&& resolution == DisputeResolution::ReleaseToCarrier ==> next.shipment(id).status == ShipmentStatus::Delivered
        },
{
}

/// A company can only ship with a carrier it whitelisted: creation succeeds
/// only for a whitelisted (sender, carrier) pair, and an initialized contract
/// refuses an active company's shipment with a carrier it did not whitelist.
/// A created shipment names the sender, receiver and carrier asked for.
pub proof fn lemma_creation_needs_whitelisted_carrier(
    v: ShipmentLedger,
    sender: u64,
    receiver: u64,
    carrier: u64,
    data_hash: [u8; 32],
    milestones: Seq<(String, u32)>,
    deadline: u64,
    now: u64,
)
    ensures
        v.create_outcome(sender, receiver, carrier, data_hash, milestones, deadline, now) matches Ok((id, next)) ==> {
            &&& v.whitelist.contains((sender, carrier))
            &&& v.companies.contains(sender) && !v.suspended.contains(sender)
            &&& next.shipment(id).sender == sender
            &&& next.shipment(id).receiver == receiver
            &&& next.shipment(id).carrier == carrier
        },
        v.initialized && v.companies.contains(sender) && !v.suspended.contains(sender)
            && !v.whitelist.contains((sender, carrier))
            ==> v.create_outcome(sender, receiver, carrier, data_hash, milestones, deadline, now)
            == Err::<(u64, ShipmentLedger), OrbitHaulError>(OrbitHaulError::CarrierNotWhitelisted),
{
}

} // verus!

verus! {

/// Escrow reaches the right party: a deposit moves the amount from the
/// depositing company into the contract; delivery sends all escrow left to the
/// carrier and marks the shipment delivered; a refund sends it back to the
/// company and cancels the shipment.  No escrow is left behind either way.
pub proof fn lemma_escrow_goes_to_the_right_party(
    v: ShipmentLedger,
    caller: u64,
    id: u64,
    amount: i128,
    hash: [u8; 32],
    now: u64,
)
    ensures
        v.deposit_plan(caller, id, amount) matches Ok((p, next)) ==> {
            &&& caller == v.shipment(id).sender
            &&& p == Some(Payout { token: v.token, from: caller, to: v.address, amount })
            &&& next.shipment(id).escrow_amount == amount
        },
        v.confirm_delivery_plan(caller, id, hash, now) matches Ok((p, next)) ==> {
            let s = v.shipment(id);
            &&& caller == s.receiver
            &&& s.escrow_amount > 0 ==> p == Some(Payout { token: v.token, from: v.address, to: s.carrier, amount: s.escrow_amount })
            &&& s.escrow_amount <= 0 ==> p is None
            &&& next.shipment(id).escrow_amount == 0
            &&& next.shipment(id).status == ShipmentStatus::Delivered
        },
        v.refund_plan(caller, id) matches Ok((p, next)) ==> {
            let s = v.shipment(id);
            &&& caller == s.sender
            &&& s.escrow_amount != 0
            &&& s.escrow_amount > 0 ==> p == Some(Payout { token: v.token, from: v.address, to: s.sender, amount: s.escrow_amount })
            &&& next.shipment(id).escrow_amount == 0
            &&& next.shipment(id).status == ShipmentStatus::Cancelled
        },
{
}

/// A new shipment is numbered after the ones before, starts created with no
/// escrow, and leaves the shipments before it untouched.
pub proof fn lemma_new_shipment_starts_empty(
    v: ShipmentLedger,
    sender: u64,
    receiver: u64,
    carrier: u64,
    data_hash: [u8; 32],
    milestones: Seq<(String, u32)>,
    deadline: u64,
    now: u64,
)
    ensures
        v.create_outcome(sender, receiver, carrier, data_hash, milestones, deadline, now) matches Ok((id, next)) ==> {
            &&& id == v.shipments.len() + 1
            &&& next.shipments.len() == id
            &&& next.shipment(id).status == ShipmentStatus::Created
            &&& next.shipment(id).escrow_amount == 0
            &&& next.shipment(id).total_escrow == 0
            &&& next.shipment(id).deadline == deadline
            &&& deadline > now
            &&& forall|k: u64| 1 <= k < id ==> #[trigger] next.shipment(k) == v.shipment(k)
        },
{
}

} // verus!
