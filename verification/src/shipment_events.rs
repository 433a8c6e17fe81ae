//! The events of the shipment contract and their payloads.
//!
//! Events about a shipment's escrow and life cycle are numbered per shipment;
//! their payload ends with the schema version, that number and the event's
//! idempotency key.  Dispute and freeze notices and role changes are not
//! numbered.

use vstd::prelude::*;
use crate::shipment::{DisputeResolution, ShipmentStatus};
use crate::events::{generate_idempotency_key, spec_idempotency_key};
use vstd::string::is_ascii_spec_bytes;
use crate::event_topics::{
    DELIVERY_SUCCESS, DISPUTE_RAISED, DISPUTE_RESOLVED, ESCROW_DEPOSITED, ESCROW_FROZEN,
    ESCROW_REFUNDED, ESCROW_RELEASED, MILESTONE_RECORDED, ROLE_CHANGED, SHIPMENT_CANCELLED,
    SHIPMENT_CREATED, STATUS_UPDATED,
};
use vstd::string::StringSliceAdditionalSpecFns;

verus! {

/// The version of the payload layout.
pub const EVENT_SCHEMA_VERSION: u32 = 2;

/// The idempotency-key domain of shipment events.
pub const SHIPMENT_EVENT_DOMAIN: u8 = 1;

/// What happened to a role.
#[derive(Clone, Copy, Debug, PartialEq, Eq, Structural)]
pub enum RoleAction {
    Assigned,
    Suspended,
}

/// The roles the admin hands out.
#[derive(Clone, Copy, Debug, PartialEq, Eq, Structural)]
pub enum Role {
    Company,
    Carrier,
}

/// An event published by the shipment contract.
#[derive(Debug)]
pub enum ShipmentEvent {
    ShipmentCreated { shipment_id: u64, sender: u64, receiver: u64, token: u64, data_hash: [u8; 32], counter: u32 },
    StatusUpdated { shipment_id: u64, old_status: ShipmentStatus, new_status: ShipmentStatus, token: u64, data_hash: [u8; 32], counter: u32 },
    EscrowDeposited { shipment_id: u64, from: u64, amount: i128, token: u64, counter: u32 },
    EscrowReleased { shipment_id: u64, to: u64, amount: i128, token: u64, counter: u32 },
    EscrowRefunded { shipment_id: u64, to: u64, amount: i128, token: u64, counter: u32 },
    DisputeRaised { shipment_id: u64, raised_by: u64, reason_hash: [u8; 32] },
    DisputeResolved { shipment_id: u64, resolution: DisputeResolution, reason_hash: [u8; 32], admin: u64, counter: u32 },
    EscrowFrozen { shipment_id: u64, reason_hash: [u8; 32], caller: u64, timestamp: u64 },
    MilestoneRecorded { shipment_id: u64, checkpoint: String, data_hash: [u8; 32], reporter: u64, counter: u32 },
    ShipmentCancelled { shipment_id: u64, caller: u64, reason_hash: [u8; 32], counter: u32 },
    DeliverySuccess { carrier: u64, shipment_id: u64, timestamp: u64, counter: u32 },
    RoleChanged { action: RoleAction, admin: u64, target: u64, role: Role, timestamp: u64 },
}

/// One field of an event payload.
#[derive(Debug)]
pub enum EventField {
    U32(u32),
    U64(u64),
    I128(i128),
    Address(u64),
    Hash([u8; 32]),
    Symbol(String),
    Status(ShipmentStatus),
    Resolution(DisputeResolution),
    Action(RoleAction),
    Role(Role),
}

impl ShipmentEvent {
    /// The topic the event is published under.
    pub open spec fn spec_topic(&self) -> &'static str {
        match self {
            ShipmentEvent::ShipmentCreated { .. } => SHIPMENT_CREATED,
            ShipmentEvent::StatusUpdated { .. } => STATUS_UPDATED,
            ShipmentEvent::EscrowDeposited { .. } => ESCROW_DEPOSITED,
            ShipmentEvent::EscrowReleased { .. } => ESCROW_RELEASED,
            ShipmentEvent::EscrowRefunded { .. } => ESCROW_REFUNDED,
            ShipmentEvent::DisputeRaised { .. } => DISPUTE_RAISED,
            ShipmentEvent::DisputeResolved { .. } => DISPUTE_RESOLVED,
            ShipmentEvent::EscrowFrozen { .. } => ESCROW_FROZEN,
            ShipmentEvent::MilestoneRecorded { .. } => MILESTONE_RECORDED,
            ShipmentEvent::ShipmentCancelled { .. } => SHIPMENT_CANCELLED,
            ShipmentEvent::DeliverySuccess { .. } => DELIVERY_SUCCESS,
            ShipmentEvent::RoleChanged { .. } => ROLE_CHANGED,
        }
    }

    /// The topic the event is published under.
    pub fn topic(&self) -> (topic: &'static str)
        ensures
            topic == self.spec_topic(),
    {
        match self {
            ShipmentEvent::ShipmentCreated { .. } => SHIPMENT_CREATED,
            ShipmentEvent::StatusUpdated { .. } => STATUS_UPDATED,
            ShipmentEvent::EscrowDeposited { .. } => ESCROW_DEPOSITED,
            ShipmentEvent::EscrowReleased { .. } => ESCROW_RELEASED,
            ShipmentEvent::EscrowRefunded { .. } => ESCROW_REFUNDED,
            ShipmentEvent::DisputeRaised { .. } => DISPUTE_RAISED,
            ShipmentEvent::DisputeResolved { .. } => DISPUTE_RESOLVED,
            ShipmentEvent::EscrowFrozen { .. } => ESCROW_FROZEN,
            ShipmentEvent::MilestoneRecorded { .. } => MILESTONE_RECORDED,
            ShipmentEvent::ShipmentCancelled { .. } => SHIPMENT_CANCELLED,
            ShipmentEvent::DeliverySuccess { .. } => DELIVERY_SUCCESS,
            ShipmentEvent::RoleChanged { .. } => ROLE_CHANGED,
        }
    }

    /// Every topic is a short ASCII name: at most 18 bytes.
    pub proof fn lemma_topic_is_short(&self)
        ensures
            self.spec_topic().spec_bytes().len() <= 18,
    {
        reveal_strlit("shipment_created");
        reveal_strlit("status_updated");
        reveal_strlit("escrow_deposited");
        reveal_strlit("escrow_released");
        reveal_strlit("escrow_refunded");
        reveal_strlit("dispute_raised");
        reveal_strlit("dispute_resolved");
        reveal_strlit("escrow_frozen");
        reveal_strlit("milestone_recorded");
        reveal_strlit("shipment_cancelled");
        reveal_strlit("delivery_success");
        reveal_strlit("role_changed");
        let t = self.spec_topic();
        is_ascii_spec_bytes(t);
        assert(vstd::string::is_ascii(t));
    }

    /// For a numbered event, the shipment it is about and its number.
    pub open spec fn numbering(&self) -> Option<(u64, u32)> {
        match self {
            ShipmentEvent::ShipmentCreated { shipment_id, counter, .. } => Some((*shipment_id, *counter)),
            ShipmentEvent::StatusUpdated { shipment_id, counter, .. } => Some((*shipment_id, *counter)),
            ShipmentEvent::EscrowDeposited { shipment_id, counter, .. } => Some((*shipment_id, *counter)),
            ShipmentEvent::EscrowReleased { shipment_id, counter, .. } => Some((*shipment_id, *counter)),
            ShipmentEvent::EscrowRefunded { shipment_id, counter, .. } => Some((*shipment_id, *counter)),
            ShipmentEvent::DisputeResolved { shipment_id, counter, .. } => Some((*shipment_id, *counter)),
            ShipmentEvent::MilestoneRecorded { shipment_id, counter, .. } => Some((*shipment_id, *counter)),
            ShipmentEvent::ShipmentCancelled { shipment_id, counter, .. } => Some((*shipment_id, *counter)),
            ShipmentEvent::DeliverySuccess { shipment_id, counter, .. } => Some((*shipment_id, *counter)),
            _ => None,
        }
    }

    /// The payload fields that precede the schema version, or the whole
    /// payload of an event that is not numbered.
    pub open spec fn spec_fields(&self) -> Seq<EventField> {
        match self {
            ShipmentEvent::ShipmentCreated { shipment_id, sender, receiver, token, data_hash, .. } =>
                seq![EventField::U64(*shipment_id), EventField::Address(*sender), EventField::Address(*receiver),
                     EventField::Address(*token), EventField::Hash(*data_hash)],
            ShipmentEvent::StatusUpdated { shipment_id, old_status, new_status, token, data_hash, .. } =>
                seq![EventField::U64(*shipment_id), EventField::Status(*old_status), EventField::Status(*new_status),
                     EventField::Address(*token), EventField::Hash(*data_hash)],
            ShipmentEvent::EscrowDeposited { shipment_id, from, amount, token, .. } =>
                seq![EventField::U64(*shipment_id), EventField::Address(*from), EventField::I128(*amount), EventField::Address(*token)],
            ShipmentEvent::EscrowReleased { shipment_id, to, amount, token, .. } =>
                seq![EventField::U64(*shipment_id), EventField::Address(*to), EventField::I128(*amount), EventField::Address(*token)],
            ShipmentEvent::EscrowRefunded { shipment_id, to, amount, token, .. } =>
                seq![EventField::U64(*shipment_id), EventField::Address(*to), EventField::I128(*amount), EventField::Address(*token)],
            ShipmentEvent::DisputeRaised { shipment_id, raised_by, reason_hash } =>
                seq![EventField::U64(*shipment_id), EventField::Address(*raised_by), EventField::Hash(*reason_hash)],
            ShipmentEvent::DisputeResolved { shipment_id, resolution, reason_hash, admin, .. } =>
                seq![EventField::U64(*shipment_id), EventField::Resolution(*resolution), EventField::Hash(*reason_hash), EventField::Address(*admin)],
            ShipmentEvent::EscrowFrozen { shipment_id, reason_hash, caller, timestamp } =>
                seq![EventField::U64(*shipment_id), EventField::Hash(*reason_hash), EventField::Address(*caller), EventField::U64(*timestamp)],
            ShipmentEvent::MilestoneRecorded { shipment_id, checkpoint, data_hash, reporter, .. } =>
                seq![EventField::U64(*shipment_id), EventField::Symbol(*checkpoint), EventField::Hash(*data_hash), EventField::Address(*reporter)],
            ShipmentEvent::ShipmentCancelled { shipment_id, caller, reason_hash, .. } =>
                seq![EventField::U64(*shipment_id), EventField::Address(*caller), EventField::Hash(*reason_hash)],
            ShipmentEvent::DeliverySuccess { carrier, shipment_id, timestamp, .. } =>
                seq![EventField::Address(*carrier), EventField::U64(*shipment_id), EventField::U64(*timestamp)],
            ShipmentEvent::RoleChanged { action, admin, target, role, timestamp } =>
                seq![EventField::Action(*action), EventField::Address(*admin), EventField::Address(*target), EventField::Role(*role), EventField::U64(*timestamp)],
        }
    }

    /// `payload` is the payload of this event: its fields, and for a numbered
    /// event then the schema version, its number and its idempotency key.
    pub open spec fn is_payload(&self, payload: Seq<EventField>) -> bool {
        match self.numbering() {
            None => payload == self.spec_fields(),
            Some((shipment_id, counter)) => {
                let n = self.spec_fields().len() as int;
                &&& payload.len() == n + 3
                &&& payload.take(n) == self.spec_fields()
                &&& payload[n] == EventField::U32(EVENT_SCHEMA_VERSION)
                &&& payload[n + 1] == EventField::U32(counter)
                &&& payload[n + 2] matches EventField::Hash(key)
                    && key@ == spec_idempotency_key(SHIPMENT_EVENT_DOMAIN, shipment_id, self.spec_topic().spec_bytes(), counter)
            },
        }
    }

    fn fields(&self) -> (fields: Vec<EventField>)
        ensures
            fields@ == self.spec_fields(),
    {
        let fields = match self {
            ShipmentEvent::ShipmentCreated { shipment_id, sender, receiver, token, data_hash, .. } =>
                vec![EventField::U64(*shipment_id), EventField::Address(*sender), EventField::Address(*receiver),
                     EventField::Address(*token), EventField::Hash(*data_hash)],
            ShipmentEvent::StatusUpdated { shipment_id, old_status, new_status, token, data_hash, .. } =>
                vec![EventField::U64(*shipment_id), EventField::Status(*old_status), EventField::Status(*new_status),
                     EventField::Address(*token), EventField::Hash(*data_hash)],
            ShipmentEvent::EscrowDeposited { shipment_id, from, amount, token, .. } =>
                vec![EventField::U64(*shipment_id), EventField::Address(*from), EventField::I128(*amount), EventField::Address(*token)],
            ShipmentEvent::EscrowReleased { shipment_id, to, amount, token, .. } =>
                vec![EventField::U64(*shipment_id), EventField::Address(*to), EventField::I128(*amount), EventField::Address(*token)],
            ShipmentEvent::EscrowRefunded { shipment_id, to, amount, token, .. } =>
                vec![EventField::U64(*shipment_id), EventField::Address(*to), EventField::I128(*amount), EventField::Address(*token)],
            ShipmentEvent::DisputeRaised { shipment_id, raised_by, reason_hash } =>
                vec![EventField::U64(*shipment_id), EventField::Address(*raised_by), EventField::Hash(*reason_hash)],
            ShipmentEvent::DisputeResolved { shipment_id, resolution, reason_hash, admin, .. } =>
                vec![EventField::U64(*shipment_id), EventField::Resolution(*resolution), EventField::Hash(*reason_hash), EventField::Address(*admin)],
            ShipmentEvent::EscrowFrozen { shipment_id, reason_hash, caller, timestamp } =>
                vec![EventField::U64(*shipment_id), EventField::Hash(*reason_hash), EventField::Address(*caller), EventField::U64(*timestamp)],
            ShipmentEvent::MilestoneRecorded { shipment_id, checkpoint, data_hash, reporter, .. } =>
                vec![EventField::U64(*shipment_id), EventField::Symbol(checkpoint.clone()), EventField::Hash(*data_hash), EventField::Address(*reporter)],
            ShipmentEvent::ShipmentCancelled { shipment_id, caller, reason_hash, .. } =>
                vec![EventField::U64(*shipment_id), EventField::Address(*caller), EventField::Hash(*reason_hash)],
            ShipmentEvent::DeliverySuccess { carrier, shipment_id, timestamp, .. } =>
                vec![EventField::Address(*carrier), EventField::U64(*shipment_id), EventField::U64(*timestamp)],
            ShipmentEvent::RoleChanged { action, admin, target, role, timestamp } =>
                vec![EventField::Action(*action), EventField::Address(*admin), EventField::Address(*target), EventField::Role(*role), EventField::U64(*timestamp)],
        };
        proof {
            assert(fields@ =~= self.spec_fields());
        }
        fields
    }

    /// A copy of the event.
    pub(crate) fn duplicate(&self) -> (copy: ShipmentEvent)
        ensures
            copy == *self,
    {
        match self {
            ShipmentEvent::ShipmentCreated { shipment_id, sender, receiver, token, data_hash, counter } =>
                ShipmentEvent::ShipmentCreated { shipment_id: *shipment_id, sender: *sender, receiver: *receiver, token: *token, data_hash: *data_hash, counter: *counter },
            ShipmentEvent::StatusUpdated { shipment_id, old_status, new_status, token, data_hash, counter } =>
                ShipmentEvent::StatusUpdated { shipment_id: *shipment_id, old_status: *old_status, new_status: *new_status, token: *token, data_hash: *data_hash, counter: *counter },
            ShipmentEvent::EscrowDeposited { shipment_id, from, amount, token, counter } =>
                ShipmentEvent::EscrowDeposited { shipment_id: *shipment_id, from: *from, amount: *amount, token: *token, counter: *counter },
            ShipmentEvent::EscrowReleased { shipment_id, to, amount, token, counter } =>
                ShipmentEvent::EscrowReleased { shipment_id: *shipment_id, to: *to, amount: *amount, token: *token, counter: *counter },
            ShipmentEvent::EscrowRefunded { shipment_id, to, amount, token, counter } =>
                ShipmentEvent::EscrowRefunded { shipment_id: *shipment_id, to: *to, amount: *amount, token: *token, counter: *counter },
            ShipmentEvent::DisputeRaised { shipment_id, raised_by, reason_hash } =>
                ShipmentEvent::DisputeRaised { shipment_id: *shipment_id, raised_by: *raised_by, reason_hash: *reason_hash },
            ShipmentEvent::DisputeResolved { shipment_id, resolution, reason_hash, admin, counter } =>
                ShipmentEvent::DisputeResolved { shipment_id: *shipment_id, resolution: *resolution, reason_hash: *reason_hash, admin: *admin, counter: *counter },
            ShipmentEvent::EscrowFrozen { shipment_id, reason_hash, caller, timestamp } =>
                ShipmentEvent::EscrowFrozen { shipment_id: *shipment_id, reason_hash: *reason_hash, caller: *caller, timestamp: *timestamp },
            ShipmentEvent::MilestoneRecorded { shipment_id, checkpoint, data_hash, reporter, counter } =>
                ShipmentEvent::MilestoneRecorded { shipment_id: *shipment_id, checkpoint: checkpoint.clone(), data_hash: *data_hash, reporter: *reporter, counter: *counter },
            ShipmentEvent::ShipmentCancelled { shipment_id, caller, reason_hash, counter } =>
                ShipmentEvent::ShipmentCancelled { shipment_id: *shipment_id, caller: *caller, reason_hash: *reason_hash, counter: *counter },
            ShipmentEvent::DeliverySuccess { carrier, shipment_id, timestamp, counter } =>
                ShipmentEvent::DeliverySuccess { carrier: *carrier, shipment_id: *shipment_id, timestamp: *timestamp, counter: *counter },
            ShipmentEvent::RoleChanged { action, admin, target, role, timestamp } =>
                ShipmentEvent::RoleChanged { action: *action, admin: *admin, target: *target, role: *role, timestamp: *timestamp },
        }
    }

    fn numbering_of(&self) -> (numbering: Option<(u64, u32)>)
        ensures
            numbering == self.numbering(),
    {
        match self {
            ShipmentEvent::ShipmentCreated { shipment_id, counter, .. } => Some((*shipment_id, *counter)),
            ShipmentEvent::StatusUpdated { shipment_id, counter, .. } => Some((*shipment_id, *counter)),
            ShipmentEvent::EscrowDeposited { shipment_id, counter, .. } => Some((*shipment_id, *counter)),
            ShipmentEvent::EscrowReleased { shipment_id, counter, .. } => Some((*shipment_id, *counter)),
            ShipmentEvent::EscrowRefunded { shipment_id, counter, .. } => Some((*shipment_id, *counter)),
            ShipmentEvent::DisputeResolved { shipment_id, counter, .. } => Some((*shipment_id, *counter)),
            ShipmentEvent::MilestoneRecorded { shipment_id, counter, .. } => Some((*shipment_id, *counter)),
            ShipmentEvent::ShipmentCancelled { shipment_id, counter, .. } => Some((*shipment_id, *counter)),
            ShipmentEvent::DeliverySuccess { shipment_id, counter, .. } => Some((*shipment_id, *counter)),
            _ => None,
        }
    }

    /// The payload the event is published with.  The idempotency key of a
    /// numbered event is hashed by the host, which aborts the invocation once
    /// the environment's budget is spent.
    pub fn payload(&self, env: &soroban_sdk::Env) -> (payload: Vec<EventField>)
        ensures
            self.is_payload(payload@),
    {
        let mut payload = self.fields();
        let ghost fields = payload@;
        match self.numbering_of() {
            None => {},
            Some((shipment_id, counter)) => {
                payload.push(EventField::U32(EVENT_SCHEMA_VERSION));
                payload.push(EventField::U32(counter));
                proof {
                    self.lemma_topic_is_short();
                }
                let key = generate_idempotency_key(env, SHIPMENT_EVENT_DOMAIN, shipment_id, self.topic(), counter);
                payload.push(EventField::Hash(key));
                proof {
                    assert(payload@.take(fields.len() as int) =~= fields);
                }
            },
        }
        payload
    }
}


/// Event `e` is published under `topic`.
pub open spec fn has_topic(e: ShipmentEvent, topic: Seq<u8>) -> bool {
    e.spec_topic().spec_bytes() == topic
}

/// The events of `events` published under `topic`, in order.
pub open spec fn with_topic(events: Seq<ShipmentEvent>, topic: Seq<u8>) -> Seq<ShipmentEvent>
    decreases events.len(),
{
    if events.len() == 0 {
        Seq::empty()
    } else if has_topic(events.last(), topic) {
        with_topic(events.drop_last(), topic).push(events.last())
    } else {
        with_topic(events.drop_last(), topic)
    }
}

/// Selecting by topic distributes over splitting the log at `k`.
pub proof fn lemma_with_topic_split(events: Seq<ShipmentEvent>, topic: Seq<u8>, k: int)
    requires
        0 <= k <= events.len(),
    ensures
        with_topic(events, topic) == with_topic(events.take(k), topic) + with_topic(events.skip(k), topic),
    decreases events.len(),
{
    if k == events.len() {
        assert(events.take(k) =~= events);
        assert(events.skip(k) =~= Seq::<ShipmentEvent>::empty());
        assert(with_topic(events, topic) + Seq::<ShipmentEvent>::empty() =~= with_topic(events, topic));
    } else {
        let init = events.drop_last();
        lemma_with_topic_split(init, topic, k);
        assert(init.take(k) =~= events.take(k));
        assert(events.skip(k).drop_last() =~= init.skip(k));
        assert(events.skip(k).last() == events.last());
        let a = with_topic(events.take(k), topic);
        let b = with_topic(init.skip(k), topic);
        if has_topic(events.last(), topic) {
            assert((a + b).push(events.last()) =~= a + b.push(events.last()));
        }
    }
}

/// Selecting by topic from a log grown by one event.
pub proof fn lemma_with_topic_push(events: Seq<ShipmentEvent>, topic: Seq<u8>, e: ShipmentEvent)
    ensures
        with_topic(events.push(e), topic) == (if has_topic(e, topic) {
            with_topic(events, topic).push(e)
        } else {
            with_topic(events, topic)
        }),
{
    assert(events.push(e).drop_last() =~= events);
}

fn same_text(a: &str, b: &str) -> (same: bool)
    ensures
        same == (a.spec_bytes() == b.spec_bytes()),
{
    let x = a.as_bytes();
    let y = b.as_bytes();
    if x.len() != y.len() {
        return false;
    }
    let mut i: usize = 0;
    while i < x.len()
        invariant
            x@ == a.spec_bytes(),
            y@ == b.spec_bytes(),
            x@.len() == y@.len(),
            i <= x@.len(),
            forall|j: int| 0 <= j < i ==> x@[j] == y@[j],
        decreases x@.len() - i,
    {
        if x[i] != y[i] {
            proof {
                assert(x@[i as int] != y@[i as int]);
            }
            return false;
        }
        i = i + 1;
    }
    proof {
        assert(x@ =~= y@);
    }
    true
}

/// The topics of `events`, in the order they were published.
pub fn topics_emitted(events: &Vec<ShipmentEvent>) -> (topics: Vec<&'static str>)
    ensures
        topics@ == events@.map_values(|e: ShipmentEvent| e.spec_topic()),
{
    let mut topics: Vec<&'static str> = Vec::new();
    let mut i: usize = 0;
    while i < events.len()
        invariant
            i <= events@.len(),
            topics@ == events@.take(i as int).map_values(|e: ShipmentEvent| e.spec_topic()),
        decreases events@.len() - i,
    {
        topics.push(events[i].topic());
        proof {
            assert(events@.take(i + 1) =~= events@.take(i as int).push(events@[i as int]));
            assert(topics@ =~= events@.take(i + 1).map_values(|e: ShipmentEvent| e.spec_topic()));
        }
        i = i + 1;
    }
    proof {
        assert(events@.take(events@.len() as int) =~= events@);
    }
    topics
}

/// The payload of the first event of `events` published under `topic`, or
/// `None` when no event has that topic.  Building the payload hashes once on
/// the host, which aborts the invocation once the environment's budget is
/// spent.
pub fn find_event_data(env: &soroban_sdk::Env, events: &Vec<ShipmentEvent>, topic: &str) -> (found: Option<Vec<EventField>>)
    ensures
        found is None <==> with_topic(events@, topic.spec_bytes()).len() == 0,
        found matches Some(p) ==> with_topic(events@, topic.spec_bytes())[0].is_payload(p@),
{
    let ghost t = topic.spec_bytes();
    let mut i: usize = 0;
    while i < events.len()
        invariant
            i <= events@.len(),
            t == topic.spec_bytes(),
            with_topic(events@.take(i as int), t).len() == 0,
        decreases events@.len() - i,
    {
        if same_text(events[i].topic(), topic) {
            proof {
                lemma_with_topic_split(events@, t, i as int);
                lemma_with_topic_split(events@.skip(i as int), t, 1);
                assert(events@.skip(i as int).take(1) =~= seq![events@[i as int]]);
                assert(seq![events@[i as int]] =~= Seq::<ShipmentEvent>::empty().push(events@[i as int]));
                lemma_with_topic_push(Seq::<ShipmentEvent>::empty(), t, events@[i as int]);
                assert(with_topic(events@, t)[0] == events@[i as int]);
            }
            return Some(events[i].payload(env));
        }
        proof {
            assert(events@.take(i + 1) =~= events@.take(i as int).push(events@[i as int]));
            lemma_with_topic_push(events@.take(i as int), t, events@[i as int]);
        }
        i = i + 1;
    }
    proof {
        assert(events@.take(events@.len() as int) =~= events@);
    }
    None
}

/// The payloads of all events of `events` published under `topic`, in order.
/// Each numbered event found costs one hash on the host, which aborts the
/// invocation once the environment's budget is spent: a long log can spend it.
pub fn find_all_event_data(env: &soroban_sdk::Env, events: &Vec<ShipmentEvent>, topic: &str) -> (found: Vec<Vec<EventField>>)
    ensures
        found@.len() == with_topic(events@, topic.spec_bytes()).len(),
        forall|k: int| 0 <= k < found@.len() ==> with_topic(events@, topic.spec_bytes())[k].is_payload(#[trigger] found@[k]@),
{
    let ghost t = topic.spec_bytes();
    let mut found: Vec<Vec<EventField>> = Vec::new();
    let mut i: usize = 0;
    while i < events.len()
        invariant
            i <= events@.len(),
            t == topic.spec_bytes(),
            found@.len() == with_topic(events@.take(i as int), t).len(),
            forall|k: int| 0 <= k < found@.len() ==> with_topic(events@.take(i as int), t)[k].is_payload(#[trigger] found@[k]@),
        decreases events@.len() - i,
    {
        proof {
            assert(events@.take(i + 1) =~= events@.take(i as int).push(events@[i as int]));
            lemma_with_topic_push(events@.take(i as int), t, events@[i as int]);
        }
        if same_text(events[i].topic(), topic) {
            let p = events[i].payload(env);
            found.push(p);
        }
        i = i + 1;
    }
    proof {
        assert(events@.take(events@.len() as int) =~= events@);
    }
    found
}

/// The payload layouts are fixed: each event's payload starts with these
/// fields, in this order — for an escrow movement its shipment, the party the
/// tokens come from or go to, the amount and the token — and a numbered event's
/// payload then holds the schema version and its number.
pub proof fn lemma_payload_layout(e: ShipmentEvent, p: Seq<EventField>)
    requires
        e.is_payload(p),
    ensures
        match e {
            ShipmentEvent::ShipmentCreated { shipment_id, sender, receiver, token, data_hash, counter } =>
                p.len() == 8 && p[0] == EventField::U64(shipment_id) && p[1] == EventField::Address(sender)
                && p[2] == EventField::Address(receiver) && p[3] == EventField::Address(token)
                && p[4] == EventField::Hash(data_hash) && p[5] == EventField::U32(EVENT_SCHEMA_VERSION)
                && p[6] == EventField::U32(counter),
            ShipmentEvent::StatusUpdated { shipment_id, old_status, new_status, token, data_hash, counter } =>
                p.len() == 8 && p[0] == EventField::U64(shipment_id) && p[1] == EventField::Status(old_status)
                && p[2] == EventField::Status(new_status) && p[3] == EventField::Address(token)
                && p[4] == EventField::Hash(data_hash) && p[5] == EventField::U32(EVENT_SCHEMA_VERSION)
                && p[6] == EventField::U32(counter),
            ShipmentEvent::EscrowDeposited { shipment_id, from, amount, token, counter } =>
                p.len() == 7 && p[0] == EventField::U64(shipment_id) && p[1] == EventField::Address(from)
                && p[2] == EventField::I128(amount) && p[3] == EventField::Address(token)
                && p[4] == EventField::U32(EVENT_SCHEMA_VERSION) && p[5] == EventField::U32(counter),
            ShipmentEvent::EscrowReleased { shipment_id, to, amount, token, counter } =>
                p.len() == 7 && p[0] == EventField::U64(shipment_id) && p[1] == EventField::Address(to)
                && p[2] == EventField::I128(amount) && p[3] == EventField::Address(token)
                && p[4] == EventField::U32(EVENT_SCHEMA_VERSION) && p[5] == EventField::U32(counter),
            ShipmentEvent::EscrowRefunded { shipment_id, to, amount, token, counter } =>
                p.len() == 7 && p[0] == EventField::U64(shipment_id) && p[1] == EventField::Address(to)
                && p[2] == EventField::I128(amount) && p[3] == EventField::Address(token)
                && p[4] == EventField::U32(EVENT_SCHEMA_VERSION) && p[5] == EventField::U32(counter),
            ShipmentEvent::DisputeRaised { shipment_id, raised_by, reason_hash } =>
                p.len() == 3 && p[0] == EventField::U64(shipment_id) && p[1] == EventField::Address(raised_by)
                && p[2] == EventField::Hash(reason_hash),
            ShipmentEvent::DisputeResolved { shipment_id, resolution, reason_hash, admin, counter } =>
                p.len() == 7 && p[0] == EventField::U64(shipment_id) && p[1] == EventField::Resolution(resolution)
                && p[2] == EventField::Hash(reason_hash) && p[3] == EventField::Address(admin)
                && p[4] == EventField::U32(EVENT_SCHEMA_VERSION) && p[5] == EventField::U32(counter),
            ShipmentEvent::EscrowFrozen { shipment_id, reason_hash, caller, timestamp } =>
                p.len() == 4 && p[0] == EventField::U64(shipment_id) && p[1] == EventField::Hash(reason_hash)
                && p[2] == EventField::Address(caller) && p[3] == EventField::U64(timestamp),
            ShipmentEvent::MilestoneRecorded { shipment_id, checkpoint, data_hash, reporter, counter } =>
                p.len() == 7 && p[0] == EventField::U64(shipment_id) && p[1] == EventField::Symbol(checkpoint)
                && p[2] == EventField::Hash(data_hash) && p[3] == EventField::Address(reporter)
                && p[4] == EventField::U32(EVENT_SCHEMA_VERSION) && p[5] == EventField::U32(counter),
            ShipmentEvent::ShipmentCancelled { shipment_id, caller, reason_hash, counter } =>
                p.len() == 6 && p[0] == EventField::U64(shipment_id) && p[1] == EventField::Address(caller)
                && p[2] == EventField::Hash(reason_hash) && p[3] == EventField::U32(EVENT_SCHEMA_VERSION)
                && p[4] == EventField::U32(counter),
            ShipmentEvent::DeliverySuccess { carrier, shipment_id, timestamp, counter } =>
                p.len() == 6 && p[0] == EventField::Address(carrier) && p[1] == EventField::U64(shipment_id)
                && p[2] == EventField::U64(timestamp) && p[3] == EventField::U32(EVENT_SCHEMA_VERSION)
                && p[4] == EventField::U32(counter),
            ShipmentEvent::RoleChanged { action, admin, target, role, timestamp } =>
                p.len() == 5 && p[0] == EventField::Action(action) && p[1] == EventField::Address(admin)
                && p[2] == EventField::Address(target) && p[3] == EventField::Role(role)
                && p[4] == EventField::U64(timestamp),
        },
{
    let f = e.spec_fields();
    let n = f.len() as int;
    if e.numbering() is Some {
        assert forall|k: int| 0 <= k < n implies p[k] == f[k] by {
            assert(p.take(n)[k] == p[k]);
        }
    } else {
        assert(p =~= f);
    }
}

/// Selecting by topic keeps exactly the events with that topic, in the order
/// they were published: everything selected has the topic, the first event
/// with the topic comes first, and nothing is selected when no event has it.
pub proof fn lemma_with_topic_selects(events: Seq<ShipmentEvent>, topic: Seq<u8>, i: int)
    ensures
        forall|k: int| 0 <= k < with_topic(events, topic).len() ==> has_topic(#[trigger] with_topic(events, topic)[k], topic),
        (forall|k: int| 0 <= k < events.len() ==> !has_topic(#[trigger] events[k], topic)) ==> with_topic(events, topic).len() == 0,
        0 <= i < events.len() && has_topic(events[i], topic) && (forall|k: int| 0 <= k < i ==> !has_topic(#[trigger] events[k], topic))
            ==> with_topic(events, topic).len() > 0 && with_topic(events, topic)[0] == events[i],
    decreases events.len(),
{
    if events.len() > 0 {
        let init = events.drop_last();
        lemma_with_topic_selects(init, topic, i);
        assert forall|k: int| 0 <= k < init.len() implies init[k] == events[k] by {}
        if 0 <= i < events.len() && has_topic(events[i], topic) && (forall|k: int| 0 <= k < i ==> !has_topic(#[trigger] events[k], topic)) {
            if i == events.len() - 1 {
                assert forall|k: int| 0 <= k < init.len() implies !has_topic(#[trigger] init[k], topic) by {
                    assert(init[k] == events[k]);
                }
            } else {
                assert(forall|k: int| 0 <= k < i ==> !has_topic(#[trigger] init[k], topic));
            }
        }
        if forall|k: int| 0 <= k < events.len() ==> !has_topic(#[trigger] events[k], topic) {
            assert forall|k: int| 0 <= k < init.len() implies !has_topic(#[trigger] init[k], topic) by {
                assert(init[k] == events[k]);
            }
            assert(!has_topic(events[events.len() - 1], topic));
        }
    }
}

} // verus!
