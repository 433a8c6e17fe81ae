//! Error cases, milestone arithmetic and escrow accounting of the shipment contract.

use orbit_haul::shipment::{
    DisputeResolution, OrbitHaulError, OrbitHaulShipment, SettlementOperation, ShipmentStatus,
};

const ADMIN: u64 = 1;
const COMPANY: u64 = 2;
const CARRIER: u64 = 3;
const RECEIVER: u64 = 4;
const CONTRACT: u64 = 9;
const TOKEN: u64 = 50;
const NOW: u64 = 1_000;

fn ready() -> OrbitHaulShipment {
    let mut c = OrbitHaulShipment::new(CONTRACT);
    c.initialize(ADMIN, TOKEN).unwrap();
    c.add_company(ADMIN, COMPANY, NOW).unwrap();
    c.add_carrier(ADMIN, CARRIER, NOW).unwrap();
    c.add_carrier_to_whitelist(COMPANY, CARRIER).unwrap();
    c
}

fn create(c: &mut OrbitHaulShipment, milestones: &Vec<(String, u32)>) -> u64 {
    c.create_shipment(COMPANY, RECEIVER, CARRIER, [7; 32], milestones, NOW + 100, NOW).unwrap()
}

fn ok(_: u64, _: u64, _: u64, _: i128) -> bool {
    true
}

fn escrow_net(c: &OrbitHaulShipment) -> i128 {
    let mut net = 0;
    for n in 1..=c.get_settlement_count() {
        let s = c.get_settlement(n).unwrap();
        match s.operation {
            SettlementOperation::Deposit => net += s.amount,
            _ => net -= s.amount,
        }
    }
    net
}

fn escrow_total(c: &OrbitHaulShipment) -> i128 {
    (1..=c.get_shipment_count()).map(|id| c.get_escrow_balance(id).unwrap()).sum()
}

#[test]
fn roles_are_admin_only_and_checked() {
    let mut c = OrbitHaulShipment::new(CONTRACT);
    assert_eq!(c.add_company(ADMIN, COMPANY, NOW), Err(OrbitHaulError::NotInitialized));
    c.initialize(ADMIN, TOKEN).unwrap();
    assert_eq!(c.initialize(ADMIN, 51), Err(OrbitHaulError::AlreadyInitialized));
    assert_eq!(c.add_company(COMPANY, COMPANY, NOW), Err(OrbitHaulError::Unauthorized));
    assert_eq!(c.add_carrier(CARRIER, CARRIER, NOW), Err(OrbitHaulError::Unauthorized));
    assert_eq!(c.suspend_company(ADMIN, COMPANY, NOW), Err(OrbitHaulError::RoleNotFound));
    c.add_company(ADMIN, COMPANY, NOW).unwrap();
    assert_eq!(c.add_carrier_to_whitelist(COMPANY, CARRIER), Err(OrbitHaulError::RoleNotFound));
    assert_eq!(c.add_carrier_to_whitelist(RECEIVER, CARRIER), Err(OrbitHaulError::Unauthorized));
    c.add_carrier(ADMIN, CARRIER, NOW).unwrap();
    c.add_carrier_to_whitelist(COMPANY, CARRIER).unwrap();
    assert!(c.is_whitelisted(COMPANY, CARRIER));
    assert!(c.is_carrier(CARRIER));
    assert!(c.is_active_company(COMPANY));
    c.suspend_company(ADMIN, COMPANY, NOW).unwrap();
    assert!(!c.is_active_company(COMPANY));
    assert_eq!(
        c.create_shipment(COMPANY, RECEIVER, CARRIER, [0; 32], &Vec::new(), NOW + 1, NOW),
        Err(OrbitHaulError::Unauthorized)
    );
}

#[test]
fn creation_checks_whitelist_deadline_and_schedule() {
    let mut c = ready();
    let none: Vec<(String, u32)> = Vec::new();
    assert_eq!(
        c.create_shipment(COMPANY, RECEIVER, 99, [0; 32], &none, NOW + 1, NOW),
        Err(OrbitHaulError::CarrierNotWhitelisted)
    );
    assert_eq!(
        c.create_shipment(COMPANY, RECEIVER, CARRIER, [0; 32], &none, NOW, NOW),
        Err(OrbitHaulError::InvalidDeadline)
    );
    let short = vec![(String::from("a"), 40u32), (String::from("b"), 50u32)];
    assert_eq!(
        c.create_shipment(COMPANY, RECEIVER, CARRIER, [0; 32], &short, NOW + 1, NOW),
        Err(OrbitHaulError::InvalidMilestones)
    );
    let zero = vec![(String::from("a"), 0u32), (String::from("b"), 100u32)];
    assert_eq!(
        c.create_shipment(COMPANY, RECEIVER, CARRIER, [0; 32], &zero, NOW + 1, NOW),
        Err(OrbitHaulError::InvalidMilestones)
    );
    let over = vec![(String::from("a"), 150u32)];
    assert_eq!(
        c.create_shipment(COMPANY, RECEIVER, CARRIER, [0; 32], &over, NOW + 1, NOW),
        Err(OrbitHaulError::InvalidMilestones)
    );
    assert_eq!(c.get_shipment_count(), 0);
    assert_eq!(create(&mut c, &none), 1);
    assert_eq!(create(&mut c, &vec![(String::from("x"), 100u32)]), 2);
    let s = c.get_shipment(2).unwrap();
    assert_eq!((s.id, s.sender, s.receiver, s.carrier, s.deadline), (2, COMPANY, RECEIVER, CARRIER, NOW + 100));
    assert_eq!(s.status, ShipmentStatus::Created);
    assert_eq!(c.get_shipment(3).unwrap_err(), OrbitHaulError::ShipmentNotFound);
    assert_eq!(c.get_shipment(0).unwrap_err(), OrbitHaulError::ShipmentNotFound);
}

#[test]
fn deposit_rules() {
    let mut c = ready();
    let id = create(&mut c, &Vec::new());
    assert_eq!(c.deposit_escrow(COMPANY, 5, 10, ok), Err(OrbitHaulError::ShipmentNotFound));
    assert_eq!(c.deposit_escrow(RECEIVER, id, 10, ok), Err(OrbitHaulError::Unauthorized));
    assert_eq!(c.deposit_escrow(COMPANY, id, 0, ok), Err(OrbitHaulError::InvalidAmount));
    let mut asked = None;
    c.deposit_escrow(COMPANY, id, 10, |tok, f, t, a| {
        assert_eq!(tok, TOKEN);
        asked = Some((f, t, a));
        true
    })
    .unwrap();
    assert_eq!(asked, Some((COMPANY, CONTRACT, 10)));
    assert_eq!(c.deposit_escrow(COMPANY, id, 10, ok), Err(OrbitHaulError::EscrowAlreadyDeposited));
    c.update_status(CARRIER, id, ShipmentStatus::InTransit, [1; 32]).unwrap();
    let other = create(&mut c, &Vec::new());
    c.update_status(CARRIER, other, ShipmentStatus::InTransit, [1; 32]).unwrap();
    assert_eq!(c.deposit_escrow(COMPANY, other, 10, ok), Err(OrbitHaulError::InvalidStatus));
}

#[test]
fn status_changes_are_restricted() {
    let mut c = ready();
    let id = create(&mut c, &Vec::new());
    assert_eq!(c.update_status(COMPANY, id, ShipmentStatus::InTransit, [1; 32]), Err(OrbitHaulError::Unauthorized));
    assert_eq!(c.update_status(CARRIER, id, ShipmentStatus::Delivered, [1; 32]), Err(OrbitHaulError::InvalidStatus));
    c.update_status(CARRIER, id, ShipmentStatus::InTransit, [9; 32]).unwrap();
    assert_eq!(c.get_shipment(id).unwrap().data_hash, [9; 32]);
    assert_eq!(c.update_status(CARRIER, id, ShipmentStatus::InTransit, [1; 32]), Err(OrbitHaulError::InvalidStatus));
    assert_eq!(c.confirm_delivery(COMPANY, id, [8; 32], NOW, ok), Err(OrbitHaulError::Unauthorized));
    // nothing in escrow: delivery needs no token movement
    c.confirm_delivery(RECEIVER, id, [8; 32], NOW, |_, _, _, _| panic!("no transfer expected")).unwrap();
    assert_eq!(c.get_shipment(id).unwrap().status, ShipmentStatus::Delivered);
    assert_eq!(c.get_settlement_count(), 0);
}

#[test]
fn refund_and_cancel_rules() {
    let mut c = ready();
    let id = create(&mut c, &Vec::new());
    assert_eq!(c.refund_escrow(COMPANY, id, ok), Err(OrbitHaulError::NoEscrow));
    c.deposit_escrow(COMPANY, id, 400, ok).unwrap();
    assert_eq!(c.cancel_shipment(COMPANY, id, [6; 32]), Err(OrbitHaulError::EscrowLocked));
    assert_eq!(c.refund_escrow(RECEIVER, id, ok), Err(OrbitHaulError::Unauthorized));
    let mut asked = None;
    c.refund_escrow(COMPANY, id, |tok, f, t, a| {
        assert_eq!(tok, TOKEN);
        asked = Some((f, t, a));
        true
    })
    .unwrap();
    assert_eq!(asked, Some((CONTRACT, COMPANY, 400)));
    assert_eq!(c.get_shipment(id).unwrap().status, ShipmentStatus::Cancelled);
    assert_eq!(c.get_escrow_balance(id), Ok(0));
    assert_eq!(c.get_settlement(2).unwrap().operation, SettlementOperation::Refund);

    let plain = create(&mut c, &Vec::new());
    assert_eq!(c.cancel_shipment(RECEIVER, plain, [6; 32]), Err(OrbitHaulError::Unauthorized));
    c.cancel_shipment(COMPANY, plain, [6; 32]).unwrap();
    assert_eq!(c.get_shipment(plain).unwrap().status, ShipmentStatus::Cancelled);
    assert_eq!(c.cancel_shipment(COMPANY, plain, [6; 32]), Err(OrbitHaulError::InvalidStatus));
}

#[test]
fn disputes_freeze_escrow_until_resolved() {
    let mut c = ready();
    let id = create(&mut c, &Vec::new());
    c.deposit_escrow(COMPANY, id, 1_000, ok).unwrap();
    assert_eq!(c.raise_dispute(99, id, [5; 32], NOW), Err(OrbitHaulError::Unauthorized));
    c.raise_dispute(RECEIVER, id, [5; 32], NOW).unwrap();
    assert_eq!(c.get_shipment(id).unwrap().status, ShipmentStatus::Disputed);
    assert_eq!(c.refund_escrow(COMPANY, id, ok), Err(OrbitHaulError::InvalidStatus));
    assert_eq!(c.raise_dispute(COMPANY, id, [5; 32], NOW), Err(OrbitHaulError::InvalidStatus));
    assert_eq!(
        c.resolve_dispute(COMPANY, id, DisputeResolution::RefundToCompany, [4; 32], ok),
        Err(OrbitHaulError::Unauthorized)
    );
    let mut asked = None;
    c.resolve_dispute(ADMIN, id, DisputeResolution::ReleaseToCarrier, [4; 32], |tok, f, t, a| {
        assert_eq!(tok, TOKEN);
        asked = Some((f, t, a));
        true
    })
    .unwrap();
    assert_eq!(asked, Some((CONTRACT, CARRIER, 1_000)));
    assert_eq!(c.get_shipment(id).unwrap().status, ShipmentStatus::Delivered);
    assert_eq!(
        c.resolve_dispute(ADMIN, id, DisputeResolution::RefundToCompany, [4; 32], ok),
        Err(OrbitHaulError::InvalidStatus)
    );

    let other = create(&mut c, &Vec::new());
    c.deposit_escrow(COMPANY, other, 250, ok).unwrap();
    c.raise_dispute(COMPANY, other, [5; 32], NOW).unwrap();
    assert_eq!(
        c.resolve_dispute(ADMIN, other, DisputeResolution::RefundToCompany, [4; 32], |_, _, _, _| false),
        Err(OrbitHaulError::TokenTransferFailed)
    );
    assert_eq!(c.get_shipment(other).unwrap().status, ShipmentStatus::Disputed);
    c.resolve_dispute(ADMIN, other, DisputeResolution::RefundToCompany, [4; 32], ok).unwrap();
    assert_eq!(c.get_shipment(other).unwrap().status, ShipmentStatus::Cancelled);
}

#[test]
fn milestone_payments_round_down_and_pay_once() {
    let mut c = ready();
    let schedule = vec![(String::from("dock"), 33u32), (String::from("port"), 67u32)];
    let id = create(&mut c, &schedule);
    c.deposit_escrow(COMPANY, id, 333, ok).unwrap();
    assert_eq!(c.record_milestone(CARRIER, id, &String::from("dock"), [3; 32], ok), Err(OrbitHaulError::InvalidStatus));
    c.update_status(CARRIER, id, ShipmentStatus::InTransit, [1; 32]).unwrap();
    assert_eq!(c.record_milestone(COMPANY, id, &String::from("dock"), [3; 32], ok), Err(OrbitHaulError::Unauthorized));
    let mut paid = None;
    c.record_milestone(CARRIER, id, &String::from("dock"), [3; 32], |tok, f, t, a| {
        assert_eq!(tok, TOKEN);
        paid = Some((f, t, a));
        true
    })
    .unwrap();
    // 333 * 33 / 100 = 109.89, rounded down
    assert_eq!(paid, Some((CONTRACT, CARRIER, 109)));
    assert_eq!(c.get_escrow_balance(id), Ok(224));
    assert_eq!(c.record_milestone(CARRIER, id, &String::from("dock"), [3; 32], ok), Err(OrbitHaulError::MilestoneAlreadyPaid));
    // an unknown checkpoint is recorded without payment
    c.record_milestone(CARRIER, id, &String::from("wh"), [3; 32], |_, _, _, _| panic!("no transfer expected")).unwrap();
    c.record_milestone(CARRIER, id, &String::from("port"), [3; 32], ok).unwrap();
    // 333 * 67 / 100 = 223.11 -> 223, one token left for delivery
    assert_eq!(c.get_escrow_balance(id), Ok(1));
    let mut last = None;
    c.confirm_delivery(RECEIVER, id, [8; 32], NOW, |tok, f, t, a| {
        assert_eq!(tok, TOKEN);
        last = Some((f, t, a));
        true
    })
    .unwrap();
    assert_eq!(last, Some((CONTRACT, CARRIER, 1)));
    assert_eq!(c.get_escrow_balance(id), Ok(0));
}

#[test]
fn failed_milestone_payment_changes_nothing() {
    let mut c = ready();
    let id = create(&mut c, &vec![(String::from("m"), 100u32)]);
    c.deposit_escrow(COMPANY, id, 80, ok).unwrap();
    c.update_status(CARRIER, id, ShipmentStatus::InTransit, [1; 32]).unwrap();
    assert_eq!(
        c.record_milestone(CARRIER, id, &String::from("m"), [3; 32], |_, _, _, _| false),
        Err(OrbitHaulError::TokenTransferFailed)
    );
    assert_eq!(c.get_escrow_balance(id), Ok(80));
    c.record_milestone(CARRIER, id, &String::from("m"), [3; 32], ok).unwrap();
    assert_eq!(c.get_escrow_balance(id), Ok(0));
}

#[test]
fn settlements_account_for_all_escrow() {
    let mut c = ready();
    let a = create(&mut c, &vec![(String::from("half"), 50u32), (String::from("rest"), 50u32)]);
    let b = create(&mut c, &Vec::new());
    let d = create(&mut c, &Vec::new());
    c.deposit_escrow(COMPANY, a, 1_001, ok).unwrap();
    c.deposit_escrow(COMPANY, b, 300, ok).unwrap();
    c.deposit_escrow(COMPANY, d, 70, ok).unwrap();
    c.update_status(CARRIER, a, ShipmentStatus::InTransit, [1; 32]).unwrap();
    c.record_milestone(CARRIER, a, &String::from("half"), [3; 32], ok).unwrap();
    c.refund_escrow(COMPANY, b, ok).unwrap();
    c.raise_dispute(COMPANY, d, [5; 32], NOW).unwrap();
    assert_eq!(escrow_net(&c), escrow_total(&c));
    assert_eq!(escrow_total(&c), 501 + 70);
    assert_eq!(c.get_settlement(99).unwrap_err(), OrbitHaulError::SettlementNotFound);
    assert_eq!(c.get_settlement(0).unwrap_err(), OrbitHaulError::SettlementNotFound);
}

#[test]
fn delivered_shipments_are_final() {
    let mut c = ready();
    let id = create(&mut c, &Vec::new());
    c.deposit_escrow(COMPANY, id, 10, ok).unwrap();
    c.update_status(CARRIER, id, ShipmentStatus::InTransit, [1; 32]).unwrap();
    c.confirm_delivery(RECEIVER, id, [8; 32], NOW, ok).unwrap();
    assert_eq!(c.raise_dispute(COMPANY, id, [5; 32], NOW), Err(OrbitHaulError::InvalidStatus));
    assert_eq!(c.confirm_delivery(RECEIVER, id, [8; 32], NOW, ok), Err(OrbitHaulError::InvalidStatus));
    assert_eq!(c.refund_escrow(COMPANY, id, ok), Err(OrbitHaulError::InvalidStatus));
    assert_eq!(c.cancel_shipment(COMPANY, id, [6; 32]), Err(OrbitHaulError::InvalidStatus));
    assert_eq!(c.record_milestone(CARRIER, id, &String::from("x"), [3; 32], ok), Err(OrbitHaulError::InvalidStatus));
}

#[test]
fn operations_on_one_shipment_leave_the_others_alone() {
    let mut c = ready();
    let a = create(&mut c, &vec![(String::from("m"), 100u32)]);
    let b = create(&mut c, &Vec::new());
    c.deposit_escrow(COMPANY, b, 40, ok).unwrap();
    let before = c.get_shipment(b).unwrap();
    c.deposit_escrow(COMPANY, a, 90, ok).unwrap();
    c.update_status(CARRIER, a, ShipmentStatus::InTransit, [1; 32]).unwrap();
    c.record_milestone(CARRIER, a, &String::from("m"), [2; 32], ok).unwrap();
    c.confirm_delivery(RECEIVER, a, [3; 32], NOW, ok).unwrap();
    let after = c.get_shipment(b).unwrap();
    assert_eq!(
        (after.status, after.escrow_amount, after.total_escrow, after.event_count, after.data_hash),
        (before.status, before.escrow_amount, before.total_escrow, before.event_count, before.data_hash)
    );
    assert_eq!(c.get_escrow_balance(a), Ok(0));
    assert_eq!(c.get_escrow_balance(b), Ok(40));
}

#[test]
fn milestone_batch_is_all_or_nothing_and_pays_once() {
    let mut c = ready();
    let schedule = vec![(String::from("dock"), 30u32), (String::from("port"), 70u32)];
    let id = create(&mut c, &schedule);
    c.deposit_escrow(COMPANY, id, 1_000, ok).unwrap();
    let batch = vec![(String::from("dock"), [1; 32]), (String::from("port"), [2; 32])];
    // not yet under way: refused before anything happens
    assert_eq!(
        c.record_milestones_batch(CARRIER, id, &batch, |_, _, _, _| panic!("no transfer expected")),
        Err(OrbitHaulError::InvalidStatus)
    );
    c.update_status(CARRIER, id, ShipmentStatus::InTransit, [9; 32]).unwrap();
    assert_eq!(
        c.record_milestones_batch(COMPANY, id, &batch, ok),
        Err(OrbitHaulError::Unauthorized)
    );
    // the same checkpoint twice: the second record fails, so nothing is applied
    let twice = vec![(String::from("dock"), [1; 32]), (String::from("dock"), [3; 32])];
    assert_eq!(
        c.record_milestones_batch(CARRIER, id, &twice, |_, _, _, _| panic!("no transfer expected")),
        Err(OrbitHaulError::MilestoneAlreadyPaid)
    );
    assert_eq!(c.get_escrow_balance(id), Ok(1_000));
    assert_eq!(c.get_shipment(id).unwrap().event_count, 3);
    // a refused token movement changes nothing
    assert_eq!(
        c.record_milestones_batch(CARRIER, id, &batch, |_, _, _, _| false),
        Err(OrbitHaulError::TokenTransferFailed)
    );
    assert_eq!(c.get_escrow_balance(id), Ok(1_000));
    assert_eq!(c.get_settlement_count(), 1);
    // both milestones paid in one movement, each recorded as its own settlement
    let mut moves = Vec::new();
    c.record_milestones_batch(CARRIER, id, &batch, |tok, f, t, a| {
        assert_eq!(tok, TOKEN);
        moves.push((f, t, a));
        true
    })
    .unwrap();
    assert_eq!(moves, vec![(CONTRACT, CARRIER, 1_000)]);
    assert_eq!(c.get_escrow_balance(id), Ok(0));
    assert_eq!(c.get_settlement_count(), 3);
    assert_eq!(c.get_settlement(2).unwrap().amount, 300);
    assert_eq!(c.get_settlement(3).unwrap().amount, 700);
    // created, deposited, in transit, then record + release for each milestone
    assert_eq!(c.get_shipment(id).unwrap().event_count, 7);
}
