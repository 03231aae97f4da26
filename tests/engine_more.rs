use stellar_save::address::Address;
use stellar_save::contract::{Invocation, StellarSaveContract};
use stellar_save::contribution::ContributionRecord;
use stellar_save::cycle_advancement::advance_group_cycle_logic;
use stellar_save::error::StellarSaveError;
use stellar_save::events::{EventEmitter, GroupCreated, ContractEvent};
use stellar_save::group::Group;
use stellar_save::ledger::{GroupLedger, MemberProfile};
use stellar_save::payout::PayoutRecord;

fn at(caller: Address, now: u64) -> Invocation {
    Invocation { caller, now }
}

fn ledger_at(creator: Address, amount: i128, duration: u64, max: u32, current_cycle: u32) -> GroupLedger {
    let mut g = Group::new(1, creator, amount, duration, max, 12345);
    g.current_cycle = current_cycle;
    GroupLedger::new(g)
}

fn with_members(mut l: GroupLedger, members: &[Address]) -> GroupLedger {
    for m in members {
        l.join(*m, 12345).unwrap();
    }
    l
}

fn started(duration: u64, started_at: u64) -> GroupLedger {
    let mut l = ledger_at(Address(1), 100, duration, 5, 0);
    l.group.started = true;
    l.group.started_at = started_at;
    l
}

#[test]
fn test_has_received_payout_false() {
    let mut l = ledger_at(Address(1), 100, 3600, 5, 2);
    l.payouts.push(PayoutRecord::new(Address(3), 1, 1, 500, 1));
    assert!(!l.has_received_payout(Address(2)));
}

#[test]
fn test_get_payout_position_success() {
    let mut l = with_members(ledger_at(Address(1), 100, 3600, 5, 0), &[Address(7), Address(8), Address(9)]);
    l.profiles[2] = Some(MemberProfile { address: Address(9), group_id: 1, payout_position: 2, joined_at: 12345 });
    assert_eq!(l.payout_position(Address(9)), Ok(2));
}

#[test]
fn test_get_payout_position_first_member() {
    let l = with_members(ledger_at(Address(1), 100, 3600, 5, 0), &[Address(7)]);
    assert_eq!(l.payout_position(Address(7)), Ok(0));
}

#[test]
#[should_panic(expected = "NotMember")]
fn test_get_payout_position_not_member() {
    let creator = Address(1);
    let mut c = StellarSaveContract::new();
    let id = c.create_group(&at(creator, 0), creator, 100, 3600, 5).unwrap();
    c.get_payout_position(id, Address(2)).unwrap();
}

#[test]
fn test_get_member_count_success() {
    let creator = Address(1);
    let mut c = StellarSaveContract::new();
    let id = c.create_group(&at(creator, 12345), creator, 100, 3600, 5).unwrap();
    assert_eq!(c.has_received_payout(id, Address(2)), Ok(false));
    assert_eq!(c.get_member_count(id), Ok(0));
}

#[test]
fn test_get_member_count_with_members() {
    let (m1, m2, m3) = (Address(2), Address(3), Address(4));
    let mut l = with_members(ledger_at(Address(1), 100, 3600, 5, 3), &[m1, m2, m3]);
    l.payouts.push(PayoutRecord::new(m1, 1, 0, 300, 1));
    l.payouts.push(PayoutRecord::new(m2, 1, 1, 300, 2));
    l.payouts.push(PayoutRecord::new(m3, 1, 2, 300, 3));
    assert!(l.has_received_payout(m1));
    assert!(l.has_received_payout(m2));
    assert!(l.has_received_payout(m3));
    assert!(!l.has_received_payout(Address(5)));
    assert_eq!(l.group.member_count, 3);
}

#[test]
fn test_get_member_total_contributions_single_cycle() {
    let member = Address(1);
    let mut l = ledger_at(member, 10_000_000, 3600, 5, 0);
    l.record_contribution(0, member, 10_000_000, 12345).unwrap();
    assert_eq!(l.member_total_contributions(member), Ok(10_000_000));
}

#[test]
fn test_get_member_total_contributions_partial_cycles() {
    let member = Address(1);
    let mut l = ledger_at(member, 10_000_000, 3600, 5, 3);
    l.record_contribution(0, member, 10_000_000, 12345).unwrap();
    l.record_contribution(2, member, 10_000_000, 12345 + 7200).unwrap();
    assert_eq!(l.member_total_contributions(member), Ok(10_000_000 * 2));
}

#[test]
fn test_get_member_total_contributions_different_members() {
    let (m1, m2) = (Address(1), Address(2));
    let mut l = ledger_at(m1, 10_000_000, 3600, 5, 1);
    for cycle in 0..=1u32 {
        l.record_contribution(cycle, m1, 10_000_000, 12345 + cycle as u64 * 3600).unwrap();
    }
    l.record_contribution(0, m2, 10_000_000, 12345).unwrap();
    assert_eq!(l.member_total_contributions(m1), Ok(10_000_000 * 2));
    assert_eq!(l.member_total_contributions(m2), Ok(10_000_000));
}

#[test]
fn test_get_member_contribution_history_single_contribution() {
    let member = Address(1);
    let mut l = ledger_at(member, 10_000_000, 3600, 5, 0);
    l.record_contribution(0, member, 10_000_000, 12345).unwrap();
    let history = l.contribution_history(member, 0, 10);
    assert_eq!(history.len(), 1);
    assert_eq!(history[0].cycle_number, 0);
    assert_eq!(history[0].amount, 10_000_000);
}

#[test]
fn test_get_member_contribution_history_multiple_contributions() {
    let member = Address(1);
    let mut l = ledger_at(member, 10_000_000, 3600, 5, 2);
    for cycle in 0..=2u32 {
        l.record_contribution(cycle, member, 10_000_000, 12345 + cycle as u64 * 3600).unwrap();
    }
    let history = l.contribution_history(member, 0, 10);
    assert_eq!(history.len(), 3);
    for (i, r) in history.iter().enumerate() {
        assert_eq!(r.cycle_number, i as u32);
        assert_eq!(r.timestamp, 12345 + i as u64 * 3600);
    }
}

#[test]
fn test_get_cycle_contributions_single_member() {
    let member = Address(1);
    let mut l = with_members(ledger_at(member, 10_000_000, 3600, 5, 0), &[member]);
    l.record_contribution(0, member, 10_000_000, 12345).unwrap();
    let v = l.cycle_contributions(0);
    assert_eq!(v.len(), 1);
    assert_eq!(v[0].member_address, member);
    assert_eq!(v[0].amount, 10_000_000);
}

#[test]
fn test_get_cycle_contributions_multiple_members() {
    let ms = [Address(1), Address(2), Address(3)];
    let mut l = with_members(ledger_at(Address(1), 10_000_000, 3600, 5, 0), &ms);
    for m in ms.iter() {
        l.record_contribution(0, *m, 10_000_000, 12345).unwrap();
    }
    let v = l.cycle_contributions(0);
    assert_eq!(v.iter().map(|r| r.member_address).collect::<Vec<_>>(), ms.to_vec());
}

#[test]
fn test_get_cycle_contributions_verify_amounts() {
    let (m1, m2) = (Address(1), Address(2));
    let mut l = with_members(ledger_at(m1, 10_000_000, 3600, 5, 0), &[m1, m2]);
    for m in [m1, m2].iter() {
        l.record_contribution(0, *m, 10_000_000, 12345).unwrap();
    }
    let v = l.cycle_contributions(0);
    assert_eq!(v.len(), 2);
    let total: i128 = v.iter().map(|c| c.amount).fold(0i128, |acc, amt| acc + amt);
    assert_eq!(total, 10_000_000 * 2);
}

#[test]
#[should_panic(expected = "GroupNotFound")]
fn test_get_cycle_contributions_group_not_found() {
    let c = StellarSaveContract::new();
    c.get_cycle_contributions(999, 0).unwrap();
}

#[test]
#[should_panic(expected = "GroupNotFound")]
fn test_get_group_not_found() {
    let c = StellarSaveContract::new();
    c.get_group(999).unwrap();
}

#[test]
#[should_panic(expected = "GroupNotFound")]
fn test_join_group_not_found() {
    let mut c = StellarSaveContract::new();
    c.join_group(&at(Address(2), 0), 999, Address(2)).unwrap();
}

#[test]
#[should_panic(expected = "AlreadyMember")]
fn test_join_group_already_member() {
    let creator = Address(1);
    let mut c = StellarSaveContract::new();
    let id = c.create_group(&at(creator, 0), creator, 100, 3600, 5).unwrap();
    c.join_group(&at(Address(2), 0), id, Address(2)).unwrap();
    c.join_group(&at(Address(2), 0), id, Address(2)).unwrap();
}

#[test]
#[should_panic(expected = "GroupFull")]
fn test_join_group_full() {
    let creator = Address(1);
    let mut c = StellarSaveContract::new();
    let id = c.create_group(&at(creator, 0), creator, 100, 3600, 2).unwrap();
    for k in 2..=4u64 {
        c.join_group(&at(Address(k), 0), id, Address(k)).unwrap();
    }
}

#[test]
#[should_panic(expected = "InvalidState")]
fn test_join_group_already_active() {
    let creator = Address(1);
    let mut c = StellarSaveContract::new();
    let id = c.create_group(&at(creator, 0), creator, 100, 3600, 5).unwrap();
    c.join_group(&at(Address(2), 0), id, Address(2)).unwrap();
    c.join_group(&at(Address(3), 0), id, Address(3)).unwrap();
    c.activate_group(&at(creator, 0), id).unwrap();
    c.join_group(&at(Address(4), 0), id, Address(4)).unwrap();
}

#[test]
fn test_is_cycle_complete_exact_count() {
    let mut l = with_members(ledger_at(Address(1), 100, 3600, 3, 0), &[Address(1), Address(2), Address(3)]);
    for k in 1..=3u64 {
        assert!(!l.is_cycle_complete(0));
        l.record_contribution(0, Address(k), 100, 1).unwrap();
    }
    assert!(l.is_cycle_complete(0));
}

#[test]
fn test_validate_contribution_amount_zero() {
    let creator = Address(1);
    let mut c = StellarSaveContract::new();
    let id = c.create_group(&at(creator, 0), creator, 10_000_000, 3600, 5).unwrap();
    assert_eq!(c.validate_contribution_amount(id, 0), Err(StellarSaveError::InvalidAmount));
}

#[test]
fn test_validate_contribution_amount_negative() {
    let creator = Address(1);
    let mut c = StellarSaveContract::new();
    let id = c.create_group(&at(creator, 0), creator, 10_000_000, 3600, 5).unwrap();
    assert_eq!(c.validate_contribution_amount(id, -10_000_000), Err(StellarSaveError::InvalidAmount));
}

#[test]
fn test_validate_contribution_amount_too_high() {
    let creator = Address(1);
    let mut c = StellarSaveContract::new();
    let id = c.create_group(&at(creator, 0), creator, 10_000_000, 3600, 5).unwrap();
    assert_eq!(c.validate_contribution_amount(id, 20_000_000), Err(StellarSaveError::InvalidAmount));
}

#[test]
fn test_validate_contribution_amount_multiple_groups() {
    let creator = Address(1);
    let mut c = StellarSaveContract::new();
    let g1 = c.create_group(&at(creator, 0), creator, 10_000_000, 3600, 5).unwrap();
    let g2 = c.create_group(&at(creator, 0), creator, 50_000_000, 3600, 5).unwrap();
    assert!(c.validate_contribution_amount(g1, 10_000_000).is_ok());
    assert!(c.validate_contribution_amount(g2, 50_000_000).is_ok());
    assert_eq!(c.validate_contribution_amount(g1, 50_000_000), Err(StellarSaveError::InvalidAmount));
    assert_eq!(c.validate_contribution_amount(g2, 10_000_000), Err(StellarSaveError::InvalidAmount));
}

#[test]
fn test_get_missed_contributions_all_missed() {
    let ms = [Address(1), Address(2), Address(3)];
    let l = with_members(ledger_at(Address(1), 100, 3600, 5, 0), &ms);
    assert_eq!(l.missed_contributions(0), ms.to_vec());
}

#[test]
fn test_get_missed_contributions_different_cycles() {
    let ms = [Address(1), Address(2)];
    let mut l = with_members(ledger_at(Address(1), 100, 3600, 5, 0), &ms);
    l.record_contribution(0, Address(1), 100, 1).unwrap();
    l.record_contribution(1, Address(2), 100, 1).unwrap();
    assert_eq!(l.missed_contributions(0), vec![Address(2)]);
    assert_eq!(l.missed_contributions(1), vec![Address(1)]);
}

#[test]
fn test_get_missed_contributions_single_member() {
    let member = Address(5);
    let l = with_members(ledger_at(Address(1), 100, 3600, 5, 0), &[member]);
    assert_eq!(l.missed_contributions(0), vec![member]);
}

#[test]
fn test_get_missed_contributions_large_group() {
    let ms: Vec<Address> = (1..=10u64).map(Address).collect();
    let mut l = with_members(ledger_at(Address(1), 100, 3600, 10, 0), &ms);
    for m in ms.iter().take(5) {
        l.record_contribution(0, *m, 10_000_000, 12345).unwrap();
    }
    let missed = l.missed_contributions(0);
    assert_eq!(missed.len(), 5);
    for i in 0..5 {
        assert_eq!(missed[i], ms[i + 5]);
    }
}

#[test]
fn test_record_contribution_different_amounts() {
    let mut l = ledger_at(Address(1), 10_000_000, 3600, 5, 0);
    l.record_contribution(0, Address(2), 10_000_000, 12345).unwrap();
    l.record_contribution(0, Address(3), 20_000_000, 12345 + 100).unwrap();
    assert_eq!(l.get_cycle_total(0), 30_000_000);
    assert_eq!(l.get_cycle_count(0), 2);
}

#[test]
fn test_record_contribution_updates_existing_totals() {
    let mut l = ledger_at(Address(1), 10_000_000, 3600, 10, 0);
    for k in 10..15u64 {
        l.record_contribution(0, Address(k), 10_000_000, 1).unwrap();
    }
    assert_eq!(l.get_cycle_total(0), 50_000_000);
    assert_eq!(l.get_cycle_count(0), 5);
    l.record_contribution(0, Address(2), 10_000_000, 12345).unwrap();
    assert_eq!(l.get_cycle_total(0), 60_000_000);
    assert_eq!(l.get_cycle_count(0), 6);
}

#[test]
fn test_record_contribution_zero_initial_totals() {
    let mut l = ledger_at(Address(1), 10_000_000, 3600, 10, 0);
    assert_eq!(l.get_cycle_total(0), 0);
    assert_eq!(l.get_cycle_count(0), 0);
    l.record_contribution(0, Address(2), 10_000_000, 12345).unwrap();
    assert_eq!(l.get_cycle_total(0), 10_000_000);
    assert_eq!(l.get_cycle_count(0), 1);
}

#[test]
fn test_get_contribution_deadline_different_durations() {
    let l1 = started(604800, 1000000);
    let l2 = started(2592000, 1000000);
    let d1 = l1.contribution_deadline(0).unwrap();
    let d2 = l2.contribution_deadline(0).unwrap();
    assert_eq!(d1, 1000000 + 604800);
    assert_eq!(d2, 1000000 + 2592000);
    assert_ne!(d1, d2);
}

#[test]
fn test_get_contribution_deadline_time_remaining() {
    let l = started(604800, 1000000);
    let deadline = l.contribution_deadline(0).unwrap();
    let current_time = 1000000 + 100000;
    assert!(deadline > current_time);
    assert_eq!(deadline - current_time, 604800 - 100000);
}

#[test]
fn test_get_contribution_deadline_expired_cycle() {
    let l = started(604800, 1000000);
    let deadline = l.contribution_deadline(0).unwrap();
    assert!(1000000 + 604800 + 1000 > deadline);
}

#[test]
fn test_get_contribution_deadline_short_duration() {
    let l = started(3600, 1000000);
    assert_eq!(l.contribution_deadline(0), Ok(1000000 + 3600));
}

#[test]
fn test_get_contribution_deadline_consistency() {
    let l = started(604800, 1000000);
    let d1 = l.contribution_deadline(0);
    let d2 = l.contribution_deadline(0);
    let d3 = l.contribution_deadline(0);
    assert_eq!(d1, d2);
    assert_eq!(d2, d3);
}

#[test]
fn test_emergency_withdraw_emits_event() {
    let creator = Address(1);
    let member = Address(2);
    let mut c = StellarSaveContract::new();
    let id = c.create_group(&at(creator, 0), creator, 100, 3600, 3).unwrap();
    c.join_group(&at(creator, 0), id, creator).unwrap();
    c.join_group(&at(member, 0), id, member).unwrap();
    c.activate_group(&at(creator, 1_000_000), id).unwrap();
    c.emergency_withdraw(&at(member, 1_000_000 + 3 * 3600), id, member).unwrap();
    assert!(c.events.len() > 0);
}

#[test]
fn test_validate_payout_recipient_already_received() {
    let mut l = with_members(ledger_at(Address(1), 100, 3600, 3, 0), &[Address(1), Address(2)]);
    l.payouts.push(PayoutRecord::new(Address(1), 1, 0, 200, 1));
    assert!(!l.validate_payout_recipient(Address(1)));
}

#[test]
fn test_validate_payout_recipient_valid() {
    let creator = Address(1);
    let mut c = StellarSaveContract::new();
    let id = c.create_group(&at(creator, 0), creator, 100, 3600, 3).unwrap();
    c.join_group(&at(creator, 0), id, creator).unwrap();
    c.join_group(&at(Address(2), 0), id, Address(2)).unwrap();
    assert_eq!(c.validate_payout_recipient(id, creator), Ok(true));
}

#[test]
fn test_get_total_paid_out_single_payout() {
    let creator = Address(1);
    let mut l = ledger_at(creator, 100, 3600, 3, 1);
    l.payouts.push(PayoutRecord::new(creator, 1, 0, 300, 0));
    assert_eq!(l.total_paid_out(), Ok(300));
}

#[test]
fn test_get_total_paid_out_group_not_found() {
    let c = StellarSaveContract::new();
    assert_eq!(c.get_total_paid_out(1), Err(StellarSaveError::GroupNotFound));
}

#[test]
fn test_get_payout_schedule_single_member() {
    let creator = Address(1);
    let mut l = with_members(ledger_at(creator, 100, 3600, 3, 0), &[creator]);
    l.group.started = true;
    l.group.started_at = 1000000;
    let schedule = l.payout_schedule().unwrap();
    assert_eq!(schedule.len(), 1);
    assert_eq!(schedule[0].cycle, 0);
    assert_eq!(schedule[0].payout_date, 1003600);
}

#[test]
fn test_is_complete_not_started() {
    let creator = Address(1);
    let mut c = StellarSaveContract::new();
    let id = c.create_group(&at(creator, 0), creator, 100, 3600, 3).unwrap();
    assert_eq!(c.is_complete(id), Ok(false));
}

#[test]
fn test_is_complete_all_cycles_done() {
    let l = ledger_at(Address(1), 100, 3600, 3, 3);
    assert!(l.group.is_complete());
}

#[test]
fn test_get_payout_queue_all_received() {
    let ms = [Address(1), Address(2), Address(3)];
    let mut l = with_members(ledger_at(Address(1), 100, 3600, 3, 2), &ms);
    for (i, m) in ms.iter().enumerate() {
        l.payouts.push(PayoutRecord::new(*m, 1, i as u32, 300, 0));
    }
    assert_eq!(l.payout_queue().len(), 0);
}

#[test]
fn test_advance_group_cycle_logic_multiple_times() {
    let mut group = Group::new(1, Address(1), 10_000_000, 604800, 5, 1234567890);
    for expected in 1..=3u32 {
        advance_group_cycle_logic(&mut group).unwrap();
        assert_eq!(group.current_cycle, expected);
    }
    assert!(group.is_active);
}

#[test]
fn test_advance_group_cycle_logic_when_complete() {
    let mut group = Group::new(1, Address(1), 10_000_000, 604800, 2, 1234567890);
    group.current_cycle = 2;
    assert_eq!(advance_group_cycle_logic(&mut group), Err(StellarSaveError::InvalidState));
    assert_eq!(group.current_cycle, 2);
}

#[test]
fn test_advance_group_cycle_logic_intermediate() {
    let mut group = Group::new(1, Address(1), 10_000_000, 604800, 5, 1234567890);
    group.current_cycle = 2;
    advance_group_cycle_logic(&mut group).unwrap();
    assert_eq!(group.current_cycle, 3);
    assert!(group.is_active);
    assert!(!group.is_complete());
}

#[test]
fn test_advance_group_cycle_logic_maintains_properties() {
    let creator = Address(1);
    let mut group = Group::new(1, creator, 10_000_000, 604800, 3, 1234567890);
    advance_group_cycle_logic(&mut group).unwrap();
    assert_eq!(group.id, 1);
    assert_eq!(group.creator, creator);
    assert_eq!(group.contribution_amount, 10_000_000);
    assert_eq!(group.cycle_duration, 604800);
    assert_eq!(group.max_members, 3);
    assert_eq!(group.created_at, 1234567890);
}

#[test]
fn test_advance_group_cycle_logic_progression() {
    let mut group = Group::new(1, Address(1), 10_000_000, 604800, 4, 1234567890);
    for _ in 0..4 {
        assert!(!group.is_complete());
        advance_group_cycle_logic(&mut group).unwrap();
    }
    assert!(group.is_complete());
    assert!(!group.is_active);
    assert!(advance_group_cycle_logic(&mut group).is_err());
}

#[test]
fn test_group_created_event() {
    let event = GroupCreated {
        group_id: 1,
        creator: Address(1),
        contribution_amount: 10_000_000,
        cycle_duration: 604800,
        max_members: 5,
        created_at: 1234567890,
    };
    assert_eq!(event.group_id, 1);
    assert_eq!(event.contribution_amount, 10_000_000);
    assert_eq!(event.max_members, 5);
}

#[test]
fn test_member_joined_event() {
    let mut log = Vec::new();
    EventEmitter::emit_member_joined(&mut log, 1, Address(3), 2, 1234567890);
    match log[0] {
        ContractEvent::MemberJoined(e) => {
            assert_eq!(e.member, Address(3));
            assert_eq!(e.member_count, 2);
            assert_eq!(e.joined_at, 1234567890);
        },
        _ => panic!("expected a member-joined event"),
    }
}

#[test]
fn test_event_emitter_group_created() {
    let mut log = Vec::new();
    EventEmitter::emit_group_created(&mut log, 1, Address(1), 10_000_000, 604800, 5, 1234567890);
    assert_eq!(log.len(), 1);
    assert_eq!(
        log[0],
        ContractEvent::GroupCreated(GroupCreated {
            group_id: 1,
            creator: Address(1),
            contribution_amount: 10_000_000,
            cycle_duration: 604800,
            max_members: 5,
            created_at: 1234567890,
        })
    );
}

#[test]
fn contribution_records_compare_by_fields() {
    let r = ContributionRecord::new(Address(1), 1, 0, 5, 9);
    assert_eq!(r, ContributionRecord { member_address: Address(1), group_id: 1, cycle_number: 0, amount: 5, timestamp: 9 });
}

#[test]
fn test_has_received_payout_multiple_cycles() {
    let creator = Address(1);
    let mut c = StellarSaveContract::new();
    let id = c.create_group(&at(creator, 0), creator, 100, 3600, 5).unwrap();
    assert_eq!(c.get_member_count(id), Ok(0));
}

#[test]
fn test_is_cycle_complete_different_cycles() {
    let (creator, m1, m2) = (Address(1), Address(2), Address(3));
    let mut c = StellarSaveContract::new();
    let id = c.create_group(&at(creator, 1000), creator, 100, 3600, 3).unwrap();
    for m in [creator, m1, m2].iter() {
        c.join_group(&at(*m, 1000), id, *m).unwrap();
    }
    c.assign_payout_positions(&at(creator, 1000), id, creator, stellar_save::ledger::AssignmentMode::Random).unwrap();
    let pos0 = c.get_payout_position(id, creator).unwrap();
    let pos1 = c.get_payout_position(id, m1).unwrap();
    let pos2 = c.get_payout_position(id, m2).unwrap();
    assert!(pos0 < 3);
    assert!(pos1 < 3);
    assert!(pos2 < 3);
    assert_ne!(pos0, pos1);
    assert_ne!(pos0, pos2);
    assert_ne!(pos1, pos2);
}
