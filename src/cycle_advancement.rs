use vstd::prelude::*;
use crate::contract::{Invocation, StellarSaveContract};
use crate::error::StellarSaveError;
use crate::events::{ContractEvent, EventEmitter};
use crate::group::{Group, GroupStatus};

verus! {

/// The numeric code of a group's status (`Pending` = 0 up to `Cancelled` = 4).
pub open spec fn status_number(s: GroupStatus) -> u32 {
    match s {
        GroupStatus::Pending => 0,
        GroupStatus::Active => 1,
        GroupStatus::Paused => 2,
        GroupStatus::Completed => 3,
        GroupStatus::Cancelled => 4,
    }
}

fn status_number_of(s: GroupStatus) -> (r: u32)
    ensures
        r == status_number(s),
{
    match s {
        GroupStatus::Pending => 0,
        GroupStatus::Active => 1,
        GroupStatus::Paused => 2,
        GroupStatus::Completed => 3,
        GroupStatus::Cancelled => 4,
    }
}

/// Moves a group to its next cycle, without persisting it: refused once
/// every cycle is done.
pub fn advance_group_cycle_logic(group: &mut Group) -> (r: Result<(), StellarSaveError>)
    ensures
        old(group).complete() ==> r == Err::<(), StellarSaveError>(StellarSaveError::InvalidState) && *final(group)
            == *old(group),
        !old(group).complete() ==> r is Ok && final(group).current_cycle == old(group).current_cycle + 1,
        r is Ok ==> {
            &&& final(group).complete() ==> !final(group).is_active
            &&& final(group).complete() && old(group).status == GroupStatus::Active ==> final(group).status
                == GroupStatus::Completed
            &&& !(final(group).complete() && old(group).status == GroupStatus::Active) ==> final(group).status
                == old(group).status
            &&& !final(group).complete() ==> final(group).is_active == old(group).is_active
            &&& *final(group) == (Group {
                current_cycle: final(group).current_cycle,
                is_active: final(group).is_active,
                status: final(group).status,
                ..*old(group)
            })
        },
        old(group).wf() ==> final(group).wf(),
{
    if group.is_complete() {
        return Err(StellarSaveError::InvalidState);
    }
    group.advance_cycle();
    Ok(())
}

/// Moves group `group_id` of the engine to its next cycle. When that run was
/// the last, the change of status is published, attributed to the caller.
pub fn advance_group_to_next_cycle(
    contract: &mut StellarSaveContract,
    inv: &Invocation,
    group_id: u64,
) -> (r: Result<(), StellarSaveError>)
    requires
        old(contract).wf(),
    ensures
        final(contract).wf(),
        r is Err ==> StellarSaveContract::unchanged(*final(contract), *old(contract)),
        old(contract).ledger(group_id) is None ==> r == Err::<(), StellarSaveError>(StellarSaveError::GroupNotFound),
        old(contract).ledger(group_id) matches Some(l) ==> {
            &&& l.group.complete() ==> r == Err::<(), StellarSaveError>(StellarSaveError::InvalidState)
            &&& !l.group.complete() ==> r is Ok
        },
        r is Ok ==> (old(contract).ledger(group_id) matches Some(l) && final(contract).ledger(group_id) matches Some(l2)
            && l2.group.current_cycle == l.group.current_cycle + 1 && (l2.group.complete() ==> !l2.group.is_active)
            && (l2.group.complete() && l.group.status == GroupStatus::Active ==> l2.group.status
            == GroupStatus::Completed) && (!(l2.group.complete() && l.group.status == GroupStatus::Active)
            ==> l2.group.status == l.group.status) && l2.group == (Group {
            current_cycle: l2.group.current_cycle,
            is_active: l2.group.is_active,
            status: l2.group.status,
            ..l.group
        }) && l2.members == l.members && l2.profiles == l.profiles && l2.contributions == l.contributions
            && l2.tallies == l.tallies && l2.payouts == l.payouts && (l2.group.complete()
            ==> final(contract).events@ == old(contract).events@.push(
            ContractEvent::GroupStatusChanged(
                crate::events::GroupStatusChanged {
                    group_id,
                    old_status: status_number(l.group.status),
                    new_status: status_number(l2.group.status),
                    changed_by: inv.caller,
                    changed_at: inv.now,
                },
            ),
        )) && (!l2.group.complete() ==> final(contract).events@ == old(contract).events@))
            && StellarSaveContract::others_same(*final(contract), *old(contract), group_id),
{
    let mut l = match contract.take(group_id) {
        Some(l) => l,
        None => return Err(StellarSaveError::GroupNotFound),
    };
    let old_status = l.group.status;
    let res = l.advance_cycle();
    let done = l.group.is_complete();
    let new_status = l.group.status;
    contract.put(group_id, l);
    proof {
        StellarSaveContract::lemma_put_back(*old(contract), *contract, group_id, l);
        if res is Err {
            assert(contract.groups@ =~= old(contract).groups@);
        }
    }
    match res {
        Ok(()) => {
            if done {
                EventEmitter::emit_group_status_changed(
                    &mut contract.events,
                    group_id,
                    status_number_of(old_status),
                    status_number_of(new_status),
                    inv.caller,
                    inv.now,
                );
            }
            Ok(())
        },
        Err(e) => Err(e),
    }
}

} // verus!
