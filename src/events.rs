use vstd::prelude::*;
use crate::address::Address;

verus! {

/// A group was created.
#[derive(Clone, Copy, Debug, PartialEq, Eq, Structural)]
pub struct GroupCreated {
    pub group_id: u64,
    pub creator: Address,
    pub contribution_amount: i128,
    pub cycle_duration: u64,
    pub max_members: u32,
    pub created_at: u64,
}

/// A member joined a group.
#[derive(Clone, Copy, Debug, PartialEq, Eq, Structural)]
pub struct MemberJoined {
    pub group_id: u64,
    pub member: Address,
    pub member_count: u32,
    pub joined_at: u64,
}

/// A member paid into a cycle.
#[derive(Clone, Copy, Debug, PartialEq, Eq, Structural)]
pub struct ContributionMade {
    pub group_id: u64,
    pub contributor: Address,
    pub amount: i128,
    pub cycle: u32,
    pub cycle_total: i128,
    pub contributed_at: u64,
}

/// A cycle's pool was paid out.
#[derive(Clone, Copy, Debug, PartialEq, Eq, Structural)]
pub struct PayoutExecuted {
    pub group_id: u64,
    pub recipient: Address,
    pub amount: i128,
    pub cycle: u32,
    pub executed_at: u64,
}

/// Every cycle of a group was run.
#[derive(Clone, Copy, Debug, PartialEq, Eq, Structural)]
pub struct GroupCompleted {
    pub group_id: u64,
    pub creator: Address,
    pub total_cycles: u32,
    pub total_distributed: i128,
    pub completed_at: u64,
}

/// A group moved to another lifecycle state (states by their numeric code).
#[derive(Clone, Copy, Debug, PartialEq, Eq, Structural)]
pub struct GroupStatusChanged {
    pub group_id: u64,
    pub old_status: u32,
    pub new_status: u32,
    pub changed_by: Address,
    pub changed_at: u64,
}

/// Everything the engine publishes, in the order it happened.
#[derive(Clone, Copy, Debug, PartialEq, Eq, Structural)]
pub enum ContractEvent {
    GroupCreated(GroupCreated),
    GroupUpdated { group_id: u64, creator: Address },
    GroupDeleted { group_id: u64, creator: Address },
    GroupActivated { group_id: u64, member_count: u32, activated_at: u64 },
    MemberJoined(MemberJoined),
    ContributionMade(ContributionMade),
    PayoutExecuted(PayoutExecuted),
    GroupCompleted(GroupCompleted),
    GroupStatusChanged(GroupStatusChanged),
    EmergencyWithdrawal { group_id: u64, member: Address, amount: i128 },
}

/// Appends typed events to an event log.
pub struct EventEmitter;

impl EventEmitter {
    /// Publishes [`GroupCreated`].
    pub fn emit_group_created(
        log: &mut Vec<ContractEvent>,
        group_id: u64,
        creator: Address,
        contribution_amount: i128,
        cycle_duration: u64,
        max_members: u32,
        created_at: u64,
    )
        ensures
            final(log)@ == old(log)@.push(
                ContractEvent::GroupCreated(
                    GroupCreated {
                        group_id,
                        creator,
                        contribution_amount,
                        cycle_duration,
                        max_members,
                        created_at,
                    },
                ),
            ),
    {
        let event = GroupCreated {
            group_id,
            creator,
            contribution_amount,
            cycle_duration,
            max_members,
            created_at,
        };
        log.push(ContractEvent::GroupCreated(event));
    }

    /// Publishes [`MemberJoined`].
    pub fn emit_member_joined(
        log: &mut Vec<ContractEvent>,
        group_id: u64,
        member: Address,
        member_count: u32,
        joined_at: u64,
    )
        ensures
            final(log)@ == old(log)@.push(
                ContractEvent::MemberJoined(MemberJoined { group_id, member, member_count, joined_at }),
            ),
    {
        log.push(ContractEvent::MemberJoined(MemberJoined { group_id, member, member_count, joined_at }));
    }

    /// Publishes [`ContributionMade`].
    pub fn emit_contribution_made(
        log: &mut Vec<ContractEvent>,
        group_id: u64,
        contributor: Address,
        amount: i128,
        cycle: u32,
        cycle_total: i128,
        contributed_at: u64,
    )
        ensures
            final(log)@ == old(log)@.push(
                ContractEvent::ContributionMade(
                    ContributionMade { group_id, contributor, amount, cycle, cycle_total, contributed_at },
                ),
            ),
    {
        let event = ContributionMade { group_id, contributor, amount, cycle, cycle_total, contributed_at };
        log.push(ContractEvent::ContributionMade(event));
    }

    /// Publishes [`PayoutExecuted`].
    pub fn emit_payout_executed(
        log: &mut Vec<ContractEvent>,
        group_id: u64,
        recipient: Address,
        amount: i128,
        cycle: u32,
        executed_at: u64,
    )
        ensures
            final(log)@ == old(log)@.push(
                ContractEvent::PayoutExecuted(PayoutExecuted { group_id, recipient, amount, cycle, executed_at }),
            ),
    {
        let event = PayoutExecuted { group_id, recipient, amount, cycle, executed_at };
        log.push(ContractEvent::PayoutExecuted(event));
    }

    /// Publishes [`GroupCompleted`].
    pub fn emit_group_completed(
        log: &mut Vec<ContractEvent>,
        group_id: u64,
        creator: Address,
        total_cycles: u32,
        total_distributed: i128,
        completed_at: u64,
    )
        ensures
            final(log)@ == old(log)@.push(
                ContractEvent::GroupCompleted(
                    GroupCompleted { group_id, creator, total_cycles, total_distributed, completed_at },
                ),
            ),
    {
        let event = GroupCompleted { group_id, creator, total_cycles, total_distributed, completed_at };
        log.push(ContractEvent::GroupCompleted(event));
    }

    /// Publishes [`GroupStatusChanged`].
    pub fn emit_group_status_changed(
        log: &mut Vec<ContractEvent>,
        group_id: u64,
        old_status: u32,
        new_status: u32,
        changed_by: Address,
        changed_at: u64,
    )
        ensures
            final(log)@ == old(log)@.push(
                ContractEvent::GroupStatusChanged(
                    GroupStatusChanged { group_id, old_status, new_status, changed_by, changed_at },
                ),
            ),
    {
        let event = GroupStatusChanged { group_id, old_status, new_status, changed_by, changed_at };
        log.push(ContractEvent::GroupStatusChanged(event));
    }
}

} // verus!
