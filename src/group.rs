use vstd::prelude::*;
use crate::address::Address;

verus! {

/// Lifecycle state of a group as stored with it.
#[derive(Clone, Copy, Debug, PartialEq, Eq, Structural)]
pub enum GroupStatus {
    /// Created, waiting for members.
    Pending,
    /// Running cycles: contributions and payouts take place.
    Active,
    /// Suspended; may be resumed.
    Paused,
    /// Every cycle is finished.
    Completed,
    /// Terminated before completion.
    Cancelled,
}

/// The lifecycle's edges, with every state allowed to stay where it is.
pub open spec fn status_transition_allowed(from: GroupStatus, to: GroupStatus) -> bool {
    from == to || match (from, to) {
        (GroupStatus::Pending, GroupStatus::Active) => true,
        (GroupStatus::Pending, GroupStatus::Cancelled) => true,
        (GroupStatus::Active, GroupStatus::Paused) => true,
        (GroupStatus::Active, GroupStatus::Completed) => true,
        (GroupStatus::Active, GroupStatus::Cancelled) => true,
        (GroupStatus::Paused, GroupStatus::Active) => true,
        (GroupStatus::Paused, GroupStatus::Cancelled) => true,
        _ => false,
    }
}

impl GroupStatus {
    /// Whether the lifecycle allows moving from `self` to `new_status`.
    pub fn can_transition_to(&self, new_status: &GroupStatus) -> (r: bool)
        ensures
            r == status_transition_allowed(*self, *new_status),
    {
        if *self == *new_status {
            return true;
        }
        match (self, new_status) {
            (GroupStatus::Pending, GroupStatus::Active) => true,
            (GroupStatus::Pending, GroupStatus::Cancelled) => true,
            (GroupStatus::Active, GroupStatus::Paused) => true,
            (GroupStatus::Active, GroupStatus::Completed) => true,
            (GroupStatus::Active, GroupStatus::Cancelled) => true,
            (GroupStatus::Paused, GroupStatus::Active) => true,
            (GroupStatus::Paused, GroupStatus::Cancelled) => true,
            _ => false,
        }
    }

    /// Only an active group accepts contributions.
    pub fn accepts_contributions(&self) -> (r: bool)
        ensures
            r <==> *self == GroupStatus::Active,
    {
        matches!(self, GroupStatus::Active)
    }

    /// Only an active group processes payouts.
    pub fn can_process_payouts(&self) -> (r: bool)
        ensures
            r <==> *self == GroupStatus::Active,
    {
        matches!(self, GroupStatus::Active)
    }

    /// Completed and Cancelled admit no further transition.
    pub fn is_terminal(&self) -> (r: bool)
        ensures
            r <==> (*self == GroupStatus::Completed || *self == GroupStatus::Cancelled),
    {
        matches!(self, GroupStatus::Completed | GroupStatus::Cancelled)
    }

    /// The status's name.
    pub fn as_str(&self) -> (r: &'static str)
        ensures
            *self == GroupStatus::Pending ==> r@ == "Pending"@,
            *self == GroupStatus::Active ==> r@ == "Active"@,
            *self == GroupStatus::Paused ==> r@ == "Paused"@,
            *self == GroupStatus::Completed ==> r@ == "Completed"@,
            *self == GroupStatus::Cancelled ==> r@ == "Cancelled"@,
    {
        match self {
            GroupStatus::Pending => "Pending",
            GroupStatus::Active => "Active",
            GroupStatus::Paused => "Paused",
            GroupStatus::Completed => "Completed",
            GroupStatus::Cancelled => "Cancelled",
        }
    }
}

/// One savings circle: its configuration and where it stands in its rotation.
#[derive(Clone, Copy, Debug, PartialEq, Eq, Structural)]
pub struct Group {
    /// Unique identifier, assigned sequentially from 1.
    pub id: u64,
    /// The principal that created the group.
    pub creator: Address,
    /// Amount every member pays each cycle, in minor units.
    pub contribution_amount: i128,
    /// Length of a cycle, in seconds.
    pub cycle_duration: u64,
    /// Capacity of the group, and so the number of cycles.
    pub max_members: u32,
    /// Number of members that have joined.
    pub member_count: u32,
    /// Current cycle, counted from 0.
    pub current_cycle: u32,
    /// Whether the group is running (cleared once every cycle is done).
    pub is_active: bool,
    /// Lifecycle state.
    pub status: GroupStatus,
    /// Creation time, in seconds.
    pub created_at: u64,
    /// Whether the first cycle has started.
    pub started: bool,
    /// When the first cycle started, in seconds (meaningful once `started`).
    pub started_at: u64,
}

impl Group {
    /// The configuration constraints together with `current_cycle <= max_members`
    /// and `member_count <= max_members`.
    pub open spec fn wf(&self) -> bool {
        &&& self.contribution_amount > 0
        &&& self.cycle_duration > 0
        &&& self.max_members >= 2
        &&& self.current_cycle <= self.max_members
        &&& self.member_count <= self.max_members
    }

    /// The group that [`Group::new`] builds.
    pub open spec fn new_spec(
        id: u64,
        creator: Address,
        contribution_amount: i128,
        cycle_duration: u64,
        max_members: u32,
        created_at: u64,
    ) -> Group {
        Group {
            id,
            creator,
            contribution_amount,
            cycle_duration,
            max_members,
            member_count: 0,
            current_cycle: 0,
            is_active: true,
            status: GroupStatus::Pending,
            created_at,
            started: false,
            started_at: 0,
        }
    }

    /// Every cycle has been run.
    pub open spec fn complete(&self) -> bool {
        self.current_cycle >= self.max_members
    }

    /// A new pending group at cycle 0 with no members.
    pub fn new(
        id: u64,
        creator: Address,
        contribution_amount: i128,
        cycle_duration: u64,
        max_members: u32,
        created_at: u64,
    ) -> (r: Group)
        requires
            contribution_amount > 0,
            cycle_duration > 0,
            max_members >= 2,
        ensures
            r.wf(),
            r == Group::new_spec(id, creator, contribution_amount, cycle_duration, max_members, created_at),
    {
        Group {
            id,
            creator,
            contribution_amount,
            cycle_duration,
            max_members,
            member_count: 0,
            current_cycle: 0,
            is_active: true,
            status: GroupStatus::Pending,
            created_at,
            started: false,
            started_at: 0,
        }
    }

    /// Whether every cycle has been run.
    pub fn is_complete(&self) -> (r: bool)
        ensures
            r == self.complete(),
    {
        self.current_cycle >= self.max_members
    }

    /// Moves to the next cycle; reaching the last one ends the group (an active
    /// group becomes Completed).
    pub fn advance_cycle(&mut self)
        requires
            !old(self).complete(),
        ensures
            final(self).current_cycle == old(self).current_cycle + 1,
            final(self).complete() ==> !final(self).is_active,
            final(self).complete() && old(self).status == GroupStatus::Active ==> final(self).status
                == GroupStatus::Completed,
            final(self).complete() && old(self).status != GroupStatus::Active ==> final(self).status
                == old(self).status,
            !final(self).complete() ==> final(self).is_active == old(self).is_active
                && final(self).status == old(self).status,
            final(self).id == old(self).id,
            final(self).creator == old(self).creator,
            final(self).contribution_amount == old(self).contribution_amount,
            final(self).cycle_duration == old(self).cycle_duration,
            final(self).max_members == old(self).max_members,
            final(self).member_count == old(self).member_count,
            final(self).created_at == old(self).created_at,
            final(self).started == old(self).started,
            final(self).started_at == old(self).started_at,
            old(self).wf() ==> final(self).wf(),
    {
        self.current_cycle = self.current_cycle + 1;
        if self.is_complete() {
            self.is_active = false;
            if self.status == GroupStatus::Active {
                self.status = GroupStatus::Completed;
            }
        }
    }

    /// Stops the group from accepting contributions.
    pub fn deactivate(&mut self)
        ensures
            *final(self) == (Group { is_active: false, ..*old(self) }),
    {
        self.is_active = false;
    }

    /// Lets a group that is not complete run again.
    pub fn reactivate(&mut self)
        requires
            !old(self).complete(),
        ensures
            *final(self) == (Group { is_active: true, ..*old(self) }),
    {
        self.is_active = true;
    }

    /// The pool paid out each cycle when every seat is taken:
    /// `contribution_amount * max_members`.
    pub fn total_pool_amount(&self) -> (r: i128)
        requires
            i128::MIN <= self.contribution_amount * self.max_members <= i128::MAX,
        ensures
            r == self.contribution_amount * self.max_members,
    {
        self.contribution_amount * (self.max_members as i128)
    }

    /// Whether the configuration constraints hold.
    pub fn validate(&self) -> (r: bool)
        ensures
            r == (self.contribution_amount > 0 && self.cycle_duration > 0 && self.max_members >= 2
                && self.current_cycle <= self.max_members),
    {
        self.contribution_amount > 0 && self.cycle_duration > 0 && self.max_members >= 2
            && self.current_cycle <= self.max_members
    }
}

} // verus!
