use vstd::prelude::*;

verus! {

/// Why a status transition was refused.
#[derive(Clone, Copy, Debug, PartialEq, Eq, Structural, PartialOrd, Ord, Hash)]
pub enum StatusError {
    /// The target state is not reachable from the current one.
    InvalidTransition,
    /// The group is completed; no transition leaves that state.
    AlreadyCompleted,
    /// The group is cancelled; no transition leaves that state.
    AlreadyCancelled,
}

/// Lifecycle states of a savings group, with a stable numeric encoding
/// (`Pending` = 0 up to `Cancelled` = 4).
#[derive(Clone, Copy, Debug, PartialEq, Eq, Structural, PartialOrd, Ord, Hash)]
pub enum GroupStatus {
    Pending,
    Active,
    Paused,
    Completed,
    Cancelled,
}

/// The lifecycle's edges: `Pending -> {Active, Cancelled}`,
/// `Active -> {Paused, Completed, Cancelled}`, `Paused -> {Active, Cancelled}`,
/// and every state to itself.
pub open spec fn transition_allowed(from: GroupStatus, to: GroupStatus) -> bool {
    from == to || match (from, to) {
        (GroupStatus::Pending, GroupStatus::Active) => true,
        (GroupStatus::Pending, GroupStatus::Cancelled) => true,
        (GroupStatus::Active, GroupStatus::Paused) => true,
        (GroupStatus::Active, GroupStatus::Completed) => true,
        (GroupStatus::Active, GroupStatus::Cancelled) => true,
        (GroupStatus::Paused, GroupStatus::Active) => true,
        (GroupStatus::Paused, GroupStatus::Cancelled) => true,
        _ => false,
    }
}

/// The error reported for a refused transition out of `from`.
pub open spec fn refusal_of(from: GroupStatus) -> StatusError {
    match from {
        GroupStatus::Completed => StatusError::AlreadyCompleted,
        GroupStatus::Cancelled => StatusError::AlreadyCancelled,
        _ => StatusError::InvalidTransition,
    }
}

/// The numeric code of a status.
pub open spec fn status_code(s: GroupStatus) -> u32 {
    match s {
        GroupStatus::Pending => 0,
        GroupStatus::Active => 1,
        GroupStatus::Paused => 2,
        GroupStatus::Completed => 3,
        GroupStatus::Cancelled => 4,
    }
}

impl GroupStatus {
    /// Checks whether the lifecycle allows moving from `self` to `new_status`.
    pub fn can_transition_to(&self, new_status: GroupStatus) -> (r: Result<(), StatusError>)
        ensures
            r is Ok <==> transition_allowed(*self, new_status),
            r is Err ==> r == Err::<(), StatusError>(refusal_of(*self)),
    {
        if *self == new_status {
            return Ok(());
        }
        match (self, new_status) {
            (GroupStatus::Pending, GroupStatus::Active) => Ok(()),
            (GroupStatus::Pending, GroupStatus::Cancelled) => Ok(()),
            (GroupStatus::Active, GroupStatus::Paused) => Ok(()),
            (GroupStatus::Active, GroupStatus::Completed) => Ok(()),
            (GroupStatus::Active, GroupStatus::Cancelled) => Ok(()),
            (GroupStatus::Paused, GroupStatus::Active) => Ok(()),
            (GroupStatus::Paused, GroupStatus::Cancelled) => Ok(()),
            (GroupStatus::Completed, _) => Err(StatusError::AlreadyCompleted),
            (GroupStatus::Cancelled, _) => Err(StatusError::AlreadyCancelled),
            _ => Err(StatusError::InvalidTransition),
        }
    }

    /// Performs a transition: the new status when the lifecycle allows it.
    pub fn transition_to(&self, new_status: GroupStatus) -> (r: Result<GroupStatus, StatusError>)
        ensures
            transition_allowed(*self, new_status) ==> r == Ok::<GroupStatus, StatusError>(new_status),
            !transition_allowed(*self, new_status) ==> r == Err::<GroupStatus, StatusError>(refusal_of(*self)),
    {
        match self.can_transition_to(new_status) {
            Ok(()) => Ok(new_status),
            Err(e) => Err(e),
        }
    }

    /// Completed and Cancelled admit no further transition.
    pub fn is_terminal(&self) -> (r: bool)
        ensures
            r <==> (*self == GroupStatus::Completed || *self == GroupStatus::Cancelled),
    {
        matches!(self, GroupStatus::Completed | GroupStatus::Cancelled)
    }

    /// Only an active group accepts contributions.
    pub fn can_accept_contributions(&self) -> (r: bool)
        ensures
            r <==> *self == GroupStatus::Active,
    {
        matches!(self, GroupStatus::Active)
    }

    /// Only an active group processes payouts.
    pub fn can_process_payouts(&self) -> (r: bool)
        ensures
            r <==> *self == GroupStatus::Active,
    {
        matches!(self, GroupStatus::Active)
    }

    /// Pending and active groups accept new members.
    pub fn can_accept_members(&self) -> (r: bool)
        ensures
            r <==> (*self == GroupStatus::Pending || *self == GroupStatus::Active),
    {
        matches!(self, GroupStatus::Pending | GroupStatus::Active)
    }

    /// The status's name.
    pub fn as_str(&self) -> (r: &'static str)
        ensures
            *self == GroupStatus::Pending ==> r@ == "Pending"@,
            *self == GroupStatus::Active ==> r@ == "Active"@,
            *self == GroupStatus::Paused ==> r@ == "Paused"@,
            *self == GroupStatus::Completed ==> r@ == "Completed"@,
            *self == GroupStatus::Cancelled ==> r@ == "Cancelled"@,
    {
        match self {
            GroupStatus::Pending => "Pending",
            GroupStatus::Active => "Active",
            GroupStatus::Paused => "Paused",
            GroupStatus::Completed => "Completed",
            GroupStatus::Cancelled => "Cancelled",
        }
    }

    /// Decodes a numeric status code.
    pub fn from_u32(value: u32) -> (r: Option<GroupStatus>)
        ensures
            value <= 4 ==> (r is Some && status_code(r->Some_0) == value),
            value > 4 ==> r is None,
    {
        match value {
            0 => Some(GroupStatus::Pending),
            1 => Some(GroupStatus::Active),
            2 => Some(GroupStatus::Paused),
            3 => Some(GroupStatus::Completed),
            4 => Some(GroupStatus::Cancelled),
            _ => None,
        }
    }

    /// Encodes the status as its numeric code.
    pub fn to_u32(&self) -> (r: u32)
        ensures
            r == status_code(*self),
    {
        match self {
            GroupStatus::Pending => 0,
            GroupStatus::Active => 1,
            GroupStatus::Paused => 2,
            GroupStatus::Completed => 3,
            GroupStatus::Cancelled => 4,
        }
    }

    /// A sentence describing what the status allows.
    pub fn description(&self) -> (r: &'static str)
        ensures
            r@.len() > 0,
    {
        match self {
            GroupStatus::Pending => {
                proof { reveal_strlit("Group is pending activation, waiting for members to join"); }
                "Group is pending activation, waiting for members to join"
            },
            GroupStatus::Active => {
                proof { reveal_strlit("Group is active and accepting contributions"); }
                "Group is active and accepting contributions"
            },
            GroupStatus::Paused => {
                proof { reveal_strlit("Group is temporarily paused, no contributions or payouts allowed"); }
                "Group is temporarily paused, no contributions or payouts allowed"
            },
            GroupStatus::Completed => {
                proof { reveal_strlit("Group has completed all cycles successfully"); }
                "Group has completed all cycles successfully"
            },
            GroupStatus::Cancelled => {
                proof { reveal_strlit("Group has been cancelled and will not continue"); }
                "Group has been cancelled and will not continue"
            },
        }
    }
}

/// Decoding a status's code gives the status back.
pub proof fn lemma_status_code_round_trip(s: GroupStatus)
    ensures
        status_code(s) <= 4,
        forall|t: GroupStatus| status_code(t) == status_code(s) ==> t == s,
{
}

} // verus!
