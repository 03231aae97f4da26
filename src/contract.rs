use vstd::prelude::*;
use crate::address::Address;
use crate::error::StellarSaveError;
use crate::events::{ContractEvent, EventEmitter};
use crate::group::{Group, GroupStatus};
use crate::contribution::ContributionRecord;
use crate::ledger::{
    AssignmentMode, GroupLedger, PayoutScheduleEntry, history_between, member_sum, missing_of, paid_sum,
    positions_for, records_of,
};
use crate::payout::PayoutRecord;
use crate::pool::PoolInfo;

verus! {

/// Global bounds that new and amended groups must respect, and who may
/// change them.
#[derive(Clone, Copy, Debug, PartialEq, Eq, Structural)]
pub struct ContractConfig {
    pub admin: Address,
    pub min_contribution: i128,
    pub max_contribution: i128,
    pub min_members: u32,
    pub max_members: u32,
    pub min_cycle_duration: u64,
    pub max_cycle_duration: u64,
}

impl ContractConfig {
    /// The bounds are consistent: positive minimums, and each maximum at
    /// least its minimum (at least two members).
    pub open spec fn consistent(&self) -> bool {
        &&& self.min_contribution > 0
        &&& self.max_contribution >= self.min_contribution
        &&& self.min_members >= 2
        &&& self.max_members >= self.min_members
        &&& self.min_cycle_duration > 0
        &&& self.max_cycle_duration >= self.min_cycle_duration
    }

    /// A group with these parameters lies within the bounds.
    pub open spec fn admits(&self, contribution: i128, duration: u64, max_members: u32) -> bool {
        &&& self.min_contribution <= contribution <= self.max_contribution
        &&& self.min_members <= max_members <= self.max_members
        &&& self.min_cycle_duration <= duration <= self.max_cycle_duration
    }

    /// Whether the bounds are consistent.
    pub fn validate(&self) -> (r: bool)
        ensures
            r == self.consistent(),
    {
        self.min_contribution > 0 && self.max_contribution >= self.min_contribution
            && self.min_members >= 2 && self.max_members >= self.min_members
            && self.min_cycle_duration > 0 && self.max_cycle_duration >= self.min_cycle_duration
    }

    /// Whether a group with these parameters lies within the bounds.
    pub fn allows(&self, contribution: i128, duration: u64, max_members: u32) -> (r: bool)
        ensures
            r == self.admits(contribution, duration, max_members),
    {
        self.min_contribution <= contribution && contribution <= self.max_contribution
            && self.min_members <= max_members && max_members <= self.max_members
            && self.min_cycle_duration <= duration && duration <= self.max_cycle_duration
    }
}

/// Who makes the current invocation, and when: the authenticated caller and
/// the clock reading the host supplies.
#[derive(Clone, Copy, Debug, PartialEq, Eq, Structural)]
pub struct Invocation {
    pub caller: Address,
    pub now: u64,
}

/// Parameters that no configuration could accept: a group needs a positive
/// contribution, a positive cycle length and at least two seats.
pub open spec fn basic_params_ok(contribution: i128, duration: u64, max_members: u32) -> bool {
    contribution > 0 && duration > 0 && max_members >= 2
}

/// The parameters are accepted under an optional configuration.
pub open spec fn params_ok(config: Option<ContractConfig>, contribution: i128, duration: u64, max_members: u32) -> bool {
    basic_params_ok(contribution, duration, max_members) && match config {
        Some(c) => c.admits(contribution, duration, max_members),
        None => true,
    }
}

/// The whole engine's state: every group's ledger (slot `id - 1` holds group
/// `id`, empty once deleted), the group id counter, the optional global
/// configuration, and the published events.
pub struct StellarSaveContract {
    pub groups: Vec<Option<GroupLedger>>,
    pub next_group_id: u64,
    pub config: Option<ContractConfig>,
    pub events: Vec<ContractEvent>,
}

impl StellarSaveContract {
    /// Nothing observable changed between `a` and `b`.
    pub open spec fn unchanged(a: StellarSaveContract, b: StellarSaveContract) -> bool {
        &&& a.groups@ == b.groups@
        &&& a.next_group_id == b.next_group_id
        &&& a.config == b.config
        &&& a.events@ == b.events@
    }

    /// The ledger of group `id`, if it exists.
    pub open spec fn ledger(&self, id: u64) -> Option<GroupLedger> {
        if 1 <= id <= self.groups@.len() {
            self.groups@[id - 1]
        } else {
            None
        }
    }

    /// Ids are handed out from 1 in order, and every ledger is well formed.
    pub open spec fn wf(&self) -> bool {
        &&& self.groups@.len() == self.next_group_id
        &&& forall|i: int|
            0 <= i < self.groups@.len() && #[trigger] self.groups@[i] is Some ==> self.groups@[i]->Some_0.wf()
                && self.groups@[i]->Some_0.group.id == i + 1
    }

    /// An engine with no groups.
    pub fn new() -> (r: StellarSaveContract)
        ensures
            r.wf(),
            r.next_group_id == 0,
            r.config is None,
            r.events@.len() == 0,
    {
        StellarSaveContract { groups: Vec::new(), next_group_id: 0, config: None, events: Vec::new() }
    }

    /// The ledger of group `id`.
    pub(crate) fn find(&self, group_id: u64) -> (r: Option<&GroupLedger>)
        requires
            self.wf(),
        ensures
            r is Some <==> self.ledger(group_id) is Some,
            r matches Some(l) ==> self.ledger(group_id) == Some(*l) && l.wf() && l.group.id == group_id,
    {
        if group_id == 0 || group_id > self.groups.len() as u64 {
            return None;
        }
        let idx = (group_id - 1) as usize;
        proof {
            if self.groups@[idx as int] is Some {
                assert(self.groups@[idx as int]->Some_0.wf());
            }
        }
        self.groups[idx].as_ref()
    }

    /// Takes group `id`'s ledger out of its slot, leaving the slot empty.
    pub(crate) fn take(&mut self, group_id: u64) -> (r: Option<GroupLedger>)
        requires
            old(self).wf(),
        ensures
            r == old(self).ledger(group_id),
            r is None ==> final(self).groups@ == old(self).groups@,
            r matches Some(l) ==> l.wf() && l.group.id == group_id && final(self).groups@ == old(
                self,
            ).groups@.update(group_id - 1, None),
            final(self).next_group_id == old(self).next_group_id,
            final(self).config == old(self).config,
            final(self).events == old(self).events,
    {
        if group_id == 0 || group_id > self.groups.len() as u64 {
            return None;
        }
        let idx = (group_id - 1) as usize;
        let mut slot: Option<GroupLedger> = None;
        proof {
            if self.groups@[idx as int] is Some {
                assert(self.groups@[idx as int]->Some_0.wf());
            }
        }
        self.groups.set_and_swap(idx, &mut slot);
        if slot.is_none() {
            self.groups.set_and_swap(idx, &mut slot);
            proof {
                assert(self.groups@ =~= old(self).groups@);
            }
        }
        slot
    }

    /// Puts a ledger back into slot `id - 1`.
    pub(crate) fn put(&mut self, group_id: u64, l: GroupLedger)
        requires
            1 <= group_id <= old(self).groups@.len(),
        ensures
            final(self).groups@ == old(self).groups@.update(group_id - 1, Some(l)),
            final(self).next_group_id == old(self).next_group_id,
            final(self).config == old(self).config,
            final(self).events == old(self).events,
    {
        let n = self.groups.len();
        let idx = (group_id - 1) as usize;
        assert(idx as int == group_id - 1);
        self.groups.set(idx, Some(l));
    }

    /// After a ledger was taken out and put back in a well-formed state, the
    /// engine is well formed again.
    pub(crate) proof fn lemma_put_back(before: StellarSaveContract, after: StellarSaveContract, group_id: u64, l: GroupLedger)
        requires
            before.wf(),
            1 <= group_id <= before.groups@.len(),
            after.next_group_id == before.next_group_id,
            after.groups@ == before.groups@.update(group_id - 1, None).update(group_id - 1, Some(l)),
            l.wf(),
            l.group.id == group_id,
        ensures
            after.wf(),
            after.ledger(group_id) == Some(l),
            forall|id: u64| id != group_id ==> #[trigger] after.ledger(id) == before.ledger(id),
    {
        assert forall|i: int| 0 <= i < after.groups@.len() && #[trigger] after.groups@[i] is Some implies after.groups@[i]->Some_0.wf()
            && after.groups@[i]->Some_0.group.id == i + 1 by {
            if i != group_id - 1 {
                assert(after.groups@[i] == before.groups@[i]);
            }
        }
    }

    /// Sets the global configuration. The first one is set by its own admin;
    /// later ones only by the current admin.
    pub fn update_config(&mut self, inv: &Invocation, new_config: ContractConfig) -> (r: Result<(), StellarSaveError>)
        requires
            old(self).wf(),
        ensures
            final(self).wf(),
            !new_config.consistent() ==> r == Err::<(), StellarSaveError>(StellarSaveError::InvalidState),
            new_config.consistent() && inv.caller != match old(self).config {
                Some(c) => c.admin,
                None => new_config.admin,
            } ==> r == Err::<(), StellarSaveError>(StellarSaveError::Unauthorized),
            r is Err ==> Self::unchanged(*final(self), *old(self)),
            r is Ok ==> final(self).config == Some(new_config) && final(self).groups == old(self).groups
                && final(self).next_group_id == old(self).next_group_id && final(self).events == old(self).events,
            new_config.consistent() && inv.caller == match old(self).config {
                Some(c) => c.admin,
                None => new_config.admin,
            } ==> r is Ok,
    {
        if !new_config.validate() {
            return Err(StellarSaveError::InvalidState);
        }
        let admin = match self.config {
            Some(c) => c.admin,
            None => new_config.admin,
        };
        if inv.caller != admin {
            return Err(StellarSaveError::Unauthorized);
        }
        self.config = Some(new_config);
        Ok(())
    }

    /// Creates a pending group owned by `creator` (who must be the caller),
    /// with the next id.
    pub fn create_group(
        &mut self,
        inv: &Invocation,
        creator: Address,
        contribution_amount: i128,
        cycle_duration: u64,
        max_members: u32,
    ) -> (r: Result<u64, StellarSaveError>)
        requires
            old(self).wf(),
        ensures
            final(self).wf(),
            r is Err ==> Self::unchanged(*final(self), *old(self)),
            inv.caller != creator ==> r == Err::<u64, StellarSaveError>(StellarSaveError::Unauthorized),
            inv.caller == creator && contribution_amount <= 0 ==> r == Err::<u64, StellarSaveError>(
                StellarSaveError::InvalidAmount),
            inv.caller == creator && contribution_amount > 0 && !params_ok(
                old(self).config,
                contribution_amount,
                cycle_duration,
                max_members,
            ) ==> r == Err::<u64, StellarSaveError>(StellarSaveError::InvalidState),
            inv.caller == creator && params_ok(old(self).config, contribution_amount, cycle_duration, max_members)
                && old(self).next_group_id == u64::MAX ==> r == Err::<u64, StellarSaveError>(StellarSaveError::Overflow),
            inv.caller == creator && params_ok(old(self).config, contribution_amount, cycle_duration, max_members)
                && old(self).next_group_id < u64::MAX ==> r == Ok::<u64, StellarSaveError>(
                (old(self).next_group_id + 1) as u64,
            ),
            r matches Ok(id) ==> {
                &&& final(self).next_group_id == id
                &&& final(self).ledger(id) matches Some(l) && l.group == Group::new_spec(
                    id,
                    creator,
                    contribution_amount,
                    cycle_duration,
                    max_members,
                    inv.now,
                ) && l.members@.len() == 0 && l.contributions@.len() == 0 && l.payouts@.len() == 0
                &&& forall|other: u64| other != id ==> #[trigger] final(self).ledger(other) == old(self).ledger(other)
                &&& final(self).config == old(self).config
            },
    {
        if inv.caller != creator {
            return Err(StellarSaveError::Unauthorized);
        }
        if contribution_amount <= 0 {
            return Err(StellarSaveError::InvalidAmount);
        }
        if cycle_duration == 0 || max_members < 2 {
            return Err(StellarSaveError::InvalidState);
        }
        match self.config {
            Some(c) => {
                if !c.allows(contribution_amount, cycle_duration, max_members) {
                    return Err(StellarSaveError::InvalidState);
                }
            },
            None => {},
        }
        let group_id = match self.next_group_id.checked_add(1) {
            Some(v) => v,
            None => return Err(StellarSaveError::Overflow),
        };
        let group = Group::new(group_id, creator, contribution_amount, cycle_duration, max_members, inv.now);
        let ghost before = *self;
        self.groups.push(Some(GroupLedger::new(group)));
        self.next_group_id = group_id;
        EventEmitter::emit_group_created(
            &mut self.events,
            group_id,
            creator,
            contribution_amount,
            cycle_duration,
            max_members,
            inv.now,
        );
        proof {
            assert forall|i: int| 0 <= i < self.groups@.len() && #[trigger] self.groups@[i] is Some implies self.groups@[i]->Some_0.wf()
                && self.groups@[i]->Some_0.group.id == i + 1 by {
                if i < before.groups@.len() {
                    assert(self.groups@[i] == before.groups@[i]);
                }
            }
        }
        Ok(group_id)
    }

    /// The group's record.
    pub fn get_group(&self, group_id: u64) -> (r: Result<Group, StellarSaveError>)
        requires
            self.wf(),
        ensures
            self.ledger(group_id) is None ==> r == Err::<Group, StellarSaveError>(StellarSaveError::GroupNotFound),
            self.ledger(group_id) matches Some(l) ==> r == Ok::<Group, StellarSaveError>(l.group),
    {
        match self.find(group_id) {
            None => Err(StellarSaveError::GroupNotFound),
            Some(l) => Ok(l.group),
        }
    }

    /// Number of members that joined the group.
    pub fn get_member_count(&self, group_id: u64) -> (r: Result<u32, StellarSaveError>)
        requires
            self.wf(),
        ensures
            self.ledger(group_id) is None ==> r == Err::<u32, StellarSaveError>(StellarSaveError::GroupNotFound),
            self.ledger(group_id) matches Some(l) ==> r == Ok::<u32, StellarSaveError>(l.group.member_count),
    {
        match self.find(group_id) {
            None => Err(StellarSaveError::GroupNotFound),
            Some(l) => Ok(l.group.member_count),
        }
    }

    /// Whether every cycle of the group has been run.
    pub fn is_complete(&self, group_id: u64) -> (r: Result<bool, StellarSaveError>)
        requires
            self.wf(),
        ensures
            self.ledger(group_id) is None ==> r == Err::<bool, StellarSaveError>(StellarSaveError::GroupNotFound),
            self.ledger(group_id) matches Some(l) ==> r == Ok::<bool, StellarSaveError>(l.group.complete()),
    {
        match self.find(group_id) {
            None => Err(StellarSaveError::GroupNotFound),
            Some(l) => Ok(l.group.is_complete()),
        }
    }

    /// Whether `member` has been paid by the group.
    pub fn has_received_payout(&self, group_id: u64, member_address: Address) -> (r: Result<bool, StellarSaveError>)
        requires
            self.wf(),
        ensures
            self.ledger(group_id) is None ==> r == Err::<bool, StellarSaveError>(StellarSaveError::GroupNotFound),
            self.ledger(group_id) matches Some(l) ==> r == Ok::<bool, StellarSaveError>(l.received(member_address)),
    {
        match self.find(group_id) {
            None => Err(StellarSaveError::GroupNotFound),
            Some(l) => Ok(l.has_received_payout(member_address)),
        }
    }

    /// Whether `recipient` may receive the current cycle's pool: a member, not yet paid, whose position is the current cycle.
    pub fn validate_payout_recipient(&self, group_id: u64, recipient: Address) -> (r: Result<bool, StellarSaveError>)
        requires
            self.wf(),
        ensures
            self.ledger(group_id) is None ==> r == Err::<bool, StellarSaveError>(StellarSaveError::GroupNotFound),
            self.ledger(group_id) matches Some(l) ==> r == Ok::<bool, StellarSaveError>(l.eligible(recipient)),
    {
        match self.find(group_id) {
            None => Err(StellarSaveError::GroupNotFound),
            Some(l) => Ok(l.validate_payout_recipient(recipient)),
        }
    }

    /// Whether every member has paid into `cycle_number`, by the running count.
    pub fn is_cycle_complete(&self, group_id: u64, cycle_number: u32) -> (r: Result<bool, StellarSaveError>)
        requires
            self.wf(),
        ensures
            self.ledger(group_id) is None ==> r == Err::<bool, StellarSaveError>(StellarSaveError::GroupNotFound),
            self.ledger(group_id) matches Some(l) ==> r == Ok::<bool, StellarSaveError>(l.cycle_complete(cycle_number)),
    {
        match self.find(group_id) {
            None => Err(StellarSaveError::GroupNotFound),
            Some(l) => Ok(l.is_cycle_complete(cycle_number)),
        }
    }

    /// The records for `cycle_number` of the members in list order; members who did not pay are absent.
    pub fn get_cycle_contributions(&self, group_id: u64, cycle_number: u32) -> (r: Result<Vec<ContributionRecord>, StellarSaveError>)
        requires
            self.wf(),
        ensures
            self.ledger(group_id) is None ==> r == Err::<Vec<ContributionRecord>, StellarSaveError>(StellarSaveError::GroupNotFound),
            self.ledger(group_id) matches Some(l) ==> r matches Ok(v) && v@ == records_of(l.contributions@, l.members@, cycle_number),
    {
        match self.find(group_id) {
            None => Err(StellarSaveError::GroupNotFound),
            Some(l) => Ok(l.cycle_contributions(cycle_number)),
        }
    }

    /// The members without a record for `cycle_number`, in list order.
    pub fn get_missed_contributions(&self, group_id: u64, cycle_number: u32) -> (r: Result<Vec<Address>, StellarSaveError>)
        requires
            self.wf(),
        ensures
            self.ledger(group_id) is None ==> r == Err::<Vec<Address>, StellarSaveError>(StellarSaveError::GroupNotFound),
            self.ledger(group_id) matches Some(l) ==> r matches Ok(v) && v@ == missing_of(l.contributions@, l.members@, cycle_number),
    {
        match self.find(group_id) {
            None => Err(StellarSaveError::GroupNotFound),
            Some(l) => Ok(l.missed_contributions(cycle_number)),
        }
    }

    /// `member`'s records from `start_cycle` on, in cycle order: at most `limit` cycles (capped at 50), none after the current cycle.
    pub fn get_member_contribution_history(&self, group_id: u64, member: Address, start_cycle: u32, limit: u32) -> (r: Result<Vec<ContributionRecord>, StellarSaveError>)
        requires
            self.wf(),
        ensures
            self.ledger(group_id) is None ==> r == Err::<Vec<ContributionRecord>, StellarSaveError>(StellarSaveError::GroupNotFound),
            self.ledger(group_id) matches Some(l) ==> r matches Ok(v) && v@ == history_between(
                l.contributions@,
                member,
                start_cycle as int,
                crate::ledger::history_end(start_cycle, limit, l.group.current_cycle),
            ) && v@.len() <= crate::ledger::page_size(limit),
    {
        match self.find(group_id) {
            None => Err(StellarSaveError::GroupNotFound),
            Some(l) => Ok(l.contribution_history(member, start_cycle, limit)),
        }
    }

    /// What `member` paid into cycles `0..=current_cycle`; `Overflow` if the sum does not fit.
    pub fn get_member_total_contributions(&self, group_id: u64, member: Address) -> (r: Result<i128, StellarSaveError>)
        requires
            self.wf(),
        ensures
            self.ledger(group_id) is None ==> r == Err::<i128, StellarSaveError>(StellarSaveError::GroupNotFound),
            self.ledger(group_id) matches Some(l) ==> (r is Ok <==> member_sum(l.contributions@, member, l.group.current_cycle) <= i128::MAX),
            self.ledger(group_id) matches Some(l) ==> (r matches Ok(v) ==> v == member_sum(l.contributions@, member, l.group.current_cycle)),
            self.ledger(group_id) is Some && r is Err ==> r == Err::<i128, StellarSaveError>(StellarSaveError::Overflow),
    {
        match self.find(group_id) {
            None => Err(StellarSaveError::GroupNotFound),
            Some(l) => l.member_total_contributions(member),
        }
    }

    /// Sum of the payouts of the cycles before the current one; `Overflow` if it does not fit.
    pub fn get_total_paid_out(&self, group_id: u64) -> (r: Result<i128, StellarSaveError>)
        requires
            self.wf(),
        ensures
            self.ledger(group_id) is None ==> r == Err::<i128, StellarSaveError>(StellarSaveError::GroupNotFound),
            self.ledger(group_id) matches Some(l) ==> (r is Ok <==> paid_sum(l.payouts@, l.group.current_cycle) <= i128::MAX),
            self.ledger(group_id) matches Some(l) ==> (r matches Ok(v) ==> v == paid_sum(l.payouts@, l.group.current_cycle)),
            self.ledger(group_id) is Some && r is Err ==> r == Err::<i128, StellarSaveError>(StellarSaveError::Overflow),
    {
        match self.find(group_id) {
            None => Err(StellarSaveError::GroupNotFound),
            Some(l) => l.total_paid_out(),
        }
    }

    /// What the group's `cycle` looks like now.
    pub fn get_pool_info(&self, group_id: u64, cycle: u32) -> (r: Result<PoolInfo, StellarSaveError>)
        requires
            self.wf(),
        ensures
            self.ledger(group_id) is None ==> r == Err::<PoolInfo, StellarSaveError>(StellarSaveError::GroupNotFound),
            self.ledger(group_id) matches Some(l) ==> r == l.pool_snapshot(cycle),
    {
        match self.find(group_id) {
            None => Err(StellarSaveError::GroupNotFound),
            Some(l) => l.get_pool_info(cycle),
        }
    }

    /// Whether the current cycle's pool can be paid now.
    pub fn is_payout_due(&self, group_id: u64) -> (r: Result<bool, StellarSaveError>)
        requires
            self.wf(),
        ensures
            self.ledger(group_id) is None ==> r == Err::<bool, StellarSaveError>(StellarSaveError::GroupNotFound),
            self.ledger(group_id) matches Some(l) ==> (l.group.status != GroupStatus::Active ==> r == Ok::<bool, StellarSaveError>(false)),
            self.ledger(group_id) matches Some(l) ==> (l.group.status == GroupStatus::Active ==> match l.pool_snapshot(l.group.current_cycle) {
                Err(e) => r == Err::<bool, StellarSaveError>(e),
                Ok(p) => r == Ok::<bool, StellarSaveError>(p.is_cycle_complete && !l.paid(l.group.current_cycle)),
            }),
    {
        match self.find(group_id) {
            None => Err(StellarSaveError::GroupNotFound),
            Some(l) => l.is_payout_due(),
        }
    }

    /// `member`'s turn in the rotation; `NotMember` for one without a profile.
    pub fn get_payout_position(&self, group_id: u64, member_address: Address) -> (r: Result<u32, StellarSaveError>)
        requires
            self.wf(),
        ensures
            self.ledger(group_id) is None ==> r == Err::<u32, StellarSaveError>(StellarSaveError::GroupNotFound),
            self.ledger(group_id) matches Some(l) ==> (!l.is_member(member_address) ==> r == Err::<u32, StellarSaveError>(StellarSaveError::NotMember)),
            self.ledger(group_id) matches Some(l) ==> (l.is_member(member_address) ==> r == Ok::<u32, StellarSaveError>(l.position_of(member_address))),
    {
        match self.find(group_id) {
            None => Err(StellarSaveError::GroupNotFound),
            Some(l) => l.payout_position(member_address),
        }
    }

    /// The instant after which payments into `cycle_number` are late: `started_at + (cycle_number + 1) * cycle_duration`.
    pub fn get_contribution_deadline(&self, group_id: u64, cycle_number: u32) -> (r: Result<u64, StellarSaveError>)
        requires
            self.wf(),
        ensures
            self.ledger(group_id) is None ==> r == Err::<u64, StellarSaveError>(StellarSaveError::GroupNotFound),
            self.ledger(group_id) matches Some(l) ==> (!l.group.started ==> r == Err::<u64, StellarSaveError>(StellarSaveError::InvalidState)),
            self.ledger(group_id) matches Some(l) ==> (l.group.started ==> {
                let d = l.group.started_at + (cycle_number + 1) * l.group.cycle_duration;
                &&& d <= u64::MAX ==> r == Ok::<u64, StellarSaveError>(d as u64)
                &&& d > u64::MAX ==> r == Err::<u64, StellarSaveError>(StellarSaveError::Overflow)
            }),
    {
        match self.find(group_id) {
            None => Err(StellarSaveError::GroupNotFound),
            Some(l) => l.contribution_deadline(cycle_number),
        }
    }

    /// Accepts exactly the group's contribution amount.
    pub fn validate_contribution_amount(&self, group_id: u64, amount: i128) -> (r: Result<(), StellarSaveError>)
        requires
            self.wf(),
        ensures
            self.ledger(group_id) is None ==> r == Err::<(), StellarSaveError>(StellarSaveError::GroupNotFound),
            self.ledger(group_id) matches Some(l) ==> (r is Ok <==> amount == l.group.contribution_amount),
            self.ledger(group_id) is Some && r is Err ==> r == Err::<(), StellarSaveError>(StellarSaveError::InvalidAmount),
    {
        match self.find(group_id) {
            None => Err(StellarSaveError::GroupNotFound),
            Some(l) => if amount != l.group.contribution_amount { Err(StellarSaveError::InvalidAmount) } else { Ok(()) },
        }
    }

    /// For each member (each entry of the member list that still has a
    /// profile), in list order, when they are paid. Refused before the group
    /// starts, and for a date that does not fit.
    pub fn get_payout_schedule(&self, group_id: u64) -> (r: Result<Vec<PayoutScheduleEntry>, StellarSaveError>)
        requires
            self.wf(),
        ensures
            self.ledger(group_id) is None ==> r == Err::<Vec<PayoutScheduleEntry>, StellarSaveError>(StellarSaveError::GroupNotFound),
            self.ledger(group_id) matches Some(l) ==> ((r == Err::<Vec<PayoutScheduleEntry>, StellarSaveError>(
                StellarSaveError::InvalidState)) <==> !l.group.started),
            self.ledger(group_id) matches Some(l) ==> (r is Ok <==> l.group.started && forall|i: int|
                0 <= i < l.members@.len() ==> #[trigger] l.slot_fits(i)),
            self.ledger(group_id) matches Some(l) ==> (r matches Ok(v) ==> v@ == l.schedule_upto(l.members@.len() as int)),
            self.ledger(group_id) matches Some(l) ==> (r matches Err(e) ==> e == StellarSaveError::InvalidState || e
                == StellarSaveError::Overflow),
    {
        match self.find(group_id) {
            None => Err(StellarSaveError::GroupNotFound),
            Some(l) => l.payout_schedule(),
        }
    }

    /// The members still waiting for their payout, by ascending position.
    pub fn get_payout_queue(&self, group_id: u64) -> (r: Result<Vec<Address>, StellarSaveError>)
        requires
            self.wf(),
        ensures
            self.ledger(group_id) is None ==> r == Err::<Vec<Address>, StellarSaveError>(StellarSaveError::GroupNotFound),
            self.ledger(group_id) is Some ==> r is Ok,
            self.ledger(group_id) matches Some(l) ==> (r matches Ok(v) ==> l.is_payout_queue(v@)),
    {
        match self.find(group_id) {
            None => Err(StellarSaveError::GroupNotFound),
            Some(l) => Ok(l.payout_queue()),
        }
    }

    /// The ledgers of all groups other than `group_id` are the same in `a` and `b`.
    pub open spec fn others_same(a: StellarSaveContract, b: StellarSaveContract, group_id: u64) -> bool {
        forall|other: u64| other != group_id ==> #[trigger] a.ledger(other) == b.ledger(other)
    }

    /// `member` (who must be the caller) joins a pending group at the next
    /// position of the rotation.
    pub fn join_group(&mut self, inv: &Invocation, group_id: u64, member: Address) -> (r: Result<(), StellarSaveError>)
        requires
            old(self).wf(),
        ensures
            final(self).wf(),
            r is Err ==> Self::unchanged(*final(self), *old(self)),
            inv.caller != member ==> r == Err::<(), StellarSaveError>(StellarSaveError::Unauthorized),
            inv.caller == member && old(self).ledger(group_id) is None ==> r == Err::<(), StellarSaveError>(
                StellarSaveError::GroupNotFound),
            inv.caller == member ==> (old(self).ledger(group_id) matches Some(l) ==> {
                &&& l.group.status != GroupStatus::Pending ==> r == Err::<(), StellarSaveError>(StellarSaveError::InvalidState)
                &&& l.group.status == GroupStatus::Pending && l.is_member(member) ==> r == Err::<(), StellarSaveError>(
                    StellarSaveError::AlreadyMember)
                &&& l.group.status == GroupStatus::Pending && !l.is_member(member) && l.group.member_count
                    >= l.group.max_members ==> r == Err::<(), StellarSaveError>(StellarSaveError::GroupFull)
                &&& l.group.status == GroupStatus::Pending && !l.is_member(member) && l.group.member_count
                    < l.group.max_members ==> r is Ok
            }),
            r is Ok ==> (old(self).ledger(group_id) matches Some(l) && final(self).ledger(group_id) matches Some(l2)
                && l2.members@ == l.members@.push(member) && l2.profiles@ == l.profiles@.push(
                Some(
                    crate::ledger::MemberProfile {
                        address: member,
                        group_id,
                        payout_position: l.group.member_count,
                        joined_at: inv.now,
                    },
                ),
            ) && l2.group == (Group { member_count: (l.group.member_count + 1) as u32, ..l.group })
                && l2.contributions == l.contributions && l2.tallies == l.tallies && l2.payouts == l.payouts
                && l2.is_member(member) && forall|m: Address| #[trigger] l.is_member(m) ==> l2.is_member(m))
                && Self::others_same(*final(self), *old(self), group_id)
                && final(self).events@.len() == old(self).events@.len() + 1,
    {
        if inv.caller != member {
            return Err(StellarSaveError::Unauthorized);
        }
        let mut l = match self.take(group_id) {
            Some(l) => l,
            None => return Err(StellarSaveError::GroupNotFound),
        };
        let ghost l0 = l;
        let res = l.join(member, inv.now);
        let count = l.group.member_count;
        self.put(group_id, l);
        proof {
            Self::lemma_put_back(*old(self), *self, group_id, l);
            if res is Err {
                assert(self.groups@ =~= old(self).groups@);
            }
        }
        match res {
            Ok(p) => {
                EventEmitter::emit_member_joined(&mut self.events, group_id, member, count, inv.now);
                Ok(())
            },
            Err(e) => Err(e),
        }
    }

    /// Writes `member`'s payment into `cycle_number` of the group and updates
    /// the cycle's running total and count; a second payment by the same
    /// member into the same cycle is refused.
    pub fn record_contribution(
        &mut self,
        group_id: u64,
        cycle_number: u32,
        member_address: Address,
        amount: i128,
        timestamp: u64,
    ) -> (r: Result<(), StellarSaveError>)
        requires
            old(self).wf(),
            amount > 0,
        ensures
            final(self).wf(),
            r is Err ==> Self::unchanged(*final(self), *old(self)),
            old(self).ledger(group_id) is None ==> r == Err::<(), StellarSaveError>(StellarSaveError::GroupNotFound),
            old(self).ledger(group_id) matches Some(l) ==> {
                &&& crate::ledger::record_for(l.contributions@, cycle_number, member_address) is Some ==> r == Err::<
                    (),
                    StellarSaveError,
                >(StellarSaveError::AlreadyContributed)
                &&& crate::ledger::record_for(l.contributions@, cycle_number, member_address) is None && (l.cycle_total(
                    cycle_number,
                ) + amount > i128::MAX || l.contributor_count(cycle_number) + 1 > u32::MAX) ==> r == Err::<
                    (),
                    StellarSaveError,
                >(StellarSaveError::Overflow)
                &&& crate::ledger::record_for(l.contributions@, cycle_number, member_address) is None && l.cycle_total(
                    cycle_number,
                ) + amount <= i128::MAX && l.contributor_count(cycle_number) + 1 <= u32::MAX ==> r is Ok
            },
            r is Ok ==> (old(self).ledger(group_id) matches Some(l) && final(self).ledger(group_id) matches Some(l2)
                && l2.contributions@ == l.contributions@.push(
                ContributionRecord {
                    member_address,
                    group_id,
                    cycle_number,
                    amount,
                    timestamp,
                },
            ) && l2.cycle_total(cycle_number) == l.cycle_total(cycle_number) + amount && l2.contributor_count(
                cycle_number,
            ) == l.contributor_count(cycle_number) + 1 && l2.payment_time(cycle_number) == Some(timestamp)
                && (forall|c: u32, m: Address|
                #[trigger] crate::ledger::record_for(l2.contributions@, c, m) == if c == cycle_number && m
                    == member_address {
                    Some(ContributionRecord { member_address, group_id, cycle_number, amount, timestamp })
                } else {
                    crate::ledger::record_for(l.contributions@, c, m)
                }) && (forall|c: u32|
                c != cycle_number ==> #[trigger] l2.cycle_total(c) == l.cycle_total(c) && l2.contributor_count(c)
                    == l.contributor_count(c)) && (forall|m: Address, c: u32|
                #[trigger] member_sum(l2.contributions@, m, c) == member_sum(l.contributions@, m, c) + if m
                    == member_address && cycle_number <= c {
                    amount as int
                } else {
                    0
                })
                && l2.group == l.group && l2.members == l.members
                && l2.profiles == l.profiles && l2.payouts == l.payouts) && Self::others_same(
                *final(self),
                *old(self),
                group_id,
            ),
            old(self).ledger(group_id) matches Some(l) ==> (final(self).ledger(group_id) matches Some(l2)
                && forall|c: u32| #[trigger] l.cycle_complete(c) ==> l2.cycle_complete(c)),
    {
        let mut l = match self.take(group_id) {
            Some(l) => l,
            None => return Err(StellarSaveError::GroupNotFound),
        };
        let res = l.record_contribution(cycle_number, member_address, amount, timestamp);
        self.put(group_id, l);
        proof {
            Self::lemma_put_back(*old(self), *self, group_id, l);
            if res is Err {
                assert(self.groups@ =~= old(self).groups@);
            }
        }
        res
    }

    /// Pays the group's current pool to `recipient` and records it (see
    /// [`GroupLedger::execute_payout`]).
    pub fn execute_payout(&mut self, inv: &Invocation, group_id: u64, recipient: Address) -> (r: Result<
        PayoutRecord,
        StellarSaveError,
    >)
        requires
            old(self).wf(),
        ensures
            final(self).wf(),
            r is Err ==> Self::unchanged(*final(self), *old(self)),
            old(self).ledger(group_id) is None ==> r == Err::<PayoutRecord, StellarSaveError>(
                StellarSaveError::GroupNotFound),
            old(self).ledger(group_id) matches Some(l) ==> {
                &&& l.group.status != GroupStatus::Active ==> r == Err::<PayoutRecord, StellarSaveError>(
                    StellarSaveError::InvalidState)
                &&& l.group.status == GroupStatus::Active && l.paid(l.group.current_cycle) ==> r == Err::<
                    PayoutRecord,
                    StellarSaveError,
                >(StellarSaveError::PayoutAlreadyProcessed)
                &&& l.group.status == GroupStatus::Active && !l.paid(l.group.current_cycle) && !l.eligible(recipient)
                    ==> r == Err::<PayoutRecord, StellarSaveError>(StellarSaveError::InvalidRecipient)
                &&& l.group.status == GroupStatus::Active && !l.paid(l.group.current_cycle) && l.eligible(recipient)
                    ==> match l.pool_snapshot(l.group.current_cycle) {
                    Err(e) => r == Err::<PayoutRecord, StellarSaveError>(e),
                    Ok(p) => match crate::pool::ready_outcome(p) {
                        Err(e) => r == Err::<PayoutRecord, StellarSaveError>(e),
                        Ok(_) => r == Ok::<PayoutRecord, StellarSaveError>(
                            PayoutRecord {
                                recipient,
                                group_id,
                                cycle_number: l.group.current_cycle,
                                amount: p.total_pool_amount,
                                timestamp: inv.now,
                            },
                        ),
                    },
                }
            },
            r matches Ok(rec) ==> (old(self).ledger(group_id) matches Some(l) && final(self).ledger(group_id) matches Some(
                l2,
            ) && l2.payouts@ == l.payouts@.push(rec) && l2.group == l.group && l2.members == l.members
                && l2.profiles == l.profiles && l2.contributions == l.contributions && l2.tallies == l.tallies) && Self::others_same(
                *final(self),
                *old(self),
                group_id,
            ),
    {
        let mut l = match self.take(group_id) {
            Some(l) => l,
            None => return Err(StellarSaveError::GroupNotFound),
        };
        let res = l.execute_payout(recipient, inv.now);
        self.put(group_id, l);
        proof {
            Self::lemma_put_back(*old(self), *self, group_id, l);
            if res is Err {
                assert(self.groups@ =~= old(self).groups@);
            }
        }
        match res {
            Ok(rec) => {
                EventEmitter::emit_payout_executed(
                    &mut self.events,
                    group_id,
                    recipient,
                    rec.amount,
                    rec.cycle_number,
                    inv.now,
                );
                Ok(rec)
            },
            Err(e) => Err(e),
        }
    }

    /// The creator starts a pending group that has at least two members.
    pub fn activate_group(&mut self, inv: &Invocation, group_id: u64) -> (r: Result<(), StellarSaveError>)
        requires
            old(self).wf(),
        ensures
            final(self).wf(),
            r is Err ==> Self::unchanged(*final(self), *old(self)),
            old(self).ledger(group_id) is None ==> r == Err::<(), StellarSaveError>(StellarSaveError::GroupNotFound),
            old(self).ledger(group_id) matches Some(l) ==> {
                &&& inv.caller != l.group.creator ==> r == Err::<(), StellarSaveError>(StellarSaveError::Unauthorized)
                &&& inv.caller == l.group.creator && (l.group.status != GroupStatus::Pending || l.group.member_count < 2)
                    ==> r == Err::<(), StellarSaveError>(StellarSaveError::InvalidState)
                &&& inv.caller == l.group.creator && l.group.status == GroupStatus::Pending && l.group.member_count >= 2
                    ==> r is Ok
            },
            r is Ok ==> (old(self).ledger(group_id) matches Some(l) && final(self).ledger(group_id) matches Some(l2)
                && l2.group == (Group { status: GroupStatus::Active, started: true, started_at: inv.now, ..l.group })
                && l2.members == l.members && l2.profiles == l.profiles && l2.contributions == l.contributions
                && l2.tallies == l.tallies && l2.payouts == l.payouts) && Self::others_same(
                *final(self),
                *old(self),
                group_id,
            ),
    {
        let mut l = match self.take(group_id) {
            Some(l) => l,
            None => return Err(StellarSaveError::GroupNotFound),
        };
        let res = if inv.caller != l.group.creator {
            Err(StellarSaveError::Unauthorized)
        } else {
            l.activate(inv.now)
        };
        let count = l.group.member_count;
        self.put(group_id, l);
        proof {
            Self::lemma_put_back(*old(self), *self, group_id, l);
            if res is Err {
                assert(self.groups@ =~= old(self).groups@);
            }
        }
        match res {
            Ok(()) => {
                self.events.push(
                    ContractEvent::GroupActivated { group_id, member_count: count, activated_at: inv.now },
                );
                Ok(())
            },
            Err(e) => Err(e),
        }
    }

    /// The creator (`caller`, who must make the invocation) sets the rotation
    /// order of a pending group; `Random` is seeded with the invocation time.
    pub fn assign_payout_positions(
        &mut self,
        inv: &Invocation,
        group_id: u64,
        caller: Address,
        mode: AssignmentMode,
    ) -> (r: Result<(), StellarSaveError>)
        requires
            old(self).wf(),
        ensures
            final(self).wf(),
            r is Err ==> Self::unchanged(*final(self), *old(self)),
            inv.caller != caller ==> r == Err::<(), StellarSaveError>(StellarSaveError::Unauthorized),
            inv.caller == caller && old(self).ledger(group_id) is None ==> r == Err::<(), StellarSaveError>(
                StellarSaveError::GroupNotFound),
            inv.caller == caller ==> (old(self).ledger(group_id) matches Some(l) ==> {
                &&& caller != l.group.creator ==> r == Err::<(), StellarSaveError>(StellarSaveError::Unauthorized)
                &&& caller == l.group.creator && l.group.status != GroupStatus::Pending ==> r == Err::<
                    (),
                    StellarSaveError,
                >(StellarSaveError::InvalidState)
                &&& caller == l.group.creator && l.group.status == GroupStatus::Pending && positions_for(
                    mode,
                    l.members@.len(),
                    inv.now,
                ).len() != l.members@.len() ==> r == Err::<(), StellarSaveError>(StellarSaveError::InvalidState)
                &&& caller == l.group.creator && l.group.status == GroupStatus::Pending && positions_for(
                    mode,
                    l.members@.len(),
                    inv.now,
                ).len() == l.members@.len() && (forall|i: int| 0 <= i < l.members@.len() ==> #[trigger] l.active(i))
                    ==> r is Ok
            }),
            r is Ok ==> (old(self).ledger(group_id) matches Some(l) && final(self).ledger(group_id) matches Some(l2)
                && l2.profiles@.len() == l.profiles@.len() && (forall|i: int|
                0 <= i < l.profiles@.len() ==> #[trigger] l2.profiles@[i] == Some(
                    crate::ledger::MemberProfile {
                        payout_position: positions_for(mode, l.members@.len(), inv.now)[i],
                        ..l.profile(i)
                    },
                )) && l2.group == l.group && l2.members == l.members && l2.contributions == l.contributions
                && l2.tallies == l.tallies && l2.payouts == l.payouts) && Self::others_same(*final(self), *old(self), group_id),
    {
        if inv.caller != caller {
            return Err(StellarSaveError::Unauthorized);
        }
        let mut l = match self.take(group_id) {
            Some(l) => l,
            None => return Err(StellarSaveError::GroupNotFound),
        };
        let res = if l.group.creator != caller {
            Err(StellarSaveError::Unauthorized)
        } else {
            l.assign_positions(mode, inv.now)
        };
        self.put(group_id, l);
        proof {
            Self::lemma_put_back(*old(self), *self, group_id, l);
            if res is Err {
                assert(self.groups@ =~= old(self).groups@);
            }
        }
        res
    }

    /// `member` (who must be the caller) leaves a stalled group; returns what
    /// they may recover (see [`GroupLedger::emergency_withdraw`]). A non-zero
    /// amount is published as an event.
    pub fn emergency_withdraw(&mut self, inv: &Invocation, group_id: u64, member: Address) -> (r: Result<
        i128,
        StellarSaveError,
    >)
        requires
            old(self).wf(),
        ensures
            final(self).wf(),
            r is Err ==> Self::unchanged(*final(self), *old(self)),
            inv.caller != member ==> r == Err::<i128, StellarSaveError>(StellarSaveError::Unauthorized),
            inv.caller == member && old(self).ledger(group_id) is None ==> r == Err::<i128, StellarSaveError>(
                StellarSaveError::GroupNotFound),
            inv.caller == member ==> (old(self).ledger(group_id) matches Some(l) ==> {
                &&& !l.is_member(member) ==> r == Err::<i128, StellarSaveError>(StellarSaveError::NotMember)
                &&& l.is_member(member) && l.group.complete() ==> r == Err::<i128, StellarSaveError>(
                    StellarSaveError::InvalidState)
                &&& l.is_member(member) && !l.group.complete() && !l.stalled(inv.now) ==> r == Err::<
                    i128,
                    StellarSaveError,
                >(StellarSaveError::InvalidState)
                &&& l.is_member(member) && !l.group.complete() && l.stalled(inv.now) ==> {
                    let total = member_sum(l.contributions@, member, l.group.current_cycle);
                    &&& total > i128::MAX ==> r == Err::<i128, StellarSaveError>(StellarSaveError::Overflow)
                    &&& total <= i128::MAX && l.received(member) ==> r == Ok::<i128, StellarSaveError>(0)
                    &&& total <= i128::MAX && !l.received(member) ==> r == Ok::<i128, StellarSaveError>(total as i128)
                }
            }),
            r matches Ok(amount) ==> (old(self).ledger(group_id) matches Some(l) && final(self).ledger(group_id) matches Some(
                l2,
            ) && (exists|i: int|
                #[trigger] l.active(i) && l.members@[i] == member && l2.profiles@ == l.profiles@.update(i, None))
                && !l2.is_member(member) && l2.group == l.group && l2.members == l.members && l2.contributions
                == l.contributions && l2.tallies == l.tallies && l2.payouts == l.payouts) && Self::others_same(*final(self), *old(self), group_id)
                && (amount > 0 ==> final(self).events@ == old(self).events@.push(
                ContractEvent::EmergencyWithdrawal { group_id, member, amount },
            )) && (amount == 0 ==> final(self).events@ == old(self).events@),
    {
        if inv.caller != member {
            return Err(StellarSaveError::Unauthorized);
        }
        let mut l = match self.take(group_id) {
            Some(l) => l,
            None => return Err(StellarSaveError::GroupNotFound),
        };
        let res = l.emergency_withdraw(member, inv.now);
        self.put(group_id, l);
        proof {
            Self::lemma_put_back(*old(self), *self, group_id, l);
            if res is Err {
                assert(self.groups@ =~= old(self).groups@);
            }
        }
        match res {
            Ok(amount) => {
                if amount > 0 {
                    self.events.push(ContractEvent::EmergencyWithdrawal { group_id, member, amount });
                }
                Ok(amount)
            },
            Err(e) => Err(e),
        }
    }

    /// The creator deletes a group that nobody has joined.
    pub fn delete_group(&mut self, inv: &Invocation, group_id: u64) -> (r: Result<(), StellarSaveError>)
        requires
            old(self).wf(),
        ensures
            final(self).wf(),
            r is Err ==> Self::unchanged(*final(self), *old(self)),
            old(self).ledger(group_id) is None ==> r == Err::<(), StellarSaveError>(StellarSaveError::GroupNotFound),
            old(self).ledger(group_id) matches Some(l) ==> {
                &&& inv.caller != l.group.creator ==> r == Err::<(), StellarSaveError>(StellarSaveError::Unauthorized)
                &&& inv.caller == l.group.creator && l.group.member_count > 0 ==> r == Err::<(), StellarSaveError>(
                    StellarSaveError::InvalidState)
                &&& inv.caller == l.group.creator && l.group.member_count == 0 ==> r is Ok
            },
            r is Ok ==> final(self).ledger(group_id) is None && Self::others_same(*final(self), *old(self), group_id)
                && final(self).next_group_id == old(self).next_group_id,
    {
        let l = match self.take(group_id) {
            Some(l) => l,
            None => return Err(StellarSaveError::GroupNotFound),
        };
        let creator = l.group.creator;
        if inv.caller != creator || l.group.member_count > 0 {
            self.put(group_id, l);
            proof {
                assert(self.groups@ =~= old(self).groups@);
            }
            if inv.caller != creator {
                return Err(StellarSaveError::Unauthorized);
            }
            return Err(StellarSaveError::InvalidState);
        }
        proof {
            assert forall|i: int| 0 <= i < self.groups@.len() && #[trigger] self.groups@[i] is Some implies self.groups@[i]->Some_0.wf()
                && self.groups@[i]->Some_0.group.id == i + 1 by {
                assert(self.groups@[i] == old(self).groups@[i]);
            }
            assert forall|other: u64| other != group_id implies #[trigger] self.ledger(other) == old(self).ledger(other) by {
                if 1 <= other <= self.groups@.len() {
                    assert(self.groups@[other - 1] == old(self).groups@[other - 1]);
                }
            }
        }
        self.events.push(ContractEvent::GroupDeleted { group_id, creator });
        Ok(())
    }

    /// The creator amends a pending group's contribution, cycle length and
    /// capacity, within the configuration's bounds and not below the members
    /// already joined nor the cycles already run.
    pub fn update_group(
        &mut self,
        inv: &Invocation,
        group_id: u64,
        new_contribution: i128,
        new_duration: u64,
        new_max_members: u32,
    ) -> (r: Result<(), StellarSaveError>)
        requires
            old(self).wf(),
        ensures
            final(self).wf(),
            r is Err ==> Self::unchanged(*final(self), *old(self)),
            old(self).ledger(group_id) is None ==> r == Err::<(), StellarSaveError>(StellarSaveError::GroupNotFound),
            old(self).ledger(group_id) matches Some(l) ==> {
                &&& inv.caller != l.group.creator ==> r == Err::<(), StellarSaveError>(StellarSaveError::Unauthorized)
                &&& inv.caller == l.group.creator && l.group.status != GroupStatus::Pending ==> r == Err::<
                    (),
                    StellarSaveError,
                >(StellarSaveError::InvalidState)
                &&& inv.caller == l.group.creator && l.group.status == GroupStatus::Pending && new_contribution <= 0
                    ==> r == Err::<(), StellarSaveError>(StellarSaveError::InvalidAmount)
                &&& inv.caller == l.group.creator && l.group.status == GroupStatus::Pending && new_contribution > 0 && (
                !params_ok(old(self).config, new_contribution, new_duration, new_max_members) || new_max_members
                    < l.group.member_count || new_max_members < l.group.current_cycle) ==> r == Err::<(), StellarSaveError>(StellarSaveError::InvalidState)
                &&& inv.caller == l.group.creator && l.group.status == GroupStatus::Pending && params_ok(
                    old(self).config,
                    new_contribution,
                    new_duration,
                    new_max_members,
                ) && new_max_members >= l.group.member_count && new_max_members >= l.group.current_cycle ==> r is Ok
            },
            r is Ok ==> (old(self).ledger(group_id) matches Some(l) && final(self).ledger(group_id) matches Some(l2)
                && l2.group == (Group {
                contribution_amount: new_contribution,
                cycle_duration: new_duration,
                max_members: new_max_members,
                ..l.group
            }) && l2.members == l.members && l2.profiles == l.profiles && l2.contributions == l.contributions
                && l2.tallies == l.tallies && l2.payouts == l.payouts) && Self::others_same(
                *final(self),
                *old(self),
                group_id,
            ),
    {
        let mut l = match self.take(group_id) {
            Some(l) => l,
            None => return Err(StellarSaveError::GroupNotFound),
        };
        let ok = match self.config {
            Some(c) => c.allows(new_contribution, new_duration, new_max_members),
            None => true,
        };
        let res = if inv.caller != l.group.creator {
            Err(StellarSaveError::Unauthorized)
        } else if l.group.status != GroupStatus::Pending {
            Err(StellarSaveError::InvalidState)
        } else if new_contribution <= 0 {
            Err(StellarSaveError::InvalidAmount)
        } else if new_duration == 0 || new_max_members < 2 || !ok || new_max_members < l.group.member_count
            || new_max_members < l.group.current_cycle {
            Err(StellarSaveError::InvalidState)
        } else {
            l.group.contribution_amount = new_contribution;
            l.group.cycle_duration = new_duration;
            l.group.max_members = new_max_members;
            Ok(())
        };
        let creator = l.group.creator;
        self.put(group_id, l);
        proof {
            Self::lemma_put_back(*old(self), *self, group_id, l);
            if res is Err {
                assert(self.groups@ =~= old(self).groups@);
            }
        }
        if res.is_ok() {
            self.events.push(ContractEvent::GroupUpdated { group_id, creator });
        }
        res
    }

    /// Number of group ids handed out.
    pub fn get_total_groups(&self) -> (r: u64)
        ensures
            r == self.next_group_id,
    {
        self.next_group_id
    }

    /// Number of group ids handed out.
    pub fn get_total_groups_created(&self) -> (r: u64)
        ensures
            r == self.next_group_id,
    {
        self.next_group_id
    }

    /// The groups with ids `id, id - 1, ..., 1` that exist and pass the
    /// filter, at most `page` of them, newest first.
    pub open spec fn listed_from(&self, id: int, page: int, filter: Option<GroupStatus>) -> Seq<Group>
        decreases id,
    {
        if id < 1 || page <= 0 {
            Seq::empty()
        } else {
            match self.ledger(id as u64) {
                Some(l) => if filter is None || filter == Some(l.group.status) {
                    seq![l.group] + self.listed_from(id - 1, page - 1, filter)
                } else {
                    self.listed_from(id - 1, page, filter)
                },
                None => self.listed_from(id - 1, page, filter),
            }
        }
    }

    /// Lists groups newest first, from `cursor` down (from the newest when
    /// `cursor` is 0), keeping those whose status equals the filter, at most
    /// `limit` of them with `limit` capped at 50.
    pub fn list_groups(&self, cursor: u64, limit: u32, status_filter: Option<GroupStatus>) -> (r: Result<
        Vec<Group>,
        StellarSaveError,
    >)
        requires
            self.wf(),
        ensures
            r matches Ok(v) && v@ == self.listed_from(
                if cursor == 0 { self.next_group_id as int } else { cursor as int },
                if limit > 50 { 50 } else { limit as int },
                status_filter,
            ),
    {
        let start: u64 = if cursor == 0 { self.next_group_id } else { cursor };
        let page: u32 = if limit > 50 { 50 } else { limit };
        let mut out: Vec<Group> = Vec::new();
        let mut id: u64 = start;
        let mut count: u32 = 0;
        while id >= 1 && count < page
            invariant
                self.wf(),
                id <= start,
                count as int == out@.len(),
                count <= page,
                out@ + self.listed_from(id as int, page - count, status_filter) == self.listed_from(
                    start as int,
                    page as int,
                    status_filter,
                ),
            decreases id,
        {
            let ghost rest = self.listed_from(id as int - 1, page - count, status_filter);
            let ghost rest1 = self.listed_from(id as int - 1, page - count - 1, status_filter);
            match self.find(id) {
                Some(l) => {
                    let keep = match status_filter {
                        Some(f) => l.group.status == f,
                        None => true,
                    };
                    if keep {
                        proof {
                            assert(out@.push(l.group) + rest1 =~= out@ + (seq![l.group] + rest1));
                        }
                        out.push(l.group);
                        count = count + 1;
                    }
                },
                None => {},
            }
            id = id - 1;
        }
        proof {
            assert(self.listed_from(id as int, page - count, status_filter) =~= Seq::<Group>::empty());
            assert(out@ + Seq::<Group>::empty() =~= out@);
        }
        Ok(out)
    }
}

} // verus!
