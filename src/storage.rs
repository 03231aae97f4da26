use vstd::prelude::*;
use crate::address::Address;

verus! {

/// Keys of group records, by group id.
#[derive(Clone, Copy, Debug, PartialEq, Eq, Structural, PartialOrd, Ord, Hash)]
pub enum GroupKey {
    Data(u64),
    Members(u64),
    Status(u64),
}

/// Keys of member records, by group id and address.
#[derive(Clone, Copy, Debug, PartialEq, Eq, Structural, PartialOrd, Ord, Hash)]
pub enum MemberKey {
    Profile(u64, Address),
    ContributionStatus(u64, Address),
    PayoutEligibility(u64, Address),
}

/// Keys of contribution records: one member's payment by group, cycle and
/// address; a cycle's aggregates by group and cycle.
#[derive(Clone, Copy, Debug, PartialEq, Eq, Structural, PartialOrd, Ord, Hash)]
pub enum ContributionKey {
    Individual(u64, u32, Address),
    CycleTotal(u64, u32),
    CycleCount(u64, u32),
}

/// Keys of payout records, by group and cycle.
#[derive(Clone, Copy, Debug, PartialEq, Eq, Structural, PartialOrd, Ord, Hash)]
pub enum PayoutKey {
    Record(u64, u32),
    Recipient(u64, u32),
    Status(u64, u32),
}

/// Keys of the global singletons.
#[derive(Clone, Copy, Debug, PartialEq, Eq, Structural, PartialOrd, Ord, Hash)]
pub enum CounterKey {
    NextGroupId,
    TotalGroups,
    ActiveGroups,
    TotalMembers,
    ContractVersion,
    ContractConfig,
}

/// A structured key of the persistence layer, grouped by family. Distinct
/// records get distinct keys: each key names its family, kind and owner.
#[derive(Clone, Copy, Debug, PartialEq, Eq, Structural, PartialOrd, Ord, Hash)]
pub enum StorageKey {
    Group(GroupKey),
    Member(MemberKey),
    Contribution(ContributionKey),
    Payout(PayoutKey),
    Counter(CounterKey),
}

/// Builds the keys of every record.
pub struct StorageKeyBuilder;

impl StorageKeyBuilder {
    /// The key of a group's record.
    pub fn group_data(group_id: u64) -> (r: StorageKey)
        ensures
            r == StorageKey::Group(GroupKey::Data(group_id)),
    {
        StorageKey::Group(GroupKey::Data(group_id))
    }

    /// The key of a group's member list.
    pub fn group_members(group_id: u64) -> (r: StorageKey)
        ensures
            r == StorageKey::Group(GroupKey::Members(group_id)),
    {
        StorageKey::Group(GroupKey::Members(group_id))
    }

    /// The key of a group's status.
    pub fn group_status(group_id: u64) -> (r: StorageKey)
        ensures
            r == StorageKey::Group(GroupKey::Status(group_id)),
    {
        StorageKey::Group(GroupKey::Status(group_id))
    }

    /// The key of a member's profile.
    pub fn member_profile(group_id: u64, address: Address) -> (r: StorageKey)
        ensures
            r == StorageKey::Member(MemberKey::Profile(group_id, address)),
    {
        StorageKey::Member(MemberKey::Profile(group_id, address))
    }

    /// The key of a member's contribution status.
    pub fn member_contribution_status(group_id: u64, address: Address) -> (r: StorageKey)
        ensures
            r == StorageKey::Member(MemberKey::ContributionStatus(group_id, address)),
    {
        StorageKey::Member(MemberKey::ContributionStatus(group_id, address))
    }

    /// The key of a member's payout position.
    pub fn member_payout_eligibility(group_id: u64, address: Address) -> (r: StorageKey)
        ensures
            r == StorageKey::Member(MemberKey::PayoutEligibility(group_id, address)),
    {
        StorageKey::Member(MemberKey::PayoutEligibility(group_id, address))
    }

    /// The key of one member's payment into one cycle.
    pub fn contribution_individual(group_id: u64, cycle: u32, address: Address) -> (r: StorageKey)
        ensures
            r == StorageKey::Contribution(ContributionKey::Individual(group_id, cycle, address)),
    {
        StorageKey::Contribution(ContributionKey::Individual(group_id, cycle, address))
    }

    /// The key of a cycle's running total.
    pub fn contribution_cycle_total(group_id: u64, cycle: u32) -> (r: StorageKey)
        ensures
            r == StorageKey::Contribution(ContributionKey::CycleTotal(group_id, cycle)),
    {
        StorageKey::Contribution(ContributionKey::CycleTotal(group_id, cycle))
    }

    /// The key of a cycle's running count.
    pub fn contribution_cycle_count(group_id: u64, cycle: u32) -> (r: StorageKey)
        ensures
            r == StorageKey::Contribution(ContributionKey::CycleCount(group_id, cycle)),
    {
        StorageKey::Contribution(ContributionKey::CycleCount(group_id, cycle))
    }

    /// The key of a cycle's payout record.
    pub fn payout_record(group_id: u64, cycle: u32) -> (r: StorageKey)
        ensures
            r == StorageKey::Payout(PayoutKey::Record(group_id, cycle)),
    {
        StorageKey::Payout(PayoutKey::Record(group_id, cycle))
    }

    /// The key of a cycle's payout recipient.
    pub fn payout_recipient(group_id: u64, cycle: u32) -> (r: StorageKey)
        ensures
            r == StorageKey::Payout(PayoutKey::Recipient(group_id, cycle)),
    {
        StorageKey::Payout(PayoutKey::Recipient(group_id, cycle))
    }

    /// The key of a cycle's payout status.
    pub fn payout_status(group_id: u64, cycle: u32) -> (r: StorageKey)
        ensures
            r == StorageKey::Payout(PayoutKey::Status(group_id, cycle)),
    {
        StorageKey::Payout(PayoutKey::Status(group_id, cycle))
    }

    /// The key of the next group id counter.
    pub fn next_group_id() -> (r: StorageKey)
        ensures
            r == StorageKey::Counter(CounterKey::NextGroupId),
    {
        StorageKey::Counter(CounterKey::NextGroupId)
    }

    /// The key of the total groups counter.
    pub fn total_groups() -> (r: StorageKey)
        ensures
            r == StorageKey::Counter(CounterKey::TotalGroups),
    {
        StorageKey::Counter(CounterKey::TotalGroups)
    }

    /// The key of the active groups counter.
    pub fn active_groups() -> (r: StorageKey)
        ensures
            r == StorageKey::Counter(CounterKey::ActiveGroups),
    {
        StorageKey::Counter(CounterKey::ActiveGroups)
    }

    /// The key of the total members counter.
    pub fn total_members() -> (r: StorageKey)
        ensures
            r == StorageKey::Counter(CounterKey::TotalMembers),
    {
        StorageKey::Counter(CounterKey::TotalMembers)
    }

    /// The key of the contract version.
    pub fn contract_version() -> (r: StorageKey)
        ensures
            r == StorageKey::Counter(CounterKey::ContractVersion),
    {
        StorageKey::Counter(CounterKey::ContractVersion)
    }

    /// The key of the global configuration.
    pub fn contract_config() -> (r: StorageKey)
        ensures
            r == StorageKey::Counter(CounterKey::ContractConfig),
    {
        StorageKey::Counter(CounterKey::ContractConfig)
    }

}

} // verus!
