use vstd::prelude::*;
use crate::address::Address;

verus! {

/// One member's payment into one cycle of one group. Immutable once written.
#[derive(Clone, Copy, Debug, PartialEq, Eq, Structural)]
pub struct ContributionRecord {
    /// Who paid.
    pub member_address: Address,
    /// The group paid into.
    pub group_id: u64,
    /// The cycle paid for, counted from 0.
    pub cycle_number: u32,
    /// Amount paid, in minor units; positive.
    pub amount: i128,
    /// When the payment was recorded, in seconds.
    pub timestamp: u64,
}

impl ContributionRecord {
    /// A record of a positive payment.
    pub fn new(
        member_address: Address,
        group_id: u64,
        cycle_number: u32,
        amount: i128,
        timestamp: u64,
    ) -> (r: ContributionRecord)
        requires
            amount > 0,
        ensures
            r == (ContributionRecord { member_address, group_id, cycle_number, amount, timestamp }),
    {
        ContributionRecord { member_address, group_id, cycle_number, amount, timestamp }
    }

    /// Whether the amount is positive.
    pub fn validate(&self) -> (r: bool)
        ensures
            r == (self.amount > 0),
    {
        self.amount > 0
    }

    /// Whether the record belongs to the given group and cycle.
    pub fn matches_group_and_cycle(&self, expected_group_id: u64, expected_cycle: u32) -> (r: bool)
        ensures
            r == (self.group_id == expected_group_id && self.cycle_number == expected_cycle),
    {
        self.group_id == expected_group_id && self.cycle_number == expected_cycle
    }

    /// Whether the given member made this payment.
    pub fn is_from_member(&self, address: &Address) -> (r: bool)
        ensures
            r == (self.member_address == *address),
    {
        self.member_address == *address
    }
}

} // verus!
