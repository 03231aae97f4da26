use vstd::prelude::*;
use crate::address::Address;
use crate::units::ONE_XLM;

verus! {

/// The payout of one cycle's pool to its recipient. Its presence marks the
/// cycle's payout as processed.
#[derive(Clone, Copy, Debug, PartialEq, Eq, Structural)]
pub struct PayoutRecord {
    /// Who received the pool.
    pub recipient: Address,
    /// The group that paid.
    pub group_id: u64,
    /// The cycle paid out, counted from 0.
    pub cycle_number: u32,
    /// Amount paid, in minor units; positive.
    pub amount: i128,
    /// When the payout was made, in seconds.
    pub timestamp: u64,
}

impl PayoutRecord {
    /// A record of a positive payout.
    pub fn new(recipient: Address, group_id: u64, cycle_number: u32, amount: i128, timestamp: u64) -> (r:
        PayoutRecord)
        requires
            amount > 0,
        ensures
            r == (PayoutRecord { recipient, group_id, cycle_number, amount, timestamp }),
    {
        PayoutRecord { recipient, group_id, cycle_number, amount, timestamp }
    }

    /// Whether the amount is positive.
    pub fn validate(&self) -> (r: bool)
        ensures
            r == (self.amount > 0),
    {
        self.amount > 0
    }

    /// Whether the record belongs to the given group and cycle.
    pub fn matches_group_and_cycle(&self, expected_group_id: u64, expected_cycle: u32) -> (r: bool)
        ensures
            r == (self.group_id == expected_group_id && self.cycle_number == expected_cycle),
    {
        self.group_id == expected_group_id && self.cycle_number == expected_cycle
    }

    /// Whether the given principal received this payout.
    pub fn is_for_recipient(&self, address: &Address) -> (r: bool)
        ensures
            r == (self.recipient == *address),
    {
        self.recipient == *address
    }

    /// Whether the record belongs to the given group.
    pub fn belongs_to_group(&self, group_id: u64) -> (r: bool)
        ensures
            r == (self.group_id == group_id),
    {
        self.group_id == group_id
    }

    /// The amount in whole XLM, rounded toward zero.
    pub fn amount_in_xlm(&self) -> (r: i128)
        requires
            self.amount >= 0,
        ensures
            r == self.amount / ONE_XLM,
    {
        self.amount / ONE_XLM
    }
}

} // verus!
