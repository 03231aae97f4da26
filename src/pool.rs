use vstd::prelude::*;
use crate::contract::StellarSaveContract;
use crate::error::StellarSaveError;
use crate::ledger::cycle_count;

verus! {

/// A read-only snapshot of one cycle of one group.
#[derive(Clone, Copy, Debug, PartialEq, Eq, Structural)]
pub struct PoolInfo {
    /// The group.
    pub group_id: u64,
    /// The cycle described, counted from 0.
    pub cycle: u32,
    /// Number of members of the group.
    pub member_count: u32,
    /// Amount each member pays per cycle.
    pub contribution_amount: i128,
    /// `contribution_amount * member_count`.
    pub total_pool_amount: i128,
    /// Running total paid into the cycle.
    pub current_contributions: i128,
    /// Number of members that have paid into the cycle.
    pub contributors_count: u32,
    /// `contributors_count >= member_count`.
    pub is_cycle_complete: bool,
}

impl PoolInfo {
    /// What the cycle's recipient receives: the whole pool.
    pub fn return_amount(&self) -> (r: i128)
        ensures
            r == self.total_pool_amount,
    {
        self.total_pool_amount
    }

    /// Whether every member has paid.
    pub fn is_complete(&self) -> (r: bool)
        ensures
            r == (self.contributors_count >= self.member_count),
    {
        self.contributors_count >= self.member_count
    }

    /// How many members have yet to pay.
    pub fn remaining_contributions_needed(&self) -> (r: u32)
        ensures
            self.contributors_count >= self.member_count ==> r == 0,
            self.contributors_count < self.member_count ==> r == self.member_count
                - self.contributors_count,
    {
        if self.contributors_count >= self.member_count {
            0
        } else {
            self.member_count - self.contributors_count
        }
    }

    /// Share of members that have paid, as a whole percentage rounded down
    /// (0 for a group without members).
    pub fn completion_percentage(&self) -> (r: u32)
        ensures
            self.member_count == 0 ==> r == 0,
            self.member_count > 0 ==> r == ((self.contributors_count * 100) / (
            self.member_count as int)) as u32,
    {
        if self.member_count == 0 {
            return 0;
        }
        let scaled: u64 = self.contributors_count as u64 * 100;
        let pct: u64 = scaled / (self.member_count as u64);
        pct as u32
    }
}

/// The pool of a cycle: `contribution_amount * member_count` when both are
/// positive and the product fits.
pub open spec fn pool_outcome(contribution_amount: i128, member_count: u32) -> Result<i128, StellarSaveError> {
    if contribution_amount <= 0 {
        Err(StellarSaveError::InvalidAmount)
    } else if member_count == 0 {
        Err(StellarSaveError::InvalidState)
    } else if contribution_amount * member_count > i128::MAX {
        Err(StellarSaveError::InternalError)
    } else {
        Ok((contribution_amount * member_count) as i128)
    }
}

/// Whether a snapshot allows paying out: every member has paid, and the
/// total paid in equals the expected pool.
pub open spec fn ready_outcome(p: PoolInfo) -> Result<(), StellarSaveError> {
    if !p.is_cycle_complete {
        Err(StellarSaveError::CycleNotComplete)
    } else if p.current_contributions != p.total_pool_amount {
        Err(StellarSaveError::InvalidAmount)
    } else {
        Ok(())
    }
}

/// Pool arithmetic.
pub struct PoolCalculator;

impl PoolCalculator {
    /// `contribution_amount * member_count`, with checked multiplication.
    pub fn calculate_total_pool(contribution_amount: i128, member_count: u32) -> (r: Result<i128, StellarSaveError>)
        ensures
            r == pool_outcome(contribution_amount, member_count),
    {
        if contribution_amount <= 0 {
            return Err(StellarSaveError::InvalidAmount);
        }
        if member_count == 0 {
            return Err(StellarSaveError::InvalidState);
        }
        match contribution_amount.checked_mul(member_count as i128) {
            Some(pool) => Ok(pool),
            None => {
                assert(contribution_amount * member_count > 0) by (nonlinear_arith)
                    requires contribution_amount > 0, member_count > 0;
                Err(StellarSaveError::InternalError)
            },
        }
    }

    /// Fails `CycleNotComplete` unless every member has paid, then
    /// `InvalidAmount` unless the total paid equals the pool.
    pub fn validate_pool_ready_for_payout(pool_info: &PoolInfo) -> (r: Result<(), StellarSaveError>)
        ensures
            r == ready_outcome(*pool_info),
    {
        if !pool_info.is_cycle_complete {
            return Err(StellarSaveError::CycleNotComplete);
        }
        if pool_info.current_contributions != pool_info.total_pool_amount {
            return Err(StellarSaveError::InvalidAmount);
        }
        Ok(())
    }
}

impl PoolCalculator {
    /// Number of entries in the group's member list.
    pub fn get_member_count(contract: &StellarSaveContract, group_id: u64) -> (r: Result<u32, StellarSaveError>)
        requires
            contract.wf(),
        ensures
            contract.ledger(group_id) is None ==> r == Err::<u32, StellarSaveError>(StellarSaveError::GroupNotFound),
            contract.ledger(group_id) matches Some(l) ==> r == Ok::<u32, StellarSaveError>(l.members@.len() as u32),
    {
        match contract.find(group_id) {
            None => Err(StellarSaveError::GroupNotFound),
            Some(l) => Ok(l.members.len() as u32),
        }
    }

    /// The group's contribution amount.
    pub fn get_contribution_amount(contract: &StellarSaveContract, group_id: u64) -> (r: Result<i128, StellarSaveError>)
        requires
            contract.wf(),
        ensures
            contract.ledger(group_id) is None ==> r == Err::<i128, StellarSaveError>(StellarSaveError::GroupNotFound),
            contract.ledger(group_id) matches Some(l) ==> r == Ok::<i128, StellarSaveError>(l.group.contribution_amount),
    {
        match contract.find(group_id) {
            None => Err(StellarSaveError::GroupNotFound),
            Some(l) => Ok(l.group.contribution_amount),
        }
    }

    /// The running total of `cycle` (0 before any payment).
    pub fn get_cycle_contributions_total(contract: &StellarSaveContract, group_id: u64, cycle: u32) -> (r: Result<
        i128,
        StellarSaveError,
    >)
        requires
            contract.wf(),
        ensures
            contract.ledger(group_id) is None ==> r == Err::<i128, StellarSaveError>(StellarSaveError::GroupNotFound),
            contract.ledger(group_id) matches Some(l) ==> r == Ok::<i128, StellarSaveError>(l.cycle_total(cycle) as i128),
    {
        match contract.find(group_id) {
            None => Err(StellarSaveError::GroupNotFound),
            Some(l) => Ok(l.get_cycle_total(cycle)),
        }
    }

    /// The number of payments into `cycle` (0 before any payment).
    pub fn get_cycle_contributor_count(contract: &StellarSaveContract, group_id: u64, cycle: u32) -> (r: Result<
        u32,
        StellarSaveError,
    >)
        requires
            contract.wf(),
        ensures
            contract.ledger(group_id) is None ==> r == Err::<u32, StellarSaveError>(StellarSaveError::GroupNotFound),
            contract.ledger(group_id) matches Some(l) ==> r == Ok::<u32, StellarSaveError>(
                cycle_count(l.contributions@, cycle) as u32,
            ),
    {
        match contract.find(group_id) {
            None => Err(StellarSaveError::GroupNotFound),
            Some(l) => Ok(l.get_cycle_count(cycle)),
        }
    }

    /// The snapshot of the group's `cycle`.
    pub fn get_pool_info(contract: &StellarSaveContract, group_id: u64, cycle: u32) -> (r: Result<
        PoolInfo,
        StellarSaveError,
    >)
        requires
            contract.wf(),
        ensures
            contract.ledger(group_id) is None ==> r == Err::<PoolInfo, StellarSaveError>(StellarSaveError::GroupNotFound),
            contract.ledger(group_id) matches Some(l) ==> r == l.pool_snapshot(cycle),
    {
        contract.get_pool_info(group_id, cycle)
    }
}

/// For valid inputs the pool is exactly their product, and each kind of
/// invalid input has its own error.
pub proof fn lemma_pool_arithmetic(c: i128, n: u32)
    ensures
        c > 0 && n > 0 && c * n <= i128::MAX ==> pool_outcome(c, n) == Ok::<i128, StellarSaveError>((c * n) as i128),
        c > 0 && n > 0 && c * n > i128::MAX ==> pool_outcome(c, n) == Err::<i128, StellarSaveError>(StellarSaveError::InternalError),
        c <= 0 ==> pool_outcome(c, n) == Err::<i128, StellarSaveError>(StellarSaveError::InvalidAmount),
        c > 0 && n == 0 ==> pool_outcome(c, n) == Err::<i128, StellarSaveError>(StellarSaveError::InvalidState),
{
}

} // verus!
