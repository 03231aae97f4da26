use vstd::prelude::*;
use crate::address::Address;
use crate::contribution::ContributionRecord;
use crate::error::StellarSaveError;
use crate::group::{Group, GroupStatus};
use crate::payout::PayoutRecord;
use crate::pool::{PoolCalculator, PoolInfo, pool_outcome, ready_outcome};

verus! {

/// A member's standing in one group.
#[derive(Clone, Copy, Debug, PartialEq, Eq, Structural)]
pub struct MemberProfile {
    /// The member.
    pub address: Address,
    /// The group joined.
    pub group_id: u64,
    /// Turn in the rotation, counted from 0: position `k` is paid in cycle `k`.
    pub payout_position: u32,
    /// When the member joined, in seconds.
    pub joined_at: u64,
}

/// Running aggregates of one cycle, kept alongside the individual records.
#[derive(Clone, Copy, Debug, PartialEq, Eq, Structural)]
pub struct CycleTally {
    /// The cycle.
    pub cycle: u32,
    /// Sum of the amounts paid into the cycle.
    pub total: i128,
    /// Number of payments into the cycle.
    pub count: u32,
    /// Time of the latest payment into the cycle.
    pub last_activity: u64,
}

/// The record of `member` for `cycle`, if one was written (the latest such).
pub open spec fn record_for(s: Seq<ContributionRecord>, cycle: u32, member: Address) -> Option<
    ContributionRecord,
>
    decreases s.len(),
{
    if s.len() == 0 {
        None
    } else if s.last().cycle_number == cycle && s.last().member_address == member {
        Some(s.last())
    } else {
        record_for(s.drop_last(), cycle, member)
    }
}

/// A tally agrees with the records of its cycle.
pub open spec fn tally_matches(s: Seq<ContributionRecord>, t: CycleTally) -> bool {
    t.total == cycle_sum(s, t.cycle) && t.count == cycle_count(s, t.cycle)
}

/// Sum of the amounts recorded for `cycle`.
pub open spec fn cycle_sum(s: Seq<ContributionRecord>, cycle: u32) -> int
    decreases s.len(),
{
    if s.len() == 0 {
        0
    } else {
        cycle_sum(s.drop_last(), cycle) + if s.last().cycle_number == cycle {
            s.last().amount as int
        } else {
            0
        }
    }
}

/// Number of records for `cycle`.
pub open spec fn cycle_count(s: Seq<ContributionRecord>, cycle: u32) -> nat
    decreases s.len(),
{
    if s.len() == 0 {
        0
    } else {
        cycle_count(s.drop_last(), cycle) + if s.last().cycle_number == cycle {
            1nat
        } else {
            0nat
        }
    }
}

/// Sum of the amounts that `member` paid into cycles `0..=last_cycle`.
pub open spec fn member_sum(s: Seq<ContributionRecord>, member: Address, last_cycle: u32) -> int
    decreases s.len(),
{
    if s.len() == 0 {
        0
    } else {
        member_sum(s.drop_last(), member, last_cycle) + if s.last().member_address == member
            && s.last().cycle_number <= last_cycle {
            s.last().amount as int
        } else {
            0
        }
    }
}

/// No record for `cycle` and `member` was written exactly when `record_for`
/// finds none.
pub proof fn lemma_record_for_none(s: Seq<ContributionRecord>, cycle: u32, member: Address)
    ensures
        record_for(s, cycle, member) is None <==> forall|k: int|
            0 <= k < s.len() ==> !(#[trigger] s[k].cycle_number == cycle && s[k].member_address == member),
    decreases s.len(),
{
    if s.len() > 0 {
        let t = s.drop_last();
        lemma_record_for_none(t, cycle, member);
        assert forall|k: int| 0 <= k < t.len() implies #[trigger] t[k] == s[k] by {}
        if record_for(s, cycle, member) is None {
            assert forall|k: int| 0 <= k < s.len() implies !(#[trigger] s[k].cycle_number == cycle
                && s[k].member_address == member) by {
                if k < t.len() {
                    assert(t[k] == s[k]);
                }
            }
        } else {
            if !(s.last().cycle_number == cycle && s.last().member_address == member) {
                let k = choose|k: int|
                    0 <= k < t.len() && #[trigger] t[k].cycle_number == cycle && t[k].member_address == member;
                assert(s[k] == t[k]);
            }
        }
    }
}

/// Appending a record changes each aggregate by that record alone.
pub proof fn lemma_push_record(s: Seq<ContributionRecord>, r: ContributionRecord)
    ensures
        forall|c: u32|
            #[trigger] cycle_sum(s.push(r), c) == cycle_sum(s, c) + if r.cycle_number == c {
                r.amount as int
            } else {
                0
            },
        forall|c: u32|
            #[trigger] cycle_count(s.push(r), c) == cycle_count(s, c) + if r.cycle_number == c {
                1nat
            } else {
                0nat
            },
        forall|c: u32, m: Address|
            #[trigger] record_for(s.push(r), c, m) == if r.cycle_number == c && r.member_address
                == m {
                Some(r)
            } else {
                record_for(s, c, m)
            },
        forall|m: Address, c: u32|
            #[trigger] member_sum(s.push(r), m, c) == member_sum(s, m, c) + if r.member_address
                == m && r.cycle_number <= c {
                r.amount as int
            } else {
                0
            },
{
    assert(s.push(r).drop_last() =~= s);
}

/// Entry `i` of a member list still has its profile.
pub open spec fn slot_active(profiles: Seq<Option<MemberProfile>>, i: int) -> bool {
    0 <= i < profiles.len() && profiles[i] is Some
}

/// Some entry of the member list holds `m` and still has its profile.
pub open spec fn has_profile(members: Seq<Address>, profiles: Seq<Option<MemberProfile>>, m: Address) -> bool {
    exists|i: int| #[trigger] slot_active(profiles, i) && members[i] == m
}

/// The member list and the profiles run in parallel, and an address has at
/// most one profile.
pub open spec fn roster_wf(members: Seq<Address>, profiles: Seq<Option<MemberProfile>>) -> bool {
    &&& members.len() == profiles.len()
    &&& forall|i: int| #[trigger] slot_active(profiles, i) ==> profiles[i]->Some_0.address == members[i]
    &&& forall|i: int, j: int|
        #[trigger] slot_active(profiles, i) && #[trigger] slot_active(profiles, j) && members[i]
            == members[j] ==> i == j
}

/// Recorded amounts are positive, a member pays into a cycle at most once,
/// and each cycle has at most one tally, which agrees with the records; a
/// cycle without a tally has no records.
pub open spec fn records_wf(s: Seq<ContributionRecord>, tallies: Seq<CycleTally>) -> bool {
    &&& forall|k: int| 0 <= k < s.len() ==> #[trigger] s[k].amount > 0
    &&& forall|k: int, l: int|
        0 <= k < s.len() && 0 <= l < s.len() && #[trigger] s[k].cycle_number == #[trigger] s[l].cycle_number
            && s[k].member_address == s[l].member_address ==> k == l
    &&& forall|t: int| 0 <= t < tallies.len() ==> #[trigger] tally_matches(s, tallies[t])
    &&& forall|t: int, u: int|
        0 <= t < tallies.len() && 0 <= u < tallies.len() && #[trigger] tallies[t].cycle
            == #[trigger] tallies[u].cycle ==> t == u
    &&& forall|c: u32|
        (forall|t: int| 0 <= t < tallies.len() ==> tallies[t].cycle != c) ==> (#[trigger] cycle_count(s, c)
            == 0 && cycle_sum(s, c) == 0)
}

/// `a` appears in the member list.
pub open spec fn listed(members: Seq<Address>, a: Address) -> bool {
    exists|j: int| 0 <= j < members.len() && members[j] == a
}

/// Payouts go to listed members, are positive and not beyond the current
/// cycle; a cycle is paid at
/// most once and a member at most once, in the cycle of their position; a
/// pending group has paid nothing.
pub open spec fn payouts_wf(
    g: Group,
    members: Seq<Address>,
    profiles: Seq<Option<MemberProfile>>,
    payouts: Seq<PayoutRecord>,
) -> bool {
    &&& forall|k: int|
        0 <= k < payouts.len() ==> {
            &&& #[trigger] payouts[k].amount > 0
            &&& payouts[k].cycle_number <= g.current_cycle
        }
    &&& forall|k: int| 0 <= k < payouts.len() ==> #[trigger] listed(members, payouts[k].recipient)
    &&& forall|k: int, i: int|
        0 <= k < payouts.len() && #[trigger] slot_active(profiles, i) && members[i]
            == #[trigger] payouts[k].recipient ==> profiles[i]->Some_0.payout_position
            == payouts[k].cycle_number
    &&& forall|k: int, l: int|
        0 <= k < payouts.len() && 0 <= l < payouts.len() && #[trigger] payouts[k].recipient
            == #[trigger] payouts[l].recipient ==> k == l
    &&& forall|k: int, l: int|
        0 <= k < payouts.len() && 0 <= l < payouts.len() && #[trigger] payouts[k].cycle_number
            == #[trigger] payouts[l].cycle_number ==> k == l
    &&& g.status == GroupStatus::Pending ==> payouts.len() == 0
}

/// When a member is due to be paid.
#[derive(Clone, Copy, Debug, PartialEq, Eq, Structural)]
pub struct PayoutScheduleEntry {
    /// The member.
    pub recipient: Address,
    /// The cycle of the member's payout: their position.
    pub cycle: u32,
    /// `started_at + (cycle + 1) * cycle_duration`.
    pub payout_date: u64,
}

/// The end of cycle `position` of a group: `started_at + (position + 1) * cycle_duration`.
pub open spec fn date_of(g: Group, position: u32) -> int {
    g.started_at + (position + 1) * g.cycle_duration
}

/// How the rotation order is chosen.
#[derive(Clone, Debug)]
pub enum AssignmentMode {
    /// Join order: the i-th member in the list gets position i.
    Sequential,
    /// Join order, then shuffled with the invocation's timestamp as the seed.
    /// The seed is public and predictable: this gives variety, not an
    /// unpredictable lottery.
    Random,
    /// Positions given by the caller, one per entry of the member list; the
    /// caller is responsible for them forming a permutation.
    Manual(Vec<u32>),
}

/// Positions `0, 1, ..., n - 1`.
pub open spec fn sequential_positions(n: nat) -> Seq<u32> {
    Seq::new(n, |i: int| i as u32)
}

/// The index swapped with `i` at step `i` of the shuffle:
/// `(seed * (i + 1)) mod (i + 1)`, the product taken modulo 2^64.
pub open spec fn swap_index(seed: u64, i: int) -> int {
    (seed.wrapping_mul((i + 1) as u64) % ((i + 1) as u64)) as int
}

/// Step `i` of the shuffle: swap entries `i` and `swap_index(seed, i)`.
pub open spec fn shuffle_step(v: Seq<u32>, seed: u64, i: int) -> Seq<u32> {
    let j = swap_index(seed, i);
    v.update(i, v[j]).update(j, v[i])
}

/// Steps `i`, `i - 1`, ..., `1` of the shuffle applied to `v`.
pub open spec fn shuffle_down(v: Seq<u32>, seed: u64, i: int) -> Seq<u32>
    decreases i,
{
    if i < 1 {
        v
    } else {
        shuffle_down(shuffle_step(v, seed, i), seed, i - 1)
    }
}

/// The seeded Fisher-Yates style shuffle of `v`: for `i` from `len - 1` down
/// to 1, swap entries `i` and `swap_index(seed, i)`.
pub open spec fn shuffled(v: Seq<u32>, seed: u64) -> Seq<u32> {
    shuffle_down(v, seed, v.len() - 1)
}

/// The positions that a mode gives to a member list of length `n`.
pub open spec fn positions_for(mode: AssignmentMode, n: nat, seed: u64) -> Seq<u32> {
    match mode {
        AssignmentMode::Sequential => sequential_positions(n),
        AssignmentMode::Random => shuffled(sequential_positions(n), seed),
        AssignmentMode::Manual(v) => v@,
    }
}

/// The shuffle only swaps entries: the length stays.
pub proof fn lemma_shuffle_len(v: Seq<u32>, seed: u64, i: int)
    requires
        i < v.len(),
        v.len() <= u64::MAX,
    ensures
        shuffle_down(v, seed, i).len() == v.len(),
    decreases i,
{
    if i >= 1 {
        let j = swap_index(seed, i);
        assert(0 <= j < i + 1) by {
            let d = (i + 1) as u64;
            let m = seed.wrapping_mul(d);
            assert(d == i + 1);
            assert(m % d < d) by (nonlinear_arith)
                requires d > 0;
        }
        lemma_shuffle_len(shuffle_step(v, seed, i), seed, i - 1);
    }
}

/// Positions `0..n` in order.
fn sequential(n: usize) -> (r: Vec<u32>)
    requires
        n <= u32::MAX + 1,
    ensures
        r@ == sequential_positions(n as nat),
{
    let mut v: Vec<u32> = Vec::new();
    let mut i: usize = 0;
    while i < n
        invariant
            i <= n,
            n <= u32::MAX + 1,
            v@ =~= sequential_positions(i as nat),
        decreases n - i,
    {
        v.push(i as u32);
        i = i + 1;
    }
    v
}

/// Shuffles `v` in place with the seeded Fisher-Yates style steps.
pub fn shuffle(v: &mut Vec<u32>, seed: u64)
    ensures
        final(v)@ == shuffled(old(v)@, seed),
{
    let len = v.len();
    let mut i: usize = len;
    while i > 1
        invariant
            v@.len() == len,
            i <= len,
            shuffle_down(v@, seed, i - 1) == shuffled(old(v)@, seed),
        decreases i,
    {
        let top = i - 1;
        let j = (seed.wrapping_mul(top as u64 + 1) % (top as u64 + 1)) as usize;
        let a = v[top];
        let b = v[j];
        v.set(top, b);
        v.set(j, a);
        i = top;
    }
}

/// `a - b`, or 0 when `b > a`.
pub open spec fn sat_sub(a: u64, b: u64) -> u64 {
    if a >= b { (a - b) as u64 } else { 0 }
}

/// `2 * d`, or `u64::MAX` when that does not fit.
pub open spec fn sat_double(d: u64) -> u64 {
    if 2 * d > u64::MAX { u64::MAX } else { (2 * d) as u64 }
}

/// Number of cycles a history page may span: `limit`, capped at 50.
pub open spec fn page_size(limit: u32) -> int {
    if limit > 50 { 50 } else { limit as int }
}

/// Exclusive end of a history page: `start + page_size(limit)`, but not past
/// the current cycle.
pub open spec fn history_end(start: u32, limit: u32, current_cycle: u32) -> int {
    if start + page_size(limit) < current_cycle + 1 {
        start + page_size(limit)
    } else {
        current_cycle + 1
    }
}

/// Sum of the payouts of cycles below `below`.
pub open spec fn paid_sum(s: Seq<PayoutRecord>, below: u32) -> int
    decreases s.len(),
{
    if s.len() == 0 {
        0
    } else {
        paid_sum(s.drop_last(), below) + if s.last().cycle_number < below {
            s.last().amount as int
        } else {
            0
        }
    }
}

/// `member`'s records for cycles `lo..hi`, in cycle order.
pub open spec fn history_between(s: Seq<ContributionRecord>, member: Address, lo: int, hi: int) -> Seq<
    ContributionRecord,
>
    decreases hi - lo,
{
    if hi <= lo {
        Seq::empty()
    } else {
        let prev = history_between(s, member, lo, hi - 1);
        match record_for(s, (hi - 1) as u32, member) {
            Some(r) => prev.push(r),
            None => prev,
        }
    }
}

/// The records for `cycle` of the listed members, in list order.
pub open spec fn records_of(s: Seq<ContributionRecord>, members: Seq<Address>, cycle: u32) -> Seq<
    ContributionRecord,
>
    decreases members.len(),
{
    if members.len() == 0 {
        Seq::empty()
    } else {
        let prev = records_of(s, members.drop_last(), cycle);
        match record_for(s, cycle, members.last()) {
            Some(r) => prev.push(r),
            None => prev,
        }
    }
}

/// The listed members without a record for `cycle`, in list order.
pub open spec fn missing_of(s: Seq<ContributionRecord>, members: Seq<Address>, cycle: u32) -> Seq<Address>
    decreases members.len(),
{
    if members.len() == 0 {
        Seq::empty()
    } else {
        let prev = missing_of(s, members.drop_last(), cycle);
        if record_for(s, cycle, members.last()) is None {
            prev.push(members.last())
        } else {
            prev
        }
    }
}

/// A member's sum over a prefix of the records is at most the sum over all
/// of them, the amounts being positive.
pub proof fn lemma_member_sum_prefix(s: Seq<ContributionRecord>, m: Address, c: u32, k: int)
    requires
        0 <= k <= s.len(),
        forall|i: int| 0 <= i < s.len() ==> #[trigger] s[i].amount > 0,
    ensures
        member_sum(s.subrange(0, k), m, c) <= member_sum(s, m, c),
    decreases s.len(),
{
    if k < s.len() {
        let t = s.drop_last();
        assert(t.subrange(0, k) =~= s.subrange(0, k));
        assert forall|i: int| 0 <= i < t.len() implies #[trigger] t[i].amount > 0 by {
            assert(t[i] == s[i]);
        }
        lemma_member_sum_prefix(t, m, c, k);
    } else {
        assert(s.subrange(0, k) =~= s);
    }
}

/// The same for the payouts below a cycle.
pub proof fn lemma_paid_sum_prefix(s: Seq<PayoutRecord>, below: u32, k: int)
    requires
        0 <= k <= s.len(),
        forall|i: int| 0 <= i < s.len() ==> #[trigger] s[i].amount > 0,
    ensures
        paid_sum(s.subrange(0, k), below) <= paid_sum(s, below),
    decreases s.len(),
{
    if k < s.len() {
        let t = s.drop_last();
        assert(t.subrange(0, k) =~= s.subrange(0, k));
        assert forall|i: int| 0 <= i < t.len() implies #[trigger] t[i].amount > 0 by {
            assert(t[i] == s[i]);
        }
        lemma_paid_sum_prefix(t, below, k);
    } else {
        assert(s.subrange(0, k) =~= s);
    }
}

/// A page of history holds at most one record per cycle of its range.
pub proof fn lemma_history_len(s: Seq<ContributionRecord>, member: Address, lo: int, hi: int)
    ensures
        history_between(s, member, lo, hi).len() <= if hi >= lo { hi - lo } else { 0 },
    decreases hi - lo,
{
    if hi > lo {
        lemma_history_len(s, member, lo, hi - 1);
    }
}

/// Everything recorded under one group: the group itself, its member list
/// with the profile of each entry (gone once the member withdrew), the
/// contributions with their per-cycle tallies, and the payouts.
pub struct GroupLedger {
    pub group: Group,
    pub members: Vec<Address>,
    pub profiles: Vec<Option<MemberProfile>>,
    pub contributions: Vec<ContributionRecord>,
    pub tallies: Vec<CycleTally>,
    pub payouts: Vec<PayoutRecord>,
}

impl GroupLedger {
    /// Entry `i` of the member list still has its profile.
    pub open spec fn active(&self, i: int) -> bool {
        slot_active(self.profiles@, i)
    }

    /// The profile of entry `i` of the member list.
    pub open spec fn profile(&self, i: int) -> MemberProfile {
        self.profiles@[i]->Some_0
    }

    /// `m` is a member with a profile.
    pub open spec fn is_member(&self, m: Address) -> bool {
        has_profile(self.members@, self.profiles@, m)
    }

    /// Total paid into `cycle`.
    pub open spec fn cycle_total(&self, cycle: u32) -> int {
        cycle_sum(self.contributions@, cycle)
    }

    /// Number of payments into `cycle`.
    pub open spec fn contributor_count(&self, cycle: u32) -> nat {
        cycle_count(self.contributions@, cycle)
    }

    /// Every member has paid into `cycle`.
    pub open spec fn cycle_complete(&self, cycle: u32) -> bool {
        self.contributor_count(cycle) >= self.members@.len()
    }

    /// A payout to `m` has been recorded.
    pub open spec fn received(&self, m: Address) -> bool {
        exists|k: int|
            0 <= k < self.payouts@.len() && #[trigger] self.payouts@[k].recipient == m
                && self.payouts@[k].cycle_number <= self.group.current_cycle
    }

    /// A payout has been recorded for `cycle`.
    pub open spec fn paid(&self, cycle: u32) -> bool {
        exists|k: int| 0 <= k < self.payouts@.len() && #[trigger] self.payouts@[k].cycle_number == cycle
    }

    /// The ledger's invariant.
    pub open spec fn wf(&self) -> bool {
        &&& self.group.wf()
        &&& self.members@.len() == self.group.member_count
        &&& roster_wf(self.members@, self.profiles@)
        &&& records_wf(self.contributions@, self.tallies@)
        &&& payouts_wf(self.group, self.members@, self.profiles@, self.payouts@)
    }

    /// A ledger for a freshly created group.
    pub fn new(group: Group) -> (r: GroupLedger)
        requires
            group.wf(),
            group.member_count == 0,
            group.status == GroupStatus::Pending,
        ensures
            r.wf(),
            r.group == group,
            r.members@.len() == 0,
            r.contributions@.len() == 0,
            r.tallies@.len() == 0,
            r.payouts@.len() == 0,
    {
        GroupLedger {
            group,
            members: Vec::new(),
            profiles: Vec::new(),
            contributions: Vec::new(),
            tallies: Vec::new(),
            payouts: Vec::new(),
        }
    }

    /// The entry of the member list that holds `m`'s profile.
    pub fn find_member(&self, m: Address) -> (r: Option<usize>)
        requires
            self.members@.len() == self.profiles@.len(),
        ensures
            r matches Some(i) ==> self.active(i as int) && self.members@[i as int] == m,
            r is None ==> !self.is_member(m),
    {
        let mut i: usize = 0;
        while i < self.members.len()
            invariant
                self.members@.len() == self.profiles@.len(),
                i <= self.members@.len(),
                forall|j: int| 0 <= j < i ==> !(#[trigger] slot_active(self.profiles@, j) && self.members@[j] == m),
            decreases self.members@.len() - i,
        {
            if self.profiles[i].is_some() && self.members[i] == m {
                return Some(i);
            }
            i = i + 1;
        }
        None
    }

    /// Adds `member` to a pending group, at the next position of the rotation.
    pub fn join(&mut self, member: Address, now: u64) -> (r: Result<MemberProfile, StellarSaveError>)
        requires
            old(self).wf(),
        ensures
            final(self).wf(),
            old(self).group.status != GroupStatus::Pending ==> r == Err::<MemberProfile, StellarSaveError>(
                StellarSaveError::InvalidState),
            old(self).group.status == GroupStatus::Pending && old(self).is_member(member) ==> r == Err::<
                MemberProfile,
                StellarSaveError,
            >(StellarSaveError::AlreadyMember),
            old(self).group.status == GroupStatus::Pending && !old(self).is_member(member)
                && old(self).group.member_count >= old(self).group.max_members ==> r == Err::<
                MemberProfile,
                StellarSaveError,
            >(StellarSaveError::GroupFull),
            r is Err ==> *final(self) == *old(self),
            old(self).group.status == GroupStatus::Pending && !old(self).is_member(member)
                && old(self).group.member_count < old(self).group.max_members ==> r is Ok,
            r is Ok ==> final(self).is_member(member) && forall|m: Address|
                #[trigger] old(self).is_member(m) ==> final(self).is_member(m),
            r matches Ok(p) ==> {
                &&& p == (MemberProfile {
                    address: member,
                    group_id: old(self).group.id,
                    payout_position: old(self).group.member_count,
                    joined_at: now,
                })
                &&& final(self).members@ == old(self).members@.push(member)
                &&& final(self).profiles@ == old(self).profiles@.push(Some(p))
                &&& final(self).group == (Group {
                    member_count: (old(self).group.member_count + 1) as u32,
                    ..old(self).group
                })
                &&& final(self).contributions == old(self).contributions
                &&& final(self).tallies == old(self).tallies
                &&& final(self).payouts == old(self).payouts
            },
    {
        if self.group.status != GroupStatus::Pending {
            return Err(StellarSaveError::InvalidState);
        }
        if self.find_member(member).is_some() {
            return Err(StellarSaveError::AlreadyMember);
        }
        if self.group.member_count >= self.group.max_members {
            return Err(StellarSaveError::GroupFull);
        }
        let profile = MemberProfile {
            address: member,
            group_id: self.group.id,
            payout_position: self.group.member_count,
            joined_at: now,
        };
        let ghost before = *self;
        self.members.push(member);
        self.profiles.push(Some(profile));
        self.group.member_count = self.group.member_count + 1;
        proof {
            let n = before.members@.len() as int;
            assert(!before.is_member(member));
            assert forall|i: int| #[trigger] slot_active(self.profiles@, i) implies self.profiles@[i]->Some_0.address == self.members@[i] by {
                if i < n {
                    assert(slot_active(before.profiles@, i));
                    assert(self.profiles@[i] == before.profiles@[i]);
                    assert(self.members@[i] == before.members@[i]);
                }
            }
            assert forall|i: int, j: int|
                #[trigger] slot_active(self.profiles@, i) && #[trigger] slot_active(self.profiles@, j) && self.members@[i]
                    == self.members@[j] implies i == j by {
                if i < n {
                    assert(slot_active(before.profiles@, i));
                    assert(self.members@[i] == before.members@[i]);
                    assert(before.active(i));
                }
                if j < n {
                    assert(slot_active(before.profiles@, j));
                    assert(self.members@[j] == before.members@[j]);
                    assert(before.active(j));
                }
            }
            assert forall|k: int, i: int|
                0 <= k < self.payouts@.len() && #[trigger] self.active(i) && self.members@[i]
                    == #[trigger] self.payouts@[k].recipient implies self.profile(i).payout_position
                    == self.payouts@[k].cycle_number by {
                assert(self.payouts@.len() == 0);
            }
            assert(self.group.wf());
            assert(self.active(n) && self.members@[n] == member);
            assert forall|m: Address| #[trigger] before.is_member(m) implies self.is_member(m) by {
                let w = choose|w: int| #[trigger] slot_active(before.profiles@, w) && before.members@[w] == m;
                assert(slot_active(self.profiles@, w) && self.members@[w] == m);
            }
            assert(before.payouts@.len() == 0);
            assert(payouts_wf(self.group, self.members@, self.profiles@, self.payouts@));
            assert(roster_wf(self.members@, self.profiles@));
            assert(self.contributions@ == before.contributions@);
            assert(self.tallies@ == before.tallies@);
        }
        Ok(profile)
    }

    /// The record of `member` for `cycle`.
    pub fn find_record(&self, cycle: u32, member: Address) -> (r: Option<ContributionRecord>)
        ensures
            r == record_for(self.contributions@, cycle, member),
    {
        let mut i: usize = self.contributions.len();
        proof {
            assert(self.contributions@.subrange(0, i as int) =~= self.contributions@);
        }
        while i > 0
            invariant
                i <= self.contributions@.len(),
                record_for(self.contributions@, cycle, member) == record_for(
                    self.contributions@.subrange(0, i as int),
                    cycle,
                    member,
                ),
            decreases i,
        {
            let rec = self.contributions[i - 1];
            proof {
                let t = self.contributions@.subrange(0, i as int);
                assert(t.drop_last() =~= self.contributions@.subrange(0, i - 1));
            }
            if rec.cycle_number == cycle && rec.member_address == member {
                return Some(rec);
            }
            i = i - 1;
        }
        proof {
            assert(self.contributions@.subrange(0, 0) =~= Seq::<ContributionRecord>::empty());
        }
        None
    }

    /// The tally kept for `cycle`.
    pub fn tally_index(&self, cycle: u32) -> (r: Option<usize>)
        ensures
            r matches Some(t) ==> t < self.tallies@.len() && self.tallies@[t as int].cycle == cycle,
            r is None ==> forall|t: int| 0 <= t < self.tallies@.len() ==> self.tallies@[t].cycle != cycle,
    {
        let mut t: usize = 0;
        while t < self.tallies.len()
            invariant
                t <= self.tallies@.len(),
                forall|u: int| 0 <= u < t ==> self.tallies@[u].cycle != cycle,
            decreases self.tallies@.len() - t,
        {
            if self.tallies[t].cycle == cycle {
                return Some(t);
            }
            t = t + 1;
        }
        None
    }

    /// The running total of `cycle`.
    pub fn get_cycle_total(&self, cycle: u32) -> (r: i128)
        requires
            self.wf(),
        ensures
            r == self.cycle_total(cycle),
    {
        match self.tally_index(cycle) {
            Some(t) => {
                proof {
                    assert(tally_matches(self.contributions@, self.tallies@[t as int]));
                }
                self.tallies[t].total
            },
            None => {
                proof {
                    assert(cycle_count(self.contributions@, cycle) == 0);
                }
                0
            },
        }
    }

    /// The number of payments into `cycle`.
    pub fn get_cycle_count(&self, cycle: u32) -> (r: u32)
        requires
            self.wf(),
        ensures
            r == self.contributor_count(cycle),
    {
        match self.tally_index(cycle) {
            Some(t) => {
                proof {
                    assert(tally_matches(self.contributions@, self.tallies@[t as int]));
                }
                self.tallies[t].count
            },
            None => {
                proof {
                    assert(cycle_count(self.contributions@, cycle) == 0);
                }
                0
            },
        }
    }

    /// Writes `member`'s payment into `cycle` and updates the cycle's running
    /// total and count. A second payment by the same member into the same
    /// cycle is refused; a total or count that would overflow is refused too.
    pub fn record_contribution(
        &mut self,
        cycle: u32,
        member: Address,
        amount: i128,
        timestamp: u64,
    ) -> (r: Result<(), StellarSaveError>)
        requires
            old(self).wf(),
            amount > 0,
        ensures
            final(self).wf(),
            record_for(old(self).contributions@, cycle, member) is Some ==> r == Err::<(), StellarSaveError>(
                StellarSaveError::AlreadyContributed),
            record_for(old(self).contributions@, cycle, member) is None && (old(self).cycle_total(cycle)
                + amount > i128::MAX || old(self).contributor_count(cycle) + 1 > u32::MAX) ==> r
                == Err::<(), StellarSaveError>(StellarSaveError::Overflow),
            record_for(old(self).contributions@, cycle, member) is None && old(self).cycle_total(cycle) + amount
                <= i128::MAX && old(self).contributor_count(cycle) + 1 <= u32::MAX ==> r is Ok,
            r is Err ==> *final(self) == *old(self),
            r is Ok ==> {
                &&& final(self).contributions@ == old(self).contributions@.push(
                    ContributionRecord {
                        member_address: member,
                        group_id: old(self).group.id,
                        cycle_number: cycle,
                        amount,
                        timestamp,
                    },
                )
                &&& final(self).cycle_total(cycle) == old(self).cycle_total(cycle) + amount
                &&& final(self).contributor_count(cycle) == old(self).contributor_count(cycle) + 1
                &&& final(self).group == old(self).group
                &&& final(self).members == old(self).members
                &&& final(self).profiles == old(self).profiles
                &&& final(self).payouts == old(self).payouts
                &&& final(self).payment_time(cycle) == Some(timestamp)
                &&& forall|c: u32, m: Address|
                    #[trigger] record_for(final(self).contributions@, c, m) == if c == cycle && m == member {
                        Some(
                            ContributionRecord {
                                member_address: member,
                                group_id: old(self).group.id,
                                cycle_number: cycle,
                                amount,
                                timestamp,
                            },
                        )
                    } else {
                        record_for(old(self).contributions@, c, m)
                    }
                &&& forall|c: u32|
                    c != cycle ==> #[trigger] final(self).cycle_total(c) == old(self).cycle_total(c)
                        && final(self).contributor_count(c) == old(self).contributor_count(c)
                &&& forall|m: Address, c: u32|
                    #[trigger] member_sum(final(self).contributions@, m, c) == member_sum(old(self).contributions@, m, c)
                        + if m == member && cycle <= c {
                        amount as int
                    } else {
                        0
                    }
            },
            forall|c: u32| #[trigger] old(self).cycle_complete(c) ==> final(self).cycle_complete(c),
    {
        if self.find_record(cycle, member).is_some() {
            return Err(StellarSaveError::AlreadyContributed);
        }
        let rec = ContributionRecord {
            member_address: member,
            group_id: self.group.id,
            cycle_number: cycle,
            amount,
            timestamp,
        };
        let ghost before = *self;
        proof {
            lemma_push_record(self.contributions@, rec);
        }
        match self.tally_index(cycle) {
            Some(t) => {
                let tally = self.tallies[t];
                proof {
                    assert(tally_matches(self.contributions@, self.tallies@[t as int]));
                }
                let new_total = match tally.total.checked_add(amount) {
                    Some(v) => v,
                    None => return Err(StellarSaveError::Overflow),
                };
                let new_count = match tally.count.checked_add(1) {
                    Some(v) => v,
                    None => return Err(StellarSaveError::Overflow),
                };
                self.contributions.push(rec);
                self.tallies.set(
                    t,
                    CycleTally { cycle, total: new_total, count: new_count, last_activity: timestamp },
                );
                proof {
                    assert forall|u: int| 0 <= u < self.tallies@.len() implies #[trigger] tally_matches(self.contributions@, self.tallies@[u]) by {
                        let cu = self.tallies@[u].cycle;
                        if u != t {
                            assert(before.tallies@[u] == self.tallies@[u]);
                            assert(tally_matches(before.contributions@, before.tallies@[u]));
                            assert(before.tallies@[u].cycle != cycle);
                        } else {
                            assert(tally_matches(before.contributions@, before.tallies@[u]));
                        }
                        assert(cycle_sum(before.contributions@.push(rec), cu) == cycle_sum(before.contributions@, cu) + if rec.cycle_number == cu { rec.amount as int } else { 0 });
                        assert(cycle_count(before.contributions@.push(rec), cu) == cycle_count(before.contributions@, cu) + if rec.cycle_number == cu { 1nat } else { 0nat });
                    }
                    assert forall|c: u32|
                        (forall|u: int| 0 <= u < self.tallies@.len() ==> self.tallies@[u].cycle != c) implies (
                        #[trigger] cycle_count(self.contributions@, c) == 0 && cycle_sum(
                            self.contributions@,
                            c,
                        ) == 0) by {
                        assert(self.tallies@[t as int].cycle == cycle);
                        assert(c != cycle);
                        assert forall|u: int| 0 <= u < before.tallies@.len() implies before.tallies@[u].cycle != c by {
                            if u != t {
                                assert(before.tallies@[u] == self.tallies@[u]);
                            }
                        }
                        assert(cycle_count(before.contributions@, c) == 0);
                        assert(cycle_sum(before.contributions@, c) == 0);
                        assert(self.contributions@ == before.contributions@.push(rec));
                        assert(cycle_count(before.contributions@.push(rec), c) == cycle_count(before.contributions@, c));
                        assert(cycle_sum(before.contributions@.push(rec), c) == cycle_sum(before.contributions@, c));
                    }
                    assert(self.tallies@[t as int].cycle == cycle && self.tallies@[t as int].last_activity == timestamp);
                    assert forall|a: int, b: int|
                        0 <= a < self.tallies@.len() && 0 <= b < self.tallies@.len() && #[trigger] self.tallies@[a].cycle
                            == #[trigger] self.tallies@[b].cycle implies a == b by {
                        assert(self.tallies@[a].cycle == before.tallies@[a].cycle);
                        assert(self.tallies@[b].cycle == before.tallies@[b].cycle);
                    }
                    let w = choose|u: int| 0 <= u < self.tallies@.len() && #[trigger] self.tallies@[u].cycle == cycle;
                    assert(w == t);
                }
            },
            None => {
                proof {
                    assert(cycle_count(self.contributions@, cycle) == 0);
                }
                self.contributions.push(rec);
                self.tallies.push(CycleTally { cycle, total: amount, count: 1, last_activity: timestamp });
                proof {
                    let n = before.tallies@.len() as int;
                    assert forall|u: int| 0 <= u < self.tallies@.len() implies #[trigger] tally_matches(self.contributions@, self.tallies@[u]) by {
                        let cu = self.tallies@[u].cycle;
                        assert(self.contributions@ == before.contributions@.push(rec));
                        if u < n {
                            assert(before.tallies@[u] == self.tallies@[u]);
                            assert(tally_matches(before.contributions@, before.tallies@[u]));
                            assert(before.tallies@[u].cycle != cycle);
                        } else {
                            assert(forall|w: int| 0 <= w < before.tallies@.len() ==> before.tallies@[w].cycle != cycle);
                            assert(cycle_count(before.contributions@, cycle) == 0);
                            assert(cycle_sum(before.contributions@, cycle) == 0);
                            assert(self.tallies@[u] == CycleTally { cycle, total: amount, count: 1, last_activity: timestamp });
                            assert(cycle_sum(self.contributions@, cycle) == amount);
                            assert(cycle_count(self.contributions@, cycle) == 1);
                            assert(tally_matches(self.contributions@, self.tallies@[u]));
                        }
                        assert(cycle_sum(before.contributions@.push(rec), cu) == cycle_sum(before.contributions@, cu) + if rec.cycle_number == cu { rec.amount as int } else { 0 });
                        assert(cycle_count(before.contributions@.push(rec), cu) == cycle_count(before.contributions@, cu) + if rec.cycle_number == cu { 1nat } else { 0nat });
                    }
                    assert forall|c: u32|
                        (forall|u: int| 0 <= u < self.tallies@.len() ==> self.tallies@[u].cycle != c) implies (
                        #[trigger] cycle_count(self.contributions@, c) == 0 && cycle_sum(
                            self.contributions@,
                            c,
                        ) == 0) by {
                        assert(self.tallies@[n].cycle == cycle);
                        assert(c != cycle);
                        assert forall|u: int| 0 <= u < before.tallies@.len() implies before.tallies@[u].cycle != c by {
                            assert(before.tallies@[u] == self.tallies@[u]);
                        }
                        assert(cycle_count(before.contributions@, c) == 0);
                        assert(cycle_sum(before.contributions@, c) == 0);
                        assert(self.contributions@ == before.contributions@.push(rec));
                        assert(cycle_count(before.contributions@.push(rec), c) == cycle_count(before.contributions@, c));
                        assert(cycle_sum(before.contributions@.push(rec), c) == cycle_sum(before.contributions@, c));
                    }
                    assert(self.tallies@[n].cycle == cycle && self.tallies@[n].last_activity == timestamp);
                    assert forall|a: int, b: int|
                        0 <= a < self.tallies@.len() && 0 <= b < self.tallies@.len() && #[trigger] self.tallies@[a].cycle
                            == #[trigger] self.tallies@[b].cycle implies a == b by {
                        if a < n {
                            assert(self.tallies@[a] == before.tallies@[a]);
                        }
                        if b < n {
                            assert(self.tallies@[b] == before.tallies@[b]);
                        }
                    }
                    let w = choose|u: int| 0 <= u < self.tallies@.len() && #[trigger] self.tallies@[u].cycle == cycle;
                    assert(w == n);
                }
            },
        }
        proof {
            assert forall|k: int| 0 <= k < self.contributions@.len() implies #[trigger] self.contributions@[k].amount > 0 by {
                if k < before.contributions@.len() {
                    assert(self.contributions@[k] == before.contributions@[k]);
                }
            }
            lemma_record_for_none(before.contributions@, cycle, member);
            let sc = self.contributions@;
            let nc = before.contributions@.len() as int;
            assert forall|k: int, l: int|
                0 <= k < sc.len() && 0 <= l < sc.len() && #[trigger] sc[k].cycle_number == #[trigger] sc[l].cycle_number
                    && sc[k].member_address == sc[l].member_address implies k == l by {
                if k < nc {
                    assert(sc[k] == before.contributions@[k]);
                }
                if l < nc {
                    assert(sc[l] == before.contributions@[l]);
                }
            }
        }
        Ok(())
    }

    /// Time of the latest payment into `cycle`, if any was recorded.
    pub open spec fn payment_time(&self, cycle: u32) -> Option<u64> {
        if exists|t: int| 0 <= t < self.tallies@.len() && #[trigger] self.tallies@[t].cycle == cycle {
            Some(
                self.tallies@[choose|t: int| 0 <= t < self.tallies@.len() && #[trigger] self.tallies@[t].cycle == cycle].last_activity,
            )
        } else {
            None
        }
    }

    /// Whether a payout to `m` has been recorded (cycles `0..=current_cycle`).
    pub fn has_received_payout(&self, m: Address) -> (r: bool)
        ensures
            r == self.received(m),
    {
        let mut k: usize = 0;
        while k < self.payouts.len()
            invariant
                k <= self.payouts@.len(),
                forall|j: int|
                    0 <= j < k ==> !(#[trigger] self.payouts@[j].recipient == m
                        && self.payouts@[j].cycle_number <= self.group.current_cycle),
            decreases self.payouts@.len() - k,
        {
            if self.payouts[k].recipient == m && self.payouts[k].cycle_number <= self.group.current_cycle {
                return true;
            }
            k = k + 1;
        }
        false
    }

    /// Whether the payout of `cycle` has been recorded.
    pub fn is_paid(&self, cycle: u32) -> (r: bool)
        ensures
            r == self.paid(cycle),
    {
        let mut k: usize = 0;
        while k < self.payouts.len()
            invariant
                k <= self.payouts@.len(),
                forall|j: int| 0 <= j < k ==> #[trigger] self.payouts@[j].cycle_number != cycle,
            decreases self.payouts@.len() - k,
        {
            if self.payouts[k].cycle_number == cycle {
                return true;
            }
            k = k + 1;
        }
        false
    }

    /// `m`'s turn in the rotation.
    pub fn payout_position(&self, m: Address) -> (r: Result<u32, StellarSaveError>)
        requires
            self.wf(),
        ensures
            !self.is_member(m) ==> r == Err::<u32, StellarSaveError>(StellarSaveError::NotMember),
            self.is_member(m) ==> r is Ok,
            r matches Ok(p) ==> exists|i: int|
                #[trigger] self.active(i) && self.members@[i] == m && self.profile(i).payout_position == p,
    {
        match self.find_member(m) {
            Some(i) => {
                let p = self.profiles[i].unwrap();
                Ok(p.payout_position)
            },
            None => Err(StellarSaveError::NotMember),
        }
    }

    /// `m` may receive the current cycle's pool: a member who has not been
    /// paid and whose turn it is.
    pub open spec fn eligible(&self, m: Address) -> bool {
        exists|i: int|
            #[trigger] self.active(i) && self.members@[i] == m && !self.received(m)
                && self.profile(i).payout_position == self.group.current_cycle
    }

    /// Whether `m` may receive the current cycle's pool.
    pub fn validate_payout_recipient(&self, m: Address) -> (r: bool)
        requires
            self.wf(),
        ensures
            r == self.eligible(m),
    {
        match self.find_member(m) {
            None => false,
            Some(i) => {
                if self.has_received_payout(m) {
                    return false;
                }
                let p = self.profiles[i].unwrap();
                proof {
                    assert forall|j: int| #[trigger] self.active(j) && self.members@[j] == m implies j == i by {
                        assert(slot_active(self.profiles@, i as int));
                        assert(slot_active(self.profiles@, j));
                    }
                }
                p.payout_position == self.group.current_cycle
            },
        }
    }

    /// The snapshot of `cycle`: the pool from the contribution amount and the
    /// size of the member list, with the cycle's running total and count.
    pub open spec fn pool_snapshot(&self, cycle: u32) -> Result<PoolInfo, StellarSaveError> {
        match pool_outcome(self.group.contribution_amount, self.members@.len() as u32) {
            Err(e) => Err(e),
            Ok(total) => Ok(
                PoolInfo {
                    group_id: self.group.id,
                    cycle,
                    member_count: self.members@.len() as u32,
                    contribution_amount: self.group.contribution_amount,
                    total_pool_amount: total,
                    current_contributions: self.cycle_total(cycle) as i128,
                    contributors_count: self.contributor_count(cycle) as u32,
                    is_cycle_complete: self.cycle_complete(cycle),
                },
            ),
        }
    }

    /// What `cycle` looks like now.
    pub fn get_pool_info(&self, cycle: u32) -> (r: Result<PoolInfo, StellarSaveError>)
        requires
            self.wf(),
        ensures
            r == self.pool_snapshot(cycle),
    {
        let member_count = self.members.len() as u32;
        let total_pool_amount = match PoolCalculator::calculate_total_pool(
            self.group.contribution_amount,
            member_count,
        ) {
            Ok(v) => v,
            Err(e) => return Err(e),
        };
        let current_contributions = self.get_cycle_total(cycle);
        let contributors_count = self.get_cycle_count(cycle);
        Ok(
            PoolInfo {
                group_id: self.group.id,
                cycle,
                member_count,
                contribution_amount: self.group.contribution_amount,
                total_pool_amount,
                current_contributions,
                contributors_count,
                is_cycle_complete: contributors_count >= member_count,
            },
        )
    }

    /// Pays the current cycle's pool to `recipient` and records it. Refused
    /// unless the group is active, the cycle is unpaid, it is the recipient's
    /// turn, and the pool is complete and exact.
    pub fn execute_payout(&mut self, recipient: Address, now: u64) -> (r: Result<PayoutRecord, StellarSaveError>)
        requires
            old(self).wf(),
        ensures
            final(self).wf(),
            r is Err ==> *final(self) == *old(self),
            old(self).group.status != GroupStatus::Active ==> r == Err::<PayoutRecord, StellarSaveError>(
                StellarSaveError::InvalidState),
            old(self).group.status == GroupStatus::Active && old(self).paid(old(self).group.current_cycle)
                ==> r == Err::<PayoutRecord, StellarSaveError>(StellarSaveError::PayoutAlreadyProcessed),
            old(self).group.status == GroupStatus::Active && !old(self).paid(old(self).group.current_cycle)
                && !old(self).eligible(recipient) ==> r == Err::<PayoutRecord, StellarSaveError>(
                StellarSaveError::InvalidRecipient),
            old(self).group.status == GroupStatus::Active && !old(self).paid(old(self).group.current_cycle)
                && old(self).eligible(recipient) ==> match old(self).pool_snapshot(old(self).group.current_cycle) {
                Err(e) => r == Err::<PayoutRecord, StellarSaveError>(e),
                Ok(p) => match ready_outcome(p) {
                    Err(e) => r == Err::<PayoutRecord, StellarSaveError>(e),
                    Ok(_) => r == Ok::<PayoutRecord, StellarSaveError>(
                        PayoutRecord {
                            recipient,
                            group_id: old(self).group.id,
                            cycle_number: old(self).group.current_cycle,
                            amount: p.total_pool_amount,
                            timestamp: now,
                        },
                    ),
                },
            },
            r matches Ok(rec) ==> {
                &&& final(self).payouts@ == old(self).payouts@.push(rec)
                &&& final(self).group == old(self).group
                &&& final(self).members == old(self).members
                &&& final(self).profiles == old(self).profiles
                &&& final(self).contributions == old(self).contributions
                &&& final(self).tallies == old(self).tallies
            },
    {
        if self.group.status != GroupStatus::Active {
            return Err(StellarSaveError::InvalidState);
        }
        let cycle = self.group.current_cycle;
        if self.is_paid(cycle) {
            return Err(StellarSaveError::PayoutAlreadyProcessed);
        }
        if !self.validate_payout_recipient(recipient) {
            return Err(StellarSaveError::InvalidRecipient);
        }
        let info = match self.get_pool_info(cycle) {
            Ok(v) => v,
            Err(e) => return Err(e),
        };
        match PoolCalculator::validate_pool_ready_for_payout(&info) {
            Ok(()) => {},
            Err(e) => return Err(e),
        }
        let rec = PayoutRecord {
            recipient,
            group_id: self.group.id,
            cycle_number: cycle,
            amount: info.total_pool_amount,
            timestamp: now,
        };
        let ghost before = *self;
        proof {
            let c = self.group.contribution_amount;
            let n = self.members@.len();
            assert(c * n > 0) by (nonlinear_arith)
                requires c > 0, n > 0;
        }
        self.payouts.push(rec);
        proof {
            let ps = self.payouts@;
            let n = before.payouts@.len() as int;
            assert forall|k: int| 0 <= k < ps.len() implies {
                &&& #[trigger] ps[k].amount > 0
                &&& ps[k].cycle_number <= self.group.current_cycle
            } by {
                if k < n {
                    assert(ps[k] == before.payouts@[k]);
                }
            }
            assert forall|k: int, i: int|
                0 <= k < ps.len() && #[trigger] slot_active(self.profiles@, i) && self.members@[i]
                    == #[trigger] ps[k].recipient implies self.profiles@[i]->Some_0.payout_position
                    == ps[k].cycle_number by {
                if k < n {
                    assert(ps[k] == before.payouts@[k]);
                } else {
                    let w = choose|w: int|
                        #[trigger] before.active(w) && before.members@[w] == recipient && !before.received(recipient)
                            && before.profile(w).payout_position == before.group.current_cycle;
                    assert(slot_active(before.profiles@, w));
                    assert(slot_active(before.profiles@, i));
                }
            }
            assert forall|k: int| 0 <= k < ps.len() implies #[trigger] listed(self.members@, ps[k].recipient) by {
                if k < n {
                    assert(ps[k] == before.payouts@[k]);
                } else {
                    let w = choose|w: int|
                        #[trigger] before.active(w) && before.members@[w] == recipient && !before.received(recipient)
                            && before.profile(w).payout_position == before.group.current_cycle;
                    assert(self.members@[w] == recipient);
                }
            }
            assert forall|k: int, l: int|
                0 <= k < ps.len() && 0 <= l < ps.len() && #[trigger] ps[k].recipient
                    == #[trigger] ps[l].recipient implies k == l by {
                if k < n {
                    assert(ps[k] == before.payouts@[k]);
                }
                if l < n {
                    assert(ps[l] == before.payouts@[l]);
                }
            }
            assert forall|k: int, l: int|
                0 <= k < ps.len() && 0 <= l < ps.len() && #[trigger] ps[k].cycle_number
                    == #[trigger] ps[l].cycle_number implies k == l by {
                if k < n {
                    assert(ps[k] == before.payouts@[k]);
                }
                if l < n {
                    assert(ps[l] == before.payouts@[l]);
                }
            }
        }
        Ok(rec)
    }

    /// Moves the group to its next cycle; refused once every cycle is done.
    pub fn advance_cycle(&mut self) -> (r: Result<(), StellarSaveError>)
        requires
            old(self).wf(),
        ensures
            final(self).wf(),
            old(self).group.complete() ==> r == Err::<(), StellarSaveError>(StellarSaveError::InvalidState)
                && *final(self) == *old(self),
            !old(self).group.complete() ==> r is Ok && final(self).group.current_cycle
                == old(self).group.current_cycle + 1,
            r is Ok ==> {
                &&& final(self).group.complete() ==> !final(self).group.is_active
                &&& final(self).group.complete() && old(self).group.status == GroupStatus::Active
                    ==> final(self).group.status == GroupStatus::Completed
                &&& !(final(self).group.complete() && old(self).group.status == GroupStatus::Active)
                    ==> final(self).group.status == old(self).group.status
                &&& !final(self).group.complete() ==> final(self).group.is_active == old(self).group.is_active
                &&& final(self).group == (Group {
                    current_cycle: final(self).group.current_cycle,
                    is_active: final(self).group.is_active,
                    status: final(self).group.status,
                    ..old(self).group
                })
                &&& final(self).members == old(self).members
                &&& final(self).profiles == old(self).profiles
                &&& final(self).contributions == old(self).contributions
                &&& final(self).tallies == old(self).tallies
                &&& final(self).payouts == old(self).payouts
            },
            forall|c: u32| #[trigger] old(self).cycle_complete(c) ==> final(self).cycle_complete(c),
    {
        if self.group.is_complete() {
            return Err(StellarSaveError::InvalidState);
        }
        self.group.advance_cycle();
        Ok(())
    }

    /// Starts a pending group that has at least two members.
    pub fn activate(&mut self, now: u64) -> (r: Result<(), StellarSaveError>)
        requires
            old(self).wf(),
        ensures
            final(self).wf(),
            old(self).group.status != GroupStatus::Pending || old(self).group.member_count < 2
                ==> r == Err::<(), StellarSaveError>(StellarSaveError::InvalidState),
            r is Err ==> *final(self) == *old(self),
            r is Ok ==> final(self).group == (Group {
                status: GroupStatus::Active,
                started: true,
                started_at: now,
                ..old(self).group
            }) && final(self).members == old(self).members && final(self).profiles == old(self).profiles
                && final(self).contributions == old(self).contributions && final(self).tallies
                == old(self).tallies && final(self).payouts == old(self).payouts,
            old(self).group.status == GroupStatus::Pending && old(self).group.member_count >= 2 ==> r is Ok,
    {
        if self.group.status != GroupStatus::Pending || self.group.member_count < 2 {
            return Err(StellarSaveError::InvalidState);
        }
        self.group.status = GroupStatus::Active;
        self.group.started = true;
        self.group.started_at = now;
        Ok(())
    }

    /// What `m` paid into cycles `0..=current_cycle`, with checked addition.
    pub fn member_total_contributions(&self, m: Address) -> (r: Result<i128, StellarSaveError>)
        requires
            self.wf(),
        ensures
            r is Ok <==> member_sum(self.contributions@, m, self.group.current_cycle) <= i128::MAX,
            r matches Ok(v) ==> v == member_sum(self.contributions@, m, self.group.current_cycle),
            r matches Err(e) ==> e == StellarSaveError::Overflow,
    {
        let s = Ghost(self.contributions@);
        let last = self.group.current_cycle;
        let mut total: i128 = 0;
        let mut k: usize = 0;
        proof {
            assert(s@.subrange(0, 0) =~= Seq::<ContributionRecord>::empty());
        }
        while k < self.contributions.len()
            invariant
                s@ == self.contributions@,
                last == self.group.current_cycle,
                records_wf(self.contributions@, self.tallies@),
                k <= s@.len(),
                0 <= total,
                total == member_sum(s@.subrange(0, k as int), m, last),
            decreases s@.len() - k,
        {
            let rec = self.contributions[k];
            proof {
                let t = s@.subrange(0, k + 1);
                assert(t.drop_last() =~= s@.subrange(0, k as int));
                assert(t.last() == rec);
                assert(rec.amount > 0);
                assert(member_sum(t, m, last) == total + if rec.member_address == m && rec.cycle_number <= last {
                    rec.amount as int
                } else {
                    0
                });
                lemma_member_sum_prefix(s@, m, last, k + 1);
            }
            if rec.member_address == m && rec.cycle_number <= last {
                total = match total.checked_add(rec.amount) {
                    Some(v) => v,
                    None => {
                        proof {
                            assert(member_sum(s@.subrange(0, k + 1), m, last) > i128::MAX);
                            assert(member_sum(s@, m, last) > i128::MAX);
                        }
                        return Err(StellarSaveError::Overflow);
                    },
                };
            }
            k = k + 1;
        }
        proof {
            assert(s@.subrange(0, k as int) =~= s@);
            assert(total == member_sum(s@, m, last));
        }
        Ok(total)
    }

    /// Sum of the payouts of cycles below the current one, with checked addition.
    pub fn total_paid_out(&self) -> (r: Result<i128, StellarSaveError>)
        requires
            self.wf(),
        ensures
            r is Ok <==> paid_sum(self.payouts@, self.group.current_cycle) <= i128::MAX,
            r matches Ok(v) ==> v == paid_sum(self.payouts@, self.group.current_cycle),
            r matches Err(e) ==> e == StellarSaveError::Overflow,
    {
        let s = Ghost(self.payouts@);
        let below = self.group.current_cycle;
        let mut total: i128 = 0;
        let mut k: usize = 0;
        proof {
            assert(s@.subrange(0, 0) =~= Seq::<PayoutRecord>::empty());
            assert forall|i: int| 0 <= i < s@.len() implies #[trigger] s@[i].amount > 0 by {
                assert(s@[i].amount > 0);
            }
        }
        while k < self.payouts.len()
            invariant
                s@ == self.payouts@,
                below == self.group.current_cycle,
                forall|i: int| 0 <= i < s@.len() ==> #[trigger] s@[i].amount > 0,
                k <= s@.len(),
                0 <= total,
                total == paid_sum(s@.subrange(0, k as int), below),
            decreases s@.len() - k,
        {
            let rec = self.payouts[k];
            proof {
                let t = s@.subrange(0, k + 1);
                assert(t.drop_last() =~= s@.subrange(0, k as int));
                assert(t.last() == rec);
                assert(rec.amount > 0);
                assert(paid_sum(t, below) == total + if rec.cycle_number < below {
                    rec.amount as int
                } else {
                    0
                });
                lemma_paid_sum_prefix(s@, below, k + 1);
            }
            if rec.cycle_number < below {
                total = match total.checked_add(rec.amount) {
                    Some(v) => v,
                    None => return Err(StellarSaveError::Overflow),
                };
            }
            k = k + 1;
        }
        proof {
            assert(s@.subrange(0, k as int) =~= s@);
        }
        Ok(total)
    }

    /// `m`'s records for cycles from `start_cycle`, in cycle order: at most
    /// `limit` cycles, and `limit` is capped at 50; cycles after the current
    /// one are left out.
    pub fn contribution_history(&self, m: Address, start_cycle: u32, limit: u32) -> (r: Vec<
        ContributionRecord,
    >)
        ensures
            r@ == history_between(
                self.contributions@,
                m,
                start_cycle as int,
                history_end(start_cycle, limit, self.group.current_cycle),
            ),
            r@.len() <= page_size(limit),
    {
        let page: u32 = if limit > 50 { 50 } else { limit };
        let end: u64 = if (start_cycle as u64) + (page as u64) < (self.group.current_cycle as u64) + 1 {
            (start_cycle as u64) + (page as u64)
        } else {
            (self.group.current_cycle as u64) + 1
        };
        let mut out: Vec<ContributionRecord> = Vec::new();
        let mut c: u64 = start_cycle as u64;
        while c < end
            invariant
                start_cycle <= c,
                end <= u32::MAX as u64 + 1,
                c <= end || end < start_cycle,
                end < start_cycle ==> c == start_cycle,
                out@ == history_between(self.contributions@, m, start_cycle as int, c as int),
            decreases end - c,
        {
            let found = self.find_record(c as u32, m);
            match found {
                Some(rec) => out.push(rec),
                None => {},
            }
            c = c + 1;
        }
        proof {
            let hi = history_end(start_cycle, limit, self.group.current_cycle);
            if end >= start_cycle {
                assert(c == end);
            } else {
                assert(out@ == history_between(self.contributions@, m, start_cycle as int, start_cycle as int));
                assert(history_between(self.contributions@, m, start_cycle as int, hi) =~= Seq::<ContributionRecord>::empty());
            }
            lemma_history_len(self.contributions@, m, start_cycle as int, hi);
        }
        out
    }

    /// The records for `cycle` of the members in list order; members who did
    /// not pay are left out.
    pub fn cycle_contributions(&self, cycle: u32) -> (r: Vec<ContributionRecord>)
        ensures
            r@ == records_of(self.contributions@, self.members@, cycle),
    {
        let mut out: Vec<ContributionRecord> = Vec::new();
        let mut i: usize = 0;
        proof {
            assert(self.members@.subrange(0, 0) =~= Seq::<Address>::empty());
        }
        while i < self.members.len()
            invariant
                i <= self.members@.len(),
                out@ == records_of(self.contributions@, self.members@.subrange(0, i as int), cycle),
            decreases self.members@.len() - i,
        {
            proof {
                assert(self.members@.subrange(0, i + 1).drop_last() =~= self.members@.subrange(0, i as int));
            }
            match self.find_record(cycle, self.members[i]) {
                Some(rec) => out.push(rec),
                None => {},
            }
            i = i + 1;
        }
        proof {
            assert(self.members@.subrange(0, i as int) =~= self.members@);
        }
        out
    }

    /// The members without a record for `cycle`, in list order.
    pub fn missed_contributions(&self, cycle: u32) -> (r: Vec<Address>)
        ensures
            r@ == missing_of(self.contributions@, self.members@, cycle),
    {
        let mut out: Vec<Address> = Vec::new();
        let mut i: usize = 0;
        proof {
            assert(self.members@.subrange(0, 0) =~= Seq::<Address>::empty());
        }
        while i < self.members.len()
            invariant
                i <= self.members@.len(),
                out@ == missing_of(self.contributions@, self.members@.subrange(0, i as int), cycle),
            decreases self.members@.len() - i,
        {
            proof {
                assert(self.members@.subrange(0, i + 1).drop_last() =~= self.members@.subrange(0, i as int));
            }
            if self.find_record(cycle, self.members[i]).is_none() {
                out.push(self.members[i]);
            }
            i = i + 1;
        }
        proof {
            assert(self.members@.subrange(0, i as int) =~= self.members@);
        }
        out
    }

    /// Whether every member has paid into `cycle`, by the running count.
    pub fn is_cycle_complete(&self, cycle: u32) -> (r: bool)
        requires
            self.wf(),
        ensures
            r == self.cycle_complete(cycle),
    {
        let count = self.get_cycle_count(cycle);
        (count as usize) >= self.members.len()
    }

    /// The instant after which payments into `cycle` are late:
    /// `started_at + (cycle + 1) * cycle_duration`.
    pub fn contribution_deadline(&self, cycle: u32) -> (r: Result<u64, StellarSaveError>)
        ensures
            !self.group.started ==> r == Err::<u64, StellarSaveError>(StellarSaveError::InvalidState),
            self.group.started && self.group.started_at + (cycle + 1) * self.group.cycle_duration
                <= u64::MAX ==> r == Ok::<u64, StellarSaveError>(
                (self.group.started_at + (cycle + 1) * self.group.cycle_duration) as u64,
            ),
            self.group.started && self.group.started_at + (cycle + 1) * self.group.cycle_duration
                > u64::MAX ==> r == Err::<u64, StellarSaveError>(StellarSaveError::Overflow),
    {
        if !self.group.started {
            return Err(StellarSaveError::InvalidState);
        }
        let d = self.group.cycle_duration;
        let start = self.group.started_at;
        proof {
            assert((cycle + 1) * d == cycle * d + d) by (nonlinear_arith);
            assert(cycle * d >= 0) by (nonlinear_arith)
                requires cycle >= 0, d >= 0;
        }
        let offset = match (cycle as u64).checked_mul(d) {
            Some(v) => v,
            None => return Err(StellarSaveError::Overflow),
        };
        let cycle_start = match start.checked_add(offset) {
            Some(v) => v,
            None => return Err(StellarSaveError::Overflow),
        };
        match cycle_start.checked_add(d) {
            Some(v) => Ok(v),
            None => Err(StellarSaveError::Overflow),
        }
    }

    /// Time of the latest activity of the current cycle: its latest payment,
    /// or the start of the group when nothing was paid into it.
    pub open spec fn activity_time(&self) -> u64 {
        match self.payment_time(self.group.current_cycle) {
            Some(t) => t,
            None => self.group.started_at,
        }
    }

    /// The group has been inactive for at least two cycles at time `now`.
    pub open spec fn stalled(&self, now: u64) -> bool {
        sat_sub(now, self.activity_time()) >= sat_double(self.group.cycle_duration)
    }

    /// Lets a member of a stalled group leave. Returns what they may recover:
    /// their contributions, or nothing if they were already paid. Their profile
    /// is removed either way.
    pub fn emergency_withdraw(&mut self, m: Address, now: u64) -> (r: Result<i128, StellarSaveError>)
        requires
            old(self).wf(),
        ensures
            final(self).wf(),
            r is Err ==> *final(self) == *old(self),
            !old(self).is_member(m) ==> r == Err::<i128, StellarSaveError>(StellarSaveError::NotMember),
            old(self).is_member(m) && old(self).group.complete() ==> r == Err::<i128, StellarSaveError>(
                StellarSaveError::InvalidState),
            old(self).is_member(m) && !old(self).group.complete() && !old(self).stalled(now) ==> r == Err::<
                i128,
                StellarSaveError,
            >(StellarSaveError::InvalidState),
            old(self).is_member(m) && !old(self).group.complete() && old(self).stalled(now) ==> {
                let total = member_sum(old(self).contributions@, m, old(self).group.current_cycle);
                &&& total > i128::MAX ==> r == Err::<i128, StellarSaveError>(StellarSaveError::Overflow)
                &&& total <= i128::MAX && old(self).received(m) ==> r == Ok::<i128, StellarSaveError>(0)
                &&& total <= i128::MAX && !old(self).received(m) ==> r == Ok::<i128, StellarSaveError>(
                    total as i128,
                )
            },
            r is Ok ==> {
                &&& exists|i: int|
                    #[trigger] old(self).active(i) && old(self).members@[i] == m && final(self).profiles@
                        == old(self).profiles@.update(i, None)
                &&& !final(self).is_member(m)
                &&& final(self).group == old(self).group
                &&& final(self).members == old(self).members
                &&& final(self).contributions == old(self).contributions
                &&& final(self).tallies == old(self).tallies
                &&& final(self).payouts == old(self).payouts
            },
    {
        let i = match self.find_member(m) {
            Some(i) => i,
            None => return Err(StellarSaveError::NotMember),
        };
        if self.group.is_complete() {
            return Err(StellarSaveError::InvalidState);
        }
        let cycle = self.group.current_cycle;
        let last = match self.tally_index(cycle) {
            Some(t) => {
                proof {
                    let c = choose|u: int| 0 <= u < self.tallies@.len() && #[trigger] self.tallies@[u].cycle == cycle;
                    assert(c == t);
                }
                self.tallies[t].last_activity
            },
            None => self.group.started_at,
        };
        let inactive: u64 = if now >= last { now - last } else { 0 };
        let d = self.group.cycle_duration;
        let threshold: u64 = if d > u64::MAX / 2 { u64::MAX } else { d * 2 };
        if inactive < threshold {
            return Err(StellarSaveError::InvalidState);
        }
        let total = match self.member_total_contributions(m) {
            Ok(v) => v,
            Err(e) => return Err(e),
        };
        let amount: i128 = if self.has_received_payout(m) { 0 } else { total };
        let ghost before = *self;
        self.profiles.set(i, None);
        proof {
            assert forall|j: int| #[trigger] slot_active(self.profiles@, j) implies slot_active(before.profiles@, j)
                && self.profiles@[j] == before.profiles@[j] by {}
            assert forall|j: int| #[trigger] self.active(j) implies self.members@[j] != m by {
                assert(before.active(j));
                assert(before.active(i as int));
            }
            assert(roster_wf(self.members@, self.profiles@));
            assert forall|k: int, j: int|
                0 <= k < self.payouts@.len() && #[trigger] slot_active(self.profiles@, j) && self.members@[j]
                    == #[trigger] self.payouts@[k].recipient implies self.profiles@[j]->Some_0.payout_position
                    == self.payouts@[k].cycle_number by {
                assert(slot_active(before.profiles@, j));
            }
            assert(before.active(i as int));
        }
        Ok(amount)
    }

    /// Whether the current cycle's pool can be paid: the group is active, every
    /// member has paid into the cycle, and its payout is not recorded yet.
    pub fn is_payout_due(&self) -> (r: Result<bool, StellarSaveError>)
        requires
            self.wf(),
        ensures
            self.group.status != GroupStatus::Active ==> r == Ok::<bool, StellarSaveError>(false),
            self.group.status == GroupStatus::Active ==> match self.pool_snapshot(self.group.current_cycle) {
                Err(e) => r == Err::<bool, StellarSaveError>(e),
                Ok(p) => r == Ok::<bool, StellarSaveError>(
                    p.is_cycle_complete && !self.paid(self.group.current_cycle),
                ),
            },
    {
        if self.group.status != GroupStatus::Active {
            return Ok(false);
        }
        let info = match self.get_pool_info(self.group.current_cycle) {
            Ok(v) => v,
            Err(e) => return Err(e),
        };
        if !info.is_cycle_complete {
            return Ok(false);
        }
        Ok(!self.is_paid(self.group.current_cycle))
    }

    /// Entry `i` of the member list, if it still has a profile, has a payout
    /// date that fits.
    pub open spec fn slot_fits(&self, i: int) -> bool {
        self.active(i) ==> date_of(self.group, self.profile(i).payout_position) <= u64::MAX
    }

    /// The schedule entry of entry `i` of the member list.
    pub open spec fn schedule_entry(&self, i: int) -> PayoutScheduleEntry {
        PayoutScheduleEntry {
            recipient: self.members@[i],
            cycle: self.profile(i).payout_position,
            payout_date: date_of(self.group, self.profile(i).payout_position) as u64,
        }
    }

    /// The schedule entries of the first `k` entries of the member list that
    /// still have a profile, in list order.
    pub open spec fn schedule_upto(&self, k: int) -> Seq<PayoutScheduleEntry>
        decreases k,
    {
        if k <= 0 {
            Seq::empty()
        } else if self.active(k - 1) {
            self.schedule_upto(k - 1).push(self.schedule_entry(k - 1))
        } else {
            self.schedule_upto(k - 1)
        }
    }

    /// For each member (each entry of the member list that still has a
    /// profile), in list order, the date of their payout. Refused before the
    /// group has started, and for a date that does not fit.
    pub fn payout_schedule(&self) -> (r: Result<Vec<PayoutScheduleEntry>, StellarSaveError>)
        requires
            self.wf(),
        ensures
            (r == Err::<Vec<PayoutScheduleEntry>, StellarSaveError>(StellarSaveError::InvalidState))
                <==> !self.group.started,
            r is Ok <==> self.group.started && forall|i: int|
                0 <= i < self.members@.len() ==> #[trigger] self.slot_fits(i),
            r matches Ok(v) ==> v@ == self.schedule_upto(self.members@.len() as int),
            r matches Err(e) ==> e == StellarSaveError::InvalidState || e == StellarSaveError::Overflow,
    {
        if !self.group.started {
            return Err(StellarSaveError::InvalidState);
        }
        let d = self.group.cycle_duration;
        let start = self.group.started_at;
        let mut out: Vec<PayoutScheduleEntry> = Vec::new();
        let mut i: usize = 0;
        while i < self.members.len()
            invariant
                self.wf(),
                self.group.started,
                d == self.group.cycle_duration,
                start == self.group.started_at,
                i <= self.members@.len(),
                out@ == self.schedule_upto(i as int),
                forall|j: int| 0 <= j < i ==> #[trigger] self.slot_fits(j),
            decreases self.members@.len() - i,
        {
            match self.profiles[i] {
                None => {
                    proof {
                        assert(!self.active(i as int));
                        assert(self.slot_fits(i as int));
                    }
                },
                Some(p) => {
                    let pos = p.payout_position;
                    proof {
                        assert(self.active(i as int));
                        assert(self.profile(i as int).payout_position == pos);
                        assert((pos + 1) * d == pos * d + d) by (nonlinear_arith);
                        assert(pos * d >= 0) by (nonlinear_arith)
                            requires pos >= 0, d >= 0;
                    }
                    let offset = match (pos as u64).checked_mul(d) {
                        Some(v) => v,
                        None => {
                            proof {
                                assert(!self.slot_fits(i as int));
                            }
                            return Err(StellarSaveError::Overflow);
                        },
                    };
                    let base = match start.checked_add(offset) {
                        Some(v) => v,
                        None => {
                            proof {
                                assert(!self.slot_fits(i as int));
                            }
                            return Err(StellarSaveError::Overflow);
                        },
                    };
                    let date = match base.checked_add(d) {
                        Some(v) => v,
                        None => {
                            proof {
                                assert(!self.slot_fits(i as int));
                            }
                            return Err(StellarSaveError::Overflow);
                        },
                    };
                    proof {
                        assert(date == date_of(self.group, pos));
                        assert(self.slot_fits(i as int));
                    }
                    out.push(PayoutScheduleEntry { recipient: self.members[i], cycle: pos, payout_date: date });
                },
            }
            proof {
                assert forall|j: int| 0 <= j < i + 1 implies #[trigger] self.slot_fits(j) by {}
            }
            i = i + 1;
        }
        Ok(out)
    }

    /// Sets the rotation order of a pending group: each entry of the member
    /// list gets the position that `mode` gives it (`seed` drives `Random`).
    pub fn assign_positions(&mut self, mode: AssignmentMode, seed: u64) -> (r: Result<(), StellarSaveError>)
        requires
            old(self).wf(),
        ensures
            final(self).wf(),
            r is Err ==> *final(self) == *old(self),
            old(self).group.status != GroupStatus::Pending ==> r == Err::<(), StellarSaveError>(
                StellarSaveError::InvalidState),
            old(self).group.status == GroupStatus::Pending && positions_for(mode, old(self).members@.len(), seed).len()
                != old(self).members@.len() ==> r == Err::<(), StellarSaveError>(StellarSaveError::InvalidState),
            old(self).group.status == GroupStatus::Pending && positions_for(mode, old(self).members@.len(), seed).len()
                == old(self).members@.len() ==> {
                &&& (exists|i: int| 0 <= i < old(self).members@.len() && !#[trigger] old(self).active(i)) ==> r
                    == Err::<(), StellarSaveError>(StellarSaveError::NotMember)
                &&& (forall|i: int| 0 <= i < old(self).members@.len() ==> #[trigger] old(self).active(i)) ==> r is Ok
            },
            r is Ok ==> {
                &&& final(self).profiles@.len() == old(self).profiles@.len()
                &&& forall|i: int|
                    0 <= i < old(self).profiles@.len() ==> #[trigger] final(self).profiles@[i] == Some(
                        MemberProfile {
                            payout_position: positions_for(mode, old(self).members@.len(), seed)[i],
                            ..old(self).profile(i)
                        },
                    )
                &&& final(self).group == old(self).group
                &&& final(self).members == old(self).members
                &&& final(self).contributions == old(self).contributions
                &&& final(self).tallies == old(self).tallies
                &&& final(self).payouts == old(self).payouts
            },
    {
        if self.group.status != GroupStatus::Pending {
            return Err(StellarSaveError::InvalidState);
        }
        let n = self.members.len();
        let ghost target = positions_for(mode, n as nat, seed);
        let positions: Vec<u32> = match mode {
            AssignmentMode::Sequential => sequential(n),
            AssignmentMode::Random => {
                let mut v = sequential(n);
                shuffle(&mut v, seed);
                v
            },
            AssignmentMode::Manual(v) => {
                if v.len() != n {
                    return Err(StellarSaveError::InvalidState);
                }
                v
            },
        };
        proof {
            assert(positions@ == target);
            assert(positions@.len() == n) by {
                if mode is Random {
                    if n > 0 {
                        lemma_shuffle_len(sequential_positions(n as nat), seed, n - 1);
                    }
                }
            }
        }
        let mut i: usize = 0;
        while i < n
            invariant
                *self == *old(self),
                self.wf(),
                n == self.members@.len(),
                n == self.profiles@.len(),
                n == positions@.len(),
                positions@ == target,
                target == positions_for(mode, n as nat, seed),
                self.group.status == GroupStatus::Pending,
                i <= n,
                forall|j: int| 0 <= j < i ==> #[trigger] self.active(j),
            decreases n - i,
        {
            if self.profiles[i].is_none() {
                proof {
                    assert(!self.active(i as int));
                }
                return Err(StellarSaveError::NotMember);
            }
            i = i + 1;
        }
        let ghost before = *self;
        let mut i: usize = 0;
        while i < n
            invariant
                n == self.members@.len(),
                n == self.profiles@.len(),
                n == positions@.len(),
                positions@ == target,
                i <= n,
                before.profiles@.len() == n,
                self.members == before.members,
                self.group == before.group,
                self.contributions == before.contributions,
                self.tallies == before.tallies,
                self.payouts == before.payouts,
                forall|j: int| 0 <= j < n ==> #[trigger] before.active(j),
                forall|j: int|
                    0 <= j < i ==> #[trigger] self.profiles@[j] == Some(
                        MemberProfile { payout_position: target[j], ..before.profile(j) },
                    ),
                forall|j: int| i <= j < n ==> #[trigger] self.profiles@[j] == before.profiles@[j],
            decreases n - i,
        {
            proof {
                assert(before.active(i as int));
            }
            let p = self.profiles[i].unwrap();
            self.profiles.set(i, Some(MemberProfile { payout_position: positions[i], ..p }));
            i = i + 1;
        }
        proof {
            assert forall|j: int| #[trigger] slot_active(self.profiles@, j) implies self.profiles@[j]->Some_0.address
                == self.members@[j] by {
                assert(before.active(j));
            }
            assert forall|a: int, b: int|
                #[trigger] slot_active(self.profiles@, a) && #[trigger] slot_active(self.profiles@, b)
                    && self.members@[a] == self.members@[b] implies a == b by {
                assert(before.active(a));
                assert(before.active(b));
            }
            assert(before.payouts@.len() == 0);
        }
        Ok(())
    }

    /// `m`'s position, for a member.
    pub open spec fn position_of(&self, m: Address) -> u32 {
        self.profile(choose|i: int| #[trigger] self.active(i) && self.members@[i] == m).payout_position
    }

    /// Entry `i` of the member list waits for its payout.
    pub open spec fn waiting(&self, i: int) -> bool {
        self.active(i) && !self.received(self.members@[i])
    }

    /// No entry of `o` is repeated.
    pub open spec fn no_repeats(o: Seq<usize>) -> bool {
        forall|a: int, b: int| 0 <= a < b < o.len() ==> #[trigger] o[a] != #[trigger] o[b]
    }

    /// `o` lists entries of the member list by ascending position.
    pub open spec fn sorted_by_position(&self, o: Seq<usize>) -> bool {
        forall|a: int, b: int|
            0 <= a < b < o.len() ==> self.profile(#[trigger] o[a] as int).payout_position
                <= self.profile(#[trigger] o[b] as int).payout_position
    }

    /// Inserts entry `i` into `order` after every entry of a position not
    /// above its own.
    fn insert_by_position(&self, order: &mut Vec<usize>, i: usize)
        requires
            self.wf(),
            i < self.members@.len(),
            self.waiting(i as int),
            forall|k: int|
                0 <= k < old(order)@.len() ==> #[trigger] old(order)@[k] < i && self.waiting(old(order)@[k] as int),
            self.sorted_by_position(old(order)@),
            Self::no_repeats(old(order)@),
        ensures
            Self::no_repeats(final(order)@),
            forall|k: int|
                0 <= k < final(order)@.len() ==> #[trigger] final(order)@[k] < i + 1 && self.waiting(final(order)@[k] as int),
            self.sorted_by_position(final(order)@),
            exists|k: int| 0 <= k < final(order)@.len() && final(order)@[k] == i,
            forall|k: int| 0 <= k < old(order)@.len() ==> exists|x: int| 0 <= x < final(order)@.len() && final(order)@[x] == #[trigger] old(order)@[k],
    {
        proof {
            assert(slot_active(self.profiles@, i as int));
        }
        let pos = self.profiles[i].unwrap().payout_position;
        let mut at: usize = order.len();
        let mut scan: usize = 0;
        while scan < order.len() && at == order.len()
            invariant
                self.wf(),
                i < self.members@.len(),
                *order == *old(order),
                scan <= order@.len(),
                forall|k: int| 0 <= k < order@.len() ==> #[trigger] order@[k] < i && self.waiting(order@[k] as int),
                pos == self.profile(i as int).payout_position,
                forall|k: int| 0 <= k < scan ==> self.profile(#[trigger] order@[k] as int).payout_position <= pos,
                at == order@.len() || (at == scan && scan < order@.len() && self.profile(order@[at as int] as int).payout_position > pos),
            decreases order@.len() - scan + if at == order@.len() { 1int } else { 0int },
        {
            let q = order[scan];
            proof {
                assert(self.waiting(q as int));
                assert(slot_active(self.profiles@, q as int));
            }
            if self.profiles[q].unwrap().payout_position > pos {
                at = scan;
            } else {
                scan = scan + 1;
            }
        }
        let ghost old_order = order@;
        proof {
            old_order.insert_ensures(at as int, i);
            assert(forall|k: int| 0 <= k < at ==> self.profile(#[trigger] old_order[k] as int).payout_position <= pos);
        }
        order.insert(at, i);
        proof {
            assert forall|a: int, b: int|
                0 <= a < b < order@.len() implies self.profile(#[trigger] order@[a] as int).payout_position
                    <= self.profile(#[trigger] order@[b] as int).payout_position by {
                if b < at {
                    assert(order@[a] == old_order[a]);
                    assert(order@[b] == old_order[b]);
                } else if b == at {
                    assert(order@[a] == old_order[a]);
                } else if a < at {
                    assert(order@[a] == old_order[a]);
                    assert(order@[b] == old_order[b - 1]);
                } else if a == at {
                    assert(order@[b] == old_order[b - 1]);
                    assert(self.profile(old_order[at as int] as int).payout_position > pos);
                    if b - 1 > at {
                        assert(self.profile(old_order[at as int] as int).payout_position <= self.profile(old_order[b - 1] as int).payout_position);
                    }
                } else {
                    assert(order@[a] == old_order[a - 1]);
                    assert(order@[b] == old_order[b - 1]);
                }
            }
            assert(order@[at as int] == i);
            assert forall|k: int| 0 <= k < old_order.len() implies exists|x: int| 0 <= x < order@.len() && order@[x] == #[trigger] old_order[k] by {
                if k < at {
                    assert(order@[k] == old_order[k]);
                } else {
                    assert(order@[k + 1] == old_order[k]);
                }
            }
            assert forall|a: int, b: int| 0 <= a < b < order@.len() implies #[trigger] order@[a] != #[trigger] order@[b] by {
                if a < at {
                    assert(order@[a] == old_order[a]);
                } else if a > at {
                    assert(order@[a] == old_order[a - 1]);
                }
                if b < at {
                    assert(order@[b] == old_order[b]);
                } else if b > at {
                    assert(order@[b] == old_order[b - 1]);
                }
            }
            assert forall|k: int| 0 <= k < order@.len() implies #[trigger] order@[k] < i + 1 && self.waiting(order@[k] as int) by {
                if k < at {
                    assert(order@[k] == old_order[k]);
                } else if k > at {
                    assert(order@[k] == old_order[k - 1]);
                }
            }
        }
    }

    /// `m` is a member still waiting for their payout.
    pub open spec fn awaits_payout(&self, m: Address) -> bool {
        exists|i: int| #[trigger] self.waiting(i) && self.members@[i] == m
    }

    /// `v` lists the members waiting for their payout (each of them once, and
    /// no one else) by ascending position.
    pub open spec fn is_payout_queue(&self, v: Seq<Address>) -> bool {
        &&& forall|k: int| 0 <= k < v.len() ==> #[trigger] self.awaits_payout(v[k])
        &&& forall|i: int| #[trigger] self.waiting(i) ==> exists|k: int| 0 <= k < v.len() && v[k] == self.members@[i]
        &&& forall|a: int, b: int|
            0 <= a < b < v.len() ==> self.position_of(#[trigger] v[a]) <= self.position_of(#[trigger] v[b])
        &&& forall|a: int, b: int| 0 <= a < b < v.len() ==> #[trigger] v[a] != #[trigger] v[b]
    }

    /// The members still waiting for their payout, by ascending position
    /// (members with equal positions keep their list order).
    pub fn payout_queue(&self) -> (r: Vec<Address>)
        requires
            self.wf(),
        ensures
            self.is_payout_queue(r@),
    {
        let n = self.members.len();
        let mut order: Vec<usize> = Vec::new();
        let mut i: usize = 0;
        while i < n
            invariant
                self.wf(),
                n == self.members@.len(),
                i <= n,
                forall|k: int| 0 <= k < order@.len() ==> #[trigger] order@[k] < i && self.waiting(order@[k] as int),
                forall|j: int| 0 <= j < i && #[trigger] self.waiting(j) ==> exists|k: int| 0 <= k < order@.len() && order@[k] == j,
                self.sorted_by_position(order@),
                Self::no_repeats(order@),
            decreases n - i,
        {
            let waiting = match self.profiles[i] {
                Some(_) => !self.has_received_payout(self.members[i]),
                None => false,
            };
            proof {
                assert(waiting == self.waiting(i as int));
            }
            if waiting {
                let ghost prev = order@;
                self.insert_by_position(&mut order, i);
                proof {
                    assert forall|j: int| 0 <= j < i + 1 && #[trigger] self.waiting(j) implies exists|k: int| 0 <= k < order@.len() && order@[k] == j by {
                        if j < i {
                            let k0 = choose|k: int| 0 <= k < prev.len() && prev[k] == j;
                            assert(exists|x: int| 0 <= x < order@.len() && order@[x] == prev[k0]);
                        }
                    }
                }
            }
            i = i + 1;
        }
        let mut out: Vec<Address> = Vec::new();
        let mut k: usize = 0;
        while k < order.len()
            invariant
                self.wf(),
                n == self.members@.len(),
                k <= order@.len(),
                out@.len() == k,
                self.sorted_by_position(order@),
                Self::no_repeats(order@),
                forall|j: int| 0 <= j < n && #[trigger] self.waiting(j) ==> exists|x: int| 0 <= x < order@.len() && order@[x] == j,
                forall|x: int| 0 <= x < order@.len() ==> #[trigger] order@[x] < n && self.waiting(order@[x] as int),
                forall|x: int| 0 <= x < k ==> #[trigger] out@[x] == self.members@[order@[x] as int],
            decreases order@.len() - k,
        {
            out.push(self.members[order[k]]);
            k = k + 1;
        }
        proof {
            assert forall|x: int| 0 <= x < out@.len() implies #[trigger] self.awaits_payout(out@[x]) by {
                let w = order@[x] as int;
                assert(self.waiting(w) && self.members@[w] == out@[x]);
            }
            assert forall|j: int| #[trigger] self.waiting(j) implies exists|x: int| 0 <= x < out@.len() && out@[x] == self.members@[j] by {
                let x = choose|x: int| 0 <= x < order@.len() && order@[x] == j;
                assert(out@[x] == self.members@[j]);
            }
            assert forall|a: int, b: int|
                0 <= a < b < out@.len() implies self.position_of(#[trigger] out@[a]) <= self.position_of(#[trigger] out@[b]) by {
                let ia = order@[a] as int;
                let ib = order@[b] as int;
                let ca = choose|i: int| #[trigger] self.active(i) && self.members@[i] == out@[a];
                let cb = choose|i: int| #[trigger] self.active(i) && self.members@[i] == out@[b];
                assert(self.active(ia) && self.members@[ia] == out@[a]);
                assert(self.active(ib) && self.members@[ib] == out@[b]);
                assert(slot_active(self.profiles@, ca) && slot_active(self.profiles@, ia));
                assert(slot_active(self.profiles@, cb) && slot_active(self.profiles@, ib));
                assert(ca == ia);
                assert(cb == ib);
            }
            assert forall|a: int, b: int| 0 <= a < b < out@.len() implies #[trigger] out@[a] != #[trigger] out@[b] by {
                let ia = order@[a] as int;
                let ib = order@[b] as int;
                assert(self.waiting(ia) && self.waiting(ib));
                assert(slot_active(self.profiles@, ia) && slot_active(self.profiles@, ib));
                assert(ia != ib);
            }
        }
        out
    }
}

} // verus!
