use vstd::prelude::*;
use crate::address::Address;
use crate::contribution::ContributionRecord;
use crate::ledger::{
    GroupLedger, listed, cycle_count, shuffle_down, shuffle_step, shuffled, swap_index, cycle_sum, history_between, history_end, lemma_history_len, lemma_push_record,
    record_for, sequential_positions, slot_active,
};

verus! {

/// A payout of cycle `c` to `m` has been recorded.
pub open spec fn paid_to(l: GroupLedger, c: u32, m: Address) -> bool {
    exists|k: int|
        0 <= k < l.payouts@.len() && #[trigger] l.payouts@[k].cycle_number == c && l.payouts@[k].recipient == m
}

/// Among the members that hold a profile, no two share a position.
pub open spec fn positions_distinct(l: GroupLedger) -> bool {
    forall|i: int, j: int|
        #[trigger] l.active(i) && #[trigger] l.active(j) && l.profile(i).payout_position == l.profile(j).payout_position
            ==> i == j
}

/// In a group whose cycles have all run and been paid out, where no member
/// has left and positions are distinct and within the group's cycles, every
/// member was paid in exactly one cycle: the cycle of their position.
pub proof fn lemma_exactly_one_payout(l: GroupLedger, i: int)
    requires
        l.wf(),
        l.group.complete(),
        forall|c: u32| c < l.group.current_cycle ==> #[trigger] l.paid(c),
        forall|j: int| 0 <= j < l.members@.len() ==> #[trigger] l.active(j),
        positions_distinct(l),
        0 <= i < l.members@.len(),
        l.profile(i).payout_position < l.group.max_members,
    ensures
        forall|c: u32| #[trigger] paid_to(l, c, l.members@[i]) <==> c == l.profile(i).payout_position,
        l.received(l.members@[i]),
{
    let m = l.members@[i];
    let p = l.profile(i).payout_position;
    assert(l.active(i));
    assert(l.paid(p));
    let k = choose|k: int| 0 <= k < l.payouts@.len() && #[trigger] l.payouts@[k].cycle_number == p;
    let r = l.payouts@[k].recipient;
    assert(listed(l.members@, r));
    let j = choose|j: int| 0 <= j < l.members@.len() && l.members@[j] == r;
    assert(l.active(j));
    assert(slot_active(l.profiles@, j));
    assert(l.profile(j).payout_position == p);
    assert(j == i);
    assert(paid_to(l, p, m));
    assert forall|c: u32| #[trigger] paid_to(l, c, m) implies c == p by {
        let q = choose|q: int|
            0 <= q < l.payouts@.len() && #[trigger] l.payouts@[q].cycle_number == c && l.payouts@[q].recipient == m;
        assert(slot_active(l.profiles@, i));
    }
    assert(l.payouts@[k].recipient == m && l.payouts@[k].cycle_number <= l.group.current_cycle);
}

/// Once a member's payment into a cycle is recorded, the record stands for
/// that key: a second payment by the same member into the same cycle meets
/// an existing record (and is refused as already contributed), while the
/// cycle's total and count grew by the first payment alone.
pub proof fn lemma_no_double_contribution(
    before: Seq<ContributionRecord>,
    after: Seq<ContributionRecord>,
    rec: ContributionRecord,
)
    requires
        after == before.push(rec),
    ensures
        record_for(after, rec.cycle_number, rec.member_address) == Some(rec),
        cycle_sum(after, rec.cycle_number) == cycle_sum(before, rec.cycle_number) + rec.amount,
        cycle_count(after, rec.cycle_number) == cycle_count(before, rec.cycle_number) + 1,
{
    lemma_push_record(before, rec);
}

/// A cycle is complete exactly when its count of payments reaches the size of
/// the member list; adding payments never undoes that.
pub proof fn lemma_completion_monotone(
    l: GroupLedger,
    s: Seq<ContributionRecord>,
    r: ContributionRecord,
    c: u32,
)
    requires
        l.contributions@ == s,
    ensures
        l.cycle_complete(c) <==> cycle_count(s, c) >= l.members@.len(),
        cycle_count(s, c) >= l.members@.len() ==> cycle_count(s.push(r), c) >= l.members@.len(),
{
    lemma_push_record(s, r);
}

/// Some entry of `s` is `k`.
pub open spec fn occupies(s: Seq<u32>, k: u32) -> bool {
    exists|i: int| 0 <= i < s.len() && s[i] == k
}

/// Sequential assignment gives `n` members the positions `0..n`, each once.
pub proof fn lemma_sequential_positions_unique(n: nat)
    requires
        n <= u32::MAX + 1,
    ensures
        sequential_positions(n).len() == n,
        forall|i: int, j: int|
            0 <= i < n && 0 <= j < n && #[trigger] sequential_positions(n)[i] == #[trigger] sequential_positions(n)[j]
                ==> i == j,
        forall|i: int| 0 <= i < n ==> #[trigger] sequential_positions(n)[i] < n,
        forall|k: u32| k < n ==> #[trigger] occupies(sequential_positions(n), k),
{
    assert forall|k: u32| k < n implies #[trigger] occupies(sequential_positions(n), k) by {
        assert(sequential_positions(n)[k as int] == k);
    }
}

/// A page of contribution history never holds more than 50 records,
/// whatever limit is asked for.
pub proof fn lemma_history_page_bound(
    s: Seq<ContributionRecord>,
    member: Address,
    start_cycle: u32,
    limit: u32,
    current_cycle: u32,
)
    ensures
        history_between(s, member, start_cycle as int, history_end(start_cycle, limit, current_cycle)).len() <= 50,
{
    lemma_history_len(s, member, start_cycle as int, history_end(start_cycle, limit, current_cycle));
}

/// No two entries of `s` are equal, and every entry is below `n`.
pub open spec fn distinct_below(s: Seq<u32>, n: nat) -> bool {
    &&& forall|a: int, b: int| 0 <= a < s.len() && 0 <= b < s.len() && a != b ==> #[trigger] s[a] != #[trigger] s[b]
    &&& forall|a: int| 0 <= a < s.len() ==> #[trigger] s[a] < n
}

/// Each step of the shuffle swaps two entries, which keeps them distinct and
/// in range.
proof fn lemma_shuffle_keeps_distinct(v: Seq<u32>, seed: u64, i: int, n: nat)
    requires
        distinct_below(v, n),
        i < v.len(),
        v.len() <= u64::MAX,
    ensures
        distinct_below(shuffle_down(v, seed, i), n),
        shuffle_down(v, seed, i).len() == v.len(),
    decreases i,
{
    if i >= 1 {
        let j = swap_index(seed, i);
        assert(0 <= j < i + 1) by {
            let d = (i + 1) as u64;
            let m = seed.wrapping_mul(d);
            assert(d == i + 1);
            assert(m % d < d) by (nonlinear_arith)
                requires d > 0;
        }
        let w = shuffle_step(v, seed, i);
        assert(w.len() == v.len());
        assert forall|a: int| 0 <= a < w.len() implies #[trigger] w[a] == v[if a == i { j } else if a == j { i } else { a }] by {}
        assert forall|a: int, b: int| 0 <= a < w.len() && 0 <= b < w.len() && a != b implies #[trigger] w[a] != #[trigger] w[b] by {
            let sa = if a == i { j } else if a == j { i } else { a };
            let sb = if b == i { j } else if b == j { i } else { b };
            assert(w[a] == v[sa]);
            assert(w[b] == v[sb]);
        }
        assert forall|a: int| 0 <= a < w.len() implies #[trigger] w[a] < n by {
            let sa = if a == i { j } else if a == j { i } else { a };
            assert(w[a] == v[sa]);
        }
        lemma_shuffle_keeps_distinct(w, seed, i - 1, n);
    }
}

/// Random assignment gives `n` members distinct positions in `0..n`: the
/// shuffle of `0, 1, ..., n - 1` is a permutation of it.
pub proof fn lemma_random_positions_distinct(n: nat, seed: u64)
    requires
        n <= u32::MAX + 1,
    ensures
        shuffled(sequential_positions(n), seed).len() == n,
        distinct_below(shuffled(sequential_positions(n), seed), n),
{
    let s = sequential_positions(n);
    assert(distinct_below(s, n));
    if n > 0 {
        lemma_shuffle_keeps_distinct(s, seed, n - 1, n);
    }
}

} // verus!
