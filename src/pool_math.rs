//! Adding a stake to, and retracting it from, the per-number totals of a pool.
use vstd::prelude::*;

use crate::errors::IC42NErrorCode;
use crate::live_feed::{lemma_entry_le_sum, lemma_sum_update, sum_u64, LiveFeed};

verus! {

/// How many times `n` occurs in `s`.
pub open spec fn occurrences(s: Seq<u8>, n: int) -> nat
    decreases s.len(),
{
    if s.len() == 0 {
        0
    } else {
        occurrences(s.drop_last(), n) + if s.last() as int == n {
            1nat
        } else {
            0nat
        }
    }
}

/// The first `count` entries form a selection list: one to eight numbers,
/// each in 1..=9.
pub open spec fn selection_list_ok(selections: [u8; 8], count: u8) -> bool {
    &&& 1 <= count <= 8
    &&& forall|i: int| 0 <= i < count ==> 1 <= #[trigger] selections@[i] <= 9
}

/// The first `count` entries form a canonical selection: a selection list
/// in strictly ascending order, so no number appears twice.
pub open spec fn selection_list_canonical(selections: [u8; 8], count: u8) -> bool {
    &&& selection_list_ok(selections, count)
    &&& forall|i: int, j: int| 0 <= i < j < count ==> selections@[i] < selections@[j]
}

/// Adding `amount` once per occurrence in `s` keeps every entry in `u64`.
pub open spec fn fits_after_adding(per: Seq<u64>, amount: u64, s: Seq<u8>) -> bool {
    forall|n: int| 0 <= n < 10 ==> per[n] + amount * occurrences(s, n) <= u64::MAX
}

/// Removing `amount` once per occurrence in `s` keeps every entry nonnegative.
pub open spec fn covers_removal(per: Seq<u64>, amount: u64, s: Seq<u8>) -> bool {
    forall|n: int| 0 <= n < 10 ==> per[n] >= amount * occurrences(s, n)
}

/// `after` is `before` with `delta` times the occurrences in `s` added to each entry.
pub open spec fn shifted_by(before: Seq<u64>, after: Seq<u64>, delta: int, s: Seq<u8>) -> bool {
    &&& after.len() == before.len()
    &&& forall|n: int| 0 <= n < 10 ==> after[n] == before[n] + delta * occurrences(s, n)
}

pub proof fn lemma_occurrences_step(s: Seq<u8>, i: int)
    requires
        0 <= i < s.len(),
    ensures
        forall|n: int|
            #[trigger] occurrences(s.take(i + 1), n) == occurrences(s.take(i), n) + if s[i] as int
                == n {
                1nat
            } else {
                0nat
            },
{
    assert(s.take(i + 1).drop_last() == s.take(i));
}

pub proof fn lemma_occurrences_mono(s: Seq<u8>, i: int, j: int, n: int)
    requires
        0 <= i <= j <= s.len(),
    ensures
        occurrences(s.take(i), n) <= occurrences(s.take(j), n),
        occurrences(s.take(j), n) <= j,
    decreases j,
{
    if j > 0 {
        assert(s.take(j).drop_last() == s.take(j - 1));
        assert(occurrences(s.take(j), n) == occurrences(s.take(j - 1), n) + if s[j - 1] as int
            == n {
            1nat
        } else {
            0nat
        });
        if i < j {
            lemma_occurrences_mono(s, i, j - 1, n);
        } else {
            lemma_occurrences_mono(s, j - 1, j - 1, n);
        }
    } else {
        assert(s.take(0).len() == 0);
    }
}

/// In a list without repeats each number occurs at most once.
pub proof fn lemma_occurrences_distinct(s: Seq<u8>, n: int)
    requires
        forall|i: int, j: int| 0 <= i < j < s.len() ==> s[i] != s[j],
        0 <= n < 256,
    ensures
        occurrences(s, n) == if s.contains(n as u8) {
            1nat
        } else {
            0nat
        },
    decreases s.len(),
{
    if s.len() > 0 {
        let t = s.drop_last();
        lemma_occurrences_distinct(t, n);
        if t.contains(n as u8) {
            let i = choose|i: int| 0 <= i < t.len() && t[i] == n as u8;
            assert(s[i] == t[i]);
            assert(s.contains(n as u8));
        }
        if s.contains(n as u8) && !t.contains(n as u8) {
            let i = choose|i: int| 0 <= i < s.len() && s[i] == n as u8;
            if i < s.len() - 1 {
                assert(t[i] == s[i]);
            }
        }
        if s.last() as int == n {
            assert(s.contains(n as u8));
        }
    }
}

/// Whether the first `selection_count` entries form a selection list.
pub fn check_selection_list(selections: &[u8; 8], selection_count: u8) -> (r: bool)
    ensures
        r == selection_list_ok(*selections, selection_count),
{
    if selection_count < 1 || selection_count > 8 {
        return false;
    }
    let k = selection_count as usize;
    let mut i: usize = 0;
    while i < k
        invariant
            k == selection_count,
            1 <= k <= 8,
            i <= k,
            forall|j: int| 0 <= j < i ==> 1 <= #[trigger] selections@[j] <= 9,
        decreases k - i,
    {
        if selections[i] < 1 || selections[i] > 9 {
            return false;
        }
        i += 1;
    }
    true
}

/// Whether the first `selection_count` entries form a canonical selection.
pub fn check_canonical_list(selections: &[u8; 8], selection_count: u8) -> (r: bool)
    ensures
        r == selection_list_canonical(*selections, selection_count),
{
    if !check_selection_list(selections, selection_count) {
        return false;
    }
    let k = selection_count as usize;
    let mut i: usize = 1;
    while i < k
        invariant
            k == selection_count,
            1 <= k <= 8,
            1 <= i <= k,
            forall|a: int, b: int| 0 <= a < b < i ==> selections@[a] < selections@[b],
        decreases k - i,
    {
        if selections[i - 1] >= selections[i] {
            return false;
        }
        i += 1;
    }
    true
}

/// Adds `lamports_per_number` to the pool's per-number lamports once for each
/// of the first `selection_count` selections.
pub fn apply_per_number_to_live(
    live: &mut LiveFeed,
    lamports_per_number: u64,
    selections: &[u8; 8],
    selection_count: u8,
) -> (r: Result<(), IC42NErrorCode>)
    ensures
        lamports_per_number == 0 ==> r == Err::<(), IC42NErrorCode>(
            IC42NErrorCode::InvalidBetAmount,
        ),
        lamports_per_number > 0 && !selection_list_ok(*selections, selection_count) ==> r
            == Err::<(), IC42NErrorCode>(IC42NErrorCode::InvalidBetNumber),
        lamports_per_number > 0 && selection_list_ok(*selections, selection_count) ==> (r is Ok
            <==> fits_after_adding(
            old(live).lamports_per_number@,
            lamports_per_number,
            selections@.take(selection_count as int),
        )),
        lamports_per_number > 0 && selection_list_ok(*selections, selection_count) && r is Err
            ==> r == Err::<(), IC42NErrorCode>(IC42NErrorCode::MathOverflow),
        r is Ok ==> {
            &&& shifted_by(
                old(live).lamports_per_number@,
                final(live).lamports_per_number@,
                lamports_per_number as int,
                selections@.take(selection_count as int),
            )
            &&& sum_u64(final(live).lamports_per_number@) == sum_u64(
                old(live).lamports_per_number@,
            ) + lamports_per_number * selection_count
            &&& *final(live) == (LiveFeed {
                lamports_per_number: final(live).lamports_per_number,
                ..*old(live)
            })
        },
        r is Err ==> *final(live) == *old(live),
{
    if lamports_per_number == 0 {
        return Err(IC42NErrorCode::InvalidBetAmount);
    }
    if !check_selection_list(selections, selection_count) {
        return Err(IC42NErrorCode::InvalidBetNumber);
    }
    let k = selection_count as usize;
    let ghost s = selections@.take(k as int);
    let ghost before = live.lamports_per_number@;
    let mut per = live.lamports_per_number;
    let mut i: usize = 0;
    while i < k
        invariant
            k == selection_count,
            selection_list_ok(*selections, selection_count),
            s == selections@.take(k as int),
            before == old(live).lamports_per_number@,
            *live == *old(live),
            i <= k,
            per@.len() == 10,
            forall|n: int|
                0 <= n < 10 ==> #[trigger] per@[n] == before[n] + lamports_per_number
                    * occurrences(s.take(i as int), n),
            sum_u64(per@) == sum_u64(before) + lamports_per_number * i,
        decreases k - i,
    {
        let v = selections[i] as usize;
        proof {
            assert(s[i as int] == selections@[i as int]);
            lemma_occurrences_step(s, i as int);
        }
        match per[v].checked_add(lamports_per_number) {
            None => {
                proof {
                    let a = occurrences(s.take(i as int), v as int);
                    let b = occurrences(s, v as int);
                    lemma_occurrences_mono(s, i as int + 1, k as int, v as int);
                    assert(s.take(k as int) == s);
                    assert(a + 1 <= b);
                    assert(lamports_per_number * (a + 1) <= lamports_per_number * b)
                        by (nonlinear_arith)
                        requires
                            a + 1 <= b,
                    ;
                    assert(lamports_per_number * (a + 1) == lamports_per_number * a
                        + lamports_per_number) by (nonlinear_arith);
                }
                return Err(IC42NErrorCode::MathOverflow);
            },
            Some(x) => {
                proof {
                    lemma_sum_update(per@, v as int, x);
                }
                per[v] = x;
            },
        }
        proof {
            assert(lamports_per_number * (i + 1) == lamports_per_number * i + lamports_per_number)
                by (nonlinear_arith);
            assert forall|n: int| 0 <= n < 10 implies #[trigger] per@[n] == before[n]
                + lamports_per_number * occurrences(s.take(i + 1), n) by {
                let a = occurrences(s.take(i as int), n);
                assert(lamports_per_number * (a + 1) == lamports_per_number * a
                    + lamports_per_number) by (nonlinear_arith);
            }
        }
        i += 1;
    }
    assert(s.take(k as int) == s);
    proof {
        assert forall|n: int| 0 <= n < 10 implies before[n] + lamports_per_number * occurrences(
            s,
            n,
        ) <= u64::MAX by {
            assert(per@[n] <= u64::MAX);
        }
    }
    live.lamports_per_number = per;
    Ok(())
}

/// Removes `lamports_per_number` from the pool's per-number lamports once for
/// each of the first `selection_count` selections. A per-number total smaller
/// than what is removed means the pool is corrupt.
pub fn retract_per_number_from_live(
    live: &mut LiveFeed,
    lamports_per_number: u64,
    selections: &[u8; 8],
    selection_count: u8,
) -> (r: Result<(), IC42NErrorCode>)
    ensures
        lamports_per_number == 0 ==> r == Err::<(), IC42NErrorCode>(
            IC42NErrorCode::InvalidBetAmount,
        ),
        lamports_per_number > 0 && !selection_list_ok(*selections, selection_count) ==> r
            == Err::<(), IC42NErrorCode>(IC42NErrorCode::InvalidBetNumber),
        lamports_per_number > 0 && selection_list_ok(*selections, selection_count) ==> (r is Ok
            <==> covers_removal(
            old(live).lamports_per_number@,
            lamports_per_number,
            selections@.take(selection_count as int),
        )),
        lamports_per_number > 0 && selection_list_ok(*selections, selection_count) && r is Err
            ==> r == Err::<(), IC42NErrorCode>(IC42NErrorCode::InvalidLiveFeedState),
        r is Ok ==> {
            &&& shifted_by(
                old(live).lamports_per_number@,
                final(live).lamports_per_number@,
                -lamports_per_number,
                selections@.take(selection_count as int),
            )
            &&& sum_u64(final(live).lamports_per_number@) == sum_u64(
                old(live).lamports_per_number@,
            ) - lamports_per_number * selection_count
            &&& *final(live) == (LiveFeed {
                lamports_per_number: final(live).lamports_per_number,
                ..*old(live)
            })
        },
        r is Err ==> *final(live) == *old(live),
{
    if lamports_per_number == 0 {
        return Err(IC42NErrorCode::InvalidBetAmount);
    }
    if !check_selection_list(selections, selection_count) {
        return Err(IC42NErrorCode::InvalidBetNumber);
    }
    let k = selection_count as usize;
    let ghost s = selections@.take(k as int);
    let ghost before = live.lamports_per_number@;
    let mut per = live.lamports_per_number;
    let mut i: usize = 0;
    while i < k
        invariant
            k == selection_count,
            selection_list_ok(*selections, selection_count),
            s == selections@.take(k as int),
            before == old(live).lamports_per_number@,
            *live == *old(live),
            i <= k,
            per@.len() == 10,
            forall|n: int|
                0 <= n < 10 ==> #[trigger] per@[n] == before[n] - lamports_per_number
                    * occurrences(s.take(i as int), n),
            sum_u64(per@) == sum_u64(before) - lamports_per_number * i,
        decreases k - i,
    {
        let v = selections[i] as usize;
        proof {
            assert(s[i as int] == selections@[i as int]);
            lemma_occurrences_step(s, i as int);
        }
        if per[v] < lamports_per_number {
            proof {
                let a = occurrences(s.take(i as int), v as int);
                let b = occurrences(s, v as int);
                lemma_occurrences_mono(s, i as int + 1, k as int, v as int);
                assert(s.take(k as int) == s);
                assert(lamports_per_number * (a + 1) <= lamports_per_number * b)
                    by (nonlinear_arith)
                    requires
                        a + 1 <= b,
                ;
                assert(lamports_per_number * (a + 1) == lamports_per_number * a
                    + lamports_per_number) by (nonlinear_arith);
            }
            return Err(IC42NErrorCode::InvalidLiveFeedState);
        }
        let x = per[v] - lamports_per_number;
        proof {
            lemma_sum_update(per@, v as int, x);
        }
        per[v] = x;
        proof {
            assert(lamports_per_number * (i + 1) == lamports_per_number * i + lamports_per_number)
                by (nonlinear_arith);
            assert forall|n: int| 0 <= n < 10 implies #[trigger] per@[n] == before[n]
                - lamports_per_number * occurrences(s.take(i + 1), n) by {
                let a = occurrences(s.take(i as int), n);
                assert(lamports_per_number * (a + 1) == lamports_per_number * a
                    + lamports_per_number) by (nonlinear_arith);
            }
        }
        i += 1;
    }
    assert(s.take(k as int) == s);
    proof {
        assert forall|n: int| 0 <= n < 10 implies before[n] >= lamports_per_number * occurrences(
            s,
            n,
        ) by {
            assert(per@[n] >= 0);
        }
        assert forall|n: int| 0 <= n < 10 implies #[trigger] per@[n] == before[n]
            + (-lamports_per_number) * occurrences(s, n) by {
            let a = occurrences(s, n);
            assert((-lamports_per_number) * a == -(lamports_per_number * a)) by (nonlinear_arith);
        }
    }
    live.lamports_per_number = per;
    Ok(())
}

} // verus!
