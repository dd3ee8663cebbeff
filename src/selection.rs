//! Selection codec: turns a prediction type and an encoded choice into the
//! canonical ascending list of selected numbers (1..=9) and its bitmask.
use vstd::prelude::*;

use crate::errors::IC42NErrorCode;

verus! {

/// Exactly one number, written as one decimal digit.
pub const TYPE_SINGLE_NUMBER: u8 = 0;
/// Exactly two numbers, written as two decimal digits.
pub const TYPE_TWO_NUMBERS: u8 = 1;
/// Choice 0: the four lowest eligible numbers; choice 1: the four highest.
pub const TYPE_HIGH_LOW: u8 = 2;
/// Choice 0: the eligible even numbers; choice 1: the eligible odd numbers.
pub const TYPE_EVEN_ODD: u8 = 3;
/// Three to eight numbers, written as decimal digits.
pub const TYPE_MULTI_NUMBER: u8 = 4;

/// Bit `n` of a 16-bit mask.
pub open spec fn mask_bit(m: u16, n: int) -> bool {
    (m >> (n as u16)) & 1u16 == 1u16
}

/// The mask of the numbers 1..=9 occurring in `s`: bit n is set iff n occurs in `s`.
pub open spec fn spec_mask_of(s: Seq<u8>) -> u16
    decreases s.len(),
{
    if s.len() == 0 {
        0
    } else {
        let rest = spec_mask_of(s.drop_last());
        if 1 <= s.last() <= 9 {
            rest | (1u16 << (s.last() as u16))
        } else {
            rest
        }
    }
}

/// Decimal digits of `v`, least significant first (none for 0).
pub open spec fn digits_of(v: nat) -> Seq<nat>
    decreases v,
{
    if v == 0 {
        Seq::empty()
    } else {
        seq![v % 10].add(digits_of(v / 10))
    }
}

/// A digit-encoded choice is valid when it has one to eight digits, each in
/// 1..=9, none equal to the blocked number, and no digit twice.
pub open spec fn valid_digit_choice(choice: u32, blocked: u8) -> bool {
    let ds = digits_of(choice as nat);
    &&& choice > 0
    &&& ds.len() <= 8
    &&& forall|i: int| 0 <= i < ds.len() ==> 1 <= #[trigger] ds[i] <= 9 && ds[i] != blocked
    &&& forall|i: int, j: int| 0 <= i < j < ds.len() ==> ds[i] != ds[j]
}

/// The numbers of 1..hi that satisfy `p`, in ascending order.
pub open spec fn ascending_where(p: spec_fn(int) -> bool, hi: int) -> Seq<u8>
    decreases hi,
{
    if hi <= 1 {
        Seq::empty()
    } else {
        let rest = ascending_where(p, hi - 1);
        if p(hi - 1) {
            rest.push((hi - 1) as u8)
        } else {
            rest
        }
    }
}

/// Holds of the numbers other than the blocked one.
pub open spec fn not_blocked(blocked: u8) -> spec_fn(int) -> bool {
    |n: int| n != blocked as int
}

/// Holds of the digits of `choice`.
pub open spec fn is_digit_of(choice: u32) -> spec_fn(int) -> bool {
    |n: int| digits_of(choice as nat).contains(n as nat)
}

/// Holds of the numbers other than the blocked one whose parity is `choice`
/// (0 even, 1 odd).
pub open spec fn has_parity(blocked: u8, choice: u32) -> spec_fn(int) -> bool {
    |n: int| n != blocked as int && n % 2 == choice as int
}

/// Holds of the numbers whose bit is set in `mask`.
pub open spec fn in_mask(mask: u16) -> spec_fn(int) -> bool {
    |n: int| mask_bit(mask, n)
}

/// The numbers 1..=9 other than the blocked one, ascending (eight of them).
pub open spec fn eligible_numbers(blocked: u8) -> Seq<u8> {
    ascending_where(not_blocked(blocked), 10)
}

/// The digits of `choice` as an ascending list.
pub open spec fn digit_selection(choice: u32) -> Seq<u8> {
    ascending_where(is_digit_of(choice), 10)
}

/// The canonical selection a prediction type and choice stand for, or `None`
/// when the input is invalid.
pub open spec fn selection_for(prediction_type: u8, choice: u32, blocked: u8) -> Option<Seq<u8>> {
    if !(1 <= blocked <= 9) {
        None
    } else if prediction_type == TYPE_SINGLE_NUMBER || prediction_type == TYPE_TWO_NUMBERS
        || prediction_type == TYPE_MULTI_NUMBER {
        let s = digit_selection(choice);
        if !valid_digit_choice(choice, blocked) {
            None
        } else if (prediction_type == TYPE_SINGLE_NUMBER && s.len() == 1) || (prediction_type
            == TYPE_TWO_NUMBERS && s.len() == 2) || (prediction_type == TYPE_MULTI_NUMBER && 3
            <= s.len() <= 8) {
            Some(s)
        } else {
            None
        }
    } else if prediction_type == TYPE_HIGH_LOW {
        if choice == 0 {
            Some(eligible_numbers(blocked).take(4))
        } else if choice == 1 {
            Some(eligible_numbers(blocked).skip(4))
        } else {
            None
        }
    } else if prediction_type == TYPE_EVEN_ODD {
        if choice <= 1 {
            Some(ascending_where(has_parity(blocked, choice), 10))
        } else {
            None
        }
    } else {
        None
    }
}

/// `s` padded with zeros to eight entries.
pub open spec fn padded8(s: Seq<u8>) -> Seq<u8> {
    s + Seq::new((8 - s.len()) as nat, |i: int| 0u8)
}

/// A codec result `(count, selections, mask)` stands for the list `s`.
pub open spec fn selection_matches(res: (u8, [u8; 8], u16), s: Seq<u8>) -> bool {
    &&& res.0 as int == s.len()
    &&& res.1@ == padded8(s)
    &&& res.2 == spec_mask_of(s)
}

proof fn lemma_ascending_len(p: spec_fn(int) -> bool, hi: int, gap: int)
    ensures
        ascending_where(p, hi).len() <= if hi >= 1 { hi - 1 } else { 0 },
        1 <= gap < hi && !p(gap) ==> ascending_where(p, hi).len() <= hi - 2,
    decreases hi,
{
    if hi > 1 {
        lemma_ascending_len(p, hi - 1, gap);
    }
}

pub proof fn lemma_ascending_ext(p: spec_fn(int) -> bool, q: spec_fn(int) -> bool, hi: int)
    requires
        forall|n: int| 1 <= n < hi ==> #[trigger] p(n) == q(n),
    ensures
        ascending_where(p, hi) == ascending_where(q, hi),
    decreases hi,
{
    if hi > 1 {
        lemma_ascending_ext(p, q, hi - 1);
    }
}

proof fn lemma_ascending_all_but(b: u8, hi: int)
    requires
        1 <= hi,
    ensures
        ascending_where(not_blocked(b), hi).len() == hi - 1 - (if 1 <= b < hi { 1int } else { 0 }),
    decreases hi,
{
    if hi > 1 {
        lemma_ascending_all_but(b, hi - 1);
    }
}

/// Every selection the codec accepts has at most eight numbers.
proof fn lemma_selection_len(prediction_type: u8, choice: u32, blocked: u8)
    requires
        selection_for(prediction_type, choice, blocked) is Some,
    ensures
        selection_for(prediction_type, choice, blocked)->Some_0.len() <= 8,
{
    let b = blocked as int;
    lemma_ascending_all_but(blocked, 10);
    if prediction_type == TYPE_SINGLE_NUMBER || prediction_type == TYPE_TWO_NUMBERS
        || prediction_type == TYPE_MULTI_NUMBER {
        let ds = digits_of(choice as nat);
        if is_digit_of(choice)(b) {
            let i = choose|i: int| 0 <= i < ds.len() && ds[i] == b as nat;
            assert(ds[i] != blocked);
        }
        lemma_ascending_len(is_digit_of(choice), 10, b);
    } else if prediction_type == TYPE_EVEN_ODD {
        lemma_ascending_len(has_parity(blocked, choice), 10, b);
    }
}

proof fn lemma_mask16_bits(m: u16, d: u16, n: u16)
    requires
        d < 16,
        n < 16,
    ensures
        ((m & (1u16 << d)) != 0) == ((m >> d) & 1u16 == 1u16),
        (((m | (1u16 << d)) >> n) & 1u16 == 1u16) == (n == d || (m >> n) & 1u16 == 1u16),
        ((0u16 >> n) & 1u16 == 1u16) == false,
{
    assert(((m & (1u16 << d)) != 0) == ((m >> d) & 1u16 == 1u16)) by (bit_vector)
        requires
            d < 16,
    ;
    assert((((m | (1u16 << d)) >> n) & 1u16 == 1u16) == (n == d || (m >> n) & 1u16 == 1u16))
        by (bit_vector)
        requires
            d < 16,
            n < 16,
    ;
    assert(((0u16 >> n) & 1u16 == 1u16) == false) by (bit_vector);
}

proof fn lemma_derived_mask_bits(b: u16, n: u16)
    requires
        b < 16,
        n < 16,
    ensures
        (((0x3FEu16 & !(1u16 << b)) >> n) & 1u16 == 1u16) == (1 <= n <= 9 && n != b),
        (((0x2AAu16 & !(1u16 << b)) >> n) & 1u16 == 1u16) == (1 <= n <= 9 && n % 2 == 1 && n
            != b),
        (((0x154u16 & !(1u16 << b)) >> n) & 1u16 == 1u16) == (1 <= n <= 9 && n % 2 == 0 && n
            != b),
{
    assert((((0x3FEu16 & !(1u16 << b)) >> n) & 1u16 == 1u16) == (1 <= n <= 9 && n != b))
        by (bit_vector)
        requires
            b < 16,
            n < 16,
    ;
    assert((((0x2AAu16 & !(1u16 << b)) >> n) & 1u16 == 1u16) == (1 <= n <= 9 && n % 2 == 1 && n
        != b)) by (bit_vector)
        requires
            b < 16,
            n < 16,
    ;
    assert((((0x154u16 & !(1u16 << b)) >> n) & 1u16 == 1u16) == (1 <= n <= 9 && n % 2 == 0 && n
        != b)) by (bit_vector)
        requires
            b < 16,
            n < 16,
    ;
}

/// The mask of the first `count` selections (at most eight), counting only
/// entries in 1..=9.
pub fn selection_mask(selections: &[u8; 8], count: u8) -> (r: u16)
    ensures
        r == spec_mask_of(selections@.take(if count <= 8 { count as int } else { 8 })),
{
    let n: usize = if count <= 8 { count as usize } else { 8 };
    let mut m: u16 = 0;
    let mut i: usize = 0;
    while i < n
        invariant
            n <= 8,
            i <= n,
            m == spec_mask_of(selections@.take(i as int)),
        decreases n - i,
    {
        let v = selections[i];
        assert(selections@.take(i + 1).drop_last() == selections@.take(i as int));
        if 1 <= v && v <= 9 {
            m = m | (1u16 << (v as u16));
        }
        i += 1;
    }
    m
}

/// The numbers 1..=9 whose bit is set in `mask`, ascending, padded with zeros.
fn ascending_from_mask(mask: u16) -> (r: ([u8; 8], u8))
    requires
        exists|g: int| 1 <= g <= 9 && !mask_bit(mask, g),
    ensures
        r.0@ == padded8(ascending_where(in_mask(mask), 10)),
        r.1 as int == ascending_where(in_mask(mask), 10).len(),
        r.1 <= 8,
{
    let ghost p = in_mask(mask);
    let ghost g = choose|g: int| 1 <= g <= 9 && !mask_bit(mask, g);
    let mut out: [u8; 8] = [0u8; 8];
    let mut c: u8 = 0;
    let mut n: u8 = 1;
    while n <= 9
        invariant
            p == in_mask(mask),
            1 <= n <= 10,
            1 <= g <= 9,
            !p(g),
            c as int == ascending_where(p, n as int).len(),
            c <= 8,
            out@.take(c as int) == ascending_where(p, n as int),
            forall|i: int| c <= i < 8 ==> out@[i] == 0,
        decreases 10 - n,
    {
        proof {
            lemma_ascending_len(p, n as int, g);
            lemma_ascending_len(p, n as int + 1, g);
        }
        if (mask >> (n as u16)) & 1u16 == 1u16 {
            assert(mask_bit(mask, n as int));
            assert(p(n as int));
            out[c as usize] = n;
            assert(out@.take(c + 1) == ascending_where(p, n as int).push(n));
            c = c + 1;
        }
        n = n + 1;
    }
    proof {
        lemma_ascending_len(p, 10, g);
    }
    assert(out@ == padded8(ascending_where(p, 10)));
    (out, c)
}

/// Decodes a digit-encoded choice into its ascending list of numbers.
fn decode_choice_digits(choice: u32, blocked_secondary: u8) -> (r: Result<
    (u8, [u8; 8], u16),
    IC42NErrorCode,
>)
    requires
        1 <= blocked_secondary <= 9,
    ensures
        match r {
            Ok(res) => valid_digit_choice(choice, blocked_secondary) && selection_matches(
                res,
                digit_selection(choice),
            ),
            Err(e) => !valid_digit_choice(choice, blocked_secondary) && e
                == IC42NErrorCode::InvalidBetNumber,
        },
{
    if choice == 0 {
        return Err(IC42NErrorCode::InvalidBetNumber);
    }
    let ghost ds = digits_of(choice as nat);
    let mut seen: u16 = 0;
    let mut count: u8 = 0;
    let mut v: u32 = choice;
    let ghost mut done: Seq<nat> = Seq::empty();
    proof {
        assert forall|n: int| 0 <= n < 16 implies (mask_bit(seen, n) <==> done.contains(
            n as nat,
        )) by {
            lemma_mask16_bits(0, 0, n as u16);
        }
        assert(ds == done + digits_of(v as nat));
    }
    while v > 0
        invariant
            choice > 0,
            1 <= blocked_secondary <= 9,
            ds == digits_of(choice as nat),
            ds == done + digits_of(v as nat),
            count as int == done.len(),
            count <= 8,
            forall|i: int|
                0 <= i < done.len() ==> 1 <= #[trigger] done[i] <= 9 && done[i]
                    != blocked_secondary,
            forall|i: int, j: int| 0 <= i < j < done.len() ==> done[i] != done[j],
            forall|n: int| 0 <= n < 16 ==> (#[trigger] mask_bit(seen, n) <==> done.contains(n as nat)),
        decreases v,
    {
        let d = (v % 10) as u8;
        let ghost v_old = v;
        v = v / 10;
        assert(digits_of(v_old as nat) == seq![d as nat].add(digits_of(v as nat)));
        assert(ds[done.len() as int] == d as nat);
        if d < 1 || d > 9 || d == blocked_secondary {
            return Err(IC42NErrorCode::InvalidBetNumber);
        }
        proof {
            lemma_mask16_bits(seen, d as u16, d as u16);
        }
        if (seen & (1u16 << (d as u16))) != 0 {
            proof {
                assert(mask_bit(seen, d as int));
                let i = choose|i: int| 0 <= i < done.len() && done[i] == d as nat;
                assert(ds[i] == ds[done.len() as int]);
            }
            return Err(IC42NErrorCode::InvalidBetNumber);
        }
        if count >= 8 {
            return Err(IC42NErrorCode::InvalidBetNumber);
        }
        let ghost seen_old = seen;
        seen = seen | (1u16 << (d as u16));
        proof {
            let done_old = done;
            assert(!mask_bit(seen_old, d as int));
            assert(!done_old.contains(d as nat));
            done = done.push(d as nat);
            assert forall|i: int, j: int| 0 <= i < j < done.len() implies done[i] != done[j] by {
                if j == done.len() - 1 {
                    assert(done[i] == done_old[i]);
                    assert(done_old.contains(done_old[i]));
                } else {
                    assert(done[i] == done_old[i] && done[j] == done_old[j]);
                }
            }
            assert forall|n: int| 0 <= n < 16 implies (mask_bit(seen, n) <==> done.contains(
                n as nat,
            )) by {
                lemma_mask16_bits(seen_old, d as u16, n as u16);
                assert(mask_bit(seen_old, n) <==> done_old.contains(n as nat));
                if n == d as int {
                    assert(done[done.len() - 1] == d as nat);
                } else {
                    if done.contains(n as nat) {
                        let i = choose|i: int| 0 <= i < done.len() && done[i] == n as nat;
                        assert(i < done_old.len());
                        assert(done_old[i] == n as nat);
                        assert(done_old.contains(n as nat));
                    }
                    if done_old.contains(n as nat) {
                        let i = choose|i: int| 0 <= i < done_old.len() && done_old[i] == n as nat;
                        assert(done[i] == n as nat);
                    }
                }
            }
            assert(ds == done + digits_of(v as nat));
        }
        count = count + 1;
    }
    assert(ds == done);
    let ghost p = is_digit_of(choice);
    proof {
        assert(!mask_bit(seen, blocked_secondary as int)) by {
            if done.contains(blocked_secondary as nat) {
                let i = choose|i: int| 0 <= i < done.len() && done[i] == blocked_secondary as nat;
            }
        }
        lemma_ascending_ext(in_mask(seen), p, 10);
    }
    let (out, k) = ascending_from_mask(seen);
    let mask = selection_mask(&out, k);
    assert(out@.take(k as int) == digit_selection(choice));
    Ok((k, out, mask))
}

/// Derives the exact selection set and mask from a prediction type and an
/// encoded choice, given the blocked number.
///
/// Digit modes read the choice's decimal digits (3 => [3], 37 => [3, 7],
/// 7895 => [5, 7, 8, 9]); derived modes read the choice as 0 or 1 and pick
/// from the numbers 1..=9 other than the blocked one.
pub fn derive_prediction_selections(prediction_type: u8, choice: u32, blocked_secondary: u8) -> (r:
    Result<(u8, [u8; 8], u16), IC42NErrorCode>)
    ensures
        match r {
            Ok(res) => match selection_for(prediction_type, choice, blocked_secondary) {
                Some(s) => selection_matches(res, s),
                None => false,
            },
            Err(e) => selection_for(prediction_type, choice, blocked_secondary) is None && e
                == IC42NErrorCode::InvalidBetNumber,
        },
{
    if blocked_secondary < 1 || blocked_secondary > 9 {
        return Err(IC42NErrorCode::InvalidBetNumber);
    }
    let b = blocked_secondary;
    if prediction_type == TYPE_SINGLE_NUMBER || prediction_type == TYPE_TWO_NUMBERS
        || prediction_type == TYPE_MULTI_NUMBER {
        let (c, arr, mask) = decode_choice_digits(choice, b)?;
        let ok = if prediction_type == TYPE_SINGLE_NUMBER {
            c == 1
        } else if prediction_type == TYPE_TWO_NUMBERS {
            c == 2
        } else {
            c >= 3 && c <= 8
        };
        if !ok {
            return Err(IC42NErrorCode::InvalidBetNumber);
        }
        return Ok((c, arr, mask));
    }
    if prediction_type == TYPE_HIGH_LOW {
        if choice > 1 {
            return Err(IC42NErrorCode::InvalidBetNumber);
        }
        let eligible: u16 = 0x3FEu16 & !(1u16 << (b as u16));
        let ghost e = eligible_numbers(b);
        proof {
            assert forall|n: int| 1 <= n < 10 implies #[trigger] in_mask(eligible)(n) == not_blocked(b)(n) by {
                lemma_derived_mask_bits(b as u16, n as u16);
            }
            lemma_ascending_ext(in_mask(eligible), not_blocked(b), 10);
            lemma_ascending_all_but(b, 10);
            lemma_derived_mask_bits(b as u16, b as u16);
            assert(!mask_bit(eligible, b as int));
        }
        let (all, _n) = ascending_from_mask(eligible);
        let mut out: [u8; 8] = [0u8; 8];
        let offset: usize = if choice == 0 { 0 } else { 4 };
        let mut i: usize = 0;
        while i < 4
            invariant
                i <= 4,
                offset == 0 || offset == 4,
                all@ == padded8(e),
                e.len() == 8,
                forall|j: int| 0 <= j < i ==> out@[j] == e[offset + j],
                forall|j: int| 4 <= j < 8 ==> out@[j] == 0,
            decreases 4 - i,
        {
            out[i] = all[offset + i];
            i += 1;
        }
        let ghost s = if choice == 0 { e.take(4) } else { e.skip(4) };
        assert(out@.take(4) == s);
        assert(out@ == padded8(s));
        let mask = selection_mask(&out, 4);
        return Ok((4, out, mask));
    }
    if prediction_type == TYPE_EVEN_ODD {
        if choice > 1 {
            return Err(IC42NErrorCode::InvalidBetNumber);
        }
        let base: u16 = if choice == 1 { 0x2AAu16 } else { 0x154u16 };
        let wanted: u16 = base & !(1u16 << (b as u16));
        let ghost q = has_parity(b, choice);
        proof {
            assert forall|n: int| 1 <= n < 10 implies #[trigger] in_mask(wanted)(n) == q(n) by {
                lemma_derived_mask_bits(b as u16, n as u16);
            }
            lemma_ascending_ext(in_mask(wanted), q, 10);
            lemma_derived_mask_bits(b as u16, b as u16);
            assert(!mask_bit(wanted, b as int));
        }
        let (out, c) = ascending_from_mask(wanted);
        let mask = selection_mask(&out, c);
        assert(out@.take(c as int) == ascending_where(q, 10));
        return Ok((c, out, mask));
    }
    Err(IC42NErrorCode::InvalidBetNumber)
}

proof fn lemma_ascending_sorted(p: spec_fn(int) -> bool, hi: int)
    requires
        hi <= 10,
    ensures
        forall|i: int|
            0 <= i < ascending_where(p, hi).len() ==> 1 <= #[trigger] ascending_where(p, hi)[i]
                < hi && p(ascending_where(p, hi)[i] as int),
        forall|i: int, j: int|
            0 <= i < j < ascending_where(p, hi).len() ==> ascending_where(p, hi)[i]
                < ascending_where(p, hi)[j],
    decreases hi,
{
    if hi > 1 {
        lemma_ascending_sorted(p, hi - 1);
        let rest = ascending_where(p, hi - 1);
        let s = ascending_where(p, hi);
        if p(hi - 1) {
            assert(s == rest.push((hi - 1) as u8));
            assert forall|i: int| 0 <= i < s.len() implies 1 <= #[trigger] s[i] < hi && p(
                s[i] as int,
            ) by {
                if i < rest.len() {
                    assert(s[i] == rest[i]);
                }
            }
            assert forall|i: int, j: int| 0 <= i < j < s.len() implies s[i] < s[j] by {
                assert(s[i] == rest[i]);
                if j < rest.len() {
                    assert(s[j] == rest[j]);
                }
            }
        }
    }
}

proof fn lemma_ascending_nonempty(p: spec_fn(int) -> bool, hi: int, x: int)
    requires
        1 <= x < hi,
        p(x),
    ensures
        ascending_where(p, hi).len() >= 1,
    decreases hi,
{
    if x < hi - 1 {
        lemma_ascending_nonempty(p, hi - 1, x);
    }
}

/// A selection the codec accepts is canonical: one to eight numbers of
/// 1..=9, strictly ascending, none of them the blocked number.
pub proof fn lemma_selection_canonical(prediction_type: u8, choice: u32, blocked: u8)
    requires
        selection_for(prediction_type, choice, blocked) is Some,
    ensures
        ({
            let s = selection_for(prediction_type, choice, blocked)->Some_0;
            &&& 1 <= s.len() <= 8
            &&& forall|i: int| 0 <= i < s.len() ==> 1 <= #[trigger] s[i] <= 9 && s[i] != blocked
            &&& forall|i: int, j: int| 0 <= i < j < s.len() ==> s[i] < s[j]
        }),
{
    lemma_selection_len(prediction_type, choice, blocked);
    let s = selection_for(prediction_type, choice, blocked)->Some_0;
    let b = blocked as int;
    if prediction_type == TYPE_SINGLE_NUMBER || prediction_type == TYPE_TWO_NUMBERS
        || prediction_type == TYPE_MULTI_NUMBER {
        let ds = digits_of(choice as nat);
        lemma_ascending_sorted(is_digit_of(choice), 10);
        assert forall|i: int| 0 <= i < s.len() implies 1 <= #[trigger] s[i] <= 9 && s[i]
            != blocked by {
            assert(is_digit_of(choice)(s[i] as int));
            let j = choose|j: int| 0 <= j < ds.len() && ds[j] == s[i] as nat;
            assert(ds[j] != blocked);
        }
    } else if prediction_type == TYPE_HIGH_LOW {
        let e = eligible_numbers(blocked);
        lemma_ascending_sorted(not_blocked(blocked), 10);
        lemma_ascending_all_but(blocked, 10);
        assert forall|i: int| 0 <= i < s.len() implies 1 <= #[trigger] s[i] <= 9 && s[i]
            != blocked by {
            if choice == 0 {
                assert(s[i] == e[i]);
                assert(not_blocked(blocked)(e[i] as int));
            } else {
                assert(s[i] == e[i + 4]);
                assert(not_blocked(blocked)(e[i + 4] as int));
            }
        }
        assert forall|i: int, j: int| 0 <= i < j < s.len() implies s[i] < s[j] by {
            if choice == 0 {
                assert(s[i] == e[i] && s[j] == e[j]);
            } else {
                assert(s[i] == e[i + 4] && s[j] == e[j + 4]);
            }
        }
    } else {
        let q = has_parity(blocked, choice);
        lemma_ascending_sorted(q, 10);
        assert forall|i: int| 0 <= i < s.len() implies 1 <= #[trigger] s[i] <= 9 && s[i]
            != blocked by {
            assert(q(s[i] as int));
        }
        let x: int = if choice == 1 {
            if b == 1 {
                3
            } else {
                1
            }
        } else {
            if b == 2 {
                4
            } else {
                2
            }
        };
        lemma_ascending_nonempty(q, 10, x);
    }
    if prediction_type == TYPE_SINGLE_NUMBER || prediction_type == TYPE_TWO_NUMBERS
        || prediction_type == TYPE_MULTI_NUMBER {
        let ds = digits_of(choice as nat);
        assert(ds[0] == (choice as nat) % 10);
        assert(is_digit_of(choice)(ds[0] as int));
        lemma_ascending_nonempty(is_digit_of(choice), 10, ds[0] as int);
    }
}

/// Holds of the numbers occurring in `s`.
pub open spec fn in_list(s: Seq<u8>) -> spec_fn(int) -> bool {
    |n: int| 0 <= n < 256 && s.contains(n as u8)
}

proof fn lemma_ascending_none(p: spec_fn(int) -> bool, hi: int)
    requires
        forall|n: int| 1 <= n < hi ==> !#[trigger] p(n),
    ensures
        ascending_where(p, hi).len() == 0,
    decreases hi,
{
    if hi > 1 {
        lemma_ascending_none(p, hi - 1);
    }
}

proof fn lemma_ascending_add_one(p: spec_fn(int) -> bool, q: spec_fn(int) -> bool, x: int, hi: int)
    requires
        forall|n: int| 1 <= n < hi ==> (#[trigger] q(n) <==> (p(n) || n == x)),
        !p(x),
        1 <= x,
    ensures
        ascending_where(q, hi).len() == ascending_where(p, hi).len() + if x < hi {
            1int
        } else {
            0
        },
    decreases hi,
{
    if hi > 1 {
        lemma_ascending_add_one(p, q, x, hi - 1);
        assert(q(hi - 1) <==> (p(hi - 1) || hi - 1 == x));
    }
}

/// A list of distinct numbers of 1..=9 has as many numbers as it has entries.
pub proof fn lemma_list_count(s: Seq<u8>)
    requires
        forall|i: int, j: int| 0 <= i < j < s.len() ==> s[i] != s[j],
        forall|i: int| 0 <= i < s.len() ==> 1 <= #[trigger] s[i] <= 9,
    ensures
        ascending_where(in_list(s), 10).len() == s.len(),
    decreases s.len(),
{
    if s.len() == 0 {
        lemma_ascending_none(in_list(s), 10);
    } else {
        let t = s.drop_last();
        let x = s.last();
        assert(s == t.push(x));
        assert forall|i: int| 0 <= i < t.len() implies 1 <= #[trigger] t[i] <= 9 by {
            assert(t[i] == s[i]);
        }
        assert forall|i: int, j: int| 0 <= i < j < t.len() implies t[i] != t[j] by {
            assert(t[i] == s[i] && t[j] == s[j]);
        }
        lemma_list_count(t);
        assert forall|n: int| 1 <= n < 10 implies (#[trigger] in_list(s)(n) <==> (in_list(t)(n)
            || n == x)) by {
            if s.contains(n as u8) && !t.contains(n as u8) {
                let i = choose|i: int| 0 <= i < s.len() && s[i] == n as u8;
                if i < t.len() {
                    assert(t[i] == s[i]);
                }
            }
            if t.contains(n as u8) {
                let i = choose|i: int| 0 <= i < t.len() && t[i] == n as u8;
                assert(s[i] == t[i]);
            }
            if n == x as int {
                assert(s[s.len() - 1] == x);
            }
        }
        if in_list(t)(x as int) {
            let i = choose|i: int| 0 <= i < t.len() && t[i] == x;
            assert(s[i] == t[i]);
            assert(s[i] != s[s.len() - 1]);
        }
        lemma_ascending_add_one(in_list(t), in_list(s), x as int, 10);
    }
}

/// The mask of a list has bit n set exactly for the numbers 1..=9 in the list.
pub proof fn lemma_mask_of_bits(s: Seq<u8>)
    ensures
        forall|n: int|
            0 <= n < 16 ==> (#[trigger] mask_bit(spec_mask_of(s), n) <==> (1 <= n <= 9
                && s.contains(n as u8))),
    decreases s.len(),
{
    if s.len() == 0 {
        assert forall|n: int| 0 <= n < 16 implies !#[trigger] mask_bit(spec_mask_of(s), n) by {
            lemma_mask16_bits(0, 0, n as u16);
        }
    } else {
        let t = s.drop_last();
        let x = s.last();
        lemma_mask_of_bits(t);
        assert(s == t.push(x));
        assert(spec_mask_of(s) == if 1 <= x <= 9 {
            spec_mask_of(t) | (1u16 << (x as u16))
        } else {
            spec_mask_of(t)
        });
        assert forall|n: int| 0 <= n < 16 implies (#[trigger] mask_bit(spec_mask_of(s), n) <==> (1
            <= n <= 9 && s.contains(n as u8))) by {
            assert(mask_bit(spec_mask_of(t), n) <==> (1 <= n <= 9 && t.contains(n as u8)));
            if s.contains(n as u8) && !t.contains(n as u8) {
                let i = choose|i: int| 0 <= i < s.len() && s[i] == n as u8;
                if i < t.len() {
                    assert(t[i] == s[i]);
                }
            }
            if t.contains(n as u8) {
                let i = choose|i: int| 0 <= i < t.len() && t[i] == n as u8;
                assert(s[i] == t[i]);
            }
            if x as int == n {
                assert(s[s.len() - 1] == x);
            }
            if 1 <= x <= 9 {
                lemma_mask16_bits(spec_mask_of(t), x as u16, n as u16);
            }
        }
    }
}

/// The mask the codec hands out is the mask of the selections it hands out:
/// recomputing it from the stored list gives the same bits back.
pub proof fn lemma_selection_mask_round_trip(
    prediction_type: u8,
    choice: u32,
    blocked: u8,
    res: (u8, [u8; 8], u16),
)
    requires
        selection_for(prediction_type, choice, blocked) is Some,
        selection_matches(res, selection_for(prediction_type, choice, blocked)->Some_0),
    ensures
        res.0 <= 8,
        spec_mask_of(res.1@.take(res.0 as int)) == res.2,
{
    let s = selection_for(prediction_type, choice, blocked)->Some_0;
    lemma_selection_len(prediction_type, choice, blocked);
    assert(res.1@.take(res.0 as int) == s);
}

proof fn lemma_ascending_extend_false(p: spec_fn(int) -> bool, lo: int, hi: int)
    requires
        lo <= hi,
        forall|n: int| lo <= n < hi ==> !#[trigger] p(n),
    ensures
        ascending_where(p, hi) == ascending_where(p, lo),
    decreases hi - lo,
{
    if lo < hi {
        lemma_ascending_extend_false(p, lo, hi - 1);
        if hi > 1 {
            assert(!p(hi - 1));
        }
    }
}

/// The mask the codec hands out has exactly the selected numbers' bits: bit n
/// is set iff n is selected, so bit 0, bits 10..=15 and the blocked number's
/// bit are clear, and the mask has as many set bits as there are selections.
pub proof fn lemma_selection_mask_exact(
    prediction_type: u8,
    choice: u32,
    blocked: u8,
    res: (u8, [u8; 8], u16),
)
    requires
        selection_for(prediction_type, choice, blocked) is Some,
        selection_matches(res, selection_for(prediction_type, choice, blocked)->Some_0),
    ensures
        forall|n: int|
            0 <= n < 16 ==> (#[trigger] mask_bit(res.2, n) <==> (1 <= n <= 9
                && res.1@.take(res.0 as int).contains(n as u8))),
        !mask_bit(res.2, blocked as int),
        res.2 & 0xFC01u16 == 0,
        ascending_where(in_mask(res.2), 16).len() == res.0,
{
    let s = selection_for(prediction_type, choice, blocked)->Some_0;
    lemma_selection_canonical(prediction_type, choice, blocked);
    lemma_mask_of_bits(s);
    assert(res.1@.take(res.0 as int) == s);
    let m = res.2;
    if s.contains(blocked) {
        let i = choose|i: int| 0 <= i < s.len() && s[i] == blocked;
    }
    assert(!mask_bit(m, 0) && !mask_bit(m, 10) && !mask_bit(m, 11) && !mask_bit(m, 12)
        && !mask_bit(m, 13) && !mask_bit(m, 14) && !mask_bit(m, 15));
    assert(m & 0xFC01u16 == 0) by (bit_vector)
        requires
            !((m >> 0u16) & 1u16 == 1u16),
            !((m >> 10u16) & 1u16 == 1u16),
            !((m >> 11u16) & 1u16 == 1u16),
            !((m >> 12u16) & 1u16 == 1u16),
            !((m >> 13u16) & 1u16 == 1u16),
            !((m >> 14u16) & 1u16 == 1u16),
            !((m >> 15u16) & 1u16 == 1u16),
    ;
    assert forall|i: int, j: int| 0 <= i < j < s.len() implies s[i] != s[j] by {}
    lemma_list_count(s);
    assert forall|n: int| 1 <= n < 10 implies #[trigger] in_mask(m)(n) == in_list(s)(n) by {}
    lemma_ascending_ext(in_mask(m), in_list(s), 10);
    assert forall|n: int| 10 <= n < 16 implies !#[trigger] in_mask(m)(n) by {}
    lemma_ascending_extend_false(in_mask(m), 10, 16);
}

/// A single decimal digit other than 0 and the blocked number is a valid
/// single-number choice, and selects exactly that number.
pub proof fn lemma_single_digit_selection(digit: u8, blocked: u8)
    requires
        1 <= digit <= 9,
        1 <= blocked <= 9,
        digit != blocked,
    ensures
        selection_for(TYPE_SINGLE_NUMBER, digit as u32, blocked) == Some(seq![digit]),
{
    let ds = digits_of(digit as nat);
    assert(digits_of((digit as nat) / 10) == Seq::<nat>::empty());
    assert(ds == seq![digit as nat]);
    assert(valid_digit_choice(digit as u32, blocked));
    let p = is_digit_of(digit as u32);
    assert forall|n: int| 1 <= n < 10 implies #[trigger] p(n) == (n == digit as int) by {
        if n == digit as int {
            assert(ds[0] == n as nat);
        }
    }
    lemma_ascending_extend_false(p, digit as int + 1, 10);
    lemma_ascending_none(p, digit as int);
    assert(ascending_where(p, digit as int + 1) == ascending_where(p, digit as int).push(digit));
    assert(digit_selection(digit as u32) == seq![digit]);
}

} // verus!
