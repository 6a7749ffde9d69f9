use vstd::prelude::*;

use crate::sat::{sat_add_usize, sat_mul10_usize};

verus! {

/// Whether `c` is a decimal digit, `'0'` through `'9'`.
pub open spec fn is_digit(c: char) -> bool {
    48 <= c as u32 && c as u32 <= 57
}

/// The value of a decimal digit character.
pub open spec fn digit_of(c: char) -> u8 {
    (c as u32 - 48) as u8
}

/// Left-to-right decimal fold (`acc * 10 + digit`), saturating at
/// `usize::MAX`.
pub open spec fn fold_digits_sat(digits: Seq<u8>) -> usize
    decreases digits.len(),
{
    if digits.len() == 0 {
        0usize
    } else {
        sat_add_usize(sat_mul10_usize(fold_digits_sat(digits.drop_last())), digits.last() as usize)
    }
}

/// The repeat count a digit buffer resolves to: the saturating decimal
/// fold, floored at one. An empty buffer, or one whose digits fold to
/// zero, means "once".
pub open spec fn resolve_spec(digits: Seq<u8>) -> usize {
    if fold_digits_sat(digits) == 0 {
        1usize
    } else {
        fold_digits_sat(digits)
    }
}

/// Folds a buffer of decimal digits into a repeat count.
///
/// An empty buffer, or one whose digits fold to zero, yields a count of
/// one: "repeat zero times" collapses to "once". Accumulation saturates
/// at `usize::MAX` instead of overflowing.
pub fn resolve(digits: &Vec<u8>) -> (count: usize)
    requires
        forall|i: int| 0 <= i < digits@.len() ==> digits@[i] < 10,
    ensures
        count == resolve_spec(digits@),
        count >= 1,
{
    let mut acc: usize = 0;
    let mut i: usize = 0;
    while i < digits.len()
        invariant
            0 <= i <= digits@.len(),
            forall|k: int| 0 <= k < digits@.len() ==> digits@[k] < 10,
            acc == fold_digits_sat(digits@.subrange(0, i as int)),
        decreases digits@.len() - i,
    {
        proof {
            assert(digits@.subrange(0, i + 1).drop_last() =~= digits@.subrange(0, i as int));
        }
        let scaled: usize = match acc.checked_mul(10) {
            Some(v) => v,
            None => usize::MAX,
        };
        acc = scaled.saturating_add(digits[i] as usize);
        i = i + 1;
    }
    proof {
        assert(digits@.subrange(0, digits@.len() as int) =~= digits@);
    }
    if acc == 0 {
        1
    } else {
        acc
    }
}

/// A buffer of zero digits, however long, resolves to a count of one,
/// never zero: the fold of all-zero digits is zero, and zero collapses
/// to "once".
pub proof fn lemma_resolve_all_zero(digits: Seq<u8>)
    requires
        forall|i: int| 0 <= i < digits.len() ==> digits[i] == 0,
    ensures
        resolve_spec(digits) == 1,
    decreases digits.len(),
{
    if digits.len() > 0 {
        lemma_resolve_all_zero(digits.drop_last());
    }
}

} // verus!
