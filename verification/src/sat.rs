use vstd::prelude::*;

verus! {

/// Addition on `usize` that saturates at `usize::MAX`.
pub open spec fn sat_add_usize(a: usize, b: usize) -> usize {
    if a + b <= usize::MAX {
        (a + b) as usize
    } else {
        usize::MAX
    }
}

/// Subtraction on `usize` that floors at zero.
pub open spec fn sat_sub_usize(a: usize, b: usize) -> usize {
    if a >= b {
        (a - b) as usize
    } else {
        0usize
    }
}

/// Offsets are unsigned, and the saturating subtraction behind the `k`
/// and `h` motions floors at zero: subtracting at least the whole
/// offset lands exactly on zero, never below it.
pub proof fn lemma_sat_sub_floors(a: usize, b: usize)
    ensures
        sat_sub_usize(a, b) >= 0,
        b >= a ==> sat_sub_usize(a, b) == 0,
        b <= a ==> sat_sub_usize(a, b) == a - b,
{
}

/// Multiplication by ten on `usize` that saturates at `usize::MAX`.
pub open spec fn sat_mul10_usize(a: usize) -> usize {
    if a * 10 <= usize::MAX {
        (a * 10) as usize
    } else {
        usize::MAX
    }
}

} // verus!
