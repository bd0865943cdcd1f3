//! Alignment arithmetic shared by the object layout model and the space
//! managers. All object sizes and space boundaries are pointer-aligned.

use vstd::prelude::*;

verus! {

/// `value` rounded up to the next multiple of `align` (mathematical form).
pub open spec fn align_up(value: int, align: int) -> int {
    ((value + align - 1) / align) * align
}

/// Rounding up lands on a multiple of `align`, moves by less than `align`,
/// and is the identity on values that are already aligned.
pub proof fn lemma_align_up(value: int, align: int)
    requires
        value >= 0,
        align > 0,
    ensures
        align_up(value, align) % align == 0,
        value <= align_up(value, align) < value + align,
        value % align == 0 ==> align_up(value, align) == value,
{
    let s = value + align - 1;
    let q = s / align;
    vstd::arithmetic::div_mod::lemma_fundamental_div_mod(s, align);
    vstd::arithmetic::div_mod::lemma_mod_bound(s, align);
    vstd::arithmetic::div_mod::lemma_mod_multiples_basic(q, align);
    if value % align == 0 {
        vstd::arithmetic::div_mod::lemma_add_mod_noop(value, align - 1, align);
        vstd::arithmetic::div_mod::lemma_small_mod((align - 1) as nat, align as nat);
    }
}

/// Rounds `value` up to the next multiple of `align`.
pub fn align_usize(value: usize, align: usize) -> (r: usize)
    requires
        align > 0,
        value + align - 1 <= usize::MAX,
    ensures
        r == align_up(value as int, align as int),
        r % align == 0,
        value <= r < value + align,
{
    proof {
        lemma_align_up(value as int, align as int);
    }
    ((value + (align - 1)) / align) * align
}

/// Width of a heap pointer in bytes, as the layout formulas use it.
pub fn ptr_width() -> (r: i32)
    ensures
        r == 8,
{
    8
}

} // verus!
