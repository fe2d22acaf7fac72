//! Alignment arithmetic shared by the allocators.

use vstd::prelude::*;
use vstd::arithmetic::div_mod::{
    lemma_fundamental_div_mod, lemma_fundamental_div_mod_converse,
    lemma_mod_division_less_than_divisor, lemma_mod_multiples_basic,
};

verus! {

/// Smallest multiple of `align` that is at least `pos`.
pub open spec fn align_up(pos: int, align: int) -> int {
    ((pos + align - 1) / align) * align
}

/// Largest multiple of `align` that is at most `pos`.
pub open spec fn align_down(pos: int, align: int) -> int {
    pos - pos % align
}

/// Rounding up lands on a multiple of the alignment, moves the position
/// forward by less than one alignment unit, and is exact on multiples.
pub proof fn lemma_align_up(pos: int, align: int)
    requires
        0 <= pos,
        1 <= align,
    ensures
        align_up(pos, align) % align == 0,
        pos <= align_up(pos, align) < pos + align,
        pos % align == 0 ==> align_up(pos, align) == pos,
        pos % align != 0 ==> align_up(pos, align) == pos + align - pos % align,
{
    let q = pos / align;
    let r = pos % align;
    lemma_fundamental_div_mod(pos, align);
    lemma_mod_division_less_than_divisor(pos, align);
    if r == 0 {
        assert(pos + align - 1 == q * align + (align - 1)) by (nonlinear_arith)
            requires pos == align * q + 0,
        ;
        lemma_fundamental_div_mod_converse(pos + align - 1, align, q, align - 1);
        assert(align_up(pos, align) == q * align);
        assert(q * align == pos) by (nonlinear_arith)
            requires pos == align * q + 0,
        ;
        lemma_mod_multiples_basic(q, align);
    } else {
        assert(pos + align - 1 == (q + 1) * align + (r - 1)) by (nonlinear_arith)
            requires pos == align * q + r,
        ;
        lemma_fundamental_div_mod_converse(pos + align - 1, align, q + 1, r - 1);
        assert(align_up(pos, align) == (q + 1) * align);
        assert((q + 1) * align == pos + align - r) by (nonlinear_arith)
            requires pos == align * q + r,
        ;
        lemma_mod_multiples_basic(q + 1, align);
    }
}

/// Rounding down lands on a multiple of the alignment and moves the
/// position backward by less than one alignment unit.
pub proof fn lemma_align_down(pos: int, align: int)
    requires
        0 <= pos,
        1 <= align,
    ensures
        align_down(pos, align) % align == 0,
        pos - align < align_down(pos, align) <= pos,
        0 <= align_down(pos, align),
{
    let q = pos / align;
    let r = pos % align;
    lemma_fundamental_div_mod(pos, align);
    lemma_mod_division_less_than_divisor(pos, align);
    assert(align_down(pos, align) == q * align) by (nonlinear_arith)
        requires pos == align * q + r && align_down(pos, align) == pos - r,
    ;
    assert(0 <= q * align) by (nonlinear_arith)
        requires 0 <= q && 1 <= align,
    ;
    lemma_mod_multiples_basic(q, align);
}

} // verus!
