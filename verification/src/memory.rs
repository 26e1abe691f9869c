//! Alignment arithmetic: rounding a byte index up to an alignment boundary.

use vstd::prelude::*;

verus! {

/// True when `n` is a power of two.
pub open spec fn is_power_of_two(n: nat) -> bool
    decreases n,
{
    if n == 0 {
        false
    } else if n == 1 {
        true
    } else {
        n % 2 == 0 && is_power_of_two(n / 2)
    }
}

/// The smallest multiple of `align` that is at least `index`.
pub open spec fn spec_align_index(align: nat, index: nat) -> nat
    recommends
        align > 0,
{
    if index % align == 0 {
        index
    } else {
        (index + align - index % align) as nat
    }
}

/// A power of two is positive.
pub proof fn lemma_power_of_two_pos(n: nat)
    requires
        is_power_of_two(n),
    ensures
        n >= 1,
    decreases n,
{
    if n > 1 {
        lemma_power_of_two_pos(n / 2);
    }
}

/// The three facts that make `spec_align_index` an alignment: the result is
/// at or above `index`, it is a multiple of `align`, and it is less than one
/// full `align` above `index`.
pub proof fn lemma_align_index_properties(align: nat, index: nat)
    requires
        align > 0,
    ensures
        spec_align_index(align, index) >= index,
        spec_align_index(align, index) % align == 0,
        spec_align_index(align, index) - index < align,
{
    let r = index % align;
    vstd::arithmetic::div_mod::lemma_fundamental_div_mod(index as int, align as int);
    vstd::arithmetic::div_mod::lemma_mod_bound(index as int, align as int);
    let q = index as int / align as int;
    if r == 0 {
        assert(spec_align_index(align, index) == index);
        assert(index as int == align as int * q + r);
        assert(index == q * align) by (nonlinear_arith)
            requires
                index as int == align as int * q + r,
                r == 0,
        ;
        vstd::arithmetic::div_mod::lemma_mod_multiples_basic(q, align as int);
    } else {
        assert(spec_align_index(align, index) == index + align - r);
        assert(index as int == align as int * q + r);
        assert(index + align - r == (q + 1) * align) by (nonlinear_arith)
            requires
                index as int == align as int * q + r,
        ;
        vstd::arithmetic::div_mod::lemma_mod_multiples_basic(q + 1, align as int);
    }
}

/// Aligning an already-empty index is a no-op.
pub proof fn lemma_align_index_zero(align: nat)
    requires
        align > 0,
    ensures
        spec_align_index(align, 0) == 0,
{
    vstd::arithmetic::div_mod::lemma_small_mod(0, align);
}

/// Aligns an index to the specified alignment boundary.
/// Returns the next aligned position that satisfies the alignment requirement.
pub fn align_index(align: usize, index: usize) -> (r: usize)
    requires
        is_power_of_two(align as nat),
        spec_align_index(align as nat, index as nat) <= usize::MAX,
    ensures
        r == spec_align_index(align as nat, index as nat),
        r >= index,
        r % align == 0,
        r - index < align,
{
    proof {
        lemma_power_of_two_pos(align as nat);
        lemma_align_index_properties(align as nat, index as nat);
    }
    let rem = index % align;
    if rem == 0 {
        index
    } else {
        index + (align - rem)
    }
}

} // verus!
