//! Rounding an address up or down to an alignment boundary.

use vstd::prelude::*;
use vstd::arithmetic::div_mod::lemma_fundamental_div_mod;
use vstd::arithmetic::div_mod::lemma_mod_bound;
use vstd::arithmetic::div_mod::lemma_mod_multiples_basic;
use vstd::arithmetic::mul::lemma_mul_is_distributive_add;
use vstd::arithmetic::mul::lemma_mul_is_commutative;

verus! {

/// The least multiple of `align` that is at least `pos`.
pub open spec fn round_up(pos: int, align: int) -> int {
    if pos % align == 0 {
        pos
    } else {
        pos + (align - pos % align)
    }
}

/// The greatest multiple of `align` that is at most `pos`.
pub open spec fn round_down(pos: int, align: int) -> int {
    pos - pos % align
}

/// `round_up` lands on a multiple of `align`, at or above `pos`, and less
/// than one whole `align` above it.
pub proof fn lemma_round_up(pos: int, align: int)
    requires
        pos >= 0,
        align >= 1,
    ensures
        round_up(pos, align) % align == 0,
        pos <= round_up(pos, align) < pos + align,
{
    let q = pos / align;
    let r = pos % align;
    lemma_mod_bound(pos, align);
    lemma_fundamental_div_mod(pos, align);
    if r != 0 {
        assert(pos + (align - r) == align * (q + 1)) by {
            lemma_mul_is_distributive_add(align, q, 1);
        }
        assert((align * (q + 1)) % align == 0) by {
            lemma_mul_is_commutative(align, q + 1);
            lemma_mod_multiples_basic(q + 1, align);
        }
    }
}

/// `round_down` lands on a multiple of `align`, at or below `pos`, and more
/// than `pos - align`.
pub proof fn lemma_round_down(pos: int, align: int)
    requires
        pos >= 0,
        align >= 1,
    ensures
        round_down(pos, align) % align == 0,
        pos - align < round_down(pos, align) <= pos,
        round_down(pos, align) >= 0,
{
    let q = pos / align;
    let r = pos % align;
    lemma_mod_bound(pos, align);
    lemma_fundamental_div_mod(pos, align);
    assert((align * q) % align == 0) by {
        lemma_mul_is_commutative(align, q);
        lemma_mod_multiples_basic(q, align);
    }
}

/// `round_down` never rises, whatever the sign of `pos`: a negative
/// position stays negative.
pub proof fn lemma_round_down_any(pos: int, align: int)
    requires
        align >= 1,
    ensures
        round_down(pos, align) <= pos,
        pos < 0 ==> round_down(pos, align) < 0,
{
    lemma_mod_bound(pos, align);
}

/// Rounds `pos` up to the next multiple of `align`, or reports that the
/// result would not fit in a `usize`.
pub fn round_up_usize(pos: usize, align: usize) -> (r: Option<usize>)
    requires
        align >= 1,
    ensures
        match r {
            Some(v) => v == round_up(pos as int, align as int),
            None => round_up(pos as int, align as int) > usize::MAX,
        },
{
    proof {
        lemma_mod_bound(pos as int, align as int);
    }
    let rem: usize = pos % align;
    if rem == 0 {
        Some(pos)
    } else if pos <= usize::MAX - (align - rem) {
        Some(pos + (align - rem))
    } else {
        None
    }
}

/// Rounds `pos` down to a multiple of `align`.
pub fn round_down_usize(pos: usize, align: usize) -> (r: usize)
    requires
        align >= 1,
    ensures
        r == round_down(pos as int, align as int),
{
    proof {
        lemma_mod_bound(pos as int, align as int);
        vstd::arithmetic::div_mod::lemma_mod_decreases(pos as nat, align as nat);
    }
    pos - pos % align
}

} // verus!
