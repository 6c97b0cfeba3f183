//! Rounding addresses up to a power-of-two alignment.

use vstd::prelude::*;

pub mod alignments;


pub use alignments::{Align64, Align128};

verus! {

use vstd::arithmetic::power2::{pow2, lemma_pow2_pos, lemma_pow2_adds, lemma2_to64};
use vstd::arithmetic::div_mod::{
    lemma_fundamental_div_mod,
    lemma_mod_multiples_basic,
    lemma_div_is_ordered,
    lemma_div_by_multiple,
};
use vstd::arithmetic::mul::lemma_mul_inequality;
use vstd::bits::{low_bits_mask, lemma_usize_low_bits_mask_is_mod, lemma_usize_pow2_no_overflow};

/// `n` is a power of two that a `usize` can hold.
pub open spec fn is_power_of_two(n: usize) -> bool {
    exists|k: nat| k < usize::BITS && pow2(k) == n
}

/// The least multiple of `align` that is not below `addr`.
pub open spec fn round_up(addr: int, align: int) -> int {
    ((addr + align - 1) / align) * align
}

/// A power of two is positive and one more than a low-bits mask.
proof fn lemma_power_of_two_mask(a: usize) -> (k: nat)
    requires
        is_power_of_two(a),
    ensures
        k < usize::BITS,
        pow2(k) == a,
        a >= 1,
        low_bits_mask(k) == a - 1,
{
    let k = choose|k: nat| k < usize::BITS && pow2(k) == a;
    lemma_pow2_pos(k);
    k
}

/// A power of two is at least one.
pub proof fn lemma_power_of_two_positive(a: usize)
    requires
        is_power_of_two(a),
    ensures
        a >= 1,
{
    lemma_power_of_two_mask(a);
}

/// `round_up` is a multiple of `align` in `[addr, addr + align)`.
pub proof fn lemma_round_up(addr: int, align: int)
    requires
        0 <= addr,
        0 < align,
    ensures
        round_up(addr, align) % align == 0,
        addr <= round_up(addr, align) < addr + align,
        round_up(addr, align) == (addr + align - 1) - (addr + align - 1) % align,
{
    let y = addr + align - 1;
    lemma_fundamental_div_mod(y, align);
    assert((y / align) * align == align * (y / align)) by (nonlinear_arith);
    lemma_mod_multiples_basic(y / align, align);
}

/// Clearing the low bits of `x` below a power of two rounds `x` down.
proof fn lemma_mask_rounds_down(x: usize, a: usize)
    requires
        is_power_of_two(a),
    ensures
        x & !((a - 1) as usize) == x - x % a,
{
    let k = lemma_power_of_two_mask(a);
    let m = (a - 1) as usize;
    lemma_usize_pow2_no_overflow(k);
    lemma_usize_low_bits_mask_is_mod(x, k);
    assert(x & m == x % a);
    assert((x & !m) + (x & m) == x) by (bit_vector);
}

/// Rounds `addr` up to the next multiple of the power of two `align`.
pub fn align_up(addr: usize, align: usize) -> (r: usize)
    requires
        is_power_of_two(align),
        addr + align <= usize::MAX,
    ensures
        r == round_up(addr as int, align as int),
        r % align == 0,
        addr <= r < addr + align,
{
    proof {
        lemma_power_of_two_mask(align);
        lemma_round_up(addr as int, align as int);
        lemma_mask_rounds_down((addr + align - 1) as usize, align);
    }
    (addr + align - 1) & !(align - 1)
}


/// Two multiples of `align` that lie less than `align` apart are equal.
proof fn lemma_close_multiples_equal(u: int, v: int, align: int)
    requires
        0 < align,
        u % align == 0,
        v % align == 0,
        u - align < v < u + align,
    ensures
        u == v,
{
    lemma_fundamental_div_mod(u, align);
    lemma_fundamental_div_mod(v, align);
    let qu = u / align;
    let qv = v / align;
    assert(align * qu - align < align * qv < align * qu + align);
    assert(qu == qv) by (nonlinear_arith)
        requires
            0 < align,
            align * qu - align < align * qv < align * qu + align,
    ;
}

/// Rounding up gives the least multiple of `align` that is not below `addr`:
/// every multiple of `align` at or above `addr` is at or above it.
pub proof fn law_round_up_is_least(addr: int, align: int, m: int)
    requires
        0 <= addr,
        0 < align,
        m % align == 0,
        addr <= m,
    ensures
        round_up(addr, align) <= m,
{
    lemma_round_up(addr, align);
    if m < round_up(addr, align) {
        lemma_close_multiples_equal(round_up(addr, align), m, align);
    }
}

/// Rounding up twice is rounding up once.
pub proof fn law_round_up_idempotent(addr: int, align: int)
    requires
        0 <= addr,
        0 < align,
    ensures
        round_up(round_up(addr, align), align) == round_up(addr, align),
{
    let r = round_up(addr, align);
    lemma_round_up(addr, align);
    lemma_round_up(r, align);
    lemma_close_multiples_equal(r, round_up(r, align), align);
}

/// Rounding up preserves order: a higher address never rounds to a lower one.
pub proof fn law_round_up_monotone(x: int, y: int, align: int)
    requires
        0 <= x <= y,
        0 < align,
    ensures
        round_up(x, align) <= round_up(y, align),
{
    lemma_div_is_ordered(x + align - 1, y + align - 1, align);
    lemma_mul_inequality((x + align - 1) / align, (y + align - 1) / align, align);
}

/// An address that is already a multiple of `align` rounds to itself.
pub proof fn law_round_up_fixes_multiples(addr: int, align: int)
    requires
        0 <= addr,
        0 < align,
        addr % align == 0,
    ensures
        round_up(addr, align) == addr,
{
    lemma_round_up(addr, align);
    lemma_close_multiples_equal(addr, round_up(addr, align), align);
}

/// For a power of two, `addr + align - 1` overflows a `usize` exactly when
/// the rounded-up address does not fit in one: the checked variants refuse
/// only the addresses that have no aligned counterpart.
pub proof fn law_rounding_overflow_exact(addr: usize, align: usize)
    requires
        is_power_of_two(align),
    ensures
        addr + align - 1 > usize::MAX <==> round_up(addr as int, align as int) > usize::MAX,
{
    let k = lemma_power_of_two_mask(align);
    let a = align as int;
    let y = addr + a - 1;
    lemma_round_up(addr as int, a);
    if y > usize::MAX {
        let big = usize::MAX + 1;
        lemma2_to64();
        assert(big == pow2(usize::BITS as nat));
        let rest = (usize::BITS - k) as nat;
        lemma_pow2_adds(k, rest);
        assert(k + rest == usize::BITS as nat);
        assert(big == pow2(k) * pow2(rest));
        assert(pow2(k) * pow2(rest) == pow2(rest) * pow2(k)) by (nonlinear_arith);
        assert(big == pow2(rest) * a);
        lemma_mod_multiples_basic(pow2(rest) as int, a);
        lemma_div_by_multiple(pow2(rest) as int, a);
        lemma_div_is_ordered(big, y, a);
        lemma_mul_inequality(big / a, y / a, a);
        assert(round_up(addr as int, a) == (y / a) * a);
    }
}

/// Rounds `addr` up like `align_up`, but reports `None` where the sum
/// `addr + align - 1` would not fit in a `usize`.
pub fn checked_align_up(addr: usize, align: usize) -> (r: Option<usize>)
    requires
        is_power_of_two(align),
    ensures
        r is None <==> addr + align - 1 > usize::MAX,
        r matches Some(x) ==> x == round_up(addr as int, align as int) && x % align == 0 && addr
            <= x < addr + align,
{
    proof {
        lemma_power_of_two_mask(align);
    }
    match addr.checked_add(align - 1) {
        Some(x) => {
            proof {
                lemma_round_up(addr as int, align as int);
                lemma_mask_rounds_down(x, align);
            }
            Some(x & !(align - 1))
        },
        None => None,
    }
}

/// `align_up` for an address taken from a pointer.
pub fn align_up_ptr(addr: usize, align: usize) -> (r: usize)
    requires
        is_power_of_two(align),
        addr + align <= usize::MAX,
    ensures
        r == round_up(addr as int, align as int),
        r % align == 0,
        addr <= r < addr + align,
{
    align_up(addr, align)
}

/// `checked_align_up` for an address taken from a pointer: the null
/// address (0) stands for the case where rounding would overflow.
pub fn checked_align_up_ptr(addr: usize, align: usize) -> (r: usize)
    requires
        is_power_of_two(align),
    ensures
        addr + align - 1 > usize::MAX ==> r == 0,
        addr + align - 1 <= usize::MAX ==> r == round_up(addr as int, align as int),
{
    match checked_align_up(addr, align) {
        Some(x) => x,
        None => 0,
    }
}

} // verus!
