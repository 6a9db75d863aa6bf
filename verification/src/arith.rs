use vstd::prelude::*;
use vstd::arithmetic::div_mod::{
    lemma_fundamental_div_mod, lemma_fundamental_div_mod_converse, lemma_mod_multiples_vanish,
};
use vstd::arithmetic::power2::{pow2, lemma_pow2_adds, lemma_pow2_strictly_increases, lemma_pow2_pos};
use vstd::bits::{low_bits_mask, lemma_usize_low_bits_mask_is_mod};

verus! {

/// Position `a + b` on a circle of `n` slots, for `0 <= a < n` and `0 <= b <= n`.
pub open spec fn wrap_add(a: int, b: int, n: int) -> int {
    if a + b < n { a + b } else { a + b - n }
}

/// `n` is a power of two: `2^k` for some natural `k`.
pub open spec fn is_power_of_two(n: int) -> bool {
    exists|k: nat| pow2(k) == n
}

/// The number of values a `usize` can hold, `usize::MAX + 1`.
pub open spec fn usize_range() -> int {
    usize::MAX as int + 1
}

/// `x - y` taken modulo `usize_range()`, the value of `x.wrapping_sub(y)`.
pub open spec fn wrapping_distance(x: usize, y: usize) -> int {
    if x >= y { x - y } else { x - y + usize_range() }
}

/// `x + y` taken modulo `usize_range()`, the value of `x.wrapping_add(y)`.
pub open spec fn wrapping_sum(x: usize, y: usize) -> int {
    if x + y < usize_range() { x + y } else { x + y - usize_range() }
}

/// `x + y` taken modulo `2^32`, the value of `x.wrapping_add(y)`.
pub open spec fn wrapping_add_u32(x: u32, y: u32) -> u32 {
    if x + y > u32::MAX { (x + y - 0x1_0000_0000) as u32 } else { (x + y) as u32 }
}

/// The top byte of a 32-bit phase, used to index a table of 256 entries.
pub open spec fn top_byte(x: u32) -> int {
    (x >> 24u32) as int
}

/// The top byte of a `u32` is below 256.
pub proof fn lemma_top_byte(x: u32)
    ensures
        0 <= top_byte(x) < 256,
{
    assert((x >> 24u32) < 256u32) by (bit_vector);
}

/// `usize::MAX` is odd.
pub proof fn lemma_usize_max_odd()
    ensures
        usize::MAX % 2 == 1,
{
    vstd::layout::unsigned_int_max_values();
    vstd::arithmetic::power2::lemma_pow2_unfold(usize::BITS as nat);
}

/// `wrapping_add_u32` is addition modulo `2^32`.
pub proof fn lemma_wrapping_add_u32_is_mod(x: u32, y: u32)
    ensures
        wrapping_add_u32(x, y) == (x + y) % 0x1_0000_0000,
{
    lemma_mod_once(x + y, 0x1_0000_0000);
}

/// The top byte of a `u32` is the quotient by `2^24`.
pub proof fn lemma_top_byte_is_div(x: u32)
    ensures
        top_byte(x) == x / 0x100_0000,
{
    assert((x >> 24u32) == x / 0x100_0000u32) by (bit_vector);
}

/// A power of two that fits in a `usize` divides `usize_range()`.
pub proof fn lemma_pow2_divides_usize_range(n: int) -> (q: int)
    requires
        is_power_of_two(n),
        n <= usize::MAX,
    ensures
        n > 0,
        q > 0,
        n * q == usize_range(),
{
    let k = choose|k: nat| pow2(k) == n;
    vstd::layout::unsigned_int_max_values();
    let w = usize::BITS as nat;
    if k >= w {
        if k > w {
            lemma_pow2_strictly_increases(w, k);
        }
        assert(false);
    }
    lemma_pow2_adds(k, (w - k) as nat);
    lemma_pow2_pos(k);
    lemma_pow2_pos((w - k) as nat);
    pow2((w - k) as nat) as int
}

/// A power of two that fits in a `usize` is at most `isize::MAX + 1`, so adding a
/// non-negative `isize` to a smaller `usize` cannot overflow.
pub proof fn lemma_pow2_at_most_half(n: int)
    requires
        is_power_of_two(n),
        n <= usize::MAX,
    ensures
        n <= isize::MAX + 1,
        isize::MAX + isize::MAX + 1 == usize::MAX,
{
    let q = lemma_pow2_divides_usize_range(n);
    vstd::layout::unsigned_int_max_values();
    assert(isize::MAX + isize::MAX + 1 == usize::MAX);
    if q == 1 {
        assert(n == usize_range());
    } else {
        assert(n * q >= n * 2) by (nonlinear_arith)
            requires q >= 2, n > 0;
        assert(n <= usize_range() / 2);
    }
}

/// Adding or removing one `usize_range()` does not change a remainder modulo a power of two.
pub proof fn lemma_mod_usize_range(x: int, n: int)
    requires
        is_power_of_two(n),
        n <= usize::MAX,
    ensures
        (x + usize_range()) % n == x % n,
        (x - usize_range()) % n == x % n,
{
    let q = lemma_pow2_divides_usize_range(n);
    lemma_mod_multiples_vanish(q, x, n);
    lemma_mod_multiples_vanish(-q, x, n);
    assert(n * (-q) == -(n * q)) by (nonlinear_arith);
}

/// For a power of two `n`, masking with `n - 1` computes the remainder modulo `n`.
pub proof fn lemma_mask_is_mod(x: usize, n: usize)
    requires
        is_power_of_two(n as int),
    ensures
        n > 0,
        x & ((n - 1) as usize) == x % n,
{
    let k = choose|k: nat| pow2(k) == n;
    vstd::layout::unsigned_int_max_values();
    let w = usize::BITS as nat;
    if k >= w {
        if k > w {
            lemma_pow2_strictly_increases(w, k);
        }
        assert(false);
    }
    lemma_pow2_pos(k);
    lemma_usize_low_bits_mask_is_mod(x, k);
    assert(low_bits_mask(k) == n - 1);
}

/// Two positions fewer than `n` apart fall into different slots modulo `n`.
pub proof fn lemma_mod_distinct(x: int, y: int, n: int)
    requires
        0 < n,
        x < y < x + n,
    ensures
        x % n != y % n,
{
    lemma_fundamental_div_mod(x, n);
    lemma_fundamental_div_mod(y, n);
    if x % n == y % n {
        let qx = x / n;
        let qy = y / n;
        assert(y - x == n * (qy - qx)) by (nonlinear_arith)
            requires
                x == n * qx + x % n,
                y == n * qy + y % n,
                x % n == y % n;
        assert(false) by (nonlinear_arith)
            requires
                y - x == n * (qy - qx),
                0 < y - x < n,
                0 < n;
    }
}

/// `x % n` for `0 <= x < 2 * n` needs at most one subtraction.
pub proof fn lemma_mod_once(x: int, n: int)
    requires
        0 < n,
        0 <= x < 2 * n,
    ensures
        x % n == (if x < n { x } else { x - n }),
{
    if x < n {
        lemma_fundamental_div_mod_converse(x, n, 0, x);
    } else {
        lemma_fundamental_div_mod_converse(x, n, 1, x - n);
    }
}

} // verus!
