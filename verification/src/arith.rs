//! Addition and subtraction of 32-bit signed integers, wrapping on overflow.

use vstd::prelude::*;

verus! {

/// The number of values a 32-bit integer can take.
pub open spec fn modulus() -> int {
    0x1_0000_0000
}

/// The mathematical integer `n` in 32-bit two's complement: the one integer
/// between `i32::MIN` and `i32::MAX` that differs from `n` by a multiple of
/// 2^32.
pub open spec fn wrap_i32(n: int) -> int {
    (n + 0x8000_0000) % modulus() - 0x8000_0000
}

/// The sum of `left` and `right`, wrapping around on overflow.
pub fn add(left: i32, right: i32) -> (sum: i32)
    ensures
        sum == wrap_i32(left + right),
        i32::MIN <= left + right <= i32::MAX ==> sum == left + right,
{
    left.wrapping_add(right)
}

/// The difference of `left` and `right`, wrapping around on overflow.
pub fn subtract(left: i32, right: i32) -> (difference: i32)
    ensures
        difference == wrap_i32(left - right),
        i32::MIN <= left - right <= i32::MAX ==> difference == left - right,
{
    left.wrapping_sub(right)
}

/// A wrapped value fits in 32 bits and differs from the exact one by a
/// multiple of 2^32.
pub proof fn wrap_i32_is_residue(n: int)
    ensures
        i32::MIN <= wrap_i32(n) <= i32::MAX,
        (wrap_i32(n) - n) % modulus() == 0,
{
}

/// Only one 32-bit value differs from `n` by a multiple of 2^32.
pub proof fn wrap_i32_is_unique(n: int, m: int)
    requires
        i32::MIN <= m <= i32::MAX,
        (m - n) % modulus() == 0,
    ensures
        m == wrap_i32(n),
{
}

/// Wrapping changes nothing where the exact value fits in 32 bits.
pub proof fn wrap_i32_is_exact_in_range(n: int)
    requires
        i32::MIN <= n <= i32::MAX,
    ensures
        wrap_i32(n) == n,
{
}

/// Subtracting what was added gives the first operand back, and adding what
/// was subtracted does too, whether or not either step wrapped.
pub proof fn add_and_subtract_are_inverse(a: i32, b: i32)
    ensures
        wrap_i32(wrap_i32(a + b) - b) == a,
        wrap_i32(wrap_i32(a - b) + b) == a,
{
}

/// Wrapping addition does not depend on the order of its operands.
pub proof fn add_is_commutative(a: i32, b: i32)
    ensures
        wrap_i32(a + b) == wrap_i32(b + a),
{
}

} // verus!
