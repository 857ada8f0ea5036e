//! Lane arithmetic: every lane is an `i32`, and lane operations wrap
//! modulo 2^32 (two's complement). A lane operation's result is therefore
//! `wrap` of the exact integer result, and a chain of operations equals
//! `wrap` of the exact integer expression.
use vstd::prelude::*;
use vstd::arithmetic::div_mod::*;

verus! {

/// Number of distinct lane values.
pub open spec fn lane_range() -> int {
    0x1_0000_0000
}

/// The lane value congruent to `x` modulo 2^32.
pub open spec fn wrap(x: int) -> i32 {
    let r = x % lane_range();
    if r > i32::MAX as int {
        (r - lane_range()) as i32
    } else {
        r as i32
    }
}

/// `wrap` lands in the `i32` range and keeps the residue.
pub proof fn lemma_wrap_residue(x: int)
    ensures
        (wrap(x) as int) % lane_range() == x % lane_range(),
        i32::MIN <= wrap(x) <= i32::MAX,
{
    let m = lane_range();
    lemma_mod_bound(x, m);
    let r = x % m;
    if r > i32::MAX as int {
        lemma_mod_add_multiples_vanish(r - m, m);
        lemma_small_mod(r as nat, m as nat);
    } else {
        lemma_small_mod(r as nat, m as nat);
    }
}

/// A value already in the `i32` range wraps to itself.
pub proof fn lemma_wrap_small(x: int)
    requires
        i32::MIN <= x <= i32::MAX,
    ensures
        wrap(x) == x,
{
    let m = lane_range();
    if x >= 0 {
        lemma_small_mod(x as nat, m as nat);
    } else {
        lemma_mod_add_multiples_vanish(x, m);
        lemma_small_mod((x + m) as nat, m as nat);
    }
}

/// Wrapping an operand of a sum first does not change the wrapped sum.
pub proof fn lemma_wrap_add(a: int, b: int)
    ensures
        wrap(wrap(a) + b) == wrap(a + b),
        wrap(a + wrap(b)) == wrap(a + b),
{
    let m = lane_range();
    lemma_wrap_residue(a);
    lemma_wrap_residue(b);
    lemma_add_mod_noop(wrap(a) as int, b, m);
    lemma_add_mod_noop(a, b, m);
    lemma_add_mod_noop(a, wrap(b) as int, m);
    lemma_mod_twice(a, m);
    lemma_mod_twice(b, m);
}

/// Wrapping an operand of a difference first does not change the wrapped difference.
pub proof fn lemma_wrap_sub(a: int, b: int)
    ensures
        wrap(wrap(a) - b) == wrap(a - b),
        wrap(a - wrap(b)) == wrap(a - b),
{
    let m = lane_range();
    lemma_wrap_residue(a);
    lemma_wrap_residue(b);
    lemma_sub_mod_noop(wrap(a) as int, b, m);
    lemma_sub_mod_noop(a, b, m);
    lemma_sub_mod_noop(a, wrap(b) as int, m);
    lemma_mod_twice(a, m);
    lemma_mod_twice(b, m);
}

/// Wrapping an operand of a product first does not change the wrapped product.
pub proof fn lemma_wrap_mul(a: int, b: int)
    ensures
        wrap(wrap(a) * b) == wrap(a * b),
        wrap(a * wrap(b)) == wrap(a * b),
{
    let m = lane_range();
    lemma_wrap_residue(a);
    lemma_wrap_residue(b);
    lemma_mul_mod_noop_left(wrap(a) as int, b, m);
    lemma_mul_mod_noop_left(a, b, m);
    lemma_mul_mod_noop_right(a, wrap(b) as int, m);
    lemma_mul_mod_noop_right(a, b, m);
}

/// Wrapping twice is wrapping once.
pub proof fn lemma_wrap_idem(a: int)
    ensures
        wrap(wrap(a) as int) == wrap(a),
{
    lemma_wrap_residue(a);
}

/// Lane sum, wrapping on overflow.
pub fn lane_add(a: i32, b: i32) -> (r: i32)
    ensures
        r == wrap(a + b),
{
    proof {
        let s = a + b;
        let m = lane_range();
        if s > i32::MAX {
            lemma_mod_add_multiples_vanish(s - m, m);
            lemma_wrap_small(s - m);
        } else if s < i32::MIN {
            lemma_mod_add_multiples_vanish(s, m);
            lemma_wrap_small(s + m);
        } else {
            lemma_wrap_small(s);
        }
    }
    a.wrapping_add(b)
}

/// Lane difference, wrapping on overflow.
pub fn lane_sub(a: i32, b: i32) -> (r: i32)
    ensures
        r == wrap(a - b),
{
    proof {
        let s = a - b;
        let m = lane_range();
        if s > i32::MAX {
            lemma_mod_add_multiples_vanish(s - m, m);
            lemma_wrap_small(s - m);
        } else if s < i32::MIN {
            lemma_mod_add_multiples_vanish(s, m);
            lemma_wrap_small(s + m);
        } else {
            lemma_wrap_small(s);
        }
    }
    a.wrapping_sub(b)
}

/// Lane product, wrapping on overflow.
pub fn lane_mul(a: i32, b: i32) -> (r: i32)
    ensures
        r == wrap(a * b),
{
    a.wrapping_mul(b)
}

} // verus!
