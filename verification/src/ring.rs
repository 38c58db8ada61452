//! Circular index arithmetic for a fixed-length strip: moving an index by a
//! signed offset, wrapping in both directions and reducing offsets larger than
//! a whole turn.

use vstd::prelude::*;
use vstd::arithmetic::div_mod::lemma_fundamental_div_mod;
use vstd::arithmetic::div_mod::lemma_fundamental_div_mod_converse_mod;
use vstd::arithmetic::div_mod::lemma_mod_division_less_than_divisor;
use vstd::arithmetic::div_mod::lemma_small_mod;

verus! {

/// Where an index lands after moving a signed number of steps around a ring
/// of the given length: the Euclidean remainder of the sum.
pub open spec fn wrap_spec(index: int, offset: int, max: int) -> int {
    (index + offset) % max
}

/// Wrapping is total: whatever the offset, the result stays on the ring, and
/// a zero offset moves nothing.
pub proof fn lemma_wrap_total(index: int, offset: int, max: int)
    requires
        0 < max,
        0 <= index < max,
    ensures
        0 <= wrap_spec(index, offset, max) < max,
        wrap_spec(index, 0, max) == index,
{
    lemma_mod_division_less_than_divisor(index + offset, max);
    lemma_small_mod(index as nat, max as nat);
}

/// Moves an index by a signed offset around a ring of length max, wrapping
/// backward past zero and reducing offsets of any magnitude.
pub fn wrap(index: usize, offset: i32, max: usize) -> (r: usize)
    requires
        0 < max,
        index < max,
        max <= usize::MAX / 2,
    ensures
        r == wrap_spec(index as int, offset as int, max as int),
        r < max,
        offset == 0 ==> r == index,
{
    proof {
        lemma_wrap_total(index as int, offset as int, max as int);
    }
    if offset >= 0 {
        let off: usize = (offset as usize) % max;
        proof {
            let i = index as int;
            let o = offset as int;
            let m = max as int;
            lemma_mod_division_less_than_divisor(o, m);
            lemma_fundamental_div_mod(o, m);
            let q1 = o / m;
            let r1 = o % m;
            lemma_mod_division_less_than_divisor(i + r1, m);
            lemma_fundamental_div_mod(i + r1, m);
            let q2 = (i + r1) / m;
            let r2 = (i + r1) % m;
            assert((q1 + q2) * m == m * q1 + m * q2) by (nonlinear_arith);
            assert(i + o == (q1 + q2) * m + r2);
            lemma_fundamental_div_mod_converse_mod(i + o, m, q1 + q2, r2);
        }
        (index + off) % max
    } else {
        let mag: u64 = (-(offset as i64)) as u64;
        let back: usize = (mag % (max as u64)) as usize;
        proof {
            let i = index as int;
            let o = offset as int;
            let m = max as int;
            let g = mag as int;
            lemma_mod_division_less_than_divisor(g, m);
            lemma_fundamental_div_mod(g, m);
            let q1 = g / m;
            let r1 = g % m;
            let a = i + m - r1;
            lemma_mod_division_less_than_divisor(a, m);
            lemma_fundamental_div_mod(a, m);
            let q2 = a / m;
            let r2 = a % m;
            assert((q2 - 1 - q1) * m == m * q2 - m - m * q1) by (nonlinear_arith);
            assert(i + o == (q2 - 1 - q1) * m + r2);
            lemma_fundamental_div_mod_converse_mod(i + o, m, q2 - 1 - q1, r2);
        }
        (index + max - back) % max
    }
}

/// How many backward steps lead from the head to position k on the ring.
pub open spec fn steps_behind(head: int, k: int, max: int) -> int {
    (head - k) % max
}

/// The head itself lies zero steps behind the head.
pub proof fn lemma_steps_behind_self(head: int, max: int)
    requires
        0 < max,
    ensures
        steps_behind(head, head, max) == 0,
{
    lemma_small_mod(0, max as nat);
}

/// Stepping backward by off from the head lands on a position that lies
/// exactly off steps behind the head.
pub proof fn lemma_steps_behind_wrap(head: int, off: int, max: int)
    requires
        0 < max,
        0 <= head < max,
        0 <= off < max,
    ensures
        steps_behind(head, wrap_spec(head, -off, max), max) == off,
{
    let i = wrap_spec(head, -off, max);
    lemma_mod_division_less_than_divisor(head - off, max);
    lemma_fundamental_div_mod(head - off, max);
    let q = (head - off) / max;
    assert(q * max == max * q) by (nonlinear_arith);
    lemma_fundamental_div_mod_converse_mod(head - i, max, q, off);
}

/// Only one ring position lies a given number of steps behind the head.
pub proof fn lemma_steps_behind_unique(head: int, k: int, max: int)
    requires
        0 < max,
        0 <= head < max,
        0 <= k < max,
    ensures
        k == wrap_spec(head, -steps_behind(head, k, max), max),
{
    let s = steps_behind(head, k, max);
    lemma_mod_division_less_than_divisor(head - k, max);
    lemma_fundamental_div_mod(head - k, max);
    let q = (head - k) / max;
    assert(q * max == max * q) by (nonlinear_arith);
    lemma_fundamental_div_mod_converse_mod(head - s, max, q, k);
}

} // verus!
