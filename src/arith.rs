//! Integer facts used by the chunk planner: rounding up to a multiple,
//! and least common multiples.
use vstd::arithmetic::div_mod::{lemma_fundamental_div_mod, lemma_mod_multiples_basic};
use vstd::prelude::*;

verus! {

/// `n / m` rounded up.
pub open spec fn ceil_div(n: nat, m: nat) -> nat
    recommends
        m > 0,
{
    if n % m == 0 {
        n / m
    } else {
        n / m + 1
    }
}

/// The smallest multiple of `m` that is at least `n`.
pub open spec fn round_up(n: nat, m: nat) -> nat
    recommends
        m > 0,
{
    ceil_div(n, m) * m
}

/// The first `j >= k` (and at most `b`) with `b` dividing `a * j`.
pub open spec fn lcm_steps(a: nat, b: nat, k: nat) -> nat
    decreases b - k,
{
    if k >= b || (a * k) % b == 0 {
        k
    } else {
        lcm_steps(a, b, k + 1)
    }
}

/// Least common multiple of two positive integers: the first multiple
/// of `a` that `b` divides.
pub open spec fn lcm(a: nat, b: nat) -> nat {
    a * lcm_steps(a, b, 1)
}

/// Least common multiple of every element of `s`, accumulated from 1.
pub open spec fn lcm_fold(s: Seq<nat>) -> nat
    decreases s.len(),
{
    if s.len() == 0 {
        1
    } else {
        lcm(lcm_fold(s.drop_last()), s.last())
    }
}

/// `round_up` is a multiple of `m`, not below `n`, and less than `m` above it.
pub proof fn lemma_round_up(n: nat, m: nat)
    requires
        m > 0,
    ensures
        round_up(n, m) % m == 0,
        n <= round_up(n, m) < n + m,
        n % m == 0 ==> round_up(n, m) == n,
{
    lemma_fundamental_div_mod(n as int, m as int);
    lemma_mod_multiples_basic(ceil_div(n, m) as int, m as int);
    assert(round_up(n, m) == ceil_div(n, m) * m);
    if n % m == 0 {
        assert(round_up(n, m) == (n / m) * m);
        assert((n / m) * m == m * (n / m)) by (nonlinear_arith);
    } else {
        assert(round_up(n, m) == (n / m + 1) * m);
        assert((n / m + 1) * m == m * (n / m) + m) by (nonlinear_arith);
    }
}

/// Divisibility is transitive.
pub proof fn lemma_divides_trans(x: int, y: int, z: int)
    requires
        y > 0,
        z > 0,
        x % y == 0,
        y % z == 0,
    ensures
        x % z == 0,
{
    lemma_fundamental_div_mod(x, y);
    lemma_fundamental_div_mod(y, z);
    let q = x / y;
    let r = y / z;
    assert(x == (q * r) * z) by (nonlinear_arith)
        requires
            x == y * q,
            y == z * r,
    ;
    lemma_mod_multiples_basic(q * r, z);
}

/// A remainder of two common multiples of `d` is itself a multiple of `d`.
proof fn lemma_mod_keeps_divisor(m: int, l: int, d: int)
    requires
        l > 0,
        d > 0,
        m % d == 0,
        l % d == 0,
    ensures
        (m % l) % d == 0,
{
    lemma_fundamental_div_mod(m, d);
    lemma_fundamental_div_mod(l, d);
    lemma_fundamental_div_mod(m, l);
    let p = m / d;
    let r = l / d;
    let q = m / l;
    assert(m % l == (p - r * q) * d) by (nonlinear_arith)
        requires
            m == d * p,
            l == d * r,
            m == l * q + m % l,
    ;
    lemma_mod_multiples_basic(p - r * q, d);
}

proof fn lemma_lcm_steps(a: nat, b: nat, k: nat)
    requires
        a > 0,
        b > 0,
        1 <= k <= b,
    ensures
        k <= lcm_steps(a, b, k) <= b,
        (a * lcm_steps(a, b, k)) % b == 0,
        forall|j: nat| k <= j < lcm_steps(a, b, k) ==> #[trigger] ((a * j) % b) != 0,
    decreases b - k,
{
    if k >= b {
        lemma_mod_multiples_basic(a as int, b as int);
    } else if (a * k) % b != 0 {
        lemma_lcm_steps(a, b, k + 1);
    }
}

/// `lcm(a, b)` is a positive common multiple of `a` and `b`, at most `a * b`.
pub proof fn lemma_lcm_common_multiple(a: nat, b: nat)
    requires
        a > 0,
        b > 0,
    ensures
        lcm(a, b) > 0,
        lcm(a, b) % a == 0,
        lcm(a, b) % b == 0,
        lcm(a, b) <= a * b,
{
    lemma_lcm_steps(a, b, 1);
    let r = lcm_steps(a, b, 1);
    assert(a * r > 0) by (nonlinear_arith)
        requires
            a > 0,
            r >= 1,
    ;
    assert(a * r <= a * b) by (nonlinear_arith)
        requires
            r <= b,
    ;
    assert(a * r == r * a) by (nonlinear_arith);
    lemma_mod_multiples_basic(r as int, a as int);
}

/// Every positive common multiple of `a` and `b` is a multiple of `lcm(a, b)`.
pub proof fn lemma_lcm_divides(a: nat, b: nat, m: int)
    requires
        a > 0,
        b > 0,
        m > 0,
        m % (a as int) == 0,
        m % (b as int) == 0,
    ensures
        m % (lcm(a, b) as int) == 0,
{
    lemma_lcm_common_multiple(a, b);
    lemma_lcm_steps(a, b, 1);
    let l = lcm(a, b) as int;
    let t = m % l;
    lemma_mod_keeps_divisor(m, l, a as int);
    lemma_mod_keeps_divisor(m, l, b as int);
    if t > 0 {
        // t is a smaller positive common multiple, which the search would have met.
        lemma_fundamental_div_mod(t, a as int);
        let j = t / (a as int);
        assert(t == a * j);
        assert(j >= 1) by (nonlinear_arith)
            requires
                t == a * j,
                t > 0,
                a > 0,
        ;
        assert(j < lcm_steps(a, b, 1)) by (nonlinear_arith)
            requires
                t == a * j,
                t < l,
                l == a * lcm_steps(a, b, 1),
                a > 0,
        ;
        assert((a * (j as nat)) % b != 0);
        assert(false);
    }
}

/// The least common multiple of a number with itself is the number.
pub proof fn lemma_lcm_self(a: nat)
    requires
        a > 0,
    ensures
        lcm(a, a) == a,
{
    lemma_mod_multiples_basic(1, a as int);
    assert(lcm_steps(a, a, 1) == 1);
}

/// Relies on num's `Integer::lcm` for `usize`, which for positive arguments
/// returns their least common multiple (computed as `a * (b / gcd(a, b))`).
#[verifier::external_body]
pub(crate) fn lcm_usize(a: usize, b: usize) -> (r: usize)
    requires
        a > 0,
        b > 0,
        lcm(a as nat, b as nat) <= usize::MAX,
    ensures
        r == lcm(a as nat, b as nat),
{
    num::Integer::lcm(&a, &b)
}

/// The smallest multiple of `m` that is at least `num`.
pub fn next_multiple(num: usize, m: usize) -> (r: usize)
    requires
        m > 0,
        round_up(num as nat, m as nat) <= usize::MAX,
    ensures
        r == round_up(num as nat, m as nat),
{
    let q: usize = if num % m == 0 {
        num / m
    } else {
        proof {
            let c = ceil_div(num as nat, m as nat);
            assert(c <= c * m) by (nonlinear_arith)
                requires
                    m > 0,
            ;
        }
        num / m + 1
    };
    proof {
        lemma_fundamental_div_mod(num as int, m as int);
        assert(q * m == round_up(num as nat, m as nat));
        assert((q as int) * (m as int) <= usize::MAX);
    }
    q * m
}

/// Accumulating block sizes one after the other, from 1, yields their
/// least common multiple: a positive multiple of every one of them that
/// divides each of their positive common multiples.
pub proof fn lemma_lcm_fold(s: Seq<nat>, m: int)
    requires
        forall|i: int| 0 <= i < s.len() ==> #[trigger] s[i] > 0,
    ensures
        lcm_fold(s) > 0,
        forall|i: int| 0 <= i < s.len() ==> lcm_fold(s) % #[trigger] s[i] == 0,
        m > 0 && (forall|i: int| 0 <= i < s.len() ==> m % (#[trigger] s[i] as int) == 0) ==> m % (
        lcm_fold(s) as int) == 0,
    decreases s.len(),
{
    if s.len() > 0 {
        let t = s.drop_last();
        let x = s.last();
        let f = lcm_fold(t);
        assert forall|i: int| 0 <= i < t.len() implies #[trigger] t[i] > 0 by {
            assert(t[i] == s[i]);
        }
        lemma_lcm_fold(t, m);
        lemma_lcm_common_multiple(f, x);
        assert forall|i: int| 0 <= i < s.len() implies lcm_fold(s) % #[trigger] s[i] == 0 by {
            if i < s.len() - 1 {
                assert(t[i] == s[i]);
                lemma_divides_trans(lcm(f, x) as int, f as int, s[i] as int);
            }
        }
        if m > 0 && (forall|i: int| 0 <= i < s.len() ==> m % (#[trigger] s[i] as int) == 0) {
            assert forall|i: int| 0 <= i < t.len() implies m % (#[trigger] t[i] as int) == 0 by {
                assert(t[i] == s[i]);
            }
            assert(m % (x as int) == 0);
            lemma_lcm_divides(f, x, m);
        }
    }
}

} // verus!
