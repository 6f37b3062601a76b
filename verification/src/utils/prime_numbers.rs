//! Splitting a product of two primes into its factors.
//!
//! The search is Pollard's rho: a sequence `x -> x * x + q` modulo the
//! product runs until it differs from an earlier point of itself by a
//! multiple of one factor, which the greatest common divisor with the
//! product then shows. The starting point and `q` are drawn at random.

use vstd::arithmetic::div_mod::{
    lemma_add_mod_noop, lemma_fundamental_div_mod, lemma_mod_multiples_basic,
    lemma_mul_mod_noop_left, lemma_mul_mod_noop_right, lemma_small_mod, lemma_sub_mod_noop,
};
use vstd::prelude::*;

verus! {

/// How far one round follows the sequence.
pub const ROUND_STEPS: u64 = 0x4_0000;

/// The greatest common divisor of `a` and `b`; `a` where `b` is zero.
pub open spec fn gcd(a: nat, b: nat) -> nat
    decreases b,
{
    if b == 0 {
        a
    } else {
        gcd(b, a % b)
    }
}

/// Whether `g` is the greatest of the numbers that divide both `a` and `b`;
/// zero where both are zero.
pub open spec fn is_greatest_common_divisor(g: nat, a: nat, b: nat) -> bool {
    if a == 0 && b == 0 {
        g == 0
    } else {
        &&& g > 0
        &&& a % g == 0
        &&& b % g == 0
        &&& forall|d: nat| d > 0 && #[trigger] (a % d) == 0 && #[trigger] (b % d) == 0 ==> d <= g
    }
}

/// `num::integer::gcd`: the greatest common divisor of the two numbers.
#[verifier::external_body]
pub(crate) fn num_gcd(a: u64, b: u64) -> (r: u64)
    ensures
        is_greatest_common_divisor(r as nat, a as nat, b as nat),
{
    num::integer::gcd(a, b)
}

/// `rand::random`: a number drawn at random. Nothing is known of it.
#[verifier::external_body]
pub(crate) fn random_u64() -> (r: u64) {
    rand::random()
}

/// A sum of two multiples of `d` is a multiple of `d`.
proof fn lemma_multiple_sum(b: nat, k: nat, r: nat, d: nat)
    requires
        d > 0,
        b % d == 0,
        r % d == 0,
    ensures
        (b * k + r) % d == 0,
{
    lemma_mul_mod_noop_left(b as int, k as int, d as int);
    lemma_add_mod_noop((b * k) as int, r as int, d as int);
    assert(0int * k == 0);
    lemma_small_mod(0, d);
}

/// The greatest common divisor divides both numbers, and is not zero unless
/// both are.
pub proof fn lemma_gcd_divides(a: nat, b: nat)
    ensures
        gcd(a, b) > 0 ==> a % gcd(a, b) == 0 && b % gcd(a, b) == 0,
        a > 0 || b > 0 ==> gcd(a, b) > 0,
        b > 0 ==> gcd(a, b) <= b,
    decreases b,
{
    if b == 0 {
        if a > 0 {
            assert(a % a == 0) by (nonlinear_arith)
                requires
                    a > 0,
            ;
        }
    } else {
        let g = gcd(a, b);
        lemma_gcd_divides(b, a % b);
        assert(g > 0);
        lemma_fundamental_div_mod(a as int, b as int);
        lemma_multiple_sum(b, a / b, a % b, g);
        assert(g <= b) by {
            if g > b {
                lemma_small_mod(b, g);
            }
        }
    }
}

/// A number that divides both `a` and `b` divides what `a` leaves when
/// divided by `b`.
proof fn lemma_divides_remainder(a: nat, b: nat, d: nat)
    requires
        d > 0,
        b > 0,
        a % d == 0,
        b % d == 0,
    ensures
        (a % b) % d == 0,
{
    lemma_fundamental_div_mod(a as int, b as int);
    lemma_mul_mod_noop_left(b as int, (a / b) as int, d as int);
    assert(0int * (a / b) == 0);
    lemma_small_mod(0, d);
    lemma_sub_mod_noop(a as int, (b * (a / b)) as int, d as int);
    assert(a % b == a - b * (a / b));
}

/// No number that divides both `a` and `b` is above `gcd(a, b)`.
proof fn lemma_gcd_greatest(a: nat, b: nat, d: nat)
    requires
        d > 0,
        a % d == 0,
        b % d == 0,
        a > 0 || b > 0,
    ensures
        d <= gcd(a, b),
    decreases b,
{
    if b == 0 {
        if d > a {
            lemma_small_mod(a, d);
        }
    } else {
        lemma_divides_remainder(a, b, d);
        lemma_gcd_greatest(b, a % b, d);
    }
}

/// `gcd` is the greatest common divisor, and the only one.
pub proof fn lemma_gcd_is_greatest(g: nat, a: nat, b: nat)
    ensures
        is_greatest_common_divisor(gcd(a, b), a, b),
        is_greatest_common_divisor(g, a, b) ==> g == gcd(a, b),
{
    lemma_gcd_divides(a, b);
    if a > 0 || b > 0 {
        assert forall|d: nat| d > 0 && #[trigger] (a % d) == 0 && #[trigger] (b % d) == 0 implies d
            <= gcd(a, b) by {
            lemma_gcd_greatest(a, b, d);
        }
        if is_greatest_common_divisor(g, a, b) {
            lemma_gcd_greatest(a, b, g);
            assert(a % gcd(a, b) == 0 && b % gcd(a, b) == 0);
        }
    } else {
        assert(gcd(a, b) == 0);
    }
}

/// The point of the sequence that follows `x`.
pub open spec fn next_point(pq: nat, q: nat, x: nat) -> nat {
    (q + x * x) % pq
}

/// The difference of two points modulo `pq`.
pub open spec fn distance(pq: nat, x: nat, y: nat) -> nat {
    if x < y {
        (pq + x - y) as nat
    } else {
        (x - y) as nat
    }
}

/// Whether the step `j` keeps its point for later comparison: the steps
/// whose number is a power of two do.
pub open spec fn keeps_point(j: u64) -> bool {
    j & ((j - 1) as u64) == 0
}

/// What a search finds that stands at step `j` in the point `x`, with `y`
/// kept for comparison: the first common divisor other than one of `pq` and
/// a difference of points, or one where the round ends without any.
pub open spec fn search(pq: nat, q: nat, x: nat, y: nat, j: u64) -> nat
    decreases ROUND_STEPS - j,
{
    let next = next_point(pq, q, x);
    let g = gcd(distance(pq, next, y), pq);
    if g != 1 || j + 1 >= ROUND_STEPS {
        g
    } else {
        search(
            pq,
            q,
            next,
            if keeps_point(j) {
                next
            } else {
                y
            },
            (j + 1) as u64,
        )
    }
}

/// The parameter `q` that a round makes of its first draw: zero or one.
pub open spec fn drawn_q(draw: u64) -> u64 {
    draw & 1
}

/// The starting point that a round makes of its second draw.
pub open spec fn drawn_x(pq: u64, draw: u64) -> u64 {
    (draw % ((pq - 1) as u64) + 1) as u64
}

/// The two factors of `pq` that the divisor `g` gives, the smaller first;
/// nothing where `g` is one or `pq` itself.
pub open spec fn factors(pq: u64, g: nat) -> Option<(u64, u64)> {
    if 1 < g < pq {
        let other = pq as nat / g;
        if g < other {
            Some((g as u64, other as u64))
        } else {
            Some((other as u64, g as u64))
        }
    } else {
        None
    }
}

/// What one round finds for `pq` with the two draws: nothing where `pq` is
/// below two.
pub open spec fn round(pq: u64, first: u64, second: u64) -> Option<(u64, u64)> {
    if pq < 2 {
        None
    } else {
        let x = drawn_x(pq, second) as nat;
        factors(pq, search(pq as nat, drawn_q(first) as nat, x, x, 1))
    }
}

/// Whatever a round finds are two numbers above one whose product is `pq`.
pub proof fn lemma_round_factors(pq: u64, first: u64, second: u64)
    ensures
        round(pq, first, second) matches Some((lesser, greater)) ==> 1 < lesser <= greater && lesser * greater == pq,
{
    if pq >= 2 {
        let x = drawn_x(pq, second) as nat;
        let g = search(pq as nat, drawn_q(first) as nat, x, x, 1);
        lemma_search_divides(pq as nat, drawn_q(first) as nat, x, x, 1);
        lemma_factors(pq, g);
    }
}

/// A divisor of `pq` strictly between one and `pq` gives two factors above
/// one whose product is `pq`.
proof fn lemma_factors(pq: u64, g: nat)
    requires
        g > 0,
        pq as nat % g == 0,
    ensures
        factors(pq, g) matches Some((lesser, greater)) ==> 1 < lesser <= greater && lesser * greater == pq,
{
    if 1 < g < pq {
        let other = pq as nat / g;
        lemma_fundamental_div_mod(pq as int, g as int);
        assert(g * other == pq);
        assert(other > 1 && other <= pq) by (nonlinear_arith)
            requires
                g * other == pq,
                1 < g < pq,
        ;
        assert(other * g == g * other) by (nonlinear_arith);
    }
}

/// What a search finds divides `pq`.
proof fn lemma_search_divides(pq: nat, q: nat, x: nat, y: nat, j: u64)
    requires
        pq > 0,
    ensures
        search(pq, q, x, y, j) > 0,
        pq % search(pq, q, x, y, j) == 0,
    decreases ROUND_STEPS - j,
{
    let next = next_point(pq, q, x);
    lemma_gcd_divides(distance(pq, next, y), pq);
    let g = gcd(distance(pq, next, y), pq);
    if !(g != 1 || j + 1 >= ROUND_STEPS) {
        lemma_search_divides(
            pq,
            q,
            next,
            if keeps_point(j) {
                next
            } else {
                y
            },
            (j + 1) as u64,
        );
    }
}

/// Whether `n` is a prime number.
pub open spec fn is_prime(n: nat) -> bool {
    n >= 2 && forall|d: nat| 1 < d < n ==> #[trigger] (n % d) != 0
}

/// A prime that divides a product divides one of its factors.
pub proof fn lemma_prime_divides_product(p: nat, a: nat, b: nat)
    requires
        is_prime(p),
        (a * b) % p == 0,
    ensures
        a % p == 0 || b % p == 0,
    decreases a,
{
    if a % p != 0 {
        let r = a % p;
        if r < a {
            lemma_mul_mod_noop_left(a as int, b as int, p as int);
            lemma_small_mod(r, p);
            lemma_prime_divides_product(p, r, b);
        } else if a == 1 {
            assert(1 * b == b);
        } else {
            // 1 < a < p: the remainder of p by a is below a and not zero, and
            // it times b is a multiple of p as well.
            lemma_small_mod(a, p);
            let k = p / a;
            let s = p % a;
            assert(s != 0);
            lemma_fundamental_div_mod(p as int, a as int);
            assert(s * b == p * b - k * (a * b)) by (nonlinear_arith)
                requires
                    p == a * k + s,
            ;
            lemma_mod_multiples_basic(b as int, p as int);
            lemma_mul_mod_noop_right(k as int, (a * b) as int, p as int);
            assert(k * 0 == 0);
            lemma_small_mod(0, p);
            lemma_sub_mod_noop((p * b) as int, (k * (a * b)) as int, p as int);
            assert(p * b == b * p) by (nonlinear_arith);
            lemma_small_mod(s, p);
            lemma_prime_divides_product(p, s, b);
        }
    }
}

/// A factor above one of a prime is the prime.
proof fn lemma_factor_of_prime(q: nat, k: nat, b: nat)
    requires
        is_prime(q),
        k * b == q,
        1 < b,
    ensures
        b == q,
        k == 1,
{
    lemma_mod_multiples_basic(k as int, b as int);
    assert(k >= 1 && b <= q) by (nonlinear_arith)
        requires
            k * b == q,
            q >= 2,
            1 < b,
    ;
    assert(k == 1) by (nonlinear_arith)
        requires
            k * b == q,
            b == q,
            q >= 2,
    ;
}

/// The two primes of a product of two primes are its only factors above
/// one: whatever splits the product has found the primes.
pub proof fn lemma_semiprime_factors(p: nat, q: nat, a: nat, b: nat)
    requires
        is_prime(p),
        is_prime(q),
        p <= q,
        1 < a <= b,
        a * b == p * q,
    ensures
        a == p,
        b == q,
{
    lemma_mod_multiples_basic(q as int, p as int);
    assert(q * p == p * q) by (nonlinear_arith);
    lemma_prime_divides_product(p, a, b);
    if a % p == 0 {
        let k = a / p;
        lemma_fundamental_div_mod(a as int, p as int);
        assert(k * b == q) by (nonlinear_arith)
            requires
                a == p * k,
                a * b == p * q,
                p >= 2,
        ;
        lemma_factor_of_prime(q, k, b);
    } else {
        let k = b / p;
        lemma_fundamental_div_mod(b as int, p as int);
        assert(k * a == q) by (nonlinear_arith)
            requires
                b == p * k,
                a * b == p * q,
                p >= 2,
        ;
        lemma_factor_of_prime(q, k, a);
    }
}

/// The sum of two numbers below `m`, modulo `m`.
fn add_mod(a: u64, b: u64, m: u64) -> (r: u64)
    requires
        a < m,
        b < m,
    ensures
        r == (a + b) % (m as int),
        r < m,
{
    if a >= m - b {
        let r = a - (m - b);
        proof {
            lemma_small_mod(r as nat, m as nat);
            vstd::arithmetic::div_mod::lemma_mod_add_multiples_vanish(r as int, m as int);
        }
        r
    } else {
        proof {
            lemma_small_mod((a + b) as nat, m as nat);
        }
        a + b
    }
}

/// The point of the sequence that follows `x`.
fn step(pq: u64, q: u64, x: u64) -> (r: u64)
    requires
        pq >= 2,
        q < pq,
        x < pq,
    ensures
        r == next_point(pq as nat, q as nat, x as nat),
        r < pq,
{
    let mut a = x;
    let mut b = x;
    let mut c = q;
    while b > 0
        invariant
            pq >= 2,
            a < pq,
            c < pq,
            (c + a * b) % (pq as int) == (q + x * x) % (pq as int),
        decreases b,
    {
        let ghost a0 = a as int;
        let ghost b0 = b as int;
        let ghost c0 = c as int;
        let ghost m = pq as int;
        let odd = b % 2 == 1;
        if odd {
            c = add_mod(c, a, pq);
        }
        a = add_mod(a, a, pq);
        b = b / 2;
        proof {
            let r: int = if odd {
                1
            } else {
                0
            };
            assert(b0 == 2 * b + r);
            assert(c as int == (c0 + r * a0) % m) by {
                if !odd {
                    lemma_small_mod(c0 as nat, m as nat);
                }
            }
            assert(a as int == (2 * a0) % m);
            // c + a * b is congruent to (c0 + r * a0) + (2 * a0) * b
            lemma_mul_mod_noop_left(2 * a0, b as int, m);
            lemma_add_mod_noop(c0 + r * a0, (2 * a0) * b, m);
            lemma_add_mod_noop(c as int, a * b, m);
            lemma_small_mod(c as nat, m as nat);
            assert(((c0 + r * a0) % m) % m == (c0 + r * a0) % m) by {
                vstd::arithmetic::div_mod::lemma_mod_twice(c0 + r * a0, m);
            }
            assert((c0 + r * a0) + (2 * a0) * b == c0 + a0 * b0) by (nonlinear_arith)
                requires
                    b0 == 2 * b + r,
            ;
        }
    }
    proof {
        assert(a * 0 == 0) by (nonlinear_arith);
        lemma_small_mod(c as nat, pq as nat);
    }
    c
}

/// One round of the search, from the point `x` with the parameter `q`.
fn search_round(pq: u64, q: u64, start: u64) -> (g: u64)
    requires
        pq >= 2,
        q < pq,
        start < pq,
    ensures
        g == search(pq as nat, q as nat, start as nat, start as nat, 1),
{
    let mut x = start;
    let mut y = start;
    let mut j: u64 = 1;
    let mut g: u64 = 0;
    while j < ROUND_STEPS
        invariant_except_break
            1 <= j <= ROUND_STEPS,
            j < ROUND_STEPS ==> search(pq as nat, q as nat, start as nat, start as nat, 1)
                == search(pq as nat, q as nat, x as nat, y as nat, j),
            j == ROUND_STEPS ==> search(pq as nat, q as nat, start as nat, start as nat, 1) == g,
        invariant
            pq >= 2,
            q < pq,
            x < pq,
            y < pq,
        ensures
            g == search(pq as nat, q as nat, start as nat, start as nat, 1),
        decreases ROUND_STEPS - j,
    {
        x = step(pq, q, x);
        let z = if x < y {
            pq - (y - x)
        } else {
            x - y
        };
        g = num_gcd(z, pq);
        proof {
            lemma_gcd_is_greatest(g as nat, z as nat, pq as nat);
        }
        let keep = (j & (j - 1)) == 0;
        j += 1;
        if g != 1 {
            break ;
        }
        if keep {
            y = x;
        }
    }
    g
}

/// One round of the search for the factors of `pq`, with two numbers drawn
/// at random.
pub fn split_pq_with(pq: u64, first: u64, second: u64) -> (r: Option<(u64, u64)>)
    ensures
        r == round(pq, first, second),
{
    if pq < 2 {
        return None;
    }
    let q = first & 1;
    assert(first & 1 <= 1) by (bit_vector);
    let x = second % (pq - 1) + 1;
    let g = search_round(pq, q, x);
    proof {
        lemma_search_divides(pq as nat, q as nat, x as nat, x as nat, 1);
    }
    if g > 1 && g < pq {
        let other = pq / g;
        if g < other {
            Some((g, other))
        } else {
            Some((other, g))
        }
    } else {
        None
    }
}

/// Searches the factors of `pq` in up to `rounds` rounds, each with fresh
/// random numbers. What it finds are two numbers above one, the smaller
/// first, whose product is `pq`; for a product of two primes these are the
/// primes, as `lemma_semiprime_factors` shows.
pub fn split_pq(pq: u64, rounds: u32) -> (r: Option<(u64, u64)>)
    ensures
        r matches Some((lesser, greater)) ==> 1 < lesser <= greater && lesser * greater == pq,
        pq < 4 || rounds == 0 ==> r is None,
{
    let mut left = rounds;
    while left > 0
        invariant
            left <= rounds,
        decreases left,
    {
        let first = random_u64();
        let second = random_u64();
        proof {
            lemma_round_factors(pq, first, second);
        }
        match split_pq_with(pq, first, second) {
            Some(found) => {
                assert(pq >= 4) by (nonlinear_arith)
                    requires
                        1 < found.0 <= found.1,
                        found.0 * found.1 == pq,
                ;
                return Some(found);
            },
            None => {},
        }
        left -= 1;
    }
    None
}

} // verus!
