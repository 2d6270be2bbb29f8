//! Facts about modular exponentiation and prime moduli on which the
//! correctness of the protocol rests.

use crate::bignum::mod_pow;
use crate::group::{has_order, is_prime};
use vstd::arithmetic::div_mod::{
    lemma_fundamental_div_mod, lemma_mod_bound, lemma_mod_equivalence,
    lemma_mod_multiples_vanish, lemma_mod_twice, lemma_mul_mod_noop,
    lemma_mul_mod_noop_general, lemma_small_mod,
};
use vstd::arithmetic::power::{
    lemma1_pow, lemma_pow_adds, lemma_pow_mod_noop, lemma_pow_multiplies, pow,
};
use vstd::prelude::*;

verus! {

/// Multiplying two powers of `a` modulo `p` adds the exponents.
pub proof fn lemma_mod_pow_adds(a: nat, e1: nat, e2: nat, p: nat)
    requires
        p > 0,
    ensures
        (mod_pow(a, e1, p) * mod_pow(a, e2, p)) % p == mod_pow(a, e1 + e2, p),
{
    let m = p as int;
    lemma_pow_adds(a as int, e1, e2);
    lemma_mul_mod_noop(pow(a as int, e1), pow(a as int, e2), m);
    lemma_mod_bound(pow(a as int, e1), m);
    lemma_mod_bound(pow(a as int, e2), m);
    lemma_mod_bound(pow(a as int, e1 + e2), m);
}

/// Raising a power of `a` to a further power modulo `p` multiplies the exponents.
pub proof fn lemma_mod_pow_multiplies(a: nat, e: nat, c: nat, p: nat)
    requires
        p > 0,
    ensures
        mod_pow(mod_pow(a, e, p), c, p) == mod_pow(a, e * c, p),
{
    let m = p as int;
    lemma_mod_bound(pow(a as int, e), m);
    lemma_pow_mod_noop(pow(a as int, e), c, m);
    lemma_pow_multiplies(a as int, e, c);
}

/// Where the `q`-th power of `a` is one modulo `p`, adding a multiple of `q`
/// to an exponent does not change the power.
pub proof fn lemma_mod_pow_period(a: nat, q: nat, p: nat, e: nat, t: nat)
    requires
        p > 0,
        mod_pow(a, q, p) == 1,
    ensures
        mod_pow(a, e + q * t, p) == mod_pow(a, e, p),
{
    let m = p as int;
    assert(p > 1) by {
        lemma_mod_bound(pow(a as int, q), m);
    }
    lemma_mod_pow_multiplies(a, q, t, p);
    lemma1_pow(t);
    lemma_small_mod(1, p);
    assert(mod_pow(a, q * t, p) == 1);
    lemma_mod_pow_adds(a, e, q * t, p);
    lemma_mod_bound(pow(a as int, e), m);
    lemma_mod_twice(pow(a as int, e), m);
    assert(mod_pow(a, e, p) * 1 == mod_pow(a, e, p));
}

/// Where the `q`-th power of `a` is one modulo `p`, an exponent may be
/// reduced modulo `q`.
pub proof fn lemma_mod_pow_reduces(a: nat, q: nat, p: nat, e: nat)
    requires
        p > 0,
        q > 0,
        mod_pow(a, q, p) == 1,
    ensures
        mod_pow(a, e, p) == mod_pow(a, e % q, p),
{
    lemma_fundamental_div_mod(e as int, q as int);
    lemma_mod_bound(e as int, q as int);
    assert(e / q >= 0) by (nonlinear_arith)
        requires
            q > 0,
            e >= 0,
    ;
    lemma_mod_pow_period(a, q, p, e % q, e / q);
    assert(e % q + q * (e / q) == e);
}

/// Where `a` has order `q` modulo `p`, two powers of `a` with exponents below
/// `q` are equal only if the exponents are.
pub proof fn lemma_mod_pow_injective(a: nat, q: nat, p: nat, i: nat, j: nat)
    requires
        p > 0,
        has_order(a, q, p),
        i <= j < q,
        mod_pow(a, i, p) == mod_pow(a, j, p),
    ensures
        i == j,
{
    if i < j {
        let d = (j - i) as nat;
        let up = (q - i) as nat;
        // a^(q-i) * a^i == a^q == 1
        lemma_mod_pow_adds(a, up, i, p);
        assert(up + i == q);
        // a^(q-i) * a^j == a^(q+d) == a^d
        lemma_mod_pow_adds(a, up, j, p);
        assert(up + j == d + q * 1);
        lemma_mod_pow_period(a, q, p, d, 1);
        assert(mod_pow(a, d, p) == 1);
        assert(0 < d < q);
    }
}

/// Where `a` has order `q` modulo `p`, two powers of `a` are equal exactly
/// when their exponents are congruent modulo `q`.
pub proof fn lemma_mod_pow_equal_iff(a: nat, q: nat, p: nat, i: nat, j: nat)
    requires
        p > 0,
        has_order(a, q, p),
    ensures
        mod_pow(a, i, p) == mod_pow(a, j, p) <==> i % q == j % q,
{
    lemma_mod_pow_reduces(a, q, p, i);
    lemma_mod_pow_reduces(a, q, p, j);
    lemma_mod_bound(i as int, q as int);
    lemma_mod_bound(j as int, q as int);
    if mod_pow(a, i, p) == mod_pow(a, j, p) {
        if i % q <= j % q {
            lemma_mod_pow_injective(a, q, p, i % q, j % q);
        } else {
            lemma_mod_pow_injective(a, q, p, j % q, i % q);
        }
    }
}

/// A prime has no zero divisors among its non-zero residues.
pub proof fn lemma_prime_has_no_zero_divisors(q: nat, a: nat, b: nat)
    requires
        is_prime(q),
        0 < a < q,
        0 < b < q,
    ensures
        (a * b) % q != 0,
    decreases a,
{
    if a == 1 {
        assert(a * b == b) by (nonlinear_arith)
            requires
                a == 1,
        ;
        lemma_small_mod(b, q);
    } else {
        let r = q % a;
        let t = q / a;
        lemma_fundamental_div_mod(q as int, a as int);
        lemma_mod_bound(q as int, a as int);
        assert(r != 0);
        if (a * b) % q == 0 {
            let n = (a * b) / q;
            lemma_fundamental_div_mod((a * b) as int, q as int);
            // r * b == q * b - t * (a * b) == q * (b - t * n)
            assert(r * b == q * (b - t * n)) by (nonlinear_arith)
                requires
                    q == a * t + r,
                    a * b == q * n,
            ;
            lemma_mod_multiples_vanish(b - t * n, 0, q as int);
            lemma_small_mod(0, q);
            assert((r * b) % q == 0);
            lemma_prime_has_no_zero_divisors(q, r, b);
        }
    }
}

/// Modulo a prime, a non-zero factor can be cancelled from a congruence.
pub proof fn lemma_prime_cancels(q: nat, c: nat, x: nat, y: nat)
    requires
        is_prime(q),
        c % q != 0,
        (c * x) % q == (c * y) % q,
    ensures
        x % q == y % q,
{
    let m = q as int;
    if x % q != y % q {
        let (hi, lo) = if x % q > y % q {
            (x, y)
        } else {
            (y, x)
        };
        let a = c % q;
        let b = (hi % q - lo % q) as nat;
        lemma_mod_bound(c as int, m);
        lemma_mod_bound(hi as int, m);
        lemma_mod_bound(lo as int, m);
        lemma_prime_has_no_zero_divisors(q, a, b);
        // c * hi - c * lo is a multiple of q, and is congruent to a * b
        lemma_mod_equivalence((c * hi) as int, (c * lo) as int, m);
        assert(c * hi - c * lo == c * (hi - lo)) by (nonlinear_arith);
        lemma_mod_equivalence(hi as int, lo as int + b, m);
        lemma_fundamental_div_mod(hi as int, m);
        lemma_fundamental_div_mod(lo as int, m);
        let u = hi / q - lo / q;
        assert(hi - lo == m * u + b) by (nonlinear_arith)
            requires
                hi == m * (hi / q) + hi % q,
                lo == m * (lo / q) + lo % q,
                b == hi % q - lo % q,
                u == hi / q - lo / q,
        ;
        assert(c * (hi - lo) == m * (c * u) + c * b) by (nonlinear_arith)
            requires
                hi - lo == m * u + b,
        ;
        lemma_mod_multiples_vanish(c * u, (c * b) as int, m);
        lemma_mul_mod_noop_general(c as int, b as int, m);
        lemma_small_mod(b, q);
        assert((a * b) % q == 0);
    }
}

} // verus!
