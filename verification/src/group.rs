//! The group that the protocol works in and the Chaum-Pedersen relations, as
//! mathematics over natural numbers.

use crate::bignum::mod_pow;
use crate::modular::{
    lemma_mod_pow_adds, lemma_mod_pow_equal_iff, lemma_mod_pow_multiplies, lemma_prime_cancels,
};
use vstd::arithmetic::div_mod::{
    lemma_fundamental_div_mod, lemma_mod_bound, lemma_mod_equivalence,
    lemma_mod_multiples_vanish,
};
use vstd::prelude::*;

verus! {

/// A cyclic group description: modulus `p`, subgroup order `q`, and two
/// generators `g` and `h` of the subgroup.
pub struct GroupParameters {
    pub p: nat,
    pub q: nat,
    pub g: nat,
    pub h: nat,
}

/// `n` is at least two and no number strictly between one and `n` divides it.
pub open spec fn is_prime(n: nat) -> bool {
    n >= 2 && forall|d: nat| 1 < d < n ==> #[trigger] (n % d) != 0
}

/// `q` is the multiplicative order of `a` modulo `p`: the `q`-th power of `a`
/// is one and no smaller positive power is.
pub open spec fn has_order(a: nat, q: nat, p: nat) -> bool {
    &&& q > 0
    &&& mod_pow(a, q, p) == 1
    &&& forall|e: nat| 0 < e < q ==> #[trigger] mod_pow(a, e, p) != 1
}

impl GroupParameters {
    /// The moduli are not zero, so that every operation of the engine is defined.
    pub open spec fn usable(self) -> bool {
        self.p > 0 && self.q > 0
    }

    /// `p` and `q` are prime, `q` divides `p - 1`, and both generators are
    /// residues of order `q`.
    pub open spec fn valid(self) -> bool {
        &&& is_prime(self.p)
        &&& is_prime(self.q)
        &&& (self.p - 1) % (self.q as int) == 0
        &&& 0 < self.g < self.p
        &&& 0 < self.h < self.p
        &&& has_order(self.g, self.q, self.p)
        &&& has_order(self.h, self.q, self.p)
    }

    /// The pair `(g^secret mod p, h^secret mod p)`.
    pub open spec fn commit(self, secret: nat) -> (nat, nat) {
        (mod_pow(self.g, secret, self.p), mod_pow(self.h, secret, self.p))
    }

    /// The response `(k - c * x) mod q`, a residue in `[0, q)`.
    pub open spec fn solve(self, k: nat, c: nat, x: nat) -> nat {
        ((k - c * x) % (self.q as int)) as nat
    }

    /// Both verification equations hold: `r1 == g^s * y1^c mod p` and
    /// `r2 == h^s * y2^c mod p`.
    pub open spec fn verify(self, r1: nat, r2: nat, y1: nat, y2: nat, c: nat, s: nat) -> bool {
        &&& r1 == (mod_pow(self.g, s, self.p) * mod_pow(y1, c, self.p)) % self.p
        &&& r2 == (mod_pow(self.h, s, self.p) * mod_pow(y2, c, self.p)) % self.p
    }
}

/// One verification equation for a commitment `a^x` and an ephemeral
/// commitment `a^k`, where `a` has order `q` modulo `p`: the equation
/// `a^k == a^s * (a^x)^c mod p` holds exactly when `k` and `s + x * c` are
/// congruent modulo `q`.
pub proof fn lemma_equation_in_exponents(a: nat, q: nat, p: nat, k: nat, x: nat, c: nat, s: nat)
    requires
        p > 0,
        has_order(a, q, p),
    ensures
        mod_pow(a, k, p) == (mod_pow(a, s, p) * mod_pow(mod_pow(a, x, p), c, p)) % p <==> k % q
            == (s + x * c) % q,
{
    lemma_mod_pow_multiplies(a, x, c, p);
    lemma_mod_pow_adds(a, s, x * c, p);
    lemma_mod_pow_equal_iff(a, q, p, k, s + x * c);
}

/// The response `s = (k - c * x2) mod q` makes `s + x * c` congruent to `k`
/// modulo `q` exactly when `c * x` and `c * x2` are congruent modulo `q`.
pub proof fn lemma_response_in_exponents(q: nat, k: nat, c: nat, x: nat, x2: nat)
    requires
        q > 0,
    ensures
        k % q == (((k - c * x2) % (q as int)) as nat + x * c) % q <==> (c * x) % q == (c * x2)
            % q,
{
    let m = q as int;
    let d = k - c * x2;
    let s = d % m;
    lemma_fundamental_div_mod(d, m);
    lemma_mod_bound(d, m);
    // s + x * c - k == c * x - c * x2 - q * (d / q)
    assert(s + x * c - k == m * (-(d / m)) + (c * x - c * x2)) by (nonlinear_arith)
        requires
            d == m * (d / m) + s,
            d == k - c * x2,
    ;
    lemma_mod_multiples_vanish(-(d / m), c * x - c * x2, m);
    lemma_mod_equivalence(s + x * c, k as int, m);
    lemma_mod_equivalence((c * x) as int, (c * x2) as int, m);
}

impl GroupParameters {
    /// Against commitments to `x` and to the nonce `k`, the response computed
    /// from a secret `x2` is accepted exactly when `c * x` and `c * x2` are
    /// congruent modulo `q`.
    pub proof fn lemma_response_accepted_iff(self, x: nat, x2: nat, k: nat, c: nat)
        requires
            self.valid(),
        ensures
            self.verify(
                self.commit(k).0,
                self.commit(k).1,
                self.commit(x).0,
                self.commit(x).1,
                c,
                self.solve(k, c, x2),
            ) <==> (c * x) % self.q == (c * x2) % self.q,
    {
        let s = self.solve(k, c, x2);
        lemma_equation_in_exponents(self.g, self.q, self.p, k, x, c, s);
        lemma_equation_in_exponents(self.h, self.q, self.p, k, x, c, s);
        lemma_response_in_exponents(self.q, k, c, x, x2);
    }

    /// Completeness: the response of a prover who knows the secret behind the
    /// registered commitment is accepted, whatever the nonce and the challenge.
    pub proof fn lemma_honest_response_accepted(self, x: nat, k: nat, c: nat)
        requires
            self.valid(),
        ensures
            self.verify(
                self.commit(k).0,
                self.commit(k).1,
                self.commit(x).0,
                self.commit(x).1,
                c,
                self.solve(k, c, x),
            ),
    {
        self.lemma_response_accepted_iff(x, x, k, c);
    }

    /// Soundness against a wrong secret: a response computed from a secret
    /// that differs modulo `q` from the committed one is rejected, unless the
    /// challenge is a multiple of `q`.
    pub proof fn lemma_wrong_secret_rejected(self, x: nat, x2: nat, k: nat, c: nat)
        requires
            self.valid(),
            x % self.q != x2 % self.q,
            c % self.q != 0,
        ensures
            !self.verify(
                self.commit(k).0,
                self.commit(k).1,
                self.commit(x).0,
                self.commit(x).1,
                c,
                self.solve(k, c, x2),
            ),
    {
        self.lemma_response_accepted_iff(x, x2, k, c);
        if (c * x) % self.q == (c * x2) % self.q {
            lemma_prime_cancels(self.q, c, x, x2);
        }
    }

    /// The response is a residue modulo `q`.
    pub proof fn lemma_response_is_residue(self, k: nat, c: nat, x: nat)
        requires
            self.q > 0,
        ensures
            self.solve(k, c, x) < self.q,
    {
        lemma_mod_bound(k - c * x, self.q as int);
    }
}

} // verus!
