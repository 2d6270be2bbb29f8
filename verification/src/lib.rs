//! Chaum-Pedersen zero-knowledge authentication: a prover shows that it knows
//! the discrete logarithm behind a registered commitment without revealing it.

pub mod bignum;
pub mod group;
pub mod hexstr;
pub mod modular;
pub mod params;
pub mod random;
pub mod server;

use crate::bignum::{
    big_eq, big_from_bytes_be, big_from_u32, big_ge, big_modpow, big_mul, big_sub, value_of,
};
use crate::group::GroupParameters;
use crate::hexstr::{hex_decode, is_hex_text};
use crate::params::{
    default_group, hex_number, lemma_default_group_is_usable, G_HEX, H_EXPONENT, P_HEX, Q_HEX,
};
use num_bigint::BigUint;
use num_bigint::RandBigInt;
use vstd::arithmetic::div_mod::{
    lemma_fundamental_div_mod, lemma_mod_multiples_vanish,
};
use vstd::arithmetic::power::lemma_pow1;
use vstd::prelude::*;

verus! {

/// What an operation of this library can fail with.
#[derive(Clone, Copy, Debug, PartialEq, Eq, Structural)]
pub enum AuthError {
    /// The user or the authentication session is not known.
    NotFound,
    /// The response does not satisfy the verification equations.
    InvalidProof,
    /// A number lies outside the range that the group allows.
    MalformedInput,
}

/// Reads hexadecimal text as a number, most significant digit first. Text of
/// odd length or with a character that is no hexadecimal digit is rejected.
pub fn number_from_hex(text: &str) -> (r: Result<BigUint, AuthError>)
    ensures
        match r {
            Ok(n) => is_hex_text(text@) && value_of(&n) == hex_number(text@),
            Err(e) => !is_hex_text(text@) && e == AuthError::MalformedInput,
        },
{
    match hex_decode(text) {
        Ok(bytes) => Ok(big_from_bytes_be(bytes.as_slice())),
        Err(_) => Err(AuthError::MalformedInput),
    }
}

/// The default group of the protocol as `(g, h, p, q)`.
pub fn default_cfg() -> (cfg: (BigUint, BigUint, BigUint, BigUint))
    ensures
        value_of(&cfg.0) == default_group().g,
        value_of(&cfg.1) == default_group().h,
        value_of(&cfg.2) == default_group().p,
        value_of(&cfg.3) == default_group().q,
        default_group().usable(),
{
    proof {
        lemma_default_group_is_usable();
    }
    let p = number_from_hex(P_HEX).unwrap();
    let q = number_from_hex(Q_HEX).unwrap();
    let g = number_from_hex(G_HEX).unwrap();
    let exp = big_from_u32(H_EXPONENT);
    let h = big_modpow(&g, &exp, &p);
    (g, h, p, q)
}

/// Draws a number below `bound` from the thread's cryptographically secure
/// generator, with `gen_biguint_below` of `num_bigint`, which panics on a zero
/// bound and otherwise returns a number in `[0, bound)`.
#[verifier::external_body]
pub fn gen_random_number_below(bound: &BigUint) -> (r: BigUint)
    requires
        value_of(bound) > 0,
    ensures
        value_of(&r) < value_of(bound),
{
    rand::thread_rng().gen_biguint_below(bound)
}

/// The Chaum-Pedersen proof engine over a cyclic group of prime order.
pub struct ZKP {
    /// A generator of the subgroup.
    pub g: BigUint,
    /// A second generator of the subgroup.
    pub h: BigUint,
    /// The prime modulus.
    pub p: BigUint,
    /// The prime order of the subgroup.
    pub q: BigUint,
}

impl View for ZKP {
    type V = GroupParameters;

    open spec fn view(&self) -> GroupParameters {
        GroupParameters {
            p: value_of(&self.p),
            q: value_of(&self.q),
            g: value_of(&self.g),
            h: value_of(&self.h),
        }
    }
}

impl ZKP {
    /// Commits to `secret`: the pair `(g^secret mod p, h^secret mod p)`.
    /// A secret that is not below `q` is rejected.
    pub fn commit(&self, secret: &BigUint) -> (r: Result<(BigUint, BigUint), AuthError>)
        requires
            self@.p > 0,
        ensures
            match r {
                Ok(pair) => value_of(secret) < self@.q && (value_of(&pair.0), value_of(&pair.1))
                    == self@.commit(value_of(secret)),
                Err(e) => value_of(secret) >= self@.q && e == AuthError::MalformedInput,
            },
    {
        if big_ge(secret, &self.q) {
            return Err(AuthError::MalformedInput);
        }
        let c1 = big_modpow(&self.g, secret, &self.p);
        let c2 = big_modpow(&self.h, secret, &self.p);
        Ok((c1, c2))
    }

    /// The prover's response to challenge `c`: `s = (k - c * x) mod q`, always
    /// a residue in `[0, q)`, also when `k < c * x`.
    pub fn solve(&self, k: &BigUint, c: &BigUint, x: &BigUint) -> (s: BigUint)
        requires
            self@.q > 0,
        ensures
            value_of(&s) == self@.solve(value_of(k), value_of(c), value_of(x)),
            value_of(&s) < self@.q,
    {
        let one = big_from_u32(1);
        let cx = big_mul(c, x);
        let ghost q = value_of(&self.q) as int;
        let ghost diff = value_of(k) - value_of(c) * value_of(x);
        if big_ge(k, &cx) {
            let d = big_sub(k, &cx);
            proof {
                lemma_pow1(value_of(&d) as int);
            }
            big_modpow(&d, &one, &self.q)
        } else {
            let d = big_sub(&cx, k);
            let m = big_modpow(&d, &one, &self.q);
            let e = big_sub(&self.q, &m);
            proof {
                lemma_pow1(value_of(&d) as int);
                lemma_pow1(value_of(&e) as int);
                // -diff == q * (-diff / q) + m, so diff + q * (-diff / q + 1) == q - m
                lemma_fundamental_div_mod(-diff, q);
                lemma_mod_multiples_vanish((-diff) / q + 1, diff, q);
                assert(q * ((-diff) / q + 1) + diff == q - value_of(&m)) by (nonlinear_arith)
                    requires
                        -diff == q * ((-diff) / q) + value_of(&m),
                ;
            }
            big_modpow(&e, &one, &self.q)
        }
    }

    /// The verifier's check: accepts exactly when `r1 == g^s * y1^c mod p` and
    /// `r2 == h^s * y2^c mod p`.
    pub fn verify(
        &self,
        r1: &BigUint,
        r2: &BigUint,
        y1: &BigUint,
        y2: &BigUint,
        c: &BigUint,
        s: &BigUint,
    ) -> (ok: bool)
        requires
            self@.p > 0,
        ensures
            ok == self@.verify(
                value_of(r1),
                value_of(r2),
                value_of(y1),
                value_of(y2),
                value_of(c),
                value_of(s),
            ),
    {
        let one = big_from_u32(1);
        let lhs1 = big_mul(&big_modpow(&self.g, s, &self.p), &big_modpow(y1, c, &self.p));
        let lhs2 = big_mul(&big_modpow(&self.h, s, &self.p), &big_modpow(y2, c, &self.p));
        proof {
            lemma_pow1(value_of(&lhs1) as int);
            lemma_pow1(value_of(&lhs2) as int);
        }
        let cond1 = big_eq(r1, &big_modpow(&lhs1, &one, &self.p));
        let cond2 = big_eq(r2, &big_modpow(&lhs2, &one, &self.p));
        cond1 && cond2
    }
}

} // verus!
