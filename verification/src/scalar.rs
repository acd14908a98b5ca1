//! The scalar field: every column value is encoded as an element of the
//! prime field of integers modulo `FIELD_MODULUS`, so that arithmetic and
//! commitments operate over one algebraic structure.

use vstd::prelude::*;
use vstd::arithmetic::div_mod::{
    lemma_fundamental_div_mod, lemma_mod_add_multiples_vanish, lemma_mod_multiples_basic,
    lemma_mod_multiples_vanish, lemma_mod_self_0, lemma_mul_mod_noop_left,
    lemma_mul_mod_noop_right, lemma_small_mod, lemma_sub_mod_noop,
};
use vstd::arithmetic::mul::{
    lemma_mul_is_associative, lemma_mul_is_distributive_sub_other_way,
};

verus! {

/// The field modulus, the Mersenne prime 2^61 - 1.
pub const FIELD_MODULUS: u64 = 2305843009213693951;

/// An element of the prime field, kept in canonical form (< `FIELD_MODULUS`).
///
/// The field carries no native total order: comparisons on the original
/// typed domain are lifted explicitly by the column operations, never
/// performed on the encodings.
#[derive(Clone, Copy, PartialEq, Eq, Structural, Debug)]
pub struct Scalar {
    pub value: u64,
}

/// Canonical field encoding of a (possibly negative) integer.
pub open spec fn field_encode(x: int) -> int {
    x % (FIELD_MODULUS as int)
}

/// Whether `w` is a multiplicative inverse of `v` in the field.
pub open spec fn mul_inverse_of(w: int, v: int) -> bool {
    (w * v) % (FIELD_MODULUS as int) == 1
}

/// The signed value a canonical encoding stands for: the balanced
/// representative, in [-(FIELD_MODULUS-1)/2, (FIELD_MODULUS-1)/2].
pub open spec fn field_decode(v: int) -> int {
    if v <= (FIELD_MODULUS - 1) as int / 2 {
        v
    } else {
        v - FIELD_MODULUS as int
    }
}

/// LAW: the field encoding is lossless on the balanced range: every
/// integer of magnitude at most (FIELD_MODULUS-1)/2 round-trips exactly
/// through encode and decode.
pub proof fn lemma_field_encode_round_trip(x: int)
    requires
        -((FIELD_MODULUS - 1) as int / 2) <= x <= (FIELD_MODULUS - 1) as int / 2,
    ensures
        field_decode(field_encode(x)) == x,
{
    let p = FIELD_MODULUS as int;
    if x >= 0 {
        lemma_small_mod(x as nat, FIELD_MODULUS as nat);
    } else {
        lemma_mod_add_multiples_vanish(x, p);
        lemma_small_mod((x + p) as nat, FIELD_MODULUS as nat);
    }
}

/// Whether `d` divides `x` exactly.
pub open spec fn divides(d: int, x: int) -> bool
    recommends
        d != 0,
{
    x % d == 0
}

/// A value that shares a divisor of two or more with the modulus has no
/// multiplicative inverse in the field.
proof fn lemma_common_divisor_blocks_inverse(d: int, v: int, w: int)
    requires
        d >= 2,
        divides(d, FIELD_MODULUS as int),
        divides(d, v),
    ensures
        !mul_inverse_of(w, v),
{
    let p = FIELD_MODULUS as int;
    if mul_inverse_of(w, v) {
        lemma_fundamental_div_mod(w * v, p);
        let big_q = (w * v) / p;
        lemma_fundamental_div_mod(p, d);
        lemma_fundamental_div_mod(v, d);
        let kp = p / d;
        let kv = v / d;
        assert(1int == d * (w * kv - big_q * kp)) by (nonlinear_arith)
            requires
                w * v == p * big_q + 1,
                p == d * kp,
                v == d * kv,
        ;
        assert(false) by (nonlinear_arith)
            requires
                1int == d * (w * kv - big_q * kp),
                d >= 2,
        ;
    }
}

impl Scalar {
    /// A scalar is well-formed when its representative is canonical.
    pub open spec fn wf(self) -> bool {
        self.value < FIELD_MODULUS
    }

    pub fn new(value: u64) -> (r: Scalar)
        ensures
            r.wf(),
            r.value == field_encode(value as int),
    {
        Scalar { value: value % FIELD_MODULUS }
    }

    pub fn zero() -> (r: Scalar)
        ensures
            r.wf(),
            r.value == 0,
    {
        Scalar { value: 0 }
    }

    pub fn one() -> (r: Scalar)
        ensures
            r.wf(),
            r.value == 1,
    {
        Scalar { value: 1 }
    }

    /// Field addition.
    pub fn add(self, rhs: Scalar) -> (r: Scalar)
        requires
            self.wf(),
            rhs.wf(),
        ensures
            r.wf(),
            r.value == field_encode(self.value + rhs.value),
    {
        let s: u64 = self.value + rhs.value;
        Scalar { value: s % FIELD_MODULUS }
    }

    /// Field subtraction.
    pub fn sub(self, rhs: Scalar) -> (r: Scalar)
        requires
            self.wf(),
            rhs.wf(),
        ensures
            r.wf(),
            r.value == field_encode(self.value - rhs.value),
    {
        let s: u64 = self.value + (FIELD_MODULUS - rhs.value);
        proof {
            lemma_mod_add_multiples_vanish(self.value - rhs.value, FIELD_MODULUS as int);
        }
        Scalar { value: s % FIELD_MODULUS }
    }

    /// Field negation.
    pub fn neg(self) -> (r: Scalar)
        requires
            self.wf(),
        ensures
            r.wf(),
            r.value == field_encode(-(self.value as int)),
    {
        let s: u64 = FIELD_MODULUS - self.value;
        proof {
            lemma_mod_add_multiples_vanish(-(self.value as int), FIELD_MODULUS as int);
        }
        Scalar { value: s % FIELD_MODULUS }
    }

    /// Field multiplication.
    pub fn mul(self, rhs: Scalar) -> (r: Scalar)
        requires
            self.wf(),
            rhs.wf(),
        ensures
            r.wf(),
            r.value == field_encode(self.value * rhs.value),
    {
        proof {
            assert((self.value as int) * (rhs.value as int)
                < (FIELD_MODULUS as int) * (FIELD_MODULUS as int)) by (nonlinear_arith)
                requires
                    self.value < FIELD_MODULUS,
                    rhs.value < FIELD_MODULUS,
            ;
        }
        let p: u128 = (self.value as u128) * (rhs.value as u128);
        let m: u128 = p % (FIELD_MODULUS as u128);
        Scalar { value: m as u64 }
    }

    /// Field division: multiplication by the divisor's inverse. The two
    /// outcomes partition the inputs exactly: `Some` is the product with
    /// an inverse of the divisor, and `None` comes back precisely when
    /// the divisor has no inverse at all (with a prime modulus, only on
    /// zero).
    pub fn div(self, rhs: Scalar) -> (r: Option<Scalar>)
        requires
            self.wf(),
            rhs.wf(),
        ensures
            r matches Some(s) ==> s.wf() && exists|w: int|
                #[trigger] mul_inverse_of(w, rhs.value as int) && 0 <= w < FIELD_MODULUS
                    && s.value == field_encode(self.value * w),
            r is None <==> (forall|w: int| !(#[trigger] mul_inverse_of(w, rhs.value as int))),
    {
        match rhs.inv() {
            Some(w) => {
                proof {
                    assert(mul_inverse_of(w.value as int, rhs.value as int));
                }
                Some(self.mul(w))
            },
            None => None,
        }
    }

    /// Field inverse, by the extended Euclidean algorithm. The two
    /// outcomes partition the inputs exactly: `Some(s)` carries a proven
    /// inverse, and `None` comes back precisely when no inverse exists —
    /// when this element and the modulus share a divisor of two or more.
    /// The modulus being prime, only zero is in that case; that the
    /// algorithm reaches gcd 1 on every other element rests on the
    /// primality of 2^61 - 1, which these contracts do not assume.
    pub fn inv(self) -> (r: Option<Scalar>)
        requires
            self.wf(),
        ensures
            r matches Some(s) ==> s.wf() && (s.value * self.value) % (FIELD_MODULUS as int) == 1,
            r is None <==> (forall|w: int| !(#[trigger] mul_inverse_of(w, self.value as int))),
    {
        if self.value == 0 {
            proof {
                assert forall|w: int| !mul_inverse_of(w, self.value as int) by {
                    assert(w * 0 == 0);
                }
            }
            return None;
        }
        let v = self.value;
        let ghost p = FIELD_MODULUS as int;
        let mut r0: u64 = FIELD_MODULUS;
        let mut r1: u64 = v;
        let mut s0: u64 = 0;
        let mut s1: u64 = 1;
        proof {
            lemma_small_mod(v as nat, FIELD_MODULUS as nat);
        }
        while r1 > 1
            invariant
                0 < v < FIELD_MODULUS,
                v == self.value,
                s0 < FIELD_MODULUS,
                s1 < FIELD_MODULUS,
                r0 >= 2,
                r1 >= 0,
                (r0 as int) % (FIELD_MODULUS as int) == ((s0 as int) * (v as int)) % (
                FIELD_MODULUS as int),
                (r1 as int) % (FIELD_MODULUS as int) == ((s1 as int) * (v as int)) % (
                FIELD_MODULUS as int),
                forall|d: int|
                    2 <= d && #[trigger] divides(d, r0 as int) && #[trigger] divides(
                        d,
                        r1 as int,
                    ) ==> divides(d, FIELD_MODULUS as int) && divides(d, v as int),
            decreases r1,
        {
            let q: u64 = r0 / r1;
            let r2: u64 = r0 % r1;
            let qm: u64 = mul_mod(q % FIELD_MODULUS, s1);
            let s2: u64 = (s0 + (FIELD_MODULUS - qm)) % FIELD_MODULUS;
            proof {
                lemma_fundamental_div_mod(r0 as int, r1 as int);
                lemma_mul_mod_noop_left(q as int, s1 as int, FIELD_MODULUS as int);
                lemma_inv_step(
                    FIELD_MODULUS as int,
                    v as int,
                    r0 as int,
                    r1 as int,
                    s0 as int,
                    s1 as int,
                    q as int,
                    r2 as int,
                    qm as int,
                    s2 as int,
                );
                assert forall|d: int|
                    2 <= d && #[trigger] divides(d, r1 as int) && #[trigger] divides(
                        d,
                        r2 as int,
                    ) implies divides(d, FIELD_MODULUS as int) && divides(d, v as int) by {
                    lemma_fundamental_div_mod(r1 as int, d);
                    lemma_fundamental_div_mod(r2 as int, d);
                    let k1 = (r1 as int) / d;
                    let k2 = (r2 as int) / d;
                    assert(r0 as int == ((q as int) * k1 + k2) * d) by (nonlinear_arith)
                        requires
                            r0 as int == (q as int) * (r1 as int) + (r2 as int),
                            r1 as int == d * k1,
                            r2 as int == d * k2,
                    ;
                    lemma_mod_multiples_basic((q as int) * k1 + k2, d);
                    assert(divides(d, r0 as int));
                }
            }
            r0 = r1;
            r1 = r2;
            s0 = s1;
            s1 = s2;
        }
        if r1 == 1 {
            proof {
                lemma_small_mod(1nat, FIELD_MODULUS as nat);
                assert(mul_inverse_of(s1 as int, v as int));
            }
            Some(Scalar { value: s1 })
        } else {
            proof {
                assert(divides(r0 as int, r0 as int)) by {
                    lemma_mod_self_0(r0 as int);
                }
                assert(divides(r0 as int, r1 as int)) by {
                    lemma_small_mod(0nat, r0 as nat);
                }
                assert(divides(r0 as int, FIELD_MODULUS as int) && divides(r0 as int, v as int));
                assert forall|w: int| !mul_inverse_of(w, self.value as int) by {
                    lemma_common_divisor_blocks_inverse(r0 as int, v as int, w);
                }
            }
            None
        }
    }

    /// Encode a signed 64-bit integer into the field.
    pub fn from_i64(x: i64) -> (r: Scalar)
        ensures
            r.wf(),
            r.value == field_encode(x as int),
    {
        Self::from_i128(x as i128)
    }

    /// Encode a signed 128-bit integer into the field.
    pub fn from_i128(x: i128) -> (r: Scalar)
        ensures
            r.wf(),
            r.value == field_encode(x as int),
    {
        if x >= 0 {
            let m: u128 = (x as u128) % (FIELD_MODULUS as u128);
            Scalar { value: m as u64 }
        } else {
            let y: u128 = ((-(x + 1)) as u128) + 1;
            let m: u128 = y % (FIELD_MODULUS as u128);
            proof {
                let p = FIELD_MODULUS as int;
                lemma_fundamental_div_mod(y as int, p);
                let q = (y as int) / p;
                assert(x == p * (-q) + (-(m as int)));
                lemma_mod_multiples_vanish(-q, -(m as int), p);
                if m != 0 {
                    lemma_mod_add_multiples_vanish(-(m as int), p);
                    lemma_small_mod((p - m) as nat, p as nat);
                }
            }
            if m == 0 {
                Scalar { value: 0 }
            } else {
                Scalar { value: FIELD_MODULUS - (m as u64) }
            }
        }
    }
}


/// One canonical modular product.
fn mul_mod(a: u64, b: u64) -> (r: u64)
    requires
        a < FIELD_MODULUS,
        b < FIELD_MODULUS,
    ensures
        r == ((a as int) * (b as int)) % (FIELD_MODULUS as int),
        r < FIELD_MODULUS,
{
    proof {
        assert((a as int) * (b as int) < (FIELD_MODULUS as int) * (FIELD_MODULUS as int))
            by (nonlinear_arith)
            requires
                a < FIELD_MODULUS,
                b < FIELD_MODULUS,
        ;
    }
    let p: u128 = (a as u128) * (b as u128);
    let m: u128 = p % (FIELD_MODULUS as u128);
    m as u64
}

/// One step of the extended Euclidean algorithm keeps the coefficient
/// relation: if the old remainders are congruent to `s0 * v` and
/// `s1 * v`, the new remainder is congruent to `s2 * v`.
proof fn lemma_inv_step(
    p: int,
    v: int,
    r0: int,
    r1: int,
    s0: int,
    s1: int,
    q: int,
    r2: int,
    qm: int,
    s2: int,
)
    requires
        p > 1,
        0 <= s0 < p,
        0 <= s1 < p,
        r0 % p == (s0 * v) % p,
        r1 % p == (s1 * v) % p,
        r2 == r0 - q * r1,
        qm == (q * s1) % p,
        s2 == (s0 + p - qm) % p,
    ensures
        r2 % p == (s2 * v) % p,
{
    lemma_mul_mod_noop_right(q, r1, p);
    assert((q * (r1 % p)) % p == (q * ((s1 * v) % p)) % p);
    lemma_mul_mod_noop_right(q, s1 * v, p);
    lemma_mul_is_associative(q, s1, v);
    assert((q * r1) % p == ((q * s1) * v) % p);

    lemma_sub_mod_noop(r0, q * r1, p);
    lemma_sub_mod_noop(s0 * v, (q * s1) * v, p);
    lemma_mul_is_distributive_sub_other_way(v, s0, q * s1);
    assert(r2 % p == ((s0 - q * s1) * v) % p);

    lemma_mod_add_multiples_vanish(s0 - qm, p);
    assert(s2 == (s0 - qm) % p);
    lemma_mul_mod_noop_left(s0 - qm, v, p);
    assert((s2 * v) % p == ((s0 - qm) * v) % p);
    lemma_mul_is_distributive_sub_other_way(v, s0, qm);
    lemma_mul_mod_noop_left(q * s1, v, p);
    lemma_sub_mod_noop(s0 * v, qm * v, p);
    assert((qm * v) % p == ((q * s1) * v) % p);
    assert(((s0 - qm) * v) % p == ((s0 - q * s1) * v) % p);
}

} // verus!

