//! The scalar field of the curve BLS12-381. Its arithmetic, its evaluation
//! domains and interpolation over them are those of the arkworks crates.

use crate::domain::{is_least_domain_size, FftField};
use crate::field::{power, Field};
use crate::polynomial::eval;
use ark_ff::{BigInt, PrimeField};
use ark_poly::{EvaluationDomain, Evaluations, GeneralEvaluationDomain};
use ark_test_curves::bls12_381::Fr;
use vstd::arithmetic::div_mod::{lemma_fundamental_div_mod, lemma_fundamental_div_mod_converse};
use vstd::arithmetic::power2::{
    is_pow2, lemma2_to64, lemma_pow2_pos, lemma_pow2_strictly_increases, lemma_pow2_unfold, pow2,
};
use vstd::prelude::*;

verus! {

/// The order of the field, a prime of 255 bits.
pub open spec fn modulus() -> nat {
    0x73eda753_299d7d48_3339d808_09a1d805_53bda402_fffe5bfe_ffffffff_00000001nat
}

/// The number of values of one limb.
pub open spec fn limb_base() -> nat {
    0x1_0000_0000_0000_0000nat
}

/// The integer with the given limbs, least significant first.
pub open spec fn limbs_value(l0: u64, l1: u64, l2: u64, l3: u64) -> nat {
    l0 as nat + limb_base() * (l1 as nat + limb_base() * (l2 as nat + limb_base() * (l3 as nat)))
}

/// An element of the field: an integer below the modulus, kept as four
/// limbs of 64 bits, least significant first.
#[derive(Clone, Copy, Debug, PartialEq, Eq, Structural)]
pub struct Scalar {
    l0: u64,
    l1: u64,
    l2: u64,
    l3: u64,
}

impl Scalar {
    /// The integer that the element stands for.
    pub closed spec fn value(self) -> nat {
        limbs_value(self.l0, self.l1, self.l2, self.l3)
    }

    /// The element whose limbs are the base-2^64 digits of `v`.
    pub closed spec fn from_value(v: nat) -> Scalar {
        Scalar {
            l0: (v % limb_base()) as u64,
            l1: (v / limb_base() % limb_base()) as u64,
            l2: (v / limb_base() / limb_base() % limb_base()) as u64,
            l3: (v / limb_base() / limb_base() / limb_base() % limb_base()) as u64,
        }
    }

    /// Every element is kept reduced.
    #[verifier::type_invariant]
    pub closed spec fn canonical(self) -> bool {
        self.value() < modulus()
    }

    /// The element that stands for `x`.
    pub fn from_u64(x: u64) -> (r: Self)
        ensures
            r == Scalar::from_value(x as nat),
            r.value() == x,
    {
        proof {
            lemma_digits_of_limbs(x, 0, 0, 0);
        }
        Scalar { l0: x, l1: 0, l2: 0, l3: 0 }
    }

    /// The element with the given limbs, least significant first, or `None`
    /// where they stand for an integer that is not below the modulus.
    pub fn from_limbs(limbs: [u64; 4]) -> (r: Option<Self>)
        ensures
            match r {
                Some(s) => {
                    &&& s.value() == limbs_value(limbs[0], limbs[1], limbs[2], limbs[3])
                    &&& s.value() < modulus()
                    &&& s == Scalar::from_value(s.value())
                },
                None => limbs_value(limbs[0], limbs[1], limbs[2], limbs[3]) >= modulus(),
            },
    {
        let l0 = limbs[0];
        let l1 = limbs[1];
        let l2 = limbs[2];
        let l3 = limbs[3];
        let below_2 = l3 < MODULUS_LIMB_3 || (l3 == MODULUS_LIMB_3 && l2 < MODULUS_LIMB_2);
        let equal_2 = l3 == MODULUS_LIMB_3 && l2 == MODULUS_LIMB_2;
        let below_1 = below_2 || (equal_2 && l1 < MODULUS_LIMB_1);
        let equal_1 = equal_2 && l1 == MODULUS_LIMB_1;
        let below = below_1 || (equal_1 && l0 < MODULUS_LIMB_0);
        proof {
            lemma_modulus_limbs();
            let b = limb_base();
            let high_2 = l2 as nat + b * (l3 as nat);
            let high_1 = l1 as nat + b * high_2;
            let m_high_2 = MODULUS_LIMB_2 as nat + b * (MODULUS_LIMB_3 as nat);
            let m_high_1 = MODULUS_LIMB_1 as nat + b * m_high_2;
            lemma_compare_digits(l2 as nat, l3 as nat, MODULUS_LIMB_2 as nat, MODULUS_LIMB_3 as nat);
            lemma_compare_digits(l1 as nat, high_2, MODULUS_LIMB_1 as nat, m_high_2);
            lemma_compare_digits(l0 as nat, high_1, MODULUS_LIMB_0 as nat, m_high_1);
            assert(below <==> limbs_value(l0, l1, l2, l3) < modulus());
        }
        if below {
            proof {
                lemma_digits_of_limbs(l0, l1, l2, l3);
            }
            Some(Scalar { l0, l1, l2, l3 })
        } else {
            None
        }
    }

    /// The limbs of the element, least significant first.
    pub fn to_limbs(&self) -> (limbs: [u64; 4])
        ensures
            limbs_value(limbs[0], limbs[1], limbs[2], limbs[3]) == self.value(),
            self.value() < modulus(),
    {
        proof {
            use_type_invariant(self);
        }
        [self.l0, self.l1, self.l2, self.l3]
    }
}

/// The limbs of the modulus, least significant first.
pub const MODULUS_LIMB_0: u64 = 0xffff_ffff_0000_0001;

pub const MODULUS_LIMB_1: u64 = 0x53bd_a402_fffe_5bfe;

pub const MODULUS_LIMB_2: u64 = 0x3339_d808_09a1_d805;

pub const MODULUS_LIMB_3: u64 = 0x73ed_a753_299d_7d48;

/// The modulus is the integer that its four limbs stand for.
proof fn lemma_modulus_limbs()
    ensures
        modulus() == limbs_value(MODULUS_LIMB_0, MODULUS_LIMB_1, MODULUS_LIMB_2, MODULUS_LIMB_3),
{
}

/// Integers of two digits compare by the high digit first.
proof fn lemma_compare_digits(a_low: nat, a_high: nat, b_low: nat, b_high: nat)
    requires
        a_low < limb_base(),
        b_low < limb_base(),
    ensures
        a_low + limb_base() * a_high < b_low + limb_base() * b_high <==> a_high < b_high || (a_high
            == b_high && a_low < b_low),
        a_low + limb_base() * a_high == b_low + limb_base() * b_high <==> a_high == b_high && a_low
            == b_low,
{
}

/// The limbs of an element are the base-2^64 digits of its value.
proof fn lemma_digits_of_limbs(l0: u64, l1: u64, l2: u64, l3: u64)
    ensures
        ({
            let v = limbs_value(l0, l1, l2, l3);
            let b = limb_base();
            &&& v % b == l0
            &&& v / b % b == l1
            &&& v / b / b % b == l2
            &&& v / b / b / b % b == l3
        }),
{
    let b = limb_base() as int;
    let q2 = l3 as int;
    let q1 = l2 as int + b * q2;
    let q0 = l1 as int + b * q1;
    let v = l0 as int + b * q0;
    assert(v == limbs_value(l0, l1, l2, l3));
    lemma_fundamental_div_mod_converse(v, b, q0, l0 as int);
    lemma_fundamental_div_mod_converse(q0, b, q1, l1 as int);
    lemma_fundamental_div_mod_converse(q1, b, q2, l2 as int);
    lemma_fundamental_div_mod_converse(q2, b, 0, l3 as int);
}

/// An element is the one that its value gives back.
pub proof fn lemma_from_value_of_value(s: Scalar)
    ensures
        Scalar::from_value(s.value()) == s,
{
    lemma_digits_of_limbs(s.l0, s.l1, s.l2, s.l3);
}

/// An integer of up to 256 bits is the value of the element made from it.
pub proof fn lemma_value_of_from_value(v: nat)
    requires
        v < limb_base() * limb_base() * limb_base() * limb_base(),
    ensures
        Scalar::from_value(v).value() == v,
{
    let b = limb_base() as int;
    let q0 = v as int / b;
    let q1 = q0 / b;
    let q2 = q1 / b;
    lemma_fundamental_div_mod(v as int, b);
    lemma_fundamental_div_mod(q0, b);
    lemma_fundamental_div_mod(q1, b);
    lemma_fundamental_div_mod(q2, b);
    assert(0 <= q2 < b);
    assert(q2 % b == q2) by {
        lemma_fundamental_div_mod_converse(q2, b, 0, q2);
    }
}

/// Addition in `Fr`: the element that stands for the sum of the two
/// integers, reduced by the modulus.
#[verifier::external_body]
fn fr_add(a: Scalar, b: Scalar) -> (r: Scalar)
    requires
        a.canonical(),
        b.canonical(),
    ensures
        r == Scalar::from_value((a.value() + b.value()) % modulus()),
{
    let x = Fr::from_bigint(BigInt::new([a.l0, a.l1, a.l2, a.l3])).unwrap();
    let y = Fr::from_bigint(BigInt::new([b.l0, b.l1, b.l2, b.l3])).unwrap();
    let l = (x + y).into_bigint().0;
    Scalar { l0: l[0], l1: l[1], l2: l[2], l3: l[3] }
}

/// Subtraction in `Fr`: the element that stands for the difference of the
/// two integers, reduced by the modulus into the range from zero.
#[verifier::external_body]
fn fr_sub(a: Scalar, b: Scalar) -> (r: Scalar)
    requires
        a.canonical(),
        b.canonical(),
    ensures
        r == Scalar::from_value(((a.value() - b.value()) % (modulus() as int)) as nat),
{
    let x = Fr::from_bigint(BigInt::new([a.l0, a.l1, a.l2, a.l3])).unwrap();
    let y = Fr::from_bigint(BigInt::new([b.l0, b.l1, b.l2, b.l3])).unwrap();
    let l = (x - y).into_bigint().0;
    Scalar { l0: l[0], l1: l[1], l2: l[2], l3: l[3] }
}

/// Multiplication in `Fr`: the element that stands for the product of the
/// two integers, reduced by the modulus.
#[verifier::external_body]
fn fr_mul(a: Scalar, b: Scalar) -> (r: Scalar)
    requires
        a.canonical(),
        b.canonical(),
    ensures
        r == Scalar::from_value((a.value() * b.value()) % modulus()),
{
    let x = Fr::from_bigint(BigInt::new([a.l0, a.l1, a.l2, a.l3])).unwrap();
    let y = Fr::from_bigint(BigInt::new([b.l0, b.l1, b.l2, b.l3])).unwrap();
    let l = (x * y).into_bigint().0;
    Scalar { l0: l[0], l1: l[1], l2: l[2], l3: l[3] }
}

/// The value of `group_gen`, the generator of the `GeneralEvaluationDomain`
/// of `size` points over `Fr`: a root of unity of that order.
pub uninterp spec fn fr_domain_generator(size: nat) -> nat;

/// `GeneralEvaluationDomain::new` and `size`: the size of the domain made
/// for `min_size` coefficients is the least constructible size that is
/// large enough, and no domain is made where there is none. Above half the
/// range of `usize` the search for a size overflows: such a request is left
/// out.
#[verifier::external_body]
fn fr_domain_size(min_size: usize) -> (r: Option<usize>)
    requires
        min_size <= usize::MAX / 2 + 1,
    ensures
        match r {
            Some(size) => {
                &&& Scalar::constructible(size as nat)
                &&& size >= min_size
                &&& forall|t: nat| Scalar::constructible(t) && t >= min_size ==> size <= t
            },
            None => forall|t: nat| Scalar::constructible(t) && t <= usize::MAX ==> t < min_size,
        },
{
    GeneralEvaluationDomain::<Fr>::new(min_size).map(|domain| domain.size())
}

/// `GeneralEvaluationDomain::elements`: the domain of `size` points hands
/// out `size` elements, which are the powers of its generator from the
/// multiplicative identity on, each the one before times the generator.
#[verifier::external_body]
fn fr_domain_elements(size: usize) -> (points: Vec<Scalar>)
    requires
        Scalar::constructible(size as nat),
    ensures
        points@.len() == size,
        forall|i: int|
            0 <= i < size ==> #[trigger] points@[i] == power(
                Scalar::from_value(fr_domain_generator(size as nat)),
                i as nat,
            ),
{
    let domain = GeneralEvaluationDomain::<Fr>::new(size).unwrap();
    let to_scalar = |e: Fr| {
        let l = e.into_bigint().0;
        Scalar { l0: l[0], l1: l[1], l2: l[2], l3: l[3] }
    };
    domain.elements().map(to_scalar).collect()
}

/// `Evaluations::interpolate` over the `GeneralEvaluationDomain` of
/// `values.len()` points: the coefficients, without leading zeros, of the
/// polynomial of degree below `values.len()` whose value at each element of
/// the domain, a power of the generator, is the entry of `values` at the
/// same place. Every `Scalar` is reduced, so each entry is taken as it is.
#[verifier::external_body]
fn fr_interpolate(values: &Vec<Scalar>) -> (coeffs: Vec<Scalar>)
    requires
        Scalar::constructible(values@.len()),
    ensures
        coeffs@.len() <= values@.len(),
        coeffs@.len() > 0 ==> coeffs@.last() != Scalar::from_value(0),
        forall|i: int|
            0 <= i < values@.len() ==> eval(
                coeffs@,
                power(Scalar::from_value(fr_domain_generator(values@.len())), i as nat),
            ) == #[trigger] values@[i],
{
    let domain = GeneralEvaluationDomain::<Fr>::new(values.len()).unwrap();
    let to_fr = |s: &Scalar| Fr::from_bigint(BigInt::new([s.l0, s.l1, s.l2, s.l3])).unwrap();
    let evals: Vec<Fr> = values.iter().map(to_fr).collect();
    let to_scalar = |c: &Fr| {
        let l = c.into_bigint().0;
        Scalar { l0: l[0], l1: l[1], l2: l[2], l3: l[3] }
    };
    let poly = Evaluations::from_vec_and_domain(evals, domain).interpolate();
    poly.coeffs.iter().map(to_scalar).collect()
}

impl Field for Scalar {
    open spec fn spec_zero() -> Scalar {
        Scalar::from_value(0)
    }

    open spec fn spec_one() -> Scalar {
        Scalar::from_value(1)
    }

    open spec fn spec_plus(self, rhs: Scalar) -> Scalar {
        Scalar::from_value((self.value() + rhs.value()) % modulus())
    }

    open spec fn spec_minus(self, rhs: Scalar) -> Scalar {
        Scalar::from_value(((self.value() - rhs.value()) % (modulus() as int)) as nat)
    }

    open spec fn spec_times(self, rhs: Scalar) -> Scalar {
        Scalar::from_value((self.value() * rhs.value()) % modulus())
    }

    proof fn lemma_zero_plus_zero() {
        lemma_value_of_from_value(0);
    }

    proof fn lemma_zero_times_zero() {
        lemma_value_of_from_value(0);
    }

    fn zero() -> (r: Scalar) {
        Scalar::from_u64(0)
    }

    fn one() -> (r: Scalar) {
        Scalar::from_u64(1)
    }

    fn plus(self, rhs: Scalar) -> (r: Scalar) {
        proof {
            use_type_invariant(&self);
            use_type_invariant(&rhs);
        }
        fr_add(self, rhs)
    }

    fn minus(self, rhs: Scalar) -> (r: Scalar) {
        proof {
            use_type_invariant(&self);
            use_type_invariant(&rhs);
        }
        fr_sub(self, rhs)
    }

    fn times(self, rhs: Scalar) -> (r: Scalar) {
        proof {
            use_type_invariant(&self);
            use_type_invariant(&rhs);
        }
        fr_mul(self, rhs)
    }

    fn equals(self, rhs: Scalar) -> (b: bool) {
        self == rhs
    }
}

/// No power of two lies strictly between two neighbouring powers of two.
proof fn lemma_pow2_gap(t: int, k: nat)
    requires
        is_pow2(t),
        t > pow2(k),
    ensures
        t >= pow2(k + 1),
    decreases k,
{
    reveal(is_pow2);
    lemma_pow2_unfold(k + 1);
    lemma_pow2_pos(k);
    if k > 0 {
        lemma_pow2_unfold(k);
        lemma_pow2_gap(t / 2, (k - 1) as nat);
    } else {
        lemma2_to64();
    }
}

/// Every power of two is recognised as one.
proof fn lemma_pow2_is_pow2(k: nat)
    ensures
        is_pow2(pow2(k) as int),
    decreases k,
{
    reveal(is_pow2);
    lemma_pow2_pos(k);
    if k == 0 {
        lemma2_to64();
    } else {
        lemma_pow2_unfold(k);
        lemma_pow2_is_pow2((k - 1) as nat);
    }
}

/// Up to 2^32 points the domain of this field is the radix-2 domain of the
/// next power of two: for a minimum above 2^(k-1) and up to 2^k, the least
/// constructible size is 2^k.
pub proof fn lemma_least_size_is_next_power_of_two(min_size: nat, k: nat)
    requires
        k <= 32,
        pow2(k) <= usize::MAX,
        min_size <= pow2(k),
        k > 0 ==> pow2((k - 1) as nat) < min_size,
    ensures
        is_least_domain_size::<Scalar>(min_size, pow2(k)),
{
    lemma2_to64();
    lemma_pow2_is_pow2(k);
    if k < 32 {
        lemma_pow2_strictly_increases(k, 32);
    }
    assert forall|t: nat| Scalar::constructible(t) && t >= min_size implies pow2(k) <= t by {
        if is_pow2(t as int) {
            if k > 0 {
                lemma_pow2_unfold(k);
                lemma_pow2_gap(t as int, (k - 1) as nat);
            } else {
                reveal(is_pow2);
            }
        }
    }
}

impl FftField for Scalar {
    /// The sizes of the domains that `GeneralEvaluationDomain` makes over
    /// `Fr`: the powers of two up to 2^32, which take a radix-2 domain, and
    /// beyond them 3 * 2^31 and 3 * 2^32, which take a mixed-radix domain.
    open spec fn constructible(size: nat) -> bool {
        ||| is_pow2(size as int) && size <= 0x1_0000_0000
        ||| size == 0x1_8000_0000
        ||| size == 0x3_0000_0000
    }

    /// The powers of the domain's generator, from the multiplicative
    /// identity on.
    open spec fn domain_point(size: nat, index: nat) -> Scalar {
        power(Scalar::from_value(fr_domain_generator(size)), index)
    }

    fn domain_size(min_size: usize) -> (r: Option<usize>) {
        // Above half the range of `usize` the field has no domain, and the
        // search of `GeneralEvaluationDomain::new` for a size would overflow.
        if min_size > usize::MAX / 2 + 1 {
            proof {
                assert forall|t: nat|
                    Scalar::constructible(t) && t <= usize::MAX implies t < min_size by {
                    if is_pow2(t as int) && t > 0x8000_0000 {
                        lemma2_to64();
                        lemma_pow2_gap(t as int, 31);
                    }
                }
            }
            None
        } else {
            fr_domain_size(min_size)
        }
    }

    fn domain_points(size: usize) -> (points: Vec<Scalar>) {
        fr_domain_elements(size)
    }

    fn interpolate(values: &Vec<Scalar>) -> (coeffs: Vec<Scalar>) {
        fr_interpolate(values)
    }
}

} // verus!
