//! Evaluation domains: the subgroups of a field whose order is a power of two, and the passage
//! from the values of a polynomial on one of them to its values on a larger one.

use vstd::arithmetic::div_mod::*;
use vstd::arithmetic::power::*;
use vstd::arithmetic::power2::*;
use vstd::prelude::*;

use crate::field::{Fp, One, Zero};
use ark_ff::PrimeField;
use ark_poly::{EvaluationDomain, UVPolynomial};

verus! {

/// What each value of a sequence stands for.
pub open spec fn views<T: View>(s: Seq<T>) -> Seq<T::V> {
    Seq::new(s.len(), |i: int| s[i]@)
}

/// An evaluation domain: the subgroup of the given order.
#[derive(Clone, Copy, Debug, PartialEq, Eq, Structural)]
pub struct Radix2EvaluationDomain {
    /// The order of the subgroup.
    pub size: u64,
}

/// The domains that a circuit is worked on: one element for each row, and the larger domain on
/// which its polynomials are multiplied.
#[derive(Clone, Copy, Debug, PartialEq, Eq, Structural)]
pub struct EvaluationDomains {
    /// The domain of the rows.
    pub d1: Radix2EvaluationDomain,
    /// The larger domain.
    pub d8: Radix2EvaluationDomain,
}

impl EvaluationDomains {
    /// Both are domains of the field `F` and the second is not smaller than the first.
    pub open spec fn wf<F: FftField>(self) -> bool {
        &&& F::is_domain_size(self.d1.size as nat)
        &&& F::is_domain_size(self.d8.size as nat)
        &&& self.d1.size <= self.d8.size <= usize::MAX
    }
}

/// A polynomial given by its values on a domain.
#[derive(Debug)]
pub struct Evaluations<F> {
    /// The value at each element, in the order of the powers of the domain's generator.
    pub evals: Vec<F>,
    /// The domain.
    pub domain: Radix2EvaluationDomain,
}

/// A field with evaluation domains.
pub trait FftField: Zero + One + Copy {
    /// The field has a domain of this size.
    spec fn is_domain_size(n: nat) -> bool;

    /// The polynomial of least degree that takes the given values on the domain of as many
    /// elements takes the values `out` on the domain of as many elements as `out`.
    spec fn extends(values: Seq<Self::V>, out: Seq<Self::V>) -> bool;

    /// The values on the domain of the given size of the polynomial of least degree that takes
    /// the given values on the domain of as many elements.
    fn extend(values: &Vec<Self>, size: usize) -> (r: Vec<Self>)
        requires
            Self::is_domain_size(values@.len()),
            Self::is_domain_size(size as nat),
            values@.len() <= size,
        ensures
            r@.len() == size,
            Self::extends(views(values@), views(r@)),
    ;

    /// Values on a domain extend to another in one way only.
    proof fn lemma_extends_once(values: Seq<Self::V>, a: Seq<Self::V>, b: Seq<Self::V>)
        requires
            Self::is_domain_size(values.len()),
            a.len() == b.len(),
            Self::extends(values, a),
            Self::extends(values, b),
        ensures
            a == b,
    ;
}

/// The power of a residue.
pub open spec fn residue_pow(b: nat, e: nat) -> nat {
    (pow(b as int, e) % (crate::field::modulus() as int)) as nat
}

/// A residue of multiplicative order two to the thirty-second.
pub open spec fn two_adic_root() -> nat {
    0x2bce74deac30ebda362120830561f81aea322bf2b7bb7584bdad6fabd87ea32fnat
}

/// The generator of the domain of size `n`.
pub open spec fn root_of_unity(n: nat) -> nat {
    residue_pow(two_adic_root(), 0x1_0000_0000nat / n)
}

/// The element of index `i` of the domain of size `n`.
pub open spec fn domain_element(n: nat, i: nat) -> nat {
    residue_pow(root_of_unity(n), i)
}

/// The value at `x` of the polynomial with the given coefficients, that of degree zero first.
pub open spec fn poly_value(coeffs: Seq<nat>, x: nat) -> nat
    decreases coeffs.len(),
{
    if coeffs.len() == 0 {
        0
    } else {
        crate::field::residue_add(
            coeffs[0],
            crate::field::residue_mul(x, poly_value(coeffs.drop_first(), x)),
        )
    }
}

/// A polynomial takes the given values on the domain of as many elements.
pub open spec fn takes_values(coeffs: Seq<nat>, values: Seq<nat>) -> bool {
    forall|i: int|
        0 <= i < values.len() ==> #[trigger] values[i] == poly_value(
            coeffs,
            domain_element(values.len(), i as nat),
        )
}

/// A polynomial of no more coefficients than there are values takes the given values on the domain
/// of as many elements, and the values `out` on the domain of as many elements as `out`.
pub open spec fn fp_extends(values: Seq<nat>, out: Seq<nat>) -> bool {
    exists|coeffs: Seq<nat>|
        {
            &&& coeffs.len() <= values.len()
            &&& #[trigger] takes_values(coeffs, values)
            &&& takes_values(coeffs, out)
        }
}

/// A power of two that divides the order of the multiplicative group of `Fp`.
pub open spec fn is_fp_domain_size(n: nat) -> bool {
    is_pow2(n as int) && n <= 0x1_0000_0000
}

/// What limbs stand for, value by value.
pub open spec fn limbs_values(s: Seq<[u64; 4]>) -> Seq<nat> {
    Seq::new(s.len(), |i: int| crate::field::limbs_value(s[i]))
}

/// All limbs are those of least residues.
pub open spec fn all_canonical(s: Seq<[u64; 4]>) -> bool {
    forall|i: int|
        0 <= i < s.len() ==> crate::field::limbs_value(#[trigger] s[i]) < crate::field::modulus()
}

/// `Evaluations::interpolate` of `ark_poly`, over the field `Fq` of `ark_pallas`, on the
/// `Radix2EvaluationDomain` of as many elements as there are values: the coefficients, without
/// leading zeros, of a polynomial of degree below the size of the domain that takes the given
/// values on it.
#[verifier::external_body]
fn interpolate_limbs(values: Vec<[u64; 4]>) -> (r: Vec<[u64; 4]>)
    requires
        is_fp_domain_size(values@.len()),
        all_canonical(values@),
    ensures
        r@.len() <= values@.len(),
        all_canonical(r@),
        takes_values(limbs_values(r@), limbs_values(values@)),
{
    let domain = ark_poly::Radix2EvaluationDomain::<ark_pallas::Fq>::new(values.len()).unwrap();
    let evals = values.into_iter().map(|l|
        ark_pallas::Fq::from_repr(ark_ff::BigInteger256(l)).unwrap()).collect();
    let poly = ark_poly::Evaluations::from_vec_and_domain(evals, domain).interpolate();
    poly.coeffs.into_iter().map(|c| c.into_repr().0).collect()
}

/// `DensePolynomial::evaluate_over_domain` of `ark_poly`, over the field `Fq` of `ark_pallas`,
/// for a polynomial of degree below the size of the domain: its values on the
/// `Radix2EvaluationDomain` of the given size.
#[verifier::external_body]
fn evaluate_limbs(coeffs: Vec<[u64; 4]>, size: usize) -> (r: Vec<[u64; 4]>)
    requires
        is_fp_domain_size(size as nat),
        coeffs@.len() <= size,
        all_canonical(coeffs@),
    ensures
        r@.len() == size,
        all_canonical(r@),
        takes_values(limbs_values(coeffs@), limbs_values(r@)),
{
    let domain = ark_poly::Radix2EvaluationDomain::<ark_pallas::Fq>::new(size).unwrap();
    let coeffs = coeffs.into_iter().map(|l|
        ark_pallas::Fq::from_repr(ark_ff::BigInteger256(l)).unwrap()).collect();
    let poly = ark_poly::univariate::DensePolynomial::from_coefficients_vec(coeffs);
    poly.evaluate_over_domain(domain).evals.into_iter().map(|x| x.into_repr().0).collect()
}

impl FftField for Fp {
    open spec fn is_domain_size(n: nat) -> bool {
        is_fp_domain_size(n)
    }

    open spec fn extends(values: Seq<nat>, out: Seq<nat>) -> bool {
        fp_extends(values, out)
    }

    proof fn lemma_extends_once(values: Seq<nat>, a: Seq<nat>, b: Seq<nat>) {
        crate::interpolation::lemma_extension_unique(values, a, b);
    }

    fn extend(values: &Vec<Self>, size: usize) -> (r: Vec<Self>) {
        let mut limbs: Vec<[u64; 4]> = Vec::new();
        for i in 0..values.len()
            invariant
                limbs@.len() == i,
                all_canonical(limbs@),
                forall|j: int|
                    0 <= j < i ==> crate::field::limbs_value(#[trigger] limbs@[j]) == values@[j]@,
        {
            limbs.push(values[i].limbs());
        }
        assert(limbs_values(limbs@) =~= views(values@));
        let coeffs = interpolate_limbs(limbs);
        let ghost c = limbs_values(coeffs@);
        let out = evaluate_limbs(coeffs, size);
        let mut r: Vec<Self> = Vec::new();
        for i in 0..out.len()
            invariant
                all_canonical(out@),
                r@.len() == i,
                forall|j: int|
                    0 <= j < i ==> crate::field::limbs_value(out@[j]) == (#[trigger] r@[j])@,
        {
            match Fp::new(out[i]) {
                Some(x) => {
                    r.push(x);
                },
                None => {
                    assert(false);
                },
            }
        }
        assert(limbs_values(out@) =~= views(r@));
        assert(takes_values(c, views(values@)));
        r
    }
}

/// The domain of size `n` is a subgroup of the domain of size `m`: every `m / n`-th element of the
/// larger domain is an element of the smaller one, in the same order.
pub proof fn lemma_domain_nesting(n: nat, m: nat, i: nat)
    requires
        is_fp_domain_size(n),
        is_fp_domain_size(m),
        n <= m,
    ensures
        m % n == 0,
        domain_element(m, (m / n) * i) == domain_element(n, i),
{
    broadcast use is_pow2_equiv;

    let a = choose|a: nat| #[trigger] pow(2, a) == n as int;
    let b = choose|b: nat| #[trigger] pow(2, b) == m as int;
    lemma_pow_positive(2, a);
    lemma_exponents(n, m, a, b);
    let q = 0x1_0000_0000nat / m;
    let k = m / n;
    let p = crate::field::modulus() as int;
    let g = two_adic_root() as int;
    lemma_pow_mod_noop(pow(g, q), k * i, p);
    lemma_pow_multiplies(g, q, k * i);
    lemma_pow_mod_noop(pow(g, 0x1_0000_0000nat / n), i, p);
    lemma_pow_multiplies(g, 0x1_0000_0000nat / n, i);
    assert(q * (k * i) == (q * k) * i) by (nonlinear_arith);
}

/// The quotients of three powers of two, the largest of which is two to the thirty-second.
proof fn lemma_exponents(n: nat, m: nat, a: nat, b: nat)
    requires
        pow(2, a) == n,
        pow(2, b) == m,
        0 < n <= m <= 0x1_0000_0000,
    ensures
        m % n == 0,
        (0x1_0000_0000nat / m) * (m / n) == 0x1_0000_0000nat / n,
{
    lemma_pow2(a);
    lemma_pow2(b);
    lemma2_to64();
    if a > b {
        lemma_pow2_strictly_increases(b, a);
    }
    if b > 32 {
        lemma_pow2_strictly_increases(32, b);
    }
    lemma_pow2_adds(a, (b - a) as nat);
    lemma_pow2_adds(b, (32 - b) as nat);
    lemma_pow2_adds(a, (32 - a) as nat);
    lemma_pow2_adds((b - a) as nat, (32 - b) as nat);
    let x = pow2((b - a) as nat);
    let y = pow2((32 - b) as nat);
    lemma_quotient(n, x);
    lemma_quotient(m, y);
    lemma_quotient(n, pow2((32 - a) as nat));
    assert(y * x == x * y) by (nonlinear_arith);
}

/// Dividing a product by one of its factors.
proof fn lemma_quotient(n: nat, x: nat)
    requires
        n > 0,
    ensures
        (n * x) / n == x,
        (n * x) % n == 0,
{
    lemma_div_multiples_vanish(x as int, n as int);
    lemma_mod_multiples_basic(x as int, n as int);
    assert(n * x == x * n) by (nonlinear_arith);
}

/// A polynomial that is extended to a larger domain keeps its values on the smaller one: they
/// are every `m / n`-th of the new values.
pub proof fn lemma_extension_keeps_values(values: Seq<nat>, out: Seq<nat>, i: int)
    requires
        is_fp_domain_size(values.len()),
        is_fp_domain_size(out.len()),
        values.len() <= out.len(),
        fp_extends(values, out),
        0 <= i < values.len(),
    ensures
        0 <= (out.len() / values.len()) * i < out.len(),
        out[(out.len() / values.len()) * i] == values[i],
{
    let n = values.len();
    let m = out.len();
    let k = m / n;
    let c = choose|c: Seq<nat>|
        {
            &&& c.len() <= values.len()
            &&& #[trigger] takes_values(c, values)
            &&& takes_values(c, out)
        };
    lemma_domain_nesting(n, m, i as nat);
    lemma_fundamental_div_mod(m as int, n as int);
    assert(0 <= k * i < n * k) by (nonlinear_arith)
        requires
            0 <= i < n,
            n * k == m,
            0 < n <= m,
    ;
    assert(values[i] == poly_value(c, domain_element(n, i as nat)));
    assert(out[k * i] == poly_value(c, domain_element(m, (k * i) as nat)));
}

/// What values stand for, one by one.
pub proof fn lemma_views<T: View>(s: Seq<T>, i: int)
    ensures
        views(s).len() == s.len(),
        0 <= i < s.len() ==> views(s)[i] == s[i]@,
{
}

/// The elements of a domain are the powers of its generator, which is a power of the root of order
/// two to the thirty-second.
pub proof fn lemma_domain_element(n: nat, i: nat)
    ensures
        domain_element(n, i) as int == pow(
            pow(0x2bce74deac30ebda362120830561f81aea322bf2b7bb7584bdad6fabd87ea32fint, 0x1_0000_0000nat / n)
                % 0x40000000000000000000000000000000224698fc094cf91b992d30ed00000001int,
            i,
        ) % 0x40000000000000000000000000000000224698fc094cf91b992d30ed00000001int,
{
    lemma_pow_range(two_adic_root() as int, 0x1_0000_0000nat / n);
    lemma_pow_range(root_of_unity(n) as int, i);
}

/// The remainder of a power by the order of the field is not negative.
proof fn lemma_pow_range(b: int, e: nat)
    ensures
        0 <= pow(b, e) % (crate::field::modulus() as int),
{
    lemma_mod_bound(pow(b, e), crate::field::modulus() as int);
}

/// Every coefficient of a polynomial counts in its value: this is the last of the residues that
/// start at zero and, from the highest degree down, are multiplied by the point before the
/// coefficient is added.
pub proof fn lemma_every_coefficient_counts(coeffs: Seq<nat>, x: nat)
    ensures
        exists|partial: Seq<nat>|
            {
                &&& #[trigger] partial.len() == coeffs.len() + 1
                &&& partial[coeffs.len() as int] == 0
                &&& forall|i: int|
                    0 <= i < coeffs.len() ==> #[trigger] partial[i] == (coeffs[i] + (x * partial[i
                        + 1]) % 0x40000000000000000000000000000000224698fc094cf91b992d30ed00000001nat)
                        % 0x40000000000000000000000000000000224698fc094cf91b992d30ed00000001nat
                &&& poly_value(coeffs, x) == partial[0]
            },
{
    let n = coeffs.len();
    let partial = Seq::new(n + 1, |i: int| poly_value(coeffs.skip(i), x));
    assert(coeffs.skip(0) =~= coeffs);
    assert(coeffs.skip(n as int).len() == 0);
    assert forall|i: int| 0 <= i < n implies #[trigger] partial[i] == (coeffs[i] + (x * partial[i
        + 1]) % 0x40000000000000000000000000000000224698fc094cf91b992d30ed00000001nat)
        % 0x40000000000000000000000000000000224698fc094cf91b992d30ed00000001nat by {
        assert(coeffs.skip(i).drop_first() =~= coeffs.skip(i + 1));
        assert(coeffs.skip(i)[0] == coeffs[i]);
    }
    assert(partial.len() == n + 1);
}

/// Values and what they extend to are both values of one polynomial, with no more coefficients than
/// there are values, at the elements of the two domains in order.
pub proof fn lemma_extension_is_polynomial(values: Seq<nat>, out: Seq<nat>)
    requires
        <Fp as FftField>::extends(values, out),
    ensures
        exists|coeffs: Seq<nat>|
            {
                &&& #[trigger] coeffs.len() <= values.len()
                &&& forall|i: int|
                    0 <= i < values.len() ==> #[trigger] values[i] == poly_value(
                        coeffs,
                        domain_element(values.len(), i as nat),
                    )
                &&& forall|j: int|
                    0 <= j < out.len() ==> #[trigger] out[j] == poly_value(
                        coeffs,
                        domain_element(out.len(), j as nat),
                    )
            },
{
    let coeffs = choose|c: Seq<nat>|
        {
            &&& c.len() <= values.len()
            &&& #[trigger] takes_values(c, values)
            &&& takes_values(c, out)
        };
    assert(coeffs.len() <= values.len());
}

} // verus!
