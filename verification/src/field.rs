//! The arithmetic that gates and lookups are stated over, and the prime field that provides it.

use vstd::prelude::*;

use vstd::arithmetic::div_mod::*;
use vstd::arithmetic::power2::*;

use ark_ff::PrimeField;

verus! {

/// A value that can be copied without changing what it stands for.
pub trait Element: View + Sized {
    /// A second value that stands for the same thing.
    fn duplicate(&self) -> (r: Self)
        ensures
            r@ == self@,
    ;
}

/// Values that can be added up, starting from zero.
pub trait Zero: Element {
    /// The neutral value of addition.
    spec fn zero_view() -> Self::V;

    /// What the sum of two values stands for.
    spec fn add_view(a: Self::V, b: Self::V) -> Self::V;

    /// Zero.
    fn zero() -> (r: Self)
        ensures
            r@ == Self::zero_view(),
    ;

    /// The sum of two values.
    fn plus(self, other: Self) -> (r: Self)
        ensures
            r@ == Self::add_view(self@, other@),
    ;
}

/// Values that can be multiplied together, starting from one.
pub trait One: Element {
    /// The neutral value of multiplication.
    spec fn one_view() -> Self::V;

    /// What the product of two values stands for.
    spec fn mul_view(a: Self::V, b: Self::V) -> Self::V;

    /// One.
    fn one() -> (r: Self)
        ensures
            r@ == Self::one_view(),
    ;

    /// The product of two values.
    fn times(self, other: Self) -> (r: Self)
        ensures
            r@ == Self::mul_view(self@, other@),
    ;
}

/// Values that can be multiplied by a coefficient of type `F`.
pub trait Scale<F: View>: Zero {
    /// What a value multiplied by a coefficient stands for.
    spec fn scale_view(a: Self::V, c: F::V) -> Self::V;

    /// The value multiplied by the coefficient `c`.
    fn scale(self, c: F) -> (r: Self)
        ensures
            r@ == Self::scale_view(self@, c@),
    ;
}

/// Values that the arithmetic of a circuit is carried out on.
pub trait ArithOps: Zero + One {
    /// What a power of two stands for.
    spec fn two_pow_view(k: nat) -> Self::V;

    /// Two to the power `k`.
    fn two_pow(k: u32) -> (r: Self)
        ensures
            r@ == Self::two_pow_view(k as nat),
    ;
}

/// The order of the field `Fp`.
pub open spec fn modulus() -> nat {
    0x40000000000000000000000000000000224698fc094cf91b992d30ed00000001nat
}

/// The number whose little-endian 64-bit limbs are `limbs`.
pub open spec fn limbs_value(limbs: [u64; 4]) -> nat {
    (limbs[0] + 0x1_0000_0000_0000_0000 * limbs[1] + 0x1_0000_0000_0000_0000_0000_0000_0000_0000
        * limbs[2] + 0x1_0000_0000_0000_0000_0000_0000_0000_0000_0000_0000_0000_0000
        * limbs[3]) as nat
}

/// The sum of two residues.
pub open spec fn residue_add(a: nat, b: nat) -> nat {
    (a + b) % modulus()
}

/// The product of two residues.
pub open spec fn residue_mul(a: nat, b: nat) -> nat {
    (a * b) % modulus()
}

/// An element of the prime field of order `modulus()`, the base field of the Pallas curve.
#[derive(Clone, Copy, Debug, PartialEq, Eq)]
pub struct Fp {
    limbs: [u64; 4],
}

impl View for Fp {
    type V = nat;

    closed spec fn view(&self) -> nat {
        limbs_value(self.limbs)
    }
}

impl Fp {
    /// A field element is kept as the least residue of its class.
    #[verifier::type_invariant]
    spec fn canonical(self) -> bool {
        limbs_value(self.limbs) < modulus()
    }
}

/// `Fp256::add` of `ark_ff`, for the field `Fq` of `ark_pallas`, on the limbs of least residues:
/// the sum modulo the order of the field.
#[verifier::external_body]
fn add_limbs(a: [u64; 4], b: [u64; 4]) -> (r: [u64; 4])
    requires
        limbs_value(a) < modulus(),
        limbs_value(b) < modulus(),
    ensures
        limbs_value(r) == residue_add(limbs_value(a), limbs_value(b)),
{
    let x = ark_pallas::Fq::from_repr(ark_ff::BigInteger256(a)).unwrap();
    let y = ark_pallas::Fq::from_repr(ark_ff::BigInteger256(b)).unwrap();
    (x + y).into_repr().0
}

/// `Fp256::mul` of `ark_ff`, for the field `Fq` of `ark_pallas`, on the limbs of least residues:
/// the product modulo the order of the field.
#[verifier::external_body]
fn mul_limbs(a: [u64; 4], b: [u64; 4]) -> (r: [u64; 4])
    requires
        limbs_value(a) < modulus(),
        limbs_value(b) < modulus(),
    ensures
        limbs_value(r) == residue_mul(limbs_value(a), limbs_value(b)),
{
    let x = ark_pallas::Fq::from_repr(ark_ff::BigInteger256(a)).unwrap();
    let y = ark_pallas::Fq::from_repr(ark_ff::BigInteger256(b)).unwrap();
    (x * y).into_repr().0
}

impl Fp {
    /// The field element with the given limbs, least significant first, if they are those of a
    /// least residue.
    pub fn new(limbs: [u64; 4]) -> (r: Option<Self>)
        ensures
            r is Some <==> limbs_value(limbs) < modulus(),
            r matches Some(x) ==> x@ == limbs_value(limbs),
    {
        let below = limbs[3] < 0x4000000000000000 || (limbs[3] == 0x4000000000000000 && limbs[2]
            == 0 && (limbs[1] < 0x224698fc094cf91b || (limbs[1] == 0x224698fc094cf91b && limbs[0]
            < 0x992d30ed00000001)));
        if below {
            Some(Fp { limbs })
        } else {
            None
        }
    }

    /// The limbs of the least residue, least significant first.
    pub fn limbs(&self) -> (r: [u64; 4])
        ensures
            limbs_value(r) == self@,
            self@ < modulus(),
    {
        proof {
            use_type_invariant(self);
        }
        self.limbs
    }

    /// The class of a small number.
    pub fn from_u64(n: u64) -> (r: Self)
        ensures
            r@ == n,
    {
        Fp { limbs: [n, 0, 0, 0] }
    }
}

impl Element for Fp {
    fn duplicate(&self) -> (r: Self) {
        *self
    }
}

impl Zero for Fp {
    open spec fn zero_view() -> nat {
        0
    }

    open spec fn add_view(a: nat, b: nat) -> nat {
        residue_add(a, b)
    }

    fn zero() -> (r: Self) {
        Fp::from_u64(0)
    }

    fn plus(self, other: Self) -> (r: Self) {
        proof {
            use_type_invariant(self);
            use_type_invariant(other);
        }
        Fp { limbs: add_limbs(self.limbs, other.limbs) }
    }
}

impl One for Fp {
    open spec fn one_view() -> nat {
        1
    }

    open spec fn mul_view(a: nat, b: nat) -> nat {
        residue_mul(a, b)
    }

    fn one() -> (r: Self) {
        Fp::from_u64(1)
    }

    fn times(self, other: Self) -> (r: Self) {
        proof {
            use_type_invariant(self);
            use_type_invariant(other);
        }
        Fp { limbs: mul_limbs(self.limbs, other.limbs) }
    }
}

impl Scale<Fp> for Fp {
    open spec fn scale_view(a: nat, c: nat) -> nat {
        residue_mul(a, c)
    }

    fn scale(self, c: Fp) -> (r: Self) {
        self.times(c)
    }
}

impl ArithOps for Fp {
    open spec fn two_pow_view(k: nat) -> nat {
        pow2(k) % modulus()
    }

    fn two_pow(k: u32) -> (r: Self) {
        let mut r = Fp::from_u64(1);
        proof {
            lemma2_to64();
            lemma_small_mod(1, modulus());
        }
        for i in 0..k
            invariant
                r@ == pow2(i as nat) % modulus(),
        {
            proof {
                lemma_pow2_unfold((i + 1) as nat);
                lemma_add_mod_noop(
                    pow2(i as nat) as int,
                    pow2(i as nat) as int,
                    modulus() as int,
                );
            }
            r = r.plus(r);
        }
        r
    }
}

/// The arithmetic of the field is that of the integers modulo its order.
pub proof fn lemma_field_arithmetic(a: nat, b: nat, k: nat)
    ensures
        modulus() == 0x40000000000000000000000000000000224698fc094cf91b992d30ed00000001nat,
        Fp::zero_view() == 0,
        Fp::one_view() == 1,
        Fp::add_view(a, b) == (a + b) % 0x40000000000000000000000000000000224698fc094cf91b992d30ed00000001nat,
        Fp::mul_view(a, b) == (a * b) % 0x40000000000000000000000000000000224698fc094cf91b992d30ed00000001nat,
        <Fp as Scale<Fp>>::scale_view(a, b) == (a * b) % 0x40000000000000000000000000000000224698fc094cf91b992d30ed00000001nat,
        Fp::two_pow_view(0) == 1,
        Fp::two_pow_view(k + 1) == Fp::add_view(Fp::two_pow_view(k), Fp::two_pow_view(k)),
        Fp::two_pow_view(k) == pow2(k) % 0x40000000000000000000000000000000224698fc094cf91b992d30ed00000001nat,
{
    lemma2_to64();
    lemma_small_mod(1, modulus());
    lemma_pow2_unfold(k + 1);
    lemma_add_mod_noop(pow2(k) as int, pow2(k) as int, modulus() as int);
}

/// The value of limbs, with the least significant first, is below the power of two with exponent
/// 256, and its digits to the base of two to the sixty-fourth are the limbs.
pub proof fn lemma_limbs(limbs: [u64; 4])
    ensures
        limbs_value(limbs) % 0x1_0000_0000_0000_0000nat == limbs[0],
        (limbs_value(limbs) / 0x1_0000_0000_0000_0000nat) % 0x1_0000_0000_0000_0000nat == limbs[1],
        (limbs_value(limbs) / 0x1_0000_0000_0000_0000_0000_0000_0000_0000nat)
            % 0x1_0000_0000_0000_0000nat == limbs[2],
        limbs_value(limbs) / 0x1_0000_0000_0000_0000_0000_0000_0000_0000_0000_0000_0000_0000nat
            == limbs[3],
{
}

} // verus!
