//! Byte encodings.

use vstd::arithmetic::div_mod::*;
use vstd::arithmetic::power::*;
use vstd::prelude::*;

use crate::field::Fp;
use ark_ff::{PrimeField, ToBytes as ArkToBytes};

verus! {

/// The `n` low bytes of a number, least significant first.
pub open spec fn le_bytes(v: nat, n: nat) -> Seq<u8>
    decreases n,
{
    if n == 0 {
        Seq::empty()
    } else {
        seq![(v % 256) as u8] + le_bytes(v / 256, (n - 1) as nat)
    }
}

/// The number with the given bytes, least significant first.
pub open spec fn le_value(b: Seq<u8>) -> nat
    decreases b.len(),
{
    if b.len() == 0 {
        0
    } else {
        b[0] as nat + 256 * le_value(b.drop_first())
    }
}

/// Values with a byte encoding.
pub trait ToBytes {
    /// The encoding.
    spec fn bytes(&self) -> Seq<u8>;

    /// Appends the encoding to `w`.
    fn write(&self, w: &mut Vec<u8>)
        ensures
            final(w)@ == old(w)@ + self.bytes(),
    ;
}

impl ToBytes for u8 {
    open spec fn bytes(&self) -> Seq<u8> {
        seq![*self]
    }

    fn write(&self, w: &mut Vec<u8>) {
        w.push(*self);
    }
}

impl ToBytes for u32 {
    open spec fn bytes(&self) -> Seq<u8> {
        le_bytes(*self as nat, 4)
    }

    fn write(&self, w: &mut Vec<u8>) {
        let mut v: u32 = *self;
        for i in 0..4u32
            invariant
                w@ + le_bytes(v as nat, (4 - i) as nat) =~= old(w)@ + self.bytes(),
        {
            w.push((v % 256) as u8);
            v = v / 256;
        }
    }
}

/// The encodings of the values, one after the other.
pub open spec fn all_bytes<T: ToBytes>(s: Seq<T>) -> Seq<u8>
    decreases s.len(),
{
    if s.len() == 0 {
        Seq::empty()
    } else {
        all_bytes(s.drop_last()) + s.last().bytes()
    }
}

/// `Fp256::write` of `ark_ff`, for the field `Fq` of `ark_pallas`, into an empty vector: the
/// thirty-two bytes of the least residue, least significant first.
#[verifier::external_body]
fn limbs_bytes(a: [u64; 4]) -> (r: Vec<u8>)
    requires
        crate::field::limbs_value(a) < crate::field::modulus(),
    ensures
        r@ == le_bytes(crate::field::limbs_value(a), 32),
{
    let mut w: Vec<u8> = Vec::new();
    let x = ark_pallas::Fq::from_repr(ark_ff::BigInteger256(a)).unwrap();
    ArkToBytes::write(&x, &mut w).unwrap();
    w
}

impl ToBytes for Fp {
    open spec fn bytes(&self) -> Seq<u8> {
        le_bytes(self@, 32)
    }

    fn write(&self, w: &mut Vec<u8>) {
        let mut b = limbs_bytes(self.limbs());
        w.append(&mut b);
    }
}

/// The number with the eight bytes from `at` on, least significant first.
fn limb_at(b: &[u8], at: usize) -> (r: u64)
    requires
        at + 8 <= b@.len(),
    ensures
        r == le_value(b@.subrange(at as int, at + 8)),
{
    proof {
        reveal_with_fuel(le_value, 9);
    }
    b[at] as u64 + 0x100 * (b[at + 1] as u64) + 0x1_0000 * (b[at + 2] as u64) + 0x100_0000 * (b[at
        + 3] as u64) + 0x1_0000_0000 * (b[at + 4] as u64) + 0x100_0000_0000 * (b[at + 5] as u64)
        + 0x1_0000_0000_0000 * (b[at + 6] as u64) + 0x100_0000_0000_0000 * (b[at + 7] as u64)
}

impl Fp {
    /// The field element with the given encoding, if it is one: thirty-two bytes of a least
    /// residue.
    pub fn from_bytes(b: &[u8]) -> (r: Option<Self>)
        ensures
            r is Some <==> b@.len() == 32 && le_value(b@) < crate::field::modulus(),
            r matches Some(x) ==> x@ == le_value(b@),
    {
        if b.len() != 32 {
            return None;
        }
        let limbs = [limb_at(b, 0), limb_at(b, 8), limb_at(b, 16), limb_at(b, 24)];
        proof {
            let s = b@;
            assert(pow(256, 8) == 0x1_0000_0000_0000_0000) by {
                reveal_with_fuel(pow, 9);
            }
            assert(s.subrange(0, 8) + s.skip(8) =~= s);
            assert(s.subrange(8, 16) + s.skip(16) =~= s.skip(8));
            assert(s.subrange(16, 24) + s.skip(24) =~= s.skip(16));
            assert(s.subrange(24, 32) =~= s.skip(24));
            lemma_le_value_split(s.subrange(0, 8), s.skip(8));
            lemma_le_value_split(s.subrange(8, 16), s.skip(16));
            lemma_le_value_split(s.subrange(16, 24), s.skip(24));
        }
        Fp::new(limbs)
    }
}

/// The number with the bytes of two lists.
proof fn lemma_le_value_split(a: Seq<u8>, b: Seq<u8>)
    ensures
        le_value(a + b) == le_value(a) + pow(256, a.len()) * le_value(b),
    decreases a.len(),
{
    reveal(pow);
    if a.len() == 0 {
        assert(a + b =~= b);
    } else {
        let rest = a.drop_first();
        lemma_le_value_split(rest, b);
        assert((a + b).drop_first() =~= rest + b);
        let w = pow(256, rest.len());
        let h = le_value(b);
        assert(256 * (w * h) == (256 * w) * h) by (nonlinear_arith);
    }
}

/// A number that fits in `n` bytes is read back from its encoding.
pub proof fn lemma_le_bytes_read_back(v: nat, n: nat)
    requires
        v < pow(256, n),
    ensures
        le_value(le_bytes(v, n)) == v,
    decreases n,
{
    reveal(pow);
    if n > 0 {
        let b = le_bytes(v, n);
        assert(b.drop_first() =~= le_bytes(v / 256, (n - 1) as nat));
        lemma_le_bytes_read_back(v / 256, (n - 1) as nat);
    }
}

/// A field element is read back from its encoding: `Fp::from_bytes` gives an element for the bytes
/// that `write` appends, and it is the same one.
pub proof fn lemma_fp_read_back(x: nat)
    requires
        x < crate::field::modulus(),
    ensures
        le_bytes(x, 32).len() == 32,
        le_value(le_bytes(x, 32)) == x,
{
    lemma_le_bytes_len(x, 32);
    assert(pow(256, 32) > crate::field::modulus()) by {
        reveal_with_fuel(pow, 33);
    }
    lemma_le_bytes_read_back(x, 32);
}

/// The encoding of a number has the length asked for.
pub proof fn lemma_le_bytes_len(v: nat, n: nat)
    ensures
        le_bytes(v, n).len() == n,
    decreases n,
{
    if n > 0 {
        lemma_le_bytes_len(v / 256, (n - 1) as nat);
    }
}

/// Numbers that fit in `n` bytes are told apart by their encodings.
pub proof fn lemma_le_bytes_injective(a: nat, b: nat, n: nat)
    requires
        a < pow(256, n),
        b < pow(256, n),
        le_bytes(a, n) == le_bytes(b, n),
    ensures
        a == b,
{
    lemma_le_bytes_read_back(a, n);
    lemma_le_bytes_read_back(b, n);
}

/// Lists of as many values whose encodings are all of the same length are encoded alike only if
/// the values are, one by one.
pub proof fn lemma_all_bytes_split<T: ToBytes>(s: Seq<T>, t: Seq<T>, width: nat)
    requires
        s.len() == t.len(),
        forall|i: int| 0 <= i < s.len() ==> (#[trigger] s[i]).bytes().len() == width,
        forall|i: int| 0 <= i < t.len() ==> (#[trigger] t[i]).bytes().len() == width,
        all_bytes(s) == all_bytes(t),
    ensures
        forall|i: int| 0 <= i < s.len() ==> (#[trigger] s[i]).bytes() == t[i].bytes(),
    decreases s.len(),
{
    if s.len() > 0 {
        lemma_all_bytes_len(s.drop_last(), width);
        lemma_all_bytes_len(t.drop_last(), width);
        let n = all_bytes(s.drop_last()).len();
        assert(s.last() == s[s.len() - 1] && t.last() == t[t.len() - 1]);
        assert(all_bytes(s).take(n as int) =~= all_bytes(s.drop_last()));
        assert(all_bytes(t).take(n as int) =~= all_bytes(t.drop_last()));
        assert(all_bytes(s).skip(n as int) =~= s.last().bytes());
        assert(all_bytes(t).skip(n as int) =~= t.last().bytes());
        lemma_all_bytes_split(s.drop_last(), t.drop_last(), width);
        assert forall|i: int| 0 <= i < s.len() implies (#[trigger] s[i]).bytes()
            == t[i].bytes() by {
            if i < s.len() - 1 {
                assert(s.drop_last()[i] == s[i] && t.drop_last()[i] == t[i]);
            }
        }
    }
}

/// The length of the encodings of values, one after the other.
pub proof fn lemma_all_bytes_len<T: ToBytes>(s: Seq<T>, width: nat)
    requires
        forall|i: int| 0 <= i < s.len() ==> (#[trigger] s[i]).bytes().len() == width,
    ensures
        all_bytes(s).len() == s.len() * width,
    decreases s.len(),
{
    if s.len() > 0 {
        lemma_all_bytes_len(s.drop_last(), width);
        assert(s.last() == s[s.len() - 1]);
        assert((s.len() - 1) * width + width == s.len() * width) by (nonlinear_arith);
    } else {
        assert(0 * width == 0);
    }
}

/// Byte `j` of the encoding of a number is its digit of that place to the base 256.
pub proof fn lemma_le_bytes_digit(v: nat, n: nat, j: int)
    requires
        0 <= j < n,
    ensures
        le_bytes(v, n).len() == n,
        le_bytes(v, n)[j] as int == (v as int / pow(256, j as nat)) % 256,
    decreases n,
{
    lemma_le_bytes_len(v, n);
    let rest = le_bytes(v / 256, (n - 1) as nat);
    lemma_le_bytes_len(v / 256, (n - 1) as nat);
    reveal(pow);
    if j > 0 {
        lemma_le_bytes_digit(v / 256, (n - 1) as nat, j - 1);
        assert(le_bytes(v, n)[j] == rest[j - 1]);
        lemma_pow_positive(256, (j - 1) as nat);
        lemma_div_denominator(v as int, 256, pow(256, (j - 1) as nat));
    }
}

/// A number of `n` bytes is below the power of 256 with exponent `n`, and its encoding gives the
/// bytes again.
pub proof fn lemma_le_value_written_back(b: Seq<u8>)
    ensures
        le_value(b) < pow(256, b.len()),
        le_bytes(le_value(b), b.len()) == b,
    decreases b.len(),
{
    reveal(pow);
    if b.len() == 0 {
        assert(le_bytes(le_value(b), 0) =~= b);
    } else {
        let rest = b.drop_first();
        lemma_le_value_written_back(rest);
        let v = le_value(b);
        assert(v / 256 == le_value(rest) && v % 256 == b[0]);
        assert(le_bytes(v, b.len()) =~= b);
    }
}

/// The encodings of the integers: a byte is itself, and the bytes of a number of thirty-two bits are
/// its four digits to the base 256, the least first.
pub proof fn lemma_integer_encodings(a: u8, v: u32, j: int)
    ensures
        a.bytes() == seq![a],
        v.bytes().len() == 4,
        0 <= j < 4 ==> v.bytes()[j] as int == (v as int / pow(256, j as nat)) % 256,
{
    lemma_le_bytes_len(v as nat, 4);
    if 0 <= j < 4 {
        lemma_le_bytes_digit(v as nat, 4, j);
    }
}

/// The encoding of a field element is its thirty-two digits to the base 256, the least first.
pub proof fn lemma_fp_encoding(x: Fp, j: int)
    ensures
        x.bytes().len() == 32,
        0 <= j < 32 ==> x.bytes()[j] as int == (x@ as int / pow(256, j as nat)) % 256,
{
    lemma_le_bytes_len(x@, 32);
    if 0 <= j < 32 {
        lemma_le_bytes_digit(x@, 32, j);
    }
}

/// Encodings of the same length stand one after the other: byte `j` of value `i` is `width * i + j`
/// bytes from the start.
pub proof fn lemma_all_bytes_at<T: ToBytes>(s: Seq<T>, width: nat, i: int, j: int)
    requires
        forall|k: int| 0 <= k < s.len() ==> (#[trigger] s[k]).bytes().len() == width,
        0 <= i < s.len(),
        0 <= j < width,
    ensures
        all_bytes(s).len() == s.len() * width,
        0 <= width * i + j < all_bytes(s).len(),
        all_bytes(s)[width * i + j] == s[i].bytes()[j],
    decreases s.len(),
{
    let rest = s.drop_last();
    lemma_all_bytes_len(s, width);
    lemma_all_bytes_len(rest, width);
    assert(0 <= width * i + j < s.len() * width) by (nonlinear_arith)
        requires
            0 <= i < s.len(),
            0 <= j < width,
    ;
    assert(s.last() == s[s.len() - 1]);
    if i < s.len() - 1 {
        lemma_all_bytes_at(rest, width, i, j);
        assert(rest[i] == s[i]);
    } else {
        assert(width * i == (s.len() - 1) * width) by (nonlinear_arith)
            requires
                i == s.len() - 1,
        ;
    }
}

} // verus!
