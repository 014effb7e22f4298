//! A polynomial is determined by its values on a domain of as many elements as it has
//! coefficients.

use vstd::arithmetic::div_mod::*;
use vstd::arithmetic::power::*;
use vstd::arithmetic::power2::*;
use vstd::prelude::*;

verus! {

/// Two numbers stand for the same residue.
pub open spec fn same(a: int, b: int) -> bool {
    a % (crate::field::modulus() as int) == b % (crate::field::modulus() as int)
}

/// The value at `x` of the polynomial with the given coefficients, that of degree zero first, as a
/// number.
pub open spec fn horner(e: Seq<int>, x: int) -> int
    decreases e.len(),
{
    if e.len() == 0 {
        0
    } else {
        e[0] + x * horner(e.drop_first(), x)
    }
}

/// Sums of numbers that stand for the same residues stand for the same residue.
proof fn lemma_same_add(a: int, b: int, c: int, d: int)
    requires
        same(a, c),
        same(b, d),
    ensures
        same(a + b, c + d),
{
    let p = crate::field::modulus() as int;
    lemma_add_mod_noop(a, b, p);
    lemma_add_mod_noop(c, d, p);
}

/// Differences of numbers that stand for the same residues stand for the same residue.
proof fn lemma_same_sub(a: int, b: int, c: int, d: int)
    requires
        same(a, c),
        same(b, d),
    ensures
        same(a - b, c - d),
{
    let p = crate::field::modulus() as int;
    lemma_sub_mod_noop(a, b, p);
    lemma_sub_mod_noop(c, d, p);
}

/// Products of numbers that stand for the same residues stand for the same residue.
proof fn lemma_same_mul(a: int, b: int, c: int, d: int)
    requires
        same(a, c),
        same(b, d),
    ensures
        same(a * b, c * d),
{
    let p = crate::field::modulus() as int;
    lemma_mul_mod_noop(a, b, p);
    lemma_mul_mod_noop(c, d, p);
}

/// Powers of numbers that stand for the same residue stand for the same residue.
proof fn lemma_same_pow(a: int, b: int, n: nat)
    requires
        same(a, b),
    ensures
        same(pow(a, n), pow(b, n)),
{
    let p = crate::field::modulus() as int;
    lemma_pow_mod_noop(a, n, p);
    lemma_pow_mod_noop(b, n, p);
}

/// Values at points that stand for the same residue stand for the same residue.
proof fn lemma_horner_same(e: Seq<int>, x: int, y: int)
    requires
        same(x, y),
    ensures
        same(horner(e, x), horner(e, y)),
    decreases e.len(),
{
    if e.len() > 0 {
        let rest = e.drop_first();
        lemma_horner_same(rest, x, y);
        lemma_same_mul(x, horner(rest, x), y, horner(rest, y));
        lemma_same_add(e[0], x * horner(rest, x), e[0], y * horner(rest, y));
    }
}

/// A polynomial whose coefficients all stand for zero has values that stand for zero.
proof fn lemma_horner_zero(e: Seq<int>, x: int)
    requires
        forall|i: int| 0 <= i < e.len() ==> same(#[trigger] e[i], 0),
    ensures
        same(horner(e, x), 0),
    decreases e.len(),
{
    if e.len() > 0 {
        let rest = e.drop_first();
        assert forall|i: int| 0 <= i < rest.len() implies same(#[trigger] rest[i], 0) by {
            assert(same(e[i + 1], 0));
        }
        lemma_horner_zero(rest, x);
        lemma_same_mul(x, horner(rest, x), x, 0);
        lemma_same_add(e[0], x * horner(rest, x), 0, 0);
    }
}

/// The value of a polynomial given in two parts.
proof fn lemma_horner_split(a: Seq<int>, b: Seq<int>, x: int)
    ensures
        horner(a + b, x) == horner(a, x) + pow(x, a.len()) * horner(b, x),
    decreases a.len(),
{
    lemma_pow0(x);
    if a.len() == 0 {
        assert(a + b =~= b);
    } else {
        let rest = a.drop_first();
        lemma_horner_split(rest, b, x);
        assert((a + b).drop_first() =~= rest + b);
        reveal(pow);
        let w = pow(x, rest.len());
        let h = horner(b, x);
        assert(x * (horner(rest, x) + w * h) == x * horner(rest, x) + (x * w) * h)
            by (nonlinear_arith);
    }
}

/// Coefficients added up one by one.
pub open spec fn zip_add(a: Seq<int>, b: Seq<int>) -> Seq<int> {
    Seq::new(a.len(), |i: int| a[i] + b[i])
}

/// The value of a sum of polynomials.
proof fn lemma_horner_add(a: Seq<int>, b: Seq<int>, x: int)
    requires
        a.len() == b.len(),
    ensures
        horner(zip_add(a, b), x) == horner(a, x) + horner(b, x),
    decreases a.len(),
{
    if a.len() > 0 {
        let (c, d) = (a.drop_first(), b.drop_first());
        lemma_horner_add(c, d, x);
        assert(zip_add(a, b).drop_first() =~= zip_add(c, d));
        assert(x * (horner(c, x) + horner(d, x)) == x * horner(c, x) + x * horner(d, x))
            by (nonlinear_arith);
    }
}

/// Coefficients multiplied by the powers of `g`, from that of exponent `s` on.
pub open spec fn twisted(e: Seq<int>, g: int, s: nat) -> Seq<int> {
    Seq::new(e.len(), |i: int| e[i] * pow(g, (s + i) as nat))
}

/// The value at a multiple of a point, by way of multiplied coefficients.
proof fn lemma_horner_twist(e: Seq<int>, g: int, s: nat, y: int)
    ensures
        pow(g, s) * horner(e, g * y) == horner(twisted(e, g, s), y),
    decreases e.len(),
{
    if e.len() > 0 {
        let rest = e.drop_first();
        lemma_horner_twist(rest, g, s + 1, y);
        assert(twisted(e, g, s).drop_first() =~= twisted(rest, g, s + 1));
        reveal(pow);
        let w = pow(g, s);
        assert(pow(g, s + 1) == g * w);
        let h = horner(rest, g * y);
        assert(w * (e[0] + (g * y) * h) == e[0] * w + y * ((g * w) * h)) by (nonlinear_arith);
    } else {
        assert(pow(g, s) * 0 == 0);
    }
}

/// One half times two is one.
proof fn lemma_half(a: int)
    requires
        same(a + a, 0),
    ensures
        same(a, 0),
{
    let p = crate::field::modulus() as int;
    let h = 0x2000000000000000000000000000000011234c7e04a67c8dcc96987680000001int;
    assert(2 * h == p + 1);
    lemma_same_mul(h, a + a, h, 0);
    assert(h * (a + a) == a + p * a) by (nonlinear_arith)
        requires
            2 * h == p + 1,
    ;
    lemma_mod_multiples_vanish(a, a, p);
    assert(p * a + a == a + p * a);
}

/// The coefficients of a polynomial that vanishes on the powers of `g` stand for zero.
proof fn lemma_vanishing(e: Seq<int>, g: int, a: nat)
    requires
        e.len() == pow2(a),
        a > 0 ==> same(pow(g, pow2((a - 1) as nat)), -1),
        forall|j: nat| j < e.len() ==> same(#[trigger] horner(e, pow(g, j)), 0),
    ensures
        forall|i: int| 0 <= i < e.len() ==> same(#[trigger] e[i], 0),
    decreases a,
{
    lemma2_to64();
    if a == 0 {
        lemma_pow0(g);
        assert(same(horner(e, pow(g, 0)), 0));
        assert(e.drop_first() =~= Seq::empty());
        assert(horner(e, 1) == e[0] + 1 * horner(e.drop_first(), 1));
        assert(e[0] == horner(e, 1));
    } else {
        let b = (a - 1) as nat;
        let h = pow2(b);
        lemma_pow2_unfold(a);
        lemma_pow2_pos(b);
        let (lo, hi) = (e.take(h as int), e.skip(h as int));
        assert(lo + hi =~= e);
        let s = g * g;
        lemma_root_squared(g, b);
        // Even powers.
        let even = zip_add(lo, hi);
        assert forall|j: nat| j < even.len() implies same(
            #[trigger] horner(even, pow(s, j)),
            0,
        ) by {
            lemma_fold(lo, hi, g, b, j);
            lemma_pow_square(g, j);
            assert(same(horner(e, pow(g, 2 * j)), 0));
        }
        lemma_vanishing(even, s, b);
        // Odd powers.
        let f = twisted(e, g, 0);
        let (flo, fhi) = (f.take(h as int), f.skip(h as int));
        assert(flo + fhi =~= f);
        let odd = zip_add(flo, fhi);
        assert forall|j: nat| j < odd.len() implies same(#[trigger] horner(odd, pow(s, j)), 0) by {
            lemma_fold(flo, fhi, g, b, j);
            lemma_horner_twist(e, g, 0, pow(s, j));
            lemma_pow0(g);
            lemma_pow_square(g, j);
            assert(pow(g, 2 * j + 1) == g * pow(g, 2 * j)) by {
                reveal(pow);
            }
            assert(same(horner(e, pow(g, 2 * j + 1)), 0));
            assert(1 * horner(e, g * pow(s, j)) == horner(e, g * pow(s, j)));
        }
        lemma_vanishing(odd, s, b);
        assert forall|i: int| 0 <= i < e.len() implies same(#[trigger] e[i], 0) by {
            let k = if i < h {
                i
            } else {
                i - h
            };
            assert(same(even[k], 0));
            assert(same(odd[k], 0));
            lemma_pair(e[k], e[k + h], g, b, k as nat);
        }
    }
}

/// Squaring a root of minus one, and the powers of the square.
proof fn lemma_root_squared(g: int, b: nat)
    requires
        same(pow(g, pow2(b)), -1),
    ensures
        b > 0 ==> same(pow(g * g, pow2((b - 1) as nat)), -1),
{
    if b > 0 {
        lemma_pow2_unfold(b);
        lemma_pow_square(g, pow2((b - 1) as nat));
    }
}

/// A power of a square.
proof fn lemma_pow_square(g: int, j: nat)
    ensures
        pow(g * g, j) == pow(g, 2 * j),
{
    lemma_pow1(g);
    lemma_pow_adds(g, 1, 1);
    lemma_pow_multiplies(g, 2, j);
}

/// At an even power of `g` the two halves of a polynomial add up.
proof fn lemma_fold(lo: Seq<int>, hi: Seq<int>, g: int, b: nat, j: nat)
    requires
        lo.len() == pow2(b),
        hi.len() == pow2(b),
        same(pow(g, pow2(b)), -1),
    ensures
        same(horner(lo + hi, pow(g * g, j)), horner(zip_add(lo, hi), pow(g * g, j))),
{
    let s = g * g;
    let x = pow(s, j);
    let h = pow2(b);
    lemma_horner_split(lo, hi, x);
    lemma_horner_add(lo, hi, x);
    // The power of the point of exponent `h` is one.
    lemma_pow_multiplies(s, j, h);
    lemma_pow_multiplies(s, h, j);
    assert(j * h == h * j) by (nonlinear_arith);
    lemma_pow_square(g, h);
    lemma_pow_adds(g, h, h);
    lemma_same_mul(pow(g, h), pow(g, h), -1, -1);
    lemma_same_pow(pow(s, h), 1, j);
    lemma1_pow(j);
    lemma_same_mul(pow(x, h), horner(hi, x), 1, horner(hi, x));
    lemma_same_add(
        horner(lo, x),
        pow(x, h) * horner(hi, x),
        horner(lo, x),
        1 * horner(hi, x),
    );
}

/// Two coefficients whose sum and twisted sum stand for zero stand for zero.
proof fn lemma_pair(u: int, v: int, g: int, b: nat, k: nat)
    requires
        same(pow(g, pow2(b)), -1),
        k < pow2(b),
        same(u + v, 0),
        same(u * pow(g, k) + v * pow(g, k + pow2(b)), 0),
    ensures
        same(u, 0),
        same(v, 0),
{
    let h = pow2(b);
    let w = pow(g, k);
    lemma_pow_adds(g, k, h);
    // The twisted sum stands for the difference times a power.
    lemma_same_mul(w, pow(g, h), w, -1);
    lemma_same_mul(v, w * pow(g, h), v, w * -1);
    lemma_same_add(u * w, v * (w * pow(g, h)), u * w, v * (w * -1));
    assert(u * w + v * (w * -1) == w * (u - v)) by (nonlinear_arith);
    // The power has an inverse.
    let r = (2 * h - k) as nat;
    lemma_pow_adds(g, r, k);
    lemma_pow_adds(g, h, h);
    lemma_same_mul(pow(g, h), pow(g, h), -1, -1);
    lemma_same_mul(pow(g, r), w * (u - v), pow(g, r), 0);
    assert(pow(g, r) * (w * (u - v)) == (pow(g, r) * w) * (u - v)) by (nonlinear_arith);
    lemma_same_mul(pow(g, r) * w, u - v, 1, u - v);
    // Sum and difference.
    lemma_same_add(u + v, u - v, 0, 0);
    lemma_half(u);
    lemma_same_sub(u + v, u, 0, 0);
}

/// The square of a power of a power of two.
proof fn lemma_square(g: int, k: nat, x: int, y: int)
    requires
        pow(g, pow2(k)) % (crate::field::modulus() as int) == x,
        (x * x) % (crate::field::modulus() as int) == y,
    ensures
        pow(g, pow2(k + 1)) % (crate::field::modulus() as int) == y,
{
    let p = crate::field::modulus() as int;
    lemma_pow2_unfold(k + 1);
    lemma_pow_adds(g, pow2(k), pow2(k));
    lemma_mul_mod_noop(pow(g, pow2(k)), pow(g, pow2(k)), p);
}

/// The root of unity to the power of half its order is minus one.
proof fn lemma_root_order()
    ensures
        same(pow(crate::domain::two_adic_root() as int, pow2(31)), -1),
{
    let g = crate::domain::two_adic_root() as int;
    let p = crate::field::modulus() as int;
    lemma2_to64();
    lemma_pow1(g);
    lemma_small_mod(crate::domain::two_adic_root(), crate::field::modulus());
    lemma_square(g, 0, 0x2bce74deac30ebda362120830561f81aea322bf2b7bb7584bdad6fabd87ea32fint, 0x2c4273e5d2eb1de98c9176cb401abf06c4938ab16ac69c2b9645ee87acea193bint);
    lemma_square(g, 1, 0x2c4273e5d2eb1de98c9176cb401abf06c4938ab16ac69c2b9645ee87acea193bint, 0x2e99e0eeba6afb04d748bb4c8f7746167a3163883882dd3401793e65f9e09bbdint);
    lemma_square(g, 2, 0x2e99e0eeba6afb04d748bb4c8f7746167a3163883882dd3401793e65f9e09bbdint, 0x223b10e2909d647727473e05119a70bf69fe5716194f8d1100e79397659a24edint);
    lemma_square(g, 3, 0x223b10e2909d647727473e05119a70bf69fe5716194f8d1100e79397659a24edint, 0x88ef444b9a63e67dce3f521ea318e20d55a3e3fa4f0d2de615bd0d717c62c05int);
    lemma_square(g, 4, 0x88ef444b9a63e67dce3f521ea318e20d55a3e3fa4f0d2de615bd0d717c62c05int, 0x38bbffdbaedf01944c6fb4257565f4a05376d4d8ce7e86f50d96bb7262957d3int);
    lemma_square(g, 5, 0x38bbffdbaedf01944c6fb4257565f4a05376d4d8ce7e86f50d96bb7262957d3int, 0x2b32b23c415d3e576c4d05c1b1d89d9ba57789d36d6a6e3726a28916f7e648e1int);
    lemma_square(g, 6, 0x2b32b23c415d3e576c4d05c1b1d89d9ba57789d36d6a6e3726a28916f7e648e1int, 0x365bd233e19a77476101c7698b1c063f5b7353922f426d682549375fb22e49d3int);
    lemma_square(g, 7, 0x365bd233e19a77476101c7698b1c063f5b7353922f426d682549375fb22e49d3int, 0x31951d72cbf5ee0d78d9867098e13b79fb81505e6db526ce5190e23731a54569int);
    lemma_square(g, 8, 0x31951d72cbf5ee0d78d9867098e13b79fb81505e6db526ce5190e23731a54569int, 0x1c6a098fa72833f405a8dc469477bbe65b995f8670713a0fc3831c6abcf38cb1int);
    lemma_square(g, 9, 0x1c6a098fa72833f405a8dc469477bbe65b995f8670713a0fc3831c6abcf38cb1int, 0xd8c20d3f81693b34d98347484bde7a92c9244a2a37a6ded9bfb7e07b75cb10cint);
    lemma_square(g, 10, 0xd8c20d3f81693b34d98347484bde7a92c9244a2a37a6ded9bfb7e07b75cb10cint, 0x44694ccde4116800af467b81f89c782f175600cc0aed539085db943eb10148eint);
    lemma_square(g, 11, 0x44694ccde4116800af467b81f89c782f175600cc0aed539085db943eb10148eint, 0x3a4a077c9c0654e7e98d9f1c0b146bf64171285db283f84b463f4019b18ed31bint);
    lemma_square(g, 12, 0x3a4a077c9c0654e7e98d9f1c0b146bf64171285db283f84b463f4019b18ed31bint, 0x1c6807d58325da33dfb456db63dcf180e1491c6808fe947b90d867fbd3e61b7fint);
    lemma_square(g, 13, 0x1c6807d58325da33dfb456db63dcf180e1491c6808fe947b90d867fbd3e61b7fint, 0x14078ea8cdee85a0950d9a272227e4f52c624e853d02ad879ec22f8bf80662c4int);
    lemma_square(g, 14, 0x14078ea8cdee85a0950d9a272227e4f52c624e853d02ad879ec22f8bf80662c4int, 0xf971f9f81878a727f025b2aca0774ead6d1be12fb8a867820245ff86e558730int);
    lemma_square(g, 15, 0xf971f9f81878a727f025b2aca0774ead6d1be12fb8a867820245ff86e558730int, 0x23222d06029d21a655392ad9dda387278c1c46359289a4d3d465aafc06d1cf1aint);
    lemma_square(g, 16, 0x23222d06029d21a655392ad9dda387278c1c46359289a4d3d465aafc06d1cf1aint, 0x2fd0767705fa5b03402039fc9e89ad1de3c85d25401fd8dd898dce603d1c0f3eint);
    lemma_square(g, 17, 0x2fd0767705fa5b03402039fc9e89ad1de3c85d25401fd8dd898dce603d1c0f3eint, 0x1aa07732b05972abcadc042243371883e38cca91106ecac1e26a77c64bc5bec4int);
    lemma_square(g, 18, 0x1aa07732b05972abcadc042243371883e38cca91106ecac1e26a77c64bc5bec4int, 0x3b402c2cbd0a0660626f1948867533cfd2a80abd33d0e808075a3efc92d52d2int);
    lemma_square(g, 19, 0x3b402c2cbd0a0660626f1948867533cfd2a80abd33d0e808075a3efc92d52d2int, 0x28961bbd9c63b7bd7c75f72e02a9727d14d99e7985184470d34cd1b8ef03001int);
    lemma_square(g, 20, 0x28961bbd9c63b7bd7c75f72e02a9727d14d99e7985184470d34cd1b8ef03001int, 0x181b50ad5f32119e31cbd395426d600b7a9b88bcaaa1c24eef28545aada17813int);
    lemma_square(g, 21, 0x181b50ad5f32119e31cbd395426d600b7a9b88bcaaa1c24eef28545aada17813int, 0x1421deb15f5ce205068512b010382353dc0aa1b40386a1c14774c65664bb8182int);
    lemma_square(g, 22, 0x1421deb15f5ce205068512b010382353dc0aa1b40386a1c14774c65664bb8182int, 0xcb8102d0128ebb25343154773101eaf1a9daef679667eb4bd1e06b973e985e4int);
    lemma_square(g, 23, 0xcb8102d0128ebb25343154773101eaf1a9daef679667eb4bd1e06b973e985e4int, 0x21d0b0a3be45b5ee2ff5140e6007a63bc5ac7dc51c50ed52ebf2f918f4d603c9int);
    lemma_square(g, 24, 0x21d0b0a3be45b5ee2ff5140e6007a63bc5ac7dc51c50ed52ebf2f918f4d603c9int, 0xa31cd9ef8679794deeb656fd6b01c97550149e556476b314244fb708d44fc3int);
    lemma_square(g, 25, 0xa31cd9ef8679794deeb656fd6b01c97550149e556476b314244fb708d44fc3int, 0x1868ca50534a180d97ff23a878e088b0b9569c85b0a15d666c23ded157fceebaint);
    lemma_square(g, 26, 0x1868ca50534a180d97ff23a878e088b0b9569c85b0a15d666c23ded157fceebaint, 0xcc3380dc616f2e1daf29ad1560833ed3baea3393eceb7bc8fa36376929b78ccint);
    lemma_square(g, 27, 0xcc3380dc616f2e1daf29ad1560833ed3baea3393eceb7bc8fa36376929b78ccint, 0x17e6c570737897f385e789dcbc7a09bd4f82ab3e1182aecd80ec9d0beefa6c6dint);
    lemma_square(g, 28, 0x17e6c570737897f385e789dcbc7a09bd4f82ab3e1182aecd80ec9d0beefa6c6dint, 0x3f8f1cc60c6da729d26301123de65ed9c73bfb511bf223ac1d15074e708ac5aeint);
    lemma_square(g, 29, 0x3f8f1cc60c6da729d26301123de65ed9c73bfb511bf223ac1d15074e708ac5aeint, 0x36bdcc7b0f28b5df31744fb72326829dff98203a45f8ebf0e047f48898cdb6dbint);
    lemma_square(g, 30, 0x36bdcc7b0f28b5df31744fb72326829dff98203a45f8ebf0e047f48898cdb6dbint, 0x40000000000000000000000000000000224698fc094cf91b992d30ed00000000int);
    assert((-1int) % p == p - 1);
}

/// The coefficient of degree `i`, which is zero beyond the last one.
pub open spec fn coefficient(coeffs: Seq<nat>, i: int) -> int {
    if 0 <= i < coeffs.len() {
        coeffs[i] as int
    } else {
        0
    }
}

/// The first `n` coefficients.
pub open spec fn coefficients(coeffs: Seq<nat>, n: nat) -> Seq<int> {
    Seq::new(n, |i: int| coefficient(coeffs, i))
}

/// The value of a polynomial in the field, by its value as a number.
proof fn lemma_poly_value(coeffs: Seq<nat>, n: nat, x: nat)
    requires
        coeffs.len() <= n,
    ensures
        crate::domain::poly_value(coeffs, x) == horner(coefficients(coeffs, n), x as int) % (
        crate::field::modulus() as int),
    decreases n,
{
    let p = crate::field::modulus() as int;
    let e = coefficients(coeffs, n);
    if coeffs.len() == 0 {
        lemma_horner_zero(e, x as int);
        lemma_small_mod(0, crate::field::modulus());
    } else {
        let rest = coeffs.drop_first();
        lemma_poly_value(rest, (n - 1) as nat, x);
        assert(e.drop_first() =~= coefficients(rest, (n - 1) as nat));
        let h = horner(e.drop_first(), x as int);
        lemma_mul_mod_noop_right(x as int, h, p);
        lemma_add_mod_noop_right(coeffs[0] as int, x * h, p);
    }
}

/// The generator of a domain to the power of half its order is minus one.
proof fn lemma_generator(n: nat, a: nat)
    requires
        n == pow2(a),
        0 < a <= 32,
    ensures
        same(pow(crate::domain::root_of_unity(n) as int, pow2((a - 1) as nat)), -1),
{
    let p = crate::field::modulus() as int;
    let r = crate::domain::two_adic_root() as int;
    let q = 0x1_0000_0000nat / n;
    let h = pow2((a - 1) as nat);
    lemma2_to64();
    lemma_pow2_pos(a);
    lemma_pow2_adds(a, (32 - a) as nat);
    lemma_div_multiples_vanish(pow2((32 - a) as nat) as int, n as int);
    assert(n * pow2((32 - a) as nat) == pow2((32 - a) as nat) * n) by (nonlinear_arith);
    lemma_pow2_adds((32 - a) as nat, (a - 1) as nat);
    lemma_pow_multiplies(r, q, h);
    lemma_pow_mod_noop(pow(r, q), h, p);
    lemma_root_order();
}

/// The coefficients of a polynomial are determined by its values on a domain of at least as many
/// elements.
pub proof fn lemma_coefficients_unique(c: Seq<nat>, d: Seq<nat>, values: Seq<nat>, i: int)
    requires
        crate::domain::is_fp_domain_size(values.len()),
        c.len() <= values.len(),
        d.len() <= values.len(),
        crate::domain::takes_values(c, values),
        crate::domain::takes_values(d, values),
        0 <= i < values.len(),
    ensures
        same(coefficient(c, i), coefficient(d, i)),
{
    broadcast use is_pow2_equiv;

    let n = values.len();
    let a = choose|a: nat| #[trigger] pow(2, a) == n as int;
    lemma_pow2(a);
    lemma2_to64();
    if a > 32 {
        lemma_pow2_strictly_increases(32, a);
    }
    let g = crate::domain::root_of_unity(n) as int;
    if a > 0 {
        lemma_generator(n, a);
    }
    let (u, v) = (coefficients(c, n), coefficients(d, n));
    let e = Seq::new(n, |k: int| u[k] - v[k]);
    assert(zip_add(e, v) =~= u);
    assert forall|j: nat| j < n implies same(#[trigger] horner(e, pow(g, j)), 0) by {
        let x = crate::domain::domain_element(n, j);
        assert(values[j as int] == crate::domain::poly_value(c, x));
        assert(values[j as int] == crate::domain::poly_value(d, x));
        lemma_poly_value(c, n, x);
        lemma_poly_value(d, n, x);
        lemma_horner_add(e, v, x as int);
        lemma_same_sub(
            horner(u, x as int),
            horner(v, x as int),
            horner(v, x as int),
            horner(v, x as int),
        );
        lemma_mod_twice(pow(g, j), crate::field::modulus() as int);
        lemma_horner_same(e, x as int, pow(g, j));
    }
    lemma_vanishing(e, g, a);
    assert(same(e[i], 0));
    lemma_same_add(e[i], v[i], 0, v[i]);
}

/// Values on a domain extend to a larger domain in one way only.
pub proof fn lemma_extension_unique(values: Seq<nat>, a: Seq<nat>, b: Seq<nat>)
    requires
        crate::domain::is_fp_domain_size(values.len()),
        a.len() == b.len(),
        crate::domain::fp_extends(values, a),
        crate::domain::fp_extends(values, b),
    ensures
        a == b,
{
    let n = values.len();
    let c = choose|c: Seq<nat>|
        {
            &&& c.len() <= values.len()
            &&& #[trigger] crate::domain::takes_values(c, values)
            &&& crate::domain::takes_values(c, a)
        };
    let d = choose|d: Seq<nat>|
        {
            &&& d.len() <= values.len()
            &&& #[trigger] crate::domain::takes_values(d, values)
            &&& crate::domain::takes_values(d, b)
        };
    let (u, v) = (coefficients(c, n), coefficients(d, n));
    let e = Seq::new(n, |k: int| u[k] - v[k]);
    assert(zip_add(e, v) =~= u);
    assert forall|k: int| 0 <= k < n implies same(#[trigger] e[k], 0) by {
        lemma_coefficients_unique(c, d, values, k);
        lemma_same_sub(u[k], v[k], v[k], v[k]);
    }
    assert forall|j: int| 0 <= j < a.len() implies a[j] == b[j] by {
        let x = crate::domain::domain_element(a.len(), j as nat);
        assert(a[j] == crate::domain::poly_value(c, x));
        assert(b[j] == crate::domain::poly_value(d, x));
        lemma_poly_value(c, n, x);
        lemma_poly_value(d, n, x);
        lemma_horner_add(e, v, x as int);
        lemma_horner_zero(e, x as int);
        lemma_same_add(horner(e, x as int), horner(v, x as int), 0, horner(v, x as int));
    }
    assert(a =~= b);
}

} // verus!
