use kimchi::bytes::ToBytes;
use kimchi::domain::FftField;
use kimchi::field::{ArithOps, Element, Fp, One, Scale, Zero};

const MODULUS: [u64; 4] = [0x992d30ed00000001, 0x224698fc094cf91b, 0, 0x4000000000000000];

fn minus_one() -> Fp {
    Fp::new([0x992d30ed00000000, 0x224698fc094cf91b, 0, 0x4000000000000000]).unwrap()
}

#[test]
fn only_least_residues_are_elements() {
    assert!(Fp::new(MODULUS).is_none());
    assert!(Fp::new([0, 0x224698fc094cf91c, 0, 0x4000000000000000]).is_none());
    assert!(Fp::new([0, 0, 1, 0x4000000000000000]).is_none());
    assert!(Fp::new([0, 0, 0, 0x4000000000000001]).is_none());
    assert!(Fp::new([u64::MAX, u64::MAX, u64::MAX, 0x3fffffffffffffff]).is_some());
    assert!(Fp::new([u64::MAX, 0x224698fc094cf91a, 0, 0x4000000000000000]).is_some());
    assert_eq!(minus_one().limbs()[0], 0x992d30ed00000000);
}

#[test]
fn addition_wraps_at_the_modulus() {
    assert_eq!(minus_one().plus(Fp::from_u64(5)), Fp::from_u64(4));
    assert_eq!(Fp::from_u64(u64::MAX).plus(Fp::from_u64(1)).limbs(), [0, 1, 0, 0]);
    assert_eq!(Fp::zero().plus(Fp::from_u64(9)), Fp::from_u64(9));
}

#[test]
fn multiplication_wraps_at_the_modulus() {
    assert_eq!(minus_one().times(minus_one()), Fp::one());
    assert_eq!(Fp::from_u64(6).times(Fp::from_u64(7)), Fp::from_u64(42));
    // One half, by which two is one.
    let half = Fp::new([0xcc96987680000001, 0x11234c7e04a67c8d, 0, 0x2000000000000000]).unwrap();
    assert_eq!(half.scale(Fp::from_u64(2)), Fp::one());
    assert_eq!(half.duplicate(), half);
}

#[test]
fn powers_of_two() {
    assert_eq!(Fp::two_pow(0), Fp::one());
    assert_eq!(Fp::two_pow(8), Fp::from_u64(256));
    assert_eq!(Fp::two_pow(64).limbs(), [0, 1, 0, 0]);
    assert_eq!(
        Fp::two_pow(256).limbs(),
        [0x34786d38fffffffd, 0x992c350be41914ad, 0xffffffffffffffff, 0x3fffffffffffffff]
    );
}

#[test]
fn bytes_are_little_endian() {
    let mut w: Vec<u8> = vec![7];
    0x01020304u32.write(&mut w);
    0xffu8.write(&mut w);
    assert_eq!(w, vec![7, 4, 3, 2, 1, 0xff]);
    let mut w: Vec<u8> = Vec::new();
    Fp::new([0x0807060504030201, 0x11, 0, 0x3f00000000000000]).unwrap().write(&mut w);
    let mut expected: Vec<u8> = vec![0; 32];
    for i in 0..8 {
        expected[i] = (i + 1) as u8;
    }
    expected[8] = 0x11;
    expected[31] = 0x3f;
    assert_eq!(w, expected);
}

#[test]
fn extension_of_two_values() {
    let values = vec![Fp::zero(), Fp::one()];
    let out = Fp::extend(&values, 16);
    assert_eq!(out.len(), 16);
    assert_eq!(out[0], Fp::zero());
    assert_eq!(
        out[1].limbs(),
        [0xd8b6e2670882c9cb, 0x7a85435d008ba1b4, 0x3d0c3b11a1c2fb21, 0x340c9d47c643b406]
    );
    assert_eq!(
        out[3].limbs(),
        [0x67bb7f9bf1483877, 0x8db310940a45b74, 0x76bf75d398ca371b, 0x3f452853d79dba56]
    );
    assert_eq!(out[8], Fp::one());
}

#[test]
fn extension_keeps_the_values_on_the_rows() {
    let values = vec![Fp::zero(), Fp::one(), Fp::one(), Fp::zero()];
    let out = Fp::extend(&values, 32);
    for i in 0..4 {
        assert_eq!(out[8 * i], values[i]);
    }
    assert_eq!(
        out[1].limbs(),
        [0xe52c082417fae2df, 0x320a2b68760106a6, 0x864284bb2b80a4d8, 0x1d1f137156e1717e]
    );
    assert_eq!(Fp::extend(&values, 4), values);
    assert_eq!(Fp::extend(&vec![Fp::from_u64(3)], 8), vec![Fp::from_u64(3); 8]);
}

#[test]
fn elements_are_read_back_from_their_bytes() {
    let x = Fp::new([0x0807060504030201, 0x11, 0x99aabbccddeeff00, 0x3f00000000000001]).unwrap();
    for e in [x, minus_one(), Fp::zero(), Fp::from_u64(258)] {
        let mut w: Vec<u8> = Vec::new();
        e.write(&mut w);
        assert_eq!(Fp::from_bytes(&w), Some(e));
    }
    let mut b: Vec<u8> = vec![0; 32];
    b[9] = 2;
    assert_eq!(Fp::from_bytes(&b).unwrap().limbs(), [0, 0x200, 0, 0]);
}

#[test]
fn bytes_of_no_element_are_refused() {
    assert_eq!(Fp::from_bytes(&[]), None);
    assert_eq!(Fp::from_bytes(&[0; 31]), None);
    assert_eq!(Fp::from_bytes(&[0; 33]), None);
    assert_eq!(Fp::from_bytes(&[0xff; 32]), None);
    let mut b: Vec<u8> = Vec::new();
    for limb in MODULUS {
        b.extend_from_slice(&limb.to_le_bytes());
    }
    assert_eq!(Fp::from_bytes(&b), None);
    b[0] = 0;
    assert_eq!(Fp::from_bytes(&b), Some(minus_one()));
}

#[test]
fn extension_is_the_only_one() {
    // The polynomial 3 + 5x + 7x^2, given by its values on four points and on eight.
    let on = |size: usize| -> Vec<Fp> {
        // The values of x on a domain are its elements.
        let identity = Fp::extend(&vec![Fp::one(), minus_one()], size);
        let mut r: Vec<Fp> = Vec::new();
        for x in identity {
            r.push(Fp::from_u64(3).plus(Fp::from_u64(5).times(x)).plus(Fp::from_u64(7).times(x.times(x))));
        }
        r
    };
    assert_eq!(Fp::extend(&on(4), 8), on(8));
    assert_eq!(Fp::extend(&on(4), 64), Fp::extend(&on(16), 64));
}
