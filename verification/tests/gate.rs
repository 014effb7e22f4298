use kimchi::caml::{array_to_tuple, tuple_to_array, CamlCircuitGate, CamlWire};
use kimchi::field::Fp;
use kimchi::gate::{Circuit, CircuitGate, ConstraintSystem, CurrOrNext, GateType, Wire};

const TYPES: [GateType; 11] = [
    GateType::Zero,
    GateType::Generic,
    GateType::Poseidon,
    GateType::CompleteAdd,
    GateType::VarBaseMul,
    GateType::EndoMul,
    GateType::EndoMulScalar,
    GateType::ChaCha0,
    GateType::ChaCha1,
    GateType::ChaCha2,
    GateType::ChaChaFinal,
];

fn wires() -> [Wire; 7] {
    let mut w = [Wire { row: 0, col: 0 }; 7];
    for i in 0..7 {
        w[i] = Wire { row: 0x1234 + i, col: i };
    }
    w
}

#[test]
fn shift_of_each_row() {
    assert_eq!(CurrOrNext::Curr.shift(), 0);
    assert_eq!(CurrOrNext::Next.shift(), 1);
}

#[test]
fn gate_types_are_numbered() {
    for i in 0..11 {
        assert_eq!(TYPES[i].to_u8(), i as u8);
        assert_eq!(GateType::from_u8(i as u8), Some(TYPES[i]));
    }
    assert_eq!(GateType::from_u8(11), None);
    assert_eq!(GateType::from_u8(255), None);
}

#[test]
fn zero_gate_is_empty() {
    let g: CircuitGate<Fp> = CircuitGate::zero(wires());
    assert_eq!(g.typ, GateType::Zero);
    assert_eq!(g.wires, wires());
    assert!(g.coeffs.is_empty());
}

#[test]
fn gate_encoding() {
    let g = CircuitGate {
        typ: GateType::EndoMul,
        wires: wires(),
        coeffs: vec![Fp::from_u64(0x0102), Fp::from_u64(9)],
    };
    let mut w: Vec<u8> = vec![0xaa];
    g.write::<7>(&mut w);
    assert_eq!(w.len(), 1 + 1 + 7 * 8 + 1 + 2 * 32);
    assert_eq!(w[..2], [0xaa, 5]);
    assert_eq!(w[2..10], [0x34, 0x12, 0, 0, 0, 0, 0, 0]);
    assert_eq!(w[10..18], [0x35, 0x12, 0, 0, 1, 0, 0, 0]);
    assert_eq!(w[58], 2);
    assert_eq!(w[59..62], [2, 1, 0]);
    assert_eq!(w[91..93], [9, 0]);
    let mut short: Vec<u8> = Vec::new();
    g.write::<2>(&mut short);
    assert_eq!(short.len(), 1 + 2 * 8 + 1 + 2 * 32);
    assert_eq!(short[..17], w[1..18]);
    assert_eq!(short[17..], w[58..]);
}

#[test]
fn gate_encoding_keeps_one_byte_of_the_coefficient_count() {
    let g = CircuitGate { typ: GateType::Generic, wires: wires(), coeffs: vec![Fp::from_u64(1); 258] };
    let mut w: Vec<u8> = Vec::new();
    g.write::<0>(&mut w);
    assert_eq!(w[..3], [1, 2, 1]);
    assert_eq!(w.len(), 2 + 258 * 32);
}

#[test]
fn wire_encoding_keeps_four_bytes_of_each_number() {
    let mut g: CircuitGate<Fp> = CircuitGate::zero(wires());
    g.wires[0] = Wire { row: 0x1_0000_0007, col: 0x2_0000_0003 };
    let mut w: Vec<u8> = Vec::new();
    g.write::<1>(&mut w);
    assert_eq!(w, vec![0, 7, 0, 0, 0, 3, 0, 0, 0, 0]);
}

#[test]
fn different_gates_are_encoded_differently() {
    let mut seen: Vec<Vec<u8>> = Vec::new();
    for t in TYPES {
        for n in 0..3 {
            let g = CircuitGate { typ: t, wires: wires(), coeffs: vec![Fp::from_u64(n); n as usize] };
            let mut w: Vec<u8> = Vec::new();
            g.write::<7>(&mut w);
            assert!(!seen.contains(&w));
            seen.push(w);
        }
    }
}

struct Named(u64);

impl ConstraintSystem<Fp, 3> for Named {
    fn verify_generic(
        _: &CircuitGate<Fp>,
        row: usize,
        w: &[Vec<Fp>; 3],
        public: &[Fp],
    ) -> Result<(), String> {
        Err(format!("generic {} {} {}", row, w[0].len(), public.len()))
    }
    fn verify_poseidon(
        _: &CircuitGate<Fp>,
        _: usize,
        _: &[Vec<Fp>; 3],
        cs: &Self,
    ) -> Result<(), String> {
        Err(format!("poseidon {}", cs.0))
    }
    fn verify_complete_add(
        _: &CircuitGate<Fp>,
        _: usize,
        _: &[Vec<Fp>; 3],
    ) -> Result<(), String> {
        Err("complete add".to_string())
    }
    fn verify_vbmul(_: &CircuitGate<Fp>, _: usize, _: &[Vec<Fp>; 3]) -> Result<(), String> {
        Ok(())
    }
    fn verify_endomul(
        _: &CircuitGate<Fp>,
        _: usize,
        _: &[Vec<Fp>; 3],
        cs: &Self,
    ) -> Result<(), String> {
        Err(format!("endomul {}", cs.0))
    }
    fn verify_endomul_scalar(
        _: &CircuitGate<Fp>,
        _: usize,
        _: &[Vec<Fp>; 3],
        cs: &Self,
    ) -> Result<(), String> {
        Err(format!("endomul scalar {}", cs.0))
    }
    fn verify_chacha(g: &CircuitGate<Fp>, row: usize, w: &[Vec<Fp>; 3]) -> Result<(), String> {
        Err(format!("chacha {} {} {}", g.typ.to_u8(), row, w[0].len()))
    }
}

#[test]
fn each_gate_has_its_own_check() {
    let witness: [Vec<Fp>; 3] = [vec![Fp::from_u64(1)], Vec::new(), Vec::new()];
    let public = [Fp::from_u64(4), Fp::from_u64(5)];
    let expected: [Option<&str>; 11] = [
        None,
        Some("generic 6 1 2"),
        Some("poseidon 5"),
        Some("complete add"),
        None,
        Some("endomul 5"),
        Some("endomul scalar 5"),
        Some("chacha 7 6 1"),
        Some("chacha 8 6 1"),
        Some("chacha 9 6 1"),
        Some("chacha 10 6 1"),
    ];
    for i in 0..11 {
        let g = CircuitGate { typ: TYPES[i], wires: wires(), coeffs: Vec::new() };
        let r = g.verify(6, &witness, &Named(5), &public);
        match expected[i] {
            None => assert_eq!(r, Ok(())),
            Some(e) => assert_eq!(r, Err(e.to_string())),
        }
    }
}

#[test]
fn only_generic_gates_read_the_public_inputs() {
    let witness: [Vec<Fp>; 3] = [Vec::new(), Vec::new(), Vec::new()];
    for t in TYPES {
        let g = CircuitGate { typ: t, wires: wires(), coeffs: Vec::new() };
        let none = g.verify(2, &witness, &Named(5), &[]);
        let one = g.verify(2, &witness, &Named(5), &[Fp::from_u64(1)]);
        assert_eq!(none == one, t != GateType::Generic);
    }
}

#[test]
fn only_some_gates_read_the_constraint_system() {
    let witness: [Vec<Fp>; 3] = [Vec::new(), Vec::new(), Vec::new()];
    let readers = [GateType::Poseidon, GateType::EndoMul, GateType::EndoMulScalar];
    for t in TYPES {
        let g = CircuitGate { typ: t, wires: wires(), coeffs: Vec::new() };
        let five = g.verify(2, &witness, &Named(5), &[]);
        let six = g.verify(2, &witness, &Named(6), &[]);
        assert_eq!(five == six, !readers.contains(&t));
    }
}

#[test]
fn digest_prefix() {
    assert_eq!(&Circuit::<Fp>::prefix(), b"kimchi-circuit0");
    let gates: Vec<CircuitGate<Fp>> = vec![CircuitGate::zero(wires())];
    assert_eq!(Circuit(&gates).0.len(), 1);
}

#[derive(Debug, PartialEq, Clone, Copy)]
struct Tagged(u32);

impl From<u16> for Tagged {
    fn from(x: u16) -> Self {
        Tagged(x as u32 + 100)
    }
}

impl From<Tagged> for u16 {
    fn from(x: Tagged) -> Self {
        (x.0 - 100) as u16
    }
}

#[test]
fn arrays_become_tuples_and_back() {
    let t: (u32, u32, u32, u32, u32, u32, u32) = array_to_tuple([1u16, 2, 3, 4, 5, 6, 7]);
    assert_eq!(t, (1, 2, 3, 4, 5, 6, 7));
    let a: [u64; 7] = tuple_to_array(t);
    assert_eq!(a, [1, 2, 3, 4, 5, 6, 7]);
}

#[test]
fn gates_go_to_ocaml_and_back() {
    let gate: CircuitGate<u16> =
        CircuitGate { typ: GateType::Poseidon, wires: wires(), coeffs: vec![3, 1, 2] };
    let borrowed: CamlCircuitGate<Tagged> = CamlCircuitGate::from(&gate);
    assert_eq!(borrowed.typ, GateType::Poseidon);
    assert_eq!(borrowed.wires.0, CamlWire { row: 0x1234, col: 0 });
    assert_eq!(borrowed.wires.6, CamlWire { row: 0x123a, col: 6 });
    assert_eq!(borrowed.coeffs, vec![Tagged(103), Tagged(101), Tagged(102)]);
    let owned: CamlCircuitGate<Tagged> = CamlCircuitGate::from(gate);
    assert_eq!(owned.wires, borrowed.wires);
    assert_eq!(owned.coeffs, borrowed.coeffs);
    let back: CircuitGate<u16> = CircuitGate::from(owned);
    assert_eq!(back.typ, GateType::Poseidon);
    assert_eq!(back.wires, wires());
    assert_eq!(back.coeffs, vec![3, 1, 2]);
}
