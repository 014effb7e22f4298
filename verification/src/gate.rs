//! The gates of a circuit.

use vstd::arithmetic::power::*;
use vstd::prelude::*;

use crate::bytes::ToBytes;
use crate::field::Fp;

verus! {

/// The number of cells of a row that can be wired.
pub const PERMUTS: usize = 7;

/// A row that a constraint can read: every polynomial is opened at a point and at its successor.
#[derive(Clone, Copy, Debug, PartialEq, Eq, Hash, PartialOrd, Ord, Structural)]
pub enum CurrOrNext {
    /// The row itself.
    Curr,
    /// The row after it.
    Next,
}

impl CurrOrNext {
    /// The distance to the row: zero for `Curr`, one for `Next`.
    pub open spec fn offset(self) -> nat {
        match self {
            CurrOrNext::Curr => 0,
            CurrOrNext::Next => 1,
        }
    }

    /// The distance to the row: zero for `Curr`, one for `Next`.
    pub fn shift(&self) -> (r: usize)
        ensures
            r == self.offset(),
            *self == CurrOrNext::Curr ==> r == 0,
            *self == CurrOrNext::Next ==> r == 1,
    {
        match self {
            CurrOrNext::Curr => 0,
            CurrOrNext::Next => 1,
        }
    }
}

/// A cell of the circuit, relative to a row.
#[derive(Clone, Copy, Debug)]
pub struct LocalPosition {
    /// The row of the cell.
    pub row: CurrOrNext,
    /// The column of the cell.
    pub column: usize,
}

/// The kinds of gate. A row holds one gate: no two of them share a row.
#[derive(Clone, Copy, Debug, PartialEq, Eq, Hash, PartialOrd, Ord, Structural)]
pub enum GateType {
    /// Zero gate
    Zero,
    /// Generic arithmetic gate
    Generic,
    /// Poseidon permutation gate
    Poseidon,
    /// Complete addition of curve points in affine form
    CompleteAdd,
    /// Multiplication of a variable curve point by a scalar
    VarBaseMul,
    /// Multiplication of a variable curve point by a scalar, by way of the group endomorphism
    EndoMul,
    /// The scalar that an endoscaling amounts to
    EndoMulScalar,
    /// ChaCha, first row
    ChaCha0,
    /// ChaCha, second row
    ChaCha1,
    /// ChaCha, third row
    ChaCha2,
    /// ChaCha, last row
    ChaChaFinal,
}

impl GateType {
    /// The number of the kind of gate.
    pub open spec fn code(self) -> u8 {
        match self {
            GateType::Zero => 0,
            GateType::Generic => 1,
            GateType::Poseidon => 2,
            GateType::CompleteAdd => 3,
            GateType::VarBaseMul => 4,
            GateType::EndoMul => 5,
            GateType::EndoMulScalar => 6,
            GateType::ChaCha0 => 7,
            GateType::ChaCha1 => 8,
            GateType::ChaCha2 => 9,
            GateType::ChaChaFinal => 10,
        }
    }

    /// The kind of gate with the given number, if there is one.
    pub fn from_u8(n: u8) -> (r: Option<GateType>)
        ensures
            r is Some <==> n <= 10,
            r matches Some(typ) ==> typ.code() == n,
    {
        match n {
            0 => Some(GateType::Zero),
            1 => Some(GateType::Generic),
            2 => Some(GateType::Poseidon),
            3 => Some(GateType::CompleteAdd),
            4 => Some(GateType::VarBaseMul),
            5 => Some(GateType::EndoMul),
            6 => Some(GateType::EndoMulScalar),
            7 => Some(GateType::ChaCha0),
            8 => Some(GateType::ChaCha1),
            9 => Some(GateType::ChaCha2),
            10 => Some(GateType::ChaChaFinal),
            _ => None,
        }
    }

    /// The number of the kind of gate.
    pub fn to_u8(&self) -> (r: u8)
        ensures
            r == self.code(),
    {
        match self {
            GateType::Zero => 0,
            GateType::Generic => 1,
            GateType::Poseidon => 2,
            GateType::CompleteAdd => 3,
            GateType::VarBaseMul => 4,
            GateType::EndoMul => 5,
            GateType::EndoMulScalar => 6,
            GateType::ChaCha0 => 7,
            GateType::ChaCha1 => 8,
            GateType::ChaCha2 => 9,
            GateType::ChaChaFinal => 10,
        }
    }
}

/// Each kind of gate has a number of its own.
pub proof fn lemma_code_injective(a: GateType, b: GateType)
    requires
        a.code() == b.code(),
    ensures
        a == b,
{
}

/// The cell that a cell is wired to.
#[derive(Clone, Copy, Debug, PartialEq, Eq, Structural)]
pub struct Wire {
    /// The row of the cell.
    pub row: usize,
    /// The column of the cell.
    pub col: usize,
}

impl ToBytes for Wire {
    open spec fn bytes(&self) -> Seq<u8> {
        crate::bytes::le_bytes(self.row as u32 as nat, 4) + crate::bytes::le_bytes(
            self.col as u32 as nat,
            4,
        )
    }

    fn write(&self, w: &mut Vec<u8>) {
        let row: u32 = #[verifier::truncate] (self.row as u32);
        let col: u32 = #[verifier::truncate] (self.col as u32);
        row.write(w);
        col.write(w);
        assert(w@ =~= old(w)@ + self.bytes());
    }
}

/// The wiring of a gate: for each cell of the row, the cell that it is wired to.
pub type GateWires = [Wire; PERMUTS];

/// A gate of a circuit.
#[derive(Clone, Debug)]
pub struct CircuitGate<F> {
    /// The kind of gate.
    pub typ: GateType,
    /// The wiring.
    pub wires: GateWires,
    /// The coefficients.
    pub coeffs: Vec<F>,
}

/// The checks that the witness of a row has to pass, one for each kind of gate that has
/// constraints; the rows of ChaCha share one. `COLUMNS` is the number of columns of the witness.
pub trait ConstraintSystem<F, const COLUMNS: usize> {
    /// Checks a generic gate.
    fn verify_generic(
        gate: &CircuitGate<F>,
        row: usize,
        witness: &[Vec<F>; COLUMNS],
        public: &[F],
    ) -> Result<(), String>;

    /// Checks a gate of the Poseidon permutation.
    fn verify_poseidon(
        gate: &CircuitGate<F>,
        row: usize,
        witness: &[Vec<F>; COLUMNS],
        cs: &Self,
    ) -> Result<(), String>;

    /// Checks a complete addition of curve points.
    fn verify_complete_add(
        gate: &CircuitGate<F>,
        row: usize,
        witness: &[Vec<F>; COLUMNS],
    ) -> Result<(), String>;

    /// Checks a multiplication of a curve point by a scalar.
    fn verify_vbmul(
        gate: &CircuitGate<F>,
        row: usize,
        witness: &[Vec<F>; COLUMNS],
    ) -> Result<(), String>;

    /// Checks a multiplication of a curve point by way of the endomorphism.
    fn verify_endomul(
        gate: &CircuitGate<F>,
        row: usize,
        witness: &[Vec<F>; COLUMNS],
        cs: &Self,
    ) -> Result<(), String>;

    /// Checks the scalar of an endoscaling.
    fn verify_endomul_scalar(
        gate: &CircuitGate<F>,
        row: usize,
        witness: &[Vec<F>; COLUMNS],
        cs: &Self,
    ) -> Result<(), String>;

    /// Checks a row of ChaCha.
    fn verify_chacha(
        gate: &CircuitGate<F>,
        row: usize,
        witness: &[Vec<F>; COLUMNS],
    ) -> Result<(), String>;
}

impl<F> CircuitGate<F> {
    /// A gate without constraints.
    pub fn zero(wires: GateWires) -> (r: Self)
        ensures
            r.typ == GateType::Zero,
            r.wires == wires,
            r.coeffs@.len() == 0,
    {
        CircuitGate { typ: GateType::Zero, wires, coeffs: Vec::new() }
    }

    /// `r` is a possible outcome of checking the witness of a row: the check of this kind of gate
    /// may give it. A zero gate has no constraints and passes.
    pub open spec fn outcome<const COLUMNS: usize, C: ConstraintSystem<F, COLUMNS>>(
        &self,
        row: usize,
        witness: &[Vec<F>; COLUMNS],
        cs: &C,
        public: &[F],
        r: Result<(), String>,
    ) -> bool {
        match self.typ {
            GateType::Zero => r is Ok,
            GateType::Generic => call_ensures(C::verify_generic, (self, row, witness, public), r),
            GateType::Poseidon => call_ensures(C::verify_poseidon, (self, row, witness, cs), r),
            GateType::CompleteAdd => call_ensures(
                C::verify_complete_add,
                (self, row, witness),
                r,
            ),
            GateType::VarBaseMul => call_ensures(C::verify_vbmul, (self, row, witness), r),
            GateType::EndoMul => call_ensures(C::verify_endomul, (self, row, witness, cs), r),
            GateType::EndoMulScalar => call_ensures(
                C::verify_endomul_scalar,
                (self, row, witness, cs),
                r,
            ),
            GateType::ChaCha0 | GateType::ChaCha1 | GateType::ChaCha2
            | GateType::ChaChaFinal => call_ensures(C::verify_chacha, (self, row, witness), r),
        }
    }

    /// Checks the witness of a row against the constraints of its gate.
    pub fn verify<const COLUMNS: usize, C: ConstraintSystem<F, COLUMNS>>(
        &self,
        row: usize,
        witness: &[Vec<F>; COLUMNS],
        cs: &C,
        public: &[F],
    ) -> (r: Result<(), String>)
        ensures
            self.outcome(row, witness, cs, public, r),
            self.typ == GateType::Zero ==> r is Ok,
            self.typ == GateType::Generic ==> call_ensures(
                C::verify_generic,
                (self, row, witness, public),
                r,
            ),
            self.typ == GateType::Poseidon ==> call_ensures(
                C::verify_poseidon,
                (self, row, witness, cs),
                r,
            ),
            self.typ == GateType::CompleteAdd ==> call_ensures(
                C::verify_complete_add,
                (self, row, witness),
                r,
            ),
            self.typ == GateType::VarBaseMul ==> call_ensures(
                C::verify_vbmul,
                (self, row, witness),
                r,
            ),
            self.typ == GateType::EndoMul ==> call_ensures(
                C::verify_endomul,
                (self, row, witness, cs),
                r,
            ),
            self.typ == GateType::EndoMulScalar ==> call_ensures(
                C::verify_endomul_scalar,
                (self, row, witness, cs),
                r,
            ),
            self.typ == GateType::ChaCha0 || self.typ == GateType::ChaCha1 || self.typ
                == GateType::ChaCha2 || self.typ == GateType::ChaChaFinal ==> call_ensures(
                C::verify_chacha,
                (self, row, witness),
                r,
            ),
    {
        match self.typ {
            GateType::Zero => Ok(()),
            GateType::Generic => C::verify_generic(self, row, witness, public),
            GateType::Poseidon => C::verify_poseidon(self, row, witness, cs),
            GateType::CompleteAdd => C::verify_complete_add(self, row, witness),
            GateType::VarBaseMul => C::verify_vbmul(self, row, witness),
            GateType::EndoMul => C::verify_endomul(self, row, witness, cs),
            GateType::EndoMulScalar => C::verify_endomul_scalar(self, row, witness, cs),
            GateType::ChaCha0 | GateType::ChaCha1 | GateType::ChaCha2
            | GateType::ChaChaFinal => C::verify_chacha(self, row, witness),
        }
    }
}

/// The check of this kind of gate is handed the public inputs.
pub open spec fn reads_public(typ: GateType) -> bool {
    typ == GateType::Generic
}

/// The check of this kind of gate is handed the constraint system.
pub open spec fn reads_system(typ: GateType) -> bool {
    typ == GateType::Poseidon || typ == GateType::EndoMul || typ == GateType::EndoMulScalar
}

/// What checking a witness may give depends on the public inputs only for generic gates, and on
/// the constraint system only for Poseidon gates and the two kinds of endomorphism gate.
pub proof fn lemma_outcome_depends<F, const COLUMNS: usize, C: ConstraintSystem<F, COLUMNS>>(
    gate: &CircuitGate<F>,
    row: usize,
    witness: &[Vec<F>; COLUMNS],
    cs1: &C,
    public1: &[F],
    cs2: &C,
    public2: &[F],
    r: Result<(), String>,
)
    requires
        reads_public(gate.typ) ==> public1 == public2,
        reads_system(gate.typ) ==> cs1 == cs2,
    ensures
        gate.outcome(row, witness, cs1, public1, r) <==> gate.outcome(
            row,
            witness,
            cs2,
            public2,
            r,
        ),
{
}

/// Two checks of a witness whose public inputs differ only where the kind of gate is not generic,
/// and whose constraint systems differ only where the kind of gate is neither Poseidon nor one of
/// the two kinds of endomorphism gate, give the same, wherever the check gives one answer.
pub proof fn lemma_verify_agrees<F, const COLUMNS: usize, C: ConstraintSystem<F, COLUMNS>>(
    gate: &CircuitGate<F>,
    row: usize,
    witness: &[Vec<F>; COLUMNS],
    cs1: &C,
    public1: &[F],
    cs2: &C,
    public2: &[F],
    r1: Result<(), String>,
    r2: Result<(), String>,
)
    requires
        reads_public(gate.typ) ==> public1 == public2,
        reads_system(gate.typ) ==> cs1 == cs2,
        gate.outcome(row, witness, cs1, public1, r1),
        gate.outcome(row, witness, cs2, public2, r2),
        forall|x: Result<(), String>, y: Result<(), String>|
            #![trigger gate.outcome(row, witness, cs1, public1, x), gate.outcome(
                row,
                witness,
                cs1,
                public1,
                y,
            )]
            gate.outcome(row, witness, cs1, public1, x) && gate.outcome(
                row,
                witness,
                cs1,
                public1,
                y,
            ) ==> x == y,
    ensures
        r1 == r2,
{
    lemma_outcome_depends(gate, row, witness, cs1, public1, cs2, public2, r2);
}

impl<F: ToBytes> CircuitGate<F> {
    /// The encoding of a gate of which the first `columns` wires are used: the number of its kind,
    /// the wires, the number of coefficients modulo 256, and the coefficients.
    pub open spec fn bytes(&self, columns: nat) -> Seq<u8> {
        seq![self.typ.code()] + crate::bytes::all_bytes(self.wires@.take(columns as int)) + seq![
            self.coeffs@.len() as u8,
        ] + crate::bytes::all_bytes(self.coeffs@)
    }

    /// Appends the encoding to `w`, with the first `COLUMNS` wires.
    pub fn write<const COLUMNS: usize>(&self, w: &mut Vec<u8>)
        requires
            COLUMNS <= PERMUTS,
        ensures
            final(w)@ == old(w)@ + self.bytes(COLUMNS as nat),
    {
        let ghost base = w@;
        let ghost wires = self.wires@;
        let ghost head = seq![self.typ.code()];
        self.typ.to_u8().write(w);
        assert(w@ =~= base + (head + crate::bytes::all_bytes(wires.take(0))));
        for i in 0..COLUMNS
            invariant
                COLUMNS <= PERMUTS,
                wires == self.wires@,
                w@ == base + (head + crate::bytes::all_bytes(wires.take(i as int))),
        {
            self.wires[i].write(w);
            assert(wires.take(i + 1).drop_last() =~= wires.take(i as int));
            assert(w@ =~= base + (head + crate::bytes::all_bytes(wires.take(i + 1))));
        }
        let n: u8 = #[verifier::truncate] (self.coeffs.len() as u8);
        n.write(w);
        let ghost front = head + crate::bytes::all_bytes(wires.take(COLUMNS as int)) + seq![n];
        assert(w@ =~= base + (front + crate::bytes::all_bytes(self.coeffs@.take(0))));
        for i in 0..self.coeffs.len()
            invariant
                w@ == base + (front + crate::bytes::all_bytes(self.coeffs@.take(i as int))),
        {
            self.coeffs[i].write(w);
            assert(self.coeffs@.take(i + 1).drop_last() =~= self.coeffs@.take(i as int));
            assert(w@ =~= base + (front + crate::bytes::all_bytes(self.coeffs@.take(i + 1))));
        }
        assert(self.coeffs@.take(self.coeffs@.len() as int) =~= self.coeffs@);
    }
}

/// A circuit: its gates, row by row.
pub struct Circuit<'a, F>(pub &'a [CircuitGate<F>]);

impl<'a, F> Circuit<'a, F> {
    /// The bytes that the digest of a circuit starts from: `kimchi-circuit0`.
    pub fn prefix() -> (r: [u8; 15])
        ensures
            r@ == seq![
                0x6bu8,
                0x69,
                0x6d,
                0x63,
                0x68,
                0x69,
                0x2d,
                0x63,
                0x69,
                0x72,
                0x63,
                0x75,
                0x69,
                0x74,
                0x30,
            ],
    {
        let r: [u8; 15] = [
            0x6b,
            0x69,
            0x6d,
            0x63,
            0x68,
            0x69,
            0x2d,
            0x63,
            0x69,
            0x72,
            0x63,
            0x75,
            0x69,
            0x74,
            0x30,
        ];
        r
    }
}

/// A wire whose row and column each fit in four bytes.
pub open spec fn small_wire(w: Wire) -> bool {
    w.row < 0x1_0000_0000 && w.col < 0x1_0000_0000
}

/// Wires with small rows and columns are told apart by their encodings.
proof fn lemma_wire_bytes_injective(a: Wire, b: Wire)
    requires
        small_wire(a),
        small_wire(b),
        a.bytes() == b.bytes(),
    ensures
        a == b,
{
    lemma_wire_bytes_len(a);
    lemma_wire_bytes_len(b);
    crate::bytes::lemma_le_bytes_len(a.row as u32 as nat, 4);
    crate::bytes::lemma_le_bytes_len(b.row as u32 as nat, 4);
    assert(a.bytes().take(4) =~= crate::bytes::le_bytes(a.row as u32 as nat, 4));
    assert(b.bytes().take(4) =~= crate::bytes::le_bytes(b.row as u32 as nat, 4));
    assert(a.bytes().skip(4) =~= crate::bytes::le_bytes(a.col as u32 as nat, 4));
    assert(b.bytes().skip(4) =~= crate::bytes::le_bytes(b.col as u32 as nat, 4));
    assert(pow(256, 4) == 0x1_0000_0000) by {
        reveal_with_fuel(pow, 5);
    }
    crate::bytes::lemma_le_bytes_injective(a.row as u32 as nat, b.row as u32 as nat, 4);
    crate::bytes::lemma_le_bytes_injective(a.col as u32 as nat, b.col as u32 as nat, 4);
}

/// The length of the encoding of a wire.
proof fn lemma_wire_bytes_len(a: Wire)
    ensures
        a.bytes().len() == 8,
{
    crate::bytes::lemma_le_bytes_len(a.row as u32 as nat, 4);
    crate::bytes::lemma_le_bytes_len(a.col as u32 as nat, 4);
}

/// Field elements are told apart by their encodings.
proof fn lemma_fp_bytes_injective(a: nat, b: nat)
    requires
        a < crate::field::modulus(),
        b < crate::field::modulus(),
        crate::bytes::le_bytes(a, 32) == crate::bytes::le_bytes(b, 32),
    ensures
        a == b,
{
    crate::bytes::lemma_fp_read_back(a);
    crate::bytes::lemma_fp_read_back(b);
}

/// Gates over the field `Fp` are told apart by their encodings: two gates with the same encoding
/// are of the same kind, have the same wires as far as these are written, and the same
/// coefficients. The numbers in the wires have to fit in four bytes and the number of coefficients
/// in one.
pub proof fn lemma_gate_bytes_injective(a: &CircuitGate<Fp>, b: &CircuitGate<Fp>, columns: nat)
    requires
        columns <= PERMUTS,
        forall|i: int| 0 <= i < columns ==> small_wire(#[trigger] a.wires@[i]),
        forall|i: int| 0 <= i < columns ==> small_wire(#[trigger] b.wires@[i]),
        a.coeffs@.len() < 256,
        b.coeffs@.len() < 256,
        forall|i: int|
            0 <= i < a.coeffs@.len() ==> (#[trigger] a.coeffs@[i])@ < crate::field::modulus(),
        forall|i: int|
            0 <= i < b.coeffs@.len() ==> (#[trigger] b.coeffs@[i])@ < crate::field::modulus(),
        a.bytes(columns) == b.bytes(columns),
    ensures
        a.typ == b.typ,
        a.wires@.take(columns as int) == b.wires@.take(columns as int),
        crate::domain::views(a.coeffs@) == crate::domain::views(b.coeffs@),
{
    let (aw, bw) = (a.wires@.take(columns as int), b.wires@.take(columns as int));
    let (x, y) = (a.bytes(columns), b.bytes(columns));
    assert forall|i: int| 0 <= i < aw.len() implies (#[trigger] aw[i]).bytes().len() == 8 by {
        lemma_wire_bytes_len(aw[i]);
    }
    assert forall|i: int| 0 <= i < bw.len() implies (#[trigger] bw[i]).bytes().len() == 8 by {
        lemma_wire_bytes_len(bw[i]);
    }
    crate::bytes::lemma_all_bytes_len(aw, 8);
    crate::bytes::lemma_all_bytes_len(bw, 8);
    let n: int = 1 + columns as int * 8;
    assert(x[0] == a.typ.code() && y[0] == b.typ.code());
    lemma_code_injective(a.typ, b.typ);
    assert(x.subrange(1, n) =~= crate::bytes::all_bytes(aw));
    assert(y.subrange(1, n) =~= crate::bytes::all_bytes(bw));
    crate::bytes::lemma_all_bytes_split(aw, bw, 8);
    assert forall|i: int| 0 <= i < columns implies aw[i] == bw[i] by {
        assert(aw[i] == a.wires@[i] && bw[i] == b.wires@[i]);
        lemma_wire_bytes_injective(aw[i], bw[i]);
    }
    assert(aw =~= bw);
    assert(x[n] == a.coeffs@.len() as u8 && y[n] == b.coeffs@.len() as u8);
    assert(x.skip(n + 1) =~= crate::bytes::all_bytes(a.coeffs@));
    assert(y.skip(n + 1) =~= crate::bytes::all_bytes(b.coeffs@));
    assert forall|i: int| 0 <= i < a.coeffs@.len() implies (#[trigger] a.coeffs@[i]).bytes().len()
        == 32 by {
        crate::bytes::lemma_le_bytes_len(a.coeffs@[i]@, 32);
    }
    assert forall|i: int| 0 <= i < b.coeffs@.len() implies (#[trigger] b.coeffs@[i]).bytes().len()
        == 32 by {
        crate::bytes::lemma_le_bytes_len(b.coeffs@[i]@, 32);
    }
    crate::bytes::lemma_all_bytes_split(a.coeffs@, b.coeffs@, 32);
    assert forall|i: int| 0 <= i < a.coeffs@.len() implies a.coeffs@[i]@ == b.coeffs@[i]@ by {
        assert(a.coeffs@[i].bytes() == b.coeffs@[i].bytes());
        lemma_fp_bytes_injective(a.coeffs@[i]@, b.coeffs@[i]@);
    }
    assert(crate::domain::views(a.coeffs@) =~= crate::domain::views(b.coeffs@));
}

/// The kinds of gate are numbered from zero to ten, in order.
pub proof fn lemma_codes(typ: GateType)
    ensures
        typ == GateType::Zero <==> typ.code() == 0,
        typ == GateType::Generic <==> typ.code() == 1,
        typ == GateType::Poseidon <==> typ.code() == 2,
        typ == GateType::CompleteAdd <==> typ.code() == 3,
        typ == GateType::VarBaseMul <==> typ.code() == 4,
        typ == GateType::EndoMul <==> typ.code() == 5,
        typ == GateType::EndoMulScalar <==> typ.code() == 6,
        typ == GateType::ChaCha0 <==> typ.code() == 7,
        typ == GateType::ChaCha1 <==> typ.code() == 8,
        typ == GateType::ChaCha2 <==> typ.code() == 9,
        typ == GateType::ChaChaFinal <==> typ.code() == 10,
{
}

/// The distance to the row itself is zero and that to the next row is one.
pub proof fn lemma_offsets(row: CurrOrNext)
    ensures
        row == CurrOrNext::Curr <==> row.offset() == 0,
        row == CurrOrNext::Next <==> row.offset() == 1,
{
}

/// Checking a witness gives, for a gate with constraints, what the check of its kind gives on that
/// gate, row and witness, and for a zero gate success.
pub proof fn lemma_outcome_is_of_the_check<F, const COLUMNS: usize, C: ConstraintSystem<F, COLUMNS>>(
    gate: &CircuitGate<F>,
    row: usize,
    witness: &[Vec<F>; COLUMNS],
    cs: &C,
    public: &[F],
    r: Result<(), String>,
)
    requires
        gate.outcome(row, witness, cs, public, r),
    ensures
        gate.typ == GateType::Zero ==> r is Ok,
        gate.typ == GateType::Generic ==> call_ensures(
            C::verify_generic,
            (gate, row, witness, public),
            r,
        ),
        gate.typ == GateType::Poseidon ==> call_ensures(
            C::verify_poseidon,
            (gate, row, witness, cs),
            r,
        ),
        gate.typ == GateType::CompleteAdd ==> call_ensures(
            C::verify_complete_add,
            (gate, row, witness),
            r,
        ),
        gate.typ == GateType::VarBaseMul ==> call_ensures(
            C::verify_vbmul,
            (gate, row, witness),
            r,
        ),
        gate.typ == GateType::EndoMul ==> call_ensures(
            C::verify_endomul,
            (gate, row, witness, cs),
            r,
        ),
        gate.typ == GateType::EndoMulScalar ==> call_ensures(
            C::verify_endomul_scalar,
            (gate, row, witness, cs),
            r,
        ),
        gate.typ == GateType::ChaCha0 || gate.typ == GateType::ChaCha1 || gate.typ
            == GateType::ChaCha2 || gate.typ == GateType::ChaChaFinal ==> call_ensures(
            C::verify_chacha,
            (gate, row, witness),
            r,
        ),
{
}

/// A witness that the check of its kind of gate can only refuse is refused.
pub proof fn lemma_refused_witness<F, const COLUMNS: usize, C: ConstraintSystem<F, COLUMNS>>(
    gate: &CircuitGate<F>,
    row: usize,
    witness: &[Vec<F>; COLUMNS],
    cs: &C,
    public: &[F],
    r: Result<(), String>,
)
    requires
        gate.outcome(row, witness, cs, public, r),
    ensures
        gate.typ == GateType::Generic && (forall|x: Result<(), String>| #[trigger]
            call_ensures(C::verify_generic, (gate, row, witness, public), x) ==> x is Err) ==> r is Err,
        gate.typ == GateType::Poseidon && (forall|x: Result<(), String>| #[trigger]
            call_ensures(C::verify_poseidon, (gate, row, witness, cs), x) ==> x is Err) ==> r is Err,
        gate.typ == GateType::CompleteAdd && (forall|x: Result<(), String>| #[trigger]
            call_ensures(C::verify_complete_add, (gate, row, witness), x) ==> x is Err) ==> r is Err,
        gate.typ == GateType::VarBaseMul && (forall|x: Result<(), String>| #[trigger]
            call_ensures(C::verify_vbmul, (gate, row, witness), x) ==> x is Err) ==> r is Err,
        gate.typ == GateType::EndoMul && (forall|x: Result<(), String>| #[trigger]
            call_ensures(C::verify_endomul, (gate, row, witness, cs), x) ==> x is Err) ==> r is Err,
        gate.typ == GateType::EndoMulScalar && (forall|x: Result<(), String>| #[trigger]
            call_ensures(C::verify_endomul_scalar, (gate, row, witness, cs), x) ==> x is Err) ==> r is Err,
        (gate.typ == GateType::ChaCha0 || gate.typ == GateType::ChaCha1 || gate.typ
            == GateType::ChaCha2 || gate.typ == GateType::ChaChaFinal) && (forall|x: Result<(), String>| #[trigger]
            call_ensures(C::verify_chacha, (gate, row, witness), x) ==> x is Err) ==> r is Err,
{
}

/// A witness that the check of its kind of gate can only accept is accepted.
pub proof fn lemma_accepted_witness<F, const COLUMNS: usize, C: ConstraintSystem<F, COLUMNS>>(
    gate: &CircuitGate<F>,
    row: usize,
    witness: &[Vec<F>; COLUMNS],
    cs: &C,
    public: &[F],
    r: Result<(), String>,
)
    requires
        gate.outcome(row, witness, cs, public, r),
    ensures
        gate.typ == GateType::Generic && (forall|x: Result<(), String>| #[trigger]
            call_ensures(C::verify_generic, (gate, row, witness, public), x) ==> x is Ok) ==> r is Ok,
        gate.typ == GateType::Poseidon && (forall|x: Result<(), String>| #[trigger]
            call_ensures(C::verify_poseidon, (gate, row, witness, cs), x) ==> x is Ok) ==> r is Ok,
        gate.typ == GateType::CompleteAdd && (forall|x: Result<(), String>| #[trigger]
            call_ensures(C::verify_complete_add, (gate, row, witness), x) ==> x is Ok) ==> r is Ok,
        gate.typ == GateType::VarBaseMul && (forall|x: Result<(), String>| #[trigger]
            call_ensures(C::verify_vbmul, (gate, row, witness), x) ==> x is Ok) ==> r is Ok,
        gate.typ == GateType::EndoMul && (forall|x: Result<(), String>| #[trigger]
            call_ensures(C::verify_endomul, (gate, row, witness, cs), x) ==> x is Ok) ==> r is Ok,
        gate.typ == GateType::EndoMulScalar && (forall|x: Result<(), String>| #[trigger]
            call_ensures(C::verify_endomul_scalar, (gate, row, witness, cs), x) ==> x is Ok) ==> r is Ok,
        (gate.typ == GateType::ChaCha0 || gate.typ == GateType::ChaCha1 || gate.typ
            == GateType::ChaCha2 || gate.typ == GateType::ChaChaFinal) && (forall|x: Result<(), String>| #[trigger]
            call_ensures(C::verify_chacha, (gate, row, witness), x) ==> x is Ok) ==> r is Ok,
{
}

/// The encoding of a gate over the field `Fp`, byte by byte: the number of its kind; for each wire
/// that is written the four digits to the base 256 of its row and those of its column; the number of
/// coefficients in one byte; and for each coefficient its thirty-two digits.
pub proof fn lemma_gate_layout(gate: &CircuitGate<Fp>, columns: nat, i: int, j: int)
    requires
        columns <= PERMUTS,
    ensures
        gate.bytes(columns).len() == 2 + 8 * columns + 32 * gate.coeffs@.len(),
        gate.bytes(columns)[0] == gate.typ.code(),
        0 <= i < columns && 0 <= j < 4 ==> gate.bytes(columns)[1 + 8 * i + j] as int == (
        gate.wires@[i].row as u32 as int / pow(256, j as nat)) % 256,
        0 <= i < columns && 0 <= j < 4 ==> gate.bytes(columns)[5 + 8 * i + j] as int == (
        gate.wires@[i].col as u32 as int / pow(256, j as nat)) % 256,
        gate.bytes(columns)[1 + 8 * columns as int] == gate.coeffs@.len() as u8,
        0 <= i < gate.coeffs@.len() && 0 <= j < 32 ==> gate.bytes(columns)[2 + 8 * columns + 32 * i
            + j] as int == (gate.coeffs@[i]@ as int / pow(256, j as nat)) % 256,
{
    let b = gate.bytes(columns);
    let w = gate.wires@.take(columns as int);
    let c = gate.coeffs@;
    assert forall|k: int| 0 <= k < w.len() implies (#[trigger] w[k]).bytes().len() == 8 by {
        lemma_wire_bytes_len(w[k]);
    }
    assert forall|k: int| 0 <= k < c.len() implies (#[trigger] c[k]).bytes().len() == 32 by {
        crate::bytes::lemma_le_bytes_len(c[k]@, 32);
    }
    crate::bytes::lemma_all_bytes_len(w, 8);
    crate::bytes::lemma_all_bytes_len(c, 32);
    if 0 <= i < columns && 0 <= j < 4 {
        let row = gate.wires@[i].row as u32 as nat;
        let col = gate.wires@[i].col as u32 as nat;
        crate::bytes::lemma_all_bytes_at(w, 8, i, j);
        crate::bytes::lemma_all_bytes_at(w, 8, i, 4 + j);
        crate::bytes::lemma_le_bytes_digit(row, 4, j);
        crate::bytes::lemma_le_bytes_digit(col, 4, j);
        assert(w[i] == gate.wires@[i]);
        assert(w[i].bytes()[j] == crate::bytes::le_bytes(row, 4)[j]);
        assert(w[i].bytes()[4 + j] == crate::bytes::le_bytes(col, 4)[j]);
    }
    if 0 <= i < c.len() && 0 <= j < 32 {
        crate::bytes::lemma_all_bytes_at(c, 32, i, j);
        crate::bytes::lemma_fp_encoding(c[i], j);
    }
}

/// What `verify` returns: for a zero gate success, and for a gate with constraints what the check of
/// its kind gives on that gate, row and witness, so that a witness that this check can only refuse
/// is refused.
pub proof fn lemma_verify_call<F, const COLUMNS: usize, C: ConstraintSystem<F, COLUMNS>>(
    gate: &CircuitGate<F>,
    row: usize,
    witness: &[Vec<F>; COLUMNS],
    cs: &C,
    public: &[F],
    r: Result<(), String>,
)
    requires
        call_ensures(CircuitGate::<F>::verify::<COLUMNS, C>, (gate, row, witness, cs, public), r),
    ensures
        gate.typ == GateType::Zero ==> r is Ok,
        gate.typ == GateType::Generic ==> call_ensures(
            C::verify_generic,
            (gate, row, witness, public),
            r,
        ),
        gate.typ == GateType::Poseidon ==> call_ensures(
            C::verify_poseidon,
            (gate, row, witness, cs),
            r,
        ),
        gate.typ == GateType::CompleteAdd ==> call_ensures(
            C::verify_complete_add,
            (gate, row, witness),
            r,
        ),
        gate.typ == GateType::VarBaseMul ==> call_ensures(
            C::verify_vbmul,
            (gate, row, witness),
            r,
        ),
        gate.typ == GateType::EndoMul ==> call_ensures(
            C::verify_endomul,
            (gate, row, witness, cs),
            r,
        ),
        gate.typ == GateType::EndoMulScalar ==> call_ensures(
            C::verify_endomul_scalar,
            (gate, row, witness, cs),
            r,
        ),
        gate.typ == GateType::ChaCha0 || gate.typ == GateType::ChaCha1 || gate.typ
            == GateType::ChaCha2 || gate.typ == GateType::ChaChaFinal ==> call_ensures(
            C::verify_chacha,
            (gate, row, witness),
            r,
        ),
        gate.typ == GateType::Generic && (forall|x: Result<(), String>| #[trigger]
            call_ensures(C::verify_generic, (gate, row, witness, public), x) ==> x is Err) ==> r is Err,
        gate.typ == GateType::Poseidon && (forall|x: Result<(), String>| #[trigger]
            call_ensures(C::verify_poseidon, (gate, row, witness, cs), x) ==> x is Err) ==> r is Err,
        gate.typ == GateType::CompleteAdd && (forall|x: Result<(), String>| #[trigger]
            call_ensures(C::verify_complete_add, (gate, row, witness), x) ==> x is Err) ==> r is Err,
        gate.typ == GateType::VarBaseMul && (forall|x: Result<(), String>| #[trigger]
            call_ensures(C::verify_vbmul, (gate, row, witness), x) ==> x is Err) ==> r is Err,
        gate.typ == GateType::EndoMul && (forall|x: Result<(), String>| #[trigger]
            call_ensures(C::verify_endomul, (gate, row, witness, cs), x) ==> x is Err) ==> r is Err,
        gate.typ == GateType::EndoMulScalar && (forall|x: Result<(), String>| #[trigger]
            call_ensures(C::verify_endomul_scalar, (gate, row, witness, cs), x) ==> x is Err) ==> r is Err,
        (gate.typ == GateType::ChaCha0 || gate.typ == GateType::ChaCha1 || gate.typ
            == GateType::ChaCha2 || gate.typ == GateType::ChaChaFinal) && (forall|x: Result<(), String>| #[trigger]
            call_ensures(C::verify_chacha, (gate, row, witness), x) ==> x is Err) ==> r is Err,
{
}

} // verus!
