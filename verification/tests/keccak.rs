use kimchi::field::{Fp, One};
use kimchi::keccak::environment::{KeccakCells, KeccakEnv};
use kimchi::keccak::lookup::{Lookup, LookupMode, LookupTable};

fn fp(n: u64) -> Fp {
    Fp::from_u64(n)
}

/// Cells numbered from `start`.
fn run(start: u64, n: u64) -> Vec<Fp> {
    let mut r: Vec<Fp> = Vec::new();
    for i in 0..n {
        r.push(fp(start + i));
    }
    r
}

fn env() -> KeccakEnv<Fp> {
    KeccakEnv::new(KeccakCells {
        length: fp(136),
        two_to_pad: fp(137),
        pad_suffix: run(140, 5),
        is_sponge: fp(2),
        sponge_bytes: run(1000, 200),
        sponge_shifts: run(2000, 400),
        is_round: fp(3),
        remainder_c: run(3000, 20),
        dense_rot_c: run(3100, 20),
        expand_rot_c: run(3200, 20),
        dense_c: run(3300, 20),
        shifts_c: run(3400, 80),
        remainder_e: run(4000, 100),
        quotient_e: run(4100, 100),
        dense_rot_e: run(4200, 100),
        expand_rot_e: run(4300, 100),
        dense_e: run(4400, 100),
        shifts_e: run(4500, 400),
        shifts_b: run(5000, 400),
        shifts_sum: run(6000, 400),
        round: fp(23),
        round_constants: run(7000, 4),
    })
}

fn check(l: &Lookup<Fp>, magnitude: u64, table: LookupTable, value: &[u64]) {
    assert_eq!(l.mode, LookupMode::Read);
    assert_eq!(l.magnitude, fp(magnitude));
    assert_eq!(l.table_id, table);
    let mut expected: Vec<Fp> = Vec::new();
    for v in value {
        expected.push(fp(*v));
    }
    assert_eq!(l.value, expected);
}

#[test]
fn single_requests() {
    let mut e = env();
    e.lookup_rc16(LookupMode::Read, fp(1), fp(9));
    e.lookup_reset(LookupMode::Read, fp(0), fp(9), fp(8));
    e.lookup_byte(LookupMode::Read, fp(5), fp(7));
    e.add_lookup(Lookup::new(LookupMode::Read, LookupTable::PadLookup, vec![fp(6)]));
    assert_eq!(e.lookups.len(), 4);
    check(&e.lookups[0], 1, LookupTable::RangeCheck16Lookup, &[9]);
    check(&e.lookups[1], 0, LookupTable::ResetLookup, &[9, 8]);
    check(&e.lookups[2], 5, LookupTable::ByteLookup, &[7]);
    check(&e.lookups[3], 1, LookupTable::PadLookup, &[6]);
    assert_eq!(e.lookups[3].magnitude, Fp::one());
}

#[test]
fn sponge_requests_of_a_row() {
    let mut e = env();
    e.lookups(LookupMode::Read);
    let l = &e.lookups;
    check(&l[0], 1, LookupTable::PadLookup, &[136, 137, 140, 141, 142, 143, 144]);
    check(&l[1], 2, LookupTable::ByteLookup, &[1000]);
    check(&l[200], 2, LookupTable::ByteLookup, &[1199]);
    check(&l[201], 1, LookupTable::SparseLookup, &[2100]);
    check(&l[500], 1, LookupTable::SparseLookup, &[2399]);
    check(&l[501], 2, LookupTable::ResetLookup, &[1000 + 256 * 1001, 2000]);
    check(&l[600], 2, LookupTable::ResetLookup, &[1198 + 256 * 1199, 2099]);
}

#[test]
fn round_requests_of_a_row() {
    let mut e = env();
    e.lookups(LookupMode::Read);
    let l = &e.lookups;
    // First quarter of the first column.
    check(&l[601], 3, LookupTable::RangeCheck16Lookup, &[3000]);
    check(&l[602], 3, LookupTable::ResetLookup, &[3100, 3200]);
    check(&l[603], 3, LookupTable::ResetLookup, &[3300, 3400]);
    check(&l[604], 1, LookupTable::SparseLookup, &[3420]);
    check(&l[605], 1, LookupTable::SparseLookup, &[3440]);
    check(&l[606], 1, LookupTable::SparseLookup, &[3460]);
    // Columns come before quarters.
    check(&l[607], 3, LookupTable::RangeCheck16Lookup, &[3004]);
    check(&l[631], 3, LookupTable::RangeCheck16Lookup, &[3001]);
    check(&l[720], 1, LookupTable::SparseLookup, &[3479]);
    // First quarter of the first lane, then the lane in the next row.
    check(&l[721], 3, LookupTable::RangeCheck16Lookup, &[4000]);
    check(&l[722], 3, LookupTable::RangeCheck16Lookup, &[4100]);
    check(&l[723], 3, LookupTable::ResetLookup, &[4200, 4300]);
    check(&l[724], 3, LookupTable::ResetLookup, &[4400, 4500]);
    check(&l[725], 1, LookupTable::SparseLookup, &[4600]);
    check(&l[728], 3, LookupTable::RangeCheck16Lookup, &[4020]);
    check(&l[756], 3, LookupTable::RangeCheck16Lookup, &[4004]);
    check(&l[896], 3, LookupTable::RangeCheck16Lookup, &[4001]);
    check(&l[1420], 1, LookupTable::SparseLookup, &[4899]);
    check(&l[1421], 1, LookupTable::SparseLookup, &[5000]);
    check(&l[1422], 1, LookupTable::SparseLookup, &[6000]);
    check(&l[2220], 1, LookupTable::SparseLookup, &[6399]);
    check(&l[2221], 1, LookupTable::RoundConstantsLookup, &[23, 7000]);
    check(&l[2224], 1, LookupTable::RoundConstantsLookup, &[23, 7003]);
    assert_eq!(l.len(), 2225);
}

#[test]
fn requests_are_added_to_earlier_ones() {
    let mut e = env();
    e.lookup_byte(LookupMode::Write, fp(5), fp(7));
    e.lookups(LookupMode::Read);
    e.lookups(LookupMode::Write);
    assert_eq!(e.lookups.len(), 1 + 2 * 2225);
    assert_eq!(e.lookups[0].value, vec![fp(7)]);
    for i in 0..2225 {
        assert_eq!(e.lookups[1 + i].mode, LookupMode::Read);
        assert_eq!(e.lookups[2226 + i].mode, LookupMode::Write);
        assert_eq!(e.lookups[1 + i].value, e.lookups[2226 + i].value);
    }
}

#[test]
fn every_request_is_as_wide_as_its_table() {
    let mut e = env();
    e.lookups(LookupMode::Read);
    for l in &e.lookups {
        let width = match l.table_id {
            LookupTable::PadLookup => 7,
            LookupTable::RoundConstantsLookup | LookupTable::ResetLookup => 2,
            _ => 1,
        };
        assert_eq!(l.value.len(), width);
    }
}

#[test]
fn every_shifted_part_is_requested() {
    let mut e = env();
    e.lookups(LookupMode::Read);
    let mut seen: Vec<Fp> = Vec::new();
    for l in &e.lookups {
        match l.table_id {
            LookupTable::SparseLookup => seen.push(l.value[0]),
            LookupTable::ResetLookup => seen.push(l.value[1]),
            _ => {}
        }
    }
    for (start, n) in [(2000, 400), (3400, 80), (4500, 400), (5000, 400), (6000, 400)] {
        for cell in run(start, n) {
            assert!(seen.contains(&cell));
        }
    }
}

#[test]
fn quarters_of_bytes_are_numbers_of_sixteen_bits() {
    let mut e = env();
    e.cells.sponge_bytes[6] = fp(0xcd);
    e.cells.sponge_bytes[7] = fp(0xab);
    e.cells.sponge_bytes[8] = fp(255);
    e.cells.sponge_bytes[9] = fp(255);
    e.lookups(LookupMode::Read);
    check(&e.lookups[504], 2, LookupTable::ResetLookup, &[0xabcd, 2003]);
    check(&e.lookups[505], 2, LookupTable::ResetLookup, &[0xffff, 2004]);
}
