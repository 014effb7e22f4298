use kimchi::domain::{EvaluationDomains, Radix2EvaluationDomain};
use kimchi::field::{Fp, One, Zero};
use kimchi::gate::{CircuitGate, CurrOrNext, GateType, LocalPosition, Wire};
use kimchi::lookup::{combine_table_entry, JointLookup, JointLookupSpec, SingleLookup};
use kimchi::lookup_info::{
    location_key, location_of, max_lookups_per_row, GateLookupTable, GatesLookupMaps, LookupInfo,
    LookupsUsed,
};
use std::collections::HashMap;

fn fp(n: u64) -> Fp {
    Fp::from_u64(n)
}

fn at(row: CurrOrNext, column: usize) -> LocalPosition {
    LocalPosition { row, column }
}

fn read(p: LocalPosition) -> Fp {
    fp(10 * p.column as u64 + p.row.shift() as u64)
}

fn single(terms: &[(u64, CurrOrNext, usize)]) -> SingleLookup<Fp> {
    let mut value: Vec<(Fp, LocalPosition)> = Vec::new();
    for (c, row, column) in terms {
        value.push((fp(*c), at(*row, *column)));
    }
    SingleLookup { value }
}

#[test]
fn single_lookup_is_a_linear_combination() {
    let s = single(&[(3, CurrOrNext::Curr, 2), (5, CurrOrNext::Next, 4)]);
    assert_eq!(s.evaluate(read), fp(3 * 20 + 5 * 41));
    assert_eq!(single(&[]).evaluate(read), Fp::zero());
}

#[test]
fn combination_of_two_lists_is_the_sum() {
    let a = single(&[(3, CurrOrNext::Curr, 2)]);
    let b = single(&[(7, CurrOrNext::Next, 1), (1, CurrOrNext::Curr, 9)]);
    let both = single(&[(3, CurrOrNext::Curr, 2), (7, CurrOrNext::Next, 1), (1, CurrOrNext::Curr, 9)]);
    assert_eq!(both.evaluate(read), kimchi::field::Zero::plus(a.evaluate(read), b.evaluate(read)));
}

#[test]
fn joint_lookup_is_a_polynomial_in_the_combiner() {
    let j = JointLookup { table_id: 1, entry: vec![fp(4), fp(5), fp(6)] };
    assert_eq!(j.evaluate(fp(10)), fp(654));
    assert_eq!(combine_table_entry(fp(3), &vec![fp(1), fp(1), fp(1), fp(1)]), fp(1 + 3 + 9 + 27));
    assert_eq!(combine_table_entry(fp(3), &Vec::new()), Fp::zero());
}

#[test]
fn joint_lookup_of_combinations() {
    let j: JointLookupSpec<Fp> = JointLookup {
        table_id: -3,
        entry: vec![single(&[(2, CurrOrNext::Curr, 1)]), single(&[(1, CurrOrNext::Next, 3)])],
    };
    let reduced = j.reduce(&read);
    assert_eq!(reduced.table_id, -3);
    assert_eq!(reduced.entry, vec![fp(20), fp(31)]);
    assert_eq!(j.evaluate(fp(100), &read), fp(3120));
    assert_eq!(reduced.evaluate(fp(100)), fp(3120));
}

fn spec(n: usize) -> JointLookupSpec<Fp> {
    let mut entry: Vec<SingleLookup<Fp>> = Vec::new();
    for i in 0..n {
        entry.push(single(&[(1, CurrOrNext::Curr, i)]));
    }
    JointLookup { table_id: n as i32, entry }
}

const XOR: GateLookupTable = GateLookupTable { table_id: 7 };
const RANGE: GateLookupTable = GateLookupTable { table_id: 8 };

/// ChaCha0 asks for kind 0 on its row and the next; ChaChaFinal for kind 1 on its row and kind 2,
/// which is empty, on the next; Generic for kind 2 on its row.
fn info() -> LookupInfo<Fp> {
    let kinds = vec![vec![spec(3), spec(2)], vec![spec(1)], vec![]];
    let mut selectors: HashMap<u64, usize> = HashMap::new();
    selectors.insert(location_key(GateType::ChaCha0, CurrOrNext::Curr), 0);
    selectors.insert(location_key(GateType::ChaCha0, CurrOrNext::Next), 0);
    selectors.insert(location_key(GateType::ChaChaFinal, CurrOrNext::Curr), 1);
    selectors.insert(location_key(GateType::ChaChaFinal, CurrOrNext::Next), 2);
    selectors.insert(location_key(GateType::Generic, CurrOrNext::Curr), 2);
    let mut tables: HashMap<u64, GateLookupTable> = HashMap::new();
    tables.insert(location_key(GateType::ChaCha0, CurrOrNext::Curr), XOR);
    tables.insert(location_key(GateType::ChaCha0, CurrOrNext::Next), XOR);
    tables.insert(location_key(GateType::ChaChaFinal, CurrOrNext::Next), RANGE);
    LookupInfo::create(kinds, GatesLookupMaps { gate_selector_map: selectors, gate_table_map: tables })
}

fn gates(types: &[GateType]) -> Vec<CircuitGate<Fp>> {
    let mut r: Vec<CircuitGate<Fp>> = Vec::new();
    for t in types {
        r.push(CircuitGate { typ: *t, wires: [Wire { row: 0, col: 0 }; 7], coeffs: Vec::new() });
    }
    r
}

#[test]
fn locations_are_numbered() {
    assert_eq!(location_key(GateType::Zero, CurrOrNext::Curr), 0);
    assert_eq!(location_key(GateType::Zero, CurrOrNext::Next), 1);
    assert_eq!(location_key(GateType::ChaChaFinal, CurrOrNext::Next), 21);
    for key in 0..22 {
        let (typ, row) = location_of(key).unwrap();
        assert_eq!(location_key(typ, row), key);
    }
    assert_eq!(location_of(5), Some((GateType::Poseidon, CurrOrNext::Next)));
    assert_eq!(location_of(22), None);
    assert_eq!(location_of(512), None);
}

#[test]
fn configuration_knows_its_maxima() {
    let i = info();
    assert_eq!(i.max_per_row, 2);
    assert_eq!(i.max_joint_size, 3);
    assert_eq!(max_lookups_per_row(&i.kinds), 2);
    let empty: LookupInfo<Fp> = LookupInfo::create(
        Vec::new(),
        GatesLookupMaps { gate_selector_map: HashMap::new(), gate_table_map: HashMap::new() },
    );
    assert_eq!(empty.max_per_row, 0);
    assert_eq!(empty.max_joint_size, 0);
}

#[test]
fn lookups_used_by_a_circuit() {
    let i = info();
    assert_eq!(i.lookup_used(&gates(&[])), None);
    assert_eq!(i.lookup_used(&gates(&[GateType::Zero, GateType::Poseidon])), None);
    assert_eq!(
        i.lookup_used(&gates(&[GateType::Zero, GateType::Generic])),
        Some(LookupsUsed::Single)
    );
    assert_eq!(
        i.lookup_used(&gates(&[GateType::Generic, GateType::ChaChaFinal])),
        Some(LookupsUsed::Joint)
    );
}

#[test]
fn no_gate_is_looked_at_behind_a_joint_lookup() {
    let mut i = info();
    i.kinds_map.insert(location_key(GateType::Zero, CurrOrNext::Curr), 3);
    i.kinds_map.insert(location_key(GateType::ChaChaFinal, CurrOrNext::Next), 3);
    let g = gates(&[GateType::Generic, GateType::ChaChaFinal, GateType::Zero]);
    assert_eq!(i.lookup_used(&g), Some(LookupsUsed::Joint));
}

#[test]
fn more_gates_take_no_lookups_away() {
    let i = info();
    let mut types: Vec<GateType> = vec![GateType::Zero];
    assert_eq!(i.lookup_used(&gates(&types)), None);
    types.push(GateType::Generic);
    assert_eq!(i.lookup_used(&gates(&types)), Some(LookupsUsed::Single));
    types.push(GateType::ChaCha0);
    assert_eq!(i.lookup_used(&gates(&types)), Some(LookupsUsed::Joint));
    types.push(GateType::Zero);
    assert_eq!(i.lookup_used(&gates(&types)), Some(LookupsUsed::Joint));
}

fn sizes(info: &LookupInfo<Fp>, types: &[GateType]) -> Vec<usize> {
    let g = gates(types);
    let mut r: Vec<usize> = Vec::new();
    for row in info.by_row(&g) {
        assert!(row.len() <= info.max_per_row);
        r.push(row.len());
    }
    r
}

#[test]
fn lookups_by_row() {
    let i = info();
    assert_eq!(sizes(&i, &[]), vec![0]);
    assert_eq!(sizes(&i, &[GateType::Zero, GateType::ChaCha0]), vec![0, 2, 2]);
    // What a row's own gate asks for takes precedence.
    assert_eq!(
        sizes(&i, &[GateType::ChaCha0, GateType::ChaChaFinal, GateType::Zero]),
        vec![2, 1, 0, 0]
    );
    assert_eq!(sizes(&i, &[GateType::ChaCha0, GateType::Zero]), vec![2, 2, 0]);
    let g = gates(&[GateType::ChaChaFinal]);
    assert_eq!(i.by_row(&g)[0][0].table_id, 1);
}

fn domains(n: u64) -> EvaluationDomains {
    EvaluationDomains {
        d1: Radix2EvaluationDomain { size: n },
        d8: Radix2EvaluationDomain { size: 8 * n },
    }
}

#[test]
fn selectors_are_on_where_lookups_are_asked_for() {
    let i = info();
    let g = gates(&[GateType::ChaCha0, GateType::ChaChaFinal, GateType::Zero]);
    let (selectors, tables) =
        i.selector_polynomials_and_tables(&domains(4), &g, &|t: GateLookupTable| t.table_id);
    assert_eq!(selectors.len(), 3);
    let expected: [[u64; 4]; 3] = [[1, 1, 0, 0], [0, 1, 0, 0], [0, 0, 1, 0]];
    for k in 0..3 {
        assert_eq!(selectors[k].domain.size, 32);
        assert_eq!(selectors[k].evals.len(), 32);
        for row in 0..4 {
            assert_eq!(selectors[k].evals[8 * row], fp(expected[k][row]));
        }
    }
    assert_ne!(selectors[0].evals[1], Fp::zero());
    assert_ne!(selectors[0].evals[1], Fp::one());
    assert_eq!(tables.len(), 2);
    assert!(tables.contains(&7));
    assert!(tables.contains(&8));
}

#[test]
fn gates_beyond_the_domain_have_no_selectors() {
    let i = info();
    let g = gates(&[GateType::ChaCha0, GateType::Generic, GateType::ChaChaFinal]);
    let (selectors, tables) =
        i.selector_polynomials_and_tables(&domains(2), &g, &|t: GateLookupTable| t.table_id);
    assert_eq!(selectors[0].evals, vec![Fp::one(); 16]);
    assert_eq!(selectors[1].evals, vec![Fp::zero(); 16]);
    assert_eq!(selectors[2].evals[8], Fp::one());
    assert_eq!(selectors[2].evals[0], Fp::zero());
    assert_eq!(tables, vec![7]);
}

#[test]
fn unused_lookups_have_no_selectors() {
    let i = info();
    let g = gates(&[GateType::Zero, GateType::EndoMul]);
    assert_eq!(i.lookup_used(&g), None);
    let (selectors, tables) =
        i.selector_polynomials_and_tables(&domains(2), &g, &|t: GateLookupTable| t);
    for s in &selectors {
        assert_eq!(s.evals, vec![Fp::zero(); 16]);
    }
    assert!(tables.is_empty());
}

#[test]
fn later_gates_change_neither_selectors_nor_tables() {
    let i = info();
    let g = gates(&[GateType::ChaCha0, GateType::Generic, GateType::ChaChaFinal, GateType::ChaCha0]);
    let id = |t: GateLookupTable| t.table_id;
    let (all, all_tables) = i.selector_polynomials_and_tables(&domains(2), &g, &id);
    let (first, first_tables) = i.selector_polynomials_and_tables(&domains(2), &g[..2], &id);
    assert_eq!(all.len(), first.len());
    for k in 0..all.len() {
        assert_eq!(all[k].evals, first[k].evals);
    }
    assert_eq!(all_tables, first_tables);
}

#[test]
fn no_row_looks_up_longer_vectors_than_the_maximum() {
    let i = info();
    let g = gates(&[GateType::ChaCha0, GateType::ChaChaFinal, GateType::Generic]);
    for row in i.by_row(&g) {
        for lookup in row {
            assert!(lookup.entry.len() <= i.max_joint_size as usize);
        }
    }
}

#[test]
fn one_more_gate_changes_its_row_and_the_next() {
    let i = info();
    let before = sizes(&i, &[GateType::Zero, GateType::ChaCha0]);
    assert_eq!(before, vec![0, 2, 2]);
    assert_eq!(sizes(&i, &[GateType::Zero, GateType::ChaCha0, GateType::Zero]), vec![0, 2, 2, 0]);
    assert_eq!(sizes(&i, &[GateType::Zero, GateType::ChaCha0, GateType::Generic]), vec![0, 2, 0, 0]);
    assert_eq!(sizes(&i, &[GateType::Zero, GateType::ChaCha0, GateType::ChaCha0]), vec![0, 2, 2, 2]);
}
