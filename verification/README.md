# kimchi

The gates of a Plonk circuit, the lookups that they ask for, and the lookups of the Keccak circuit,
as a library verified with Verus.

- `src/gate.rs`: kinds of gate, wires, gates, their encoding and the choice of the check of a row
- `src/lookup.rs`: lookups of combinations of cells, and their combined values
- `src/lookup_info.rs`, `src/lookup_laws.rs`: which lookups the gates of a circuit ask for, their
  selector polynomials, and how the answers fit together
- `src/caml.rs`: gates on their way to OCaml and back
- `src/keccak/`: the lookups that a row of the Keccak circuit requests, and which cells they cover
- `src/field.rs`, `src/bytes.rs`: the base field of the Pallas curve and byte encodings
- `src/domain.rs`, `src/interpolation.rs`: evaluation domains, extension of values from one to
  another, and why there is only one extension
- `app/`: the stored forms of gates and lookup configurations

Field arithmetic, interpolation and evaluation on a domain are those of the arkworks crates. Each
call into an outside crate stands in a function marked `external_body`, whose comment says what is
taken on trust.
