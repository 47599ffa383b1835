# crypto

Commit-and-prove building blocks over BN254, verified with Verus.

- `src/field.rs` — scalar field elements as canonical limbs, with their arithmetic.
- `src/mimc7.rs` — the MiMC7 keyed hash and the nullifier derived from it.
- `src/group.rs` — G1 and G2 points, their operations, their compressed encodings
  and the pairing check.
- `src/matrix.rs`, `src/relation.rs` — sparse relation matrices and the DPP and
  trade relations, witnesses and instances.
- `src/linker.rs` — the linking SNARK: setup, key generation, proving, verification.
- `src/encryption.rs` — exponential ElGamal over G1.
- `src/protocol.rs` — limb conversions, the attribute commitment, and the linking
  halves of the DPP and trade flows, including checks of stored encodings.
- `src/circuit.rs` — the assignments of the DPP and trade circuits, and whether they
  meet the circuits' constraints.
- `src/utils.rs` — parsing comma-separated field elements.
- `src/exponent.rs` — the completeness identities of the linking SNARK and the
  correctness of decryption, stated in the exponent.
- `src/completeness.rs` — completeness of the linking SNARK over the group and
  pairing operations, where their laws hold for the points involved.
- `app/` — C entry points for formatting and drawing field elements and for
  reporting stored linking keys, proofs and commitments; checking stored linking
  proofs and decrypting stored ciphertexts; file handling, JSON
  reports, hex serde helpers, and the constraint systems and gadgets over
  arkworks types.
