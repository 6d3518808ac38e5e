# atlas

A verified library for ATLAS, the constraint-friendly map-to-elliptic-curve
relation over Grumpkin (`y^2 = x^3 - 17`), the multiset hash and offline
memory checking built on it, and relational BLS signatures over BN254.

- `src/` is the library, written in Verus. Field and curve arithmetic is done
  by arkworks behind small trusted wrappers whose contracts state what they
  compute; everything else (the map-to-curve search and its check, the
  multiset hash and its verification, the rolling memory digest, message
  compression, BLS signing and verification, record packing) is proved
  against its contract.
- `tests/` holds the tests.
- `app/` holds what stays outside the proofs: random key generation,
  floating-point cost ratios and the printed table, the circuit input file,
  the error type with its messages, and conversions to arkworks' types.
