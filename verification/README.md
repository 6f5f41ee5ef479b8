# lighter_rs

A signer for the Lighter DEX protocol, written in Verus: Poseidon2 hashing
and Schnorr signatures over the ECgFp5 curve, key management, and the hashing
and validation rules of the L2 transaction types. Verus verifies all of
`src/`; the public functions state in `ensures` what they return, and the
laws proved about them are public proof functions (`lemma_*`). Of the
curve's group law only pieces are proved: point addition is commutative,
adding the neutral point keeps the point, mixed addition is addition of the
lifted affine point, and the product by zero is the neutral point. Associativity and the order of the generator are
not, so that a signature verifies is shown by the tests, not proved.

Layout of `src/`:

- `field/` — the Goldilocks field GF(p), p = 2^64 - 2^32 + 1 (with proofs
  that p is prime and of Fermat's little theorem), its quintic
  extension GF(p^5) = GF(p)[x]/(x^5 - 3), and lane-wise batches of field
  elements. Values are modelled as natural numbers below p.
- `hash/` — the Poseidon2 permutation (width 12) and sponge; the contracts
  speak of a spec-level sponge over the modelled field values.
- `curve/` — scalars modulo the group order n (Montgomery multiplication,
  signed recoding), points in projective and affine coordinates, the comb
  table for k·G, and the short Weierstrass form used by verification.
- `signature/` — Schnorr signing and verification.
- `signer/` — `KeyManager`: keys from bytes or hex, signing, batch signing,
  authentication tokens.
- `types/` — transaction types with their validation rules and hashes,
  transaction attributes, and the hashes of the HTTP requests.
- `client.rs`, `batch.rs` — the computing parts of the HTTP client and of
  batch signing: URLs, reading replies, base64 signatures.
- `codec.rs` — hexadecimal, decimal and base64 text, and the trusted wrappers
  around the `hex`, `base64` and `std` functions that produce them.

`app/` holds what talks to the outside world (HTTP through `ureq`, the
configuration file, the clock, CPU feature detection, timed and parallel batch
signing with `rayon`) and the example programs, started by
`examples::run_from_args`. `tests/` runs the library on
concrete values.
