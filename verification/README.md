# gs_tbk

Two threshold protocols over secp256k1, with their logic verified in Verus:

* **Key joint generation** (`src/kjg`): every node deals a Pedersen VSS of a random secret,
  the shares travel CL-encrypted through a proxy with a batch proof of correct encryption,
  each node checks the summed share against the summed commitments, proves that its Feldman
  commitments match its Pedersen commitments, and ends with a share of the joint key.
* **Distributed chameleon hash** (`src/dch`): a chameleon hash whose trapdoor is the joint
  key; the nodes adapt a hash to a new message with their key shares and the proxy
  interpolates their responses.

Layout:

* `src/` — the verified library: integers, hex and SHA-256 texts, the scalar field and the
  curve group (over curv), polynomials and Lagrange coefficients (`interpolation.rs` proves
  interpolation at zero), the two protocols' parties and messages, and the laws that tie the
  phases together (`kjg/laws.rs`, `dch/ch.rs`, `dch/proxy.rs`).
* `tests/` — scenario tests, including in-process runs of both protocols.
* `app/` — the network programs: `gs_tbk_app <kjg-node|kjg-proxy|dch-node|dch-proxy>
  <config.json> <log4rs.yaml>`, with the JSON wire format, the CL library's C interface and
  the key files.
