# onchain_certificates

A verified registry of skill certificates and academic credentials.

An administrator registers trusted issuers (universities, bootcamps); a
registered issuer issues certificates to recipients and may revoke the ones it
issued; anyone can look a certificate up, list a recipient's portfolio or an
issuer's certificates, and check whether a recipient holds a valid certificate
for a skill.

Layout:

- `src/` — the library, verified with Verus.
  - `address.rs` — ledger addresses, identified by their string key.
  - `certificate.rs` — certificates and portfolio summaries.
  - `state.rs` — the mathematical model of the stored state and the
    specification functions that the contracts use.
  - `contract.rs` — `CertificateContract`, the stored state with the
    contract's entry points and their contracts.
  - `laws.rs` — properties that relate the entry points, proved.
- `tests/` — tests of the library.
- `app/` — the Soroban smart contract: it reads and writes the ledger's
  instance storage, asks the host for authorization, randomness and the ledger
  time, and calls the library.
