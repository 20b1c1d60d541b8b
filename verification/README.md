# tee_guardian

The verified core of a guardian node for a TEE cluster: nodes attest each
other's TDX quotes or SEV-SNP reports in a two-phase challenge protocol,
gossip signed advertisements of their addresses, and form a Raft cluster of
the peers they trust.

- `src/` is the library, verified with Verus: the registry of attested
  instances and its laws, quote and report parsing, certificate chains,
  the gossip cache, the trusted peer set and the RPC gate, the Raft log and
  state-machine bookkeeping, the coordinator's decisions, logging context and
  line formats, and the text of the attestation reports.
- `tests/` runs the library on concrete values.
- `app/` is the program around it: HTTP servers and clients, the clock and
  files, the platform attester and verifier, openraft, metrics and logging
  layers.

## Choices a reader may ask about

- Collections. The Raft log, the trusted peer set and the RPC router keep
  their entries in `std::collections::BTreeMap` by `u64` key, and the
  gossip cache in a `HashMap` by node identifier, as vstd specifies these
  maps for integer keys. The attestation registry (keyed by a 32-byte
  instance identity) and the logging context (keyed by `String`) keep
  `Vec`s of pairs with a distinct-key invariant instead: vstd's map
  specifications hold only for keys whose comparison or hash it knows,
  which a struct or a `String` key is not.
- The clock. The library reads the wall clock (`SystemTime`), in
  milliseconds, for challenge expiry and blacklisting. A monotonic reading
  that can be compared as a number needs an instant fixed for the whole
  process, which the verified library cannot hold (it has no `static`),
  and an opaque `Instant` kept in the records would make every expiry
  decision an outside comparison with nothing proved of it. Every
  time-dependent operation also exists as an `_at` function that takes the
  time as an argument, so a caller may drive it with a monotonic clock, as
  `app/` does for the coordinator's deadlines.
