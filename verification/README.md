# rafthttp

The peer transport of a raft cluster member, with its logic verified by Verus.

- `src/` is the verified library: snapshot files (naming, framing with a CRC-32C
  checksum field, reading back, cleaning up), peer URLs and the picker that rotates
  through them, identifiers, version checks, the interpretation of a peer's answer
  to a post and the requests posted to peers, what the pipeline and the snapshot
  sender do once a post is over, the routing and bookkeeping decisions of the raft
  node loop, exact and bounded readers, the rate queue and the statistics counters,
  TLS settings, socket options and directory listings.
- `app/` is the code around it that does the I/O: files and directories, TLS
  material and certificate generation, HTTP clients and the asynchronous tasks
  that post to peers, serialization of statistics.
- `tests/` runs the library on concrete values.

The outside crates that the library calls (`url`, `crc`, `semver`, `hyper`,
`rustls`, `rustls-pemfile`, `pem`) are reached through a small set of trusted wrappers, each documented with
what it claims of the call.
