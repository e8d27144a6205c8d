# smoltcp_wire

Readers and writers for the wire formats of a small TCP/IP stack, verified
with Verus: Ethernet II, ARP, IPv4 (with CIDR blocks), ICMPv4, IGMPv1/v2,
IPv6 headers, extension headers, hop-by-hop and routing headers and their
options, ICMPv6 with MLDv2 and Neighbor Discovery (and its options).

Every packet type is a thin wrapper over a byte buffer. Getters and setters
are specified over the buffer's contents as a `Seq<u8>`; each `Repr` type
states exactly when `parse` succeeds and what it reads, and exactly what
`emit` writes. Proof functions named `lemma_emit_then_parse` state, per
format, that parsing what was emitted gives back the representation.

Layout:

- `src/` — the verified library, one module per format, with `buf` (byte
  buffers and big-endian fields) and `checksum` (the Internet checksum).
- `tests/` — tests per format.
- `app/` — text renderings of addresses and headers for logs.
