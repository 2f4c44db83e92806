# couch-unifi-protect

The rules of a camera package for UniFi Protect consoles, with their proofs in
Verus. The package is read-only: it lists cameras, passes snapshots on and
forwards the low-quality RTSPS stream that a camera already offers.

Pairing observes the certificates of the console's API and media server without
sending the API key, keeps their SHA-256 fingerprints, and tries the key over a
connection that trusts these two certificates only. Later connections need the
same certificates. A live view ends after at most sixty seconds.

## Layout

- `src/` is the library. Every function in it is verified against its contract.
  What the library promises as a whole stands in the proof functions whose names
  begin with `law_`.
- `tests/` runs the library on concrete values, with the real outside crates.
- `app/` drives the library: sockets and TLS, the HTTP agent for a pinned origin,
  the serialised forms of settings and credentials, and the host's traits. The
  client for the console's API and media server comes in through the trait
  `Console`.

Where a rule has to wait for the network it is a small state machine: it says what
is to be done next and is told what came of it (`Observation`, `Enrollment`,
`CameraOpening`).

## What is believed without proof

The contracts of the calls into other crates and into the standard library are
believed: SHA-256 (`sha2`), URLs and origins (`url`), server names (`rustls`), the
reading and writing of IP addresses, the quoting of text for debugging, the wiping
of the key (`zeroize`) and `String::push`. Each says above itself what it claims.
