# caliptra_spdm

The logic of Caliptra's SPDM responder and of the harness that validates it,
written in Verus.

- `src/` is the verified library. It parses and answers `GET_CAPABILITIES` and
  `NEGOTIATE_ALGORITHMS`, sets up the certificate store at boot, runs the socket
  session with an SPDM validator, and judges validator logs. What must hold of
  several functions together is stated in the public `law_*` proof functions.
- `app/` is ordinary Rust around it: sockets, processes, threads and the
  platform services of the device.
- `tests/` runs the library on concrete values.

The only outside code that the library calls is `zerocopy`, for fixed-size views
of byte buffers and for byte order. Those calls, and `String::push`, are trusted
with the contracts written beside them, in `src/bytes.rs` and `src/text.rs`.
