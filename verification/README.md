# cstr8

Strings that are both valid UTF-8 and NUL-terminated, written in Verus.

- `src/cstr8.rs`: `CStr8` (text followed by one NUL), `CString8` (built from
  `&str`), their errors, and the spec functions that describe accepted input.
- `src/compact.rs`: `CompactCStr8`, which keeps texts of up to 21 bytes inline
  and longer ones behind a shared `Arc`.
- `src/order.rs`: byte-wise equality and lexicographic order, with proofs that
  the order is total.
- `src/laws.rs`: properties that relate the constructors to each other.
- `src/std_calls.rs`: the calls into the standard library, with their
  contracts.
- `app/lib.rs`: the `unsafe` constructors that read through raw pointers.
