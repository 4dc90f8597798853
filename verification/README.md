# irecovery (verified)

Identification of Apple devices in DFU / Recovery mode, written in Verus:

- `src/info.rs` — `DeviceInfo::parse` reads the iBoot USB serial string
  (`CPID:`, `BDID:`, `ECID:`, `SRTG:[...]`, nonces, the `PWND:` marker);
  its contract states every field as a function of the string.
- `src/mode.rs` — `IrecvMode::from_pid` and the mode predicates and labels.
- `src/error.rs` — `IrecvError`, its `irecv_error_t` codes and messages.
- `src/text.rs` — character classes, search, runs and numerals the
  parsers are built from.
- `app/lib.rs` — `Error`, a wrapper around `IrecvError` that carries
  `Display` and `std::error::Error`, with `From` both ways.
- `tests/` — scenario tests.
