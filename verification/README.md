# next_socks5 configuration library

The configuration logic of a SOCKS5 server, written in Verus and proved
against its contracts.

- `src/config.rs` — settings, their defaults, the command-line overrides.
- `src/udp.rs` — the UDP relay port range (`"start-end"`) and the advertised
  host (IP literal, `ip:port`, or DNS name).
- `src/dns.rs` — ASCII host name validation.
- `src/egress.rs` — the egress policy over plain-value IP addresses.
- `src/text.rs` — trimming, decimal numbers, quoting.
- `app/lib.rs` — what stays outside the proofs: clap argument parsing, reading
  the TOML file with serde, the `std::net` address parsers, and the error type.
- `tests/` — scenarios run against the compiled library.
