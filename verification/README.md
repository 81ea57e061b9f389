# hpn

Verified logic of a VPN relay and of the server side of a VPN: what happens to packets, handshakes,
sessions, limits, configuration files, keys, privileges and the admin interface.

- `src/` is the library. Every function states what it does and is proved to do it, except that calls
  into the standard library's clocks, texts and errors and into the crates for SHA-256, constant-time
  comparison, hex and base64 are trusted to do what their declarations say. Functions that depend on
  the time come in pairs: `foo` reads a clock, `foo_at` takes the time.
- `src/relay/` is the relay. `server` decides on packets, `forward` is the state machine of one
  handshake, `session_manager` holds the sessions, `session_laws` says what always holds of them,
  `data_plane` and `batch` are for many packets at a time.
- `src/server/` is the server: configuration, limits on handshakes and logins, replayed handshakes,
  metrics, the admin interface, NAT and routes, key files, system detection, dropping privileges and
  the fast data paths.
- `tests/` runs the library.
- `app/` is the relay and the server as one program: sockets, files, processes and system calls
  around the library. The wire protocol, the tunnel and the user database are linked in through the
  traits in `app/link.rs`.
