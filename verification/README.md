# ssm

An SSH session manager with a terminal interface, written as a verified
library (`src/`, checked by Verus) and a thin program around it (`app/`).

- `src/` — the session model and store rules, `ssh_config` import, command
  planning for `ssh`/`herdr`, the askpass hand-off rules, reachability
  bookkeeping, themes, the key-driven state machine of the interface and the
  text each screen shows. Every function carries a contract; the laws the
  library keeps (merging imports, serving a password once, the form round
  trip, the list showing exactly the matching sessions, ...) are proof
  functions.
- `app/` — `main`, flags, files, the OS keychain, sockets, threads, the
  terminal, and drawing; it asks the library what to do and does it.
- `tests/` — tests of the library on concrete values.
