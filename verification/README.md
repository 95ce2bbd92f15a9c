# malai

malai exposes local HTTP, TCP and UDP services, and folders, on the kulfi
peer-to-peer network, and manages clusters of machines that run commands for
each other.

This crate is its verified core. Its functions under `src/` carry contracts
that Verus proves: configuration files are read into plain values whose
meaning is stated over `Seq`s and spec functions, access decisions are
proved against those statements, and the texts the program prints or sends
are stated character by character. The small wrappers marked
`#[verifier::external_body]` around calls into
`toml`, `mime_guess`, `percent-encoding`, `fastn-id52` and std (the clock,
lower-casing, and building a `String` from characters) are not proved: their
contracts are trusted as written. `Connection::is_idle` is verified but
promises nothing of its answer, which depends on the clock.

- `src/` — the library: cluster configuration and access control
  (`cluster_config`, `cluster`, `ssh_server`, `client`, `agent`), the
  services of `malai run` (`run`), configuration checks and cluster roles
  (`config_manager`), direct command execution (`cli`, `machine_init`), the
  daemon socket exchange (`daemon_socket`), the HTTP bridge and proxy
  (`bridge`), serving folders and their listing pages (`folder`, `folder_page`), what the program tells its user
  (`announce`), the servers' replies (`malai_server`, `simple_server`), the
  command line (`commands`, `skynet`, `sdk`), and the text and TOML layers
  they share (`text`, `toml_doc`, `identity_keys`).
- `tests/` — tests on concrete values.
- `app/` — the program around the library: command-line parsing, files,
  sockets and the peer-to-peer plumbing.
