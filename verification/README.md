# vault_core

A local password vault, verified with Verus.

- `src/` is the library: Argon2id key derivation and AES-256-GCM sealing
  (`crypto`), the vault file's framing, sealing and backup rotation
  (`file_format`), the password generator (`password_generator`), the vault and
  its search (`vault`), entry ids and command-line lookups (`ids`), and the
  decisions of the desktop commands (`state`, `commands`). Every function there
  carries a contract that Verus proves; the calls into `argon2`, `aes-gcm`,
  `rand`, `uuid`, `chrono` and `zeroize` go through small trusted wrappers whose
  doc comments say what is assumed of them.
- `app/` is the `vault` command line: argument parsing, prompts, file and
  directory access, the JSON encoding of the vault and its file, and the
  desktop commands' file handling.
- `tests/` runs the library on concrete values.
