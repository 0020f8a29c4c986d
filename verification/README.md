# omnyssh

The core of OmnySSH, a terminal SSH manager, as a library whose functions
carry machine-checked contracts (Verus).

- `src/config` — the `~/.ssh/config` parser (hosts and `Include` entries),
  the merge of manual and imported hosts, snippet types.
- `src/ssh` — the Quick Scan probe and its sectioned output, the service
  providers (Docker, Nginx, PostgreSQL, Redis, Node.js) that turn command
  output into metrics, alerts and a status, uptime and load text, the
  reconnect schedule, the SSH key setup (its state machine, the flow that
  orders its steps, the key file name and the remote commands), and the
  bytes a terminal key sends.
- `src/ui` — text fitting, the dashboard grid, the contents of a server
  card, the status bar, the Snippets list window and the keys of its
  popups, the keys of the host list, Dashboard, tag filter and Detail View,
  the theme names.
- `src/float_text.rs` — numbers read as `f64::from_str` reads them and
  compared with a whole number by their exact value.
- `src/utils` — the configuration and key paths, as text.
- `src/text.rs` — the string operations the parsers are specified with.
- `app/` — the program around the library: files, serde, `ssh-keygen`,
  remote commands, and the floating-point percentage parsers.

The safety rules of the key setup are proved as lemmas in
`src/ssh/key_setup.rs`: password authentication is disabled only after the
key was verified, and the public key always reaches `authorized_keys`
intact and appended; it is disabled at most once per setup. Each service
provider's status is stated as a lemma beside it, and the SSH config parser
yields exactly the host blocks the file opens.
