# genesis_agent

The verified core of the Genesis monitoring agent. The library (`src/`) holds
the agent's logic with Verus contracts; `app/` holds the programs that read
files and the environment, hand plain values to the library and carry out
what it decides.

Modules of the library:

- `text` — string operations (`replace`, `trim`, `trim_end_matches`,
  `parse::<u64>`, `join`, …) specified over `Seq<char>`.
- `json` — the JSON model the agent reads and builds, and the parse of JSON
  text into it through `serde_json`.
- `config` — the configuration and its defaults.
- `crypto` — SHA-256, AES-256-GCM, AES-256-CBC and the OS random generator,
  called through trusted wrappers.
- `master_key` — the collector's machine-bound master key file.
- `secret_store`, `runtime` — secrets, the boot-time master key and the
  rendered NATS server configuration.
- `nats_setup` — the NATS server configuration, credentials and OpenSSL runs.
- `tls` — the TLS client configuration built with rustls.
- `database`, `store_plan` — the encrypted database: connection statements,
  tooling file, command line, deletions, and the ordered row writes of
  inventory reports, with a model of the rows they leave.
- `collector`, `bridge` — the decisions of the collector and the bridge,
  from message payloads to the next action, step by step.

