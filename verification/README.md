# buddy

Manages the cloud credentials of the Buddy VM: installs read-only Datadog and
Fastly credentials in a Lima guest and keeps a snapshot of the Datadog
permissions that the guest's token grants.

The library in `src/` is verified with Verus:

- `credentials` — shell identifiers, single-quoting, and the `export` lines of
  the guest's credentials files, with the proof that the shell reads back
  exactly the environment that was written.
- `json`, `order`, `permissions` — JSON documents as plain values, the order
  of strings, stable sorting by a key, and the normalized, sorted Datadog
  permissions snapshot.
- `fastly` — the checks on the Fastly token's scope and expiration date and on
  API responses.
- `datadog` — the token digest that tells whether the guest uses the current
  token.
- `cli` — each command as a state machine: `run` starts a command, `step`
  decides the next action from the outcome of the last one.
- `text` — trimming, prefixes, decimal numbers.

`app/` is the program around it: command-line parsing, the 1Password CLI,
`limactl`, HTTP requests to Fastly, JSON parsing and printing, files.
The bundled guest scripts are read at run time from the `scripts/` directory
of the checkout the program was built from.
