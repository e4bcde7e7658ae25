# gvac

The core of a desktop SSH and HTTP client, with its behaviour stated in
contracts and proved.

- `src/` is the library. Its functions carry `requires`/`ensures`
  contracts that Verus proves, except a few small trusted wrappers around
  outside calls (the clock, random identifiers, `String::push`, lossy UTF-8
  decoding, the HTTP client's method check), whose contracts are believed
  and whose doc comments say what they claim. The modules are:
  - `text`: whitespace, trimming, prefixes and decimal formatting.
  - `errors`: the error type and its messages.
  - `registry`: string-keyed tables.
  - `json`: the JSON values the client reads.
  - `headers`: the header tables of requests and responses.
  - `method`: HTTP methods.
  - `api`: the backend API client (configuration, credentials, requests
    and responses).
  - `http`: plain HTTP requests.
  - `session`: SSH connection planning and the session table.
  - `terminal`: the terminal output buffer, the terminal worker's state
    machine and the terminal table.
  - `sftp`: remote command and file transfer inputs, and directory entries.
  - `diagnostics`: the text of log lines and panic reports.
- `app/` is the Tauri application around the library: the commands, the
  network and SSH I/O, the worker threads, the log files and the serde forms
  of the values the user interface exchanges.
- `tests/` runs the library on concrete values.
