# open-web-server

A self-contained web server and reverse proxy: host- and path-prefix
routing to backend tenants, static/PHP sites with Apache/nginx-style
rewrite rules, host redirects, ACME HTTP-01 challenges, an admin API
guarded by API keys, an address allowlist and TOTP two-factor login,
dynamic-DNS helpers, and a domain health watchdog.

## Layout

- `src/` — the library, written in Verus. Every routing table, parser,
  decision and text format carries a contract and is proved against it;
  the laws that relate several operations (what a removal undoes, what a
  revocation refuses, what a decoding gives back) are public proof
  functions named `law_*`. Calls into outside crates (regex, hashing,
  HMAC, randomness, UUIDs, QR rendering, gzip) go through small trusted
  wrappers whose contracts are stated over named results.
- `tests/` — tests of the library on concrete values.
- `app/` — the server process: settings from the environment, the HTTP
  listener, locking around the library's registries, file and network
  I/O, and the two rate defences whose arithmetic is floating point.

## Running

The server listens on `OPEN_WEB_SERVER_BIND` (default `0.0.0.0:8080`).
Provisioning files are read from `OPEN_WEB_SERVER_DOMAINS_FILE`,
`OPEN_WEB_SERVER_WEB_VHOSTS_FILE` and `OPEN_WEB_SERVER_REDIRECTS_FILE`
(TOML). `--version` prints the version and exits.
