# cordial

Cordial's session custody, browser-account matching and crash reporting, as a
Verus-verified library.

- `src/secrets.rs` — which store keeps a session (secret service, `0600` file,
  or nothing), the announcement of that choice, the service's item attributes
  and labels, and the one-line hex encoding of a stored value.
- `src/custody.rs` — loading, saving and erasing a session as small machines:
  each step names the next file-system, secret-service or console effect, and
  takes back what it observed. Includes the migration of a plaintext file into
  the service.
- `src/browser_account.rs` — reading a session out of a cookie store, and the
  search of the profiles root for the single saved profile of an account.
- `src/crash.rs` — whether a client exit is a crash, and how it is described.
- `src/text.rs` — character-level helpers (trimming, searching, paths, decimal).

`app/` performs the effects: environment, files, D-Bus through `zbus`, JSON
through `serde_json`, and the libadwaita crash page.
