# kovi_plugin_acl

Access control for the plugins of a [kovi](https://crates.io/crates/kovi) bot:
chat commands for administrators (`/acl`, `/plugin`, `/sys`), per-plugin white
and black lists that survive restarts and mode switches, and a password-protected
web interface with a JSON API.

## Layout

- `src/` — the library, verified with Verus. It holds every decision the plugin
  makes, stated as `requires`/`ensures` contracts over mathematical models:
  - `acl` — list modes, the persisted lists (`AclConfig`), recording the bot's
    state (`save`) and the plans that restore it (`load_and_apply`,
    `apply_mode_list`); the mode-switch round trip is proved there.
  - `command`, `reply` — reading an administrator's message and the answers.
  - `auth`, `rate_limit`, `reset_codes`, `clock` — credentials, login and token
    checks with per-client rate limits, one-time password-reset codes.
  - `api`, `web` — what each API request means, its refusals and statuses; the
    listening port and static asset paths.
  - `hex`, `crypto`, `text`, `assoc` — hex codec, SHA-256 and random values
    (through `sha2`, `uuid`, `jsonwebtoken`), text helpers, association lists.
- `tests/` — tests of the library through its public functions.
- `app/` — the plugin itself: kovi wiring, files in the data directory, the
  axum server and the JSON wire types. It calls the library for every decision.

The public proof functions named `lemma_*` state the library's laws.
