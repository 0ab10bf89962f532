# codexmanager

Account management, credit billing and upstream credentials of the Codex manager
service, as a library verified with Verus.

- `src/` — the verified library:
  - `text`, `table`, `order`: string, lookup and ordering helpers with their specs;
  - `crypto`: password hashes, session-token hashes and random identifiers;
  - `storage`: the service's tables (users, sessions, wallets, ledger, key
    owners, settings, price catalog, charge snapshots, billing rules) as an
    in-memory model of the database the service keeps them in; the library does
    not reach a database, and the price catalog is filled by its users;
  - `billing`, `charge_snapshot`: the integer charge formula, price tiers and the
    recording of a request's charge snapshot and ledger booking;
  - `billing_rules`: which billing rule applies to a request, and booking a
    request's charge;
  - `app_manager`: users, sessions, wallets, API key ownership and settings;
  - `agent_identity`: the signed `AgentAssertion` header and the upstream
    `Authorization` value;
  - `gateway`: upstream retry and request-log decisions;
  - `background_tasks`: the warm-up cron schedule settings.
- `tests/` — tests of the library on concrete values.
- `app/` — the code around the library: JSON shapes of its results, the
  floating-point charge of a served request, and the desktop shell's RPC requests.
