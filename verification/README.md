# arda-aule

The decision and text-rendering core of the Arda observability command
surface (the Aulë CLI and the Prometheus state projections), written in
Verus: every function in `src/` carries a contract that Verus proves.

- `src/` — the verified library. Each module covers one command family:
  the Arandur ledgers and mission phases (`queue`, `ledger`, `scout`,
  `patterns`, `missions`, `gates`, `readiness`, `packet_review`,
  `mutations`, `presence`, `episode`), the control plane (`preflight`,
  `recovery`, `agent_routes`, `route_matrix`, `escalations`, `profile`,
  `output_accounting`, `council`), telemetry and monitoring (`telemetry`,
  `warden`, `dashboard`, `hermes_projection`, `package_enablement`), and
  the shared text, line and digest primitives. Public `law_*` proof
  functions state the properties that hold across calls, such as
  idempotent ledger appends and reading back what an edit wrote.
- `tests/` — tests on concrete values.
- `app/` — the command-line program around the library: argument parsing,
  files, locks, the clock and subprocesses. It hands plain values to the
  library and writes what the library decided.
