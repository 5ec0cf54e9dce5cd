# Lifebot

Lifebot is an aquatics operations assistant: it keeps guard profiles,
certifications and recurring shifts, drafts the next scheduling cycle with a
decision trace for every shift, answers plain-language questions about the
schedule, and runs Sentinel, a human-in-the-loop pool-safety alert module.

## Layout

- `src/` — the library, verified with Verus: the scheduling, eligibility,
  Sentinel, mapping and validation decisions, each with a contract over a
  mathematical model:
  - `policies`: the eligibility rules (certifications, minor cutoff, overlaps,
    daily and cycle hours, rest gap) and their configuration;
  - `scheduling`: rollover priority and the first-come-first-served request
    queue that decide each draft shift;
  - `sentinel`: alert transitions, supervisor notification, rate limiting and
    the CV detection plan;
  - `sling`, `import`: mapping Sling users, groups and shifts onto Lifebot's
    guards, sites, roles and shifts;
  - `assistant`: routing questions to tools and the answers' texts;
  - `service`: the views built from stored records;
  - `validate`, `calendar`, `text`: input checks, dates and strings.
- `tests/` — tests of the library.
- `app/` — the program around it: the SQLite store and demo data, the HTTP
  API (axum), the Sling REST client, the OS keychain and the CV worker
  client. Some choices are made in the database queries there: which
  templates are active, which imported shifts were already seen, which
  template an imported shift joins. The floating-point severity score of
  Sentinel detections is computed there too.

Run the server with `lifebot` (or `lifebot serve`); reset the demo data with
`lifebot seed-demo`.
