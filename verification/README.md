# xero_service

A verified library for extracting the accounting data of Xero organisations into
immutable raw objects, and a command-line program around it.

The library (`src/`) is executable Rust whose contracts are proved by Verus. It
decides; it does no I/O:

- `config`, `resolve`, `mode` – from environment variables and flags to what a run does
- `types`, `query`, `report` – entities, query parameters, business-date windows, reports
- `client`, `retry`, `rate_limit`, `headers` – what to send, and what to do with each reply
- `paging`, `fetch`, `records`, `json`, `tokens` – which pages to ask for, and what they hold
- `key`, `meta`, `manifest`, `sink`, `job`, `run` – object layout, metadata, manifests, runs
- `auth`, `pkce`, `encoding`, `login` – tokens by custom connection, and logins
- `backfill`, `bronze`, `store`, `service`, `listing` – the rules of the stateful service
- `calendar`, `sorted`, `text`, `error` – values that the others are built on

The application (`app/`) holds what is left: the `xero` command, HTTP requests, the GCS
and local sinks, the database and the HTTP service.

Functions that call an outside crate are marked `#[verifier::external_body]`; the comment
above each says what is claimed of the call.

## Sync modes

The mode of `xero sync` follows from its flags, the first that applies:

| Flags                               | Mode                                       |
|-------------------------------------|--------------------------------------------|
| `--backfill FROM:TO`                | backfill, in chunks of business dates      |
| `--reports`                         | report snapshots as of `--as-of`           |
| `--where <expr>` / `--no-window`    | open sweep: a filter, no window            |
| `--business-from` / `--business-to` | rolling full over the given dates          |
| `--full-with-window`                | rolling full over the configured window    |
| `--full`                            | master data, no filter                     |
| none                                | incremental: modified within the last days |

## Object layout

```text
object:   {prefix}/{tenant}/2.0/{endpoint}/{date}/{ts}_{run}_p{page}.json
report:   {prefix}/{tenant}/2.0/{endpoint}/{date}/{ts}_{run}__{period}.json
sidecar:  {object}.meta.json
manifest: _manifests/xero/{date}/{run_id}.json
```
