# domains_dns

The decisions behind `dns list`, `dns set` and `dns delete`, three commands of a domain registrar's
command-line client, written in Rust and proved with Verus.

The registrar's API touches one DNS record at a time. `dns set` therefore reconciles: it reuses the
records that exist for a type and name, deletes the surplus and creates the shortfall. A CNAME and
records of other types cannot share a name, so a write can meet a conflict; if the user opted in, the
conflicting records are deleted and the write is tried once more. `dns delete` deletes the matching
records one after another. Nothing here is atomic, so every failure is reported record by record.

## Layout

* `src/` is the library. Its functions carry contracts, and the functions named `law_...` state and
  prove what holds of whole runs: that a run carries out its plan, touches no other record, never
  gets stuck, comes to an end, and reports every record, that a run of `dns delete` reported as a
  success has removed every record found, and that a run of `dns set` reported as a success has
  replaced the whole set. The last holds where the records found have ids of their own and none that
  has taken its value is listed to a later write as one that conflicts.
* `app/` is ordinary Rust around it: the command-line arguments, the requests over HTTP, and the
  hooks of the debug log. It drives the runs of the library: it carries out the call that a run asks
  for and hands back the reply.
* `tests/` runs the library on concrete values.

## What is taken on trust

JSON values are built with `serde_json`, the HTTP client and its headers with `reqwest`, and path
segments are escaped with `progenitor-client`. Each such call stands in a small function whose
contract says what it relies on; they are in `src/json.rs`, `src/client.rs` and `src/endpoint.rs`.
Whether an HTTP client can be built at all depends on the machine, so that is not promised.
