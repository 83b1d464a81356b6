# goblin_metrics

Tools that collect request and system metrics for a small nginx site into SQLite and serve
them as a dashboard:

- **log-ingestor** follows the nginx JSON access log from the byte offset it last reached and
  stores each request;
- **sys-metrics** samples CPU, memory and load from `/proc` once a second;
- **web-ui** serves the dashboard and a JSON API of time series, status codes and top lists.

## Layout

- `src/` is the library, verified with Verus:
  - `text.rs`: whitespace, words and lines of text; `number.rs`: decimal integers both ways;
  - `parser.rs`: one decoded log line to a stored entry (request URL, nginx time, status,
    recorded headers);
  - `ingest.rs`: the stored offset, the rotation rule, the records in appended bytes;
  - `collectors.rs`: `/proc/stat`, `/proc/meminfo` and `/proc/loadavg` text;
  - `api.rs`, `sql.rs`, `responses.rs`: time ranges, buckets, host and path filters, the SQL
    of each query, and the rows, host menu and error body the API answers with.
- `app/` is the executable around it: file and database access, the HTTP server, JSON
  (de)serialisation, and the floating-point figures.
- `tests/` exercises the library.

Run one of the programs with `app <log-ingestor|sys-metrics|web-ui>`; `DB_PATH`, `LOG_FILE`
and `BIND_ADDR` override the default paths and address.
