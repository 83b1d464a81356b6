//! The SQL text of the request-statistics queries. Every query binds `?1`/`?2` to the time
//! range, `?3` to the host (or NULL), `?4` to the path (or NULL) and `?5` to the exclusion
//! flag; the top lists also bind `?6` to the row limit.
use vstd::prelude::*;
use vstd::string::StringExecFns;

use crate::number::{i64_text, signed_decimal};

verus! {

/// Restricts `url` to the path in `?4` and the paths below it, or (when `?5` is 1) to all
/// others; no restriction when `?4` is NULL.
pub const PATH_FILTER_SQL: &'static str = "AND (?4 IS NULL OR (CASE WHEN ?5 = 1 THEN (url NOT LIKE ?4 || '/%' AND url != ?4) ELSE (url LIKE ?4 || '/%' OR url = ?4) END))";

pub const FROM_REQUESTS_SQL: &'static str = "\n         FROM requests";

pub const RANGE_HOST_SQL: &'static str = "\n         WHERE timestamp BETWEEN ?1 AND ?2\n           AND (?3 IS NULL OR host = ?3)\n           ";

pub const BUCKET_OPEN_SQL: &'static str = "(timestamp / ";

pub const BUCKET_MID_SQL: &'static str = ") * ";

pub const TIMESERIES_SELECT_SQL: &'static str = "SELECT COUNT(*) as count, ";

pub const TIMESERIES_COLUMNS_SQL: &'static str = " AS bucket_ts";

pub const TIMESERIES_TAIL_SQL: &'static str = "\n         GROUP BY bucket_ts\n         ORDER BY bucket_ts ASC";

pub const SELECT_SQL: &'static str = "SELECT ";

pub const STATUS_TIMESERIES_COLUMNS_SQL: &'static str = " AS bucket_ts,\n                status_code, COUNT(*) as count";

pub const STATUS_TIMESERIES_TAIL_SQL: &'static str = "\n         GROUP BY bucket_ts, status_code\n         ORDER BY bucket_ts ASC, status_code ASC";

pub const STATUS_CODES_SELECT_SQL: &'static str = "SELECT status_code, COUNT(*) FROM requests";

pub const STATUS_CODES_TAIL_SQL: &'static str = "\n         GROUP BY status_code\n         ORDER BY status_code ASC";

pub const TOP_URLS_SELECT_SQL: &'static str = "SELECT url, COUNT(*) AS count FROM requests";

pub const TOP_URLS_TAIL_SQL: &'static str = "\n         GROUP BY url\n         ORDER BY count DESC\n         LIMIT ?6";

pub const TOP_IPS_SELECT_SQL: &'static str = "SELECT ip, COUNT(*) AS count FROM requests";

pub const TOP_IPS_TAIL_SQL: &'static str = "\n           AND ip != ''\n         GROUP BY ip\n         ORDER BY count DESC\n         LIMIT ?6";

pub const LATENCY_COLUMNS_SQL: &'static str = " AS bucket_ts,\n                AVG(response_time_ms) AS avg_ms";

pub const LATENCY_TAIL_SQL: &'static str = "\n           AND method != ''\n         GROUP BY bucket_ts\n         ORDER BY bucket_ts ASC";

/// Names of the stored system metrics, sorted.
pub const METRIC_NAMES_SQL: &'static str = "SELECT DISTINCT metric_name FROM metrics ORDER BY metric_name";

/// `(metric_value, timestamp)` rows of metric `?1` between `?2` and `?3`, oldest first.
pub const METRIC_POINTS_SQL: &'static str = "SELECT metric_value, timestamp FROM metrics\n         WHERE metric_name = ?1 AND timestamp BETWEEN ?2 AND ?3\n         ORDER BY timestamp ASC";

/// Stores one system metric sample: name `?1`, value `?2`, time `?3`.
pub const INSERT_METRIC_SQL: &'static str = "INSERT INTO metrics (metric_name, metric_value, timestamp) VALUES (?1, ?2, ?3)";

/// The distinct non-empty hosts seen in requests, sorted.
pub const HOSTS_SQL: &'static str = "SELECT DISTINCT host FROM requests WHERE host != '' ORDER BY host";

/// Stores one request: time, URL, client, host, user agent, status, headers, method and
/// response time, `?1` to `?9`.
pub const INSERT_REQUEST_SQL: &'static str = "INSERT OR IGNORE INTO requests\n             (timestamp, url, ip, host, user_agent, status_code, headers, method, response_time_ms)\n             VALUES (?1, ?2, ?3, ?4, ?5, ?6, ?7, ?8, ?9)";

/// The saved byte offset of the log ingestor.
pub const LOAD_OFFSET_SQL: &'static str = "SELECT value FROM ingestor_state WHERE key = 'log_offset'";

/// Saves the log ingestor's byte offset `?1`.
pub const SAVE_OFFSET_SQL: &'static str = "INSERT INTO ingestor_state (key, value) VALUES ('log_offset', ?1)\n         ON CONFLICT(key) DO UPDATE SET value = excluded.value";

/// `(timestamp / B) * B`: the start of the bucket of width `B` that a row falls in.
pub open spec fn bucket_expr(bucket_ms: i64) -> Seq<char> {
    BUCKET_OPEN_SQL@ + signed_decimal(bucket_ms as int) + BUCKET_MID_SQL@ + signed_decimal(
        bucket_ms as int,
    )
}

/// The range, host and path restriction shared by all request queries.
pub open spec fn range_filter_sql() -> Seq<char> {
    RANGE_HOST_SQL@ + PATH_FILTER_SQL@
}

pub open spec fn timeseries_sql_spec(bucket_ms: i64) -> Seq<char> {
    TIMESERIES_SELECT_SQL@ + bucket_expr(bucket_ms) + TIMESERIES_COLUMNS_SQL@ + FROM_REQUESTS_SQL@
        + range_filter_sql() + TIMESERIES_TAIL_SQL@
}

pub open spec fn status_timeseries_sql_spec(bucket_ms: i64) -> Seq<char> {
    SELECT_SQL@ + bucket_expr(bucket_ms) + STATUS_TIMESERIES_COLUMNS_SQL@ + FROM_REQUESTS_SQL@
        + range_filter_sql() + STATUS_TIMESERIES_TAIL_SQL@
}

pub open spec fn status_codes_sql_spec() -> Seq<char> {
    STATUS_CODES_SELECT_SQL@ + range_filter_sql() + STATUS_CODES_TAIL_SQL@
}

pub open spec fn top_urls_sql_spec() -> Seq<char> {
    TOP_URLS_SELECT_SQL@ + range_filter_sql() + TOP_URLS_TAIL_SQL@
}

pub open spec fn top_ips_sql_spec() -> Seq<char> {
    TOP_IPS_SELECT_SQL@ + range_filter_sql() + TOP_IPS_TAIL_SQL@
}

pub open spec fn latency_sql_spec(bucket_ms: i64) -> Seq<char> {
    SELECT_SQL@ + bucket_expr(bucket_ms) + LATENCY_COLUMNS_SQL@ + FROM_REQUESTS_SQL@
        + range_filter_sql() + LATENCY_TAIL_SQL@
}

fn push_bucket_expr(s: &mut String, bucket_ms: i64)
    ensures
        final(s)@ == old(s)@ + bucket_expr(bucket_ms),
{
    let b = i64_text(bucket_ms);
    s.append(BUCKET_OPEN_SQL);
    s.append(b.as_str());
    s.append(BUCKET_MID_SQL);
    s.append(b.as_str());
    assert(s@ =~= old(s)@ + bucket_expr(bucket_ms));
}

fn push_range_filter(s: &mut String)
    ensures
        final(s)@ == old(s)@ + range_filter_sql(),
{
    s.append(RANGE_HOST_SQL);
    s.append(PATH_FILTER_SQL);
    assert(s@ =~= old(s)@ + range_filter_sql());
}

/// Requests per bucket: `(count, bucket_ts)` rows.
pub fn timeseries_sql(bucket_ms: i64) -> (s: String)
    ensures
        s@ == timeseries_sql_spec(bucket_ms),
{
    let mut s = String::from_str(TIMESERIES_SELECT_SQL);
    push_bucket_expr(&mut s, bucket_ms);
    s.append(TIMESERIES_COLUMNS_SQL);
    s.append(FROM_REQUESTS_SQL);
    push_range_filter(&mut s);
    s.append(TIMESERIES_TAIL_SQL);
    assert(s@ =~= timeseries_sql_spec(bucket_ms));
    s
}

/// Requests per bucket and status code: `(bucket_ts, status_code, count)` rows.
pub fn status_timeseries_sql(bucket_ms: i64) -> (s: String)
    ensures
        s@ == status_timeseries_sql_spec(bucket_ms),
{
    let mut s = String::from_str(SELECT_SQL);
    push_bucket_expr(&mut s, bucket_ms);
    s.append(STATUS_TIMESERIES_COLUMNS_SQL);
    s.append(FROM_REQUESTS_SQL);
    push_range_filter(&mut s);
    s.append(STATUS_TIMESERIES_TAIL_SQL);
    assert(s@ =~= status_timeseries_sql_spec(bucket_ms));
    s
}

/// Requests per status code: `(status_code, count)` rows.
pub fn status_codes_sql() -> (s: String)
    ensures
        s@ == status_codes_sql_spec(),
{
    let mut s = String::from_str(STATUS_CODES_SELECT_SQL);
    push_range_filter(&mut s);
    s.append(STATUS_CODES_TAIL_SQL);
    assert(s@ =~= status_codes_sql_spec());
    s
}

/// The most requested URLs: `(url, count)` rows, most first.
pub fn top_urls_sql() -> (s: String)
    ensures
        s@ == top_urls_sql_spec(),
{
    let mut s = String::from_str(TOP_URLS_SELECT_SQL);
    push_range_filter(&mut s);
    s.append(TOP_URLS_TAIL_SQL);
    assert(s@ =~= top_urls_sql_spec());
    s
}

/// The most frequent client addresses: `(ip, count)` rows, most first.
pub fn top_ips_sql() -> (s: String)
    ensures
        s@ == top_ips_sql_spec(),
{
    let mut s = String::from_str(TOP_IPS_SELECT_SQL);
    push_range_filter(&mut s);
    s.append(TOP_IPS_TAIL_SQL);
    assert(s@ =~= top_ips_sql_spec());
    s
}

/// Mean response time per bucket: `(bucket_ts, avg_ms)` rows.
pub fn latency_sql(bucket_ms: i64) -> (s: String)
    ensures
        s@ == latency_sql_spec(bucket_ms),
{
    let mut s = String::from_str(SELECT_SQL);
    push_bucket_expr(&mut s, bucket_ms);
    s.append(LATENCY_COLUMNS_SQL);
    s.append(FROM_REQUESTS_SQL);
    push_range_filter(&mut s);
    s.append(LATENCY_TAIL_SQL);
    assert(s@ =~= latency_sql_spec(bucket_ms));
    s
}

} // verus!
