use goblin_metrics::api::{
    default_limit, now_ms, path_parts, resolve_range, Bucket, MetricQuery, RangeQuery,
    TopUrlsQuery,
};
use goblin_metrics::responses::{
    host_filters, ip_counts, status_code_counts, status_timeseries_points, timeseries_points,
    url_counts, AppError, HostFilter,
};
use goblin_metrics::sql::{
    latency_sql, status_codes_sql, status_timeseries_sql, timeseries_sql, top_ips_sql,
    top_urls_sql, PATH_FILTER_SQL,
};

fn query() -> RangeQuery {
    RangeQuery { from: None, to: None, span_ms: None, bucket: None, host: None, path_prefix: None }
}

#[test]
fn bucket_widths() {
    assert_eq!(Bucket::Second.ms(), 1_000);
    assert_eq!(Bucket::Minute.ms(), 60_000);
    assert_eq!(Bucket::Hour.ms(), 3_600_000);
    assert_eq!(Bucket::default().ms(), query().bucket_ms());
    let q = RangeQuery { bucket: Some(Bucket::Hour), ..query() };
    assert_eq!(q.bucket_ms(), 3_600_000);
}

#[test]
fn range_with_explicit_bounds() {
    let q = RangeQuery { from: Some(0), to: Some(9_999_999_999_999), ..query() };
    assert_eq!(q.resolve(), Some((0, 9_999_999_999_999)));
    assert_eq!(q.resolve_at(5), Some((0, 9_999_999_999_999)));
}

#[test]
fn range_from_hours() {
    let q = RangeQuery { span_ms: Some(2 * 3_600_000), ..query() };
    assert_eq!(q.resolve_at(10_000_000), Some((10_000_000 - 7_200_000, 10_000_000)));
    assert_eq!(query().resolve_at(3_600_000), Some((0, 3_600_000)));
    let (from, to) = query().resolve().unwrap();
    assert_eq!(to - from, 3_600_000);
    assert!(to > 1_600_000_000_000);
}

#[test]
fn range_overflow_is_reported() {
    assert_eq!(resolve_range(None, None, None, i64::MIN), None);
    assert_eq!(resolve_range(None, Some(5), Some(-1), i64::MAX), None);
    assert_eq!(resolve_range(None, Some(i64::MIN), None, 0), Some((-3_600_000, i64::MIN)));
    assert_eq!(resolve_range(Some(3), Some(i64::MIN), None, 0), Some((3, i64::MIN)));
}

#[test]
fn clock_is_after_2020() {
    assert!(now_ms() > 1_577_836_800_000);
}

#[test]
fn host_filter_skips_empty() {
    assert_eq!(query().host_filter(), None);
    let q = RangeQuery { host: Some(String::new()), ..query() };
    assert_eq!(q.host_filter(), None);
    let q = RangeQuery { host: Some("site-a.example.com".to_string()), ..query() };
    assert_eq!(q.host_filter(), Some("site-a.example.com"));
}

#[test]
fn path_prefix_parts() {
    assert_eq!(path_parts(None), (None, 0));
    assert_eq!(path_parts(Some("")), (None, 0));
    assert_eq!(path_parts(Some("/goblin-metrics")), (Some("/goblin-metrics"), 0));
    assert_eq!(path_parts(Some("!/goblin-metrics")), (Some("/goblin-metrics"), 1));
    assert_eq!(path_parts(Some("!")), (Some(""), 1));
    assert_eq!(path_parts(Some("!é")), (Some("é"), 1));
}

#[test]
fn request_filter_binds_everything() {
    let q = RangeQuery {
        from: Some(1),
        to: Some(2),
        host: Some("h".to_string()),
        path_prefix: Some("!/x".to_string()),
        ..query()
    };
    let f = q.request_filter().unwrap();
    assert_eq!((f.from, f.to, f.negate), (1, 2, 1));
    assert_eq!(f.host.as_deref(), Some("h"));
    assert_eq!(f.path.as_deref(), Some("/x"));
}

#[test]
fn top_urls_limit_zero_means_all() {
    let q = TopUrlsQuery { from: Some(7), to: Some(100), span_ms: None, host: None, path_prefix: None, limit: 0 };
    assert_eq!(q.sql_limit(), 5000);
    let q = TopUrlsQuery { limit: 3, ..q };
    assert_eq!(q.sql_limit(), 3);
    assert_eq!(default_limit(), 10);
    let f = q.request_filter().unwrap();
    assert_eq!((f.from, f.to, f.host, f.path, f.negate), (7, 100, None, None, 0));
}

#[test]
fn metric_query_range() {
    let q = MetricQuery { name: "cpu_usage_pct".to_string(), from: None, to: Some(5_000_000), span_ms: Some(1_000) };
    let before = now_ms();
    let (from, to) = q.resolve().unwrap();
    let after = now_ms();
    assert_eq!(to, 5_000_000);
    assert!(before - 1_000 <= from && from <= after - 1_000);
}

#[test]
fn missing_from_counts_back_from_now() {
    let q = RangeQuery { to: Some(5_000_000), span_ms: Some(1_000), ..query() };
    assert_eq!(q.resolve_at(9_000_000), Some((8_999_000, 5_000_000)));
    assert_eq!(resolve_range(None, None, Some(60_000), 100_000), Some((40_000, 100_000)));
    assert_eq!(resolve_range(Some(1), None, Some(60_000), 100_000), Some((1, 100_000)));
}

fn formatted_timeseries_sql(bucket_ms: i64) -> String {
    format!(
        "SELECT COUNT(*) as count, (timestamp / {bucket_ms}) * {bucket_ms} AS bucket_ts
         FROM requests
         WHERE timestamp BETWEEN ?1 AND ?2
           AND (?3 IS NULL OR host = ?3)
           {PATH_FILTER_SQL}
         GROUP BY bucket_ts
         ORDER BY bucket_ts ASC"
    )
}

#[test]
fn sql_texts_match_queries() {
    assert_eq!(
        PATH_FILTER_SQL,
        "AND (?4 IS NULL OR (CASE WHEN ?5 = 1 \
     THEN (url NOT LIKE ?4 || '/%' AND url != ?4) \
     ELSE (url LIKE ?4 || '/%' OR url = ?4) END))"
    );
    for b in [1_000i64, 60_000, 3_600_000, -7] {
        assert_eq!(timeseries_sql(b), formatted_timeseries_sql(b));
        assert_eq!(
            status_timeseries_sql(b),
            format!(
                "SELECT (timestamp / {b}) * {b} AS bucket_ts,
                status_code, COUNT(*) as count
         FROM requests
         WHERE timestamp BETWEEN ?1 AND ?2
           AND (?3 IS NULL OR host = ?3)
           {PATH_FILTER_SQL}
         GROUP BY bucket_ts, status_code
         ORDER BY bucket_ts ASC, status_code ASC"
            )
        );
        assert_eq!(
            latency_sql(b),
            format!(
                "SELECT (timestamp / {b}) * {b} AS bucket_ts,
                AVG(response_time_ms) AS avg_ms
         FROM requests
         WHERE timestamp BETWEEN ?1 AND ?2
           AND (?3 IS NULL OR host = ?3)
           {PATH_FILTER_SQL}
           AND method != ''
         GROUP BY bucket_ts
         ORDER BY bucket_ts ASC"
            )
        );
    }
    assert_eq!(
        status_codes_sql(),
        format!(
            "SELECT status_code, COUNT(*) FROM requests
         WHERE timestamp BETWEEN ?1 AND ?2
           AND (?3 IS NULL OR host = ?3)
           {PATH_FILTER_SQL}
         GROUP BY status_code
         ORDER BY status_code ASC"
        )
    );
    assert_eq!(
        top_urls_sql(),
        format!(
            "SELECT url, COUNT(*) AS count FROM requests
         WHERE timestamp BETWEEN ?1 AND ?2
           AND (?3 IS NULL OR host = ?3)
           {PATH_FILTER_SQL}
         GROUP BY url
         ORDER BY count DESC
         LIMIT ?6"
        )
    );
    assert_eq!(
        top_ips_sql(),
        format!(
            "SELECT ip, COUNT(*) AS count FROM requests
         WHERE timestamp BETWEEN ?1 AND ?2
           AND (?3 IS NULL OR host = ?3)
           {PATH_FILTER_SQL}
           AND ip != ''
         GROUP BY ip
         ORDER BY count DESC
         LIMIT ?6"
        )
    );
}

fn view(f: &HostFilter) -> (&str, &str, Option<&str>) {
    (f.label.as_str(), f.host.as_str(), f.path_prefix.as_deref())
}

#[test]
fn host_filters_split_shared_host() {
    let hosts = vec!["a.example.com".to_string(), "goblin.geno.su".to_string()];
    let filters = host_filters(&hosts);
    let v: Vec<_> = filters.iter().map(view).collect();
    assert_eq!(
        v,
        vec![
            ("a.example.com", "a.example.com", None),
            ("goblin.geno.su", "goblin.geno.su", Some("!/goblin-metrics")),
            ("metrics", "goblin.geno.su", Some("/goblin-metrics")),
        ]
    );
    assert!(host_filters(&Vec::new()).is_empty());
    let (p0, n0) = path_parts(v[1].2);
    let (p1, n1) = path_parts(v[2].2);
    assert_eq!((p0, n0, p1, n1), (Some("/goblin-metrics"), 1, Some("/goblin-metrics"), 0));
}

#[test]
fn rows_become_points() {
    let ts = timeseries_points(&vec![(3, 60_000), (1, 120_000)]);
    assert_eq!((ts[1].count, ts[1].bucket_ts), (1, 120_000));
    let st = status_timeseries_points(&vec![(60_000, 404, 2)]);
    assert_eq!((st[0].bucket_ts, st[0].status_code, st[0].count), (60_000, 404, 2));
    let sc = status_code_counts(&vec![(200, 9)]);
    assert_eq!((sc[0].status_code, sc[0].count), (200, 9));
    let u = url_counts(vec![("/a".to_string(), 4)]);
    assert_eq!((u[0].url.as_str(), u[0].count), ("/a", 4));
    let i = ip_counts(vec![("10.0.0.1".to_string(), 5)]);
    assert_eq!((i[0].ip.as_str(), i[0].count), ("10.0.0.1", 5));
}

#[test]
fn app_error_response() {
    let e = AppError { message: "database is locked".to_string() };
    assert_eq!(e.response_parts(), (500, "internal error: database is locked".to_string()));
}
