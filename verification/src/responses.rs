//! What the request-statistics endpoints answer with: the host filter menu, the rows of each
//! query, and the body of an internal error.
use vstd::prelude::*;
use vstd::string::StringExecFns;

use crate::api::path_parts_spec;

verus! {

// ---------------------------------------------------------------------------------------------
// Host filters
// ---------------------------------------------------------------------------------------------

/// One entry of the site selector: a label, the host it selects, and an optional path prefix
/// (a leading `'!'` excludes the path).
#[derive(Debug)]
pub struct HostFilter {
    pub label: String,
    pub host: String,
    pub path_prefix: Option<String>,
}

impl View for HostFilter {
    type V = (Seq<char>, Seq<char>, Option<Seq<char>>);

    open spec fn view(&self) -> Self::V {
        (
            self.label@,
            self.host@,
            match self.path_prefix {
                Some(p) => Some(p@),
                None => None,
            },
        )
    }
}

/// The host that also serves the metrics UI under [`METRICS_PATH`].
pub const SHARED_HOST: &'static str = "goblin.geno.su";

/// Label of the metrics UI's own traffic.
pub const METRICS_LABEL: &'static str = "metrics";

/// Where the metrics UI is served on [`SHARED_HOST`].
pub const METRICS_PATH: &'static str = "/goblin-metrics";

/// Everything on [`SHARED_HOST`] except the metrics UI.
pub const NOT_METRICS_PATH: &'static str = "!/goblin-metrics";

/// The selector entries for one host: the shared host is split into the site proper and the
/// metrics UI; any other host is one entry labelled by itself.
pub open spec fn filters_for_host(h: Seq<char>) -> Seq<(Seq<char>, Seq<char>, Option<Seq<char>>)> {
    if h == SHARED_HOST@ {
        seq![(SHARED_HOST@, h, Some(NOT_METRICS_PATH@)), (METRICS_LABEL@, h, Some(METRICS_PATH@))]
    } else {
        seq![(h, h, None)]
    }
}

/// The selector entries for `hosts`, host by host.
pub open spec fn host_filters_spec(hosts: Seq<Seq<char>>) -> Seq<
    (Seq<char>, Seq<char>, Option<Seq<char>>),
>
    decreases hosts.len(),
{
    if hosts.len() == 0 {
        seq![]
    } else {
        host_filters_spec(hosts.drop_last()) + filters_for_host(hosts.last())
    }
}

pub open spec fn filter_views(v: Seq<HostFilter>) -> Seq<(Seq<char>, Seq<char>, Option<Seq<char>>)> {
    v.map_values(|f: HostFilter| f@)
}

pub open spec fn string_seq_views(v: Seq<String>) -> Seq<Seq<char>> {
    v.map_values(|s: String| s@)
}

/// The site selector for the distinct non-empty hosts seen in requests.
pub fn host_filters(hosts: &Vec<String>) -> (filters: Vec<HostFilter>)
    ensures
        filter_views(filters@) == host_filters_spec(string_seq_views(hosts@)),
{
    let shared = String::from_str(SHARED_HOST);
    let mut out: Vec<HostFilter> = Vec::new();
    let mut i: usize = 0;
    assert(string_seq_views(hosts@).take(0) =~= seq![]);
    assert(filter_views(out@) =~= seq![]);
    while i < hosts.len()
        invariant
            i <= hosts@.len(),
            shared@ == SHARED_HOST@,
            filter_views(out@) == host_filters_spec(string_seq_views(hosts@).take(i as int)),
        decreases hosts@.len() - i,
    {
        let host = &hosts[i];
        let ghost before = out@;
        proof {
            let hv = string_seq_views(hosts@);
            assert(hv.take(i + 1).drop_last() =~= hv.take(i as int));
            assert(hv.take(i + 1).last() == host@);
        }
        if *host == shared {
            out.push(
                HostFilter {
                    label: String::from_str(SHARED_HOST),
                    host: host.clone(),
                    path_prefix: Some(String::from_str(NOT_METRICS_PATH)),
                },
            );
            out.push(
                HostFilter {
                    label: String::from_str(METRICS_LABEL),
                    host: host.clone(),
                    path_prefix: Some(String::from_str(METRICS_PATH)),
                },
            );
        } else {
            out.push(HostFilter { label: host.clone(), host: host.clone(), path_prefix: None });
        }
        assert(filter_views(out@) =~= filter_views(before) + filters_for_host(host@));
        i = i + 1;
    }
    assert(string_seq_views(hosts@).take(i as int) =~= string_seq_views(hosts@));
    out
}

/// Only the shared host itself is split: any other host (a subdomain of it too) gives exactly one
/// entry, labelled by the host itself and without a path prefix.
pub proof fn lemma_other_host_single_entry(h: Seq<char>)
    requires
        h != SHARED_HOST@,
    ensures
        filters_for_host(h) == seq![(h, h, None::<Seq<char>>)],
{
}

/// A host list without the shared host gives one entry per host, in order, each labelled by its
/// host and without a path prefix.
pub proof fn lemma_host_filters_without_shared_host(hosts: Seq<Seq<char>>)
    requires
        forall|i: int| 0 <= i < hosts.len() ==> #[trigger] hosts[i] != SHARED_HOST@,
    ensures
        host_filters_spec(hosts).len() == hosts.len(),
        forall|i: int|
            0 <= i < hosts.len() ==> #[trigger] host_filters_spec(hosts)[i] == (
                hosts[i],
                hosts[i],
                None::<Seq<char>>,
            ),
    decreases hosts.len(),
{
    if hosts.len() > 0 {
        let init = hosts.drop_last();
        assert forall|i: int| 0 <= i < init.len() implies #[trigger] init[i] != SHARED_HOST@ by {
            assert(init[i] == hosts[i]);
        }
        lemma_host_filters_without_shared_host(init);
        assert(hosts.last() == hosts[hosts.len() - 1]);
        let s = host_filters_spec(hosts);
        assert forall|i: int| 0 <= i < hosts.len() implies #[trigger] s[i] == (
            hosts[i],
            hosts[i],
            None::<Seq<char>>,
        ) by {
            if i < init.len() {
                assert(init[i] == hosts[i]);
            }
        }
    }
}

/// The two entries for the shared host select complementary sets of its requests: the same
/// path, once excluded and once included.
pub proof fn lemma_shared_host_entries_complementary()
    ensures
        filters_for_host(SHARED_HOST@).len() == 2,
        path_parts_spec(filters_for_host(SHARED_HOST@)[0].2) == (Some(METRICS_PATH@), 1i64),
        path_parts_spec(filters_for_host(SHARED_HOST@)[1].2) == (Some(METRICS_PATH@), 0i64),
{
    reveal_strlit("!/goblin-metrics");
    reveal_strlit("/goblin-metrics");
    assert(NOT_METRICS_PATH@.drop_first() =~= METRICS_PATH@);
}

// ---------------------------------------------------------------------------------------------
// Rows
// ---------------------------------------------------------------------------------------------

/// Requests in one time bucket.
#[derive(Debug, Clone, Copy, PartialEq, Eq, Structural)]
pub struct TimeseriesPoint {
    pub count: i64,
    pub bucket_ts: i64,
}

/// Requests with one status code in one time bucket.
#[derive(Debug, Clone, Copy, PartialEq, Eq, Structural)]
pub struct StatusTimeseriesPoint {
    pub bucket_ts: i64,
    pub status_code: i64,
    pub count: i64,
}

/// Requests with one status code.
#[derive(Debug, Clone, Copy, PartialEq, Eq, Structural)]
pub struct StatusCodeCount {
    pub status_code: i64,
    pub count: i64,
}

/// Requests for one URL.
#[derive(Debug)]
pub struct UrlCount {
    pub url: String,
    pub count: i64,
}

/// Requests from one client address.
#[derive(Debug)]
pub struct IpCount {
    pub ip: String,
    pub count: i64,
}

/// `(count, bucket_ts)` rows as points.
pub fn timeseries_points(rows: &Vec<(i64, i64)>) -> (points: Vec<TimeseriesPoint>)
    ensures
        points@.len() == rows@.len(),
        forall|k: int|
            0 <= k < rows@.len() ==> #[trigger] points@[k] == (TimeseriesPoint {
                count: rows@[k].0,
                bucket_ts: rows@[k].1,
            }),
{
    let mut out: Vec<TimeseriesPoint> = Vec::new();
    let mut i: usize = 0;
    while i < rows.len()
        invariant
            i <= rows@.len(),
            out@.len() == i,
            forall|k: int|
                0 <= k < i ==> #[trigger] out@[k] == (TimeseriesPoint {
                    count: rows@[k].0,
                    bucket_ts: rows@[k].1,
                }),
        decreases rows@.len() - i,
    {
        let (count, bucket_ts) = rows[i];
        out.push(TimeseriesPoint { count, bucket_ts });
        i = i + 1;
    }
    out
}

/// `(bucket_ts, status_code, count)` rows as points.
pub fn status_timeseries_points(rows: &Vec<(i64, i64, i64)>) -> (points: Vec<
    StatusTimeseriesPoint,
>)
    ensures
        points@.len() == rows@.len(),
        forall|k: int|
            0 <= k < rows@.len() ==> #[trigger] points@[k] == (StatusTimeseriesPoint {
                bucket_ts: rows@[k].0,
                status_code: rows@[k].1,
                count: rows@[k].2,
            }),
{
    let mut out: Vec<StatusTimeseriesPoint> = Vec::new();
    let mut i: usize = 0;
    while i < rows.len()
        invariant
            i <= rows@.len(),
            out@.len() == i,
            forall|k: int|
                0 <= k < i ==> #[trigger] out@[k] == (StatusTimeseriesPoint {
                    bucket_ts: rows@[k].0,
                    status_code: rows@[k].1,
                    count: rows@[k].2,
                }),
        decreases rows@.len() - i,
    {
        let (bucket_ts, status_code, count) = rows[i];
        out.push(StatusTimeseriesPoint { bucket_ts, status_code, count });
        i = i + 1;
    }
    out
}

/// `(status_code, count)` rows as counts.
pub fn status_code_counts(rows: &Vec<(i64, i64)>) -> (counts: Vec<StatusCodeCount>)
    ensures
        counts@.len() == rows@.len(),
        forall|k: int|
            0 <= k < rows@.len() ==> #[trigger] counts@[k] == (StatusCodeCount {
                status_code: rows@[k].0,
                count: rows@[k].1,
            }),
{
    let mut out: Vec<StatusCodeCount> = Vec::new();
    let mut i: usize = 0;
    while i < rows.len()
        invariant
            i <= rows@.len(),
            out@.len() == i,
            forall|k: int|
                0 <= k < i ==> #[trigger] out@[k] == (StatusCodeCount {
                    status_code: rows@[k].0,
                    count: rows@[k].1,
                }),
        decreases rows@.len() - i,
    {
        let (status_code, count) = rows[i];
        out.push(StatusCodeCount { status_code, count });
        i = i + 1;
    }
    out
}

/// `(url, count)` rows as counts, in row order.
pub fn url_counts(rows: Vec<(String, i64)>) -> (counts: Vec<UrlCount>)
    ensures
        counts@.len() == rows@.len(),
        forall|k: int|
            0 <= k < rows@.len() ==> (#[trigger] counts@[k]).url@ == rows@[k].0@ && counts@[k].count
                == rows@[k].1,
{
    let mut out: Vec<UrlCount> = Vec::new();
    let mut i: usize = 0;
    while i < rows.len()
        invariant
            i <= rows@.len(),
            out@.len() == i,
            forall|k: int|
                0 <= k < i ==> (#[trigger] out@[k]).url@ == rows@[k].0@ && out@[k].count
                    == rows@[k].1,
        decreases rows@.len() - i,
    {
        out.push(UrlCount { url: rows[i].0.clone(), count: rows[i].1 });
        i = i + 1;
    }
    out
}

/// `(ip, count)` rows as counts, in row order.
pub fn ip_counts(rows: Vec<(String, i64)>) -> (counts: Vec<IpCount>)
    ensures
        counts@.len() == rows@.len(),
        forall|k: int|
            0 <= k < rows@.len() ==> (#[trigger] counts@[k]).ip@ == rows@[k].0@ && counts@[k].count
                == rows@[k].1,
{
    let mut out: Vec<IpCount> = Vec::new();
    let mut i: usize = 0;
    while i < rows.len()
        invariant
            i <= rows@.len(),
            out@.len() == i,
            forall|k: int|
                0 <= k < i ==> (#[trigger] out@[k]).ip@ == rows@[k].0@ && out@[k].count == rows@[k].1,
        decreases rows@.len() - i,
    {
        out.push(IpCount { ip: rows[i].0.clone(), count: rows[i].1 });
        i = i + 1;
    }
    out
}

// ---------------------------------------------------------------------------------------------
// Errors
// ---------------------------------------------------------------------------------------------

/// HTTP status of a failed request.
pub const INTERNAL_SERVER_ERROR: u16 = 500;

pub const INTERNAL_ERROR_PREFIX: &'static str = "internal error: ";

/// A failure while answering a request, with the failure's text.
#[derive(Debug)]
pub struct AppError {
    pub message: String,
}

impl AppError {
    /// The status and body of the response to a failed request.
    pub fn response_parts(&self) -> (r: (u16, String))
        ensures
            r.0 == INTERNAL_SERVER_ERROR,
            r.1@ == INTERNAL_ERROR_PREFIX@ + self.message@,
    {
        let mut body = String::from_str(INTERNAL_ERROR_PREFIX);
        body.append(self.message.as_str());
        (INTERNAL_SERVER_ERROR, body)
    }
}

} // verus!
