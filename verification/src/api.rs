//! Request statistics of the web UI: time ranges, buckets, host and path filters, the SQL
//! text of each query, and the rows that the endpoints answer with.
use vstd::prelude::*;
use vstd::string::StrSliceExecFns;


verus! {

// ---------------------------------------------------------------------------------------------
// Clock
// ---------------------------------------------------------------------------------------------

#[verifier::external_type_specification]
#[verifier::external_body]
pub struct ExSystemTime(std::time::SystemTime);

/// `SystemTime::now()`.
#[verifier::external_body]
fn system_now() -> std::time::SystemTime {
    std::time::SystemTime::now()
}

/// `t.duration_since(UNIX_EPOCH)`, `None` for a time before the epoch.
#[verifier::external_body]
fn since_unix_epoch(t: &std::time::SystemTime) -> Option<core::time::Duration> {
    t.duration_since(std::time::UNIX_EPOCH).ok()
}

/// `Duration::as_millis`.
#[verifier::external_body]
fn whole_millis(d: &core::time::Duration) -> u128 {
    d.as_millis()
}

/// The current time in milliseconds since the Unix epoch: 0 if the clock is set before the
/// epoch, `i64::MAX` past the end of `i64`.
pub fn now_ms() -> (r: i64)
    ensures
        r >= 0,
{
    let now = system_now();
    match since_unix_epoch(&now) {
        Some(d) => {
            let m = whole_millis(&d);
            if m > 0x7fff_ffff_ffff_ffffu128 {
                i64::MAX
            } else {
                m as i64
            }
        },
        None => 0,
    }
}

// ---------------------------------------------------------------------------------------------
// Time ranges
// ---------------------------------------------------------------------------------------------

/// The span a range covers back from now when neither `from` nor `hours` is given: an hour.
pub const DEFAULT_SPAN_MS: i64 = 3_600_000;

/// The span of a query: `hours` converted to milliseconds, an hour by default.
pub open spec fn span_of(span_ms: Option<i64>) -> i64 {
    match span_ms {
        Some(s) => s,
        None => DEFAULT_SPAN_MS,
    }
}

/// The start of a range at time `now`: `from` if given, else `now` minus the span; `None`
/// where that subtraction leaves `i64`.
pub open spec fn range_start(from: Option<i64>, now: i64, span_ms: Option<i64>) -> Option<i64> {
    match from {
        Some(f) => Some(f),
        None => if i64::MIN <= now - span_of(span_ms) <= i64::MAX {
            Some((now - span_of(span_ms)) as i64)
        } else {
            None
        },
    }
}

/// The `(from, to)` of a query at time `now`: a missing `to` is `now`, a missing `from` is
/// `now` minus the span.
pub open spec fn range_at(from: Option<i64>, to: Option<i64>, span_ms: Option<i64>, now: i64) -> Option<(i64, i64)> {
    let t = match to {
        Some(t) => t,
        None => now,
    };
    match range_start(from, now, span_ms) {
        Some(f) => Some((f, t)),
        None => None,
    }
}

/// The `(from, to)` of a query at time `now`.
pub fn resolve_range(from: Option<i64>, to: Option<i64>, span_ms: Option<i64>, now: i64) -> (r:
    Option<(i64, i64)>)
    ensures
        r == range_at(from, to, span_ms, now),
{
    let t = match to {
        Some(t) => t,
        None => now,
    };
    match from {
        Some(f) => Some((f, t)),
        None => {
            let span = match span_ms {
                Some(s) => s,
                None => DEFAULT_SPAN_MS,
            };
            match now.checked_sub(span) {
                Some(f) => Some((f, t)),
                None => None,
            }
        },
    }
}

/// The `(from, to)` of a query now: the clock is read only when `from` or `to` is missing.
fn resolve_now(from: Option<i64>, to: Option<i64>, span_ms: Option<i64>) -> (r: Option<(i64, i64)>)
    ensures
        exists|now: i64| now >= 0 && r == #[trigger] range_at(from, to, span_ms, now),
        from is Some && to is Some ==> r == Some((from->0, to->0)),
        from is Some || span_of(span_ms) >= 0 ==> r is Some,
{
    let now = if from.is_some() && to.is_some() {
        0
    } else {
        now_ms()
    };
    let r = resolve_range(from, to, span_ms, now);
    assert(now >= 0 && r == range_at(from, to, span_ms, now));
    r
}

/// A missing `to` is the current time, whether or not `from` is given: a query with only `from`
/// covers everything from `from` up to now.
pub proof fn lemma_missing_to_is_now(from: Option<i64>, span_ms: Option<i64>, now: i64)
    ensures
        range_at(from, None, span_ms, now) matches Some((f, t)) ==> t == now,
        from matches Some(f) ==> range_at(from, None, span_ms, now) == Some((f, now)),
{
}

/// A range without `from` covers the span back from now: it ends at `now` when `to` is
/// missing too, and a non-negative span then never puts the start after the end.
pub proof fn lemma_range_covers_span(to: Option<i64>, span_ms: Option<i64>, now: i64)
    requires
        range_at(None, to, span_ms, now) is Some,
    ensures
        ({
            let (f, t) = range_at(None, to, span_ms, now)->0;
            &&& f == now - span_of(span_ms)
            &&& to is None ==> t - f == span_of(span_ms)
            &&& to is None && span_of(span_ms) >= 0 ==> f <= t
        }),
{
}

// ---------------------------------------------------------------------------------------------
// Buckets
// ---------------------------------------------------------------------------------------------

/// Width of the time buckets of a time series.
#[derive(Debug, Clone, Copy, PartialEq, Eq, Structural)]
pub enum Bucket {
    Second,
    Minute,
    Hour,
}

impl Bucket {
    pub open spec fn spec_ms(self) -> i64 {
        match self {
            Bucket::Second => 1_000,
            Bucket::Minute => 60_000,
            Bucket::Hour => 3_600_000,
        }
    }

    /// The bucket width in milliseconds.
    pub fn ms(&self) -> (r: i64)
        ensures
            r == self.spec_ms(),
    {
        match self {
            Bucket::Second => 1_000,
            Bucket::Minute => 60_000,
            Bucket::Hour => 3_600_000,
        }
    }
}

impl Default for Bucket {
    fn default() -> (b: Self)
        ensures
            b == Bucket::Minute,
    {
        Bucket::Minute
    }
}

/// The bucket width used when a query names none: a minute.
pub const DEFAULT_BUCKET_MS: i64 = 60_000;

/// The bucket width of an optional bucket.
pub open spec fn bucket_ms_spec(bucket: Option<Bucket>) -> i64 {
    match bucket {
        Some(b) => b.spec_ms(),
        None => DEFAULT_BUCKET_MS,
    }
}

/// A query without a bucket is bucketed as the default bucket is.
pub proof fn lemma_missing_bucket_is_default()
    ensures
        bucket_ms_spec(None) == Bucket::Minute.spec_ms(),
        forall|b: Bucket| #[trigger] b.spec_ms() > 0,
{
}

// ---------------------------------------------------------------------------------------------
// Host and path filters
// ---------------------------------------------------------------------------------------------

pub open spec fn opt_str_view(o: Option<&str>) -> Option<Seq<char>> {
    match o {
        Some(s) => Some(s@),
        None => None,
    }
}

pub open spec fn opt_string_view(o: Option<String>) -> Option<Seq<char>> {
    match o {
        Some(s) => Some(s@),
        None => None,
    }
}

/// The host a query is restricted to: the given host unless it is empty.
pub open spec fn host_filter_spec(host: Option<Seq<char>>) -> Option<Seq<char>> {
    match host {
        Some(h) => if h.len() == 0 {
            None
        } else {
            Some(h)
        },
        None => None,
    }
}

fn non_empty_host(host: &Option<String>) -> (r: Option<&str>)
    ensures
        opt_str_view(r) == host_filter_spec(opt_string_view(*host)),
{
    match host {
        Some(h) => if h.as_str().is_empty() {
            None
        } else {
            Some(h.as_str())
        },
        None => None,
    }
}

/// What a `path_prefix` asks for: `None` for no filter (absent or empty); a prefix starting
/// with `'!'` excludes the path after the `'!'` (flag 1); any other includes it (flag 0).
pub open spec fn path_parts_spec(prefix: Option<Seq<char>>) -> (Option<Seq<char>>, i64) {
    match prefix {
        None => (None, 0),
        Some(p) => if p.len() == 0 {
            (None, 0)
        } else if p[0] == '!' {
            (Some(p.drop_first()), 1)
        } else {
            (Some(p), 0)
        },
    }
}

/// Splits a `path_prefix` into the path to match and whether matches are excluded.
pub fn path_parts(prefix: Option<&str>) -> (r: (Option<&str>, i64))
    ensures
        (opt_str_view(r.0), r.1) == path_parts_spec(opt_str_view(prefix)),
{
    match prefix {
        None => (None, 0),
        Some(p) => {
            if p.is_empty() {
                (None, 0)
            } else if p.get_char(0) == '!' {
                let n = p.unicode_len();
                let rest = p.substring_char(1, n);
                assert(rest@ =~= p@.drop_first());
                (Some(rest), 1)
            } else {
                (Some(p), 0)
            }
        },
    }
}

/// The restriction that every request query applies, ready to bind as `?1` to `?5`.
#[derive(Debug)]
pub struct RequestFilter {
    pub from: i64,
    pub to: i64,
    pub host: Option<String>,
    pub path: Option<String>,
    pub negate: i64,
}

/// `f` is the filter for the range `(from, to)`, host `host` and path prefix `prefix`.
pub open spec fn filter_for(
    f: RequestFilter,
    range: (i64, i64),
    host: Option<Seq<char>>,
    prefix: Option<Seq<char>>,
) -> bool {
    &&& f.from == range.0
    &&& f.to == range.1
    &&& opt_string_view(f.host) == host_filter_spec(host)
    &&& (opt_string_view(f.path), f.negate) == path_parts_spec(prefix)
}

fn to_owned_opt(o: Option<&str>) -> (r: Option<String>)
    ensures
        opt_string_view(r) == opt_str_view(o),
{
    match o {
        Some(s) => Some(s.to_owned()),
        None => None,
    }
}

fn build_filter(range: (i64, i64), host: &Option<String>, prefix: &Option<String>) -> (f:
    RequestFilter)
    ensures
        filter_for(f, range, opt_string_view(*host), opt_string_view(*prefix)),
{
    let pre = match prefix {
        Some(p) => Some(p.as_str()),
        None => None,
    };
    let (path, negate) = path_parts(pre);
    RequestFilter {
        from: range.0,
        to: range.1,
        host: to_owned_opt(non_empty_host(host)),
        path: to_owned_opt(path),
        negate,
    }
}

// ---------------------------------------------------------------------------------------------
// Queries
// ---------------------------------------------------------------------------------------------

/// Query string of the time-series endpoints; `span_ms` is `hours` in milliseconds.
#[derive(Debug)]
pub struct RangeQuery {
    pub from: Option<i64>,
    pub to: Option<i64>,
    pub span_ms: Option<i64>,
    pub bucket: Option<Bucket>,
    pub host: Option<String>,
    pub path_prefix: Option<String>,
}

impl RangeQuery {
    /// `(from, to)` when the current time is `now`.
    pub fn resolve_at(&self, now: i64) -> (r: Option<(i64, i64)>)
        ensures
            r == range_at(self.from, self.to, self.span_ms, now),
    {
        resolve_range(self.from, self.to, self.span_ms, now)
    }

    /// `(from, to)` now: `to` defaults to the current time, `from` to the current time minus the span;
    /// `None` where that subtraction overflows.
    pub fn resolve(&self) -> (r: Option<(i64, i64)>)
        ensures
            exists|now: i64| now >= 0 && r == #[trigger] range_at(self.from, self.to, self.span_ms, now),
            self.from is Some && self.to is Some ==> r == Some((self.from->0, self.to->0)),
            self.from is Some || span_of(self.span_ms) >= 0 ==> r is Some,
    {
        resolve_now(self.from, self.to, self.span_ms)
    }

    /// The bucket width in milliseconds, a minute by default.
    pub fn bucket_ms(&self) -> (r: i64)
        ensures
            r == bucket_ms_spec(self.bucket),
    {
        match &self.bucket {
            Some(b) => b.ms(),
            None => DEFAULT_BUCKET_MS,
        }
    }

    /// The host to restrict to, if one is given and not empty.
    pub fn host_filter(&self) -> (r: Option<&str>)
        ensures
            opt_str_view(r) == host_filter_spec(opt_string_view(self.host)),
    {
        non_empty_host(&self.host)
    }

    /// The filter bound to the query now, or `None` where the range start overflows.
    pub fn request_filter(&self) -> (r: Option<RequestFilter>)
        ensures
            exists|now: i64|
                now >= 0 && #[trigger] range_at(self.from, self.to, self.span_ms, now) == match r {
                    Some(f) => Some((f.from, f.to)),
                    None => None,
                },
            r matches Some(f) ==> filter_for(
                f,
                (f.from, f.to),
                opt_string_view(self.host),
                opt_string_view(self.path_prefix),
            ),
            self.from is Some || span_of(self.span_ms) >= 0 ==> r is Some,
    {
        match self.resolve() {
            Some(range) => Some(build_filter(range, &self.host, &self.path_prefix)),
            None => None,
        }
    }
}

/// The number of rows a top-list query asks for when it names no limit.
pub fn default_limit() -> (r: i64)
    ensures
        r == 10,
{
    10
}

/// The row cap that a `limit` of 0 ("all") stands for.
pub const ALL_ROWS_LIMIT: i64 = 5000;

/// Query string of the top-URL and top-IP endpoints; `span_ms` is `hours` in milliseconds.
#[derive(Debug)]
pub struct TopUrlsQuery {
    pub from: Option<i64>,
    pub to: Option<i64>,
    pub span_ms: Option<i64>,
    pub host: Option<String>,
    pub path_prefix: Option<String>,
    pub limit: i64,
}

impl TopUrlsQuery {
    /// `(from, to)` now, as for [`RangeQuery::resolve`].
    pub fn resolve(&self) -> (r: Option<(i64, i64)>)
        ensures
            exists|now: i64| now >= 0 && r == #[trigger] range_at(self.from, self.to, self.span_ms, now),
            self.from is Some && self.to is Some ==> r == Some((self.from->0, self.to->0)),
            self.from is Some || span_of(self.span_ms) >= 0 ==> r is Some,
    {
        resolve_now(self.from, self.to, self.span_ms)
    }

    /// The `LIMIT` bound: the requested limit, with 0 meaning all rows.
    pub fn sql_limit(&self) -> (r: i64)
        ensures
            r == (if self.limit == 0 {
                ALL_ROWS_LIMIT
            } else {
                self.limit
            }),
    {
        if self.limit == 0 {
            ALL_ROWS_LIMIT
        } else {
            self.limit
        }
    }

    /// The filter bound to the query now, or `None` where the range start overflows.
    pub fn request_filter(&self) -> (r: Option<RequestFilter>)
        ensures
            exists|now: i64|
                now >= 0 && #[trigger] range_at(self.from, self.to, self.span_ms, now) == match r {
                    Some(f) => Some((f.from, f.to)),
                    None => None,
                },
            r matches Some(f) ==> filter_for(
                f,
                (f.from, f.to),
                opt_string_view(self.host),
                opt_string_view(self.path_prefix),
            ),
            self.from is Some || span_of(self.span_ms) >= 0 ==> r is Some,
    {
        match self.resolve() {
            Some(range) => Some(build_filter(range, &self.host, &self.path_prefix)),
            None => None,
        }
    }
}

/// Query string of the metric endpoint; `span_ms` is `hours` in milliseconds.
#[derive(Debug)]
pub struct MetricQuery {
    pub name: String,
    pub from: Option<i64>,
    pub to: Option<i64>,
    pub span_ms: Option<i64>,
}

impl MetricQuery {
    /// `(from, to)` now, as for [`RangeQuery::resolve`].
    pub fn resolve(&self) -> (r: Option<(i64, i64)>)
        ensures
            exists|now: i64| now >= 0 && r == #[trigger] range_at(self.from, self.to, self.span_ms, now),
            self.from is Some && self.to is Some ==> r == Some((self.from->0, self.to->0)),
            self.from is Some || span_of(self.span_ms) >= 0 ==> r is Some,
    {
        resolve_now(self.from, self.to, self.span_ms)
    }
}

} // verus!
