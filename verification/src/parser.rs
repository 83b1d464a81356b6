//! Turning one decoded nginx JSON log line into the row that the ingestor stores.
use vstd::prelude::*;

use crate::number::{parse_i64_in, parse_i64_spec};
use crate::text::{chars_of, find_char, run_before, string_from};
use vstd::string::StringExecFns;

verus! {

/// One request, as stored in the `requests` table.
#[derive(Debug)]
pub struct LogEntry {
    pub timestamp_ms: i64,
    pub method: String,
    pub url: String,
    pub ip: String,
    pub host: String,
    pub user_agent: Option<String>,
    pub status_code: i64,
    pub headers: String,
}

/// The `status` member of a log line, as JSON gave it.
#[derive(Debug)]
pub enum StatusField {
    /// A JSON number that is an integer within `i64`.
    Integer(i64),
    /// A JSON string.
    Text(String),
    /// Anything else (a fractional or out-of-range number, `null`, `true`, ...).
    Other,
}

/// The members of one JSON log line written by the `goblin_json` nginx log format; the
/// optional ones are empty where the line lacks them.
#[derive(Debug)]
pub struct RawEntry {
    pub remote_addr: String,
    pub time_local: String,
    pub request: String,
    pub status: StatusField,
    pub user_agent: String,
    pub referer: String,
    pub accept: String,
    pub accept_language: String,
    pub x_forwarded_for: String,
    pub content_type: String,
    pub host: String,
}

/// Why a decoded log line was rejected.
#[derive(Debug, Clone, Copy, PartialEq, Eq, Structural)]
pub enum LineError {
    /// `time_local` is not an nginx local time.
    BadTime,
    /// `status` is neither an integer nor a string holding one.
    StatusNotNumber,
}

// ---------------------------------------------------------------------------------------------
// Request URL
// ---------------------------------------------------------------------------------------------

/// The second space-separated part of a request line (`"GET /path HTTP/2.0"` gives
/// `"/path"`), or the whole line when it has no space.
pub open spec fn extract_url_spec(request: Seq<char>) -> Seq<char> {
    let i = run_before(request, ' ');
    if i == request.len() {
        request
    } else {
        let rest = request.skip(i as int + 1);
        rest.take(run_before(rest, ' ') as int)
    }
}

/// A request line `"<method> <path> <rest>"` whose method and path hold no space yields its
/// path; so does `"<method> <path>"`.
pub proof fn lemma_request_line_url(method: Seq<char>, path: Seq<char>, rest: Option<Seq<char>>)
    requires
        forall|k: int| 0 <= k < method.len() ==> method[k] != ' ',
        forall|k: int| 0 <= k < path.len() ==> path[k] != ' ',
    ensures
        extract_url_spec(
            method + seq![' '] + path + match rest {
                Some(r) => seq![' '] + r,
                None => Seq::<char>::empty(),
            },
        ) == path,
{
    let tail = match rest {
        Some(r) => seq![' '] + r,
        None => Seq::<char>::empty(),
    };
    let line = method + seq![' '] + path + tail;
    assert(line =~= method + (seq![' '] + path + tail));
    crate::text::lemma_run_before_append(method, seq![' '] + path + tail, ' ');
    assert((seq![' '] + path + tail)[0] == ' ');
    assert(run_before(line, ' ') == method.len());
    let after = line.skip(method.len() as int + 1);
    assert(after =~= path + tail);
    crate::text::lemma_run_before_append(path, tail, ' ');
    match rest {
        Some(r) => {
            assert(tail[0] == ' ');
            assert(run_before(after, ' ') == path.len());
        },
        None => {
            assert(tail =~= Seq::<char>::empty());
            assert(run_before(after, ' ') == path.len());
        },
    }
    assert(after.take(path.len() as int) =~= path);
}

/// Extract URL from `"GET /path HTTP/2.0"`, giving `"/path"`.
pub fn extract_url(request: &str) -> (url: String)
    ensures
        url@ == extract_url_spec(request@),
{
    let v = chars_of(request);
    let i = find_char(&v, 0, ' ');
    assert(v@.skip(0) =~= v@);
    if i == v.len() {
        return request.to_owned();
    }
    let j = find_char(&v, i + 1, ' ');
    proof {
        let rest = v@.skip(i + 1);
        crate::text::lemma_run_before_bound(rest, ' ');
        assert(rest.take(run_before(rest, ' ') as int) =~= v@.subrange(i + 1, j as int));
    }
    string_from(&v, i + 1, j)
}

// ---------------------------------------------------------------------------------------------
// Request method
// ---------------------------------------------------------------------------------------------

pub const METHOD_GET: &'static str = "GET";

pub const METHOD_POST: &'static str = "POST";

pub const METHOD_PUT: &'static str = "PUT";

pub const METHOD_PATCH: &'static str = "PATCH";

pub const METHOD_DELETE: &'static str = "DELETE";

pub const METHOD_HEAD: &'static str = "HEAD";

pub const METHOD_OPTIONS: &'static str = "OPTIONS";

pub const METHOD_CONNECT: &'static str = "CONNECT";

pub const METHOD_TRACE: &'static str = "TRACE";

/// `m` is one of the HTTP methods.
pub open spec fn is_http_method(m: Seq<char>) -> bool {
    ||| m == METHOD_GET@
    ||| m == METHOD_POST@
    ||| m == METHOD_PUT@
    ||| m == METHOD_PATCH@
    ||| m == METHOD_DELETE@
    ||| m == METHOD_HEAD@
    ||| m == METHOD_OPTIONS@
    ||| m == METHOD_CONNECT@
    ||| m == METHOD_TRACE@
}

/// The method of a request line: its first space-separated part when that is an HTTP method,
/// otherwise empty (scanners and TLS handshakes sent to the plain-text port).
pub open spec fn method_spec(request: Seq<char>) -> Seq<char> {
    let m = request.take(run_before(request, ' ') as int);
    if is_http_method(m) {
        m
    } else {
        Seq::empty()
    }
}

fn is_http_method_string(m: &String) -> (b: bool)
    ensures
        b == is_http_method(m@),
{
    *m == String::from_str(METHOD_GET) || *m == String::from_str(METHOD_POST) || *m
        == String::from_str(METHOD_PUT) || *m == String::from_str(METHOD_PATCH) || *m
        == String::from_str(METHOD_DELETE) || *m == String::from_str(METHOD_HEAD) || *m
        == String::from_str(METHOD_OPTIONS) || *m == String::from_str(METHOD_CONNECT) || *m
        == String::from_str(METHOD_TRACE)
}

/// The HTTP method of a request line such as `"GET /path HTTP/2.0"`, or `""` when it starts
/// with anything else.
pub fn extract_method(request: &str) -> (method: String)
    ensures
        method@ == method_spec(request@),
{
    let v = chars_of(request);
    let i = find_char(&v, 0, ' ');
    assert(v@.skip(0) =~= v@);
    let first = string_from(&v, 0, i);
    assert(first@ =~= request@.take(run_before(request@, ' ') as int));
    if is_http_method_string(&first) {
        first
    } else {
        String::new()
    }
}

// ---------------------------------------------------------------------------------------------
// Time
// ---------------------------------------------------------------------------------------------

/// The layout of nginx's `$time_local`, such as `"09/May/2026:17:05:56 +0200"`.
pub const NGINX_TIME_FORMAT: &'static str = "%d/%b/%Y:%H:%M:%S %z";

/// Milliseconds since the Unix epoch of the time that `chrono` reads from `s` in the layout
/// `fmt`, or `None` where it rejects `s`.
pub uninterp spec fn parsed_time_millis(s: Seq<char>, fmt: Seq<char>) -> Option<i64>;

/// `chrono::DateTime::parse_from_str(s, fmt)` followed by `timestamp_millis()` on success.
/// Trusted: the result is whatever chrono computes from the two strings and nothing else.
#[verifier::external_body]
fn chrono_parse_millis(s: &str, fmt: &str) -> (r: Option<i64>)
    ensures
        r == parsed_time_millis(s@, fmt@),
{
    match chrono::DateTime::parse_from_str(s, fmt) {
        Ok(dt) => Some(dt.timestamp_millis()),
        Err(_) => None,
    }
}

/// Milliseconds since the Unix epoch of an nginx `$time_local`, or `None` when it is not one.
pub fn parse_nginx_time(s: &str) -> (r: Option<i64>)
    ensures
        r == parsed_time_millis(s@, NGINX_TIME_FORMAT@),
{
    chrono_parse_millis(s, NGINX_TIME_FORMAT)
}

// ---------------------------------------------------------------------------------------------
// Status
// ---------------------------------------------------------------------------------------------

/// The status code a `status` member stands for: the integer itself, or a string that parses
/// as an `i64`.
pub open spec fn decode_status_spec(status: StatusField) -> Option<i64> {
    match status {
        StatusField::Integer(n) => Some(n),
        StatusField::Text(s) => parse_i64_spec(s@),
        StatusField::Other => None,
    }
}

pub fn decode_status(status: &StatusField) -> (r: Option<i64>)
    ensures
        r == decode_status_spec(*status),
{
    match status {
        StatusField::Integer(n) => Some(*n),
        StatusField::Text(s) => {
            let v = chars_of(s.as_str());
            assert(v@.subrange(0, v@.len() as int) =~= v@);
            parse_i64_in(&v, 0, v.len())
        },
        StatusField::Other => None,
    }
}

// ---------------------------------------------------------------------------------------------
// Headers
// ---------------------------------------------------------------------------------------------

pub const HEADER_REFERER: &'static str = "referer";

pub const HEADER_USER_AGENT: &'static str = "user-agent";

pub const HEADER_ACCEPT: &'static str = "accept";

pub const HEADER_ACCEPT_LANGUAGE: &'static str = "accept-language";

pub const HEADER_X_FORWARDED_FOR: &'static str = "x-forwarded-for";

pub const HEADER_CONTENT_TYPE: &'static str = "content-type";

/// `(key, value)` when `value` is not empty, nothing otherwise.
pub open spec fn header_if_set(key: Seq<char>, value: Seq<char>) -> Seq<(Seq<char>, Seq<char>)> {
    if value.len() == 0 {
        seq![]
    } else {
        seq![(key, value)]
    }
}

/// The request headers that a log line records, in a fixed order, those left empty omitted.
pub open spec fn header_pairs_spec(raw: RawEntry) -> Seq<(Seq<char>, Seq<char>)> {
    header_if_set(HEADER_REFERER@, raw.referer@) + header_if_set(
        HEADER_USER_AGENT@,
        raw.user_agent@,
    ) + header_if_set(HEADER_ACCEPT@, raw.accept@) + header_if_set(
        HEADER_ACCEPT_LANGUAGE@,
        raw.accept_language@,
    ) + header_if_set(HEADER_X_FORWARDED_FOR@, raw.x_forwarded_for@) + header_if_set(
        HEADER_CONTENT_TYPE@,
        raw.content_type@,
    )
}

pub open spec fn pair_views(v: Seq<(String, String)>) -> Seq<(Seq<char>, Seq<char>)> {
    v.map_values(|p: (String, String)| (p.0@, p.1@))
}

fn push_header(out: &mut Vec<(String, String)>, key: &str, value: &String)
    ensures
        pair_views(final(out)@) == pair_views(old(out)@) + header_if_set(key@, value@),
{
    let ghost before = out@;
    if value.as_str().is_empty() {
        assert(pair_views(out@) =~= pair_views(before) + header_if_set(key@, value@));
    } else {
        out.push((key.to_owned(), value.clone()));
        assert(pair_views(out@) =~= pair_views(before) + header_if_set(key@, value@));
    }
}

/// The non-empty request headers of `raw`, keyed by their lower-case header names.
pub fn header_pairs(raw: &RawEntry) -> (pairs: Vec<(String, String)>)
    ensures
        pair_views(pairs@) == header_pairs_spec(*raw),
{
    let mut out: Vec<(String, String)> = Vec::new();
    assert(pair_views(out@) =~= seq![]);
    push_header(&mut out, HEADER_REFERER, &raw.referer);
    push_header(&mut out, HEADER_USER_AGENT, &raw.user_agent);
    push_header(&mut out, HEADER_ACCEPT, &raw.accept);
    push_header(&mut out, HEADER_ACCEPT_LANGUAGE, &raw.accept_language);
    push_header(&mut out, HEADER_X_FORWARDED_FOR, &raw.x_forwarded_for);
    push_header(&mut out, HEADER_CONTENT_TYPE, &raw.content_type);
    assert(pair_views(out@) =~= header_pairs_spec(*raw));
    out
}

/// `pair` is a header field of `raw` worth recording: a non-empty field under its header name.
pub open spec fn is_recorded_header(raw: RawEntry, pair: (Seq<char>, Seq<char>)) -> bool {
    &&& pair.1.len() > 0
    &&& {
        ||| pair == (HEADER_REFERER@, raw.referer@)
        ||| pair == (HEADER_USER_AGENT@, raw.user_agent@)
        ||| pair == (HEADER_ACCEPT@, raw.accept@)
        ||| pair == (HEADER_ACCEPT_LANGUAGE@, raw.accept_language@)
        ||| pair == (HEADER_X_FORWARDED_FOR@, raw.x_forwarded_for@)
        ||| pair == (HEADER_CONTENT_TYPE@, raw.content_type@)
    }
}

proof fn lemma_header_if_set_contains(key: Seq<char>, value: Seq<char>, pair: (Seq<char>, Seq<char>))
    ensures
        header_if_set(key, value).contains(pair) <==> (value.len() > 0 && pair == (key, value)),
{
    if value.len() > 0 {
        assert(header_if_set(key, value)[0] == (key, value));
    }
}

/// The recorded headers are exactly the non-empty header fields of the line, each under its
/// own header name: a field left empty is omitted, a non-empty one (such as the
/// `X-Forwarded-For` of a proxied request) is never dropped, and no name occurs twice.
pub proof fn lemma_header_pairs_recorded(raw: RawEntry)
    ensures
        forall|pair: (Seq<char>, Seq<char>)|
            #[trigger] header_pairs_spec(raw).contains(pair) <==> is_recorded_header(raw, pair),
        raw.referer@.len() > 0 ==> header_pairs_spec(raw).contains((HEADER_REFERER@, raw.referer@)),
        raw.user_agent@.len() > 0 ==> header_pairs_spec(raw).contains(
            (HEADER_USER_AGENT@, raw.user_agent@),
        ),
        raw.accept@.len() > 0 ==> header_pairs_spec(raw).contains((HEADER_ACCEPT@, raw.accept@)),
        raw.accept_language@.len() > 0 ==> header_pairs_spec(raw).contains(
            (HEADER_ACCEPT_LANGUAGE@, raw.accept_language@),
        ),
        raw.x_forwarded_for@.len() > 0 ==> header_pairs_spec(raw).contains(
            (HEADER_X_FORWARDED_FOR@, raw.x_forwarded_for@),
        ),
        raw.content_type@.len() > 0 ==> header_pairs_spec(raw).contains(
            (HEADER_CONTENT_TYPE@, raw.content_type@),
        ),
        forall|i: int, j: int|
            0 <= i < j < header_pairs_spec(raw).len() ==> (#[trigger] header_pairs_spec(raw)[i]).0
                != (#[trigger] header_pairs_spec(raw)[j]).0,
{
    broadcast use vstd::seq_lib::lemma_seq_concat_contains_all_elements;

    let h1 = header_if_set(HEADER_REFERER@, raw.referer@);
    let h2 = header_if_set(HEADER_USER_AGENT@, raw.user_agent@);
    let h3 = header_if_set(HEADER_ACCEPT@, raw.accept@);
    let h4 = header_if_set(HEADER_ACCEPT_LANGUAGE@, raw.accept_language@);
    let h5 = header_if_set(HEADER_X_FORWARDED_FOR@, raw.x_forwarded_for@);
    let h6 = header_if_set(HEADER_CONTENT_TYPE@, raw.content_type@);
    assert forall|pair: (Seq<char>, Seq<char>)|
        #[trigger] header_pairs_spec(raw).contains(pair) <==> is_recorded_header(raw, pair) by {
        lemma_header_if_set_contains(HEADER_REFERER@, raw.referer@, pair);
        lemma_header_if_set_contains(HEADER_USER_AGENT@, raw.user_agent@, pair);
        lemma_header_if_set_contains(HEADER_ACCEPT@, raw.accept@, pair);
        lemma_header_if_set_contains(HEADER_ACCEPT_LANGUAGE@, raw.accept_language@, pair);
        lemma_header_if_set_contains(HEADER_X_FORWARDED_FOR@, raw.x_forwarded_for@, pair);
        lemma_header_if_set_contains(HEADER_CONTENT_TYPE@, raw.content_type@, pair);
        assert(header_pairs_spec(raw) == h1 + h2 + h3 + h4 + h5 + h6);
    }
    lemma_header_names_distinct(raw);
}

/// Position of a recorded header name in the fixed order of [`header_pairs_spec`].
spec fn header_rank(name: Seq<char>) -> int {
    if name == HEADER_REFERER@ {
        0
    } else if name == HEADER_USER_AGENT@ {
        1
    } else if name == HEADER_ACCEPT@ {
        2
    } else if name == HEADER_ACCEPT_LANGUAGE@ {
        3
    } else if name == HEADER_X_FORWARDED_FOR@ {
        4
    } else {
        5
    }
}

spec fn ranked_below(s: Seq<(Seq<char>, Seq<char>)>, r: int) -> bool {
    &&& forall|i: int, j: int|
        0 <= i < j < s.len() ==> header_rank((#[trigger] s[i]).0) < header_rank((#[trigger] s[j]).0)
    &&& forall|i: int| 0 <= i < s.len() ==> header_rank((#[trigger] s[i]).0) < r
}

proof fn lemma_ranked_append(a: Seq<(Seq<char>, Seq<char>)>, key: Seq<char>, value: Seq<char>, r: int)
    requires
        ranked_below(a, r),
        header_rank(key) == r,
    ensures
        ranked_below(a + header_if_set(key, value), r + 1),
{
    let s = a + header_if_set(key, value);
    assert forall|i: int| 0 <= i < s.len() implies header_rank((#[trigger] s[i]).0) < r + 1 by {
        if i < a.len() {
            assert(s[i] == a[i]);
        } else {
            assert(s[i] == (key, value));
        }
    }
    assert forall|i: int, j: int| 0 <= i < j < s.len() implies header_rank((#[trigger] s[i]).0)
        < header_rank((#[trigger] s[j]).0) by {
        assert(s[i] == a[i]);
        if j < a.len() {
            assert(s[j] == a[j]);
        } else {
            assert(s[j] == (key, value));
        }
    }
}

proof fn lemma_header_names_distinct(raw: RawEntry)
    ensures
        forall|i: int, j: int|
            0 <= i < j < header_pairs_spec(raw).len() ==> (#[trigger] header_pairs_spec(raw)[i]).0
                != (#[trigger] header_pairs_spec(raw)[j]).0,
{
    reveal_strlit("referer");
    reveal_strlit("user-agent");
    reveal_strlit("accept");
    reveal_strlit("accept-language");
    reveal_strlit("x-forwarded-for");
    reveal_strlit("content-type");
    assert(HEADER_REFERER@[0] != HEADER_USER_AGENT@[0]);
    assert(HEADER_ACCEPT@.len() != HEADER_REFERER@.len());
    assert(HEADER_ACCEPT@.len() != HEADER_USER_AGENT@.len());
    assert(HEADER_ACCEPT_LANGUAGE@.len() != HEADER_REFERER@.len());
    assert(HEADER_ACCEPT_LANGUAGE@.len() != HEADER_USER_AGENT@.len());
    assert(HEADER_ACCEPT_LANGUAGE@.len() != HEADER_ACCEPT@.len());
    assert(HEADER_X_FORWARDED_FOR@.len() != HEADER_REFERER@.len());
    assert(HEADER_X_FORWARDED_FOR@.len() != HEADER_USER_AGENT@.len());
    assert(HEADER_X_FORWARDED_FOR@.len() != HEADER_ACCEPT@.len());
    assert(HEADER_X_FORWARDED_FOR@[0] != HEADER_ACCEPT_LANGUAGE@[0]);
    assert(header_rank(HEADER_REFERER@) == 0);
    assert(header_rank(HEADER_USER_AGENT@) == 1);
    assert(header_rank(HEADER_ACCEPT@) == 2);
    assert(header_rank(HEADER_ACCEPT_LANGUAGE@) == 3);
    assert(header_rank(HEADER_X_FORWARDED_FOR@) == 4);
    let h0: Seq<(Seq<char>, Seq<char>)> = seq![];
    lemma_ranked_append(h0, HEADER_REFERER@, raw.referer@, 0);
    assert(h0 + header_if_set(HEADER_REFERER@, raw.referer@) =~= header_if_set(
        HEADER_REFERER@,
        raw.referer@,
    ));
    let s1 = header_if_set(HEADER_REFERER@, raw.referer@);
    lemma_ranked_append(s1, HEADER_USER_AGENT@, raw.user_agent@, 1);
    let s2 = s1 + header_if_set(HEADER_USER_AGENT@, raw.user_agent@);
    lemma_ranked_append(s2, HEADER_ACCEPT@, raw.accept@, 2);
    let s3 = s2 + header_if_set(HEADER_ACCEPT@, raw.accept@);
    lemma_ranked_append(s3, HEADER_ACCEPT_LANGUAGE@, raw.accept_language@, 3);
    let s4 = s3 + header_if_set(HEADER_ACCEPT_LANGUAGE@, raw.accept_language@);
    lemma_ranked_append(s4, HEADER_X_FORWARDED_FOR@, raw.x_forwarded_for@, 4);
    let s5 = s4 + header_if_set(HEADER_X_FORWARDED_FOR@, raw.x_forwarded_for@);
    lemma_ranked_append(s5, HEADER_CONTENT_TYPE@, raw.content_type@, 5);
    let s6 = s5 + header_if_set(HEADER_CONTENT_TYPE@, raw.content_type@);
    assert(s6 == header_pairs_spec(raw));
    assert forall|i: int, j: int|
        0 <= i < j < s6.len() implies (#[trigger] s6[i]).0 != (#[trigger] s6[j]).0 by {
        assert(header_rank(s6[i].0) < header_rank(s6[j].0));
    }
}

/// The JSON text that `serde_json` writes for an object holding the string members
/// `entries`, or `None` where it reports an error.
pub uninterp spec fn json_object_text(entries: Seq<(Seq<char>, Seq<char>)>) -> Option<Seq<char>>;

/// `serde_json::to_string` of a `serde_json::Map` collected from `entries`, each value a JSON
/// string. Trusted: the text is a function of the entries alone.
#[verifier::external_body]
fn json_object_string(entries: &Vec<(String, String)>) -> (r: Option<String>)
    ensures
        match r {
            Some(t) => json_object_text(pair_views(entries@)) == Some(t@),
            None => json_object_text(pair_views(entries@)) is None,
        },
{
    let map: serde_json::Map<String, serde_json::Value> = entries.iter().map(
        |(k, v)| (k.clone(), serde_json::Value::String(v.clone())),
    ).collect();
    serde_json::to_string(&map).ok()
}

/// The text stored as `headers`: the rendered object, or `"{}"` where rendering failed.
pub open spec fn headers_or_empty_spec(rendered: Option<Seq<char>>) -> Seq<char> {
    match rendered {
        Some(t) => t,
        None => "{}"@,
    }
}

pub fn headers_or_empty(rendered: Option<String>) -> (h: String)
    ensures
        h@ == headers_or_empty_spec(
            match rendered {
                Some(t) => Some(t@),
                None => None,
            },
        ),
{
    match rendered {
        Some(t) => t,
        None => "{}".to_owned(),
    }
}

/// The `headers` column for `raw`.
pub open spec fn headers_json_spec(raw: RawEntry) -> Seq<char> {
    headers_or_empty_spec(json_object_text(header_pairs_spec(raw)))
}

/// The recorded request headers of `raw` as a JSON object.
pub fn build_headers_json(raw: &RawEntry) -> (h: String)
    ensures
        h@ == headers_json_spec(*raw),
{
    let pairs = header_pairs(raw);
    headers_or_empty(json_object_string(&pairs))
}

// ---------------------------------------------------------------------------------------------
// The whole entry
// ---------------------------------------------------------------------------------------------

/// `e` is the entry for `raw` with timestamp `ts`, status code `code` and headers `headers`.
pub open spec fn entry_for(e: LogEntry, raw: RawEntry, ts: i64, code: i64, headers: Seq<char>) -> bool {
    &&& e.timestamp_ms == ts
    &&& e.method@ == method_spec(raw.request@)
    &&& e.url@ == extract_url_spec(raw.request@)
    &&& e.ip@ == raw.remote_addr@
    &&& e.host@ == raw.host@
    &&& (e.user_agent is None <==> raw.user_agent@.len() == 0)
    &&& (e.user_agent matches Some(ua) ==> ua@ == raw.user_agent@)
    &&& e.status_code == code
    &&& e.headers@ == headers
}

/// The outcome for `raw`, given what its time parsed to and its headers' text.
pub open spec fn assembled(
    raw: RawEntry,
    timestamp: Option<i64>,
    headers: Seq<char>,
    r: Result<LogEntry, LineError>,
) -> bool {
    match timestamp {
        None => r == Err::<LogEntry, LineError>(LineError::BadTime),
        Some(ts) => match decode_status_spec(raw.status) {
            None => r == Err::<LogEntry, LineError>(LineError::StatusNotNumber),
            Some(code) => r matches Ok(e) && entry_for(e, raw, ts, code, headers),
        },
    }
}

/// Builds the entry for `raw` from the already parsed `timestamp` and rendered `headers`.
pub fn assemble_entry(raw: &RawEntry, timestamp: Option<i64>, headers: String) -> (r: Result<
    LogEntry,
    LineError,
>)
    ensures
        assembled(*raw, timestamp, headers@, r),
{
    let ts = match timestamp {
        Some(ts) => ts,
        None => return Err(LineError::BadTime),
    };
    let method = extract_method(raw.request.as_str());
    let url = extract_url(raw.request.as_str());
    let status_code = match decode_status(&raw.status) {
        Some(code) => code,
        None => return Err(LineError::StatusNotNumber),
    };
    let user_agent = if raw.user_agent.as_str().is_empty() {
        None
    } else {
        Some(raw.user_agent.clone())
    };
    Ok(
        LogEntry {
            timestamp_ms: ts,
            method,
            url,
            ip: raw.remote_addr.clone(),
            host: raw.host.clone(),
            user_agent,
            status_code,
            headers,
        },
    )
}

/// The stored entry for a decoded log line, or why the line is rejected: a bad time first,
/// then a bad status.
pub fn entry_from_raw(raw: &RawEntry) -> (r: Result<LogEntry, LineError>)
    ensures
        assembled(*raw, parsed_time_millis(raw.time_local@, NGINX_TIME_FORMAT@), headers_json_spec(*raw), r),
{
    let timestamp = parse_nginx_time(raw.time_local.as_str());
    let headers = build_headers_json(raw);
    assemble_entry(raw, timestamp, headers)
}

} // verus!
