use goblin_metrics::parser::{
    assemble_entry, build_headers_json, decode_status, entry_from_raw, extract_method, extract_url,
    header_pairs, headers_or_empty, parse_nginx_time, LineError, RawEntry, StatusField,
};

fn valid_raw() -> RawEntry {
    RawEntry {
        remote_addr: "1.2.3.4".to_string(),
        time_local: "09/May/2026:17:05:56 +0200".to_string(),
        request: "GET /goblin-lore HTTP/2.0".to_string(),
        status: StatusField::Integer(200),
        user_agent: "Mozilla/5.0".to_string(),
        referer: "https://goblin.geno.su/".to_string(),
        accept: "text/html".to_string(),
        accept_language: "en-US".to_string(),
        x_forwarded_for: String::new(),
        content_type: String::new(),
        host: "goblin.geno.su".to_string(),
    }
}

#[test]
fn extract_url_normal() {
    assert_eq!(extract_url("GET /path HTTP/1.1"), "/path");
}

#[test]
fn extract_url_degenerate() {
    assert_eq!(extract_url("/just-path"), "/just-path");
}

#[test]
fn extract_url_edge_cases() {
    assert_eq!(extract_url("GET /only"), "/only");
    assert_eq!(extract_url("GET "), "");
    assert_eq!(extract_url("A  B"), "");
    assert_eq!(extract_url(""), "");
    assert_eq!(extract_url("POST /é?x=1 HTTP/2.0"), "/é?x=1");
}

#[test]
fn entry_from_valid_raw_line() {
    let e = entry_from_raw(&valid_raw()).expect("should parse");
    assert_eq!(e.ip, "1.2.3.4");
    assert_eq!(e.url, "/goblin-lore");
    assert_eq!(e.status_code, 200);
    assert_eq!(e.host, "goblin.geno.su");
    assert!(e.user_agent.as_deref() == Some("Mozilla/5.0"));
    assert_eq!(e.timestamp_ms, 1_778_339_156_000);
    let h: serde_json::Value = serde_json::from_str(&e.headers).unwrap();
    assert_eq!(h["accept"], "text/html");
    assert!(h.get("x-forwarded-for").is_none());
}

#[test]
fn entry_without_host_or_agent() {
    let mut raw = valid_raw();
    raw.host = String::new();
    raw.user_agent = String::new();
    let e = entry_from_raw(&raw).expect("should parse without host");
    assert_eq!(e.host, "");
    assert!(e.user_agent.is_none());
    let h: serde_json::Value = serde_json::from_str(&e.headers).unwrap();
    assert!(h.get("user-agent").is_none());
}

#[test]
fn nginx_time_parses_to_millis() {
    assert_eq!(parse_nginx_time("09/May/2026:17:05:56 +0200"), Some(1_778_339_156_000));
    assert_eq!(parse_nginx_time("01/Jan/1970:00:00:01 +0000"), Some(1_000));
    assert_eq!(parse_nginx_time("2026-05-09T17:05:56Z"), None);
    assert_eq!(parse_nginx_time(""), None);
}

#[test]
fn bad_time_is_rejected_before_bad_status() {
    let mut raw = valid_raw();
    raw.time_local = "yesterday".to_string();
    raw.status = StatusField::Other;
    assert_eq!(entry_from_raw(&raw).unwrap_err(), LineError::BadTime);
}

#[test]
fn status_as_text_or_other() {
    let mut raw = valid_raw();
    raw.status = StatusField::Text("404".to_string());
    assert_eq!(entry_from_raw(&raw).unwrap().status_code, 404);
    raw.status = StatusField::Text("four".to_string());
    assert_eq!(entry_from_raw(&raw).unwrap_err(), LineError::StatusNotNumber);
    raw.status = StatusField::Other;
    assert_eq!(entry_from_raw(&raw).unwrap_err(), LineError::StatusNotNumber);
}

#[test]
fn status_decoding_follows_i64_parsing() {
    let t = |s: &str| decode_status(&StatusField::Text(s.to_string()));
    assert_eq!(t("200"), Some(200));
    assert_eq!(t("+200"), Some(200));
    assert_eq!(t("-5"), Some(-5));
    assert_eq!(t("-9223372036854775808"), Some(i64::MIN));
    assert_eq!(t("9223372036854775807"), Some(i64::MAX));
    assert_eq!(t("9223372036854775808"), None);
    assert_eq!(t("-9223372036854775809"), None);
    assert_eq!(t(""), None);
    assert_eq!(t("-"), None);
    assert_eq!(t("+"), None);
    assert_eq!(t(" 200"), None);
    assert_eq!(t("2x"), None);
    assert_eq!(decode_status(&StatusField::Integer(-1)), Some(-1));
    assert_eq!(decode_status(&StatusField::Other), None);
}

#[test]
fn headers_keep_non_empty_fields_in_order() {
    let pairs = header_pairs(&valid_raw());
    let keys: Vec<&str> = pairs.iter().map(|(k, _)| k.as_str()).collect();
    assert_eq!(keys, vec!["referer", "user-agent", "accept", "accept-language"]);
    assert_eq!(pairs[2].1, "text/html");
}

#[test]
fn headers_json_text() {
    let h = build_headers_json(&valid_raw());
    assert_eq!(
        h,
        r#"{"accept":"text/html","accept-language":"en-US","referer":"https://goblin.geno.su/","user-agent":"Mozilla/5.0"}"#
    );
    let mut raw = valid_raw();
    raw.referer = String::new();
    raw.user_agent = String::new();
    raw.accept = String::new();
    raw.accept_language = String::new();
    assert_eq!(build_headers_json(&raw), "{}");
    raw.content_type = "a\"b".to_string();
    assert_eq!(build_headers_json(&raw), r#"{"content-type":"a\"b"}"#);
}

#[test]
fn headers_fallback_when_not_rendered() {
    assert_eq!(headers_or_empty(None), "{}");
    assert_eq!(headers_or_empty(Some("{\"a\":\"b\"}".to_string())), "{\"a\":\"b\"}");
}

#[test]
fn assemble_entry_uses_given_parts() {
    let e = assemble_entry(&valid_raw(), Some(7), "{}".to_string()).unwrap();
    assert_eq!(e.timestamp_ms, 7);
    assert_eq!(e.headers, "{}");
    assert_eq!(
        assemble_entry(&valid_raw(), None, "{}".to_string()).unwrap_err(),
        LineError::BadTime
    );
}

#[test]
fn method_is_first_part_when_known() {
    assert_eq!(extract_method("GET /path HTTP/1.1"), "GET");
    assert_eq!(extract_method("POST /api HTTP/2.0"), "POST");
    assert_eq!(extract_method("OPTIONS * HTTP/1.1"), "OPTIONS");
    assert_eq!(extract_method("get /path HTTP/1.1"), "");
    assert_eq!(extract_method("\u{16}\u{3}\u{1} garbage"), "");
    assert_eq!(extract_method("/just-path"), "");
    assert_eq!(extract_method("GET"), "GET");
    assert_eq!(extract_method(""), "");
    assert_eq!(entry_from_raw(&valid_raw()).unwrap().method, "GET");
}
