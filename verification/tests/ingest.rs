use goblin_metrics::ingest::{
    line_record, log_lines, offset_after, offset_from_stored, offset_text, pass_result,
    plan_read, ReadPlan,
};

#[test]
fn offset_persist_and_load() {
    let saved = offset_text(42_000);
    assert_eq!(saved, "42000");
    assert_eq!(offset_from_stored(&Some(saved)), 42_000);
}

#[test]
fn offset_roundtrip_edges() {
    for n in [0u64, 9, 10, 99, 100, 1234567, u64::MAX] {
        let t = offset_text(n);
        assert_eq!(t, n.to_string());
        assert_eq!(offset_from_stored(&Some(t)), n);
    }
}

#[test]
fn offset_defaults_to_zero() {
    assert_eq!(offset_from_stored(&None), 0);
    assert_eq!(offset_from_stored(&Some("garbage".to_string())), 0);
    assert_eq!(offset_from_stored(&Some("-1".to_string())), 0);
    assert_eq!(offset_from_stored(&Some(String::new())), 0);
    assert_eq!(offset_from_stored(&Some("18446744073709551616".to_string())), 0);
    assert_eq!(offset_from_stored(&Some("+15".to_string())), 15);
}

#[test]
fn plan_for_grown_file_reads_from_offset() {
    assert_eq!(plan_read(100, 40), ReadPlan { reset: false, start: 40, read: true });
}

#[test]
fn plan_for_unchanged_file_reads_nothing() {
    assert_eq!(plan_read(40, 40), ReadPlan { reset: false, start: 40, read: false });
}

#[test]
fn plan_for_rotated_file_restarts() {
    assert_eq!(plan_read(10, 40), ReadPlan { reset: true, start: 0, read: true });
    assert_eq!(plan_read(0, 40), ReadPlan { reset: true, start: 0, read: false });
}

#[test]
fn log_lines_split_trim_and_skip_blanks() {
    let chunk = b"first line\r\n\n   \nsecond\t \nlast without newline";
    assert_eq!(log_lines(chunk), vec!["first line", "second"]);
    assert!(log_lines(b"").is_empty());
    assert!(log_lines(b"\n\n \r\n").is_empty());
}

#[test]
fn log_lines_decode_lossily() {
    let chunk = b"ok\nbad \xff byte\n";
    assert_eq!(log_lines(chunk), vec!["ok".to_string(), "bad \u{fffd} byte".to_string()]);
}

#[test]
fn log_lines_keep_leading_whitespace() {
    assert_eq!(log_lines(b"  {\"a\":1}  \n"), vec!["  {\"a\":1}"]);
}

#[test]
fn line_record_trims_or_drops() {
    assert_eq!(line_record("abc \r\n".to_string()).as_deref(), Some("abc"));
    assert_eq!(line_record(" \t\u{a0}\u{3000}\n".to_string()), None);
    assert_eq!(line_record(String::new()), None);
    assert_eq!(line_record("x\u{2003}".to_string()).as_deref(), Some("x"));
}

#[test]
fn pass_moves_offset_past_complete_lines() {
    let plan = plan_read(140, 100);
    let chunk: Vec<u8> = b"one\n\ntwo\n".iter().copied().chain(std::iter::repeat(b' ').take(31)).collect();
    let pass = pass_result(&plan, &chunk);
    assert_eq!(pass.records, vec!["one", "two"]);
    assert_eq!(pass.new_offset, 109);
    assert_eq!(offset_after(&plan, 5), 105);
    let mut full = b"x".repeat(39);
    full.push(b'\n');
    let whole = pass_result(&plan, &full);
    assert_eq!(whole.new_offset, 140);
    let again = plan_read(140, whole.new_offset);
    assert_eq!(again, ReadPlan { reset: false, start: 140, read: false });
}

#[test]
fn partial_line_waits_for_its_newline() {
    let plan = plan_read(104, 100);
    let pass = pass_result(&plan, b"a\nbc");
    assert_eq!(pass.records, vec!["a"]);
    assert_eq!(pass.new_offset, 102);
    let nothing = pass_result(&plan_read(103, 100), b"abc");
    assert!(nothing.records.is_empty());
    assert_eq!(nothing.new_offset, 100);
    let later = pass_result(&plan_read(106, 102), b"bcd\n");
    assert_eq!(later.records, vec!["bcd"]);
    assert_eq!(later.new_offset, 106);
}

#[test]
fn pass_after_rotation_starts_at_zero() {
    let plan = plan_read(4, 100);
    let pass = pass_result(&plan, b"abc\n");
    assert_eq!(pass.new_offset, 4);
    assert_eq!(pass.records, vec!["abc"]);
}
