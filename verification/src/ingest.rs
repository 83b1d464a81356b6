//! Bookkeeping of the log ingestor: the stored byte offset, what to do when the log file
//! changed size, and which lines of newly appended bytes are log records.
use vstd::prelude::*;

use crate::number::{decimal, lemma_u64_text_parses_back, parse_u64, u64_or_zero, u64_text};
use crate::text::{chars_of, lemma_trim_end_shape, string_from, trim_end, trimmed_len};

verus! {

// ---------------------------------------------------------------------------------------------
// Stored offset
// ---------------------------------------------------------------------------------------------

/// The text stored in `ingestor_state` for a byte offset.
pub fn offset_text(offset: u64) -> (s: String)
    ensures
        s@ == decimal(offset as nat),
{
    u64_text(offset)
}

/// The offset that a stored value stands for: its number, or 0 when there is none or it does
/// not parse.
pub open spec fn stored_offset_spec(stored: Option<Seq<char>>) -> u64 {
    match stored {
        Some(v) => u64_or_zero(v),
        None => 0,
    }
}

/// The byte offset read back from `ingestor_state`.
pub fn offset_from_stored(stored: &Option<String>) -> (offset: u64)
    ensures
        offset == stored_offset_spec(
            match stored {
                Some(v) => Some(v@),
                None => None,
            },
        ),
{
    match stored {
        Some(v) => {
            let cs = chars_of(v.as_str());
            match parse_u64(&cs) {
                Some(n) => n,
                None => 0,
            }
        },
        None => 0,
    }
}

/// Reading back a saved offset gives the offset that was saved.
pub proof fn lemma_saved_offset_loads_back(offset: u64)
    ensures
        stored_offset_spec(Some(decimal(offset as nat))) == offset,
{
    lemma_u64_text_parses_back(offset);
}

// ---------------------------------------------------------------------------------------------
// Where to read from
// ---------------------------------------------------------------------------------------------

/// What one ingestion pass does with the log file, decided from its length and the offset
/// reached so far.
#[derive(Debug, Clone, Copy, PartialEq, Eq, Structural)]
pub struct ReadPlan {
    /// The file shrank (it was rotated): the offset goes back to 0 and is saved so.
    pub reset: bool,
    /// Where reading starts.
    pub start: u64,
    /// Whether there is anything past `start` to read.
    pub read: bool,
}

/// Where one pass reads from a file of `file_len` bytes after reaching `offset`.
pub open spec fn plan_read_spec(file_len: u64, offset: u64) -> ReadPlan {
    let start = if file_len < offset {
        0
    } else {
        offset
    };
    ReadPlan { reset: file_len < offset, start, read: start != file_len }
}

/// Decides where to read: a file shorter than the offset was rotated and is read from its
/// start; a file of exactly the offset's length has nothing new.
pub fn plan_read(file_len: u64, offset: u64) -> (plan: ReadPlan)
    ensures
        plan == plan_read_spec(file_len, offset),
        plan.reset == (file_len < offset),
        plan.start == (if file_len < offset {
            0
        } else {
            offset
        }),
        plan.read == (plan.start != file_len),
        plan.start <= file_len,
{
    if file_len < offset {
        ReadPlan { reset: true, start: 0, read: file_len != 0 }
    } else {
        ReadPlan { reset: false, start: offset, read: file_len != offset }
    }
}

/// The offset reached once a pass has read `bytes_read` bytes from where its plan started.
pub fn offset_after(plan: &ReadPlan, bytes_read: u64) -> (offset: u64)
    requires
        plan.start + bytes_read <= u64::MAX,
    ensures
        offset == plan.start + bytes_read,
{
    plan.start + bytes_read
}

/// A pass that reads a file to its end leaves the offset at the file's length, and the next
/// pass over the unchanged file neither resets nor reads anything: no byte is ingested twice.
pub proof fn lemma_pass_reads_each_byte_once(file_len: u64, offset: u64, bytes_read: u64)
    requires
        plan_read_spec(file_len, offset).read,
        plan_read_spec(file_len, offset).start + bytes_read == file_len,
    ensures
        plan_read_spec(file_len, offset).start <= file_len,
        !plan_read_spec(file_len, (plan_read_spec(file_len, offset).start + bytes_read) as u64).reset,
        !plan_read_spec(file_len, (plan_read_spec(file_len, offset).start + bytes_read) as u64).read,
{
}

/// After a pass the offset never lies past the end of the file it read to its end, and the
/// bytes read are exactly those after the plan's start.
pub proof fn lemma_pass_offset_within_file(file_len: u64, offset: u64, bytes_read: u64)
    requires
        plan_read_spec(file_len, offset).start + bytes_read == file_len,
    ensures
        bytes_read == file_len - plan_read_spec(file_len, offset).start,
        plan_read_spec(file_len, offset).start + bytes_read <= file_len,
        offset <= file_len ==> plan_read_spec(file_len, offset).start == offset,
        offset > file_len ==> plan_read_spec(file_len, offset).start == 0,
{
}

// ---------------------------------------------------------------------------------------------
// Lines of appended bytes
// ---------------------------------------------------------------------------------------------

/// The text `String::from_utf8_lossy` makes of `bytes`.
pub uninterp spec fn lossy_text(bytes: Seq<u8>) -> Seq<char>;

/// `String::from_utf8_lossy`, owned. Trusted: the text depends on the bytes alone.
#[verifier::external_body]
fn utf8_lossy(bytes: &[u8]) -> (s: String)
    ensures
        s@ == lossy_text(bytes@),
{
    String::from_utf8_lossy(bytes).into_owned()
}

/// Length of the first line of `b`, its `'\n'` included; all of `b` if it has none.
pub open spec fn piece_len(b: Seq<u8>) -> nat
    decreases b.len(),
{
    if b.len() == 0 {
        0
    } else if b[0] == 10u8 {
        1
    } else {
        1 + piece_len(b.drop_first())
    }
}

pub proof fn lemma_piece_len_bound(b: Seq<u8>)
    ensures
        piece_len(b) <= b.len(),
        b.len() > 0 ==> piece_len(b) >= 1,
    decreases b.len(),
{
    if b.len() > 0 && b[0] != 10u8 {
        lemma_piece_len_bound(b.drop_first());
    }
}

/// A piece ends just past the first `'\n'` of `b`, or at the end of `b` when it holds none:
/// no other byte (a comma, say) ends a line.
pub proof fn lemma_piece_len_first_newline(b: Seq<u8>)
    ensures
        piece_len(b) <= b.len(),
        b.len() > 0 ==> piece_len(b) >= 1,
        forall|k: int| 0 <= k < piece_len(b) - 1 ==> b[k] != 10u8,
        piece_len(b) < b.len() ==> b[piece_len(b) - 1] == 10u8,
        (forall|k: int| 0 <= k < b.len() ==> b[k] != 10u8) ==> piece_len(b) == b.len(),
    decreases b.len(),
{
    if b.len() > 0 && b[0] != 10u8 {
        let t = b.drop_first();
        lemma_piece_len_first_newline(t);
        assert forall|k: int| 0 <= k < piece_len(b) - 1 implies b[k] != 10u8 by {
            if k > 0 {
                assert(b[k] == t[k - 1]);
            }
        }
        if piece_len(b) < b.len() {
            assert(b[piece_len(b) - 1] == t[piece_len(t) - 1]);
        }
        if forall|k: int| 0 <= k < b.len() ==> b[k] != 10u8 {
            assert forall|k: int| 0 <= k < t.len() implies t[k] != 10u8 by {
                assert(t[k] == b[k + 1]);
            }
        }
    }
}

/// The record that one line of the log gives: its text without trailing whitespace, nothing
/// when that is blank.
pub open spec fn line_records(line: Seq<u8>) -> Seq<Seq<char>> {
    let t = trim_end(lossy_text(line));
    if t.len() == 0 {
        seq![]
    } else {
        seq![t]
    }
}

/// The records in log bytes: each `'\n'`-terminated piece (the last may lack it), decoded
/// lossily, trailing whitespace removed, blank ones skipped.
pub open spec fn records_spec(b: Seq<u8>) -> Seq<Seq<char>>
    decreases b.len(),
{
    if b.len() == 0 {
        seq![]
    } else {
        proof {
            lemma_piece_len_bound(b);
        }
        let t = trim_end(lossy_text(b.take(piece_len(b) as int)));
        if t.len() == 0 {
            records_spec(b.skip(piece_len(b) as int))
        } else {
            seq![t] + records_spec(b.skip(piece_len(b) as int))
        }
    }
}

pub open spec fn string_views(v: Seq<String>) -> Seq<Seq<char>> {
    v.map_values(|s: String| s@)
}

/// The record in one decoded line: the text without trailing whitespace, `None` when nothing
/// is left.
pub fn line_record(decoded: String) -> (r: Option<String>)
    ensures
        match r {
            None => trim_end(decoded@).len() == 0,
            Some(t) => trim_end(decoded@).len() > 0 && t@ == trim_end(decoded@),
        },
{
    let v = chars_of(decoded.as_str());
    let n = trimmed_len(&v);
    if n == 0 {
        None
    } else {
        Some(string_from(&v, 0, n))
    }
}

/// The records in `chunk`, split as [`records_spec`] says.
fn split_records(chunk: &[u8]) -> (lines: Vec<String>)
    ensures
        string_views(lines@) == records_spec(chunk@),
{
    let mut out: Vec<String> = Vec::new();
    let mut i: usize = 0;
    assert(chunk@.skip(0) =~= chunk@);
    while i < chunk.len()
        invariant
            i <= chunk@.len(),
            records_spec(chunk@) == string_views(out@) + records_spec(chunk@.skip(i as int)),
        decreases chunk@.len() - i,
    {
        let ghost rest = chunk@.skip(i as int);
        let mut j = i;
        while j < chunk.len() && chunk[j] != 10u8
            invariant
                i <= j <= chunk@.len(),
                rest == chunk@.skip(i as int),
                piece_len(rest) == (j - i) + piece_len(chunk@.skip(j as int)),
            decreases chunk@.len() - j,
        {
            assert(chunk@.skip(j as int).drop_first() =~= chunk@.skip(j + 1));
            j = j + 1;
        }
        let end = if j < chunk.len() {
            j + 1
        } else {
            j
        };
        proof {
            if j < chunk@.len() {
                assert(chunk@.skip(j as int)[0] == 10u8);
            }
            assert(rest.take(piece_len(rest) as int) =~= chunk@.subrange(i as int, end as int));
            assert(rest.skip(piece_len(rest) as int) =~= chunk@.skip(end as int));
        }
        if let Some(t) = line_record(utf8_lossy(&chunk[i..end])) {
            let ghost before = out@;
            out.push(t);
            assert(string_views(out@) =~= string_views(before).push(t@));
            assert(string_views(before).push(t@) + records_spec(chunk@.skip(end as int))
                =~= string_views(before) + (seq![t@] + records_spec(chunk@.skip(end as int))));
        }
        i = end;
    }
    assert(records_spec(chunk@.skip(i as int)) =~= seq![]);
    assert(string_views(out@) + seq![] =~= string_views(out@));
    out
}

/// Log bytes are split at each `'\n'` and nowhere else: a line `l` holding no `'\n'`, followed
/// by its `'\n'`, gives the record of that whole line, then come the records of what follows.
pub proof fn lemma_records_line_by_line(l: Seq<u8>, rest: Seq<u8>)
    requires
        forall|k: int| 0 <= k < l.len() ==> l[k] != 10u8,
    ensures
        piece_len(l.push(10u8) + rest) == l.len() + 1,
        records_spec(l.push(10u8) + rest) == line_records(l.push(10u8)) + records_spec(rest),
{
    let line = l.push(10u8);
    let b = line + rest;
    assert(b[l.len() as int] == 10u8);
    assert forall|k: int| 0 <= k < l.len() implies b[k] != 10u8 by {
        assert(b[k] == l[k]);
    }
    lemma_piece_len_first_newline(b);
    let n = piece_len(b);
    if n < b.len() {
        assert(n - 1 == l.len());
    } else {
        assert(n == l.len() + 1);
    }
    assert(b.take(n as int) =~= line);
    assert(b.skip(n as int) =~= rest);
    let t = trim_end(lossy_text(line));
    if t.len() == 0 {
        assert(line_records(line) + records_spec(rest) =~= records_spec(rest));
    }
}

proof fn lemma_complete_len_after_line(p: Seq<u8>, rest: Seq<u8>)
    requires
        p.len() > 0,
        p.last() == 10u8,
    ensures
        complete_len(p + rest) == p.len() + complete_len(rest),
    decreases rest.len(),
{
    if rest.len() == 0 {
        assert(p + rest =~= p);
    } else {
        assert((p + rest).last() == rest.last());
        if rest.last() != 10u8 {
            assert((p + rest).drop_last() =~= p + rest.drop_last());
            lemma_complete_len_after_line(p, rest.drop_last());
        }
    }
}

/// A pass reads the complete lines of what it was given one by one: a line `l` holding no
/// `'\n'`, followed by its `'\n'`, gives the record of that whole line, then come the records of
/// the complete lines that follow.
pub proof fn lemma_log_lines_line_by_line(l: Seq<u8>, rest: Seq<u8>)
    requires
        forall|k: int| 0 <= k < l.len() ==> l[k] != 10u8,
    ensures
        log_lines_spec(l.push(10u8) + rest) == line_records(l.push(10u8)) + log_lines_spec(rest),
{
    let line = l.push(10u8);
    lemma_complete_len_after_line(line, rest);
    lemma_complete_len(rest);
    let c = complete_len(rest) as int;
    assert((line + rest).take(line.len() + c) =~= line + rest.take(c));
    lemma_records_line_by_line(l, rest.take(c));
}

/// Every record split from bytes is non-empty and ends in a non-whitespace character.
pub proof fn lemma_records_trimmed(b: Seq<u8>)
    ensures
        forall|k: int|
            0 <= k < records_spec(b).len() ==> {
                &&& (#[trigger] records_spec(b)[k]).len() > 0
                &&& !crate::text::is_white(records_spec(b)[k].last())
            },
    decreases b.len(),
{
    if b.len() > 0 {
        lemma_piece_len_bound(b);
        let k0 = piece_len(b) as int;
        lemma_records_trimmed(b.skip(k0));
        let t = trim_end(lossy_text(b.take(k0)));
        lemma_trim_end_shape(lossy_text(b.take(k0)));
        if t.len() > 0 {
            let rest = records_spec(b.skip(k0));
            assert forall|k: int| 0 <= k < records_spec(b).len() implies {
                &&& (#[trigger] records_spec(b)[k]).len() > 0
                &&& !crate::text::is_white(records_spec(b)[k].last())
            } by {
                if k > 0 {
                    assert(records_spec(b)[k] == rest[k - 1]);
                }
            }
        }
    }
}



/// Length of the complete lines at the start of `b`: up to and including its last `'\n'`, or 0
/// when it holds none. What follows is a line still being written.
pub open spec fn complete_len(b: Seq<u8>) -> nat
    decreases b.len(),
{
    if b.len() == 0 {
        0
    } else if b.last() == 10u8 {
        b.len()
    } else {
        complete_len(b.drop_last())
    }
}

pub proof fn lemma_complete_len(b: Seq<u8>)
    ensures
        complete_len(b) <= b.len(),
        complete_len(b) > 0 ==> b[complete_len(b) - 1] == 10u8,
        forall|k: int| complete_len(b) <= k < b.len() ==> b[k] != 10u8,
    decreases b.len(),
{
    if b.len() > 0 && b.last() != 10u8 {
        lemma_complete_len(b.drop_last());
        assert forall|k: int| complete_len(b) <= k < b.len() implies b[k] != 10u8 by {
            if k < b.len() - 1 {
                assert(b[k] == b.drop_last()[k]);
            }
        }
    }
}

/// Length of the complete lines at the start of `chunk`.
pub fn complete_prefix_len(chunk: &[u8]) -> (n: usize)
    ensures
        n == complete_len(chunk@),
{
    let mut n = chunk.len();
    assert(chunk@.take(n as int) =~= chunk@);
    while n > 0 && chunk[n - 1] != 10u8
        invariant
            n <= chunk@.len(),
            complete_len(chunk@.take(n as int)) == complete_len(chunk@),
        decreases n,
    {
        assert(chunk@.take(n as int).drop_last() =~= chunk@.take(n - 1));
        n = n - 1;
    }
    assert(chunk@.take(0) =~= Seq::<u8>::empty());
    n
}

/// The log records in bytes appended to the log file since the last pass: only its complete
/// lines count; a last line without its `'\n'` is left for a later pass.
pub open spec fn log_lines_spec(b: Seq<u8>) -> Seq<Seq<char>> {
    records_spec(b.take(complete_len(b) as int))
}

/// The log records in the complete lines of bytes appended to the log file.
pub fn log_lines(chunk: &[u8]) -> (lines: Vec<String>)
    ensures
        string_views(lines@) == log_lines_spec(chunk@),
{
    let n = complete_prefix_len(chunk);
    proof {
        lemma_complete_len(chunk@);
    }
    let complete = &chunk[0..n];
    assert(complete@ =~= chunk@.take(n as int));
    split_records(complete)
}

/// A pass leaves a line still being written unread: the bytes after the offset it saves hold no
/// `'\n'`, and once more bytes arrive, the next pass reads that line whole (the kept tail plus
/// the new bytes up to their last `'\n'`), or nothing while the line is still unfinished.
pub proof fn lemma_partial_line_waits(b: Seq<u8>, more: Seq<u8>)
    ensures
        forall|k: int| complete_len(b) <= k < b.len() ==> b[k] != 10u8,
        complete_len(b.skip(complete_len(b) as int) + more) == (if complete_len(more) == 0 {
            0
        } else {
            (b.len() - complete_len(b)) + complete_len(more)
        }),
    decreases more.len(),
{
    lemma_complete_len(b);
    let tail = b.skip(complete_len(b) as int);
    if more.len() == 0 {
        assert(tail + more =~= tail);
        lemma_tail_without_newline(tail);
    } else {
        lemma_partial_line_waits(b, more.drop_last());
        assert((tail + more).drop_last() =~= tail + more.drop_last());
        assert((tail + more).last() == more.last());
    }
}

proof fn lemma_tail_without_newline(t: Seq<u8>)
    requires
        forall|k: int| 0 <= k < t.len() ==> t[k] != 10u8,
    ensures
        complete_len(t) == 0,
    decreases t.len(),
{
    if t.len() > 0 {
        assert(t.last() == t[t.len() - 1]);
        lemma_tail_without_newline(t.drop_last());
    }
}

/// Every record is non-empty and ends in a non-whitespace character.
pub proof fn lemma_log_lines_trimmed(b: Seq<u8>)
    ensures
        forall|k: int|
            0 <= k < log_lines_spec(b).len() ==> {
                &&& (#[trigger] log_lines_spec(b)[k]).len() > 0
                &&& !crate::text::is_white(log_lines_spec(b)[k].last())
            },
{
    lemma_records_trimmed(b.take(complete_len(b) as int));
}

/// What one pass takes from the bytes it read: the records to parse, and the offset to save.
#[derive(Debug)]
pub struct PassResult {
    pub records: Vec<String>,
    pub new_offset: u64,
}

/// The records in `chunk`, the bytes read from `plan.start` to the end of the file, and the
/// offset just past its last complete line, where the next pass starts.
pub fn pass_result(plan: &ReadPlan, chunk: &[u8]) -> (r: PassResult)
    requires
        plan.start + chunk@.len() <= u64::MAX,
    ensures
        string_views(r.records@) == log_lines_spec(chunk@),
        r.new_offset == plan.start + complete_len(chunk@),
{
    let records = log_lines(chunk);
    let n = complete_prefix_len(chunk);
    proof {
        lemma_complete_len(chunk@);
    }
    let new_offset = offset_after(plan, n as u64);
    PassResult { records, new_offset }
}

} // verus!
