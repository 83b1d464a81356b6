//! Reading the kernel's `/proc` counters: CPU times, memory totals and the load average.
use vstd::prelude::*;

use crate::number::{parse_u64_in, parse_u64_spec, u64_or_zero};
use crate::text::{chars_of, first_word_in, has_prefix, lines, lines_of, starts_with_at, string_from, words, words_of};

verus! {

// ---------------------------------------------------------------------------------------------
// CPU
// ---------------------------------------------------------------------------------------------

/// The first five columns of the aggregate `cpu` line of `/proc/stat`, in clock ticks.
#[derive(Debug, Clone, Copy, PartialEq, Eq, Structural)]
pub struct CpuTimes {
    pub user: u64,
    pub nice: u64,
    pub system: u64,
    pub idle: u64,
    pub iowait: u64,
}

pub const CPU_LINE_PREFIX: &'static str = "cpu ";

/// The first of `ls` that starts with `p`.
pub open spec fn first_with_prefix(ls: Seq<Seq<char>>, p: Seq<char>) -> Option<Seq<char>>
    decreases ls.len(),
{
    if ls.len() == 0 {
        None
    } else if has_prefix(ls[0], p) {
        Some(ls[0])
    } else {
        first_with_prefix(ls.drop_first(), p)
    }
}

/// Column `k` of a `cpu` line: word `k + 1` as a number, 0 when it is missing or malformed.
pub open spec fn cpu_column(ws: Seq<Seq<char>>, k: int) -> u64 {
    if k + 1 < ws.len() {
        u64_or_zero(ws[k + 1])
    } else {
        0
    }
}

/// The CPU times that `/proc/stat` text holds, or `None` without a `cpu ` line.
pub open spec fn cpu_stat_spec(content: Seq<char>) -> Option<CpuTimes> {
    match first_with_prefix(lines(content), CPU_LINE_PREFIX@) {
        None => None,
        Some(l) => {
            let ws = words(l);
            Some(
                CpuTimes {
                    user: cpu_column(ws, 0),
                    nice: cpu_column(ws, 1),
                    system: cpu_column(ws, 2),
                    idle: cpu_column(ws, 3),
                    iowait: cpu_column(ws, 4),
                },
            )
        },
    }
}

fn column(ws: &Vec<Vec<char>>, k: usize) -> (n: u64)
    requires
        k < 5,
    ensures
        n == cpu_column(ws@.map_values(|w: Vec<char>| w@), k as int),
{
    if k + 1 < ws.len() {
        let w = &ws[k + 1];
        assert(w@.subrange(0, w@.len() as int) =~= w@);
        match parse_u64_in(w, 0, w.len()) {
            Some(n) => n,
            None => 0,
        }
    } else {
        0
    }
}

/// The aggregate CPU times in the text of `/proc/stat`.
pub fn parse_cpu_stat(content: &str) -> (r: Option<CpuTimes>)
    ensures
        r == cpu_stat_spec(content@),
{
    let v = chars_of(content);
    let ls = lines_of(&v);
    let prefix = chars_of(CPU_LINE_PREFIX);
    let ghost lv = ls@.map_values(|l: Vec<char>| l@);
    assert(lv =~= lines(v@));
    let mut i: usize = 0;
    assert(lv.skip(0) =~= lv);
    while i < ls.len()
        invariant
            i <= ls@.len(),
            lv == ls@.map_values(|l: Vec<char>| l@),
            lv == lines(content@),
            prefix@ == CPU_LINE_PREFIX@,
            first_with_prefix(lv, prefix@) == first_with_prefix(lv.skip(i as int), prefix@),
        decreases ls@.len() - i,
    {
        let l = &ls[i];
        assert(l@.skip(0) =~= l@);
        assert(lv.skip(i as int)[0] == l@);
        if starts_with_at(l, 0, &prefix) {
            let ws = words_of(l);
            let ghost wv = ws@.map_values(|w: Vec<char>| w@);
            assert(wv =~= words(l@));
            assert(first_with_prefix(lv.skip(i as int), prefix@) == Some(l@));
            return Some(
                CpuTimes {
                    user: column(&ws, 0),
                    nice: column(&ws, 1),
                    system: column(&ws, 2),
                    idle: column(&ws, 3),
                    iowait: column(&ws, 4),
                },
            );
        }
        assert(lv.skip(i as int).drop_first() =~= lv.skip(i + 1));
        i = i + 1;
    }
    assert(lv.skip(i as int) =~= seq![]);
    None
}

/// Ticks spent in total by one sample.
pub open spec fn ticks_total(t: CpuTimes) -> int {
    t.user + t.nice + t.system + t.idle + t.iowait
}

/// Ticks spent idle or waiting for I/O by one sample.
pub open spec fn ticks_idle(t: CpuTimes) -> int {
    t.idle + t.iowait
}

/// The two samples can be subtracted in `u64` without overflow: no sum exceeds `u64::MAX`, no
/// counter went backwards, and the busy part of a non-empty interval is not negative.
pub open spec fn cpu_samples_ok(a: CpuTimes, b: CpuTimes) -> bool {
    &&& ticks_total(a) <= u64::MAX
    &&& ticks_total(b) <= u64::MAX
    &&& ticks_idle(a) <= ticks_total(a)
    &&& ticks_idle(a) <= ticks_idle(b)
    &&& ticks_total(a) <= ticks_total(b)
    &&& ticks_total(b) - ticks_total(a) != 0 ==> ticks_idle(b) - ticks_idle(a) <= ticks_total(b)
        - ticks_total(a)
}

pub fn cpu_samples_consistent(a: &CpuTimes, b: &CpuTimes) -> (ok: bool)
    ensures
        ok == cpu_samples_ok(*a, *b),
{
    let ta = match a.user.checked_add(a.nice) {
        Some(x) => x,
        None => return false,
    };
    let ta = match ta.checked_add(a.system) {
        Some(x) => x,
        None => return false,
    };
    let ta = match ta.checked_add(a.idle) {
        Some(x) => x,
        None => return false,
    };
    let ta = match ta.checked_add(a.iowait) {
        Some(x) => x,
        None => return false,
    };
    let tb = match b.user.checked_add(b.nice) {
        Some(x) => x,
        None => return false,
    };
    let tb = match tb.checked_add(b.system) {
        Some(x) => x,
        None => return false,
    };
    let tb = match tb.checked_add(b.idle) {
        Some(x) => x,
        None => return false,
    };
    let tb = match tb.checked_add(b.iowait) {
        Some(x) => x,
        None => return false,
    };
    let ia = a.idle + a.iowait;
    let ib = b.idle + b.iowait;
    if ia > ib || ta > tb {
        return false;
    }
    tb - ta == 0 || ib - ia <= tb - ta
}

/// Samples whose sums fit in `u64`, whose idle and total counts did not go backwards, and whose
/// idle growth does not exceed their total growth are consistent. In particular an interval in
/// which every tick was idle (an idle server) is accepted.
pub proof fn lemma_cpu_samples_accepted(a: CpuTimes, b: CpuTimes)
    requires
        ticks_total(a) <= u64::MAX,
        ticks_total(b) <= u64::MAX,
        ticks_idle(a) <= ticks_idle(b),
        ticks_total(a) <= ticks_total(b),
        ticks_idle(b) - ticks_idle(a) <= ticks_total(b) - ticks_total(a),
    ensures
        cpu_samples_ok(a, b),
{
}

/// Consistent samples are exactly those whose sums fit in `u64`, whose idle and total counts
/// did not go backwards, and whose idle growth does not exceed a non-zero total growth; then
/// the busy ticks lie between none and all of the interval.
pub proof fn lemma_cpu_samples_ok_exactly(a: CpuTimes, b: CpuTimes)
    ensures
        cpu_samples_ok(a, b) <==> {
            &&& ticks_total(a) <= u64::MAX
            &&& ticks_total(b) <= u64::MAX
            &&& ticks_idle(a) <= ticks_idle(b)
            &&& ticks_total(a) <= ticks_total(b)
            &&& (ticks_total(b) == ticks_total(a) || ticks_idle(b) - ticks_idle(a) <= ticks_total(b)
                - ticks_total(a))
        },
        cpu_samples_ok(a, b) && ticks_total(b) != ticks_total(a) ==> 0 <= (ticks_total(b)
            - ticks_total(a)) - (ticks_idle(b) - ticks_idle(a)) <= ticks_total(b) - ticks_total(a),
{
}

/// How many ticks passed between two samples, and how many of them were busy.
#[derive(Debug, Clone, Copy, PartialEq, Eq, Structural)]
pub struct CpuDelta {
    pub busy: u64,
    pub total: u64,
}

/// The ticks between two `/proc/stat` samples: all of them, and the busy ones (0 when no tick
/// passed).
pub fn cpu_delta(a: &CpuTimes, b: &CpuTimes) -> (d: CpuDelta)
    requires
        cpu_samples_ok(*a, *b),
    ensures
        d.total == ticks_total(*b) - ticks_total(*a),
        d.busy == (if d.total == 0 {
            0
        } else {
            d.total - (ticks_idle(*b) - ticks_idle(*a))
        }),
        d.busy <= d.total,
{
    let total1 = a.user + a.nice + a.system + a.idle + a.iowait;
    let total2 = b.user + b.nice + b.system + b.idle + b.iowait;
    let idle_diff = (b.idle + b.iowait) - (a.idle + a.iowait);
    let total_diff = total2 - total1;
    let busy = if total_diff == 0 {
        0
    } else {
        total_diff - idle_diff
    };
    CpuDelta { busy, total: total_diff }
}

// ---------------------------------------------------------------------------------------------
// Memory
// ---------------------------------------------------------------------------------------------

pub const MEM_TOTAL_KEY: &'static str = "MemTotal:";

pub const MEM_AVAILABLE_KEY: &'static str = "MemAvailable:";

/// The number after `key` on a `/proc/meminfo` line: the first word after the key, if the
/// line starts with the key and that word parses.
pub open spec fn meminfo_value(line: Seq<char>, key: Seq<char>) -> Option<u64> {
    if has_prefix(line, key) {
        let ws = words(line.skip(key.len() as int));
        if ws.len() > 0 {
            parse_u64_spec(ws[0])
        } else {
            None
        }
    } else {
        None
    }
}

fn meminfo_value_in(line: &Vec<char>, key: &Vec<char>) -> (r: Option<u64>)
    ensures
        r == meminfo_value(line@, key@),
{
    if key.len() > line.len() || !starts_with_at(line, 0, key) {
        assert(line@.skip(0) =~= line@);
        return None;
    }
    assert(line@.skip(0) =~= line@);
    match first_word_in(line, key.len()) {
        None => None,
        Some((a, b)) => parse_u64_in(line, a, b),
    }
}

/// The number on a `/proc/meminfo` line that starts with `key`.
pub fn parse_meminfo_line(line: &str, key: &str) -> (r: Option<u64>)
    ensures
        r == meminfo_value(line@, key@),
{
    let l = chars_of(line);
    let k = chars_of(key);
    meminfo_value_in(&l, &k)
}

/// One line's effect on the (total, available) pair: a `MemTotal:` value replaces the total,
/// otherwise a `MemAvailable:` value replaces the available amount.
pub open spec fn meminfo_step(st: (u64, u64), line: Seq<char>) -> (u64, u64) {
    match meminfo_value(line, MEM_TOTAL_KEY@) {
        Some(v) => (v, st.1),
        None => match meminfo_value(line, MEM_AVAILABLE_KEY@) {
            Some(v) => (st.0, v),
            None => st,
        },
    }
}

/// The (total, available) kilobytes read from the lines of `/proc/meminfo`; 0 for a missing
/// one, the last for a repeated one.
pub open spec fn meminfo_totals(ls: Seq<Seq<char>>) -> (u64, u64)
    decreases ls.len(),
{
    if ls.len() == 0 {
        (0, 0)
    } else {
        meminfo_step(meminfo_totals(ls.drop_last()), ls.last())
    }
}

/// Memory figures of one `/proc/meminfo` reading, in kilobytes.
#[derive(Debug, Clone, Copy, PartialEq, Eq, Structural)]
pub struct MemCounters {
    pub total_kb: u64,
    pub available_kb: u64,
    /// `total_kb - available_kb`, or 0 when more is available than the total.
    pub used_kb: u64,
}

/// The memory figures in the text of `/proc/meminfo`.
pub fn mem_counters(content: &str) -> (m: MemCounters)
    ensures
        (m.total_kb, m.available_kb) == meminfo_totals(lines(content@)),
        m.used_kb == (if m.available_kb <= m.total_kb {
            m.total_kb - m.available_kb
        } else {
            0
        }),
        m.used_kb <= m.total_kb,
{
    let v = chars_of(content);
    let ls = lines_of(&v);
    let total_key = chars_of(MEM_TOTAL_KEY);
    let avail_key = chars_of(MEM_AVAILABLE_KEY);
    let ghost lv = ls@.map_values(|l: Vec<char>| l@);
    assert(lv =~= lines(v@));
    let mut total_kb: u64 = 0;
    let mut available_kb: u64 = 0;
    let mut i: usize = 0;
    assert(lv.take(0) =~= seq![]);
    while i < ls.len()
        invariant
            i <= ls@.len(),
            lv == ls@.map_values(|l: Vec<char>| l@),
            total_key@ == MEM_TOTAL_KEY@,
            avail_key@ == MEM_AVAILABLE_KEY@,
            (total_kb, available_kb) == meminfo_totals(lv.take(i as int)),
        decreases ls@.len() - i,
    {
        let l = &ls[i];
        assert(lv.take(i + 1).drop_last() =~= lv.take(i as int));
        assert(lv.take(i + 1).last() == l@);
        if let Some(val) = meminfo_value_in(l, &total_key) {
            total_kb = val;
        } else if let Some(val) = meminfo_value_in(l, &avail_key) {
            available_kb = val;
        }
        i = i + 1;
    }
    assert(lv.take(i as int) =~= lv);
    MemCounters { total_kb, available_kb, used_kb: total_kb.saturating_sub(available_kb) }
}

// ---------------------------------------------------------------------------------------------
// Load average
// ---------------------------------------------------------------------------------------------

/// The first word of `/proc/loadavg`: the one-minute load average, as text.
pub fn loadavg_field(content: &str) -> (r: Option<String>)
    ensures
        match r {
            None => words(content@).len() == 0,
            Some(w) => words(content@).len() > 0 && w@ == words(content@)[0],
        },
{
    let v = chars_of(content);
    assert(v@.skip(0) =~= v@);
    match first_word_in(&v, 0) {
        None => None,
        Some((a, b)) => Some(string_from(&v, a, b)),
    }
}

} // verus!
