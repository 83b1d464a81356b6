//! Character-level text handling shared by the log and `/proc` parsers: whitespace, line and
//! word splitting, decimal numbers in both directions.
use vstd::prelude::*;

verus! {

// ---------------------------------------------------------------------------------------------
// Characters and strings
// ---------------------------------------------------------------------------------------------

/// Unicode `White_Space`, the property that `char::is_whitespace` tests.
pub open spec fn is_white(c: char) -> bool {
    ||| ('\u{9}' <= c && c <= '\u{d}')
    ||| c == ' '
    ||| c == '\u{85}'
    ||| c == '\u{a0}'
    ||| c == '\u{1680}'
    ||| ('\u{2000}' <= c && c <= '\u{200a}')
    ||| c == '\u{2028}'
    ||| c == '\u{2029}'
    ||| c == '\u{202f}'
    ||| c == '\u{205f}'
    ||| c == '\u{3000}'
}

pub fn is_white_char(c: char) -> (b: bool)
    ensures
        b == is_white(c),
{
    ('\u{9}' <= c && c <= '\u{d}') || c == ' ' || c == '\u{85}' || c == '\u{a0}' || c
        == '\u{1680}' || ('\u{2000}' <= c && c <= '\u{200a}') || c == '\u{2028}' || c
        == '\u{2029}' || c == '\u{202f}' || c == '\u{205f}' || c == '\u{3000}'
}

/// `String::push`: appends one character.
#[verifier::external_body]
pub(crate) fn push_char_to(s: &mut String, c: char)
    ensures
        final(s)@ == old(s)@.push(c),
{
    s.push(c)
}

/// The characters of `s`, in order.
pub fn chars_of(s: &str) -> (v: Vec<char>)
    ensures
        v@ == s@,
{
    let mut v: Vec<char> = Vec::new();
    for c in it: s.chars()
        invariant
            v@ == it.seq().take(it.index() as int),
    {
        v.push(c);
    }
    v
}

/// A string made of the characters `v[from..to]`.
pub fn string_from(v: &Vec<char>, from: usize, to: usize) -> (s: String)
    requires
        from <= to <= v@.len(),
    ensures
        s@ == v@.subrange(from as int, to as int),
{
    let mut s = String::new();
    let mut i = from;
    while i < to
        invariant
            from <= i <= to <= v@.len(),
            s@ == v@.subrange(from as int, i as int),
        decreases to - i,
    {
        push_char_to(&mut s, v[i]);
        i = i + 1;
        assert(s@ =~= v@.subrange(from as int, i as int));
    }
    s
}

/// `s` starts with `p`.
pub open spec fn has_prefix(s: Seq<char>, p: Seq<char>) -> bool {
    p.len() <= s.len() && s.take(p.len() as int) == p
}

/// Whether `v[from..]` starts with `p`.
pub fn starts_with_at(v: &Vec<char>, from: usize, p: &Vec<char>) -> (b: bool)
    requires
        from <= v@.len(),
    ensures
        b == has_prefix(v@.skip(from as int), p@),
{
    if p.len() > v.len() - from {
        return false;
    }
    let n = v.len();
    let mut i: usize = 0;
    while i < p.len()
        invariant
            n == v@.len(),
            from + p@.len() <= n,
            i <= p@.len(),
            forall|k: int| 0 <= k < i ==> v@[from + k] == p@[k],
        decreases p.len() - i,
    {
        if v[from + i] != p[i] {
            assert(v@.skip(from as int).take(p@.len() as int)[i as int] != p@[i as int]);
            return false;
        }
        i = i + 1;
    }
    assert(v@.skip(from as int).take(p@.len() as int) =~= p@);
    true
}

// ---------------------------------------------------------------------------------------------
// Trailing whitespace
// ---------------------------------------------------------------------------------------------

/// `s` without its trailing whitespace (`str::trim_end`).
pub open spec fn trim_end(s: Seq<char>) -> Seq<char>
    decreases s.len(),
{
    if s.len() > 0 && is_white(s.last()) {
        trim_end(s.drop_last())
    } else {
        s
    }
}

pub proof fn lemma_trim_end_shape(s: Seq<char>)
    ensures
        trim_end(s).len() <= s.len(),
        trim_end(s) == s.take(trim_end(s).len() as int),
        trim_end(s).len() > 0 ==> !is_white(trim_end(s).last()),
        forall|k: int| trim_end(s).len() <= k < s.len() ==> is_white(#[trigger] s[k]),
    decreases s.len(),
{
    if s.len() > 0 && is_white(s.last()) {
        lemma_trim_end_shape(s.drop_last());
        assert(s.drop_last().take(trim_end(s).len() as int) =~= s.take(trim_end(s).len() as int));
        assert forall|k: int| trim_end(s).len() <= k < s.len() implies is_white(#[trigger] s[k]) by {
            if k < s.len() - 1 {
                assert(s[k] == s.drop_last()[k]);
            }
        }
    } else {
        assert(s.take(s.len() as int) =~= s);
    }
}

/// Length of `v` once trailing whitespace is dropped.
pub fn trimmed_len(v: &Vec<char>) -> (n: usize)
    ensures
        n <= v@.len(),
        v@.take(n as int) == trim_end(v@),
{
    let mut n = v.len();
    assert(v@.take(n as int) =~= v@);
    while n > 0 && is_white_char(v[n - 1])
        invariant
            n <= v@.len(),
            trim_end(v@.take(n as int)) == trim_end(v@),
        decreases n,
    {
        assert(v@.take(n as int).drop_last() =~= v@.take(n - 1));
        n = n - 1;
    }
    n
}

// ---------------------------------------------------------------------------------------------
// Words (`str::split_whitespace`)
// ---------------------------------------------------------------------------------------------

/// Number of leading characters before the first whitespace.
pub open spec fn word_len(s: Seq<char>) -> nat
    decreases s.len(),
{
    if s.len() == 0 || is_white(s[0]) {
        0
    } else {
        1 + word_len(s.drop_first())
    }
}

pub proof fn lemma_word_len_bound(s: Seq<char>)
    ensures
        word_len(s) <= s.len(),
        s.len() > 0 && !is_white(s[0]) ==> word_len(s) >= 1,
    decreases s.len(),
{
    if s.len() > 0 && !is_white(s[0]) {
        lemma_word_len_bound(s.drop_first());
    }
}

/// The maximal runs of non-whitespace characters of `s`, in order.
pub open spec fn words(s: Seq<char>) -> Seq<Seq<char>>
    decreases s.len(),
{
    if s.len() == 0 {
        seq![]
    } else if is_white(s[0]) {
        words(s.drop_first())
    } else {
        proof {
            lemma_word_len_bound(s);
        }
        seq![s.take(word_len(s) as int)] + words(s.skip(word_len(s) as int))
    }
}

/// The words of `v` (`split_whitespace`).
pub fn words_of(v: &Vec<char>) -> (ws: Vec<Vec<char>>)
    ensures
        ws@.len() == words(v@).len(),
        forall|k: int| 0 <= k < ws@.len() ==> (#[trigger] ws@[k])@ == words(v@)[k],
{
    let mut ws: Vec<Vec<char>> = Vec::new();
    let ghost mut acc: Seq<Seq<char>> = seq![];
    let mut i: usize = 0;
    assert(v@.skip(0) =~= v@);
    while i < v.len()
        invariant
            i <= v@.len(),
            ws@.len() == acc.len(),
            forall|k: int| 0 <= k < ws@.len() ==> (#[trigger] ws@[k])@ == acc[k],
            words(v@) == acc + words(v@.skip(i as int)),
        decreases v@.len() - i,
    {
        let ghost rest = v@.skip(i as int);
        if is_white_char(v[i]) {
            assert(rest.drop_first() =~= v@.skip(i + 1));
            i = i + 1;
        } else {
            let mut j = i;
            while j < v.len() && !is_white_char(v[j])
                invariant
                    i <= j <= v@.len(),
                    rest == v@.skip(i as int),
                    word_len(rest) == (j - i) + word_len(v@.skip(j as int)),
                decreases v@.len() - j,
            {
                assert(v@.skip(j as int).drop_first() =~= v@.skip(j + 1));
                j = j + 1;
            }
            assert(word_len(v@.skip(j as int)) == 0);
            let ghost w = v@.subrange(i as int, j as int);
            assert(rest.take(word_len(rest) as int) =~= w);
            assert(rest.skip(word_len(rest) as int) =~= v@.skip(j as int));
            let mut word: Vec<char> = Vec::new();
            let mut k = i;
            while k < j
                invariant
                    i <= k <= j <= v@.len(),
                    word@ == v@.subrange(i as int, k as int),
                decreases j - k,
            {
                word.push(v[k]);
                k = k + 1;
                assert(word@ =~= v@.subrange(i as int, k as int));
            }
            ws.push(word);
            proof {
                assert(acc.push(w) + words(v@.skip(j as int)) =~= acc + (seq![w] + words(
                    v@.skip(j as int),
                )));
                acc = acc.push(w);
            }
            i = j;
        }
    }
    assert(words(v@.skip(i as int)) =~= seq![]);
    assert(acc + seq![] =~= acc);
    ws
}

/// Bounds of the first word of `v[from..]`, if it has one.
pub fn first_word_in(v: &Vec<char>, from: usize) -> (r: Option<(usize, usize)>)
    requires
        from <= v@.len(),
    ensures
        match r {
            None => words(v@.skip(from as int)).len() == 0,
            Some((a, b)) => {
                &&& from <= a < b <= v@.len()
                &&& words(v@.skip(from as int)).len() > 0
                &&& words(v@.skip(from as int))[0] == v@.subrange(a as int, b as int)
            },
        },
{
    let mut a = from;
    while a < v.len() && is_white_char(v[a])
        invariant
            from <= a <= v@.len(),
            words(v@.skip(from as int)) == words(v@.skip(a as int)),
        decreases v@.len() - a,
    {
        assert(v@.skip(a as int).drop_first() =~= v@.skip(a + 1));
        a = a + 1;
    }
    if a == v.len() {
        assert(v@.skip(a as int) =~= seq![]);
        return None;
    }
    let mut b = a;
    while b < v.len() && !is_white_char(v[b])
        invariant
            a <= b <= v@.len(),
            word_len(v@.skip(a as int)) == (b - a) + word_len(v@.skip(b as int)),
        decreases v@.len() - b,
    {
        assert(v@.skip(b as int).drop_first() =~= v@.skip(b + 1));
        b = b + 1;
    }
    assert(word_len(v@.skip(b as int)) == 0);
    assert(v@.skip(a as int).take(word_len(v@.skip(a as int)) as int) =~= v@.subrange(
        a as int,
        b as int,
    ));
    Some((a, b))
}

// ---------------------------------------------------------------------------------------------
// Lines (`str::lines`)
// ---------------------------------------------------------------------------------------------

/// Number of leading characters of `s` that differ from `c`.
pub open spec fn run_before(s: Seq<char>, c: char) -> nat
    decreases s.len(),
{
    if s.len() == 0 || s[0] == c {
        0
    } else {
        1 + run_before(s.drop_first(), c)
    }
}

pub proof fn lemma_run_before_bound(s: Seq<char>, c: char)
    ensures
        run_before(s, c) <= s.len(),
        run_before(s, c) < s.len() ==> s[run_before(s, c) as int] == c,
        forall|k: int| 0 <= k < run_before(s, c) ==> s[k] != c,
    decreases s.len(),
{
    if s.len() > 0 && s[0] != c {
        lemma_run_before_bound(s.drop_first(), c);
        assert forall|k: int| 0 <= k < run_before(s, c) implies s[k] != c by {
            if k > 0 {
                assert(s[k] == s.drop_first()[k - 1]);
            }
        }
    }
}

/// A prefix free of `c` adds its length to the run before `c`.
pub proof fn lemma_run_before_append(a: Seq<char>, b: Seq<char>, c: char)
    requires
        forall|k: int| 0 <= k < a.len() ==> a[k] != c,
    ensures
        run_before(a + b, c) == a.len() + run_before(b, c),
    decreases a.len(),
{
    if a.len() > 0 {
        assert((a + b).drop_first() =~= a.drop_first() + b);
        assert((a + b)[0] == a[0]);
        lemma_run_before_append(a.drop_first(), b, c);
    } else {
        assert(a + b =~= b);
    }
}

/// The first position at or after `from` where `v` holds `c`, or `v.len()` if there is none.
pub fn find_char(v: &Vec<char>, from: usize, c: char) -> (j: usize)
    requires
        from <= v@.len(),
    ensures
        from <= j <= v@.len(),
        j - from == run_before(v@.skip(from as int), c),
{
    let mut j = from;
    while j < v.len() && v[j] != c
        invariant
            from <= j <= v@.len(),
            run_before(v@.skip(from as int), c) == (j - from) + run_before(v@.skip(j as int), c),
        decreases v@.len() - j,
    {
        assert(v@.skip(j as int).drop_first() =~= v@.skip(j + 1));
        j = j + 1;
    }
    assert(run_before(v@.skip(j as int), c) == 0);
    j
}

/// A line with the `'\r'` of a `"\r\n"` ending removed.
pub open spec fn strip_cr(l: Seq<char>) -> Seq<char> {
    if l.len() > 0 && l.last() == '\r' {
        l.drop_last()
    } else {
        l
    }
}

/// The lines of `s`: split at `'\n'`, a `'\r'` before the `'\n'` dropped, and no empty
/// line after a final `'\n'`.
pub open spec fn lines(s: Seq<char>) -> Seq<Seq<char>>
    decreases s.len(),
{
    if s.len() == 0 {
        seq![]
    } else if run_before(s, '\n') == s.len() {
        seq![s]
    } else {
        proof {
            lemma_run_before_bound(s, '\n');
        }
        seq![strip_cr(s.take(run_before(s, '\n') as int))] + lines(
            s.skip(run_before(s, '\n') as int + 1),
        )
    }
}

/// The lines of `v` (`str::lines`).
pub fn lines_of(v: &Vec<char>) -> (ls: Vec<Vec<char>>)
    ensures
        ls@.len() == lines(v@).len(),
        forall|k: int| 0 <= k < ls@.len() ==> (#[trigger] ls@[k])@ == lines(v@)[k],
{
    let mut ls: Vec<Vec<char>> = Vec::new();
    let ghost mut acc: Seq<Seq<char>> = seq![];
    let mut i: usize = 0;
    assert(v@.skip(0) =~= v@);
    while i < v.len()
        invariant
            i <= v@.len(),
            ls@.len() == acc.len(),
            forall|k: int| 0 <= k < ls@.len() ==> (#[trigger] ls@[k])@ == acc[k],
            lines(v@) == acc + lines(v@.skip(i as int)),
        decreases v@.len() - i,
    {
        let ghost rest = v@.skip(i as int);
        let j = find_char(v, i, '\n');
        // the line's end, with a `'\r'` before the `'\n'` left out
        let mut end = j;
        if j < v.len() && j > i && v[j - 1] == '\r' {
            end = j - 1;
        }
        let mut line: Vec<char> = Vec::new();
        let mut k = i;
        while k < end
            invariant
                i <= k <= end <= j <= v@.len(),
                line@ == v@.subrange(i as int, k as int),
            decreases end - k,
        {
            line.push(v[k]);
            k = k + 1;
            assert(line@ =~= v@.subrange(i as int, k as int));
        }
        let ghost l = line@;
        proof {
            if j == v.len() {
                assert(rest =~= v@.subrange(i as int, j as int));
                assert(lines(rest) == seq![rest]);
            } else {
                assert(rest.take(run_before(rest, '\n') as int) =~= v@.subrange(i as int, j as int));
                assert(strip_cr(v@.subrange(i as int, j as int)) =~= l);
                assert(rest.skip(run_before(rest, '\n') as int + 1) =~= v@.skip(j + 1));
            }
        }
        ls.push(line);
        if j == v.len() {
            proof {
                assert(acc.push(l) =~= acc + lines(rest));
                acc = acc.push(l);
            }
            i = j;
        } else {
            proof {
                assert(acc.push(l) + lines(v@.skip(j + 1)) =~= acc + (seq![l] + lines(
                    v@.skip(j + 1),
                )));
                acc = acc.push(l);
            }
            i = j + 1;
        }
    }
    assert(lines(v@.skip(i as int)) =~= seq![]);
    assert(acc + seq![] =~= acc);
    ls
}

} // verus!
