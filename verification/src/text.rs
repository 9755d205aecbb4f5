//! Text helpers over the character view of strings.
//!
//! Every string in this crate is reasoned about through its sequence of
//! characters; the functions here are the small vocabulary the other modules
//! share.

use vstd::prelude::*;
use vstd::string::StringExecFns;
use vstd::string::StrSliceExecFns;

verus! {

/// The character sequences of a list of strings, in order.
pub open spec fn texts(v: Seq<String>) -> Seq<Seq<char>> {
    Seq::new(v.len(), |i: int| v[i]@)
}

/// The characters of a string that may be missing.
pub open spec fn option_text(o: Option<String>) -> Option<Seq<char>> {
    match o {
        Some(s) => Some(s@),
        None => None,
    }
}

/// True when `needle` occurs in `hay` starting at position `at`.
pub open spec fn occurs_at(hay: Seq<char>, needle: Seq<char>, at: int) -> bool {
    0 <= at && at + needle.len() <= hay.len() && hay.subrange(at, at + needle.len()) == needle
}

/// True when `needle` occurs somewhere in `hay`.
pub open spec fn contains_text(hay: Seq<char>, needle: Seq<char>) -> bool {
    exists|at: int| occurs_at(hay, needle, at)
}

/// True when `s` ends with `suffix`.
pub open spec fn has_suffix(s: Seq<char>, suffix: Seq<char>) -> bool {
    suffix.is_suffix_of(s)
}

/// True when `s` starts with `prefix`.
pub open spec fn has_prefix(s: Seq<char>, prefix: Seq<char>) -> bool {
    prefix.is_prefix_of(s)
}

/// The characters of `s`, in order.
pub fn chars_of(s: &str) -> (v: Vec<char>)
    ensures
        v@ == s@,
{
    let mut v: Vec<char> = Vec::new();
    for c in it: s.chars()
        invariant
            v@ == it.seq().take(it.index() as int),
            it.seq() == s@,
    {
        v.push(c);
    }
    v
}

/// An owned copy of `s`.
pub fn owned(s: &str) -> (r: String)
    ensures
        r@ == s@,
{
    s.to_owned()
}

/// The characters `from..to` of `s` as a new string.
pub fn slice_text(s: &str, from: usize, to: usize) -> (r: String)
    requires
        from <= to <= s@.len(),
    ensures
        r@ == s@.subrange(from as int, to as int),
{
    s.substring_char(from, to).to_owned()
}

/// `a` followed by `b`, as a new string.
pub fn concat(a: &str, b: &str) -> (r: String)
    ensures
        r@ == a@ + b@,
{
    let mut r = a.to_owned();
    r.append(b);
    r
}

/// `a`, `b` and `c` in a row, as a new string.
pub fn concat3(a: &str, b: &str, c: &str) -> (r: String)
    ensures
        r@ == a@ + b@ + c@,
{
    let mut r = a.to_owned();
    r.append(b);
    r.append(c);
    r
}

/// True when `hay` holds `needle` at position `at`.
pub fn chars_match_at(hay: &Vec<char>, needle: &Vec<char>, at: usize) -> (b: bool)
    ensures
        b == occurs_at(hay@, needle@, at as int),
{
    if needle.len() > hay.len() || at > hay.len() - needle.len() {
        return false;
    }
    let mut i: usize = 0;
    while i < needle.len()
        invariant
            i <= needle.len(),
            at + needle.len() <= hay.len(),
            forall|j: int| 0 <= j < i ==> hay@[at + j] == needle@[j],
        decreases needle.len() - i,
    {
        if hay[at + i] != needle[i] {
            proof {
                let sub = hay@.subrange(at as int, at + needle.len());
                assert(sub[i as int] == hay@[at + i]);
            }
            return false;
        }
        i += 1;
    }
    assert(hay@.subrange(at as int, at + needle.len()) =~= needle@);
    true
}

/// True when the two strings hold the same characters.
pub fn str_eq(a: &str, b: &str) -> (r: bool)
    ensures
        r == (a@ == b@),
{
    let x = chars_of(a);
    let y = chars_of(b);
    if x.len() != y.len() {
        return false;
    }
    let r = chars_match_at(&x, &y, 0);
    proof {
        assert(x@.subrange(0, x@.len() as int) =~= x@);
    }
    r
}

/// True when `s` starts with `prefix`.
pub fn starts_with(s: &str, prefix: &str) -> (b: bool)
    ensures
        b == has_prefix(s@, prefix@),
{
    let x = chars_of(s);
    let p = chars_of(prefix);
    chars_match_at(&x, &p, 0)
}

/// True when `s` ends with `suffix`.
pub fn ends_with(s: &str, suffix: &str) -> (b: bool)
    ensures
        b == has_suffix(s@, suffix@),
{
    let x = chars_of(s);
    let p = chars_of(suffix);
    if p.len() > x.len() {
        return false;
    }
    chars_match_at(&x, &p, x.len() - p.len())
}

/// The first position at or after `from` where `needle` occurs in `hay`.
pub fn find_from(hay: &Vec<char>, needle: &Vec<char>, from: usize) -> (r: Option<usize>)
    ensures
        match r {
            Some(at) => from <= at && occurs_at(hay@, needle@, at as int) && forall|k: int|
                from <= k < at ==> !occurs_at(hay@, needle@, k),
            None => forall|k: int| from <= k ==> !occurs_at(hay@, needle@, k),
        },
{
    if needle.len() > hay.len() {
        return None;
    }
    let last: usize = hay.len() - needle.len();
    let mut i: usize = from;
    while i <= last
        invariant
            from <= i,
            last == hay.len() - needle.len(),
            forall|k: int| from <= k < i ==> !occurs_at(hay@, needle@, k),
        decreases last + 1 - i,
    {
        if chars_match_at(hay, needle, i) {
            return Some(i);
        }
        if i == last {
            return None;
        }
        i += 1;
    }
    None
}

/// True when `needle` occurs somewhere in `hay`.
pub fn contains(hay: &str, needle: &str) -> (b: bool)
    ensures
        b == contains_text(hay@, needle@),
{
    let h = chars_of(hay);
    let n = chars_of(needle);
    find_from(&h, &n, 0).is_some()
}

/// True when the two lists hold the same strings in the same order.
pub fn strings_eq(a: &Vec<String>, b: &Vec<String>) -> (r: bool)
    ensures
        r == (texts(a@) == texts(b@)),
{
    if a.len() != b.len() {
        assert(texts(a@).len() != texts(b@).len());
        return false;
    }
    let mut i: usize = 0;
    while i < a.len()
        invariant
            i <= a.len(),
            a.len() == b.len(),
            forall|j: int| 0 <= j < i ==> a@[j]@ == b@[j]@,
        decreases a.len() - i,
    {
        if !str_eq(a[i].as_str(), b[i].as_str()) {
            assert(texts(a@)[i as int] != texts(b@)[i as int]);
            return false;
        }
        i += 1;
    }
    assert(texts(a@) =~= texts(b@));
    true
}

/// True when `list` holds a string equal to `s`.
pub fn list_contains(list: &Vec<String>, s: &str) -> (r: bool)
    ensures
        r == texts(list@).contains(s@),
{
    let mut i: usize = 0;
    while i < list.len()
        invariant
            i <= list.len(),
            forall|j: int| 0 <= j < i ==> list@[j]@ != s@,
        decreases list.len() - i,
    {
        if str_eq(list[i].as_str(), s) {
            assert(texts(list@)[i as int] == s@);
            return true;
        }
        i += 1;
    }
    assert(!texts(list@).contains(s@)) by {
        if texts(list@).contains(s@) {
            let j = choose|j: int| 0 <= j < texts(list@).len() && texts(list@)[j] == s@;
            assert(list@[j]@ == s@);
        }
    }
    false
}

/// A copy of `list`, string by string.
pub fn clone_strings(list: &Vec<String>) -> (r: Vec<String>)
    ensures
        texts(r@) == texts(list@),
{
    let mut r: Vec<String> = Vec::new();
    let mut i: usize = 0;
    while i < list.len()
        invariant
            i <= list.len(),
            r.len() == i,
            forall|j: int| 0 <= j < i ==> r@[j]@ == list@[j]@,
        decreases list.len() - i,
    {
        r.push(list[i].clone());
        i += 1;
    }
    assert(texts(r@) =~= texts(list@));
    r
}

/// The position of the first line feed of `s`, or the length of `s` when it
/// has none.
pub open spec fn line_end(s: Seq<char>) -> int
    decreases s.len(),
{
    if s.len() == 0 {
        0
    } else if s[0] == '\n' {
        0
    } else {
        1 + line_end(s.skip(1))
    }
}

/// `line_end` is the first position that holds a line feed.
pub proof fn lemma_line_end(s: Seq<char>)
    ensures
        0 <= line_end(s) <= s.len(),
        forall|j: int| 0 <= j < line_end(s) ==> s[j] != '\n',
        line_end(s) < s.len() ==> s[line_end(s)] == '\n',
    decreases s.len(),
{
    if s.len() > 0 && s[0] != '\n' {
        lemma_line_end(s.skip(1));
        assert forall|j: int| 0 <= j < line_end(s) implies s[j] != '\n' by {
            if j > 0 {
                assert(s.skip(1)[j - 1] == s[j]);
            }
        }
        if line_end(s) < s.len() {
            assert(s.skip(1)[line_end(s) - 1] == s[line_end(s)]);
        }
    }
}

/// `line` without the carriage return at its end, if it has one.
pub open spec fn strip_cr(line: Seq<char>) -> Seq<char> {
    if line.len() > 0 && line.last() == '\r' {
        line.drop_last()
    } else {
        line
    }
}

/// The lines of `s`. A line ends at a line feed, or at a carriage return
/// followed by a line feed; the ending is not part of the line. The last line
/// need not have an ending, and an ending at the very end starts no new line.
pub open spec fn spec_lines(s: Seq<char>) -> Seq<Seq<char>>
    decreases s.len(),
{
    if s.len() == 0 {
        Seq::empty()
    } else if 0 <= line_end(s) < s.len() {
        seq![strip_cr(s.take(line_end(s)))] + spec_lines(s.skip(line_end(s) + 1))
    } else {
        seq![s]
    }
}

/// The text made of `lines`, each followed by a line feed.
pub open spec fn unlines(lines: Seq<Seq<char>>) -> Seq<char>
    decreases lines.len(),
{
    if lines.len() == 0 {
        Seq::empty()
    } else {
        unlines(lines.drop_last()) + lines.last() + seq!['\n']
    }
}

/// Splits `s` into its lines.
pub fn lines(s: &str) -> (r: Vec<String>)
    ensures
        texts(r@) == spec_lines(s@),
{
    let chars = chars_of(s);
    let n = chars.len();
    let mut out: Vec<String> = Vec::new();
    let mut start: usize = 0;
    assert(s@.skip(0) =~= s@);
    assert(texts(out@) =~= Seq::<Seq<char>>::empty());
    while start < n
        invariant
            start <= n,
            n == s@.len(),
            chars@ == s@,
            spec_lines(s@) == texts(out@) + spec_lines(s@.skip(start as int)),
        decreases n - start,
    {
        let ghost rest = s@.skip(start as int);
        let mut end: usize = start;
        while end < n && chars[end] != '\n'
            invariant
                start <= end <= n,
                n == s@.len(),
                chars@ == s@,
                forall|j: int| start <= j < end ==> s@[j] != '\n',
            decreases n - end,
        {
            end += 1;
        }
        proof {
            lemma_line_end(rest);
            let e = line_end(rest);
            assert(e == end - start) by {
                if e < end - start {
                    assert(rest[e] == s@[start + e]);
                }
                if e > end - start {
                    assert(rest[end - start] == s@[end as int]);
                }
            }
        }
        let ghost before = out@;
        if end < n {
            let cut: usize = if end > start && chars[end - 1] == '\r' {
                end - 1
            } else {
                end
            };
            let line = slice_text(s, start, cut);
            proof {
                let raw = rest.take(end - start);
                assert(raw =~= s@.subrange(start as int, end as int));
                if end > start {
                    assert(raw.last() == s@[end - 1]);
                }
                assert(line@ =~= strip_cr(raw));
                assert(rest.skip(end - start + 1) =~= s@.skip(end + 1));
            }
            out.push(line);
            assert(texts(out@) =~= texts(before) + seq![strip_cr(rest.take(end - start))]);
            start = end + 1;
        } else {
            let line = slice_text(s, start, n);
            proof {
                assert(line@ =~= rest);
                assert(s@.skip(n as int) =~= Seq::<char>::empty());
            }
            out.push(line);
            assert(texts(out@) =~= texts(before) + seq![rest]);
            start = n;
        }
    }
    assert(s@.skip(n as int) =~= Seq::<char>::empty());
    assert(texts(out@) + Seq::<Seq<char>>::empty() =~= texts(out@));
    out
}

/// The lines of `lines` that are not empty, in order.
pub open spec fn non_empty(lines: Seq<Seq<char>>) -> Seq<Seq<char>>
    decreases lines.len(),
{
    if lines.len() == 0 {
        Seq::empty()
    } else if lines.last().len() > 0 {
        non_empty(lines.drop_last()).push(lines.last())
    } else {
        non_empty(lines.drop_last())
    }
}

/// The lines of `s` that are not empty.
pub fn non_empty_lines(s: &str) -> (r: Vec<String>)
    ensures
        texts(r@) == non_empty(spec_lines(s@)),
{
    let all = lines(s);
    let mut out: Vec<String> = Vec::new();
    let mut i: usize = 0;
    assert(texts(all@).take(0) =~= Seq::<Seq<char>>::empty());
    assert(texts(out@) =~= Seq::<Seq<char>>::empty());
    while i < all.len()
        invariant
            i <= all.len(),
            texts(out@) == non_empty(texts(all@).take(i as int)),
        decreases all.len() - i,
    {
        proof {
            let next = texts(all@).take(i + 1);
            assert(next.drop_last() =~= texts(all@).take(i as int));
            assert(next.last() == all@[i as int]@);
        }
        if chars_of(all[i].as_str()).len() > 0 {
            let ghost before = out@;
            out.push(all[i].clone());
            assert(texts(out@) =~= texts(before).push(all@[i as int]@));
        }
        i += 1;
    }
    assert(texts(all@).take(all.len() as int) =~= texts(all@));
    out
}

/// The first position at or after `from` whose line satisfies `pred`, or the
/// number of lines when there is none.
pub open spec fn first_where(
    lines: Seq<Seq<char>>,
    pred: spec_fn(Seq<char>) -> bool, from: int,
) -> int
    decreases lines.len() - from,
{
    if from < 0 || from >= lines.len() {
        lines.len() as int
    } else if pred(lines[from]) {
        from
    } else {
        first_where(lines, pred, from + 1)
    }
}

/// A position that satisfies `pred`, with none before it from `from` on, is
/// what `first_where` returns; so is the number of lines when no position
/// from `from` on satisfies `pred`.
pub proof fn lemma_first_where(
    lines: Seq<Seq<char>>,
    pred: spec_fn(Seq<char>) -> bool,
    from: int,
    at: int,
)
    requires
        0 <= from <= at <= lines.len(),
        forall|j: int| from <= j < at ==> !pred(lines[j]),
        at < lines.len() ==> pred(lines[at]),
    ensures
        first_where(lines, pred, from) == at,
    decreases at - from,
{
    if from < at {
        lemma_first_where(lines, pred, from + 1, at);
    }
}

/// The lines of `lines` in a row, with a line feed between each two.
pub open spec fn join_lines(lines: Seq<Seq<char>>) -> Seq<char>
    decreases lines.len(),
{
    if lines.len() == 0 {
        Seq::empty()
    } else if lines.len() == 1 {
        lines[0]
    } else {
        join_lines(lines.drop_last()) + seq!['\n'] + lines.last()
    }
}

/// True for the characters that count as white space: the Unicode property
/// `White_Space`.
pub open spec fn is_space(c: char) -> bool {
    ('\u{9}' <= c <= '\u{d}') || c == ' ' || c == '\u{85}' || c == '\u{a0}' || c == '\u{1680}' || (
    '\u{2000}' <= c <= '\u{200a}') || c == '\u{2028}' || c == '\u{2029}' || c == '\u{202f}' || c
        == '\u{205f}' || c == '\u{3000}'
}

/// How many characters of `s` are left when the white space at its end is
/// taken away.
pub open spec fn trimmed_len(s: Seq<char>) -> int
    decreases s.len(),
{
    if s.len() == 0 {
        0
    } else if is_space(s.last()) {
        trimmed_len(s.drop_last())
    } else {
        s.len() as int
    }
}

/// `s` without the white space at its end.
pub open spec fn trim_end(s: Seq<char>) -> Seq<char> {
    s.take(trimmed_len(s))
}

/// Tells whether `c` is white space.
pub fn char_is_space(c: char) -> (b: bool)
    ensures
        b == is_space(c),
{
    ('\u{9}' <= c && c <= '\u{d}') || c == ' ' || c == '\u{85}' || c == '\u{a0}' || c == '\u{1680}'
        || ('\u{2000}' <= c && c <= '\u{200a}') || c == '\u{2028}' || c == '\u{2029}' || c
        == '\u{202f}' || c == '\u{205f}' || c == '\u{3000}'
}

/// `s` without the white space at its end.
pub fn trimmed_end(s: &str) -> (r: String)
    ensures
        r@ == trim_end(s@),
{
    let chars = chars_of(s);
    let mut n: usize = chars.len();
    assert(s@.take(n as int) =~= s@);
    while n > 0 && char_is_space(chars[n - 1])
        invariant
            n <= chars.len(),
            chars@ == s@,
            trimmed_len(s@) == trimmed_len(s@.take(n as int)),
        decreases n,
    {
        proof {
            let cur = s@.take(n as int);
            assert(cur.last() == s@[n - 1]);
            assert(cur.drop_last() =~= s@.take(n - 1));
        }
        n -= 1;
    }
    proof {
        let cur = s@.take(n as int);
        if n > 0 {
            assert(cur.last() == s@[n - 1]);
        }
        assert(trimmed_len(cur) == n);
    }
    slice_text(s, 0, n)
}

/// True when one of `lines` is exactly `line`.
pub fn has_line(lines: &Vec<String>, line: &str) -> (b: bool)
    ensures
        b == texts(lines@).contains(line@),
{
    list_contains(lines, line)
}

/// The decimal digit for `d`, which is below 10.
pub open spec fn digit_text(d: int) -> Seq<char> {
    if d == 0 {
        "0"@
    } else if d == 1 {
        "1"@
    } else if d == 2 {
        "2"@
    } else if d == 3 {
        "3"@
    } else if d == 4 {
        "4"@
    } else if d == 5 {
        "5"@
    } else if d == 6 {
        "6"@
    } else if d == 7 {
        "7"@
    } else if d == 8 {
        "8"@
    } else {
        "9"@
    }
}

/// `n` in decimal, without leading zeros.
pub open spec fn decimal(n: nat) -> Seq<char>
    decreases n,
{
    if n < 10 {
        digit_text(n as int)
    } else {
        decimal(n / 10) + digit_text((n % 10) as int)
    }
}

/// `n` in decimal, with a minus sign when it is negative.
pub open spec fn signed_decimal(n: int) -> Seq<char> {
    if n < 0 {
        "-"@ + decimal((-n) as nat)
    } else {
        decimal(n as nat)
    }
}

fn digit_str(d: u64) -> (r: &'static str)
    requires
        d < 10,
    ensures
        r@ == digit_text(d as int),
{
    if d == 0 {
        "0"
    } else if d == 1 {
        "1"
    } else if d == 2 {
        "2"
    } else if d == 3 {
        "3"
    } else if d == 4 {
        "4"
    } else if d == 5 {
        "5"
    } else if d == 6 {
        "6"
    } else if d == 7 {
        "7"
    } else if d == 8 {
        "8"
    } else {
        "9"
    }
}

/// Writes `n` in decimal.
pub fn decimal_text(n: u64) -> (r: String)
    ensures
        r@ == decimal(n as nat),
    decreases n,
{
    if n < 10 {
        owned(digit_str(n))
    } else {
        let mut r = decimal_text(n / 10);
        r.append(digit_str(n % 10));
        r
    }
}

/// Writes `n` in decimal, with a minus sign when it is negative.
pub fn signed_decimal_text(n: i64) -> (r: String)
    ensures
        r@ == signed_decimal(n as int),
{
    if n < 0 {
        let magnitude: u64 = (-(n + 1)) as u64 + 1;
        concat("-", decimal_text(magnitude).as_str())
    } else {
        decimal_text(n as u64)
    }
}

/// `hay` with every occurrence of `from`, which is not empty, replaced by
/// `to`: occurrences are taken from left to right and do not overlap.
pub open spec fn replaced(hay: Seq<char>, from: Seq<char>, to: Seq<char>) -> Seq<char>
    decreases hay.len(),
{
    if from.len() == 0 || hay.len() < from.len() {
        hay
    } else if hay.take(from.len() as int) == from {
        to + replaced(hay.skip(from.len() as int), from, to)
    } else {
        seq![hay[0]] + replaced(hay.skip(1), from, to)
    }
}

/// Replaces every occurrence of `from` in `hay` by `to`. An empty `from`
/// occurs nowhere.
pub fn replace_all(hay: &str, from: &str, to: &str) -> (r: String)
    ensures
        r@ == replaced(hay@, from@, to@),
{
    let h = chars_of(hay);
    let f = chars_of(from);
    let n = h.len();
    if f.len() == 0 || n < f.len() {
        return owned(hay);
    }
    let mut out = String::new();
    let mut seg: usize = 0;
    let mut i: usize = 0;
    assert(hay@.skip(0) =~= hay@);
    assert(out@ + hay@.subrange(0, 0) =~= Seq::<char>::empty());
    assert(Seq::<char>::empty() + replaced(hay@, from@, to@) =~= replaced(hay@, from@, to@));
    while i <= n - f.len()
        invariant
            seg <= i <= n,
            n == hay@.len(),
            h@ == hay@,
            f@ == from@,
            f@.len() > 0,
            f@.len() <= n,
            replaced(hay@, from@, to@) == out@ + hay@.subrange(seg as int, i as int) + replaced(
                hay@.skip(i as int),
                from@,
                to@,
            ),
        decreases n - i,
    {
        let ghost rest = hay@.skip(i as int);
        proof {
            assert(rest.take(from@.len() as int) =~= hay@.subrange(
                i as int,
                i + from@.len(),
            ));
        }
        if chars_match_at(&h, &f, i) {
            let piece = slice_text(hay, seg, i);
            out.append(piece.as_str());
            out.append(to);
            proof {
                assert(rest.skip(from@.len() as int) =~= hay@.skip(i + from@.len()));
                assert(hay@.subrange(i + from@.len(), i + from@.len()) =~= Seq::<char>::empty());
            }
            i = i + f.len();
            seg = i;
            assert(replaced(hay@, from@, to@) =~= out@ + hay@.subrange(seg as int, i as int)
                + replaced(hay@.skip(i as int), from@, to@));
        } else {
            proof {
                assert(rest.skip(1) =~= hay@.skip(i + 1));
                assert(hay@.subrange(seg as int, i + 1) =~= hay@.subrange(seg as int, i as int)
                    + seq![rest[0]]);
            }
            i = i + 1;
            assert(replaced(hay@, from@, to@) =~= out@ + hay@.subrange(seg as int, i as int)
                + replaced(hay@.skip(i as int), from@, to@));
        }
    }
    let tail = slice_text(hay, seg, n);
    proof {
        let rest = hay@.skip(i as int);
        assert(rest.len() < from@.len());
        assert(replaced(rest, from@, to@) == rest);
        assert(hay@.subrange(seg as int, i as int) + rest =~= hay@.subrange(seg as int, n as int));
    }
    out.append(tail.as_str());
    assert(out@ =~= replaced(hay@, from@, to@));
    out
}

/// True when every character of `s` is white space.
pub open spec fn is_blank(s: Seq<char>) -> bool {
    forall|i: int| 0 <= i < s.len() ==> is_space(#[trigger] s[i])
}

/// Tells whether `s` holds nothing but white space.
pub fn blank(s: &str) -> (b: bool)
    ensures
        b == is_blank(s@),
{
    let chars = chars_of(s);
    let mut i: usize = 0;
    while i < chars.len()
        invariant
            i <= chars.len(),
            chars@ == s@,
            forall|j: int| 0 <= j < i ==> is_space(#[trigger] s@[j]),
        decreases chars.len() - i,
    {
        if !char_is_space(chars[i]) {
            return false;
        }
        i += 1;
    }
    true
}

/// True when `a` comes before `b`, or is `b`, in the order of dictionaries
/// over the characters' code points. This is the order in which strings
/// compare.
pub open spec fn text_le(a: Seq<char>, b: Seq<char>) -> bool
    decreases a.len(),
{
    if a.len() == 0 {
        true
    } else if b.len() == 0 {
        false
    } else {
        a[0] < b[0] || (a[0] == b[0] && text_le(a.skip(1), b.skip(1)))
    }
}

/// `sorted` with `x` put in after the last text that is not greater.
pub open spec fn insert_text(sorted: Seq<Seq<char>>, x: Seq<char>) -> Seq<Seq<char>>
    decreases sorted.len(),
{
    if sorted.len() == 0 {
        seq![x]
    } else if text_le(sorted.last(), x) {
        sorted.push(x)
    } else {
        insert_text(sorted.drop_last(), x).push(sorted.last())
    }
}

/// The texts of `list` in order; equal texts keep the order they came in.
pub open spec fn sort_texts(list: Seq<Seq<char>>) -> Seq<Seq<char>>
    decreases list.len(),
{
    if list.len() == 0 {
        Seq::empty()
    } else {
        insert_text(sort_texts(list.drop_last()), list.last())
    }
}

/// True when each text of `list` is not greater than the next.
pub open spec fn in_order(list: Seq<Seq<char>>) -> bool {
    forall|i: int| 0 <= i < list.len() - 1 ==> text_le(#[trigger] list[i], list[i + 1])
}

/// Of two texts, one is not greater than the other.
pub proof fn lemma_text_le_total(a: Seq<char>, b: Seq<char>)
    ensures
        text_le(a, b) || text_le(b, a),
    decreases a.len(),
{
    if a.len() > 0 && b.len() > 0 {
        if a[0] == b[0] {
            lemma_text_le_total(a.skip(1), b.skip(1));
        }
    }
}

/// Putting a text into an ordered list keeps the list ordered and adds the
/// text, and nothing else, to what the list holds.
pub proof fn lemma_insert_text(sorted: Seq<Seq<char>>, x: Seq<char>)
    requires
        in_order(sorted),
    ensures
        in_order(insert_text(sorted, x)),
        insert_text(sorted, x).len() == sorted.len() + 1,
        insert_text(sorted, x).to_multiset() == sorted.to_multiset().insert(x),
        insert_text(sorted, x).last() == x || (sorted.len() > 0 && insert_text(sorted, x).last()
            == sorted.last() && text_le(x, sorted.last())),
    decreases sorted.len(),
{
    broadcast use vstd::seq_lib::group_to_multiset_ensures;

    if sorted.len() == 0 {
        assert(seq![x] =~= Seq::<Seq<char>>::empty().push(x));
    } else if text_le(sorted.last(), x) {
        let r = sorted.push(x);
        assert forall|i: int| 0 <= i < r.len() - 1 implies text_le(#[trigger] r[i], r[i + 1]) by {
            if i < sorted.len() - 1 {
                assert(text_le(sorted[i], sorted[i + 1]));
            }
        }
    } else {
        let init = sorted.drop_last();
        assert forall|i: int| 0 <= i < init.len() - 1 implies text_le(
            #[trigger] init[i],
            init[i + 1],
        ) by {
            assert(text_le(sorted[i], sorted[i + 1]));
        }
        lemma_insert_text(init, x);
        lemma_text_le_total(sorted.last(), x);
        let inner = insert_text(init, x);
        let r = inner.push(sorted.last());
        assert forall|i: int| 0 <= i < r.len() - 1 implies text_le(#[trigger] r[i], r[i + 1]) by {
            if i < inner.len() - 1 {
                assert(text_le(inner[i], inner[i + 1]));
            } else {
                if inner.last() != x {
                    assert(init.len() > 0);
                    assert(text_le(sorted[init.len() - 1], sorted[init.len() as int]));
                }
            }
        }
        assert(init.push(sorted.last()) =~= sorted);
    }
}

/// Sorting gives an ordered list that holds what the list held, each text as
/// often as before.
pub proof fn lemma_sort_texts(list: Seq<Seq<char>>)
    ensures
        in_order(sort_texts(list)),
        sort_texts(list).len() == list.len(),
        sort_texts(list).to_multiset() == list.to_multiset(),
    decreases list.len(),
{
    broadcast use vstd::seq_lib::group_to_multiset_ensures;

    if list.len() > 0 {
        lemma_sort_texts(list.drop_last());
        lemma_insert_text(sort_texts(list.drop_last()), list.last());
        assert(list.drop_last().push(list.last()) =~= list);
    }
}

/// Tells whether `a` comes before `b`, or is `b`, in the order of strings.
pub fn le(a: &str, b: &str) -> (r: bool)
    ensures
        r == text_le(a@, b@),
{
    let x = chars_of(a);
    let y = chars_of(b);
    let mut i: usize = 0;
    assert(a@.skip(0) =~= a@ && b@.skip(0) =~= b@);
    while i < x.len() && i < y.len()
        invariant
            i <= x.len(),
            i <= y.len(),
            x@ == a@,
            y@ == b@,
            text_le(a@, b@) == text_le(a@.skip(i as int), b@.skip(i as int)),
        decreases x.len() - i,
    {
        proof {
            assert(a@.skip(i as int)[0] == a@[i as int]);
            assert(b@.skip(i as int)[0] == b@[i as int]);
            assert(a@.skip(i as int).skip(1) =~= a@.skip(i + 1));
            assert(b@.skip(i as int).skip(1) =~= b@.skip(i + 1));
        }
        if x[i] < y[i] {
            return true;
        }
        if x[i] != y[i] {
            return false;
        }
        i += 1;
    }
    i == x.len()
}

/// Sorts `list`. Texts that are equal keep the order they came in.
pub fn sorted(list: &Vec<String>) -> (r: Vec<String>)
    ensures
        texts(r@) == sort_texts(texts(list@)),
{
    let mut out: Vec<String> = Vec::new();
    let mut i: usize = 0;
    assert(texts(list@).take(0) =~= Seq::<Seq<char>>::empty());
    assert(texts(out@) =~= Seq::<Seq<char>>::empty());
    while i < list.len()
        invariant
            i <= list.len(),
            texts(out@) == sort_texts(texts(list@).take(i as int)),
        decreases list.len() - i,
    {
        proof {
            let next = texts(list@).take(i + 1);
            assert(next.drop_last() =~= texts(list@).take(i as int));
            assert(next.last() == list@[i as int]@);
        }
        let ghost before = texts(out@);
        let ghost x = list@[i as int]@;
        let mut at: usize = out.len();
        assert(before.take(at as int) =~= before);
        assert(before.skip(at as int) =~= Seq::<Seq<char>>::empty());
        assert(insert_text(before, x) =~= insert_text(before.take(at as int), x) + before.skip(
            at as int,
        ));
        while at > 0 && !le(out[at - 1].as_str(), list[i].as_str())
            invariant
                at <= out@.len(),
                i < list@.len(),
                before == texts(out@),
                x == list@[i as int]@,
                insert_text(before, x) == insert_text(before.take(at as int), x) + before.skip(
                    at as int,
                ),
            decreases at,
        {
            proof {
                let cur = before.take(at as int);
                assert(cur.last() == out@[at - 1]@);
                assert(cur.drop_last() =~= before.take(at - 1));
                assert(insert_text(cur, x) == insert_text(cur.drop_last(), x).push(cur.last()));
                assert(insert_text(before.take(at - 1), x).push(cur.last()) + before.skip(
                    at as int,
                ) =~= insert_text(before.take(at - 1), x) + before.skip(at - 1));
            }
            at -= 1;
        }
        proof {
            let cur = before.take(at as int);
            if at > 0 {
                assert(cur.last() == out@[at - 1]@);
            }
            assert(insert_text(cur, x) =~= cur.push(x));
        }
        out.insert(at, list[i].clone());
        assert(texts(out@) =~= before.take(at as int).push(x) + before.skip(at as int));
        i += 1;
    }
    assert(texts(list@).take(list.len() as int) =~= texts(list@));
    out
}

} // verus!
