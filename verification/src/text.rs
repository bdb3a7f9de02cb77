//! Text helpers shared by every stage: conversions between strings and
//! character vectors, decimal rendering, joining, repetition and
//! substitution, each with its mathematical meaning over `Seq<char>`.
use vstd::prelude::*;
use vstd::string::*;

verus! {

/// `String::push` appends exactly one character to the end of the string.
pub assume_specification[ std::string::String::push ](s: &mut std::string::String, c: char)
    ensures
        final(s)@ == old(s)@.push(c),
;

/// The characters of `s`, in order.
pub fn chars_of(s: &str) -> (v: Vec<char>)
    ensures
        v@ == s@,
{
    let mut v: Vec<char> = Vec::new();
    for c in it: s.chars()
        invariant
            it.seq() == s@,
            v@ == it.seq().take(it.index()),
    {
        v.push(c);
        assert(it.seq().take(it.index() + 1) =~= it.seq().take(it.index()).push(c));
    }
    assert(s@.take(s@.len() as int) =~= s@);
    v
}

/// The string made of the characters `v[from..to]`.
pub fn string_of_range(v: &Vec<char>, from: usize, to: usize) -> (s: String)
    requires
        from <= to <= v.len(),
    ensures
        s@ == v@.subrange(from as int, to as int),
{
    let mut s = String::new();
    let mut i: usize = from;
    while i < to
        invariant
            from <= i <= to <= v.len(),
            s@ == v@.subrange(from as int, i as int),
        decreases to - i,
    {
        s.push(v[i]);
        assert(v@.subrange(from as int, i + 1) =~= v@.subrange(from as int, i as int).push(v@[i as int]));
        i += 1;
    }
    s
}

/// The string made of all the characters of `v`.
pub fn string_of(v: &Vec<char>) -> (s: String)
    ensures
        s@ == v@,
{
    let s = string_of_range(v, 0, v.len());
    assert(v@.subrange(0, v.len() as int) =~= v@);
    s
}

/// The decimal digit character of `d`, for `0 <= d < 10`.
pub open spec fn digit_char(d: int) -> char {
    if d == 0 {
        '0'
    } else if d == 1 {
        '1'
    } else if d == 2 {
        '2'
    } else if d == 3 {
        '3'
    } else if d == 4 {
        '4'
    } else if d == 5 {
        '5'
    } else if d == 6 {
        '6'
    } else if d == 7 {
        '7'
    } else if d == 8 {
        '8'
    } else {
        '9'
    }
}

/// The decimal numeral of a natural number, without leading zeros.
pub open spec fn nat_text(n: nat) -> Seq<char>
    decreases n,
{
    if n < 10 {
        seq![digit_char(n as int)]
    } else {
        nat_text(n / 10).push(digit_char((n % 10) as int))
    }
}

/// The decimal numeral of an integer: a minus sign before the numeral of
/// its magnitude when it is negative.
pub open spec fn int_text(n: int) -> Seq<char> {
    if n < 0 {
        seq!['-'] + nat_text((-n) as nat)
    } else {
        nat_text(n as nat)
    }
}

fn digit_of(d: u64) -> (c: char)
    requires
        d < 10,
    ensures
        c == digit_char(d as int),
{
    if d == 0 {
        '0'
    } else if d == 1 {
        '1'
    } else if d == 2 {
        '2'
    } else if d == 3 {
        '3'
    } else if d == 4 {
        '4'
    } else if d == 5 {
        '5'
    } else if d == 6 {
        '6'
    } else if d == 7 {
        '7'
    } else if d == 8 {
        '8'
    } else {
        '9'
    }
}

/// Appends the decimal numeral of `n` to `out`.
pub fn push_nat(out: &mut String, n: u64)
    ensures
        final(out)@ == old(out)@ + nat_text(n as nat),
    decreases n,
{
    if n < 10 {
        out.push(digit_of(n));
        assert(old(out)@.push(digit_char(n as int)) =~= old(out)@ + nat_text(n as nat));
    } else {
        push_nat(out, n / 10);
        out.push(digit_of(n % 10));
        assert(out@ =~= old(out)@ + nat_text(n as nat));
    }
}

/// Appends the decimal numeral of `n` to `out`.
pub fn push_int(out: &mut String, n: i64)
    ensures
        final(out)@ == old(out)@ + int_text(n as int),
{
    if n < 0 {
        out.push('-');
        let m: u64 = ((-(n + 1)) as u64) + 1;
        push_nat(out, m);
        assert(out@ =~= old(out)@ + int_text(n as int));
    } else {
        push_nat(out, n as u64);
    }
}

/// `count` copies of `unit`, one after the other.
pub open spec fn repeat_text(unit: Seq<char>, count: nat) -> Seq<char>
    decreases count,
{
    if count == 0 {
        Seq::empty()
    } else {
        repeat_text(unit, (count - 1) as nat) + unit
    }
}

/// The string of `count` copies of `unit`.
pub fn repeat(unit: &str, count: usize) -> (s: String)
    ensures
        s@ == repeat_text(unit@, count as nat),
{
    let mut s = String::new();
    let mut i: usize = 0;
    while i < count
        invariant
            i <= count,
            s@ == repeat_text(unit@, i as nat),
        decreases count - i,
    {
        s.append(unit);
        i += 1;
    }
    s
}

/// The items of `parts` with `sep` between each two neighbours.
pub open spec fn join_text(parts: Seq<Seq<char>>, sep: Seq<char>) -> Seq<char>
    decreases parts.len(),
{
    if parts.len() == 0 {
        Seq::empty()
    } else if parts.len() == 1 {
        parts[0]
    } else {
        join_text(parts.drop_last(), sep) + sep + parts.last()
    }
}

/// The views of a vector of strings.
pub open spec fn texts_of(parts: Seq<String>) -> Seq<Seq<char>> {
    parts.map_values(|s: String| s@)
}

/// Pushing a string onto a vector pushes its view onto the views.
pub proof fn lemma_texts_push(v: Seq<String>, s: String)
    ensures
        texts_of(v.push(s)) == texts_of(v).push(s@),
{
    assert(texts_of(v.push(s)) =~= texts_of(v).push(s@));
}

/// Joins `parts` with `sep` between each two neighbours.
pub fn join(parts: &Vec<String>, sep: &str) -> (s: String)
    ensures
        s@ == join_text(texts_of(parts@), sep@),
{
    let mut s = String::new();
    let mut i: usize = 0;
    let ghost all = texts_of(parts@);
    while i < parts.len()
        invariant
            i <= parts.len(),
            all == texts_of(parts@),
            s@ == join_text(all.take(i as int), sep@),
        decreases parts.len() - i,
    {
        proof {
            assert(all.take(i + 1).drop_last() =~= all.take(i as int));
            assert(all.take(i + 1).last() == parts@[i as int]@);
        }
        if i > 0 {
            s.append(sep);
        }
        s.append(parts[i].as_str());
        proof {
            if i == 0 {
                assert(s@ =~= parts@[0]@);
            }
        }
        i += 1;
    }
    assert(all.take(parts.len() as int) =~= all);
    s
}

} // verus!

verus! {

/// Whether two strings hold the same characters.
pub fn str_eq(a: &str, b: &str) -> (r: bool)
    ensures
        r == (a@ == b@),
{
    let x = String::from_str(a);
    let y = String::from_str(b);
    x == y
}

} // verus!

verus! {

/// `s` with every occurrence of `from` replaced by `to`. Occurrences are
/// found from left to right and do not overlap; with an empty `from`
/// nothing is replaced.
pub open spec fn replace_all(s: Seq<char>, from: Seq<char>, to: Seq<char>) -> Seq<char>
    decreases s.len(),
{
    if from.len() == 0 || s.len() < from.len() {
        s
    } else if s.subrange(0, from.len() as int) == from {
        to + replace_all(s.skip(from.len() as int), from, to)
    } else {
        seq![s[0]] + replace_all(s.skip(1), from, to)
    }
}

/// Whether `pattern` stands in `v` at position `at`.
fn matches_at(v: &Vec<char>, at: usize, pattern: &Vec<char>) -> (r: bool)
    requires
        at + pattern.len() <= v.len(),
    ensures
        r == (v@.subrange(at as int, at + pattern.len()) == pattern@),
{
    let mut k: usize = 0;
    while k < pattern.len()
        invariant
            k <= pattern.len(),
            at + pattern.len() <= v.len(),
            v@.subrange(at as int, at + k) == pattern@.take(k as int),
        decreases pattern.len() - k,
    {
        if v[at + k] != pattern[k] {
            assert(v@.subrange(at as int, at + pattern.len())[k as int] != pattern@[k as int]);
            return false;
        }
        assert(v@.subrange(at as int, at + k + 1) =~= v@.subrange(at as int, at + k).push(
            v@[at + k],
        ));
        assert(pattern@.take(k + 1) =~= pattern@.take(k as int).push(pattern@[k as int]));
        k += 1;
    }
    assert(pattern@.take(pattern.len() as int) =~= pattern@);
    true
}

/// Replaces every occurrence of `from` in `s` by `to`.
pub fn replace(s: &str, from: &str, to: &str) -> (out: String)
    ensures
        out@ == replace_all(s@, from@, to@),
{
    let v = chars_of(s);
    let pattern = chars_of(from);
    let n = v.len();
    let m = pattern.len();
    if m == 0 || n < m {
        return String::from_str(s);
    }
    let mut out = String::new();
    let mut i: usize = 0;
    assert(v@.skip(0) =~= v@);
    assert(out@ + replace_all(v@.skip(0), pattern@, to@) =~= replace_all(v@, pattern@, to@));
    while i <= n - m
        invariant
            i <= n,
            0 < m <= n,
            n == v.len(),
            m == pattern.len(),
            replace_all(v@, pattern@, to@) == out@ + replace_all(v@.skip(i as int), pattern@, to@),
        decreases n - i,
    {
        let ghost rest = v@.skip(i as int);
        assert(rest.subrange(0, m as int) =~= v@.subrange(i as int, i + m));
        if matches_at(&v, i, &pattern) {
            assert(rest.skip(m as int) =~= v@.skip(i + m));
            let ghost before = out@;
            out.append(to);
            assert(before + (to@ + replace_all(v@.skip(i + m), pattern@, to@)) =~= out@
                + replace_all(v@.skip(i + m), pattern@, to@));
            i += m;
        } else {
            assert(rest.skip(1) =~= v@.skip(i + 1));
            let ghost before = out@;
            out.push(v[i]);
            assert(before + (seq![rest[0]] + replace_all(v@.skip(i + 1), pattern@, to@)) =~= out@
                + replace_all(v@.skip(i + 1), pattern@, to@));
            i += 1;
        }
    }
    let tail = string_of_range(&v, i, n);
    assert(v@.skip(i as int) =~= v@.subrange(i as int, n as int));
    out.append(tail.as_str());
    out
}

/// The lowercase form of a text, as `str::to_lowercase` gives it.
pub uninterp spec fn lowercase_text(s: Seq<char>) -> Seq<char>;

/// `str::to_lowercase`: the lowercase equivalent of the string, by the
/// Unicode rules that the standard library follows. The result depends on
/// the characters of the string alone.
#[verifier::external_body]
pub(crate) fn to_lowercase(s: &str) -> (r: String)
    ensures
        r@ == lowercase_text(s@),
{
    s.to_lowercase()
}

/// Whether `s` holds no line feed.
pub open spec fn on_one_line(s: Seq<char>) -> bool {
    forall|i: int| 0 <= i < s.len() ==> s[i] != '\n'
}

/// `s` with a blank in place of each line feed.
pub open spec fn single_line(s: Seq<char>) -> Seq<char> {
    Seq::new(
        s.len(),
        |i: int|
            if s[i] == '\n' {
                ' '
            } else {
                s[i]
            },
    )
}

/// Puts a blank in place of each line feed of `s`: the result is on one
/// line, and is `s` itself where `s` is.
pub fn to_single_line(s: &str) -> (r: String)
    ensures
        r@ == single_line(s@),
        on_one_line(r@),
        on_one_line(s@) ==> r@ == s@,
{
    let v = chars_of(s);
    let mut r = String::new();
    let mut i: usize = 0;
    while i < v.len()
        invariant
            i <= v.len(),
            r@ == single_line(v@).take(i as int),
        decreases v.len() - i,
    {
        let c = if v[i] == '\n' {
            ' '
        } else {
            v[i]
        };
        r.push(c);
        assert(single_line(v@).take(i + 1) =~= single_line(v@).take(i as int).push(c));
        i += 1;
    }
    assert(single_line(v@).take(v.len() as int) =~= single_line(v@));
    proof {
        if on_one_line(s@) {
            assert(single_line(s@) =~= s@);
        }
    }
    r
}

/// Whether `p` stands in `s` at position `at`.
pub open spec fn stands_at(s: Seq<char>, p: Seq<char>, at: int) -> bool {
    0 <= at && at + p.len() <= s.len() && s.subrange(at, at + p.len()) == p
}

/// Whether `p` occurs in `s`.
pub open spec fn occurs_in(s: Seq<char>, p: Seq<char>) -> bool {
    exists|at: int| stands_at(s, p, at)
}

/// The number of occurrences of `p` in `s`, found from left to right, none
/// of them overlapping another; zero for an empty `p`.
pub open spec fn occurrences(s: Seq<char>, p: Seq<char>) -> nat
    decreases s.len(),
{
    if p.len() == 0 || s.len() < p.len() {
        0
    } else if s.subrange(0, p.len() as int) == p {
        1 + occurrences(s.skip(p.len() as int), p)
    } else {
        occurrences(s.skip(1), p)
    }
}

/// What does not occur in a text occurs in no part of it.
pub proof fn lemma_part_is_free(s: Seq<char>, p: Seq<char>, from: int, to: int)
    requires
        !occurs_in(s, p),
        0 <= from <= to <= s.len(),
    ensures
        !occurs_in(s.subrange(from, to), p),
{
    let part = s.subrange(from, to);
    assert forall|at: int| !stands_at(part, p, at) by {
        if stands_at(part, p, at) {
            assert(s.subrange(from + at, from + at + p.len()) =~= part.subrange(
                at,
                at + p.len(),
            ));
            assert(stands_at(s, p, from + at));
        }
    }
}

/// What does not occur in a text is counted zero times.
pub proof fn lemma_free_text_counts_none(s: Seq<char>, p: Seq<char>)
    requires
        !occurs_in(s, p),
    ensures
        occurrences(s, p) == 0,
    decreases s.len(),
{
    if p.len() == 0 || s.len() < p.len() {
    } else {
        assert(!stands_at(s, p, 0));
        lemma_part_is_free(s, p, 1, s.len() as int);
        lemma_free_text_counts_none(s.skip(1), p);
    }
}

/// A line in which `p` does not occur adds nothing to the count of `p`,
/// where `p` holds no line feed: no occurrence reaches over the end of the
/// line.
pub proof fn lemma_free_line_counts_none(line: Seq<char>, rest: Seq<char>, p: Seq<char>)
    requires
        !occurs_in(line, p),
        on_one_line(p),
        p.len() > 0,
    ensures
        occurrences(line.push('\n') + rest, p) == occurrences(rest, p),
    decreases line.len(),
{
    let whole = line.push('\n') + rest;
    if whole.len() < p.len() {
    } else {
        if whole.subrange(0, p.len() as int) == p {
            if p.len() <= line.len() {
                assert(line.subrange(0, p.len() as int) =~= whole.subrange(0, p.len() as int));
                assert(stands_at(line, p, 0));
            } else {
                assert(whole.subrange(0, p.len() as int)[line.len() as int] == '\n');
                assert(p[line.len() as int] == '\n');
            }
        }
        if line.len() == 0 {
            assert(whole.skip(1) =~= rest);
        } else {
            assert(whole.skip(1) =~= line.skip(1).push('\n') + rest);
            lemma_part_is_free(line, p, 1, line.len() as int);
            lemma_free_line_counts_none(line.skip(1), rest, p);
        }
    }
}

/// A text that starts with `p` holds one occurrence more than what
/// follows `p`.
pub proof fn lemma_leading_occurrence(rest: Seq<char>, p: Seq<char>)
    requires
        p.len() > 0,
    ensures
        occurrences(p + rest, p) == 1 + occurrences(rest, p),
{
    assert((p + rest).subrange(0, p.len() as int) =~= p);
    assert((p + rest).skip(p.len() as int) =~= rest);
}

/// `count + 1` copies of a text are the text, then `count` copies.
pub proof fn lemma_repeat_front(unit: Seq<char>, count: nat)
    ensures
        repeat_text(unit, count + 1) == unit + repeat_text(unit, count),
    decreases count,
{
    if count == 0 {
        assert(repeat_text(unit, 1) =~= unit + repeat_text(unit, 0));
    } else {
        lemma_repeat_front(unit, (count - 1) as nat);
        assert(repeat_text(unit, count + 1) =~= unit + repeat_text(unit, count));
    }
}

/// Counts the occurrences of `p` in `s`, from left to right and without
/// overlap.
pub fn count_occurrences(s: &str, p: &str) -> (count: usize)
    ensures
        count == occurrences(s@, p@),
{
    let v = chars_of(s);
    let pattern = chars_of(p);
    let n = v.len();
    let m = pattern.len();
    if m == 0 || n < m {
        return 0;
    }
    let mut count: usize = 0;
    let mut i: usize = 0;
    assert(v@.skip(0) =~= v@);
    while i <= n - m
        invariant
            i <= n,
            0 < m <= n,
            n == v.len(),
            m == pattern.len(),
            count <= i,
            occurrences(v@, pattern@) == count + occurrences(v@.skip(i as int), pattern@),
        decreases n - i,
    {
        let ghost rest = v@.skip(i as int);
        assert(rest.subrange(0, m as int) =~= v@.subrange(i as int, i + m));
        if matches_at(&v, i, &pattern) {
            assert(rest.skip(m as int) =~= v@.skip(i + m));
            count += 1;
            i += m;
        } else {
            assert(rest.skip(1) =~= v@.skip(i + 1));
            i += 1;
        }
    }
    count
}

} // verus!
