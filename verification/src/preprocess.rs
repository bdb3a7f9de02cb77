//! The indentation preprocessor: rewrites indentation into explicit block
//! markers, so that the grammar need not count columns.
//!
//! Blank lines and comment lines pass through as they are. Every other
//! line is compared with a stack of open indentation widths, gets an
//! `INDENT` marker in front when it is deeper than the innermost open
//! block and one `DEDENT` marker for each block that it closes, and is
//! written without its surrounding whitespace. The blocks still open at
//! the end are closed by one `DEDENT` marker each.
use crate::text::{
    chars_of, occurrences, occurs_in, on_one_line, repeat_text, string_of_range,
};
use vstd::prelude::*;
use vstd::string::*;

verus! {

/// Whether `c` is whitespace: a character with the Unicode property
/// `White_Space`.
pub open spec fn is_space(c: char) -> bool {
    let u = c as u32;
    (0x09 <= u <= 0x0D) || u == 0x20 || u == 0x85 || u == 0xA0 || u == 0x1680 || (0x2000 <= u
        <= 0x200A) || u == 0x2028 || u == 0x2029 || u == 0x202F || u == 0x205F || u == 0x3000
}

/// The number of bytes that `c` takes in UTF-8.
pub open spec fn char_width(c: char) -> nat {
    let u = c as u32;
    if u < 0x80 {
        1
    } else if u < 0x800 {
        2
    } else if u < 0x10000 {
        3
    } else {
        4
    }
}

/// The number of whitespace characters at the start of `line`.
pub open spec fn leading_spaces(line: Seq<char>) -> nat
    decreases line.len(),
{
    if line.len() > 0 && is_space(line[0]) {
        1 + leading_spaces(line.skip(1))
    } else {
        0
    }
}

/// The number of whitespace characters at the end of `line`.
pub open spec fn trailing_spaces(line: Seq<char>) -> nat
    decreases line.len(),
{
    if line.len() > 0 && is_space(line.last()) {
        1 + trailing_spaces(line.drop_last())
    } else {
        0
    }
}

/// The width of the indentation of `line`: the number of bytes of the
/// whitespace at its start.
pub open spec fn leading_width(line: Seq<char>) -> nat
    decreases line.len(),
{
    if line.len() > 0 && is_space(line[0]) {
        char_width(line[0]) + leading_width(line.skip(1))
    } else {
        0
    }
}

/// `line` without the whitespace at its start and at its end.
pub open spec fn trimmed(line: Seq<char>) -> Seq<char> {
    if leading_spaces(line) == line.len() {
        Seq::empty()
    } else {
        line.subrange(leading_spaces(line) as int, line.len() - trailing_spaces(line))
    }
}

/// Whether `line` is blank or a comment: such a line has no part in the
/// block structure.
pub open spec fn is_passive(line: Seq<char>) -> bool {
    trimmed(line).len() == 0 || trimmed(line)[0] == '#'
}

/// The position of the first line feed in `s`, the length of `s` when it
/// has none.
pub open spec fn line_feed_index(s: Seq<char>) -> int
    decreases s.len(),
{
    if s.len() == 0 || s[0] == '\n' {
        0
    } else {
        1 + line_feed_index(s.skip(1))
    }
}

/// The first line of `s`: what stands before the first line feed, without
/// the carriage return that may precede the line feed.
pub open spec fn first_line(s: Seq<char>) -> Seq<char> {
    let end = line_feed_index(s);
    if end < s.len() && end > 0 && s[end - 1] == '\r' {
        s.take(end - 1)
    } else {
        s.take(end)
    }
}

/// What follows the first line of `s` and its line feed.
pub open spec fn after_first_line(s: Seq<char>) -> Seq<char> {
    let end = line_feed_index(s);
    if end < s.len() {
        s.skip(end + 1)
    } else {
        Seq::empty()
    }
}

/// `stack` without the widths at its top that are greater than `width`.
pub open spec fn pop_to(stack: Seq<nat>, width: nat) -> Seq<nat>
    decreases stack.len(),
{
    if stack.len() > 0 && width < stack.last() {
        pop_to(stack.drop_last(), width)
    } else {
        stack
    }
}

/// Whether `line` opens a block: it is deeper than the innermost open one.
pub open spec fn opens_block(stack: Seq<nat>, line: Seq<char>) -> bool {
    !is_passive(line) && stack.len() > 0 && leading_width(line) > stack.last()
}

/// The stack of open indentation widths after `line`.
pub open spec fn stack_after(stack: Seq<nat>, line: Seq<char>) -> Seq<nat> {
    if is_passive(line) {
        stack
    } else if opens_block(stack, line) {
        stack.push(leading_width(line))
    } else {
        pop_to(stack, leading_width(line))
    }
}

/// The number of blocks that `line` closes.
pub open spec fn blocks_closed(stack: Seq<nat>, line: Seq<char>) -> nat {
    (stack.len() - stack_after(stack, line).len()) as nat
}

/// The marker that opens a block.
pub open spec fn indent_marker() -> Seq<char> {
    "{{INDENT}}"@
}

/// The marker that closes a block.
pub open spec fn dedent_marker() -> Seq<char> {
    "{{DEDENT}}"@
}

/// What is written for `line`: the line itself when it is blank or a
/// comment; otherwise its markers and then its trimmed text. A line feed
/// ends it.
pub open spec fn line_text(stack: Seq<nat>, line: Seq<char>) -> Seq<char> {
    if is_passive(line) {
        line.push('\n')
    } else if opens_block(stack, line) {
        (indent_marker() + trimmed(line)).push('\n')
    } else {
        (repeat_text(dedent_marker(), blocks_closed(stack, line)) + trimmed(line)).push('\n')
    }
}

/// What is written for the source `s` with the blocks of `stack` open: the
/// text of each line, then one closing marker for each block that is
/// still open at the end.
pub open spec fn marked_text(s: Seq<char>, stack: Seq<nat>) -> Seq<char>
    decreases s.len(),
{
    if s.len() == 0 {
        repeat_text(dedent_marker(), (stack.len() - 1) as nat)
    } else {
        proof {
            lemma_line_feed_index_bounds(s);
        }
        line_text(stack, first_line(s)) + marked_text(
            after_first_line(s),
            stack_after(stack, first_line(s)),
        )
    }
}

/// The marker-annotated text of a source.
pub open spec fn preprocess_text(source: Seq<char>) -> Seq<char> {
    marked_text(source, seq![0nat])
}

/// The number of `INDENT` markers written for the source `s` with the
/// blocks of `stack` open.
pub open spec fn indents_emitted(s: Seq<char>, stack: Seq<nat>) -> nat
    decreases s.len(),
{
    if s.len() == 0 {
        0
    } else {
        proof {
            lemma_line_feed_index_bounds(s);
        }
        (if opens_block(stack, first_line(s)) {
            1nat
        } else {
            0nat
        }) + indents_emitted(after_first_line(s), stack_after(stack, first_line(s)))
    }
}

/// The number of `DEDENT` markers written for the source `s` with the
/// blocks of `stack` open.
pub open spec fn dedents_emitted(s: Seq<char>, stack: Seq<nat>) -> nat
    decreases s.len(),
{
    if s.len() == 0 {
        (stack.len() - 1) as nat
    } else {
        proof {
            lemma_line_feed_index_bounds(s);
        }
        (if opens_block(stack, first_line(s)) {
            0nat
        } else {
            blocks_closed(stack, first_line(s))
        }) + dedents_emitted(after_first_line(s), stack_after(stack, first_line(s)))
    }
}

pub proof fn lemma_line_feed_index_bounds(s: Seq<char>)
    ensures
        0 <= line_feed_index(s) <= s.len(),
        line_feed_index(s) < s.len() ==> s[line_feed_index(s)] == '\n',
    decreases s.len(),
{
    if s.len() == 0 || s[0] == '\n' {
    } else {
        lemma_line_feed_index_bounds(s.skip(1));
    }
}

/// Popping keeps the bottom of a stack whose bottom is zero, and never
/// makes the stack longer.
pub proof fn lemma_pop_to_keeps_bottom(stack: Seq<nat>, width: nat)
    requires
        stack.len() > 0,
        stack[0] == 0,
    ensures
        0 < pop_to(stack, width).len() <= stack.len(),
        pop_to(stack, width)[0] == 0,
    decreases stack.len(),
{
    if width < stack.last() {
        lemma_pop_to_keeps_bottom(stack.drop_last(), width);
    }
}

/// With the blocks of `stack` open, as many `DEDENT` markers are written
/// for a source as `INDENT` markers and blocks already open.
pub proof fn lemma_markers_balance_from(s: Seq<char>, stack: Seq<nat>)
    requires
        stack.len() > 0,
        stack[0] == 0,
    ensures
        dedents_emitted(s, stack) == indents_emitted(s, stack) + stack.len() - 1,
    decreases s.len(),
{
    if s.len() > 0 {
        let line = first_line(s);
        let next = stack_after(stack, line);
        lemma_line_feed_index_bounds(s);
        lemma_pop_to_keeps_bottom(stack, leading_width(line));
        lemma_markers_balance_from(after_first_line(s), next);
    }
}

/// Every block that is opened is closed: for any source, the number of
/// `INDENT` markers written equals the number of `DEDENT` markers written.
pub proof fn lemma_markers_balance(source: Seq<char>)
    ensures
        indents_emitted(source, seq![0nat]) == dedents_emitted(source, seq![0nat]),
{
    lemma_markers_balance_from(source, seq![0nat]);
}

} // verus!

verus! {

fn is_space_char(c: char) -> (r: bool)
    ensures
        r == is_space(c),
{
    let u = c as u32;
    (0x09 <= u && u <= 0x0D) || u == 0x20 || u == 0x85 || u == 0xA0 || u == 0x1680 || (0x2000 <= u
        && u <= 0x200A) || u == 0x2028 || u == 0x2029 || u == 0x202F || u == 0x205F || u == 0x3000
}

fn width_of(c: char) -> (w: u128)
    ensures
        w == char_width(c),
        1 <= w <= 4,
{
    let u = c as u32;
    if u < 0x80 {
        1
    } else if u < 0x800 {
        2
    } else if u < 0x10000 {
        3
    } else {
        4
    }
}

/// The widths of a stack as natural numbers.
pub open spec fn widths(stack: Seq<u128>) -> Seq<nat> {
    Seq::new(stack.len(), |i: int| stack[i] as nat)
}

/// The position of the line feed that ends the line starting at `from`,
/// the length of `v` when no line feed follows.
fn line_end(v: &Vec<char>, from: usize) -> (end: usize)
    requires
        from <= v.len(),
    ensures
        from <= end <= v.len(),
        end - from == line_feed_index(v@.skip(from as int)),
        end < v.len() ==> v@[end as int] == '\n',
{
    let mut end: usize = from;
    while end < v.len() && v[end] != '\n'
        invariant
            from <= end <= v.len(),
            line_feed_index(v@.skip(from as int)) == (end - from) + line_feed_index(
                v@.skip(end as int),
            ),
        decreases v.len() - end,
    {
        assert(v@.skip(end as int).skip(1) =~= v@.skip(end + 1));
        end += 1;
    }
    end
}

/// Where the text of the line `v[from..to]` starts and ends once trimmed,
/// and the width of its indentation.
fn measure_line(v: &Vec<char>, from: usize, to: usize) -> (r: (usize, usize, u128))
    requires
        from <= to <= v.len(),
    ensures
        from <= r.0 <= r.1 <= to,
        r.2 == leading_width(v@.subrange(from as int, to as int)),
        trimmed(v@.subrange(from as int, to as int)) == v@.subrange(r.0 as int, r.1 as int),
{
    let ghost line = v@.subrange(from as int, to as int);
    let mut start: usize = from;
    let mut width: u128 = 0;
    assert(v@.subrange(from as int, to as int) =~= line);
    while start < to && is_space_char(v[start])
        invariant
            from <= start <= to <= v.len(),
            width <= 4 * (start - from),
            leading_spaces(line) == (start - from) + leading_spaces(
                v@.subrange(start as int, to as int),
            ),
            leading_width(line) == width + leading_width(v@.subrange(start as int, to as int)),
        decreases to - start,
    {
        assert(v@.subrange(start as int, to as int).skip(1) =~= v@.subrange(start + 1, to as int));
        width = width + width_of(v[start]);
        start += 1;
    }
    if start == to {
        assert(leading_spaces(line) == line.len());
        assert(v@.subrange(start as int, start as int) =~= Seq::<char>::empty());
        return (start, start, width);
    }
    let mut end: usize = to;
    while end > start && is_space_char(v[end - 1])
        invariant
            from <= start < end <= to <= v.len(),
            !is_space(v@[start as int]),
            trailing_spaces(line) == (to - end) + trailing_spaces(
                v@.subrange(from as int, end as int),
            ),
        decreases end - start,
    {
        assert(v@.subrange(from as int, end as int).drop_last() =~= v@.subrange(
            from as int,
            end - 1,
        ));
        end -= 1;
    }
    assert(v@.subrange(from as int, end as int).last() == v@[end - 1]);
    assert(line.subrange(start - from, end - from) =~= v@.subrange(start as int, end as int));
    (start, end, width)
}

/// Closes the blocks that are deeper than `width`: pops them off the stack
/// and writes one `DEDENT` marker for each.
fn close_blocks(stack: &mut Vec<u128>, out: &mut String, width: u128)
    requires
        old(stack).len() > 0,
        old(stack)[0] == 0,
    ensures
        widths(final(stack)@) == pop_to(widths(old(stack)@), width as nat),
        final(stack).len() > 0,
        final(stack)[0] == 0,
        final(stack).len() <= old(stack).len(),
        final(out)@ == old(out)@ + repeat_text(
            dedent_marker(),
            (old(stack).len() - final(stack).len()) as nat,
        ),
{
    let ghost before = out@;
    let ghost first = stack@;
    assert(out@ =~= before + repeat_text(dedent_marker(), 0));
    while width < stack[stack.len() - 1]
        invariant
            0 < stack.len() <= first.len(),
            stack[0] == 0,
            pop_to(widths(first), width as nat) == pop_to(widths(stack@), width as nat),
            out@ == before + repeat_text(dedent_marker(), (first.len() - stack.len()) as nat),
        decreases stack.len(),
    {
        let ghost prior = stack@;
        let ghost count = (first.len() - stack.len()) as nat;
        stack.pop();
        out.append("{{DEDENT}}");
        assert(widths(prior).drop_last() =~= widths(stack@));
        assert(out@ =~= before + repeat_text(dedent_marker(), count + 1));
    }
    assert(widths(stack@).last() == stack[stack.len() - 1]);
}

/// Rewrites the indentation of `source` into explicit block markers.
#[verifier::rlimit(40)]
pub fn preprocess_indentation(source: &str) -> (result: String)
    ensures
        result@ == preprocess_text(source@),
{
    let v = chars_of(source);
    let n = v.len();
    let mut out = String::new();
    let mut stack: Vec<u128> = Vec::new();
    stack.push(0);
    let mut pos: usize = 0;
    assert(v@.skip(0) =~= v@);
    assert(widths(stack@) =~= seq![0nat]);
    assert(out@ + marked_text(v@, widths(stack@)) =~= preprocess_text(source@));
    while pos < n
        invariant
            pos <= n,
            n == v.len(),
            v@ == source@,
            stack.len() > 0,
            stack[0] == 0,
            preprocess_text(source@) == out@ + marked_text(v@.skip(pos as int), widths(stack@)),
        decreases n - pos,
    {
        let ghost rest = v@.skip(pos as int);
        let ghost open = widths(stack@);
        let ghost written = out@;
        let feed = line_end(&v, pos);
        let to: usize = if feed < n && feed > pos && v[feed - 1] == '\r' {
            feed - 1
        } else {
            feed
        };
        let ghost line = v@.subrange(pos as int, to as int);
        assert(first_line(rest) =~= line);
        let next: usize = if feed < n {
            feed + 1
        } else {
            n
        };
        assert(after_first_line(rest) =~= v@.skip(next as int));
        let (start, end, width) = measure_line(&v, pos, to);
        assert(open.last() == stack[stack.len() - 1]);
        if start == end || v[start] == '#' {
            assert(is_passive(line)) by {
                if start < end {
                    assert(v@.subrange(start as int, end as int)[0] == v@[start as int]);
                }
            }
            let whole = string_of_range(&v, pos, to);
            out.append(whole.as_str());
            out.push('\n');
            assert(out@ =~= written + line_text(open, line));
        } else {
            assert(!is_passive(line)) by {
                assert(v@.subrange(start as int, end as int)[0] == v@[start as int]);
            }
            if width > stack[stack.len() - 1] {
                stack.push(width);
                out.append("{{INDENT}}");
                assert(widths(stack@) =~= open.push(width as nat));
            } else {
                close_blocks(&mut stack, &mut out, width);
            }
            let text = string_of_range(&v, start, end);
            out.append(text.as_str());
            out.push('\n');
            assert(out@ =~= written + line_text(open, line));
        }
        assert(widths(stack@) == stack_after(open, line));
        assert(written + line_text(open, line) + marked_text(
            v@.skip(next as int),
            widths(stack@),
        ) =~= written + (line_text(open, line) + marked_text(
            v@.skip(next as int),
            widths(stack@),
        )));
        pos = next;
    }
    assert(v@.skip(n as int) =~= Seq::<char>::empty());
    let ghost written = out@;
    let ghost open = stack.len();
    assert(out@ =~= written + repeat_text(dedent_marker(), 0));
    while stack.len() > 1
        invariant
            0 < stack.len() <= open,
            out@ == written + repeat_text(dedent_marker(), (open - stack.len()) as nat),
        decreases stack.len(),
    {
        let ghost count = (open - stack.len()) as nat;
        stack.pop();
        out.append("{{DEDENT}}");
        assert(out@ =~= written + repeat_text(dedent_marker(), count + 1));
    }
    out
}

/// The number of lines of `s`. A line feed at the very end of `s` starts
/// no further line.
pub open spec fn line_count(s: Seq<char>) -> nat
    decreases s.len(),
{
    if s.len() == 0 {
        0
    } else {
        proof {
            lemma_line_feed_index_bounds(s);
        }
        1 + line_count(after_first_line(s))
    }
}

/// The number of line feeds in `s`.
pub open spec fn line_feeds(s: Seq<char>) -> nat {
    crate::parser::line_feeds_before(s, s.len() as int)
}

proof fn lemma_line_feeds_of_prefix(s: Seq<char>, upto: int)
    requires
        0 <= upto <= s.len(),
    ensures
        crate::parser::line_feeds_before(s, upto) == line_feeds(s.take(upto)),
    decreases upto,
{
    if upto > 0 {
        lemma_line_feeds_of_prefix(s, upto - 1);
        lemma_line_feeds_of_prefix(s.take(upto), upto - 1);
        assert(s.take(upto).take(upto - 1) =~= s.take(upto - 1));
    }
}

proof fn lemma_line_feeds_concat(a: Seq<char>, b: Seq<char>)
    ensures
        line_feeds(a + b) == line_feeds(a) + line_feeds(b),
    decreases b.len(),
{
    if b.len() == 0 {
        assert(a + b =~= a);
    } else {
        let whole = a + b;
        lemma_line_feeds_concat(a, b.drop_last());
        assert(whole.take(whole.len() - 1) =~= a + b.drop_last());
        lemma_line_feeds_of_prefix(whole, whole.len() - 1);
        lemma_line_feeds_of_prefix(b, b.len() - 1);
        assert(b.take(b.len() - 1) =~= b.drop_last());
        assert(whole[whole.len() - 1] == b[b.len() - 1]);
    }
}

proof fn lemma_one_line_has_no_feed(s: Seq<char>)
    requires
        on_one_line(s),
    ensures
        line_feeds(s) == 0,
    decreases s.len(),
{
    if s.len() > 0 {
        lemma_one_line_has_no_feed(s.drop_last());
        lemma_line_feeds_of_prefix(s, s.len() - 1);
        assert(s.take(s.len() - 1) =~= s.drop_last());
    }
}

proof fn lemma_markers_on_one_line(count: nat)
    ensures
        on_one_line(indent_marker()),
        on_one_line(repeat_text(dedent_marker(), count)),
    decreases count,
{
    reveal_strlit("{{INDENT}}");
    reveal_strlit("{{DEDENT}}");
    if count > 0 {
        lemma_markers_on_one_line((count - 1) as nat);
    }
}

proof fn lemma_first_line_on_one_line(s: Seq<char>)
    ensures
        forall|i: int| 0 <= i < line_feed_index(s) ==> s[i] != '\n',
        on_one_line(first_line(s)),
    decreases s.len(),
{
    lemma_line_feed_index_bounds(s);
    if s.len() == 0 || s[0] == '\n' {
    } else {
        lemma_first_line_on_one_line(s.skip(1));
        lemma_line_feed_index_bounds(s.skip(1));
        assert forall|i: int| 0 <= i < line_feed_index(s) implies s[i] != '\n' by {
            if i > 0 {
                assert(s[i] == s.skip(1)[i - 1]);
            }
        }
    }
}

proof fn lemma_leading_stops(line: Seq<char>)
    ensures
        leading_spaces(line) <= line.len(),
        leading_spaces(line) < line.len() ==> !is_space(line[leading_spaces(line) as int]),
    decreases line.len(),
{
    if line.len() > 0 && is_space(line[0]) {
        lemma_leading_stops(line.skip(1));
        let k = leading_spaces(line.skip(1));
        if k < line.skip(1).len() {
            assert(line.skip(1)[k as int] == line[k as int + 1]);
        }
    }
}

proof fn lemma_trailing_stops(line: Seq<char>, k: int)
    requires
        0 <= k < line.len(),
        !is_space(line[k]),
    ensures
        trailing_spaces(line) <= line.len() - 1 - k,
    decreases line.len(),
{
    if is_space(line.last()) {
        assert(line.drop_last()[k] == line[k]);
        lemma_trailing_stops(line.drop_last(), k);
    }
}

/// What is left of a line once trimmed stands between its ends.
proof fn lemma_trimmed_within(line: Seq<char>)
    ensures
        leading_spaces(line) <= line.len(),
        leading_spaces(line) < line.len() ==> leading_spaces(line) + trailing_spaces(line)
            <= line.len(),
{
    lemma_leading_stops(line);
    if leading_spaces(line) < line.len() {
        lemma_trailing_stops(line, leading_spaces(line) as int);
    }
}

/// The text written for a line holds one line feed, at its end.
proof fn lemma_line_text_has_one_feed(stack: Seq<nat>, line: Seq<char>)
    requires
        on_one_line(line),
    ensures
        line_feeds(line_text(stack, line)) == 1,
{
    let body = if is_passive(line) {
        line
    } else if opens_block(stack, line) {
        indent_marker() + trimmed(line)
    } else {
        repeat_text(dedent_marker(), blocks_closed(stack, line)) + trimmed(line)
    };
    lemma_trimmed_within(line);
    lemma_markers_on_one_line(blocks_closed(stack, line));
    assert(on_one_line(trimmed(line)));
    assert(on_one_line(body));
    lemma_one_line_has_no_feed(body);
    assert(line_text(stack, line) == body.push('\n'));
    lemma_line_feeds_of_prefix(body.push('\n'), body.len() as int);
    assert(body.push('\n').take(body.len() as int) =~= body);
}

proof fn lemma_lines_are_kept_from(s: Seq<char>, stack: Seq<nat>)
    ensures
        line_feeds(marked_text(s, stack)) == line_count(s),
    decreases s.len(),
{
    if s.len() == 0 {
        lemma_markers_on_one_line((stack.len() - 1) as nat);
        lemma_one_line_has_no_feed(marked_text(s, stack));
    } else {
        lemma_line_feed_index_bounds(s);
        lemma_first_line_on_one_line(s);
        let line = first_line(s);
        lemma_line_text_has_one_feed(stack, line);
        lemma_lines_are_kept_from(after_first_line(s), stack_after(stack, line));
        lemma_line_feeds_concat(
            line_text(stack, line),
            marked_text(after_first_line(s), stack_after(stack, line)),
        );
    }
}

/// Preprocessing keeps the lines: the marked text holds one line feed for
/// each line of the source, so that a line of the marked text has the
/// number of the source line that it was written for.
pub proof fn lemma_lines_are_kept(source: Seq<char>)
    ensures
        line_feeds(preprocess_text(source)) == line_count(source),
{
    lemma_lines_are_kept_from(source, seq![0nat]);
}

/// Where one marker and a start of the other differ: at `from` places into
/// the one, the place of the other that cannot match.
spec fn clash_index(from: int) -> int {
    if from == 0 {
        2
    } else if from == 1 {
        1
    } else {
        0
    }
}

/// Whether `other` can start nowhere inside `marker`: from each place of
/// `marker` on, one character differs.
spec fn clashes(marker: Seq<char>, other: Seq<char>) -> bool {
    forall|from: int|
        0 <= from < marker.len() ==> {
            &&& 0 <= clash_index(from) < other.len()
            &&& from + clash_index(from) < marker.len()
            &&& marker[from + clash_index(from)] != other[clash_index(from)]
        }
}

/// Neither marker can start inside the other.
proof fn lemma_markers_clash()
    ensures
        clashes(indent_marker(), dedent_marker()),
        clashes(dedent_marker(), indent_marker()),
        indent_marker().len() == 10,
        dedent_marker().len() == 10,
{
    reveal_strlit("{{INDENT}}");
    reveal_strlit("{{DEDENT}}");
}

/// What follows a marker holds as many of the other marker as the whole:
/// the other marker starts nowhere inside the marker.
proof fn lemma_skip_marker(marker: Seq<char>, rest: Seq<char>, other: Seq<char>, from: int)
    requires
        clashes(marker, other),
        other.len() > 0,
        0 <= from <= marker.len(),
    ensures
        occurrences((marker + rest).skip(from), other) == occurrences(rest, other),
    decreases marker.len() - from,
{
    let text = (marker + rest).skip(from);
    if from == marker.len() {
        assert(text =~= rest);
    } else if text.len() < other.len() {
    } else {
        let at = clash_index(from);
        assert(text[at] == marker[from + at]);
        if text.subrange(0, other.len() as int) == other {
            assert(text.subrange(0, other.len() as int)[at] == text[at]);
        }
        assert(text.skip(1) =~= (marker + rest).skip(from + 1));
        lemma_skip_marker(marker, rest, other, from + 1);
    }
}

/// `count` markers at the start of a text add `count` to the number of
/// that marker, and nothing to the number of the other.
proof fn lemma_leading_markers(marker: Seq<char>, other: Seq<char>, count: nat, rest: Seq<char>)
    requires
        clashes(marker, other),
        marker.len() > 0,
        other.len() > 0,
    ensures
        occurrences(repeat_text(marker, count) + rest, marker) == count + occurrences(
            rest,
            marker,
        ),
        occurrences(repeat_text(marker, count) + rest, other) == occurrences(rest, other),
    decreases count,
{
    if count == 0 {
        assert(repeat_text(marker, 0) + rest =~= rest);
    } else {
        let fewer = repeat_text(marker, (count - 1) as nat);
        crate::text::lemma_repeat_front(marker, (count - 1) as nat);
        assert(repeat_text(marker, count) + rest =~= marker + (fewer + rest));
        lemma_leading_markers(marker, other, (count - 1) as nat, rest);
        crate::text::lemma_leading_occurrence(fewer + rest, marker);
        lemma_skip_marker(marker, fewer + rest, other, 0);
        assert((marker + (fewer + rest)).skip(0) =~= marker + (fewer + rest));
    }
}

/// The markers found in the text written for a source are the markers
/// written, where neither marker occurs in what is left of the source.
proof fn lemma_markers_found_from(s: Seq<char>, stack: Seq<nat>)
    requires
        !occurs_in(s, indent_marker()),
        !occurs_in(s, dedent_marker()),
        stack.len() > 0,
        stack[0] == 0,
    ensures
        occurrences(marked_text(s, stack), indent_marker()) == indents_emitted(s, stack),
        occurrences(marked_text(s, stack), dedent_marker()) == dedents_emitted(s, stack),
    decreases s.len(),
{
    let ind = indent_marker();
    let ded = dedent_marker();
    lemma_markers_clash();
    lemma_markers_on_one_line(1);
    crate::text::lemma_repeat_front(ded, 0);
    assert(ded + repeat_text(ded, 0) =~= ded);
    let none = Seq::<char>::empty();
    if s.len() == 0 {
        let count = (stack.len() - 1) as nat;
        lemma_leading_markers(ded, ind, count, none);
        assert(repeat_text(ded, count) + none =~= repeat_text(ded, count));
    } else {
        lemma_line_feed_index_bounds(s);
        let feed = line_feed_index(s);
        let line = first_line(s);
        let left = after_first_line(s);
        let next = stack_after(stack, line);
        let tail = marked_text(left, next);
        let line_end = if feed < s.len() && feed > 0 && s[feed - 1] == '\r' {
            feed - 1
        } else {
            feed
        };
        assert(line =~= s.subrange(0, line_end));
        crate::text::lemma_part_is_free(s, ind, 0, line_end);
        crate::text::lemma_part_is_free(s, ded, 0, line_end);
        if feed < s.len() {
            assert(left =~= s.subrange(feed + 1, s.len() as int));
            crate::text::lemma_part_is_free(s, ind, feed + 1, s.len() as int);
            crate::text::lemma_part_is_free(s, ded, feed + 1, s.len() as int);
        } else {
            crate::text::lemma_part_is_free(s, ind, s.len() as int, s.len() as int);
            crate::text::lemma_part_is_free(s, ded, s.len() as int, s.len() as int);
            assert(left =~= s.subrange(s.len() as int, s.len() as int));
        }
        lemma_pop_to_keeps_bottom(stack, leading_width(line));
        lemma_markers_found_from(left, next);
        if is_passive(line) {
            crate::text::lemma_free_line_counts_none(line, tail, ind);
            crate::text::lemma_free_line_counts_none(line, tail, ded);
        } else {
            let body = trimmed(line);
            lemma_trimmed_within(line);
            assert(body =~= line.subrange(
                leading_spaces(line) as int,
                line.len() - trailing_spaces(line),
            ));
            crate::text::lemma_part_is_free(
                line,
                ind,
                leading_spaces(line) as int,
                line.len() - trailing_spaces(line),
            );
            crate::text::lemma_part_is_free(
                line,
                ded,
                leading_spaces(line) as int,
                line.len() - trailing_spaces(line),
            );
            let after = body.push('\n') + tail;
            crate::text::lemma_free_line_counts_none(body, tail, ind);
            crate::text::lemma_free_line_counts_none(body, tail, ded);
            if opens_block(stack, line) {
                assert(marked_text(s, stack) =~= ind + after);
                crate::text::lemma_leading_occurrence(after, ind);
                lemma_skip_marker(ind, after, ded, 0);
                assert((ind + after).skip(0) =~= ind + after);
            } else {
                let closed = blocks_closed(stack, line);
                assert(marked_text(s, stack) =~= repeat_text(ded, closed) + after);
                lemma_leading_markers(ded, ind, closed, after);
            }
        }
    }
}

/// The markers found in the marked text are the markers written: where
/// neither marker occurs in the source, each marker occurs in the marked
/// text as often as it was written.
pub proof fn lemma_markers_found(source: Seq<char>)
    requires
        !occurs_in(source, indent_marker()),
        !occurs_in(source, dedent_marker()),
    ensures
        occurrences(preprocess_text(source), indent_marker()) == indents_emitted(
            source,
            seq![0nat],
        ),
        occurrences(preprocess_text(source), dedent_marker()) == dedents_emitted(
            source,
            seq![0nat],
        ),
{
    lemma_markers_found_from(source, seq![0nat]);
}

/// The marked text is balanced: where neither marker occurs in the source,
/// the marked text holds as many `INDENT` markers as `DEDENT` markers.
pub proof fn lemma_marked_text_balances(source: Seq<char>)
    requires
        !occurs_in(source, indent_marker()),
        !occurs_in(source, dedent_marker()),
    ensures
        occurrences(preprocess_text(source), indent_marker()) == occurrences(
            preprocess_text(source),
            dedent_marker(),
        ),
{
    lemma_markers_found(source);
    lemma_markers_balance(source);
}

} // verus!
