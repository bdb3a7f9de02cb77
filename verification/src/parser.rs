//! The grammar parser: matches marker-annotated text against the grammar
//! and yields the parse tree, or the place of the syntax error.
use crate::peg::{eval, run, Outcome, Peg};
use crate::text::{chars_of, nat_text, push_nat};
use crate::tree::{trees_of, ParseNode, Rule, Tree};
use vstd::prelude::*;
use vstd::string::*;

verus! {

/// The budget of nested rules that a parse starts with.
///
/// Entering a rule takes one from the budget, which is what shows that
/// matching ends. It is the largest number there is, so that it never
/// decides what a text gives: no text that a machine can hold nests its
/// rules that deep.
pub const DEPTH_BUDGET: usize = usize::MAX;

/// The place of a syntax error: the line and the column, both counted from
/// one, of the furthest position that the parser reached.
#[derive(Debug, Clone, Copy, PartialEq, Eq, Structural)]
pub struct SyntaxError {
    pub line: usize,
    pub column: usize,
}

/// The number of line feeds among the first `upto` characters of `s`.
pub open spec fn line_feeds_before(s: Seq<char>, upto: int) -> nat
    decreases upto,
{
    if upto <= 0 || upto > s.len() {
        0
    } else {
        line_feeds_before(s, upto - 1) + if s[upto - 1] == '\n' {
            1nat
        } else {
            0nat
        }
    }
}

/// The number of characters between the last line feed before `upto` and
/// `upto`.
pub open spec fn offset_in_line(s: Seq<char>, upto: int) -> nat
    decreases upto,
{
    if upto <= 0 || upto > s.len() || s[upto - 1] == '\n' {
        0
    } else {
        offset_in_line(s, upto - 1) + 1
    }
}

/// A number counted from one, held to what a `usize` can hold.
pub open spec fn from_one(n: nat) -> int {
    if n < usize::MAX {
        (n + 1) as int
    } else {
        usize::MAX as int
    }
}

/// The line of position `at` in `s`, counted from one.
pub open spec fn line_number(s: Seq<char>, at: int) -> int {
    from_one(line_feeds_before(s, at))
}

/// The column of position `at` in `s`, counted from one.
pub open spec fn column_number(s: Seq<char>, at: int) -> int {
    from_one(offset_in_line(s, at))
}

/// What matching `rule` against the whole of `text` gives.
pub open spec fn parse_outcome(rule: Rule, text: Seq<char>) -> Outcome {
    eval(Peg::Call(rule), text, 0, DEPTH_BUDGET as nat)
}

/// The message of a syntax error.
pub open spec fn syntax_message(column: int) -> Seq<char> {
    "unexpected input at column "@ + nat_text(column as nat)
}

impl SyntaxError {
    /// The message of the error: it names the column.
    pub fn message(&self) -> (s: String)
        ensures
            s@ == syntax_message(self.column as int),
    {
        let mut s = String::from_str("unexpected input at column ");
        push_nat(&mut s, self.column as u64);
        s
    }
}

/// The line and the column of position `at`.
fn locate(input: &Vec<char>, at: usize) -> (e: SyntaxError)
    requires
        at <= input.len(),
    ensures
        e.line == line_number(input@, at as int),
        e.column == column_number(input@, at as int),
{
    let mut lines: usize = 0;
    let mut offset: usize = 0;
    let mut i: usize = 0;
    while i < at
        invariant
            i <= at <= input.len(),
            lines == line_feeds_before(input@, i as int),
            offset == offset_in_line(input@, i as int),
            lines <= i,
            offset <= i,
        decreases at - i,
    {
        if input[i] == '\n' {
            lines += 1;
            offset = 0;
        } else {
            offset += 1;
        }
        i += 1;
    }
    SyntaxError {
        line: if lines < usize::MAX {
            lines + 1
        } else {
            lines
        },
        column: if offset < usize::MAX {
            offset + 1
        } else {
            offset
        },
    }
}

/// The parser of the language.
#[derive(Debug, Clone, Copy)]
pub struct NexScriptParser;

impl NexScriptParser {
    /// Matches `rule` against `input` from its start.
    ///
    /// Where the rule matches, the result is the nodes that the match
    /// yields. Where it does not, the result is the place of the furthest
    /// position that was tried.
    ///
    /// Matching descends as deep as the constructs of the text nest, and
    /// needs a stack to match: that of an ordinary thread serves a text
    /// nested some hundreds of levels deep.
    pub fn parse(rule: Rule, input: &str) -> (r: Result<Vec<ParseNode>, SyntaxError>)
        ensures
            match r {
                Ok(pairs) => parse_outcome(rule, input@).ok && trees_of(pairs@) == parse_outcome(
                    rule,
                    input@,
                ).nodes,
                Err(e) => !parse_outcome(rule, input@).ok && e.line == line_number(
                    input@,
                    parse_outcome(rule, input@).far,
                ) && e.column == column_number(input@, parse_outcome(rule, input@).far),
            },
    {
        let chars = chars_of(input);
        let start = Peg::Call(rule);
        let matched = run(&start, &chars, 0, DEPTH_BUDGET);
        if matched.ok {
            Ok(matched.nodes)
        } else {
            Err(locate(&chars, matched.far))
        }
    }
}

/// A program is matched only as a whole: where the rule of a program
/// matches a text, the match ends at the end of the text.
pub proof fn lemma_program_match_is_whole(text: Seq<char>)
    requires
        parse_outcome(Rule::Program, text).ok,
    ensures
        parse_outcome(Rule::Program, text).end == text.len(),
{
    let depth = (DEPTH_BUDGET - 1) as nat;
    let white = crate::grammar::rule(Rule::Whitespace);
    let feeds = crate::grammar::opt(crate::grammar::rule(Rule::Newline));
    let statements = crate::grammar::star(crate::grammar::rule(Rule::Statement));
    let last = crate::grammar::rule(Rule::Eoi);
    let tail2 = crate::grammar::both(statements, last);
    let tail1 = crate::grammar::both(feeds, tail2);
    assert(crate::grammar::rule_body(Rule::Program) == crate::grammar::both(white, tail1));
    let whole = eval(crate::grammar::rule_body(Rule::Program), text, 0, depth);
    assert(whole.ok && whole.end == parse_outcome(Rule::Program, text).end);
    let r0 = eval(white, text, 0, depth);
    crate::peg::lemma_eval_bounds(white, text, 0, depth);
    assert(r0.ok);
    let t1 = eval(tail1, text, r0.end, depth);
    assert(t1.ok && whole.end == t1.end);
    let r1 = eval(feeds, text, r0.end, depth);
    crate::peg::lemma_eval_bounds(feeds, text, r0.end, depth);
    assert(r1.ok);
    let t2 = eval(tail2, text, r1.end, depth);
    assert(t2.ok && t1.end == t2.end);
    let r2 = eval(statements, text, r1.end, depth);
    crate::peg::lemma_eval_bounds(statements, text, r1.end, depth);
    assert(r2.ok);
    let r3 = eval(last, text, r2.end, depth);
    assert(r3.ok && t2.end == r3.end);
    assert(crate::grammar::rule_body(Rule::Eoi) == Peg::Not(Box::new(Peg::Any)));
    let inner = eval(crate::grammar::rule_body(Rule::Eoi), text, r2.end, (depth - 1) as nat);
    assert(inner.ok && inner.end == r3.end);
    assert(!eval(Peg::Any, text, r2.end, (depth - 1) as nat).ok);
    assert(inner.end == r2.end);
}

/// A line number, counted from one, is at least one.
pub proof fn lemma_line_number_is_positive(s: Seq<char>, at: int)
    ensures
        1 <= line_number(s, at),
        1 <= column_number(s, at),
{
}

} // verus!
