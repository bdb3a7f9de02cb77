//! The matching engine of the grammar parser.
//!
//! A grammar is a set of rules; the body of a rule is a parsing
//! expression. `eval` says what an expression matches at a position of a
//! text: whether it matches, where the match ends, the nodes of the parse
//! tree that it yields, and the furthest position at which anything was
//! tried (which is where a syntax error is reported). `run` computes it.
use crate::grammar::{emits_node, rule_body, rule_body_of, yields_node};
use crate::text::string_of_range;
use crate::tree::{trees_of, ParseNode, Rule, Tree};
use vstd::prelude::*;
use vstd::string::*;

verus! {

/// A parsing expression.
#[derive(Debug)]
pub enum Peg {
    /// The given text.
    Lit(&'static str),
    /// One character between the two given, both included.
    Range(char, char),
    /// Any one character.
    Any,
    /// The first expression, then the second.
    Then(Box<Peg>, Box<Peg>),
    /// The first expression or, where it does not match, the second.
    Or(Box<Peg>, Box<Peg>),
    /// The expression as often as it matches and moves on.
    Many(Box<Peg>),
    /// The expression, or nothing.
    Maybe(Box<Peg>),
    /// Nothing, and only where the expression does not match.
    Not(Box<Peg>),
    /// The body of a rule; the match becomes a node where the rule yields
    /// one.
    Call(Rule),
}

/// What an expression does at a position.
pub ghost struct Outcome {
    /// Whether it matches.
    pub ok: bool,
    /// Where the match ends; the position itself where there is none.
    pub end: int,
    /// The furthest position at which a character or a text was tried.
    pub far: int,
    /// The nodes that the match yields.
    pub nodes: Seq<Tree>,
}

/// No match at `pos`, having looked as far as `far`.
pub open spec fn fail(pos: int, far: int) -> Outcome {
    Outcome { ok: false, end: pos, far, nodes: Seq::empty() }
}

/// The greater of two positions.
pub open spec fn later(a: int, b: int) -> int {
    if a >= b {
        a
    } else {
        b
    }
}

/// What the expression `e` does at position `pos` of the text `s`, with
/// rules nested at most `depth` deep.
pub open spec fn eval(e: Peg, s: Seq<char>, pos: int, depth: nat) -> Outcome
    decreases depth, e, s.len() - pos,
{
    match e {
        Peg::Lit(t) => {
            if 0 <= pos && pos + t@.len() <= s.len() && s.subrange(pos, pos + t@.len()) == t@ {
                Outcome { ok: true, end: pos + t@.len(), far: pos, nodes: Seq::empty() }
            } else {
                fail(pos, pos)
            }
        },
        Peg::Range(low, high) => {
            if 0 <= pos < s.len() && low as u32 <= s[pos] as u32 <= high as u32 {
                Outcome { ok: true, end: pos + 1, far: pos, nodes: Seq::empty() }
            } else {
                fail(pos, pos)
            }
        },
        Peg::Any => {
            if 0 <= pos < s.len() {
                Outcome { ok: true, end: pos + 1, far: pos, nodes: Seq::empty() }
            } else {
                fail(pos, pos)
            }
        },
        Peg::Then(a, b) => {
            let first = eval(*a, s, pos, depth);
            if first.ok {
                let second = eval(*b, s, first.end, depth);
                if second.ok {
                    Outcome {
                        ok: true,
                        end: second.end,
                        far: later(first.far, second.far),
                        nodes: first.nodes + second.nodes,
                    }
                } else {
                    fail(pos, later(first.far, second.far))
                }
            } else {
                fail(pos, first.far)
            }
        },
        Peg::Or(a, b) => {
            let first = eval(*a, s, pos, depth);
            if first.ok {
                first
            } else {
                let second = eval(*b, s, pos, depth);
                Outcome {
                    ok: second.ok,
                    end: second.end,
                    far: later(first.far, second.far),
                    nodes: second.nodes,
                }
            }
        },
        Peg::Many(a) => {
            let first = eval(*a, s, pos, depth);
            if first.ok && pos < first.end <= s.len() {
                let rest = eval(e, s, first.end, depth);
                Outcome {
                    ok: true,
                    end: rest.end,
                    far: later(first.far, rest.far),
                    nodes: first.nodes + rest.nodes,
                }
            } else {
                Outcome { ok: true, end: pos, far: first.far, nodes: Seq::empty() }
            }
        },
        Peg::Maybe(a) => {
            let first = eval(*a, s, pos, depth);
            if first.ok {
                first
            } else {
                Outcome { ok: true, end: pos, far: first.far, nodes: Seq::empty() }
            }
        },
        Peg::Not(a) => {
            let first = eval(*a, s, pos, depth);
            if first.ok {
                fail(pos, pos)
            } else {
                Outcome { ok: true, end: pos, far: pos, nodes: Seq::empty() }
            }
        },
        Peg::Call(rule) => {
            if depth == 0 {
                fail(pos, pos)
            } else {
                let inner = eval(rule_body(rule), s, pos, (depth - 1) as nat);
                if !inner.ok {
                    fail(pos, inner.far)
                } else if emits_node(rule) {
                    Outcome {
                        ok: true,
                        end: inner.end,
                        far: inner.far,
                        nodes: seq![
                            Tree { rule, text: s.subrange(pos, inner.end), children: inner.nodes },
                        ],
                    }
                } else {
                    inner
                }
            }
        },
    }
}

/// What `run` returns: an `Outcome`, computed.
#[derive(Debug)]
pub struct Matched {
    pub ok: bool,
    pub end: usize,
    pub far: usize,
    pub nodes: Vec<ParseNode>,
}

impl Matched {
    /// The model of the value.
    pub open spec fn view(&self) -> Outcome {
        Outcome {
            ok: self.ok,
            end: self.end as int,
            far: self.far as int,
            nodes: trees_of(self.nodes@),
        }
    }
}

fn no_match(pos: usize, far: usize) -> (r: Matched)
    ensures
        r@ == fail(pos as int, far as int),
{
    let r = Matched { ok: false, end: pos, far, nodes: Vec::new() };
    assert(trees_of(r.nodes@) =~= Seq::<Tree>::empty());
    r
}

fn empty_match(pos: usize, end: usize, far: usize) -> (r: Matched)
    ensures
        r@ == (Outcome { ok: true, end: end as int, far: far as int, nodes: Seq::empty() }),
{
    let r = Matched { ok: true, end, far, nodes: Vec::new() };
    assert(trees_of(r.nodes@) =~= Seq::<Tree>::empty());
    r
}

fn later_of(a: usize, b: usize) -> (r: usize)
    ensures
        r == later(a as int, b as int),
{
    if a >= b {
        a
    } else {
        b
    }
}

/// Whether the text `t` stands in `input` at `pos`.
fn literal_at(input: &Vec<char>, pos: usize, t: &str) -> (r: Option<usize>)
    requires
        pos <= input.len(),
    ensures
        r is Some <==> pos + t@.len() <= input.len() && input@.subrange(
            pos as int,
            pos + t@.len(),
        ) == t@,
        r matches Some(end) ==> end == pos + t@.len(),
{
    let m = t.unicode_len();
    if m > input.len() - pos {
        return None;
    }
    let mut k: usize = 0;
    while k < m
        invariant
            k <= m,
            m == t@.len(),
            pos + m <= input.len(),
            input@.subrange(pos as int, pos + k) == t@.take(k as int),
        decreases m - k,
    {
        if input[pos + k] != t.get_char(k) {
            assert(input@.subrange(pos as int, pos + m)[k as int] != t@[k as int]);
            return None;
        }
        assert(input@.subrange(pos as int, pos + k + 1) =~= input@.subrange(
            pos as int,
            pos + k,
        ).push(input@[pos + k]));
        assert(t@.take(k + 1) =~= t@.take(k as int).push(t@[k as int]));
        k += 1;
    }
    assert(t@.take(m as int) =~= t@);
    Some(pos + m)
}

/// Appending vectors of nodes appends their models.
proof fn lemma_trees_append(a: Seq<ParseNode>, b: Seq<ParseNode>)
    ensures
        trees_of(a + b) == trees_of(a) + trees_of(b),
{
    assert(trees_of(a + b) =~= trees_of(a) + trees_of(b));
}

/// Matches the expression `e` at position `pos` of `input`, with rules
/// nested at most `depth` deep.
pub fn run(e: &Peg, input: &Vec<char>, pos: usize, depth: usize) -> (r: Matched)
    requires
        pos <= input.len(),
    ensures
        r@ == eval(*e, input@, pos as int, depth as nat),
        pos <= r.end <= input.len(),
        pos <= r.far <= input.len(),
    decreases depth, *e, 1nat,
{
    match e {
        Peg::Lit(t) => {
            match literal_at(input, pos, t) {
                Some(end) => empty_match(pos, end, pos),
                None => no_match(pos, pos),
            }
        },
        Peg::Range(low, high) => {
            if pos < input.len() && *low as u32 <= input[pos] as u32 && input[pos] as u32
                <= *high as u32 {
                empty_match(pos, pos + 1, pos)
            } else {
                no_match(pos, pos)
            }
        },
        Peg::Any => {
            if pos < input.len() {
                empty_match(pos, pos + 1, pos)
            } else {
                no_match(pos, pos)
            }
        },
        Peg::Then(a, b) => {
            let first = run(a, input, pos, depth);
            if first.ok {
                let second = run(b, input, first.end, depth);
                if second.ok {
                    let mut nodes = first.nodes;
                    let mut more = second.nodes;
                    proof {
                        lemma_trees_append(nodes@, more@);
                    }
                    nodes.append(&mut more);
                    Matched {
                        ok: true,
                        end: second.end,
                        far: later_of(first.far, second.far),
                        nodes,
                    }
                } else {
                    no_match(pos, later_of(first.far, second.far))
                }
            } else {
                no_match(pos, first.far)
            }
        },
        Peg::Or(a, b) => {
            let first = run(a, input, pos, depth);
            if first.ok {
                first
            } else {
                let second = run(b, input, pos, depth);
                Matched {
                    ok: second.ok,
                    end: second.end,
                    far: later_of(first.far, second.far),
                    nodes: second.nodes,
                }
            }
        },
        Peg::Many(a) => run_many(e, a, input, pos, depth),
        Peg::Maybe(a) => {
            let first = run(a, input, pos, depth);
            if first.ok {
                first
            } else {
                empty_match(pos, pos, first.far)
            }
        },
        Peg::Not(a) => {
            let first = run(a, input, pos, depth);
            if first.ok {
                no_match(pos, pos)
            } else {
                empty_match(pos, pos, pos)
            }
        },
        Peg::Call(rule) => {
            if depth == 0 {
                no_match(pos, pos)
            } else {
                let body = rule_body_of(*rule);
                let inner = run(&body, input, pos, depth - 1);
                if !inner.ok {
                    no_match(pos, inner.far)
                } else if yields_node(*rule) {
                    let node = ParseNode {
                        rule: *rule,
                        text: string_of_range(input, pos, inner.end),
                        children: inner.nodes,
                    };
                    proof {
                        crate::tree::lemma_children_view(node);
                    }
                    let mut nodes: Vec<ParseNode> = Vec::new();
                    nodes.push(node);
                    assert(trees_of(nodes@) =~= seq![node@]);
                    Matched { ok: true, end: inner.end, far: inner.far, nodes }
                } else {
                    inner
                }
            }
        },
    }
}

/// Matches `item` as often as it matches and moves on; `e` is the
/// repetition of `item`.
fn run_many(e: &Peg, item: &Box<Peg>, input: &Vec<char>, pos: usize, depth: usize) -> (r: Matched)
    requires
        pos <= input.len(),
        *e == Peg::Many(*item),
    ensures
        r@ == eval(*e, input@, pos as int, depth as nat),
        pos <= r.end <= input.len(),
        pos <= r.far <= input.len(),
    decreases depth, *e, 0nat,
{
    let ghost whole = eval(*e, input@, pos as int, depth as nat);
    let mut nodes: Vec<ParseNode> = Vec::new();
    let mut at: usize = pos;
    let mut far: usize = pos;
    let mut seen = false;
    assert(trees_of(nodes@) =~= Seq::<Tree>::empty());
    loop
        invariant
            pos <= at <= input.len(),
            pos <= far <= input.len(),
            *e == Peg::Many(*item),
            whole == eval(*e, input@, pos as int, depth as nat),
            whole.ok,
            whole.end == eval(*e, input@, at as int, depth as nat).end,
            whole.nodes == trees_of(nodes@) + eval(*e, input@, at as int, depth as nat).nodes,
            seen ==> whole.far == later(far as int, eval(*e, input@, at as int, depth as nat).far),
            !seen ==> at == pos && whole.far == eval(*e, input@, at as int, depth as nat).far,
        ensures
            pos <= at <= input.len(),
            pos <= far <= input.len(),
            whole.ok,
            whole.end == at,
            whole.nodes == trees_of(nodes@),
            whole.far == far,
        decreases input.len() - at,
    {
        let ghost here = eval(*e, input@, at as int, depth as nat);
        let first = run(item, input, at, depth);
        if first.ok && first.end > at {
            let ghost rest = eval(*e, input@, first.end as int, depth as nat);
            let mut more = first.nodes;
            proof {
                lemma_trees_append(nodes@, more@);
                assert(here.nodes == trees_of(more@) + rest.nodes);
                assert(trees_of(nodes@) + (trees_of(more@) + rest.nodes) =~= (trees_of(nodes@)
                    + trees_of(more@)) + rest.nodes);
            }
            nodes.append(&mut more);
            far = if seen {
                later_of(far, first.far)
            } else {
                first.far
            };
            seen = true;
            at = first.end;
        } else {
            proof {
                assert(here.nodes =~= Seq::<Tree>::empty());
                assert(trees_of(nodes@) + here.nodes =~= trees_of(nodes@));
            }
            far = if seen {
                later_of(far, first.far)
            } else {
                first.far
            };
            break ;
        }
    }
    Matched { ok: true, end: at, far, nodes }
}

/// A match ends between the position where it starts and the end of the
/// text, and nothing is tried outside that range. Where there is no
/// match, the outcome stays at the position and yields no node.
pub proof fn lemma_eval_bounds(e: Peg, s: Seq<char>, pos: int, depth: nat)
    requires
        0 <= pos <= s.len(),
    ensures
        pos <= eval(e, s, pos, depth).end <= s.len(),
        pos <= eval(e, s, pos, depth).far <= s.len(),
        !eval(e, s, pos, depth).ok ==> eval(e, s, pos, depth).end == pos && eval(
            e,
            s,
            pos,
            depth,
        ).nodes.len() == 0,
    decreases depth, e, s.len() - pos,
{
    match e {
        Peg::Lit(t) => {},
        Peg::Range(low, high) => {},
        Peg::Any => {},
        Peg::Then(a, b) => {
            lemma_eval_bounds(*a, s, pos, depth);
            let first = eval(*a, s, pos, depth);
            if first.ok {
                lemma_eval_bounds(*b, s, first.end, depth);
            }
        },
        Peg::Or(a, b) => {
            lemma_eval_bounds(*a, s, pos, depth);
            if !eval(*a, s, pos, depth).ok {
                lemma_eval_bounds(*b, s, pos, depth);
            }
        },
        Peg::Many(a) => {
            lemma_eval_bounds(*a, s, pos, depth);
            let first = eval(*a, s, pos, depth);
            if first.ok && pos < first.end <= s.len() {
                lemma_eval_bounds(e, s, first.end, depth);
            }
        },
        Peg::Maybe(a) => {
            lemma_eval_bounds(*a, s, pos, depth);
        },
        Peg::Not(a) => {
            lemma_eval_bounds(*a, s, pos, depth);
        },
        Peg::Call(rule) => {
            if depth > 0 {
                lemma_eval_bounds(rule_body(rule), s, pos, (depth - 1) as nat);
            }
        },
    }
}

} // verus!
