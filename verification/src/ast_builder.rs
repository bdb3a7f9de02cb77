//! Lowering of the parse tree into the syntax tree.
//!
//! Each `lower_*` function says, over the models, what a parse tree node
//! lowers to; each `build_*` function computes it. Lowering is total: a
//! tree of an unexpected shape takes the defaults (an empty name, the
//! integer literal `0`, an empty body).
use crate::ast::{
    Arg, AssignOp, Assignment, BinaryOp, ComponentDef, EmitStmt, EntityDef, Expr, FnDef, ForStmt,
    IfStmt, LValue, Param, Program, SignalDef, StateDef, StateMachine, Statement, TypeExpr,
    UnaryOp, VarDecl, WhileStmt,
};
use crate::model::{
    args_view, components_view, distinct_keys, elifs_view, entries_view, exprs_view, fns_view,
    signals_view, statements_view, states_view, var_decls_view, ArgView, AssignmentView, ComponentView,
    EmitView,
    EntityView, ExprView, FnView, ForView, IfView, ParamView, ProgramView, SignalView,
    StateMachineView, StateView, StatementView, TypeView, VarDeclView, WhileView,
};
use crate::text::str_eq;
use crate::tree::{trees_of, lemma_children_view, ParseNode, Rule, Tree};
use vstd::prelude::*;
use vstd::string::*;

verus! {

/// The text of the child at `i`, empty when there is no such child.
pub open spec fn child_text(c: Seq<Tree>, i: int) -> Seq<char> {
    if 0 <= i < c.len() {
        c[i].text
    } else {
        Seq::empty()
    }
}

/// The binary operator that an operator's text stands for; `Add` for any
/// other text.
pub open spec fn binary_op_of(s: Seq<char>) -> BinaryOp {
    if s == "+"@ {
        BinaryOp::Add
    } else if s == "-"@ {
        BinaryOp::Sub
    } else if s == "*"@ {
        BinaryOp::Mul
    } else if s == "/"@ {
        BinaryOp::Div
    } else if s == "%"@ {
        BinaryOp::Mod
    } else if s == "=="@ {
        BinaryOp::Eq
    } else if s == "!="@ {
        BinaryOp::Ne
    } else if s == "<"@ {
        BinaryOp::Lt
    } else if s == "<="@ {
        BinaryOp::Le
    } else if s == ">"@ {
        BinaryOp::Gt
    } else if s == ">="@ {
        BinaryOp::Ge
    } else if s == "and"@ {
        BinaryOp::And
    } else if s == "or"@ {
        BinaryOp::Or
    } else {
        BinaryOp::Add
    }
}

/// Maps the text of a binary operator to the operator.
pub fn parse_binary_op(s: &str) -> (op: BinaryOp)
    ensures
        op == binary_op_of(s@),
{
    if str_eq(s, "+") {
        BinaryOp::Add
    } else if str_eq(s, "-") {
        BinaryOp::Sub
    } else if str_eq(s, "*") {
        BinaryOp::Mul
    } else if str_eq(s, "/") {
        BinaryOp::Div
    } else if str_eq(s, "%") {
        BinaryOp::Mod
    } else if str_eq(s, "==") {
        BinaryOp::Eq
    } else if str_eq(s, "!=") {
        BinaryOp::Ne
    } else if str_eq(s, "<") {
        BinaryOp::Lt
    } else if str_eq(s, "<=") {
        BinaryOp::Le
    } else if str_eq(s, ">") {
        BinaryOp::Gt
    } else if str_eq(s, ">=") {
        BinaryOp::Ge
    } else if str_eq(s, "and") {
        BinaryOp::And
    } else if str_eq(s, "or") {
        BinaryOp::Or
    } else {
        BinaryOp::Add
    }
}

/// Whether `c` is a decimal digit.
pub open spec fn is_digit(c: char) -> bool {
    '0' <= c <= '9'
}

/// The number that a sequence of decimal digits denotes.
pub open spec fn digits_value(s: Seq<char>) -> int
    decreases s.len(),
{
    if s.len() == 0 {
        0
    } else {
        digits_value(s.drop_last()) * 10 + (s.last() as int - '0' as int)
    }
}

/// Whether `s` is one or more decimal digits.
pub open spec fn is_numeral(s: Seq<char>) -> bool {
    s.len() > 0 && forall|i: int| 0 <= i < s.len() ==> is_digit(#[trigger] s[i])
}

/// The value of an integer literal: the number that its text denotes (an
/// optional sign, then digits) where that is a 64-bit signed integer, and
/// `0` for every other text.
pub open spec fn int_literal_value(s: Seq<char>) -> int {
    if s.len() > 0 && s[0] == '-' {
        if is_numeral(s.skip(1)) && -digits_value(s.skip(1)) >= i64::MIN {
            -digits_value(s.skip(1))
        } else {
            0
        }
    } else if s.len() > 0 && s[0] == '+' {
        if is_numeral(s.skip(1)) && digits_value(s.skip(1)) <= i64::MAX {
            digits_value(s.skip(1))
        } else {
            0
        }
    } else if is_numeral(s) && digits_value(s) <= i64::MAX {
        digits_value(s)
    } else {
        0
    }
}

/// The text without the double quotes at its start and at its end.
pub open spec fn trim_quotes(s: Seq<char>) -> Seq<char>
    decreases s.len(),
{
    if s.len() > 0 && s[0] == '"' {
        trim_quotes(s.skip(1))
    } else if s.len() > 0 && s.last() == '"' {
        trim_quotes(s.drop_last())
    } else {
        s
    }
}

/// The text between the first and the last character, empty when the text
/// has fewer than two characters.
pub open spec fn unquoted(s: Seq<char>) -> Seq<char> {
    if s.len() >= 2 {
        s.subrange(1, s.len() - 1)
    } else {
        Seq::empty()
    }
}

/// Whether a rule is one of the precedence tiers that fold their children
/// as operands and binary operators.
pub open spec fn is_tier(rule: Rule) -> bool {
    rule == Rule::Expression || rule == Rule::OrExpr || rule == Rule::AndExpr || rule
        == Rule::NotExpr || rule == Rule::Comparison || rule == Rule::AddExpr || rule
        == Rule::MulExpr || rule == Rule::UnaryExpr
}

/// What an expression node lowers to.
///
/// A precedence tier with one child is that child; with three or more
/// children it is the left-associative fold of operands and operators; with
/// two children, the first being `-` or `not`, it is a unary operation. A
/// postfix node applies its suffixes (calls, member accesses, indexings) to
/// its first child, from left to right.
pub open spec fn lower_expr(t: Tree) -> ExprView
    decreases t, 0nat,
{
    let c = t.children;
    if is_tier(t.rule) {
        if c.len() == 1 {
            lower_expr(c[0])
        } else if c.len() >= 3 {
            fold_binary(c, ((c.len() - 1) / 2) as nat)
        } else if c.len() == 2 && c[0].text == "-"@ {
            ExprView::UnaryOp(UnaryOp::Neg, Box::new(lower_expr(c[1])))
        } else if c.len() == 2 && c[0].text == "not"@ {
            ExprView::UnaryOp(UnaryOp::Not, Box::new(lower_expr(c[1])))
        } else {
            ExprView::Int(0)
        }
    } else {
        match t.rule {
            Rule::PostfixExpr => if c.len() == 0 {
                ExprView::Int(0)
            } else {
                fold_postfix(c, (c.len() - 1) as nat)
            },
            Rule::IntLiteral => ExprView::Int(int_literal_value(t.text)),
            Rule::FloatLiteral => ExprView::Float(t.text),
            Rule::StringLiteral => ExprView::String(unquoted(t.text)),
            Rule::BoolLiteral => ExprView::Bool(t.text == "true"@),
            Rule::Vec2Literal => ExprView::Vec2(
                Box::new(lower_expr_at(c, 0)),
                Box::new(lower_expr_at(c, 1)),
            ),
            Rule::Vec3Literal => ExprView::Vec3(
                Box::new(lower_expr_at(c, 0)),
                Box::new(lower_expr_at(c, 1)),
                Box::new(lower_expr_at(c, 2)),
            ),
            Rule::ListLiteral => ExprView::List(lower_exprs(c, c.len())),
            Rule::MapLiteral => ExprView::MapLit(lower_entries(c)),
            Rule::Identifier => ExprView::Identifier(t.text),
            Rule::Call => ExprView::Call {
                callee: Box::new(ExprView::Identifier("_call"@)),
                args: lower_args(c),
            },
            _ => lower_expr_at(c, 0),
        }
    }
}

/// What the child at `i` lowers to; the integer literal `0` when there is
/// no such child.
pub open spec fn lower_expr_at(c: Seq<Tree>, i: int) -> ExprView
    decreases c, 0nat,
{
    if 0 <= i < c.len() {
        lower_expr(c[i])
    } else {
        ExprView::Int(0)
    }
}

/// What the first `n` children lower to, one expression each.
pub open spec fn lower_exprs(c: Seq<Tree>, n: nat) -> Seq<ExprView>
    decreases c, n,
{
    if n == 0 || n > c.len() {
        Seq::empty()
    } else {
        lower_exprs(c, (n - 1) as nat).push(lower_expr(c[n - 1]))
    }
}

/// The left-associative fold of the operands at `0, 2, .., 2k` with the
/// operators at `1, 3, .., 2k - 1`.
pub open spec fn fold_binary(c: Seq<Tree>, k: nat) -> ExprView
    decreases c, k,
{
    if 2 * k >= c.len() {
        ExprView::Int(0)
    } else if k == 0 {
        lower_expr(c[0])
    } else {
        ExprView::BinaryOp(
            Box::new(fold_binary(c, (k - 1) as nat)),
            binary_op_of(c[2 * k - 1].text),
            Box::new(lower_expr(c[2 * k as int])),
        )
    }
}

/// The first child with the suffixes at `1, .., k` applied to it in turn: a
/// call takes it as callee, a member access and an indexing as base.
pub open spec fn fold_postfix(c: Seq<Tree>, k: nat) -> ExprView
    decreases c, k,
{
    if k >= c.len() {
        ExprView::Int(0)
    } else if k == 0 {
        lower_expr(c[0])
    } else {
        let base = fold_postfix(c, (k - 1) as nat);
        let suffix = c[k as int];
        match suffix.rule {
            Rule::Call => ExprView::Call {
                callee: Box::new(base),
                args: lower_args(suffix.children),
            },
            Rule::MemberAccess => ExprView::MemberAccess(
                Box::new(base),
                child_text(suffix.children, 0),
            ),
            Rule::IndexAccess => ExprView::Index(
                Box::new(base),
                Box::new(lower_expr_at(suffix.children, 0)),
            ),
            _ => base,
        }
    }
}

/// The entries of a map literal: one for each child that is a map entry,
/// its key without the quotes.
pub open spec fn lower_entries(c: Seq<Tree>) -> Seq<(Seq<char>, ExprView)>
    decreases c, 0nat,
{
    if c.len() == 0 {
        Seq::empty()
    } else {
        let rest = lower_entries(c.drop_last());
        let item = c.last();
        if item.rule == Rule::MapEntry {
            rest.push(
                (trim_quotes(child_text(item.children, 0)), lower_expr_at(item.children, 1)),
            )
        } else {
            rest
        }
    }
}

/// The arguments of a call: those of every argument list among the
/// children, in order.
pub open spec fn lower_args(c: Seq<Tree>) -> Seq<ArgView>
    decreases c, 0nat,
{
    if c.len() == 0 {
        Seq::empty()
    } else {
        let rest = lower_args(c.drop_last());
        let item = c.last();
        if item.rule == Rule::ArgList {
            rest + lower_arg_list(item.children)
        } else {
            rest
        }
    }
}

/// The arguments of one argument list: one for each child that is an
/// argument.
pub open spec fn lower_arg_list(c: Seq<Tree>) -> Seq<ArgView>
    decreases c, 0nat,
{
    if c.len() == 0 {
        Seq::empty()
    } else {
        let rest = lower_arg_list(c.drop_last());
        let item = c.last();
        if item.rule == Rule::Arg {
            rest.push(lower_arg(item.children))
        } else {
            rest
        }
    }
}

/// One argument: named when it has exactly two children (the name, then
/// the value), positional otherwise.
pub open spec fn lower_arg(c: Seq<Tree>) -> ArgView
    decreases c, 1nat,
{
    if c.len() == 2 {
        ArgView { name: Some(c[0].text), value: lower_expr(c[1]) }
    } else {
        ArgView { name: None, value: lower_expr_at(c, 0) }
    }
}

} // verus!

verus! {

/// Every numeral denotes a number that is not negative, and no less than
/// what any of its prefixes denotes.
proof fn lemma_digits_monotone(s: Seq<char>, i: int)
    requires
        forall|j: int| 0 <= j < s.len() ==> is_digit(#[trigger] s[j]),
        0 <= i <= s.len(),
    ensures
        0 <= digits_value(s.take(i)) <= digits_value(s),
    decreases s.len(),
{
    if s.len() == 0 {
        assert(s.take(i) =~= s);
    } else if i == s.len() {
        assert(s.take(i) =~= s);
        lemma_digits_monotone(s.drop_last(), i - 1);
        assert(s.drop_last().take(i - 1) =~= s.drop_last().take(i - 1));
        lemma_digits_monotone(s.drop_last(), 0);
        assert(is_digit(s[s.len() - 1]));
    } else {
        lemma_digits_monotone(s.drop_last(), i);
        assert(s.drop_last().take(i) =~= s.take(i));
        assert(is_digit(s[s.len() - 1]));
    }
}

/// The value of an integer literal's text, `0` where the text is no
/// numeral or the number does not fit.
#[verifier::loop_isolation(false)]
pub fn parse_int_literal(s: &str) -> (n: i64)
    ensures
        n == int_literal_value(s@),
{
    let v = crate::text::chars_of(s);
    if v.len() == 0 {
        return 0;
    }
    let negative = v[0] == '-';
    let start: usize = if negative || v[0] == '+' {
        1
    } else {
        0
    };
    let ghost body = v@.skip(start as int);
    assert(v@.skip(0) =~= v@);
    if start == v.len() {
        return 0;
    }
    let limit: u64 = if negative {
        9223372036854775808
    } else {
        9223372036854775807
    };
    let mut acc: u64 = 0;
    let mut i: usize = start;
    assert(body.take(0) =~= Seq::<char>::empty());
    while i < v.len()
        invariant
            start <= i <= v.len(),
            body == v@.skip(start as int),
            forall|j: int| 0 <= j < i - start ==> is_digit(#[trigger] body[j]),
            acc == digits_value(body.take(i - start)),
            acc <= limit,
        decreases v.len() - i,
    {
        let c = v[i];
        assert(body[i - start] == c);
        if !(c >= '0' && c <= '9') {
            assert(!is_numeral(body));
            return 0;
        }
        let d: u64 = (c as u32 - 48) as u64;
        assert(d < 10);
        proof {
            assert(body.take(i - start + 1).drop_last() =~= body.take(i - start));
            assert(body.take(i - start + 1).last() == c);
            assert(digits_value(body.take(i - start + 1)) == acc * 10 + d);
        }
        if acc > (limit - d) / 10 {
            proof {
                if is_numeral(body) {
                    lemma_digits_monotone(body, i - start + 1);
                }
            }
            return 0;
        }
        acc = acc * 10 + d;
        i += 1;
    }
    assert(body.take(i - start) =~= body);
    if negative {
        if acc == 9223372036854775808 {
            i64::MIN
        } else {
            -(acc as i64)
        }
    } else {
        acc as i64
    }
}

/// The characters of `s` without the double quotes at its start and end.
pub fn strip_quotes(s: &str) -> (r: String)
    ensures
        r@ == trim_quotes(s@),
{
    let v = crate::text::chars_of(s);
    let mut from: usize = 0;
    let mut to: usize = v.len();
    assert(v@.subrange(0, v.len() as int) =~= v@);
    while from < to && v[from] == '"'
        invariant
            from <= to == v.len(),
            trim_quotes(v@) == trim_quotes(v@.subrange(from as int, to as int)),
        decreases to - from,
    {
        assert(v@.subrange(from as int, to as int).skip(1) =~= v@.subrange(from + 1, to as int));
        from += 1;
    }
    while from < to && v[to - 1] == '"'
        invariant
            from <= to <= v.len(),
            from < to ==> v@[from as int] != '"',
            trim_quotes(v@) == trim_quotes(v@.subrange(from as int, to as int)),
        decreases to - from,
    {
        assert(v@.subrange(from as int, to as int).drop_last() =~= v@.subrange(
            from as int,
            to - 1,
        ));
        to -= 1;
    }
    crate::text::string_of_range(&v, from, to)
}

/// The characters of `s` between its first and its last.
pub fn strip_ends(s: &str) -> (r: String)
    ensures
        r@ == unquoted(s@),
{
    let v = crate::text::chars_of(s);
    if v.len() >= 2 {
        crate::text::string_of_range(&v, 1, v.len() - 1)
    } else {
        String::new()
    }
}

fn is_tier_rule(rule: Rule) -> (r: bool)
    ensures
        r == is_tier(rule),
{
    rule == Rule::Expression || rule == Rule::OrExpr || rule == Rule::AndExpr || rule
        == Rule::NotExpr || rule == Rule::Comparison || rule == Rule::AddExpr || rule
        == Rule::MulExpr || rule == Rule::UnaryExpr
}

/// The child at `i` as an expression, the integer literal `0` when there
/// is no such child.
fn build_expression_at(children: &Vec<ParseNode>, i: usize) -> (e: Expr)
    ensures
        e@ == lower_expr_at(trees_of(children@), i as int),
    decreases children, 0nat,
{
    if i < children.len() {
        build_expression(&children[i])
    } else {
        Expr::Int(0)
    }
}

/// The text of the child at `i`, empty when there is no such child.
pub fn child_string(children: &Vec<ParseNode>, i: usize) -> (s: String)
    ensures
        s@ == child_text(trees_of(children@), i as int),
{
    if i < children.len() {
        children[i].text.clone()
    } else {
        String::new()
    }
}

/// Builds the expression that a parse tree node stands for.
pub fn build_expression(pair: &ParseNode) -> (e: Expr)
    ensures
        e@ == lower_expr(pair@),
    decreases pair, 1nat,
{
    proof {
        lemma_children_view(*pair);
    }
    let ghost c = pair@.children;
    let n = pair.children.len();
    if is_tier_rule(pair.rule) {
        if n == 1 {
            build_expression(&pair.children[0])
        } else if n >= 3 {
            let left = build_expression(&pair.children[0]);
            let op = parse_binary_op(pair.children[1].text.as_str());
            let right = build_expression(&pair.children[2]);
            let mut result = Expr::BinaryOp(Box::new(left), op, Box::new(right));
            let mut k: usize = 1;
            assert(fold_binary(c, 1) == result@) by {
                reveal_with_fuel(fold_binary, 2);
            }
            while n - 2 * k > 2
                invariant
                    1 <= k,
                    2 * k < n,
                    n == pair.children.len(),
                    c == trees_of(pair.children@),
                    result@ == fold_binary(c, k as nat),
                decreases n - 2 * k,
            {
                let next_op = parse_binary_op(pair.children[2 * k + 1].text.as_str());
                let next_right = build_expression(&pair.children[2 * k + 2]);
                result = Expr::BinaryOp(Box::new(result), next_op, Box::new(next_right));
                k += 1;
            }
            assert(k == (n - 1) / 2);
            result
        } else if n == 2 && str_eq(pair.children[0].text.as_str(), "-") {
            Expr::UnaryOp(UnaryOp::Neg, Box::new(build_expression(&pair.children[1])))
        } else if n == 2 && str_eq(pair.children[0].text.as_str(), "not") {
            Expr::UnaryOp(UnaryOp::Not, Box::new(build_expression(&pair.children[1])))
        } else {
            Expr::Int(0)
        }
    } else {
        match pair.rule {
            Rule::PostfixExpr => {
                if n == 0 {
                    return Expr::Int(0);
                }
                let mut result = build_expression(&pair.children[0]);
                let mut k: usize = 0;
                while k + 1 < n
                    invariant
                        k < n,
                        n == pair.children.len(),
                        c == trees_of(pair.children@),
                        result@ == fold_postfix(c, k as nat),
                    decreases n - k,
                {
                    k += 1;
                    let suffix = &pair.children[k];
                    proof {
                        lemma_children_view(*suffix);
                    }
                    match suffix.rule {
                        Rule::Call => {
                            let args = build_call_args(&suffix.children);
                            let callee = Box::new(result);
                            proof {
                                crate::model::lemma_call_view(callee, args);
                            }
                            result = Expr::Call { callee, args };
                        },
                        Rule::MemberAccess => {
                            let field = child_string(&suffix.children, 0);
                            result = Expr::MemberAccess(Box::new(result), field);
                        },
                        Rule::IndexAccess => {
                            let index = build_expression_at(&suffix.children, 0);
                            result = Expr::Index(Box::new(result), Box::new(index));
                        },
                        _ => {},
                    }
                }
                result
            },
            Rule::IntLiteral => Expr::Int(parse_int_literal(pair.text.as_str())),
            Rule::FloatLiteral => Expr::Float(pair.text.clone()),
            Rule::StringLiteral => Expr::String(strip_ends(pair.text.as_str())),
            Rule::BoolLiteral => Expr::Bool(str_eq(pair.text.as_str(), "true")),
            Rule::Vec2Literal => {
                let x = build_expression_at(&pair.children, 0);
                let y = build_expression_at(&pair.children, 1);
                Expr::Vec2(Box::new(x), Box::new(y))
            },
            Rule::Vec3Literal => {
                let x = build_expression_at(&pair.children, 0);
                let y = build_expression_at(&pair.children, 1);
                let z = build_expression_at(&pair.children, 2);
                Expr::Vec3(Box::new(x), Box::new(y), Box::new(z))
            },
            Rule::ListLiteral => {
                let mut items: Vec<Expr> = Vec::new();
                let mut i: usize = 0;
                assert(exprs_view(items@) =~= lower_exprs(c, 0));
                while i < n
                    invariant
                        i <= n,
                        n == pair.children.len(),
                        c == trees_of(pair.children@),
                        exprs_view(items@) == lower_exprs(c, i as nat),
                    decreases n - i,
                {
                    let item = build_expression(&pair.children[i]);
                    proof {
                        crate::model::lemma_exprs_push(items@, item);
                    }
                    items.push(item);
                    i += 1;
                }
                proof {
                    crate::model::lemma_list_view(items);
                }
                Expr::List(items)
            },
            Rule::MapLiteral => {
                let mut entries: Vec<(String, Expr)> = Vec::new();
                let mut i: usize = 0;
                assert(c.take(0) =~= Seq::<Tree>::empty());
                assert(entries_view(entries@) =~= lower_entries(c.take(0)));
                while i < n
                    invariant
                        i <= n,
                        n == pair.children.len(),
                        c == trees_of(pair.children@),
                        entries_view(entries@) == lower_entries(c.take(i as int)),
                    decreases n - i,
                {
                    let entry = &pair.children[i];
                    proof {
                        lemma_children_view(*entry);
                        assert(c.take(i + 1).drop_last() =~= c.take(i as int));
                        assert(c.take(i + 1).last() == entry@);
                    }
                    if entry.rule == Rule::MapEntry {
                        let raw = child_string(&entry.children, 0);
                        let key = strip_quotes(raw.as_str());
                        let value = build_expression_at(&entry.children, 1);
                        proof {
                            crate::model::lemma_entries_push(entries@, (key, value));
                        }
                        entries.push((key, value));
                    }
                    i += 1;
                }
                assert(c.take(n as int) =~= c);
                proof {
                    crate::model::lemma_map_view(entries);
                }
                Expr::MapLit(entries)
            },
            Rule::Identifier => Expr::Identifier(pair.text.clone()),
            Rule::Call => {
                let args = build_call_args(&pair.children);
                let callee = Box::new(Expr::Identifier(String::from_str("_call")));
                proof {
                    crate::model::lemma_call_view(callee, args);
                }
                Expr::Call { callee, args }
            },
            _ => build_expression_at(&pair.children, 0),
        }
    }
}

/// The arguments of a call, from the children of its node.
#[verifier::loop_isolation(false)]
fn build_call_args(children: &Vec<ParseNode>) -> (args: Vec<Arg>)
    ensures
        args_view(args@) == lower_args(trees_of(children@)),
    decreases children, 0nat,
{
    let ghost c = trees_of(children@);
    let mut args: Vec<Arg> = Vec::new();
    let mut i: usize = 0;
    assert(c.take(0) =~= Seq::<Tree>::empty());
    assert(args_view(args@) =~= lower_args(c.take(0)));
    while i < children.len()
        invariant
            i <= children.len(),
            c == trees_of(children@),
            args_view(args@) == lower_args(c.take(i as int)),
        decreases children.len() - i,
    {
        let list = &children[i];
        proof {
            lemma_children_view(*list);
            assert(c.take(i + 1).drop_last() =~= c.take(i as int));
            assert(c.take(i + 1).last() == list@);
        }
        if list.rule == Rule::ArgList {
            let ghost before = args_view(args@);
            let ghost lc = trees_of(list.children@);
            let mut j: usize = 0;
            assert(lc.take(0) =~= Seq::<Tree>::empty());
            assert(args_view(args@) =~= before + lower_arg_list(lc.take(0)));
            while j < list.children.len()
                invariant
                    j <= list.children.len(),
                    i < children.len(),
                    list == &children[i as int],
                    lc == trees_of(list.children@),
                    args_view(args@) == before + lower_arg_list(lc.take(j as int)),
                decreases list.children.len() - j,
            {
                let arg = &list.children[j];
                proof {
                    lemma_children_view(*arg);
                    assert(lc.take(j + 1).drop_last() =~= lc.take(j as int));
                    assert(lc.take(j + 1).last() == arg@);
                }
                if arg.rule == Rule::Arg {
                    let built = if arg.children.len() == 2 {
                        let name = Some(arg.children[0].text.clone());
                        let value = build_expression(&arg.children[1]);
                        Arg { name, value }
                    } else {
                        let value = build_expression_at(&arg.children, 0);
                        Arg { name: None, value }
                    };
                    proof {
                        crate::model::lemma_args_push(args@, built);
                        assert(arg@.children == trees_of(arg.children@));
                        assert(built@ == lower_arg(arg@.children));
                        assert(lower_arg_list(lc.take(j + 1)) == lower_arg_list(
                            lc.take(j as int),
                        ).push(built@));
                        assert((before + lower_arg_list(lc.take(j as int))).push(built@) =~= before
                            + lower_arg_list(lc.take(j as int)).push(built@));
                    }
                    args.push(built);
                }
                j += 1;
            }
            assert(lc.take(list.children.len() as int) =~= lc);
        }
        i += 1;
    }
    assert(c.take(children.len() as int) =~= c);
    args
}

} // verus!

verus! {

/// What a type node lowers to. A type expression is its first child; a
/// generic type has the text of its first child as name and the types of
/// its type lists as parameters; any other node is the simple type that
/// its text names.
pub open spec fn lower_type(t: Tree) -> TypeView
    decreases t, 0nat,
{
    let c = t.children;
    if t.rule == Rule::TypeExpr && c.len() > 0 {
        lower_type(c[0])
    } else if t.rule == Rule::GenericType {
        TypeView::Generic { name: child_text(c, 0), params: generic_params(c, c.len()) }
    } else {
        TypeView::Simple(t.text)
    }
}

/// The type that the child at `i` lowers to; the simple type with an empty
/// name when there is no such child.
pub open spec fn lower_type_at(c: Seq<Tree>, i: int) -> TypeView
    decreases c, 0nat,
{
    if 0 <= i < c.len() {
        lower_type(c[i])
    } else {
        TypeView::Simple(Seq::empty())
    }
}

/// The parameters of a generic type: the types in every type list among
/// the children at `1, .., n - 1`.
pub open spec fn generic_params(c: Seq<Tree>, n: nat) -> Seq<TypeView>
    decreases c, n,
{
    if n <= 1 || n > c.len() {
        Seq::empty()
    } else {
        let item = c[n - 1];
        let rest = generic_params(c, (n - 1) as nat);
        if item.rule == Rule::TypeList {
            rest + lower_types(item.children, item.children.len())
        } else {
            rest
        }
    }
}

/// The types that the first `n` children lower to.
pub open spec fn lower_types(c: Seq<Tree>, n: nat) -> Seq<TypeView>
    decreases c, n,
{
    if n == 0 || n > c.len() {
        Seq::empty()
    } else {
        lower_types(c, (n - 1) as nat).push(lower_type(c[n - 1]))
    }
}

/// What a parameter node lowers to: the text of its first child as name,
/// its second child as type.
pub open spec fn lower_param(t: Tree) -> ParamView {
    ParamView { name: child_text(t.children, 0), type_expr: lower_type_at(t.children, 1) }
}

/// The parameters in one parameter list: one for each of the first `n`
/// children that is a parameter.
pub open spec fn params_of_list(c: Seq<Tree>, n: nat) -> Seq<ParamView>
    decreases n,
{
    if n == 0 || n > c.len() {
        Seq::empty()
    } else {
        let rest = params_of_list(c, (n - 1) as nat);
        if c[n - 1].rule == Rule::Param {
            rest.push(lower_param(c[n - 1]))
        } else {
            rest
        }
    }
}

/// The parameters in every parameter list among the children at
/// `from, .., n - 1`.
pub open spec fn params_in(c: Seq<Tree>, from: nat, n: nat) -> Seq<ParamView>
    decreases n,
{
    if n <= from || n > c.len() {
        Seq::empty()
    } else {
        let rest = params_in(c, from, (n - 1) as nat);
        if c[n - 1].rule == Rule::ParamList {
            rest + params_of_list(c[n - 1].children, c[n - 1].children.len())
        } else {
            rest
        }
    }
}

/// What a signal node lowers to.
pub open spec fn lower_signal(t: Tree) -> SignalView {
    SignalView { name: child_text(t.children, 0), params: params_in(t.children, 1, t.children.len()) }
}

/// Whether a child of a variable declaration is its initialiser.
pub open spec fn is_initializer(rule: Rule) -> bool {
    rule == Rule::Expression || rule == Rule::OrExpr || rule == Rule::AndExpr || rule
        == Rule::Comparison || rule == Rule::AddExpr || rule == Rule::MulExpr || rule
        == Rule::UnaryExpr || rule == Rule::PostfixExpr || rule == Rule::IntLiteral || rule
        == Rule::FloatLiteral || rule == Rule::StringLiteral || rule == Rule::BoolLiteral || rule
        == Rule::Vec2Literal || rule == Rule::Vec3Literal || rule == Rule::ListLiteral || rule
        == Rule::MapLiteral || rule == Rule::Identifier
}

/// The annotated type of a variable declaration: that of the last type
/// expression among the children at `1, .., n - 1`.
pub open spec fn declared_type(c: Seq<Tree>, n: nat) -> Option<TypeView>
    decreases n,
{
    if n <= 1 || n > c.len() {
        None
    } else if c[n - 1].rule == Rule::TypeExpr {
        Some(lower_type(c[n - 1]))
    } else {
        declared_type(c, (n - 1) as nat)
    }
}

/// The initial value of a variable declaration: that of the last
/// initialiser among the children at `1, .., n - 1`, and the integer
/// literal `0` when there is none.
pub open spec fn initial_value(c: Seq<Tree>, n: nat) -> ExprView
    decreases n,
{
    if n <= 1 || n > c.len() {
        ExprView::Int(0)
    } else if is_initializer(c[n - 1].rule) {
        lower_expr(c[n - 1])
    } else {
        initial_value(c, (n - 1) as nat)
    }
}

/// What a variable declaration lowers to.
pub open spec fn lower_var_decl(t: Tree) -> VarDeclView {
    let c = t.children;
    VarDeclView {
        name: child_text(c, 0),
        type_expr: declared_type(c, c.len()),
        value: initial_value(c, c.len()),
    }
}

/// The assignment operator that a text stands for; `Assign` for any other
/// text.
pub open spec fn assign_op_of(s: Seq<char>) -> AssignOp {
    if s == "="@ {
        AssignOp::Assign
    } else if s == "+="@ {
        AssignOp::AddAssign
    } else if s == "-="@ {
        AssignOp::SubAssign
    } else if s == "*="@ {
        AssignOp::MulAssign
    } else if s == "/="@ {
        AssignOp::DivAssign
    } else {
        AssignOp::Assign
    }
}

/// The texts of the nodes of `c`.
pub open spec fn texts_in(c: Seq<Tree>) -> Seq<Seq<char>> {
    Seq::new(c.len(), |i: int| c[i].text)
}

/// What an assignment lowers to: the texts of the children of its first
/// child as target, its second child as operator, its third as value.
pub open spec fn lower_assignment(t: Tree) -> AssignmentView {
    let c = t.children;
    AssignmentView {
        target: if c.len() > 0 {
            texts_in(c[0].children)
        } else {
            Seq::empty()
        },
        op: assign_op_of(child_text(c, 1)),
        value: lower_expr_at(c, 2),
    }
}

/// The value that an argument of an `emit` passes: its last child.
pub open spec fn emit_arg(c: Seq<Tree>) -> ExprView {
    lower_expr_at(c, c.len() - 1)
}

/// The values in one argument list of an `emit`: one for each of the first
/// `n` children that is an argument.
pub open spec fn emit_args_of_list(c: Seq<Tree>, n: nat) -> Seq<ExprView>
    decreases n,
{
    if n == 0 || n > c.len() {
        Seq::empty()
    } else {
        let rest = emit_args_of_list(c, (n - 1) as nat);
        if c[n - 1].rule == Rule::Arg {
            rest.push(emit_arg(c[n - 1].children))
        } else {
            rest
        }
    }
}

/// The values in every argument list among the children at `1, .., n - 1`.
pub open spec fn emit_args(c: Seq<Tree>, n: nat) -> Seq<ExprView>
    decreases n,
{
    if n <= 1 || n > c.len() {
        Seq::empty()
    } else {
        let rest = emit_args(c, (n - 1) as nat);
        if c[n - 1].rule == Rule::ArgList {
            rest + emit_args_of_list(c[n - 1].children, c[n - 1].children.len())
        } else {
            rest
        }
    }
}

/// What an `emit` lowers to.
pub open spec fn lower_emit(t: Tree) -> EmitView {
    EmitView { signal_name: child_text(t.children, 0), args: emit_args(t.children, t.children.len()) }
}

/// The position of `key` among the keys of `fields`, or `-1`.
pub open spec fn key_index(fields: Seq<(Seq<char>, ExprView)>, key: Seq<char>) -> int
    decreases fields.len(),
{
    if fields.len() == 0 {
        -1
    } else if fields.last().0 == key {
        fields.len() - 1
    } else {
        key_index(fields.drop_last(), key)
    }
}

/// `fields` with `key` bound to `value`: in place of the earlier binding
/// of `key` where there is one, at the end otherwise.
pub open spec fn upsert(fields: Seq<(Seq<char>, ExprView)>, key: Seq<char>, value: ExprView) -> Seq<
    (Seq<char>, ExprView),
> {
    let at = key_index(fields, key);
    if 0 <= at < fields.len() {
        fields.update(at, (key, value))
    } else {
        fields.push((key, value))
    }
}

/// `acc` with the fields of one component body bound in turn: one for each
/// of the first `n` children that is a component field.
pub open spec fn fields_of_body(acc: Seq<(Seq<char>, ExprView)>, c: Seq<Tree>, n: nat) -> Seq<
    (Seq<char>, ExprView),
>
    decreases n,
{
    if n == 0 || n > c.len() {
        acc
    } else {
        let rest = fields_of_body(acc, c, (n - 1) as nat);
        let item = c[n - 1];
        if item.rule == Rule::ComponentField {
            upsert(rest, child_text(item.children, 0), lower_expr_at(item.children, 1))
        } else {
            rest
        }
    }
}

/// The fields of a component: those of every component body among the
/// children at `1, .., n - 1`, a later binding of a name replacing the
/// earlier one.
pub open spec fn component_fields(c: Seq<Tree>, n: nat) -> Seq<(Seq<char>, ExprView)>
    decreases n,
{
    if n <= 1 || n > c.len() {
        Seq::empty()
    } else {
        let rest = component_fields(c, (n - 1) as nat);
        let item = c[n - 1];
        if item.rule == Rule::ComponentBody {
            fields_of_body(rest, item.children, item.children.len())
        } else {
            rest
        }
    }
}

/// What a component node lowers to.
pub open spec fn lower_component(t: Tree) -> ComponentView {
    ComponentView {
        name: child_text(t.children, 0),
        fields: component_fields(t.children, t.children.len()),
    }
}

/// What a statement node lowers to; `None` for a node that is no
/// statement (a block marker, the end of input).
pub open spec fn lower_statement(t: Tree) -> Option<StatementView>
    decreases t, 1nat,
{
    let c = t.children;
    match t.rule {
        Rule::EntityDef => Some(StatementView::EntityDef(lower_entity(t))),
        Rule::FnDef => Some(StatementView::FnDef(lower_fn(t))),
        Rule::SignalDef => Some(StatementView::SignalDef(lower_signal(t))),
        Rule::StateMachineDef => Some(StatementView::StateMachine(lower_state_machine(t))),
        Rule::VariableDecl => Some(StatementView::VarDecl(lower_var_decl(t))),
        Rule::Assignment => Some(StatementView::Assignment(lower_assignment(t))),
        Rule::IfStmt => Some(StatementView::If(lower_if(t))),
        Rule::WhileStmt => Some(StatementView::While(lower_while(t))),
        Rule::ForStmt => Some(StatementView::For(lower_for(t))),
        Rule::ReturnStmt => Some(
            StatementView::Return(
                if c.len() > 0 {
                    Some(lower_expr(c[0]))
                } else {
                    None
                },
            ),
        ),
        Rule::EmitStmt => Some(StatementView::Emit(lower_emit(t))),
        Rule::Expression => Some(StatementView::Expr(lower_expr(t))),
        _ => None,
    }
}

/// The statements among the first `n` nodes of `c`, in order.
pub open spec fn lower_statements(c: Seq<Tree>, n: nat) -> Seq<StatementView>
    decreases c, n,
{
    if n == 0 || n > c.len() {
        Seq::empty()
    } else {
        let rest = lower_statements(c, (n - 1) as nat);
        match lower_statement(c[n - 1]) {
            Some(s) => rest.push(s),
            None => rest,
        }
    }
}

/// The statements of every block among the children at `from, .., n - 1`.
pub open spec fn body_in(c: Seq<Tree>, from: nat, n: nat) -> Seq<StatementView>
    decreases c, n,
{
    if n <= from || n > c.len() {
        Seq::empty()
    } else {
        let rest = body_in(c, from, (n - 1) as nat);
        let item = c[n - 1];
        if item.rule == Rule::Block {
            rest + lower_statements(item.children, item.children.len())
        } else {
            rest
        }
    }
}

/// The return type of a function: that of the last return type among the
/// children at `from, .., n - 1`.
pub open spec fn return_type_in(c: Seq<Tree>, from: nat, n: nat) -> Option<TypeView>
    decreases n,
{
    if n <= from || n > c.len() {
        None
    } else if c[n - 1].rule == Rule::ReturnType {
        Some(lower_type_at(c[n - 1].children, 0))
    } else {
        return_type_in(c, from, (n - 1) as nat)
    }
}

/// Whether a function node starts with the `async` marker.
pub open spec fn starts_async(c: Seq<Tree>) -> bool {
    c.len() > 0 && c[0].rule == Rule::AsyncKeyword
}

/// What a function node lowers to. Its name is the text of its first
/// child, or of its second when the first is the `async` marker.
pub open spec fn lower_fn(t: Tree) -> FnView
    decreases t, 0nat,
{
    let c = t.children;
    let from: nat = if starts_async(c) {
        2
    } else {
        1
    };
    FnView {
        name: child_text(c, from - 1),
        is_async: starts_async(c),
        params: params_in(c, from, c.len()),
        return_type: return_type_in(c, from, c.len()),
        body: body_in(c, from, c.len()),
    }
}

/// What a state node lowers to.
pub open spec fn lower_state(t: Tree) -> StateView
    decreases t, 0nat,
{
    StateView { name: child_text(t.children, 0), body: body_in(t.children, 1, t.children.len()) }
}

/// The initial state that one body of a state machine names: the text of
/// the last identifier among its first `n` children, `before` when there is
/// none.
pub open spec fn initial_of_body(before: Option<Seq<char>>, c: Seq<Tree>, n: nat) -> Option<
    Seq<char>,
>
    decreases n,
{
    if n == 0 || n > c.len() {
        before
    } else if c[n - 1].rule == Rule::Identifier {
        Some(c[n - 1].text)
    } else {
        initial_of_body(before, c, (n - 1) as nat)
    }
}

/// The initial state of a state machine: what the last body that names
/// one, among the children at `1, .., n - 1`, names.
pub open spec fn initial_state_in(c: Seq<Tree>, n: nat) -> Option<Seq<char>>
    decreases n,
{
    if n <= 1 || n > c.len() {
        None
    } else {
        let rest = initial_state_in(c, (n - 1) as nat);
        if c[n - 1].rule == Rule::StateMachineBody {
            initial_of_body(rest, c[n - 1].children, c[n - 1].children.len())
        } else {
            rest
        }
    }
}

/// The states among the first `n` children of one body of a state machine.
pub open spec fn states_of_body(c: Seq<Tree>, n: nat) -> Seq<StateView>
    decreases c, n,
{
    if n == 0 || n > c.len() {
        Seq::empty()
    } else {
        let rest = states_of_body(c, (n - 1) as nat);
        if c[n - 1].rule == Rule::StateDef {
            rest.push(lower_state(c[n - 1]))
        } else {
            rest
        }
    }
}

/// The states of a state machine: those among the children at
/// `1, .., n - 1` and those in the bodies among them, in order.
pub open spec fn states_in(c: Seq<Tree>, n: nat) -> Seq<StateView>
    decreases c, n,
{
    if n <= 1 || n > c.len() {
        Seq::empty()
    } else {
        let rest = states_in(c, (n - 1) as nat);
        let item = c[n - 1];
        if item.rule == Rule::StateMachineBody {
            rest + states_of_body(item.children, item.children.len())
        } else if item.rule == Rule::StateDef {
            rest.push(lower_state(item))
        } else {
            rest
        }
    }
}

/// What a state machine node lowers to.
pub open spec fn lower_state_machine(t: Tree) -> StateMachineView
    decreases t, 0nat,
{
    let c = t.children;
    StateMachineView {
        name: child_text(c, 0),
        initial_state: initial_state_in(c, c.len()),
        states: states_in(c, c.len()),
    }
}

/// What a `while` node lowers to.
pub open spec fn lower_while(t: Tree) -> WhileView
    decreases t, 0nat,
{
    WhileView { condition: lower_expr_at(t.children, 0), body: body_in(t.children, 1, t.children.len()) }
}

/// What a `for` node lowers to.
pub open spec fn lower_for(t: Tree) -> ForView
    decreases t, 0nat,
{
    let c = t.children;
    ForView {
        var_name: child_text(c, 0),
        iterable: lower_expr_at(c, 1),
        body: body_in(c, 2, c.len()),
    }
}

/// The body of a conditional: the statements of the first block, among the
/// children at `1, .., n - 1`, that holds any.
pub open spec fn then_body_in(c: Seq<Tree>, n: nat) -> Seq<StatementView>
    decreases c, n,
{
    if n <= 1 || n > c.len() {
        Seq::empty()
    } else {
        let rest = then_body_in(c, (n - 1) as nat);
        let item = c[n - 1];
        if item.rule == Rule::Block && rest.len() == 0 {
            lower_statements(item.children, item.children.len())
        } else {
            rest
        }
    }
}

/// What an `elif` node lowers to: its first child as condition, the
/// statements among the children of its second child as body.
pub open spec fn lower_elif(t: Tree) -> (ExprView, Seq<StatementView>)
    decreases t, 0nat,
{
    let c = t.children;
    (
        lower_expr_at(c, 0),
        if c.len() > 1 {
            lower_statements(c[1].children, c[1].children.len())
        } else {
            Seq::empty()
        },
    )
}

/// The `elif` clauses among the children at `1, .., n - 1`, in order.
pub open spec fn elifs_in(c: Seq<Tree>, n: nat) -> Seq<(ExprView, Seq<StatementView>)>
    decreases c, n,
{
    if n <= 1 || n > c.len() {
        Seq::empty()
    } else {
        let rest = elifs_in(c, (n - 1) as nat);
        if c[n - 1].rule == Rule::ElifClause {
            rest.push(lower_elif(c[n - 1]))
        } else {
            rest
        }
    }
}

/// The `else` body of a conditional: the statements in the blocks of the
/// last `else` clause among the children at `1, .., n - 1`.
pub open spec fn else_in(c: Seq<Tree>, n: nat) -> Option<Seq<StatementView>>
    decreases c, n,
{
    if n <= 1 || n > c.len() {
        None
    } else if c[n - 1].rule == Rule::ElseClause {
        Some(body_in(c[n - 1].children, 0, c[n - 1].children.len()))
    } else {
        else_in(c, (n - 1) as nat)
    }
}

/// What a conditional lowers to.
pub open spec fn lower_if(t: Tree) -> IfView
    decreases t, 0nat,
{
    let c = t.children;
    IfView {
        condition: lower_expr_at(c, 0),
        then_body: then_body_in(c, c.len()),
        elif_clauses: elifs_in(c, c.len()),
        else_body: else_in(c, c.len()),
    }
}

/// The components of an entity among the children at `from, .., n - 1`;
/// where `nested` is false, those inside an entity body among them too.
pub open spec fn components_in(c: Seq<Tree>, from: nat, n: nat, nested: bool) -> Seq<ComponentView>
    decreases c, n,
{
    if n <= from || n > c.len() {
        Seq::empty()
    } else {
        let rest = components_in(c, from, (n - 1) as nat, nested);
        let item = c[n - 1];
        if item.rule == Rule::ComponentDef {
            rest.push(lower_component(item))
        } else if item.rule == Rule::EntityBody && !nested {
            rest + components_in(item.children, 0, item.children.len(), true)
        } else {
            rest
        }
    }
}

/// The functions of an entity among the children at `from, .., n - 1`;
/// where `nested` is false, those inside an entity body among them too.
pub open spec fn functions_in(c: Seq<Tree>, from: nat, n: nat, nested: bool) -> Seq<FnView>
    decreases c, n,
{
    if n <= from || n > c.len() {
        Seq::empty()
    } else {
        let rest = functions_in(c, from, (n - 1) as nat, nested);
        let item = c[n - 1];
        if item.rule == Rule::FnDef {
            rest.push(lower_fn(item))
        } else if item.rule == Rule::EntityBody && !nested {
            rest + functions_in(item.children, 0, item.children.len(), true)
        } else {
            rest
        }
    }
}

/// The signals of an entity among the children at `from, .., n - 1`;
/// where `nested` is false, those inside an entity body among them too.
pub open spec fn signals_in(c: Seq<Tree>, from: nat, n: nat, nested: bool) -> Seq<SignalView>
    decreases c, n,
{
    if n <= from || n > c.len() {
        Seq::empty()
    } else {
        let rest = signals_in(c, from, (n - 1) as nat, nested);
        let item = c[n - 1];
        if item.rule == Rule::SignalDef {
            rest.push(lower_signal(item))
        } else if item.rule == Rule::EntityBody && !nested {
            rest + signals_in(item.children, 0, item.children.len(), true)
        } else {
            rest
        }
    }
}

/// The variables of an entity among the children at `from, .., n - 1`;
/// where `nested` is false, those inside an entity body among them too.
pub open spec fn variables_in(c: Seq<Tree>, from: nat, n: nat, nested: bool) -> Seq<VarDeclView>
    decreases c, n,
{
    if n <= from || n > c.len() {
        Seq::empty()
    } else {
        let rest = variables_in(c, from, (n - 1) as nat, nested);
        let item = c[n - 1];
        if item.rule == Rule::VariableDecl {
            rest.push(lower_var_decl(item))
        } else if item.rule == Rule::EntityBody && !nested {
            rest + variables_in(item.children, 0, item.children.len(), true)
        } else {
            rest
        }
    }
}

/// What an entity node lowers to. Its members stand among its children
/// after the name, directly or one level down inside an entity body.
pub open spec fn lower_entity(t: Tree) -> EntityView
    decreases t, 0nat,
{
    let c = t.children;
    EntityView {
        name: child_text(c, 0),
        components: components_in(c, 1, c.len(), false),
        functions: functions_in(c, 1, c.len(), false),
        signals: signals_in(c, 1, c.len(), false),
        variables: variables_in(c, 1, c.len(), false),
    }
}

/// The statements of a program: for each of the first `n` top-level nodes,
/// the statements among the children of a program node, nothing for the
/// end of input, and the node's own statement otherwise.
pub open spec fn program_statements(pairs: Seq<Tree>, n: nat) -> Seq<StatementView>
    decreases n,
{
    if n == 0 || n > pairs.len() {
        Seq::empty()
    } else {
        let rest = program_statements(pairs, (n - 1) as nat);
        let pair = pairs[n - 1];
        if pair.rule == Rule::Program {
            rest + lower_statements(pair.children, pair.children.len())
        } else {
            match lower_statement(pair) {
                Some(s) => rest.push(s),
                None => rest,
            }
        }
    }
}

/// What the top-level nodes of a parse lower to.
pub open spec fn lower_program(pairs: Seq<Tree>) -> ProgramView {
    ProgramView { statements: program_statements(pairs, pairs.len()) }
}

} // verus!

verus! {

/// Builds the type that a parse tree node stands for.
#[verifier::loop_isolation(false)]
pub fn build_type(pair: &ParseNode) -> (t: TypeExpr)
    ensures
        t@ == lower_type(pair@),
    decreases pair,
{
    proof {
        lemma_children_view(*pair);
    }
    let ghost c = pair@.children;
    let n = pair.children.len();
    if pair.rule == Rule::TypeExpr && n > 0 {
        build_type(&pair.children[0])
    } else if pair.rule == Rule::GenericType {
        let name = child_string(&pair.children, 0);
        let mut params: Vec<TypeExpr> = Vec::new();
        let mut i: usize = 1;
        assert(crate::model::types_view(params@) =~= generic_params(c, 1));
        while i < n
            invariant
                1 <= i,
                n > 0 ==> i <= n,
                crate::model::types_view(params@) == generic_params(c, i as nat),
            decreases n - i,
        {
            let list = &pair.children[i];
            proof {
                lemma_children_view(*list);
            }
            if list.rule == Rule::TypeList {
                let ghost before = crate::model::types_view(params@);
                let ghost lc = list@.children;
                let mut j: usize = 0;
                assert(crate::model::types_view(params@) =~= before + lower_types(lc, 0));
                while j < list.children.len()
                    invariant
                        j <= list.children.len(),
                        crate::model::types_view(params@) == before + lower_types(lc, j as nat),
                    decreases list.children.len() - j,
                {
                    let item = build_type(&list.children[j]);
                    proof {
                        crate::model::lemma_types_push(params@, item);
                        assert((before + lower_types(lc, j as nat)).push(item@) =~= before
                            + lower_types(lc, j as nat).push(item@));
                    }
                    params.push(item);
                    j += 1;
                }
            }
            i += 1;
        }
        proof {
            crate::model::lemma_generic_view(name, params);
            if n == 0 {
                assert(generic_params(c, 1) == generic_params(c, 0));
            }
        }
        TypeExpr::Generic { name, params }
    } else {
        TypeExpr::Simple(pair.text.clone())
    }
}

/// The child at `i` as a type, the simple type with an empty name when
/// there is no such child.
fn build_type_at(children: &Vec<ParseNode>, i: usize) -> (t: TypeExpr)
    ensures
        t@ == lower_type_at(trees_of(children@), i as int),
{
    if i < children.len() {
        build_type(&children[i])
    } else {
        TypeExpr::Simple(String::new())
    }
}

/// Builds the parameter that a parse tree node stands for.
pub fn build_param(pair: &ParseNode) -> (p: Param)
    ensures
        p@ == lower_param(pair@),
{
    proof {
        lemma_children_view(*pair);
    }
    let name = child_string(&pair.children, 0);
    let type_expr = build_type_at(&pair.children, 1);
    Param { name, type_expr }
}

/// The parameters in the parameter lists among the children from `from`
/// on.
#[verifier::loop_isolation(false)]
fn build_params(children: &Vec<ParseNode>, from: usize) -> (params: Vec<Param>)
    ensures
        crate::model::params_view(params@) == params_in(
            trees_of(children@),
            from as nat,
            children.len() as nat,
        ),
{
    let ghost c = trees_of(children@);
    let n = children.len();
    let mut params: Vec<Param> = Vec::new();
    let mut i: usize = from;
    assert(crate::model::params_view(params@) =~= params_in(c, from as nat, from as nat));
    if from >= n {
        return params;
    }
    while i < n
        invariant
            from <= i <= n,
            crate::model::params_view(params@) == params_in(c, from as nat, i as nat),
        decreases n - i,
    {
        let list = &children[i];
        proof {
            lemma_children_view(*list);
        }
        if list.rule == Rule::ParamList {
            let ghost before = crate::model::params_view(params@);
            let ghost lc = list@.children;
            let mut j: usize = 0;
            assert(crate::model::params_view(params@) =~= before + params_of_list(lc, 0));
            while j < list.children.len()
                invariant
                    j <= list.children.len(),
                    crate::model::params_view(params@) == before + params_of_list(lc, j as nat),
                decreases list.children.len() - j,
            {
                if list.children[j].rule == Rule::Param {
                    let item = build_param(&list.children[j]);
                    proof {
                        crate::model::lemma_params_push(params@, item);
                        assert((before + params_of_list(lc, j as nat)).push(item@) =~= before
                            + params_of_list(lc, j as nat).push(item@));
                    }
                    params.push(item);
                }
                j += 1;
            }
        }
        i += 1;
    }
    params
}

/// Builds the signal that a parse tree node stands for.
pub fn build_signal(pair: &ParseNode) -> (s: SignalDef)
    ensures
        s@ == lower_signal(pair@),
{
    proof {
        lemma_children_view(*pair);
    }
    let name = child_string(&pair.children, 0);
    let params = build_params(&pair.children, 1);
    SignalDef { name, params }
}

fn is_initializer_rule(rule: Rule) -> (r: bool)
    ensures
        r == is_initializer(rule),
{
    rule == Rule::Expression || rule == Rule::OrExpr || rule == Rule::AndExpr || rule
        == Rule::Comparison || rule == Rule::AddExpr || rule == Rule::MulExpr || rule
        == Rule::UnaryExpr || rule == Rule::PostfixExpr || rule == Rule::IntLiteral || rule
        == Rule::FloatLiteral || rule == Rule::StringLiteral || rule == Rule::BoolLiteral || rule
        == Rule::Vec2Literal || rule == Rule::Vec3Literal || rule == Rule::ListLiteral || rule
        == Rule::MapLiteral || rule == Rule::Identifier
}

/// Builds the variable declaration that a parse tree node stands for. A
/// declaration without an initialiser has the integer literal `0` as
/// value.
#[verifier::loop_isolation(false)]
pub fn build_var_decl(pair: &ParseNode) -> (v: VarDecl)
    ensures
        v@ == lower_var_decl(pair@),
        (forall|i: int| 1 <= i < pair@.children.len() ==> !is_initializer(pair@.children[i].rule))
            ==> v@.value == ExprView::Int(0),
{
    proof {
        lemma_children_view(*pair);
    }
    let ghost c = pair@.children;
    let n = pair.children.len();
    let name = child_string(&pair.children, 0);
    let mut type_expr: Option<TypeExpr> = None;
    let mut value = Expr::Int(0);
    let mut i: usize = 1;
    while i < n
        invariant
            1 <= i,
            n > 0 ==> i <= n,
            crate::model::opt_type_view(type_expr) == declared_type(c, i as nat),
            value@ == initial_value(c, i as nat),
            (forall|k: int| 1 <= k < i ==> !is_initializer(c[k].rule)) ==> value@ == ExprView::Int(
                0,
            ),
        decreases n - i,
    {
        let item = &pair.children[i];
        if item.rule == Rule::TypeExpr {
            type_expr = Some(build_type(item));
        } else if is_initializer_rule(item.rule) {
            value = build_expression(item);
        }
        i += 1;
    }
    proof {
        if n == 0 {
            assert(declared_type(c, 1) == declared_type(c, 0));
            assert(initial_value(c, 1) == initial_value(c, 0));
        }
    }
    VarDecl { name, type_expr, value }
}

/// Maps the text of an assignment operator to the operator.
pub fn parse_assign_op(s: &str) -> (op: AssignOp)
    ensures
        op == assign_op_of(s@),
{
    if str_eq(s, "=") {
        AssignOp::Assign
    } else if str_eq(s, "+=") {
        AssignOp::AddAssign
    } else if str_eq(s, "-=") {
        AssignOp::SubAssign
    } else if str_eq(s, "*=") {
        AssignOp::MulAssign
    } else if str_eq(s, "/=") {
        AssignOp::DivAssign
    } else {
        AssignOp::Assign
    }
}

/// Builds the assignment that a parse tree node stands for.
#[verifier::loop_isolation(false)]
pub fn build_assignment(pair: &ParseNode) -> (a: Assignment)
    ensures
        a@ == lower_assignment(pair@),
{
    proof {
        lemma_children_view(*pair);
    }
    let ghost c = pair@.children;
    let mut parts: Vec<String> = Vec::new();
    if pair.children.len() > 0 {
        let target = &pair.children[0];
        proof {
            lemma_children_view(*target);
        }
        let mut i: usize = 0;
        while i < target.children.len()
            invariant
                i <= target.children.len(),
                crate::model::parts_view(parts@) == texts_in(target@.children).take(i as int),
            decreases target.children.len() - i,
        {
            let part = target.children[i].text.clone();
            proof {
                crate::model::lemma_parts_push(parts@, part);
                assert(texts_in(target@.children).take(i + 1) =~= texts_in(target@.children).take(
                    i as int,
                ).push(part@));
            }
            parts.push(part);
            i += 1;
        }
        assert(texts_in(target@.children).take(target.children.len() as int) =~= texts_in(
            target@.children,
        ));
    } else {
        assert(crate::model::parts_view(parts@) =~= Seq::<Seq<char>>::empty());
    }
    let op_text = child_string(&pair.children, 1);
    let op = parse_assign_op(op_text.as_str());
    let value = build_expression_at(&pair.children, 2);
    Assignment { target: LValue { parts }, op, value }
}

/// Builds the `emit` statement that a parse tree node stands for.
#[verifier::loop_isolation(false)]
pub fn build_emit(pair: &ParseNode) -> (e: EmitStmt)
    ensures
        e@ == lower_emit(pair@),
{
    proof {
        lemma_children_view(*pair);
    }
    let ghost c = pair@.children;
    let n = pair.children.len();
    let signal_name = child_string(&pair.children, 0);
    let mut args: Vec<Expr> = Vec::new();
    let mut i: usize = 1;
    assert(exprs_view(args@) =~= emit_args(c, 1));
    while i < n
        invariant
            1 <= i,
            n > 0 ==> i <= n,
            exprs_view(args@) == emit_args(c, i as nat),
        decreases n - i,
    {
        let list = &pair.children[i];
        proof {
            lemma_children_view(*list);
        }
        if list.rule == Rule::ArgList {
            let ghost before = exprs_view(args@);
            let ghost lc = list@.children;
            let mut j: usize = 0;
            assert(exprs_view(args@) =~= before + emit_args_of_list(lc, 0));
            while j < list.children.len()
                invariant
                    j <= list.children.len(),
                    exprs_view(args@) == before + emit_args_of_list(lc, j as nat),
                decreases list.children.len() - j,
            {
                let arg = &list.children[j];
                if arg.rule == Rule::Arg {
                    proof {
                        lemma_children_view(*arg);
                    }
                    let value = if arg.children.len() > 0 {
                        build_expression(&arg.children[arg.children.len() - 1])
                    } else {
                        Expr::Int(0)
                    };
                    proof {
                        crate::model::lemma_exprs_push(args@, value);
                        assert((before + emit_args_of_list(lc, j as nat)).push(value@) =~= before
                            + emit_args_of_list(lc, j as nat).push(value@));
                    }
                    args.push(value);
                }
                j += 1;
            }
        }
        i += 1;
    }
    proof {
        if n == 0 {
            assert(emit_args(c, 1) == emit_args(c, 0));
        }
    }
    EmitStmt { signal_name, args }
}

} // verus!

verus! {

/// Binds `key` to `value` in `fields`: in place of the earlier binding of
/// `key` where there is one, at the end otherwise.
pub fn insert_field(fields: &mut Vec<(String, Expr)>, key: String, value: Expr)
    requires
        distinct_keys(entries_view(old(fields)@)),
    ensures
        entries_view(final(fields)@) == upsert(entries_view(old(fields)@), key@, value@),
        distinct_keys(entries_view(final(fields)@)),
{
    let ghost all = entries_view(fields@);
    let mut i: usize = fields.len();
    assert(all.take(i as int) =~= all);
    while i > 0
        invariant
            i <= fields.len(),
            fields@ == old(fields)@,
            all == entries_view(fields@),
            distinct_keys(all),
            key_index(all, key@) == key_index(all.take(i as int), key@),
            forall|j: int| i <= j < all.len() ==> (#[trigger] all[j]).0 != key@,
        decreases i,
    {
        assert(all.take(i as int).last() == all[i - 1]);
        assert(all.take(i as int).drop_last() =~= all.take(i - 1));
        if fields[i - 1].0 == key {
            assert(all[i - 1].0 == key@);
            fields.set(i - 1, (key, value));
            proof {
                assert(entries_view(fields@) =~= all.update(i - 1, (key@, value@)));
                let after = entries_view(fields@);

                assert forall|a: int, b: int| 0 <= a < b < after.len() implies (
                #[trigger] after[a]).0 != (#[trigger] after[b]).0 by {
                    assert(after[a].0 == all[a].0);
                    assert(after[b].0 == all[b].0);
                }
            }
            return ;
        }
        i -= 1;
    }
    proof {
        assert(all.take(0) =~= Seq::<(Seq<char>, ExprView)>::empty());
        crate::model::lemma_entries_push(fields@, (key, value));
        let after = all.push((key@, value@));
        assert forall|a: int, b: int| 0 <= a < b < after.len() implies (#[trigger] after[a]).0 != (
        #[trigger] after[b]).0 by {
            if b < all.len() {
                assert(after[a] == all[a]);
                assert(after[b] == all[b]);
            } else {
                assert(after[a] == all[a]);
            }
        }
    }
    fields.push((key, value));
}

/// Builds the component that a parse tree node stands for. No field name
/// occurs twice in it: a later field of a name replaces the earlier one.
#[verifier::loop_isolation(false)]
pub fn build_component(pair: &ParseNode) -> (comp: ComponentDef)
    ensures
        comp@ == lower_component(pair@),
        comp.well_formed(),
{
    proof {
        lemma_children_view(*pair);
    }
    let ghost c = pair@.children;
    let n = pair.children.len();
    let name = child_string(&pair.children, 0);
    let mut fields: Vec<(String, Expr)> = Vec::new();
    let mut i: usize = 1;
    assert(entries_view(fields@) =~= component_fields(c, 1));
    while i < n
        invariant
            1 <= i,
            n > 0 ==> i <= n,
            entries_view(fields@) == component_fields(c, i as nat),
            distinct_keys(entries_view(fields@)),
        decreases n - i,
    {
        let body = &pair.children[i];
        proof {
            lemma_children_view(*body);
        }
        if body.rule == Rule::ComponentBody {
            let ghost before = entries_view(fields@);
            let ghost bc = body@.children;
            let mut j: usize = 0;
            while j < body.children.len()
                invariant
                    j <= body.children.len(),
                    entries_view(fields@) == fields_of_body(before, bc, j as nat),
                    distinct_keys(entries_view(fields@)),
                decreases body.children.len() - j,
            {
                let field = &body.children[j];
                if field.rule == Rule::ComponentField {
                    proof {
                        lemma_children_view(*field);
                    }
                    let field_name = child_string(&field.children, 0);
                    let field_value = build_expression_at(&field.children, 1);
                    insert_field(&mut fields, field_name, field_value);
                }
                j += 1;
            }
        }
        i += 1;
    }
    proof {
        if n == 0 {
            assert(component_fields(c, 1) == component_fields(c, 0));
        }
    }
    ComponentDef { name, fields }
}

} // verus!

verus! {

/// Builds the statement that a parse tree node stands for; `None` for a
/// node that is no statement.
pub fn build_statement(pair: &ParseNode) -> (s: Option<Statement>)
    ensures
        opt_statement_view(s) == lower_statement(pair@),
    decreases pair, 1nat,
{
    match pair.rule {
        Rule::EntityDef => Some(Statement::EntityDef(build_entity(pair))),
        Rule::FnDef => Some(Statement::FnDef(build_function(pair))),
        Rule::SignalDef => Some(Statement::SignalDef(build_signal(pair))),
        Rule::StateMachineDef => Some(Statement::StateMachine(build_state_machine(pair))),
        Rule::VariableDecl => Some(Statement::VarDecl(build_var_decl(pair))),
        Rule::Assignment => Some(Statement::Assignment(build_assignment(pair))),
        Rule::IfStmt => Some(Statement::If(build_if(pair))),
        Rule::WhileStmt => Some(Statement::While(build_while(pair))),
        Rule::ForStmt => Some(Statement::For(build_for(pair))),
        Rule::ReturnStmt => Some(build_return(pair)),
        Rule::EmitStmt => Some(Statement::Emit(build_emit(pair))),
        Rule::Expression => Some(Statement::Expr(build_expression(pair))),
        _ => None,
    }
}

/// The view of an optional statement.
pub open spec fn opt_statement_view(s: Option<Statement>) -> Option<StatementView> {
    match s {
        Some(s) => Some(s@),
        None => None,
    }
}

/// Builds the `return` statement that a parse tree node stands for.
pub fn build_return(pair: &ParseNode) -> (s: Statement)
    ensures
        s@ == StatementView::Return(
            if pair@.children.len() > 0 {
                Some(lower_expr(pair@.children[0]))
            } else {
                None
            },
        ),
{
    proof {
        lemma_children_view(*pair);
    }
    if pair.children.len() > 0 {
        Statement::Return(Some(build_expression(&pair.children[0])))
    } else {
        Statement::Return(None)
    }
}

/// Appends to `body` the statements among `children`, in order.
#[verifier::loop_isolation(false)]
fn append_statements(body: &mut Vec<Statement>, children: &Vec<ParseNode>)
    ensures
        statements_view(final(body)@) == statements_view(old(body)@) + lower_statements(
            trees_of(children@),
            children.len() as nat,
        ),
    decreases children, 0nat,
{
    let ghost c = trees_of(children@);
    let ghost before = statements_view(body@);
    let mut i: usize = 0;
    assert(statements_view(body@) =~= before + lower_statements(c, 0));
    while i < children.len()
        invariant
            i <= children.len(),
            statements_view(body@) == before + lower_statements(c, i as nat),
        decreases children.len() - i,
    {
        match build_statement(&children[i]) {
            Some(s) => {
                proof {
                    crate::model::lemma_statements_push(body@, s);
                    assert((before + lower_statements(c, i as nat)).push(s@) =~= before
                        + lower_statements(c, i as nat).push(s@));
                }
                body.push(s);
            },
            None => {},
        }
        i += 1;
    }
}

/// The statements of the blocks among the children from `from` on.
#[verifier::loop_isolation(false)]
fn build_body(children: &Vec<ParseNode>, from: usize) -> (body: Vec<Statement>)
    ensures
        statements_view(body@) == body_in(trees_of(children@), from as nat, children.len() as nat),
    decreases children, 1nat,
{
    let ghost c = trees_of(children@);
    let n = children.len();
    let mut body: Vec<Statement> = Vec::new();
    assert(statements_view(body@) =~= body_in(c, from as nat, from as nat));
    if from >= n {
        return body;
    }
    let mut i: usize = from;
    while i < n
        invariant
            from <= i <= n,
            statements_view(body@) == body_in(c, from as nat, i as nat),
        decreases n - i,
    {
        let item = &children[i];
        if item.rule == Rule::Block {
            proof {
                lemma_children_view(*item);
            }
            append_statements(&mut body, &item.children);
        }
        i += 1;
    }
    body
}

/// The return type named among the children from `from` on.
#[verifier::loop_isolation(false)]
fn build_return_type(children: &Vec<ParseNode>, from: usize) -> (t: Option<TypeExpr>)
    ensures
        crate::model::opt_type_view(t) == return_type_in(
            trees_of(children@),
            from as nat,
            children.len() as nat,
        ),
{
    let ghost c = trees_of(children@);
    let n = children.len();
    let mut found: Option<TypeExpr> = None;
    if from >= n {
        return found;
    }
    let mut i: usize = from;
    while i < n
        invariant
            from <= i <= n,
            crate::model::opt_type_view(found) == return_type_in(c, from as nat, i as nat),
        decreases n - i,
    {
        let item = &children[i];
        if item.rule == Rule::ReturnType {
            proof {
                lemma_children_view(*item);
            }
            found = Some(build_type_at(&item.children, 0));
        }
        i += 1;
    }
    found
}

/// Builds the function that a parse tree node stands for.
pub fn build_function(pair: &ParseNode) -> (f: FnDef)
    ensures
        f@ == lower_fn(pair@),
    decreases pair, 0nat,
{
    proof {
        lemma_children_view(*pair);
    }
    let is_async = pair.children.len() > 0 && pair.children[0].rule == Rule::AsyncKeyword;
    let from: usize = if is_async {
        2
    } else {
        1
    };
    let name = child_string(&pair.children, from - 1);
    let params = build_params(&pair.children, from);
    let return_type = build_return_type(&pair.children, from);
    let body = build_body(&pair.children, from);
    let f = FnDef { name, is_async, params, return_type, body };
    proof {
        crate::model::lemma_fn_view(f);
    }
    f
}

/// Builds the state that a parse tree node stands for.
pub fn build_state(pair: &ParseNode) -> (s: StateDef)
    ensures
        s@ == lower_state(pair@),
    decreases pair, 0nat,
{
    proof {
        lemma_children_view(*pair);
    }
    let name = child_string(&pair.children, 0);
    let body = build_body(&pair.children, 1);
    let s = StateDef { name, body };
    proof {
        crate::model::lemma_state_view(s);
    }
    s
}

/// Builds the state machine that a parse tree node stands for.
#[verifier::loop_isolation(false)]
pub fn build_state_machine(pair: &ParseNode) -> (m: StateMachine)
    ensures
        m@ == lower_state_machine(pair@),
    decreases pair, 0nat,
{
    proof {
        lemma_children_view(*pair);
    }
    let ghost c = pair@.children;
    let n = pair.children.len();
    let name = child_string(&pair.children, 0);
    let mut initial_state: Option<String> = None;
    let mut states: Vec<StateDef> = Vec::new();
    let mut i: usize = 1;
    assert(states_view(states@) =~= states_in(c, 1));
    while i < n
        invariant
            1 <= i,
            n > 0 ==> i <= n,
            crate::model::opt_text_view(initial_state) == initial_state_in(c, i as nat),
            states_view(states@) == states_in(c, i as nat),
        decreases n - i,
    {
        let item = &pair.children[i];
        if item.rule == Rule::StateMachineBody {
            proof {
                lemma_children_view(*item);
            }
            let ghost before = states_view(states@);
            let ghost first = crate::model::opt_text_view(initial_state);
            let ghost bc = item@.children;
            let mut j: usize = 0;
            assert(states_view(states@) =~= before + states_of_body(bc, 0));
            while j < item.children.len()
                invariant
                    j <= item.children.len(),
                    crate::model::opt_text_view(initial_state) == initial_of_body(
                        first,
                        bc,
                        j as nat,
                    ),
                    states_view(states@) == before + states_of_body(bc, j as nat),
                decreases item.children.len() - j,
            {
                let body_item = &item.children[j];
                if body_item.rule == Rule::Identifier {
                    initial_state = Some(body_item.text.clone());
                } else if body_item.rule == Rule::StateDef {
                    let state = build_state(body_item);
                    proof {
                        crate::model::lemma_states_push(states@, state);
                        assert((before + states_of_body(bc, j as nat)).push(state@) =~= before
                            + states_of_body(bc, j as nat).push(state@));
                    }
                    states.push(state);
                }
                j += 1;
            }
        } else if item.rule == Rule::StateDef {
            let state = build_state(item);
            proof {
                crate::model::lemma_states_push(states@, state);
            }
            states.push(state);
        }
        i += 1;
    }
    proof {
        if n == 0 {
            assert(states_in(c, 1) == states_in(c, 0));
            assert(initial_state_in(c, 1) == initial_state_in(c, 0));
        }
    }
    let m = StateMachine { name, initial_state, states };
    proof {
        crate::model::lemma_state_machine_view(m);
    }
    m
}

/// Builds the `while` loop that a parse tree node stands for.
pub fn build_while(pair: &ParseNode) -> (w: WhileStmt)
    ensures
        w@ == lower_while(pair@),
    decreases pair, 0nat,
{
    proof {
        lemma_children_view(*pair);
    }
    let condition = build_expression_at(&pair.children, 0);
    let body = build_body(&pair.children, 1);
    let w = WhileStmt { condition, body };
    proof {
        crate::model::lemma_while_view(w);
    }
    w
}

/// Builds the `for` loop that a parse tree node stands for.
pub fn build_for(pair: &ParseNode) -> (f: ForStmt)
    ensures
        f@ == lower_for(pair@),
    decreases pair, 0nat,
{
    proof {
        lemma_children_view(*pair);
    }
    let var_name = child_string(&pair.children, 0);
    let iterable = build_expression_at(&pair.children, 1);
    let body = build_body(&pair.children, 2);
    let f = ForStmt { var_name, iterable, body };
    proof {
        crate::model::lemma_for_view(f);
    }
    f
}

/// Builds the conditional that a parse tree node stands for.
#[verifier::loop_isolation(false)]
pub fn build_if(pair: &ParseNode) -> (s: IfStmt)
    ensures
        s@ == lower_if(pair@),
    decreases pair, 0nat,
{
    proof {
        lemma_children_view(*pair);
    }
    let ghost c = pair@.children;
    let n = pair.children.len();
    let condition = build_expression_at(&pair.children, 0);
    let mut then_body: Vec<Statement> = Vec::new();
    let mut elif_clauses: Vec<(Expr, Vec<Statement>)> = Vec::new();
    let mut else_body: Option<Vec<Statement>> = None;
    let mut i: usize = 1;
    assert(statements_view(then_body@) =~= then_body_in(c, 1));
    assert(elifs_view(elif_clauses@) =~= elifs_in(c, 1));
    while i < n
        invariant
            1 <= i,
            n > 0 ==> i <= n,
            statements_view(then_body@) == then_body_in(c, i as nat),
            elifs_view(elif_clauses@) == elifs_in(c, i as nat),
            crate::model::opt_body_view(else_body) == else_in(c, i as nat),
        decreases n - i,
    {
        let item = &pair.children[i];
        proof {
            lemma_children_view(*item);
        }
        match item.rule {
            Rule::Block => {
                if then_body.len() == 0 {
                    assert(statements_view(then_body@) =~= Seq::<StatementView>::empty());
                    append_statements(&mut then_body, &item.children);
                    assert(statements_view(then_body@) =~= lower_statements(
                        item@.children,
                        item@.children.len(),
                    ));
                }
            },
            Rule::ElifClause => {
                let elif_cond = build_expression_at(&item.children, 0);
                let mut elif_body: Vec<Statement> = Vec::new();
                assert(statements_view(elif_body@) =~= Seq::<StatementView>::empty());
                if item.children.len() > 1 {
                    let block = &item.children[1];
                    proof {
                        lemma_children_view(*block);
                    }
                    append_statements(&mut elif_body, &block.children);
                    assert(statements_view(elif_body@) =~= lower_statements(
                        block@.children,
                        block@.children.len(),
                    ));
                }
                proof {
                    crate::model::lemma_elifs_push(elif_clauses@, (elif_cond, elif_body));
                    if item.children.len() > 1 {
                        assert(item@.children[1] == item.children@[1]@);
                    }
                    assert(lower_elif(item@) == (elif_cond@, statements_view(elif_body@)));
                }
                elif_clauses.push((elif_cond, elif_body));
            },
            Rule::ElseClause => {
                let else_stmts = build_body(&item.children, 0);
                else_body = Some(else_stmts);
            },
            _ => {},
        }
        i += 1;
    }
    proof {
        if n == 0 {
            assert(then_body_in(c, 1) == then_body_in(c, 0));
            assert(elifs_in(c, 1) == elifs_in(c, 0));
            assert(else_in(c, 1) == else_in(c, 0));
        }
    }
    let s = IfStmt { condition, then_body, elif_clauses, else_body };
    proof {
        crate::model::lemma_if_view(s);
    }
    s
}

/// Builds the entity that a parse tree node stands for. Members that sit
/// inside an entity body are taken as those that sit beside it.
#[verifier::loop_isolation(false)]
pub fn build_entity(pair: &ParseNode) -> (e: EntityDef)
    ensures
        e@ == lower_entity(pair@),
    decreases pair, 0nat,
{
    proof {
        lemma_children_view(*pair);
    }
    let ghost c = pair@.children;
    let n = pair.children.len();
    let name = child_string(&pair.children, 0);
    let mut components: Vec<ComponentDef> = Vec::new();
    let mut functions: Vec<FnDef> = Vec::new();
    let mut signals: Vec<SignalDef> = Vec::new();
    let mut variables: Vec<VarDecl> = Vec::new();
    let mut i: usize = 1;
    assert(components_view(components@) =~= components_in(c, 1, 1, false));
    assert(fns_view(functions@) =~= functions_in(c, 1, 1, false));
    assert(signals_view(signals@) =~= signals_in(c, 1, 1, false));
    assert(var_decls_view(variables@) =~= variables_in(c, 1, 1, false));
    while i < n
        invariant
            1 <= i,
            n > 0 ==> i <= n,
            components_view(components@) == components_in(c, 1, i as nat, false),
            fns_view(functions@) == functions_in(c, 1, i as nat, false),
            signals_view(signals@) == signals_in(c, 1, i as nat, false),
            var_decls_view(variables@) == variables_in(c, 1, i as nat, false),
        decreases n - i,
    {
        let member = &pair.children[i];
        match member.rule {
            Rule::ComponentDef => {
                let item = build_component(member);
                proof {
                    crate::model::lemma_components_push(components@, item);
                }
                components.push(item);
            },
            Rule::FnDef => {
                let item = build_function(member);
                proof {
                    crate::model::lemma_fns_push(functions@, item);
                }
                functions.push(item);
            },
            Rule::SignalDef => {
                let item = build_signal(member);
                proof {
                    crate::model::lemma_signals_push(signals@, item);
                }
                signals.push(item);
            },
            Rule::VariableDecl => {
                let item = build_var_decl(member);
                proof {
                    crate::model::lemma_var_decls_push(variables@, item);
                }
                variables.push(item);
            },
            Rule::EntityBody => {
                proof {
                    lemma_children_view(*member);
                }
                let ghost bc = member@.children;
                let ghost c0 = components_view(components@);
                let ghost f0 = fns_view(functions@);
                let ghost s0 = signals_view(signals@);
                let ghost v0 = var_decls_view(variables@);
                let m = member.children.len();
                let mut j: usize = 0;
                assert(components_view(components@) =~= c0 + components_in(bc, 0, 0, true));
                assert(fns_view(functions@) =~= f0 + functions_in(bc, 0, 0, true));
                assert(signals_view(signals@) =~= s0 + signals_in(bc, 0, 0, true));
                assert(var_decls_view(variables@) =~= v0 + variables_in(bc, 0, 0, true));
                while j < m
                    invariant
                        j <= m,
                        m == member.children.len(),
                        components_view(components@) == c0 + components_in(bc, 0, j as nat, true),
                        fns_view(functions@) == f0 + functions_in(bc, 0, j as nat, true),
                        signals_view(signals@) == s0 + signals_in(bc, 0, j as nat, true),
                        var_decls_view(variables@) == v0 + variables_in(bc, 0, j as nat, true),
                    decreases m - j,
                {
                    let body_member = &member.children[j];
                    match body_member.rule {
                        Rule::ComponentDef => {
                            let item = build_component(body_member);
                            proof {
                                crate::model::lemma_components_push(components@, item);
                                assert((c0 + components_in(bc, 0, j as nat, true)).push(item@)
                                    =~= c0 + components_in(bc, 0, j as nat, true).push(item@));
                            }
                            components.push(item);
                        },
                        Rule::FnDef => {
                            let item = build_function(body_member);
                            proof {
                                crate::model::lemma_fns_push(functions@, item);
                                assert((f0 + functions_in(bc, 0, j as nat, true)).push(item@)
                                    =~= f0 + functions_in(bc, 0, j as nat, true).push(item@));
                            }
                            functions.push(item);
                        },
                        Rule::SignalDef => {
                            let item = build_signal(body_member);
                            proof {
                                crate::model::lemma_signals_push(signals@, item);
                                assert((s0 + signals_in(bc, 0, j as nat, true)).push(item@) =~= s0
                                    + signals_in(bc, 0, j as nat, true).push(item@));
                            }
                            signals.push(item);
                        },
                        Rule::VariableDecl => {
                            let item = build_var_decl(body_member);
                            proof {
                                crate::model::lemma_var_decls_push(variables@, item);
                                assert((v0 + variables_in(bc, 0, j as nat, true)).push(item@)
                                    =~= v0 + variables_in(bc, 0, j as nat, true).push(item@));
                            }
                            variables.push(item);
                        },
                        _ => {},
                    }
                    j += 1;
                }
            },
            _ => {},
        }
        i += 1;
    }
    proof {
        if n == 0 {
            assert(components_in(c, 1, 1, false) == components_in(c, 1, 0, false));
            assert(functions_in(c, 1, 1, false) == functions_in(c, 1, 0, false));
            assert(signals_in(c, 1, 1, false) == signals_in(c, 1, 0, false));
            assert(variables_in(c, 1, 1, false) == variables_in(c, 1, 0, false));
        }
    }
    let e = EntityDef { name, components, functions, signals, variables };
    proof {
        crate::model::lemma_entity_view(e);
    }
    e
}

/// Builds the program that the top-level nodes of a parse stand for.
#[verifier::loop_isolation(false)]
pub fn build_ast(pairs: &Vec<ParseNode>) -> (program: Program)
    ensures
        program@ == lower_program(trees_of(pairs@)),
{
    let ghost c = trees_of(pairs@);
    let mut statements: Vec<Statement> = Vec::new();
    let mut i: usize = 0;
    assert(statements_view(statements@) =~= program_statements(c, 0));
    while i < pairs.len()
        invariant
            i <= pairs.len(),
            statements_view(statements@) == program_statements(c, i as nat),
        decreases pairs.len() - i,
    {
        let pair = &pairs[i];
        if pair.rule == Rule::Program {
            proof {
                lemma_children_view(*pair);
            }
            append_statements(&mut statements, &pair.children);
        } else {
            match build_statement(pair) {
                Some(s) => {
                    proof {
                        crate::model::lemma_statements_push(statements@, s);
                    }
                    statements.push(s);
                },
                None => {},
            }
        }
        i += 1;
    }
    Program { statements }
}

/// Among the first `n` children, where none after the name is an
/// initialiser, the initial value is the integer literal `0`.
proof fn lemma_initial_value_default(c: Seq<Tree>, n: nat)
    requires
        forall|i: int| 1 <= i < c.len() ==> !is_initializer(#[trigger] c[i].rule),
    ensures
        initial_value(c, n) == ExprView::Int(0),
    decreases n,
{
    if n > 1 && n <= c.len() {
        assert(!is_initializer(c[n - 1].rule));
        lemma_initial_value_default(c, (n - 1) as nat);
    }
}

/// A variable declaration without an initialiser lowers to a declaration
/// whose value is the integer literal `0`.
pub proof fn lemma_default_initializer(t: Tree)
    requires
        forall|i: int| 1 <= i < t.children.len() ==> !is_initializer(#[trigger] t.children[i].rule),
    ensures
        lower_var_decl(t).value == ExprView::Int(0),
{
    lemma_initial_value_default(t.children, t.children.len());
}

/// The operands of a chain of binary operators associate to the left: the
/// fold over one more operator and operand has the fold so far as its left
/// operand.
pub proof fn lemma_fold_is_left_associative(c: Seq<Tree>, k: nat)
    requires
        k >= 1,
        2 * k < c.len(),
    ensures
        fold_binary(c, k) == ExprView::BinaryOp(
            Box::new(fold_binary(c, (k - 1) as nat)),
            binary_op_of(c[2 * k - 1].text),
            Box::new(lower_expr(c[2 * k as int])),
        ),
{
}

} // verus!
