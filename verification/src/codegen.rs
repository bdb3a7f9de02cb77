//! The code generator: renders a syntax tree as source text for the
//! target runtime. Generation is total: what it does not handle becomes a
//! placeholder comment.
use crate::ast::{
    AssignOp, BinaryOp, EntityDef, Expr, FnDef, LValue, Program, Statement, TypeExpr, UnaryOp,
};
use crate::model::{
    ArgView, EntityView, ExprView, FnView, ParamView, ProgramView, StatementView, TypeView,
    VarDeclView,
};
use crate::text::{chars_of, int_text, join, join_text, push_int, repeat, repeat_text, string_of_range};
use crate::type_checker::{infer, infer_type};
use vstd::prelude::*;
use vstd::string::*;

verus! {

/// The target's name for a type: its own for the four basic types, the
/// type's name otherwise; a generic type with its parameters in angle
/// brackets.
pub open spec fn type_text(t: TypeView) -> Seq<char>
    decreases t, 0nat,
{
    match t {
        TypeView::Simple(name) => {
            if name == "int"@ {
                "i32"@
            } else if name == "float"@ {
                "f32"@
            } else if name == "bool"@ {
                "bool"@
            } else if name == "str"@ {
                "String"@
            } else {
                name
            }
        },
        TypeView::Generic { name, params } => name + "<"@ + join_text(
            type_texts(params, params.len()),
            ", "@,
        ) + ">"@,
    }
}

/// The texts of the first `n` types.
pub open spec fn type_texts(types: Seq<TypeView>, n: nat) -> Seq<Seq<char>>
    decreases types, n,
{
    if n == 0 || n > types.len() {
        Seq::empty()
    } else {
        type_texts(types, (n - 1) as nat).push(type_text(types[n - 1]))
    }
}

/// Renders a type.
#[verifier::loop_isolation(false)]
pub fn transpile_type(type_expr: &TypeExpr) -> (s: String)
    ensures
        s@ == type_text(type_expr@),
    decreases type_expr,
{
    match type_expr {
        TypeExpr::Simple(name) => {
            if crate::text::str_eq(name.as_str(), "int") {
                String::from_str("i32")
            } else if crate::text::str_eq(name.as_str(), "float") {
                String::from_str("f32")
            } else if crate::text::str_eq(name.as_str(), "bool") {
                String::from_str("bool")
            } else if crate::text::str_eq(name.as_str(), "str") {
                String::from_str("String")
            } else {
                name.clone()
            }
        },
        TypeExpr::Generic { name, params } => {
            proof {
                crate::model::lemma_generic_view(*name, *params);
            }
            let ghost p = crate::model::types_view(params@);
            let mut parts: Vec<String> = Vec::new();
            let mut i: usize = 0;
            assert(crate::text::texts_of(parts@) =~= type_texts(p, 0));
            while i < params.len()
                invariant
                    i <= params.len(),
                    crate::text::texts_of(parts@) == type_texts(p, i as nat),
                decreases params.len() - i,
            {
                let part = transpile_type(&params[i]);
                proof {
                    crate::text::lemma_texts_push(parts@, part);
                }
                parts.push(part);
                i += 1;
            }
            let mut out = name.clone();
            out.append("<");
            out.append(join(&parts, ", ").as_str());
            out.append(">");
            out
        },
    }
}

/// The dotted path of an assignment's target.
pub fn transpile_lvalue(lvalue: &LValue) -> (s: String)
    ensures
        s@ == join_text(lvalue@, "."@),
{
    assert(crate::text::texts_of(lvalue.parts@) =~= lvalue@);
    join(&lvalue.parts, ".")
}

} // verus!

verus! {

/// The position of the first point in `s`, the length of `s` when it has
/// none.
pub open spec fn point_index(s: Seq<char>) -> int
    decreases s.len(),
{
    if s.len() == 0 || s[0] == '.' {
        0
    } else {
        1 + point_index(s.skip(1))
    }
}

/// `s` without the zeros at its start.
pub open spec fn without_leading_zeros(s: Seq<char>) -> Seq<char>
    decreases s.len(),
{
    if s.len() > 0 && s[0] == '0' {
        without_leading_zeros(s.skip(1))
    } else {
        s
    }
}

/// `s` without the zeros at its end.
pub open spec fn without_trailing_zeros(s: Seq<char>) -> Seq<char>
    decreases s.len(),
{
    if s.len() > 0 && s.last() == '0' {
        without_trailing_zeros(s.drop_last())
    } else {
        s
    }
}

/// `s`, or a single zero where `s` is empty.
pub open spec fn digits_or_zero(s: Seq<char>) -> Seq<char> {
    if s.len() == 0 {
        seq!['0']
    } else {
        s
    }
}

/// The text of a float literal in the target: its whole part without
/// leading zeros, a point, and its fractional part without trailing zeros,
/// each part being a single zero where nothing is left of it. The point is
/// always there, so that the target reads the literal as a float.
pub open spec fn float_text(s: Seq<char>) -> Seq<char> {
    let at = point_index(s);
    let whole = s.take(at);
    let fraction = if at < s.len() {
        s.skip(at + 1)
    } else {
        Seq::empty()
    };
    digits_or_zero(without_leading_zeros(whole)).push('.') + digits_or_zero(
        without_trailing_zeros(fraction),
    )
}

/// Renders a float literal.
#[verifier::loop_isolation(false)]
#[verifier::rlimit(40)]
pub fn transpile_float(literal: &str) -> (out: String)
    ensures
        out@ == float_text(literal@),
{
    let v = chars_of(literal);
    let n = v.len();
    let mut at: usize = 0;
    assert(v@.skip(0) =~= v@);
    while at < n && v[at] != '.'
        invariant
            at <= n,
            point_index(v@) == at + point_index(v@.skip(at as int)),
        decreases n - at,
    {
        assert(v@.skip(at as int).skip(1) =~= v@.skip(at + 1));
        at += 1;
    }
    assert(point_index(v@) == at);
    let ghost whole = v@.take(at as int);
    let ghost fraction = if at < n {
        v@.skip(at + 1)
    } else {
        Seq::empty()
    };
    let mut from: usize = 0;
    assert(v@.subrange(0, at as int) =~= whole);
    while from < at && v[from] == '0'
        invariant
            from <= at,
            without_leading_zeros(whole) == without_leading_zeros(
                v@.subrange(from as int, at as int),
            ),
        decreases at - from,
    {
        assert(v@.subrange(from as int, at as int).skip(1) =~= v@.subrange(from + 1, at as int));
        from += 1;
    }
    let start: usize = if at < n {
        at + 1
    } else {
        n
    };
    let mut to: usize = n;
    assert(v@.subrange(start as int, n as int) =~= fraction);
    while to > start && v[to - 1] == '0'
        invariant
            start <= to <= n,
            without_trailing_zeros(fraction) == without_trailing_zeros(
                v@.subrange(start as int, to as int),
            ),
        decreases to - start,
    {
        assert(v@.subrange(start as int, to as int).drop_last() =~= v@.subrange(
            start as int,
            to - 1,
        ));
        to -= 1;
    }
    let mut out = String::new();
    if from == at {
        out.push('0');
        assert(out@ =~= digits_or_zero(without_leading_zeros(whole)));
    } else {
        out = string_of_range(&v, from, at);
    }
    out.push('.');
    if to == start {
        out.push('0');
        assert(out@ =~= float_text(literal@));
    } else {
        let tail = string_of_range(&v, start, to);
        out.append(tail.as_str());
    }
    out
}

/// The target's text for a binary operator.
pub open spec fn binary_op_text(op: BinaryOp) -> Seq<char> {
    match op {
        BinaryOp::Add => "+"@,
        BinaryOp::Sub => "-"@,
        BinaryOp::Mul => "*"@,
        BinaryOp::Div => "/"@,
        BinaryOp::Mod => "%"@,
        BinaryOp::Eq => "=="@,
        BinaryOp::Ne => "!="@,
        BinaryOp::Lt => "<"@,
        BinaryOp::Le => "<="@,
        BinaryOp::Gt => ">"@,
        BinaryOp::Ge => ">="@,
        BinaryOp::And => "&&"@,
        BinaryOp::Or => "||"@,
    }
}

/// The target's text for a unary operator.
pub open spec fn unary_op_text(op: UnaryOp) -> Seq<char> {
    match op {
        UnaryOp::Neg => "-"@,
        UnaryOp::Not => "!"@,
    }
}

/// The text of an expression in the target. Operations stand in
/// parentheses; a list, a map and an indexing have no rendering and become
/// a placeholder.
pub open spec fn expr_text(e: ExprView) -> Seq<char>
    decreases e, 0nat,
{
    match e {
        ExprView::Int(n) => int_text(n),
        ExprView::Float(s) => float_text(s),
        ExprView::String(s) => "\""@ + s + "\""@,
        ExprView::Bool(b) => if b {
            "true"@
        } else {
            "false"@
        },
        ExprView::Identifier(name) => name,
        ExprView::BinaryOp(left, op, right) => "("@ + expr_text(*left) + " "@ + binary_op_text(op)
            + " "@ + expr_text(*right) + ")"@,
        ExprView::UnaryOp(op, operand) => "("@ + unary_op_text(op) + expr_text(*operand) + ")"@,
        ExprView::MemberAccess(base, member) => expr_text(*base) + "."@ + member,
        ExprView::Call { callee, args } => expr_text(*callee) + "("@ + join_text(
            arg_texts(args, args.len()),
            ", "@,
        ) + ")"@,
        ExprView::Vec2(x, y) => "Vec2::new("@ + expr_text(*x) + ", "@ + expr_text(*y) + ")"@,
        ExprView::Vec3(x, y, z) => "Vec3::new("@ + expr_text(*x) + ", "@ + expr_text(*y) + ", "@
            + expr_text(*z) + ")"@,
        _ => "/* expr */"@,
    }
}

/// The texts of the values of the first `n` arguments.
pub open spec fn arg_texts(args: Seq<ArgView>, n: nat) -> Seq<Seq<char>>
    decreases args, n,
{
    if n == 0 || n > args.len() {
        Seq::empty()
    } else {
        arg_texts(args, (n - 1) as nat).push(expr_text(args[n - 1].value))
    }
}

/// The texts of the first `n` expressions.
pub open spec fn expr_texts(exprs: Seq<ExprView>, n: nat) -> Seq<Seq<char>>
    decreases n,
{
    if n == 0 || n > exprs.len() {
        Seq::empty()
    } else {
        expr_texts(exprs, (n - 1) as nat).push(expr_text(exprs[n - 1]))
    }
}

fn binary_op_str(op: BinaryOp) -> (s: &'static str)
    ensures
        s@ == binary_op_text(op),
{
    match op {
        BinaryOp::Add => "+",
        BinaryOp::Sub => "-",
        BinaryOp::Mul => "*",
        BinaryOp::Div => "/",
        BinaryOp::Mod => "%",
        BinaryOp::Eq => "==",
        BinaryOp::Ne => "!=",
        BinaryOp::Lt => "<",
        BinaryOp::Le => "<=",
        BinaryOp::Gt => ">",
        BinaryOp::Ge => ">=",
        BinaryOp::And => "&&",
        BinaryOp::Or => "||",
    }
}

/// Renders an expression.
#[verifier::loop_isolation(false)]
pub fn transpile_expr(expr: &Expr) -> (s: String)
    ensures
        s@ == expr_text(expr@),
    decreases expr,
{
    match expr {
        Expr::Int(n) => {
            let mut out = String::new();
            push_int(&mut out, *n);
            assert(out@ =~= int_text(*n as int));
            out
        },
        Expr::Float(literal) => transpile_float(literal.as_str()),
        Expr::String(s) => {
            let mut out = String::from_str("\"");
            out.append(s.as_str());
            out.append("\"");
            out
        },
        Expr::Bool(b) => if *b {
            String::from_str("true")
        } else {
            String::from_str("false")
        },
        Expr::Identifier(name) => name.clone(),
        Expr::BinaryOp(left, op, right) => {
            let mut out = String::from_str("(");
            out.append(transpile_expr(left).as_str());
            out.append(" ");
            out.append(binary_op_str(*op));
            out.append(" ");
            out.append(transpile_expr(right).as_str());
            out.append(")");
            out
        },
        Expr::UnaryOp(op, operand) => {
            let mut out = String::from_str("(");
            match op {
                UnaryOp::Neg => out.append("-"),
                UnaryOp::Not => out.append("!"),
            }
            out.append(transpile_expr(operand).as_str());
            out.append(")");
            out
        },
        Expr::MemberAccess(base, member) => {
            let mut out = transpile_expr(base);
            out.append(".");
            out.append(member.as_str());
            out
        },
        Expr::Call { callee, args } => {
            proof {
                crate::model::lemma_call_view(*callee, *args);
            }
            let ghost a = crate::model::args_view(args@);
            let mut parts: Vec<String> = Vec::new();
            let mut i: usize = 0;
            assert(crate::text::texts_of(parts@) =~= arg_texts(a, 0));
            while i < args.len()
                invariant
                    i <= args.len(),
                    crate::text::texts_of(parts@) == arg_texts(a, i as nat),
                decreases args.len() - i,
            {
                let part = transpile_expr(&args[i].value);
                proof {
                    crate::text::lemma_texts_push(parts@, part);
                }
                parts.push(part);
                i += 1;
            }
            let mut out = transpile_expr(callee);
            out.append("(");
            out.append(join(&parts, ", ").as_str());
            out.append(")");
            out
        },
        Expr::Vec2(x, y) => {
            let mut out = String::from_str("Vec2::new(");
            out.append(transpile_expr(x).as_str());
            out.append(", ");
            out.append(transpile_expr(y).as_str());
            out.append(")");
            out
        },
        Expr::Vec3(x, y, z) => {
            let mut out = String::from_str("Vec3::new(");
            out.append(transpile_expr(x).as_str());
            out.append(", ");
            out.append(transpile_expr(y).as_str());
            out.append(", ");
            out.append(transpile_expr(z).as_str());
            out.append(")");
            out
        },
        _ => String::from_str("/* expr */"),
    }
}

} // verus!

verus! {

/// The text that `std::fmt::Debug` gives for a statement.
pub uninterp spec fn statement_debug_text(s: StatementView) -> Seq<char>;

/// `format!("{:?}", ..)` on a statement: the derived `Debug` rendering,
/// which depends on what the statement holds and on nothing else.
#[verifier::external_body]
fn debug_statement(stmt: &Statement) -> (r: String)
    ensures
        r@ == statement_debug_text(stmt@),
{
    format!("{:?}", stmt)
}

/// The target's text for an assignment operator.
pub open spec fn assign_op_text(op: AssignOp) -> Seq<char> {
    match op {
        AssignOp::Assign => "="@,
        AssignOp::AddAssign => "+="@,
        AssignOp::SubAssign => "-="@,
        AssignOp::MulAssign => "*="@,
        AssignOp::DivAssign => "/="@,
    }
}

/// One level of indentation.
pub open spec fn indent_unit() -> Seq<char> {
    "    "@
}

/// The text of a statement, each of its lines after `prefix`.
///
/// An entity expands into its data aggregate, its registration and its
/// systems. A function, a signal, a state machine and a `for` loop have no
/// rendering as statements and become a placeholder: one comment line. An
/// `emit` becomes one comment line that names the signal and shows its
/// arguments.
pub open spec fn statement_text(s: StatementView, prefix: Seq<char>) -> Seq<char>
    decreases s, 1nat,
{
    match s {
        StatementView::EntityDef(e) => entity_text(e),
        StatementView::VarDecl(v) => prefix + "let "@ + v.name + " = "@ + expr_text(v.value)
            + ";\n"@,
        StatementView::Assignment(a) => prefix + join_text(a.target, "."@) + " "@ + assign_op_text(
            a.op,
        ) + " "@ + expr_text(a.value) + ";\n"@,
        StatementView::If(i) => if_text(i, prefix),
        StatementView::While(w) => prefix + "while "@ + expr_text(w.condition) + " {\n"@
            + statements_text(w.body, prefix + indent_unit(), w.body.len()) + prefix + "}\n"@,
        StatementView::Emit(e) => emit_text(e, prefix),
        StatementView::Expr(e) => prefix + expr_text(e) + ";\n"@,
        StatementView::Return(value) => match value {
            Some(e) => prefix + "return "@ + expr_text(e) + ";\n"@,
            None => prefix + "return;\n"@,
        },
        _ => placeholder_text(s, prefix),
    }
}

/// Whether a statement has a rendering of its own. A function, a signal, a
/// state machine and a `for` loop have none as statements.
pub open spec fn is_rendered(s: StatementView) -> bool {
    !(s is FnDef || s is SignalDef || s is StateMachine || s is For)
}

/// The placeholder for a statement without a rendering: one comment line
/// that shows the statement as `std::fmt::Debug` gives it, with a blank in
/// place of any line feed, so that nothing of it can stand outside the
/// comment.
pub open spec fn placeholder_text(s: StatementView, prefix: Seq<char>) -> Seq<char> {
    prefix + "// TODO: transpile "@ + crate::text::single_line(statement_debug_text(s)) + "\n"@
}

/// The placeholder is inert: after a prefix that holds no line feed, it is
/// one comment line. The comment marker follows the prefix, and the only
/// line feed is the one that ends the text.
pub proof fn lemma_placeholder_is_one_comment(s: StatementView, prefix: Seq<char>)
    requires
        crate::text::on_one_line(prefix),
    ensures
        ({
            let text = placeholder_text(s, prefix);
            &&& text.len() >= prefix.len() + 3
            &&& text.subrange(0, prefix.len() as int) == prefix
            &&& text[prefix.len() as int] == '/'
            &&& text[prefix.len() as int + 1] == '/'
            &&& text.last() == '\n'
            &&& crate::text::on_one_line(text.drop_last())
        }),
{
    reveal_strlit("// TODO: transpile ");
    reveal_strlit("\n");
    let text = placeholder_text(s, prefix);
    let shown = crate::text::single_line(statement_debug_text(s));
    assert(crate::text::on_one_line(shown));
    assert(text.subrange(0, prefix.len() as int) =~= prefix);
    assert(text.drop_last() =~= prefix + "// TODO: transpile "@ + shown);
}

/// A statement without a rendering of its own becomes the placeholder,
/// and so one comment line.
pub proof fn lemma_unrendered_statement_is_one_comment(s: StatementView, prefix: Seq<char>)
    requires
        !is_rendered(s),
        crate::text::on_one_line(prefix),
    ensures
        statement_text(s, prefix) == placeholder_text(s, prefix),
        statement_text(s, prefix).last() == '\n',
        crate::text::on_one_line(statement_text(s, prefix).drop_last()),
{
    lemma_placeholder_is_one_comment(s, prefix);
}

/// The text of an `emit`: one comment line that names the signal and shows
/// its arguments, with a blank in place of any line feed. It has no effect
/// in the target.
pub open spec fn emit_text(e: crate::model::EmitView, prefix: Seq<char>) -> Seq<char> {
    prefix + "// emit "@ + crate::text::single_line(emit_call_text(e)) + ";\n"@
}

/// What an `emit` shows in its comment: the signal's name and, in
/// parentheses, the texts of its arguments.
pub open spec fn emit_call_text(e: crate::model::EmitView) -> Seq<char> {
    e.signal_name + "("@ + join_text(expr_texts(e.args, e.args.len()), ", "@) + ")"@
}

/// An `emit` is inert: after a prefix that holds no line feed, its text is
/// one comment line, whatever its name and its arguments hold.
pub proof fn lemma_emit_is_one_comment(e: crate::model::EmitView, prefix: Seq<char>)
    requires
        crate::text::on_one_line(prefix),
    ensures
        ({
            let text = emit_text(e, prefix);
            &&& text.len() >= prefix.len() + 3
            &&& text.subrange(0, prefix.len() as int) == prefix
            &&& text[prefix.len() as int] == '/'
            &&& text[prefix.len() as int + 1] == '/'
            &&& text.last() == '\n'
            &&& crate::text::on_one_line(text.drop_last())
        }),
{
    reveal_strlit("// emit ");
    reveal_strlit(";\n");
    let text = emit_text(e, prefix);
    let shown = crate::text::single_line(emit_call_text(e));
    assert(crate::text::on_one_line(shown));
    assert(text.subrange(0, prefix.len() as int) =~= prefix);
    assert(text.drop_last() =~= prefix + "// emit "@ + shown + seq![';']);
}

/// The text of a conditional: its branches in source order, the `else`
/// branch last.
pub open spec fn if_text(i: crate::model::IfView, prefix: Seq<char>) -> Seq<char>
    decreases i, 0nat,
{
    prefix + "if "@ + expr_text(i.condition) + " {\n"@ + statements_text(
        i.then_body,
        prefix + indent_unit(),
        i.then_body.len(),
    ) + prefix + "}"@ + elifs_text(i.elif_clauses, prefix, i.elif_clauses.len()) + else_text(
        i.else_body,
        prefix,
    ) + "\n"@
}

/// The text of the `else` branch of a conditional, empty where it has none.
pub open spec fn else_text(body: Option<Seq<StatementView>>, prefix: Seq<char>) -> Seq<char>
    decreases body, 0nat,
{
    match body {
        Some(body) => " else {\n"@ + statements_text(body, prefix + indent_unit(), body.len())
            + prefix + "}"@,
        None => Seq::empty(),
    }
}

/// The texts of the first `n` statements, one after the other.
pub open spec fn statements_text(stmts: Seq<StatementView>, prefix: Seq<char>, n: nat) -> Seq<char>
    decreases stmts, n,
{
    if n == 0 || n > stmts.len() {
        Seq::empty()
    } else {
        statements_text(stmts, prefix, (n - 1) as nat) + statement_text(stmts[n - 1], prefix)
    }
}

/// The texts of the first `n` `elif` clauses, in source order.
pub open spec fn elifs_text(
    elifs: Seq<(ExprView, Seq<StatementView>)>,
    prefix: Seq<char>,
    n: nat,
) -> Seq<char>
    decreases elifs, n,
{
    if n == 0 || n > elifs.len() {
        Seq::empty()
    } else {
        elifs_text(elifs, prefix, (n - 1) as nat) + " else if "@ + expr_text(elifs[n - 1].0)
            + " {\n"@ + statements_text(elifs[n - 1].1, prefix + indent_unit(), elifs[n - 1].1.len())
            + prefix + "}"@
    }
}

/// The target type of an entity's field: its annotation where it has one,
/// else the type inferred for its value, else a placeholder.
pub open spec fn field_type_text(v: VarDeclView) -> Seq<char> {
    match v.type_expr {
        Some(t) => type_text(t),
        None => match infer(v.value) {
            Some(t) => type_text(t),
            None => "/* infer */"@,
        },
    }
}

/// The field lines of an entity's data aggregate: one for each of the
/// first `n` variables.
pub open spec fn fields_text(vars: Seq<VarDeclView>, n: nat) -> Seq<char>
    decreases n,
{
    if n == 0 || n > vars.len() {
        Seq::empty()
    } else {
        fields_text(vars, (n - 1) as nat) + "    pub "@ + vars[n - 1].name + ": "@
            + field_type_text(vars[n - 1]) + ",\n"@
    }
}

/// The registration lines of an entity: one for each of the first `n`
/// functions that is named `on_update` or `on_ready`.
pub open spec fn registrations_text(fns: Seq<FnView>, lower: Seq<char>, n: nat) -> Seq<char>
    decreases n,
{
    if n == 0 || n > fns.len() {
        Seq::empty()
    } else {
        let rest = registrations_text(fns, lower, (n - 1) as nat);
        if fns[n - 1].name == "on_update"@ {
            rest + "        app.add_systems(Update, "@ + lower + "_on_update);\n"@
        } else if fns[n - 1].name == "on_ready"@ {
            rest + "        app.add_systems(Startup, "@ + lower + "_on_ready);\n"@
        } else {
            rest
        }
    }
}

/// The text of a statement inside a per-tick system: that of the
/// statement, with the position field of the transform component renamed
/// to the field of the loop's transform.
pub open spec fn system_statement_text(s: StatementView, prefix: Seq<char>) -> Seq<char>
    decreases s, 2nat,
{
    crate::text::replace_all(
        statement_text(s, prefix),
        "Transform.position"@,
        "transform.translation"@,
    )
}

/// The texts of the first `n` statements of a per-tick system.
pub open spec fn system_statements_text(stmts: Seq<StatementView>, prefix: Seq<char>, n: nat) -> Seq<
    char,
>
    decreases stmts, n,
{
    if n == 0 || n > stmts.len() {
        Seq::empty()
    } else {
        system_statements_text(stmts, prefix, (n - 1) as nat) + system_statement_text(
            stmts[n - 1],
            prefix,
        )
    }
}

/// The per-tick system of an entity: a loop over the entities that binds
/// the data aggregate and the transform of each, around the body of
/// `on_update`.
pub open spec fn update_system_text(name: Seq<char>, lower: Seq<char>, f: FnView) -> Seq<char>
    decreases f, 0nat,
{
    "fn "@ + lower + "_on_update(time: Res<Time>, mut query: Query<(&mut "@ + name
        + ", &mut Transform)>) {\n"@ + "    let delta = time.delta_seconds();\n"@
        + "    for (mut "@ + lower + ", mut transform) in query.iter_mut() {\n"@
        + system_statements_text(f.body, indent_unit() + indent_unit(), f.body.len())
        + "    }\n"@ + "}\n\n"@
}

/// The start-up system of an entity: a stub.
pub open spec fn ready_system_text(name: Seq<char>, lower: Seq<char>) -> Seq<char> {
    "fn "@ + lower + "_on_ready(mut commands: Commands) {\n"@ + "    // TODO: Spawn initial "@
        + name + " entities\n"@ + "}\n\n"@
}

/// The texts of the first `n` parameters, each as `name: type`.
pub open spec fn param_texts(params: Seq<ParamView>, n: nat) -> Seq<Seq<char>>
    decreases n,
{
    if n == 0 || n > params.len() {
        Seq::empty()
    } else {
        param_texts(params, (n - 1) as nat).push(
            params[n - 1].name + ": "@ + type_text(params[n - 1].type_expr),
        )
    }
}

/// The text of an ordinary function.
pub open spec fn function_text(f: FnView, prefix: Seq<char>) -> Seq<char>
    decreases f, 0nat,
{
    prefix + (if f.is_async {
        "pub async fn "@
    } else {
        "pub fn "@
    }) + f.name + "("@ + join_text(param_texts(f.params, f.params.len()), ", "@) + ")"@
        + (match f.return_type {
        Some(t) => " -> "@ + type_text(t),
        None => Seq::empty(),
    }) + " {\n"@ + statements_text(f.body, prefix + indent_unit(), f.body.len()) + prefix
        + "}\n\n"@
}

/// The systems and functions of an entity: for each of the first `n`
/// functions, the per-tick system for `on_update`, the start-up system for
/// `on_ready`, and the function itself for any other name.
pub open spec fn systems_text(fns: Seq<FnView>, name: Seq<char>, lower: Seq<char>, n: nat) -> Seq<
    char,
>
    decreases fns, n,
{
    if n == 0 || n > fns.len() {
        Seq::empty()
    } else {
        let rest = systems_text(fns, name, lower, (n - 1) as nat);
        let f = fns[n - 1];
        if f.name == "on_update"@ {
            rest + update_system_text(name, lower, f)
        } else if f.name == "on_ready"@ {
            rest + ready_system_text(name, lower)
        } else {
            rest + function_text(f, Seq::empty())
        }
    }
}

/// The data aggregate of an entity: one field for each variable.
pub open spec fn aggregate_text(name: Seq<char>, vars: Seq<VarDeclView>) -> Seq<char> {
    "#[derive(Component, Default)]\n"@ + "pub struct "@ + name + " {\n"@ + fields_text(
        vars,
        vars.len(),
    ) + "}\n\n"@
}

/// The plugin of an entity: it registers the aggregate and the lifecycle
/// functions.
pub open spec fn plugin_text(name: Seq<char>, lower: Seq<char>, fns: Seq<FnView>) -> Seq<char> {
    "pub struct "@ + name + "Plugin;\n"@ + "impl Plugin for "@ + name + "Plugin {\n"@
        + "    fn build(&self, app: &mut App) {\n"@ + "        app.register_type::<"@ + name
        + ">();\n"@ + registrations_text(fns, lower, fns.len()) + "    }\n"@ + "}\n\n"@
}

/// The text of an entity whose name in lower case is `lower`: its data
/// aggregate, its plugin, and its systems and functions.
pub open spec fn entity_text_with(e: EntityView, lower: Seq<char>) -> Seq<char>
    decreases e, 0nat,
{
    aggregate_text(e.name, e.variables) + plugin_text(e.name, lower, e.functions) + systems_text(
        e.functions,
        e.name,
        lower,
        e.functions.len(),
    )
}

/// The text of an entity: that of `entity_text_with`, for the entity's
/// name in lower case.
pub open spec fn entity_text(e: EntityView) -> Seq<char>
    decreases e, 1nat,
{
    entity_text_with(e, crate::text::lowercase_text(e.name))
}

/// The fixed head of every generated file.
pub open spec fn header_text() -> Seq<char> {
    "// Generated by NexScript compiler\n"@ + "// Do not edit manually\n\n"@
        + "use bevy::prelude::*;\n\n"@
}

/// The text generated for a program: the header, then the top-level
/// statements in source order.
pub open spec fn program_text(p: ProgramView) -> Seq<char> {
    header_text() + statements_text(p.statements, Seq::empty(), p.statements.len())
}

} // verus!

verus! {

fn assign_op_str(op: AssignOp) -> (s: &'static str)
    ensures
        s@ == assign_op_text(op),
{
    match op {
        AssignOp::Assign => "=",
        AssignOp::AddAssign => "+=",
        AssignOp::SubAssign => "-=",
        AssignOp::MulAssign => "*=",
        AssignOp::DivAssign => "/=",
    }
}

/// `prefix` with one more level of indentation.
fn deeper(prefix: &str) -> (s: String)
    ensures
        s@ == prefix@ + indent_unit(),
{
    let mut s = String::from_str(prefix);
    s.append("    ");
    s
}

/// Renders the statements of a block, each line after `prefix`.
#[verifier::loop_isolation(false)]
fn block_at(stmts: &Vec<Statement>, prefix: &str) -> (out: String)
    ensures
        out@ == statements_text(
            crate::model::statements_view(stmts@),
            prefix@,
            stmts.len() as nat,
        ),
    decreases stmts, 0nat,
{
    let ghost sv = crate::model::statements_view(stmts@);
    let mut out = String::new();
    let mut i: usize = 0;
    while i < stmts.len()
        invariant
            i <= stmts.len(),
            out@ == statements_text(sv, prefix@, i as nat),
        decreases stmts.len() - i,
    {
        let text = statement_at(&stmts[i], prefix);
        out.append(text.as_str());
        i += 1;
    }
    out
}

/// Renders an `emit`.
#[verifier::loop_isolation(false)]
fn emit_at(emit: &crate::ast::EmitStmt, prefix: &str) -> (out: String)
    ensures
        out@ == emit_text(emit@, prefix@),
{
    let ghost a = crate::model::exprs_view(emit.args@);
    let mut parts: Vec<String> = Vec::new();
    let mut i: usize = 0;
    assert(crate::text::texts_of(parts@) =~= expr_texts(a, 0));
    while i < emit.args.len()
        invariant
            i <= emit.args.len(),
            crate::text::texts_of(parts@) == expr_texts(a, i as nat),
        decreases emit.args.len() - i,
    {
        let part = transpile_expr(&emit.args[i]);
        proof {
            crate::text::lemma_texts_push(parts@, part);
        }
        parts.push(part);
        i += 1;
    }
    let mut shown = emit.signal_name.clone();
    shown.append("(");
    shown.append(join(&parts, ", ").as_str());
    shown.append(")");
    let mut out = String::from_str(prefix);
    out.append("// emit ");
    out.append(crate::text::to_single_line(shown.as_str()).as_str());
    out.append(";\n");
    out
}

/// Renders the `elif` clauses of a conditional.
#[verifier::loop_isolation(false)]
fn elifs_at(clauses: &Vec<(Expr, Vec<Statement>)>, prefix: &str) -> (out: String)
    ensures
        out@ == elifs_text(crate::model::elifs_view(clauses@), prefix@, clauses.len() as nat),
    decreases clauses, 0nat,
{
    let ghost ev = crate::model::elifs_view(clauses@);
    let inner = deeper(prefix);
    let mut out = String::new();
    let mut k: usize = 0;
    while k < clauses.len()
        invariant
            k <= clauses.len(),
            out@ == elifs_text(ev, prefix@, k as nat),
        decreases clauses.len() - k,
    {
        let ghost before = out@;
        let clause = &clauses[k];
        let condition = transpile_expr(&clause.0);
        let body = block_at(&clause.1, inner.as_str());
        out.append(" else if ");
        out.append(condition.as_str());
        out.append(" {\n");
        out.append(body.as_str());
        out.append(prefix);
        out.append("}");
        k += 1;
    }
    out
}

/// Renders the `else` branch of a conditional.
fn else_at(body: &Option<Vec<Statement>>, prefix: &str) -> (out: String)
    ensures
        out@ == else_text(crate::model::opt_body_view(*body), prefix@),
    decreases body, 1nat,
{
    match body {
        Some(else_body) => {
            let inner = deeper(prefix);
            let mut out = String::from_str(" else {\n");
            out.append(block_at(else_body, inner.as_str()).as_str());
            out.append(prefix);
            out.append("}");
            out
        },
        None => String::new(),
    }
}

/// Renders a conditional.
fn if_at(if_stmt: &crate::ast::IfStmt, prefix: &str) -> (out: String)
    ensures
        out@ == if_text(if_stmt@, prefix@),
    decreases if_stmt, 0nat,
{
    proof {
        crate::model::lemma_if_view(*if_stmt);
    }
    let inner = deeper(prefix);
    let condition = transpile_expr(&if_stmt.condition);
    let then_body = block_at(&if_stmt.then_body, inner.as_str());
    let elifs = elifs_at(&if_stmt.elif_clauses, prefix);
    let else_body = else_at(&if_stmt.else_body, prefix);
    let mut out = String::from_str(prefix);
    out.append("if ");
    out.append(condition.as_str());
    out.append(" {\n");
    out.append(then_body.as_str());
    out.append(prefix);
    out.append("}");
    out.append(elifs.as_str());
    out.append(else_body.as_str());
    out.append("\n");
    out
}

/// Renders a statement, each of its lines after `prefix`.
#[verifier::loop_isolation(false)]
fn statement_at(stmt: &Statement, prefix: &str) -> (out: String)
    ensures
        out@ == statement_text(stmt@, prefix@),
    decreases stmt, 1nat,
{
    match stmt {
        Statement::EntityDef(entity) => transpile_entity(entity),
        Statement::VarDecl(var) => {
            let mut out = String::from_str(prefix);
            out.append("let ");
            out.append(var.name.as_str());
            out.append(" = ");
            out.append(transpile_expr(&var.value).as_str());
            out.append(";\n");
            out
        },
        Statement::Assignment(assign) => {
            let mut out = String::from_str(prefix);
            out.append(transpile_lvalue(&assign.target).as_str());
            out.append(" ");
            out.append(assign_op_str(assign.op));
            out.append(" ");
            out.append(transpile_expr(&assign.value).as_str());
            out.append(";\n");
            out
        },
        Statement::If(if_stmt) => if_at(if_stmt, prefix),
        Statement::While(while_stmt) => {
            proof {
                crate::model::lemma_while_view(*while_stmt);
            }
            let inner = deeper(prefix);
            let mut out = String::from_str(prefix);
            out.append("while ");
            out.append(transpile_expr(&while_stmt.condition).as_str());
            out.append(" {\n");
            out.append(block_at(&while_stmt.body, inner.as_str()).as_str());
            out.append(prefix);
            out.append("}\n");
            out
        },
        Statement::Emit(emit) => emit_at(emit, prefix),
        Statement::Expr(expr) => {
            let mut out = String::from_str(prefix);
            out.append(transpile_expr(expr).as_str());
            out.append(";\n");
            out
        },
        Statement::Return(value) => match value {
            Some(e) => {
                let mut out = String::from_str(prefix);
                out.append("return ");
                out.append(transpile_expr(e).as_str());
                out.append(";\n");
                out
            },
            None => {
                let mut out = String::from_str(prefix);
                out.append("return;\n");
                out
            },
        },
        _ => {
            let mut out = String::from_str(prefix);
            out.append("// TODO: transpile ");
            out.append(crate::text::to_single_line(debug_statement(stmt).as_str()).as_str());
            out.append("\n");
            out
        },
    }
}

/// Renders a statement at a level of indentation.
pub fn transpile_statement(stmt: &Statement, indent: usize) -> (out: String)
    ensures
        out@ == statement_text(stmt@, repeat_text(indent_unit(), indent as nat)),
{
    let prefix = repeat("    ", indent);
    statement_at(stmt, prefix.as_str())
}

/// Renders a statement of a per-tick system, each line after `prefix`.
fn system_statement_at(stmt: &Statement, prefix: &str) -> (out: String)
    ensures
        out@ == system_statement_text(stmt@, prefix@),
    decreases stmt, 2nat,
{
    let raw = statement_at(stmt, prefix);
    crate::text::replace(raw.as_str(), "Transform.position", "transform.translation")
}

/// Renders a statement of the body of a per-tick system: as
/// `transpile_statement` does, and with the position field of the
/// transform component renamed to the field of the loop's transform.
pub fn transpile_statement_in_system(stmt: &Statement, indent: usize, entity_name: &str) -> (out:
    String)
    ensures
        out@ == system_statement_text(stmt@, repeat_text(indent_unit(), indent as nat)),
{
    let prefix = repeat("    ", indent);
    system_statement_at(stmt, prefix.as_str())
}

/// Renders an ordinary function, each line after `prefix`.
#[verifier::loop_isolation(false)]
fn function_at(func: &FnDef, prefix: &str) -> (out: String)
    ensures
        out@ == function_text(func@, prefix@),
    decreases func, 0nat,
{
    proof {
        crate::model::lemma_fn_view(*func);
    }
    let ghost fv = func@;
    let mut parts: Vec<String> = Vec::new();
    let mut i: usize = 0;
    assert(crate::text::texts_of(parts@) =~= param_texts(fv.params, 0));
    while i < func.params.len()
        invariant
            i <= func.params.len(),
            crate::text::texts_of(parts@) == param_texts(fv.params, i as nat),
        decreases func.params.len() - i,
    {
        let mut part = func.params[i].name.clone();
        part.append(": ");
        part.append(transpile_type(&func.params[i].type_expr).as_str());
        proof {
            crate::text::lemma_texts_push(parts@, part);
        }
        parts.push(part);
        i += 1;
    }
    let inner = deeper(prefix);
    let mut out = String::from_str(prefix);
    if func.is_async {
        out.append("pub async fn ");
    } else {
        out.append("pub fn ");
    }
    out.append(func.name.as_str());
    out.append("(");
    out.append(join(&parts, ", ").as_str());
    out.append(")");
    let ghost head = out@;
    match &func.return_type {
        Some(t) => {
            out.append(" -> ");
            out.append(transpile_type(t).as_str());
            assert(out@ =~= head + (" -> "@ + type_text(t@)));
        },
        None => {
            assert(out@ =~= head + Seq::<char>::empty());
        },
    }
    out.append(" {\n");
    out.append(block_at(&func.body, inner.as_str()).as_str());
    out.append(prefix);
    out.append("}\n\n");
    out
}

/// Renders an ordinary function at a level of indentation.
pub fn transpile_function(func: &FnDef, indent: usize) -> (out: String)
    ensures
        out@ == function_text(func@, repeat_text(indent_unit(), indent as nat)),
{
    let prefix = repeat("    ", indent);
    function_at(func, prefix.as_str())
}

/// Renders the per-tick system of an entity around the body of `func`.
pub fn transpile_update_system(entity: &EntityDef, func: &FnDef) -> (out: String)
    ensures
        out@ == update_system_text(
            entity.name@,
            crate::text::lowercase_text(entity.name@),
            func@,
        ),
    decreases func, 1nat,
{
    let lower = crate::text::to_lowercase(entity.name.as_str());
    transpile_update_system_with(entity, func, lower.as_str())
}

/// Renders the per-tick system of an entity around the body of `func`,
/// given the entity's name in lower case.
#[verifier::loop_isolation(false)]
pub fn transpile_update_system_with(entity: &EntityDef, func: &FnDef, lower: &str) -> (out: String)
    ensures
        out@ == update_system_text(entity.name@, lower@, func@),
    decreases func, 0nat,
{
    proof {
        crate::model::lemma_fn_view(*func);
    }
    let ghost body = func@.body;
    let prefix = deeper("    ");
    let mut out = String::from_str("fn ");
    out.append(lower);
    out.append("_on_update(time: Res<Time>, mut query: Query<(&mut ");
    out.append(entity.name.as_str());
    out.append(", &mut Transform)>) {\n");
    out.append("    let delta = time.delta_seconds();\n");
    out.append("    for (mut ");
    out.append(lower);
    out.append(", mut transform) in query.iter_mut() {\n");
    let ghost base = out@;
    let mut i: usize = 0;
    assert(out@ =~= base + system_statements_text(body, prefix@, 0));
    while i < func.body.len()
        invariant
            i <= func.body.len(),
            out@ == base + system_statements_text(body, prefix@, i as nat),
        decreases func.body.len() - i,
    {
        let text = system_statement_at(&func.body[i], prefix.as_str());
        out.append(text.as_str());
        assert(out@ =~= base + system_statements_text(body, prefix@, (i + 1) as nat));
        i += 1;
    }
    out.append("    }\n");
    out.append("}\n\n");
    out
}

/// Renders the start-up system of an entity: a stub.
pub fn transpile_ready_system(entity: &EntityDef, func: &FnDef) -> (out: String)
    ensures
        out@ == ready_system_text(entity.name@, crate::text::lowercase_text(entity.name@)),
{
    let lower = crate::text::to_lowercase(entity.name.as_str());
    transpile_ready_system_with(entity, func, lower.as_str())
}

/// Renders the start-up system of an entity, given the entity's name in
/// lower case.
pub fn transpile_ready_system_with(entity: &EntityDef, _func: &FnDef, lower: &str) -> (out:
    String)
    ensures
        out@ == ready_system_text(entity.name@, lower@),
{
    let mut out = String::from_str("fn ");
    out.append(lower);
    out.append("_on_ready(mut commands: Commands) {\n");
    out.append("    // TODO: Spawn initial ");
    out.append(entity.name.as_str());
    out.append(" entities\n");
    out.append("}\n\n");
    out
}

/// The target type of an entity's field.
fn field_type(var: &crate::ast::VarDecl) -> (out: String)
    ensures
        out@ == field_type_text(var@),
{
    match &var.type_expr {
        Some(t) => transpile_type(t),
        None => match infer_type(&var.value) {
            Some(inferred) => transpile_type(&inferred),
            None => String::from_str("/* infer */"),
        },
    }
}

/// Renders the data aggregate of an entity.
#[verifier::loop_isolation(false)]
fn aggregate_of(entity: &EntityDef) -> (out: String)
    ensures
        out@ == aggregate_text(entity.name@, crate::model::var_decls_view(entity.variables@)),
{
    let ghost vars = crate::model::var_decls_view(entity.variables@);
    let mut fields = String::new();
    let mut i: usize = 0;
    while i < entity.variables.len()
        invariant
            i <= entity.variables.len(),
            fields@ == fields_text(vars, i as nat),
        decreases entity.variables.len() - i,
    {
        let var = &entity.variables[i];
        let kind = field_type(var);
        fields.append("    pub ");
        fields.append(var.name.as_str());
        fields.append(": ");
        fields.append(kind.as_str());
        fields.append(",\n");
        i += 1;
    }
    let mut out = String::from_str("#[derive(Component, Default)]\n");
    out.append("pub struct ");
    out.append(entity.name.as_str());
    out.append(" {\n");
    out.append(fields.as_str());
    out.append("}\n\n");
    out
}

/// Renders the plugin of an entity.
#[verifier::loop_isolation(false)]
fn plugin_of(entity: &EntityDef, lower: &str) -> (out: String)
    ensures
        out@ == plugin_text(entity.name@, lower@, crate::model::fns_view(entity.functions@)),
{
    let ghost fns = crate::model::fns_view(entity.functions@);
    let on_update = String::from_str("on_update");
    let on_ready = String::from_str("on_ready");
    let mut lines = String::new();
    let mut i: usize = 0;
    while i < entity.functions.len()
        invariant
            i <= entity.functions.len(),
            lines@ == registrations_text(fns, lower@, i as nat),
        decreases entity.functions.len() - i,
    {
        let func = &entity.functions[i];
        proof {
            crate::model::lemma_fn_view(*func);
        }
        if func.name == on_update {
            lines.append("        app.add_systems(Update, ");
            lines.append(lower);
            lines.append("_on_update);\n");
        } else if func.name == on_ready {
            lines.append("        app.add_systems(Startup, ");
            lines.append(lower);
            lines.append("_on_ready);\n");
        }
        i += 1;
    }
    let mut out = String::from_str("pub struct ");
    out.append(entity.name.as_str());
    out.append("Plugin;\n");
    out.append("impl Plugin for ");
    out.append(entity.name.as_str());
    out.append("Plugin {\n");
    out.append("    fn build(&self, app: &mut App) {\n");
    out.append("        app.register_type::<");
    out.append(entity.name.as_str());
    out.append(">();\n");
    out.append(lines.as_str());
    out.append("    }\n");
    out.append("}\n\n");
    out
}

/// Renders the systems and functions of an entity.
#[verifier::loop_isolation(false)]
fn systems_of(entity: &EntityDef, lower: &str) -> (out: String)
    ensures
        out@ == systems_text(
            crate::model::fns_view(entity.functions@),
            entity.name@,
            lower@,
            entity.functions.len() as nat,
        ),
    decreases entity, 0nat,
{
    let ghost fns = crate::model::fns_view(entity.functions@);
    let on_update = String::from_str("on_update");
    let on_ready = String::from_str("on_ready");
    let empty = String::new();
    let mut out = String::new();
    let mut i: usize = 0;
    while i < entity.functions.len()
        invariant
            i <= entity.functions.len(),
            out@ == systems_text(fns, entity.name@, lower@, i as nat),
        decreases entity.functions.len() - i,
    {
        let func = &entity.functions[i];
        proof {
            crate::model::lemma_fn_view(*func);
        }
        if func.name == on_update {
            out.append(transpile_update_system_with(entity, func, lower).as_str());
        } else if func.name == on_ready {
            out.append(transpile_ready_system_with(entity, func, lower).as_str());
        } else {
            out.append(function_at(func, empty.as_str()).as_str());
        }
        i += 1;
    }
    out
}

/// Renders an entity: its data aggregate, its plugin and its systems.
pub fn transpile_entity(entity: &EntityDef) -> (out: String)
    ensures
        out@ == entity_text(entity@),
    decreases entity, 2nat,
{
    proof {
        crate::model::lemma_entity_view(*entity);
    }
    let lower = crate::text::to_lowercase(entity.name.as_str());
    transpile_entity_with(entity, lower.as_str())
}

/// Renders an entity, given its name in lower case.
pub fn transpile_entity_with(entity: &EntityDef, lower: &str) -> (out: String)
    ensures
        out@ == entity_text_with(entity@, lower@),
        out@ == aggregate_text(entity@.name, entity@.variables) + plugin_text(
            entity@.name,
            lower@,
            entity@.functions,
        ) + systems_text(entity@.functions, entity@.name, lower@, entity@.functions.len()),
    decreases entity, 1nat,
{
    proof {
        crate::model::lemma_entity_view(*entity);
    }
    let mut out = aggregate_of(entity);
    out.append(plugin_of(entity, lower).as_str());
    out.append(systems_of(entity, lower).as_str());
    out
}

/// Generates the target source text of a program.
#[verifier::loop_isolation(false)]
pub fn transpile(program: &Program) -> (out: String)
    ensures
        out@ == program_text(program@),
{
    let empty = String::new();
    let mut out = String::from_str("// Generated by NexScript compiler\n");
    out.append("// Do not edit manually\n\n");
    out.append("use bevy::prelude::*;\n\n");
    out.append(block_at(&program.statements, empty.as_str()).as_str());
    out
}

/// Generation depends on the program alone: two programs with the same
/// view have the same text, so that generating twice from one program
/// gives the same text twice.
pub proof fn lemma_generation_is_repeatable(first: Program, second: Program)
    requires
        first@ == second@,
    ensures
        program_text(first@) == program_text(second@),
{
}

/// Every generated text starts with the fixed header.
pub proof fn lemma_header_comes_first(program: ProgramView)
    ensures
        header_text().is_prefix_of(program_text(program)),
{
    assert(program_text(program).subrange(0, header_text().len() as int) =~= header_text());
}

} // verus!
