//! The grammar of the language: the body of each rule, as a parsing
//! expression over the marker-annotated text.
//!
//! White space is skipped after each token, never inside one: a rule that
//! stands for a token (a name, a literal, an operator) matches the token
//! alone, and what uses it skips the white space that follows.
use crate::peg::Peg;
use crate::tree::Rule;
use vstd::prelude::*;

verus! {

/// Whether a match of the rule becomes a node of the parse tree. The
/// helper rules (white space, the choice among statements, the classes of
/// characters) yield none.
pub open spec fn emits_node(rule: Rule) -> bool {
    !(rule == Rule::Statement || rule == Rule::EntityMember || rule == Rule::Primary || rule
        == Rule::Keyword || rule == Rule::IdentStart || rule == Rule::IdentCont || rule
        == Rule::Digit || rule == Rule::Whitespace || rule == Rule::Comment || rule
        == Rule::Newline || rule == Rule::LineEnd)
}

/// Whether a match of the rule becomes a node of the parse tree.
pub fn yields_node(rule: Rule) -> (r: bool)
    ensures
        r == emits_node(rule),
{
    !(rule == Rule::Statement || rule == Rule::EntityMember || rule == Rule::Primary || rule
        == Rule::Keyword || rule == Rule::IdentStart || rule == Rule::IdentCont || rule
        == Rule::Digit || rule == Rule::Whitespace || rule == Rule::Comment || rule
        == Rule::Newline || rule == Rule::LineEnd)
}

/// The text `s`.
pub open spec fn text_expr(s: &'static str) -> Peg {
    Peg::Lit(s)
}

/// The text `s`.
#[verifier::when_used_as_spec(text_expr)]
pub fn text(s: &'static str) -> (made: Peg)
    ensures
        made == text_expr(s),
{
    Peg::Lit(s)
}

/// One character from `low` to `high`.
pub open spec fn one_of_expr(low: char, high: char) -> Peg {
    Peg::Range(low, high)
}

/// One character from `low` to `high`.
#[verifier::when_used_as_spec(one_of_expr)]
pub fn one_of(low: char, high: char) -> (made: Peg)
    ensures
        made == one_of_expr(low, high),
{
    Peg::Range(low, high)
}

/// Any one character.
pub open spec fn any_char_expr() -> Peg {
    Peg::Any
}

/// Any one character.
#[verifier::when_used_as_spec(any_char_expr)]
pub fn any_char() -> (made: Peg)
    ensures
        made == any_char_expr(),
{
    Peg::Any
}

/// `a`, then `b`.
pub open spec fn both_expr(a: Peg, b: Peg) -> Peg {
    Peg::Then(Box::new(a), Box::new(b))
}

/// `a`, then `b`.
#[verifier::when_used_as_spec(both_expr)]
pub fn both(a: Peg, b: Peg) -> (made: Peg)
    ensures
        made == both_expr(a, b),
{
    Peg::Then(Box::new(a), Box::new(b))
}

/// `a` or, failing that, `b`.
pub open spec fn either_expr(a: Peg, b: Peg) -> Peg {
    Peg::Or(Box::new(a), Box::new(b))
}

/// `a` or, failing that, `b`.
#[verifier::when_used_as_spec(either_expr)]
pub fn either(a: Peg, b: Peg) -> (made: Peg)
    ensures
        made == either_expr(a, b),
{
    Peg::Or(Box::new(a), Box::new(b))
}

/// `a`, as often as it matches.
pub open spec fn star_expr(a: Peg) -> Peg {
    Peg::Many(Box::new(a))
}

/// `a`, as often as it matches.
#[verifier::when_used_as_spec(star_expr)]
pub fn star(a: Peg) -> (made: Peg)
    ensures
        made == star_expr(a),
{
    Peg::Many(Box::new(a))
}

/// `a`, or nothing.
pub open spec fn opt_expr(a: Peg) -> Peg {
    Peg::Maybe(Box::new(a))
}

/// `a`, or nothing.
#[verifier::when_used_as_spec(opt_expr)]
pub fn opt(a: Peg) -> (made: Peg)
    ensures
        made == opt_expr(a),
{
    Peg::Maybe(Box::new(a))
}

/// Nothing, where `a` does not match.
pub open spec fn unless_expr(a: Peg) -> Peg {
    Peg::Not(Box::new(a))
}

/// Nothing, where `a` does not match.
#[verifier::when_used_as_spec(unless_expr)]
pub fn unless(a: Peg) -> (made: Peg)
    ensures
        made == unless_expr(a),
{
    Peg::Not(Box::new(a))
}

/// The rule `r`.
pub open spec fn rule_expr(r: Rule) -> Peg {
    Peg::Call(r)
}

/// The rule `r`.
#[verifier::when_used_as_spec(rule_expr)]
pub fn rule(r: Rule) -> (made: Peg)
    ensures
        made == rule_expr(r),
{
    Peg::Call(r)
}

/// The token `r` and the white space after it.
pub open spec fn tok_expr(r: Rule) -> Peg {
    both(rule(r), rule(Rule::Whitespace))
}

/// The token `r` and the white space after it.
#[verifier::when_used_as_spec(tok_expr)]
pub fn tok(r: Rule) -> (made: Peg)
    ensures
        made == tok_expr(r),
{
    both(rule(r), rule(Rule::Whitespace))
}

/// The symbol `s` and the white space after it.
pub open spec fn sym_expr(s: &'static str) -> Peg {
    both(text(s), rule(Rule::Whitespace))
}

/// The symbol `s` and the white space after it.
#[verifier::when_used_as_spec(sym_expr)]
pub fn sym(s: &'static str) -> (made: Peg)
    ensures
        made == sym_expr(s),
{
    both(text(s), rule(Rule::Whitespace))
}

/// The word `s`: the text, with no letter or digit after it.
pub open spec fn word_expr(s: &'static str) -> Peg {
    both(text(s), unless(rule(Rule::IdentCont)))
}

/// The word `s`: the text, with no letter or digit after it.
#[verifier::when_used_as_spec(word_expr)]
pub fn word(s: &'static str) -> (made: Peg)
    ensures
        made == word_expr(s),
{
    both(text(s), unless(rule(Rule::IdentCont)))
}

/// The word `s` and the white space after it.
pub open spec fn kw_expr(s: &'static str) -> Peg {
    both(word(s), rule(Rule::Whitespace))
}

/// The word `s` and the white space after it.
#[verifier::when_used_as_spec(kw_expr)]
pub fn kw(s: &'static str) -> (made: Peg)
    ensures
        made == kw_expr(s),
{
    both(word(s), rule(Rule::Whitespace))
}

/// The expressions one after the other.
pub open spec fn chain3_expr(a: Peg, b: Peg, c: Peg) -> Peg {
    both(a, both(b, c))
}

/// The expressions one after the other.
#[verifier::when_used_as_spec(chain3_expr)]
pub fn chain3(a: Peg, b: Peg, c: Peg) -> (made: Peg)
    ensures
        made == chain3_expr(a, b, c),
{
    both(a, both(b, c))
}

/// The expressions one after the other.
pub open spec fn chain4_expr(a: Peg, b: Peg, c: Peg, d: Peg) -> Peg {
    both(a, chain3(b, c, d))
}

/// The expressions one after the other.
#[verifier::when_used_as_spec(chain4_expr)]
pub fn chain4(a: Peg, b: Peg, c: Peg, d: Peg) -> (made: Peg)
    ensures
        made == chain4_expr(a, b, c, d),
{
    both(a, chain3(b, c, d))
}

/// The expressions one after the other.
pub open spec fn chain5_expr(a: Peg, b: Peg, c: Peg, d: Peg, e: Peg) -> Peg {
    both(a, chain4(b, c, d, e))
}

/// The expressions one after the other.
#[verifier::when_used_as_spec(chain5_expr)]
pub fn chain5(a: Peg, b: Peg, c: Peg, d: Peg, e: Peg) -> (made: Peg)
    ensures
        made == chain5_expr(a, b, c, d, e),
{
    both(a, chain4(b, c, d, e))
}

/// The expressions one after the other.
pub open spec fn chain6_expr(a: Peg, b: Peg, c: Peg, d: Peg, e: Peg, f: Peg) -> Peg {
    both(a, chain5(b, c, d, e, f))
}

/// The expressions one after the other.
#[verifier::when_used_as_spec(chain6_expr)]
pub fn chain6(a: Peg, b: Peg, c: Peg, d: Peg, e: Peg, f: Peg) -> (made: Peg)
    ensures
        made == chain6_expr(a, b, c, d, e, f),
{
    both(a, chain5(b, c, d, e, f))
}

/// The expressions one after the other.
pub open spec fn chain7_expr(a: Peg, b: Peg, c: Peg, d: Peg, e: Peg, f: Peg, g: Peg) -> Peg {
    both(a, chain6(b, c, d, e, f, g))
}

/// The expressions one after the other.
#[verifier::when_used_as_spec(chain7_expr)]
pub fn chain7(a: Peg, b: Peg, c: Peg, d: Peg, e: Peg, f: Peg, g: Peg) -> (made: Peg)
    ensures
        made == chain7_expr(a, b, c, d, e, f, g),
{
    both(a, chain6(b, c, d, e, f, g))
}

/// The expressions one after the other.
pub open spec fn chain8_expr(a: Peg, b: Peg, c: Peg, d: Peg, e: Peg, f: Peg, g: Peg, h: Peg) -> Peg {
    both(a, chain7(b, c, d, e, f, g, h))
}

/// The expressions one after the other.
#[verifier::when_used_as_spec(chain8_expr)]
pub fn chain8(a: Peg, b: Peg, c: Peg, d: Peg, e: Peg, f: Peg, g: Peg, h: Peg) -> (made: Peg)
    ensures
        made == chain8_expr(a, b, c, d, e, f, g, h),
{
    both(a, chain7(b, c, d, e, f, g, h))
}

/// The expressions one after the other.
pub open spec fn chain9_expr(a: Peg, b: Peg, c: Peg, d: Peg, e: Peg, f: Peg, g: Peg, h: Peg, i: Peg) -> Peg {
    both(a, chain8(b, c, d, e, f, g, h, i))
}

/// The expressions one after the other.
#[verifier::when_used_as_spec(chain9_expr)]
pub fn chain9(a: Peg, b: Peg, c: Peg, d: Peg, e: Peg, f: Peg, g: Peg, h: Peg, i: Peg) -> (made: Peg)
    ensures
        made == chain9_expr(a, b, c, d, e, f, g, h, i),
{
    both(a, chain8(b, c, d, e, f, g, h, i))
}

/// The first of the expressions that matches.
pub open spec fn pick3_expr(a: Peg, b: Peg, c: Peg) -> Peg {
    either(a, either(b, c))
}

/// The first of the expressions that matches.
#[verifier::when_used_as_spec(pick3_expr)]
pub fn pick3(a: Peg, b: Peg, c: Peg) -> (made: Peg)
    ensures
        made == pick3_expr(a, b, c),
{
    either(a, either(b, c))
}

/// The first of the expressions that matches.
pub open spec fn pick4_expr(a: Peg, b: Peg, c: Peg, d: Peg) -> Peg {
    either(a, pick3(b, c, d))
}

/// The first of the expressions that matches.
#[verifier::when_used_as_spec(pick4_expr)]
pub fn pick4(a: Peg, b: Peg, c: Peg, d: Peg) -> (made: Peg)
    ensures
        made == pick4_expr(a, b, c, d),
{
    either(a, pick3(b, c, d))
}

/// The first of the expressions that matches.
pub open spec fn pick5_expr(a: Peg, b: Peg, c: Peg, d: Peg, e: Peg) -> Peg {
    either(a, pick4(b, c, d, e))
}

/// The first of the expressions that matches.
#[verifier::when_used_as_spec(pick5_expr)]
pub fn pick5(a: Peg, b: Peg, c: Peg, d: Peg, e: Peg) -> (made: Peg)
    ensures
        made == pick5_expr(a, b, c, d, e),
{
    either(a, pick4(b, c, d, e))
}

/// The first of the expressions that matches.
pub open spec fn pick6_expr(a: Peg, b: Peg, c: Peg, d: Peg, e: Peg, f: Peg) -> Peg {
    either(a, pick5(b, c, d, e, f))
}

/// The first of the expressions that matches.
#[verifier::when_used_as_spec(pick6_expr)]
pub fn pick6(a: Peg, b: Peg, c: Peg, d: Peg, e: Peg, f: Peg) -> (made: Peg)
    ensures
        made == pick6_expr(a, b, c, d, e, f),
{
    either(a, pick5(b, c, d, e, f))
}

/// The body of each rule.
pub open spec fn rule_body(of: Rule) -> Peg {
    match of {
        // The whole text: statements up to the end of input.
        Rule::Program => chain4(
            rule(Rule::Whitespace),
            opt(rule(Rule::Newline)),
            star(rule(Rule::Statement)),
            rule(Rule::Eoi),
        ),
        // `entity Name:` and an indented body.
        Rule::EntityDef => chain7(
            kw("entity"),
            tok(Rule::Identifier),
            sym(":"),
            rule(Rule::Newline),
            tok(Rule::Indent),
            rule(Rule::EntityBody),
            tok(Rule::Dedent),
        ),
        // One or more members of an entity.
        Rule::EntityBody => both(rule(Rule::EntityMember), star(rule(Rule::EntityMember))),
        // `component Name:` and an indented body.
        Rule::ComponentDef => chain7(
            kw("component"),
            tok(Rule::Identifier),
            sym(":"),
            rule(Rule::Newline),
            tok(Rule::Indent),
            rule(Rule::ComponentBody),
            tok(Rule::Dedent),
        ),
        // One or more fields, one to a line.
        Rule::ComponentBody => both(
            both(rule(Rule::ComponentField), rule(Rule::LineEnd)),
            star(both(rule(Rule::ComponentField), rule(Rule::LineEnd))),
        ),
        // `name = value`.
        Rule::ComponentField => chain3(tok(Rule::Identifier), sym("="), rule(Rule::Expression)),
        // `fn name(params) -> type:` and a block, `async` before it or not.
        Rule::FnDef => chain9(
            opt(tok(Rule::AsyncKeyword)),
            kw("fn"),
            tok(Rule::Identifier),
            sym("("),
            opt(rule(Rule::ParamList)),
            sym(")"),
            opt(rule(Rule::ReturnType)),
            sym(":"),
            rule(Rule::Block),
        ),
        // The word `async`.
        Rule::AsyncKeyword => word("async"),
        // Parameters with commas between them.
        Rule::ParamList => both(rule(Rule::Param), star(both(sym(","), rule(Rule::Param)))),
        // `name: type`.
        Rule::Param => chain3(tok(Rule::Identifier), sym(":"), rule(Rule::TypeExpr)),
        // `-> type`.
        Rule::ReturnType => both(sym("->"), rule(Rule::TypeExpr)),
        // A generic type or a simple one.
        Rule::TypeExpr => either(rule(Rule::GenericType), tok(Rule::SimpleType)),
        // A type's name.
        Rule::SimpleType => rule(Rule::Identifier),
        // `Name<types>`.
        Rule::GenericType => chain4(
            tok(Rule::Identifier),
            sym("<"),
            rule(Rule::TypeList),
            sym(">"),
        ),
        // Types with commas between them.
        Rule::TypeList => both(rule(Rule::TypeExpr), star(both(sym(","), rule(Rule::TypeExpr)))),
        // `signal Name(params)`.
        Rule::SignalDef => chain5(
            kw("signal"),
            tok(Rule::Identifier),
            sym("("),
            opt(rule(Rule::ParamList)),
            sym(")"),
        ),
        // `state_machine Name:` and an indented body.
        Rule::StateMachineDef => chain7(
            kw("state_machine"),
            tok(Rule::Identifier),
            sym(":"),
            rule(Rule::Newline),
            tok(Rule::Indent),
            rule(Rule::StateMachineBody),
            tok(Rule::Dedent),
        ),
        // `initial Name` or not, then one or more states.
        Rule::StateMachineBody => chain3(
            opt(chain3(kw("initial"), tok(Rule::Identifier), rule(Rule::LineEnd))),
            rule(Rule::StateDef),
            star(rule(Rule::StateDef)),
        ),
        // `state Name:` and a block.
        Rule::StateDef => chain4(kw("state"), tok(Rule::Identifier), sym(":"), rule(Rule::Block)),
        // A line end, then one or more statements between the block markers.
        Rule::Block => chain5(
            rule(Rule::Newline),
            tok(Rule::Indent),
            rule(Rule::Statement),
            star(rule(Rule::Statement)),
            tok(Rule::Dedent),
        ),
        // `let name: type = value`, the type and the value being optional.
        Rule::VariableDecl => chain4(
            kw("let"),
            tok(Rule::Identifier),
            opt(both(sym(":"), rule(Rule::TypeExpr))),
            opt(both(sym("="), rule(Rule::Expression))),
        ),
        // `target op value`.
        Rule::Assignment => chain3(
            rule(Rule::Lvalue),
            tok(Rule::AssignOp),
            rule(Rule::Expression),
        ),
        // Identifiers with points between them.
        Rule::Lvalue => both(tok(Rule::Identifier), star(both(sym("."), tok(Rule::Identifier)))),
        // `=`, `+=`, `-=`, `*=` or `/=`.
        Rule::AssignOp => pick5(
            text("+="),
            text("-="),
            text("*="),
            text("/="),
            both(text("="), unless(text("="))),
        ),
        // `if condition:` and a block, then `elif` clauses, then an `else` clause or not.
        Rule::IfStmt => chain6(
            kw("if"),
            rule(Rule::Expression),
            sym(":"),
            rule(Rule::Block),
            star(rule(Rule::ElifClause)),
            opt(rule(Rule::ElseClause)),
        ),
        // `elif condition:` and a block.
        Rule::ElifClause => chain4(
            kw("elif"),
            rule(Rule::Expression),
            sym(":"),
            rule(Rule::Block),
        ),
        // `else:` and a block.
        Rule::ElseClause => chain3(kw("else"), sym(":"), rule(Rule::Block)),
        // `while condition:` and a block.
        Rule::WhileStmt => chain4(
            kw("while"),
            rule(Rule::Expression),
            sym(":"),
            rule(Rule::Block),
        ),
        // `for name in iterable:` and a block.
        Rule::ForStmt => chain6(
            kw("for"),
            tok(Rule::Identifier),
            kw("in"),
            rule(Rule::Expression),
            sym(":"),
            rule(Rule::Block),
        ),
        // `return`, with a value or not.
        Rule::ReturnStmt => both(kw("return"), opt(rule(Rule::Expression))),
        // `emit Name(args)`.
        Rule::EmitStmt => chain5(
            kw("emit"),
            tok(Rule::Identifier),
            sym("("),
            opt(rule(Rule::ArgList)),
            sym(")"),
        ),
        // Arguments with commas between them.
        Rule::ArgList => both(rule(Rule::Arg), star(both(sym(","), rule(Rule::Arg)))),
        // `name = value`, or a value alone.
        Rule::Arg => either(
            chain5(
                tok(Rule::Identifier),
                text("="),
                unless(text("=")),
                rule(Rule::Whitespace),
                rule(Rule::Expression),
            ),
            rule(Rule::Expression),
        ),
        // An expression: the loosest tier.
        Rule::Expression => rule(Rule::OrExpr),
        // Operands of `or`.
        Rule::OrExpr => both(
            rule(Rule::AndExpr),
            star(both(tok(Rule::OrOp), rule(Rule::AndExpr))),
        ),
        // Operands of `and`.
        Rule::AndExpr => both(
            rule(Rule::NotExpr),
            star(both(tok(Rule::AndOp), rule(Rule::NotExpr))),
        ),
        // `not` before an operand, or a comparison.
        Rule::NotExpr => either(
            both(tok(Rule::NotOp), rule(Rule::NotExpr)),
            rule(Rule::Comparison),
        ),
        // Operands of the comparison operators.
        Rule::Comparison => both(
            rule(Rule::AddExpr),
            star(both(tok(Rule::CompOp), rule(Rule::AddExpr))),
        ),
        // Operands of `+` and `-`.
        Rule::AddExpr => both(
            rule(Rule::MulExpr),
            star(both(tok(Rule::AddOp), rule(Rule::MulExpr))),
        ),
        // Operands of `*`, `/` and `%`.
        Rule::MulExpr => both(
            rule(Rule::UnaryExpr),
            star(both(tok(Rule::MulOp), rule(Rule::UnaryExpr))),
        ),
        // `-` or `not` before an operand, or a postfix expression.
        Rule::UnaryExpr => either(
            both(tok(Rule::UnaryOp), rule(Rule::UnaryExpr)),
            rule(Rule::PostfixExpr),
        ),
        // A primary expression and its calls, member accesses and indexings.
        Rule::PostfixExpr => both(
            rule(Rule::Primary),
            star(pick3(rule(Rule::Call), rule(Rule::MemberAccess), rule(Rule::IndexAccess))),
        ),
        // The word `or`.
        Rule::OrOp => word("or"),
        // The word `and`.
        Rule::AndOp => word("and"),
        // The word `not`.
        Rule::NotOp => word("not"),
        // A comparison operator.
        Rule::CompOp => pick6(
            text("=="),
            text("!="),
            text("<="),
            text(">="),
            text("<"),
            text(">"),
        ),
        // `+` or `-`.
        Rule::AddOp => either(text("+"), text("-")),
        // `*`, `/` or `%`.
        Rule::MulOp => pick3(text("*"), text("/"), text("%")),
        // `-` or `not`.
        Rule::UnaryOp => either(text("-"), word("not")),
        // `(args)` after a callee.
        Rule::Call => chain3(sym("("), opt(rule(Rule::ArgList)), sym(")")),
        // `.name` after a base.
        Rule::MemberAccess => both(sym("."), tok(Rule::Identifier)),
        // `[index]` after a base.
        Rule::IndexAccess => chain3(sym("["), rule(Rule::Expression), sym("]")),
        // One or more digits.
        Rule::IntLiteral => both(rule(Rule::Digit), star(rule(Rule::Digit))),
        // Digits, a point, digits.
        Rule::FloatLiteral => chain5(
            rule(Rule::Digit),
            star(rule(Rule::Digit)),
            text("."),
            rule(Rule::Digit),
            star(rule(Rule::Digit)),
        ),
        // Characters between double quotes, on one line; a backslash takes the character after it
        // along.
        Rule::StringLiteral => chain3(
            text("\""),
            star(
                either(
                    both(text("\\"), any_char()),
                    both(unless(pick3(text("\""), text("\\"), text("\n"))), any_char()),
                ),
            ),
            text("\""),
        ),
        // `true` or `false`.
        Rule::BoolLiteral => either(word("true"), word("false")),
        // `Vec2(x, y)`.
        Rule::Vec2Literal => chain6(
            kw("Vec2"),
            sym("("),
            rule(Rule::Expression),
            sym(","),
            rule(Rule::Expression),
            sym(")"),
        ),
        // `Vec3(x, y, z)`.
        Rule::Vec3Literal => chain8(
            kw("Vec3"),
            sym("("),
            rule(Rule::Expression),
            sym(","),
            rule(Rule::Expression),
            sym(","),
            rule(Rule::Expression),
            sym(")"),
        ),
        // `[items]`.
        Rule::ListLiteral => chain3(
            sym("["),
            opt(both(rule(Rule::Expression), star(both(sym(","), rule(Rule::Expression))))),
            sym("]"),
        ),
        // `{entries}`.
        Rule::MapLiteral => chain3(
            sym("{"),
            opt(both(rule(Rule::MapEntry), star(both(sym(","), rule(Rule::MapEntry))))),
            sym("}"),
        ),
        // `"key": value`.
        Rule::MapEntry => chain3(tok(Rule::StringLiteral), sym(":"), rule(Rule::Expression)),
        // A name that is no keyword.
        Rule::Identifier => chain3(
            unless(rule(Rule::Keyword)),
            rule(Rule::IdentStart),
            star(rule(Rule::IdentCont)),
        ),
        // The marker that opens a block.
        Rule::Indent => text("{{INDENT}}"),
        // The marker that closes a block.
        Rule::Dedent => text("{{DEDENT}}"),
        // The end of input.
        Rule::Eoi => unless(any_char()),
        // Any statement; one that does not end in a block ends its line.
        Rule::Statement => either(
            pick6(
                rule(Rule::EntityDef),
                rule(Rule::FnDef),
                rule(Rule::StateMachineDef),
                rule(Rule::IfStmt),
                rule(Rule::WhileStmt),
                rule(Rule::ForStmt),
            ),
            pick6(
                both(rule(Rule::SignalDef), rule(Rule::LineEnd)),
                both(rule(Rule::VariableDecl), rule(Rule::LineEnd)),
                both(rule(Rule::ReturnStmt), rule(Rule::LineEnd)),
                both(rule(Rule::EmitStmt), rule(Rule::LineEnd)),
                both(rule(Rule::Assignment), rule(Rule::LineEnd)),
                both(rule(Rule::Expression), rule(Rule::LineEnd)),
            ),
        ),
        // A component, a function, a signal or a variable.
        Rule::EntityMember => pick4(
            rule(Rule::ComponentDef),
            rule(Rule::FnDef),
            both(rule(Rule::SignalDef), rule(Rule::LineEnd)),
            both(rule(Rule::VariableDecl), rule(Rule::LineEnd)),
        ),
        // A literal, a name, or an expression in parentheses. `Vec2(` and `Vec3(` start a
        // vector literal and nothing else, so that a text is not read twice.
        Rule::Primary => either(
            pick6(
                tok(Rule::FloatLiteral),
                tok(Rule::IntLiteral),
                tok(Rule::StringLiteral),
                tok(Rule::BoolLiteral),
                rule(Rule::Vec3Literal),
                rule(Rule::Vec2Literal),
            ),
            pick4(
                rule(Rule::ListLiteral),
                rule(Rule::MapLiteral),
                both(
                    unless(
                        chain3(
                            either(word("Vec2"), word("Vec3")),
                            rule(Rule::Whitespace),
                            text("("),
                        ),
                    ),
                    tok(Rule::Identifier),
                ),
                chain3(sym("("), rule(Rule::Expression), sym(")")),
            ),
        ),
        // A reserved word. A word that another one starts with stands after it.
        Rule::Keyword => both(
            pick4(
                pick6(
                    text("entity"),
                    text("component"),
                    text("fn"),
                    text("async"),
                    text("signal"),
                    text("state_machine"),
                ),
                pick6(
                    text("state"),
                    text("initial"),
                    text("let"),
                    text("if"),
                    text("elif"),
                    text("else"),
                ),
                pick5(text("while"), text("for"), text("in"), text("return"), text("emit")),
                pick5(text("and"), text("or"), text("not"), text("true"), text("false")),
            ),
            unless(rule(Rule::IdentCont)),
        ),
        // A letter or an underscore.
        Rule::IdentStart => pick3(one_of('a', 'z'), one_of('A', 'Z'), text("_")),
        // A letter, an underscore or a digit.
        Rule::IdentCont => either(rule(Rule::IdentStart), one_of('0', '9')),
        // A decimal digit.
        Rule::Digit => one_of('0', '9'),
        // Blanks, tabs, carriage returns and comments, as many as there are.
        Rule::Whitespace => star(pick4(text(" "), text("\t"), text("\r"), rule(Rule::Comment))),
        // `#` and the rest of the line.
        Rule::Comment => both(text("#"), star(both(unless(text("\n")), any_char()))),
        // One or more line feeds, with the white space after each.
        Rule::Newline => both(
            both(text("\n"), rule(Rule::Whitespace)),
            star(both(text("\n"), rule(Rule::Whitespace))),
        ),
        // The end of a line: line feeds, or the end of input.
        Rule::LineEnd => either(rule(Rule::Newline), unless(any_char())),
    }
}

/// The body of a rule.
pub fn rule_body_of(of: Rule) -> (body: Peg)
    ensures
        body == rule_body(of),
{
    match of {
        // The whole text: statements up to the end of input.
        Rule::Program => chain4(
            rule(Rule::Whitespace),
            opt(rule(Rule::Newline)),
            star(rule(Rule::Statement)),
            rule(Rule::Eoi),
        ),
        // `entity Name:` and an indented body.
        Rule::EntityDef => chain7(
            kw("entity"),
            tok(Rule::Identifier),
            sym(":"),
            rule(Rule::Newline),
            tok(Rule::Indent),
            rule(Rule::EntityBody),
            tok(Rule::Dedent),
        ),
        // One or more members of an entity.
        Rule::EntityBody => both(rule(Rule::EntityMember), star(rule(Rule::EntityMember))),
        // `component Name:` and an indented body.
        Rule::ComponentDef => chain7(
            kw("component"),
            tok(Rule::Identifier),
            sym(":"),
            rule(Rule::Newline),
            tok(Rule::Indent),
            rule(Rule::ComponentBody),
            tok(Rule::Dedent),
        ),
        // One or more fields, one to a line.
        Rule::ComponentBody => both(
            both(rule(Rule::ComponentField), rule(Rule::LineEnd)),
            star(both(rule(Rule::ComponentField), rule(Rule::LineEnd))),
        ),
        // `name = value`.
        Rule::ComponentField => chain3(tok(Rule::Identifier), sym("="), rule(Rule::Expression)),
        // `fn name(params) -> type:` and a block, `async` before it or not.
        Rule::FnDef => chain9(
            opt(tok(Rule::AsyncKeyword)),
            kw("fn"),
            tok(Rule::Identifier),
            sym("("),
            opt(rule(Rule::ParamList)),
            sym(")"),
            opt(rule(Rule::ReturnType)),
            sym(":"),
            rule(Rule::Block),
        ),
        // The word `async`.
        Rule::AsyncKeyword => word("async"),
        // Parameters with commas between them.
        Rule::ParamList => both(rule(Rule::Param), star(both(sym(","), rule(Rule::Param)))),
        // `name: type`.
        Rule::Param => chain3(tok(Rule::Identifier), sym(":"), rule(Rule::TypeExpr)),
        // `-> type`.
        Rule::ReturnType => both(sym("->"), rule(Rule::TypeExpr)),
        // A generic type or a simple one.
        Rule::TypeExpr => either(rule(Rule::GenericType), tok(Rule::SimpleType)),
        // A type's name.
        Rule::SimpleType => rule(Rule::Identifier),
        // `Name<types>`.
        Rule::GenericType => chain4(
            tok(Rule::Identifier),
            sym("<"),
            rule(Rule::TypeList),
            sym(">"),
        ),
        // Types with commas between them.
        Rule::TypeList => both(rule(Rule::TypeExpr), star(both(sym(","), rule(Rule::TypeExpr)))),
        // `signal Name(params)`.
        Rule::SignalDef => chain5(
            kw("signal"),
            tok(Rule::Identifier),
            sym("("),
            opt(rule(Rule::ParamList)),
            sym(")"),
        ),
        // `state_machine Name:` and an indented body.
        Rule::StateMachineDef => chain7(
            kw("state_machine"),
            tok(Rule::Identifier),
            sym(":"),
            rule(Rule::Newline),
            tok(Rule::Indent),
            rule(Rule::StateMachineBody),
            tok(Rule::Dedent),
        ),
        // `initial Name` or not, then one or more states.
        Rule::StateMachineBody => chain3(
            opt(chain3(kw("initial"), tok(Rule::Identifier), rule(Rule::LineEnd))),
            rule(Rule::StateDef),
            star(rule(Rule::StateDef)),
        ),
        // `state Name:` and a block.
        Rule::StateDef => chain4(kw("state"), tok(Rule::Identifier), sym(":"), rule(Rule::Block)),
        // A line end, then one or more statements between the block markers.
        Rule::Block => chain5(
            rule(Rule::Newline),
            tok(Rule::Indent),
            rule(Rule::Statement),
            star(rule(Rule::Statement)),
            tok(Rule::Dedent),
        ),
        // `let name: type = value`, the type and the value being optional.
        Rule::VariableDecl => chain4(
            kw("let"),
            tok(Rule::Identifier),
            opt(both(sym(":"), rule(Rule::TypeExpr))),
            opt(both(sym("="), rule(Rule::Expression))),
        ),
        // `target op value`.
        Rule::Assignment => chain3(
            rule(Rule::Lvalue),
            tok(Rule::AssignOp),
            rule(Rule::Expression),
        ),
        // Identifiers with points between them.
        Rule::Lvalue => both(tok(Rule::Identifier), star(both(sym("."), tok(Rule::Identifier)))),
        // `=`, `+=`, `-=`, `*=` or `/=`.
        Rule::AssignOp => pick5(
            text("+="),
            text("-="),
            text("*="),
            text("/="),
            both(text("="), unless(text("="))),
        ),
        // `if condition:` and a block, then `elif` clauses, then an `else` clause or not.
        Rule::IfStmt => chain6(
            kw("if"),
            rule(Rule::Expression),
            sym(":"),
            rule(Rule::Block),
            star(rule(Rule::ElifClause)),
            opt(rule(Rule::ElseClause)),
        ),
        // `elif condition:` and a block.
        Rule::ElifClause => chain4(
            kw("elif"),
            rule(Rule::Expression),
            sym(":"),
            rule(Rule::Block),
        ),
        // `else:` and a block.
        Rule::ElseClause => chain3(kw("else"), sym(":"), rule(Rule::Block)),
        // `while condition:` and a block.
        Rule::WhileStmt => chain4(
            kw("while"),
            rule(Rule::Expression),
            sym(":"),
            rule(Rule::Block),
        ),
        // `for name in iterable:` and a block.
        Rule::ForStmt => chain6(
            kw("for"),
            tok(Rule::Identifier),
            kw("in"),
            rule(Rule::Expression),
            sym(":"),
            rule(Rule::Block),
        ),
        // `return`, with a value or not.
        Rule::ReturnStmt => both(kw("return"), opt(rule(Rule::Expression))),
        // `emit Name(args)`.
        Rule::EmitStmt => chain5(
            kw("emit"),
            tok(Rule::Identifier),
            sym("("),
            opt(rule(Rule::ArgList)),
            sym(")"),
        ),
        // Arguments with commas between them.
        Rule::ArgList => both(rule(Rule::Arg), star(both(sym(","), rule(Rule::Arg)))),
        // `name = value`, or a value alone.
        Rule::Arg => either(
            chain5(
                tok(Rule::Identifier),
                text("="),
                unless(text("=")),
                rule(Rule::Whitespace),
                rule(Rule::Expression),
            ),
            rule(Rule::Expression),
        ),
        // An expression: the loosest tier.
        Rule::Expression => rule(Rule::OrExpr),
        // Operands of `or`.
        Rule::OrExpr => both(
            rule(Rule::AndExpr),
            star(both(tok(Rule::OrOp), rule(Rule::AndExpr))),
        ),
        // Operands of `and`.
        Rule::AndExpr => both(
            rule(Rule::NotExpr),
            star(both(tok(Rule::AndOp), rule(Rule::NotExpr))),
        ),
        // `not` before an operand, or a comparison.
        Rule::NotExpr => either(
            both(tok(Rule::NotOp), rule(Rule::NotExpr)),
            rule(Rule::Comparison),
        ),
        // Operands of the comparison operators.
        Rule::Comparison => both(
            rule(Rule::AddExpr),
            star(both(tok(Rule::CompOp), rule(Rule::AddExpr))),
        ),
        // Operands of `+` and `-`.
        Rule::AddExpr => both(
            rule(Rule::MulExpr),
            star(both(tok(Rule::AddOp), rule(Rule::MulExpr))),
        ),
        // Operands of `*`, `/` and `%`.
        Rule::MulExpr => both(
            rule(Rule::UnaryExpr),
            star(both(tok(Rule::MulOp), rule(Rule::UnaryExpr))),
        ),
        // `-` or `not` before an operand, or a postfix expression.
        Rule::UnaryExpr => either(
            both(tok(Rule::UnaryOp), rule(Rule::UnaryExpr)),
            rule(Rule::PostfixExpr),
        ),
        // A primary expression and its calls, member accesses and indexings.
        Rule::PostfixExpr => both(
            rule(Rule::Primary),
            star(pick3(rule(Rule::Call), rule(Rule::MemberAccess), rule(Rule::IndexAccess))),
        ),
        // The word `or`.
        Rule::OrOp => word("or"),
        // The word `and`.
        Rule::AndOp => word("and"),
        // The word `not`.
        Rule::NotOp => word("not"),
        // A comparison operator.
        Rule::CompOp => pick6(
            text("=="),
            text("!="),
            text("<="),
            text(">="),
            text("<"),
            text(">"),
        ),
        // `+` or `-`.
        Rule::AddOp => either(text("+"), text("-")),
        // `*`, `/` or `%`.
        Rule::MulOp => pick3(text("*"), text("/"), text("%")),
        // `-` or `not`.
        Rule::UnaryOp => either(text("-"), word("not")),
        // `(args)` after a callee.
        Rule::Call => chain3(sym("("), opt(rule(Rule::ArgList)), sym(")")),
        // `.name` after a base.
        Rule::MemberAccess => both(sym("."), tok(Rule::Identifier)),
        // `[index]` after a base.
        Rule::IndexAccess => chain3(sym("["), rule(Rule::Expression), sym("]")),
        // One or more digits.
        Rule::IntLiteral => both(rule(Rule::Digit), star(rule(Rule::Digit))),
        // Digits, a point, digits.
        Rule::FloatLiteral => chain5(
            rule(Rule::Digit),
            star(rule(Rule::Digit)),
            text("."),
            rule(Rule::Digit),
            star(rule(Rule::Digit)),
        ),
        // Characters between double quotes, on one line; a backslash takes the character after it
        // along.
        Rule::StringLiteral => chain3(
            text("\""),
            star(
                either(
                    both(text("\\"), any_char()),
                    both(unless(pick3(text("\""), text("\\"), text("\n"))), any_char()),
                ),
            ),
            text("\""),
        ),
        // `true` or `false`.
        Rule::BoolLiteral => either(word("true"), word("false")),
        // `Vec2(x, y)`.
        Rule::Vec2Literal => chain6(
            kw("Vec2"),
            sym("("),
            rule(Rule::Expression),
            sym(","),
            rule(Rule::Expression),
            sym(")"),
        ),
        // `Vec3(x, y, z)`.
        Rule::Vec3Literal => chain8(
            kw("Vec3"),
            sym("("),
            rule(Rule::Expression),
            sym(","),
            rule(Rule::Expression),
            sym(","),
            rule(Rule::Expression),
            sym(")"),
        ),
        // `[items]`.
        Rule::ListLiteral => chain3(
            sym("["),
            opt(both(rule(Rule::Expression), star(both(sym(","), rule(Rule::Expression))))),
            sym("]"),
        ),
        // `{entries}`.
        Rule::MapLiteral => chain3(
            sym("{"),
            opt(both(rule(Rule::MapEntry), star(both(sym(","), rule(Rule::MapEntry))))),
            sym("}"),
        ),
        // `"key": value`.
        Rule::MapEntry => chain3(tok(Rule::StringLiteral), sym(":"), rule(Rule::Expression)),
        // A name that is no keyword.
        Rule::Identifier => chain3(
            unless(rule(Rule::Keyword)),
            rule(Rule::IdentStart),
            star(rule(Rule::IdentCont)),
        ),
        // The marker that opens a block.
        Rule::Indent => text("{{INDENT}}"),
        // The marker that closes a block.
        Rule::Dedent => text("{{DEDENT}}"),
        // The end of input.
        Rule::Eoi => unless(any_char()),
        // Any statement; one that does not end in a block ends its line.
        Rule::Statement => either(
            pick6(
                rule(Rule::EntityDef),
                rule(Rule::FnDef),
                rule(Rule::StateMachineDef),
                rule(Rule::IfStmt),
                rule(Rule::WhileStmt),
                rule(Rule::ForStmt),
            ),
            pick6(
                both(rule(Rule::SignalDef), rule(Rule::LineEnd)),
                both(rule(Rule::VariableDecl), rule(Rule::LineEnd)),
                both(rule(Rule::ReturnStmt), rule(Rule::LineEnd)),
                both(rule(Rule::EmitStmt), rule(Rule::LineEnd)),
                both(rule(Rule::Assignment), rule(Rule::LineEnd)),
                both(rule(Rule::Expression), rule(Rule::LineEnd)),
            ),
        ),
        // A component, a function, a signal or a variable.
        Rule::EntityMember => pick4(
            rule(Rule::ComponentDef),
            rule(Rule::FnDef),
            both(rule(Rule::SignalDef), rule(Rule::LineEnd)),
            both(rule(Rule::VariableDecl), rule(Rule::LineEnd)),
        ),
        // A literal, a name, or an expression in parentheses. `Vec2(` and `Vec3(` start a
        // vector literal and nothing else, so that a text is not read twice.
        Rule::Primary => either(
            pick6(
                tok(Rule::FloatLiteral),
                tok(Rule::IntLiteral),
                tok(Rule::StringLiteral),
                tok(Rule::BoolLiteral),
                rule(Rule::Vec3Literal),
                rule(Rule::Vec2Literal),
            ),
            pick4(
                rule(Rule::ListLiteral),
                rule(Rule::MapLiteral),
                both(
                    unless(
                        chain3(
                            either(word("Vec2"), word("Vec3")),
                            rule(Rule::Whitespace),
                            text("("),
                        ),
                    ),
                    tok(Rule::Identifier),
                ),
                chain3(sym("("), rule(Rule::Expression), sym(")")),
            ),
        ),
        // A reserved word. A word that another one starts with stands after it.
        Rule::Keyword => both(
            pick4(
                pick6(
                    text("entity"),
                    text("component"),
                    text("fn"),
                    text("async"),
                    text("signal"),
                    text("state_machine"),
                ),
                pick6(
                    text("state"),
                    text("initial"),
                    text("let"),
                    text("if"),
                    text("elif"),
                    text("else"),
                ),
                pick5(text("while"), text("for"), text("in"), text("return"), text("emit")),
                pick5(text("and"), text("or"), text("not"), text("true"), text("false")),
            ),
            unless(rule(Rule::IdentCont)),
        ),
        // A letter or an underscore.
        Rule::IdentStart => pick3(one_of('a', 'z'), one_of('A', 'Z'), text("_")),
        // A letter, an underscore or a digit.
        Rule::IdentCont => either(rule(Rule::IdentStart), one_of('0', '9')),
        // A decimal digit.
        Rule::Digit => one_of('0', '9'),
        // Blanks, tabs, carriage returns and comments, as many as there are.
        Rule::Whitespace => star(pick4(text(" "), text("\t"), text("\r"), rule(Rule::Comment))),
        // `#` and the rest of the line.
        Rule::Comment => both(text("#"), star(both(unless(text("\n")), any_char()))),
        // One or more line feeds, with the white space after each.
        Rule::Newline => both(
            both(text("\n"), rule(Rule::Whitespace)),
            star(both(text("\n"), rule(Rule::Whitespace))),
        ),
        // The end of a line: line feeds, or the end of input.
        Rule::LineEnd => either(rule(Rule::Newline), unless(any_char())),
    }
}

} // verus!
