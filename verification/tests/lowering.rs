use nexscript::ast_builder::{
    build_assignment, build_component, build_emit, build_entity, build_expression, build_for,
    build_function, build_if, build_param, build_return, build_signal, build_state,
    build_state_machine, build_statement, build_type, build_var_decl, build_while,
    insert_field, parse_assign_op, parse_int_literal,
};
use nexscript::{
    build_ast, parse, parse_binary_op, transpile, AssignOp, BinaryOp, Expr, ParseNode, Rule,
    Statement, TypeExpr, UnaryOp,
};

fn node(rule: Rule, text: &str, children: Vec<ParseNode>) -> ParseNode {
    ParseNode { rule, text: text.to_string(), children }
}

fn leaf(rule: Rule, text: &str) -> ParseNode {
    node(rule, text, vec![])
}

fn name(text: &str) -> ParseNode {
    leaf(Rule::Identifier, text)
}

fn int_node(text: &str) -> ParseNode {
    leaf(Rule::IntLiteral, text)
}

fn block(statements: Vec<ParseNode>) -> ParseNode {
    let mut children = vec![leaf(Rule::Indent, "{{INDENT}}")];
    children.extend(statements);
    children.push(leaf(Rule::Dedent, "{{DEDENT}}"));
    node(Rule::Block, "", children)
}

fn expr_statement(text: &str) -> ParseNode {
    node(Rule::Expression, text, vec![name(text)])
}

#[test]
fn binary_operator_texts() {
    assert_eq!(parse_binary_op("+"), BinaryOp::Add);
    assert_eq!(parse_binary_op("-"), BinaryOp::Sub);
    assert_eq!(parse_binary_op("*"), BinaryOp::Mul);
    assert_eq!(parse_binary_op("/"), BinaryOp::Div);
    assert_eq!(parse_binary_op("%"), BinaryOp::Mod);
    assert_eq!(parse_binary_op("=="), BinaryOp::Eq);
    assert_eq!(parse_binary_op("!="), BinaryOp::Ne);
    assert_eq!(parse_binary_op("<"), BinaryOp::Lt);
    assert_eq!(parse_binary_op("<="), BinaryOp::Le);
    assert_eq!(parse_binary_op(">"), BinaryOp::Gt);
    assert_eq!(parse_binary_op(">="), BinaryOp::Ge);
    assert_eq!(parse_binary_op("and"), BinaryOp::And);
    assert_eq!(parse_binary_op("or"), BinaryOp::Or);
    assert_eq!(parse_binary_op("**"), BinaryOp::Add);
    assert_eq!(parse_binary_op(""), BinaryOp::Add);
}

#[test]
fn assignment_operator_texts() {
    assert_eq!(parse_assign_op("="), AssignOp::Assign);
    assert_eq!(parse_assign_op("+="), AssignOp::AddAssign);
    assert_eq!(parse_assign_op("-="), AssignOp::SubAssign);
    assert_eq!(parse_assign_op("*="), AssignOp::MulAssign);
    assert_eq!(parse_assign_op("/="), AssignOp::DivAssign);
    assert_eq!(parse_assign_op("%="), AssignOp::Assign);
}

#[test]
fn integer_literal_values() {
    assert_eq!(parse_int_literal("0"), 0);
    assert_eq!(parse_int_literal("42"), 42);
    assert_eq!(parse_int_literal("+42"), 42);
    assert_eq!(parse_int_literal("-42"), -42);
    assert_eq!(parse_int_literal("9223372036854775807"), i64::MAX);
    assert_eq!(parse_int_literal("-9223372036854775808"), i64::MIN);
    assert_eq!(parse_int_literal("9223372036854775808"), 0);
    assert_eq!(parse_int_literal("-9223372036854775809"), 0);
    assert_eq!(parse_int_literal("99999999999999999999999999"), 0);
    assert_eq!(parse_int_literal(""), 0);
    assert_eq!(parse_int_literal("-"), 0);
    assert_eq!(parse_int_literal("12a"), 0);
    assert_eq!(parse_int_literal("1 2"), 0);
}

#[test]
fn tier_with_one_child_is_the_child() {
    let tree = node(Rule::AddExpr, "7", vec![node(Rule::MulExpr, "7", vec![int_node("7")])]);
    assert!(matches!(build_expression(&tree), Expr::Int(7)));
}

#[test]
fn tier_folds_to_the_left_and_drops_a_dangling_child() {
    let tree = node(
        Rule::AddExpr,
        "",
        vec![int_node("1"), leaf(Rule::AddOp, "-"), int_node("2"), leaf(Rule::AddOp, "+"), int_node("3"), leaf(Rule::AddOp, "+")],
    );
    match build_expression(&tree) {
        Expr::BinaryOp(left, BinaryOp::Add, right) => {
            assert!(matches!(*right, Expr::Int(3)));
            match *left {
                Expr::BinaryOp(a, BinaryOp::Sub, b) => {
                    assert!(matches!(*a, Expr::Int(1)));
                    assert!(matches!(*b, Expr::Int(2)));
                }
                other => panic!("{:?}", other),
            }
        }
        other => panic!("{:?}", other),
    }
}

#[test]
fn tier_with_two_children() {
    let neg = node(Rule::UnaryExpr, "", vec![leaf(Rule::UnaryOp, "-"), int_node("1")]);
    assert!(matches!(build_expression(&neg), Expr::UnaryOp(UnaryOp::Neg, _)));
    let not = node(Rule::NotExpr, "", vec![leaf(Rule::NotOp, "not"), int_node("1")]);
    assert!(matches!(build_expression(&not), Expr::UnaryOp(UnaryOp::Not, _)));
    let odd = node(Rule::UnaryExpr, "", vec![int_node("1"), int_node("2")]);
    assert!(matches!(build_expression(&odd), Expr::Int(0)));
    let none = node(Rule::Expression, "", vec![]);
    assert!(matches!(build_expression(&none), Expr::Int(0)));
}

#[test]
fn literal_nodes() {
    assert!(matches!(build_expression(&leaf(Rule::StringLiteral, "\"a b\"")), Expr::String(t) if t == "a b"));
    assert!(matches!(build_expression(&leaf(Rule::StringLiteral, "\"")), Expr::String(t) if t.is_empty()));
    assert!(matches!(build_expression(&leaf(Rule::BoolLiteral, "true")), Expr::Bool(true)));
    assert!(matches!(build_expression(&leaf(Rule::BoolLiteral, "True")), Expr::Bool(false)));
    assert!(matches!(build_expression(&leaf(Rule::FloatLiteral, "1.25")), Expr::Float(t) if t == "1.25"));
    assert!(matches!(build_expression(&int_node("x")), Expr::Int(0)));
    let vec2 = node(Rule::Vec2Literal, "", vec![int_node("1")]);
    match build_expression(&vec2) {
        Expr::Vec2(x, y) => {
            assert!(matches!(*x, Expr::Int(1)));
            assert!(matches!(*y, Expr::Int(0)));
        }
        other => panic!("{:?}", other),
    }
}

#[test]
fn a_call_node_alone_has_a_placeholder_callee() {
    let arg = node(Rule::Arg, "", vec![int_node("1")]);
    let call = node(Rule::Call, "", vec![node(Rule::ArgList, "", vec![arg])]);
    match build_expression(&call) {
        Expr::Call { callee, args } => {
            assert!(matches!(*callee, Expr::Identifier(t) if t == "_call"));
            assert_eq!(args.len(), 1);
        }
        other => panic!("{:?}", other),
    }
}

#[test]
fn arguments_with_two_children_are_named() {
    let named = node(Rule::Arg, "", vec![name("count"), int_node("3")]);
    let positional = node(Rule::Arg, "", vec![int_node("4")]);
    let three = node(Rule::Arg, "", vec![int_node("5"), int_node("6"), int_node("7")]);
    let empty = node(Rule::Arg, "", vec![]);
    let list = node(Rule::ArgList, "", vec![named, leaf(Rule::Comment, ","), positional, three, empty]);
    let call = node(Rule::PostfixExpr, "", vec![name("f"), node(Rule::Call, "", vec![list])]);
    match build_expression(&call) {
        Expr::Call { callee, args } => {
            assert!(matches!(*callee, Expr::Identifier(t) if t == "f"));
            assert_eq!(args.len(), 4);
            assert_eq!(args[0].name.as_deref(), Some("count"));
            assert!(matches!(args[0].value, Expr::Int(3)));
            assert!(args[1].name.is_none());
            assert!(matches!(args[1].value, Expr::Int(4)));
            assert!(args[2].name.is_none());
            assert!(matches!(args[2].value, Expr::Int(5)));
            assert!(matches!(args[3].value, Expr::Int(0)));
        }
        other => panic!("{:?}", other),
    }
}

#[test]
fn map_keys_lose_their_quotes() {
    let entry = node(Rule::MapEntry, "", vec![leaf(Rule::StringLiteral, "\"\"k\"\""), int_node("1")]);
    let map = node(Rule::MapLiteral, "", vec![entry, int_node("9")]);
    match build_expression(&map) {
        Expr::MapLit(entries) => {
            assert_eq!(entries.len(), 1);
            assert_eq!(entries[0].0, "k");
        }
        other => panic!("{:?}", other),
    }
}

#[test]
fn other_nodes_lower_to_their_first_child() {
    let wrapped = node(Rule::Primary, "", vec![int_node("8"), int_node("9")]);
    assert!(matches!(build_expression(&wrapped), Expr::Int(8)));
    assert!(matches!(build_expression(&leaf(Rule::Primary, "")), Expr::Int(0)));
}

#[test]
fn types() {
    let simple = node(Rule::TypeExpr, "int", vec![node(Rule::SimpleType, "int", vec![name("int")])]);
    assert!(matches!(build_type(&simple), TypeExpr::Simple(t) if t == "int"));
    assert!(matches!(build_type(&name("Health")), TypeExpr::Simple(t) if t == "Health"));
    assert!(matches!(build_type(&leaf(Rule::TypeExpr, "raw")), TypeExpr::Simple(t) if t == "raw"));
    let generic = node(
        Rule::GenericType,
        "",
        vec![name("Map"), node(Rule::TypeList, "", vec![name("str"), name("int")]), node(Rule::TypeList, "", vec![name("bool")])],
    );
    match build_type(&generic) {
        TypeExpr::Generic { name, params } => {
            assert_eq!(name, "Map");
            assert_eq!(params.len(), 3);
            assert!(matches!(&params[2], TypeExpr::Simple(t) if t == "bool"));
        }
        other => panic!("{:?}", other),
    }
}

#[test]
fn params_and_signals() {
    let param = node(Rule::Param, "", vec![name("hp"), name("int")]);
    let p = build_param(&param);
    assert_eq!(p.name, "hp");
    assert!(matches!(p.type_expr, TypeExpr::Simple(t) if t == "int"));
    let bare = build_param(&node(Rule::Param, "", vec![]));
    assert_eq!(bare.name, "");
    assert!(matches!(bare.type_expr, TypeExpr::Simple(t) if t.is_empty()));
    let list = node(Rule::ParamList, "", vec![node(Rule::Param, "", vec![name("a"), name("int")]), name("skipped"), node(Rule::Param, "", vec![name("b"), name("str")])]);
    let signal = build_signal(&node(Rule::SignalDef, "", vec![name("Hit"), list]));
    assert_eq!(signal.name, "Hit");
    assert_eq!(signal.params.len(), 2);
    assert_eq!(signal.params[1].name, "b");
}

#[test]
fn declaration_takes_the_last_type_and_value() {
    let tree = node(
        Rule::VariableDecl,
        "",
        vec![name("x"), node(Rule::TypeExpr, "", vec![name("int")]), int_node("1"), node(Rule::TypeExpr, "", vec![name("float")]), int_node("2")],
    );
    let v = build_var_decl(&tree);
    assert_eq!(v.name, "x");
    assert!(matches!(v.type_expr, Some(TypeExpr::Simple(t)) if t == "float"));
    assert!(matches!(v.value, Expr::Int(2)));
}

#[test]
fn declaration_without_initializer_child_is_zero() {
    let tree = node(Rule::VariableDecl, "", vec![name("x"), node(Rule::TypeExpr, "", vec![name("int")])]);
    assert!(matches!(build_var_decl(&tree).value, Expr::Int(0)));
    let first_only = node(Rule::VariableDecl, "", vec![int_node("5")]);
    let v = build_var_decl(&first_only);
    assert_eq!(v.name, "5");
    assert!(matches!(v.value, Expr::Int(0)));
    let empty = build_var_decl(&node(Rule::VariableDecl, "", vec![]));
    assert_eq!(empty.name, "");
    assert!(matches!(empty.value, Expr::Int(0)));
    let not_expr = node(Rule::VariableDecl, "", vec![name("x"), node(Rule::NotExpr, "", vec![int_node("5")])]);
    assert!(matches!(build_var_decl(&not_expr).value, Expr::Int(0)));
}

#[test]
fn assignment_nodes() {
    let target = node(Rule::Lvalue, "a.b", vec![name("a"), name("b")]);
    let a = build_assignment(&node(Rule::Assignment, "", vec![target, leaf(Rule::AssignOp, "*="), int_node("2")]));
    assert_eq!(a.target.parts, vec!["a".to_string(), "b".to_string()]);
    assert_eq!(a.op, AssignOp::MulAssign);
    assert!(matches!(a.value, Expr::Int(2)));
    let empty = build_assignment(&node(Rule::Assignment, "", vec![]));
    assert!(empty.target.parts.is_empty());
    assert_eq!(empty.op, AssignOp::Assign);
    assert!(matches!(empty.value, Expr::Int(0)));
}

#[test]
fn emit_takes_the_last_child_of_each_argument() {
    let list = node(
        Rule::ArgList,
        "",
        vec![node(Rule::Arg, "", vec![name("n"), int_node("1")]), node(Rule::Arg, "", vec![int_node("2")]), node(Rule::Arg, "", vec![])],
    );
    let e = build_emit(&node(Rule::EmitStmt, "", vec![name("Scored"), list]));
    assert_eq!(e.signal_name, "Scored");
    assert_eq!(e.args.len(), 3);
    assert!(matches!(e.args[0], Expr::Int(1)));
    assert!(matches!(e.args[1], Expr::Int(2)));
    assert!(matches!(e.args[2], Expr::Int(0)));
}

#[test]
fn component_fields_bind_each_name_once() {
    let field = |key: &str, value: &str| node(Rule::ComponentField, "", vec![name(key), int_node(value)]);
    let body = node(Rule::ComponentBody, "", vec![field("a", "1"), field("b", "2"), field("a", "3")]);
    let more = node(Rule::ComponentBody, "", vec![field("c", "4"), field("b", "5")]);
    let c = build_component(&node(Rule::ComponentDef, "", vec![name("Stats"), body, more]));
    assert_eq!(c.name, "Stats");
    let fields: Vec<(String, i64)> = c
        .fields
        .iter()
        .map(|(k, v)| match v {
            Expr::Int(n) => (k.clone(), *n),
            other => panic!("{:?}", other),
        })
        .collect();
    assert_eq!(
        fields,
        vec![("a".to_string(), 3), ("b".to_string(), 5), ("c".to_string(), 4)]
    );
}

#[test]
fn insert_field_replaces_or_appends() {
    let mut fields: Vec<(String, Expr)> = Vec::new();
    insert_field(&mut fields, "a".to_string(), Expr::Int(1));
    insert_field(&mut fields, "b".to_string(), Expr::Int(2));
    insert_field(&mut fields, "a".to_string(), Expr::Int(3));
    assert_eq!(fields.len(), 2);
    assert_eq!(fields[0].0, "a");
    assert!(matches!(fields[0].1, Expr::Int(3)));
    assert_eq!(fields[1].0, "b");
}

#[test]
fn function_nodes() {
    let params = node(Rule::ParamList, "", vec![node(Rule::Param, "", vec![name("d"), name("float")])]);
    let returns = node(Rule::ReturnType, "", vec![name("int")]);
    let tree = node(
        Rule::FnDef,
        "",
        vec![leaf(Rule::AsyncKeyword, "async"), name("load"), params, returns, block(vec![expr_statement("a")]), block(vec![expr_statement("b")])],
    );
    let f = build_function(&tree);
    assert!(f.is_async);
    assert_eq!(f.name, "load");
    assert_eq!(f.params.len(), 1);
    assert!(matches!(f.return_type, Some(TypeExpr::Simple(t)) if t == "int"));
    assert_eq!(f.body.len(), 2);
    let plain = build_function(&node(Rule::FnDef, "", vec![name("tick")]));
    assert!(!plain.is_async);
    assert_eq!(plain.name, "tick");
    assert!(plain.body.is_empty());
    let nameless = build_function(&node(Rule::FnDef, "", vec![leaf(Rule::AsyncKeyword, "async")]));
    assert!(nameless.is_async);
    assert_eq!(nameless.name, "");
}

#[test]
fn conditional_nodes() {
    let elif = |cond: &str, body: Option<ParseNode>| {
        let mut children = vec![name(cond)];
        children.extend(body);
        node(Rule::ElifClause, "", children)
    };
    let tree = node(
        Rule::IfStmt,
        "",
        vec![
            name("a"),
            block(vec![]),
            block(vec![expr_statement("first")]),
            block(vec![expr_statement("late")]),
            elif("b", Some(block(vec![expr_statement("x"), expr_statement("y")]))),
            elif("c", None),
            node(Rule::ElseClause, "", vec![block(vec![expr_statement("p")])]),
            node(Rule::ElseClause, "", vec![block(vec![expr_statement("q")]), block(vec![expr_statement("r")])]),
        ],
    );
    let s = build_if(&tree);
    assert!(matches!(&s.condition, Expr::Identifier(t) if t == "a"));
    assert_eq!(s.then_body.len(), 1);
    assert!(matches!(&s.then_body[0], Statement::Expr(Expr::Identifier(t)) if t == "first"));
    assert_eq!(s.elif_clauses.len(), 2);
    assert_eq!(s.elif_clauses[0].1.len(), 2);
    assert!(s.elif_clauses[1].1.is_empty());
    assert_eq!(s.else_body.as_ref().map(|b| b.len()), Some(2));
}

#[test]
fn loop_nodes() {
    let w = build_while(&node(Rule::WhileStmt, "", vec![name("go"), block(vec![expr_statement("x")])]));
    assert!(matches!(&w.condition, Expr::Identifier(t) if t == "go"));
    assert_eq!(w.body.len(), 1);
    let f = build_for(&node(Rule::ForStmt, "", vec![name("e"), name("all"), block(vec![expr_statement("x")])]));
    assert_eq!(f.var_name, "e");
    assert!(matches!(&f.iterable, Expr::Identifier(t) if t == "all"));
    assert_eq!(f.body.len(), 1);
    let empty = build_for(&node(Rule::ForStmt, "", vec![]));
    assert_eq!(empty.var_name, "");
    assert!(matches!(empty.iterable, Expr::Int(0)));
}

#[test]
fn return_nodes() {
    assert!(matches!(build_return(&node(Rule::ReturnStmt, "", vec![])), Statement::Return(None)));
    assert!(matches!(
        build_return(&node(Rule::ReturnStmt, "", vec![int_node("1")])),
        Statement::Return(Some(Expr::Int(1)))
    ));
}

#[test]
fn state_machine_nodes() {
    let state = |n: &str| node(Rule::StateDef, "", vec![name(n), block(vec![expr_statement("x")])]);
    let body = node(Rule::StateMachineBody, "", vec![name("Idle"), state("Idle"), name("Run"), state("Run")]);
    let m = build_state_machine(&node(Rule::StateMachineDef, "", vec![name("M"), state("Early"), body, state("Late")]));
    assert_eq!(m.name, "M");
    assert_eq!(m.initial_state.as_deref(), Some("Run"));
    let names: Vec<&str> = m.states.iter().map(|s| s.name.as_str()).collect();
    assert_eq!(names, vec!["Early", "Idle", "Run", "Late"]);
    let s = build_state(&state("Solo"));
    assert_eq!(s.name, "Solo");
    assert_eq!(s.body.len(), 1);
}

#[test]
fn entity_members_beside_and_inside_a_body() {
    let var = |n: &str| node(Rule::VariableDecl, "", vec![name(n), int_node("1")]);
    let func = |n: &str| node(Rule::FnDef, "", vec![name(n)]);
    let signal = |n: &str| node(Rule::SignalDef, "", vec![name(n)]);
    let component = |n: &str| node(Rule::ComponentDef, "", vec![name(n)]);
    let nested = node(Rule::EntityBody, "", vec![var("deep")]);
    let body = node(Rule::EntityBody, "", vec![var("b"), func("g"), signal("T"), component("D"), nested]);
    let tree = node(
        Rule::EntityDef,
        "",
        vec![name("E"), var("a"), func("f"), body, var("c"), signal("S"), component("C")],
    );
    let e = build_entity(&tree);
    assert_eq!(e.name, "E");
    let names = |v: Vec<&str>| v.join(",");
    assert_eq!(names(e.variables.iter().map(|v| v.name.as_str()).collect()), "a,b,c");
    assert_eq!(names(e.functions.iter().map(|v| v.name.as_str()).collect()), "f,g");
    assert_eq!(names(e.signals.iter().map(|v| v.name.as_str()).collect()), "T,S");
    assert_eq!(names(e.components.iter().map(|v| v.name.as_str()).collect()), "D,C");
}

#[test]
fn statements_by_rule() {
    assert!(matches!(build_statement(&node(Rule::EntityDef, "", vec![name("E")])), Some(Statement::EntityDef(_))));
    assert!(matches!(build_statement(&node(Rule::FnDef, "", vec![name("f")])), Some(Statement::FnDef(_))));
    assert!(matches!(build_statement(&node(Rule::SignalDef, "", vec![name("S")])), Some(Statement::SignalDef(_))));
    assert!(matches!(build_statement(&node(Rule::StateMachineDef, "", vec![name("M")])), Some(Statement::StateMachine(_))));
    assert!(matches!(build_statement(&node(Rule::VariableDecl, "", vec![name("x")])), Some(Statement::VarDecl(_))));
    assert!(matches!(build_statement(&node(Rule::Assignment, "", vec![])), Some(Statement::Assignment(_))));
    assert!(matches!(build_statement(&node(Rule::IfStmt, "", vec![])), Some(Statement::If(_))));
    assert!(matches!(build_statement(&node(Rule::WhileStmt, "", vec![])), Some(Statement::While(_))));
    assert!(matches!(build_statement(&node(Rule::ForStmt, "", vec![])), Some(Statement::For(_))));
    assert!(matches!(build_statement(&node(Rule::ReturnStmt, "", vec![])), Some(Statement::Return(None))));
    assert!(matches!(build_statement(&node(Rule::EmitStmt, "", vec![])), Some(Statement::Emit(_))));
    assert!(matches!(build_statement(&expr_statement("x")), Some(Statement::Expr(_))));
    for rule in [Rule::Indent, Rule::Dedent, Rule::Eoi, Rule::Newline, Rule::Identifier, Rule::Block] {
        assert!(build_statement(&leaf(rule, "")).is_none());
    }
}

#[test]
fn program_from_top_level_nodes() {
    let program = node(Rule::Program, "", vec![expr_statement("a"), leaf(Rule::Eoi, ""), expr_statement("b")]);
    let pairs = vec![program, leaf(Rule::Eoi, ""), expr_statement("c"), leaf(Rule::Indent, "")];
    let built = build_ast(&pairs);
    assert_eq!(built.statements.len(), 3);
    assert!(matches!(&built.statements[2], Statement::Expr(Expr::Identifier(t)) if t == "c"));
    assert!(build_ast(&vec![]).statements.is_empty());
}

#[test]
fn copies_render_alike() {
    let source = "entity Player:\n    component Body:\n        size = Vec2(1, 2.0)\n    signal Hit(by: str)\n    let hp: List<int> = [1, 2]\n    fn on_update(delta: float):\n        if hp > 0 and not dead:\n            Transform.position.x += speed * delta\n        elif hp == 0:\n            emit Hit(\"x\", n = -1)\n        else:\n            while true:\n                return stats[0].best({\"a\": 1})\nstate_machine M:\n    initial A\n    state A:\n        for i in items:\n            x = i\n";
    let program = parse(source).unwrap();
    let copy = program.clone();
    assert_eq!(format!("{:?}", copy), format!("{:?}", program));
    assert_eq!(transpile(&copy), transpile(&program));
    assert_eq!(copy.statements.len(), 2);
}
