use nexscript::{
    parse, AssignOp, BinaryOp, Expr, NexScriptError, NexScriptParser, Program, Rule, Statement,
    TypeExpr, UnaryOp,
};

fn program_of(source: &str) -> Program {
    match parse(source) {
        Ok(program) => program,
        Err(e) => panic!("{}", e.to_string()),
    }
}

fn expr_of(source: &str) -> Expr {
    let mut program = program_of(source);
    assert_eq!(program.statements.len(), 1);
    match program.statements.remove(0) {
        Statement::Expr(e) => e,
        other => panic!("{:?}", other),
    }
}

fn name_of(e: &Expr) -> &str {
    match e {
        Expr::Identifier(name) => name,
        other => panic!("{:?}", other),
    }
}

#[test]
fn literals() {
    assert!(matches!(expr_of("42"), Expr::Int(42)));
    assert!(matches!(expr_of("1.50"), Expr::Float(t) if t == "1.50"));
    assert!(matches!(expr_of("\"hi there\""), Expr::String(t) if t == "hi there"));
    assert!(matches!(expr_of("true"), Expr::Bool(true)));
    assert!(matches!(expr_of("false"), Expr::Bool(false)));
    assert!(matches!(expr_of("speed"), Expr::Identifier(t) if t == "speed"));
}

#[test]
fn integer_literal_out_of_range_is_zero() {
    assert!(matches!(expr_of("9223372036854775807"), Expr::Int(9223372036854775807)));
    assert!(matches!(expr_of("9223372036854775808"), Expr::Int(0)));
    assert!(matches!(expr_of("00012"), Expr::Int(12)));
}

#[test]
fn words_that_start_with_a_keyword_are_names() {
    assert_eq!(name_of(&expr_of("letter")), "letter");
    assert_eq!(name_of(&expr_of("initials")), "initials");
    assert_eq!(name_of(&expr_of("inside")), "inside");
    assert_eq!(name_of(&expr_of("state_machines")), "state_machines");
    assert_eq!(name_of(&expr_of("trueish")), "trueish");
    assert_eq!(name_of(&expr_of("_x9")), "_x9");
}

#[test]
fn keywords_are_no_names() {
    assert!(parse("x = let\n").is_err());
    assert!(parse("in\n").is_err());
    assert!(parse("state\n").is_err());
}

#[test]
fn vector_literals() {
    match expr_of("Vec2(1, 2)") {
        Expr::Vec2(x, y) => {
            assert!(matches!(*x, Expr::Int(1)));
            assert!(matches!(*y, Expr::Int(2)));
        }
        other => panic!("{:?}", other),
    }
    match expr_of("Vec3(1, 2.5, z)") {
        Expr::Vec3(x, y, z) => {
            assert!(matches!(*x, Expr::Int(1)));
            assert!(matches!(*y, Expr::Float(t) if t == "2.5"));
            assert_eq!(name_of(&z), "z");
        }
        other => panic!("{:?}", other),
    }
}

#[test]
fn vector_literals_take_two_and_three_arguments() {
    assert!(parse("Vec2(1)\n").is_err());
    assert!(parse("Vec2(1, 2, 3)\n").is_err());
    assert!(parse("Vec3(1, 2)\n").is_err());
    assert!(parse("Vec2()\n").is_err());
    assert_eq!(name_of(&expr_of("Vec2")), "Vec2");
    assert!(matches!(expr_of("Vec2.ZERO"), Expr::MemberAccess(base, field) if field == "ZERO" && name_of(&base) == "Vec2"));
    assert_eq!(name_of(&expr_of("Vec2d")), "Vec2d");
    match expr_of("Vec2d(1)") {
        Expr::Call { callee, args } => {
            assert_eq!(name_of(&callee), "Vec2d");
            assert_eq!(args.len(), 1);
        }
        other => panic!("{:?}", other),
    }
    match expr_of("Color(1, 2, 3)") {
        Expr::Call { callee, args } => {
            assert_eq!(name_of(&callee), "Color");
            assert_eq!(args.len(), 3);
        }
        other => panic!("{:?}", other),
    }
    match &program_of("let p: Vec2 = Vec2(0, 0)\n").statements[0] {
        Statement::VarDecl(v) => {
            assert!(matches!(&v.type_expr, Some(TypeExpr::Simple(t)) if t == "Vec2"));
            assert!(matches!(&v.value, Expr::Vec2(_, _)));
        }
        other => panic!("{:?}", other),
    }
}

#[test]
fn an_error_deep_inside_nested_constructs_is_found_quickly() {
    let depth = 60;
    let sources = [
        format!("x = {}${}\n", "Vec2(0, ".repeat(depth), ")".repeat(depth)),
        format!("x = {}${}\n", "Vec3(0, 1, ".repeat(depth), ")".repeat(depth)),
        format!("x = {}${}\n", "f(a = ".repeat(depth), ")".repeat(depth)),
        format!("x = {}${}\n", "[1, ".repeat(depth), "]".repeat(depth)),
        format!("x = {}${}\n", "{\"k\": ".repeat(depth), "}".repeat(depth)),
        format!("x = {}${}\n", "(".repeat(depth), ")".repeat(depth)),
        format!("x = {}$\n", "not ".repeat(depth)),
        format!("x = {}$\n", "- ".repeat(depth)),
        format!("let x: {}${}\n", "Map<str, ".repeat(depth), ">".repeat(depth)),
    ];
    for source in sources {
        match parse(&source) {
            Err(NexScriptError::ParseError { line, .. }) => assert_eq!(line, 1),
            other => panic!("{:?}", other),
        }
    }
}

#[test]
fn list_and_map_literals() {
    match expr_of("[1, 2, 3]") {
        Expr::List(items) => {
            assert_eq!(items.len(), 3);
            assert!(matches!(items[2], Expr::Int(3)));
        }
        other => panic!("{:?}", other),
    }
    assert!(matches!(expr_of("[]"), Expr::List(items) if items.is_empty()));
    match expr_of("{\"hp\": 10, \"name\": \"bob\"}") {
        Expr::MapLit(entries) => {
            assert_eq!(entries.len(), 2);
            assert_eq!(entries[0].0, "hp");
            assert!(matches!(entries[0].1, Expr::Int(10)));
            assert_eq!(entries[1].0, "name");
            assert!(matches!(&entries[1].1, Expr::String(t) if t == "bob"));
        }
        other => panic!("{:?}", other),
    }
    assert!(matches!(expr_of("{}"), Expr::MapLit(entries) if entries.is_empty()));
}

#[test]
fn calls_take_the_expression_before_them_as_callee() {
    match expr_of("spawn(enemy, count = 3)") {
        Expr::Call { callee, args } => {
            assert_eq!(name_of(&callee), "spawn");
            assert_eq!(args.len(), 2);
            assert!(args[0].name.is_none());
            assert_eq!(name_of(&args[0].value), "enemy");
            assert_eq!(args[1].name.as_deref(), Some("count"));
            assert!(matches!(args[1].value, Expr::Int(3)));
        }
        other => panic!("{:?}", other),
    }
    match expr_of("f()") {
        Expr::Call { callee, args } => {
            assert_eq!(name_of(&callee), "f");
            assert!(args.is_empty());
        }
        other => panic!("{:?}", other),
    }
}

#[test]
fn an_equality_as_argument_is_positional() {
    match expr_of("check(a == b)") {
        Expr::Call { args, .. } => {
            assert_eq!(args.len(), 1);
            assert!(args[0].name.is_none());
            assert!(matches!(&args[0].value, Expr::BinaryOp(_, BinaryOp::Eq, _)));
        }
        other => panic!("{:?}", other),
    }
}

#[test]
fn postfix_chain_folds_from_the_left() {
    match expr_of("world.players[0].name") {
        Expr::MemberAccess(base, field) => {
            assert_eq!(field, "name");
            match *base {
                Expr::Index(base, index) => {
                    assert!(matches!(*index, Expr::Int(0)));
                    match *base {
                        Expr::MemberAccess(base, field) => {
                            assert_eq!(field, "players");
                            assert_eq!(name_of(&base), "world");
                        }
                        other => panic!("{:?}", other),
                    }
                }
                other => panic!("{:?}", other),
            }
        }
        other => panic!("{:?}", other),
    }
}

#[test]
fn unary_operators() {
    match expr_of("-x") {
        Expr::UnaryOp(UnaryOp::Neg, operand) => assert_eq!(name_of(&operand), "x"),
        other => panic!("{:?}", other),
    }
    match expr_of("not done") {
        Expr::UnaryOp(UnaryOp::Not, operand) => assert_eq!(name_of(&operand), "done"),
        other => panic!("{:?}", other),
    }
    match expr_of("- - x") {
        Expr::UnaryOp(UnaryOp::Neg, operand) => {
            assert!(matches!(*operand, Expr::UnaryOp(UnaryOp::Neg, _)))
        }
        other => panic!("{:?}", other),
    }
}

#[test]
fn logical_operators_bind_looser_than_comparisons() {
    match expr_of("a < b and c >= d or not e") {
        Expr::BinaryOp(left, BinaryOp::Or, right) => {
            assert!(matches!(*right, Expr::UnaryOp(UnaryOp::Not, _)));
            match *left {
                Expr::BinaryOp(l, BinaryOp::And, r) => {
                    assert!(matches!(*l, Expr::BinaryOp(_, BinaryOp::Lt, _)));
                    assert!(matches!(*r, Expr::BinaryOp(_, BinaryOp::Ge, _)));
                }
                other => panic!("{:?}", other),
            }
        }
        other => panic!("{:?}", other),
    }
}

#[test]
fn every_binary_operator() {
    let cases = [
        ("a + b", BinaryOp::Add),
        ("a - b", BinaryOp::Sub),
        ("a * b", BinaryOp::Mul),
        ("a / b", BinaryOp::Div),
        ("a % b", BinaryOp::Mod),
        ("a == b", BinaryOp::Eq),
        ("a != b", BinaryOp::Ne),
        ("a < b", BinaryOp::Lt),
        ("a <= b", BinaryOp::Le),
        ("a > b", BinaryOp::Gt),
        ("a >= b", BinaryOp::Ge),
        ("a and b", BinaryOp::And),
        ("a or b", BinaryOp::Or),
    ];
    for (source, expected) in cases {
        match expr_of(source) {
            Expr::BinaryOp(_, op, _) => assert_eq!(op, expected),
            other => panic!("{:?}", other),
        }
    }
}

#[test]
fn parentheses_group() {
    match expr_of("(1 + 2) * 3") {
        Expr::BinaryOp(left, BinaryOp::Mul, right) => {
            assert!(matches!(*left, Expr::BinaryOp(_, BinaryOp::Add, _)));
            assert!(matches!(*right, Expr::Int(3)));
        }
        other => panic!("{:?}", other),
    }
}

#[test]
fn assignments() {
    let cases = [
        ("x = 1\n", AssignOp::Assign),
        ("x += 1\n", AssignOp::AddAssign),
        ("x -= 1\n", AssignOp::SubAssign),
        ("x *= 1\n", AssignOp::MulAssign),
        ("x /= 1\n", AssignOp::DivAssign),
    ];
    for (source, expected) in cases {
        match &program_of(source).statements[0] {
            Statement::Assignment(a) => {
                assert_eq!(a.op, expected);
                assert_eq!(a.target.parts, vec!["x".to_string()]);
                assert!(matches!(a.value, Expr::Int(1)));
            }
            other => panic!("{:?}", other),
        }
    }
    match &program_of("a.b.c = 2\n").statements[0] {
        Statement::Assignment(a) => {
            assert_eq!(a.target.parts, vec!["a".to_string(), "b".to_string(), "c".to_string()]);
        }
        other => panic!("{:?}", other),
    }
}

#[test]
fn declarations_with_type_and_value() {
    match &program_of("let items: List<int> = [1]\n").statements[0] {
        Statement::VarDecl(v) => {
            assert_eq!(v.name, "items");
            match &v.type_expr {
                Some(TypeExpr::Generic { name, params }) => {
                    assert_eq!(name, "List");
                    assert_eq!(params.len(), 1);
                    assert!(matches!(&params[0], TypeExpr::Simple(t) if t == "int"));
                }
                other => panic!("{:?}", other),
            }
            assert!(matches!(&v.value, Expr::List(items) if items.len() == 1));
        }
        other => panic!("{:?}", other),
    }
    match &program_of("let table: Map<str, List<float>>\n").statements[0] {
        Statement::VarDecl(v) => match &v.type_expr {
            Some(TypeExpr::Generic { name, params }) => {
                assert_eq!(name, "Map");
                assert_eq!(params.len(), 2);
                assert!(matches!(&params[1], TypeExpr::Generic { name, params } if name == "List" && params.len() == 1));
            }
            other => panic!("{:?}", other),
        },
        other => panic!("{:?}", other),
    }
}

#[test]
fn conditional_with_elif_and_else() {
    let source = "if a:\n    x = 1\nelif b:\n    x = 2\n    y = 2\nelif c:\n    x = 3\nelse:\n    x = 4\n";
    match &program_of(source).statements[0] {
        Statement::If(s) => {
            assert_eq!(name_of(&s.condition), "a");
            assert_eq!(s.then_body.len(), 1);
            assert_eq!(s.elif_clauses.len(), 2);
            assert_eq!(name_of(&s.elif_clauses[0].0), "b");
            assert_eq!(s.elif_clauses[0].1.len(), 2);
            assert_eq!(name_of(&s.elif_clauses[1].0), "c");
            assert_eq!(s.elif_clauses[1].1.len(), 1);
            assert_eq!(s.else_body.as_ref().map(|b| b.len()), Some(1));
        }
        other => panic!("{:?}", other),
    }
    match &program_of("if a:\n    x = 1\ny = 2\n").statements[0] {
        Statement::If(s) => {
            assert!(s.elif_clauses.is_empty());
            assert!(s.else_body.is_none());
        }
        other => panic!("{:?}", other),
    }
}

#[test]
fn loops() {
    let program = program_of("while hp > 0:\n    hp -= 1\nfor e in enemies:\n    e.hit()\n    count += 1\n");
    assert_eq!(program.statements.len(), 2);
    match &program.statements[0] {
        Statement::While(w) => {
            assert!(matches!(&w.condition, Expr::BinaryOp(_, BinaryOp::Gt, _)));
            assert_eq!(w.body.len(), 1);
        }
        other => panic!("{:?}", other),
    }
    match &program.statements[1] {
        Statement::For(f) => {
            assert_eq!(f.var_name, "e");
            assert_eq!(name_of(&f.iterable), "enemies");
            assert_eq!(f.body.len(), 2);
        }
        other => panic!("{:?}", other),
    }
}

#[test]
fn functions() {
    let source = "async fn load(path: str, tries: int) -> bool:\n    return true\nfn tick():\n    return\n";
    let program = program_of(source);
    assert_eq!(program.statements.len(), 2);
    match &program.statements[0] {
        Statement::FnDef(f) => {
            assert_eq!(f.name, "load");
            assert!(f.is_async);
            assert_eq!(f.params.len(), 2);
            assert_eq!(f.params[0].name, "path");
            assert!(matches!(&f.params[0].type_expr, TypeExpr::Simple(t) if t == "str"));
            assert_eq!(f.params[1].name, "tries");
            assert!(matches!(&f.return_type, Some(TypeExpr::Simple(t)) if t == "bool"));
            assert_eq!(f.body.len(), 1);
            assert!(matches!(&f.body[0], Statement::Return(Some(Expr::Bool(true)))));
        }
        other => panic!("{:?}", other),
    }
    match &program.statements[1] {
        Statement::FnDef(f) => {
            assert_eq!(f.name, "tick");
            assert!(!f.is_async);
            assert!(f.params.is_empty());
            assert!(f.return_type.is_none());
            assert!(matches!(&f.body[0], Statement::Return(None)));
        }
        other => panic!("{:?}", other),
    }
}

#[test]
fn signals_and_emits() {
    let program = program_of("signal Scored(points: int, by: str)\nsignal Died()\nemit Scored(10, by = \"me\")\n");
    assert_eq!(program.statements.len(), 3);
    match &program.statements[0] {
        Statement::SignalDef(s) => {
            assert_eq!(s.name, "Scored");
            assert_eq!(s.params.len(), 2);
            assert_eq!(s.params[1].name, "by");
        }
        other => panic!("{:?}", other),
    }
    assert!(matches!(&program.statements[1], Statement::SignalDef(s) if s.params.is_empty()));
    match &program.statements[2] {
        Statement::Emit(e) => {
            assert_eq!(e.signal_name, "Scored");
            assert_eq!(e.args.len(), 2);
            assert!(matches!(e.args[0], Expr::Int(10)));
            assert!(matches!(&e.args[1], Expr::String(t) if t == "me"));
        }
        other => panic!("{:?}", other),
    }
}

#[test]
fn state_machines() {
    let source = "state_machine Door:\n    initial Closed\n    state Closed:\n        locked = true\n    state Open:\n        locked = false\n        timer = 0\n";
    match &program_of(source).statements[0] {
        Statement::StateMachine(m) => {
            assert_eq!(m.name, "Door");
            assert_eq!(m.initial_state.as_deref(), Some("Closed"));
            assert_eq!(m.states.len(), 2);
            assert_eq!(m.states[0].name, "Closed");
            assert_eq!(m.states[0].body.len(), 1);
            assert_eq!(m.states[1].name, "Open");
            assert_eq!(m.states[1].body.len(), 2);
        }
        other => panic!("{:?}", other),
    }
    match &program_of("state_machine M:\n    state A:\n        x = 1\n").statements[0] {
        Statement::StateMachine(m) => {
            assert!(m.initial_state.is_none());
            assert_eq!(m.states.len(), 1);
        }
        other => panic!("{:?}", other),
    }
}

#[test]
fn entities_with_every_kind_of_member() {
    let source = "# Player.nx\nentity Player:\n    component Transform:\n        position = Vec2(0, 0)\n        scale = 1\n        scale = 2\n    \n    signal Hit(damage: int)\n    let hp: int = 100\n    let speed = 2.5\n\n    fn on_ready():\n        print(\"Player ready!\")\n\n    fn on_update(delta: float):\n        pass\n";
    let program = program_of(source);
    assert_eq!(program.statements.len(), 1);
    match &program.statements[0] {
        Statement::EntityDef(e) => {
            assert_eq!(e.name, "Player");
            assert_eq!(e.components.len(), 1);
            assert_eq!(e.components[0].name, "Transform");
            assert_eq!(e.components[0].fields.len(), 2);
            assert_eq!(e.components[0].fields[0].0, "position");
            assert!(matches!(e.components[0].fields[0].1, Expr::Vec2(_, _)));
            assert_eq!(e.components[0].fields[1].0, "scale");
            assert!(matches!(e.components[0].fields[1].1, Expr::Int(2)));
            assert_eq!(e.signals.len(), 1);
            assert_eq!(e.variables.len(), 2);
            assert_eq!(e.functions.len(), 2);
            assert_eq!(e.functions[0].name, "on_ready");
            assert_eq!(e.functions[1].name, "on_update");
            match &e.functions[0].body[0] {
                Statement::Expr(Expr::Call { callee, args }) => {
                    assert_eq!(name_of(callee), "print");
                    assert!(matches!(&args[0].value, Expr::String(t) if t == "Player ready!"));
                }
                other => panic!("{:?}", other),
            }
            assert!(matches!(&e.functions[1].body[0], Statement::Expr(Expr::Identifier(t)) if t == "pass"));
        }
        other => panic!("{:?}", other),
    }
}

#[test]
fn comments_and_blank_lines_are_skipped() {
    let program = program_of("\n\n# first\nlet a = 1  # trailing\n\n   \nlet b = 2\n# last");
    assert_eq!(program.statements.len(), 2);
}

#[test]
fn strings_may_hold_markers_and_escapes() {
    assert!(matches!(expr_of("\"{{INDENT}} # not a comment\""), Expr::String(t) if t == "{{INDENT}} # not a comment"));
    assert!(matches!(expr_of("\"a\\\"b\""), Expr::String(t) if t == "a\\\"b"));
}

#[test]
fn garbled_sources_are_syntax_errors() {
    for source in [
        "let\n",
        "1 +\n",
        "x = \n",
        "if a\n    x = 1\n",
        "entity:\n    let x = 1\n",
        "entity Player:\n",
        "f(1, 2\n",
        "\"open\n",
        "let x = 1 2\n",
        "    indented = 1\n",
        "while true:\nx = 1\n",
        "$\n",
    ] {
        match parse(source) {
            Err(NexScriptError::ParseError { line, .. }) => assert!(line >= 1, "{}", source),
            other => panic!("{:?} for {:?}", other, source),
        }
    }
}

#[test]
fn error_line_and_column_of_the_furthest_position() {
    match parse("let x = 1\nlet y = (2 + \nlet z = 3\n") {
        Err(NexScriptError::ParseError { line, message }) => {
            assert_eq!(line, 2);
            assert_eq!(message, "unexpected input at column 13");
        }
        other => panic!("{:?}", other),
    }
}

#[test]
fn parser_matches_one_rule() {
    let pairs = NexScriptParser::parse(Rule::Expression, "a + 1").unwrap();
    assert_eq!(pairs.len(), 1);
    assert_eq!(pairs[0].rule, Rule::Expression);
    assert_eq!(pairs[0].text, "a + 1");
    let pairs = NexScriptParser::parse(Rule::Identifier, "speed  ").unwrap();
    assert_eq!(pairs[0].text, "speed");
    assert!(pairs[0].children.is_empty());
    let e = NexScriptParser::parse(Rule::Identifier, "9lives").unwrap_err();
    assert_eq!((e.line, e.column), (1, 1));
    assert_eq!(e.message(), "unexpected input at column 1");
}

#[test]
fn parse_tree_of_a_program_ends_with_the_end_of_input() {
    let pairs = NexScriptParser::parse(Rule::Program, "x\n").unwrap();
    assert_eq!(pairs.len(), 1);
    assert_eq!(pairs[0].rule, Rule::Program);
    let rules: Vec<Rule> = pairs[0].children.iter().map(|c| c.rule).collect();
    assert_eq!(rules, vec![Rule::Expression, Rule::Eoi]);
}

fn in_parentheses(depth: usize) -> String {
    format!("{}1{}\n", "(".repeat(depth), ")".repeat(depth))
}

fn in_headers(header: &str, depth: usize) -> String {
    let mut source = String::new();
    for i in 0..depth {
        source.push_str(&format!("{}{}\n", " ".repeat(i), header));
    }
    source.push_str(&format!("{}x = 1\n", " ".repeat(depth)));
    source
}

fn in_blocks(depth: usize) -> String {
    in_headers("if a:", depth)
}

#[test]
fn deeply_nested_sources_parse() {
    assert!(matches!(
        program_of(&in_parentheses(150)).statements[0],
        Statement::Expr(Expr::Int(1))
    ));
    let program = program_of(&in_blocks(300));
    assert_eq!(program.statements.len(), 1);
    assert!(matches!(&program.statements[0], Statement::If(s) if s.then_body.len() == 1));
    let calls = format!("{}x{}\n", "f(".repeat(150), ")".repeat(150));
    assert!(matches!(program_of(&calls).statements[0], Statement::Expr(Expr::Call { .. })));
    let lists = format!("{}1{}\n", "[".repeat(150), "]".repeat(150));
    assert!(matches!(program_of(&lists).statements[0], Statement::Expr(Expr::List(_))));
    let loops = program_of(&in_headers("for i in items:", 200));
    assert!(matches!(&loops.statements[0], Statement::For(f) if f.body.len() == 1));
}

#[test]
fn long_programs_parse() {
    let mut source = String::new();
    for i in 0..2000 {
        source.push_str(&format!("let v{} = {} + {}\n", i, i, i));
    }
    assert_eq!(program_of(&source).statements.len(), 2000);
}
