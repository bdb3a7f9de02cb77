use nexscript::{
    parse, preprocess_indentation, transpile, BinaryOp, Expr, NexScriptError, Program, Statement,
    TypeExpr,
};

fn parsed(source: &str) -> Program {
    match parse(source) {
        Ok(program) => program,
        Err(e) => panic!("{}", e.to_string()),
    }
}

fn int_of(e: &Expr) -> i64 {
    match e {
        Expr::Int(n) => *n,
        _ => panic!("not an integer literal"),
    }
}

#[test]
fn test_preprocess_indentation() {
    let source = "entity Player:\n    let x = 1\n    let y = 2\n";
    let result = preprocess_indentation(source);
    assert!(result.contains("{{INDENT}}"));
    assert!(result.contains("{{DEDENT}}"));
}

#[test]
fn test_parse_empty() {
    let result = parse("");
    assert!(result.is_ok());
}

#[test]
fn preprocess_exact_text() {
    let source = "entity Player:\n    let x = 1\n    let y = 2\n";
    assert_eq!(
        preprocess_indentation(source),
        "entity Player:\n{{INDENT}}let x = 1\nlet y = 2\n{{DEDENT}}"
    );
}

#[test]
fn preprocess_blank_and_comment_lines_pass_through() {
    let source = "a:\n    b\n\n      # note\n    c\nd\n";
    assert_eq!(
        preprocess_indentation(source),
        "a:\n{{INDENT}}b\n\n      # note\nc\n{{DEDENT}}d\n"
    );
}

#[test]
fn preprocess_closes_every_block_at_the_end() {
    let source = "a:\n  b:\n    c";
    assert_eq!(
        preprocess_indentation(source),
        "a:\n{{INDENT}}b:\n{{INDENT}}c\n{{DEDENT}}{{DEDENT}}"
    );
}

#[test]
fn preprocess_accepts_a_width_between_two_levels() {
    let source = "a:\n        b\n    c\n";
    assert_eq!(
        preprocess_indentation(source),
        "a:\n{{INDENT}}b\n{{DEDENT}}c\n"
    );
}

#[test]
fn preprocess_markers_balance() {
    let source = "a:\n    b:\n        c\n    d:\n        e\nf\n";
    let text = preprocess_indentation(source);
    assert_eq!(text.matches("{{INDENT}}").count(), 3);
    assert_eq!(text.matches("{{DEDENT}}").count(), 3);
    assert_eq!(nexscript::text::count_occurrences(&text, "{{INDENT}}"), 3);
    assert_eq!(nexscript::text::count_occurrences(&text, "{{DEDENT}}"), 3);
}

#[test]
fn preprocess_markers_balance_whatever_the_indentation() {
    let sources = [
        "a\n   b\n c\n      d\n  e\n\tf\n",
        "  a\nb\n",
        "a:\n    b {{ c }}\n        # {{ x\n    d}} {I}\n",
        "\n\n   \n",
        "a\n b\n  c\n   d",
    ];
    for source in sources {
        let text = preprocess_indentation(source);
        assert_eq!(
            text.matches("{{INDENT}}").count(),
            text.matches("{{DEDENT}}").count(),
            "{:?}",
            source
        );
    }
}

#[test]
fn occurrences_are_counted_without_overlap() {
    let cases = [
        ("aaaa", "aa"),
        ("abababa", "aba"),
        ("{{INDENT}}{{DEDENT}}{{INDENT}}", "{{INDENT}}"),
        ("{{{INDENT}}}", "{{INDENT}}"),
        ("abc", ""),
        ("", "a"),
        ("ab", "abc"),
        ("xyz", "q"),
    ];
    for (text, pattern) in cases {
        let expected = if pattern.is_empty() { 0 } else { text.matches(pattern).count() };
        assert_eq!(nexscript::text::count_occurrences(text, pattern), expected, "{:?}", (text, pattern));
    }
}

#[test]
fn preprocess_strips_carriage_returns_before_line_feeds() {
    assert_eq!(preprocess_indentation("a\r\nb\r\n"), "a\nb\n");
}

#[test]
fn preprocess_empty_source() {
    assert_eq!(preprocess_indentation(""), "");
}

#[test]
fn precedence_of_multiplication_over_addition() {
    let program = parsed("1 + 2 * 3");
    assert_eq!(program.statements.len(), 1);
    match &program.statements[0] {
        Statement::Expr(Expr::BinaryOp(left, BinaryOp::Add, right)) => {
            assert_eq!(int_of(left), 1);
            match &**right {
                Expr::BinaryOp(a, BinaryOp::Mul, b) => {
                    assert_eq!(int_of(a), 2);
                    assert_eq!(int_of(b), 3);
                }
                other => panic!("{:?}", other),
            }
        }
        other => panic!("{:?}", other),
    }
}

#[test]
fn subtraction_associates_to_the_left() {
    let program = parsed("10 - 2 - 3");
    match &program.statements[0] {
        Statement::Expr(Expr::BinaryOp(left, BinaryOp::Sub, right)) => {
            assert_eq!(int_of(right), 3);
            match &**left {
                Expr::BinaryOp(a, BinaryOp::Sub, b) => {
                    assert_eq!(int_of(a), 10);
                    assert_eq!(int_of(b), 2);
                }
                other => panic!("{:?}", other),
            }
        }
        other => panic!("{:?}", other),
    }
}

#[test]
fn declaration_without_initializer_is_zero() {
    let program = parsed("let x\nlet y: float\n");
    assert_eq!(program.statements.len(), 2);
    match &program.statements[0] {
        Statement::VarDecl(v) => {
            assert_eq!(v.name, "x");
            assert!(v.type_expr.is_none());
            assert_eq!(int_of(&v.value), 0);
        }
        other => panic!("{:?}", other),
    }
    match &program.statements[1] {
        Statement::VarDecl(v) => {
            assert_eq!(v.name, "y");
            assert!(matches!(&v.type_expr, Some(TypeExpr::Simple(t)) if t == "float"));
            assert_eq!(int_of(&v.value), 0);
        }
        other => panic!("{:?}", other),
    }
}

#[test]
fn generation_is_repeatable() {
    let program = parsed("entity Player:\n    let speed = 5\n    fn on_update(delta: float):\n        speed += 1\n");
    assert_eq!(transpile(&program), transpile(&program));
}

#[test]
fn syntax_error_names_its_line() {
    match parse("let x = 1\nlet y = 2\nlet = 3\nlet z = 4\n") {
        Err(NexScriptError::ParseError { line, message }) => {
            assert_eq!(line, 3);
            assert_eq!(message, "unexpected input at column 5");
        }
        other => panic!("{:?}", other),
    }
}

#[test]
fn syntax_error_inside_a_block_names_its_line() {
    match parse("entity Player:\n    let speed = 5\n    fn on_update(:\n        speed += 1\n") {
        Err(NexScriptError::ParseError { line, .. }) => assert_eq!(line, 3),
        other => panic!("{:?}", other),
    }
}

#[test]
fn one_failure_leaves_the_next_parse_alone() {
    assert!(parse("fn broken").is_err());
    assert!(parse("let x = 1\n").is_ok());
}

#[test]
fn scenario_entity_with_one_field() {
    let program = parsed("entity Player:\n    let speed = 5\n");
    assert_eq!(program.statements.len(), 1);
    match &program.statements[0] {
        Statement::EntityDef(e) => {
            assert_eq!(e.name, "Player");
            assert_eq!(e.variables.len(), 1);
            assert!(e.components.is_empty());
            assert!(e.functions.is_empty());
            assert!(e.signals.is_empty());
            assert_eq!(e.variables[0].name, "speed");
            assert!(e.variables[0].type_expr.is_none());
            assert_eq!(int_of(&e.variables[0].value), 5);
        }
        other => panic!("{:?}", other),
    }
    let text = transpile(&program);
    assert_eq!(
        text,
        "// Generated by NexScript compiler\n// Do not edit manually\n\nuse bevy::prelude::*;\n\n#[derive(Component, Default)]\npub struct Player {\n    pub speed: i32,\n}\n\npub struct PlayerPlugin;\nimpl Plugin for PlayerPlugin {\n    fn build(&self, app: &mut App) {\n        app.register_type::<Player>();\n    }\n}\n\n"
    );
}

#[test]
fn scenario_update_function_becomes_a_system() {
    let source = "entity Player:\n    let speed = 5\n    fn on_update(delta: float):\n        Transform.position.x += speed * delta\n";
    let text = transpile(&parsed(source));
    assert!(text.contains("        app.add_systems(Update, player_on_update);\n"));
    assert!(text.contains(
        "fn player_on_update(time: Res<Time>, mut query: Query<(&mut Player, &mut Transform)>) {\n"
    ));
    assert!(text.contains("    let delta = time.delta_seconds();\n"));
    assert!(text.contains("    for (mut player, mut transform) in query.iter_mut() {\n"));
    assert!(text.contains("        transform.translation.x += (speed * delta);\n"));
    assert!(!text.contains("Transform.position"));
}

#[test]
fn scenario_dangling_function_header_is_a_syntax_error() {
    match parse("fn on_update\n") {
        Err(NexScriptError::ParseError { line, .. }) => assert_eq!(line, 1),
        other => panic!("{:?}", other),
    }
    assert!(parse("fn").is_err());
    assert!(parse("entity Player:\n    fn on_ready(\n").is_err());
}

#[test]
fn scenario_emit_becomes_a_comment() {
    let source = "entity Game:\n    fn score():\n        emit Scored(10)\n";
    let text = transpile(&parsed(source));
    assert!(text.contains("pub fn score() {\n    // emit Scored(10);\n}\n\n"));
    assert_eq!(text.matches("Scored").count(), 1);
}
