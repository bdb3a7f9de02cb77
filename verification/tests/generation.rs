use nexscript::text::{join, repeat, replace, to_single_line};
use nexscript::{
    infer_type, is_type, parse, transpile, transpile_entity, transpile_expr, transpile_function,
    transpile_lvalue, transpile_ready_system, transpile_statement, transpile_statement_in_system,
    transpile_type, transpile_update_system, Arg, AssignOp, Assignment, BinaryOp, EmitStmt,
    EntityDef, Expr, FnDef, ForStmt, IfStmt, LValue, NexScriptError, Param, Program, SignalDef,
    Statement, TypeExpr, UnaryOp, VarDecl, WhileStmt,
};

fn simple(name: &str) -> TypeExpr {
    TypeExpr::Simple(name.to_string())
}

fn ident(name: &str) -> Expr {
    Expr::Identifier(name.to_string())
}

fn float(text: &str) -> Expr {
    Expr::Float(text.to_string())
}

fn binary(left: Expr, op: BinaryOp, right: Expr) -> Expr {
    Expr::BinaryOp(Box::new(left), op, Box::new(right))
}

fn inferred(e: &Expr) -> Option<String> {
    match infer_type(e) {
        Some(TypeExpr::Simple(name)) => Some(name),
        Some(TypeExpr::Generic { name, params }) => {
            let params: Vec<String> = params.iter().map(transpile_type).collect();
            Some(format!("{}<{}>", name, params.join(", ")))
        }
        None => None,
    }
}

#[test]
fn types_of_literals() {
    assert_eq!(inferred(&Expr::Int(1)).as_deref(), Some("int"));
    assert_eq!(inferred(&float("1.5")).as_deref(), Some("float"));
    assert_eq!(inferred(&Expr::String("s".to_string())).as_deref(), Some("str"));
    assert_eq!(inferred(&Expr::Bool(true)).as_deref(), Some("bool"));
    assert_eq!(
        inferred(&Expr::Vec2(Box::new(Expr::Int(0)), Box::new(Expr::Int(0)))).as_deref(),
        Some("Vec2")
    );
    assert_eq!(
        inferred(&Expr::Vec3(
            Box::new(Expr::Int(0)),
            Box::new(Expr::Int(0)),
            Box::new(Expr::Int(0))
        ))
        .as_deref(),
        Some("Vec3")
    );
    assert_eq!(inferred(&Expr::List(vec![Expr::Int(1)])).as_deref(), Some("List<Any>"));
    assert_eq!(inferred(&Expr::MapLit(vec![])).as_deref(), Some("Map<String, Any>"));
}

#[test]
fn types_of_unary_operations() {
    assert_eq!(
        inferred(&Expr::UnaryOp(UnaryOp::Not, Box::new(Expr::Int(1)))).as_deref(),
        Some("bool")
    );
    assert_eq!(
        inferred(&Expr::UnaryOp(UnaryOp::Neg, Box::new(Expr::Int(1)))).as_deref(),
        Some("float")
    );
}

#[test]
fn comparisons_and_logic_are_bool() {
    for op in [
        BinaryOp::Eq,
        BinaryOp::Ne,
        BinaryOp::Lt,
        BinaryOp::Le,
        BinaryOp::Gt,
        BinaryOp::Ge,
        BinaryOp::And,
        BinaryOp::Or,
    ] {
        assert_eq!(inferred(&binary(ident("a"), op, ident("b"))).as_deref(), Some("bool"));
    }
}

#[test]
fn promotion_order() {
    let vec2 = || Expr::Vec2(Box::new(Expr::Int(0)), Box::new(Expr::Int(0)));
    let text = || Expr::String("s".to_string());
    let add = BinaryOp::Add;
    assert_eq!(inferred(&binary(float("1.0"), add, Expr::Int(1))).as_deref(), Some("float"));
    assert_eq!(inferred(&binary(Expr::Int(1), add, float("1.0"))).as_deref(), Some("float"));
    assert_eq!(inferred(&binary(text(), add, float("1.0"))).as_deref(), Some("float"));
    assert_eq!(inferred(&binary(vec2(), BinaryOp::Mul, float("1.0"))).as_deref(), Some("float"));
    assert_eq!(inferred(&binary(Expr::Int(1), BinaryOp::Mod, Expr::Int(2))).as_deref(), Some("int"));
    assert_eq!(inferred(&binary(text(), add, Expr::Int(1))).as_deref(), Some("str"));
    assert_eq!(inferred(&binary(Expr::Int(1), add, text())).as_deref(), Some("str"));
    assert_eq!(inferred(&binary(text(), add, vec2())).as_deref(), Some("str"));
    assert_eq!(inferred(&binary(vec2(), BinaryOp::Sub, Expr::Int(1))).as_deref(), Some("Vec2"));
    assert_eq!(inferred(&binary(Expr::Bool(true), BinaryOp::Div, vec2())).as_deref(), Some("Vec2"));
    assert_eq!(inferred(&binary(text(), BinaryOp::Sub, Expr::Int(1))), None);
    assert_eq!(inferred(&binary(text(), BinaryOp::Sub, vec2())).as_deref(), Some("Vec2"));
    assert_eq!(inferred(&binary(Expr::Bool(true), add, Expr::Int(1))), None);
    assert_eq!(inferred(&binary(Expr::Int(1), add, ident("x"))), None);
    assert_eq!(inferred(&binary(ident("x"), add, ident("y"))), None);
}

#[test]
fn promotion_with_an_operand_of_unknown_type() {
    let vec2 = || Expr::Vec2(Box::new(Expr::Int(0)), Box::new(Expr::Int(0)));
    let text = || Expr::String("s".to_string());
    let add = BinaryOp::Add;
    assert_eq!(inferred(&binary(ident("x"), add, float("1.0"))).as_deref(), Some("float"));
    assert_eq!(inferred(&binary(float("1.0"), BinaryOp::Div, ident("x"))).as_deref(), Some("float"));
    assert_eq!(inferred(&binary(ident("x"), add, text())).as_deref(), Some("str"));
    assert_eq!(inferred(&binary(text(), add, ident("x"))).as_deref(), Some("str"));
    assert_eq!(inferred(&binary(ident("x"), BinaryOp::Mul, text())), None);
    assert_eq!(inferred(&binary(ident("x"), BinaryOp::Mul, vec2())).as_deref(), Some("Vec2"));
    assert_eq!(inferred(&binary(vec2(), BinaryOp::Sub, ident("x"))).as_deref(), Some("Vec2"));
    assert_eq!(inferred(&binary(ident("x"), add, Expr::Int(1))), None);
    assert_eq!(inferred(&binary(Expr::Int(1), BinaryOp::Mod, ident("x"))), None);
    let nested = binary(binary(ident("x"), add, ident("y")), BinaryOp::Mul, float("2.0"));
    assert_eq!(inferred(&nested).as_deref(), Some("float"));
}

#[test]
fn types_of_calls() {
    let call = |name: &str| Expr::Call { callee: Box::new(ident(name)), args: vec![] };
    assert_eq!(inferred(&call("Vec2")).as_deref(), Some("Vec2"));
    assert_eq!(inferred(&call("Vec3")).as_deref(), Some("Vec3"));
    assert_eq!(inferred(&call("Color")).as_deref(), Some("Color"));
    assert_eq!(inferred(&call("color")), None);
    let method = Expr::Call {
        callee: Box::new(Expr::MemberAccess(Box::new(ident("a")), "Vec2".to_string())),
        args: vec![],
    };
    assert_eq!(inferred(&method), None);
}

#[test]
fn types_unknown() {
    assert_eq!(inferred(&ident("x")), None);
    assert_eq!(inferred(&Expr::MemberAccess(Box::new(ident("a")), "b".to_string())), None);
    assert_eq!(inferred(&Expr::Index(Box::new(ident("a")), Box::new(Expr::Int(0)))), None);
}

#[test]
fn is_type_of_simple_and_generic() {
    assert!(is_type(&simple("int"), "int"));
    assert!(!is_type(&simple("int"), "float"));
    assert!(!is_type(&TypeExpr::Generic { name: "int".to_string(), params: vec![] }, "int"));
}

#[test]
fn type_texts() {
    assert_eq!(transpile_type(&simple("int")), "i32");
    assert_eq!(transpile_type(&simple("float")), "f32");
    assert_eq!(transpile_type(&simple("bool")), "bool");
    assert_eq!(transpile_type(&simple("str")), "String");
    assert_eq!(transpile_type(&simple("Health")), "Health");
    let nested = TypeExpr::Generic {
        name: "Map".to_string(),
        params: vec![
            simple("str"),
            TypeExpr::Generic { name: "List".to_string(), params: vec![simple("int")] },
        ],
    };
    assert_eq!(transpile_type(&nested), "Map<String, List<i32>>");
    assert_eq!(
        transpile_type(&TypeExpr::Generic { name: "Unit".to_string(), params: vec![] }),
        "Unit<>"
    );
}

#[test]
fn lvalue_texts() {
    let path = |parts: &[&str]| LValue { parts: parts.iter().map(|p| p.to_string()).collect() };
    assert_eq!(transpile_lvalue(&path(&["a", "b", "c"])), "a.b.c");
    assert_eq!(transpile_lvalue(&path(&["x"])), "x");
    assert_eq!(transpile_lvalue(&path(&[])), "");
}

#[test]
fn integer_texts() {
    assert_eq!(transpile_expr(&Expr::Int(0)), "0");
    assert_eq!(transpile_expr(&Expr::Int(7)), "7");
    assert_eq!(transpile_expr(&Expr::Int(1234567890)), "1234567890");
    assert_eq!(transpile_expr(&Expr::Int(-42)), "-42");
    assert_eq!(transpile_expr(&Expr::Int(i64::MAX)), "9223372036854775807");
    assert_eq!(transpile_expr(&Expr::Int(i64::MIN)), "-9223372036854775808");
}

#[test]
fn float_texts_always_have_a_point() {
    assert_eq!(transpile_expr(&float("2.0")), "2.0");
    assert_eq!(transpile_expr(&float("2.000")), "2.0");
    assert_eq!(transpile_expr(&float("1.5")), "1.5");
    assert_eq!(transpile_expr(&float("1.50")), "1.5");
    assert_eq!(transpile_expr(&float("0.25")), "0.25");
    assert_eq!(transpile_expr(&float("007.125")), "7.125");
    assert_eq!(transpile_expr(&float("100.0")), "100.0");
    assert_eq!(transpile_expr(&float("0.0")), "0.0");
    assert_eq!(transpile_expr(&float("3")), "3.0");
    assert_eq!(transpile_expr(&float(".5")), "0.5");
    assert_eq!(transpile_expr(&float("")), "0.0");
}

#[test]
fn expression_texts() {
    assert_eq!(transpile_expr(&Expr::String("hi".to_string())), "\"hi\"");
    assert_eq!(transpile_expr(&Expr::Bool(true)), "true");
    assert_eq!(transpile_expr(&Expr::Bool(false)), "false");
    assert_eq!(transpile_expr(&ident("speed")), "speed");
    assert_eq!(
        transpile_expr(&binary(Expr::Int(1), BinaryOp::Add, binary(Expr::Int(2), BinaryOp::Mul, Expr::Int(3)))),
        "(1 + (2 * 3))"
    );
    assert_eq!(
        transpile_expr(&Expr::MemberAccess(Box::new(ident("a")), "b".to_string())),
        "a.b"
    );
    assert_eq!(
        transpile_expr(&Expr::Vec2(Box::new(Expr::Int(1)), Box::new(float("2.0")))),
        "Vec2::new(1, 2.0)"
    );
    assert_eq!(
        transpile_expr(&Expr::Vec3(Box::new(Expr::Int(1)), Box::new(Expr::Int(2)), Box::new(Expr::Int(3)))),
        "Vec3::new(1, 2, 3)"
    );
    let call = Expr::Call {
        callee: Box::new(ident("spawn")),
        args: vec![
            Arg { name: None, value: ident("enemy") },
            Arg { name: Some("count".to_string()), value: Expr::Int(3) },
        ],
    };
    assert_eq!(transpile_expr(&call), "spawn(enemy, 3)");
    assert_eq!(
        transpile_expr(&Expr::Call { callee: Box::new(ident("f")), args: vec![] }),
        "f()"
    );
}

#[test]
fn operator_texts() {
    let cases = [
        (BinaryOp::Add, "+"),
        (BinaryOp::Sub, "-"),
        (BinaryOp::Mul, "*"),
        (BinaryOp::Div, "/"),
        (BinaryOp::Mod, "%"),
        (BinaryOp::Eq, "=="),
        (BinaryOp::Ne, "!="),
        (BinaryOp::Lt, "<"),
        (BinaryOp::Le, "<="),
        (BinaryOp::Gt, ">"),
        (BinaryOp::Ge, ">="),
        (BinaryOp::And, "&&"),
        (BinaryOp::Or, "||"),
    ];
    for (op, text) in cases {
        assert_eq!(transpile_expr(&binary(ident("a"), op, ident("b"))), format!("(a {} b)", text));
    }
    assert_eq!(transpile_expr(&Expr::UnaryOp(UnaryOp::Neg, Box::new(ident("a")))), "(-a)");
    assert_eq!(transpile_expr(&Expr::UnaryOp(UnaryOp::Not, Box::new(ident("a")))), "(!a)");
}

#[test]
fn expressions_without_rendering_become_a_placeholder() {
    assert_eq!(transpile_expr(&Expr::List(vec![Expr::Int(1)])), "/* expr */");
    assert_eq!(transpile_expr(&Expr::MapLit(vec![])), "/* expr */");
    assert_eq!(
        transpile_expr(&Expr::Index(Box::new(ident("a")), Box::new(Expr::Int(0)))),
        "/* expr */"
    );
}

#[test]
fn simple_statement_texts() {
    let decl = Statement::VarDecl(VarDecl { name: "x".to_string(), type_expr: None, value: Expr::Int(5) });
    assert_eq!(transpile_statement(&decl, 0), "let x = 5;\n");
    assert_eq!(transpile_statement(&decl, 2), "        let x = 5;\n");
    assert_eq!(transpile_statement(&Statement::Expr(ident("pass")), 1), "    pass;\n");
    assert_eq!(transpile_statement(&Statement::Return(None), 1), "    return;\n");
    assert_eq!(
        transpile_statement(&Statement::Return(Some(Expr::Bool(true))), 1),
        "    return true;\n"
    );
    let emit = Statement::Emit(EmitStmt {
        signal_name: "Scored".to_string(),
        args: vec![Expr::Int(10), ident("who")],
    });
    assert_eq!(transpile_statement(&emit, 1), "    // emit Scored(10, who);\n");
}

#[test]
fn assignment_texts() {
    let cases = [
        (AssignOp::Assign, "="),
        (AssignOp::AddAssign, "+="),
        (AssignOp::SubAssign, "-="),
        (AssignOp::MulAssign, "*="),
        (AssignOp::DivAssign, "/="),
    ];
    for (op, text) in cases {
        let s = Statement::Assignment(Assignment {
            target: LValue { parts: vec!["a".to_string(), "b".to_string()] },
            op,
            value: Expr::Int(1),
        });
        assert_eq!(transpile_statement(&s, 0), format!("a.b {} 1;\n", text));
    }
}

#[test]
fn conditional_text_keeps_the_order_of_its_clauses() {
    let set = |n: i64| {
        Statement::Assignment(Assignment {
            target: LValue { parts: vec!["x".to_string()] },
            op: AssignOp::Assign,
            value: Expr::Int(n),
        })
    };
    let s = Statement::If(IfStmt {
        condition: ident("a"),
        then_body: vec![set(1)],
        elif_clauses: vec![(ident("b"), vec![set(2), set(3)]), (ident("c"), vec![])],
        else_body: Some(vec![set(4)]),
    });
    assert_eq!(
        transpile_statement(&s, 1),
        "    if a {\n        x = 1;\n    } else if b {\n        x = 2;\n        x = 3;\n    } else if c {\n    } else {\n        x = 4;\n    }\n"
    );
    let bare = Statement::If(IfStmt {
        condition: ident("a"),
        then_body: vec![],
        elif_clauses: vec![],
        else_body: None,
    });
    assert_eq!(transpile_statement(&bare, 0), "if a {\n}\n");
}

#[test]
fn while_text() {
    let s = Statement::While(WhileStmt {
        condition: binary(ident("hp"), BinaryOp::Gt, Expr::Int(0)),
        body: vec![Statement::Expr(ident("tick"))],
    });
    assert_eq!(transpile_statement(&s, 0), "while (hp > 0) {\n    tick;\n}\n");
}

#[test]
fn statements_without_rendering_become_a_comment() {
    let signal = Statement::SignalDef(SignalDef { name: "Hit".to_string(), params: vec![] });
    assert_eq!(
        transpile_statement(&signal, 1),
        "    // TODO: transpile SignalDef(SignalDef { name: \"Hit\", params: [] })\n"
    );
    let looped = Statement::For(ForStmt {
        var_name: "e".to_string(),
        iterable: ident("all"),
        body: vec![],
    });
    assert_eq!(
        transpile_statement(&looped, 0),
        "// TODO: transpile For(ForStmt { var_name: \"e\", iterable: Identifier(\"all\"), body: [] })\n"
    );
    let text = transpile(&parse("fn free():\n    return 1\n").unwrap());
    assert!(text.ends_with(
        "// TODO: transpile FnDef(FnDef { name: \"free\", is_async: false, params: [], return_type: None, body: [Return(Some(Int(1)))] })\n"
    ));
}

#[test]
fn function_texts() {
    let f = FnDef {
        name: "load".to_string(),
        is_async: true,
        params: vec![
            Param { name: "path".to_string(), type_expr: simple("str") },
            Param { name: "tries".to_string(), type_expr: simple("int") },
        ],
        return_type: Some(simple("bool")),
        body: vec![Statement::Return(Some(Expr::Bool(true)))],
    };
    assert_eq!(
        transpile_function(&f, 0),
        "pub async fn load(path: String, tries: i32) -> bool {\n    return true;\n}\n\n"
    );
    let g = FnDef {
        name: "tick".to_string(),
        is_async: false,
        params: vec![],
        return_type: None,
        body: vec![],
    };
    assert_eq!(transpile_function(&g, 1), "    pub fn tick() {\n    }\n\n");
}

fn player() -> EntityDef {
    EntityDef {
        name: "PlayerShip".to_string(),
        components: vec![],
        functions: vec![
            FnDef {
                name: "on_ready".to_string(),
                is_async: false,
                params: vec![],
                return_type: None,
                body: vec![Statement::Expr(ident("ignored"))],
            },
            FnDef {
                name: "on_update".to_string(),
                is_async: false,
                params: vec![Param { name: "delta".to_string(), type_expr: simple("float") }],
                return_type: None,
                body: vec![Statement::Assignment(Assignment {
                    target: LValue {
                        parts: vec!["Transform".to_string(), "position".to_string(), "x".to_string()],
                    },
                    op: AssignOp::AddAssign,
                    value: Expr::MemberAccess(
                        Box::new(Expr::MemberAccess(
                            Box::new(ident("Transform")),
                            "position".to_string(),
                        )),
                        "y".to_string(),
                    ),
                })],
            },
            FnDef {
                name: "On_Update".to_string(),
                is_async: false,
                params: vec![],
                return_type: None,
                body: vec![],
            },
        ],
        signals: vec![],
        variables: vec![
            VarDecl { name: "hp".to_string(), type_expr: Some(simple("float")), value: Expr::Int(1) },
            VarDecl { name: "speed".to_string(), type_expr: None, value: float("2.5") },
            VarDecl { name: "target".to_string(), type_expr: None, value: ident("nobody") },
        ],
    }
}

#[test]
fn entity_text() {
    assert_eq!(
        transpile_entity(&player()),
        "#[derive(Component, Default)]\npub struct PlayerShip {\n    pub hp: f32,\n    pub speed: f32,\n    pub target: /* infer */,\n}\n\npub struct PlayerShipPlugin;\nimpl Plugin for PlayerShipPlugin {\n    fn build(&self, app: &mut App) {\n        app.register_type::<PlayerShip>();\n        app.add_systems(Startup, playership_on_ready);\n        app.add_systems(Update, playership_on_update);\n    }\n}\n\nfn playership_on_ready(mut commands: Commands) {\n    // TODO: Spawn initial PlayerShip entities\n}\n\nfn playership_on_update(time: Res<Time>, mut query: Query<(&mut PlayerShip, &mut Transform)>) {\n    let delta = time.delta_seconds();\n    for (mut playership, mut transform) in query.iter_mut() {\n        transform.translation.x += transform.translation.y;\n    }\n}\n\npub fn On_Update() {\n}\n\n"
    );
}

#[test]
fn system_texts() {
    let e = player();
    assert_eq!(
        transpile_ready_system(&e, &e.functions[0]),
        "fn playership_on_ready(mut commands: Commands) {\n    // TODO: Spawn initial PlayerShip entities\n}\n\n"
    );
    assert_eq!(
        transpile_update_system(&e, &e.functions[2]),
        "fn playership_on_update(time: Res<Time>, mut query: Query<(&mut PlayerShip, &mut Transform)>) {\n    let delta = time.delta_seconds();\n    for (mut playership, mut transform) in query.iter_mut() {\n    }\n}\n\n"
    );
}

#[test]
fn texts_for_a_given_lower_case_name() {
    let e = player();
    assert_eq!(
        nexscript::transpile_ready_system_with(&e, &e.functions[0], "ship"),
        "fn ship_on_ready(mut commands: Commands) {\n    // TODO: Spawn initial PlayerShip entities\n}\n\n"
    );
    assert_eq!(
        nexscript::transpile_update_system_with(&e, &e.functions[2], "ship"),
        "fn ship_on_update(time: Res<Time>, mut query: Query<(&mut PlayerShip, &mut Transform)>) {\n    let delta = time.delta_seconds();\n    for (mut ship, mut transform) in query.iter_mut() {\n    }\n}\n\n"
    );
    assert_eq!(
        nexscript::transpile_entity_with(&e, "playership"),
        transpile_entity(&e)
    );
    assert!(nexscript::transpile_entity_with(&e, "ship")
        .contains("        app.add_systems(Update, ship_on_update);\n"));
}

#[test]
fn statement_in_system_renames_the_position_field() {
    let e = player();
    let stmt = &e.functions[1].body[0];
    assert_eq!(
        transpile_statement(stmt, 2),
        "        Transform.position.x += Transform.position.y;\n"
    );
    assert_eq!(
        transpile_statement_in_system(stmt, 2, "PlayerShip"),
        "        transform.translation.x += transform.translation.y;\n"
    );
}

#[test]
fn header_is_fixed() {
    let text = transpile(&Program { statements: vec![] });
    assert_eq!(
        text,
        "// Generated by NexScript compiler\n// Do not edit manually\n\nuse bevy::prelude::*;\n\n"
    );
}

#[test]
fn top_level_statements_in_source_order() {
    let text = transpile(&parse("let a = 1\nb = a + 2.0\nif b > a:\n    emit Big(b)\n").unwrap());
    assert_eq!(
        text,
        "// Generated by NexScript compiler\n// Do not edit manually\n\nuse bevy::prelude::*;\n\nlet a = 1;\nb = (a + 2.0);\nif (b > a) {\n    // emit Big(b);\n}\n"
    );
}

#[test]
fn error_texts() {
    let e = NexScriptError::ParseError { line: 12, message: "unexpected input at column 3".to_string() };
    assert_eq!(e.to_string(), "Parse error at line 12: unexpected input at column 3");
    assert_eq!(NexScriptError::TypeError("bad".to_string()).to_string(), "Type error: bad");
    assert_eq!(
        NexScriptError::UndefinedVariable("x".to_string()).to_string(),
        "Undefined variable: x"
    );
    let io = std::io::Error::new(std::io::ErrorKind::NotFound, "gone");
    assert_eq!(NexScriptError::from(io).to_string(), "IO error: gone");
}

#[test]
fn comments_stay_on_one_line() {
    assert_eq!(to_single_line("a\nb\n"), "a b ");
    assert_eq!(to_single_line("plain"), "plain");
    assert_eq!(to_single_line(""), "");
    let emit = Statement::Emit(EmitStmt {
        signal_name: "Said".to_string(),
        args: vec![Expr::String("one\ntwo".to_string())],
    });
    assert_eq!(transpile_statement(&emit, 1), "    // emit Said(\"one two\");\n");
    let signal = Statement::SignalDef(SignalDef { name: "a\nb".to_string(), params: vec![] });
    let text = transpile_statement(&signal, 0);
    assert_eq!(text, "// TODO: transpile SignalDef(SignalDef { name: \"a\\nb\", params: [] })\n");
    assert_eq!(text.matches('\n').count(), 1);
}

#[test]
fn text_helpers() {
    assert_eq!(replace("a.b.a.b", "a.b", "x"), "x.x");
    assert_eq!(replace("aaa", "aa", "b"), "ba");
    assert_eq!(replace("abc", "", "x"), "abc");
    assert_eq!(replace("abc", "abcd", "x"), "abc");
    assert_eq!(replace("", "a", "x"), "");
    assert_eq!(repeat("ab", 3), "ababab");
    assert_eq!(repeat("ab", 0), "");
    assert_eq!(join(&vec!["a".to_string(), "b".to_string(), "c".to_string()], ", "), "a, b, c");
    assert_eq!(join(&vec![], ", "), "");
    assert_eq!(join(&vec!["a".to_string()], ", "), "a");
}
