use herang::{
    gen_code, init_env, CppCode, Func, HeEnv, HeError, HeResult, IfEqAST, Node, Value, ValueAST,
    AST,
};

/// A stand-in for the functions that read and print: it returns its last
/// argument and touches nothing.
#[derive(Debug, Clone, Copy)]
struct Silent;

impl Func for Silent {
    fn call(&self, args: &[Value], _env: &mut HeEnv<Silent>) -> HeResult {
        match args.last() {
            Some(value) => Ok(value.duplicate()),
            None => Ok(Value::default()),
        }
    }

    fn duplicate(&self) -> Silent {
        Silent
    }
}

fn ready() -> HeEnv<Silent> {
    let mut env = HeEnv::new();
    init_env(&mut env, Silent, Silent, Silent).unwrap();
    env
}

fn lines(text: &[&str]) -> String {
    let mut all = String::new();
    for line in text {
        all.push_str(line);
        all.push('\n');
    }
    all
}

#[test]
fn buffer_writes_indented_lines() {
    let mut code = CppCode::default();
    assert_eq!(code.tab_count, 0);
    code.push_line("a");
    code.enter();
    code.push_line("b");
    code.enter();
    code.push_var_def("x");
    code.leave();
    code.push("c");
    code.push_tab();
    code.push("d\n");
    code.leave();
    code.push_line("");
    assert_eq!(code.code, "a\n    b\n        u8 x;\nc    d\n\n");
    assert_eq!(code.tab_count, 0);
}

#[test]
fn buffer_starts_where_it_is_told() {
    let mut code = CppCode::new("x".to_string(), 2);
    code.push_line("y");
    assert_eq!(code.code, "x        y\n");
}

#[test]
fn emits_an_assignment_with_its_declaration() {
    let mut env = ready();
    let text = gen_code("a = 1;", &mut env).unwrap();
    let expected = lines(&[
        "[&]() {",
        "    return",
        "        u8 a;",
        "        (a = ",
        "            u8({1})",
        "        )",
        "        ;",
        "}()",
    ]);
    assert_eq!(text, expected);
    assert!(env.get_var("a").is_some());
}

#[test]
fn emits_a_declaration_once() {
    let mut env = ready();
    let text = gen_code("a = 1 | 2; a = a;", &mut env).unwrap();
    let expected = lines(&[
        "[&]() {",
        "    u8 a;",
        "    (a = ",
        "        (",
        "            u8({1})",
        "         | ",
        "            u8({2})",
        "        )",
        "    )",
        "    ;",
        "    return",
        "        (a = ",
        "            a",
        "        )",
        "        ;",
        "}()",
    ]);
    assert_eq!(text, expected);
}

#[test]
fn emits_a_function_definition() {
    let mut env = ready();
    let text = gen_code("$f(a, b) { a; };", &mut env).unwrap();
    let expected = lines(&[
        "[&]() {",
        "    return",
        "        std::function<u8(u8, u8)> f = [&](",
        "            u8 a",
        "            ,",
        "            u8 b",
        "        ) {",
        "            return",
        "                [&]() {",
        "                    return",
        "                        a",
        "                        ;",
        "                }()",
        "        };",
        "        ;",
        "}()",
    ]);
    assert_eq!(text, expected);
    assert!(env.get_func("f").is_some());
    assert_eq!(env.depth(), 1);
    assert!(env.get_var("a").is_none());
}

#[test]
fn emits_an_empty_program() {
    let mut env = ready();
    let text = gen_code("", &mut env).unwrap();
    assert_eq!(text, lines(&["[&]() {", "    return u8();", "}()"]));
}

#[test]
fn emits_a_call_a_conditional_and_a_loop() {
    let mut env = ready();
    let text = gen_code("?(len(1, 2)) { @(i: 3) { i; }; };", &mut env).unwrap();
    let expected = lines(&[
        "[&]() {",
        "    return",
        "        [&]() {",
        "            if (bool(",
        "                len(",
        "                    u8({1})",
        "                    ,",
        "                    u8({2})",
        "                )",
        "            )) {",
        "            return ",
        "                [&]() {",
        "                    return",
        "                        [&]() {",
        "                            for (Int _for_val_i :",
        "                                u8({3})",
        "                            ) {",
        "                                u8 i = {_for_val_i};",
        "                                [&]() {",
        "                                    return",
        "                                        i",
        "                                        ;",
        "                                }()",
        "                            }",
        "                            return u8();",
        "                        }()",
        "                        ;",
        "                }()",
        "            }",
        "            return u8();",
        "        }();",
        "        ;",
        "}()",
    ]);
    assert_eq!(text, expected);
    assert_eq!(env.depth(), 1);
}

#[test]
fn emission_rejects_what_evaluation_rejects_for_names() {
    let mut env = ready();
    assert!(matches!(gen_code("x;", &mut env), Err(HeError::UndefinedVariable(_))));
    assert!(matches!(gen_code("x[1];", &mut env), Err(HeError::UndefinedVariable(_))));
    assert!(matches!(gen_code("x[1] = 2;", &mut env), Err(HeError::UndefinedVariable(_))));
    assert!(matches!(gen_code("f();", &mut env), Err(HeError::UndefinedFunction(_))));
    assert!(matches!(
        gen_code("$f() { 1; }; $f() { 2; };", &mut env),
        Err(HeError::DuplicateFunctionDefinition(_))
    ));
    assert!(matches!(gen_code("a = ", &mut env), Err(HeError::Parse(_))));
    assert!(matches!(gen_code("$g() { y; };", &mut env), Err(HeError::UndefinedVariable(_))));
    assert_eq!(env.depth(), 1);
}

#[test]
fn emission_binds_a_name_behind_its_value() {
    let mut env = ready();
    assert!(matches!(gen_code("a = a;", &mut env), Err(HeError::UndefinedVariable(_))));
    assert!(env.get_var("a").is_none());
    assert!(gen_code("a = 1; a = a;", &mut env).is_ok());
    assert!(matches!(gen_code("@(i: i) { i; };", &mut env), Err(HeError::UndefinedVariable(_))));
    assert!(gen_code("@(i: b = 1) { i; }; b;", &mut env).is_ok());
    assert_eq!(env.depth(), 1);
}

#[test]
fn emission_does_not_evaluate() {
    let mut env = ready();
    assert!(gen_code("a = 1 | 2; a[9]; (1|2) + 1;", &mut env).is_ok());
    assert_eq!(env.get_var("a").unwrap().value, Vec::<u32>::new());
}

#[test]
fn emits_operators_and_indexing() {
    let mut env = ready();
    let text = gen_code("a = 1; a[0]; a[1] = 2; a + a < a * a;", &mut env).unwrap();
    let expected = lines(&[
        "[&]() {",
        "    u8 a;",
        "    (a = ",
        "        u8({1})",
        "    )",
        "    ;",
        "    a[",
        "        u8({0})",
        "    ]",
        "    ;",
        "    (a.set(",
        "        u8({1})",
        "    ,",
        "        u8({2})",
        "    ))",
        "    ;",
        "    return",
        "        (",
        "            (",
        "                a",
        "            +",
        "                a",
        "            )",
        "        <",
        "            (",
        "                a",
        "            *",
        "                a",
        "            )",
        "        )",
        "        ;",
        "}()",
    ]);
    assert_eq!(text, expected);
}

#[test]
fn emits_a_conditional_on_equality() {
    let mut env = ready();
    let literal = |n: u32| Box::new(Node::Value(ValueAST::new(Value::new(vec![n, n]))));
    let node = IfEqAST::new(literal(1), literal(2), literal(3));
    let mut code = CppCode::default();
    node.gen_code(&mut env, &mut code).unwrap();
    let expected = lines(&[
        "[&]() {",
        "    if (",
        "        u8({1, 1})",
        "    ==",
        "        u8({2, 2})",
        "    ) {",
        "    return ",
        "        u8({3, 3})",
        "    }",
        "    return u8();",
        "}();",
    ]);
    assert_eq!(code.code, expected);
    assert_eq!(code.tab_count, 0);
}

#[test]
fn emission_stops_at_the_first_error() {
    let mut env = ready();
    let mut code = CppCode::default();
    let node = herang::parse("a = x;").unwrap();
    assert!(node.gen_code(&mut env, &mut code).is_err());
    let expected = lines(&["[&]() {", "    return"]);
    assert_eq!(code.code, expected);
    assert_eq!(code.tab_count, 2);
}
