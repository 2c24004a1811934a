use herang::{
    eval, init_env, ArithmeticExprAST, ArithmeticExprType, Func, HeEnv, HeError, HeResult,
    IfEqAST, Node, Value, ValueAST, VarAssignAST, AST,
};

/// A stand-in for the functions that read and print: it returns its last
/// argument and touches nothing.
#[derive(Debug, Clone, Copy)]
struct Silent;

impl Func for Silent {
    fn call(&self, args: &[Value], _env: &mut HeEnv<Silent>) -> HeResult {
        match args.last() {
            Some(value) => Ok(value.duplicate()),
            None => Ok(Value::default()),
        }
    }

    fn duplicate(&self) -> Silent {
        Silent
    }
}

fn ready() -> HeEnv<Silent> {
    let mut env = HeEnv::new();
    init_env(&mut env, Silent, Silent, Silent).unwrap();
    env
}

fn run(source: &str) -> Vec<u32> {
    let mut env = ready();
    eval(source, &mut env).unwrap().value
}

fn fails(source: &str) -> HeError {
    let mut env = ready();
    eval(source, &mut env).unwrap_err()
}

fn literal(items: Vec<u32>) -> Box<Node> {
    Box::new(Node::Value(ValueAST::new(Value::new(items))))
}

#[test]
fn assignment_round_trip() {
    assert_eq!(run("a = 1|2; a;"), vec![1, 2]);
}

#[test]
fn empty_program_has_the_empty_value() {
    assert_eq!(run(""), Vec::<u32>::new());
    assert_eq!(run("  \n\t "), Vec::<u32>::new());
}

#[test]
fn a_block_has_the_value_of_its_last_statement() {
    assert_eq!(run("1; 2; 3 | 4;"), vec![3, 4]);
}

#[test]
fn white_space_may_stand_before_every_token() {
    assert_eq!(run("  a   =   1 |  2 ;  \n a \t ; \r\n"), vec![1, 2]);
}

#[test]
fn white_space_of_any_kind_may_follow_the_program() {
    assert_eq!(run("a = 7;\u{a0}\u{3000}\u{b}"), vec![7]);
}

#[test]
fn concatenation_binds_tighter_than_arithmetic() {
    assert_eq!(run("1 | 2 + 3 | 4;"), vec![4, 6]);
    assert_eq!(run("1 | 2 * 3 | 4;"), vec![3, 8]);
    assert_eq!(run("9 | 8 - 1 | 2;"), vec![8, 6]);
}

#[test]
fn product_binds_tighter_than_sum() {
    assert_eq!(run("2 * 3 + 1;"), vec![7]);
    assert_eq!(run("1 + 2 * 3;"), vec![7]);
    assert_eq!(run("10 - 2 * 3;"), vec![4]);
    assert_eq!(run("2 * 3 * 4;"), vec![24]);
}

#[test]
fn sum_binds_tighter_than_comparison() {
    assert_eq!(run("1 + 1 == 2;"), vec![1]);
    assert_eq!(run("3 < 1 + 1;"), vec![0]);
}

#[test]
fn comparisons_give_a_boolean_as_value() {
    assert_eq!(run("1 == 1;"), vec![1]);
    assert_eq!(run("1 == 2;"), vec![0]);
    assert_eq!(run("1 != 2;"), vec![1]);
    assert_eq!(run("1 != 1;"), vec![0]);
    assert_eq!(run("1 < 2;"), vec![1]);
    assert_eq!(run("2 < 1;"), vec![0]);
    assert_eq!(run("2 > 1;"), vec![1]);
    assert_eq!(run("1 > 1;"), vec![0]);
    assert_eq!(run("1 <= 1;"), vec![1]);
    assert_eq!(run("2 <= 1;"), vec![0]);
    assert_eq!(run("1 >= 1;"), vec![1]);
    assert_eq!(run("2 >= 3;"), vec![0]);
    assert_eq!(run("1 | 2 < 1 | 3;"), vec![1]);
    assert_eq!(run("1 | 2 < 1 | 2 | 0;"), vec![1]);
}

#[test]
fn an_operator_does_not_chain() {
    assert!(matches!(fails("1 + 2 + 3;"), HeError::Parse(_)));
    assert!(matches!(fails("1 < 2 < 3;"), HeError::Parse(_)));
}

#[test]
fn assignment_is_an_expression() {
    assert_eq!(run("a = 3 | (b = 1|2) | 4 | b;"), vec![3, 1, 2, 4, 1, 2]);
    assert_eq!(run("a = b = 5; a | b;"), vec![5, 5]);
}

#[test]
fn declaration_binds_the_empty_value() {
    assert_eq!(run("def x; x;"), Vec::<u32>::new());
    assert_eq!(run("x = 1; def x; x;"), Vec::<u32>::new());
}

#[test]
fn indexed_read_counts_from_zero() {
    assert_eq!(run("a = 5|6|7; a[0|2];"), vec![5, 7]);
    assert_eq!(run("a = 5|6|7; a[2|2|0|1];"), vec![7, 7, 5, 6]);
    assert_eq!(run("a = 5|6|7; a[cyber(0)];"), Vec::<u32>::new());
}

#[test]
fn indexed_write_counts_from_one_and_repeats_the_value() {
    assert_eq!(run("a = 1|2|3|4|5; a[a] = 1|2; a;"), vec![1, 2, 1, 2, 1]);
    assert_eq!(run("a = 5|6|7; a[1] = 9; a;"), vec![9, 6, 7]);
    assert_eq!(run("a = 5|6|7; a[3|1] = 9; a;"), vec![9, 6, 9]);
    assert_eq!(run("a = 5|6|7; a[2|2|2] = 1|2|3; a;"), vec![5, 3, 7]);
}

#[test]
fn index_zero_replaces_the_whole_value() {
    assert_eq!(run("a = 4|2; a[0] = 4|2; a;"), vec![4, 2]);
    assert_eq!(run("a = 1|2|3; a[0] = 9; a;"), vec![9]);
    assert_eq!(run("a = 1|2|3; a[2|0] = 8|9|7; a;"), vec![8, 9, 7]);
}

#[test]
fn indexed_write_uses_the_value_before_the_write() {
    assert_eq!(run("a = 2|1; a[a = 1|1] = 7; a;"), vec![7, 1]);
}

#[test]
fn conditional_runs_its_body_on_a_true_value_only() {
    assert_eq!(run("?(1 | 2) { 5; };"), vec![5]);
    assert_eq!(run("?(0) { 5; };"), Vec::<u32>::new());
    assert_eq!(run("?(cyber(0)) { 5; };"), Vec::<u32>::new());
    assert_eq!(run("?(1 | 0) { 5; };"), Vec::<u32>::new());
    assert_eq!(run("r = 0; ?(r) { r = 1; }; r;"), vec![0]);
}

#[test]
fn conditional_on_equality() {
    let mut env = ready();
    let same = IfEqAST::new(literal(vec![1, 2]), literal(vec![1, 2]), literal(vec![9]));
    assert_eq!(same.eval(&mut env).unwrap().value, vec![9]);
    let other = IfEqAST::new(literal(vec![1, 2]), literal(vec![1]), literal(vec![9]));
    assert_eq!(other.eval(&mut env).unwrap().value, Vec::<u32>::new());
}

#[test]
fn loop_visits_each_element_once_and_in_order() {
    assert_eq!(run("r = 0; @(i: 1 | 3 | 4) { r = r | i; }; r;"), vec![0, 1, 3, 4]);
    assert_eq!(run("r = 9; @(i: 5 | 5) { r = r | i | i; }; r;"), vec![9, 5, 5, 5, 5]);
    assert_eq!(run("r = 9; @(i: cyber(0)) { r = 1; }; r;"), vec![9]);
}

#[test]
fn loop_has_the_empty_value() {
    assert_eq!(run("@(i: 1 | 2) { i; };"), Vec::<u32>::new());
    assert_eq!(run("r = 0; @(i: 1 | 2) { r = r | i; };"), Vec::<u32>::new());
}

#[test]
fn loop_variable_is_gone_after_the_loop() {
    assert!(matches!(fails("@(i: 1 | 2) { i; }; i;"), HeError::UndefinedVariable(_)));
    assert_eq!(run("i = 7; @(i: 1 | 2) { i; }; i;"), vec![7]);
}

#[test]
fn loop_variable_survives_a_declaration_in_the_body() {
    assert_eq!(run("r = 0; @(i: 1 | 2 | 3) { r = r | i; def i; }; r;"), vec![0, 1, 2, 3]);
}

#[test]
fn function_assigns_enclosing_names_and_shadows_by_parameters() {
    let mut env = ready();
    eval("he = 1; rang = 2;", &mut env).unwrap();
    eval("$f(rang) { he = he | 3; rang = 4; };", &mut env).unwrap();
    assert_eq!(eval("f(9);", &mut env).unwrap().value, vec![4]);
    assert_eq!(eval("he;", &mut env).unwrap().value, vec![1, 3]);
    assert_eq!(eval("rang;", &mut env).unwrap().value, vec![2]);
    assert_eq!(env.depth(), 1);
}

#[test]
fn function_arguments_are_evaluated_from_left_to_right() {
    assert_eq!(run("$f(a, b) { a | b; }; x = 1; f(x = 2, x);"), vec![2, 2]);
}

#[test]
fn function_may_call_itself() {
    let source = "$count(n) { r = n; ?(n) { r = count(n - 1) | n; }; r; }; count(3);";
    assert_eq!(run(source), vec![0, 1, 2, 3]);
}

#[test]
fn error_of_a_statement_ends_the_block() {
    let mut env = ready();
    assert!(matches!(eval("a = 1; x; a = 2;", &mut env), Err(HeError::UndefinedVariable(_))));
    assert_eq!(eval("a;", &mut env).unwrap().value, vec![1]);
}

#[test]
fn error_inside_a_call_or_a_loop_leaves_the_scope() {
    let mut env = ready();
    eval("$f() { x; };", &mut env).unwrap();
    assert!(eval("f();", &mut env).is_err());
    assert_eq!(env.depth(), 1);
    assert!(eval("@(i: 1 | 2) { x; };", &mut env).is_err());
    assert_eq!(env.depth(), 1);
}

#[test]
fn error_parse() {
    match fails("a = ;") {
        HeError::Parse(rest) => assert_eq!(rest, "a = ;"),
        other => panic!("{:?}", other),
    }
    match fails("a = 1; b = ") {
        HeError::Parse(rest) => assert_eq!(rest, "b ="),
        other => panic!("{:?}", other),
    }
    match fails("()") {
        HeError::Parse(rest) => assert_eq!(rest, "()"),
        other => panic!("{:?}", other),
    }
}

#[test]
fn error_text_that_does_not_parse_leaves_the_environment() {
    let mut env = ready();
    assert!(eval("a = 1; b = ", &mut env).is_err());
    assert!(env.get_var("a").is_none());
}

#[test]
fn error_undefined_variable() {
    match fails("x;") {
        HeError::UndefinedVariable(name) => assert_eq!(name, "x"),
        other => panic!("{:?}", other),
    }
    assert!(matches!(fails("x[1];"), HeError::UndefinedVariable(_)));
    assert!(matches!(fails("x[1] = 2;"), HeError::UndefinedVariable(_)));
}

#[test]
fn error_undefined_function() {
    match fails("f(1);") {
        HeError::UndefinedFunction(name) => assert_eq!(name, "f"),
        other => panic!("{:?}", other),
    }
}

#[test]
fn error_arity_mismatch() {
    assert!(matches!(
        fails("$f(a) { a; }; f();"),
        HeError::ArityMismatch { expected: 1, got: 0 }
    ));
    assert!(matches!(
        fails("$f() { 1; }; f(1, 2);"),
        HeError::ArityMismatch { expected: 0, got: 2 }
    ));
    assert!(matches!(fails("cyber();"), HeError::ArityMismatch { expected: 1, got: 0 }));
}

#[test]
fn error_index_out_of_range() {
    match fails("a = 1|2; a[2];") {
        HeError::IndexOutOfRange(name) => assert_eq!(name, "a"),
        other => panic!("{:?}", other),
    }
    assert!(matches!(fails("a = 1|2; a[3] = 9;"), HeError::IndexOutOfRange(_)));
    assert_eq!(run("a = 1|2; a[2] = 9; a;"), vec![1, 9]);
    assert_eq!(run("a = 1|2; a[1];"), vec![2]);
}

#[test]
fn error_empty_assignment_value() {
    match fails("a = 1; a[1] = cyber(0);") {
        HeError::EmptyAssignmentValue(name) => assert_eq!(name, "a"),
        other => panic!("{:?}", other),
    }
}

#[test]
fn error_broadcast_length_mismatch() {
    match fails("a = 1|2|3; a[1] = 1|2;") {
        HeError::BroadcastLengthMismatch(name) => assert_eq!(name, "a"),
        other => panic!("{:?}", other),
    }
}

#[test]
fn error_duplicate_function_definition() {
    match fails("$f() { 1; }; $f() { 2; };") {
        HeError::DuplicateFunctionDefinition(name) => assert_eq!(name, "f"),
        other => panic!("{:?}", other),
    }
    assert_eq!(run("$f() { 1; }; $g() { $f() { 2; }; f(); }; g() | f();"), vec![2, 1]);
}

#[test]
fn error_type_conversion_failure() {
    assert!(matches!(fails("trim(255);"), HeError::TypeConversionFailure));
}

#[test]
fn error_length_mismatch() {
    assert!(matches!(fails("(1|2) + 1;"), HeError::LengthMismatch { left: 2, right: 1 }));
}

#[test]
fn error_division_by_zero() {
    let mut env = ready();
    let node = ArithmeticExprAST::new(literal(vec![6, 1]), literal(vec![3, 0]), ArithmeticExprType::Div);
    assert!(matches!(node.eval(&mut env), Err(HeError::DivisionByZero)));
    let node = ArithmeticExprAST::new(literal(vec![6, 1]), literal(vec![3, 1]), ArithmeticExprType::Div);
    assert_eq!(node.eval(&mut env).unwrap().value, vec![2, 1]);
}

#[test]
fn calls_may_nest_deeper_than_a_few_hundred() {
    let source = "$count(n) { r = n; ?(n) { r = count(n - 1) | n; }; r; }; len(count(300));";
    assert_eq!(run(source), vec![301]);
}

#[test]
fn error_of_a_library_function() {
    match fails("slice(1|2|3, 1, 9);") {
        HeError::Library(text) => assert_eq!(text, "out of range(got [1, 9])"),
        other => panic!("{:?}", other),
    }
}

#[test]
fn nodes_built_by_hand_evaluate() {
    let mut env = ready();
    let node = Node::VarAssign(VarAssignAST::new("a".to_string(), literal(vec![4, 5])));
    assert_eq!(node.eval(&mut env).unwrap().value, vec![4, 5]);
    assert_eq!(env.get_var("a").unwrap().value, vec![4, 5]);
    assert_eq!(node.duplicate().eval(&mut env).unwrap().value, vec![4, 5]);
}

#[test]
fn text_of_a_value_parses_back_to_the_value() {
    let samples = vec![vec![0], vec![1, 2], vec![10, 209, 4294967295], vec![7, 7, 7, 7]];
    for items in samples {
        let text = Value::new(items.clone()).to_string();
        let (rest, node) = herang::expr_ast(&text).unwrap();
        assert_eq!(rest, "");
        let mut env = ready();
        assert_eq!(node.eval(&mut env).unwrap().value, items);
        assert_eq!(run(&format!("{};", text)), items);
    }
}

#[test]
fn text_of_the_empty_value_does_not_parse() {
    assert!(herang::expr_ast("()").is_err());
}
