use herang::{
    block_ast, equality_expr_ast, expr_ast, for_in_ast, identifier, if_eq_ast,
    is_alpha_or_underscore, statement_ast, value, value_expr_ast, var_assign_ast,
    var_ref_assign_ast, Expected, Func, HeEnv, HeResult, Value, AST,
};

/// A stand-in for the functions that read and print: it returns its last
/// argument and touches nothing.
#[derive(Debug, Clone, Copy)]
struct Silent;

impl Func for Silent {
    fn call(&self, args: &[Value], _env: &mut HeEnv<Silent>) -> HeResult {
        match args.last() {
            Some(value) => Ok(value.duplicate()),
            None => Ok(Value::default()),
        }
    }

    fn duplicate(&self) -> Silent {
        Silent
    }
}

fn value_of(node: &herang::Node) -> Vec<u32> {
    let mut env = HeEnv::new();
    herang::init_env(&mut env, Silent, Silent, Silent).unwrap();
    env.set_var("a".to_string(), Value::new(vec![5, 6, 7])).unwrap();
    node.eval(&mut env).unwrap().value
}

#[test]
fn name_characters() {
    assert!(is_alpha_or_underscore('a'));
    assert!(is_alpha_or_underscore('z'));
    assert!(is_alpha_or_underscore('A'));
    assert!(is_alpha_or_underscore('Z'));
    assert!(is_alpha_or_underscore('_'));
    assert!(!is_alpha_or_underscore('0'));
    assert!(!is_alpha_or_underscore(' '));
    assert!(!is_alpha_or_underscore('-'));
    assert!(!is_alpha_or_underscore('é'));
}

#[test]
fn number_is_read_as_far_as_digits_go() {
    let (rest, v) = value("123x").unwrap();
    assert_eq!(rest, "x");
    assert_eq!(v.value, vec![123]);
    let (rest, v) = value("007").unwrap();
    assert_eq!(rest, "");
    assert_eq!(v.value, vec![7]);
    let (rest, v) = value("4294967295 ").unwrap();
    assert_eq!(rest, " ");
    assert_eq!(v.value, vec![4294967295]);
}

#[test]
fn number_fails_without_digits_or_beyond_32_bits() {
    let e = value("x1").unwrap_err();
    assert_eq!(e.rest, "x1");
    assert_eq!(e.expected, Expected::Digit);
    assert_eq!(value("").unwrap_err().expected, Expected::Digit);
    assert_eq!(value(" 1").unwrap_err().expected, Expected::Digit);
    assert_eq!(value("4294967296").unwrap_err().rest, "4294967296");
}

#[test]
fn name_is_read_as_far_as_name_characters_go() {
    let (rest, name) = identifier("abc_D1 x").unwrap();
    assert_eq!(rest, "1 x");
    assert_eq!(name, "abc_D");
    let (rest, name) = identifier("_").unwrap();
    assert_eq!(rest, "");
    assert_eq!(name, "_");
}

#[test]
fn name_fails_without_name_characters() {
    let e = identifier("1a").unwrap_err();
    assert_eq!(e.rest, "1a");
    assert_eq!(e.expected, Expected::Name);
    assert_eq!(identifier("").unwrap_err().expected, Expected::Name);
    assert_eq!(identifier(" a").unwrap_err().expected, Expected::Name);
}

#[test]
fn primary_expressions() {
    let (rest, node) = value_expr_ast("  42|1").unwrap();
    assert_eq!(rest, "|1");
    assert_eq!(value_of(&node), vec![42]);
    let (rest, node) = value_expr_ast("( 1 | 2 ) 3").unwrap();
    assert_eq!(rest, " 3");
    assert_eq!(value_of(&node), vec![1, 2]);
    let (rest, node) = value_expr_ast("a[0] ").unwrap();
    assert_eq!(rest, " ");
    assert_eq!(value_of(&node), vec![5]);
    let (rest, node) = value_expr_ast("cyber ( 2 );").unwrap();
    assert_eq!(rest, ";");
    assert_eq!(value_of(&node), vec![0, 0]);
    let (rest, node) = value_expr_ast("a;").unwrap();
    assert_eq!(rest, ";");
    assert_eq!(value_of(&node), vec![5, 6, 7]);
}

#[test]
fn primary_expression_fails_where_none_starts() {
    let e = value_expr_ast("  ;").unwrap_err();
    assert_eq!(e.rest, ";");
    assert_eq!(e.expected, Expected::Name);
    let e = value_expr_ast("(1").unwrap_err();
    assert_eq!(e.rest, "");
    assert_eq!(e.expected, Expected::Tag);
}

#[test]
fn a_separator_without_an_operand_is_left_over() {
    let (rest, node) = expr_ast("1 | 2 | ;").unwrap();
    assert_eq!(rest, " | ;");
    assert_eq!(value_of(&node), vec![1, 2]);
    let (rest, node) = expr_ast("2 * 3 * ;").unwrap();
    assert_eq!(rest, " * ;");
    assert_eq!(value_of(&node), vec![6]);
    let (rest, node) = value_expr_ast("a(1, 2, )").unwrap();
    assert_eq!(rest, "(1, 2, )");
    assert_eq!(value_of(&node), vec![5, 6, 7]);
}

#[test]
fn an_operator_without_a_right_side_fails() {
    let e = equality_expr_ast("1 == ;").unwrap_err();
    assert_eq!(e.rest, ";");
    let e = equality_expr_ast("1 + ;").unwrap_err();
    assert_eq!(e.rest, ";");
}

#[test]
fn comparison_operators_are_told_apart() {
    for (source, expected) in [
        ("2 == 2", 1),
        ("2 != 2", 0),
        ("2 <= 2", 1),
        ("2 >= 3", 0),
        ("2 < 3", 1),
        ("2 > 3", 0),
    ] {
        let (rest, node) = equality_expr_ast(source).unwrap();
        assert_eq!(rest, "");
        assert_eq!(value_of(&node), vec![expected]);
    }
}

#[test]
fn assignments() {
    let (rest, node) = var_assign_ast(" b = 1 | 2 ;").unwrap();
    assert_eq!(rest, " ;");
    assert_eq!(value_of(&node), vec![1, 2]);
    let (rest, node) = var_ref_assign_ast("a [ 1 ] = 9;").unwrap();
    assert_eq!(rest, ";");
    assert_eq!(value_of(&node), vec![9, 6, 7]);
    assert!(var_assign_ast("a == 1").is_err());
    assert!(var_assign_ast("1 = 1").is_err());
    assert!(var_ref_assign_ast("a = 1").is_err());
    let (rest, node) = expr_ast("a == 5 | 6 | 7").unwrap();
    assert_eq!(rest, "");
    assert_eq!(value_of(&node), vec![1]);
}

#[test]
fn statements_end_with_a_semicolon() {
    let (rest, node) = statement_ast("  def x ; y").unwrap();
    assert_eq!(rest, " y");
    assert_eq!(value_of(&node), Vec::<u32>::new());
    let e = statement_ast("a = 1").unwrap_err();
    assert_eq!(e.rest, "");
    assert_eq!(e.expected, Expected::Tag);
    let (rest, _) = statement_ast("def  ;").unwrap();
    assert_eq!(rest, "");
    assert!(statement_ast("def 1;").is_err());
    assert!(statement_ast("defx = 1;").is_ok());
}

#[test]
fn conditional_and_loop() {
    let (rest, node) = if_eq_ast(" ? ( a ) { 1; 2; } ;").unwrap();
    assert_eq!(rest, " ;");
    assert_eq!(value_of(&node), vec![2]);
    let (rest, node) = for_in_ast(" @ (i : a) { a = a | i; } x").unwrap();
    assert_eq!(rest, " x");
    assert_eq!(value_of(&node), Vec::<u32>::new());
    assert!(if_eq_ast("?(a) { 1 }").is_err());
    assert!(for_in_ast("@( i: a) { }").is_err());
    assert!(for_in_ast("@(i a) { }").is_err());
}

#[test]
fn block_never_fails_and_returns_what_it_could_not_parse() {
    let (rest, node) = block_ast(" a; a[0]; ??").unwrap();
    assert_eq!(rest, " ??");
    assert_eq!(value_of(&node), vec![5]);
    let (rest, node) = block_ast("??").unwrap();
    assert_eq!(rest, "??");
    assert_eq!(value_of(&node), Vec::<u32>::new());
    let (rest, _) = block_ast("$f(x , y) { x | y; }; f(1, 2); $ g() {};").unwrap();
    assert_eq!(rest, " $ g() {};");
}

#[test]
fn whole_text_must_parse() {
    assert!(herang::parse("a = 1;").is_ok());
    assert!(herang::parse("a = 1; \n").is_ok());
    assert!(herang::parse("a = 1; b").is_err());
}
