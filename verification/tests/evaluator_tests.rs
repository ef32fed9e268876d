use monkey::environment::Environment;
use monkey::evaluator::Evaluator;
use monkey::lexer::Lexer;
use monkey::object::Object;
use monkey::parser::Parser;

fn test_evaluate(input: &str) -> Object {
    let lexer = Lexer::new(input);
    let mut parser = Parser::new(lexer);
    let program = parser.parse_program().unwrap();
    let env = Environment::new();
    let mut evaluator = Evaluator::new(env);
    evaluator.evaluate(program)
}

#[test]
fn test_evaluate_interger_expression() {
    let tests = vec![
        ("5", 5),
        ("10", 10),
        ("-5", -5),
        ("-10", -10),
        ("5 + 5 + 5 + 5 - 10", 10),
        ("2 * 2 * 2 * 2 * 2", 32),
        ("-50 + 100 + -50", 0),
        ("5 * 2 + 10", 20),
        ("20 + 2 * -10", 0),
        ("50 / 2 * 2 + 10", 60),
        ("2 * (5 + 10)", 30),
        ("3 * 3 * 3 + 10", 37),
        ("3 * (3 * 3) + 10", 37),
        ("(5 + 10 * 2 + 15 / 3) * 2 + -10", 50),
    ];

    for test in tests {
        let object = test_evaluate(test.0);
        assert_eq!(object, Object::Int(test.1));
    }
}

#[test]
fn test_evaluate_boolean_expression() {
    let tests = vec![
        ("true", true),
        ("false", false),
        ("!5", false),
        ("!!true", true),
        ("!!false", false),
        ("!!5", true),
        ("1 < 2", true),
        ("1 > 2", false),
        ("1 < 1", false),
        ("1 > 1", false),
        ("1 == 1", true),
        ("1 != 1", false),
        ("1 == 2", false),
        ("1 != 2", true),
        ("true == true", true),
        ("false == false", true),
        ("true == false", false),
        ("true != false", true),
        ("false != true", true),
        ("(1 < 2) == true", true),
        ("(1 < 2) == false", false),
        ("(1 > 2) == true", false),
        ("(1 > 2) == false", true),
    ];

    for test in tests {
        let object = test_evaluate(test.0);
        assert_eq!(object, Object::Boolean(test.1));
    }
}

#[test]
fn test_if_else_expression() {
    let tests = vec![
        ("if (true) { 10 }", Object::Int(10)),
        ("if (false) { 10 }", Object::Null),
        ("if (1) { 10 }", Object::Int(10)),
        ("if (1 < 2) { 10 }", Object::Int(10)),
        ("if (1 > 2) { 10 }", Object::Null),
        ("if (1 > 2) { 10 } else { 20 }", Object::Int(20)),
        ("if (1 < 2) { 10 } else { 20 }", Object::Int(10)),
    ];

    for test in tests {
        let object = test_evaluate(test.0);
        assert_eq!(object, test.1);
    }
}

#[test]
fn evaluator_test_return_statement() {
    let tests = vec![
        ("return 10;", 10),
        ("return 10; 9;", 10),
        ("return 2 * 5; 9;", 10),
        ("9; return 2 * 5; 9;", 10),
        (
            r#"if (10 > 1) {
if (10 > 1) {
    return 10;
    }
}"#,
            10,
        ),
    ];

    for test in tests {
        let object = test_evaluate(test.0);
        assert_eq!(object, Object::Int(test.1));
    }
}

#[test]
fn test_error_handling() {
    let tests = vec![
        ("5 + true;", "type mismatch: INTEGER + BOOLEAN"),
        ("5 + true; 5;", "type mismatch: INTEGER + BOOLEAN"),
        ("-true", "unknown operator: -BOOLEAN"),
        ("true + false", "unknown operator: BOOLEAN + BOOLEAN"),
        ("5; true + false;  5", "unknown operator: BOOLEAN + BOOLEAN"),
        (
            "if (10 > 1) { true + false; }",
            "unknown operator: BOOLEAN + BOOLEAN",
        ),
        (
            r#"if (10 > 1) {
    if (10 > 1) {
        return true + false;
    }
}"#,
            "unknown operator: BOOLEAN + BOOLEAN",
        ),
        ("foobar", "identifier not found: foobar"),
    ];

    for test in tests {
        let object = test_evaluate(test.0);
        assert_eq!(object.to_string(), format!("Error: {}", test.1))
    }
}

#[test]
fn test_let_statement() {
    let tests = vec![
        ("let a = 5; a;", 5),
        ("let a = 5 * 5; a;", 25),
        ("let a = 5; let b = a; b;", 5),
        ("let a = 5; let b = a; let c = a + b + 5; c;", 15),
    ];

    for test in tests {
        let object = test_evaluate(test.0);
        assert_eq!(object, Object::Int(test.1));
    }
}

#[test]
fn test_evaluate_function() {
    let tests = vec![
        ("let identity = fn(x) { x; }; identity(5);", 5),
        ("let identity = fn(x) { return x; }; identity(5);", 5),
        ("let double = fn(x) { x * 2; }; double(5);", 10),
        ("let add = fn(x, y) { x + y; }; add(5, 5);", 10),
        ("let add = fn(x, y) { x + y; }; add(5 + 5, add(5, 5));", 20),
        ("fn(x) { x; }(5)", 5),
    ];

    for test in tests {
        let object = test_evaluate(test.0);
        assert_eq!(object, Object::Int(test.1));
    }
}

#[test]
fn test_function_object() {
    let input = "fn(x) { x + 2 };";
    let evaluated = test_evaluate(input);
    if let Object::Function {
        parameters,
        body,
        environment: _,
    } = evaluated
    {
        assert_eq!(parameters[0], "x");
        assert_eq!(body.to_string(), "(x + 2)")
    }
}

#[test]
fn test_closures() {
    let input = "let newAdder = fn(x) { fn(y) { x + y }; }; let addTwo = newAdder(2); addTwo(3);";
    assert_eq!(test_evaluate(input), Object::Int(5));
}

#[test]
fn test_identifier_shadowing() {
    assert_eq!(test_evaluate("let a = 5; let a = a + 1; a;"), Object::Int(6));
}

#[test]
fn test_return_ignores_trailing_statements() {
    let input = "if (10 > 1) { if (10 > 1) { return 10; } } 999;";
    assert_eq!(test_evaluate(input), Object::Int(10));
}

#[test]
fn test_division_by_zero_is_an_error() {
    assert_eq!(
        test_evaluate("5 / 0;").to_string(),
        "Error: division by zero"
    );
}

#[test]
fn test_integer_overflow_is_an_error() {
    assert_eq!(
        test_evaluate("9223372036854775807 + 1;").to_string(),
        "Error: integer overflow"
    );
}

#[test]
fn test_wrong_number_of_arguments() {
    assert_eq!(
        test_evaluate("let f = fn(x, y) { x + y; }; f(1);").to_string(),
        "Error: wrong number of arguments"
    );
}

#[test]
fn test_calling_a_non_function() {
    assert_eq!(
        test_evaluate("5(3);").to_string(),
        "Error: not a function: INTEGER"
    );
}

#[test]
fn test_unbounded_recursion_reports_limit() {
    let input = "let f = fn(g) { g(g) }; f(f);";
    assert_eq!(
        test_evaluate(input).to_string(),
        "Error: recursion limit reached"
    );
}

#[test]
fn test_return_of_nested_return_unwraps_fully() {
    let input = "return if (true) { return 5; };";
    assert_eq!(test_evaluate(input), Object::Int(5));
}

#[test]
fn test_return_unwinds_out_of_let() {
    let input = "let x = if (true) { return 5; }; 999;";
    assert_eq!(test_evaluate(input), Object::Int(5));
}

#[test]
fn test_return_wrapper_never_bound_in_environment() {
    let lexer = Lexer::new("let x = if (true) { return 5; };");
    let mut parser = Parser::new(lexer);
    let program = parser.parse_program().unwrap();
    let env = Environment::new();
    let mut evaluator = Evaluator::new(env);
    assert_eq!(evaluator.evaluate(program), Object::Int(5));

    let lexer = Lexer::new("x;");
    let mut parser = Parser::new(lexer);
    let program = parser.parse_program().unwrap();
    assert_eq!(
        evaluator.evaluate(program).to_string(),
        "Error: identifier not found: x"
    );
}

#[test]
fn test_return_unwinds_out_of_operand_position() {
    let input = "fn() { (if (true) { return 5; }) + 1 }()";
    assert_eq!(test_evaluate(input), Object::Int(5));
}

#[test]
fn test_environment_persists_across_programs() {
    let lexer = Lexer::new("let a = 41;");
    let mut parser = Parser::new(lexer);
    let program = parser.parse_program().unwrap();
    let env = Environment::new();
    let mut evaluator = Evaluator::new(env);
    evaluator.evaluate(program);

    let lexer = Lexer::new("a + 1;");
    let mut parser = Parser::new(lexer);
    let program = parser.parse_program().unwrap();
    assert_eq!(evaluator.evaluate(program), Object::Int(42));
}

#[test]
fn test_type_info() {
    assert_eq!(Object::Int(1).type_info(), "INTEGER");
    assert_eq!(Object::Boolean(true).type_info(), "BOOLEAN");
    assert_eq!(Object::Null.type_info(), "NULL");
    assert_eq!(Object::Error("x".to_string()).type_info(), "ERROR");
}

#[test]
fn test_environment_lookup_walks_outward() {
    let mut outer = Environment::new();
    outer.set("a", Object::Int(1));
    let mut inner = Environment::new_enclosed(outer);
    inner.set("b", Object::Int(2));
    assert_eq!(inner.get("a"), Some(Object::Int(1)));
    assert_eq!(inner.get("b"), Some(Object::Int(2)));
    assert_eq!(inner.get("c"), None);
    inner.set("a", Object::Int(3));
    assert_eq!(inner.get("a"), Some(Object::Int(3)));
}

#[test]
fn test_negative_number_printing() {
    assert_eq!(test_evaluate("0 - 42;").to_string(), "-42");
    assert_eq!(test_evaluate("0;").to_string(), "0");
}
