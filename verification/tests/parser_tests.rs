use monkey::ast::{Expression, Program, Statement};
use monkey::errors::MonkeyError;
use monkey::lexer::Lexer;
use monkey::parser::Parser;

fn parse(input: &str) -> Program {
    let lexer = Lexer::new(input);
    let mut parser = Parser::new(lexer);
    parser.parse_program().unwrap()
}

#[test]
fn test_string() {
    let program = Program {
        statements: vec![Statement::Let {
            ident: Expression::Ident("myVar".to_string()),
            value: Expression::Ident("anotherVar".to_string()),
        }],
    };

    let stmt = program.statements[0].to_string();
    assert_eq!(stmt, "let myVar = anotherVar;");
}

#[test]
fn test_if_expression() {
    let input = "if (x < y) { x } else { y }";
    let program = parse(input);
    let len = program.statements.len();
    assert_eq!(
        len, 1,
        "program.statements does not contain 1 statements. got={}",
        len
    );

    let stmt = &program.statements[0];

    let expr = match stmt {
        Statement::Expression(expr) => expr,
        _ => panic!("program.statements[0] is not Statement::Expression."),
    };

    let consequence = match expr {
        Expression::If { condition, consequence, alternative } => {
            assert_eq!(condition.to_string(), "(x < y)");
            assert_eq!(consequence.to_string(), "x");
            if let Some(ref alternative) = alternative {
                assert_eq!(alternative.to_string(), "y");
            }
            consequence
        }
        _ => panic!("expr is not Expression::If."),
    };

    assert_eq!(
        consequence.statements.len(),
        1,
        "consequence is not 1 statements. got={}",
        consequence.statements.len()
    )
}

#[test]
fn parser_test_return_statement() {
    let input = r#"return 5;
return 10;
return 993322;"#;

    let actual = parse(input);
    assert_eq!(actual.statements.len(), 3);
    let want = vec!["5", "10", "993322"];
    for (stmt, w) in actual.statements.iter().zip(want) {
        match stmt {
            Statement::Return(value) => assert_eq!(value.to_string(), w),
            _ => panic!(),
        }
    }
}

#[test]
fn test_operator_precedence_parsing() {
    let tests = vec![
        ("-a * b", "((-a) * b)"),
        ("!-a", "(!(-a))"),
        ("a + b + c", "((a + b) + c)"),
        ("a + b - c", "((a + b) - c)"),
        ("true", "true"),
        ("false", "false"),
        ("3 > 5 == false", "((3 > 5) == false)"),
        ("3 < 5 == true", "((3 < 5) == true)"),
        ("1 + (2 + 3) + 4", "((1 + (2 + 3)) + 4)"),
        ("(5 + 5) * 2", "((5 + 5) * 2)"),
        ("2 / (5 + 5)", "(2 / (5 + 5))"),
        ("-(5 + 5)", "(-(5 + 5))"),
        ("!(true == true)", "(!(true == true))"),
        ("a + add(b * c) + d", "((a + add((b * c))) + d)"),
        (
            "add(a, b, 1, 2 * 3, 4 + 5, add(6, 7 * 8))",
            "add(a, b, 1, (2 * 3), (4 + 5), add(6, (7 * 8)))",
        ),
        (
            "add(a + b + c * d / f + g)",
            "add((((a + b) + ((c * d) / f)) + g))",
        ),
    ];

    for (input, expect) in tests {
        let actual = &parse(input).statements[0];
        assert_eq!(actual.to_string(), expect);
    }
}

#[test]
fn test_function_expression() {
    let input = "fn (x, y) { x + y }";
    let test = "fn (x, y) { (x + y) }";
    let program = parse(input);
    let stmts = &program.statements[0];
    assert_eq!(stmts.to_string(), test);
}

#[test]
fn test_print_parse_round_trip() {
    let inputs = vec![
        "-a * b",
        "a + add(b * c) + d",
        "let a = 5; a;",
        "fn (x, y) { x + y }",
        "add(a, b, 1, 2 * 3)",
        "!(true == true)",
        "return 993322;",
    ];
    for input in inputs {
        let first = parse(input);
        let printed = first.to_string();
        let second = parse(&printed);
        assert_eq!(first, second, "round trip changed the tree for {:?}", input);
    }
}

#[test]
fn test_parse_errors() {
    let lexer = Lexer::new("let = 5;");
    let mut parser = Parser::new(lexer);
    assert!(matches!(
        parser.parse_program(),
        Err(MonkeyError::UnexpectedToken(_, _))
    ));

    let lexer = Lexer::new("let x 5;");
    let mut parser = Parser::new(lexer);
    assert!(matches!(
        parser.parse_program(),
        Err(MonkeyError::UnexpectedToken(_, _))
    ));

    let lexer = Lexer::new(";");
    let mut parser = Parser::new(lexer);
    assert!(matches!(
        parser.parse_program(),
        Err(MonkeyError::InvalidToken(_))
    ));

    let lexer = Lexer::new("99999999999999999999999999");
    let mut parser = Parser::new(lexer);
    assert!(matches!(
        parser.parse_program(),
        Err(MonkeyError::InvalidInteger(_))
    ));
}
