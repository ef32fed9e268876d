use monkey::lexer::Lexer;
use monkey::token::{Token, TokenKind};

fn tok(kind: TokenKind, literal: &str) -> Token {
    Token { kind, literal: literal.to_string() }
}

#[test]
fn test_next_token() {
    let input = r#"let five = 5;
    let ten = 10;
    let add = fn(x, y) {
        x + y;
        };

        let result = add(five, ten);

        !-/*5;
        5 < 10 > 5;

        if (5 > 10) {
            return true;
        } else {
            return false;
        }

        10 == 10;
        10 != 9;"#;

    let tests: Vec<Token> = vec![
        tok(TokenKind::Let, "let"),
        tok(TokenKind::Ident, "five"),
        tok(TokenKind::Assign, "="),
        tok(TokenKind::Int, "5"),
        tok(TokenKind::Semicolon, ";"),
        tok(TokenKind::Let, "let"),
        tok(TokenKind::Ident, "ten"),
        tok(TokenKind::Assign, "="),
        tok(TokenKind::Int, "10"),
        tok(TokenKind::Semicolon, ";"),
        tok(TokenKind::Let, "let"),
        tok(TokenKind::Ident, "add"),
        tok(TokenKind::Assign, "="),
        tok(TokenKind::Function, "fn"),
        tok(TokenKind::Lparen, "("),
        tok(TokenKind::Ident, "x"),
        tok(TokenKind::Comma, ","),
        tok(TokenKind::Ident, "y"),
        tok(TokenKind::Rparen, ")"),
        tok(TokenKind::Lbrace, "{"),
        tok(TokenKind::Ident, "x"),
        tok(TokenKind::Plus, "+"),
        tok(TokenKind::Ident, "y"),
        tok(TokenKind::Semicolon, ";"),
        tok(TokenKind::Rbrace, "}"),
        tok(TokenKind::Semicolon, ";"),
        tok(TokenKind::Let, "let"),
        tok(TokenKind::Ident, "result"),
        tok(TokenKind::Assign, "="),
        tok(TokenKind::Ident, "add"),
        tok(TokenKind::Lparen, "("),
        tok(TokenKind::Ident, "five"),
        tok(TokenKind::Comma, ","),
        tok(TokenKind::Ident, "ten"),
        tok(TokenKind::Rparen, ")"),
        tok(TokenKind::Semicolon, ";"),
        tok(TokenKind::Bang, "!"),
        tok(TokenKind::Minus, "-"),
        tok(TokenKind::Slash, "/"),
        tok(TokenKind::Aster, "*"),
        tok(TokenKind::Int, "5"),
        tok(TokenKind::Semicolon, ";"),
        tok(TokenKind::Int, "5"),
        tok(TokenKind::LessThan, "<"),
        tok(TokenKind::Int, "10"),
        tok(TokenKind::GreaterThan, ">"),
        tok(TokenKind::Int, "5"),
        tok(TokenKind::Semicolon, ";"),
        tok(TokenKind::If, "if"),
        tok(TokenKind::Lparen, "("),
        tok(TokenKind::Int, "5"),
        tok(TokenKind::GreaterThan, ">"),
        tok(TokenKind::Int, "10"),
        tok(TokenKind::Rparen, ")"),
        tok(TokenKind::Lbrace, "{"),
        tok(TokenKind::Return, "return"),
        tok(TokenKind::True, "true"),
        tok(TokenKind::Semicolon, ";"),
        tok(TokenKind::Rbrace, "}"),
        tok(TokenKind::Else, "else"),
        tok(TokenKind::Lbrace, "{"),
        tok(TokenKind::Return, "return"),
        tok(TokenKind::False, "false"),
        tok(TokenKind::Semicolon, ";"),
        tok(TokenKind::Rbrace, "}"),
        tok(TokenKind::Int, "10"),
        tok(TokenKind::Equal, "=="),
        tok(TokenKind::Int, "10"),
        tok(TokenKind::Semicolon, ";"),
        tok(TokenKind::Int, "10"),
        tok(TokenKind::NotEqual, "!="),
        tok(TokenKind::Int, "9"),
        tok(TokenKind::Semicolon, ";"),
    ];

    let mut lexer = Lexer::new(input);
    for t in tests {
        assert_eq!(lexer.next_token(), t);
    }
}

#[test]
fn test_eof_forever() {
    let mut lexer = Lexer::new("x");
    assert_eq!(lexer.next_token().kind, TokenKind::Ident);
    for _ in 0..8 {
        assert_eq!(lexer.next_token().kind, TokenKind::Eof);
    }
}

#[test]
fn test_keyword_lookup() {
    assert_eq!(monkey::token::look_up_Ident("let"), TokenKind::Let);
    assert_eq!(monkey::token::look_up_Ident("fn"), TokenKind::Function);
    assert_eq!(monkey::token::look_up_Ident("flet"), TokenKind::Ident);
}
