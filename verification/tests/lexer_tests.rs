use squirt::lexer::Lexer;
use squirt::token::{look_up_ident, token_type_code_string, Token, TokenType};

fn check_types(input: &str, expected: &[TokenType]) {
    let mut l = Lexer::new(input);
    for exp in expected.iter() {
        let tok = l.next_token();
        assert_eq!(&tok.token_type, exp);
    }
}

fn check_pairs(input: &str, expected: &[(TokenType, &str)]) {
    let mut l = Lexer::new(input);
    for exp in expected.iter() {
        let tok = l.next_token();
        assert_eq!(tok.token_type, exp.0);
        assert_eq!(tok.literal, exp.1);
    }
}

#[test]
fn look_up_identifier() {
    assert_eq!(TokenType::Let, look_up_ident(&token_type_code_string(TokenType::Let)));
    assert_eq!(TokenType::Func, look_up_ident(&token_type_code_string(TokenType::Func)));
    assert_eq!(TokenType::True, look_up_ident(&token_type_code_string(TokenType::True)));
    assert_eq!(TokenType::False, look_up_ident(&token_type_code_string(TokenType::False)));
    assert_eq!(TokenType::If, look_up_ident(&token_type_code_string(TokenType::If)));
    assert_eq!(TokenType::Else, look_up_ident(&token_type_code_string(TokenType::Else)));
    assert_eq!(TokenType::Return, look_up_ident(&token_type_code_string(TokenType::Return)));
    assert_eq!(TokenType::Ident, look_up_ident("abc"));
}

#[test]
fn lexer_simple_literal() {
    let input = "=+(){},;";
    let expected = vec![
        TokenType::Assign,
        TokenType::Plus,
        TokenType::Lparen,
        TokenType::Rparen,
        TokenType::Lbrace,
        TokenType::Rbrace,
        TokenType::Comma,
        TokenType::Semicolon,
        TokenType::Eof,
    ];
    check_types(input, &expected);
}

#[test]
fn poison() {
    let input = "let a = \u{ef}\u{201e}\u{a6}";
    let expected = vec![TokenType::Let, TokenType::Ident, TokenType::Assign, TokenType::Poison];
    check_types(input, &expected);
}

#[test]
fn lexer_integer() {
    let input = "let a = 1024";
    let expected = vec![TokenType::Let, TokenType::Ident, TokenType::Assign, TokenType::Int];
    let mut l = Lexer::new(input);
    for exp in expected.iter() {
        let tok = l.next_token();
        assert_eq!(&tok.token_type, exp);
        if *exp == TokenType::Int {
            assert_eq!(&tok.literal, "1024");
        }
    }
}

#[test]
fn token_position1() {
    let input = "let five = 5;
let ten = 10;";
    let expected = vec![
        Token { token_type: TokenType::Let, literal: "let".to_string(), row: 1, column: 1 },
        Token { token_type: TokenType::Ident, literal: "five".to_string(), row: 1, column: 5 },
        Token { token_type: TokenType::Assign, literal: "=".to_string(), row: 1, column: 10 },
        Token { token_type: TokenType::Int, literal: "5".to_string(), row: 1, column: 12 },
        Token { token_type: TokenType::Semicolon, literal: ";".to_string(), row: 1, column: 13 },
        Token { token_type: TokenType::Let, literal: "let".to_string(), row: 2, column: 1 },
        Token { token_type: TokenType::Ident, literal: "ten".to_string(), row: 2, column: 5 },
        Token { token_type: TokenType::Assign, literal: "=".to_string(), row: 2, column: 9 },
        Token { token_type: TokenType::Int, literal: "10".to_string(), row: 2, column: 11 },
        Token { token_type: TokenType::Semicolon, literal: ";".to_string(), row: 2, column: 13 },
        Token { token_type: TokenType::Eof, literal: "\0".to_string(), row: 2, column: 14 },
    ];
    let mut l = Lexer::new(input);
    for exp in expected.iter() {
        let tok = l.next_token();
        assert_eq!(&tok, exp);
    }
}

#[test]
fn token_position2() {
    let input = "
    let five = 5;
let ten = 10;
";
    let expected = vec![
        Token { token_type: TokenType::Let, literal: "let".to_string(), row: 2, column: 5 },
        Token { token_type: TokenType::Ident, literal: "five".to_string(), row: 2, column: 9 },
        Token { token_type: TokenType::Assign, literal: "=".to_string(), row: 2, column: 14 },
        Token { token_type: TokenType::Int, literal: "5".to_string(), row: 2, column: 16 },
        Token { token_type: TokenType::Semicolon, literal: ";".to_string(), row: 2, column: 17 },
        Token { token_type: TokenType::Let, literal: "let".to_string(), row: 3, column: 1 },
        Token { token_type: TokenType::Ident, literal: "ten".to_string(), row: 3, column: 5 },
        Token { token_type: TokenType::Assign, literal: "=".to_string(), row: 3, column: 9 },
        Token { token_type: TokenType::Int, literal: "10".to_string(), row: 3, column: 11 },
        Token { token_type: TokenType::Semicolon, literal: ";".to_string(), row: 3, column: 13 },
        Token { token_type: TokenType::Eof, literal: "\0".to_string(), row: 4, column: 1 },
    ];
    let mut l = Lexer::new(input);
    for exp in expected.iter() {
        let tok = l.next_token();
        assert_eq!(&tok, exp);
    }
}

#[test]
fn lexer_let_and_func() {
    let input = "
            let five = 5;
            let ten = 10;

            let add = fn(x, y) {
                x + y;
            };
            let result = add(five, ten);
        ";
    let expected = vec![
        TokenType::Let,
        TokenType::Ident,
        TokenType::Assign,
        TokenType::Int,
        TokenType::Semicolon,
        TokenType::Let,
        TokenType::Ident,
        TokenType::Assign,
        TokenType::Int,
        TokenType::Semicolon,
        TokenType::Let,
        TokenType::Ident,
        TokenType::Assign,
        TokenType::Func,
        TokenType::Lparen,
        TokenType::Ident,
        TokenType::Comma,
        TokenType::Ident,
        TokenType::Rparen,
        TokenType::Lbrace,
        TokenType::Ident,
        TokenType::Plus,
        TokenType::Ident,
        TokenType::Semicolon,
        TokenType::Rbrace,
        TokenType::Semicolon,
        TokenType::Let,
        TokenType::Ident,
        TokenType::Assign,
        TokenType::Ident,
        TokenType::Lparen,
        TokenType::Ident,
        TokenType::Comma,
        TokenType::Ident,
        TokenType::Rparen,
        TokenType::Semicolon,
        TokenType::Eof,
    ];
    check_types(input, &expected);
}

#[test]
fn lexer_operators() {
    let input = "
            let five = 5;
            let ten = 10;

            let add = fn(x, y) {
                x + y;
            };
            let result = add(five, ten);
            +-*/!
            1 < 3 > 2
            if (5 != 3) {
                return true;
            }
            else {
                return false;
            }
            1 == 1
        ";
    let expected = vec![
        TokenType::Let,
        TokenType::Ident,
        TokenType::Assign,
        TokenType::Int,
        TokenType::Semicolon,
        TokenType::Let,
        TokenType::Ident,
        TokenType::Assign,
        TokenType::Int,
        TokenType::Semicolon,
        TokenType::Let,
        TokenType::Ident,
        TokenType::Assign,
        TokenType::Func,
        TokenType::Lparen,
        TokenType::Ident,
        TokenType::Comma,
        TokenType::Ident,
        TokenType::Rparen,
        TokenType::Lbrace,
        TokenType::Ident,
        TokenType::Plus,
        TokenType::Ident,
        TokenType::Semicolon,
        TokenType::Rbrace,
        TokenType::Semicolon,
        TokenType::Let,
        TokenType::Ident,
        TokenType::Assign,
        TokenType::Ident,
        TokenType::Lparen,
        TokenType::Ident,
        TokenType::Comma,
        TokenType::Ident,
        TokenType::Rparen,
        TokenType::Semicolon,
        TokenType::Plus,
        TokenType::Minus,
        TokenType::Asterisk,
        TokenType::Slash,
        TokenType::Bang,
        TokenType::Int,
        TokenType::Lt,
        TokenType::Int,
        TokenType::Gt,
        TokenType::Int,
        TokenType::If,
        TokenType::Lparen,
        TokenType::Int,
        TokenType::Neq,
        TokenType::Int,
        TokenType::Rparen,
        TokenType::Lbrace,
        TokenType::Return,
        TokenType::True,
        TokenType::Semicolon,
        TokenType::Rbrace,
        TokenType::Else,
        TokenType::Lbrace,
        TokenType::Return,
        TokenType::False,
        TokenType::Semicolon,
        TokenType::Rbrace,
        TokenType::Int,
        TokenType::Eq,
        TokenType::Int,
        TokenType::Eof,
    ];
    check_types(input, &expected);
}

#[test]
fn next_token_simple_literal() {
    let input = "=+(){},;";
    let expected = vec![
        (TokenType::Assign, "="),
        (TokenType::Plus, "+"),
        (TokenType::Lparen, "("),
        (TokenType::Rparen, ")"),
        (TokenType::Lbrace, "{"),
        (TokenType::Rbrace, "}"),
        (TokenType::Comma, ","),
        (TokenType::Semicolon, ";"),
        (TokenType::Eof, "\0"),
    ];
    check_pairs(input, &expected);
}

#[test]
fn code1() {
    let input = "
            let five = 5;
            let ten = 10;

            let add = fn(x, y) {
                x + y;
            };
            let result = add(five, ten);
        ";
    let expected = vec![
        (TokenType::Let, "let"),
        (TokenType::Ident, "five"),
        (TokenType::Assign, "="),
        (TokenType::Int, "5"),
        (TokenType::Semicolon, ";"),
        (TokenType::Let, "let"),
        (TokenType::Ident, "ten"),
        (TokenType::Assign, "="),
        (TokenType::Int, "10"),
        (TokenType::Semicolon, ";"),
        (TokenType::Let, "let"),
        (TokenType::Ident, "add"),
        (TokenType::Assign, "="),
        (TokenType::Func, "fn"),
        (TokenType::Lparen, "("),
        (TokenType::Ident, "x"),
        (TokenType::Comma, ","),
        (TokenType::Ident, "y"),
        (TokenType::Rparen, ")"),
        (TokenType::Lbrace, "{"),
        (TokenType::Ident, "x"),
        (TokenType::Plus, "+"),
        (TokenType::Ident, "y"),
        (TokenType::Semicolon, ";"),
        (TokenType::Rbrace, "}"),
        (TokenType::Semicolon, ";"),
        (TokenType::Let, "let"),
        (TokenType::Ident, "result"),
        (TokenType::Assign, "="),
        (TokenType::Ident, "add"),
        (TokenType::Lparen, "("),
        (TokenType::Ident, "five"),
        (TokenType::Comma, ","),
        (TokenType::Ident, "ten"),
        (TokenType::Rparen, ")"),
        (TokenType::Semicolon, ";"),
        (TokenType::Eof, "\0"),
    ];
    check_pairs(input, &expected);
}

#[test]
fn code2() {
    let input = "
            let five = 5;
            let ten = 10;

            let add = fn(x, y) {
                x + y;
            };
            let result = add(five, ten);
            +-*/!
            1 < 3 > 2
            if (5 != 3) {
                return true;
            }
            else {
                return false;
            }
            1 == 1
        ";
    let expected = vec![
        (TokenType::Let, "let"),
        (TokenType::Ident, "five"),
        (TokenType::Assign, "="),
        (TokenType::Int, "5"),
        (TokenType::Semicolon, ";"),
        (TokenType::Let, "let"),
        (TokenType::Ident, "ten"),
        (TokenType::Assign, "="),
        (TokenType::Int, "10"),
        (TokenType::Semicolon, ";"),
        (TokenType::Let, "let"),
        (TokenType::Ident, "add"),
        (TokenType::Assign, "="),
        (TokenType::Func, "fn"),
        (TokenType::Lparen, "("),
        (TokenType::Ident, "x"),
        (TokenType::Comma, ","),
        (TokenType::Ident, "y"),
        (TokenType::Rparen, ")"),
        (TokenType::Lbrace, "{"),
        (TokenType::Ident, "x"),
        (TokenType::Plus, "+"),
        (TokenType::Ident, "y"),
        (TokenType::Semicolon, ";"),
        (TokenType::Rbrace, "}"),
        (TokenType::Semicolon, ";"),
        (TokenType::Let, "let"),
        (TokenType::Ident, "result"),
        (TokenType::Assign, "="),
        (TokenType::Ident, "add"),
        (TokenType::Lparen, "("),
        (TokenType::Ident, "five"),
        (TokenType::Comma, ","),
        (TokenType::Ident, "ten"),
        (TokenType::Rparen, ")"),
        (TokenType::Semicolon, ";"),
        (TokenType::Plus, "+"),
        (TokenType::Minus, "-"),
        (TokenType::Asterisk, "*"),
        (TokenType::Slash, "/"),
        (TokenType::Bang, "!"),
        (TokenType::Int, "1"),
        (TokenType::Lt, "<"),
        (TokenType::Int, "3"),
        (TokenType::Gt, ">"),
        (TokenType::Int, "2"),
        (TokenType::If, "if"),
        (TokenType::Lparen, "("),
        (TokenType::Int, "5"),
        (TokenType::Neq, "!="),
        (TokenType::Int, "3"),
        (TokenType::Rparen, ")"),
        (TokenType::Lbrace, "{"),
        (TokenType::Return, "return"),
        (TokenType::True, "true"),
        (TokenType::Semicolon, ";"),
        (TokenType::Rbrace, "}"),
        (TokenType::Else, "else"),
        (TokenType::Lbrace, "{"),
        (TokenType::Return, "return"),
        (TokenType::False, "false"),
        (TokenType::Semicolon, ";"),
        (TokenType::Rbrace, "}"),
        (TokenType::Int, "1"),
        (TokenType::Eq, "=="),
        (TokenType::Int, "1"),
        (TokenType::Eof, "\0"),
    ];
    check_pairs(input, &expected);
}

#[test]
fn test_simple_literal() {
    let input = "=+(){},;";
    let expected = vec![
        (TokenType::Assign, "="),
        (TokenType::Plus, "+"),
        (TokenType::Lparen, "("),
        (TokenType::Rparen, ")"),
        (TokenType::Lbrace, "{"),
        (TokenType::Rbrace, "}"),
        (TokenType::Comma, ","),
        (TokenType::Semicolon, ";"),
        (TokenType::Eof, "\0"),
    ];
    check_pairs(input, &expected);
}

#[test]
fn illegal_literal() {
    let input = "let a = \u{f126}";
    let expected = vec![
        (TokenType::Let, "let"),
        (TokenType::Ident, "a"),
        (TokenType::Assign, "="),
        (TokenType::Poison, "\u{f126}"),
    ];
    check_pairs(input, &expected);
}

#[test]
fn test_integer() {
    let input = "let a = 1024";
    let expected = vec![
        (TokenType::Let, "let"),
        (TokenType::Ident, "a"),
        (TokenType::Assign, "="),
        (TokenType::Int, "1024"),
    ];
    check_pairs(input, &expected);
}

#[test]
fn test_let_and_func() {
    let input = "
            let five = 5;
            let ten = 10;

            let add = fn(x, y) {
                x + y;
            };
            let result = add(five, ten);
        ";
    let expected = vec![
        (TokenType::Let, "let"),
        (TokenType::Ident, "five"),
        (TokenType::Assign, "="),
        (TokenType::Int, "5"),
        (TokenType::Semicolon, ";"),
        (TokenType::Let, "let"),
        (TokenType::Ident, "ten"),
        (TokenType::Assign, "="),
        (TokenType::Int, "10"),
        (TokenType::Semicolon, ";"),
        (TokenType::Let, "let"),
        (TokenType::Ident, "add"),
        (TokenType::Assign, "="),
        (TokenType::Func, "fn"),
        (TokenType::Lparen, "("),
        (TokenType::Ident, "x"),
        (TokenType::Comma, ","),
        (TokenType::Ident, "y"),
        (TokenType::Rparen, ")"),
        (TokenType::Lbrace, "{"),
        (TokenType::Ident, "x"),
        (TokenType::Plus, "+"),
        (TokenType::Ident, "y"),
        (TokenType::Semicolon, ";"),
        (TokenType::Rbrace, "}"),
        (TokenType::Semicolon, ";"),
        (TokenType::Let, "let"),
        (TokenType::Ident, "result"),
        (TokenType::Assign, "="),
        (TokenType::Ident, "add"),
        (TokenType::Lparen, "("),
        (TokenType::Ident, "five"),
        (TokenType::Comma, ","),
        (TokenType::Ident, "ten"),
        (TokenType::Rparen, ")"),
        (TokenType::Semicolon, ";"),
        (TokenType::Eof, "\0"),
    ];
    check_pairs(input, &expected);
}

#[test]
fn test_operators() {
    let input = "
            let five = 5;
            let ten = 10;

            let add = fn(x, y) {
                x + y;
            };
            let result = add(five, ten);
            +-*/!
            1 < 3 > 2
            if (5 != 3) {
                return true;
            }
            else {
                return false;
            }
            1 == 1
        ";
    let expected = vec![
        (TokenType::Let, "let"),
        (TokenType::Ident, "five"),
        (TokenType::Assign, "="),
        (TokenType::Int, "5"),
        (TokenType::Semicolon, ";"),
        (TokenType::Let, "let"),
        (TokenType::Ident, "ten"),
        (TokenType::Assign, "="),
        (TokenType::Int, "10"),
        (TokenType::Semicolon, ";"),
        (TokenType::Let, "let"),
        (TokenType::Ident, "add"),
        (TokenType::Assign, "="),
        (TokenType::Func, "fn"),
        (TokenType::Lparen, "("),
        (TokenType::Ident, "x"),
        (TokenType::Comma, ","),
        (TokenType::Ident, "y"),
        (TokenType::Rparen, ")"),
        (TokenType::Lbrace, "{"),
        (TokenType::Ident, "x"),
        (TokenType::Plus, "+"),
        (TokenType::Ident, "y"),
        (TokenType::Semicolon, ";"),
        (TokenType::Rbrace, "}"),
        (TokenType::Semicolon, ";"),
        (TokenType::Let, "let"),
        (TokenType::Ident, "result"),
        (TokenType::Assign, "="),
        (TokenType::Ident, "add"),
        (TokenType::Lparen, "("),
        (TokenType::Ident, "five"),
        (TokenType::Comma, ","),
        (TokenType::Ident, "ten"),
        (TokenType::Rparen, ")"),
        (TokenType::Semicolon, ";"),
        (TokenType::Plus, "+"),
        (TokenType::Minus, "-"),
        (TokenType::Asterisk, "*"),
        (TokenType::Slash, "/"),
        (TokenType::Bang, "!"),
        (TokenType::Int, "1"),
        (TokenType::Lt, "<"),
        (TokenType::Int, "3"),
        (TokenType::Gt, ">"),
        (TokenType::Int, "2"),
        (TokenType::If, "if"),
        (TokenType::Lparen, "("),
        (TokenType::Int, "5"),
        (TokenType::Neq, "!="),
        (TokenType::Int, "3"),
        (TokenType::Rparen, ")"),
        (TokenType::Lbrace, "{"),
        (TokenType::Return, "return"),
        (TokenType::True, "true"),
        (TokenType::Semicolon, ";"),
        (TokenType::Rbrace, "}"),
        (TokenType::Else, "else"),
        (TokenType::Lbrace, "{"),
        (TokenType::Return, "return"),
        (TokenType::False, "false"),
        (TokenType::Semicolon, ";"),
        (TokenType::Rbrace, "}"),
        (TokenType::Int, "1"),
        (TokenType::Eq, "=="),
        (TokenType::Int, "1"),
        (TokenType::Eof, "\0"),
    ];
    check_pairs(input, &expected);
}

#[test]
fn reset_starts_over() {
    let mut l = Lexer::new("first");
    let t = l.next_token();
    assert_eq!(t.token_type, TokenType::Ident);
    assert_eq!(t.literal, "first");
    l.reset("second line");
    let t = l.next_token();
    assert_eq!(t.token_type, TokenType::Ident);
    assert_eq!(t.literal, "second");
    assert_eq!(t.row, 1);
    assert_eq!(t.column, 1);
}
