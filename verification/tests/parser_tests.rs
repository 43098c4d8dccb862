use squirt::ast::{Args, BlockStmts, Expr, InfixType, Location, Params, PrefixType, Stmt};
use squirt::lexer::Lexer;
use squirt::parser::{Parser, Priority};
use squirt::token::{token_type_code_string, Token, TokenType};

fn loc(row: i64, column: i64) -> Location {
    Location::new(row, column)
}

fn ident_at(row: i64, column: i64, name: &str) -> Expr {
    Expr::Ident { loc: loc(row, column), name: name.to_string() }
}

fn int_at(row: i64, column: i64, value: i64) -> Expr {
    Expr::Int { loc: loc(row, column), value }
}

fn error(curr: Token, code: &str, msg: String) -> String {
    format!("Line {}:{} {} - {}, found {}", curr.row, curr.column, code, msg, curr.display_string())
}

fn expected_msg(tt: TokenType) -> String {
    format!("expected {}", token_type_code_string(tt))
}

#[test]
fn priority() {
    assert!(
        Priority::Lowest < Priority::Assign
            && Priority::Assign < Priority::Equal
            && Priority::Equal < Priority::Compare
            && Priority::Compare < Priority::Sum
            && Priority::Sum < Priority::Product
            && Priority::Product < Priority::Prefix
            && Priority::Prefix < Priority::Call
    );
}

#[test]
fn parse_ident() {
    let input = "
    aaa;
    bbb
    ccc;
    ddd
    eee
";
    let expected: Vec<Stmt> = vec![
        Stmt::Expr { expr: ident_at(2, 5, "aaa") },
        Stmt::Expr { expr: ident_at(3, 5, "bbb") },
        Stmt::Expr { expr: ident_at(4, 5, "ccc") },
        Stmt::Expr { expr: ident_at(5, 5, "ddd") },
        Stmt::Expr { expr: ident_at(6, 5, "eee") },
    ];
    let ast = Parser::parse(Lexer::tokenize(input)).unwrap();
    assert_eq!(ast.program.len(), expected.len());
    for (stmt, exp) in ast.program.iter().zip(expected.iter()) {
        assert_eq!(stmt, exp);
    }
}

#[test]
fn parse_int() {
    let input = "
    1;
    2
    3
    4;
    5;
";
    let expected: Vec<Stmt> = vec![
        Stmt::Expr { expr: int_at(2, 5, 1) },
        Stmt::Expr { expr: int_at(3, 5, 2) },
        Stmt::Expr { expr: int_at(4, 5, 3) },
        Stmt::Expr { expr: int_at(5, 5, 4) },
        Stmt::Expr { expr: int_at(6, 5, 5) },
    ];
    let ast = Parser::parse(Lexer::tokenize(input)).unwrap();
    assert_eq!(ast.program.len(), expected.len());
    for (stmt, exp) in ast.program.iter().zip(expected.iter()) {
        assert_eq!(stmt, exp);
    }
}

#[test]
fn parse_bool() {
    let input = "
    true
    true;
    false
    false;
";
    let expected: Vec<Stmt> = vec![
        Stmt::Expr { expr: Expr::Bool { loc: loc(2, 5), value: true } },
        Stmt::Expr { expr: Expr::Bool { loc: loc(3, 5), value: true } },
        Stmt::Expr { expr: Expr::Bool { loc: loc(4, 5), value: false } },
        Stmt::Expr { expr: Expr::Bool { loc: loc(5, 5), value: false } },
    ];
    let ast = Parser::parse(Lexer::tokenize(input)).unwrap();
    assert_eq!(ast.program.len(), expected.len());
    for (stmt, exp) in ast.program.iter().zip(expected.iter()) {
        assert_eq!(stmt, exp);
    }
}

#[test]
fn parse_if_expr() {
    let input = "
    if (1 == 2) {
        return 3;
    }
";
    let expected: Stmt = Stmt::Expr {
        expr: Expr::If {
            loc: loc(2, 5),
            condition: Box::new(Expr::Infix {
                loc: loc(2, 11),
                left: Box::new(int_at(2, 9, 1)),
                operator: InfixType::Eq,
                right: Box::new(int_at(2, 14, 2)),
            }),
            consequence: BlockStmts(vec![Stmt::Return { expr: int_at(3, 16, 3) }]),
            alternative: BlockStmts(vec![]),
        },
    };
    let ast = Parser::parse(Lexer::tokenize(input)).unwrap();
    assert_eq!(ast.program.len(), 1);
    assert_eq!(ast.program.first().unwrap(), &expected);
}

#[test]
fn parse_if_else_expr() {
    let input = "
    if (1 == 2) {
        return 3;
    } else {
        return 5;
    }
";
    let expected: Stmt = Stmt::Expr {
        expr: Expr::If {
            loc: loc(2, 5),
            condition: Box::new(Expr::Infix {
                loc: loc(2, 11),
                left: Box::new(int_at(2, 9, 1)),
                operator: InfixType::Eq,
                right: Box::new(int_at(2, 14, 2)),
            }),
            consequence: BlockStmts(vec![Stmt::Return { expr: int_at(3, 16, 3) }]),
            alternative: BlockStmts(vec![Stmt::Return { expr: int_at(5, 16, 5) }]),
        },
    };
    let ast = Parser::parse(Lexer::tokenize(input)).unwrap();
    assert_eq!(ast.program.len(), 1);
    assert_eq!(ast.program.first().unwrap(), &expected);
}

#[test]
fn parse_func_literal_expr() {
    let input = "
    let f = fn(a, b, c) {
        a = 1;
        b = 2;
        return c = 3;
    };
";
    let expected: Stmt = Stmt::Let {
        name: ident_at(2, 9, "f"),
        expr: Expr::FuncLiteral {
            loc: loc(2, 13),
            parameters: Params(vec![
                ident_at(2, 16, "a"),
                ident_at(2, 19, "b"),
                ident_at(2, 22, "c"),
            ]),
            body: BlockStmts(vec![
                Stmt::Expr {
                    expr: Expr::Infix {
                        loc: loc(3, 11),
                        left: Box::new(ident_at(3, 9, "a")),
                        operator: InfixType::Assign,
                        right: Box::new(int_at(3, 13, 1)),
                    },
                },
                Stmt::Expr {
                    expr: Expr::Infix {
                        loc: loc(4, 11),
                        left: Box::new(ident_at(4, 9, "b")),
                        operator: InfixType::Assign,
                        right: Box::new(int_at(4, 13, 2)),
                    },
                },
                Stmt::Return {
                    expr: Expr::Infix {
                        loc: loc(5, 18),
                        left: Box::new(ident_at(5, 16, "c")),
                        operator: InfixType::Assign,
                        right: Box::new(int_at(5, 20, 3)),
                    },
                },
            ]),
        },
    };
    let ast = Parser::parse(Lexer::tokenize(input)).unwrap();
    assert_eq!(ast.program.len(), 1);
    assert_eq!(ast.program.first().unwrap(), &expected);
}

#[test]
fn parse_func_call_expr() {
    let input = "
    let f = abc(a, 2, c + 3);
";
    let expected: Stmt = Stmt::Let {
        name: ident_at(2, 9, "f"),
        expr: Expr::FuncCall {
            loc: loc(2, 16),
            ident: Box::new(ident_at(2, 13, "abc")),
            args: Args(vec![
                ident_at(2, 17, "a"),
                int_at(2, 20, 2),
                Expr::Infix {
                    loc: loc(2, 25),
                    left: Box::new(ident_at(2, 23, "c")),
                    operator: InfixType::Plus,
                    right: Box::new(int_at(2, 27, 3)),
                },
            ]),
        },
    };
    let ast = Parser::parse(Lexer::tokenize(input)).unwrap();
    assert_eq!(ast.program.len(), 1);
    assert_eq!(ast.program.first().unwrap(), &expected);
}

#[test]
fn parse_empty_stmt() {
    let input = "

1
2;

3;;
;;;;a
;
    b
";
    let expected: Vec<Stmt> = vec![
        Stmt::Expr { expr: int_at(3, 1, 1) },
        Stmt::Expr { expr: int_at(4, 1, 2) },
        Stmt::Expr { expr: int_at(6, 1, 3) },
        Stmt::Expr { expr: ident_at(7, 5, "a") },
        Stmt::Expr { expr: ident_at(9, 5, "b") },
    ];
    let ast = Parser::parse(Lexer::tokenize(input)).unwrap();
    assert_eq!(ast.program.len(), expected.len());
    for (stmt, exp) in ast.program.iter().zip(expected.iter()) {
        assert_eq!(stmt, exp);
    }
}

#[test]
fn parse_let_stmt() {
    let input = "
let five = 5;
let ten1 = ten2;
";
    let expected: Vec<Stmt> = vec![
        Stmt::Let { name: ident_at(2, 5, "five"), expr: int_at(2, 12, 5) },
        Stmt::Let { name: ident_at(3, 5, "ten1"), expr: ident_at(3, 12, "ten2") },
    ];
    let ast = Parser::parse(Lexer::tokenize(input)).unwrap();
    assert_eq!(ast.program.len(), expected.len());
    for (stmt, exp) in ast.program.iter().zip(expected.iter()) {
        assert_eq!(stmt, exp);
    }
}

#[test]
fn parse_let_stmt_error() {
    let input = "
let five = +;
    let = ten2;
let b = 3;
let a 5;
";
    let expected: Vec<String> = vec![
        error(
            Token::new(TokenType::Plus, "+", 2, 12),
            "PAR:3001",
            format!("Cannot parse prefix"),
        ),
        error(
            Token::new(TokenType::Assign, "=", 3, 9),
            "PAR:3011",
            expected_msg(TokenType::Ident),
        ),
        error(Token::new(TokenType::Int, "5", 5, 7), "PAR:2012", expected_msg(TokenType::Assign)),
    ];
    let err = Parser::parse(Lexer::tokenize(input)).unwrap_err();
    assert_eq!(err.len(), expected.len());
    for (msg, exp) in err.iter().zip(expected.iter()) {
        assert_eq!(msg, exp);
    }
}

#[test]
fn parse_return_stmt() {
    let input = "
return 5;
    return a
    a
    return b;
";
    let expected: Vec<Stmt> = vec![
        Stmt::Return { expr: int_at(2, 8, 5) },
        Stmt::Return { expr: ident_at(3, 12, "a") },
        Stmt::Expr { expr: ident_at(4, 5, "a") },
        Stmt::Return { expr: ident_at(5, 12, "b") },
    ];
    let ast = Parser::parse(Lexer::tokenize(input)).unwrap();
    assert_eq!(ast.program.len(), expected.len());
    for (stmt, exp) in ast.program.iter().zip(expected.iter()) {
        assert_eq!(stmt, exp);
    }
}

#[test]
fn parse_expr_stmt() {
    let input = "
    a
    b;
    3
    4
";
    let expected: Vec<Stmt> = vec![
        Stmt::Expr { expr: ident_at(2, 5, "a") },
        Stmt::Expr { expr: ident_at(3, 5, "b") },
        Stmt::Expr { expr: int_at(4, 5, 3) },
        Stmt::Expr { expr: int_at(5, 5, 4) },
    ];
    let ast = Parser::parse(Lexer::tokenize(input)).unwrap();
    assert_eq!(ast.program.len(), expected.len());
    for (stmt, exp) in ast.program.iter().zip(expected.iter()) {
        assert_eq!(stmt, exp);
    }
}

#[test]
fn let_statement_test_let() {
    let input = "
            let five = 5;
            let ten = 10;
            let result = add(five, ten);
        ";
    let expected_ident: Vec<&str> = vec!["five", "ten", "result"];
    let program = Parser::parse(Lexer::tokenize(input)).unwrap();
    assert_eq!(program.program.len(), 3);
    for (i, exp) in expected_ident.iter().enumerate() {
        match &program.program[i] {
            Stmt::Let { name: Expr::Ident { name, .. }, .. } => assert_eq!(name, exp),
            _ => panic!("Not a Let statement"),
        }
    }
}

#[test]
fn let_statement_test_return() {
    let input = "
            return five = 5;
            return ten;
            return 123;
            return add(five, ten);
            return add(five, 15);
        ";
    let program = Parser::parse(Lexer::tokenize(input)).unwrap();
    assert_eq!(program.program.len(), 5);
    for stmt in &program.program {
        assert!(matches!(stmt, Stmt::Return { .. }));
    }
}

#[test]
fn parse_test_test_let() {
    let input = "
            let five = 5;
            let ten = 10;
            let result = add(five, ten);
        ";
    let expected_ident: Vec<&str> = vec!["five", "ten", "result"];
    let program = Parser::parse(Lexer::tokenize(input)).unwrap();
    assert_eq!(program.program.len(), 3);
    for (i, exp) in expected_ident.iter().enumerate() {
        match &program.program[i] {
            Stmt::Let { name: Expr::Ident { name, .. }, .. } => assert_eq!(name, exp),
            _ => panic!("Not a Let statement"),
        }
    }
}

#[test]
fn parse_test_test_return() {
    let input = "
            return five = 5;
            return ten;
            return 123;
            return add(five, ten);
            return add(five, 15);
        ";
    let program = Parser::parse(Lexer::tokenize(input)).unwrap();
    assert_eq!(program.program.len(), 5);
    for stmt in &program.program {
        assert!(matches!(stmt, Stmt::Return { .. }));
    }
}

#[test]
fn parse_test_test_ident_expression() {
    let input = "
            foobar;
        ";
    let program = Parser::parse(Lexer::tokenize(input)).unwrap();
    assert_eq!(program.program.len(), 1);
    match &program.program[0] {
        Stmt::Expr { expr: Expr::Ident { name, .. } } => assert_eq!(name, "foobar"),
        _ => panic!("Not an identifier expression"),
    }
}

#[test]
fn parse_test_test_integer_literal_expression() {
    let input = "
            12345;
        ";
    let program = Parser::parse(Lexer::tokenize(input)).unwrap();
    assert_eq!(program.program.len(), 1);
    match &program.program[0] {
        Stmt::Expr { expr: Expr::Int { value, .. } } => assert_eq!(*value, 12345),
        _ => panic!("Not an integer literal"),
    }
}

fn check_prefix(stmt: &Stmt, op: PrefixType) -> &Expr {
    match stmt {
        Stmt::Expr { expr: Expr::Prefix { operator, right, .. } } => {
            assert_eq!(*operator, op);
            right
        },
        _ => panic!("Not a prefix expression"),
    }
}

#[test]
fn parse_test_test_prefix_expression() {
    let input = "
            -15;
            !5;
            !true;
            !false;
        ";
    let program = Parser::parse(Lexer::tokenize(input)).unwrap();
    assert_eq!(program.program.len(), 4);
    let r0 = check_prefix(&program.program[0], PrefixType::Minus);
    assert!(matches!(r0, Expr::Int { value: 15, .. }));
    let r1 = check_prefix(&program.program[1], PrefixType::Bang);
    assert!(matches!(r1, Expr::Int { value: 5, .. }));
    let r2 = check_prefix(&program.program[2], PrefixType::Bang);
    assert!(matches!(r2, Expr::Bool { value: true, .. }));
    let r3 = check_prefix(&program.program[3], PrefixType::Bang);
    assert!(matches!(r3, Expr::Bool { value: false, .. }));
}

#[test]
fn parse_test_test_infix_expression() {
    let input = "
            1 + 1;
            1 - 1;
            1 * 1;
            1 / 1;
            1 < 1;
            1 > 1;
            1 == 1;
            1 != 1;
        ";
    let expected_ops = vec![
        InfixType::Plus,
        InfixType::Minus,
        InfixType::Asterisk,
        InfixType::Slash,
        InfixType::Lt,
        InfixType::Gt,
        InfixType::Eq,
        InfixType::Neq,
    ];
    let program = Parser::parse(Lexer::tokenize(input)).unwrap();
    assert_eq!(program.program.len(), 8);
    for (i, op) in expected_ops.iter().enumerate() {
        match &program.program[i] {
            Stmt::Expr { expr: Expr::Infix { left, operator, right, .. } } => {
                assert_eq!(operator, op);
                assert!(matches!(&**left, Expr::Int { value: 1, .. }));
                assert!(matches!(&**right, Expr::Int { value: 1, .. }));
            },
            _ => panic!("Not an infix expression"),
        }
    }
}

#[test]
fn parse_test_test_operator_precedence_expression() {
    let input = "
            !-a;
            -a * b;
            a + b + c;
            a + b - c;
            a * b * c;
            a * b / c;
            a + b / c;
            a + b * c + d / e - f;
            5 > 4 != 3 < 4;
            3 + 4 * 5 == 3 * 1 + 4 * 5;
            3 > 5 == false;
            true == 3 < 5;
            -1 + ((2 + 3) - 4) * 5;
            1 + (2 + 3) / 4;
            -(1 + 1);
            !(true == !false);
        ";
    let expected: Vec<&str> = vec![
        "(!(-a))",
        "((-a) * b)",
        "((a + b) + c)",
        "((a + b) - c)",
        "((a * b) * c)",
        "((a * b) / c)",
        "(a + (b / c))",
        "(((a + (b * c)) + (d / e)) - f)",
        "((5 > 4) != (3 < 4))",
        "((3 + (4 * 5)) == ((3 * 1) + (4 * 5)))",
        "((3 > 5) == false)",
        "(true == (3 < 5))",
        "((-1) + (((2 + 3) - 4) * 5))",
        "(1 + ((2 + 3) / 4))",
        "(-(1 + 1))",
        "(!(true == (!false)))",
    ];
    let program = Parser::parse(Lexer::tokenize(input)).unwrap();
    assert_eq!(program.program.len(), expected.len());
    for (i, exp) in expected.iter().enumerate() {
        assert_eq!(program.program[i].render_string(), *exp);
    }
}

#[test]
fn parse_test_test_boolean_expression() {
    let input = "
            true;
            false;
        ";
    let program = Parser::parse(Lexer::tokenize(input)).unwrap();
    assert_eq!(program.program.len(), 2);
    assert!(matches!(&program.program[0], Stmt::Expr { expr: Expr::Bool { value: true, .. } }));
    assert!(matches!(&program.program[1], Stmt::Expr { expr: Expr::Bool { value: false, .. } }));
}

#[test]
fn test_test_let() {
    let input = "
            let five = 5;
            let ten = 10;
            let result = add(five, ten);
        ";
    let expected_ident: Vec<&str> = vec!["five", "ten", "result"];
    let program = Parser::parse(Lexer::tokenize(input)).unwrap();
    assert_eq!(program.program.len(), expected_ident.len());
    for (i, exp) in expected_ident.iter().enumerate() {
        match &program.program[i] {
            Stmt::Let { name: Expr::Ident { name, .. }, .. } => assert_eq!(name, exp),
            _ => panic!("Not a Let statement"),
        }
    }
}

#[test]
fn test_test_return() {
    let input = "
            return five;
            return ten;
            return 123;
            return add(five, ten);
            return add(five, 15);
        ";
    let program = Parser::parse(Lexer::tokenize(input)).unwrap();
    assert_eq!(program.program.len(), 5);
    for stmt in &program.program {
        assert!(matches!(stmt, Stmt::Return { .. }));
    }
}

#[test]
fn test_test_ident_expression() {
    let input = "
            foobar;
        ";
    let program = Parser::parse(Lexer::tokenize(input)).unwrap();
    assert_eq!(program.program.len(), 1);
    match &program.program[0] {
        Stmt::Expr { expr: Expr::Ident { name, .. } } => assert_eq!(name, "foobar"),
        _ => panic!("Not an identifier expression"),
    }
}

#[test]
fn test_test_integer_literal_expression() {
    let input = "
            12345;
        ";
    let program = Parser::parse(Lexer::tokenize(input)).unwrap();
    assert_eq!(program.program.len(), 1);
    match &program.program[0] {
        Stmt::Expr { expr: Expr::Int { value, .. } } => assert_eq!(*value, 12345),
        _ => panic!("Not an integer literal"),
    }
}

#[test]
fn test_test_prefix_expression() {
    let input = "
            -15;
            !5;
            !true;
            !false;
        ";
    let program = Parser::parse(Lexer::tokenize(input)).unwrap();
    assert_eq!(program.program.len(), 4);
    let r0 = check_prefix(&program.program[0], PrefixType::Minus);
    assert!(matches!(r0, Expr::Int { value: 15, .. }));
    let r1 = check_prefix(&program.program[1], PrefixType::Bang);
    assert!(matches!(r1, Expr::Int { value: 5, .. }));
    let r2 = check_prefix(&program.program[2], PrefixType::Bang);
    assert!(matches!(r2, Expr::Bool { value: true, .. }));
    let r3 = check_prefix(&program.program[3], PrefixType::Bang);
    assert!(matches!(r3, Expr::Bool { value: false, .. }));
}

#[test]
fn test_test_infix_expression() {
    let input = "
            1 + 1;
            1 - 1;
            1 * 1;
            1 / 1;
            1 < 1;
            1 > 1;
            1 == 1;
            1 != 1;
        ";
    let expected_ops = vec![
        InfixType::Plus,
        InfixType::Minus,
        InfixType::Asterisk,
        InfixType::Slash,
        InfixType::Lt,
        InfixType::Gt,
        InfixType::Eq,
        InfixType::Neq,
    ];
    let program = Parser::parse(Lexer::tokenize(input)).unwrap();
    assert_eq!(program.program.len(), 8);
    for (i, op) in expected_ops.iter().enumerate() {
        match &program.program[i] {
            Stmt::Expr { expr: Expr::Infix { left, operator, right, .. } } => {
                assert_eq!(operator, op);
                assert!(matches!(&**left, Expr::Int { value: 1, .. }));
                assert!(matches!(&**right, Expr::Int { value: 1, .. }));
            },
            _ => panic!("Not an infix expression"),
        }
    }
}

#[test]
fn test_test_operator_precedence_expression() {
    let input = "
            !-a;
            -a * b;
            a + b + c;
            a + b - c;
            a * b * c;
            a * b / c;
            a + b / c;
            a + b * c + d / e - f;
            5 > 4 != 3 < 4;
            3 + 4 * 5 == 3 * 1 + 4 * 5;
            3 > 5 == false;
            true == 3 < 5;
            -1 + ((2 + 3) - 4) * 5;
            1 + (2 + 3) / 4;
            -(1 + 1);
            !(true == !false);
            1 + add(1 * 1) + d;
            add(1, 2, 3 * 4, sub(5 + 6 * 7, 8), 10 * 11);
        ";
    let expected: Vec<&str> = vec![
        "(!(-a))",
        "((-a) * b)",
        "((a + b) + c)",
        "((a + b) - c)",
        "((a * b) * c)",
        "((a * b) / c)",
        "(a + (b / c))",
        "(((a + (b * c)) + (d / e)) - f)",
        "((5 > 4) != (3 < 4))",
        "((3 + (4 * 5)) == ((3 * 1) + (4 * 5)))",
        "((3 > 5) == false)",
        "(true == (3 < 5))",
        "((-1) + (((2 + 3) - 4) * 5))",
        "(1 + ((2 + 3) / 4))",
        "(-(1 + 1))",
        "(!(true == (!false)))",
        "((1 + add((1 * 1))) + d)",
        "add(1, 2, (3 * 4), sub((5 + (6 * 7)), 8), (10 * 11))",
    ];
    let program = Parser::parse(Lexer::tokenize(input)).unwrap();
    assert_eq!(program.program.len(), expected.len());
    for (i, exp) in expected.iter().enumerate() {
        assert_eq!(program.program[i].render_string(), *exp);
    }
}

#[test]
fn test_test_boolean_expression() {
    let input = "
            true;
            false;
        ";
    let program = Parser::parse(Lexer::tokenize(input)).unwrap();
    assert_eq!(program.program.len(), 2);
    assert!(matches!(&program.program[0], Stmt::Expr { expr: Expr::Bool { value: true, .. } }));
    assert!(matches!(&program.program[1], Stmt::Expr { expr: Expr::Bool { value: false, .. } }));
}

#[test]
fn test_test_if_expression() {
    let input = "
            if (x < y) { x }
        ";
    let program = Parser::parse(Lexer::tokenize(input)).unwrap();
    assert_eq!(program.program.len(), 1);
    match &program.program[0] {
        Stmt::Expr { expr: Expr::If { condition, consequence, alternative, .. } } => {
            match &**condition {
                Expr::Infix { left, operator, right, .. } => {
                    assert_eq!(*operator, InfixType::Lt);
                    assert!(matches!(&**left, Expr::Ident { .. }));
                    assert!(matches!(&**right, Expr::Ident { .. }));
                },
                _ => panic!("Not a comparison"),
            }
            assert_eq!(consequence.0.len(), 1);
            assert!(matches!(&consequence.0[0], Stmt::Expr { expr: Expr::Ident { .. } }));
            assert!(alternative.0.is_empty());
        },
        _ => panic!("Not an if expression"),
    }
}

#[test]
fn test_if_else_expression() {
    let input = "
            if (x < y) { x } else { y }
            if (x < y) { x } else { y }
            if (x < y) { x } else { y };
            if (x < y) { x } else { y };
            if (x < y) { x } else { y }
        ";
    let program = Parser::parse(Lexer::tokenize(input)).unwrap();
    assert_eq!(program.program.len(), 5);
    for stmt in &program.program {
        match stmt {
            Stmt::Expr { expr: Expr::If { condition, consequence, alternative, .. } } => {
                match &**condition {
                    Expr::Infix { operator, .. } => assert_eq!(*operator, InfixType::Lt),
                    _ => panic!("Not a comparison"),
                }
                assert_eq!(consequence.0.len(), 1);
                assert_eq!(alternative.0.len(), 1);
            },
            _ => panic!("Not an if expression"),
        }
    }
}

#[test]
fn test_function_expression() {
    let input = "
            fn(x, y, z) { return x + y + z; };
            fn() { return 0; };
            fn(x) { return x; };
        ";
    let expected_params: Vec<Vec<&str>> = vec![vec!["x", "y", "z"], vec![], vec!["x"]];
    let program = Parser::parse(Lexer::tokenize(input)).unwrap();
    assert_eq!(program.program.len(), expected_params.len());
    for (i, exp) in expected_params.iter().enumerate() {
        match &program.program[i] {
            Stmt::Expr { expr: Expr::FuncLiteral { parameters, body, .. } } => {
                assert_eq!(parameters.0.len(), exp.len());
                for (p, name) in parameters.0.iter().zip(exp.iter()) {
                    match p {
                        Expr::Ident { name: n, .. } => assert_eq!(n, name),
                        _ => panic!("Parameter is not an identifier"),
                    }
                }
                assert_eq!(body.0.len(), 1);
                assert!(matches!(&body.0[0], Stmt::Return { .. }));
            },
            _ => panic!("Not a function literal"),
        }
    }
}
