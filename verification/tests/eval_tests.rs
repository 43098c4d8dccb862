use squirt::ast::Program;
use squirt::environment::Env;
use squirt::eval::{eval, eval_stmt};
use squirt::lexer::Lexer;
use squirt::object::Object;
use squirt::parser::Parser;

fn parse(input: &str) -> Program {
    Parser::parse(Lexer::tokenize(input)).unwrap()
}

#[test]
fn eval_test_test_let() {
    let input = "
            5;
            123;
            0;
        ";
    let expected: Vec<i64> = vec![5, 123, 0];
    let program = parse(input);
    assert_eq!(program.program.len(), expected.len());
    for (i, stmt) in program.program.iter().enumerate() {
        let mut env = Env::new();
        assert_eq!(eval_stmt(stmt, &mut env).inspect(), expected[i].to_string());
    }
}

#[test]
fn test_prefix_bang_expression() {
    let input = "
            !5;
            !0;
            !!123;
            !true;
            !false;
            !!true;
            !!false;

        ";
    let expected: Vec<bool> = vec![false, true, true, false, true, true, false];
    let program = parse(input);
    assert_eq!(program.program.len(), expected.len());
    for (i, stmt) in program.program.iter().enumerate() {
        let mut env = Env::new();
        match eval_stmt(stmt, &mut env) {
            Object::Boolean(b) => assert_eq!(b, expected[i]),
            other => panic!("Not a boolean: {:?}", other),
        }
    }
}

#[test]
fn test_prefix_minus_expression() {
    let input = "
            -5;
            10;
            5;
            -10;
        ";
    let expected: Vec<i64> = vec![-5, 10, 5, -10];
    let program = parse(input);
    assert_eq!(program.program.len(), expected.len());
    for (i, stmt) in program.program.iter().enumerate() {
        let mut env = Env::new();
        match eval_stmt(stmt, &mut env) {
            Object::Integer(v) => assert_eq!(v, expected[i]),
            other => panic!("Not an integer: {:?}", other),
        }
    }
}

#[test]
fn test_interger_infix_expression1() {
    let input = "
            5 + 5 + 5 - 10;
            2 * 2 * 2 * 2 * 2;
            -50 + 100 + -50;
            5 * 2 + 10;
            5 + 2 * 10;
            (1 + 2) * 3 - 2 - (3 + 4) * 1;
        ";
    let expected: Vec<i64> = vec![5, 32, 0, 20, 25, 0];
    let program = parse(input);
    assert_eq!(program.program.len(), expected.len());
    for (i, stmt) in program.program.iter().enumerate() {
        let mut env = Env::new();
        match eval_stmt(stmt, &mut env) {
            Object::Integer(v) => assert_eq!(v, expected[i]),
            other => panic!("Not an integer: {:?}", other),
        }
    }
}

#[test]
fn test_interger_infix_expression2() {
    let input = "
            1 == 1;
            1 != 1;
            1 < 2;
            1 > 2;
            2 < 1;
            2 > 1;
            2 < 2;
            3 > 3;
        ";
    let expected: Vec<bool> = vec![true, false, true, false, false, true, false, false];
    let program = parse(input);
    assert_eq!(program.program.len(), expected.len());
    for (i, stmt) in program.program.iter().enumerate() {
        let mut env = Env::new();
        match eval_stmt(stmt, &mut env) {
            Object::Boolean(b) => assert_eq!(b, expected[i]),
            other => panic!("Not a boolean: {:?}", other),
        }
    }
}

#[test]
fn test_bool_infix_expression() {
    let input = "
            true == true;
            false == false;
            true == false;
            false != true;
            true == (1 < 2);
            false == (2 != 2);
        ";
    let expected: Vec<bool> = vec![true, true, false, true, true, true];
    let program = parse(input);
    assert_eq!(program.program.len(), expected.len());
    for (i, stmt) in program.program.iter().enumerate() {
        let mut env = Env::new();
        match eval_stmt(stmt, &mut env) {
            Object::Boolean(b) => assert_eq!(b, expected[i]),
            other => panic!("Not a boolean: {:?}", other),
        }
    }
}

#[test]
fn eval_test_test_if_expression() {
    let input = "
            if(true) { 10; }
            if(false) { 10; }
            if(true) { 10; } else { 20; }
            if(false) { 10; } else { 20; }
            if(0) { 10; } else { 20; }
            if(1) { 10; } else { 20; }
        ";
    let expected: Vec<&str> = vec!["10", "null", "10", "20", "20", "10"];
    let program = parse(input);
    assert_eq!(program.program.len(), expected.len());
    for (i, stmt) in program.program.iter().enumerate() {
        let mut env = Env::new();
        let b = match eval_stmt(stmt, &mut env) {
            Object::Integer(v) => v.to_string(),
            Object::Null => "null".to_string(),
            other => panic!("Neither integer nor null: {:?}", other),
        };
        assert_eq!(b, expected[i]);
    }
}

#[test]
fn test_return2() {
    let input = "
            1;
            if(true) {
                if(false) {
                    return 2;
                }
                3;
                if(true) {
                    return 4;
                }
                return 5;
            }
            return 6;
        ";
    let expected: i64 = 4;
    let program = parse(input);
    let mut env = Env::new();
    match eval(&program, &mut env) {
        Object::Integer(v) => assert_eq!(v, expected),
        other => panic!("Not an integer: {:?}", other),
    }
}

#[test]
fn test_error() {
    let input = "
            5 + true;
            -true;
            true * false;
            if (true) { false / 1; }
        ";
    let expected: Vec<&str> = vec![
        "Type Mismatched: Integer + Bool",
        "Unknown Operator: -Bool",
        "Type Mismatched: Bool * Bool",
        "Type Mismatched: Bool / Integer",
    ];
    let program = parse(input);
    assert_eq!(program.program.len(), expected.len());
    for (i, stmt) in program.program.iter().enumerate() {
        let mut env = Env::new();
        assert_eq!(eval_stmt(stmt, &mut env).inspect(), expected[i]);
    }
}
