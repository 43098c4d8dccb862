use squirt::ast::Program;
use squirt::environment::Env;
use squirt::eval::{eval, Eval};
use squirt::lexer::Lexer;
use squirt::object::Object;
use squirt::parser::Parser;

fn parse(input: &str) -> Program {
    Parser::parse(Lexer::tokenize(input)).unwrap()
}

fn run_program(input: &str) -> Object {
    let program = parse(input);
    let mut env = Env::new();
    eval(&program, &mut env)
}

#[test]
fn exist_inner() {
    let mut env = Env::new();
    env.set(0, "out".to_string(), Object::Boolean(true));
    let inner = env.wrap_env(0);
    env.set(inner, "in".to_string(), Object::Boolean(false));
    match env.get(inner, "in") {
        Some(obj) => assert_eq!(obj, Object::Boolean(false)),
        None => panic!("inner binding not found"),
    }
}

#[test]
fn exist_outer() {
    let mut env = Env::new();
    env.set(0, "out".to_string(), Object::Boolean(true));
    let inner = env.wrap_env(0);
    env.set(inner, "in".to_string(), Object::Boolean(false));
    match env.get(inner, "out") {
        Some(obj) => assert_eq!(obj, Object::Boolean(true)),
        None => panic!("outer binding not found"),
    }
}

#[test]
fn not_exist() {
    let mut env = Env::new();
    env.set(0, "out".to_string(), Object::Boolean(true));
    let inner = env.wrap_env(0);
    env.set(inner, "in".to_string(), Object::Boolean(false));
    assert!(env.get(inner, "not").is_none());
}

#[test]
fn closure_capture() {
    let result = run_program("let f = fn(x) { fn(y) { x + y } }; let add2 = f(2); add2(3);");
    assert_eq!(result, Object::Integer(5));
}

#[test]
fn early_return_short_circuit() {
    let result = run_program("let f = fn() { if (true) { return 1; } return 2; }; f();");
    assert_eq!(result, Object::Integer(1));
}

#[test]
fn type_mismatch_message() {
    let result = run_program("5 + true;");
    assert_eq!(result.inspect(), "Type Mismatched: Integer + Bool");
}

#[test]
fn shadowing_keeps_outer_binding() {
    let program = parse("let x = 1; let f = fn() { let x = 2; x }; f();");
    let mut env = Env::new();
    let inner = eval(&program, &mut env);
    assert_eq!(inner, Object::Integer(2));
    assert_eq!(env.get(0, "x"), Some(Object::Integer(1)));
}

#[test]
fn idempotent_literal_evaluation() {
    let program = parse("1 + 2 * 3; !false; let a = 4; a;");
    let mut env1 = Env::new();
    let mut env2 = Env::new();
    let r1 = eval(&program, &mut env1);
    let r2 = eval(&program, &mut env2);
    assert_eq!(r1, r2);
    assert_eq!(r1, Object::Integer(4));
}

#[test]
fn error_recovery_count() {
    let input = "
let a = 1;
let = 2;
let b = 3;
let c 4;
let d = 5;
let e = ;
let f = 6;
";
    let errs = Parser::parse(Lexer::tokenize(input)).unwrap_err();
    assert_eq!(errs.len(), 3);
    assert!(errs[0].contains("PAR:3011"));
    assert!(errs[1].contains("PAR:2012"));
    assert!(errs[2].contains("PAR:3001"));
    assert!(errs[0].contains("Line 3:"));
    assert!(errs[1].contains("Line 5:"));
    assert!(errs[2].contains("Line 7:"));
}

#[test]
fn well_formed_statements_parse_alone() {
    for good in ["let a = 1;", "let b = 3;", "let d = 5;", "let f = 6;"] {
        let program = parse(good);
        assert_eq!(program.program.len(), 1);
    }
}

#[test]
fn left_associativity_render() {
    let program = parse("a - b - c");
    assert_eq!(program.program[0].render_string(), "((a - b) - c)");
}

#[test]
fn precedence_render() {
    let program = parse("a + b * c; a * b + c; -a * b;");
    assert_eq!(program.program[0].render_string(), "(a + (b * c))");
    assert_eq!(program.program[1].render_string(), "((a * b) + c)");
    assert_eq!(program.program[2].render_string(), "((-a) * b)");
}

#[test]
fn division_by_zero_is_error() {
    let result = run_program("5 / 0;");
    assert_eq!(result.inspect(), "Division by Zero");
}

#[test]
fn division_truncates() {
    assert_eq!(run_program("7 / 2;"), Object::Integer(3));
    assert_eq!(run_program("0 - 7 / 2;"), Object::Integer(-3));
}

#[test]
fn ident_not_found_message() {
    let result = run_program("foobar;");
    assert_eq!(result.inspect(), "Ident not found: foobar");
}

#[test]
fn call_of_non_function() {
    let result = run_program("5(3);");
    assert_eq!(result.inspect(), "Not a func");
}

#[test]
fn assign_to_non_identifier() {
    let result = run_program("1 = 2;");
    assert_eq!(result.inspect(), "Cannot Assign to non-identifier");
}

#[test]
fn assignment_updates_holding_scope() {
    let program = parse("let x = 1; let f = fn() { x = 99 }; f(); x;");
    let mut env = Env::new();
    let result = eval(&program, &mut env);
    assert_eq!(result, Object::Integer(99));
    assert_eq!(env.get(0, "x"), Some(Object::Integer(99)));
}

#[test]
fn late_binding_is_visible_to_closure() {
    let result = run_program("let f = fn() { a }; let a = 7; f();");
    assert_eq!(result, Object::Integer(7));
}

#[test]
fn arity_mismatch_truncates() {
    let result = run_program("let f = fn(x, y) { x }; f(1);");
    assert_eq!(result, Object::Integer(1));
}

#[test]
fn int_literal_too_large_is_diagnosed() {
    let errs = Parser::parse(Lexer::tokenize("9223372036854775808;")).unwrap_err();
    assert_eq!(errs.len(), 1);
    assert!(errs[0].contains("Cannot parse integer"));
}

#[test]
fn int_literal_max_parses() {
    let result = run_program("9223372036854775807;");
    assert_eq!(result, Object::Integer(i64::MAX));
}

#[test]
fn addition_wraps_on_overflow() {
    let result = run_program("9223372036854775807 + 1;");
    assert_eq!(result, Object::Integer(i64::MIN));
}

#[test]
fn negative_integer_inspect() {
    let result = run_program("0 - 42;");
    assert_eq!(result.inspect(), "-42");
}

#[test]
fn runaway_recursion_is_cut_off() {
    let result = run_program("let f = fn() { f() }; f();");
    assert_eq!(result.inspect(), "Max call depth exceeded");
}

#[test]
fn session_bindings_accumulate() {
    let mut session = Eval::new();
    assert_eq!(session.run("let a = 5;"), "null");
    assert_eq!(session.run("let b = a + 1;"), "null");
    assert_eq!(session.run("a + b"), "11");
}

#[test]
fn session_reports_diagnostics() {
    let mut session = Eval::new();
    let out = session.run("let = 2;");
    assert!(out.contains("PAR:3011"));
    let empty = session.run("");
    assert_eq!(empty, "");
}

#[test]
fn session_keeps_closures_alive() {
    let mut session = Eval::new();
    session.run("let mk = fn(x) { fn(y) { x + y } };");
    session.run("let add10 = mk(10);");
    assert_eq!(session.run("add10(32)"), "42");
}

#[test]
fn function_value_placeholder() {
    let result = run_program("fn(x) { x };");
    assert_eq!(result.inspect(), "fn() {}");
}

#[test]
fn bang_truthiness() {
    assert_eq!(run_program("!0;"), Object::Boolean(true));
    assert_eq!(run_program("!1;"), Object::Boolean(false));
    assert_eq!(run_program("!fn(x) { x };"), Object::Boolean(false));
    assert_eq!(run_program("let f = fn() { }; !f();"), Object::Boolean(true));
}

#[test]
fn empty_alternative_is_null() {
    assert_eq!(run_program("if (false) { 1 }"), Object::Null);
}
