use squirt::ast::{Args, BlockStmts, Expr, InfixType, Location, Params, Stmt};

fn ident(name: &str) -> Expr {
    Expr::Ident { loc: Location::new(0, 0), name: name.to_string() }
}

fn int_lit(value: i64) -> Expr {
    Expr::Int { loc: Location::new(0, 0), value }
}

fn plus(left: Expr, right: Expr) -> Expr {
    Expr::Infix {
        loc: Location::new(0, 0),
        left: Box::new(left),
        operator: InfixType::Plus,
        right: Box::new(right),
    }
}

#[test]
fn new() {
    let expected = Location { row: 1, column: 2 };
    let loc = Location::new(1, 2);
    assert_eq!(expected, loc)
}

#[test]
fn loc_macro() {
    let expected = Location { row: 1, column: 2 };
    let loc = Location::new(1, 2);
    assert_eq!(expected, loc)
}

#[test]
fn fmt_dbg() {
    let expected = "(1, 2)";
    let dbg_str = Location::new(1, 2).fmt_string();
    assert_eq!(expected, dbg_str)
}

#[test]
fn expr_params_empty() {
    let expected = "()";
    let dbg_str = Params(vec![]).fmt_string();
    assert_eq!(expected, dbg_str);
}

#[test]
fn expr_params_singleton() {
    let expected = "(a)";
    let dbg_str = Params(vec![ident("a")]).fmt_string();
    assert_eq!(expected, dbg_str);
}

#[test]
fn expr_params() {
    let expected = "(a, b, c)";
    let dbg_str = Params(vec![ident("a"), ident("b"), ident("c")]).fmt_string();
    assert_eq!(expected, dbg_str);
}

#[test]
fn expr_args_empty() {
    let expected = "()";
    let dbg_str = Args(vec![]).fmt_string();
    assert_eq!(expected, dbg_str);
}

#[test]
fn expr_args_singleton() {
    let expected = "(a)";
    let dbg_str = Args(vec![ident("a")]).fmt_string();
    assert_eq!(expected, dbg_str);
}

#[test]
fn expr_args() {
    let expected = "(a, 2, c + 3)";
    let dbg_str = Args(vec![ident("a"), int_lit(2), plus(ident("c"), int_lit(3))]).fmt_string();
    assert_eq!(expected, dbg_str);
}

#[test]
fn stmt_block_stmts_empty() {
    let expected = "{}";
    let dbg_str = BlockStmts(vec![]).fmt_string();
    assert_eq!(expected, dbg_str);
}

#[test]
fn stmt_block_stmts_singleton() {
    let expected = "{ return a; }";
    let dbg_str = BlockStmts(vec![Stmt::Return { expr: ident("a") }]).fmt_string();
    assert_eq!(expected, dbg_str);
}

#[test]
fn stmt_block_stmts() {
    let expected = "{ return a; return b; }";
    let dbg_str = BlockStmts(vec![
        Stmt::Return { expr: ident("a") },
        Stmt::Return { expr: ident("b") },
    ])
    .fmt_string();
    assert_eq!(expected, dbg_str);
}

#[test]
fn util_params_empty() {
    let expected = "()";
    let dbg_str = Params(vec![]).fmt_string();
    assert_eq!(expected, dbg_str);
}

#[test]
fn util_params_singleton() {
    let expected = "(a)";
    let dbg_str = Params(vec![ident("a")]).fmt_string();
    assert_eq!(expected, dbg_str);
}

#[test]
fn util_params() {
    let expected = "(a, b, c)";
    let dbg_str = Params(vec![ident("a"), ident("b"), ident("c")]).fmt_string();
    assert_eq!(expected, dbg_str);
}

#[test]
fn util_args_empty() {
    let expected = "()";
    let dbg_str = Args(vec![]).fmt_string();
    assert_eq!(expected, dbg_str);
}

#[test]
fn util_args_singleton() {
    let expected = "(a)";
    let dbg_str = Args(vec![ident("a")]).fmt_string();
    assert_eq!(expected, dbg_str);
}

#[test]
fn util_args() {
    let expected = "(a, 2, c + 3)";
    let dbg_str = Args(vec![ident("a"), int_lit(2), plus(ident("c"), int_lit(3))]).fmt_string();
    assert_eq!(expected, dbg_str);
}

#[test]
fn util_block_stmts_empty() {
    let expected = "{}";
    let dbg_str = BlockStmts(vec![]).fmt_string();
    assert_eq!(expected, dbg_str);
}

#[test]
fn util_block_stmts_singleton() {
    let expected = "{ return a; }";
    let dbg_str = BlockStmts(vec![Stmt::Return { expr: ident("a") }]).fmt_string();
    assert_eq!(expected, dbg_str);
}

#[test]
fn util_block_stmts() {
    let expected = "{ return a; return b; }";
    let dbg_str = BlockStmts(vec![
        Stmt::Return { expr: ident("a") },
        Stmt::Return { expr: ident("b") },
    ])
    .fmt_string();
    assert_eq!(expected, dbg_str);
}
