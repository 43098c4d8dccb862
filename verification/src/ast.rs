//! The abstract syntax tree: inert value types for expressions, statements
//! and programs, each with a source location, together with their
//! mathematical views and a structure-preserving clone.

use vstd::prelude::*;

verus! {

/// A source position: the row and column where a token starts.
#[derive(Clone, Copy, Debug, PartialEq, Eq, Structural)]
pub struct Location {
    pub row: i64,
    pub column: i64,
}

impl Location {
    pub fn new(row: i64, column: i64) -> (r: Location)
        ensures
            r == (Location { row, column }),
    {
        Location { row, column }
    }
}

/// A unary operator.
#[derive(Clone, Copy, Debug, PartialEq, Eq, Structural)]
pub enum PrefixType {
    Minus,
    Bang,
}

/// A binary operator.
#[derive(Clone, Copy, Debug, PartialEq, Eq, Structural)]
pub enum InfixType {
    Assign,
    Plus,
    Minus,
    Asterisk,
    Slash,
    Lt,
    Gt,
    Eq,
    Neq,
}

/// The parameter list of a function literal: identifier expressions.
#[derive(Debug, PartialEq)]
pub struct Params(pub Vec<Expr>);

/// The argument list of a function call.
#[derive(Debug, PartialEq)]
pub struct Args(pub Vec<Expr>);

/// The statements of a `{ ... }` block.
#[derive(Debug, PartialEq)]
pub struct BlockStmts(pub Vec<Stmt>);

/// An expression. Each node owns its children: the tree is strict, with no
/// sharing and no cycles.
#[derive(Debug, PartialEq)]
pub enum Expr {
    Ident { loc: Location, name: String },
    Int { loc: Location, value: i64 },
    Bool { loc: Location, value: bool },
    Prefix { loc: Location, operator: PrefixType, right: Box<Expr> },
    Infix { loc: Location, left: Box<Expr>, operator: InfixType, right: Box<Expr> },
    If { loc: Location, condition: Box<Expr>, consequence: BlockStmts, alternative: BlockStmts },
    FuncLiteral { loc: Location, parameters: Params, body: BlockStmts },
    FuncCall { loc: Location, ident: Box<Expr>, args: Args },
}

/// A statement. In `Let` the `name` is always an `Expr::Ident`.
#[derive(Debug, PartialEq)]
pub enum Stmt {
    Let { name: Expr, expr: Expr },
    Return { expr: Expr },
    Expr { expr: Expr },
}

/// A parsed program: its statements in source order.
#[derive(Debug, PartialEq)]
pub struct Program {
    pub program: Vec<Stmt>,
}

/// The mathematical value of an expression: the same tree with names as
/// character sequences and blocks as statement sequences.
pub enum ExprV {
    Ident { loc: Location, name: Seq<char> },
    Int { loc: Location, value: i64 },
    Bool { loc: Location, value: bool },
    Prefix { loc: Location, operator: PrefixType, right: Box<ExprV> },
    Infix { loc: Location, left: Box<ExprV>, operator: InfixType, right: Box<ExprV> },
    If { loc: Location, condition: Box<ExprV>, consequence: Seq<StmtV>, alternative: Seq<StmtV> },
    FuncLiteral { loc: Location, parameters: Seq<ExprV>, body: Seq<StmtV> },
    FuncCall { loc: Location, ident: Box<ExprV>, args: Seq<ExprV> },
}

/// The mathematical value of a statement.
pub enum StmtV {
    Let { name: ExprV, expr: ExprV },
    Return { expr: ExprV },
    Expr { expr: ExprV },
}

pub open spec fn expr_view(e: Expr) -> ExprV
    decreases e,
{
    match e {
        Expr::Ident { loc, name } => ExprV::Ident { loc, name: name@ },
        Expr::Int { loc, value } => ExprV::Int { loc, value },
        Expr::Bool { loc, value } => ExprV::Bool { loc, value },
        Expr::Prefix { loc, operator, right } => ExprV::Prefix {
            loc,
            operator,
            right: Box::new(expr_view(*right)),
        },
        Expr::Infix { loc, left, operator, right } => ExprV::Infix {
            loc,
            left: Box::new(expr_view(*left)),
            operator,
            right: Box::new(expr_view(*right)),
        },
        Expr::If { loc, condition, consequence, alternative } => ExprV::If {
            loc,
            condition: Box::new(expr_view(*condition)),
            consequence: stmts_view(consequence.0@),
            alternative: stmts_view(alternative.0@),
        },
        Expr::FuncLiteral { loc, parameters, body } => ExprV::FuncLiteral {
            loc,
            parameters: exprs_view(parameters.0@),
            body: stmts_view(body.0@),
        },
        Expr::FuncCall { loc, ident, args } => ExprV::FuncCall {
            loc,
            ident: Box::new(expr_view(*ident)),
            args: exprs_view(args.0@),
        },
    }
}

pub open spec fn exprs_view(es: Seq<Expr>) -> Seq<ExprV>
    decreases es,
{
    if es.len() == 0 {
        Seq::empty()
    } else {
        exprs_view(es.drop_last()).push(expr_view(es.last()))
    }
}

pub open spec fn stmt_view(s: Stmt) -> StmtV
    decreases s,
{
    match s {
        Stmt::Let { name, expr } => StmtV::Let { name: expr_view(name), expr: expr_view(expr) },
        Stmt::Return { expr } => StmtV::Return { expr: expr_view(expr) },
        Stmt::Expr { expr } => StmtV::Expr { expr: expr_view(expr) },
    }
}

pub open spec fn stmts_view(ss: Seq<Stmt>) -> Seq<StmtV>
    decreases ss,
{
    if ss.len() == 0 {
        Seq::empty()
    } else {
        stmts_view(ss.drop_last()).push(stmt_view(ss.last()))
    }
}

pub broadcast proof fn lemma_exprs_view(es: Seq<Expr>)
    ensures
        (#[trigger] exprs_view(es)).len() == es.len(),
        forall|i: int| 0 <= i < es.len() ==> exprs_view(es)[i] == expr_view(es[i]),
    decreases es,
{
    if es.len() > 0 {
        lemma_exprs_view(es.drop_last());
    }
}

pub broadcast proof fn lemma_stmts_view(ss: Seq<Stmt>)
    ensures
        (#[trigger] stmts_view(ss)).len() == ss.len(),
        forall|i: int| 0 <= i < ss.len() ==> stmts_view(ss)[i] == stmt_view(ss[i]),
    decreases ss,
{
    if ss.len() > 0 {
        lemma_stmts_view(ss.drop_last());
    }
}

impl View for Expr {
    type V = ExprV;

    open spec fn view(&self) -> ExprV {
        expr_view(*self)
    }
}

impl View for Stmt {
    type V = StmtV;

    open spec fn view(&self) -> StmtV {
        stmt_view(*self)
    }
}

impl View for Params {
    type V = Seq<ExprV>;

    open spec fn view(&self) -> Seq<ExprV> {
        exprs_view(self.0@)
    }
}

impl View for Args {
    type V = Seq<ExprV>;

    open spec fn view(&self) -> Seq<ExprV> {
        exprs_view(self.0@)
    }
}

impl View for BlockStmts {
    type V = Seq<StmtV>;

    open spec fn view(&self) -> Seq<StmtV> {
        stmts_view(self.0@)
    }
}

impl View for Program {
    type V = Seq<StmtV>;

    open spec fn view(&self) -> Seq<StmtV> {
        stmts_view(self.program@)
    }
}

impl BlockStmts {
    /// Whether the block holds no statements. An `if` without `else` carries
    /// an empty block as its alternative.
    pub fn is_empty(&self) -> (r: bool)
        ensures
            r == (self@.len() == 0),
    {
        proof {
            broadcast use lemma_stmts_view;

        }
        self.0.len() == 0
    }
}

fn clone_expr(e: &Expr) -> (res: Expr)
    ensures
        res@ == e@,
    decreases e, 0int,
{
    match e {
        Expr::Ident { loc, name } => Expr::Ident { loc: *loc, name: name.clone() },
        Expr::Int { loc, value } => Expr::Int { loc: *loc, value: *value },
        Expr::Bool { loc, value } => Expr::Bool { loc: *loc, value: *value },
        Expr::Prefix { loc, operator, right } => Expr::Prefix {
            loc: *loc,
            operator: *operator,
            right: Box::new(clone_expr(right)),
        },
        Expr::Infix { loc, left, operator, right } => Expr::Infix {
            loc: *loc,
            left: Box::new(clone_expr(left)),
            operator: *operator,
            right: Box::new(clone_expr(right)),
        },
        Expr::If { loc, condition, consequence, alternative } => Expr::If {
            loc: *loc,
            condition: Box::new(clone_expr(condition)),
            consequence: BlockStmts(clone_stmts(&consequence.0)),
            alternative: BlockStmts(clone_stmts(&alternative.0)),
        },
        Expr::FuncLiteral { loc, parameters, body } => Expr::FuncLiteral {
            loc: *loc,
            parameters: Params(clone_exprs(&parameters.0)),
            body: BlockStmts(clone_stmts(&body.0)),
        },
        Expr::FuncCall { loc, ident, args } => Expr::FuncCall {
            loc: *loc,
            ident: Box::new(clone_expr(ident)),
            args: Args(clone_exprs(&args.0)),
        },
    }
}

fn clone_stmt(s: &Stmt) -> (res: Stmt)
    ensures
        res@ == s@,
    decreases s, 0int,
{
    match s {
        Stmt::Let { name, expr } => Stmt::Let { name: clone_expr(name), expr: clone_expr(expr) },
        Stmt::Return { expr } => Stmt::Return { expr: clone_expr(expr) },
        Stmt::Expr { expr } => Stmt::Expr { expr: clone_expr(expr) },
    }
}

fn clone_exprs(v: &Vec<Expr>) -> (res: Vec<Expr>)
    ensures
        exprs_view(res@) == exprs_view(v@),
    decreases v@, 1int,
{
    proof {
        assert(v@.subrange(0, v@.len() as int) =~= v@);
    }
    let n = v.len();
    clone_exprs_upto(v, n)
}

fn clone_exprs_upto(v: &Vec<Expr>, n: usize) -> (res: Vec<Expr>)
    requires
        n <= v@.len(),
    ensures
        exprs_view(res@) == exprs_view(v@.subrange(0, n as int)),
    decreases v@.subrange(0, n as int), 0int,
{
    if n == 0 {
        let res: Vec<Expr> = Vec::new();
        res
    } else {
        proof {
            assert(v@.subrange(0, n as int).subrange(0, n - 1) =~= v@.subrange(0, n - 1));
            assert(v@.subrange(0, n as int)[n - 1] == v@[n - 1]);
        }
        let mut res = clone_exprs_upto(v, n - 1);
        let e = clone_expr(&v[n - 1]);
        let ghost prev = res@;
        res.push(e);
        proof {
            assert(res@.drop_last() =~= prev);
            assert(v@.subrange(0, n as int).drop_last() =~= v@.subrange(0, n - 1));
        }
        res
    }
}

fn clone_stmts(v: &Vec<Stmt>) -> (res: Vec<Stmt>)
    ensures
        stmts_view(res@) == stmts_view(v@),
    decreases v@, 1int,
{
    proof {
        assert(v@.subrange(0, v@.len() as int) =~= v@);
    }
    let n = v.len();
    clone_stmts_upto(v, n)
}

fn clone_stmts_upto(v: &Vec<Stmt>, n: usize) -> (res: Vec<Stmt>)
    requires
        n <= v@.len(),
    ensures
        stmts_view(res@) == stmts_view(v@.subrange(0, n as int)),
    decreases v@.subrange(0, n as int), 0int,
{
    if n == 0 {
        let res: Vec<Stmt> = Vec::new();
        res
    } else {
        proof {
            assert(v@.subrange(0, n as int).subrange(0, n - 1) =~= v@.subrange(0, n - 1));
            assert(v@.subrange(0, n as int)[n - 1] == v@[n - 1]);
        }
        let mut res = clone_stmts_upto(v, n - 1);
        let s = clone_stmt(&v[n - 1]);
        let ghost prev = res@;
        res.push(s);
        proof {
            assert(res@.drop_last() =~= prev);
            assert(v@.subrange(0, n as int).drop_last() =~= v@.subrange(0, n - 1));
        }
        res
    }
}

impl Clone for Expr {
    fn clone(&self) -> (res: Expr)
        ensures
            res@ == self@,
    {
        clone_expr(self)
    }
}

impl Clone for Stmt {
    fn clone(&self) -> (res: Stmt)
        ensures
            res@ == self@,
    {
        clone_stmt(self)
    }
}

impl Clone for Params {
    fn clone(&self) -> (res: Params)
        ensures
            res@ == self@,
    {
        Params(clone_exprs(&self.0))
    }
}

impl Clone for Args {
    fn clone(&self) -> (res: Args)
        ensures
            res@ == self@,
    {
        Args(clone_exprs(&self.0))
    }
}

impl Clone for BlockStmts {
    fn clone(&self) -> (res: BlockStmts)
        ensures
            res@ == self@,
    {
        BlockStmts(clone_stmts(&self.0))
    }
}

} // verus!
