//! Rendering of syntax trees back to text, in two styles: a compact style
//! that echoes the source (used when a node is shown in a message or a
//! listing), and a fully parenthesised style that makes precedence and
//! associativity visible.

use vstd::prelude::*;

use crate::ast::{
    expr_view, exprs_view, lemma_exprs_view, lemma_stmts_view, stmt_view, stmts_view, Args,
    BlockStmts, Expr, ExprV, InfixType, Location, Params, PrefixType, Stmt, StmtV,
};
use crate::strings::{int_str, int_string};

verus! {

/// The source text of a unary operator.
pub open spec fn prefix_op_str(op: PrefixType) -> Seq<char> {
    match op {
        PrefixType::Minus => "-"@,
        PrefixType::Bang => "!"@,
    }
}

/// The source text of a binary operator.
pub open spec fn infix_op_str(op: InfixType) -> Seq<char> {
    match op {
        InfixType::Assign => "="@,
        InfixType::Plus => "+"@,
        InfixType::Minus => "-"@,
        InfixType::Asterisk => "*"@,
        InfixType::Slash => "/"@,
        InfixType::Lt => "<"@,
        InfixType::Gt => ">"@,
        InfixType::Eq => "=="@,
        InfixType::Neq => "!="@,
    }
}

/// Compact rendering of an expression: operators are written between their
/// operands with no added parentheses.
pub open spec fn dbg_expr(e: ExprV) -> Seq<char>
    decreases e, 0int,
{
    match e {
        ExprV::Ident { loc: _, name } => name,
        ExprV::Int { loc: _, value } => int_str(value as int),
        ExprV::Bool { loc: _, value } => if value {
            "true"@
        } else {
            "false"@
        },
        ExprV::Prefix { loc: _, operator, right } => prefix_op_str(operator) + dbg_expr(*right),
        ExprV::Infix { loc: _, left, operator, right } => dbg_expr(*left) + " "@ + infix_op_str(
            operator,
        ) + " "@ + dbg_expr(*right),
        ExprV::If { loc: _, condition, consequence, alternative } => if alternative.len() == 0 {
            "if ("@ + dbg_expr(*condition) + ") "@ + dbg_block(consequence)
        } else {
            "if ("@ + dbg_expr(*condition) + ") "@ + dbg_block(consequence) + " else "@
                + dbg_block(alternative)
        },
        ExprV::FuncLiteral { loc: _, parameters, body } => "fn "@ + dbg_paren_exprs(parameters)
            + " "@ + dbg_block(body),
        ExprV::FuncCall { loc: _, ident, args } => dbg_expr(*ident) + dbg_paren_exprs(args),
    }
}

/// Compact rendering of a statement, closed by a semicolon.
pub open spec fn dbg_stmt(s: StmtV) -> Seq<char>
    decreases s, 0int,
{
    match s {
        StmtV::Let { name, expr } => "let "@ + dbg_expr(name) + " = "@ + dbg_expr(expr) + ";"@,
        StmtV::Return { expr } => "return "@ + dbg_expr(expr) + ";"@,
        StmtV::Expr { expr } => dbg_expr(expr) + ";"@,
    }
}

/// Expressions joined by a comma and a space.
pub open spec fn dbg_exprs_sep(es: Seq<ExprV>) -> Seq<char>
    decreases es, 1int,
{
    if es.len() == 0 {
        Seq::empty()
    } else if es.len() == 1 {
        dbg_expr(es[0])
    } else {
        dbg_expr(es[0]) + ", "@ + dbg_exprs_sep(es.drop_first())
    }
}

/// A comma-separated expression list between parentheses.
pub open spec fn dbg_paren_exprs(es: Seq<ExprV>) -> Seq<char>
    decreases es, 2int,
{
    "("@ + dbg_exprs_sep(es) + ")"@
}

/// Statements joined by a single space.
pub open spec fn dbg_stmts_sep(ss: Seq<StmtV>) -> Seq<char>
    decreases ss, 1int,
{
    if ss.len() == 0 {
        Seq::empty()
    } else if ss.len() == 1 {
        dbg_stmt(ss[0])
    } else {
        dbg_stmt(ss[0]) + " "@ + dbg_stmts_sep(ss.drop_first())
    }
}

/// A block of statements between braces; an empty block is `{}`.
pub open spec fn dbg_block(ss: Seq<StmtV>) -> Seq<char>
    decreases ss, 2int,
{
    if ss.len() == 0 {
        "{}"@
    } else {
        "{ "@ + dbg_stmts_sep(ss) + " }"@
    }
}

/// Parenthesised rendering of an expression: every unary and binary
/// operation is wrapped in parentheses, so precedence and associativity can
/// be read off the text.
pub open spec fn render_expr(e: ExprV) -> Seq<char>
    decreases e, 0int,
{
    match e {
        ExprV::Ident { loc: _, name } => name,
        ExprV::Int { loc: _, value } => int_str(value as int),
        ExprV::Bool { loc: _, value } => if value {
            "true"@
        } else {
            "false"@
        },
        ExprV::Prefix { loc: _, operator, right } => "("@ + prefix_op_str(operator) + render_expr(
            *right,
        ) + ")"@,
        ExprV::Infix { loc: _, left, operator, right } => "("@ + render_expr(*left) + " "@
            + infix_op_str(operator) + " "@ + render_expr(*right) + ")"@,
        ExprV::If { loc: _, condition, consequence, alternative } => if alternative.len() == 0 {
            "if ("@ + render_expr(*condition) + ") "@ + render_block(consequence)
        } else {
            "if ("@ + render_expr(*condition) + ") "@ + render_block(consequence) + " else "@
                + render_block(alternative)
        },
        ExprV::FuncLiteral { loc: _, parameters, body } => "fn ("@ + render_exprs_sep(parameters)
            + ") "@ + render_block(body),
        ExprV::FuncCall { loc: _, ident, args } => render_expr(*ident) + "("@ + render_exprs_sep(
            args,
        ) + ")"@,
    }
}

/// Parenthesised rendering of a statement. An expression statement renders
/// as its expression alone.
pub open spec fn render_stmt(s: StmtV) -> Seq<char>
    decreases s, 0int,
{
    match s {
        StmtV::Let { name, expr } => "let "@ + render_expr(name) + " = "@ + render_expr(expr)
            + ";"@,
        StmtV::Return { expr } => "return "@ + render_expr(expr) + ";"@,
        StmtV::Expr { expr } => render_expr(expr),
    }
}

/// Parenthesised expressions joined by a comma and a space.
pub open spec fn render_exprs_sep(es: Seq<ExprV>) -> Seq<char>
    decreases es, 1int,
{
    if es.len() == 0 {
        Seq::empty()
    } else if es.len() == 1 {
        render_expr(es[0])
    } else {
        render_expr(es[0]) + ", "@ + render_exprs_sep(es.drop_first())
    }
}

/// A block of parenthesised statements between braces.
pub open spec fn render_block(ss: Seq<StmtV>) -> Seq<char>
    decreases ss, 2int,
{
    if ss.len() == 0 {
        "{}"@
    } else {
        "{ "@ + render_stmts_sep(ss) + " }"@
    }
}

/// Parenthesised statements joined by a single space.
pub open spec fn render_stmts_sep(ss: Seq<StmtV>) -> Seq<char>
    decreases ss, 1int,
{
    if ss.len() == 0 {
        Seq::empty()
    } else if ss.len() == 1 {
        render_stmt(ss[0])
    } else {
        render_stmt(ss[0]) + " "@ + render_stmts_sep(ss.drop_first())
    }
}

fn prefix_op_push(op: PrefixType, out: &mut String)
    ensures
        final(out)@ == old(out)@ + prefix_op_str(op),
{
    match op {
        PrefixType::Minus => out.append("-"),
        PrefixType::Bang => out.append("!"),
    }
}

pub(crate) fn infix_op_push(op: InfixType, out: &mut String)
    ensures
        final(out)@ == old(out)@ + infix_op_str(op),
{
    match op {
        InfixType::Assign => out.append("="),
        InfixType::Plus => out.append("+"),
        InfixType::Minus => out.append("-"),
        InfixType::Asterisk => out.append("*"),
        InfixType::Slash => out.append("/"),
        InfixType::Lt => out.append("<"),
        InfixType::Gt => out.append(">"),
        InfixType::Eq => out.append("=="),
        InfixType::Neq => out.append("!="),
    }
}

fn dbg_expr_push(e: &Expr, out: &mut String)
    ensures
        final(out)@ == old(out)@ + dbg_expr(e@),
    decreases e, 0int,
{
    match e {
        Expr::Ident { loc: _, name } => out.append(name.as_str()),
        Expr::Int { loc: _, value } => {
            let digits = int_string(*value);
            out.append(digits.as_str());
        },
        Expr::Bool { loc: _, value } => {
            if *value {
                out.append("true");
            } else {
                out.append("false");
            }
        },
        Expr::Prefix { loc: _, operator, right } => {
            prefix_op_push(*operator, out);
            dbg_expr_push(right, out);
            proof {
                assert(final(out)@ == old(out)@ + dbg_expr(e@));
            }
        },
        Expr::Infix { loc: _, left, operator, right } => {
            dbg_expr_push(left, out);
            out.append(" ");
            infix_op_push(*operator, out);
            out.append(" ");
            dbg_expr_push(right, out);
        },
        Expr::If { loc: _, condition, consequence, alternative } => {
            out.append("if (");
            dbg_expr_push(condition, out);
            out.append(") ");
            dbg_block_push(&consequence.0, out);
            if alternative.0.len() > 0 {
                out.append(" else ");
                dbg_block_push(&alternative.0, out);
            }
            proof {
                broadcast use lemma_stmts_view;

            }
        },
        Expr::FuncLiteral { loc: _, parameters, body } => {
            out.append("fn ");
            dbg_paren_exprs_push(&parameters.0, out);
            out.append(" ");
            dbg_block_push(&body.0, out);
        },
        Expr::FuncCall { loc: _, ident, args } => {
            dbg_expr_push(ident, out);
            dbg_paren_exprs_push(&args.0, out);
        },
    }
}

fn dbg_stmt_push(s: &Stmt, out: &mut String)
    ensures
        final(out)@ == old(out)@ + dbg_stmt(s@),
    decreases s, 0int,
{
    match s {
        Stmt::Let { name, expr } => {
            out.append("let ");
            dbg_expr_push(name, out);
            out.append(" = ");
            dbg_expr_push(expr, out);
            out.append(";");
        },
        Stmt::Return { expr } => {
            out.append("return ");
            dbg_expr_push(expr, out);
            out.append(";");
        },
        Stmt::Expr { expr } => {
            dbg_expr_push(expr, out);
            out.append(";");
        },
    }
}

fn dbg_exprs_sep_push(v: &Vec<Expr>, i: usize, out: &mut String)
    requires
        i <= v@.len(),
    ensures
        final(out)@ == old(out)@ + dbg_exprs_sep(exprs_view(v@).subrange(i as int, v@.len() as int)),
    decreases v@.subrange(i as int, v@.len() as int), 1int,
{
    proof {
        broadcast use lemma_exprs_view;

    }
    let ghost tail = exprs_view(v@).subrange(i as int, v@.len() as int);
    if i < v.len() {
        proof {
            assert(v@.subrange(i as int, v@.len() as int)[0] == v@[i as int]);
            assert(tail[0] == expr_view(v@[i as int]));
        }
        dbg_expr_push(&v[i], out);
        if i + 1 < v.len() {
            out.append(", ");
            proof {
                assert(v@.subrange(i as int, v@.len() as int).drop_first() =~= v@.subrange(
                    i as int + 1,
                    v@.len() as int,
                ));
            }
            dbg_exprs_sep_push(v, i + 1, out);
            proof {
                assert(tail.drop_first() =~= exprs_view(v@).subrange(
                    i as int + 1,
                    v@.len() as int,
                ));
            }
        }
    }
}

fn dbg_paren_exprs_push(v: &Vec<Expr>, out: &mut String)
    ensures
        final(out)@ == old(out)@ + dbg_paren_exprs(exprs_view(v@)),
    decreases v@, 2int,
{
    proof {
        broadcast use lemma_exprs_view;

        assert(v@.subrange(0, v@.len() as int) =~= v@);
    }
    out.append("(");
    dbg_exprs_sep_push(v, 0, out);
    out.append(")");
    proof {
        assert(exprs_view(v@).subrange(0, v@.len() as int) =~= exprs_view(v@));
    }
}

fn dbg_stmts_sep_push(v: &Vec<Stmt>, i: usize, out: &mut String)
    requires
        i <= v@.len(),
    ensures
        final(out)@ == old(out)@ + dbg_stmts_sep(stmts_view(v@).subrange(i as int, v@.len() as int)),
    decreases v@.subrange(i as int, v@.len() as int), 1int,
{
    proof {
        broadcast use lemma_stmts_view;

    }
    let ghost tail = stmts_view(v@).subrange(i as int, v@.len() as int);
    if i < v.len() {
        proof {
            assert(v@.subrange(i as int, v@.len() as int)[0] == v@[i as int]);
            assert(tail[0] == stmt_view(v@[i as int]));
        }
        dbg_stmt_push(&v[i], out);
        if i + 1 < v.len() {
            out.append(" ");
            proof {
                assert(v@.subrange(i as int, v@.len() as int).drop_first() =~= v@.subrange(
                    i as int + 1,
                    v@.len() as int,
                ));
            }
            dbg_stmts_sep_push(v, i + 1, out);
            proof {
                assert(tail.drop_first() =~= stmts_view(v@).subrange(
                    i as int + 1,
                    v@.len() as int,
                ));
            }
        }
    }
}

fn dbg_block_push(v: &Vec<Stmt>, out: &mut String)
    ensures
        final(out)@ == old(out)@ + dbg_block(stmts_view(v@)),
    decreases v@, 2int,
{
    proof {
        broadcast use lemma_stmts_view;

        assert(v@.subrange(0, v@.len() as int) =~= v@);
    }
    if v.len() == 0 {
        out.append("{}");
    } else {
        out.append("{ ");
        dbg_stmts_sep_push(v, 0, out);
        out.append(" }");
        proof {
            assert(stmts_view(v@).subrange(0, v@.len() as int) =~= stmts_view(v@));
        }
    }
}

fn render_expr_push(e: &Expr, out: &mut String)
    ensures
        final(out)@ == old(out)@ + render_expr(e@),
    decreases e, 0int,
{
    match e {
        Expr::Ident { loc: _, name } => out.append(name.as_str()),
        Expr::Int { loc: _, value } => {
            let digits = int_string(*value);
            out.append(digits.as_str());
        },
        Expr::Bool { loc: _, value } => {
            if *value {
                out.append("true");
            } else {
                out.append("false");
            }
        },
        Expr::Prefix { loc: _, operator, right } => {
            out.append("(");
            prefix_op_push(*operator, out);
            render_expr_push(right, out);
            out.append(")");
        },
        Expr::Infix { loc: _, left, operator, right } => {
            out.append("(");
            render_expr_push(left, out);
            out.append(" ");
            infix_op_push(*operator, out);
            out.append(" ");
            render_expr_push(right, out);
            out.append(")");
        },
        Expr::If { loc: _, condition, consequence, alternative } => {
            out.append("if (");
            render_expr_push(condition, out);
            out.append(") ");
            render_block_push(&consequence.0, out);
            if alternative.0.len() > 0 {
                out.append(" else ");
                render_block_push(&alternative.0, out);
            }
            proof {
                broadcast use lemma_stmts_view;

            }
        },
        Expr::FuncLiteral { loc: _, parameters, body } => {
            out.append("fn (");
            proof {
                assert(parameters.0@.subrange(0, parameters.0@.len() as int) =~= parameters.0@);
            }
            render_exprs_sep_push(&parameters.0, 0, out);
            out.append(") ");
            render_block_push(&body.0, out);
            proof {
                broadcast use lemma_exprs_view;

                assert(exprs_view(parameters.0@).subrange(0, parameters.0@.len() as int)
                    =~= exprs_view(parameters.0@));
            }
        },
        Expr::FuncCall { loc: _, ident, args } => {
            render_expr_push(ident, out);
            out.append("(");
            proof {
                assert(args.0@.subrange(0, args.0@.len() as int) =~= args.0@);
            }
            render_exprs_sep_push(&args.0, 0, out);
            out.append(")");
            proof {
                broadcast use lemma_exprs_view;

                assert(exprs_view(args.0@).subrange(0, args.0@.len() as int) =~= exprs_view(
                    args.0@,
                ));
            }
        },
    }
}

fn render_stmt_push(s: &Stmt, out: &mut String)
    ensures
        final(out)@ == old(out)@ + render_stmt(s@),
    decreases s, 0int,
{
    match s {
        Stmt::Let { name, expr } => {
            out.append("let ");
            render_expr_push(name, out);
            out.append(" = ");
            render_expr_push(expr, out);
            out.append(";");
        },
        Stmt::Return { expr } => {
            out.append("return ");
            render_expr_push(expr, out);
            out.append(";");
        },
        Stmt::Expr { expr } => {
            render_expr_push(expr, out);
        },
    }
}

fn render_exprs_sep_push(v: &Vec<Expr>, i: usize, out: &mut String)
    requires
        i <= v@.len(),
    ensures
        final(out)@ == old(out)@ + render_exprs_sep(
            exprs_view(v@).subrange(i as int, v@.len() as int),
        ),
    decreases v@.subrange(i as int, v@.len() as int), 1int,
{
    proof {
        broadcast use lemma_exprs_view;

    }
    let ghost tail = exprs_view(v@).subrange(i as int, v@.len() as int);
    if i < v.len() {
        proof {
            assert(v@.subrange(i as int, v@.len() as int)[0] == v@[i as int]);
            assert(tail[0] == expr_view(v@[i as int]));
        }
        render_expr_push(&v[i], out);
        if i + 1 < v.len() {
            out.append(", ");
            proof {
                assert(v@.subrange(i as int, v@.len() as int).drop_first() =~= v@.subrange(
                    i as int + 1,
                    v@.len() as int,
                ));
            }
            render_exprs_sep_push(v, i + 1, out);
            proof {
                assert(tail.drop_first() =~= exprs_view(v@).subrange(
                    i as int + 1,
                    v@.len() as int,
                ));
            }
        }
    }
}

fn render_stmts_sep_push(v: &Vec<Stmt>, i: usize, out: &mut String)
    requires
        i <= v@.len(),
    ensures
        final(out)@ == old(out)@ + render_stmts_sep(
            stmts_view(v@).subrange(i as int, v@.len() as int),
        ),
    decreases v@.subrange(i as int, v@.len() as int), 1int,
{
    proof {
        broadcast use lemma_stmts_view;

    }
    let ghost tail = stmts_view(v@).subrange(i as int, v@.len() as int);
    if i < v.len() {
        proof {
            assert(v@.subrange(i as int, v@.len() as int)[0] == v@[i as int]);
            assert(tail[0] == stmt_view(v@[i as int]));
        }
        render_stmt_push(&v[i], out);
        if i + 1 < v.len() {
            out.append(" ");
            proof {
                assert(v@.subrange(i as int, v@.len() as int).drop_first() =~= v@.subrange(
                    i as int + 1,
                    v@.len() as int,
                ));
            }
            render_stmts_sep_push(v, i + 1, out);
            proof {
                assert(tail.drop_first() =~= stmts_view(v@).subrange(
                    i as int + 1,
                    v@.len() as int,
                ));
            }
        }
    }
}

fn render_block_push(v: &Vec<Stmt>, out: &mut String)
    ensures
        final(out)@ == old(out)@ + render_block(stmts_view(v@)),
    decreases v@, 2int,
{
    proof {
        broadcast use lemma_stmts_view;

        assert(v@.subrange(0, v@.len() as int) =~= v@);
    }
    if v.len() == 0 {
        out.append("{}");
    } else {
        out.append("{ ");
        render_stmts_sep_push(v, 0, out);
        out.append(" }");
        proof {
            assert(stmts_view(v@).subrange(0, v@.len() as int) =~= stmts_view(v@));
        }
    }
}

impl Location {
    /// Renders the position as `(row, column)`.
    pub fn fmt_string(&self) -> (r: String)
        ensures
            r@ == "("@ + int_str(self.row as int) + ", "@ + int_str(self.column as int) + ")"@,
    {
        let mut out = String::from_str("(");
        let row = int_string(self.row);
        out.append(row.as_str());
        out.append(", ");
        let col = int_string(self.column);
        out.append(col.as_str());
        out.append(")");
        out
    }
}

impl Expr {
    /// Renders the expression in the compact style.
    pub fn fmt_string(&self) -> (r: String)
        ensures
            r@ == dbg_expr(self@),
    {
        let mut out = String::new();
        dbg_expr_push(self, &mut out);
        proof {
            assert(Seq::<char>::empty() + dbg_expr(self@) =~= dbg_expr(self@));
        }
        out
    }

    /// Renders the expression in the fully parenthesised style.
    pub fn render_string(&self) -> (r: String)
        ensures
            r@ == render_expr(self@),
    {
        let mut out = String::new();
        render_expr_push(self, &mut out);
        proof {
            assert(Seq::<char>::empty() + render_expr(self@) =~= render_expr(self@));
        }
        out
    }
}

impl Stmt {
    /// Renders the statement in the compact style.
    pub fn fmt_string(&self) -> (r: String)
        ensures
            r@ == dbg_stmt(self@),
    {
        let mut out = String::new();
        dbg_stmt_push(self, &mut out);
        proof {
            assert(Seq::<char>::empty() + dbg_stmt(self@) =~= dbg_stmt(self@));
        }
        out
    }

    /// Renders the statement in the fully parenthesised style.
    pub fn render_string(&self) -> (r: String)
        ensures
            r@ == render_stmt(self@),
    {
        let mut out = String::new();
        render_stmt_push(self, &mut out);
        proof {
            assert(Seq::<char>::empty() + render_stmt(self@) =~= render_stmt(self@));
        }
        out
    }
}

impl Params {
    /// Renders the parameter list as `(a, b, c)`.
    pub fn fmt_string(&self) -> (r: String)
        ensures
            r@ == dbg_paren_exprs(self@),
    {
        let mut out = String::new();
        dbg_paren_exprs_push(&self.0, &mut out);
        proof {
            assert(Seq::<char>::empty() + dbg_paren_exprs(self@) =~= dbg_paren_exprs(self@));
        }
        out
    }
}

impl Args {
    /// Renders the argument list as `(a, 2, c + 3)`.
    pub fn fmt_string(&self) -> (r: String)
        ensures
            r@ == dbg_paren_exprs(self@),
    {
        let mut out = String::new();
        dbg_paren_exprs_push(&self.0, &mut out);
        proof {
            assert(Seq::<char>::empty() + dbg_paren_exprs(self@) =~= dbg_paren_exprs(self@));
        }
        out
    }
}

impl BlockStmts {
    /// Renders the block as `{ s1 s2 }`, or `{}` when empty.
    pub fn fmt_string(&self) -> (r: String)
        ensures
            r@ == dbg_block(self@),
    {
        let mut out = String::new();
        dbg_block_push(&self.0, &mut out);
        proof {
            assert(Seq::<char>::empty() + dbg_block(self@) =~= dbg_block(self@));
        }
        out
    }
}

} // verus!
