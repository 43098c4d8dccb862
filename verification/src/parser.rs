//! The Pratt parser: precedence-climbing expression parsing over a token
//! list, statement parsing, and recovery that skips to the end of a broken
//! statement so one run can report several independent syntax errors.
//! Parsing succeeds only when no diagnostic was recorded.

use vstd::prelude::*;

use crate::ast::{Args, BlockStmts, Expr, ExprV, InfixType, Location, Params, PrefixType, Program,
    Stmt, StmtV};
use crate::strings::{int_str, int_string};
use crate::token::{token_display, token_type_code, token_type_code_string, Token, TokenType,
    TokenV};

verus! {

/// Binding power of the operators, lowest first: assignment, equality,
/// comparison, sums, products, unary prefixes, function calls.
#[derive(Clone, Copy, Debug, PartialEq, Eq, PartialOrd, Ord, Structural)]
pub enum Priority {
    Lowest,
    Assign,
    Equal,
    Compare,
    Sum,
    Product,
    Prefix,
    Call,
}

/// The numeric rank of a binding power; a larger rank binds tighter.
pub open spec fn prio_rank(p: Priority) -> int {
    match p {
        Priority::Lowest => 0,
        Priority::Assign => 1,
        Priority::Equal => 2,
        Priority::Compare => 3,
        Priority::Sum => 4,
        Priority::Product => 5,
        Priority::Prefix => 6,
        Priority::Call => 7,
    }
}

impl Priority {
    /// The numeric rank, for comparing binding powers.
    pub fn rank(self) -> (r: u8)
        ensures
            r as int == prio_rank(self),
    {
        match self {
            Priority::Lowest => 0,
            Priority::Assign => 1,
            Priority::Equal => 2,
            Priority::Compare => 3,
            Priority::Sum => 4,
            Priority::Product => 5,
            Priority::Prefix => 6,
            Priority::Call => 7,
        }
    }
}

/// The binding power of the token kind when it stands between operands;
/// kinds outside the table bind lowest.
pub open spec fn s_precedence_of(tt: TokenType) -> Priority {
    match tt {
        TokenType::Assign => Priority::Assign,
        TokenType::Eq => Priority::Equal,
        TokenType::Neq => Priority::Equal,
        TokenType::Lt => Priority::Compare,
        TokenType::Gt => Priority::Compare,
        TokenType::Plus => Priority::Sum,
        TokenType::Minus => Priority::Sum,
        TokenType::Slash => Priority::Product,
        TokenType::Asterisk => Priority::Product,
        TokenType::Lparen => Priority::Call,
        _ => Priority::Lowest,
    }
}

/// Looks up the binding power of a token kind.
pub fn precedence_of(tt: TokenType) -> (p: Priority)
    ensures
        p == s_precedence_of(tt),
{
    match tt {
        TokenType::Assign => Priority::Assign,
        TokenType::Eq => Priority::Equal,
        TokenType::Neq => Priority::Equal,
        TokenType::Lt => Priority::Compare,
        TokenType::Gt => Priority::Compare,
        TokenType::Plus => Priority::Sum,
        TokenType::Minus => Priority::Sum,
        TokenType::Slash => Priority::Product,
        TokenType::Asterisk => Priority::Product,
        TokenType::Lparen => Priority::Call,
        _ => Priority::Lowest,
    }
}

/// Whether a prefix parse rule exists for the token kind.
pub open spec fn has_prefix_handler(tt: TokenType) -> bool {
    match tt {
        TokenType::Ident | TokenType::Int | TokenType::Bang | TokenType::Minus | TokenType::True
            | TokenType::False | TokenType::Lparen | TokenType::If | TokenType::Func => true,
        _ => false,
    }
}

/// Whether an infix parse rule exists for the token kind; the call rule
/// hangs on the opening parenthesis.
pub open spec fn has_infix_handler(tt: TokenType) -> bool {
    match tt {
        TokenType::Plus | TokenType::Minus | TokenType::Asterisk | TokenType::Slash
            | TokenType::Lt | TokenType::Gt | TokenType::Eq | TokenType::Neq | TokenType::Assign
            | TokenType::Lparen => true,
        _ => false,
    }
}

/// The binary operator a token kind stands for.
pub open spec fn s_token_infix(tt: TokenType) -> InfixType {
    match tt {
        TokenType::Assign => InfixType::Assign,
        TokenType::Plus => InfixType::Plus,
        TokenType::Minus => InfixType::Minus,
        TokenType::Asterisk => InfixType::Asterisk,
        TokenType::Slash => InfixType::Slash,
        TokenType::Lt => InfixType::Lt,
        TokenType::Gt => InfixType::Gt,
        TokenType::Eq => InfixType::Eq,
        _ => InfixType::Neq,
    }
}

/// The token at position `i`, or the end marker once past the list.
pub open spec fn tok_at(toks: Seq<TokenV>, i: int) -> TokenV {
    if 0 <= i < toks.len() {
        toks[i]
    } else {
        TokenV { token_type: TokenType::Eof, literal: "\u{0}"@, row: 0, column: 0 }
    }
}

/// A diagnostic line: position, stable code, message, and the token found.
pub open spec fn s_diag(t: TokenV, code: Seq<char>, msg: Seq<char>) -> Seq<char> {
    "Line "@ + int_str(t.row as int) + ":"@ + int_str(t.column as int) + " "@ + code + " - "@ + msg
        + ", found "@ + token_display(t)
}

/// The message of a diagnostic that expected one particular token kind.
pub open spec fn s_expected_msg(tt: TokenType) -> Seq<char> {
    "expected "@ + token_type_code(tt)
}

/// The position of the token's start, as the tree records it.
pub open spec fn loc_of(t: TokenV) -> Location {
    Location { row: t.row, column: t.column }
}

/// One partial parse: the parsed piece if the rule succeeded, the position
/// after it, and the diagnostics it recorded.
#[verifier::ext_equal]
pub struct PRes<T> {
    pub ok: Option<T>,
    pub next: int,
    pub errs: Seq<Seq<char>>,
}

/// A failed partial parse: one diagnostic at the current token, which is
/// not consumed.
pub open spec fn s_fail<T>(toks: Seq<TokenV>, i: int, code: Seq<char>, msg: Seq<char>) -> PRes<
    T,
> {
    PRes { ok: Option::None, next: i, errs: seq![s_diag(tok_at(toks, i), code, msg)] }
}

pub open spec fn digit_of(c: char) -> int {
    if c == '0' {
        0
    } else if c == '1' {
        1
    } else if c == '2' {
        2
    } else if c == '3' {
        3
    } else if c == '4' {
        4
    } else if c == '5' {
        5
    } else if c == '6' {
        6
    } else if c == '7' {
        7
    } else if c == '8' {
        8
    } else {
        9
    }
}

pub open spec fn all_digits(s: Seq<char>) -> bool {
    forall|j: int| 0 <= j < s.len() ==> crate::lexer::is_digit_c(#[trigger] s[j])
}

/// The numeric value of a digit string, most significant digit first.
pub open spec fn digits_val(s: Seq<char>) -> int
    decreases s,
{
    if s.len() == 0 {
        0
    } else {
        digits_val(s.drop_last()) * 10 + digit_of(s.last())
    }
}

/// An identifier expression: the current token must be an identifier, and
/// becomes an `Ident` node carrying its text and position.
pub open spec fn s_parse_ident(toks: Seq<TokenV>, i: int) -> PRes<ExprV>
    decreases toks.len() - i, 0int,
{
    let t = tok_at(toks, i);
    if t.token_type == TokenType::Ident {
        PRes {
            ok: Option::Some(ExprV::Ident { loc: loc_of(t), name: t.literal }),
            next: i + 1,
            errs: Seq::empty(),
        }
    } else {
        s_fail(toks, i, "PAR:3011"@, s_expected_msg(TokenType::Ident))
    }
}

/// An integer literal: the token's digits read as a 64-bit value; digits
/// that do not fit, or a literal that is not all digits, are a diagnostic.
pub open spec fn s_parse_int(toks: Seq<TokenV>, i: int) -> PRes<ExprV>
    decreases toks.len() - i, 0int,
{
    let t = tok_at(toks, i);
    if t.token_type == TokenType::Int {
        if all_digits(t.literal) && t.literal.len() > 0 && digits_val(t.literal) <= i64::MAX {
            PRes {
                ok: Option::Some(
                    ExprV::Int { loc: loc_of(t), value: digits_val(t.literal) as i64 },
                ),
                next: i + 1,
                errs: Seq::empty(),
            }
        } else {
            s_fail(toks, i, "PAR:3012"@, "Cannot parse integer"@)
        }
    } else {
        s_fail(toks, i, "PAR:3012"@, s_expected_msg(TokenType::Int))
    }
}

/// A boolean literal.
pub open spec fn s_parse_bool(toks: Seq<TokenV>, i: int) -> PRes<ExprV>
    decreases toks.len() - i, 0int,
{
    let t = tok_at(toks, i);
    if t.token_type == TokenType::True || t.token_type == TokenType::False {
        PRes {
            ok: Option::Some(
                ExprV::Bool { loc: loc_of(t), value: t.token_type == TokenType::True },
            ),
            next: i + 1,
            errs: Seq::empty(),
        }
    } else {
        s_fail(toks, i, "PAR:3013"@, "expected Boolean"@)
    }
}

/// A unary operation: the operator, then its operand parsed at prefix
/// binding power.
pub open spec fn s_parse_prefix_expr(toks: Seq<TokenV>, i: int) -> PRes<ExprV>
    decreases toks.len() - i, 0int,
{
    let t = tok_at(toks, i);
    if t.token_type == TokenType::Minus || t.token_type == TokenType::Bang {
        let op = if t.token_type == TokenType::Minus {
            PrefixType::Minus
        } else {
            PrefixType::Bang
        };
        let r = s_parse_expr(toks, i + 1, Priority::Prefix);
        match r.ok {
            Option::Some(right) => PRes {
                ok: Option::Some(
                    ExprV::Prefix { loc: loc_of(t), operator: op, right: Box::new(right) },
                ),
                next: r.next,
                errs: r.errs,
            },
            Option::None => PRes { ok: Option::None, next: r.next, errs: r.errs },
        }
    } else {
        s_fail(toks, i, "PAR:3021"@, "expected Prefix Operator"@)
    }
}

/// A parenthesised expression: the parentheses group and are not recorded
/// in the tree.
pub open spec fn s_parse_grouped(toks: Seq<TokenV>, i: int) -> PRes<ExprV>
    decreases toks.len() - i, 0int,
{
    if tok_at(toks, i).token_type == TokenType::Lparen {
        let r = s_parse_expr(toks, i + 1, Priority::Lowest);
        match r.ok {
            Option::Some(e) => {
                if tok_at(toks, r.next).token_type == TokenType::Rparen {
                    PRes { ok: Option::Some(e), next: r.next + 1, errs: r.errs }
                } else {
                    PRes {
                        ok: Option::None,
                        next: r.next,
                        errs: r.errs + seq![
                            s_diag(
                                tok_at(toks, r.next),
                                "PAR:3032"@,
                                s_expected_msg(TokenType::Rparen),
                            ),
                        ],
                    }
                }
            },
            Option::None => r,
        }
    } else {
        s_fail(toks, i, "PAR:3031"@, s_expected_msg(TokenType::Lparen))
    }
}

/// An `if` expression: a parenthesised condition, a consequence block, and
/// an optional `else` block; a missing `else` leaves an empty alternative.
pub open spec fn s_parse_if(toks: Seq<TokenV>, i: int) -> PRes<ExprV>
    decreases toks.len() - i, 0int,
{
    let t = tok_at(toks, i);
    if t.token_type != TokenType::If {
        s_fail(toks, i, "PAR:3041"@, s_expected_msg(TokenType::If))
    } else if tok_at(toks, i + 1).token_type != TokenType::Lparen {
        PRes {
            ok: Option::None,
            next: i + 1,
            errs: seq![
                s_diag(tok_at(toks, i + 1), "PAR:3042"@, s_expected_msg(TokenType::Lparen)),
            ],
        }
    } else {
        let c = s_parse_expr(toks, i + 2, Priority::Lowest);
        match c.ok {
            Option::None => c,
            Option::Some(cond) => {
                if !(i + 2 <= c.next <= toks.len()) {
                    PRes { ok: Option::None, next: c.next, errs: c.errs }
                } else {
                    let rest = s_if_blocks(toks, c.next, loc_of(t), cond);
                    PRes { ok: rest.ok, next: rest.next, errs: c.errs + rest.errs }
                }
            },
        }
    }
}

/// The rest of an `if` after its condition: the closing parenthesis, the
/// consequence block, and the optional `else` block.
pub open spec fn s_if_blocks(toks: Seq<TokenV>, j: int, loc: Location, cond: ExprV) -> PRes<ExprV>
    decreases toks.len() - j, 1int,
{
    if tok_at(toks, j).token_type != TokenType::Rparen {
        s_fail(toks, j, "PAR:3043"@, s_expected_msg(TokenType::Rparen))
    } else {
        let cons = s_parse_block(toks, j + 1);
        match cons.ok {
            Option::None => PRes { ok: Option::None, next: cons.next, errs: cons.errs },
            Option::Some(consequence) => {
                if tok_at(toks, cons.next).token_type == TokenType::Else {
                    if !(j < cons.next + 1 <= toks.len()) {
                        PRes { ok: Option::None, next: cons.next, errs: cons.errs }
                    } else {
                        let alt = s_parse_block(toks, cons.next + 1);
                        match alt.ok {
                            Option::None => PRes {
                                ok: Option::None,
                                next: alt.next,
                                errs: cons.errs + alt.errs,
                            },
                            Option::Some(alternative) => PRes {
                                ok: Option::Some(
                                    ExprV::If {
                                        loc,
                                        condition: Box::new(cond),
                                        consequence,
                                        alternative,
                                    },
                                ),
                                next: alt.next,
                                errs: cons.errs + alt.errs,
                            },
                        }
                    }
                } else {
                    PRes {
                        ok: Option::Some(
                            ExprV::If {
                                loc,
                                condition: Box::new(cond),
                                consequence,
                                alternative: Seq::empty(),
                            },
                        ),
                        next: cons.next,
                        errs: cons.errs,
                    }
                }
            },
        }
    }
}

/// A function literal: `fn`, a parameter list, and a body block.
pub open spec fn s_parse_func_literal(toks: Seq<TokenV>, i: int) -> PRes<ExprV>
    decreases toks.len() - i, 0int,
{
    let t = tok_at(toks, i);
    if t.token_type != TokenType::Func {
        s_fail(toks, i, "PAR:3081"@, s_expected_msg(TokenType::Func))
    } else {
        let ps = s_parse_func_params(toks, i + 1);
        match ps.ok {
            Option::None => PRes { ok: Option::None, next: ps.next, errs: ps.errs },
            Option::Some(parameters) => {
                if !(i < ps.next <= toks.len()) {
                    PRes { ok: Option::None, next: ps.next, errs: ps.errs }
                } else {
                    let body = s_parse_block(toks, ps.next);
                    match body.ok {
                        Option::None => PRes {
                            ok: Option::None,
                            next: body.next,
                            errs: ps.errs + body.errs,
                        },
                        Option::Some(b) => PRes {
                            ok: Option::Some(
                                ExprV::FuncLiteral { loc: loc_of(t), parameters, body: b },
                            ),
                            next: body.next,
                            errs: ps.errs + body.errs,
                        },
                    }
                }
            },
        }
    }
}

/// A parameter list: parenthesised identifiers, each after the first
/// preceded by exactly one comma; `()` is legal.
pub open spec fn s_parse_func_params(toks: Seq<TokenV>, i: int) -> PRes<Seq<ExprV>>
    decreases toks.len() - i, 0int,
{
    if tok_at(toks, i).token_type != TokenType::Lparen {
        s_fail(toks, i, "PAR:3085"@, s_expected_msg(TokenType::Lparen))
    } else if tok_at(toks, i + 1).token_type == TokenType::Rparen {
        PRes { ok: Option::Some(Seq::empty()), next: i + 2, errs: Seq::empty() }
    } else {
        let first = s_parse_ident(toks, i + 1);
        match first.ok {
            Option::None => PRes { ok: Option::None, next: first.next, errs: first.errs },
            Option::Some(p0) => {
                if i < first.next <= toks.len() {
                    let rest = s_params_loop(toks, first.next, seq![p0]);
                    PRes { ok: rest.ok, next: rest.next, errs: first.errs + rest.errs }
                } else {
                    PRes { ok: Option::None, next: first.next, errs: first.errs }
                }
            },
        }
    }
}

/// The tail of a parameter list: a closing parenthesis ends it, a comma
/// introduces the next identifier.
pub open spec fn s_params_loop(toks: Seq<TokenV>, i: int, acc: Seq<ExprV>) -> PRes<Seq<ExprV>>
    decreases toks.len() - i, 2int,
{
    if tok_at(toks, i).token_type == TokenType::Rparen {
        PRes { ok: Option::Some(acc), next: i + 1, errs: Seq::empty() }
    } else if tok_at(toks, i).token_type != TokenType::Comma {
        s_fail(toks, i, "PAR:3086"@, s_expected_msg(TokenType::Comma))
    } else {
        let p = s_parse_ident(toks, i + 1);
        match p.ok {
            Option::None => PRes { ok: Option::None, next: p.next, errs: p.errs },
            Option::Some(pn) => {
                if i < p.next <= toks.len() {
                    let rest = s_params_loop(toks, p.next, acc.push(pn));
                    PRes { ok: rest.ok, next: rest.next, errs: p.errs + rest.errs }
                } else {
                    PRes { ok: Option::None, next: p.next, errs: p.errs }
                }
            },
        }
    }
}

/// An argument list: parenthesised expressions, each after the first
/// preceded by exactly one comma; `()` is legal.
pub open spec fn s_parse_func_args(toks: Seq<TokenV>, i: int) -> PRes<Seq<ExprV>>
    decreases toks.len() - i, 0int,
{
    if tok_at(toks, i).token_type != TokenType::Lparen {
        s_fail(toks, i, "PAR:3095"@, s_expected_msg(TokenType::Lparen))
    } else if tok_at(toks, i + 1).token_type == TokenType::Rparen {
        PRes { ok: Option::Some(Seq::empty()), next: i + 2, errs: Seq::empty() }
    } else {
        let first = s_parse_expr(toks, i + 1, Priority::Lowest);
        match first.ok {
            Option::None => PRes { ok: Option::None, next: first.next, errs: first.errs },
            Option::Some(a0) => {
                if i < first.next <= toks.len() {
                    let rest = s_args_loop(toks, first.next, seq![a0]);
                    PRes { ok: rest.ok, next: rest.next, errs: first.errs + rest.errs }
                } else {
                    PRes { ok: Option::None, next: first.next, errs: first.errs }
                }
            },
        }
    }
}

/// The tail of an argument list.
pub open spec fn s_args_loop(toks: Seq<TokenV>, i: int, acc: Seq<ExprV>) -> PRes<Seq<ExprV>>
    decreases toks.len() - i, 2int,
{
    if tok_at(toks, i).token_type == TokenType::Rparen {
        PRes { ok: Option::Some(acc), next: i + 1, errs: Seq::empty() }
    } else if tok_at(toks, i).token_type != TokenType::Comma {
        s_fail(toks, i, "PAR:3096"@, s_expected_msg(TokenType::Comma))
    } else {
        let a = s_parse_expr(toks, i + 1, Priority::Lowest);
        match a.ok {
            Option::None => PRes { ok: Option::None, next: a.next, errs: a.errs },
            Option::Some(an) => {
                if i < a.next <= toks.len() {
                    let rest = s_args_loop(toks, a.next, acc.push(an));
                    PRes { ok: rest.ok, next: rest.next, errs: a.errs + rest.errs }
                } else {
                    PRes { ok: Option::None, next: a.next, errs: a.errs }
                }
            },
        }
    }
}

/// A binary operation: the operator in hand, then its right operand at the
/// operator's own binding power, which makes equal powers associate left.
pub open spec fn s_parse_infix_expr(toks: Seq<TokenV>, i: int, left: ExprV) -> PRes<ExprV>
    decreases toks.len() - i, 0int,
{
    let t = tok_at(toks, i);
    if has_infix_handler(t.token_type) && t.token_type != TokenType::Lparen {
        let op = s_token_infix(t.token_type);
        let r = s_parse_expr(toks, i + 1, s_precedence_of(t.token_type));
        match r.ok {
            Option::Some(right) => PRes {
                ok: Option::Some(
                    ExprV::Infix {
                        loc: loc_of(t),
                        left: Box::new(left),
                        operator: op,
                        right: Box::new(right),
                    },
                ),
                next: r.next,
                errs: r.errs,
            },
            Option::None => PRes { ok: Option::None, next: r.next, errs: r.errs },
        }
    } else {
        s_fail(toks, i, "PAR:3022"@, "expected Infix Operator"@)
    }
}

/// A call: the callee already parsed, then the argument list.
pub open spec fn s_parse_func_call(toks: Seq<TokenV>, i: int, left: ExprV) -> PRes<ExprV>
    decreases toks.len() - i, 1int,
{
    let t = tok_at(toks, i);
    if t.token_type != TokenType::Lparen {
        s_fail(toks, i, "PAR:3091"@, s_expected_msg(TokenType::Lparen))
    } else {
        let a = s_parse_func_args(toks, i);
        match a.ok {
            Option::None => PRes { ok: Option::None, next: a.next, errs: a.errs },
            Option::Some(args) => PRes {
                ok: Option::Some(
                    ExprV::FuncCall { loc: loc_of(t), ident: Box::new(left), args },
                ),
                next: a.next,
                errs: a.errs,
            },
        }
    }
}

/// The infix walk: while the token in hand binds tighter than the
/// threshold, its rule extends the left-hand expression; a token without a
/// rule simply ends the walk.
pub open spec fn s_infix_loop(toks: Seq<TokenV>, i: int, min: Priority, left: ExprV) -> PRes<
    ExprV,
>
    decreases toks.len() - i, 2int,
{
    let tt = tok_at(toks, i).token_type;
    if prio_rank(min) < prio_rank(s_precedence_of(tt)) {
        if has_infix_handler(tt) {
            let r = if tt == TokenType::Lparen {
                s_parse_func_call(toks, i, left)
            } else {
                s_parse_infix_expr(toks, i, left)
            };
            match r.ok {
                Option::None => PRes { ok: Option::None, next: r.next, errs: r.errs },
                Option::Some(bigger) => {
                    if i < r.next <= toks.len() {
                        let rest = s_infix_loop(toks, r.next, min, bigger);
                        PRes { ok: rest.ok, next: rest.next, errs: r.errs + rest.errs }
                    } else {
                        PRes { ok: Option::Some(bigger), next: r.next, errs: r.errs }
                    }
                },
            }
        } else {
            PRes { ok: Option::Some(left), next: i, errs: Seq::empty() }
        }
    } else {
        PRes { ok: Option::Some(left), next: i, errs: Seq::empty() }
    }
}

/// An expression at a binding-power threshold: a prefix rule gives the
/// initial expression (a missing rule is the diagnostic that names the
/// unexpected token), then the infix walk extends it.
pub open spec fn s_parse_expr(toks: Seq<TokenV>, i: int, min: Priority) -> PRes<ExprV>
    decreases toks.len() - i, 1int,
{
    let tt = tok_at(toks, i).token_type;
    let left = if tt == TokenType::Ident {
        s_parse_ident(toks, i)
    } else if tt == TokenType::Int {
        s_parse_int(toks, i)
    } else if tt == TokenType::Bang || tt == TokenType::Minus {
        s_parse_prefix_expr(toks, i)
    } else if tt == TokenType::True || tt == TokenType::False {
        s_parse_bool(toks, i)
    } else if tt == TokenType::Lparen {
        s_parse_grouped(toks, i)
    } else if tt == TokenType::If {
        s_parse_if(toks, i)
    } else if tt == TokenType::Func {
        s_parse_func_literal(toks, i)
    } else {
        s_fail(toks, i, "PAR:3001"@, "Cannot parse prefix"@)
    };
    match left.ok {
        Option::None => left,
        Option::Some(l) => {
            if i < left.next <= toks.len() {
                let rest = s_infix_loop(toks, left.next, min, l);
                PRes { ok: rest.ok, next: rest.next, errs: left.errs + rest.errs }
            } else {
                left
            }
        },
    }
}

/// A statement: `let`, `return`, or a bare expression.
pub open spec fn s_parse_stmt(toks: Seq<TokenV>, i: int) -> PRes<StmtV>
    decreases toks.len() - i, 4int,
{
    let tt = tok_at(toks, i).token_type;
    if tt == TokenType::Let {
        s_parse_let(toks, i)
    } else if tt == TokenType::Return {
        s_parse_return(toks, i)
    } else {
        s_parse_expr_stmt(toks, i)
    }
}

/// The position after an optional terminating semicolon.
pub open spec fn skip_opt_semi(toks: Seq<TokenV>, i: int) -> int {
    if tok_at(toks, i).token_type == TokenType::Semicolon {
        i + 1
    } else {
        i
    }
}

/// A `let` statement: the keyword, a name, `=`, the bound expression, and
/// an optional semicolon.
pub open spec fn s_parse_let(toks: Seq<TokenV>, i: int) -> PRes<StmtV>
    decreases toks.len() - i, 3int,
{
    if tok_at(toks, i).token_type != TokenType::Let {
        s_fail(toks, i, "PAR:2011"@, s_expected_msg(TokenType::Let))
    } else {
        let name = s_parse_ident(toks, i + 1);
        match name.ok {
            Option::None => PRes { ok: Option::None, next: name.next, errs: name.errs },
            Option::Some(n) => {
                if tok_at(toks, name.next).token_type != TokenType::Assign {
                    PRes {
                        ok: Option::None,
                        next: name.next,
                        errs: name.errs + seq![
                            s_diag(
                                tok_at(toks, name.next),
                                "PAR:2012"@,
                                s_expected_msg(TokenType::Assign),
                            ),
                        ],
                    }
                } else if !(i < name.next + 1 <= toks.len()) {
                    PRes { ok: Option::None, next: name.next, errs: name.errs }
                } else {
                    let e = s_parse_expr(toks, name.next + 1, Priority::Lowest);
                    match e.ok {
                        Option::None => PRes {
                            ok: Option::None,
                            next: e.next,
                            errs: name.errs + e.errs,
                        },
                        Option::Some(expr) => PRes {
                            ok: Option::Some(StmtV::Let { name: n, expr }),
                            next: skip_opt_semi(toks, e.next),
                            errs: name.errs + e.errs,
                        },
                    }
                }
            },
        }
    }
}

/// A `return` statement: the keyword, the returned expression, and an
/// optional semicolon.
pub open spec fn s_parse_return(toks: Seq<TokenV>, i: int) -> PRes<StmtV>
    decreases toks.len() - i, 3int,
{
    if tok_at(toks, i).token_type != TokenType::Return {
        s_fail(toks, i, "PAR:2021"@, s_expected_msg(TokenType::Return))
    } else {
        let e = s_parse_expr(toks, i + 1, Priority::Lowest);
        match e.ok {
            Option::None => PRes { ok: Option::None, next: e.next, errs: e.errs },
            Option::Some(expr) => PRes {
                ok: Option::Some(StmtV::Return { expr }),
                next: skip_opt_semi(toks, e.next),
                errs: e.errs,
            },
        }
    }
}

/// A bare expression statement, with an optional semicolon.
pub open spec fn s_parse_expr_stmt(toks: Seq<TokenV>, i: int) -> PRes<StmtV>
    decreases toks.len() - i, 3int,
{
    let e = s_parse_expr(toks, i, Priority::Lowest);
    match e.ok {
        Option::None => PRes { ok: Option::None, next: e.next, errs: e.errs },
        Option::Some(expr) => PRes {
            ok: Option::Some(StmtV::Expr { expr }),
            next: skip_opt_semi(toks, e.next),
            errs: e.errs,
        },
    }
}

/// Recovery: skip forward to just past the next semicolon, or to the end
/// of the input.
pub open spec fn s_skip_stmt(toks: Seq<TokenV>, i: int) -> int
    decreases toks.len() - i,
{
    let tt = tok_at(toks, i).token_type;
    if tt == TokenType::Semicolon {
        i + 1
    } else if tt == TokenType::Eof {
        i
    } else {
        s_skip_stmt(toks, i + 1)
    }
}

/// The position after any run of stray semicolons.
pub open spec fn s_skip_semis(toks: Seq<TokenV>, i: int) -> int
    decreases toks.len() - i,
{
    if tok_at(toks, i).token_type == TokenType::Semicolon {
        s_skip_semis(toks, i + 1)
    } else {
        i
    }
}

/// The statements of a program: each statement parsed in turn; a broken
/// one is skipped past its semicolon and left out, its diagnostic kept.
pub open spec fn s_program_loop(toks: Seq<TokenV>, i: int, acc: Seq<StmtV>) -> (Seq<StmtV>, Seq<
    Seq<char>,
>)
    decreases toks.len() - i, 5int,
{
    if tok_at(toks, i).token_type == TokenType::Eof {
        (acc, Seq::empty())
    } else {
        let j = s_skip_semis(toks, i);
        if !(i <= j <= toks.len()) {
            (acc, Seq::empty())
        } else {
            let st = s_parse_stmt(toks, j);
            match st.ok {
                Option::Some(stmt) => {
                    if i < st.next <= toks.len() {
                        let rest = s_program_loop(toks, st.next, acc.push(stmt));
                        (rest.0, st.errs + rest.1)
                    } else {
                        (acc.push(stmt), st.errs)
                    }
                },
                Option::None => {
                    let k = s_skip_stmt(toks, st.next);
                    if i < k <= toks.len() {
                        let rest = s_program_loop(toks, k, acc);
                        (rest.0, st.errs + rest.1)
                    } else {
                        (acc, st.errs)
                    }
                },
            }
        }
    }
}

/// The statements of a `{ ... }` block, up to the closing brace; recovery
/// works as at program level, and a missing closing brace is a diagnostic
/// at the end of the input.
pub open spec fn s_block_loop(toks: Seq<TokenV>, i: int, acc: Seq<StmtV>) -> PRes<Seq<StmtV>>
    decreases toks.len() - i, 5int,
{
    let tt = tok_at(toks, i).token_type;
    if tt == TokenType::Rbrace {
        PRes { ok: Option::Some(acc), next: i + 1, errs: Seq::empty() }
    } else if tt == TokenType::Eof {
        s_fail(toks, i, "PAR:2002"@, s_expected_msg(TokenType::Rbrace))
    } else {
        let j = s_skip_semis(toks, i);
        if !(i <= j <= toks.len()) {
            PRes { ok: Option::None, next: i, errs: Seq::empty() }
        } else {
            let st = s_parse_stmt(toks, j);
            match st.ok {
                Option::Some(stmt) => {
                    if i < st.next <= toks.len() {
                        let rest = s_block_loop(toks, st.next, acc.push(stmt));
                        PRes { ok: rest.ok, next: rest.next, errs: st.errs + rest.errs }
                    } else {
                        PRes { ok: Option::None, next: st.next, errs: st.errs }
                    }
                },
                Option::None => {
                    let k = s_skip_stmt(toks, st.next);
                    if i < k <= toks.len() {
                        let rest = s_block_loop(toks, k, acc);
                        PRes { ok: rest.ok, next: rest.next, errs: st.errs + rest.errs }
                    } else {
                        PRes { ok: Option::None, next: k, errs: st.errs }
                    }
                },
            }
        }
    }
}

/// A block: the opening brace, the statements, the closing brace.
pub open spec fn s_parse_block(toks: Seq<TokenV>, i: int) -> PRes<Seq<StmtV>>
    decreases toks.len() - i, 6int,
{
    if tok_at(toks, i).token_type != TokenType::Lbrace {
        s_fail(toks, i, "PAR:2001"@, s_expected_msg(TokenType::Lbrace))
    } else {
        s_block_loop(toks, i + 1, Seq::empty())
    }
}

/// The end-of-input token the parser appends before it starts.
pub open spec fn eof_tv() -> TokenV {
    TokenV { token_type: TokenType::Eof, literal: "\u{0}"@, row: 0, column: 0 }
}

/// The whole parse of a token list: the statements parsed and the
/// diagnostics recorded, in source order.
#[verifier::opaque]
pub open spec fn s_parse(toks: Seq<TokenV>) -> (Seq<StmtV>, Seq<Seq<char>>) {
    s_program_loop(toks.push(eof_tv()), 0, Seq::empty())
}

/// The views of recorded diagnostics.
pub open spec fn errs_view(es: Seq<String>) -> Seq<Seq<char>> {
    es.map_values(|s: String| s@)
}

proof fn lemma_cat_assoc(a: Seq<Seq<char>>, b: Seq<Seq<char>>, c: Seq<Seq<char>>)
    ensures
        (a + b) + c == a + (b + c),
{
    assert((a + b) + c =~= a + (b + c));
}

proof fn lemma_cat_empty(a: Seq<Seq<char>>)
    ensures
        a + Seq::<Seq<char>>::empty() == a,
        Seq::<Seq<char>>::empty() + a == a,
{
    assert(a + Seq::<Seq<char>>::empty() =~= a);
    assert(Seq::<Seq<char>>::empty() + a =~= a);
}

/// The parser: the token list with the end marker appended, the reading
/// position, and the diagnostics recorded so far.
pub struct Parser {
    pub tokens: Vec<Token>,
    pub idx: usize,
    pub errors: Vec<String>,
}

/// The views of the parser's tokens.
pub open spec fn toksv(p: Parser) -> Seq<TokenV> {
    crate::lexer::tokens_view(p.tokens@)
}

/// The parser's reading position never passes the end of the list.
pub open spec fn p_wf(p: Parser) -> bool {
    p.idx <= p.tokens@.len()
}

proof fn lemma_digits_prefix(s: Seq<char>, k: int)
    requires
        all_digits(s),
        0 <= k <= s.len(),
    ensures
        0 <= digits_val(s.subrange(0, k)),
        digits_val(s.subrange(0, k)) <= digits_val(s),
    decreases s.len() - k,
{
    if k == s.len() {
        assert(s.subrange(0, k) =~= s);
        lemma_digits_nonneg(s);
    } else {
        lemma_digits_prefix(s, k + 1);
        lemma_digits_nonneg(s.subrange(0, k));
        assert(s.subrange(0, k + 1).drop_last() =~= s.subrange(0, k));
        assert(s.subrange(0, k + 1).last() == s[k]);
    }
}

proof fn lemma_digits_nonneg(s: Seq<char>)
    requires
        all_digits(s),
    ensures
        digits_val(s) >= 0,
    decreases s,
{
    if s.len() > 0 {
        assert(all_digits(s.drop_last()));
        lemma_digits_nonneg(s.drop_last());
    }
}

fn is_infix_kind(tt: TokenType) -> (r: bool)
    ensures
        r == has_infix_handler(tt),
{
    match tt {
        TokenType::Plus | TokenType::Minus | TokenType::Asterisk | TokenType::Slash
            | TokenType::Lt | TokenType::Gt | TokenType::Eq | TokenType::Neq | TokenType::Assign
            | TokenType::Lparen => true,
        _ => false,
    }
}

fn token_infix(tt: TokenType) -> (op: InfixType)
    ensures
        op == s_token_infix(tt),
{
    match tt {
        TokenType::Assign => InfixType::Assign,
        TokenType::Plus => InfixType::Plus,
        TokenType::Minus => InfixType::Minus,
        TokenType::Asterisk => InfixType::Asterisk,
        TokenType::Slash => InfixType::Slash,
        TokenType::Lt => InfixType::Lt,
        TokenType::Gt => InfixType::Gt,
        TokenType::Eq => InfixType::Eq,
        _ => InfixType::Neq,
    }
}

fn digit_value(c: char) -> (d: u64)
    requires
        crate::lexer::is_digit_c(c),
    ensures
        d as int == digit_of(c),
        d <= 9,
{
    if c == '0' {
        0
    } else if c == '1' {
        1
    } else if c == '2' {
        2
    } else if c == '3' {
        3
    } else if c == '4' {
        4
    } else if c == '5' {
        5
    } else if c == '6' {
        6
    } else if c == '7' {
        7
    } else if c == '8' {
        8
    } else {
        9
    }
}

impl Parser {
    fn curr_type(&self) -> (tt: TokenType)
        requires
            p_wf(*self),
        ensures
            tt == tok_at(toksv(*self), self.idx as int).token_type,
    {
        if self.idx < self.tokens.len() {
            self.tokens[self.idx].token_type
        } else {
            TokenType::Eof
        }
    }

    fn consume_token(&mut self)
        requires
            p_wf(*old(self)),
            old(self).idx < old(self).tokens@.len(),
        ensures
            p_wf(*final(self)),
            final(self).tokens == old(self).tokens,
            final(self).errors == old(self).errors,
            final(self).idx == old(self).idx + 1,
    {
        let n = self.tokens.len();
        if self.idx < n {
            self.idx = self.idx + 1;
        }
    }

    fn curr_loc(&self) -> (l: Location)
        requires
            p_wf(*self),
        ensures
            l == loc_of(tok_at(toksv(*self), self.idx as int)),
    {
        if self.idx < self.tokens.len() {
            let t = &self.tokens[self.idx];
            Location { row: t.row, column: t.column }
        } else {
            Location { row: 0, column: 0 }
        }
    }

    /// Records one diagnostic at the current token, which is not consumed.
    fn raise_err(&mut self, code: &str, msg: &str)
        requires
            p_wf(*old(self)),
        ensures
            p_wf(*final(self)),
            final(self).tokens == old(self).tokens,
            final(self).idx == old(self).idx,
            errs_view(final(self).errors@) == errs_view(old(self).errors@) + seq![
                s_diag(tok_at(toksv(*old(self)), old(self).idx as int), code@, msg@),
            ],
    {
        let found = if self.idx < self.tokens.len() {
            self.tokens[self.idx].display_string()
        } else {
            let eof = Token::new(TokenType::Eof, "\u{0}", 0, 0);
            eof.display_string()
        };
        let (row, column): (i64, i64) = if self.idx < self.tokens.len() {
            (self.tokens[self.idx].row, self.tokens[self.idx].column)
        } else {
            (0, 0)
        };
        let mut m = String::from_str("Line ");
        let rs = int_string(row);
        m.append(rs.as_str());
        m.append(":");
        let cs = int_string(column);
        m.append(cs.as_str());
        m.append(" ");
        m.append(code);
        m.append(" - ");
        m.append(msg);
        m.append(", found ");
        m.append(found.as_str());
        self.errors.push(m);
        proof {
            assert(errs_view(self.errors@) =~= errs_view(old(self).errors@) + seq![
                s_diag(tok_at(toksv(*old(self)), old(self).idx as int), code@, msg@),
            ]);
        }
    }

    /// Records an `expected <kind>` diagnostic at the current token.
    fn raise_expected(&mut self, code: &str, tt: TokenType)
        requires
            p_wf(*old(self)),
        ensures
            p_wf(*final(self)),
            final(self).tokens == old(self).tokens,
            final(self).idx == old(self).idx,
            errs_view(final(self).errors@) == errs_view(old(self).errors@) + seq![
                s_diag(
                    tok_at(toksv(*old(self)), old(self).idx as int),
                    code@,
                    s_expected_msg(tt),
                ),
            ],
    {
        let mut m = String::from_str("expected ");
        let c = token_type_code_string(tt);
        m.append(c.as_str());
        self.raise_err(code, m.as_str());
    }

    fn parse_ident(&mut self) -> (r: Result<Expr, ()>)
        requires
            p_wf(*old(self)),
        ensures
            p_wf(*final(self)),
            final(self).tokens == old(self).tokens,
            old(self).idx <= final(self).idx,
            ({
                let s = s_parse_ident(toksv(*old(self)), old(self).idx as int);
                &&& final(self).idx == s.next
                &&& errs_view(final(self).errors@) == errs_view(old(self).errors@) + s.errs
                &&& match r {
                    Result::Ok(e) => s.ok == Option::Some(e@) && old(self).idx < final(self).idx,
                    Result::Err(_) => s.ok is None,
                }
            }),
        decreases old(self).tokens@.len() - old(self).idx, 0int,
    {
        if self.curr_type() == TokenType::Ident {
            let loc = self.curr_loc();
            let name = self.tokens[self.idx].literal.clone();
            self.consume_token();
            proof {
                assert(errs_view(self.errors@) =~= errs_view(old(self).errors@) + Seq::<
                    Seq<char>,
                >::empty());
            }
            Result::Ok(Expr::Ident { loc, name })
        } else {
            self.raise_expected("PAR:3011", TokenType::Ident);
            Result::Err(())
        }
    }

    fn parse_int(&mut self) -> (r: Result<Expr, ()>)
        requires
            p_wf(*old(self)),
        ensures
            p_wf(*final(self)),
            final(self).tokens == old(self).tokens,
            old(self).idx <= final(self).idx,
            ({
                let s = s_parse_int(toksv(*old(self)), old(self).idx as int);
                &&& final(self).idx == s.next
                &&& errs_view(final(self).errors@) == errs_view(old(self).errors@) + s.errs
                &&& match r {
                    Result::Ok(e) => s.ok == Option::Some(e@) && old(self).idx < final(self).idx,
                    Result::Err(_) => s.ok is None,
                }
            }),
        decreases old(self).tokens@.len() - old(self).idx, 0int,
    {
        if self.curr_type() != TokenType::Int {
            self.raise_expected("PAR:3012", TokenType::Int);
            return Result::Err(());
        }
        let loc = self.curr_loc();
        let ghost lit = tok_at(toksv(*old(self)), old(self).idx as int).literal;
        let n = self.tokens[self.idx].literal.unicode_len();
        if n == 0 {
            self.raise_err("PAR:3012", "Cannot parse integer");
            return Result::Err(());
        }
        let mut acc: i64 = 0;
        let mut k: usize = 0;
        while k < n
            invariant
                p_wf(*self),
                self.tokens == old(self).tokens,
                self.errors == old(self).errors,
                self.idx == old(self).idx,
                self.idx < self.tokens@.len(),
                tok_at(toksv(*self), self.idx as int).token_type == TokenType::Int,
                tok_at(toksv(*self), self.idx as int).literal == lit,
                self.tokens@[self.idx as int]@.literal == lit,
                n == lit.len(),
                k <= n,
                all_digits(lit.subrange(0, k as int)),
                0 <= acc == digits_val(lit.subrange(0, k as int)) <= i64::MAX,
            decreases n - k,
        {
            let c = self.tokens[self.idx].literal.get_char(k);
            proof {
                assert(c == lit[k as int]);
            }
            if !('0' <= c && c <= '9') {
                proof {
                    assert(!crate::lexer::is_digit_c(lit[k as int]));
                    assert(!all_digits(lit));
                }
                self.raise_err("PAR:3012", "Cannot parse integer");
                return Result::Err(());
            }
            let d = digit_value(c);
            if acc > (i64::MAX - (d as i64)) / 10 {
                proof {
                    assert(all_digits(lit.subrange(0, k as int + 1)));
                    assert(lit.subrange(0, k as int + 1).drop_last() =~= lit.subrange(
                        0,
                        k as int,
                    ));
                    assert(lit.subrange(0, k as int + 1).last() == lit[k as int]);
                    assert(digits_val(lit.subrange(0, k as int + 1)) == acc * 10 + d);
                    assert(acc * 10 + d > i64::MAX) by (nonlinear_arith)
                        requires
                            acc > (i64::MAX - (d as i64)) / 10,
                            0 <= d <= 9,
                            acc >= 0,
                    ;
                    if all_digits(lit) {
                        lemma_digits_prefix(lit, k as int + 1);
                    }
                }
                self.raise_err("PAR:3012", "Cannot parse integer");
                return Result::Err(());
            }
            proof {
                assert(acc * 10 + d <= i64::MAX) by (nonlinear_arith)
                    requires
                        acc <= (i64::MAX - (d as i64)) / 10,
                        0 <= d <= 9,
                        acc >= 0,
                ;
                assert(all_digits(lit.subrange(0, k as int + 1)));
                assert(lit.subrange(0, k as int + 1).drop_last() =~= lit.subrange(0, k as int));
            }
            acc = acc * 10 + (d as i64);
            k = k + 1;
        }
        proof {
            assert(lit.subrange(0, n as int) =~= lit);
        }
        self.consume_token();
        proof {
            assert(errs_view(self.errors@) =~= errs_view(old(self).errors@) + Seq::<
                Seq<char>,
            >::empty());
        }
        Result::Ok(Expr::Int { loc, value: acc })
    }

    fn parse_bool(&mut self) -> (r: Result<Expr, ()>)
        requires
            p_wf(*old(self)),
        ensures
            p_wf(*final(self)),
            final(self).tokens == old(self).tokens,
            old(self).idx <= final(self).idx,
            ({
                let s = s_parse_bool(toksv(*old(self)), old(self).idx as int);
                &&& final(self).idx == s.next
                &&& errs_view(final(self).errors@) == errs_view(old(self).errors@) + s.errs
                &&& match r {
                    Result::Ok(e) => s.ok == Option::Some(e@) && old(self).idx < final(self).idx,
                    Result::Err(_) => s.ok is None,
                }
            }),
        decreases old(self).tokens@.len() - old(self).idx, 0int,
    {
        let tt = self.curr_type();
        if tt == TokenType::True || tt == TokenType::False {
            let loc = self.curr_loc();
            self.consume_token();
            proof {
                assert(errs_view(self.errors@) =~= errs_view(old(self).errors@) + Seq::<
                    Seq<char>,
                >::empty());
            }
            Result::Ok(Expr::Bool { loc, value: tt == TokenType::True })
        } else {
            self.raise_err("PAR:3013", "expected Boolean");
            Result::Err(())
        }
    }

    fn parse_prefix_expr(&mut self) -> (r: Result<Expr, ()>)
        requires
            p_wf(*old(self)),
        ensures
            p_wf(*final(self)),
            final(self).tokens == old(self).tokens,
            old(self).idx <= final(self).idx,
            ({
                let s = s_parse_prefix_expr(toksv(*old(self)), old(self).idx as int);
                &&& final(self).idx == s.next
                &&& errs_view(final(self).errors@) == errs_view(old(self).errors@) + s.errs
                &&& match r {
                    Result::Ok(e) => s.ok == Option::Some(e@) && old(self).idx < final(self).idx,
                    Result::Err(_) => s.ok is None,
                }
            }),
        decreases old(self).tokens@.len() - old(self).idx, 0int,
    {
        let tt = self.curr_type();
        if tt == TokenType::Minus || tt == TokenType::Bang {
            let loc = self.curr_loc();
            let operator = if tt == TokenType::Minus {
                PrefixType::Minus
            } else {
                PrefixType::Bang
            };
            self.consume_token();
            match self.parse_expr(Priority::Prefix) {
                Result::Ok(right) => Result::Ok(
                    Expr::Prefix { loc, operator, right: Box::new(right) },
                ),
                Result::Err(_) => Result::Err(()),
            }
        } else {
            self.raise_err("PAR:3021", "expected Prefix Operator");
            Result::Err(())
        }
    }

    fn parse_grouped_expr(&mut self) -> (r: Result<Expr, ()>)
        requires
            p_wf(*old(self)),
        ensures
            p_wf(*final(self)),
            final(self).tokens == old(self).tokens,
            old(self).idx <= final(self).idx,
            ({
                let s = s_parse_grouped(toksv(*old(self)), old(self).idx as int);
                &&& final(self).idx == s.next
                &&& errs_view(final(self).errors@) == errs_view(old(self).errors@) + s.errs
                &&& match r {
                    Result::Ok(e) => s.ok == Option::Some(e@) && old(self).idx < final(self).idx,
                    Result::Err(_) => s.ok is None,
                }
            }),
        decreases old(self).tokens@.len() - old(self).idx, 0int,
    {
        if self.curr_type() != TokenType::Lparen {
            self.raise_expected("PAR:3031", TokenType::Lparen);
            return Result::Err(());
        }
        self.consume_token();
        let e = match self.parse_expr(Priority::Lowest) {
            Result::Ok(e) => e,
            Result::Err(_) => {
                return Result::Err(());
            },
        };
        if self.curr_type() != TokenType::Rparen {
            self.raise_expected("PAR:3032", TokenType::Rparen);
            proof {
                let s = s_parse_grouped(toksv(*old(self)), old(self).idx as int);
                assert(errs_view(self.errors@) =~= errs_view(old(self).errors@) + s.errs);
            }
            return Result::Err(());
        }
        self.consume_token();
        Result::Ok(e)
    }

    #[verifier::spinoff_prover]
    #[verifier::rlimit(100)]
    fn parse_if_expr(&mut self) -> (r: Result<Expr, ()>)
        requires
            p_wf(*old(self)),
        ensures
            p_wf(*final(self)),
            final(self).tokens == old(self).tokens,
            old(self).idx <= final(self).idx,
            ({
                let s = s_parse_if(toksv(*old(self)), old(self).idx as int);
                &&& final(self).idx == s.next
                &&& errs_view(final(self).errors@) == errs_view(old(self).errors@) + s.errs
                &&& match r {
                    Result::Ok(e) => s.ok == Option::Some(e@) && old(self).idx < final(self).idx,
                    Result::Err(_) => s.ok is None,
                }
            }),
        decreases old(self).tokens@.len() - old(self).idx, 0int,
    {
        let ghost toks = toksv(*old(self));
        let ghost i0 = old(self).idx as int;
        let ghost e0 = errs_view(old(self).errors@);
        if self.curr_type() != TokenType::If {
            self.raise_expected("PAR:3041", TokenType::If);
            return Result::Err(());
        }
        let loc = self.curr_loc();
        self.consume_token();
        if self.curr_type() != TokenType::Lparen {
            self.raise_expected("PAR:3042", TokenType::Lparen);
            return Result::Err(());
        }
        self.consume_token();
        let ghost c = s_parse_expr(toks, i0 + 2, Priority::Lowest);
        let condition = match self.parse_expr(Priority::Lowest) {
            Result::Ok(c) => c,
            Result::Err(_) => {
                return Result::Err(());
            },
        };
        let ghost rest = s_if_blocks(toks, c.next, loc, c.ok.unwrap());
        let r = self.parse_if_blocks(loc, condition);
        proof {
            lemma_cat_assoc(e0, c.errs, rest.errs);
        }
        r
    }

    #[verifier::spinoff_prover]
    #[verifier::rlimit(100)]
    fn parse_if_blocks(&mut self, loc: Location, condition: Expr) -> (r: Result<Expr, ()>)
        requires
            p_wf(*old(self)),
        ensures
            p_wf(*final(self)),
            final(self).tokens == old(self).tokens,
            old(self).idx <= final(self).idx,
            ({
                let s = s_if_blocks(toksv(*old(self)), old(self).idx as int, loc, condition@);
                &&& final(self).idx == s.next
                &&& errs_view(final(self).errors@) == errs_view(old(self).errors@) + s.errs
                &&& match r {
                    Result::Ok(e) => s.ok == Option::Some(e@),
                    Result::Err(_) => s.ok is None,
                }
            }),
        decreases old(self).tokens@.len() - old(self).idx, 1int,
    {
        let ghost toks = toksv(*old(self));
        let ghost j = old(self).idx as int;
        let ghost e0 = errs_view(old(self).errors@);
        if self.curr_type() != TokenType::Rparen {
            self.raise_expected("PAR:3043", TokenType::Rparen);
            return Result::Err(());
        }
        self.consume_token();
        let ghost cons = s_parse_block(toks, j + 1);
        let consequence = match self.parse_block_stmts() {
            Result::Ok(b) => b,
            Result::Err(_) => {
                return Result::Err(());
            },
        };
        if self.curr_type() == TokenType::Else {
            self.consume_token();
            let ghost alt = s_parse_block(toks, cons.next + 1);
            let step = self.parse_block_stmts();
            proof {
                lemma_cat_assoc(e0, cons.errs, alt.errs);
            }
            match step {
                Result::Ok(alternative) => {
                    let res = Expr::If {
                        loc,
                        condition: Box::new(condition),
                        consequence,
                        alternative,
                    };
                    proof {
                        assert(res@ == s_if_blocks(
                            toksv(*old(self)),
                            old(self).idx as int,
                            loc,
                            condition@,
                        ).ok.unwrap());
                    }
                    Result::Ok(res)
                },
                Result::Err(_) => Result::Err(()),
            }
        } else {
            let alternative = BlockStmts(Vec::new());
            proof {
                assert(crate::ast::stmts_view(alternative.0@) =~= Seq::<StmtV>::empty());
            }
            let res = Expr::If { loc, condition: Box::new(condition), consequence, alternative };
            proof {
                assert(res@ == s_if_blocks(
                    toksv(*old(self)),
                    old(self).idx as int,
                    loc,
                    condition@,
                ).ok.unwrap());
            }
            Result::Ok(res)
        }
    }

    fn parse_func_literal_expr(&mut self) -> (r: Result<Expr, ()>)
        requires
            p_wf(*old(self)),
        ensures
            p_wf(*final(self)),
            final(self).tokens == old(self).tokens,
            old(self).idx <= final(self).idx,
            ({
                let s = s_parse_func_literal(toksv(*old(self)), old(self).idx as int);
                &&& final(self).idx == s.next
                &&& errs_view(final(self).errors@) == errs_view(old(self).errors@) + s.errs
                &&& match r {
                    Result::Ok(e) => s.ok == Option::Some(e@) && old(self).idx < final(self).idx,
                    Result::Err(_) => s.ok is None,
                }
            }),
        decreases old(self).tokens@.len() - old(self).idx, 0int,
    {
        if self.curr_type() != TokenType::Func {
            self.raise_expected("PAR:3081", TokenType::Func);
            return Result::Err(());
        }
        let loc = self.curr_loc();
        self.consume_token();
        let parameters = match self.parse_func_params() {
            Result::Ok(ps) => ps,
            Result::Err(_) => {
                return Result::Err(());
            },
        };
        match self.parse_block_stmts() {
            Result::Ok(body) => {
                proof {
                    let s = s_parse_func_literal(toksv(*old(self)), old(self).idx as int);
                    assert(errs_view(self.errors@) =~= errs_view(old(self).errors@) + s.errs);
                }
                Result::Ok(Expr::FuncLiteral { loc, parameters, body })
            },
            Result::Err(_) => {
                proof {
                    let s = s_parse_func_literal(toksv(*old(self)), old(self).idx as int);
                    assert(errs_view(self.errors@) =~= errs_view(old(self).errors@) + s.errs);
                }
                Result::Err(())
            },
        }
    }

    fn parse_func_params(&mut self) -> (r: Result<Params, ()>)
        requires
            p_wf(*old(self)),
        ensures
            p_wf(*final(self)),
            final(self).tokens == old(self).tokens,
            old(self).idx <= final(self).idx,
            ({
                let s = s_parse_func_params(toksv(*old(self)), old(self).idx as int);
                &&& final(self).idx == s.next
                &&& errs_view(final(self).errors@) == errs_view(old(self).errors@) + s.errs
                &&& match r {
                    Result::Ok(ps) => s.ok == Option::Some(ps@) && old(self).idx < final(self).idx,
                    Result::Err(_) => s.ok is None,
                }
            }),
        decreases old(self).tokens@.len() - old(self).idx, 0int,
    {
        if self.curr_type() != TokenType::Lparen {
            self.raise_expected("PAR:3085", TokenType::Lparen);
            return Result::Err(());
        }
        self.consume_token();
        let mut params: Vec<Expr> = Vec::new();
        if self.curr_type() == TokenType::Rparen {
            self.consume_token();
            proof {
                assert(errs_view(self.errors@) =~= errs_view(old(self).errors@) + Seq::<
                    Seq<char>,
                >::empty());
                assert(crate::ast::exprs_view(params@) =~= Seq::<ExprV>::empty());
            }
            return Result::Ok(Params(params));
        }
        let p0 = match self.parse_ident() {
            Result::Ok(p) => p,
            Result::Err(_) => {
                return Result::Err(());
            },
        };
        let ghost p0v = p0@;
        params.push(p0);
        proof {
            broadcast use crate::ast::lemma_exprs_view;

            assert(crate::ast::exprs_view(params@) =~= seq![p0v]);
        }
        match self.parse_params_loop(&mut params) {
            Result::Ok(_) => {
                proof {
                    let s = s_parse_func_params(toksv(*old(self)), old(self).idx as int);
                    assert(errs_view(self.errors@) =~= errs_view(old(self).errors@) + s.errs);
                }
                Result::Ok(Params(params))
            },
            Result::Err(_) => {
                proof {
                    let s = s_parse_func_params(toksv(*old(self)), old(self).idx as int);
                    assert(errs_view(self.errors@) =~= errs_view(old(self).errors@) + s.errs);
                }
                Result::Err(())
            },
        }
    }

    fn parse_params_loop(&mut self, acc: &mut Vec<Expr>) -> (r: Result<(), ()>)
        requires
            p_wf(*old(self)),
        ensures
            p_wf(*final(self)),
            final(self).tokens == old(self).tokens,
            old(self).idx <= final(self).idx,
            ({
                let s = s_params_loop(
                    toksv(*old(self)),
                    old(self).idx as int,
                    crate::ast::exprs_view(old(acc)@),
                );
                &&& final(self).idx == s.next
                &&& errs_view(final(self).errors@) == errs_view(old(self).errors@) + s.errs
                &&& match r {
                    Result::Ok(_) => s.ok == Option::Some(crate::ast::exprs_view(final(acc)@))
                        && old(self).idx < final(self).idx,
                    Result::Err(_) => s.ok is None,
                }
            }),
        decreases old(self).tokens@.len() - old(self).idx, 2int,
    {
        if self.curr_type() == TokenType::Rparen {
            self.consume_token();
            proof {
                assert(errs_view(self.errors@) =~= errs_view(old(self).errors@) + Seq::<
                    Seq<char>,
                >::empty());
            }
            return Result::Ok(());
        }
        if self.curr_type() != TokenType::Comma {
            self.raise_expected("PAR:3086", TokenType::Comma);
            return Result::Err(());
        }
        self.consume_token();
        let p = match self.parse_ident() {
            Result::Ok(p) => p,
            Result::Err(_) => {
                return Result::Err(());
            },
        };
        let ghost accv = crate::ast::exprs_view(acc@);
        let ghost pv = p@;
        acc.push(p);
        proof {
            broadcast use crate::ast::lemma_exprs_view;

            assert(crate::ast::exprs_view(acc@) =~= accv.push(pv));
        }
        let r = self.parse_params_loop(acc);
        proof {
            let s = s_params_loop(toksv(*old(self)), old(self).idx as int, accv);
            assert(errs_view(self.errors@) =~= errs_view(old(self).errors@) + s.errs);
        }
        r
    }

    fn parse_func_args(&mut self) -> (r: Result<Args, ()>)
        requires
            p_wf(*old(self)),
        ensures
            p_wf(*final(self)),
            final(self).tokens == old(self).tokens,
            old(self).idx <= final(self).idx,
            ({
                let s = s_parse_func_args(toksv(*old(self)), old(self).idx as int);
                &&& final(self).idx == s.next
                &&& errs_view(final(self).errors@) == errs_view(old(self).errors@) + s.errs
                &&& match r {
                    Result::Ok(a) => s.ok == Option::Some(a@) && old(self).idx < final(self).idx,
                    Result::Err(_) => s.ok is None,
                }
            }),
        decreases old(self).tokens@.len() - old(self).idx, 0int,
    {
        if self.curr_type() != TokenType::Lparen {
            self.raise_expected("PAR:3095", TokenType::Lparen);
            return Result::Err(());
        }
        self.consume_token();
        let mut args: Vec<Expr> = Vec::new();
        if self.curr_type() == TokenType::Rparen {
            self.consume_token();
            proof {
                assert(errs_view(self.errors@) =~= errs_view(old(self).errors@) + Seq::<
                    Seq<char>,
                >::empty());
                assert(crate::ast::exprs_view(args@) =~= Seq::<ExprV>::empty());
            }
            return Result::Ok(Args(args));
        }
        let a0 = match self.parse_expr(Priority::Lowest) {
            Result::Ok(a) => a,
            Result::Err(_) => {
                return Result::Err(());
            },
        };
        let ghost a0v = a0@;
        args.push(a0);
        proof {
            broadcast use crate::ast::lemma_exprs_view;

            assert(crate::ast::exprs_view(args@) =~= seq![a0v]);
        }
        match self.parse_args_loop(&mut args) {
            Result::Ok(_) => {
                proof {
                    let s = s_parse_func_args(toksv(*old(self)), old(self).idx as int);
                    assert(errs_view(self.errors@) =~= errs_view(old(self).errors@) + s.errs);
                }
                Result::Ok(Args(args))
            },
            Result::Err(_) => {
                proof {
                    let s = s_parse_func_args(toksv(*old(self)), old(self).idx as int);
                    assert(errs_view(self.errors@) =~= errs_view(old(self).errors@) + s.errs);
                }
                Result::Err(())
            },
        }
    }

    fn parse_args_loop(&mut self, acc: &mut Vec<Expr>) -> (r: Result<(), ()>)
        requires
            p_wf(*old(self)),
        ensures
            p_wf(*final(self)),
            final(self).tokens == old(self).tokens,
            old(self).idx <= final(self).idx,
            ({
                let s = s_args_loop(
                    toksv(*old(self)),
                    old(self).idx as int,
                    crate::ast::exprs_view(old(acc)@),
                );
                &&& final(self).idx == s.next
                &&& errs_view(final(self).errors@) == errs_view(old(self).errors@) + s.errs
                &&& match r {
                    Result::Ok(_) => s.ok == Option::Some(crate::ast::exprs_view(final(acc)@))
                        && old(self).idx < final(self).idx,
                    Result::Err(_) => s.ok is None,
                }
            }),
        decreases old(self).tokens@.len() - old(self).idx, 2int,
    {
        if self.curr_type() == TokenType::Rparen {
            self.consume_token();
            proof {
                assert(errs_view(self.errors@) =~= errs_view(old(self).errors@) + Seq::<
                    Seq<char>,
                >::empty());
            }
            return Result::Ok(());
        }
        if self.curr_type() != TokenType::Comma {
            self.raise_expected("PAR:3096", TokenType::Comma);
            return Result::Err(());
        }
        self.consume_token();
        let a = match self.parse_expr(Priority::Lowest) {
            Result::Ok(a) => a,
            Result::Err(_) => {
                return Result::Err(());
            },
        };
        let ghost accv = crate::ast::exprs_view(acc@);
        let ghost av = a@;
        acc.push(a);
        proof {
            broadcast use crate::ast::lemma_exprs_view;

            assert(crate::ast::exprs_view(acc@) =~= accv.push(av));
        }
        let r = self.parse_args_loop(acc);
        proof {
            let s = s_args_loop(toksv(*old(self)), old(self).idx as int, accv);
            assert(errs_view(self.errors@) =~= errs_view(old(self).errors@) + s.errs);
        }
        r
    }

    fn parse_infix_expr(&mut self, left: Expr) -> (r: Result<Expr, ()>)
        requires
            p_wf(*old(self)),
        ensures
            p_wf(*final(self)),
            final(self).tokens == old(self).tokens,
            old(self).idx <= final(self).idx,
            ({
                let s = s_parse_infix_expr(toksv(*old(self)), old(self).idx as int, left@);
                &&& final(self).idx == s.next
                &&& errs_view(final(self).errors@) == errs_view(old(self).errors@) + s.errs
                &&& match r {
                    Result::Ok(e) => s.ok == Option::Some(e@) && old(self).idx < final(self).idx,
                    Result::Err(_) => s.ok is None,
                }
            }),
        decreases old(self).tokens@.len() - old(self).idx, 0int,
    {
        let tt = self.curr_type();
        if !(is_infix_kind(tt) && tt != TokenType::Lparen) {
            self.raise_err("PAR:3022", "expected Infix Operator");
            return Result::Err(());
        }
        let loc = self.curr_loc();
        let operator = token_infix(tt);
        let prec = precedence_of(tt);
        self.consume_token();
        match self.parse_expr(prec) {
            Result::Ok(right) => Result::Ok(
                Expr::Infix { loc, left: Box::new(left), operator, right: Box::new(right) },
            ),
            Result::Err(_) => Result::Err(()),
        }
    }

    fn parse_func_call_expr(&mut self, left: Expr) -> (r: Result<Expr, ()>)
        requires
            p_wf(*old(self)),
        ensures
            p_wf(*final(self)),
            final(self).tokens == old(self).tokens,
            old(self).idx <= final(self).idx,
            ({
                let s = s_parse_func_call(toksv(*old(self)), old(self).idx as int, left@);
                &&& final(self).idx == s.next
                &&& errs_view(final(self).errors@) == errs_view(old(self).errors@) + s.errs
                &&& match r {
                    Result::Ok(e) => s.ok == Option::Some(e@) && old(self).idx < final(self).idx,
                    Result::Err(_) => s.ok is None,
                }
            }),
        decreases old(self).tokens@.len() - old(self).idx, 1int,
    {
        if self.curr_type() != TokenType::Lparen {
            self.raise_expected("PAR:3091", TokenType::Lparen);
            return Result::Err(());
        }
        let loc = self.curr_loc();
        match self.parse_func_args() {
            Result::Ok(args) => Result::Ok(Expr::FuncCall { loc, ident: Box::new(left), args }),
            Result::Err(_) => Result::Err(()),
        }
    }

    #[verifier::rlimit(100)]
    fn parse_infix_loop(&mut self, min: Priority, left: Expr) -> (r: Result<Expr, ()>)
        requires
            p_wf(*old(self)),
        ensures
            p_wf(*final(self)),
            final(self).tokens == old(self).tokens,
            old(self).idx <= final(self).idx,
            ({
                let s = s_infix_loop(toksv(*old(self)), old(self).idx as int, min, left@);
                &&& final(self).idx == s.next
                &&& errs_view(final(self).errors@) == errs_view(old(self).errors@) + s.errs
                &&& match r {
                    Result::Ok(e) => s.ok == Option::Some(e@),
                    Result::Err(_) => s.ok is None,
                }
            }),
        decreases old(self).tokens@.len() - old(self).idx, 2int,
    {
        let tt = self.curr_type();
        if min.rank() < precedence_of(tt).rank() && is_infix_kind(tt) {
            let step = if tt == TokenType::Lparen {
                self.parse_func_call_expr(left)
            } else {
                self.parse_infix_expr(left)
            };
            match step {
                Result::Ok(bigger) => {
                    let r = self.parse_infix_loop(min, bigger);
                    proof {
                        let s = s_infix_loop(toksv(*old(self)), old(self).idx as int, min, left@);
                        assert(errs_view(self.errors@) =~= errs_view(old(self).errors@) + s.errs);
                    }
                    r
                },
                Result::Err(_) => Result::Err(()),
            }
        } else {
            proof {
                assert(errs_view(self.errors@) =~= errs_view(old(self).errors@) + Seq::<
                    Seq<char>,
                >::empty());
            }
            Result::Ok(left)
        }
    }

    #[verifier::spinoff_prover]
    #[verifier::rlimit(100)]
    fn parse_expr(&mut self, min: Priority) -> (r: Result<Expr, ()>)
        requires
            p_wf(*old(self)),
        ensures
            p_wf(*final(self)),
            final(self).tokens == old(self).tokens,
            old(self).idx <= final(self).idx,
            ({
                let s = s_parse_expr(toksv(*old(self)), old(self).idx as int, min);
                &&& final(self).idx == s.next
                &&& errs_view(final(self).errors@) == errs_view(old(self).errors@) + s.errs
                &&& match r {
                    Result::Ok(e) => s.ok == Option::Some(e@) && old(self).idx < final(self).idx,
                    Result::Err(_) => s.ok is None,
                }
            }),
        decreases old(self).tokens@.len() - old(self).idx, 1int,
    {
        let ghost toks = toksv(*old(self));
        let ghost i0 = old(self).idx as int;
        let ghost e0 = errs_view(old(self).errors@);
        let tt = self.curr_type();
        let ghost lspec: PRes<ExprV> = if tt == TokenType::Ident {
            s_parse_ident(toks, i0)
        } else if tt == TokenType::Int {
            s_parse_int(toks, i0)
        } else if tt == TokenType::Bang || tt == TokenType::Minus {
            s_parse_prefix_expr(toks, i0)
        } else if tt == TokenType::True || tt == TokenType::False {
            s_parse_bool(toks, i0)
        } else if tt == TokenType::Lparen {
            s_parse_grouped(toks, i0)
        } else if tt == TokenType::If {
            s_parse_if(toks, i0)
        } else if tt == TokenType::Func {
            s_parse_func_literal(toks, i0)
        } else {
            s_fail(toks, i0, "PAR:3001"@, "Cannot parse prefix"@)
        };
        let left = if tt == TokenType::Ident {
            self.parse_ident()
        } else if tt == TokenType::Int {
            self.parse_int()
        } else if tt == TokenType::Bang || tt == TokenType::Minus {
            self.parse_prefix_expr()
        } else if tt == TokenType::True || tt == TokenType::False {
            self.parse_bool()
        } else if tt == TokenType::Lparen {
            self.parse_grouped_expr()
        } else if tt == TokenType::If {
            self.parse_if_expr()
        } else if tt == TokenType::Func {
            self.parse_func_literal_expr()
        } else {
            self.raise_err("PAR:3001", "Cannot parse prefix");
            Result::Err(())
        };
        match left {
            Result::Err(_) => Result::Err(()),
            Result::Ok(l) => {
                let ghost rest = s_infix_loop(toks, lspec.next, min, l@);
                let r = self.parse_infix_loop(min, l);
                proof {
                    lemma_cat_assoc(e0, lspec.errs, rest.errs);
                }
                r
            },
        }
    }

    fn parse_let_stmt(&mut self) -> (r: Result<Stmt, ()>)
        requires
            p_wf(*old(self)),
        ensures
            p_wf(*final(self)),
            final(self).tokens == old(self).tokens,
            old(self).idx <= final(self).idx,
            ({
                let s = s_parse_let(toksv(*old(self)), old(self).idx as int);
                &&& final(self).idx == s.next
                &&& errs_view(final(self).errors@) == errs_view(old(self).errors@) + s.errs
                &&& match r {
                    Result::Ok(st) => s.ok == Option::Some(st@) && old(self).idx < final(self).idx,
                    Result::Err(_) => s.ok is None,
                }
            }),
        decreases old(self).tokens@.len() - old(self).idx, 3int,
    {
        if self.curr_type() != TokenType::Let {
            self.raise_expected("PAR:2011", TokenType::Let);
            return Result::Err(());
        }
        self.consume_token();
        let name = match self.parse_ident() {
            Result::Ok(n) => n,
            Result::Err(_) => {
                return Result::Err(());
            },
        };
        if self.curr_type() != TokenType::Assign {
            self.raise_expected("PAR:2012", TokenType::Assign);
            proof {
                let s = s_parse_let(toksv(*old(self)), old(self).idx as int);
                assert(errs_view(self.errors@) =~= errs_view(old(self).errors@) + s.errs);
            }
            return Result::Err(());
        }
        self.consume_token();
        match self.parse_expr(Priority::Lowest) {
            Result::Ok(expr) => {
                self.next_if(TokenType::Semicolon);
                proof {
                    let s = s_parse_let(toksv(*old(self)), old(self).idx as int);
                    assert(errs_view(self.errors@) =~= errs_view(old(self).errors@) + s.errs);
                }
                Result::Ok(Stmt::Let { name, expr })
            },
            Result::Err(_) => {
                proof {
                    let s = s_parse_let(toksv(*old(self)), old(self).idx as int);
                    assert(errs_view(self.errors@) =~= errs_view(old(self).errors@) + s.errs);
                }
                Result::Err(())
            },
        }
    }

    fn parse_return_stmt(&mut self) -> (r: Result<Stmt, ()>)
        requires
            p_wf(*old(self)),
        ensures
            p_wf(*final(self)),
            final(self).tokens == old(self).tokens,
            old(self).idx <= final(self).idx,
            ({
                let s = s_parse_return(toksv(*old(self)), old(self).idx as int);
                &&& final(self).idx == s.next
                &&& errs_view(final(self).errors@) == errs_view(old(self).errors@) + s.errs
                &&& match r {
                    Result::Ok(st) => s.ok == Option::Some(st@) && old(self).idx < final(self).idx,
                    Result::Err(_) => s.ok is None,
                }
            }),
        decreases old(self).tokens@.len() - old(self).idx, 3int,
    {
        if self.curr_type() != TokenType::Return {
            self.raise_expected("PAR:2021", TokenType::Return);
            return Result::Err(());
        }
        self.consume_token();
        match self.parse_expr(Priority::Lowest) {
            Result::Ok(expr) => {
                self.next_if(TokenType::Semicolon);
                Result::Ok(Stmt::Return { expr })
            },
            Result::Err(_) => Result::Err(()),
        }
    }

    fn parse_expr_stmt(&mut self) -> (r: Result<Stmt, ()>)
        requires
            p_wf(*old(self)),
        ensures
            p_wf(*final(self)),
            final(self).tokens == old(self).tokens,
            old(self).idx <= final(self).idx,
            ({
                let s = s_parse_expr_stmt(toksv(*old(self)), old(self).idx as int);
                &&& final(self).idx == s.next
                &&& errs_view(final(self).errors@) == errs_view(old(self).errors@) + s.errs
                &&& match r {
                    Result::Ok(st) => s.ok == Option::Some(st@) && old(self).idx < final(self).idx,
                    Result::Err(_) => s.ok is None,
                }
            }),
        decreases old(self).tokens@.len() - old(self).idx, 3int,
    {
        match self.parse_expr(Priority::Lowest) {
            Result::Ok(expr) => {
                self.next_if(TokenType::Semicolon);
                Result::Ok(Stmt::Expr { expr })
            },
            Result::Err(_) => Result::Err(()),
        }
    }

    fn parse_stmt(&mut self) -> (r: Result<Stmt, ()>)
        requires
            p_wf(*old(self)),
        ensures
            p_wf(*final(self)),
            final(self).tokens == old(self).tokens,
            old(self).idx <= final(self).idx,
            ({
                let s = s_parse_stmt(toksv(*old(self)), old(self).idx as int);
                &&& final(self).idx == s.next
                &&& errs_view(final(self).errors@) == errs_view(old(self).errors@) + s.errs
                &&& match r {
                    Result::Ok(st) => s.ok == Option::Some(st@) && old(self).idx < final(self).idx,
                    Result::Err(_) => s.ok is None,
                }
            }),
        decreases old(self).tokens@.len() - old(self).idx, 4int,
    {
        let tt = self.curr_type();
        if tt == TokenType::Let {
            self.parse_let_stmt()
        } else if tt == TokenType::Return {
            self.parse_return_stmt()
        } else {
            self.parse_expr_stmt()
        }
    }

    /// Consumes the current token when it has the given kind.
    fn next_if(&mut self, tt: TokenType) -> (consumed: bool)
        requires
            p_wf(*old(self)),
            tt != TokenType::Eof,
        ensures
            p_wf(*final(self)),
            final(self).tokens == old(self).tokens,
            final(self).errors == old(self).errors,
            ({
                let cur = tok_at(toksv(*old(self)), old(self).idx as int).token_type;
                if cur == tt {
                    consumed && final(self).idx == old(self).idx + 1
                } else {
                    !consumed && final(self).idx == old(self).idx
                }
            }),
    {
        if self.curr_type() == tt {
            self.consume_token();
            true
        } else {
            false
        }
    }

    /// Recovery: moves just past the next semicolon, or to the end of the
    /// input.
    pub(crate) fn skip_stmt(&mut self)
        requires
            p_wf(*old(self)),
        ensures
            p_wf(*final(self)),
            final(self).tokens == old(self).tokens,
            final(self).errors == old(self).errors,
            old(self).idx <= final(self).idx,
            final(self).idx == s_skip_stmt(toksv(*old(self)), old(self).idx as int),
            tok_at(toksv(*old(self)), old(self).idx as int).token_type != TokenType::Eof ==> old(self).idx < final(self).idx,
    {
        let ghost st0 = *old(self);
        while self.curr_type() != TokenType::Semicolon && self.curr_type() != TokenType::Eof
            invariant
                p_wf(*self),
                self.tokens == st0.tokens,
                self.errors == st0.errors,
                st0.idx <= self.idx,
                s_skip_stmt(toksv(st0), st0.idx as int) == s_skip_stmt(
                    toksv(*self),
                    self.idx as int,
                ),
                tok_at(toksv(st0), st0.idx as int).token_type != TokenType::Eof ==> (st0.idx
                    < self.idx || tok_at(toksv(*self), self.idx as int).token_type
                    != TokenType::Eof),
            decreases self.tokens@.len() - self.idx,
        {
            self.consume_token();
        }
        self.next_if(TokenType::Semicolon);
    }

    /// Skips any run of stray semicolons.
    fn skip_semis(&mut self)
        requires
            p_wf(*old(self)),
        ensures
            p_wf(*final(self)),
            final(self).tokens == old(self).tokens,
            final(self).errors == old(self).errors,
            old(self).idx <= final(self).idx,
            final(self).idx == s_skip_semis(toksv(*old(self)), old(self).idx as int),
    {
        let ghost st0 = *old(self);
        while self.curr_type() == TokenType::Semicolon
            invariant
                p_wf(*self),
                self.tokens == st0.tokens,
                self.errors == st0.errors,
                st0.idx <= self.idx,
                s_skip_semis(toksv(st0), st0.idx as int) == s_skip_semis(
                    toksv(*self),
                    self.idx as int,
                ),
            decreases self.tokens@.len() - self.idx,
        {
            self.consume_token();
        }
    }

    /// The statements of a block, between braces.
    pub fn parse_block_stmts(&mut self) -> (r: Result<BlockStmts, ()>)
        requires
            p_wf(*old(self)),
        ensures
            p_wf(*final(self)),
            final(self).tokens == old(self).tokens,
            old(self).idx <= final(self).idx,
            ({
                let s = s_parse_block(toksv(*old(self)), old(self).idx as int);
                &&& final(self).idx == s.next
                &&& errs_view(final(self).errors@) == errs_view(old(self).errors@) + s.errs
                &&& match r {
                    Result::Ok(b) => s.ok == Option::Some(b@) && old(self).idx < final(self).idx,
                    Result::Err(_) => s.ok is None,
                }
            }),
        decreases old(self).tokens@.len() - old(self).idx, 6int,
    {
        if self.curr_type() != TokenType::Lbrace {
            self.raise_expected("PAR:2001", TokenType::Lbrace);
            return Result::Err(());
        }
        self.consume_token();
        let mut stmts: Vec<Stmt> = Vec::new();
        proof {
            assert(crate::ast::stmts_view(stmts@) =~= Seq::<StmtV>::empty());
        }
        match self.parse_block_rest(&mut stmts) {
            Result::Ok(_) => Result::Ok(BlockStmts(stmts)),
            Result::Err(_) => Result::Err(()),
        }
    }

    #[verifier::spinoff_prover]
    #[verifier::rlimit(100)]
    fn parse_block_rest(&mut self, acc: &mut Vec<Stmt>) -> (r: Result<(), ()>)
        requires
            p_wf(*old(self)),
        ensures
            p_wf(*final(self)),
            final(self).tokens == old(self).tokens,
            old(self).idx <= final(self).idx,
            ({
                let s = s_block_loop(
                    toksv(*old(self)),
                    old(self).idx as int,
                    crate::ast::stmts_view(old(acc)@),
                );
                &&& final(self).idx == s.next
                &&& errs_view(final(self).errors@) == errs_view(old(self).errors@) + s.errs
                &&& match r {
                    Result::Ok(_) => s.ok == Option::Some(crate::ast::stmts_view(final(acc)@))
                        && old(self).idx < final(self).idx,
                    Result::Err(_) => s.ok is None,
                }
            }),
        decreases old(self).tokens@.len() - old(self).idx, 5int,
    {
        let ghost toks = toksv(*old(self));
        let ghost i0 = old(self).idx as int;
        let ghost acc0 = crate::ast::stmts_view(old(acc)@);
        let ghost e0 = errs_view(old(self).errors@);
        let ghost sres = s_block_loop(toks, i0, acc0);
        let tt = self.curr_type();
        if tt == TokenType::Rbrace {
            self.consume_token();
            proof {
                lemma_cat_empty(e0);
            }
            return Result::Ok(());
        }
        if tt == TokenType::Eof {
            self.raise_expected("PAR:2002", TokenType::Rbrace);
            return Result::Err(());
        }
        self.skip_semis();
        let ghost j = self.idx as int;
        let ghost stp = s_parse_stmt(toks, j);
        match self.parse_stmt() {
            Result::Ok(st) => {
                let ghost accv = crate::ast::stmts_view(acc@);
                let ghost stv = st@;
                acc.push(st);
                proof {
                    assert(acc@.drop_last() =~= old(acc)@);
                    assert(crate::ast::stmts_view(acc@) =~= accv.push(stv));
                }
                let r = self.parse_block_rest(acc);
                proof {
                    let rest = s_block_loop(toks, stp.next, acc0.push(stv));
                    assert(sres.ok == rest.ok && sres.next == rest.next && sres.errs == stp.errs
                        + rest.errs);
                    lemma_cat_assoc(e0, stp.errs, rest.errs);
                }
                r
            },
            Result::Err(_) => {
                self.skip_stmt();
                let ghost k = self.idx as int;
                let r = self.parse_block_rest(acc);
                proof {
                    let rest = s_block_loop(toks, k, acc0);
                    assert(sres.ok == rest.ok && sres.next == rest.next && sres.errs == stp.errs
                        + rest.errs);
                    lemma_cat_assoc(e0, stp.errs, rest.errs);
                }
                r
            },
        }
    }

    #[verifier::spinoff_prover]
    #[verifier::rlimit(100)]
    fn parse_program_rest(&mut self, acc: &mut Vec<Stmt>)
        requires
            p_wf(*old(self)),
        ensures
            p_wf(*final(self)),
            final(self).tokens == old(self).tokens,
            old(self).idx <= final(self).idx,
            ({
                let s = s_program_loop(
                    toksv(*old(self)),
                    old(self).idx as int,
                    crate::ast::stmts_view(old(acc)@),
                );
                &&& crate::ast::stmts_view(final(acc)@) == s.0
                &&& errs_view(final(self).errors@) == errs_view(old(self).errors@) + s.1
            }),
        decreases old(self).tokens@.len() - old(self).idx, 5int,
    {
        let ghost toks = toksv(*old(self));
        let ghost i0 = old(self).idx as int;
        let ghost acc0 = crate::ast::stmts_view(old(acc)@);
        let ghost e0 = errs_view(old(self).errors@);
        let ghost sres = s_program_loop(toks, i0, acc0);
        if self.curr_type() == TokenType::Eof {
            proof {
                assert(sres == (acc0, Seq::<Seq<char>>::empty()));
                lemma_cat_empty(e0);
            }
            return ;
        }
        self.skip_semis();
        let ghost j = self.idx as int;
        let ghost stp = s_parse_stmt(toks, j);
        match self.parse_stmt() {
            Result::Ok(st) => {
                let ghost accv = crate::ast::stmts_view(acc@);
                let ghost stv = st@;
                acc.push(st);
                proof {
                    assert(acc@.drop_last() =~= old(acc)@);
                    assert(crate::ast::stmts_view(acc@) =~= accv.push(stv));
                }
                self.parse_program_rest(acc);
                proof {
                    let rest = s_program_loop(toks, stp.next, acc0.push(stv));
                    assert(sres.0 == rest.0 && sres.1 == stp.errs + rest.1);
                    lemma_cat_assoc(e0, stp.errs, rest.1);
                }
            },
            Result::Err(_) => {
                self.skip_stmt();
                let ghost k = self.idx as int;
                self.parse_program_rest(acc);
                proof {
                    let rest = s_program_loop(toks, k, acc0);
                    assert(sres.0 == rest.0 && sres.1 == stp.errs + rest.1);
                    lemma_cat_assoc(e0, stp.errs, rest.1);
                }
            },
        }
    }

    fn new(tokens: Vec<Token>) -> (p: Parser)
        ensures
            toksv(p) == crate::lexer::tokens_view(tokens@).push(eof_tv()),
            p.idx == 0,
            p.errors@.len() == 0,
            p_wf(p),
    {
        let ghost toks0 = tokens@;
        let mut tokens = tokens;
        tokens.push(Token::new(TokenType::Eof, "\u{0}", 0, 0));
        let p = Parser { tokens, idx: 0, errors: Vec::new() };
        proof {
            assert(toksv(p) =~= crate::lexer::tokens_view(toks0).push(eof_tv()));
        }
        p
    }

    /// Parses a token list into a program, or into the diagnostics
    /// recorded, in source order; the parse succeeds only when no
    /// diagnostic was recorded.
    pub fn parse(tokens: Vec<Token>) -> (r: Result<Program, Vec<String>>)
        ensures
            ({
                let s = s_parse(crate::lexer::tokens_view(tokens@));
                match r {
                    Result::Ok(p) => s.1.len() == 0 && p@ == s.0,
                    Result::Err(es) => s.1.len() > 0 && errs_view(es@) == s.1,
                }
            }),
    {
        proof {
            reveal(s_parse);
        }
        let mut p = Parser::new(tokens);
        let mut program: Vec<Stmt> = Vec::new();
        proof {
            assert(crate::ast::stmts_view(program@) =~= Seq::<StmtV>::empty());
            assert(errs_view(p.errors@) =~= Seq::<Seq<char>>::empty());
        }
        p.parse_program_rest(&mut program);
        if p.errors.len() == 0 {
            proof {
                let s = s_parse(crate::lexer::tokens_view(tokens@));
                assert(Seq::<Seq<char>>::empty() + s.1 =~= s.1);
            }
            Result::Ok(Program { program })
        } else {
            let mut es: Vec<String> = Vec::new();
            core::mem::swap(&mut es, &mut p.errors);
            proof {
                let s = s_parse(crate::lexer::tokens_view(tokens@));
                assert(Seq::<Seq<char>>::empty() + s.1 =~= s.1);
            }
            Result::Err(es)
        }
    }
}

} // verus!
