//! The tree-walking evaluator. Every failure is an `Error` value returned
//! through the ordinary result channel, and a `return` travels upward as a
//! `ReturnValue` wrapper that only a function-call boundary (or the program
//! itself) unwraps. Evaluation carries a fuel bound on the depth of nested
//! interpreted function calls; each call costs one unit, so runaway
//! recursion in the interpreted program ends in an `Error` value instead of
//! exhausting the host stack.

use vstd::prelude::*;

use crate::ast::{
    expr_view, exprs_view, lemma_exprs_view, lemma_stmts_view, stmt_view, stmts_view, Expr, ExprV,
    InfixType, PrefixType, Program, Stmt, StmtV,
};
use crate::environment::{
    env_assign, env_bind, env_lookup, env_wf, Env, EnvV, FrameV,
};
use crate::object::{inspect_v, kind_name, Object, ObjectV};
use crate::render::{infix_op_push, infix_op_str};

verus! {

/// How many nested interpreted function calls an evaluation may make.
pub const DEFAULT_FUEL: u64 = 1024;

/// The outcome of one evaluation step: the value produced and the
/// environment after any bindings the step made.
#[verifier::ext_equal]
pub struct EvalOut {
    pub obj: ObjectV,
    pub env: EnvV,
}

/// The outcome of evaluating an argument list: the values in order, the
/// environment after them, and the error that stopped the walk, if any.
#[verifier::ext_equal]
pub struct ArgsOut {
    pub vals: Seq<ObjectV>,
    pub env: EnvV,
    pub err: Option<ObjectV>,
}

pub open spec fn is_error(o: ObjectV) -> bool {
    o is Error
}

/// Truthiness: booleans by value, integers by being nonzero, null false,
/// everything else true.
pub open spec fn is_truthy(o: ObjectV) -> bool {
    match o {
        ObjectV::Boolean(b) => b,
        ObjectV::Integer(v) => v != 0,
        ObjectV::Null => false,
        _ => true,
    }
}

pub open spec fn msg_ident_not_found(name: Seq<char>) -> Seq<char> {
    "Ident not found: "@ + name
}

pub open spec fn msg_type_mismatch(l: ObjectV, op: InfixType, r: ObjectV) -> Seq<char> {
    "Type Mismatched: "@ + kind_name(l) + " "@ + infix_op_str(op) + " "@ + kind_name(r)
}

pub open spec fn msg_unknown_minus(r: ObjectV) -> Seq<char> {
    "Unknown Operator: -"@ + kind_name(r)
}

/// Truncating 64-bit division, with the one overflowing quotient wrapping.
pub open spec fn div_values(a: i64, b: i64) -> i64 {
    if a == i64::MIN && b == -1 {
        i64::MIN
    } else {
        let au = if a < 0 {
            -(a as int)
        } else {
            a as int
        };
        let bu = if b < 0 {
            -(b as int)
        } else {
            b as int
        };
        let q = au / bu;
        if (a < 0) != (b < 0) {
            (-q) as i64
        } else {
            q as i64
        }
    }
}

/// The value of a prefix operation on an already evaluated operand.
pub open spec fn s_prefix_obj(op: PrefixType, r: ObjectV) -> ObjectV {
    match op {
        PrefixType::Bang => ObjectV::Boolean(!is_truthy(r)),
        PrefixType::Minus => match r {
            ObjectV::Integer(v) => ObjectV::Integer(
                vstd::wrapping::i64_specs::wrapping_sub(0i64, v),
            ),
            _ => ObjectV::Error(msg_unknown_minus(r)),
        },
    }
}

/// The value of a non-assignment infix operation on two already evaluated
/// operands. Arithmetic needs two integers and wraps on overflow; division
/// by zero is an error; equality is defined for two integers or two
/// booleans; every other pairing is a type mismatch.
pub open spec fn s_infix_obj(op: InfixType, l: ObjectV, r: ObjectV) -> ObjectV {
    match op {
        InfixType::Plus | InfixType::Minus | InfixType::Asterisk | InfixType::Slash
            | InfixType::Lt | InfixType::Gt => match (l, r) {
            (ObjectV::Integer(a), ObjectV::Integer(b)) => match op {
                InfixType::Plus => ObjectV::Integer(vstd::wrapping::i64_specs::wrapping_add(a, b)),
                InfixType::Minus => ObjectV::Integer(vstd::wrapping::i64_specs::wrapping_sub(a, b)),
                InfixType::Asterisk => ObjectV::Integer(
                    vstd::wrapping::i64_specs::wrapping_mul(a, b),
                ),
                InfixType::Slash => if b == 0 {
                    ObjectV::Error("Division by Zero"@)
                } else {
                    ObjectV::Integer(div_values(a, b))
                },
                InfixType::Lt => ObjectV::Boolean(a < b),
                _ => ObjectV::Boolean(a > b),
            },
            _ => ObjectV::Error(msg_type_mismatch(l, op, r)),
        },
        InfixType::Eq | InfixType::Neq => match (l, r) {
            (ObjectV::Integer(a), ObjectV::Integer(b)) => if op == InfixType::Eq {
                ObjectV::Boolean(a == b)
            } else {
                ObjectV::Boolean(a != b)
            },
            (ObjectV::Boolean(a), ObjectV::Boolean(b)) => if op == InfixType::Eq {
                ObjectV::Boolean(a == b)
            } else {
                ObjectV::Boolean(a != b)
            },
            _ => ObjectV::Error(msg_type_mismatch(l, op, r)),
        },
        InfixType::Assign => ObjectV::Error("Never Occur"@),
    }
}

/// The name under an assignment target, when the target is an identifier.
pub open spec fn assign_target(e: ExprV) -> Option<Seq<char>> {
    match e {
        ExprV::Ident { loc: _, name } => Option::Some(name),
        _ => Option::None,
    }
}

/// The bindings a call makes in its fresh frame: parameters paired with
/// argument values positionally, stopping at the shorter list.
pub open spec fn s_bind_params(params: Seq<ExprV>, vals: Seq<ObjectV>) -> Seq<
    (Seq<char>, ObjectV),
>
    decreases params,
{
    if params.len() == 0 || vals.len() == 0 {
        Seq::empty()
    } else {
        let rest = s_bind_params(params.drop_first(), vals.drop_first());
        match params[0] {
            ExprV::Ident { loc: _, name } => seq![(name, vals[0])] + rest,
            _ => rest,
        }
    }
}

/// Evaluation of one expression against an environment, seen from frame
/// `cur`, with `fuel` nested interpreted calls left.
pub open spec fn s_eval_expr(e: ExprV, env: EnvV, cur: int, fuel: nat) -> EvalOut
    decreases fuel, e, 0int,
{
    match e {
        ExprV::Ident { loc: _, name } => match env_lookup(env, cur, name) {
            Option::Some(v) => EvalOut { obj: v, env },
            Option::None => EvalOut { obj: ObjectV::Error(msg_ident_not_found(name)), env },
        },
        ExprV::Int { loc: _, value } => EvalOut { obj: ObjectV::Integer(value), env },
        ExprV::Bool { loc: _, value } => EvalOut { obj: ObjectV::Boolean(value), env },
        ExprV::Prefix { loc: _, operator, right } => {
            let r1 = s_eval_expr(*right, env, cur, fuel);
            if is_error(r1.obj) {
                r1
            } else {
                EvalOut { obj: s_prefix_obj(operator, r1.obj), env: r1.env }
            }
        },
        ExprV::Infix { loc: _, left, operator, right } => {
            if operator == InfixType::Assign {
                match assign_target(*left) {
                    Option::Some(name) => {
                        let r2 = s_eval_expr(*right, env, cur, fuel);
                        if is_error(r2.obj) {
                            r2
                        } else {
                            EvalOut { obj: r2.obj, env: env_assign(r2.env, cur, name, r2.obj) }
                        }
                    },
                    Option::None => EvalOut {
                        obj: ObjectV::Error("Cannot Assign to non-identifier"@),
                        env,
                    },
                }
            } else {
                let r1 = s_eval_expr(*left, env, cur, fuel);
                if is_error(r1.obj) {
                    r1
                } else {
                    let r2 = s_eval_expr(*right, r1.env, cur, fuel);
                    if is_error(r2.obj) {
                        r2
                    } else {
                        EvalOut { obj: s_infix_obj(operator, r1.obj, r2.obj), env: r2.env }
                    }
                }
            }
        },
        ExprV::If { loc: _, condition, consequence, alternative } => {
            let c = s_eval_expr(*condition, env, cur, fuel);
            if is_error(c.obj) {
                c
            } else if is_truthy(c.obj) {
                s_eval_block(consequence, c.env, cur, fuel)
            } else {
                s_eval_block(alternative, c.env, cur, fuel)
            }
        },
        ExprV::FuncLiteral { loc: _, parameters, body } => EvalOut {
            obj: ObjectV::Function { params: parameters, body, env: cur },
            env,
        },
        ExprV::FuncCall { loc: _, ident, args } => {
            let f = s_eval_expr(*ident, env, cur, fuel);
            if is_error(f.obj) {
                f
            } else {
                match f.obj {
                    ObjectV::Function { params, body, env: captured } => {
                        let a = s_eval_args(args, f.env, cur, fuel);
                        match a.err {
                            Option::Some(err) => EvalOut { obj: err, env: a.env },
                            Option::None => {
                                if fuel == 0 {
                                    EvalOut {
                                        obj: ObjectV::Error("Max call depth exceeded"@),
                                        env: a.env,
                                    }
                                } else if !(0 <= captured < a.env.len()) {
                                    EvalOut {
                                        obj: ObjectV::Error("Invalid Function Environment"@),
                                        env: a.env,
                                    }
                                } else {
                                    let child = a.env.len() as int;
                                    let env1 = a.env.push(
                                        FrameV {
                                            bindings: s_bind_params(params, a.vals),
                                            parent: Option::Some(captured),
                                        },
                                    );
                                    s_eval_program_block(body, env1, child, (fuel - 1) as nat)
                                }
                            },
                        }
                    },
                    _ => EvalOut { obj: ObjectV::Error("Not a func"@), env: f.env },
                }
            }
        },
    }
}

/// Evaluation of an argument list, left to right, stopping at the first
/// error.
pub open spec fn s_eval_args(args: Seq<ExprV>, env: EnvV, cur: int, fuel: nat) -> ArgsOut
    decreases fuel, args, 1int,
{
    if args.len() == 0 {
        ArgsOut { vals: Seq::empty(), env, err: Option::None }
    } else {
        let r = s_eval_expr(args[0], env, cur, fuel);
        if is_error(r.obj) {
            ArgsOut { vals: Seq::empty(), env: r.env, err: Option::Some(r.obj) }
        } else {
            let rest = s_eval_args(args.drop_first(), r.env, cur, fuel);
            ArgsOut { vals: seq![r.obj] + rest.vals, env: rest.env, err: rest.err }
        }
    }
}

/// Evaluation of one statement.
pub open spec fn s_eval_stmt(s: StmtV, env: EnvV, cur: int, fuel: nat) -> EvalOut
    decreases fuel, s, 2int,
{
    match s {
        StmtV::Expr { expr } => s_eval_expr(expr, env, cur, fuel),
        StmtV::Return { expr } => {
            let r = s_eval_expr(expr, env, cur, fuel);
            if is_error(r.obj) {
                r
            } else {
                EvalOut { obj: ObjectV::ReturnValue(Box::new(r.obj)), env: r.env }
            }
        },
        StmtV::Let { name, expr } => match name {
            ExprV::Ident { loc: _, name: n } => {
                let r = s_eval_expr(expr, env, cur, fuel);
                if is_error(r.obj) {
                    r
                } else {
                    EvalOut { obj: ObjectV::Null, env: env_bind(r.env, cur, n, r.obj) }
                }
            },
            _ => EvalOut { obj: ObjectV::Error("Cannot Assign to non-identifier"@), env },
        },
    }
}

/// Evaluation of the statements of a nested block, in order against the
/// same frame. An `Error` stops the walk; a `ReturnValue` stops it and is
/// passed on unchanged, so it keeps travelling to the nearest call
/// boundary. An empty block is `Null`.
pub open spec fn s_eval_block(ss: Seq<StmtV>, env: EnvV, cur: int, fuel: nat) -> EvalOut
    decreases fuel, ss, 1int,
{
    if ss.len() == 0 {
        EvalOut { obj: ObjectV::Null, env }
    } else {
        let r = s_eval_stmt(ss[0], env, cur, fuel);
        if r.obj is Error || r.obj is ReturnValue {
            r
        } else if ss.len() == 1 {
            r
        } else {
            s_eval_block(ss.drop_first(), r.env, cur, fuel)
        }
    }
}

/// Evaluation of the statements of a program or a function body: like a
/// nested block, except that a `ReturnValue` is unwrapped here and its
/// inner value returned.
pub open spec fn s_eval_program_block(ss: Seq<StmtV>, env: EnvV, cur: int, fuel: nat) -> EvalOut
    decreases fuel, ss, 1int,
{
    if ss.len() == 0 {
        EvalOut { obj: ObjectV::Null, env }
    } else {
        let r = s_eval_stmt(ss[0], env, cur, fuel);
        match r.obj {
            ObjectV::Error(_) => r,
            ObjectV::ReturnValue(inner) => EvalOut { obj: *inner, env: r.env },
            _ => {
                if ss.len() == 1 {
                    r
                } else {
                    s_eval_program_block(ss.drop_first(), r.env, cur, fuel)
                }
            },
        }
    }
}

/// The views of a sequence of runtime values.
pub open spec fn objs_view(s: Seq<Object>) -> Seq<ObjectV> {
    s.map_values(|o: Object| o@)
}

fn is_error_obj(o: &Object) -> (r: bool)
    ensures
        r == is_error(o@),
{
    match o {
        Object::Error(_) => true,
        _ => false,
    }
}

fn is_truthy_obj(o: &Object) -> (r: bool)
    ensures
        r == is_truthy(o@),
{
    match o {
        Object::Boolean(b) => *b,
        Object::Integer(v) => *v != 0,
        Object::Null => false,
        _ => true,
    }
}

fn mismatch_error(l: &Object, op: InfixType, r: &Object) -> (res: Object)
    ensures
        res@ == ObjectV::Error(msg_type_mismatch(l@, op, r@)),
{
    let mut m = String::from_str("Type Mismatched: ");
    let ln = l.kind_name_string();
    m.append(ln.as_str());
    m.append(" ");
    infix_op_push(op, &mut m);
    m.append(" ");
    let rn = r.kind_name_string();
    m.append(rn.as_str());
    Object::Error(m)
}

fn div_i64(a: i64, b: i64) -> (r: i64)
    requires
        b != 0,
    ensures
        r == div_values(a, b),
{
    if a == i64::MIN && b == -1 {
        i64::MIN
    } else {
        let au: u64 = if a == i64::MIN {
            9223372036854775808u64
        } else if a < 0 {
            (-a) as u64
        } else {
            a as u64
        };
        let bu: u64 = if b == i64::MIN {
            9223372036854775808u64
        } else if b < 0 {
            (-b) as u64
        } else {
            b as u64
        };
        let q: u64 = au / bu;
        proof {
            assert(au as int / bu as int <= au as int) by (nonlinear_arith)
                requires
                    bu >= 1,
                    au >= 0,
            ;
        }
        if (a < 0) != (b < 0) {
            if q == 9223372036854775808u64 {
                i64::MIN
            } else {
                -(q as i64)
            }
        } else {
            proof {
                if a == i64::MIN {
                    assert(bu >= 2);
                    assert(au as int / bu as int <= au as int / 2) by (nonlinear_arith)
                        requires
                            bu >= 2,
                            au >= 0,
                    ;
                }
            }
            q as i64
        }
    }
}

fn eval_prefix(op: PrefixType, right: Object) -> (res: Object)
    ensures
        res@ == s_prefix_obj(op, right@),
{
    match op {
        PrefixType::Bang => Object::Boolean(!is_truthy_obj(&right)),
        PrefixType::Minus => match right {
            Object::Integer(v) => {
                let zero: i64 = 0;
                Object::Integer(zero.wrapping_sub(v))
            },
            _ => {
                let mut m = String::from_str("Unknown Operator: -");
                let rn = right.kind_name_string();
                m.append(rn.as_str());
                Object::Error(m)
            },
        },
    }
}

fn eval_infix_vals(op: InfixType, l: Object, r: Object) -> (res: Object)
    ensures
        res@ == s_infix_obj(op, l@, r@),
{
    match op {
        InfixType::Plus | InfixType::Minus | InfixType::Asterisk | InfixType::Slash
            | InfixType::Lt | InfixType::Gt => {
            match (&l, &r) {
                (Object::Integer(a), Object::Integer(b)) => {
                    let a = *a;
                    let b = *b;
                    match op {
                        InfixType::Plus => Object::Integer(a.wrapping_add(b)),
                        InfixType::Minus => Object::Integer(a.wrapping_sub(b)),
                        InfixType::Asterisk => Object::Integer(a.wrapping_mul(b)),
                        InfixType::Slash => {
                            if b == 0 {
                                Object::Error(String::from_str("Division by Zero"))
                            } else {
                                Object::Integer(div_i64(a, b))
                            }
                        },
                        InfixType::Lt => Object::Boolean(a < b),
                        _ => Object::Boolean(a > b),
                    }
                },
                _ => mismatch_error(&l, op, &r),
            }
        },
        InfixType::Eq | InfixType::Neq => {
            match (&l, &r) {
                (Object::Integer(a), Object::Integer(b)) => {
                    if op == InfixType::Eq {
                        Object::Boolean(*a == *b)
                    } else {
                        Object::Boolean(*a != *b)
                    }
                },
                (Object::Boolean(a), Object::Boolean(b)) => {
                    if op == InfixType::Eq {
                        Object::Boolean(*a == *b)
                    } else {
                        Object::Boolean(*a != *b)
                    }
                },
                _ => mismatch_error(&l, op, &r),
            }
        },
        InfixType::Assign => Object::Error(String::from_str("Never Occur")),
    }
}

fn bind_params_from(
    params: &Vec<Expr>,
    vals: &Vec<Object>,
    i: usize,
    out: &mut Vec<(String, Object)>,
)
    requires
        i <= params@.len(),
        i <= vals@.len(),
    ensures
        final(out)@.map_values(|b: (String, Object)| (b.0@, b.1@)) == old(out)@.map_values(
            |b: (String, Object)| (b.0@, b.1@),
        ) + s_bind_params(
            exprs_view(params@).subrange(i as int, params@.len() as int),
            objs_view(vals@).subrange(i as int, vals@.len() as int),
        ),
    decreases params@.len() - i,
{
    proof {
        broadcast use lemma_exprs_view;

    }
    let ghost pv = exprs_view(params@).subrange(i as int, params@.len() as int);
    let ghost vv = objs_view(vals@).subrange(i as int, vals@.len() as int);
    if i < params.len() && i < vals.len() {
        proof {
            assert(pv[0] == expr_view(params@[i as int]));
            assert(vv[0] == vals@[i as int]@);
            assert(pv.drop_first() =~= exprs_view(params@).subrange(
                i as int + 1,
                params@.len() as int,
            ));
            assert(vv.drop_first() =~= objs_view(vals@).subrange(i as int + 1, vals@.len() as int));
        }
        match &params[i] {
            Expr::Ident { loc: _, name } => {
                out.push((name.clone(), vals[i].clone()));
            },
            _ => {},
        }
        bind_params_from(params, vals, i + 1, out);
        proof {
            assert(final(out)@.map_values(|b: (String, Object)| (b.0@, b.1@)) =~= old(
                out,
            )@.map_values(|b: (String, Object)| (b.0@, b.1@)) + s_bind_params(pv, vv));
        }
    } else {
        proof {
            assert(s_bind_params(pv, vv) =~= Seq::<(Seq<char>, ObjectV)>::empty());
            assert(final(out)@.map_values(|b: (String, Object)| (b.0@, b.1@)) =~= old(
                out,
            )@.map_values(|b: (String, Object)| (b.0@, b.1@)) + s_bind_params(pv, vv));
        }
    }
}

/// Evaluates one expression against the environment, seen from frame
/// `cur`, with `fuel` nested interpreted calls left.
pub fn eval_expr_at(e: &Expr, env: &mut Env, cur: usize, fuel: u64) -> (r: Object)
    requires
        cur < old(env)@.len(),
        env_wf(old(env)@),
    ensures
        env_wf(final(env)@),
        old(env)@.len() <= final(env)@.len(),
        r@ == s_eval_expr(e@, old(env)@, cur as int, fuel as nat).obj,
        final(env)@ == s_eval_expr(e@, old(env)@, cur as int, fuel as nat).env,
    decreases fuel, e, 0int,
{
    match e {
        Expr::Ident { loc: _, name } => {
            match env.get(cur, name.as_str()) {
                Option::Some(o) => o,
                Option::None => {
                    let mut m = String::from_str("Ident not found: ");
                    m.append(name.as_str());
                    Object::Error(m)
                },
            }
        },
        Expr::Int { loc: _, value } => Object::Integer(*value),
        Expr::Bool { loc: _, value } => Object::Boolean(*value),
        Expr::Prefix { loc: _, operator, right } => {
            let r1 = eval_expr_at(right, env, cur, fuel);
            if is_error_obj(&r1) {
                r1
            } else {
                eval_prefix(*operator, r1)
            }
        },
        Expr::Infix { loc, left, operator, right } => {
            proof {
                assert(e@ == ExprV::Infix {
                    loc: *loc,
                    left: Box::new(expr_view(*(*left))),
                    operator: *operator,
                    right: Box::new(expr_view(*(*right))),
                });
            }
            if *operator == InfixType::Assign {
                match &**left {
                    Expr::Ident { loc: target_loc, name } => {
                        proof {
                            assert(expr_view(*(*left)) == ExprV::Ident {
                                loc: *target_loc,
                                name: name@,
                            });
                        }
                        let r2 = eval_expr_at(right, env, cur, fuel);
                        if is_error_obj(&r2) {
                            r2
                        } else {
                            let v = r2.clone();
                            env.assign(cur, name.clone(), v);
                            r2
                        }
                    },
                    _ => Object::Error(String::from_str("Cannot Assign to non-identifier")),
                }
            } else {
                let r1 = eval_expr_at(left, env, cur, fuel);
                if is_error_obj(&r1) {
                    r1
                } else {
                    let r2 = eval_expr_at(right, env, cur, fuel);
                    if is_error_obj(&r2) {
                        r2
                    } else {
                        eval_infix_vals(*operator, r1, r2)
                    }
                }
            }
        },
        Expr::If { loc: _, condition, consequence, alternative } => {
            let c = eval_expr_at(condition, env, cur, fuel);
            if is_error_obj(&c) {
                c
            } else {
                proof {
                    broadcast use lemma_stmts_view;

                    assert(consequence.0@.subrange(0, consequence.0@.len() as int)
                        =~= consequence.0@);
                    assert(alternative.0@.subrange(0, alternative.0@.len() as int)
                        =~= alternative.0@);
                    assert(stmts_view(consequence.0@).subrange(0, consequence.0@.len() as int)
                        =~= stmts_view(consequence.0@));
                    assert(stmts_view(alternative.0@).subrange(0, alternative.0@.len() as int)
                        =~= stmts_view(alternative.0@));
                }
                if is_truthy_obj(&c) {
                    eval_block_at(&consequence.0, 0, env, cur, fuel)
                } else {
                    eval_block_at(&alternative.0, 0, env, cur, fuel)
                }
            }
        },
        Expr::FuncLiteral { loc: _, parameters, body } => Object::Function {
            params: parameters.clone(),
            body: body.clone(),
            env: cur,
        },
        Expr::FuncCall { loc: _, ident, args } => {
            let f = eval_expr_at(ident, env, cur, fuel);
            if is_error_obj(&f) {
                f
            } else {
                match f {
                    Object::Function { params, body, env: captured } => {
                        proof {
                            broadcast use lemma_exprs_view;

                            assert(args.0@.subrange(0, args.0@.len() as int) =~= args.0@);
                            assert(exprs_view(args.0@).subrange(0, args.0@.len() as int)
                                =~= exprs_view(args.0@));
                        }
                        let mut vals: Vec<Object> = Vec::new();
                        let argerr = eval_args_at(&args.0, 0, &mut vals, env, cur, fuel);
                        match argerr {
                            Option::Some(errobj) => errobj,
                            Option::None => {
                                if fuel == 0 {
                                    Object::Error(String::from_str("Max call depth exceeded"))
                                } else if captured >= env.frames.len() {
                                    Object::Error(
                                        String::from_str("Invalid Function Environment"),
                                    )
                                } else {
                                    let mut bound: Vec<(String, Object)> = Vec::new();
                                    bind_params_from(&params.0, &vals, 0, &mut bound);
                                    proof {
                                        broadcast use lemma_exprs_view;
                                        broadcast use lemma_stmts_view;

                                        assert(exprs_view(params.0@).subrange(
                                            0,
                                            params.0@.len() as int,
                                        ) =~= exprs_view(params.0@));
                                        assert(objs_view(vals@).subrange(0, vals@.len() as int)
                                            =~= objs_view(vals@));
                                        assert(Seq::<(Seq<char>, ObjectV)>::empty()
                                            + s_bind_params(exprs_view(params.0@), objs_view(vals@))
                                            =~= s_bind_params(
                                            exprs_view(params.0@),
                                            objs_view(vals@),
                                        ));
                                        assert(body.0@.subrange(0, body.0@.len() as int)
                                            =~= body.0@);
                                        assert(stmts_view(body.0@).subrange(
                                            0,
                                            body.0@.len() as int,
                                        ) =~= stmts_view(body.0@));
                                    }
                                    let child = env.push_frame(bound, captured);
                                    eval_program_at(&body.0, 0, env, child, fuel - 1)
                                }
                            },
                        }
                    },
                    _ => Object::Error(String::from_str("Not a func")),
                }
            }
        },
    }
}

/// Evaluates an argument list left to right into `vals`, stopping at and
/// returning the first error.
fn eval_args_at(
    args: &Vec<Expr>,
    i: usize,
    vals: &mut Vec<Object>,
    env: &mut Env,
    cur: usize,
    fuel: u64,
) -> (r: Option<Object>)
    requires
        i <= args@.len(),
        old(vals)@.len() == 0,
        cur < old(env)@.len(),
        env_wf(old(env)@),
    ensures
        env_wf(final(env)@),
        old(env)@.len() <= final(env)@.len(),
        ({
            let a = s_eval_args(
                exprs_view(args@).subrange(i as int, args@.len() as int),
                old(env)@,
                cur as int,
                fuel as nat,
            );
            &&& final(env)@ == a.env
            &&& match r {
                Option::Some(o) => a.err == Option::Some(o@),
                Option::None => a.err is None && objs_view(final(vals)@) == a.vals,
            }
        }),
    decreases fuel, args@.subrange(i as int, args@.len() as int), 1int,
{
    proof {
        broadcast use lemma_exprs_view;

    }
    let ghost av = exprs_view(args@).subrange(i as int, args@.len() as int);
    if i < args.len() {
        proof {
            assert(args@.subrange(i as int, args@.len() as int)[0] == args@[i as int]);
            assert(av[0] == expr_view(args@[i as int]));
        }
        let v = eval_expr_at(&args[i], env, cur, fuel);
        if is_error_obj(&v) {
            Option::Some(v)
        } else {
            proof {
                assert(args@.subrange(i as int, args@.len() as int).drop_first() =~= args@.subrange(
                    i as int + 1,
                    args@.len() as int,
                ));
                assert(av.drop_first() =~= exprs_view(args@).subrange(
                    i as int + 1,
                    args@.len() as int,
                ));
            }
            let r = eval_args_at(args, i + 1, vals, env, cur, fuel);
            let ghost prevals = vals@;
            vals.insert(0, v);
            proof {
                match r {
                    Option::Some(_) => {},
                    Option::None => {
                        assert(objs_view(vals@) =~= seq![
                            s_eval_expr(av[0], old(env)@, cur as int, fuel as nat).obj,
                        ] + objs_view(prevals));
                    },
                }
            }
            r
        }
    } else {
        Option::None
    }
}

/// Evaluates one statement.
pub fn eval_stmt_at(s: &Stmt, env: &mut Env, cur: usize, fuel: u64) -> (r: Object)
    requires
        cur < old(env)@.len(),
        env_wf(old(env)@),
    ensures
        env_wf(final(env)@),
        old(env)@.len() <= final(env)@.len(),
        r@ == s_eval_stmt(s@, old(env)@, cur as int, fuel as nat).obj,
        final(env)@ == s_eval_stmt(s@, old(env)@, cur as int, fuel as nat).env,
    decreases fuel, s, 2int,
{
    match s {
        Stmt::Expr { expr } => eval_expr_at(expr, env, cur, fuel),
        Stmt::Return { expr } => {
            let r = eval_expr_at(expr, env, cur, fuel);
            if is_error_obj(&r) {
                r
            } else {
                Object::ReturnValue(Box::new(r))
            }
        },
        Stmt::Let { name, expr } => {
            match name {
                Expr::Ident { loc: _, name: n } => {
                    let r = eval_expr_at(expr, env, cur, fuel);
                    if is_error_obj(&r) {
                        r
                    } else {
                        env.set(cur, n.clone(), r);
                        Object::Null
                    }
                },
                _ => Object::Error(String::from_str("Cannot Assign to non-identifier")),
            }
        },
    }
}

/// Evaluates the statements of a nested block from index `i` on.
fn eval_block_at(stmts: &Vec<Stmt>, i: usize, env: &mut Env, cur: usize, fuel: u64) -> (r: Object)
    requires
        i <= stmts@.len(),
        cur < old(env)@.len(),
        env_wf(old(env)@),
    ensures
        env_wf(final(env)@),
        old(env)@.len() <= final(env)@.len(),
        r@ == s_eval_block(
            stmts_view(stmts@).subrange(i as int, stmts@.len() as int),
            old(env)@,
            cur as int,
            fuel as nat,
        ).obj,
        final(env)@ == s_eval_block(
            stmts_view(stmts@).subrange(i as int, stmts@.len() as int),
            old(env)@,
            cur as int,
            fuel as nat,
        ).env,
    decreases fuel, stmts@.subrange(i as int, stmts@.len() as int), 1int,
{
    proof {
        broadcast use lemma_stmts_view;

    }
    let ghost sv = stmts_view(stmts@).subrange(i as int, stmts@.len() as int);
    if i == stmts.len() {
        Object::Null
    } else {
        proof {
            assert(stmts@.subrange(i as int, stmts@.len() as int)[0] == stmts@[i as int]);
            assert(sv[0] == stmt_view(stmts@[i as int]));
        }
        let r = eval_stmt_at(&stmts[i], env, cur, fuel);
        let stop = match &r {
            Object::Error(_) => true,
            Object::ReturnValue(_) => true,
            _ => false,
        };
        if stop {
            r
        } else if i + 1 == stmts.len() {
            r
        } else {
            proof {
                assert(stmts@.subrange(i as int, stmts@.len() as int).drop_first()
                    =~= stmts@.subrange(i as int + 1, stmts@.len() as int));
                assert(sv.drop_first() =~= stmts_view(stmts@).subrange(
                    i as int + 1,
                    stmts@.len() as int,
                ));
            }
            eval_block_at(stmts, i + 1, env, cur, fuel)
        }
    }
}

/// Evaluates the statements of a program or function body from index `i`
/// on, unwrapping a `ReturnValue` into the value it carries.
fn eval_program_at(stmts: &Vec<Stmt>, i: usize, env: &mut Env, cur: usize, fuel: u64) -> (r:
    Object)
    requires
        i <= stmts@.len(),
        cur < old(env)@.len(),
        env_wf(old(env)@),
    ensures
        env_wf(final(env)@),
        old(env)@.len() <= final(env)@.len(),
        r@ == s_eval_program_block(
            stmts_view(stmts@).subrange(i as int, stmts@.len() as int),
            old(env)@,
            cur as int,
            fuel as nat,
        ).obj,
        final(env)@ == s_eval_program_block(
            stmts_view(stmts@).subrange(i as int, stmts@.len() as int),
            old(env)@,
            cur as int,
            fuel as nat,
        ).env,
    decreases fuel, stmts@.subrange(i as int, stmts@.len() as int), 1int,
{
    proof {
        broadcast use lemma_stmts_view;

    }
    let ghost sv = stmts_view(stmts@).subrange(i as int, stmts@.len() as int);
    if i == stmts.len() {
        Object::Null
    } else {
        proof {
            assert(stmts@.subrange(i as int, stmts@.len() as int)[0] == stmts@[i as int]);
            assert(sv[0] == stmt_view(stmts@[i as int]));
        }
        let r = eval_stmt_at(&stmts[i], env, cur, fuel);
        match r {
            Object::Error(m) => Object::Error(m),
            Object::ReturnValue(inner) => *inner,
            other => {
                if i + 1 == stmts.len() {
                    other
                } else {
                    proof {
                        assert(stmts@.subrange(i as int, stmts@.len() as int).drop_first()
                            =~= stmts@.subrange(i as int + 1, stmts@.len() as int));
                        assert(sv.drop_first() =~= stmts_view(stmts@).subrange(
                            i as int + 1,
                            stmts@.len() as int,
                        ));
                    }
                    eval_program_at(stmts, i + 1, env, cur, fuel)
                }
            },
        }
    }
}

/// Evaluates a whole program against the global frame with the default
/// call-depth fuel, unwrapping a top-level `return`.
pub fn eval(program: &Program, env: &mut Env) -> (r: Object)
    requires
        old(env)@.len() > 0,
        env_wf(old(env)@),
    ensures
        env_wf(final(env)@),
        old(env)@.len() <= final(env)@.len(),
        r@ == s_eval_program_block(program@, old(env)@, 0, DEFAULT_FUEL as nat).obj,
        final(env)@ == s_eval_program_block(program@, old(env)@, 0, DEFAULT_FUEL as nat).env,
{
    proof {
        broadcast use lemma_stmts_view;

        assert(program.program@.subrange(0, program.program@.len() as int) =~= program.program@);
        assert(stmts_view(program.program@).subrange(0, program.program@.len() as int)
            =~= stmts_view(program.program@));
    }
    eval_program_at(&program.program, 0, env, 0, DEFAULT_FUEL)
}

/// Evaluates a single statement against the global frame with the default
/// call-depth fuel.
pub fn eval_stmt(s: &Stmt, env: &mut Env) -> (r: Object)
    requires
        old(env)@.len() > 0,
        env_wf(old(env)@),
    ensures
        env_wf(final(env)@),
        r@ == s_eval_stmt(s@, old(env)@, 0, DEFAULT_FUEL as nat).obj,
        final(env)@ == s_eval_stmt(s@, old(env)@, 0, DEFAULT_FUEL as nat).env,
{
    eval_stmt_at(s, env, 0, DEFAULT_FUEL)
}

/// Diagnostics joined by line breaks.
pub open spec fn join_errs(es: Seq<Seq<char>>) -> Seq<char>
    decreases es,
{
    if es.len() == 0 {
        Seq::empty()
    } else if es.len() == 1 {
        es[0]
    } else {
        es[0] + "\n"@ + join_errs(es.drop_first())
    }
}

fn join_errors_from(es: &Vec<String>, i: usize, out: &mut String)
    requires
        i <= es@.len(),
    ensures
        final(out)@ == old(out)@ + join_errs(
            crate::parser::errs_view(es@).subrange(i as int, es@.len() as int),
        ),
    decreases es@.len() - i,
{
    let ghost tail = crate::parser::errs_view(es@).subrange(i as int, es@.len() as int);
    if i < es.len() {
        proof {
            assert(tail[0] == es@[i as int]@);
        }
        out.append(es[i].as_str());
        if i + 1 < es.len() {
            out.append("\n");
            join_errors_from(es, i + 1, out);
            proof {
                assert(tail.drop_first() =~= crate::parser::errs_view(es@).subrange(
                    i as int + 1,
                    es@.len() as int,
                ));
                assert(final(out)@ =~= old(out)@ + join_errs(tail));
            }
        }
    } else {
        proof {
            assert(out@ =~= old(out)@ + join_errs(tail));
        }
    }
}

/// One read-and-run step over an input line: the tokens scanned, the
/// program parsed, and the result. Diagnostics end the step, joined by
/// line breaks, with the environment untouched; an empty program prints
/// nothing; otherwise the program runs against the session environment and
/// the result is its rendering.
pub open spec fn s_run(input: Seq<char>, env: EnvV) -> (Seq<char>, EnvV) {
    let toks = crate::lexer::s_tokenize(crate::lexer::s_lexer_new(input));
    let parsed = crate::parser::s_parse(toks);
    if parsed.1.len() > 0 {
        (join_errs(parsed.1), env)
    } else if parsed.0.len() == 0 {
        (Seq::empty(), env)
    } else {
        let r = s_eval_program_block(parsed.0, env, 0, DEFAULT_FUEL as nat);
        (inspect_v(r.obj), r.env)
    }
}

/// An interpreter session: one environment that persists across the lines
/// it runs, so bindings accumulate.
pub struct Eval {
    pub env: Env,
}

impl Eval {
    /// A fresh session over an empty global environment.
    pub fn new() -> (r: Eval)
        ensures
            r.env@.len() == 1,
            r.env@[0].bindings.len() == 0,
            env_wf(r.env@),
    {
        Eval { env: Env::new() }
    }

    /// Scans, parses and evaluates one input line against the session
    /// environment, and renders what came of it.
    #[verifier::spinoff_prover]
    #[verifier::rlimit(100)]
    pub fn run(&mut self, input: &str) -> (out: String)
        requires
            input@.len() + 2 <= i64::MAX,
            input@.len() + 2 <= usize::MAX,
            old(self).env@.len() > 0,
            env_wf(old(self).env@),
        ensures
            final(self).env@.len() > 0,
            env_wf(final(self).env@),
            out@ == s_run(input@, old(self).env@).0,
            final(self).env@ == s_run(input@, old(self).env@).1,
    {
        let ghost toksp = crate::lexer::s_tokenize(crate::lexer::s_lexer_new(input@));
        let ghost parsed = crate::parser::s_parse(toksp);
        let ghost sr = s_run(input@, old(self).env@);
        let tokens = crate::lexer::Lexer::tokenize(input);
        proof {
            assert(crate::lexer::tokens_view(tokens@) == toksp);
        }
        match crate::parser::Parser::parse(tokens) {
            Result::Err(errors) => {
                proof {
                    assert(crate::parser::errs_view(errors@) == parsed.1);
                    assert(sr.0 == join_errs(parsed.1) && sr.1 == old(self).env@);
                }
                let mut out = String::new();
                proof {
                    assert(crate::parser::errs_view(errors@).subrange(
                        0,
                        errors@.len() as int,
                    ) =~= crate::parser::errs_view(errors@));
                }
                join_errors_from(&errors, 0, &mut out);
                proof {
                    assert(Seq::<char>::empty() + join_errs(crate::parser::errs_view(errors@))
                        =~= join_errs(crate::parser::errs_view(errors@)));
                }
                out
            },
            Result::Ok(program) => {
                proof {
                    assert(program@ == parsed.0 && parsed.1.len() == 0);
                    broadcast use lemma_stmts_view;

                }
                if program.program.len() == 0 {
                    proof {
                        assert(sr.0 == Seq::<char>::empty() && sr.1 == old(self).env@);
                    }
                    let out = String::new();
                    proof {
                        assert(out@ =~= Seq::<char>::empty());
                    }
                    out
                } else {
                    proof {
                        assert(parsed.0.len() > 0);
                        assert(sr.0 == inspect_v(
                            s_eval_program_block(parsed.0, old(self).env@, 0, DEFAULT_FUEL as nat).obj,
                        ));
                    }
                    let obj = eval(&program, &mut self.env);
                    obj.inspect()
                }
            },
        }
    }
}

/// Evaluation is a function of the syntax tree and the starting
/// environment alone: the same immutable tree, evaluated against equal
/// environments with equal fuel, gives equal results and equal final
/// environments. Two runs over fresh environments therefore agree.
pub proof fn lemma_eval_deterministic(
    prog: Seq<StmtV>,
    env1: EnvV,
    env2: EnvV,
    cur: int,
    fuel: nat,
)
    requires
        env1 == env2,
    ensures
        s_eval_program_block(prog, env1, cur, fuel) == s_eval_program_block(prog, env2, cur, fuel),
{
}

} // verus!
