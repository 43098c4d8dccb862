//! Runtime values: integers, booleans, the null value, first-class
//! functions, error values, and the marker that carries a `return` upward.

use vstd::prelude::*;

use crate::ast::{exprs_view, stmts_view, BlockStmts, ExprV, Params, StmtV};
use crate::strings::{int_str, int_string};

verus! {

/// A runtime value. `ReturnValue` wraps the result of a `return` statement
/// while it travels up to the function-call boundary; `Error` carries a
/// message and taints every evaluation around it. A `Function` holds its
/// parameter list, its body, and the index of the environment frame it
/// captured.
#[derive(Debug, PartialEq)]
pub enum Object {
    Error(String),
    Null,
    Integer(i64),
    Boolean(bool),
    ReturnValue(Box<Object>),
    Function { params: Params, body: BlockStmts, env: usize },
}

/// The mathematical value of a runtime value.
pub enum ObjectV {
    Error(Seq<char>),
    Null,
    Integer(i64),
    Boolean(bool),
    ReturnValue(Box<ObjectV>),
    Function { params: Seq<ExprV>, body: Seq<StmtV>, env: int },
}

pub open spec fn object_view(o: Object) -> ObjectV
    decreases o,
{
    match o {
        Object::Error(m) => ObjectV::Error(m@),
        Object::Null => ObjectV::Null,
        Object::Integer(v) => ObjectV::Integer(v),
        Object::Boolean(b) => ObjectV::Boolean(b),
        Object::ReturnValue(inner) => ObjectV::ReturnValue(Box::new(object_view(*inner))),
        Object::Function { params, body, env } => ObjectV::Function {
            params: exprs_view(params.0@),
            body: stmts_view(body.0@),
            env: env as int,
        },
    }
}

impl View for Object {
    type V = ObjectV;

    open spec fn view(&self) -> ObjectV {
        object_view(*self)
    }
}

impl Clone for Object {
    fn clone(&self) -> (res: Object)
        ensures
            res@ == self@,
    {
        clone_object(self)
    }
}

fn clone_object(o: &Object) -> (res: Object)
    ensures
        res@ == o@,
    decreases o,
{
    match o {
        Object::Error(m) => Object::Error(m.clone()),
        Object::Null => Object::Null,
        Object::Integer(v) => Object::Integer(*v),
        Object::Boolean(b) => Object::Boolean(*b),
        Object::ReturnValue(inner) => Object::ReturnValue(Box::new(clone_object(inner))),
        Object::Function { params, body, env } => Object::Function {
            params: params.clone(),
            body: body.clone(),
            env: *env,
        },
    }
}

/// The name of a value's kind, as error messages spell it.
pub open spec fn kind_name(o: ObjectV) -> Seq<char> {
    match o {
        ObjectV::Error(_) => "Error"@,
        ObjectV::Null => "Null"@,
        ObjectV::Integer(_) => "Integer"@,
        ObjectV::Boolean(_) => "Bool"@,
        ObjectV::ReturnValue(_) => "ReturnValue"@,
        ObjectV::Function { .. } => "Function"@,
    }
}

/// How a value prints: an integer as its digits, a boolean as `true` or
/// `false`, null as `null`, an error as its bare message, a returned value
/// as the value it wraps, and a function as a fixed placeholder.
pub open spec fn inspect_v(o: ObjectV) -> Seq<char>
    decreases o,
{
    match o {
        ObjectV::Error(m) => m,
        ObjectV::Null => "null"@,
        ObjectV::Integer(v) => int_str(v as int),
        ObjectV::Boolean(b) => if b {
            "true"@
        } else {
            "false"@
        },
        ObjectV::ReturnValue(inner) => inspect_v(*inner),
        ObjectV::Function { .. } => "fn() {}"@,
    }
}

impl Object {
    /// Renders the name of this value's kind.
    pub fn kind_name_string(&self) -> (r: String)
        ensures
            r@ == kind_name(self@),
    {
        match self {
            Object::Error(_) => String::from_str("Error"),
            Object::Null => String::from_str("Null"),
            Object::Integer(_) => String::from_str("Integer"),
            Object::Boolean(_) => String::from_str("Bool"),
            Object::ReturnValue(_) => String::from_str("ReturnValue"),
            Object::Function { .. } => String::from_str("Function"),
        }
    }

    /// Renders the value for display.
    pub fn inspect(&self) -> (r: String)
        ensures
            r@ == inspect_v(self@),
        decreases self,
    {
        match self {
            Object::Error(m) => m.clone(),
            Object::Null => String::from_str("null"),
            Object::Integer(v) => int_string(*v),
            Object::Boolean(b) => {
                if *b {
                    String::from_str("true")
                } else {
                    String::from_str("false")
                }
            },
            Object::ReturnValue(inner) => inner.inspect(),
            Object::Function { .. } => String::from_str("fn() {}"),
        }
    }
}

/// The boolean object for a primitive boolean.
pub fn static_bool_obj(b: bool) -> (r: Object)
    ensures
        r == Object::Boolean(b),
{
    if b {
        Object::Boolean(true)
    } else {
        Object::Boolean(false)
    }
}

} // verus!
