//! A small tree-walking evaluator for arithmetic and comparison
//! expressions, used to exercise the parser's precedence and
//! associativity independently of the code generator.  Arithmetic is
//! 32-bit and signed; division truncates towards zero; any type error,
//! division by zero or overflow yields no result.
use crate::lexer::tokenize;
use crate::parser::parse_exp;
use crate::parser::spec_parse_assign;
use crate::parser::Exp;
use crate::parser::ExpV;
use crate::parser::Op;
use vstd::prelude::*;

verus! {

/// A value an expression can evaluate to: an integer, a truth value, or
/// a bare variable name (which no arithmetic accepts).
#[derive(Debug, PartialEq, Eq)]
pub enum Val {
    Int(i32),
    B(bool),
    Var(String),
}

/// The mathematical image of a `Val`.
pub enum ValV {
    Int(int),
    B(bool),
    Var(Seq<char>),
}

impl DeepView for Val {
    type V = ValV;

    open spec fn deep_view(&self) -> ValV {
        match self {
            Val::Int(i) => ValV::Int(*i as int),
            Val::B(b) => ValV::B(*b),
            Val::Var(s) => ValV::Var(s@),
        }
    }
}

/// The integer result of an arithmetic step, if it fits in 32 signed
/// bits.
pub open spec fn int_result(x: int) -> Option<ValV> {
    if i32::MIN <= x <= i32::MAX {
        Some(ValV::Int(x))
    } else {
        None
    }
}

/// Signed division truncating towards zero.
pub open spec fn trunc_div(l: int, r: int) -> int {
    let q = abs_int(l) / abs_int(r);
    if (l < 0) != (r < 0) {
        -q
    } else {
        q
    }
}

pub open spec fn abs_int(x: int) -> int {
    if x < 0 {
        -x
    } else {
        x
    }
}

/// What an expression evaluates to: literals and variables evaluate to
/// themselves, arithmetic combines two integer operands, comparisons
/// yield truth values.  Anything else — a unary node, a call, an
/// assignment, a non-integer operand, division by zero, or a result out
/// of 32-bit range — has no value.
pub open spec fn spec_eval(e: ExpV) -> Option<ValV>
    decreases e,
{
    match e {
        ExpV::Int(i) => Some(ValV::Int(i)),
        ExpV::Var(v) => Some(ValV::Var(v)),
        ExpV::InfixExp { left, op, right } => match (spec_eval(*left), spec_eval(*right)) {
            (Some(ValV::Int(l)), Some(ValV::Int(r))) => match op {
                Op::Plus => int_result(l + r),
                Op::Minus => int_result(l - r),
                Op::Asterisk => int_result(l * r),
                Op::Slash => if r == 0 {
                    None
                } else {
                    int_result(trunc_div(l, r))
                },
                Op::Eq => Some(ValV::B(l == r)),
                Op::NotEq => Some(ValV::B(l != r)),
                Op::Ls => Some(ValV::B(l < r)),
                Op::Gr => Some(ValV::B(l > r)),
                Op::LsEq => Some(ValV::B(l <= r)),
                Op::GrEq => Some(ValV::B(l >= r)),
                Op::Assign => None,
            },
            _ => None,
        },
        _ => None,
    }
}

/// Evaluate an expression; agrees exactly with `spec_eval`.
pub fn eval_exp(exp: &Exp) -> (r: Option<Val>)
    ensures
        match spec_eval(exp.deep_view()) {
            Some(sv) => r is Some && r->0.deep_view() == sv,
            None => r is None,
        },
    decreases exp,
{
    match exp {
        Exp::Int(i) => Some(Val::Int(*i)),
        Exp::Var(v) => Some(Val::Var(v.clone())),
        Exp::InfixExp { left, op, right } => {
            let lv = eval_exp(&**left);
            let rv = eval_exp(&**right);
            let (l, r) = match (lv, rv) {
                (Some(Val::Int(l)), Some(Val::Int(r))) => (l, r),
                _ => {
                    return None;
                },
            };
            match op {
                Op::Plus => match l.checked_add(r) {
                    Some(x) => Some(Val::Int(x)),
                    None => None,
                },
                Op::Minus => match l.checked_sub(r) {
                    Some(x) => Some(Val::Int(x)),
                    None => None,
                },
                Op::Asterisk => match l.checked_mul(r) {
                    Some(x) => Some(Val::Int(x)),
                    None => None,
                },
                Op::Slash => {
                    if r == 0 {
                        None
                    } else {
                        match l.checked_div(r) {
                            Some(x) => Some(Val::Int(x)),
                            None => None,
                        }
                    }
                },
                Op::Eq => Some(Val::B(l == r)),
                Op::NotEq => Some(Val::B(l != r)),
                Op::Ls => Some(Val::B(l < r)),
                Op::Gr => Some(Val::B(l > r)),
                Op::LsEq => Some(Val::B(l <= r)),
                Op::GrEq => Some(Val::B(l >= r)),
                Op::Assign => None,
            }
        },
        _ => None,
    }
}

/// The end-to-end integer result of a piece of source text: scan, parse
/// one expression, evaluate to an integer.
pub open spec fn spec_int_result_of(cs: Seq<char>) -> Option<int> {
    match crate::lexer::spec_tokenize(cs, 0) {
        Ok(ts) => match spec_parse_assign(ts, 0) {
            Ok((e, _)) => match spec_eval(e) {
                Some(ValV::Int(i)) => Some(i),
                _ => None,
            },
            Err(_) => None,
        },
        Err(_) => None,
    }
}

/// The end-to-end truth-value result of a piece of source text.
pub open spec fn spec_bool_result_of(cs: Seq<char>) -> Option<bool> {
    match crate::lexer::spec_tokenize(cs, 0) {
        Ok(ts) => match spec_parse_assign(ts, 0) {
            Ok((e, _)) => match spec_eval(e) {
                Some(ValV::B(b)) => Some(b),
                _ => None,
            },
            Err(_) => None,
        },
        Err(_) => None,
    }
}

/// Scan, parse and evaluate source text down to an integer, if the text
/// denotes one.
pub fn get_int_result_from_string(text: &str) -> (r: Option<i32>)
    ensures
        match spec_int_result_of(text@) {
            Some(i) => r is Some && r->0 as int == i,
            None => r is None,
        },
{
    let tokens = match tokenize(text) {
        Ok(ts) => ts,
        Err(_) => {
            return None;
        },
    };
    let (exp, _) = match parse_exp(tokens.as_slice()) {
        Ok(x) => x,
        Err(_) => {
            return None;
        },
    };
    match eval_exp(&exp) {
        Some(Val::Int(i)) => Some(i),
        _ => None,
    }
}

/// Scan, parse and evaluate source text down to a truth value, if the
/// text denotes one.
pub fn get_bool_result_from_string(text: &str) -> (r: Option<bool>)
    ensures
        match spec_bool_result_of(text@) {
            Some(b) => r == Some(b),
            None => r is None,
        },
{
    let tokens = match tokenize(text) {
        Ok(ts) => ts,
        Err(_) => {
            return None;
        },
    };
    let (exp, _) = match parse_exp(tokens.as_slice()) {
        Ok(x) => x,
        Err(_) => {
            return None;
        },
    };
    match eval_exp(&exp) {
        Some(Val::B(b)) => Some(b),
        _ => None,
    }
}

} // verus!
