//! Recursive-descent parser: consumes the token sequence and builds the
//! typed syntax tree.  One parse function per precedence level; every
//! binary level associates to the left except assignment, which
//! associates to the right.  The `spec_parse_*` functions are the
//! mathematical description of the grammar; the executable functions are
//! proved to agree with them.
use crate::lexer::adv;
use crate::lexer::Token;
use crate::lexer::TokenV;
use crate::lexer::TypeDec;
use vstd::prelude::*;

verus! {

/// A binary operator of the expression grammar.
#[derive(Debug, Clone, Copy, PartialEq, Eq, Structural)]
pub enum Op {
    Plus,
    Minus,
    Asterisk,
    Slash,
    Eq,
    NotEq,
    Ls,
    LsEq,
    Gr,
    GrEq,
    Assign,
}

/// A unary operator: take the address of a place, or read through a
/// pointer.
#[derive(Debug, Clone, Copy, PartialEq, Eq, Structural)]
pub enum UOp {
    Address,
    Deref,
}

/// An expression node of the syntax tree.
#[derive(Debug, PartialEq, Eq)]
pub enum Exp {
    Int(i32),
    Var(String),
    UnaryExp { op: UOp, exp: Box<Exp> },
    InfixExp { left: Box<Exp>, op: Op, right: Box<Exp> },
    FuncCall { fun: Box<Exp>, args: Vec<Exp> },
}

/// The mathematical image of an `Exp`: names become character
/// sequences, literals unbounded integers.
pub enum ExpV {
    Int(int),
    Var(Seq<char>),
    UnaryExp { op: UOp, exp: Box<ExpV> },
    InfixExp { left: Box<ExpV>, op: Op, right: Box<ExpV> },
    FuncCall { fun: Box<ExpV>, args: Seq<ExpV> },
}

pub open spec fn view_exps(es: Seq<Exp>) -> Seq<ExpV>
    decreases es,
{
    if es.len() == 0 {
        Seq::empty()
    } else {
        seq![view_exp(es[0])] + view_exps(es.drop_first())
    }
}

pub open spec fn view_exp(e: Exp) -> ExpV
    decreases e,
{
    match e {
        Exp::Int(i) => ExpV::Int(i as int),
        Exp::Var(s) => ExpV::Var(s@),
        Exp::UnaryExp { op, exp } => ExpV::UnaryExp { op, exp: Box::new(view_exp(*exp)) },
        Exp::InfixExp { left, op, right } => ExpV::InfixExp {
            left: Box::new(view_exp(*left)),
            op,
            right: Box::new(view_exp(*right)),
        },
        Exp::FuncCall { fun, args } => ExpV::FuncCall {
            fun: Box::new(view_exp(*fun)),
            args: view_exps(args@),
        },
    }
}

impl DeepView for Exp {
    type V = ExpV;

    open spec fn deep_view(&self) -> ExpV {
        view_exp(*self)
    }
}

/// A statement node of the syntax tree.
#[derive(Debug, PartialEq, Eq)]
pub enum Stmt {
    Exp(Exp),
    Return(Exp),
    Block(Vec<Stmt>),
    If { cond: Box<Exp>, stmt1: Box<Stmt>, stmt2: Box<Option<Stmt>> },
    While { cond: Box<Exp>, stmt: Box<Stmt> },
    For { exp1: Box<Option<Exp>>, exp2: Box<Option<Exp>>, exp3: Box<Option<Exp>>, stmt: Box<Stmt> },
    Func { t: TypeDec, fun: Box<Exp>, params: Vec<TypeAndExp>, body: Vec<Stmt> },
    VarDec { t: TypeDec, var: Box<Exp> },
}

/// The mathematical image of a `Stmt`.
pub enum StmtV {
    Exp(ExpV),
    Return(ExpV),
    Block(Seq<StmtV>),
    If { cond: ExpV, stmt1: Box<StmtV>, stmt2: Option<Box<StmtV>> },
    While { cond: ExpV, stmt: Box<StmtV> },
    For { exp1: Option<ExpV>, exp2: Option<ExpV>, exp3: Option<ExpV>, stmt: Box<StmtV> },
    Func { t: TypeDec, fun: ExpV, params: Seq<(TypeDec, ExpV)>, body: Seq<StmtV> },
    VarDec { t: TypeDec, var: ExpV },
}

pub open spec fn view_stmts(ss: Seq<Stmt>) -> Seq<StmtV>
    decreases ss,
{
    if ss.len() == 0 {
        Seq::empty()
    } else {
        seq![view_stmt(ss[0])] + view_stmts(ss.drop_first())
    }
}

pub open spec fn view_params(ps: Seq<(TypeDec, Exp)>) -> Seq<(TypeDec, ExpV)>
    decreases ps,
{
    if ps.len() == 0 {
        Seq::empty()
    } else {
        seq![(ps[0].0, view_exp(ps[0].1))] + view_params(ps.drop_first())
    }
}

pub open spec fn view_stmt(s: Stmt) -> StmtV
    decreases s,
{
    match s {
        Stmt::Exp(e) => StmtV::Exp(view_exp(e)),
        Stmt::Return(e) => StmtV::Return(view_exp(e)),
        Stmt::Block(v) => StmtV::Block(view_stmts(v@)),
        Stmt::If { cond, stmt1, stmt2 } => StmtV::If {
            cond: view_exp(*cond),
            stmt1: Box::new(view_stmt(*stmt1)),
            stmt2: match *stmt2 {
                Some(s2) => Some(Box::new(view_stmt(s2))),
                None => None,
            },
        },
        Stmt::While { cond, stmt } => StmtV::While {
            cond: view_exp(*cond),
            stmt: Box::new(view_stmt(*stmt)),
        },
        Stmt::For { exp1, exp2, exp3, stmt } => StmtV::For {
            exp1: match *exp1 {
                Some(e) => Some(view_exp(e)),
                None => None,
            },
            exp2: match *exp2 {
                Some(e) => Some(view_exp(e)),
                None => None,
            },
            exp3: match *exp3 {
                Some(e) => Some(view_exp(e)),
                None => None,
            },
            stmt: Box::new(view_stmt(*stmt)),
        },
        Stmt::Func { t, fun, params, body } => StmtV::Func {
            t,
            fun: view_exp(*fun),
            params: view_params(params@),
            body: view_stmts(body@),
        },
        Stmt::VarDec { t, var } => StmtV::VarDec { t, var: view_exp(*var) },
    }
}

impl DeepView for Stmt {
    type V = StmtV;

    open spec fn deep_view(&self) -> StmtV {
        view_stmt(*self)
    }
}

/// The image of an optional statement, as the `If` node carries it.
pub open spec fn view_opt_stmt(o: Option<Stmt>) -> Option<Box<StmtV>> {
    match o {
        Some(s) => Some(Box::new(view_stmt(s))),
        None => None,
    }
}

/// The element-wise reading of `view_exps`.
pub proof fn lemma_view_exps(s: Seq<Exp>)
    ensures
        view_exps(s).len() == s.len(),
        forall|k: int| 0 <= k < s.len() ==> view_exps(s)[k] == view_exp(s[k]),
    decreases s,
{
    if s.len() > 0 {
        lemma_view_exps(s.drop_first());
    }
}

/// The element-wise reading of `view_stmts`.
pub proof fn lemma_view_stmts(s: Seq<Stmt>)
    ensures
        view_stmts(s).len() == s.len(),
        forall|k: int| 0 <= k < s.len() ==> view_stmts(s)[k] == view_stmt(s[k]),
    decreases s,
{
    if s.len() > 0 {
        lemma_view_stmts(s.drop_first());
    }
}

/// The element-wise reading of `view_params`.
pub proof fn lemma_view_params(s: Seq<(TypeDec, Exp)>)
    ensures
        view_params(s).len() == s.len(),
        forall|k: int| 0 <= k < s.len() ==> view_params(s)[k] == (s[k].0, view_exp(s[k].1)),
    decreases s,
{
    if s.len() > 0 {
        lemma_view_params(s.drop_first());
    }
}

/// A parameter declaration: its type and the variable that names it.
pub type TypeAndExp = (TypeDec, Exp);

/// A whole source file: its top-level statements in order.
pub type Program = Vec<Stmt>;

/// What a parse failure is about.
#[derive(Debug, Clone, Copy, PartialEq, Eq, Structural)]
pub enum ParseErrorKind {
    /// A token that cannot start or continue the construct being parsed.
    UnexpectedToken,
    /// A statement that does not end with a semicolon.
    MissingSemicolon,
    /// A parenthesised group or argument list that is never closed.
    UnclosedParen,
    /// The condition of an `if` or `while` is not closed by `)`.
    UnclosedCond,
    /// A type name was expected in a parameter list.
    BadType,
    /// A clause of a `for` head does not end with `;` or `)`.
    BadFor,
    /// A block opened with `{` that is never closed.
    UnclosedBrace,
}

/// A terminal parse failure: what went wrong, and the token position at
/// which it did.
#[derive(Debug, Clone, Copy, PartialEq, Eq, Structural)]
pub struct ParseError {
    pub kind: ParseErrorKind,
    pub pos: usize,
}

pub open spec fn perr(kind: ParseErrorKind, pos: int) -> ParseError {
    ParseError { kind, pos: pos as usize }
}

/// The infix operator a token denotes, if any.
pub open spec fn op_of_token(t: TokenV) -> Option<Op> {
    match t {
        TokenV::Plus => Some(Op::Plus),
        TokenV::Minus => Some(Op::Minus),
        TokenV::Asterisk => Some(Op::Asterisk),
        TokenV::Slash => Some(Op::Slash),
        TokenV::Eq => Some(Op::Eq),
        TokenV::NotEq => Some(Op::NotEq),
        TokenV::Ls => Some(Op::Ls),
        TokenV::Gr => Some(Op::Gr),
        TokenV::LsEq => Some(Op::LsEq),
        TokenV::GrEq => Some(Op::GrEq),
        _ => None,
    }
}

pub open spec fn equality_op(t: TokenV) -> Option<Op> {
    match t {
        TokenV::Eq => Some(Op::Eq),
        TokenV::NotEq => Some(Op::NotEq),
        _ => None,
    }
}

pub open spec fn relational_op(t: TokenV) -> Option<Op> {
    match t {
        TokenV::Ls => Some(Op::Ls),
        TokenV::LsEq => Some(Op::LsEq),
        TokenV::Gr => Some(Op::Gr),
        TokenV::GrEq => Some(Op::GrEq),
        _ => None,
    }
}

pub open spec fn add_op(t: TokenV) -> Option<Op> {
    match t {
        TokenV::Plus => Some(Op::Plus),
        TokenV::Minus => Some(Op::Minus),
        _ => None,
    }
}

pub open spec fn mul_op(t: TokenV) -> Option<Op> {
    match t {
        TokenV::Asterisk => Some(Op::Asterisk),
        TokenV::Slash => Some(Op::Slash),
        _ => None,
    }
}

pub open spec fn infix_v(left: ExpV, op: Op, right: ExpV) -> ExpV {
    ExpV::InfixExp { left: Box::new(left), op, right: Box::new(right) }
}

// The grammar, lowest to highest precedence.  Each function takes the
// token sequence and a position and yields the parsed node together with
// the position just after it, or the first failure.  The `adv` bound on
// every returned position records that a successful parse always
// consumes at least one token, which the executable parser proves; it
// never changes a returned value.

/// `primary := '(' assignment ')' | IDENT '(' args ')' | INT | IDENT`
#[verifier::opaque]
pub open spec fn spec_parse_primary(ts: Seq<TokenV>, i: int) -> Result<(ExpV, int), ParseError>
    decreases ts.len() - i, 0int,
{
    let n = ts.len() as int;
    if i < 0 || i >= n {
        Err(perr(ParseErrorKind::UnexpectedToken, i))
    } else {
        match ts[i] {
            TokenV::LParen => match spec_parse_assign(ts, i + 1) {
                Ok((e, j0)) => {
                    let j = adv(i + 1, j0, n);
                    if j < n && ts[j] == TokenV::RParen {
                        Ok((e, j + 1))
                    } else {
                        Err(perr(ParseErrorKind::UnclosedParen, j))
                    }
                },
                Err(e) => Err(e),
            },
            TokenV::Var(v) => if i + 1 < n && ts[i + 1] == TokenV::LParen {
                spec_parse_fun_call(v, ts, i + 2)
            } else {
                Ok((ExpV::Var(v), i + 1))
            },
            TokenV::Int(x) => Ok((ExpV::Int(x), i + 1)),
            _ => Err(perr(ParseErrorKind::UnexpectedToken, i)),
        }
    }
}

/// `unary := ('+'|'-'|'*'|'&') unary | primary`; unary minus desugars to
/// `0 - operand`, unary plus is dropped.
#[verifier::opaque]
pub open spec fn spec_parse_unary(ts: Seq<TokenV>, i: int) -> Result<(ExpV, int), ParseError>
    decreases ts.len() - i, 1int,
{
    let n = ts.len() as int;
    if i < 0 || i >= n {
        spec_parse_primary(ts, i)
    } else {
        match ts[i] {
            TokenV::Plus => spec_parse_unary(ts, i + 1),
            TokenV::Minus => match spec_parse_unary(ts, i + 1) {
                Ok((p, j)) => Ok((infix_v(ExpV::Int(0), Op::Minus, p), j)),
                Err(e) => Err(e),
            },
            TokenV::Asterisk => match spec_parse_unary(ts, i + 1) {
                Ok((p, j)) => Ok((ExpV::UnaryExp { op: UOp::Deref, exp: Box::new(p) }, j)),
                Err(e) => Err(e),
            },
            TokenV::Address => match spec_parse_unary(ts, i + 1) {
                Ok((p, j)) => Ok((ExpV::UnaryExp { op: UOp::Address, exp: Box::new(p) }, j)),
                Err(e) => Err(e),
            },
            _ => spec_parse_primary(ts, i),
        }
    }
}

/// The left-associative continuation of `multiplicative`.
#[verifier::opaque]
pub open spec fn spec_parse_mul_rest(acc: ExpV, ts: Seq<TokenV>, i: int) -> Result<
    (ExpV, int),
    ParseError,
>
    decreases ts.len() - i, 2int,
{
    let n = ts.len() as int;
    if i < 0 || i >= n {
        Ok((acc, i))
    } else {
        match mul_op(ts[i]) {
            Some(op) => match spec_parse_unary(ts, i + 1) {
                Ok((m, j0)) => spec_parse_mul_rest(infix_v(acc, op, m), ts, adv(i + 1, j0, n)),
                Err(e) => Err(e),
            },
            None => Ok((acc, i)),
        }
    }
}

/// `multiplicative := unary (('*'|'/') unary)*`, associating left.
#[verifier::opaque]
pub open spec fn spec_parse_mul(ts: Seq<TokenV>, i: int) -> Result<(ExpV, int), ParseError>
    decreases ts.len() - i, 3int,
{
    if i < 0 || i >= ts.len() {
        spec_parse_unary(ts, i)
    } else {
        match spec_parse_unary(ts, i) {
            Ok((m, j0)) => spec_parse_mul_rest(m, ts, adv(i, j0, ts.len() as int)),
            Err(e) => Err(e),
        }
    }
}

/// The left-associative continuation of `additive`.
#[verifier::opaque]
pub open spec fn spec_parse_add_rest(acc: ExpV, ts: Seq<TokenV>, i: int) -> Result<
    (ExpV, int),
    ParseError,
>
    decreases ts.len() - i, 4int,
{
    let n = ts.len() as int;
    if i < 0 || i >= n {
        Ok((acc, i))
    } else {
        match add_op(ts[i]) {
            Some(op) => match spec_parse_mul(ts, i + 1) {
                Ok((m, j0)) => spec_parse_add_rest(infix_v(acc, op, m), ts, adv(i + 1, j0, n)),
                Err(e) => Err(e),
            },
            None => Ok((acc, i)),
        }
    }
}

/// `additive := multiplicative (('+'|'-') multiplicative)*`, associating
/// left.
#[verifier::opaque]
pub open spec fn spec_parse_add(ts: Seq<TokenV>, i: int) -> Result<(ExpV, int), ParseError>
    decreases ts.len() - i, 5int,
{
    if i < 0 || i >= ts.len() {
        spec_parse_mul(ts, i)
    } else {
        match spec_parse_mul(ts, i) {
            Ok((m, j0)) => spec_parse_add_rest(m, ts, adv(i, j0, ts.len() as int)),
            Err(e) => Err(e),
        }
    }
}

/// The left-associative continuation of `relational`.
#[verifier::opaque]
pub open spec fn spec_parse_relational_rest(acc: ExpV, ts: Seq<TokenV>, i: int) -> Result<
    (ExpV, int),
    ParseError,
>
    decreases ts.len() - i, 6int,
{
    let n = ts.len() as int;
    if i < 0 || i >= n {
        Ok((acc, i))
    } else {
        match relational_op(ts[i]) {
            Some(op) => match spec_parse_add(ts, i + 1) {
                Ok((m, j0)) => spec_parse_relational_rest(
                    infix_v(acc, op, m),
                    ts,
                    adv(i + 1, j0, n),
                ),
                Err(e) => Err(e),
            },
            None => Ok((acc, i)),
        }
    }
}

/// `relational := additive (('<'|'<='|'>'|'>=') additive)*`, associating
/// left.
#[verifier::opaque]
pub open spec fn spec_parse_relational(ts: Seq<TokenV>, i: int) -> Result<(ExpV, int), ParseError>
    decreases ts.len() - i, 7int,
{
    if i < 0 || i >= ts.len() {
        spec_parse_add(ts, i)
    } else {
        match spec_parse_add(ts, i) {
            Ok((m, j0)) => spec_parse_relational_rest(m, ts, adv(i, j0, ts.len() as int)),
            Err(e) => Err(e),
        }
    }
}

/// The left-associative continuation of `equality`.
#[verifier::opaque]
pub open spec fn spec_parse_equality_rest(acc: ExpV, ts: Seq<TokenV>, i: int) -> Result<
    (ExpV, int),
    ParseError,
>
    decreases ts.len() - i, 8int,
{
    let n = ts.len() as int;
    if i < 0 || i >= n {
        Ok((acc, i))
    } else {
        match equality_op(ts[i]) {
            Some(op) => match spec_parse_relational(ts, i + 1) {
                Ok((m, j0)) => spec_parse_equality_rest(infix_v(acc, op, m), ts, adv(i + 1, j0, n)),
                Err(e) => Err(e),
            },
            None => Ok((acc, i)),
        }
    }
}

/// `equality := relational (('=='|'!=') relational)*`, associating left.
#[verifier::opaque]
pub open spec fn spec_parse_equality(ts: Seq<TokenV>, i: int) -> Result<(ExpV, int), ParseError>
    decreases ts.len() - i, 9int,
{
    if i < 0 || i >= ts.len() {
        spec_parse_relational(ts, i)
    } else {
        match spec_parse_relational(ts, i) {
            Ok((m, j0)) => spec_parse_equality_rest(m, ts, adv(i, j0, ts.len() as int)),
            Err(e) => Err(e),
        }
    }
}

/// `assignment := equality ('=' assignment)?` — the one right-associative
/// level, so a chain `a = b = c` nests to the right.
#[verifier::opaque]
pub open spec fn spec_parse_assign(ts: Seq<TokenV>, i: int) -> Result<(ExpV, int), ParseError>
    decreases ts.len() - i, 10int,
{
    let n = ts.len() as int;
    if i < 0 || i >= n {
        spec_parse_equality(ts, i)
    } else {
        match spec_parse_equality(ts, i) {
        Ok((eq, j0)) => {
            let j = adv(i, j0, n);
            if j < n && ts[j] == TokenV::Assign {
                match spec_parse_assign(ts, j + 1) {
                    Ok((a, k)) => Ok((infix_v(eq, Op::Assign, a), k)),
                    Err(e) => Err(e),
                }
            } else {
                Ok((eq, j))
            }
        },
        Err(e) => Err(e),
        }
    }
}

/// Assignment chains nest to the right: once the first operand is
/// parsed and an `=` follows, the whole remainder is parsed as one
/// assignment and becomes the right-hand side, so `a = b = c` parses as
/// `a = (b = c)`.
pub proof fn lemma_assignment_right_associative(ts: Seq<TokenV>, i: int)
    requires
        0 <= i < ts.len(),
        spec_parse_equality(ts, i) is Ok,
        i < spec_parse_equality(ts, i)->Ok_0.1,
        spec_parse_equality(ts, i)->Ok_0.1 < ts.len(),
        ts[spec_parse_equality(ts, i)->Ok_0.1] == TokenV::Assign,
    ensures
        ({
            let (e1, j) = spec_parse_equality(ts, i)->Ok_0;
            spec_parse_assign(ts, i) == (match spec_parse_assign(ts, j + 1) {
                Ok((e2, k)) => Ok::<(ExpV, int), ParseError>((infix_v(e1, Op::Assign, e2), k)),
                Err(e) => Err::<(ExpV, int), ParseError>(e),
            })
        }),
{
    reveal(spec_parse_assign);
    reveal(spec_parse_equality);
}

/// A call's argument list after the opening parenthesis: expressions
/// separated by single commas, closed by `)`.  A leading parenthesis
/// not yet consumed by the caller is tolerated; a comma that does not
/// stand between two items is a parse failure.
#[verifier::opaque]
pub open spec fn spec_parse_vars(ts: Seq<TokenV>, i: int) -> Result<(Seq<ExpV>, int), ParseError>
    decreases ts.len() - i, 11int,
{
    let n = ts.len() as int;
    if i < 0 || i >= n {
        Err(perr(ParseErrorKind::UnclosedParen, i))
    } else {
        let i1 = if ts[i] == TokenV::LParen {
            i + 1
        } else {
            i
        };
        if i1 >= n {
            Err(perr(ParseErrorKind::UnclosedParen, i1))
        } else if ts[i1] == TokenV::RParen {
            Ok((Seq::empty(), i1 + 1))
        } else {
            match spec_parse_assign(ts, i1) {
                Ok((e, j0)) => match spec_parse_vars_more(ts, adv(i1, j0, n)) {
                    Ok((es, k)) => Ok((seq![e] + es, k)),
                    Err(err) => Err(err),
                },
                Err(err) => Err(err),
            }
        }
    }
}

/// The continuation of an argument list after one item: `)` closes it,
/// `,` introduces the next item, anything else fails.
#[verifier::opaque]
pub open spec fn spec_parse_vars_more(ts: Seq<TokenV>, i: int) -> Result<
    (Seq<ExpV>, int),
    ParseError,
>
    decreases ts.len() - i, 11int,
{
    let n = ts.len() as int;
    if i < 0 || i >= n {
        Err(perr(ParseErrorKind::UnclosedParen, i))
    } else if ts[i] == TokenV::RParen {
        Ok((Seq::empty(), i + 1))
    } else if ts[i] == TokenV::Comma {
        match spec_parse_assign(ts, i + 1) {
            Ok((e, j0)) => match spec_parse_vars_more(ts, adv(i + 1, j0, n)) {
                Ok((es, k)) => Ok((seq![e] + es, k)),
                Err(err) => Err(err),
            },
            Err(err) => Err(err),
        }
    } else {
        Err(perr(ParseErrorKind::UnclosedParen, i))
    }
}

/// One type name.
pub open spec fn spec_parse_type(ts: Seq<TokenV>, i: int) -> Result<(TypeDec, int), ParseError> {
    if 0 <= i < ts.len() {
        match ts[i] {
            TokenV::Type(t) => Ok((t, i + 1)),
            _ => Err(perr(ParseErrorKind::BadType, i)),
        }
    } else {
        Err(perr(ParseErrorKind::BadType, i))
    }
}

/// A parameter list after the opening parenthesis: `type IDENT` pairs
/// separated by single commas, closed by `)`.
#[verifier::opaque]
pub open spec fn spec_parse_type_vars(ts: Seq<TokenV>, i: int) -> Result<
    (Seq<(TypeDec, ExpV)>, int),
    ParseError,
>
    decreases ts.len() - i, 11int,
{
    let n = ts.len() as int;
    if i < 0 || i >= n {
        Err(perr(ParseErrorKind::UnclosedParen, i))
    } else {
        let i1 = if ts[i] == TokenV::LParen {
            i + 1
        } else {
            i
        };
        if i1 >= n {
            Err(perr(ParseErrorKind::UnclosedParen, i1))
        } else if ts[i1] == TokenV::RParen {
            Ok((Seq::empty(), i1 + 1))
        } else {
            match spec_parse_type(ts, i1) {
                Ok((t, _)) => match spec_parse_assign(ts, i1 + 1) {
                    Ok((e, j0)) => match spec_parse_type_vars_more(ts, adv(i1 + 1, j0, n)) {
                        Ok((ps, k)) => Ok((seq![(t, e)] + ps, k)),
                        Err(err) => Err(err),
                    },
                    Err(err) => Err(err),
                },
                Err(err) => Err(err),
            }
        }
    }
}

/// The continuation of a parameter list after one pair: `)` closes it,
/// `,` introduces the next pair, anything else fails.
#[verifier::opaque]
pub open spec fn spec_parse_type_vars_more(ts: Seq<TokenV>, i: int) -> Result<
    (Seq<(TypeDec, ExpV)>, int),
    ParseError,
>
    decreases ts.len() - i, 11int,
{
    let n = ts.len() as int;
    if i < 0 || i >= n {
        Err(perr(ParseErrorKind::UnclosedParen, i))
    } else if ts[i] == TokenV::RParen {
        Ok((Seq::empty(), i + 1))
    } else if ts[i] == TokenV::Comma {
        match spec_parse_type(ts, i + 1) {
            Ok((t, _)) => match spec_parse_assign(ts, i + 2) {
                Ok((e, j0)) => match spec_parse_type_vars_more(ts, adv(i + 2, j0, n)) {
                    Ok((ps, k)) => Ok((seq![(t, e)] + ps, k)),
                    Err(err) => Err(err),
                },
                Err(err) => Err(err),
            },
            Err(err) => Err(err),
        }
    } else {
        Err(perr(ParseErrorKind::UnclosedParen, i))
    }
}

/// A call of the function named `v`, starting after `IDENT (`.
#[verifier::opaque]
pub open spec fn spec_parse_fun_call(v: Seq<char>, ts: Seq<TokenV>, i: int) -> Result<
    (ExpV, int),
    ParseError,
>
    decreases ts.len() - i, 12int,
{
    match spec_parse_vars(ts, i) {
        Ok((es, j)) => Ok((ExpV::FuncCall { fun: Box::new(ExpV::Var(v)), args: es }, j)),
        Err(e) => Err(e),
    }
}

/// The statements of a block after the opening brace, up to the
/// matching `}`; running out of tokens first is an unbalanced
/// delimiter and fails.
#[verifier::opaque]
pub open spec fn spec_parse_block_rest(ts: Seq<TokenV>, i: int) -> Result<
    (Seq<StmtV>, int),
    ParseError,
>
    decreases ts.len() - i, 17int,
{
    let n = ts.len() as int;
    if i < 0 || i >= n {
        Err(perr(ParseErrorKind::UnclosedBrace, i))
    } else if ts[i] == TokenV::RBrace {
        Ok((Seq::empty(), i + 1))
    } else {
        match spec_parse_stmt(ts, i) {
            Ok((s, j0)) => match spec_parse_block_rest(ts, adv(i, j0, n)) {
                Ok((ss, k)) => Ok((seq![s] + ss, k)),
                Err(e) => Err(e),
            },
            Err(e) => Err(e),
        }
    }
}

/// A block body; tolerates a leading `{` not yet consumed by the caller.
#[verifier::opaque]
pub open spec fn spec_parse_block(ts: Seq<TokenV>, i: int) -> Result<(Seq<StmtV>, int), ParseError>
    decreases ts.len() - i, 18int,
{
    let n = ts.len() as int;
    let i1 = if 0 <= i < n && ts[i] == TokenV::LBrace {
        i + 1
    } else {
        i
    };
    spec_parse_block_rest(ts, i1)
}

/// An `if` statement after `if (`: condition, `)` — whose absence is a
/// parse failure — the branch, and an optional `else` branch.
#[verifier::opaque]
pub open spec fn spec_parse_if(ts: Seq<TokenV>, i: int) -> Result<(StmtV, int), ParseError>
    decreases ts.len() - i, 15int,
{
    let n = ts.len() as int;
    match spec_parse_assign(ts, i) {
        Ok((cond, j0)) => {
            let j = adv(i, j0, n);
            if j < n && ts[j] == TokenV::RParen {
                match spec_parse_stmt(ts, j + 1) {
                    Ok((s1, k0)) => {
                        let k = adv(j + 1, k0, n);
                        if k < n && ts[k] == TokenV::Else {
                            match spec_parse_stmt(ts, k + 1) {
                                Ok((s2, m)) => Ok(
                                    (
                                        StmtV::If {
                                            cond,
                                            stmt1: Box::new(s1),
                                            stmt2: Some(Box::new(s2)),
                                        },
                                        m,
                                    ),
                                ),
                                Err(e) => Err(e),
                            }
                        } else {
                            Ok((StmtV::If { cond, stmt1: Box::new(s1), stmt2: None }, k))
                        }
                    },
                    Err(e) => Err(e),
                }
            } else {
                Err(perr(ParseErrorKind::UnclosedCond, j))
            }
        },
        Err(e) => Err(e),
    }
}

/// A `while` statement after `while (`.
#[verifier::opaque]
pub open spec fn spec_parse_while(ts: Seq<TokenV>, i: int) -> Result<(StmtV, int), ParseError>
    decreases ts.len() - i, 15int,
{
    let n = ts.len() as int;
    match spec_parse_assign(ts, i) {
        Ok((cond, j0)) => {
            let j = adv(i, j0, n);
            if j < n && ts[j] == TokenV::RParen {
                match spec_parse_stmt(ts, j + 1) {
                    Ok((s, k)) => Ok((StmtV::While { cond, stmt: Box::new(s) }, k)),
                    Err(e) => Err(e),
                }
            } else {
                Err(perr(ParseErrorKind::UnclosedCond, j))
            }
        },
        Err(e) => Err(e),
    }
}

/// One clause of a `for` head: an optional expression closed by `;` or
/// `)`.
#[verifier::opaque]
pub open spec fn spec_parse_for_cond_exp(ts: Seq<TokenV>, i: int) -> Result<
    (Option<ExpV>, int),
    ParseError,
>
    decreases ts.len() - i, 11int,
{
    let n = ts.len() as int;
    if 0 <= i < n && (ts[i] == TokenV::Semicolon || ts[i] == TokenV::RParen) {
        Ok((None, i + 1))
    } else {
        match spec_parse_assign(ts, i) {
            Ok((e, j0)) => {
                let j = adv(i, j0, n);
                if j < n && (ts[j] == TokenV::Semicolon || ts[j] == TokenV::RParen) {
                    Ok((Some(e), j + 1))
                } else {
                    Err(perr(ParseErrorKind::BadFor, j))
                }
            },
            Err(e) => Err(e),
        }
    }
}

/// A `for` statement after `for (`: three optional clauses, then the
/// body.
#[verifier::opaque]
pub open spec fn spec_parse_for(ts: Seq<TokenV>, i: int) -> Result<(StmtV, int), ParseError>
    decreases ts.len() - i, 15int,
{
    let n = ts.len() as int;
    if i < 0 || i >= n {
        match spec_parse_for_cond_exp(ts, i) {
            Ok(_) => Err(perr(ParseErrorKind::UnexpectedToken, i)),
            Err(e) => Err(e),
        }
    } else {
        match spec_parse_for_cond_exp(ts, i) {
        Ok((o1, j0)) => {
            let j = adv(i, j0, n);
            match spec_parse_for_cond_exp(ts, j) {
                Ok((o2, k0)) => {
                    let k = adv(j, k0, n);
                    match spec_parse_for_cond_exp(ts, k) {
                        Ok((o3, m0)) => {
                            let m = adv(k, m0, n);
                            match spec_parse_stmt(ts, m) {
                                Ok((s, p)) => Ok(
                                    (
                                        StmtV::For {
                                            exp1: o1,
                                            exp2: o2,
                                            exp3: o3,
                                            stmt: Box::new(s),
                                        },
                                        p,
                                    ),
                                ),
                                Err(e) => Err(e),
                            }
                        },
                        Err(e) => Err(e),
                    }
                },
                Err(e) => Err(e),
            }
        },
        Err(e) => Err(e),
        }
    }
}

/// A function definition after `type IDENT (`: parameter list, then the
/// braced body.
#[verifier::opaque]
pub open spec fn spec_parse_func(t: TypeDec, fname: Seq<char>, ts: Seq<TokenV>, i: int) -> Result<
    (StmtV, int),
    ParseError,
>
    decreases ts.len() - i, 15int,
{
    let n = ts.len() as int;
    if i < 0 || i >= n {
        match spec_parse_type_vars(ts, i) {
            Ok(_) => Err(perr(ParseErrorKind::UnclosedParen, i)),
            Err(e) => Err(e),
        }
    } else {
        match spec_parse_type_vars(ts, i) {
        Ok((ps, j0)) => {
            let j = adv(i, j0, n);
            match spec_parse_block(ts, j) {
                Ok((body, k)) => Ok(
                    (StmtV::Func { t, fun: ExpV::Var(fname), params: ps, body }, k),
                ),
                Err(e) => Err(e),
            }
        },
        Err(e) => Err(e),
        }
    }
}

/// One statement.  Statement kinds are told apart by at most two tokens
/// of lookahead: a keyword, a brace, a type name followed by a variable
/// and `(` or `;`, or else a bare expression statement.
#[verifier::opaque]
pub open spec fn spec_parse_stmt(ts: Seq<TokenV>, i: int) -> Result<(StmtV, int), ParseError>
    decreases ts.len() - i, 16int,
{
    let n = ts.len() as int;
    if i < 0 || i >= n {
        Err(perr(ParseErrorKind::UnexpectedToken, i))
    } else if ts[i] == TokenV::Return {
        match spec_parse_assign(ts, i + 1) {
            Ok((e, j0)) => {
                let j = adv(i + 1, j0, n);
                if j < n && ts[j] == TokenV::Semicolon {
                    Ok((StmtV::Return(e), j + 1))
                } else {
                    Err(perr(ParseErrorKind::MissingSemicolon, j))
                }
            },
            Err(e) => Err(e),
        }
    } else if ts[i] == TokenV::LBrace {
        match spec_parse_block_rest(ts, i + 1) {
            Ok((ss, j)) => Ok((StmtV::Block(ss), j)),
            Err(e) => Err(e),
        }
    } else if ts[i] == TokenV::If && i + 1 < n && ts[i + 1] == TokenV::LParen {
        spec_parse_if(ts, i + 2)
    } else if ts[i] == TokenV::While && i + 1 < n && ts[i + 1] == TokenV::LParen {
        spec_parse_while(ts, i + 2)
    } else if ts[i] == TokenV::For && i + 1 < n && ts[i + 1] == TokenV::LParen {
        spec_parse_for(ts, i + 2)
    } else {
        match ts[i] {
            TokenV::Type(t) => if i + 2 < n && (ts[i + 1] is Var) && ts[i + 2] == TokenV::LParen {
                spec_parse_func(t, ts[i + 1]->Var_0, ts, i + 3)
            } else if i + 2 < n && (ts[i + 1] is Var) && ts[i + 2] == TokenV::Semicolon {
                Ok((StmtV::VarDec { t, var: ExpV::Var(ts[i + 1]->Var_0) }, i + 3))
            } else {
                spec_parse_exp_stmt(ts, i)
            },
            _ => spec_parse_exp_stmt(ts, i),
        }
    }
}

/// A bare expression statement, closed by `;`.
#[verifier::opaque]
pub open spec fn spec_parse_exp_stmt(ts: Seq<TokenV>, i: int) -> Result<(StmtV, int), ParseError>
    decreases ts.len() - i, 11int,
{
    let n = ts.len() as int;
    match spec_parse_assign(ts, i) {
        Ok((e, j0)) => {
            let j = adv(i, j0, n);
            if j < n && ts[j] == TokenV::Semicolon {
                Ok((StmtV::Exp(e), j + 1))
            } else {
                Err(perr(ParseErrorKind::MissingSemicolon, j))
            }
        },
        Err(e) => Err(e),
    }
}

/// The whole program: statements until the tokens run out.  An empty
/// token sequence is a parse failure, as is anything a statement parse
/// rejects.
#[verifier::opaque]
pub open spec fn spec_parse_program(ts: Seq<TokenV>, i: int) -> Result<Seq<StmtV>, ParseError>
    decreases ts.len() - i, 19int,
{
    let n = ts.len() as int;
    match spec_parse_stmt(ts, i) {
        Ok((s, j0)) => {
            let j = adv(i, j0, n);
            if j >= n {
                Ok(seq![s])
            } else {
                match spec_parse_program(ts, j) {
                    Ok(ss) => Ok(seq![s] + ss),
                    Err(e) => Err(e),
                }
            }
        },
        Err(e) => Err(e),
    }
}

/// Does the executable outcome `r` agree with the grammar's outcome `s`,
/// with the position strictly advanced?
pub open spec fn exp_result_matches(
    r: Result<(Exp, usize), ParseError>,
    s: Result<(ExpV, int), ParseError>,
    pos: int,
    n: int,
) -> bool {
    match s {
        Ok((ev, j)) => r is Ok && r->Ok_0.0.deep_view() == ev && r->Ok_0.1 as int == j && pos < j
            <= n,
        Err(e) => r is Err && r->Err_0 == e,
    }
}

pub open spec fn stmt_result_matches(
    r: Result<(Stmt, usize), ParseError>,
    s: Result<(StmtV, int), ParseError>,
    pos: int,
    n: int,
) -> bool {
    match s {
        Ok((sv, j)) => r is Ok && r->Ok_0.0.deep_view() == sv && r->Ok_0.1 as int == j && pos < j
            <= n,
        Err(e) => r is Err && r->Err_0 == e,
    }
}

pub fn box_exp(exp: Exp) -> (r: Box<Exp>)
    ensures
        (*r).deep_view() == exp.deep_view(),
{
    Box::new(exp)
}

/// Build a binary node.
pub fn infix_exp(left: Exp, op: Op, right: Exp) -> (r: Exp)
    ensures
        r.deep_view() == infix_v(left.deep_view(), op, right.deep_view()),
{
    Exp::InfixExp { left: box_exp(left), op, right: box_exp(right) }
}

/// Build a unary node.
pub fn unary_exp(op: UOp, exp: Exp) -> (r: Exp)
    ensures
        r.deep_view() == (ExpV::UnaryExp { op, exp: Box::new(exp.deep_view()) }),
{
    Exp::UnaryExp { op, exp: Box::new(exp) }
}

/// The infix operator a token denotes, if any.
pub fn token_mapper(token: &Token) -> (r: Option<Op>)
    ensures
        r == op_of_token(token.deep_view()),
{
    match token {
        Token::Plus => Some(Op::Plus),
        Token::Minus => Some(Op::Minus),
        Token::Asterisk => Some(Op::Asterisk),
        Token::Slash => Some(Op::Slash),
        Token::Eq => Some(Op::Eq),
        Token::NotEq => Some(Op::NotEq),
        Token::Ls => Some(Op::Ls),
        Token::Gr => Some(Op::Gr),
        Token::LsEq => Some(Op::LsEq),
        Token::GrEq => Some(Op::GrEq),
        _ => None,
    }
}

/// Build an `if` node.
pub fn new_if(cond: Exp, stmt1: Stmt, stmt2: Option<Stmt>) -> (r: Stmt)
    ensures
        r.deep_view() == (StmtV::If {
            cond: cond.deep_view(),
            stmt1: Box::new(stmt1.deep_view()),
            stmt2: match stmt2 {
                Some(s2) => Some(Box::new(s2.deep_view())),
                None => None,
            },
        }),
{
    Stmt::If { cond: Box::new(cond), stmt1: Box::new(stmt1), stmt2: Box::new(stmt2) }
}

#[verifier::rlimit(100)]
#[verifier::spinoff_prover]
fn parse_primary(tokens: &[Token], pos: usize) -> (r: Result<(Exp, usize), ParseError>)
    requires
        pos <= tokens@.len(),
    ensures
        exp_result_matches(
            r,
            spec_parse_primary(tokens.deep_view(), pos as int),
            pos as int,
            tokens@.len() as int,
        ),
    decreases tokens@.len() - pos, 0int,
{
    reveal(spec_parse_primary);
    let n = tokens.len();
    if pos >= n {
        return Err(ParseError { kind: ParseErrorKind::UnexpectedToken, pos });
    }
    match &tokens[pos] {
        Token::LParen => {
            reveal(spec_parse_assign);
            match parse_assign(tokens, pos + 1) {
            Ok((e, j)) => {
                if j < n && matches!(&tokens[j], Token::RParen) {
                    Ok((e, j + 1))
                } else {
                    Err(ParseError { kind: ParseErrorKind::UnclosedParen, pos: j })
                }
            },
            Err(e) => Err(e),
            }
        },
        Token::Var(v) => {
            if pos + 1 < n && matches!(&tokens[pos + 1], Token::LParen) {
                reveal(spec_parse_fun_call);
                let name = v.clone();
                parse_fun_call(name, tokens, pos + 2)
            } else {
                Ok((Exp::Var(v.clone()), pos + 1))
            }
        },
        Token::Int(x) => Ok((Exp::Int(*x), pos + 1)),
        _ => Err(ParseError { kind: ParseErrorKind::UnexpectedToken, pos }),
    }
}

fn parse_unary(tokens: &[Token], pos: usize) -> (r: Result<(Exp, usize), ParseError>)
    requires
        pos <= tokens@.len(),
    ensures
        exp_result_matches(
            r,
            spec_parse_unary(tokens.deep_view(), pos as int),
            pos as int,
            tokens@.len() as int,
        ),
    decreases tokens@.len() - pos, 1int,
{
    reveal(spec_parse_unary);
    reveal(spec_parse_primary);
    let n = tokens.len();
    if pos >= n {
        return parse_primary(tokens, pos);
    }
    match &tokens[pos] {
        Token::Plus => parse_unary(tokens, pos + 1),
        Token::Minus => match parse_unary(tokens, pos + 1) {
            Ok((p, j)) => Ok((infix_exp(Exp::Int(0), Op::Minus, p), j)),
            Err(e) => Err(e),
        },
        Token::Asterisk => match parse_unary(tokens, pos + 1) {
            Ok((p, j)) => Ok((unary_exp(UOp::Deref, p), j)),
            Err(e) => Err(e),
        },
        Token::Address => match parse_unary(tokens, pos + 1) {
            Ok((p, j)) => Ok((unary_exp(UOp::Address, p), j)),
            Err(e) => Err(e),
        },
        _ => parse_primary(tokens, pos),
    }
}

fn parse_mul_rest(acc: Exp, tokens: &[Token], pos: usize) -> (r: Result<(Exp, usize), ParseError>)
    requires
        0 < pos <= tokens@.len(),
    ensures
        ({
            let s = spec_parse_mul_rest(acc.deep_view(), tokens.deep_view(), pos as int);
            match s {
                Ok((ev, j)) => r is Ok && r->Ok_0.0.deep_view() == ev && r->Ok_0.1 as int == j
                    && pos <= j <= tokens@.len(),
                Err(e) => r is Err && r->Err_0 == e,
            }
        }),
    decreases tokens@.len() - pos, 2int,
{
    reveal(spec_parse_mul_rest);
    reveal(spec_parse_unary);
    let n = tokens.len();
    if pos >= n {
        return Ok((acc, pos));
    }
    let op = match &tokens[pos] {
        Token::Asterisk => Op::Asterisk,
        Token::Slash => Op::Slash,
        _ => {
            return Ok((acc, pos));
        },
    };
    match parse_unary(tokens, pos + 1) {
        Ok((m, j)) => parse_mul_rest(infix_exp(acc, op, m), tokens, j),
        Err(e) => Err(e),
    }
}

fn parse_mul(tokens: &[Token], pos: usize) -> (r: Result<(Exp, usize), ParseError>)
    requires
        pos <= tokens@.len(),
    ensures
        exp_result_matches(
            r,
            spec_parse_mul(tokens.deep_view(), pos as int),
            pos as int,
            tokens@.len() as int,
        ),
    decreases tokens@.len() - pos, 3int,
{
    reveal(spec_parse_mul);
    reveal(spec_parse_unary);
    reveal(spec_parse_mul_rest);
    match parse_unary(tokens, pos) {
        Ok((m, j)) => parse_mul_rest(m, tokens, j),
        Err(e) => Err(e),
    }
}

fn parse_add_rest(acc: Exp, tokens: &[Token], pos: usize) -> (r: Result<(Exp, usize), ParseError>)
    requires
        0 < pos <= tokens@.len(),
    ensures
        ({
            let s = spec_parse_add_rest(acc.deep_view(), tokens.deep_view(), pos as int);
            match s {
                Ok((ev, j)) => r is Ok && r->Ok_0.0.deep_view() == ev && r->Ok_0.1 as int == j
                    && pos <= j <= tokens@.len(),
                Err(e) => r is Err && r->Err_0 == e,
            }
        }),
    decreases tokens@.len() - pos, 4int,
{
    reveal(spec_parse_add_rest);
    reveal(spec_parse_mul);
    let n = tokens.len();
    if pos >= n {
        return Ok((acc, pos));
    }
    let op = match &tokens[pos] {
        Token::Plus => Op::Plus,
        Token::Minus => Op::Minus,
        _ => {
            return Ok((acc, pos));
        },
    };
    match parse_mul(tokens, pos + 1) {
        Ok((m, j)) => parse_add_rest(infix_exp(acc, op, m), tokens, j),
        Err(e) => Err(e),
    }
}

fn parse_add(tokens: &[Token], pos: usize) -> (r: Result<(Exp, usize), ParseError>)
    requires
        pos <= tokens@.len(),
    ensures
        exp_result_matches(
            r,
            spec_parse_add(tokens.deep_view(), pos as int),
            pos as int,
            tokens@.len() as int,
        ),
    decreases tokens@.len() - pos, 5int,
{
    reveal(spec_parse_add);
    reveal(spec_parse_mul);
    reveal(spec_parse_add_rest);
    match parse_mul(tokens, pos) {
        Ok((m, j)) => parse_add_rest(m, tokens, j),
        Err(e) => Err(e),
    }
}

fn parse_relational_rest(acc: Exp, tokens: &[Token], pos: usize) -> (r: Result<
    (Exp, usize),
    ParseError,
>)
    requires
        0 < pos <= tokens@.len(),
    ensures
        ({
            let s = spec_parse_relational_rest(acc.deep_view(), tokens.deep_view(), pos as int);
            match s {
                Ok((ev, j)) => r is Ok && r->Ok_0.0.deep_view() == ev && r->Ok_0.1 as int == j
                    && pos <= j <= tokens@.len(),
                Err(e) => r is Err && r->Err_0 == e,
            }
        }),
    decreases tokens@.len() - pos, 6int,
{
    reveal(spec_parse_relational_rest);
    reveal(spec_parse_add);
    let n = tokens.len();
    if pos >= n {
        return Ok((acc, pos));
    }
    let op = match &tokens[pos] {
        Token::Ls => Op::Ls,
        Token::LsEq => Op::LsEq,
        Token::Gr => Op::Gr,
        Token::GrEq => Op::GrEq,
        _ => {
            return Ok((acc, pos));
        },
    };
    match parse_add(tokens, pos + 1) {
        Ok((m, j)) => parse_relational_rest(infix_exp(acc, op, m), tokens, j),
        Err(e) => Err(e),
    }
}

fn parse_relational(tokens: &[Token], pos: usize) -> (r: Result<(Exp, usize), ParseError>)
    requires
        pos <= tokens@.len(),
    ensures
        exp_result_matches(
            r,
            spec_parse_relational(tokens.deep_view(), pos as int),
            pos as int,
            tokens@.len() as int,
        ),
    decreases tokens@.len() - pos, 7int,
{
    reveal(spec_parse_relational);
    reveal(spec_parse_add);
    reveal(spec_parse_relational_rest);
    match parse_add(tokens, pos) {
        Ok((m, j)) => parse_relational_rest(m, tokens, j),
        Err(e) => Err(e),
    }
}

fn parse_equality_rest(acc: Exp, tokens: &[Token], pos: usize) -> (r: Result<
    (Exp, usize),
    ParseError,
>)
    requires
        0 < pos <= tokens@.len(),
    ensures
        ({
            let s = spec_parse_equality_rest(acc.deep_view(), tokens.deep_view(), pos as int);
            match s {
                Ok((ev, j)) => r is Ok && r->Ok_0.0.deep_view() == ev && r->Ok_0.1 as int == j
                    && pos <= j <= tokens@.len(),
                Err(e) => r is Err && r->Err_0 == e,
            }
        }),
    decreases tokens@.len() - pos, 8int,
{
    reveal(spec_parse_equality_rest);
    reveal(spec_parse_relational);
    let n = tokens.len();
    if pos >= n {
        return Ok((acc, pos));
    }
    let op = match &tokens[pos] {
        Token::Eq => Op::Eq,
        Token::NotEq => Op::NotEq,
        _ => {
            return Ok((acc, pos));
        },
    };
    match parse_relational(tokens, pos + 1) {
        Ok((m, j)) => parse_equality_rest(infix_exp(acc, op, m), tokens, j),
        Err(e) => Err(e),
    }
}

fn parse_equality(tokens: &[Token], pos: usize) -> (r: Result<(Exp, usize), ParseError>)
    requires
        pos <= tokens@.len(),
    ensures
        exp_result_matches(
            r,
            spec_parse_equality(tokens.deep_view(), pos as int),
            pos as int,
            tokens@.len() as int,
        ),
    decreases tokens@.len() - pos, 9int,
{
    reveal(spec_parse_equality);
    reveal(spec_parse_relational);
    reveal(spec_parse_equality_rest);
    match parse_relational(tokens, pos) {
        Ok((m, j)) => parse_equality_rest(m, tokens, j),
        Err(e) => Err(e),
    }
}

#[verifier::rlimit(100)]
#[verifier::spinoff_prover]
fn parse_assign(tokens: &[Token], pos: usize) -> (r: Result<(Exp, usize), ParseError>)
    requires
        pos <= tokens@.len(),
    ensures
        exp_result_matches(
            r,
            spec_parse_assign(tokens.deep_view(), pos as int),
            pos as int,
            tokens@.len() as int,
        ),
    decreases tokens@.len() - pos, 10int,
{
    reveal(spec_parse_assign);
    reveal(spec_parse_equality);
    let n = tokens.len();
    match parse_equality(tokens, pos) {
        Ok((eq, j)) => {
            if j < n && matches!(&tokens[j], Token::Assign) {
                match parse_assign(tokens, j + 1) {
                    Ok((a, k)) => Ok((infix_exp(eq, Op::Assign, a), k)),
                    Err(e) => Err(e),
                }
            } else {
                Ok((eq, j))
            }
        },
        Err(e) => Err(e),
    }
}

#[verifier::rlimit(100)]
#[verifier::spinoff_prover]
fn parse_vars(tokens: &[Token], pos: usize, acm: &mut Vec<Exp>) -> (r: Result<usize, ParseError>)
    requires
        pos <= tokens@.len(),
    ensures
        ({
            let s = spec_parse_vars(tokens.deep_view(), pos as int);
            match s {
                Ok((es, j)) => r is Ok && r->Ok_0 as int == j && pos < j <= tokens@.len() && final(acm).deep_view() == old(acm).deep_view() + es,
                Err(e) => r is Err && r->Err_0 == e,
            }
        }),
    decreases tokens@.len() - pos, 11int,
{
    reveal(spec_parse_vars);
    reveal(spec_parse_vars_more);
    reveal(spec_parse_assign);
    let n = tokens.len();
    if pos >= n {
        return Err(ParseError { kind: ParseErrorKind::UnclosedParen, pos });
    }
    let p1 = if matches!(&tokens[pos], Token::LParen) {
        pos + 1
    } else {
        pos
    };
    if p1 >= n {
        return Err(ParseError { kind: ParseErrorKind::UnclosedParen, pos: p1 });
    }
    if matches!(&tokens[p1], Token::RParen) {
        proof {
            assert(final(acm).deep_view() =~= old(acm).deep_view() + Seq::<ExpV>::empty());
        }
        return Ok(p1 + 1);
    }
    match parse_assign(tokens, p1) {
        Ok((e, j)) => {
            let ghost before = acm.deep_view();
            let ghost ev = e.deep_view();
            acm.push(e);
            proof {
                assert(acm.deep_view() =~= before.push(ev));
            }
            let r = parse_vars_more(tokens, j, acm);
            proof {
                if spec_parse_vars(tokens.deep_view(), pos as int) is Ok {
                    let es2 = spec_parse_vars_more(tokens.deep_view(), j as int)->Ok_0.0;
                    assert(acm.deep_view() =~= before + (seq![ev] + es2));
                }
            }
            r
        },
        Err(e) => Err(e),
    }
}

fn parse_vars_more(tokens: &[Token], pos: usize, acm: &mut Vec<Exp>) -> (r: Result<
    usize,
    ParseError,
>)
    requires
        pos <= tokens@.len(),
    ensures
        ({
            let s = spec_parse_vars_more(tokens.deep_view(), pos as int);
            match s {
                Ok((es, j)) => r is Ok && r->Ok_0 as int == j && pos < j <= tokens@.len() && final(acm).deep_view() == old(acm).deep_view() + es,
                Err(e) => r is Err && r->Err_0 == e,
            }
        }),
    decreases tokens@.len() - pos, 11int,
{
    reveal(spec_parse_vars_more);
    reveal(spec_parse_assign);
    let n = tokens.len();
    if pos >= n {
        return Err(ParseError { kind: ParseErrorKind::UnclosedParen, pos });
    }
    if matches!(&tokens[pos], Token::RParen) {
        proof {
            assert(final(acm).deep_view() =~= old(acm).deep_view() + Seq::<ExpV>::empty());
        }
        return Ok(pos + 1);
    }
    if !matches!(&tokens[pos], Token::Comma) {
        return Err(ParseError { kind: ParseErrorKind::UnclosedParen, pos });
    }
    match parse_assign(tokens, pos + 1) {
        Ok((e, j)) => {
            let ghost before = acm.deep_view();
            let ghost ev = e.deep_view();
            acm.push(e);
            proof {
                assert(acm.deep_view() =~= before.push(ev));
            }
            let r = parse_vars_more(tokens, j, acm);
            proof {
                if spec_parse_vars_more(tokens.deep_view(), pos as int) is Ok {
                    let es2 = spec_parse_vars_more(tokens.deep_view(), j as int)->Ok_0.0;
                    assert(acm.deep_view() =~= before + (seq![ev] + es2));
                }
            }
            r
        },
        Err(e) => Err(e),
    }
}

/// Parse one type name.
pub fn parse_type(tokens: &[Token], pos: usize) -> (r: Result<(TypeDec, usize), ParseError>)
    requires
        pos <= tokens@.len(),
    ensures
        match spec_parse_type(tokens.deep_view(), pos as int) {
            Ok((t, j)) => r is Ok && r->Ok_0.0 == t && r->Ok_0.1 as int == j && j == pos + 1,
            Err(e) => r is Err && r->Err_0 == e,
        },
{
    if pos < tokens.len() {
        match &tokens[pos] {
            Token::Type(t) => Ok((t.clone(), pos + 1)),
            _ => Err(ParseError { kind: ParseErrorKind::BadType, pos }),
        }
    } else {
        Err(ParseError { kind: ParseErrorKind::BadType, pos })
    }
}

fn parse_type_vars(tokens: &[Token], pos: usize, acm: &mut Vec<TypeAndExp>) -> (r: Result<
    usize,
    ParseError,
>)
    requires
        pos <= tokens@.len(),
    ensures
        ({
            let s = spec_parse_type_vars(tokens.deep_view(), pos as int);
            match s {
                Ok((ps, j)) => r is Ok && r->Ok_0 as int == j && pos < j <= tokens@.len() && final(acm).deep_view() == old(acm).deep_view() + ps,
                Err(e) => r is Err && r->Err_0 == e,
            }
        }),
    decreases tokens@.len() - pos, 11int,
{
    reveal(spec_parse_type_vars);
    reveal(spec_parse_type_vars_more);
    reveal(spec_parse_assign);
    let n = tokens.len();
    if pos >= n {
        return Err(ParseError { kind: ParseErrorKind::UnclosedParen, pos });
    }
    let p1 = if matches!(&tokens[pos], Token::LParen) {
        pos + 1
    } else {
        pos
    };
    if p1 >= n {
        return Err(ParseError { kind: ParseErrorKind::UnclosedParen, pos: p1 });
    }
    if matches!(&tokens[p1], Token::RParen) {
        proof {
            assert(final(acm).deep_view() =~= old(acm).deep_view() + Seq::<
                (TypeDec, ExpV),
            >::empty());
        }
        return Ok(p1 + 1);
    }
    let t: TypeDec = match parse_type(tokens, p1) {
        Ok((t, _)) => t,
        Err(e) => {
            return Err(e);
        },
    };
    match parse_assign(tokens, p1 + 1) {
        Ok((e, j)) => {
            let ghost before = acm.deep_view();
            let ghost pv = (t.deep_view(), e.deep_view());
            acm.push((t, e));
            proof {
                assert(acm.deep_view() =~= before.push(pv));
            }
            let r = parse_type_vars_more(tokens, j, acm);
            proof {
                if spec_parse_type_vars(tokens.deep_view(), pos as int) is Ok {
                    let ps2 = spec_parse_type_vars_more(tokens.deep_view(), j as int)->Ok_0.0;
                    assert(acm.deep_view() =~= before + (seq![pv] + ps2));
                }
            }
            r
        },
        Err(e) => Err(e),
    }
}

fn parse_type_vars_more(tokens: &[Token], pos: usize, acm: &mut Vec<TypeAndExp>) -> (r: Result<
    usize,
    ParseError,
>)
    requires
        pos <= tokens@.len(),
    ensures
        ({
            let s = spec_parse_type_vars_more(tokens.deep_view(), pos as int);
            match s {
                Ok((ps, j)) => r is Ok && r->Ok_0 as int == j && pos < j <= tokens@.len() && final(acm).deep_view() == old(acm).deep_view() + ps,
                Err(e) => r is Err && r->Err_0 == e,
            }
        }),
    decreases tokens@.len() - pos, 11int,
{
    reveal(spec_parse_type_vars_more);
    reveal(spec_parse_assign);
    let n = tokens.len();
    if pos >= n {
        return Err(ParseError { kind: ParseErrorKind::UnclosedParen, pos });
    }
    if matches!(&tokens[pos], Token::RParen) {
        proof {
            assert(final(acm).deep_view() =~= old(acm).deep_view() + Seq::<
                (TypeDec, ExpV),
            >::empty());
        }
        return Ok(pos + 1);
    }
    if !matches!(&tokens[pos], Token::Comma) {
        return Err(ParseError { kind: ParseErrorKind::UnclosedParen, pos });
    }
    let t: TypeDec = match parse_type(tokens, pos + 1) {
        Ok((t, _)) => t,
        Err(e) => {
            return Err(e);
        },
    };
    match parse_assign(tokens, pos + 2) {
        Ok((e, j)) => {
            let ghost before = acm.deep_view();
            let ghost pv = (t.deep_view(), e.deep_view());
            acm.push((t, e));
            proof {
                assert(acm.deep_view() =~= before.push(pv));
            }
            let r = parse_type_vars_more(tokens, j, acm);
            proof {
                if spec_parse_type_vars_more(tokens.deep_view(), pos as int) is Ok {
                    let ps2 = spec_parse_type_vars_more(tokens.deep_view(), j as int)->Ok_0.0;
                    assert(acm.deep_view() =~= before + (seq![pv] + ps2));
                }
            }
            r
        },
        Err(e) => Err(e),
    }
}

/// Parse a call of the function named `v`, starting after `IDENT (`.
#[verifier::rlimit(100)]
#[verifier::spinoff_prover]
pub fn parse_fun_call(v: String, tokens: &[Token], pos: usize) -> (r: Result<
    (Exp, usize),
    ParseError,
>)
    requires
        pos <= tokens@.len(),
    ensures
        exp_result_matches(
            r,
            spec_parse_fun_call(v@, tokens.deep_view(), pos as int),
            pos as int,
            tokens@.len() as int,
        ),
    decreases tokens@.len() - pos, 12int,
{
    reveal(spec_parse_fun_call);
    reveal(spec_parse_vars);
    let mut args: Vec<Exp> = Vec::new();
    match parse_vars(tokens, pos, &mut args) {
        Ok(j) => {
            let r = Exp::FuncCall { fun: Box::new(Exp::Var(v)), args };
            proof {
                reveal_with_fuel(view_exp, 2);
                let s = spec_parse_vars(tokens.deep_view(), pos as int);
                lemma_view_exps(r->args@);
                assert(r.deep_view()->args =~= Seq::<ExpV>::empty() + s->Ok_0.0);
                assert(r.deep_view() == (ExpV::FuncCall {
                    fun: Box::new(ExpV::Var(v@)),
                    args: s->Ok_0.0,
                }));
            }
            Ok((r, j))
        },
        Err(e) => Err(e),
    }
}

fn parse_block_rest(tokens: &[Token], pos: usize, acm: &mut Vec<Stmt>) -> (r: Result<
    usize,
    ParseError,
>)
    requires
        pos <= tokens@.len(),
    ensures
        ({
            let s = spec_parse_block_rest(tokens.deep_view(), pos as int);
            match s {
                Ok((ss, j)) => r is Ok && r->Ok_0 as int == j && pos <= j <= tokens@.len() && final(acm).deep_view() == old(acm).deep_view() + ss,
                Err(e) => r is Err && r->Err_0 == e,
            }
        }),
    decreases tokens@.len() - pos, 17int,
{
    reveal(spec_parse_block_rest);
    reveal(spec_parse_stmt);
    let n = tokens.len();
    if pos >= n {
        return Err(ParseError { kind: ParseErrorKind::UnclosedBrace, pos });
    }
    if matches!(&tokens[pos], Token::RBrace) {
        proof {
            assert(final(acm).deep_view() =~= old(acm).deep_view() + Seq::<StmtV>::empty());
        }
        return Ok(pos + 1);
    }
    match parse_stmt_at(tokens, pos) {
        Ok((s, j)) => {
            let ghost before = acm.deep_view();
            let ghost sv = s.deep_view();
            acm.push(s);
            proof {
                assert(acm.deep_view() =~= before.push(sv));
            }
            let r = parse_block_rest(tokens, j, acm);
            proof {
                if spec_parse_block_rest(tokens.deep_view(), pos as int) is Ok {
                    let ss2 = spec_parse_block_rest(tokens.deep_view(), j as int)->Ok_0.0;
                    assert(acm.deep_view() =~= before + (seq![sv] + ss2));
                }
            }
            r
        },
        Err(e) => Err(e),
    }
}

/// Parse a block body; tolerates a leading `{` not yet consumed by the
/// caller.
pub fn parse_block(tokens: &[Token], pos: usize, acm: &mut Vec<Stmt>) -> (r: Result<
    usize,
    ParseError,
>)
    requires
        pos <= tokens@.len(),
    ensures
        ({
            let s = spec_parse_block(tokens.deep_view(), pos as int);
            match s {
                Ok((ss, j)) => r is Ok && r->Ok_0 as int == j && pos <= j <= tokens@.len() && final(acm).deep_view() == old(acm).deep_view() + ss,
                Err(e) => r is Err && r->Err_0 == e,
            }
        }),
    decreases tokens@.len() - pos, 18int,
{
    reveal(spec_parse_block);
    reveal(spec_parse_block_rest);
    let n = tokens.len();
    let p1 = if pos < n && matches!(&tokens[pos], Token::LBrace) {
        pos + 1
    } else {
        pos
    };
    parse_block_rest(tokens, p1, acm)
}

/// Parse an `if` statement after `if (`.
#[verifier::rlimit(60)]
pub fn parse_if(tokens: &[Token], pos: usize) -> (r: Result<(Stmt, usize), ParseError>)
    requires
        pos <= tokens@.len(),
    ensures
        stmt_result_matches(
            r,
            spec_parse_if(tokens.deep_view(), pos as int),
            pos as int,
            tokens@.len() as int,
        ),
    decreases tokens@.len() - pos, 15int,
{
    reveal(spec_parse_if);
    reveal(spec_parse_assign);
    reveal(spec_parse_stmt);
    let n = tokens.len();
    match parse_assign(tokens, pos) {
        Ok((cond, j)) => {
            if j < n && matches!(&tokens[j], Token::RParen) {
                match parse_stmt_at(tokens, j + 1) {
                    Ok((s1, k)) => {
                        if k < n && matches!(&tokens[k], Token::Else) {
                            match parse_stmt_at(tokens, k + 1) {
                                Ok((s2, m)) => Ok((new_if(cond, s1, Some(s2)), m)),
                                Err(e) => Err(e),
                            }
                        } else {
                            Ok((new_if(cond, s1, None), k))
                        }
                    },
                    Err(e) => Err(e),
                }
            } else {
                Err(ParseError { kind: ParseErrorKind::UnclosedCond, pos: j })
            }
        },
        Err(e) => Err(e),
    }
}

/// Parse a `while` statement after `while (`.
#[verifier::rlimit(60)]
pub fn parse_while(tokens: &[Token], pos: usize) -> (r: Result<(Stmt, usize), ParseError>)
    requires
        pos <= tokens@.len(),
    ensures
        stmt_result_matches(
            r,
            spec_parse_while(tokens.deep_view(), pos as int),
            pos as int,
            tokens@.len() as int,
        ),
    decreases tokens@.len() - pos, 15int,
{
    reveal(spec_parse_while);
    reveal(spec_parse_assign);
    reveal(spec_parse_stmt);
    let n = tokens.len();
    match parse_assign(tokens, pos) {
        Ok((cond, j)) => {
            if j < n && matches!(&tokens[j], Token::RParen) {
                match parse_stmt_at(tokens, j + 1) {
                    Ok((s, k)) => Ok((Stmt::While { cond: Box::new(cond), stmt: Box::new(s) }, k)),
                    Err(e) => Err(e),
                }
            } else {
                Err(ParseError { kind: ParseErrorKind::UnclosedCond, pos: j })
            }
        },
        Err(e) => Err(e),
    }
}

/// Parse one clause of a `for` head.
pub fn parse_for_cond_exp(tokens: &[Token], pos: usize) -> (r: Result<
    (Option<Exp>, usize),
    ParseError,
>)
    requires
        pos <= tokens@.len(),
    ensures
        ({
            let s = spec_parse_for_cond_exp(tokens.deep_view(), pos as int);
            match s {
                Ok((oe, j)) => r is Ok && r->Ok_0.1 as int == j && pos < j <= tokens@.len()
                    && match (r->Ok_0.0, oe) {
                    (Some(e), Some(ev)) => e.deep_view() == ev,
                    (None, None) => true,
                    _ => false,
                },
                Err(e) => r is Err && r->Err_0 == e,
            }
        }),
    decreases tokens@.len() - pos, 11int,
{
    reveal(spec_parse_for_cond_exp);
    reveal(spec_parse_assign);
    let n = tokens.len();
    if pos < n && (matches!(&tokens[pos], Token::Semicolon) || matches!(
        &tokens[pos],
        Token::RParen,
    )) {
        return Ok((None, pos + 1));
    }
    match parse_assign(tokens, pos) {
        Ok((e, j)) => {
            if j < n && (matches!(&tokens[j], Token::Semicolon) || matches!(
                &tokens[j],
                Token::RParen,
            )) {
                Ok((Some(e), j + 1))
            } else {
                Err(ParseError { kind: ParseErrorKind::BadFor, pos: j })
            }
        },
        Err(e) => Err(e),
    }
}

/// Parse a `for` statement after `for (`.
#[verifier::rlimit(60)]
pub fn parse_for(tokens: &[Token], pos: usize) -> (r: Result<(Stmt, usize), ParseError>)
    requires
        pos <= tokens@.len(),
    ensures
        stmt_result_matches(
            r,
            spec_parse_for(tokens.deep_view(), pos as int),
            pos as int,
            tokens@.len() as int,
        ),
    decreases tokens@.len() - pos, 15int,
{
    reveal(spec_parse_for);
    reveal(spec_parse_for_cond_exp);
    reveal(spec_parse_stmt);
    match parse_for_cond_exp(tokens, pos) {
        Ok((o1, j)) => match parse_for_cond_exp(tokens, j) {
            Ok((o2, k)) => match parse_for_cond_exp(tokens, k) {
                Ok((o3, m)) => match parse_stmt_at(tokens, m) {
                    Ok((s, p)) => Ok(
                        (
                            Stmt::For {
                                exp1: Box::new(o1),
                                exp2: Box::new(o2),
                                exp3: Box::new(o3),
                                stmt: Box::new(s),
                            },
                            p,
                        ),
                    ),
                    Err(e) => Err(e),
                },
                Err(e) => Err(e),
            },
            Err(e) => Err(e),
        },
        Err(e) => Err(e),
    }
}

/// Parse a function definition after `type IDENT (`.
#[verifier::rlimit(60)]
pub fn parse_func(t: TypeDec, fun: String, tokens: &[Token], pos: usize) -> (r: Result<
    (Stmt, usize),
    ParseError,
>)
    requires
        pos <= tokens@.len(),
    ensures
        stmt_result_matches(
            r,
            spec_parse_func(t.deep_view(), fun@, tokens.deep_view(), pos as int),
            pos as int,
            tokens@.len() as int,
        ),
    decreases tokens@.len() - pos, 15int,
{
    reveal(spec_parse_func);
    reveal(spec_parse_type_vars);
    reveal(spec_parse_block);
    let mut params: Vec<TypeAndExp> = Vec::new();
    match parse_type_vars(tokens, pos, &mut params) {
        Ok(j) => {
            let mut body: Vec<Stmt> = Vec::new();
            match parse_block(tokens, j, &mut body) {
                Ok(k) => {
                    let r = Stmt::Func { t, fun: Box::new(Exp::Var(fun)), params, body };
                    proof {
                        let ts = tokens.deep_view();
                        let ps = spec_parse_type_vars(ts, pos as int)->Ok_0.0;
                        let ss = spec_parse_block(ts, j as int)->Ok_0.0;
                        lemma_view_params(r->params@);
                        lemma_view_stmts(r->body@);
                        assert(r.deep_view()->params =~= Seq::<(TypeDec, ExpV)>::empty() + ps);
                        assert(r.deep_view()->body =~= Seq::<StmtV>::empty() + ss);
                    }
                    Ok((r, k))
                },
                Err(e) => Err(e),
            }
        },
        Err(e) => Err(e),
    }
}

fn parse_exp_stmt(tokens: &[Token], pos: usize) -> (r: Result<(Stmt, usize), ParseError>)
    requires
        pos <= tokens@.len(),
    ensures
        stmt_result_matches(
            r,
            spec_parse_exp_stmt(tokens.deep_view(), pos as int),
            pos as int,
            tokens@.len() as int,
        ),
    decreases tokens@.len() - pos, 11int,
{
    reveal(spec_parse_exp_stmt);
    reveal(spec_parse_assign);
    let n = tokens.len();
    match parse_assign(tokens, pos) {
        Ok((e, j)) => {
            if j < n && matches!(&tokens[j], Token::Semicolon) {
                Ok((Stmt::Exp(e), j + 1))
            } else {
                Err(ParseError { kind: ParseErrorKind::MissingSemicolon, pos: j })
            }
        },
        Err(e) => Err(e),
    }
}

#[verifier::rlimit(60)]
fn parse_stmt_at(tokens: &[Token], pos: usize) -> (r: Result<(Stmt, usize), ParseError>)
    requires
        pos <= tokens@.len(),
    ensures
        stmt_result_matches(
            r,
            spec_parse_stmt(tokens.deep_view(), pos as int),
            pos as int,
            tokens@.len() as int,
        ),
    decreases tokens@.len() - pos, 16int,
{
    reveal(spec_parse_stmt);
    reveal(spec_parse_assign);
    reveal(spec_parse_block_rest);
    reveal(spec_parse_if);
    reveal(spec_parse_while);
    reveal(spec_parse_for);
    reveal(spec_parse_func);
    reveal(spec_parse_exp_stmt);
    let n = tokens.len();
    if pos >= n {
        return Err(ParseError { kind: ParseErrorKind::UnexpectedToken, pos });
    }
    match &tokens[pos] {
        Token::Return => match parse_assign(tokens, pos + 1) {
            Ok((e, j)) => {
                if j < n && matches!(&tokens[j], Token::Semicolon) {
                    Ok((Stmt::Return(e), j + 1))
                } else {
                    Err(ParseError { kind: ParseErrorKind::MissingSemicolon, pos: j })
                }
            },
            Err(e) => Err(e),
        },
        Token::LBrace => {
            let mut stmts: Vec<Stmt> = Vec::new();
            match parse_block_rest(tokens, pos + 1, &mut stmts) {
                Ok(j) => {
                    let r = Stmt::Block(stmts);
                    proof {
                        let ss = spec_parse_block_rest(tokens.deep_view(), pos as int + 1)->Ok_0.0;
                        lemma_view_stmts(r->Block_0@);
                        assert(r.deep_view()->Block_0 =~= Seq::<StmtV>::empty() + ss);
                    }
                    Ok((r, j))
                },
                Err(e) => Err(e),
            }
        },
        Token::If => {
            if pos + 1 < n && matches!(&tokens[pos + 1], Token::LParen) {
                parse_if(tokens, pos + 2)
            } else {
                parse_exp_stmt(tokens, pos)
            }
        },
        Token::While => {
            if pos + 1 < n && matches!(&tokens[pos + 1], Token::LParen) {
                parse_while(tokens, pos + 2)
            } else {
                parse_exp_stmt(tokens, pos)
            }
        },
        Token::For => {
            if pos + 1 < n && matches!(&tokens[pos + 1], Token::LParen) {
                parse_for(tokens, pos + 2)
            } else {
                parse_exp_stmt(tokens, pos)
            }
        },
        Token::Type(t0) => {
            if n - pos > 2 && matches!(&tokens[pos + 1], Token::Var(_)) && matches!(
                &tokens[pos + 2],
                Token::LParen,
            ) {
                let t = t0.clone();
                let name: String = match &tokens[pos + 1] {
                    Token::Var(v) => v.clone(),
                    _ => {
                        return Err(ParseError { kind: ParseErrorKind::UnexpectedToken, pos });
                    },
                };
                parse_func(t, name, tokens, pos + 3)
            } else if n - pos > 2 && matches!(&tokens[pos + 1], Token::Var(_)) && matches!(
                &tokens[pos + 2],
                Token::Semicolon,
            ) {
                let t = t0.clone();
                let name: String = match &tokens[pos + 1] {
                    Token::Var(v) => v.clone(),
                    _ => {
                        return Err(ParseError { kind: ParseErrorKind::UnexpectedToken, pos });
                    },
                };
                Ok((Stmt::VarDec { t, var: Box::new(Exp::Var(name)) }, pos + 3))
            } else {
                parse_exp_stmt(tokens, pos)
            }
        },
        _ => parse_exp_stmt(tokens, pos),
    }
}

fn parse_program_sub(tokens: &[Token], pos: usize, acm: &mut Vec<Stmt>) -> (r: Result<
    (),
    ParseError,
>)
    requires
        pos <= tokens@.len(),
    ensures
        ({
            let s = spec_parse_program(tokens.deep_view(), pos as int);
            match s {
                Ok(ss) => r is Ok && final(acm).deep_view() == old(acm).deep_view() + ss,
                Err(e) => r is Err && r->Err_0 == e,
            }
        }),
    decreases tokens@.len() - pos, 19int,
{
    reveal(spec_parse_program);
    reveal(spec_parse_stmt);
    match parse_stmt_at(tokens, pos) {
        Ok((s, j)) => {
            let ghost before = acm.deep_view();
            let ghost sv = s.deep_view();
            acm.push(s);
            proof {
                assert(acm.deep_view() =~= before.push(sv));
            }
            if j >= tokens.len() {
                proof {
                    assert(acm.deep_view() =~= before + seq![sv]);
                }
                Ok(())
            } else {
                let r = parse_program_sub(tokens, j, acm);
                proof {
                    if spec_parse_program(tokens.deep_view(), pos as int) is Ok {
                        let ss2 = spec_parse_program(tokens.deep_view(), j as int)->Ok_0;
                        assert(acm.deep_view() =~= before + (seq![sv] + ss2));
                    }
                }
                r
            }
        },
        Err(e) => Err(e),
    }
}

/// Parse a whole program: top-level statements until the tokens run out.
pub fn parse_program(tokens: &[Token]) -> (r: Result<Program, ParseError>)
    ensures
        match spec_parse_program(tokens.deep_view(), 0) {
            Ok(ss) => r is Ok && r->Ok_0.deep_view() == ss,
            Err(e) => r is Err && r->Err_0 == e,
        },
{
    let mut acm: Vec<Stmt> = Vec::new();
    match parse_program_sub(tokens, 0, &mut acm) {
        Ok(()) => {
            proof {
                if spec_parse_program(tokens.deep_view(), 0) is Ok {
                    assert(acm.deep_view() =~= spec_parse_program(tokens.deep_view(), 0)->Ok_0);
                }
            }
            Ok(acm)
        },
        Err(e) => Err(e),
    }
}

/// Parse one statement from the front of the tokens; on success also
/// yields the tokens that remain.
pub fn parse_stmt<'a>(tokens: &'a [Token]) -> (r: Result<(Stmt, &'a [Token]), ParseError>)
    ensures
        match spec_parse_stmt(tokens.deep_view(), 0) {
            Ok((sv, j)) => r is Ok && r->Ok_0.0.deep_view() == sv && r->Ok_0.1@ =~= tokens@.subrange(
                j,
                tokens@.len() as int,
            ),
            Err(e) => r is Err && r->Err_0 == e,
        },
{
    match parse_stmt_at(tokens, 0) {
        Ok((s, j)) => Ok((s, &tokens[j..tokens.len()])),
        Err(e) => Err(e),
    }
}

/// Parse one expression from the front of the tokens; on success also
/// yields the tokens that remain.
pub fn parse_exp<'a>(tokens: &'a [Token]) -> (r: Result<(Exp, &'a [Token]), ParseError>)
    ensures
        match spec_parse_assign(tokens.deep_view(), 0) {
            Ok((ev, j)) => r is Ok && r->Ok_0.0.deep_view() == ev && r->Ok_0.1@ =~= tokens@.subrange(
                j,
                tokens@.len() as int,
            ),
            Err(e) => r is Err && r->Err_0 == e,
        },
{
    match parse_assign(tokens, 0) {
        Ok((e, j)) => Ok((e, &tokens[j..tokens.len()])),
        Err(e) => Err(e),
    }
}

} // verus!
