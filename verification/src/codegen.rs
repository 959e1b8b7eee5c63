//! The code generator: walks the syntax tree and appends lines of
//! x86-64 assembly (Intel syntax) to an output stream, consulting and
//! mutating one per-compilation `StateHolder`.  Every expression leaves
//! its value in `rax`; binary operations stage operands with an explicit
//! push/pop discipline whose depth the state tracks.  The `spec_gen_*`
//! functions are the mathematical description of the lowering; the
//! executable functions are proved to agree with them exactly.
use crate::lexer::TypeDec;
use crate::parser::view_exp;
use crate::parser::view_stmt;
use crate::parser::Exp;
use crate::parser::ExpV;
use crate::parser::Op;
use crate::parser::Program;
use crate::parser::Stmt;
use crate::parser::StmtV;
use crate::parser::TypeAndExp;
use crate::parser::UOp;
use vstd::prelude::*;

verus! {

/// The per-slot frame size of a local variable, in bytes.
pub const LOCAL_VAR_OFFSET: i32 = 8;

/// The frame stride of the legacy pointer-slot allocator.
pub const LOCAL_POINTER_OFFSET: i32 = 4;

/// Frame sizes are rounded up to this alignment before the prologue.
pub const RSP_CONST: i32 = 16;

/// How generation can fail.  Every failure is terminal: the first error
/// abandons the whole compilation and no output is used.
#[derive(Debug, Clone, Copy, PartialEq, Eq, Structural)]
pub enum GenError {
    /// A variable was used that no declaration in the current function
    /// introduced.
    UndefinedVariable,
    /// The target of an assignment is not an addressable expression.
    InvalidLvalue,
    /// The name position of a call or function definition is not a bare
    /// identifier.
    MalformedCall,
    /// The variable position of a declaration or parameter is not a
    /// bare identifier.
    MalformedDecl,
    /// A call or definition with more arguments than the six
    /// argument-passing registers.
    TooManyArgs,
    /// A limit of the generator itself was breached: the operand stack
    /// is out of balance at a function boundary, or a counter or frame
    /// outgrew its range.
    InternalInvariantFault,
}

/// The mathematical image of the generator's state.
pub struct StateV {
    /// Variable name to (positive) frame offset, in allocation order.
    pub offsets: Seq<(Seq<char>, i32)>,
    /// The next frame offset to hand out.
    pub max_offset: i32,
    /// The next label number to hand out; never reset, so label numbers
    /// are unique across the whole compilation.
    pub label_counter: i32,
    /// The name of the function whose body is being lowered.
    pub fun_name: Seq<char>,
    /// Emitted pushes minus emitted pops of the operand stack.
    pub depth: i32,
    /// The declared local variables of the current function, in order.
    pub env: Seq<(Seq<char>, TypeDec)>,
    /// The assembly lines emitted so far.
    pub output: Seq<Seq<char>>,
    /// The label numbers handed out so far, in order.
    pub labels: Seq<int>,
}

/// The per-compilation mutable context of the generator: the frame
/// offsets and declared variables of the current function, the global
/// label counter, and the operand-stack depth, together with the output
/// stream.
pub struct StateHolder {
    offset_map: Vec<(String, i32)>,
    max_offset: i32,
    label_counter: i32,
    current_fun_name: String,
    depth: i32,
    local_vars_env: Vec<(String, TypeDec)>,
    output: Vec<String>,
    labels: Ghost<Seq<int>>,
}

impl View for StateHolder {
    type V = StateV;

    closed spec fn view(&self) -> StateV {
        StateV {
            offsets: self.offset_map.deep_view(),
            max_offset: self.max_offset,
            label_counter: self.label_counter,
            fun_name: self.current_fun_name@,
            depth: self.depth,
            env: self.local_vars_env.deep_view(),
            output: self.output.deep_view(),
            labels: self.labels@,
        }
    }
}

/// The label numbers handed out so far are exactly 0, 1, 2, …, one per
/// increment of the counter; hence no number is ever handed out twice.
pub open spec fn labels_wf(s: StateV) -> bool {
    &&& s.labels.len() == s.label_counter
    &&& forall|k: int| 0 <= k < s.labels.len() ==> s.labels[k] == k
}

/// Label uniqueness: distinct positions in the hand-out record always
/// hold distinct label numbers, in any well-formed state.
pub proof fn lemma_label_numbers_distinct(s: StateV)
    requires
        labels_wf(s),
    ensures
        forall|i: int, j: int|
            0 <= i < j < s.labels.len() ==> s.labels[i] != s.labels[j],
{
}

/// The state a compilation starts from.
pub open spec fn init_state() -> StateV {
    StateV {
        offsets: Seq::empty(),
        max_offset: 8,
        label_counter: 0,
        fun_name: Seq::empty(),
        depth: 0,
        env: Seq::empty(),
        output: Seq::empty(),
        labels: Seq::empty(),
    }
}

/// A fresh generator state.
pub fn new_state_holder() -> (r: StateHolder)
    ensures
        r@ == init_state(),
{
    let r = StateHolder {
        offset_map: Vec::new(),
        max_offset: LOCAL_VAR_OFFSET,
        label_counter: 0,
        current_fun_name: String::new(),
        depth: 0,
        local_vars_env: Vec::new(),
        output: Vec::new(),
        labels: Ghost(Seq::empty()),
    };
    proof {
        assert(r@.offsets =~= init_state().offsets);
        assert(r@.env =~= init_state().env);
        assert(r@.output =~= init_state().output);
    }
    r
}

// ---------------------------------------------------------------------
// Decimal rendering of the numbers that appear in labels and operands.

/// The digit character of `d`, for `0 <= d <= 9`.
pub open spec fn dec_digit_char(d: int) -> char {
    if d == 0 {
        '0'
    } else if d == 1 {
        '1'
    } else if d == 2 {
        '2'
    } else if d == 3 {
        '3'
    } else if d == 4 {
        '4'
    } else if d == 5 {
        '5'
    } else if d == 6 {
        '6'
    } else if d == 7 {
        '7'
    } else if d == 8 {
        '8'
    } else {
        '9'
    }
}

/// The decimal digits of a non-negative number, most significant first.
pub open spec fn dec_rep(n: int) -> Seq<char>
    decreases n,
{
    if n < 10 {
        seq![dec_digit_char(if n < 0 {
            0
        } else {
            n
        })]
    } else {
        dec_rep(n / 10).push(dec_digit_char(n % 10))
    }
}

/// The decimal form of an integer, with a leading minus sign when
/// negative.
pub open spec fn int_rep(n: int) -> Seq<char> {
    if n < 0 {
        seq!['-'] + dec_rep(-n)
    } else {
        dec_rep(n)
    }
}

fn digit_str(d: u32) -> (r: &'static str)
    requires
        d < 10,
    ensures
        r@ == seq![dec_digit_char(d as int)],
{
    proof {
        reveal_strlit("0");
        reveal_strlit("1");
        reveal_strlit("2");
        reveal_strlit("3");
        reveal_strlit("4");
        reveal_strlit("5");
        reveal_strlit("6");
        reveal_strlit("7");
        reveal_strlit("8");
        reveal_strlit("9");
    }
    let r = match d {
        0 => "0",
        1 => "1",
        2 => "2",
        3 => "3",
        4 => "4",
        5 => "5",
        6 => "6",
        7 => "7",
        8 => "8",
        _ => "9",
    };
    proof {
        assert(r@ =~= seq![dec_digit_char(d as int)]);
    }
    r
}

fn dec_string(n: u32) -> (r: String)
    ensures
        r@ == dec_rep(n as int),
    decreases n,
{
    if n < 10 {
        String::from_str(digit_str(n))
    } else {
        let mut s = dec_string(n / 10);
        s.append(digit_str(n % 10));
        proof {
            assert(s@ =~= dec_rep(n as int));
        }
        s
    }
}

fn int_string(n: i32) -> (r: String)
    ensures
        r@ == int_rep(n as int),
{
    if n >= 0 {
        dec_string(n as u32)
    } else {
        let m: u32 = (-(n as i64)) as u32;
        let mut s = String::from_str("-");
        s.append(dec_string(m).as_str());
        proof {
            reveal_strlit("-");
            assert(s@ =~= int_rep(n as int));
        }
        s
    }
}

// ---------------------------------------------------------------------
// State operations, each with its mathematical counterpart.

/// Append one line to the output.
pub open spec fn emit_s(s: StateV, line: Seq<char>) -> StateV {
    StateV { output: s.output.push(line), ..s }
}

/// Emit a push of `reg` and count it on the operand stack.
pub open spec fn push_s(s: StateV, reg: Seq<char>) -> Result<StateV, GenError> {
    if s.depth == i32::MAX {
        Err(GenError::InternalInvariantFault)
    } else {
        Ok(
            StateV {
                depth: (s.depth + 1) as i32,
                output: s.output.push("  push "@ + reg),
                ..s
            },
        )
    }
}

/// Emit a pop into `reg` and count it off the operand stack.
pub open spec fn pop_s(s: StateV, reg: Seq<char>) -> Result<StateV, GenError> {
    if s.depth == i32::MIN {
        Err(GenError::InternalInvariantFault)
    } else {
        Ok(
            StateV {
                depth: (s.depth - 1) as i32,
                output: s.output.push("  pop "@ + reg),
                ..s
            },
        )
    }
}

/// The label pair for `prefix` at the current counter: the line that
/// defines the label, the name used to jump to it, and the state with
/// the counter advanced and the number recorded.
pub open spec fn alloc_label_s(s: StateV, prefix: Seq<char>) -> (Seq<char>, Seq<char>, StateV) {
    let jump = ".L."@ + prefix + dec_rep(s.label_counter as int);
    (
        jump + ":"@,
        jump,
        StateV {
            label_counter: (s.label_counter + 1) as i32,
            labels: s.labels.push(s.label_counter as int),
            ..s
        },
    )
}

/// The first binding of `name` in an association sequence.
pub open spec fn lookup_assoc<T>(m: Seq<(Seq<char>, T)>, name: Seq<char>) -> Option<T>
    decreases m,
{
    if m.len() == 0 {
        None
    } else if m[0].0 == name {
        Some(m[0].1)
    } else {
        lookup_assoc(m.drop_first(), name)
    }
}

/// Negation that cannot overflow (the one unrepresentable case maps to
/// itself and is ruled out wherever it matters).
pub open spec fn neg32(x: i32) -> i32 {
    if x == i32::MIN {
        i32::MIN
    } else {
        (0 - x as int) as i32
    }
}

/// The frame offset of `name`, allocating the next slot of `stride`
/// bytes on first use; the returned offset is frame-relative and
/// negative.
pub open spec fn alloc_offset_s(s: StateV, name: Seq<char>, stride: i32) -> Result<
    (i32, StateV),
    GenError,
> {
    match lookup_assoc(s.offsets, name) {
        Some(off) => Ok((neg32(off), s)),
        None => if s.max_offset < 0 || s.max_offset > i32::MAX - stride || stride < 0 {
            Err(GenError::InternalInvariantFault)
        } else {
            Ok(
                (
                    neg32(s.max_offset),
                    StateV {
                        offsets: s.offsets.push((name, s.max_offset)),
                        max_offset: (s.max_offset + stride) as i32,
                        ..s
                    },
                ),
            )
        },
    }
}

impl StateHolder {
    /// Count one emitted push.
    pub fn push_depth(&mut self)
        requires
            old(self)@.depth < i32::MAX,
        ensures
            final(self)@ == (StateV { depth: (old(self)@.depth + 1) as i32, ..old(self)@ }),
    {
        self.depth = self.depth + 1;
    }

    /// Count one emitted pop.
    pub fn pop_depth(&mut self)
        requires
            old(self)@.depth > i32::MIN,
        ensures
            final(self)@ == (StateV { depth: (old(self)@.depth - 1) as i32, ..old(self)@ }),
    {
        self.depth = self.depth - 1;
    }

    /// The operand stack must be balanced at a function boundary; an
    /// imbalance is a defect of the generator itself, never of the
    /// input.
    pub fn assert_depth(&self) -> (r: Result<(), GenError>)
        ensures
            r is Ok <==> self@.depth == 0,
            r is Err ==> r->Err_0 == GenError::InternalInvariantFault,
    {
        if self.depth == 0 {
            Ok(())
        } else {
            Err(GenError::InternalInvariantFault)
        }
    }

    /// The label counter as it stands, without advancing it.
    pub fn get_label_counter_value(&self) -> (r: i32)
        ensures
            r == self@.label_counter,
    {
        self.label_counter
    }

    /// The current operand-stack depth, for instrumentation.
    pub fn get_depth(&self) -> (r: i32)
        ensures
            r == self@.depth,
    {
        self.depth
    }

    /// Enter the function whose body is about to be lowered.
    pub fn set_fun_name(&mut self, name: String)
        ensures
            final(self)@ == (StateV { fun_name: name@, ..old(self)@ }),
    {
        self.current_fun_name = name;
    }

    /// The name of the function being lowered.
    pub fn get_fun_name(&self) -> (r: String)
        ensures
            r@ == self@.fun_name,
    {
        self.current_fun_name.clone()
    }

    /// Hand out the next label number.
    pub fn get_label_counter(&mut self) -> (r: i32)
        requires
            old(self)@.label_counter < i32::MAX,
        ensures
            r == old(self)@.label_counter,
            final(self)@ == (StateV {
                label_counter: (old(self)@.label_counter + 1) as i32,
                labels: old(self)@.labels.push(old(self)@.label_counter as int),
                ..old(self)@
            }),
    {
        let value = self.label_counter;
        self.label_counter = self.label_counter + 1;
        proof {
            self.labels@ = self.labels@.push(value as int);
        }
        value
    }

    /// A fresh label for `prefix`: the defining line and the jump
    /// target, globally unique by the monotonic counter.
    pub fn get_label(&mut self, prefix: String) -> (r: (String, String))
        requires
            0 <= old(self)@.label_counter < i32::MAX,
        ensures
            ({
                let (label, jump, sv) = alloc_label_s(old(self)@, prefix@);
                r.0@ == label && r.1@ == jump && final(self)@ == sv
            }),
    {
        let num = self.get_label_counter();
        let mut jump = String::from_str(".L.");
        jump.append(prefix.as_str());
        jump.append(dec_string(num as u32).as_str());
        let mut label = jump.clone();
        label.append(":");
        (label, jump)
    }

    /// The frame offset of `name`, allocating a pointer-stride slot on
    /// first use.
    pub fn get_pointer_offset(&mut self, name: &String) -> (r: Result<i32, GenError>)
        ensures
            ({
                let s = alloc_offset_s(old(self)@, name@, LOCAL_POINTER_OFFSET);
                match s {
                    Ok((off, sv)) => r == Ok::<i32, GenError>(off) && final(self)@ == sv,
                    Err(e) => r == Err::<i32, GenError>(e) && final(self)@ == old(self)@,
                }
            }),
    {
        self.alloc_offset(name, LOCAL_POINTER_OFFSET)
    }

    /// The frame offset of `name`, allocating a variable slot on first
    /// use; offsets are assigned in first-use order and never reused
    /// within a function.
    pub fn get_local_var_offset(&mut self, name: &String) -> (r: Result<i32, GenError>)
        ensures
            ({
                let s = alloc_offset_s(old(self)@, name@, LOCAL_VAR_OFFSET);
                match s {
                    Ok((off, sv)) => r == Ok::<i32, GenError>(off) && final(self)@ == sv,
                    Err(e) => r == Err::<i32, GenError>(e) && final(self)@ == old(self)@,
                }
            }),
    {
        self.alloc_offset(name, LOCAL_VAR_OFFSET)
    }

    fn alloc_offset(&mut self, name: &String, stride: i32) -> (r: Result<i32, GenError>)
        ensures
            ({
                let s = alloc_offset_s(old(self)@, name@, stride);
                match s {
                    Ok((off, sv)) => r == Ok::<i32, GenError>(off) && final(self)@ == sv,
                    Err(e) => r == Err::<i32, GenError>(e) && final(self)@ == old(self)@,
                }
            }),
    {
        let n = self.offset_map.len();
        proof {
            assert(self@.offsets.subrange(0, n as int) =~= self@.offsets);
        }
        let mut k: usize = 0;
        while k < n
            invariant
                k <= n,
                n == self.offset_map.len(),
                lookup_assoc(self@.offsets, name@) == lookup_assoc(
                    self@.offsets.subrange(k as int, n as int),
                    name@,
                ),
                *self == *old(self),
            decreases n - k,
        {
            proof {
                assert(self@.offsets.subrange(k as int, n as int)[0] == self@.offsets[k as int]);
                assert(self@.offsets.subrange(k as int, n as int).drop_first()
                    =~= self@.offsets.subrange(k as int + 1, n as int));
            }
            if self.offset_map[k].0 == *name {
                let off = self.offset_map[k].1;
                if off == i32::MIN {
                    return Ok(i32::MIN);
                }
                return Ok(-off);
            }
            k = k + 1;
        }
        proof {
            assert(self@.offsets.subrange(n as int, n as int) =~= Seq::<(Seq<char>, i32)>::empty());
        }
        if self.max_offset < 0 || stride < 0 || self.max_offset > i32::MAX - stride {
            return Err(GenError::InternalInvariantFault);
        }
        let off = self.max_offset;
        self.max_offset = self.max_offset + stride;
        self.offset_map.push((name.clone(), off));
        proof {
            assert(self@.offsets =~= old(self)@.offsets.push((name@, off)));
        }
        Ok(-off)
    }

    /// Forget all frame offsets; the next function starts fresh.
    pub fn reset_offset(&mut self)
        ensures
            final(self)@ == (StateV {
                offsets: Seq::empty(),
                max_offset: LOCAL_VAR_OFFSET as i32,
                ..old(self)@
            }),
    {
        self.offset_map = Vec::new();
        self.max_offset = LOCAL_VAR_OFFSET;
        proof {
            assert(self@.offsets =~= Seq::<(Seq<char>, i32)>::empty());
        }
    }

    /// Declare a local variable with its type.
    pub fn set_local_var_env(&mut self, t: TypeDec, var: String)
        ensures
            final(self)@ == (StateV { env: old(self)@.env.push((var@, t)), ..old(self)@ }),
    {
        let ghost tv = t.deep_view();
        let ghost vv = var@;
        self.local_vars_env.push((var, t));
        proof {
            assert(self@.env =~= old(self)@.env.push((vv, tv)));
        }
    }

    /// The declared type of `var`, if any declaration introduced it.
    pub fn get_local_var_type(&self, var: &String) -> (r: Option<TypeDec>)
        ensures
            match lookup_assoc(self@.env, var@) {
                Some(t) => r is Some && r->0 == t,
                None => r is None,
            },
    {
        let n = self.local_vars_env.len();
        proof {
            assert(self@.env.subrange(0, n as int) =~= self@.env);
        }
        let mut k: usize = 0;
        while k < n
            invariant
                k <= n,
                n == self.local_vars_env.len(),
                lookup_assoc(self@.env, var@) == lookup_assoc(
                    self@.env.subrange(k as int, n as int),
                    var@,
                ),
            decreases n - k,
        {
            proof {
                assert(self@.env.subrange(k as int, n as int)[0] == self@.env[k as int]);
                assert(self@.env.subrange(k as int, n as int).drop_first() =~= self@.env.subrange(
                    k as int + 1,
                    n as int,
                ));
            }
            if self.local_vars_env[k].0 == *var {
                return Some(self.local_vars_env[k].1.clone());
            }
            k = k + 1;
        }
        proof {
            assert(self@.env.subrange(n as int, n as int) =~= Seq::<(Seq<char>, TypeDec)>::empty());
        }
        None
    }

    /// Forget the declared variables; the next function starts fresh.
    pub fn reset_local_var_env(&mut self)
        ensures
            final(self)@ == (StateV { env: Seq::empty(), ..old(self)@ }),
    {
        self.local_vars_env = Vec::new();
        proof {
            assert(self@.env =~= Seq::<(Seq<char>, TypeDec)>::empty());
        }
    }

    /// Was `var` declared in the current function?
    pub fn check_local_var_from_env(&self, var: &String) -> (r: bool)
        ensures
            r == (lookup_assoc(self@.env, var@) is Some),
    {
        self.get_local_var_type(var).is_some()
    }

    /// Surrender the emitted assembly lines.
    pub fn into_output(self) -> (r: Vec<String>)
        ensures
            r.deep_view() == self@.output,
    {
        self.output
    }
}

// ---------------------------------------------------------------------
// The pointer-arithmetic rewrite.

/// The byte size a value of type `t` occupies for pointer scaling.
pub open spec fn type_size(t: TypeDec) -> int {
    match t {
        TypeDec::Pointer(_) => 8,
        TypeDec::Int => 4,
    }
}

/// The pointee type of `e`, when `e` is a variable declared with a
/// pointer type.
pub open spec fn pointee_of_var(e: ExpV, env: Seq<(Seq<char>, TypeDec)>) -> Option<TypeDec> {
    match e {
        ExpV::Var(v) => match lookup_assoc(env, v) {
            Some(t) => match t {
                TypeDec::Pointer(p) => Some(*p),
                TypeDec::Int => None,
            },
            None => None,
        },
        _ => None,
    }
}

/// The pointer-arithmetic scaling rewrite: in `a + b` or `a - b`, when
/// exactly one operand is a variable of pointer type, the other operand
/// is multiplied by the byte size of the pointee before lowering.  The
/// rewrite builds a new node and never alters the original tree.
pub open spec fn spec_infix_conv(e: ExpV, env: Seq<(Seq<char>, TypeDec)>) -> ExpV {
    match e {
        ExpV::InfixExp { left, op, right } => if op == Op::Plus || op == Op::Minus {
            let lp = pointee_of_var(*left, env);
            let rp = pointee_of_var(*right, env);
            if lp is Some && rp is None {
                ExpV::InfixExp {
                    left,
                    op,
                    right: Box::new(
                        ExpV::InfixExp {
                            left: right,
                            op: Op::Asterisk,
                            right: Box::new(ExpV::Int(type_size(lp->0))),
                        },
                    ),
                }
            } else if rp is Some && lp is None {
                ExpV::InfixExp {
                    left: Box::new(
                        ExpV::InfixExp {
                            left,
                            op: Op::Asterisk,
                            right: Box::new(ExpV::Int(type_size(rp->0))),
                        },
                    ),
                    op,
                    right,
                }
            } else {
                e
            }
        } else {
            e
        },
        _ => e,
    }
}

/// Pointer scaling, stated as a law: for any environment that declares
/// `v` as a pointer to `pointee`, adding or subtracting a non-pointer
/// operand `b` rewrites `b` to `b * size(pointee)` — 4 bytes when the
/// pointee is `int`, 8 when it is itself a pointer — and the variable
/// operand is left alone.
pub proof fn lemma_pointer_scaling(
    v: Seq<char>,
    b: ExpV,
    op: Op,
    env: Seq<(Seq<char>, TypeDec)>,
    pointee: TypeDec,
)
    requires
        lookup_assoc(env, v) == Some(TypeDec::Pointer(Box::new(pointee))),
        pointee_of_var(b, env) is None,
        op == Op::Plus || op == Op::Minus,
    ensures
        spec_infix_conv(
            ExpV::InfixExp { left: Box::new(ExpV::Var(v)), op, right: Box::new(b) },
            env,
        ) == (ExpV::InfixExp {
            left: Box::new(ExpV::Var(v)),
            op,
            right: Box::new(
                ExpV::InfixExp {
                    left: Box::new(b),
                    op: Op::Asterisk,
                    right: Box::new(ExpV::Int(type_size(pointee))),
                },
            ),
        }),
{
}


// ---------------------------------------------------------------------
// Size measures that make the generator's recursion visibly finite.
// The pointer rewrite replaces a `+`/`-` node by a tree that is larger
// in nodes but smaller in this weighted measure, because the new
// multiplication node weighs less than the addition it hangs under.

pub open spec fn exp_cmsize(e: ExpV) -> nat
    decreases e, 0int,
{
    match e {
        ExpV::Int(_) => 1,
        ExpV::Var(_) => 1,
        ExpV::UnaryExp { op, exp } => 1 + exp_cmsize(*exp),
        ExpV::InfixExp { left, op, right } => if op == Op::Plus || op == Op::Minus {
            3 + exp_cmsize(*left) + exp_cmsize(*right)
        } else {
            2 + exp_cmsize(*left) + exp_cmsize(*right)
        },
        ExpV::FuncCall { fun, args } => 2 + exp_cmsize(*fun) + exps_cmsize_from(args, 0),
    }
}

pub open spec fn exps_cmsize_from(es: Seq<ExpV>, k: int) -> nat
    decreases es, es.len() - k,
{
    if k < 0 || k >= es.len() {
        0
    } else {
        1 + exp_cmsize(es[k]) + exps_cmsize_from(es, k + 1)
    }
}

pub open spec fn opt_exp_msize(o: Option<ExpV>) -> nat {
    match o {
        Some(e) => exp_cmsize(e),
        None => 0,
    }
}

pub open spec fn stmt_msize(s: StmtV) -> nat
    decreases s, 0int,
{
    match s {
        StmtV::Exp(e) => 1 + exp_cmsize(e),
        StmtV::Return(e) => 1 + exp_cmsize(e),
        StmtV::Block(ss) => 1 + stmts_msize_from(ss, 0),
        StmtV::If { cond, stmt1, stmt2 } => 2 + exp_cmsize(cond) + stmt_msize(*stmt1) + (match stmt2 {
            Some(b) => stmt_msize(*b),
            None => 0,
        }),
        StmtV::While { cond, stmt } => 2 + exp_cmsize(cond) + stmt_msize(*stmt),
        StmtV::For { exp1, exp2, exp3, stmt } => 2 + opt_exp_msize(exp1) + opt_exp_msize(exp2)
            + opt_exp_msize(exp3) + stmt_msize(*stmt),
        StmtV::Func { t, fun, params, body } => 2 + exp_cmsize(fun) + stmts_msize_from(body, 0),
        StmtV::VarDec { t, var } => 1 + exp_cmsize(var),
    }
}

pub open spec fn stmts_msize_from(ss: Seq<StmtV>, k: int) -> nat
    decreases ss, ss.len() - k,
{
    if k < 0 || k >= ss.len() {
        0
    } else {
        1 + stmt_msize(ss[k]) + stmts_msize_from(ss, k + 1)
    }
}

pub open spec fn opt_stmt_msize(o: Option<Box<StmtV>>) -> nat {
    match o {
        Some(b) => stmt_msize(*b),
        None => 0,
    }
}

/// Every element of a sequence weighs strictly less than the whole
/// from any point at or before it.
pub proof fn lemma_exps_cmsize_element(es: Seq<ExpV>, k: int, j: int)
    requires
        0 <= k <= j < es.len(),
    ensures
        exp_cmsize(es[j]) < exps_cmsize_from(es, k),
    decreases j - k,
{
    if k < j {
        lemma_exps_cmsize_element(es, k + 1, j);
    }
}

/// `view_exps` and the element views agree with the measure of the
/// whole: each original element weighs strictly less than a call node
/// that carries the argument list.
pub proof fn lemma_exp_cmsize_arg(args: Seq<Exp>, j: int)
    requires
        0 <= j < args.len(),
    ensures
        exp_cmsize(view_exp(args[j])) < exps_cmsize_from(crate::parser::view_exps(args), 0),
{
    crate::parser::lemma_view_exps(args);
    lemma_exps_cmsize_element(crate::parser::view_exps(args), 0, j);
}

fn exp_clone(e: &Exp) -> (r: Exp)
    ensures
        r.deep_view() == e.deep_view(),
    decreases exp_cmsize(e.deep_view()),
{
    match e {
        Exp::Int(i) => Exp::Int(*i),
        Exp::Var(s) => Exp::Var(s.clone()),
        Exp::UnaryExp { op, exp } => Exp::UnaryExp { op: *op, exp: Box::new(exp_clone(&**exp)) },
        Exp::InfixExp { left, op, right } => Exp::InfixExp {
            left: Box::new(exp_clone(&**left)),
            op: *op,
            right: Box::new(exp_clone(&**right)),
        },
        Exp::FuncCall { fun, args } => {
            let n = args.len();
            let mut v: Vec<Exp> = Vec::new();
            let mut k: usize = 0;
            while k < n
                invariant
                    k <= n,
                    n == args.len(),
                    *e is FuncCall,
                    e->args == *args,
                    v@.len() == k,
                    forall|m: int|
                        0 <= m < k ==> #[trigger] view_exp(v@[m]) == view_exp(args@[m]),
                decreases n - k,
            {
                proof {
                    lemma_exp_cmsize_arg(args@, k as int);
                    assert(view_exp(*e) == (ExpV::FuncCall {
                        fun: Box::new(view_exp(*e->fun)),
                        args: crate::parser::view_exps(args@),
                    }));
                    assert(exp_cmsize(view_exp(*e)) == 2 + exp_cmsize(view_exp(*e->fun))
                        + exps_cmsize_from(crate::parser::view_exps(args@), 0));
                }
                let c = exp_clone(&args[k]);
                v.push(c);
                k = k + 1;
            }
            let r = Exp::FuncCall { fun: Box::new(exp_clone(&**fun)), args: v };
            proof {
                crate::parser::lemma_view_exps(r->args@);
                crate::parser::lemma_view_exps(e->args@);
                assert(crate::parser::view_exps(r->args@) =~= crate::parser::view_exps(e->args@));
            }
            r
        },
    }
}

/// Apply the pointer-arithmetic rewrite to one node, consulting the
/// declared types; yields a fresh tree and leaves the argument alone.
pub fn infix_pointer_exp_converter(exp: &Exp, state_holder: &StateHolder) -> (r: Exp)
    ensures
        r.deep_view() == spec_infix_conv(exp.deep_view(), state_holder@.env),
{
    proof {
        reveal_with_fuel(view_exp, 3);
    }
    match exp {
        Exp::InfixExp { left, op, right } => {
            let scale_op = match op {
                Op::Plus => true,
                Op::Minus => true,
                _ => false,
            };
            if !scale_op {
                return exp_clone(exp);
            }
            let lp = pointee_of(&**left, state_holder);
            let rp = pointee_of(&**right, state_holder);
            match (lp, rp) {
                (Some(t), None) => {
                    let size: i32 = match t {
                        TypeDec::Pointer(_) => 8,
                        TypeDec::Int => 4,
                    };
                    Exp::InfixExp {
                        left: Box::new(exp_clone(&**left)),
                        op: *op,
                        right: Box::new(
                            Exp::InfixExp {
                                left: Box::new(exp_clone(&**right)),
                                op: Op::Asterisk,
                                right: Box::new(Exp::Int(size)),
                            },
                        ),
                    }
                },
                (None, Some(t)) => {
                    let size: i32 = match t {
                        TypeDec::Pointer(_) => 8,
                        TypeDec::Int => 4,
                    };
                    Exp::InfixExp {
                        left: Box::new(
                            Exp::InfixExp {
                                left: Box::new(exp_clone(&**left)),
                                op: Op::Asterisk,
                                right: Box::new(Exp::Int(size)),
                            },
                        ),
                        op: *op,
                        right: Box::new(exp_clone(&**right)),
                    }
                },
                _ => exp_clone(exp),
            }
        },
        _ => exp_clone(exp),
    }
}

fn pointee_of(e: &Exp, state_holder: &StateHolder) -> (r: Option<TypeDec>)
    ensures
        match pointee_of_var(e.deep_view(), state_holder@.env) {
            Some(t) => r is Some && r->0 == t,
            None => r is None,
        },
{
    match e {
        Exp::Var(v) => match state_holder.get_local_var_type(v) {
            Some(TypeDec::Pointer(p)) => Some(*p),
            _ => None,
        },
        _ => None,
    }
}

// ---------------------------------------------------------------------
// Frame sizing.

/// The bytes of frame the local declarations of one statement need,
/// recursing into block, branch and loop bodies; every declared local
/// occupies one eight-byte slot.
pub open spec fn stmt_locals_size(s: StmtV) -> nat
    decreases s, 0int,
{
    match s {
        StmtV::Block(ss) => stmts_locals_size_from(ss, 0),
        StmtV::If { cond, stmt1, stmt2 } => stmt_locals_size(*stmt1) + (match stmt2 {
            Some(s2) => stmt_locals_size(*s2),
            None => 0,
        }),
        StmtV::While { cond, stmt } => stmt_locals_size(*stmt),
        StmtV::For { exp1, exp2, exp3, stmt } => stmt_locals_size(*stmt),
        StmtV::VarDec { t, var } => 8,
        _ => 0,
    }
}

pub open spec fn stmts_locals_size_from(ss: Seq<StmtV>, k: int) -> nat
    decreases ss, ss.len() - k,
{
    if k < 0 || k >= ss.len() {
        0
    } else {
        stmt_locals_size(ss[k]) + stmts_locals_size_from(ss, k + 1)
    }
}

/// The bytes of frame a function needs: one eight-byte slot per
/// parameter plus the slots of every local declared anywhere in the
/// body.
pub open spec fn frame_size_spec(ps: Seq<(TypeDec, ExpV)>, body: Seq<StmtV>) -> int {
    8 * ps.len() + stmts_locals_size_from(body, 0) as int
}

/// `n` rounded up to the next multiple of `align`.
pub open spec fn align_to_spec(n: int, align: int) -> int {
    ((n + align - 1) / align) * align
}

/// The stack allocation of a function's prologue: the frame size
/// rounded up to a sixteen-byte multiple, or a fault when it cannot be
/// represented.
pub open spec fn spec_stack_size(ps: Seq<(TypeDec, ExpV)>, body: Seq<StmtV>) -> Result<
    i32,
    GenError,
> {
    let fs = frame_size_spec(ps, body);
    if fs > i32::MAX - 15 {
        Err(GenError::InternalInvariantFault)
    } else {
        Ok(align_to_spec(fs, 16) as i32)
    }
}

/// A frame allocation that succeeds is a multiple of sixteen bytes and
/// no smaller than the summed slot sizes of the parameters and locals.
pub proof fn lemma_stack_size_aligned(ps: Seq<(TypeDec, ExpV)>, body: Seq<StmtV>)
    ensures
        spec_stack_size(ps, body) is Ok ==> {
            let r = spec_stack_size(ps, body)->Ok_0 as int;
            &&& r % 16 == 0
            &&& r >= frame_size_spec(ps, body)
        },
{
    let fs = frame_size_spec(ps, body);
    if fs <= i32::MAX - 15 {
        assert(((fs + 15) / 16) * 16 % 16 == 0) by (nonlinear_arith);
        assert(((fs + 15) / 16) * 16 >= fs) by (nonlinear_arith);
        assert(((fs + 15) / 16) * 16 <= fs + 15) by (nonlinear_arith)
            requires fs >= 0,
        ;
    }
}

/// Round `n` up to the nearest multiple of `align`.
pub fn align_to(n: i32, align: i32) -> (r: i32)
    requires
        0 <= n,
        0 < align,
        n + align <= i32::MAX + 1,
    ensures
        r as int == align_to_spec(n as int, align as int),
{
    let m: u64 = (n as u64) + (align as u64) - 1;
    proof {
        assert((m / (align as u64)) * (align as u64) <= m) by (nonlinear_arith)
            requires (align as u64) > 0,
        ;
    }
    let q: u64 = (m / (align as u64)) * (align as u64);
    q as i32
}

/// Values capped at two to the thirty-first, the sentinel for "too
/// large to matter exactly".
pub open spec fn capped(x: int) -> int {
    if x > 0x8000_0000 {
        0x8000_0000
    } else {
        x
    }
}

fn add_capped(a: u64, b: u64) -> (r: u64)
    requires
        a as int <= 0x8000_0000,
        b as int <= 0x8000_0000,
    ensures
        r as int == capped(a + b),
{
    let s = a + b;
    if s > 0x8000_0000u64 {
        0x8000_0000u64
    } else {
        s
    }
}

/// The capped frame bytes of the locals of the statements of `body`
/// from index `k` on.
pub fn get_stack_size_from_stmts(body: &Vec<Stmt>) -> (r: u64)
    ensures
        r as int == capped(stmts_locals_size_from(body.deep_view(), 0) as int),
    decreases body,
{
    let n = body.len();
    let mut acc: u64 = 0;
    let mut k: usize = n;
    proof {
        crate::parser::lemma_view_stmts(body@);
    }
    while k > 0
        invariant
            k <= n,
            n == body.len(),
            body.deep_view().len() == n,
            forall|m: int|
                0 <= m < n ==> body.deep_view()[m] == view_stmt(body@[m]),
            acc as int == capped(stmts_locals_size_from(body.deep_view(), k as int) as int),
        decreases k,
    {
        k = k - 1;
        let c = get_locals_stmt(&body[k]);
        acc = add_capped(c, acc);
        proof {
            assert(stmts_locals_size_from(body.deep_view(), k as int) == stmt_locals_size(
                body.deep_view()[k as int],
            ) + stmts_locals_size_from(body.deep_view(), k as int + 1));
        }
    }
    acc
}

/// The capped frame bytes that one statement's locals need.
pub fn get_locals_stmt(stmt: &Stmt) -> (r: u64)
    ensures
        r as int == capped(stmt_locals_size(stmt.deep_view()) as int),
    decreases stmt,
{
    match stmt {
        Stmt::Block(stmts) => {
            proof {
                crate::parser::lemma_view_stmts(stmts@);
                assert(stmts.deep_view() =~= crate::parser::view_stmts(stmts@));
            }
            get_stack_size_from_stmts(stmts)
        },
        Stmt::If { cond, stmt1, stmt2 } => {
            let a = get_locals_stmt(&**stmt1);
            let b = match &**stmt2 {
                Some(s2) => get_locals_stmt(s2),
                None => 0,
            };
            add_capped(a, b)
        },
        Stmt::While { cond, stmt } => get_locals_stmt(&**stmt),
        Stmt::For { exp1, exp2, exp3, stmt } => get_locals_stmt(&**stmt),
        Stmt::VarDec { t, var } => 8,
        _ => 0,
    }
}

/// The capped frame bytes of the parameters: one slot each.
pub fn get_stack_size_from_params(params: &Vec<TypeAndExp>) -> (r: u64)
    ensures
        r as int == capped(8 * params.deep_view().len() as int),
{
    if params.len() >= 0x1000_0000 {
        0x8000_0000u64
    } else {
        (params.len() as u64) * 8
    }
}

/// The stack allocation of the prologue: parameters plus locals,
/// rounded up to sixteen bytes; a frame too large to represent is a
/// fault.
pub fn get_stack_size(params: &Vec<TypeAndExp>, body: &Vec<Stmt>) -> (r: Result<i32, GenError>)
    ensures
        r == spec_stack_size(params.deep_view(), body.deep_view()),
{
    let ps = get_stack_size_from_params(params);
    let bs = get_stack_size_from_stmts(body);
    let total = add_capped(ps, bs);
    let bound: u64 = (i32::MAX as u64) - 15;
    if total > bound {
        Err(GenError::InternalInvariantFault)
    } else {
        let aligned = align_to(total as i32, RSP_CONST);
        Ok(aligned)
    }
}

/// The name of the `i`-th argument-passing register.
pub open spec fn arg_reg_name(i: int) -> Seq<char> {
    if i == 0 {
        "rdi"@
    } else if i == 1 {
        "rsi"@
    } else if i == 2 {
        "rdx"@
    } else if i == 3 {
        "rcx"@
    } else if i == 4 {
        "r8"@
    } else {
        "r9"@
    }
}

fn arg_reg(i: usize) -> (r: &'static str)
    requires
        i < 6,
    ensures
        r@ == arg_reg_name(i as int),
{
    match i {
        0 => "rdi",
        1 => "rsi",
        2 => "rdx",
        3 => "rcx",
        4 => "r8",
        _ => "r9",
    }
}

// ---------------------------------------------------------------------
// The lowering itself, in its mathematical form.  Every function takes
// the state before and yields the state after — output lines appended,
// counters advanced — or the first error.  On success the operand-stack
// depth always returns to its entry value.

/// The instruction lines that combine two staged operands, the left in
/// `rax` and the right in `rdi`, leaving the result in `rax`.
pub open spec fn emit_op_s(s: StateV, op: Op) -> StateV {
    match op {
        Op::Plus => emit_s(s, "  add rax, rdi"@),
        Op::Minus => emit_s(s, "  sub rax, rdi"@),
        Op::Asterisk => emit_s(s, "  imul rax, rdi"@),
        Op::Slash => emit_s(emit_s(s, "  cqo"@), "  idiv rdi"@),
        Op::Eq => emit_s(emit_s(emit_s(s, "  cmp rax, rdi"@), "  sete al"@), "  movzb rax, al"@),
        Op::NotEq => emit_s(
            emit_s(emit_s(s, "  cmp rax, rdi"@), "  setne al"@),
            "  movzb rax, al"@,
        ),
        Op::Ls => emit_s(emit_s(emit_s(s, "  cmp rax, rdi"@), "  setl al"@), "  movzb rax, al"@),
        Op::LsEq => emit_s(emit_s(emit_s(s, "  cmp rax, rdi"@), "  setle al"@), "  movzb rax, al"@),
        Op::Gr => emit_s(emit_s(emit_s(s, "  cmp rdi, rax"@), "  setl al"@), "  movzb rax, al"@),
        Op::GrEq => emit_s(emit_s(emit_s(s, "  cmp rdi, rax"@), "  setle al"@), "  movzb rax, al"@),
        Op::Assign => s,
    }
}

/// Pop the staged arguments into the argument registers, highest index
/// first, so the i-th evaluated argument lands in the i-th register.
pub open spec fn spec_pop_args(s: StateV, k: int) -> Result<StateV, GenError>
    decreases k,
{
    if k <= 0 {
        Ok(s)
    } else {
        match pop_s(s, arg_reg_name(k - 1)) {
            Ok(s1) => spec_pop_args(s1, k - 1),
            Err(e) => Err(e),
        }
    }
}

/// Declare each parameter, give it a frame slot, and store its
/// argument register there; the `k`-th parameter takes the `k`-th
/// register.
pub open spec fn spec_set_params(params: Seq<(TypeDec, ExpV)>, k: int, s: StateV) -> Result<
    StateV,
    GenError,
>
    decreases params.len() - k,
{
    if k < 0 || k >= params.len() {
        Ok(s)
    } else {
        match params[k].1 {
            ExpV::Var(v) => {
                let s1 = StateV { env: s.env.push((v, params[k].0)), ..s };
                match alloc_offset_s(s1, v, 8) {
                    Ok((off, s2)) => spec_set_params(
                        params,
                        k + 1,
                        emit_s(
                            s2,
                            "  mov ["@ + int_rep(off as int) + " + rbp], "@ + arg_reg_name(k),
                        ),
                    ),
                    Err(e) => Err(e),
                }
            },
            _ => Err(GenError::MalformedDecl),
        }
    }
}

/// The pointer rewrite strictly shrinks the weighted measure of both
/// operands: the multiplication node it builds weighs less than the
/// addition it hangs under.
proof fn lemma_cmsize_pos(e: ExpV)
    ensures
        exp_cmsize(e) >= 1,
{
    match e {
        ExpV::Int(_) => {},
        ExpV::Var(_) => {},
        ExpV::UnaryExp { op, exp } => {},
        ExpV::InfixExp { left, op, right } => {},
        ExpV::FuncCall { fun, args } => {},
    }
}

proof fn lemma_conv_cmsize(e: ExpV, env: Seq<(Seq<char>, TypeDec)>)
    ensures
        ({
            let ce = spec_infix_conv(e, env);
            ce is InfixExp ==> exp_cmsize(*ce->left) < exp_cmsize(e) && exp_cmsize(*ce->right)
                < exp_cmsize(e)
        }),
{
    match e {
        ExpV::InfixExp { left, op, right } => {
            lemma_cmsize_pos(*left);
            lemma_cmsize_pos(*right);
            let ce = spec_infix_conv(e, env);
            if op == Op::Plus || op == Op::Minus {
                let lp = pointee_of_var(*left, env);
                let rp = pointee_of_var(*right, env);
                if lp is Some && rp is None {
                    let scaled = ExpV::InfixExp {
                        left: right,
                        op: Op::Asterisk,
                        right: Box::new(ExpV::Int(type_size(lp->0))),
                    };
                    assert(ce == ExpV::InfixExp { left, op, right: Box::new(scaled) });
                    assert(exp_cmsize(ExpV::Int(type_size(lp->0))) == 1);
                    assert(exp_cmsize(scaled) == 3 + exp_cmsize(*right));
                } else if rp is Some && lp is None {
                    let scaled = ExpV::InfixExp {
                        left,
                        op: Op::Asterisk,
                        right: Box::new(ExpV::Int(type_size(rp->0))),
                    };
                    assert(ce == ExpV::InfixExp { left: Box::new(scaled), op, right });
                    assert(exp_cmsize(ExpV::Int(type_size(rp->0))) == 1);
                    assert(exp_cmsize(scaled) == 3 + exp_cmsize(*left));
                }
            }
        },
        _ => {},
    }
}

#[via_fn]
proof fn spec_gen_exp_decreases(e: ExpV, s: StateV) {
    lemma_conv_cmsize(e, s.env);
}

/// Lower one expression: its value ends in `rax`.  The pointer rewrite
/// is applied to the node first; operands are staged through the
/// operand stack, left before right.
#[verifier::opaque]
pub open spec fn spec_gen_exp(e: ExpV, s: StateV) -> Result<StateV, GenError>
    decreases exp_cmsize(e), 1int,
    via spec_gen_exp_decreases
{
    let ce = spec_infix_conv(e, s.env);
    match ce {
        ExpV::FuncCall { fun, args } => match *fun {
            ExpV::Var(name) => spec_gen_func_call(name, args, s),
            _ => Err(GenError::MalformedCall),
        },
        ExpV::InfixExp { left, op, right } => if op == Op::Assign {
            spec_gen_assign(*left, *right, s)
        } else {
            match spec_gen_exp(*left, s) {
                Ok(s1) => match push_s(s1, "rax"@) {
                    Ok(s2) => match spec_gen_exp(*right, s2) {
                        Ok(s3) => match push_s(s3, "rax"@) {
                            Ok(s4) => match pop_s(s4, "rdi"@) {
                                Ok(s5) => match pop_s(s5, "rax"@) {
                                    Ok(s6) => Ok(emit_op_s(s6, op)),
                                    Err(e) => Err(e),
                                },
                                Err(e) => Err(e),
                            },
                            Err(e) => Err(e),
                        },
                        Err(e) => Err(e),
                    },
                    Err(e) => Err(e),
                },
                Err(e) => Err(e),
            }
        },
        ExpV::Int(i) => Ok(emit_s(s, "  mov rax, "@ + int_rep(i))),
        ExpV::Var(_) => match spec_gen_addr(ce, s) {
            Ok(s1) => Ok(emit_s(s1, "  mov rax, [rax]"@)),
            Err(e) => Err(e),
        },
        ExpV::UnaryExp { op, exp } => match op {
            UOp::Address => spec_gen_addr(*exp, s),
            UOp::Deref => match spec_gen_exp(*exp, s) {
                Ok(s1) => Ok(emit_s(s1, "  mov rax, [rax]"@)),
                Err(e) => Err(e),
            },
        },
    }
}

/// Compute the address of a place into `rax`: a declared variable's
/// frame slot, or the value of the expression under a dereference.  An
/// undeclared variable or a value-only expression is an error.
#[verifier::opaque]
pub open spec fn spec_gen_addr(e: ExpV, s: StateV) -> Result<StateV, GenError>
    decreases exp_cmsize(e), 0int,
{
    match e {
        ExpV::Var(v) => if lookup_assoc(s.env, v) is None {
            Err(GenError::UndefinedVariable)
        } else {
            match alloc_offset_s(s, v, 8) {
                Ok((off, s1)) => Ok(
                    emit_s(s1, "  lea rax, ["@ + int_rep(off as int) + " + rbp]"@),
                ),
                Err(e2) => Err(e2),
            }
        },
        ExpV::UnaryExp { op, exp } => if op == UOp::Deref {
            spec_gen_exp(*exp, s)
        } else {
            Err(GenError::InvalidLvalue)
        },
        _ => Err(GenError::InvalidLvalue),
    }
}

/// Lower an assignment: the address of the left side is staged, the
/// right side is evaluated, and the store leaves the value in `rax`.
#[verifier::opaque]
pub open spec fn spec_gen_assign(l: ExpV, r: ExpV, s: StateV) -> Result<StateV, GenError>
    decreases exp_cmsize(l) + exp_cmsize(r), 1int,
{
    match spec_gen_addr(l, s) {
        Ok(s1) => match push_s(s1, "rax"@) {
            Ok(s2) => match spec_gen_exp(r, s2) {
                Ok(s3) => match pop_s(s3, "rdi"@) {
                    Ok(s4) => Ok(emit_s(s4, "  mov [rdi], rax"@)),
                    Err(e) => Err(e),
                },
                Err(e) => Err(e),
            },
            Err(e) => Err(e),
        },
        Err(e) => Err(e),
    }
}

/// Evaluate the arguments left to right, pushing each value.
#[verifier::opaque]
pub open spec fn spec_gen_args(args: Seq<ExpV>, k: int, s: StateV) -> Result<StateV, GenError>
    decreases exps_cmsize_from(args, k), 0int,
{
    if k < 0 || k >= args.len() {
        Ok(s)
    } else {
        match spec_gen_exp(args[k], s) {
            Ok(s1) => match push_s(s1, "rax"@) {
                Ok(s2) => spec_gen_args(args, k + 1, s2),
                Err(e) => Err(e),
            },
            Err(e) => Err(e),
        }
    }
}

/// Lower a call: arguments staged left to right, popped into the
/// argument registers so the i-th argument lands in the i-th register,
/// with eight bytes of padding around the call when the tracked depth
/// is odd, to keep the stack sixteen-byte aligned at the callee.
#[verifier::opaque]
pub open spec fn spec_gen_func_call(fname: Seq<char>, args: Seq<ExpV>, s: StateV) -> Result<
    StateV,
    GenError,
>
    decreases exps_cmsize_from(args, 0), 1int,
{
    if args.len() > 6 {
        Err(GenError::TooManyArgs)
    } else {
        match spec_gen_args(args, 0, s) {
            Ok(s1) => match spec_pop_args(s1, args.len() as int) {
                Ok(s2) => {
                    let s3 = emit_s(s2, "  mov rax, 0"@);
                    if s3.depth % 2 == 0 {
                        Ok(emit_s(s3, "  call "@ + fname))
                    } else {
                        Ok(
                            emit_s(
                                emit_s(emit_s(s3, "  sub rsp, 8"@), "  call "@ + fname),
                                "  add rsp, 8"@,
                            ),
                        )
                    }
                },
                Err(e) => Err(e),
            },
            Err(e) => Err(e),
        }
    }
}

/// Lower the optional clause of a `for` head: nothing, or the
/// expression itself.
#[verifier::opaque]
pub open spec fn spec_gen_option_exp(o: Option<ExpV>, s: StateV) -> Result<StateV, GenError>
    decreases opt_exp_msize(o), 2int,
{
    match o {
        None => Ok(s),
        Some(e) => spec_gen_exp(e, s),
    }
}

/// Lower an `if`: test the condition against zero and jump past the
/// branch; with an `else`, the first branch jumps past the second.
/// Each construct draws its labels from the global counter.
#[verifier::opaque]
pub open spec fn spec_gen_if(
    cond: ExpV,
    s1: StmtV,
    os2: Option<Box<StmtV>>,
    s: StateV,
) -> Result<StateV, GenError>
    decreases 1 + exp_cmsize(cond) + stmt_msize(s1) + opt_stmt_msize(os2), 0int,
{
    match spec_gen_exp(cond, s) {
        Ok(sc) => if sc.label_counter < 0 || sc.label_counter > i32::MAX - 2 {
            Err(GenError::InternalInvariantFault)
        } else {
            match os2 {
                Some(s2) => {
                    let (else_label, jelse_label, sa) = alloc_label_s(sc, "if"@);
                    let (if_label, jif_label, sb) = alloc_label_s(sa, "else"@);
                    let sb2 = emit_s(emit_s(sb, "  cmp rax, 0"@), "  je "@ + jelse_label);
                    match spec_gen_stmt(s1, sb2) {
                        Ok(st1) => {
                            let st2 = emit_s(emit_s(st1, "  jmp "@ + jif_label), else_label);
                            match spec_gen_stmt(*s2, st2) {
                                Ok(st3) => Ok(emit_s(st3, if_label)),
                                Err(e) => Err(e),
                            }
                        },
                        Err(e) => Err(e),
                    }
                },
                None => {
                    let (label, jlabel, sa) = alloc_label_s(sc, "if"@);
                    let sa2 = emit_s(emit_s(sa, "  cmp rax, 0"@), "  je "@ + jlabel);
                    match spec_gen_stmt(s1, sa2) {
                        Ok(st1) => Ok(emit_s(st1, label)),
                        Err(e) => Err(e),
                    }
                },
            }
        },
        Err(e) => Err(e),
    }
}

/// Lower a `while`: label the head, test the condition each iteration,
/// jump out on zero, and jump back after the body.
#[verifier::opaque]
pub open spec fn spec_gen_while(cond: ExpV, body: StmtV, s: StateV) -> Result<StateV, GenError>
    decreases 1 + exp_cmsize(cond) + stmt_msize(body), 0int,
{
    if s.label_counter < 0 || s.label_counter > i32::MAX - 2 {
        Err(GenError::InternalInvariantFault)
    } else {
        let (begin_label, jbegin, s1) = alloc_label_s(s, "beginWhile"@);
        let (end_label, jend, s2) = alloc_label_s(s1, "endWhile"@);
        let s3 = emit_s(s2, begin_label);
        match spec_gen_exp(cond, s3) {
            Ok(s4) => {
                let s5 = emit_s(emit_s(s4, "  cmp rax, 0"@), "  je "@ + jend);
                match spec_gen_stmt(body, s5) {
                    Ok(s6) => Ok(emit_s(emit_s(s6, "  jmp "@ + jbegin), end_label)),
                    Err(e) => Err(e),
                }
            },
            Err(e) => Err(e),
        }
    }
}

/// Lower a `for`: the initialiser once; each iteration the optional
/// test — absent means the loop never tests — then the body and the
/// step, and back to the head.
#[verifier::opaque]
pub open spec fn spec_gen_for(
    o1: Option<ExpV>,
    o2: Option<ExpV>,
    o3: Option<ExpV>,
    body: StmtV,
    s: StateV,
) -> Result<StateV, GenError>
    decreases 1 + opt_exp_msize(o1) + opt_exp_msize(o2) + opt_exp_msize(o3) + stmt_msize(body),
        0int,
{
    if s.label_counter < 0 || s.label_counter > i32::MAX - 2 {
        Err(GenError::InternalInvariantFault)
    } else {
        let (begin_label, jbegin, s1) = alloc_label_s(s, "beginFor"@);
        let (end_label, jend, s2) = alloc_label_s(s1, "endFor"@);
        match spec_gen_option_exp(o1, s2) {
            Ok(s3) => {
                let s4 = emit_s(s3, begin_label);
                let tested = match o2 {
                    None => Ok(s4),
                    Some(e2) => match spec_gen_exp(e2, s4) {
                        Ok(x) => Ok(emit_s(emit_s(x, "  cmp rax, 0"@), "  je "@ + jend)),
                        Err(e) => Err(e),
                    },
                };
                match tested {
                    Ok(s5) => match spec_gen_stmt(body, s5) {
                        Ok(s6) => match spec_gen_option_exp(o3, s6) {
                            Ok(s7) => Ok(emit_s(emit_s(s7, "  jmp "@ + jbegin), end_label)),
                            Err(e) => Err(e),
                        },
                        Err(e) => Err(e),
                    },
                    Err(e) => Err(e),
                }
            },
            Err(e) => Err(e),
        }
    }
}

/// Lower a function definition: fresh environment and offsets, the
/// prologue with the aligned frame, the parameters stored from their
/// registers, the body, and one shared epilogue under the function's
/// return label, reached by falling through or by any `return`.
#[verifier::opaque]
pub open spec fn spec_gen_func(
    fun: ExpV,
    params: Seq<(TypeDec, ExpV)>,
    body: Seq<StmtV>,
    s: StateV,
) -> Result<StateV, GenError>
    decreases 1 + exp_cmsize(fun) + stmts_msize_from(body, 0), 0int,
{
    match fun {
        ExpV::Var(name) => {
            let s0 = StateV {
                env: Seq::empty(),
                fun_name: name,
                offsets: Seq::empty(),
                max_offset: 8,
                ..s
            };
            match spec_stack_size(params, body) {
                Ok(size) => {
                    let s1 = emit_s(
                        emit_s(
                            emit_s(
                                emit_s(
                                    emit_s(s0, ".global "@ + name),
                                    name + ":"@,
                                ),
                                "  push rbp"@,
                            ),
                            "  mov rbp, rsp"@,
                        ),
                        "  sub rsp, "@ + int_rep(size as int),
                    );
                    if params.len() > 6 {
                        Err(GenError::TooManyArgs)
                    } else {
                        match spec_set_params(params, 0, s1) {
                            Ok(s2) => match spec_gen_stmts(body, 0, s2) {
                                Ok(s3) => if s3.depth != 0 {
                                    Err(GenError::InternalInvariantFault)
                                } else {
                                    Ok(
                                        emit_s(
                                            emit_s(
                                                emit_s(
                                                    emit_s(s3, ".L.return."@ + name + ":"@),
                                                    "  mov rsp, rbp"@,
                                                ),
                                                "  pop rbp"@,
                                            ),
                                            "  ret"@,
                                        ),
                                    )
                                },
                                Err(e) => Err(e),
                            },
                            Err(e) => Err(e),
                        }
                    }
                },
                Err(e) => Err(e),
            }
        },
        _ => Err(GenError::MalformedCall),
    }
}

/// Lower one statement.
#[verifier::opaque]
pub open spec fn spec_gen_stmt(st: StmtV, s: StateV) -> Result<StateV, GenError>
    decreases stmt_msize(st), 1int,
{
    match st {
        StmtV::Exp(e) => spec_gen_exp(e, s),
        StmtV::Return(e) => match spec_gen_exp(e, s) {
            Ok(s1) => Ok(emit_s(s1, "  jmp .L.return."@ + s1.fun_name)),
            Err(e2) => Err(e2),
        },
        StmtV::Block(ss) => spec_gen_stmts(ss, 0, s),
        StmtV::If { cond, stmt1, stmt2 } => spec_gen_if(cond, *stmt1, stmt2, s),
        StmtV::While { cond, stmt } => spec_gen_while(cond, *stmt, s),
        StmtV::For { exp1, exp2, exp3, stmt } => spec_gen_for(exp1, exp2, exp3, *stmt, s),
        StmtV::Func { t, fun, params, body } => spec_gen_func(fun, params, body, s),
        StmtV::VarDec { t, var } => match var {
            ExpV::Var(name) => Ok(StateV { env: s.env.push((name, t)), ..s }),
            _ => Err(GenError::MalformedDecl),
        },
    }
}

/// Lower the statements of `ss` from index `k` on, in order.
#[verifier::opaque]
pub open spec fn spec_gen_stmts(ss: Seq<StmtV>, k: int, s: StateV) -> Result<StateV, GenError>
    decreases stmts_msize_from(ss, k), 0int,
{
    if k < 0 || k >= ss.len() {
        Ok(s)
    } else {
        match spec_gen_stmt(ss[k], s) {
            Ok(s1) => spec_gen_stmts(ss, k + 1, s1),
            Err(e) => Err(e),
        }
    }
}

/// A whole compilation: the syntax-mode directive, then every
/// top-level statement, from the initial state.
pub open spec fn spec_start(ss: Seq<StmtV>) -> Result<Seq<Seq<char>>, GenError> {
    match spec_gen_stmts(ss, 0, emit_s(init_state(), ".intel_syntax noprefix"@)) {
        Ok(sv) => Ok(sv.output),
        Err(e) => Err(e),
    }
}

/// Does the executable outcome agree with the mathematical one, the
/// final state included?  On success the operand-stack depth is back at
/// its entry value, and a well-formed label record stays well-formed.
pub open spec fn gen_matches(
    r: Result<(), GenError>,
    s: Result<StateV, GenError>,
    pre: StateV,
    post: StateV,
) -> bool {
    match s {
        Ok(sv) => r is Ok && post == sv && sv.depth == pre.depth && (labels_wf(pre)
            ==> labels_wf(sv)),
        Err(e) => r is Err && r->Err_0 == e,
    }
}

// ---------------------------------------------------------------------
// The executable lowering, proved to agree with its mathematical form.

fn cat2(a: &str, b: &str) -> (r: String)
    ensures
        r@ == a@ + b@,
{
    String::from_str(a).concat(b)
}

fn cat3(a: &str, b: &str, c: &str) -> (r: String)
    ensures
        r@ == a@ + b@ + c@,
{
    String::from_str(a).concat(b).concat(c)
}

fn emit(state_holder: &mut StateHolder, line: String)
    ensures
        final(state_holder)@ == emit_s(old(state_holder)@, line@),
{
    let ghost lv = line@;
    state_holder.output.push(line);
    proof {
        assert(state_holder@.output =~= old(state_holder)@.output.push(lv));
    }
}

/// Emit a push of `reg` and count it on the operand stack.
fn push(reg: &str, state_holder: &mut StateHolder) -> (r: Result<(), GenError>)
    ensures
        match push_s(old(state_holder)@, reg@) {
            Ok(sv) => r is Ok && final(state_holder)@ == sv,
            Err(e) => r is Err && r->Err_0 == e,
        },
{
    if state_holder.depth == i32::MAX {
        return Err(GenError::InternalInvariantFault);
    }
    let line = cat2("  push ", reg);
    let ghost lv = line@;
    state_holder.output.push(line);
    state_holder.depth = state_holder.depth + 1;
    proof {
        assert(state_holder@.output =~= old(state_holder)@.output.push(lv));
    }
    Ok(())
}

/// Emit a pop into `reg` and count it off the operand stack.
fn pop(reg: &str, state_holder: &mut StateHolder) -> (r: Result<(), GenError>)
    ensures
        match pop_s(old(state_holder)@, reg@) {
            Ok(sv) => r is Ok && final(state_holder)@ == sv,
            Err(e) => r is Err && r->Err_0 == e,
        },
{
    if state_holder.depth == i32::MIN {
        return Err(GenError::InternalInvariantFault);
    }
    let line = cat2("  pop ", reg);
    let ghost lv = line@;
    state_holder.output.push(line);
    state_holder.depth = state_holder.depth - 1;
    proof {
        assert(state_holder@.output =~= old(state_holder)@.output.push(lv));
    }
    Ok(())
}

fn emit_op(op: Op, state_holder: &mut StateHolder)
    ensures
        final(state_holder)@ == emit_op_s(old(state_holder)@, op),
{
    match op {
        Op::Plus => emit(state_holder, String::from_str("  add rax, rdi")),
        Op::Minus => emit(state_holder, String::from_str("  sub rax, rdi")),
        Op::Asterisk => emit(state_holder, String::from_str("  imul rax, rdi")),
        Op::Slash => {
            emit(state_holder, String::from_str("  cqo"));
            emit(state_holder, String::from_str("  idiv rdi"));
        },
        Op::Eq => {
            emit(state_holder, String::from_str("  cmp rax, rdi"));
            emit(state_holder, String::from_str("  sete al"));
            emit(state_holder, String::from_str("  movzb rax, al"));
        },
        Op::NotEq => {
            emit(state_holder, String::from_str("  cmp rax, rdi"));
            emit(state_holder, String::from_str("  setne al"));
            emit(state_holder, String::from_str("  movzb rax, al"));
        },
        Op::Ls => {
            emit(state_holder, String::from_str("  cmp rax, rdi"));
            emit(state_holder, String::from_str("  setl al"));
            emit(state_holder, String::from_str("  movzb rax, al"));
        },
        Op::LsEq => {
            emit(state_holder, String::from_str("  cmp rax, rdi"));
            emit(state_holder, String::from_str("  setle al"));
            emit(state_holder, String::from_str("  movzb rax, al"));
        },
        Op::Gr => {
            emit(state_holder, String::from_str("  cmp rdi, rax"));
            emit(state_holder, String::from_str("  setl al"));
            emit(state_holder, String::from_str("  movzb rax, al"));
        },
        Op::GrEq => {
            emit(state_holder, String::from_str("  cmp rdi, rax"));
            emit(state_holder, String::from_str("  setle al"));
            emit(state_holder, String::from_str("  movzb rax, al"));
        },
        Op::Assign => {},
    }
}

/// Compute the address of a place into `rax`.
pub fn gen_addr(exp: &Exp, state_holder: &mut StateHolder) -> (r: Result<(), GenError>)
    ensures
        gen_matches(
            r,
            spec_gen_addr(exp.deep_view(), old(state_holder)@),
            old(state_holder)@,
            final(state_holder)@,
        ),
    decreases exp_cmsize(exp.deep_view()), 0int,
{
    reveal(spec_gen_addr);
    reveal(spec_gen_exp);
    match exp {
        Exp::Var(v) => {
            if !state_holder.check_local_var_from_env(v) {
                return Err(GenError::UndefinedVariable);
            }
            match state_holder.get_local_var_offset(v) {
                Ok(off) => {
                    let line = cat3("  lea rax, [", int_string(off).as_str(), " + rbp]");
                    emit(state_holder, line);
                    Ok(())
                },
                Err(e) => Err(e),
            }
        },
        Exp::UnaryExp { op, exp } => match op {
            UOp::Deref => code_gen_exp(&**exp, state_holder),
            UOp::Address => Err(GenError::InvalidLvalue),
        },
        _ => Err(GenError::InvalidLvalue),
    }
}

/// Lower an assignment: stage the address of the left side, evaluate
/// the right side, store, and leave the stored value in `rax`.
pub fn code_gen_assign(left: &Exp, right: &Exp, state_holder: &mut StateHolder) -> (r: Result<
    (),
    GenError,
>)
    ensures
        gen_matches(
            r,
            spec_gen_assign(left.deep_view(), right.deep_view(), old(state_holder)@),
            old(state_holder)@,
            final(state_holder)@,
        ),
    decreases exp_cmsize(left.deep_view()) + exp_cmsize(right.deep_view()), 1int,
{
    reveal(spec_gen_assign);
    reveal(spec_gen_addr);
    reveal(spec_gen_exp);
    match gen_addr(left, state_holder) {
        Ok(()) => match push("rax", state_holder) {
            Ok(()) => match code_gen_exp(right, state_holder) {
                Ok(()) => match pop("rdi", state_holder) {
                    Ok(()) => {
                        emit(state_holder, String::from_str("  mov [rdi], rax"));
                        Ok(())
                    },
                    Err(e) => Err(e),
                },
                Err(e) => Err(e),
            },
            Err(e) => Err(e),
        },
        Err(e) => Err(e),
    }
}

fn code_gen_args(args: &Vec<Exp>, k: usize, state_holder: &mut StateHolder) -> (r: Result<
    (),
    GenError,
>)
    requires
        k <= args@.len(),
    ensures
        ({
            let s = spec_gen_args(args.deep_view(), k as int, old(state_holder)@);
            match s {
                Ok(sv) => r is Ok && final(state_holder)@ == sv && sv.depth == old(state_holder)@.depth
                    + (args@.len() - k) && (labels_wf(old(state_holder)@) ==> labels_wf(sv)),
                Err(e) => r is Err && r->Err_0 == e,
            }
        }),
    decreases exps_cmsize_from(args.deep_view(), k as int), 0int,
{
    reveal(spec_gen_args);
    reveal(spec_gen_exp);
    if k >= args.len() {
        return Ok(());
    }
    match code_gen_exp(&args[k], state_holder) {
        Ok(()) => match push("rax", state_holder) {
            Ok(()) => code_gen_args(args, k + 1, state_holder),
            Err(e) => Err(e),
        },
        Err(e) => Err(e),
    }
}

fn pop_args(k: usize, state_holder: &mut StateHolder) -> (r: Result<(), GenError>)
    requires
        k <= 6,
    ensures
        ({
            let s = spec_pop_args(old(state_holder)@, k as int);
            match s {
                Ok(sv) => r is Ok && final(state_holder)@ == sv && sv.depth == old(state_holder)@.depth
                    - k && sv.labels == old(state_holder)@.labels && sv.label_counter == old(
                    state_holder,
                )@.label_counter,
                Err(e) => r is Err && r->Err_0 == e,
            }
        }),
    decreases k,
{
    if k == 0 {
        return Ok(());
    }
    match pop(arg_reg(k - 1), state_holder) {
        Ok(()) => pop_args(k - 1, state_holder),
        Err(e) => Err(e),
    }
}

/// Lower a call: the callee must be a bare name, at most six arguments
/// are staged left to right and popped so the i-th argument lands in
/// the i-th register, and the stack is padded to sixteen-byte alignment
/// when the tracked depth is odd.
pub fn code_gen_func_call(f: &Exp, args: &Vec<Exp>, state_holder: &mut StateHolder) -> (r: Result<
    (),
    GenError,
>)
    ensures
        ({
            match f.deep_view() {
                ExpV::Var(name) => gen_matches(
                    r,
                    spec_gen_func_call(name, args.deep_view(), old(state_holder)@),
                    old(state_holder)@,
                    final(state_holder)@,
                ),
                _ => r is Err && r->Err_0 == GenError::MalformedCall,
            }
        }),
    decreases exps_cmsize_from(args.deep_view(), 0), 1int,
{
    reveal(spec_gen_func_call);
    reveal(spec_gen_args);
    let name = match f {
        Exp::Var(v) => v.clone(),
        _ => {
            return Err(GenError::MalformedCall);
        },
    };
    if args.len() > 6 {
        return Err(GenError::TooManyArgs);
    }
    match code_gen_args(args, 0, state_holder) {
        Ok(()) => {},
        Err(e) => {
            return Err(e);
        },
    }
    match pop_args(args.len(), state_holder) {
        Ok(()) => {},
        Err(e) => {
            return Err(e);
        },
    }
    emit(state_holder, String::from_str("  mov rax, 0"));
    let d = state_holder.get_depth();
    let even = match d.checked_rem(2) {
        Some(0) => true,
        _ => false,
    };
    proof {
        assert(even == (state_holder@.depth as int % 2 == 0));
    }
    if even {
        emit(state_holder, cat2("  call ", name.as_str()));
    } else {
        emit(state_holder, String::from_str("  sub rsp, 8"));
        emit(state_holder, cat2("  call ", name.as_str()));
        emit(state_holder, String::from_str("  add rsp, 8"));
    }
    Ok(())
}

/// Lower one expression; its value ends in `rax` and the operand-stack
/// depth comes back to its entry value.
pub fn code_gen_exp(exp: &Exp, state_holder: &mut StateHolder) -> (r: Result<(), GenError>)
    ensures
        gen_matches(
            r,
            spec_gen_exp(exp.deep_view(), old(state_holder)@),
            old(state_holder)@,
            final(state_holder)@,
        ),
    decreases exp_cmsize(exp.deep_view()), 1int,
{
    reveal(spec_gen_exp);
    reveal(spec_gen_addr);
    reveal(spec_gen_assign);
    reveal(spec_gen_func_call);
    proof {
        lemma_conv_cmsize(exp.deep_view(), state_holder@.env);
    }
    let ce = infix_pointer_exp_converter(exp, state_holder);
    match &ce {
        Exp::FuncCall { fun, args } => {
            proof {
                crate::parser::lemma_view_exps(ce->args@);
                assert(args.deep_view() =~= crate::parser::view_exps(ce->args@));
            }
            code_gen_func_call(&**fun, args, state_holder)
        },
        Exp::InfixExp { left, op, right } => {
            let is_assign = match op {
                Op::Assign => true,
                _ => false,
            };
            if is_assign {
                code_gen_assign(&**left, &**right, state_holder)
            } else {
                match code_gen_exp(&**left, state_holder) {
                    Ok(()) => {},
                    Err(e) => {
                        return Err(e);
                    },
                }
                match push("rax", state_holder) {
                    Ok(()) => {},
                    Err(e) => {
                        return Err(e);
                    },
                }
                match code_gen_exp(&**right, state_holder) {
                    Ok(()) => {},
                    Err(e) => {
                        return Err(e);
                    },
                }
                match push("rax", state_holder) {
                    Ok(()) => {},
                    Err(e) => {
                        return Err(e);
                    },
                }
                match pop("rdi", state_holder) {
                    Ok(()) => {},
                    Err(e) => {
                        return Err(e);
                    },
                }
                match pop("rax", state_holder) {
                    Ok(()) => {},
                    Err(e) => {
                        return Err(e);
                    },
                }
                emit_op(*op, state_holder);
                Ok(())
            }
        },
        Exp::Int(i) => {
            emit(state_holder, cat2("  mov rax, ", int_string(*i).as_str()));
            Ok(())
        },
        Exp::Var(_) => {
            match gen_addr(&ce, state_holder) {
                Ok(()) => {
                    emit(state_holder, String::from_str("  mov rax, [rax]"));
                    Ok(())
                },
                Err(e) => Err(e),
            }
        },
        Exp::UnaryExp { op, exp: inner } => match op {
            UOp::Address => gen_addr(&**inner, state_holder),
            UOp::Deref => match code_gen_exp(&**inner, state_holder) {
                Ok(()) => {
                    emit(state_holder, String::from_str("  mov rax, [rax]"));
                    Ok(())
                },
                Err(e) => Err(e),
            },
        },
    }
}

fn set_params(params: &Vec<TypeAndExp>, k: usize, state_holder: &mut StateHolder) -> (r: Result<
    (),
    GenError,
>)
    requires
        k <= params@.len(),
        params@.len() <= 6,
    ensures
        ({
            let s = spec_set_params(params.deep_view(), k as int, old(state_holder)@);
            match s {
                Ok(sv) => r is Ok && final(state_holder)@ == sv && sv.depth == old(
                    state_holder,
                )@.depth && sv.labels == old(state_holder)@.labels && sv.label_counter == old(
                    state_holder,
                )@.label_counter,
                Err(e) => r is Err && r->Err_0 == e,
            }
        }),
    decreases params@.len() - k,
{
    if k >= params.len() {
        return Ok(());
    }
    let t = params[k].0.clone();
    match &params[k].1 {
        Exp::Var(v) => {
            let name = v.clone();
            state_holder.set_local_var_env(t, name.clone());
            match state_holder.get_local_var_offset(&name) {
                Ok(off) => {
                    let mut line = cat2("  mov [", int_string(off).as_str());
                    line.append(" + rbp], ");
                    line.append(arg_reg(k));
                    emit(state_holder, line);
                    set_params(params, k + 1, state_holder)
                },
                Err(e) => Err(e),
            }
        },
        _ => Err(GenError::MalformedDecl),
    }
}

/// Lower a function definition: fresh environment and frame, prologue
/// with the aligned frame size, parameters stored from their registers,
/// the body, and the one shared epilogue under the function's return
/// label.
pub fn code_gen_func(
    f: &Exp,
    params: &Vec<TypeAndExp>,
    body: &Vec<Stmt>,
    state_holder: &mut StateHolder,
) -> (r: Result<(), GenError>)
    ensures
        gen_matches(
            r,
            spec_gen_func(
                f.deep_view(),
                params.deep_view(),
                body.deep_view(),
                old(state_holder)@,
            ),
            old(state_holder)@,
            final(state_holder)@,
        ),
    decreases 1 + exp_cmsize(f.deep_view()) + stmts_msize_from(body.deep_view(), 0), 0int,
{
    reveal(spec_gen_func);
    reveal(spec_gen_stmts);
    let name = match f {
        Exp::Var(v) => v.clone(),
        _ => {
            return Err(GenError::MalformedCall);
        },
    };
    state_holder.reset_local_var_env();
    state_holder.set_fun_name(name.clone());
    state_holder.reset_offset();
    let size = match get_stack_size(params, body) {
        Ok(s) => s,
        Err(e) => {
            return Err(e);
        },
    };
    emit(state_holder, cat2(".global ", name.as_str()));
    emit(state_holder, cat2(name.as_str(), ":"));
    emit(state_holder, String::from_str("  push rbp"));
    emit(state_holder, String::from_str("  mov rbp, rsp"));
    emit(state_holder, cat2("  sub rsp, ", int_string(size).as_str()));
    if params.len() > 6 {
        return Err(GenError::TooManyArgs);
    }
    match set_params(params, 0, state_holder) {
        Ok(()) => {},
        Err(e) => {
            return Err(e);
        },
    }
    match code_gen_from(body, 0, state_holder) {
        Ok(()) => {},
        Err(e) => {
            return Err(e);
        },
    }
    match state_holder.assert_depth() {
        Ok(()) => {},
        Err(e) => {
            return Err(e);
        },
    }
    emit(state_holder, cat3(".L.return.", name.as_str(), ":"));
    emit(state_holder, String::from_str("  mov rsp, rbp"));
    emit(state_holder, String::from_str("  pop rbp"));
    emit(state_holder, String::from_str("  ret"));
    Ok(())
}

/// Lower an `if` statement.
pub fn code_gen_if(
    cond: &Exp,
    stmt1: &Stmt,
    stmt2: &Option<Stmt>,
    state_holder: &mut StateHolder,
) -> (r: Result<(), GenError>)
    ensures
        gen_matches(
            r,
            spec_gen_if(
                cond.deep_view(),
                stmt1.deep_view(),
                crate::parser::view_opt_stmt(*stmt2),
                old(state_holder)@,
            ),
            old(state_holder)@,
            final(state_holder)@,
        ),
    decreases 1 + exp_cmsize(cond.deep_view()) + stmt_msize(stmt1.deep_view())
        + opt_stmt_msize(crate::parser::view_opt_stmt(*stmt2)), 0int,
{
    reveal(spec_gen_if);
    reveal(spec_gen_exp);
    reveal(spec_gen_stmt);
    match code_gen_exp(cond, state_holder) {
        Ok(()) => {},
        Err(e) => {
            return Err(e);
        },
    }
    if state_holder.get_label_counter_value() < 0 || state_holder.get_label_counter_value()
        > i32::MAX - 2 {
        return Err(GenError::InternalInvariantFault);
    }
    match stmt2 {
        Some(s2) => {
            let (else_label, jelse_label) = state_holder.get_label(String::from_str("if"));
            let (if_label, jif_label) = state_holder.get_label(String::from_str("else"));
            emit(state_holder, String::from_str("  cmp rax, 0"));
            emit(state_holder, cat2("  je ", jelse_label.as_str()));
            match code_gen_stmt(stmt1, state_holder) {
                Ok(()) => {},
                Err(e) => {
                    return Err(e);
                },
            }
            emit(state_holder, cat2("  jmp ", jif_label.as_str()));
            emit(state_holder, else_label);
            match code_gen_stmt(s2, state_holder) {
                Ok(()) => {},
                Err(e) => {
                    return Err(e);
                },
            }
            emit(state_holder, if_label);
            Ok(())
        },
        None => {
            let (label, jlabel) = state_holder.get_label(String::from_str("if"));
            emit(state_holder, String::from_str("  cmp rax, 0"));
            emit(state_holder, cat2("  je ", jlabel.as_str()));
            match code_gen_stmt(stmt1, state_holder) {
                Ok(()) => {},
                Err(e) => {
                    return Err(e);
                },
            }
            emit(state_holder, label);
            Ok(())
        },
    }
}

/// Lower a `while` statement.
pub fn code_gen_while(cond: &Exp, stmt: &Stmt, state_holder: &mut StateHolder) -> (r: Result<
    (),
    GenError,
>)
    ensures
        gen_matches(
            r,
            spec_gen_while(cond.deep_view(), stmt.deep_view(), old(state_holder)@),
            old(state_holder)@,
            final(state_holder)@,
        ),
    decreases 1 + exp_cmsize(cond.deep_view()) + stmt_msize(stmt.deep_view()), 0int,
{
    reveal(spec_gen_while);
    reveal(spec_gen_exp);
    reveal(spec_gen_stmt);
    if state_holder.get_label_counter_value() < 0 || state_holder.get_label_counter_value()
        > i32::MAX - 2 {
        return Err(GenError::InternalInvariantFault);
    }
    let (begin_label, jbegin_label) = state_holder.get_label(String::from_str("beginWhile"));
    let (end_label, jend_label) = state_holder.get_label(String::from_str("endWhile"));
    emit(state_holder, begin_label);
    match code_gen_exp(cond, state_holder) {
        Ok(()) => {},
        Err(e) => {
            return Err(e);
        },
    }
    emit(state_holder, String::from_str("  cmp rax, 0"));
    emit(state_holder, cat2("  je ", jend_label.as_str()));
    match code_gen_stmt(stmt, state_holder) {
        Ok(()) => {},
        Err(e) => {
            return Err(e);
        },
    }
    emit(state_holder, cat2("  jmp ", jbegin_label.as_str()));
    emit(state_holder, end_label);
    Ok(())
}

/// Lower a `for` statement.
pub fn code_gen_for(
    exp1: &Option<Exp>,
    exp2: &Option<Exp>,
    exp3: &Option<Exp>,
    stmt: &Stmt,
    state_holder: &mut StateHolder,
) -> (r: Result<(), GenError>)
    ensures
        gen_matches(
            r,
            spec_gen_for(
                exp1.deep_view(),
                exp2.deep_view(),
                exp3.deep_view(),
                stmt.deep_view(),
                old(state_holder)@,
            ),
            old(state_holder)@,
            final(state_holder)@,
        ),
    decreases 1 + opt_exp_msize(exp1.deep_view()) + opt_exp_msize(exp2.deep_view())
        + opt_exp_msize(exp3.deep_view()) + stmt_msize(stmt.deep_view()), 0int,
{
    reveal(spec_gen_for);
    reveal(spec_gen_option_exp);
    reveal(spec_gen_exp);
    reveal(spec_gen_stmt);
    if state_holder.get_label_counter_value() < 0 || state_holder.get_label_counter_value()
        > i32::MAX - 2 {
        return Err(GenError::InternalInvariantFault);
    }
    let (begin_label, jbegin_label) = state_holder.get_label(String::from_str("beginFor"));
    let (end_label, jend_label) = state_holder.get_label(String::from_str("endFor"));
    match code_gen_option_exp(exp1, state_holder) {
        Ok(()) => {},
        Err(e) => {
            return Err(e);
        },
    }
    emit(state_holder, begin_label);
    match exp2 {
        None => {},
        Some(e2) => {
            match code_gen_exp(e2, state_holder) {
                Ok(()) => {},
                Err(e) => {
                    return Err(e);
                },
            }
            emit(state_holder, String::from_str("  cmp rax, 0"));
            emit(state_holder, cat2("  je ", jend_label.as_str()));
        },
    }
    match code_gen_stmt(stmt, state_holder) {
        Ok(()) => {},
        Err(e) => {
            return Err(e);
        },
    }
    match code_gen_option_exp(exp3, state_holder) {
        Ok(()) => {},
        Err(e) => {
            return Err(e);
        },
    }
    emit(state_holder, cat2("  jmp ", jbegin_label.as_str()));
    emit(state_holder, end_label);
    Ok(())
}

/// Lower the optional clause of a `for` head.
pub fn code_gen_option_exp(exp: &Option<Exp>, state_holder: &mut StateHolder) -> (r: Result<
    (),
    GenError,
>)
    ensures
        gen_matches(
            r,
            spec_gen_option_exp(exp.deep_view(), old(state_holder)@),
            old(state_holder)@,
            final(state_holder)@,
        ),
    decreases opt_exp_msize(exp.deep_view()), 2int,
{
    reveal(spec_gen_option_exp);
    reveal(spec_gen_exp);
    match exp {
        None => Ok(()),
        Some(e) => code_gen_exp(e, state_holder),
    }
}

/// Lower one statement.
pub fn code_gen_stmt(s: &Stmt, state_holder: &mut StateHolder) -> (r: Result<(), GenError>)
    ensures
        gen_matches(
            r,
            spec_gen_stmt(s.deep_view(), old(state_holder)@),
            old(state_holder)@,
            final(state_holder)@,
        ),
    decreases stmt_msize(s.deep_view()), 1int,
{
    reveal(spec_gen_stmt);
    reveal(spec_gen_exp);
    reveal(spec_gen_stmts);
    reveal(spec_gen_if);
    reveal(spec_gen_while);
    reveal(spec_gen_for);
    reveal(spec_gen_func);
    match s {
        Stmt::Exp(e) => code_gen_exp(e, state_holder),
        Stmt::Return(e) => match code_gen_exp(e, state_holder) {
            Ok(()) => {
                let fname = state_holder.get_fun_name();
                emit(state_holder, cat2("  jmp .L.return.", fname.as_str()));
                Ok(())
            },
            Err(e2) => Err(e2),
        },
        Stmt::Block(stmts) => {
            proof {
                crate::parser::lemma_view_stmts(stmts@);
                assert(stmts.deep_view() =~= crate::parser::view_stmts(stmts@));
            }
            code_gen_from(stmts, 0, state_holder)
        },
        Stmt::If { cond, stmt1, stmt2 } => code_gen_if(&**cond, &**stmt1, &**stmt2, state_holder),
        Stmt::While { cond, stmt } => code_gen_while(&**cond, &**stmt, state_holder),
        Stmt::For { exp1, exp2, exp3, stmt } => code_gen_for(
            &**exp1,
            &**exp2,
            &**exp3,
            &**stmt,
            state_holder,
        ),
        Stmt::Func { t, fun, params, body } => {
            proof {
                crate::parser::lemma_view_params(params@);
                assert(params.deep_view() =~= crate::parser::view_params(params@));
                crate::parser::lemma_view_stmts(body@);
                assert(body.deep_view() =~= crate::parser::view_stmts(body@));
            }
            code_gen_func(&**fun, params, body, state_holder)
        },
        Stmt::VarDec { t, var } => match &**var {
            Exp::Var(name) => {
                state_holder.set_local_var_env(t.clone(), name.clone());
                Ok(())
            },
            _ => Err(GenError::MalformedDecl),
        },
    }
}

fn code_gen_from(p: &Vec<Stmt>, k: usize, state_holder: &mut StateHolder) -> (r: Result<
    (),
    GenError,
>)
    requires
        k <= p@.len(),
    ensures
        gen_matches(
            r,
            spec_gen_stmts(p.deep_view(), k as int, old(state_holder)@),
            old(state_holder)@,
            final(state_holder)@,
        ),
    decreases stmts_msize_from(p.deep_view(), k as int), 0int,
{
    reveal(spec_gen_stmts);
    reveal(spec_gen_stmt);
    if k >= p.len() {
        return Ok(());
    }
    match code_gen_stmt(&p[k], state_holder) {
        Ok(()) => code_gen_from(p, k + 1, state_holder),
        Err(e) => Err(e),
    }
}

/// Lower a sequence of statements in order; the operand-stack depth
/// returns to its entry value whenever the whole sequence lowers.
pub fn code_gen(p: &Vec<Stmt>, state_holder: &mut StateHolder) -> (r: Result<(), GenError>)
    ensures
        gen_matches(
            r,
            spec_gen_stmts(p.deep_view(), 0, old(state_holder)@),
            old(state_holder)@,
            final(state_holder)@,
        ),
{
    code_gen_from(p, 0, state_holder)
}

/// Lower a whole program from a fresh state, without the leading
/// syntax-mode directive.
pub fn start_to_code_gen(p: Program) -> (r: Result<Vec<String>, GenError>)
    ensures
        match spec_gen_stmts(p.deep_view(), 0, init_state()) {
            Ok(sv) => r is Ok && r->Ok_0.deep_view() == sv.output,
            Err(e) => r is Err && r->Err_0 == e,
        },
{
    let mut state_holder = new_state_holder();
    match code_gen(&p, &mut state_holder) {
        Ok(()) => Ok(state_holder.into_output()),
        Err(e) => Err(e),
    }
}

/// A whole compilation: the syntax-mode directive, then every
/// top-level statement; yields the assembly lines, or the first error,
/// in which case no output is used.
pub fn start(p: Program) -> (r: Result<Vec<String>, GenError>)
    ensures
        match spec_start(p.deep_view()) {
            Ok(lines) => r is Ok && r->Ok_0.deep_view() == lines,
            Err(e) => r is Err && r->Err_0 == e,
        },
{
    let mut state_holder = new_state_holder();
    emit(&mut state_holder, String::from_str(".intel_syntax noprefix"));
    match code_gen(&p, &mut state_holder) {
        Ok(()) => Ok(state_holder.into_output()),
        Err(e) => Err(e),
    }
}

} // verus!
