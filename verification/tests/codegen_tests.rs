use minicc::codegen::code_gen;
use minicc::codegen::code_gen_exp;
use minicc::codegen::get_stack_size;
use minicc::codegen::infix_pointer_exp_converter;
use minicc::codegen::new_state_holder;
use minicc::codegen::start;
use minicc::codegen::GenError;
use minicc::codegen::LOCAL_VAR_OFFSET;
use minicc::lexer::tokenize;
use minicc::lexer::TypeDec;
use minicc::parser::parse_program;
use minicc::parser::Exp;
use minicc::parser::Op;
use minicc::parser::Stmt;

#[test]
fn test_map() {
    let mut state_holder = new_state_holder();
    let offset = state_holder
        .get_local_var_offset(&"a".to_string())
        .unwrap();
    assert_eq!(offset, -LOCAL_VAR_OFFSET);
    let offset = state_holder
        .get_local_var_offset(&"a".to_string())
        .unwrap();
    assert_eq!(offset, -LOCAL_VAR_OFFSET);
    let offset = state_holder
        .get_local_var_offset(&"b".to_string())
        .unwrap();
    assert_eq!(offset, -2 * LOCAL_VAR_OFFSET);
    let offset = state_holder
        .get_local_var_offset(&"c".to_string())
        .unwrap();
    assert_eq!(offset, LOCAL_VAR_OFFSET * -3);
    let offset = state_holder
        .get_local_var_offset(&"d".to_string())
        .unwrap();
    assert_eq!(offset, LOCAL_VAR_OFFSET * -4);
    let offset = state_holder
        .get_local_var_offset(&"d".to_string())
        .unwrap();
    assert_eq!(offset, LOCAL_VAR_OFFSET * -4);
    state_holder.reset_offset();
    let offset = state_holder
        .get_local_var_offset(&"d".to_string())
        .unwrap();
    assert_eq!(offset, -LOCAL_VAR_OFFSET);
    let offset = state_holder
        .get_local_var_offset(&"d".to_string())
        .unwrap();
    assert_eq!(offset, -LOCAL_VAR_OFFSET);
    let offset = state_holder
        .get_local_var_offset(&"a".to_string())
        .unwrap();
    assert_eq!(offset, LOCAL_VAR_OFFSET * -2);
    let offset = state_holder
        .get_local_var_offset(&"a".to_string())
        .unwrap();
    assert_eq!(offset, LOCAL_VAR_OFFSET * -2);

    let (label, jlabel) = state_holder.get_label("if".to_string());
    assert_eq!(label, ".L.if0:");
    assert_eq!(jlabel, ".L.if0");
}

fn compile(text: &str) -> Result<Vec<String>, GenError> {
    let tokens = tokenize(text).ok().unwrap();
    let program = parse_program(tokens.as_slice()).ok().unwrap();
    start(program)
}

// Pointer scaling: `p + 1` scales the literal by 4 when `p` is a
// pointer to `int`, and by 8 when `p` points to a pointer.
#[test]
fn pointer_arithmetic_scales_by_pointee_size() {
    let mut state_holder = new_state_holder();
    state_holder.set_local_var_env(
        TypeDec::Pointer(Box::new(TypeDec::Int)),
        "p".to_string(),
    );
    state_holder.set_local_var_env(
        TypeDec::Pointer(Box::new(TypeDec::Pointer(Box::new(TypeDec::Int)))),
        "q".to_string(),
    );
    let exp = Exp::InfixExp {
        left: Box::new(Exp::Var("p".to_string())),
        op: Op::Plus,
        right: Box::new(Exp::Int(1)),
    };
    let converted = infix_pointer_exp_converter(&exp, &state_holder);
    let expected = Exp::InfixExp {
        left: Box::new(Exp::Var("p".to_string())),
        op: Op::Plus,
        right: Box::new(Exp::InfixExp {
            left: Box::new(Exp::Int(1)),
            op: Op::Asterisk,
            right: Box::new(Exp::Int(4)),
        }),
    };
    assert_eq!(converted, expected);

    let exp = Exp::InfixExp {
        left: Box::new(Exp::Var("q".to_string())),
        op: Op::Plus,
        right: Box::new(Exp::Int(1)),
    };
    let converted = infix_pointer_exp_converter(&exp, &state_holder);
    let expected = Exp::InfixExp {
        left: Box::new(Exp::Var("q".to_string())),
        op: Op::Plus,
        right: Box::new(Exp::InfixExp {
            left: Box::new(Exp::Int(1)),
            op: Op::Asterisk,
            right: Box::new(Exp::Int(8)),
        }),
    };
    assert_eq!(converted, expected);

    // The non-pointer operand is rewritten even on the left.
    let exp = Exp::InfixExp {
        left: Box::new(Exp::Int(2)),
        op: Op::Minus,
        right: Box::new(Exp::Var("p".to_string())),
    };
    let converted = infix_pointer_exp_converter(&exp, &state_holder);
    let expected = Exp::InfixExp {
        left: Box::new(Exp::InfixExp {
            left: Box::new(Exp::Int(2)),
            op: Op::Asterisk,
            right: Box::new(Exp::Int(4)),
        }),
        op: Op::Minus,
        right: Box::new(Exp::Var("p".to_string())),
    };
    assert_eq!(converted, expected);
}

// Frame allocation: three `int` locals take three eight-byte slots,
// rounded up to the next sixteen-byte multiple.
#[test]
fn three_locals_allocate_an_aligned_frame() {
    let body = vec![
        Stmt::VarDec {
            t: TypeDec::Int,
            var: Box::new(Exp::Var("a".to_string())),
        },
        Stmt::VarDec {
            t: TypeDec::Int,
            var: Box::new(Exp::Var("b".to_string())),
        },
        Stmt::VarDec {
            t: TypeDec::Int,
            var: Box::new(Exp::Var("c".to_string())),
        },
    ];
    let size = get_stack_size(&Vec::new(), &body).unwrap();
    assert_eq!(size, 32);
    assert!(size % 16 == 0);
    assert!(size >= 3 * LOCAL_VAR_OFFSET);

    let lines = compile("int f ( ) { int a; int b; int c; a = 1; return a; }").unwrap();
    assert!(lines.contains(&"  sub rsp, 32".to_string()));
}

// Label uniqueness: two independent `if` statements draw two distinct
// label numbers, and no label line is emitted twice.
#[test]
fn two_ifs_use_distinct_labels() {
    let lines =
        compile("int f ( ) { if ( 1 ) 1 ; if ( 1 ) 2 ; return 0 ; }").unwrap();
    assert!(lines.contains(&".L.if0:".to_string()));
    assert!(lines.contains(&".L.if1:".to_string()));
    let mut label_lines: Vec<&String> =
        lines.iter().filter(|l| l.ends_with(":") && l.starts_with(".L.")).collect();
    let n = label_lines.len();
    label_lines.sort();
    label_lines.dedup();
    assert_eq!(label_lines.len(), n);

    let mut state_holder = new_state_holder();
    let (_, j0) = state_holder.get_label("if".to_string());
    let (_, j1) = state_holder.get_label("if".to_string());
    assert_ne!(j0, j1);
}

// Depth balance: after generating a complete function body the
// operand-stack depth counter is back at its entry value.
#[test]
fn depth_returns_to_zero_after_generation() {
    let mut state_holder = new_state_holder();
    assert_eq!(state_holder.get_depth(), 0);

    let tokens = tokenize("int f (int x) { int y; y = x + 2 * x; return y; }")
        .ok()
        .unwrap();
    let program = parse_program(tokens.as_slice()).ok().unwrap();
    code_gen(&program, &mut state_holder).unwrap();
    assert_eq!(state_holder.get_depth(), 0);

    let tokens = tokenize("1 + 2 * (3 - 4)").ok().unwrap();
    let (exp, _) = minicc::parser::parse_exp(tokens.as_slice()).ok().unwrap();
    let mut state_holder = new_state_holder();
    code_gen_exp(&exp, &mut state_holder).unwrap();
    assert_eq!(state_holder.get_depth(), 0);
}

// An undeclared variable is rejected at generation time, not given a
// silent offset.
#[test]
fn undeclared_variable_is_a_generation_error() {
    let result = compile("x = 1;");
    assert_eq!(result, Err(GenError::UndefinedVariable));
}

// Assigning to a literal is an invalid-lvalue error.
#[test]
fn literal_assignment_is_an_invalid_lvalue() {
    let result = compile("1 = 2;");
    assert_eq!(result, Err(GenError::InvalidLvalue));
}

// The i-th evaluated argument lands in the i-th argument register.
#[test]
fn call_arguments_reach_their_registers_in_order() {
    let lines = compile("int f ( ) { return sum ( 1 , 2 ) ; }").unwrap();
    let pop_rsi = lines.iter().position(|l| l == "  pop rsi").unwrap();
    let pop_rdi = lines.iter().position(|l| l == "  pop rdi").unwrap();
    assert!(pop_rsi < pop_rdi);
    assert!(lines.contains(&"  call sum".to_string()));
}

// A return statement jumps to the single shared epilogue label of the
// enclosing function.
#[test]
fn return_shares_one_epilogue() {
    let lines = compile("int f ( ) { return 1 ; return 2 ; }").unwrap();
    let jumps = lines.iter().filter(|l| *l == "  jmp .L.return.f").count();
    assert_eq!(jumps, 2);
    let labels = lines.iter().filter(|l| *l == ".L.return.f:").count();
    assert_eq!(labels, 1);
}

// A full small program lowers to the expected prologue and directive.
#[test]
fn whole_program_shape() {
    let lines = compile("int main ( ) { return 42 ; }").unwrap();
    assert_eq!(lines[0], ".intel_syntax noprefix");
    assert!(lines.contains(&".global main".to_string()));
    assert!(lines.contains(&"main:".to_string()));
    assert!(lines.contains(&"  mov rax, 42".to_string()));
    assert!(lines.contains(&"  ret".to_string()));
}

// A call whose callee position is not a bare identifier halts
// generation.
#[test]
fn non_identifier_callee_is_malformed() {
    let exp = Exp::FuncCall {
        fun: Box::new(Exp::Int(1)),
        args: Vec::new(),
    };
    let mut state_holder = new_state_holder();
    assert_eq!(
        code_gen_exp(&exp, &mut state_holder),
        Err(GenError::MalformedCall)
    );
}

// A declaration whose variable position is not a bare identifier halts
// generation.
#[test]
fn non_identifier_declaration_is_malformed() {
    let program = vec![Stmt::VarDec {
        t: TypeDec::Int,
        var: Box::new(Exp::Int(3)),
    }];
    let mut state_holder = new_state_holder();
    assert_eq!(
        code_gen(&program, &mut state_holder),
        Err(GenError::MalformedDecl)
    );
}

// More arguments than argument registers halt generation.
#[test]
fn seven_arguments_are_too_many() {
    let result = compile("f(1,2,3,4,5,6,7);");
    assert_eq!(result, Err(GenError::TooManyArgs));
}

// The padding around a call appears exactly when the tracked depth is
// odd at the call.
#[test]
fn call_alignment_padding_depends_on_depth() {
    let even = compile("f();").unwrap();
    assert!(!even.contains(&"  sub rsp, 8".to_string()));
    let odd = compile("1 + f();").unwrap();
    assert!(odd.contains(&"  sub rsp, 8".to_string()));
    assert!(odd.contains(&"  add rsp, 8".to_string()));
}
