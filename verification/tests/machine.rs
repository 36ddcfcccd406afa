use onilang::ast::{Assignment, Ast, Defn, Token};
use onilang::compiler::{Compiler, FuncProto};
use onilang::eval::Vm;
use onilang::intern::Interner;
use onilang::value::{ConstValue, Opcode};
use onilang::{Span, Spanned};

fn sp(a: Ast) -> Spanned<Ast> {
    Spanned { span: Span::new(0, 0), inner: a }
}

fn ident(name: &str) -> Spanned<Ast> {
    sp(Ast::Identifier(name.to_string()))
}

fn defn(name: &str, params: Vec<Spanned<Ast>>, body: Vec<Spanned<Ast>>) -> Spanned<Ast> {
    sp(Ast::Defn(Box::new(Defn { name: ident(name), args: sp(Ast::Arglist(params)), body })))
}

fn call(callee: Spanned<Ast>, args: Vec<Spanned<Ast>>) -> Spanned<Ast> {
    sp(Ast::Call(Box::new(callee), Box::new(sp(Ast::Paramlist(args)))))
}

fn assign_with(place: Spanned<Ast>, tok: Token, expr: Spanned<Ast>) -> Spanned<Ast> {
    sp(Ast::Assignment(Box::new(Assignment {
        place,
        assign: Spanned { span: Span::new(0, 0), inner: tok },
        expr,
    })))
}

fn access(base: Spanned<Ast>, field: &str) -> Spanned<Ast> {
    sp(Ast::Access(Box::new(onilang::ast::Access { base, field: ident(field) })))
}

fn run_program(ast: Spanned<Ast>) -> Vm {
    let mut vm = Compiler::compile(&ast, Interner::new()).expect("compiles");
    assert_eq!(vm.eval(1_000_000).unwrap(), true);
    vm
}

/// The end-to-end scenario: `defn main() do x $= 1; print(x) end` compiles
/// to one function and prints exactly one line for the value 1.
#[test]
fn main_prints_one() {
    let ast = sp(Ast::Module(vec![defn(
        "main",
        vec![],
        vec![
            assign_with(ident("x"), Token::ImmutDeclAssign, sp(Ast::Uint(1))),
            call(ident("print"), vec![ident("x")]),
        ],
    )]));
    let interner = Interner::new();
    let vm = Compiler::compile(&ast, interner).expect("compiles");
    assert_eq!(vm.funcs.len(), 1);
    let mut vm = vm;
    assert_eq!(vm.eval(1_000).unwrap(), true);
    assert_eq!(vm.output.len(), 1);
    assert_eq!(vm.output[0], "Uint(1)");
}

/// Direct recursion with a base case returns through every caller frame:
/// sum(3) = 3 + 2 + 1 + 0 built directly as bytecode (the conditional uses
/// the machine's branch instruction).
#[test]
fn recursion_returns_to_each_frame() {
    let mut interner = Interner::new();
    let f_h = interner.intern("sum");
    let n_h = interner.intern("n");
    let print_h = interner.intern("print");
    let consts = vec![ConstValue::Uint(1), ConstValue::Uint(0), ConstValue::Uint(3)];
    let sum = FuncProto {
        code: vec![
            Opcode::Defslot(n_h, false),
            Opcode::Assign(n_h),
            Opcode::Read(n_h),
            Opcode::JumpIfZero(11),
            Opcode::Read(n_h),
            Opcode::Read(n_h),
            Opcode::Const(0),
            Opcode::Sub,
            Opcode::Call(f_h),
            Opcode::Add,
            Opcode::Jump(12),
            Opcode::Const(1),
        ],
        arity: 1,
    };
    let main = FuncProto {
        code: vec![Opcode::Const(2), Opcode::Call(f_h), Opcode::Call(print_h)],
        arity: 0,
    };
    let names = vec![(f_h, 0usize)];
    let mut vm = Vm::new(vec![sum, main], names, 1, consts, interner).expect("machine");
    assert_eq!(vm.eval(10_000).unwrap(), true);
    assert_eq!(vm.output, vec!["Uint(6)".to_string()]);
}

/// Mutual calls also return correctly: main calls f, f calls g, and the
/// value g leaves on the stack comes back through both frames.
#[test]
fn nested_calls_return() {
    let ast = sp(Ast::Module(vec![
        defn("g", vec![], vec![sp(Ast::Uint(7))]),
        defn("f", vec![], vec![call(ident("g"), vec![])]),
        defn("main", vec![], vec![call(ident("print"), vec![call(ident("f"), vec![])])]),
    ]));
    let vm = run_program(ast);
    assert_eq!(vm.output, vec!["Uint(7)".to_string()]);
}

/// Field mutation aliasing: two bindings reference the same object; a store
/// through one is observed reading through the other.
#[test]
fn object_aliasing_is_visible() {
    let ast = sp(Ast::Module(vec![defn(
        "main",
        vec![],
        vec![
            assign_with(ident("o"), Token::DeclAssign, call(ident("object"), vec![])),
            assign_with(ident("p"), Token::DeclAssign, ident("o")),
            assign_with(access(ident("o"), "x"), Token::Assign, sp(Ast::Uint(1))),
            call(ident("print"), vec![access(ident("p"), "x")]),
        ],
    )]));
    let vm = run_program(ast);
    assert_eq!(vm.output, vec!["Uint(1)".to_string()]);
}

/// A callable stored in an object field is invoked through the field path
/// (the two-instruction push-the-callable form).
#[test]
fn call_through_field_path() {
    let ast = sp(Ast::Module(vec![defn(
        "main",
        vec![],
        vec![
            assign_with(ident("o"), Token::DeclAssign, call(ident("object"), vec![])),
            assign_with(access(ident("o"), "f"), Token::Assign, ident("print")),
            call(access(ident("o"), "f"), vec![sp(Ast::Uint(5))]),
        ],
    )]));
    let vm = run_program(ast);
    assert_eq!(vm.output, vec!["Uint(5)".to_string()]);
}

/// Arguments are bound to parameters in order.
#[test]
fn parameters_bind_in_order() {
    let ast = sp(Ast::Module(vec![
        defn(
            "f",
            vec![ident("a"), ident("b")],
            vec![call(ident("print"), vec![ident("a")]), call(ident("print"), vec![ident("b")])],
        ),
        defn(
            "main",
            vec![],
            vec![call(ident("f"), vec![sp(Ast::Uint(1)), sp(Ast::Uint(2))])],
        ),
    ]));
    let vm = run_program(ast);
    assert_eq!(vm.output, vec!["Uint(1)".to_string(), "Uint(2)".to_string()]);
}

/// Parameters are immutable: assigning to one fails at runtime.
#[test]
fn parameters_are_immutable() {
    let ast = sp(Ast::Module(vec![
        defn(
            "f",
            vec![ident("a")],
            vec![assign_with(ident("a"), Token::Assign, sp(Ast::Uint(2)))],
        ),
        defn("main", vec![], vec![call(ident("f"), vec![sp(Ast::Uint(1))])]),
    ]));
    let mut vm = Compiler::compile(&ast, Interner::new()).expect("compiles");
    let r = vm.eval(1_000);
    assert!(r.is_err());
    assert_eq!(r.unwrap_err().kind(), onilang::error::ErrorKind::Eval);
}

/// A run that exhausts its step budget reports so and can simply run on.
#[test]
fn fuel_runs_out_and_resumes() {
    let ast = sp(Ast::Module(vec![defn(
        "main",
        vec![],
        vec![
            assign_with(ident("x"), Token::ImmutDeclAssign, sp(Ast::Uint(1))),
            call(ident("print"), vec![ident("x")]),
        ],
    )]));
    let mut vm = Compiler::compile(&ast, Interner::new()).expect("compiles");
    assert_eq!(vm.eval(0).unwrap(), false);
    assert_eq!(vm.eval(1).unwrap(), false);
    assert_eq!(vm.eval(1_000).unwrap(), true);
    assert_eq!(vm.output, vec!["Uint(1)".to_string()]);
}

/// A loop of branch instructions never finishes: every budget runs out.
#[test]
fn jump_loop_never_halts() {
    let mut interner = Interner::new();
    let _ = interner.intern("spin");
    let spin = FuncProto { code: vec![Opcode::Jump(0)], arity: 0 };
    let mut vm = Vm::new(vec![spin], vec![], 0, vec![], interner).expect("machine");
    assert_eq!(vm.eval(10_000).unwrap(), false);
}

/// Popping an empty stack is a reported failure, not a crash.
#[test]
fn stack_underflow_fails() {
    let interner = Interner::new();
    let bad = FuncProto { code: vec![Opcode::Add], arity: 0 };
    let mut vm = Vm::new(vec![bad], vec![], 0, vec![], interner).expect("machine");
    let r = vm.eval(10);
    assert!(r.is_err());
    assert_eq!(r.unwrap_err().kind(), onilang::error::ErrorKind::Eval);
}

/// A constant index outside the pool is a reported failure.
#[test]
fn constant_index_out_of_pool_fails() {
    let interner = Interner::new();
    let bad = FuncProto { code: vec![Opcode::Const(3)], arity: 0 };
    let mut vm = Vm::new(vec![bad], vec![], 0, vec![ConstValue::Uint(1)], interner).expect("machine");
    assert!(vm.eval(10).is_err());
}

/// A conditional jump on a non-integer value is a reported failure.
#[test]
fn branch_on_non_integer_fails() {
    let mut interner = Interner::new();
    let h = interner.intern("t");
    let bad = FuncProto {
        code: vec![Opcode::Const(0), Opcode::JumpIfZero(0)],
        arity: 0,
    };
    let consts = vec![ConstValue::Str(h)];
    let mut vm = Vm::new(vec![bad], vec![], 0, consts, interner).expect("machine");
    assert!(vm.eval(10).is_err());
}

/// Calling a value that is not callable is a reported failure.
#[test]
fn call_of_non_callable_fails() {
    let ast = sp(Ast::Module(vec![defn(
        "main",
        vec![],
        vec![
            assign_with(ident("x"), Token::DeclAssign, sp(Ast::Uint(1))),
            call(ident("x"), vec![]),
        ],
    )]));
    let mut vm = Compiler::compile(&ast, Interner::new()).expect("compiles");
    assert!(vm.eval(100).is_err());
}

/// Reading a field of a non-object, and a field an object does not have,
/// both fail rather than auto-creating anything.
#[test]
fn field_misses_fail() {
    let ast = sp(Ast::Module(vec![defn(
        "main",
        vec![],
        vec![
            assign_with(ident("x"), Token::DeclAssign, sp(Ast::Uint(1))),
            call(ident("print"), vec![access(ident("x"), "y")]),
        ],
    )]));
    let mut vm = Compiler::compile(&ast, Interner::new()).expect("compiles");
    assert!(vm.eval(100).is_err());

    let ast = sp(Ast::Module(vec![defn(
        "main",
        vec![],
        vec![
            assign_with(ident("o"), Token::DeclAssign, call(ident("object"), vec![])),
            call(ident("print"), vec![access(ident("o"), "missing")]),
        ],
    )]));
    let mut vm = Compiler::compile(&ast, Interner::new()).expect("compiles");
    assert!(vm.eval(100).is_err());
}

/// An arithmetic failure inside a program aborts the run with an
/// evaluation error (unsigned subtraction cannot go below zero).
#[test]
fn runtime_arithmetic_failure_aborts() {
    let ast = sp(Ast::Module(vec![defn(
        "main",
        vec![],
        vec![call(
            ident("print"),
            vec![sp(Ast::BinOp(Box::new(onilang::ast::BinOp {
                lhs: sp(Ast::Uint(1)),
                op: Spanned { span: Span::new(0, 0), inner: onilang::ast::Operator::Sub },
                rhs: sp(Ast::Uint(2)),
            })))],
        )],
    )]));
    let mut vm = Compiler::compile(&ast, Interner::new()).expect("compiles");
    let r = vm.eval(100);
    assert!(r.is_err());
    assert_eq!(r.unwrap_err().kind(), onilang::error::ErrorKind::Eval);
}

/// Values print as their variant around their payload.
#[test]
fn print_renders_values() {
    let ast = sp(Ast::Module(vec![defn(
        "main",
        vec![],
        vec![
            call(ident("print"), vec![sp(Ast::Int(-3))]),
            call(ident("print"), vec![sp(Ast::Text("hi".to_string()))]),
            call(ident("print"), vec![call(ident("object"), vec![])]),
        ],
    )]));
    let vm = run_program(ast);
    assert_eq!(
        vm.output,
        vec!["Int(-3)".to_string(), "Str(\"hi\")".to_string(), "Object(0)".to_string()]
    );
}
