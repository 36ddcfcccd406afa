use onilang::ast::{Assignment, Ast, BinOp, Defn, Operator, Token};
use onilang::compiler::Compiler;
use onilang::error::{Error, ErrorKind};
use onilang::intern::Interner;
use onilang::eval::Vm;
use onilang::value::{ConstValue, Opcode};
use onilang::{Span, Spanned};
use rustc_apfloat::Float;

fn expect_error(r: Result<Vm, Error>) -> Error {
    match r {
        Err(e) => e,
        Ok(_) => panic!("expected an error"),
    }
}

fn sp(a: Ast) -> Spanned<Ast> {
    Spanned { span: Span::new(0, 0), inner: a }
}

fn ident(name: &str) -> Spanned<Ast> {
    sp(Ast::Identifier(name.to_string()))
}

fn defn(name: &str, params: Vec<Spanned<Ast>>, body: Vec<Spanned<Ast>>) -> Spanned<Ast> {
    sp(Ast::Defn(Box::new(Defn { name: ident(name), args: sp(Ast::Arglist(params)), body })))
}

fn call(callee: Spanned<Ast>, args: Vec<Spanned<Ast>>) -> Spanned<Ast> {
    sp(Ast::Call(Box::new(callee), Box::new(sp(Ast::Paramlist(args)))))
}

fn assign_with(place: Spanned<Ast>, tok: Token, expr: Spanned<Ast>) -> Spanned<Ast> {
    sp(Ast::Assignment(Box::new(Assignment {
        place,
        assign: Spanned { span: Span::new(0, 0), inner: tok },
        expr,
    })))
}

fn binop(lhs: Spanned<Ast>, op: Operator, rhs: Spanned<Ast>) -> Spanned<Ast> {
    sp(Ast::BinOp(Box::new(BinOp {
        lhs,
        op: Spanned { span: Span::new(0, 0), inner: op },
        rhs,
    })))
}

/// Compiling a literal appends it to the pool and pushes it by index, and
/// the pool entry reads back as the literal.
#[test]
fn literals_round_trip_through_the_pool() {
    let ast = sp(Ast::Module(vec![defn(
        "main",
        vec![],
        vec![sp(Ast::Uint(42)), sp(Ast::Int(-3)), sp(Ast::Float(2.5f64.to_bits())), sp(
            Ast::Text("lit".to_string()),
        )],
    )]));
    let vm = Compiler::compile(&ast, Interner::new()).expect("compiles");
    assert_eq!(vm.consts.len(), 4);
    assert_eq!(vm.consts[0], ConstValue::Uint(42));
    assert_eq!(vm.consts[1], ConstValue::Int(-3));
    assert_eq!(vm.consts[2], ConstValue::Float(2.5f64.to_bits()));
    match vm.consts[3] {
        ConstValue::Str(h) => assert_eq!(vm.interner.resolve(h), "lit"),
        other => panic!("expected an interned string, got {:?}", other),
    }
    assert_eq!(
        vm.funcs[0].code,
        vec![Opcode::Const(0), Opcode::Const(1), Opcode::Const(2), Opcode::Const(3)]
    );
}

/// Operands compile left then right, then the opcode; the left operand is
/// deeper on the stack, so subtraction keeps its order.
#[test]
fn binop_compiles_in_operand_order() {
    let ast = sp(Ast::Module(vec![defn(
        "main",
        vec![],
        vec![call(
            ident("print"),
            vec![binop(sp(Ast::Uint(5)), Operator::Sub, sp(Ast::Uint(3)))],
        )],
    )]));
    let mut vm = Compiler::compile(&ast, Interner::new()).expect("compiles");
    assert_eq!(vm.eval(1_000).unwrap(), true);
    assert_eq!(vm.output, vec!["Uint(2)".to_string()]);
}

/// A module without a `main` definition does not compile.
#[test]
fn missing_main_is_a_compile_error() {
    let ast = sp(Ast::Module(vec![defn("helper", vec![], vec![sp(Ast::Uint(1))])]));
    let r = Compiler::compile(&ast, Interner::new());
    assert!(r.is_err());
    assert_eq!(expect_error(r).kind(), ErrorKind::Compiler);
}

/// `main` must take no parameters.
#[test]
fn main_with_parameters_is_a_compile_error() {
    let ast = sp(Ast::Module(vec![defn("main", vec![ident("x")], vec![sp(Ast::Uint(1))])]));
    let r = Compiler::compile(&ast, Interner::new());
    assert!(r.is_err());
    assert_eq!(expect_error(r).kind(), ErrorKind::Compiler);
}

/// The top level must be a module of function definitions.
#[test]
fn malformed_shapes_are_compile_errors() {
    let r = Compiler::compile(&sp(Ast::Uint(1)), Interner::new());
    assert_eq!(expect_error(r).kind(), ErrorKind::Compiler);

    let ast = sp(Ast::Module(vec![sp(Ast::Uint(1))]));
    let r = Compiler::compile(&ast, Interner::new());
    assert_eq!(expect_error(r).kind(), ErrorKind::Compiler);
}

/// An operator the machine does not implement is rejected at compile time.
#[test]
fn unimplemented_operator_is_a_compile_error() {
    let ast = sp(Ast::Module(vec![defn(
        "main",
        vec![],
        vec![binop(sp(Ast::Uint(5)), Operator::Mod, sp(Ast::Uint(3)))],
    )]));
    let r = Compiler::compile(&ast, Interner::new());
    assert_eq!(expect_error(r).kind(), ErrorKind::Compiler);
}

/// A declaring operator cannot target a field path.
#[test]
fn declaring_a_field_path_is_a_compile_error() {
    let place = sp(Ast::Access(Box::new(onilang::ast::Access {
        base: ident("o"),
        field: ident("x"),
    })));
    let ast = sp(Ast::Module(vec![defn(
        "main",
        vec![],
        vec![assign_with(place, Token::DeclAssign, sp(Ast::Uint(1)))],
    )]));
    let r = Compiler::compile(&ast, Interner::new());
    assert_eq!(expect_error(r).kind(), ErrorKind::Compiler);
}

/// A callee must be a name or a field access.
#[test]
fn calling_a_literal_is_a_compile_error() {
    let ast = sp(Ast::Module(vec![defn(
        "main",
        vec![],
        vec![call(sp(Ast::Uint(1)), vec![])],
    )]));
    let r = Compiler::compile(&ast, Interner::new());
    assert_eq!(expect_error(r).kind(), ErrorKind::Compiler);
}

/// A later definition of the same name replaces the earlier one.
#[test]
fn later_definition_wins() {
    let ast = sp(Ast::Module(vec![
        defn("main", vec![], vec![call(ident("print"), vec![sp(Ast::Uint(1))])]),
        defn("main", vec![], vec![call(ident("print"), vec![sp(Ast::Uint(2))])]),
    ]));
    let mut vm = Compiler::compile(&ast, Interner::new()).expect("compiles");
    assert_eq!(vm.eval(1_000).unwrap(), true);
    assert_eq!(vm.output, vec!["Uint(2)".to_string()]);
}

/// Interning is a deduplicating bijection while the interner lives: the
/// same text keeps its handle, different texts get different handles, and
/// every handle resolves back to its text.
#[test]
fn interner_round_trips() {
    let mut interner = Interner::new();
    assert_eq!(interner.len(), 0);
    let a = interner.intern("alpha");
    let b = interner.intern("beta");
    let a2 = interner.intern("alpha");
    assert_eq!(a, a2);
    assert_ne!(a, b);
    assert_eq!(interner.len(), 2);
    assert_eq!(interner.resolve(a), "alpha");
    assert_eq!(interner.resolve(b), "beta");
}

/// Identifiers intern to the same handle wherever they occur, so one slot
/// serves every mention of a name.
#[test]
fn names_share_handles_across_functions() {
    let ast = sp(Ast::Module(vec![
        defn("f", vec![], vec![sp(Ast::Text("shared".to_string()))]),
        defn("main", vec![], vec![call(
            ident("print"),
            vec![sp(Ast::Text("shared".to_string()))],
        )]),
    ]));
    let vm = Compiler::compile(&ast, Interner::new()).expect("compiles");
    // both literals landed in the pool under one handle
    let h0 = match vm.consts[0] {
        ConstValue::Str(h) => h,
        other => panic!("expected a string constant, got {:?}", other),
    };
    let h1 = match vm.consts[1] {
        ConstValue::Str(h) => h,
        other => panic!("expected a string constant, got {:?}", other),
    };
    assert_eq!(h0, h1);
}

/// A span built by merging covers from the first start to the second end.
#[test]
fn span_merge_covers_both() {
    let a = Span::new(2, 5);
    let b = Span::new(7, 11);
    let m = Span::merge(&a, &b);
    assert_eq!((m.start, m.end), (2, 11));
}

/// Errors carry their phase and place.
#[test]
fn error_constructors_tag_the_phase() {
    assert_eq!(Error::parser("p").kind(), ErrorKind::Parser);
    assert_eq!(Error::compiler("c").kind(), ErrorKind::Compiler);
    assert_eq!(Error::eval("e").kind(), ErrorKind::Eval);
    assert_eq!(Error::eval("somewhere").location(), "somewhere");
    assert_eq!(Error::compiler("here").describe(), "Compiler error@here");
}

/// Float values print through the software float's rendering.
#[test]
fn float_printing_matches_the_software_float() {
    let bits = 2.5f64.to_bits();
    let ast = sp(Ast::Module(vec![defn(
        "main",
        vec![],
        vec![call(ident("print"), vec![sp(Ast::Float(bits))])],
    )]));
    let mut vm = Compiler::compile(&ast, Interner::new()).expect("compiles");
    assert_eq!(vm.eval(1_000).unwrap(), true);
    let expected = format!(
        "Float({})",
        rustc_apfloat::ieee::Double::from_bits(bits as u128)
    );
    assert_eq!(vm.output, vec![expected]);
}
