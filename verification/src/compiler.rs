//! The compiler: walks a syntax tree and emits per-function instruction
//! sequences plus a shared constant pool.
//!
//! Each function definition gets a fresh instruction buffer. Parameters are
//! declared immutable and bound by popping the caller's argument pushes,
//! last parameter first; then the body expressions are compiled in order.
//! The finished buffer is frozen into a [`FuncProto`] and recorded in the
//! function table under the function's interned name (a later definition of
//! the same name replaces the earlier one). Compilation fails with a
//! `Compiler` error wherever the tree's shape does not match an expected
//! construct, and when the designated entry point `main` is absent or takes
//! parameters.
//!
//! Every step of the walk is pinned by the spec-level model
//! ([`spec_compile_expr`] and friends): the emitted code, the constant pool
//! and the interner contents are exactly what the model says.
use crate::ast::{Ast, Defn, Operator, Token};
use crate::env::{assoc_get, assoc_has, assoc_index, assoc_put, lemma_assoc_find};
use crate::error::Error;
use crate::intern::{
    intern_handle_spec, intern_strings_spec, Interner, INTERNER_CAPACITY,
};
use crate::eval::{cur_code, spec_vm_init, step_spec, vm_wf, Vm, VmView};
use crate::value::{value_of_const, ConstValue, Handle, Opcode, Value};
use crate::Spanned;
use vstd::prelude::*;

verus! {

/// An immutable compiled function: its instruction sequence, shared by every
/// function value that refers to it through the machine's function table,
/// and the number of parameters it binds.
pub struct FuncProto {
    pub code: Vec<Opcode>,
    pub arity: usize,
}

/// The mathematical shape of a compiled function.
#[verifier::ext_equal]
pub ghost struct FuncProtoView {
    pub code: Seq<Opcode>,
    pub arity: int,
}

impl View for FuncProto {
    type V = FuncProtoView;

    open spec fn view(&self) -> FuncProtoView {
        FuncProtoView { code: self.code@, arity: self.arity as int }
    }
}

/// The state one expression compiles against: the interner's strings, the
/// shared constant pool, and the instruction buffer of the function being
/// compiled.
#[verifier::ext_equal]
pub ghost struct CompState {
    pub strings: Seq<Seq<char>>,
    pub consts: Seq<ConstValue>,
    pub code: Seq<Opcode>,
}

/// Interning inside the model: the store and handle of
/// [`crate::intern::Interner::intern`], or nothing once the interner is at
/// capacity (the compiler refuses to go further there).
pub open spec fn spec_intern(strings: Seq<Seq<char>>, s: Seq<char>) -> Option<
    (Seq<Seq<char>>, Handle),
> {
    if strings.len() >= INTERNER_CAPACITY {
        None
    } else {
        Some((intern_strings_spec(strings, s), intern_handle_spec(strings, s) as Handle))
    }
}

/// The opcode of an arithmetic operator, if the machine implements it.
pub open spec fn spec_arith_opcode(op: Operator) -> Option<Opcode> {
    match op {
        Operator::Add => Some(Opcode::Add),
        Operator::Sub => Some(Opcode::Sub),
        Operator::Mul => Some(Opcode::Mul),
        Operator::Div => Some(Opcode::Div),
        _ => None,
    }
}

/// What compiling one expression does to the compile state, or nothing if
/// the tree's shape is not an expression the compiler accepts:
/// - a literal is appended to the constant pool and pushed by index;
/// - an identifier reads its name;
/// - a field access compiles its base and then loads the field;
/// - an assignment to a name declares it first when its operator says so;
/// - an assignment to a field path navigates to the owning object, compiles
///   the right-hand side and stores into the final field (a declaring
///   operator on a field path is an unresolved declaration target);
/// - a binary operation compiles left then right and appends the opcode;
/// - a call pushes its arguments left to right, then either calls its callee
///   by name or pushes the callee value (a field access) and calls that.
pub open spec fn spec_compile_expr(e: Ast, st: CompState) -> Option<CompState>
    decreases e,
{
    match e {
        Ast::Text(s) => match spec_intern(st.strings, s@) {
            Some((strings, h)) => Some(
                CompState {
                    strings,
                    consts: st.consts.push(ConstValue::Str(h)),
                    code: st.code.push(Opcode::Const(st.consts.len() as usize)),
                },
            ),
            None => None,
        },
        Ast::Uint(u) => Some(
            CompState {
                strings: st.strings,
                consts: st.consts.push(ConstValue::Uint(u)),
                code: st.code.push(Opcode::Const(st.consts.len() as usize)),
            },
        ),
        Ast::Int(i) => Some(
            CompState {
                strings: st.strings,
                consts: st.consts.push(ConstValue::Int(i)),
                code: st.code.push(Opcode::Const(st.consts.len() as usize)),
            },
        ),
        Ast::Float(b) => Some(
            CompState {
                strings: st.strings,
                consts: st.consts.push(ConstValue::Float(b)),
                code: st.code.push(Opcode::Const(st.consts.len() as usize)),
            },
        ),
        Ast::Identifier(name) => match spec_intern(st.strings, name@) {
            Some((strings, h)) => Some(
                CompState {
                    strings,
                    consts: st.consts,
                    code: st.code.push(Opcode::Read(h)),
                },
            ),
            None => None,
        },
        Ast::Access(acc) => match acc.field.inner {
            Ast::Identifier(f) => match spec_compile_expr(acc.base.inner, st) {
                Some(st1) => match spec_intern(st1.strings, f@) {
                    Some((strings, h)) => Some(
                        CompState {
                            strings,
                            consts: st1.consts,
                            code: st1.code.push(Opcode::LoadField(h)),
                        },
                    ),
                    None => None,
                },
                None => None,
            },
            _ => None,
        },
        Ast::BinOp(b) => match spec_arith_opcode(b.op.inner) {
            Some(opc) => match spec_compile_expr(b.lhs.inner, st) {
                Some(st1) => match spec_compile_expr(b.rhs.inner, st1) {
                    Some(st2) => Some(
                        CompState {
                            strings: st2.strings,
                            consts: st2.consts,
                            code: st2.code.push(opc),
                        },
                    ),
                    None => None,
                },
                None => None,
            },
            None => None,
        },
        Ast::Assignment(a) => match a.place.inner {
            Ast::Identifier(name) => match spec_intern(st.strings, name@) {
                Some((strings, h)) => {
                    let declared = match a.assign.inner {
                        Token::ImmutDeclAssign => Some(st.code.push(Opcode::Defslot(h, false))),
                        Token::DeclAssign => Some(st.code.push(Opcode::Defslot(h, true))),
                        Token::Assign => Some(st.code),
                        _ => None,
                    };
                    match declared {
                        Some(code) => match spec_compile_expr(
                            a.expr.inner,
                            CompState { strings, consts: st.consts, code },
                        ) {
                            Some(st1) => Some(
                                CompState {
                                    strings: st1.strings,
                                    consts: st1.consts,
                                    code: st1.code.push(Opcode::Assign(h)),
                                },
                            ),
                            None => None,
                        },
                        None => None,
                    }
                },
                None => None,
            },
            Ast::Access(acc) => {
                if !(a.assign.inner is Assign) {
                    // a declaring operator cannot resolve a field path as
                    // its declaration target
                    None
                } else {
                    match acc.field.inner {
                        Ast::Identifier(f) => match spec_compile_expr(acc.base.inner, st) {
                            Some(st1) => match spec_compile_expr(a.expr.inner, st1) {
                                Some(st2) => match spec_intern(st2.strings, f@) {
                                    Some((strings, h)) => Some(
                                        CompState {
                                            strings,
                                            consts: st2.consts,
                                            code: st2.code.push(Opcode::StoreField(h)),
                                        },
                                    ),
                                    None => None,
                                },
                                None => None,
                            },
                            None => None,
                        },
                        _ => None,
                    }
                }
            },
            _ => None,
        },
        Ast::Call(callee, params) => match params.inner {
            Ast::Paramlist(ps) => match spec_compile_exprs(ps@, st) {
                Some(st1) => match callee.inner {
                    Ast::Identifier(name) => match spec_intern(st1.strings, name@) {
                        Some((strings, h)) => Some(
                            CompState {
                                strings,
                                consts: st1.consts,
                                code: st1.code.push(Opcode::Call(h)),
                            },
                        ),
                        None => None,
                    },
                    Ast::Access(_) => match spec_compile_expr(callee.inner, st1) {
                        Some(st2) => Some(
                            CompState {
                                strings: st2.strings,
                                consts: st2.consts,
                                code: st2.code.push(Opcode::CallValue),
                            },
                        ),
                        None => None,
                    },
                    _ => None,
                },
                None => None,
            },
            _ => None,
        },
        _ => None,
    }
}

/// Compiles a sequence of expressions in order, threading the state.
pub open spec fn spec_compile_exprs(es: Seq<Spanned<Ast>>, st: CompState) -> Option<CompState>
    decreases es,
{
    if es.len() == 0 {
        Some(st)
    } else {
        match spec_compile_exprs(es.drop_last(), st) {
            Some(st1) => spec_compile_expr(es.last().inner, st1),
            None => None,
        }
    }
}

/// One more expression extends a compiled prefix.
pub proof fn lemma_exprs_snoc(es: Seq<Spanned<Ast>>, st: CompState, i: int)
    requires
        0 <= i < es.len(),
    ensures
        spec_compile_exprs(es.subrange(0, i + 1), st) == (match spec_compile_exprs(
            es.subrange(0, i),
            st,
        ) {
            Some(m) => spec_compile_expr(es[i].inner, m),
            None => None,
        }),
{
    let pre = es.subrange(0, i + 1);
    assert(pre.drop_last() =~= es.subrange(0, i));
    assert(pre.last() == es[i]);
}

/// A failed prefix fails the whole sequence.
pub proof fn lemma_exprs_none_sticky(es: Seq<Spanned<Ast>>, st: CompState, i: int)
    requires
        0 <= i <= es.len(),
        spec_compile_exprs(es.subrange(0, i), st) is None,
    ensures
        spec_compile_exprs(es, st) is None,
    decreases es.len() - i,
{
    if i == es.len() {
        assert(es.subrange(0, i) =~= es);
    } else {
        lemma_exprs_snoc(es, st, i);
        lemma_exprs_none_sticky(es, st, i + 1);
    }
}

/// The global compile state: the interner, the shared constant pool, the
/// function table built so far and the name-to-table-index mapping.
#[verifier::ext_equal]
pub ghost struct ModState {
    pub strings: Seq<Seq<char>>,
    pub consts: Seq<ConstValue>,
    pub funcs: Seq<FuncProtoView>,
    pub names: Seq<(Handle, usize)>,
}

/// Checks that every parameter is an identifier and interns each, left to
/// right, returning the handles in parameter order.
pub open spec fn spec_bind_params(args: Seq<Spanned<Ast>>, strings: Seq<Seq<char>>) -> Option<
    (Seq<Seq<char>>, Seq<Handle>),
>
    decreases args,
{
    if args.len() == 0 {
        Some((strings, Seq::empty()))
    } else {
        match spec_bind_params(args.drop_last(), strings) {
            Some((s1, hs)) => match args.last().inner {
                Ast::Identifier(n) => match spec_intern(s1, n@) {
                    Some((s2, h)) => Some((s2, hs.push(h))),
                    None => None,
                },
                _ => None,
            },
            None => None,
        }
    }
}

/// One more parameter extends a bound prefix.
pub proof fn lemma_bind_params_snoc(args: Seq<Spanned<Ast>>, strings: Seq<Seq<char>>, i: int)
    requires
        0 <= i < args.len(),
    ensures
        spec_bind_params(args.subrange(0, i + 1), strings) == (match spec_bind_params(
            args.subrange(0, i),
            strings,
        ) {
            Some((s1, hs)) => match args[i].inner {
                Ast::Identifier(n) => match spec_intern(s1, n@) {
                    Some((s2, h)) => Some((s2, hs.push(h))),
                    None => None,
                },
                _ => None,
            },
            None => None,
        }),
{
    let pre = args.subrange(0, i + 1);
    assert(pre.drop_last() =~= args.subrange(0, i));
    assert(pre.last() == args[i]);
}

/// A failed prefix fails the whole parameter list.
pub proof fn lemma_bind_params_none_sticky(
    args: Seq<Spanned<Ast>>,
    strings: Seq<Seq<char>>,
    i: int,
)
    requires
        0 <= i <= args.len(),
        spec_bind_params(args.subrange(0, i), strings) is None,
    ensures
        spec_bind_params(args, strings) is None,
    decreases args.len() - i,
{
    if i == args.len() {
        assert(args.subrange(0, i) =~= args);
    } else {
        lemma_bind_params_snoc(args, strings, i);
        lemma_bind_params_none_sticky(args, strings, i + 1);
    }
}

/// The instructions that bind a function's parameters at entry: for each
/// parameter, last first, declare its slot immutable and pop the matching
/// argument into it (the caller pushed arguments left to right, so the last
/// argument is on top).
pub open spec fn spec_param_prelude(hs: Seq<Handle>) -> Seq<Opcode> {
    Seq::new(
        2 * hs.len(),
        |i: int|
            {
                let k = hs.len() - 1 - i / 2;
                if i % 2 == 0 {
                    Opcode::Defslot(hs[k], false)
                } else {
                    Opcode::Assign(hs[k])
                }
            },
    )
}

/// What compiling one function definition does to the global state: the
/// definition's name is interned, its parameters are bound, its body is
/// compiled after the parameter prelude, and the frozen function is recorded
/// in the table under the name (replacing any earlier definition of it).
pub open spec fn spec_compile_defn(d: Defn, m: ModState) -> Option<ModState> {
    match d.name.inner {
        Ast::Identifier(nm) => match d.args.inner {
            Ast::Arglist(args) => match spec_intern(m.strings, nm@) {
                Some((s1, hn)) => match spec_bind_params(args@, s1) {
                    Some((s2, hs)) => match spec_compile_exprs(
                        d.body@,
                        CompState { strings: s2, consts: m.consts, code: spec_param_prelude(hs) },
                    ) {
                        Some(st) => Some(
                            ModState {
                                strings: st.strings,
                                consts: st.consts,
                                funcs: m.funcs.push(
                                    FuncProtoView { code: st.code, arity: args@.len() as int },
                                ),
                                names: assoc_put(m.names, hn, m.funcs.len() as usize),
                            },
                        ),
                        None => None,
                    },
                    None => None,
                },
                None => None,
            },
            _ => None,
        },
        _ => None,
    }
}

/// The compiler: the function table being built, the shared constant pool,
/// and the session's interner, mutated strictly in tree order.
pub struct Compiler {
    pub funcs: Vec<FuncProto>,
    pub names: Vec<(Handle, usize)>,
    pub consts: Vec<ConstValue>,
    pub interner: Interner,
}

impl Compiler {
    /// The compile state this compiler is at, for a given instruction
    /// buffer.
    pub open spec fn st(&self, code: Seq<Opcode>) -> CompState {
        CompState { strings: self.interner@, consts: self.consts@, code }
    }

    /// Interns a string, failing once the interner is at capacity.
    fn intern_checked(&mut self, s: &str) -> (r: Result<Handle, Error>)
        requires
            old(self).interner.wf(),
        ensures
            final(self).interner.wf(),
            final(self).funcs == old(self).funcs,
            final(self).names == old(self).names,
            final(self).consts == old(self).consts,
            match r {
                Ok(h) => spec_intern(old(self).interner@, s@) == Some(
                    (final(self).interner@, h),
                ),
                Err(e) => {
                    &&& spec_intern(old(self).interner@, s@) is None
                    &&& *final(self) == *old(self)
                    &&& e.kind_spec() == crate::error::ErrorKind::Compiler
                },
            },
    {
        if self.interner.len() < INTERNER_CAPACITY {
            Ok(self.interner.intern(s))
        } else {
            Err(Error::compiler("the interner is out of handles"))
        }
    }

    /// Compiles one expression into `code`, leaving exactly the effect that
    /// [`spec_compile_expr`] describes on the instruction buffer, the
    /// constant pool and the interner.
    pub fn compile_expr(&mut self, code: &mut Vec<Opcode>, e: &Spanned<Ast>) -> (r: Result<
        (),
        Error,
    >)
        requires
            old(self).interner.wf(),
        ensures
            final(self).interner.wf(),
            final(self).funcs == old(self).funcs,
            final(self).names == old(self).names,
            match r {
                Ok(()) => spec_compile_expr(e.inner, old(self).st(old(code)@)) == Some(
                    final(self).st(final(code)@),
                ),
                Err(err) => {
                    &&& spec_compile_expr(e.inner, old(self).st(old(code)@)) is None
                    &&& err.kind_spec() == crate::error::ErrorKind::Compiler
                },
            },
        decreases e.inner,
    {
        match &e.inner {
            Ast::Text(s) => {
                let h = self.intern_checked(s.as_str())?;
                let idx = self.consts.len();
                self.consts.push(ConstValue::Str(h));
                code.push(Opcode::Const(idx));
                proof {
                    assert(spec_compile_expr(e.inner, old(self).st(old(code)@)) =~= Some(
                        self.st(code@),
                    ));
                }
                Ok(())
            },
            Ast::Uint(u) => {
                let idx = self.consts.len();
                self.consts.push(ConstValue::Uint(*u));
                code.push(Opcode::Const(idx));
                proof {
                    assert(spec_compile_expr(e.inner, old(self).st(old(code)@)) =~= Some(
                        self.st(code@),
                    ));
                }
                Ok(())
            },
            Ast::Int(i) => {
                let idx = self.consts.len();
                self.consts.push(ConstValue::Int(*i));
                code.push(Opcode::Const(idx));
                proof {
                    assert(spec_compile_expr(e.inner, old(self).st(old(code)@)) =~= Some(
                        self.st(code@),
                    ));
                }
                Ok(())
            },
            Ast::Float(b) => {
                let idx = self.consts.len();
                self.consts.push(ConstValue::Float(*b));
                code.push(Opcode::Const(idx));
                proof {
                    assert(spec_compile_expr(e.inner, old(self).st(old(code)@)) =~= Some(
                        self.st(code@),
                    ));
                }
                Ok(())
            },
            Ast::Identifier(name) => {
                let h = self.intern_checked(name.as_str())?;
                code.push(Opcode::Read(h));
                proof {
                    assert(spec_compile_expr(e.inner, old(self).st(old(code)@)) =~= Some(
                        self.st(code@),
                    ));
                }
                Ok(())
            },
            Ast::Access(acc) => {
                match &acc.field.inner {
                    Ast::Identifier(f) => {
                        self.compile_expr(code, &acc.base)?;
                        let h = self.intern_checked(f.as_str())?;
                        code.push(Opcode::LoadField(h));
                        proof {
                            assert(spec_compile_expr(e.inner, old(self).st(old(code)@)) =~= Some(
                                self.st(code@),
                            ));
                        }
                        Ok(())
                    },
                    _ => Err(Error::compiler("a field accessor must be an identifier")),
                }
            },
            Ast::BinOp(b) => {
                let opc = match b.op.inner {
                    Operator::Add => Opcode::Add,
                    Operator::Sub => Opcode::Sub,
                    Operator::Mul => Opcode::Mul,
                    Operator::Div => Opcode::Div,
                    _ => {
                        return Err(Error::compiler("an operator the machine does not implement"));
                    },
                };
                self.compile_expr(code, &b.lhs)?;
                self.compile_expr(code, &b.rhs)?;
                code.push(opc);
                proof {
                    assert(spec_compile_expr(e.inner, old(self).st(old(code)@)) =~= Some(
                        self.st(code@),
                    ));
                }
                Ok(())
            },
            Ast::Assignment(a) => {
                match &a.place.inner {
                    Ast::Identifier(name) => {
                        let h = self.intern_checked(name.as_str())?;
                        match &a.assign.inner {
                            Token::ImmutDeclAssign => code.push(Opcode::Defslot(h, false)),
                            Token::DeclAssign => code.push(Opcode::Defslot(h, true)),
                            Token::Assign => (),
                            _ => {
                                return Err(
                                    Error::compiler("an assignment needs an assignment operator"),
                                );
                            },
                        }
                        self.compile_expr(code, &a.expr)?;
                        code.push(Opcode::Assign(h));
                        proof {
                            assert(spec_compile_expr(e.inner, old(self).st(old(code)@)) =~= Some(
                                self.st(code@),
                            ));
                        }
                        Ok(())
                    },
                    Ast::Access(acc) => {
                        match &a.assign.inner {
                            Token::Assign => (),
                            _ => {
                                return Err(
                                    Error::compiler(
                                        "a declaration cannot target a field path",
                                    ),
                                );
                            },
                        }
                        match &acc.field.inner {
                            Ast::Identifier(f) => {
                                self.compile_expr(code, &acc.base)?;
                                self.compile_expr(code, &a.expr)?;
                                let h = self.intern_checked(f.as_str())?;
                                code.push(Opcode::StoreField(h));
                                proof {
                                    assert(spec_compile_expr(
                                        e.inner,
                                        old(self).st(old(code)@),
                                    ) =~= Some(self.st(code@)));
                                }
                                Ok(())
                            },
                            _ => Err(Error::compiler("a field accessor must be an identifier")),
                        }
                    },
                    _ => Err(Error::compiler("an assignment target must be a name or a field")),
                }
            },
            Ast::Call(callee, params) => {
                let ps = match &params.inner {
                    Ast::Paramlist(ps) => ps,
                    _ => {
                        return Err(Error::compiler("a call needs a parameter list"));
                    },
                };
                let ghost st0 = old(self).st(old(code)@);
                let n = ps.len();
                let mut i: usize = 0;
                #[verifier::loop_isolation(false)]
                while i < n
                    invariant
                        0 <= i <= n,
                        self.interner.wf(),
                        self.funcs == old(self).funcs,
                        self.names == old(self).names,
                        spec_compile_exprs(ps@.subrange(0, i as int), st0) == Some(
                            self.st(code@),
                        ),
                    decreases n - i,
                {
                    proof {
                        assert(ps@.subrange(0, 0) =~= Seq::<Spanned<Ast>>::empty());
                    }
                    let r = self.compile_expr(code, &ps[i]);
                    proof {
                        lemma_exprs_snoc(ps@, st0, i as int);
                    }
                    match r {
                        Ok(()) => (),
                        Err(err) => {
                            proof {
                                lemma_exprs_none_sticky(ps@, st0, i as int + 1);
                            }
                            return Err(err);
                        },
                    }
                    i += 1;
                }
                proof {
                    assert(ps@.subrange(0, n as int) =~= ps@);
                }
                match &callee.inner {
                    Ast::Identifier(name) => {
                        let h = self.intern_checked(name.as_str())?;
                        code.push(Opcode::Call(h));
                        proof {
                            assert(ps@.subrange(0, n as int) =~= ps@);
                            assert(spec_compile_expr(e.inner, old(self).st(old(code)@)) =~= Some(
                                self.st(code@),
                            ));
                        }
                        Ok(())
                    },
                    Ast::Access(_) => {
                        proof {
                            assert(ps@.subrange(0, n as int) =~= ps@);
                        }
                        self.compile_expr(code, callee)?;
                        code.push(Opcode::CallValue);
                        proof {
                            assert(spec_compile_expr(e.inner, old(self).st(old(code)@)) =~= Some(
                                self.st(code@),
                            ));
                        }
                        Ok(())
                    },
                    _ => {
                        proof {
                            assert(ps@.subrange(0, n as int) =~= ps@);
                        }
                        Err(Error::compiler("a callee must be a name or a field access"))
                    },
                }
            },
            _ => Err(Error::compiler("not an expression the machine compiles")),
        }
    }

    /// The global compile state this compiler is at.
    pub open spec fn ms(&self) -> ModState {
        ModState {
            strings: self.interner@,
            consts: self.consts@,
            funcs: Seq::new(self.funcs@.len(), |i: int| self.funcs@[i]@),
            names: self.names@,
        }
    }

    /// Compiles one function definition and records it in the function
    /// table, leaving exactly the effect that [`spec_compile_defn`]
    /// describes.
    pub fn compile_defn(&mut self, d: &Defn) -> (r: Result<(), Error>)
        requires
            old(self).interner.wf(),
        ensures
            final(self).interner.wf(),
            match r {
                Ok(()) => spec_compile_defn(*d, old(self).ms()) == Some(final(self).ms()),
                Err(err) => {
                    &&& spec_compile_defn(*d, old(self).ms()) is None
                    &&& err.kind_spec() == crate::error::ErrorKind::Compiler
                },
            },
    {
        let name = match &d.name.inner {
            Ast::Identifier(name) => name,
            _ => {
                return Err(Error::compiler("a function name must be an identifier"));
            },
        };
        let args = match &d.args.inner {
            Ast::Arglist(args) => args,
            _ => {
                return Err(Error::compiler("a function needs an argument list"));
            },
        };
        let hn = self.intern_checked(name.as_str())?;
        let ghost s1 = self.interner@;

        // Intern the parameter names, left to right.
        let mut hs: Vec<Handle> = Vec::new();
        let n = args.len();
        let mut i: usize = 0;
        #[verifier::loop_isolation(false)]
        while i < n
            invariant
                0 <= i <= n,
                self.interner.wf(),
                self.funcs == old(self).funcs,
                self.names == old(self).names,
                self.consts == old(self).consts,
                hs@.len() == i,
                spec_bind_params(args@.subrange(0, i as int), s1) == Some((self.interner@, hs@)),
            decreases n - i,
        {
            proof {
                assert(args@.subrange(0, 0) =~= Seq::<Spanned<Ast>>::empty());
            }
            let nm = match &args[i].inner {
                Ast::Identifier(nm) => nm,
                _ => {
                    proof {
                        lemma_bind_params_snoc(args@, s1, i as int);
                        lemma_bind_params_none_sticky(args@, s1, i as int + 1);
                    }
                    return Err(Error::compiler("a parameter must be an identifier"));
                },
            };
            let r = self.intern_checked(nm.as_str());
            proof {
                lemma_bind_params_snoc(args@, s1, i as int);
            }
            match r {
                Ok(h) => hs.push(h),
                Err(err) => {
                    proof {
                        lemma_bind_params_none_sticky(args@, s1, i as int + 1);
                    }
                    return Err(err);
                },
            }
            i += 1;
        }
        proof {
            assert(args@.subrange(0, n as int) =~= args@);
        }
        let ghost s2 = self.interner@;

        // Emit the parameter-binding prelude, last parameter first.
        let mut fcode: Vec<Opcode> = Vec::new();
        let mut k: usize = 0;
        #[verifier::loop_isolation(false)]
        while k < n
            invariant
                0 <= k <= n,
                n == hs@.len(),
                fcode@ =~= spec_param_prelude(hs@).subrange(0, 2 * (k as int)),
            decreases n - k,
        {
            let h = hs[n - 1 - k];
            fcode.push(Opcode::Defslot(h, false));
            fcode.push(Opcode::Assign(h));
            proof {
                assert(fcode@ =~= spec_param_prelude(hs@).subrange(0, 2 * (k as int) + 2));
            }
            k += 1;
        }
        proof {
            assert(fcode@ =~= spec_param_prelude(hs@));
        }

        // Compile the body expressions in order.
        let ghost st0 = CompState { strings: s2, consts: self.consts@, code: fcode@ };
        let nb = d.body.len();
        let mut j: usize = 0;
        #[verifier::loop_isolation(false)]
        while j < nb
            invariant
                0 <= j <= nb,
                self.interner.wf(),
                self.funcs == old(self).funcs,
                self.names == old(self).names,
                spec_compile_exprs(d.body@.subrange(0, j as int), st0) == Some(
                    self.st(fcode@),
                ),
            decreases nb - j,
        {
            proof {
                assert(d.body@.subrange(0, 0) =~= Seq::<Spanned<Ast>>::empty());
            }
            let r = self.compile_expr(&mut fcode, &d.body[j]);
            proof {
                lemma_exprs_snoc(d.body@, st0, j as int);
            }
            match r {
                Ok(()) => (),
                Err(err) => {
                    proof {
                        lemma_exprs_none_sticky(d.body@, st0, j as int + 1);
                    }
                    return Err(err);
                },
            }
            j += 1;
        }
        proof {
            assert(d.body@.subrange(0, nb as int) =~= d.body@);
        }

        // Freeze the buffer and record it under the function's name.
        let idx = self.funcs.len();
        self.funcs.push(FuncProto { code: fcode, arity: n });
        match assoc_index(&self.names, hn) {
            Some(p) => {
                self.names[p] = (hn, idx);
                proof {
                    assert(self.names@ =~= assoc_put(old(self).names@, hn, idx));
                }
            },
            None => {
                self.names.push((hn, idx));
                proof {
                    assert(self.names@ =~= assoc_put(old(self).names@, hn, idx));
                }
            },
        }
        proof {
            assert(self.ms().funcs =~= old(self).ms().funcs.push(
                FuncProtoView { code: fcode@, arity: n as int },
            ));
            assert(spec_compile_defn(*d, old(self).ms()) =~= Some(self.ms()));
        }
        Ok(())
    }
}

/// Compiles a module's items in order; each must be a function definition.
pub open spec fn spec_compile_items(items: Seq<Spanned<Ast>>, m: ModState) -> Option<ModState>
    decreases items,
{
    if items.len() == 0 {
        Some(m)
    } else {
        match spec_compile_items(items.drop_last(), m) {
            Some(m1) => match items.last().inner {
                Ast::Defn(d) => spec_compile_defn(*d, m1),
                _ => None,
            },
            None => None,
        }
    }
}

/// One more item extends a compiled prefix.
pub proof fn lemma_items_snoc(items: Seq<Spanned<Ast>>, m: ModState, i: int)
    requires
        0 <= i < items.len(),
    ensures
        spec_compile_items(items.subrange(0, i + 1), m) == (match spec_compile_items(
            items.subrange(0, i),
            m,
        ) {
            Some(m1) => match items[i].inner {
                Ast::Defn(d) => spec_compile_defn(*d, m1),
                _ => None,
            },
            None => None,
        }),
{
    let pre = items.subrange(0, i + 1);
    assert(pre.drop_last() =~= items.subrange(0, i));
    assert(pre.last() == items[i]);
}

/// A failed prefix fails the whole module.
pub proof fn lemma_items_none_sticky(items: Seq<Spanned<Ast>>, m: ModState, i: int)
    requires
        0 <= i <= items.len(),
        spec_compile_items(items.subrange(0, i), m) is None,
    ensures
        spec_compile_items(items, m) is None,
    decreases items.len() - i,
{
    if i == items.len() {
        assert(items.subrange(0, i) =~= items);
    } else {
        lemma_items_snoc(items, m, i);
        lemma_items_none_sticky(items, m, i + 1);
    }
}

/// The whole session: the tree must be a module of definitions; after the
/// items, `main` must name a compiled function of no parameters, and the
/// machine is initialised at it (built-ins seeded into the root scope).
pub open spec fn spec_compile_session(ast: Ast, strings: Seq<Seq<char>>) -> Option<VmView> {
    match ast {
        Ast::Module(items) => match spec_compile_items(
            items@,
            ModState {
                strings,
                consts: Seq::empty(),
                funcs: Seq::empty(),
                names: Seq::empty(),
            },
        ) {
            Some(m) => match spec_intern(m.strings, "main"@) {
                Some((s1, hm)) => {
                    if assoc_has(m.names, hm) {
                        let idx = assoc_get(m.names, hm);
                        if idx < m.funcs.len() && m.funcs[idx as int].arity == 0 {
                            spec_vm_init(
                                ModState {
                                    strings: s1,
                                    consts: m.consts,
                                    funcs: m.funcs,
                                    names: m.names,
                                },
                                idx as int,
                            )
                        } else {
                            None
                        }
                    } else {
                        None
                    }
                },
                None => None,
            },
            None => None,
        },
        _ => None,
    }
}

impl Compiler {
    /// Compiles a syntax tree into a ready-to-run machine: every definition
    /// becomes a table entry, the entry point is the function named `main`
    /// (its absence, or parameters on it, are compile-time failures), and
    /// the machine starts at its first instruction. Succeeds exactly when
    /// [`spec_compile_session`] does, and then returns exactly the machine
    /// it describes.
    pub fn compile(ast: &Spanned<Ast>, interner: Interner) -> (r: Result<Vm, Error>)
        requires
            interner.wf(),
        ensures
            match r {
                Ok(vm) => {
                    &&& spec_compile_session(ast.inner, interner@) == Some(vm@)
                    &&& vm_wf(vm@)
                    &&& vm.interner.wf()
                },
                Err(e) => spec_compile_session(ast.inner, interner@) is None,
            },
    {
        let items = match &ast.inner {
            Ast::Module(items) => items,
            _ => {
                return Err(Error::compiler("the top level must be a module"));
            },
        };
        let mut this = Compiler {
            funcs: Vec::new(),
            names: Vec::new(),
            consts: Vec::new(),
            interner,
        };
        let ghost m0 = ModState {
            strings: this.interner@,
            consts: Seq::empty(),
            funcs: Seq::empty(),
            names: Seq::empty(),
        };
        proof {
            assert(this.ms() =~= m0);
        }
        let n = items.len();
        let mut i: usize = 0;
        #[verifier::loop_isolation(false)]
        while i < n
            invariant
                0 <= i <= n,
                this.interner.wf(),
                spec_compile_items(items@.subrange(0, i as int), m0) == Some(this.ms()),
            decreases n - i,
        {
            proof {
                assert(items@.subrange(0, 0) =~= Seq::<Spanned<Ast>>::empty());
            }
            let d = match &items[i].inner {
                Ast::Defn(d) => d,
                _ => {
                    proof {
                        lemma_items_snoc(items@, m0, i as int);
                        lemma_items_none_sticky(items@, m0, i as int + 1);
                    }
                    return Err(Error::compiler("a top-level item must be a function definition"));
                },
            };
            let r = this.compile_defn(d);
            proof {
                lemma_items_snoc(items@, m0, i as int);
            }
            match r {
                Ok(()) => (),
                Err(err) => {
                    proof {
                        lemma_items_none_sticky(items@, m0, i as int + 1);
                    }
                    return Err(err);
                },
            }
            i += 1;
        }
        proof {
            assert(items@.subrange(0, n as int) =~= items@);
        }

        // Resolve the entry point.
        let hm = this.intern_checked("main")?;
        proof {
            lemma_assoc_find(this.names@, hm);
        }
        let p = match assoc_index(&this.names, hm) {
            Some(p) => p,
            None => {
                return Err(Error::compiler("no function named main"));
            },
        };
        let idx = this.names[p].1;
        if idx >= this.funcs.len() {
            return Err(Error::compiler("main does not name a compiled function"));
        }
        if this.funcs[idx].arity != 0 {
            return Err(Error::compiler("main must take no parameters"));
        }
        let Compiler { funcs, names, consts, interner } = this;
        Vm::new(funcs, names, idx, consts, interner)
    }
}

/// Every constant index the instruction sequence mentions is below `n`.
pub open spec fn code_consts_ok(code: Seq<Opcode>, n: int) -> bool {
    forall|k: int|
        0 <= k < code.len() && (#[trigger] code[k]) is Const ==> (code[k]->Const_0 as int) < n
}

/// Every function in the table mentions only indices the pool has.
pub open spec fn mod_pool_ok(m: ModState) -> bool {
    forall|j: int|
        0 <= j < m.funcs.len() ==> code_consts_ok((#[trigger] m.funcs[j]).code, m.consts.len() as int)
}

/// Valid indices stay valid under a longer pool.
proof fn lemma_code_consts_mono(code: Seq<Opcode>, n1: int, n2: int)
    requires
        code_consts_ok(code, n1),
        n1 <= n2,
    ensures
        code_consts_ok(code, n2),
{
}

/// Appending an instruction keeps the indices valid if the new one is.
proof fn lemma_code_consts_push(code: Seq<Opcode>, n: int, op: Opcode)
    requires
        code_consts_ok(code, n),
        op is Const ==> (op->Const_0 as int) < n,
    ensures
        code_consts_ok(code.push(op), n),
{
    let c2 = code.push(op);
    assert forall|k: int|
        0 <= k < c2.len() && (#[trigger] c2[k]) is Const implies (c2[k]->Const_0 as int) < n by {
        if k < code.len() {
            assert(c2[k] == code[k]);
        } else {
            assert(c2[k] == op);
        }
    }
}

/// The pool invariant of compilation, expression by expression: the pool
/// only grows, and the emitted code mentions only indices the grown pool
/// has.
pub proof fn lemma_expr_pool_validity(e: Ast, st: CompState)
    requires
        spec_compile_expr(e, st) is Some,
        code_consts_ok(st.code, st.consts.len() as int),
    ensures
        ({
            let st1 = spec_compile_expr(e, st)->Some_0;
            &&& st.consts.len() <= st1.consts.len()
            &&& code_consts_ok(st1.code, st1.consts.len() as int)
        }),
    decreases e,
{
    let st1 = spec_compile_expr(e, st)->Some_0;
    match e {
        Ast::Text(_) | Ast::Uint(_) | Ast::Int(_) | Ast::Float(_) => {
            lemma_code_consts_mono(st.code, st.consts.len() as int, st1.consts.len() as int);
            lemma_code_consts_push(
                st.code,
                st1.consts.len() as int,
                Opcode::Const(st.consts.len() as usize),
            );
        },
        Ast::Identifier(_) => {
            lemma_code_consts_push(st.code, st.consts.len() as int, st1.code.last());
        },
        Ast::Access(acc) => {
            lemma_expr_pool_validity(acc.base.inner, st);
            let stb = spec_compile_expr(acc.base.inner, st)->Some_0;
            lemma_code_consts_push(stb.code, stb.consts.len() as int, st1.code.last());
        },
        Ast::BinOp(b) => {
            lemma_expr_pool_validity(b.lhs.inner, st);
            let stl = spec_compile_expr(b.lhs.inner, st)->Some_0;
            lemma_expr_pool_validity(b.rhs.inner, stl);
            let str_ = spec_compile_expr(b.rhs.inner, stl)->Some_0;
            lemma_code_consts_push(str_.code, str_.consts.len() as int, st1.code.last());
        },
        Ast::Assignment(a) => {
            match a.place.inner {
                Ast::Identifier(name) => {
                    let strings = spec_intern(st.strings, name@)->Some_0.0;
                    let code = match a.assign.inner {
                        Token::ImmutDeclAssign => st.code.push(
                            Opcode::Defslot(spec_intern(st.strings, name@)->Some_0.1, false),
                        ),
                        Token::DeclAssign => st.code.push(
                            Opcode::Defslot(spec_intern(st.strings, name@)->Some_0.1, true),
                        ),
                        _ => st.code,
                    };
                    lemma_code_consts_push(st.code, st.consts.len() as int, Opcode::CallValue);
                    assert(code_consts_ok(code, st.consts.len() as int)) by {
                        if code != st.code {
                            lemma_code_consts_push(st.code, st.consts.len() as int, code.last());
                            assert(code =~= st.code.push(code.last()));
                        }
                    }
                    let stm = CompState { strings, consts: st.consts, code };
                    lemma_expr_pool_validity(a.expr.inner, stm);
                    let ste = spec_compile_expr(a.expr.inner, stm)->Some_0;
                    lemma_code_consts_push(ste.code, ste.consts.len() as int, st1.code.last());
                },
                Ast::Access(acc) => {
                    lemma_expr_pool_validity(acc.base.inner, st);
                    let stb = spec_compile_expr(acc.base.inner, st)->Some_0;
                    lemma_expr_pool_validity(a.expr.inner, stb);
                    let ste = spec_compile_expr(a.expr.inner, stb)->Some_0;
                    lemma_code_consts_push(ste.code, ste.consts.len() as int, st1.code.last());
                },
                _ => {},
            }
        },
        Ast::Call(callee, params) => {
            match params.inner {
                Ast::Paramlist(ps) => {
                    lemma_exprs_pool_validity(ps@, st);
                    let stp = spec_compile_exprs(ps@, st)->Some_0;
                    match callee.inner {
                        Ast::Identifier(_) => {
                            lemma_code_consts_push(
                                stp.code,
                                stp.consts.len() as int,
                                st1.code.last(),
                            );
                        },
                        Ast::Access(_) => {
                            lemma_expr_pool_validity(callee.inner, stp);
                            let stc = spec_compile_expr(callee.inner, stp)->Some_0;
                            lemma_code_consts_push(
                                stc.code,
                                stc.consts.len() as int,
                                Opcode::CallValue,
                            );
                        },
                        _ => {},
                    }
                },
                _ => {},
            }
        },
        _ => {},
    }
}

/// The pool invariant over a sequence of expressions.
pub proof fn lemma_exprs_pool_validity(es: Seq<Spanned<Ast>>, st: CompState)
    requires
        spec_compile_exprs(es, st) is Some,
        code_consts_ok(st.code, st.consts.len() as int),
    ensures
        ({
            let st1 = spec_compile_exprs(es, st)->Some_0;
            &&& st.consts.len() <= st1.consts.len()
            &&& code_consts_ok(st1.code, st1.consts.len() as int)
        }),
    decreases es,
{
    if es.len() > 0 {
        lemma_exprs_pool_validity(es.drop_last(), st);
        let st1 = spec_compile_exprs(es.drop_last(), st)->Some_0;
        lemma_expr_pool_validity(es.last().inner, st1);
    }
}

/// The parameter prelude mentions no constant at all.
proof fn lemma_prelude_pool_validity(hs: Seq<Handle>, n: int)
    ensures
        code_consts_ok(spec_param_prelude(hs), n),
{
}

/// The pool invariant through one definition: the whole table stays valid
/// against the grown pool.
pub proof fn lemma_defn_pool_validity(d: Defn, m: ModState)
    requires
        spec_compile_defn(d, m) is Some,
        mod_pool_ok(m),
    ensures
        ({
            let m1 = spec_compile_defn(d, m)->Some_0;
            &&& m.consts.len() <= m1.consts.len()
            &&& mod_pool_ok(m1)
        }),
{
    let m1 = spec_compile_defn(d, m)->Some_0;
    let nm = d.name.inner->Identifier_0;
    let args = d.args.inner->Arglist_0;
    let s1 = spec_intern(m.strings, nm@)->Some_0.0;
    let (s2, hs) = spec_bind_params(args@, s1)->Some_0;
    let st0 = CompState { strings: s2, consts: m.consts, code: spec_param_prelude(hs) };
    lemma_prelude_pool_validity(hs, m.consts.len() as int);
    lemma_exprs_pool_validity(d.body@, st0);
    let st1 = spec_compile_exprs(d.body@, st0)->Some_0;
    assert forall|j: int|
        0 <= j < m1.funcs.len() implies code_consts_ok(
        (#[trigger] m1.funcs[j]).code,
        m1.consts.len() as int,
    ) by {
        if j < m.funcs.len() {
            assert(m1.funcs[j] == m.funcs[j]);
            lemma_code_consts_mono(m.funcs[j].code, m.consts.len() as int, m1.consts.len() as int);
        } else {
            assert(m1.funcs[j].code == st1.code);
        }
    }
}

/// The pool invariant through a module's items.
pub proof fn lemma_items_pool_validity(items: Seq<Spanned<Ast>>, m: ModState)
    requires
        spec_compile_items(items, m) is Some,
        mod_pool_ok(m),
    ensures
        ({
            let m1 = spec_compile_items(items, m)->Some_0;
            &&& m.consts.len() <= m1.consts.len()
            &&& mod_pool_ok(m1)
        }),
    decreases items,
{
    if items.len() > 0 {
        lemma_items_pool_validity(items.drop_last(), m);
        let m1 = spec_compile_items(items.drop_last(), m)->Some_0;
        match items.last().inner {
            Ast::Defn(d) => {
                lemma_defn_pool_validity(*d, m1);
            },
            _ => {},
        }
    }
}

/// The data-model invariant a successful compilation establishes: every
/// constant-pool index mentioned by any compiled function is inside the
/// machine's pool. Execution preserves it, since no instruction touches the
/// function table or the pool (see the machine's step relation).
pub proof fn lemma_session_pool_validity(ast: Ast, strings: Seq<Seq<char>>)
    requires
        spec_compile_session(ast, strings) is Some,
    ensures
        ({
            let vmv = spec_compile_session(ast, strings)->Some_0;
            forall|j: int|
                0 <= j < vmv.funcs.len() ==> code_consts_ok(
                    (#[trigger] vmv.funcs[j]).code,
                    vmv.consts.len() as int,
                )
        }),
{
    let items = ast->Module_0;
    let m0 = ModState {
        strings,
        consts: Seq::empty(),
        funcs: Seq::empty(),
        names: Seq::empty(),
    };
    lemma_items_pool_validity(items@, m0);
}

/// Whether a node is a literal expression.
pub open spec fn is_literal(e: Ast) -> bool {
    e is Uint || e is Int || e is Float || e is Text
}

/// Whether a runtime value equals a literal under the value model's
/// equality: numerically for the numeric literals, and through the interner
/// for a string literal (the value is a handle whose text is the literal).
pub open spec fn literal_matches(val: Value, e: Ast, strings: Seq<Seq<char>>) -> bool {
    match e {
        Ast::Uint(u) => val == Value::Uint(u),
        Ast::Int(i) => val == Value::Int(i),
        Ast::Float(b) => val == Value::Float(b),
        Ast::Text(s) => match val {
            Value::Str(h) => h < strings.len() && strings[h as int] == s@,
            _ => false,
        },
        _ => false,
    }
}

/// Constant-pool round trip: compiling a literal appends one pool entry and
/// pushes it by index, and a machine that then executes that instruction
/// over that pool pushes a value equal to the original literal under the
/// value model's equality.
pub proof fn lemma_const_round_trip(e: Ast, st: CompState, v: VmView)
    requires
        is_literal(e),
        spec_compile_expr(e, st) is Some,
        st.consts.len() < usize::MAX,
        0 <= v.ip < cur_code(v).len(),
        cur_code(v)[v.ip] == Opcode::Const(st.consts.len() as usize),
        v.consts == spec_compile_expr(e, st)->Some_0.consts,
        v.strings == spec_compile_expr(e, st)->Some_0.strings,
    ensures
        ({
            let st1 = spec_compile_expr(e, st)->Some_0;
            &&& st1.code == st.code.push(Opcode::Const(st.consts.len() as usize))
            &&& st1.consts == st.consts.push(st1.consts.last())
        }),
        step_spec(v) is Next,
        step_spec(v)->Next_0.stack == v.stack.push(
            value_of_const(v.consts[st.consts.len() as int]),
        ),
        literal_matches(value_of_const(v.consts[st.consts.len() as int]), e, v.strings),
{
    let st1 = spec_compile_expr(e, st)->Some_0;
    if e is Text {
        let s = e->Text_0;
        crate::intern::lemma_find_str(st.strings, s@);
    }
}

} // verus!
