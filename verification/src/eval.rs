//! The virtual machine: a fetch-execute loop over the compiled instruction
//! stream, with an explicit call-frame stack.
//!
//! State: the operand stack, the instruction pointer and current function,
//! the function table, the constant pool, the environment chain, the object
//! heap, and the output produced by `print`. Each step decodes the
//! instruction at the pointer, applies its effect, and advances (branching
//! instructions set the pointer instead). When the pointer reaches the end
//! of the current sequence the machine returns to the calling frame, or
//! halts if none is left.
//!
//! Invoking a compiled function saves the caller's function, return address
//! and scope on the frame stack and switches to the callee with a fresh
//! scope parented to the root scope (lexical scoping is per function, not
//! per call site); returning restores the caller and leaves the callee's
//! final stack value, if any, as the call's result. Native functions run
//! synchronously, popping their own arguments.
//!
//! Every step is pinned by [`step_spec`], the machine's small-step
//! semantics; [`Vm::eval`] is pinned by [`run_spec`], its bounded iteration.
//! A run either completes, fails with an `Eval` error, or reports that its
//! step budget ran out, in which case the caller may simply run on.
use crate::compiler::{FuncProto, FuncProtoView, ModState};
use crate::env::{
    assign_spec, assoc_distinct, assoc_get, assoc_has, assoc_index, assoc_put, declare_spec,
    env_wf, lemma_assoc_find, lemma_assoc_put, read_spec, Env, EnvView, ScopeView,
};
use crate::error::{Error, ErrorKind};
use crate::intern::{Interner, INTERNER_CAPACITY};
use crate::repr::{render_value, repr_spec};
use crate::value::{
    arith_eval, arith_spec, value_of_const, ConstValue, Handle, NativeId, Opcode, RuntimeFunc,
    Value,
};
use vstd::prelude::*;

verus! {

/// A saved execution context: the calling function, the address to resume
/// at, and the caller's scope. Pushed on invocation, popped on return.
#[derive(Clone, Copy, PartialEq, Eq, Structural, Debug)]
pub struct Frame {
    pub func: usize,
    pub ip: usize,
    pub scope: usize,
}

/// The mathematical shape of the whole machine.
#[verifier::ext_equal]
pub ghost struct VmView {
    pub stack: Seq<Value>,
    pub env: EnvView,
    pub funcs: Seq<FuncProtoView>,
    pub cur_fn: int,
    pub ip: int,
    pub frames: Seq<Frame>,
    pub consts: Seq<ConstValue>,
    pub heap: Seq<Seq<(Handle, Value)>>,
    pub strings: Seq<Seq<char>>,
    pub output: Seq<Seq<char>>,
}

/// The virtual machine.
pub struct Vm {
    pub interner: Interner,
    pub env: Env,
    pub stack: Vec<Value>,
    pub funcs: Vec<FuncProto>,
    pub cur_fn: usize,
    pub ip: usize,
    pub frames: Vec<Frame>,
    pub consts: Vec<ConstValue>,
    pub heap: Vec<Vec<(Handle, Value)>>,
    pub output: Vec<String>,
}

impl View for Vm {
    type V = VmView;

    open spec fn view(&self) -> VmView {
        VmView {
            stack: self.stack@,
            env: self.env@,
            funcs: Seq::new(self.funcs@.len(), |i: int| self.funcs@[i]@),
            cur_fn: self.cur_fn as int,
            ip: self.ip as int,
            frames: self.frames@,
            consts: self.consts@,
            heap: Seq::new(self.heap@.len(), |i: int| self.heap@[i]@),
            strings: self.interner@,
            output: Seq::new(self.output@.len(), |i: int| self.output@[i]@),
        }
    }
}

/// The instruction sequence the machine is currently executing.
pub open spec fn cur_code(v: VmView) -> Seq<Opcode> {
    v.funcs[v.cur_fn].code
}

/// A well-formed machine: a well-formed environment, the current function
/// and every saved frame in range, and distinct field keys in every heap
/// object. [`Vm::step`] preserves this.
pub open spec fn vm_wf(v: VmView) -> bool {
    &&& env_wf(v.env)
    &&& 0 <= v.cur_fn < v.funcs.len()
    &&& forall|i: int|
        0 <= i < v.frames.len() ==> (#[trigger] v.frames[i]).func < v.funcs.len()
            && v.frames[i].scope < v.env.scopes.len()
    &&& forall|i: int| 0 <= i < v.heap.len() ==> assoc_distinct(#[trigger] v.heap[i])
}

/// The outcome of one step: the next state, a normal halt, or a failure
/// (which aborts the run and leaves the machine state unspecified).
#[verifier::ext_equal]
pub ghost enum StepRes {
    Next(VmView),
    Halt,
    Fail,
}

/// What invoking a callable does: a native runs synchronously (`print` pops
/// one value and appends its rendering to the output; `object` allocates an
/// empty object and pushes a reference to it); a compiled function pushes a
/// return frame, opens a fresh scope parented to the root scope and jumps to
/// the callee's first instruction. Invoking a reference to a function the
/// table does not have fails.
pub open spec fn invoke_spec(v: VmView, rf: RuntimeFunc) -> StepRes {
    match rf {
        RuntimeFunc::Native(NativeId::Print) => {
            if v.stack.len() == 0 {
                StepRes::Fail
            } else {
                match repr_spec(v.stack.last(), v.strings) {
                    Some(line) => StepRes::Next(
                        VmView {
                            stack: v.stack.drop_last(),
                            output: v.output.push(line),
                            ip: v.ip + 1,
                            ..v
                        },
                    ),
                    None => StepRes::Fail,
                }
            }
        },
        RuntimeFunc::Native(NativeId::ObjectNew) => StepRes::Next(
            VmView {
                stack: v.stack.push(Value::Object(v.heap.len() as usize)),
                heap: v.heap.push(Seq::empty()),
                ip: v.ip + 1,
                ..v
            },
        ),
        RuntimeFunc::Virtual(i) => {
            if i < v.funcs.len() {
                StepRes::Next(
                    VmView {
                        frames: v.frames.push(
                            Frame {
                                func: v.cur_fn as usize,
                                ip: (v.ip + 1) as usize,
                                scope: v.env.cur as usize,
                            },
                        ),
                        env: EnvView {
                            scopes: v.env.scopes.push(
                                ScopeView { parent: Some(0), binds: Seq::empty() },
                            ),
                            cur: v.env.scopes.len() as int,
                        },
                        cur_fn: i as int,
                        ip: 0,
                        ..v
                    },
                )
            } else {
                StepRes::Fail
            }
        },
    }
}

/// The machine's small-step semantics: the exact effect of executing at the
/// current instruction pointer, following the opcode table of this module's
/// documentation. At the end of the current sequence the machine pops a
/// return frame, or halts when none is left.
pub open spec fn step_spec(v: VmView) -> StepRes {
    if !(0 <= v.ip < cur_code(v).len()) {
        if v.frames.len() == 0 {
            StepRes::Halt
        } else {
            let f = v.frames.last();
            StepRes::Next(
                VmView {
                    frames: v.frames.drop_last(),
                    cur_fn: f.func as int,
                    ip: f.ip as int,
                    env: EnvView { scopes: v.env.scopes, cur: f.scope as int },
                    ..v
                },
            )
        }
    } else {
        match cur_code(v)[v.ip] {
            Opcode::Const(i) => {
                if i < v.consts.len() {
                    StepRes::Next(
                        VmView {
                            stack: v.stack.push(value_of_const(v.consts[i as int])),
                            ip: v.ip + 1,
                            ..v
                        },
                    )
                } else {
                    StepRes::Fail
                }
            },
            Opcode::Defslot(h, mutable) => match declare_spec(v.env, h, mutable) {
                Some(e) => StepRes::Next(VmView { env: e, ip: v.ip + 1, ..v }),
                None => StepRes::Fail,
            },
            Opcode::Assign(h) => {
                if v.stack.len() == 0 {
                    StepRes::Fail
                } else {
                    match assign_spec(v.env, h, v.stack.last()) {
                        Some(e) => StepRes::Next(
                            VmView { stack: v.stack.drop_last(), env: e, ip: v.ip + 1, ..v },
                        ),
                        None => StepRes::Fail,
                    }
                }
            },
            Opcode::Read(h) => match read_spec(v.env, h) {
                Some(val) => StepRes::Next(
                    VmView { stack: v.stack.push(val), ip: v.ip + 1, ..v },
                ),
                None => StepRes::Fail,
            },
            Opcode::LoadField(f) => {
                if v.stack.len() == 0 {
                    StepRes::Fail
                } else {
                    match v.stack.last() {
                        Value::Object(i) => {
                            if i < v.heap.len() && assoc_has(v.heap[i as int], f) {
                                StepRes::Next(
                                    VmView {
                                        stack: v.stack.drop_last().push(
                                            assoc_get(v.heap[i as int], f),
                                        ),
                                        ip: v.ip + 1,
                                        ..v
                                    },
                                )
                            } else {
                                StepRes::Fail
                            }
                        },
                        _ => StepRes::Fail,
                    }
                }
            },
            Opcode::StoreField(f) => {
                if v.stack.len() < 2 {
                    StepRes::Fail
                } else {
                    let val = v.stack.last();
                    match v.stack[v.stack.len() - 2] {
                        Value::Object(i) => {
                            if i < v.heap.len() {
                                StepRes::Next(
                                    VmView {
                                        stack: v.stack.drop_last().drop_last(),
                                        heap: v.heap.update(
                                            i as int,
                                            assoc_put(v.heap[i as int], f, val),
                                        ),
                                        ip: v.ip + 1,
                                        ..v
                                    },
                                )
                            } else {
                                StepRes::Fail
                            }
                        },
                        _ => StepRes::Fail,
                    }
                }
            },
            Opcode::Call(h) => match read_spec(v.env, h) {
                Some(Value::Func(rf)) => invoke_spec(v, rf),
                _ => StepRes::Fail,
            },
            Opcode::CallValue => {
                if v.stack.len() == 0 {
                    StepRes::Fail
                } else {
                    match v.stack.last() {
                        Value::Func(rf) => invoke_spec(
                            VmView { stack: v.stack.drop_last(), ..v },
                            rf,
                        ),
                        _ => StepRes::Fail,
                    }
                }
            },
            Opcode::Jump(t) => StepRes::Next(VmView { ip: t as int, ..v }),
            Opcode::JumpIfZero(t) => {
                if v.stack.len() == 0 {
                    StepRes::Fail
                } else {
                    match v.stack.last() {
                        Value::Uint(x) => StepRes::Next(
                            VmView {
                                stack: v.stack.drop_last(),
                                ip: if x == 0 {
                                    t as int
                                } else {
                                    v.ip + 1
                                },
                                ..v
                            },
                        ),
                        Value::Int(x) => StepRes::Next(
                            VmView {
                                stack: v.stack.drop_last(),
                                ip: if x == 0 {
                                    t as int
                                } else {
                                    v.ip + 1
                                },
                                ..v
                            },
                        ),
                        _ => StepRes::Fail,
                    }
                }
            },
            op => {
                // the arithmetic opcodes
                if v.stack.len() < 2 {
                    StepRes::Fail
                } else {
                    match arith_spec(op, v.stack[v.stack.len() - 2], v.stack.last()) {
                        Some(res) => StepRes::Next(
                            VmView {
                                stack: v.stack.drop_last().drop_last().push(res),
                                ip: v.ip + 1,
                                ..v
                            },
                        ),
                        None => StepRes::Fail,
                    }
                }
            },
        }
    }
}

/// Iterating the machine for at most `n` steps: the state still running,
/// the state it halted in, or a failure.
#[verifier::ext_equal]
pub ghost enum RunRes {
    Running(VmView),
    Halted(VmView),
    Failed,
}

/// The result of at most `n` steps from `v`.
pub open spec fn run_spec(v: VmView, n: nat) -> RunRes
    decreases n,
{
    if n == 0 {
        RunRes::Running(v)
    } else {
        match step_spec(v) {
            StepRes::Halt => RunRes::Halted(v),
            StepRes::Fail => RunRes::Failed,
            StepRes::Next(v2) => run_spec(v2, (n - 1) as nat),
        }
    }
}

/// No instruction touches the function table or the constant pool: the
/// code and the constants a machine starts with are the code and the
/// constants it runs on to the end. With the compiler's pool invariant,
/// every constant index a compiled function mentions stays inside the pool
/// for the whole run.
pub proof fn lemma_step_preserves_code_and_pool(v: VmView)
    requires
        step_spec(v) is Next,
    ensures
        step_spec(v)->Next_0.funcs == v.funcs,
        step_spec(v)->Next_0.consts == v.consts,
{
}

/// Step budgets compose: a run that is still going simply continues where
/// it stopped, and a completed or failed run stays completed or failed
/// under any further budget. So a caller that gets the budget-exhausted
/// answer can call [`Vm::eval`] again and loses nothing.
pub proof fn lemma_run_spec_compose(v: VmView, n: nat, m: nat)
    ensures
        match run_spec(v, n) {
            RunRes::Running(w) => run_spec(v, n + m) == run_spec(w, m),
            RunRes::Halted(w) => run_spec(v, n + m) == RunRes::Halted(w),
            RunRes::Failed => run_spec(v, n + m) == RunRes::Failed,
        },
    decreases n,
{
    if n > 0 {
        match step_spec(v) {
            StepRes::Next(v2) => {
                lemma_run_spec_compose(v2, (n - 1) as nat, m);
            },
            _ => {},
        }
    }
}

impl Vm {
    /// Executes the instruction at the current pointer (or returns to the
    /// caller at the end of a sequence). `Ok(true)` means the machine can
    /// step again, `Ok(false)` that it halted; an error aborts the run with
    /// the machine state unspecified. The effect is exactly [`step_spec`].
    #[verifier::rlimit(50)]
    pub fn step(&mut self) -> (r: Result<bool, Error>)
        requires
            vm_wf(old(self)@),
        ensures
            vm_wf(final(self)@),
            match r {
                Ok(true) => step_spec(old(self)@) == StepRes::Next(final(self)@),
                Ok(false) => step_spec(old(self)@) is Halt && final(self)@ == old(self)@,
                Err(e) => step_spec(old(self)@) is Fail && e.kind_spec() == ErrorKind::Eval,
            },
    {
        let cf = self.cur_fn;
        let code_len = self.funcs[cf].code.len();
        if self.ip >= code_len {
            // End of the current sequence: return to the caller, or halt.
            let f = match self.frames.pop() {
                Some(f) => f,
                None => {
                    proof {
                        assert(self@ =~= old(self)@);
                        assert(vm_wf(self@));
                    }
                    return Ok(false);
                },
            };
            self.cur_fn = f.func;
            self.ip = f.ip;
            self.env.cur = f.scope;
            proof {
                let ov = old(self)@;
                let n = ov.frames.len();
                assert(ov.frames[n - 1] == f);
                assert(f.func < ov.funcs.len() && f.scope < ov.env.scopes.len());
                assert(self@.frames =~= ov.frames.drop_last());
                assert forall|i: int| 0 <= i < self@.frames.len() implies (
                    #[trigger] self@.frames[i]).func < self@.funcs.len()
                    && self@.frames[i].scope < self@.env.scopes.len() by {
                    assert(self@.frames[i] == ov.frames[i]);
                }
                assert(self@.env =~= EnvView { scopes: ov.env.scopes, cur: f.scope as int });
                assert(self@ =~= step_spec(ov)->Next_0);
                assert(vm_wf(self@));
            }
            return Ok(true);
        }
        let op = self.funcs[cf].code[self.ip];
        match op {
            Opcode::Const(i) => {
                if i >= self.consts.len() {
                    return Err(Error::eval("a constant index outside the pool"));
                }
                let val = Value::from(self.consts[i]);
                self.stack.push(val);
                self.ip = self.ip + 1;
                proof {
                    assert(self@ =~= step_spec(old(self)@)->Next_0);
                }
                Ok(true)
            },
            Opcode::Defslot(h, mutable) => {
                match self.env.declare(h, mutable) {
                    Ok(()) => {
                        self.ip = self.ip + 1;
                        proof {
                            assert(self@ =~= step_spec(old(self)@)->Next_0);
                            assert(self@.env.scopes.len() == old(self)@.env.scopes.len());
                            assert(vm_wf(self@));
                        }
                        Ok(true)
                    },
                    Err(e) => Err(e),
                }
            },
            Opcode::Assign(h) => {
                let val = match self.stack.pop() {
                    Some(v) => v,
                    None => {
                        return Err(Error::eval("assignment with an empty stack"));
                    },
                };
                match self.env.assign(h, val) {
                    Ok(()) => {
                        self.ip = self.ip + 1;
                        proof {
                            crate::env::lemma_chain_find(
                                old(self)@.env.scopes,
                                old(self)@.env.cur,
                                h,
                            );
                            assert(self@.env.scopes.len() == old(self)@.env.scopes.len());
                            assert(self@ =~= step_spec(old(self)@)->Next_0);
                            assert(vm_wf(self@));
                        }
                        Ok(true)
                    },
                    Err(e) => Err(e),
                }
            },
            Opcode::Read(h) => {
                match self.env.read(h) {
                    Ok(val) => {
                        self.stack.push(val);
                        self.ip = self.ip + 1;
                        proof {
                            assert(self@ =~= step_spec(old(self)@)->Next_0);
                        }
                        Ok(true)
                    },
                    Err(e) => Err(e),
                }
            },
            Opcode::LoadField(f) => {
                let obj = match self.stack.pop() {
                    Some(v) => v,
                    None => {
                        return Err(Error::eval("field access with an empty stack"));
                    },
                };
                let i = match obj {
                    Value::Object(i) => i,
                    _ => {
                        return Err(Error::eval("field access on a value that is not an object"));
                    },
                };
                if i >= self.heap.len() {
                    return Err(Error::eval("field access through a dangling object reference"));
                }
                let j = match assoc_index(&self.heap[i], f) {
                    Some(j) => j,
                    None => {
                        return Err(Error::eval("access of a field the object does not have"));
                    },
                };
                let val = self.heap[i][j].1;
                self.stack.push(val);
                self.ip = self.ip + 1;
                proof {
                    assert(self@ =~= step_spec(old(self)@)->Next_0);
                    assert(vm_wf(self@));
                }
                Ok(true)
            },
            Opcode::StoreField(f) => {
                let val = match self.stack.pop() {
                    Some(v) => v,
                    None => {
                        return Err(Error::eval("field store with an empty stack"));
                    },
                };
                let obj = match self.stack.pop() {
                    Some(v) => v,
                    None => {
                        return Err(Error::eval("field store with no object on the stack"));
                    },
                };
                let i = match obj {
                    Value::Object(i) => i,
                    _ => {
                        return Err(Error::eval("field store into a value that is not an object"));
                    },
                };
                if i >= self.heap.len() {
                    return Err(Error::eval("field store through a dangling object reference"));
                }
                proof {
                    assert(assoc_distinct(old(self)@.heap[i as int]));
                    lemma_assoc_put(old(self)@.heap[i as int], f, val);
                    lemma_assoc_find(old(self)@.heap[i as int], f);
                }
                match assoc_index(&self.heap[i], f) {
                    Some(j) => {
                        self.heap[i][j] = (f, val);
                        proof {
                            assert(self@.heap[i as int] =~= assoc_put(
                                old(self)@.heap[i as int],
                                f,
                                val,
                            ));
                        }
                    },
                    None => {
                        self.heap[i].push((f, val));
                        proof {
                            assert(self@.heap[i as int] =~= assoc_put(
                                old(self)@.heap[i as int],
                                f,
                                val,
                            ));
                        }
                    },
                }
                self.ip = self.ip + 1;
                proof {
                    assert(self@.heap =~= old(self)@.heap.update(
                        i as int,
                        assoc_put(old(self)@.heap[i as int], f, val),
                    ));
                    assert(self@ =~= step_spec(old(self)@)->Next_0);
                    assert(vm_wf(self@));
                }
                Ok(true)
            },
            Opcode::Call(h) => {
                let callee = match self.env.read(h) {
                    Ok(v) => v,
                    Err(_) => {
                        return Err(Error::eval("call of a name with no readable binding"));
                    },
                };
                let rf = match callee {
                    Value::Func(rf) => rf,
                    _ => {
                        return Err(Error::eval("call of a value that is not callable"));
                    },
                };
                self.invoke(rf)
            },
            Opcode::CallValue => {
                let callee = match self.stack.pop() {
                    Some(v) => v,
                    None => {
                        return Err(Error::eval("call with an empty stack"));
                    },
                };
                let rf = match callee {
                    Value::Func(rf) => rf,
                    _ => {
                        return Err(Error::eval("call of a value that is not callable"));
                    },
                };
                self.invoke(rf)
            },
            Opcode::Jump(t) => {
                self.ip = t;
                proof {
                    assert(self@ =~= step_spec(old(self)@)->Next_0);
                }
                Ok(true)
            },
            Opcode::JumpIfZero(t) => {
                let val = match self.stack.pop() {
                    Some(v) => v,
                    None => {
                        return Err(Error::eval("conditional jump with an empty stack"));
                    },
                };
                let zero = match val {
                    Value::Uint(x) => x == 0,
                    Value::Int(x) => x == 0,
                    _ => {
                        return Err(
                            Error::eval("conditional jump on a value that is not an integer"),
                        );
                    },
                };
                if zero {
                    self.ip = t;
                } else {
                    self.ip = self.ip + 1;
                }
                proof {
                    assert(self@ =~= step_spec(old(self)@)->Next_0);
                }
                Ok(true)
            },
            _ => {
                // Add, Sub, Mul, Div
                let b = match self.stack.pop() {
                    Some(v) => v,
                    None => {
                        return Err(Error::eval("arithmetic with an empty stack"));
                    },
                };
                let a = match self.stack.pop() {
                    Some(v) => v,
                    None => {
                        return Err(Error::eval("arithmetic with one operand missing"));
                    },
                };
                let res = match arith_eval(op, a, b) {
                    Some(res) => res,
                    None => {
                        return Err(
                            Error::eval(
                                "arithmetic the promotion rules refuse, an out-of-range result, or division by zero",
                            ),
                        );
                    },
                };
                self.stack.push(res);
                self.ip = self.ip + 1;
                proof {
                    assert(self@ =~= step_spec(old(self)@)->Next_0);
                }
                Ok(true)
            },
        }
    }

    /// Invokes a callable: the [`invoke_spec`] effect.
    fn invoke(&mut self, rf: RuntimeFunc) -> (r: Result<bool, Error>)
        requires
            vm_wf(old(self)@),
            0 <= old(self)@.ip < cur_code(old(self)@).len(),
            old(self).ip < usize::MAX,
        ensures
            vm_wf(final(self)@),
            match r {
                Ok(true) => invoke_spec(old(self)@, rf) == StepRes::Next(final(self)@),
                Ok(false) => false,
                Err(e) => invoke_spec(old(self)@, rf) is Fail && e.kind_spec() == ErrorKind::Eval,
            },
    {
        match rf {
            RuntimeFunc::Native(NativeId::Print) => {
                let val = match self.stack.pop() {
                    Some(v) => v,
                    None => {
                        return Err(Error::eval("print with an empty stack"));
                    },
                };
                let line = match render_value(val, &self.interner) {
                    Some(line) => line,
                    None => {
                        return Err(Error::eval("print of a string with a dangling handle"));
                    },
                };
                self.output.push(line);
                self.ip = self.ip + 1;
                proof {
                    assert(self@.output =~= old(self)@.output.push(
                        repr_spec(val, old(self)@.strings)->Some_0,
                    ));
                    assert(self@ =~= invoke_spec(old(self)@, rf)->Next_0);
                }
                Ok(true)
            },
            RuntimeFunc::Native(NativeId::ObjectNew) => {
                let idx = self.heap.len();
                self.heap.push(Vec::new());
                self.stack.push(Value::Object(idx));
                self.ip = self.ip + 1;
                proof {
                    assert(self@.heap =~= old(self)@.heap.push(Seq::empty()));
                    assert(self@ =~= invoke_spec(old(self)@, rf)->Next_0);
                }
                Ok(true)
            },
            RuntimeFunc::Virtual(i) => {
                if i >= self.funcs.len() {
                    return Err(Error::eval("call of a function the table does not have"));
                }
                let frame = Frame { func: self.cur_fn, ip: self.ip + 1, scope: self.env.cur };
                self.frames.push(frame);
                let fresh = self.env.push_scope(0);
                self.env.cur = fresh;
                self.cur_fn = i;
                self.ip = 0;
                proof {
                    assert(self@.env =~= EnvView {
                        scopes: old(self)@.env.scopes.push(
                            ScopeView { parent: Some(0), binds: Seq::empty() },
                        ),
                        cur: old(self)@.env.scopes.len() as int,
                    });
                    assert(self@ =~= invoke_spec(old(self)@, rf)->Next_0);
                }
                Ok(true)
            },
        }
    }

    /// Runs the fetch-execute loop for at most `fuel` steps. `Ok(true)`
    /// means the program ran to completion; `Ok(false)` that the budget ran
    /// out first (the machine is unharmed and can run on); an error aborted
    /// the run. The result is exactly what [`run_spec`] says of `fuel`
    /// steps.
    pub fn eval(&mut self, fuel: u64) -> (r: Result<bool, Error>)
        requires
            vm_wf(old(self)@),
        ensures
            vm_wf(final(self)@),
            match r {
                Ok(true) => run_spec(old(self)@, fuel as nat) == RunRes::Halted(final(self)@),
                Ok(false) => run_spec(old(self)@, fuel as nat) == RunRes::Running(final(self)@),
                Err(e) => run_spec(old(self)@, fuel as nat) == RunRes::Failed && e.kind_spec()
                    == ErrorKind::Eval,
            },
    {
        let mut rem: u64 = fuel;
        #[verifier::loop_isolation(false)]
        while rem > 0
            invariant
                vm_wf(self@),
                rem <= fuel,
                run_spec(old(self)@, fuel as nat) == run_spec(self@, rem as nat),
            decreases rem,
        {
            match self.step() {
                Ok(true) => (),
                Ok(false) => {
                    return Ok(true);
                },
                Err(e) => {
                    return Err(e);
                },
            }
            rem = rem - 1;
        }
        Ok(false)
    }
}

/// Declares a built-in name in the current scope and gives it its value:
/// how the root scope is seeded.
pub open spec fn spec_bind_builtin(env: EnvView, h: Handle, val: Value) -> Option<EnvView> {
    match declare_spec(env, h, false) {
        Some(e1) => assign_spec(e1, h, val),
        None => None,
    }
}

/// Seeds one binding per compiled function, mapping its name to a function
/// value that shares the compiled code through the table.
pub open spec fn spec_seed_names(env: EnvView, names: Seq<(Handle, usize)>) -> Option<EnvView>
    decreases names.len(),
{
    if names.len() == 0 {
        Some(env)
    } else {
        match spec_seed_names(env, names.drop_last()) {
            Some(e) => spec_bind_builtin(
                e,
                names.last().0,
                Value::Func(RuntimeFunc::Virtual(names.last().1)),
            ),
            None => None,
        }
    }
}

/// One more name extends a seeded prefix.
pub proof fn lemma_seed_names_snoc(env: EnvView, names: Seq<(Handle, usize)>, i: int)
    requires
        0 <= i < names.len(),
    ensures
        spec_seed_names(env, names.subrange(0, i + 1)) == (match spec_seed_names(
            env,
            names.subrange(0, i),
        ) {
            Some(e) => spec_bind_builtin(
                e,
                names[i].0,
                Value::Func(RuntimeFunc::Virtual(names[i].1)),
            ),
            None => None,
        }),
{
    let pre = names.subrange(0, i + 1);
    assert(pre.drop_last() =~= names.subrange(0, i));
    assert(pre.last() == names[i]);
}

/// A failed prefix fails the whole seeding.
pub proof fn lemma_seed_names_none_sticky(env: EnvView, names: Seq<(Handle, usize)>, i: int)
    requires
        0 <= i <= names.len(),
        spec_seed_names(env, names.subrange(0, i)) is None,
    ensures
        spec_seed_names(env, names) is None,
    decreases names.len() - i,
{
    if i == names.len() {
        assert(names.subrange(0, i) =~= names);
    } else {
        lemma_seed_names_snoc(env, names, i);
        lemma_seed_names_none_sticky(env, names, i + 1);
    }
}

/// The root environment before seeding: one empty scope.
pub open spec fn spec_root_env() -> EnvView {
    EnvView {
        scopes: Seq::empty().push(ScopeView { parent: None, binds: Seq::empty() }),
        cur: 0,
    }
}

/// The machine a compilation result starts as: `print` and `object` are
/// interned and bound in the root scope, then every compiled function's
/// name; execution begins at the entry function's first instruction with an
/// empty operand stack, no frames, an empty heap and no output. Nothing if
/// the entry index is out of range, the interner is at capacity, or a
/// function's name collides with a built-in (seeding redeclares it).
pub open spec fn spec_vm_init(m: ModState, entry: int) -> Option<VmView> {
    if !(0 <= entry < m.funcs.len()) {
        None
    } else {
        match crate::compiler::spec_intern(m.strings, "print"@) {
            Some((s1, ph)) => match crate::compiler::spec_intern(s1, "object"@) {
                Some((s2, oh)) => match spec_bind_builtin(
                    spec_root_env(),
                    ph,
                    Value::Func(RuntimeFunc::Native(NativeId::Print)),
                ) {
                    Some(e1) => match spec_bind_builtin(
                        e1,
                        oh,
                        Value::Func(RuntimeFunc::Native(NativeId::ObjectNew)),
                    ) {
                        Some(e2) => match spec_seed_names(e2, m.names) {
                            Some(e3) => Some(
                                VmView {
                                    stack: Seq::empty(),
                                    env: e3,
                                    funcs: m.funcs,
                                    cur_fn: entry,
                                    ip: 0,
                                    frames: Seq::empty(),
                                    consts: m.consts,
                                    heap: Seq::empty(),
                                    strings: s2,
                                    output: Seq::empty(),
                                },
                            ),
                            None => None,
                        },
                        None => None,
                    },
                    None => None,
                },
                None => None,
            },
            None => None,
        }
    }
}

impl Vm {
    /// Builds a machine from a compilation result: the function table, the
    /// name-to-function mapping used to seed the root scope, the entry
    /// function, the constant pool and the interner the code's handles
    /// belong to. The machine starts exactly as [`spec_vm_init`] says.
    pub fn new(
        funcs: Vec<FuncProto>,
        names: Vec<(Handle, usize)>,
        entry: usize,
        consts: Vec<ConstValue>,
        interner: Interner,
    ) -> (r: Result<Vm, Error>)
        requires
            interner.wf(),
        ensures
            match r {
                Ok(vm) => {
                    &&& spec_vm_init(
                        ModState {
                            strings: interner@,
                            consts: consts@,
                            funcs: Seq::new(funcs@.len(), |i: int| funcs@[i]@),
                            names: names@,
                        },
                        entry as int,
                    ) == Some(vm@)
                    &&& vm_wf(vm@)
                    &&& vm.interner.wf()
                },
                Err(e) => {
                    &&& spec_vm_init(
                        ModState {
                            strings: interner@,
                            consts: consts@,
                            funcs: Seq::new(funcs@.len(), |i: int| funcs@[i]@),
                            names: names@,
                        },
                        entry as int,
                    ) is None
                    &&& e.kind_spec() == ErrorKind::Eval
                },
            },
    {
        let ghost m = ModState {
            strings: interner@,
            consts: consts@,
            funcs: Seq::new(funcs@.len(), |i: int| funcs@[i]@),
            names: names@,
        };
        if entry >= funcs.len() {
            return Err(Error::eval("an entry function the table does not have"));
        }
        let mut interner = interner;
        if interner.len() >= INTERNER_CAPACITY {
            return Err(Error::eval("the interner is out of handles"));
        }
        let ph = interner.intern("print");
        if interner.len() >= INTERNER_CAPACITY {
            return Err(Error::eval("the interner is out of handles"));
        }
        let oh = interner.intern("object");

        let mut env = Env::new();
        proof {
            assert(env@ =~= spec_root_env());
        }
        match env.declare(ph, false) {
            Ok(()) => (),
            Err(e) => {
                return Err(e);
            },
        }
        match env.assign(ph, Value::Func(RuntimeFunc::Native(NativeId::Print))) {
            Ok(()) => (),
            Err(e) => {
                return Err(e);
            },
        }
        match env.declare(oh, false) {
            Ok(()) => (),
            Err(e) => {
                return Err(e);
            },
        }
        match env.assign(oh, Value::Func(RuntimeFunc::Native(NativeId::ObjectNew))) {
            Ok(()) => (),
            Err(e) => {
                return Err(e);
            },
        }
        let ghost e2 = env@;

        let n = names.len();
        let mut i: usize = 0;
        #[verifier::loop_isolation(false)]
        while i < n
            invariant
                0 <= i <= n,
                env_wf(env@),
                spec_seed_names(e2, names@.subrange(0, i as int)) == Some(env@),
            decreases n - i,
        {
            proof {
                assert(names@.subrange(0, 0) =~= Seq::<(Handle, usize)>::empty());
            }
            let (h, idx) = names[i];
            let dr = env.declare(h, false);
            proof {
                lemma_seed_names_snoc(e2, names@, i as int);
            }
            match dr {
                Ok(()) => (),
                Err(e) => {
                    proof {
                        lemma_seed_names_none_sticky(e2, names@, i as int + 1);
                    }
                    return Err(e);
                },
            }
            match env.assign(h, Value::Func(RuntimeFunc::Virtual(idx))) {
                Ok(()) => (),
                Err(e) => {
                    proof {
                        lemma_seed_names_none_sticky(e2, names@, i as int + 1);
                    }
                    return Err(e);
                },
            }
            i += 1;
        }
        proof {
            assert(names@.subrange(0, n as int) =~= names@);
        }

        let vm = Vm {
            interner,
            env,
            stack: Vec::new(),
            funcs,
            cur_fn: entry,
            ip: 0,
            frames: Vec::new(),
            consts,
            heap: Vec::new(),
            output: Vec::new(),
        };
        proof {
            assert(Some(vm@) =~= spec_vm_init(m, entry as int));
        }
        Ok(vm)
    }
}

/// Field mutation is seen through every reference to the same object: if two
/// bindings hold references to the heap cell `i`, a `StoreField` through one
/// of them (the reference and the value are on the stack) leaves the other
/// binding unchanged, still naming cell `i`, and a read of that field
/// through it now yields the stored value.
pub proof fn lemma_object_aliasing(v: VmView, y: Handle, i: usize, f: Handle, val: Value)
    requires
        vm_wf(v),
        0 <= v.ip < cur_code(v).len(),
        cur_code(v)[v.ip] == Opcode::StoreField(f),
        v.stack.len() >= 2,
        v.stack[v.stack.len() - 2] == Value::Object(i),
        v.stack.last() == val,
        i < v.heap.len(),
        read_spec(v.env, y) == Some(Value::Object(i)),
    ensures
        step_spec(v) is Next,
        ({
            let v2 = step_spec(v)->Next_0;
            &&& read_spec(v2.env, y) == Some(Value::Object(i))
            &&& assoc_has(v2.heap[i as int], f)
            &&& assoc_get(v2.heap[i as int], f) == val
        }),
{
    assert(assoc_distinct(v.heap[i as int]));
    lemma_assoc_put(v.heap[i as int], f, val);
    let v2 = step_spec(v)->Next_0;
    assert(v2.env == v.env);
    assert(v2.heap[i as int] == assoc_put(v.heap[i as int], f, val));
}

} // verus!
