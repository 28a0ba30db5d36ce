//! Values, traps, and the stack machine that runs function bodies.
use vstd::prelude::*;
use crate::instr::Instr;
use crate::module::Func;
use crate::numeric::{
    eval_i32_binary, eval_i32_unary, eval_i64_binary, eval_i64_unary, i32_binary, i32_unary,
    i64_binary, i64_unary,
};
use crate::instance::MAX_CALL_DEPTH;
use crate::types::{FuncType, NumType, ValType};

verus! {

/// A value. A float is held as its IEEE-754 bit pattern.
#[derive(Debug, Clone, Copy, PartialEq, Eq, Structural)]
pub enum Val {
    I32(i32),
    I64(i64),
    F32(u32),
    F64(u64),
}

/// Why an invocation was aborted.
#[derive(Debug, Clone, Copy, PartialEq, Eq, Structural)]
pub enum Trap {
    DivideByZero,
    IntegerOverflow,
    StackUnderflow,
    TypeMismatch,
    LocalOutOfRange,
    InvalidFunction,
    Unsupported,
    DepthExhausted,
    UnknownExport,
    ArityMismatch,
}

/// An entry of the stack: an operand, or the mark of a structured block or of a call, with
/// the number of results it hands back.
#[derive(Debug, Clone, Copy, PartialEq, Eq, Structural)]
pub enum StackValue {
    Value(Val),
    Label(u32),
    Frame(u32),
}

/// The operand stack of one invocation.
#[derive(Debug)]
pub struct Stack {
    values: Vec<StackValue>,
}

impl View for Stack {
    type V = Seq<StackValue>;

    closed spec fn view(&self) -> Seq<StackValue> {
        self.values@
    }
}

impl Stack {
    /// An empty stack.
    pub fn new() -> (r: Stack)
        ensures
            r@ == Seq::<StackValue>::empty(),
    {
        Stack { values: Vec::new() }
    }

    /// Pushes an entry.
    pub fn push(&mut self, val: StackValue)
        ensures
            final(self)@ == old(self)@.push(val),
    {
        self.values.push(val)
    }

    /// Pops the top entry, if there is one.
    pub fn pop(&mut self) -> (r: Option<StackValue>)
        ensures
            old(self)@.len() == 0 ==> r is None && final(self)@ == old(self)@,
            old(self)@.len() > 0 ==> r == Some(old(self)@.last()) && final(self)@
                == old(self)@.drop_last(),
    {
        self.values.pop()
    }

    /// Pops the top `n` operands; gives them in the order they were pushed. Traps where fewer
    /// than `n` operands are on top.
    pub fn pop_values(&mut self, n: usize) -> (r: Result<Vec<Val>, Trap>)
        ensures
            match top_values(old(self)@, n as nat) {
                Some(vs) => r matches Ok(v) && v@ == vs && final(self)@ == old(self)@.subrange(
                    0,
                    old(self)@.len() - n,
                ),
                None => r == Err::<Vec<Val>, Trap>(Trap::StackUnderflow),
            },
    {
        let ghost orig = self@;
        let mut popped: Vec<Val> = Vec::new();
        let mut k: usize = 0;
        while k < n
            invariant
                k <= n,
                k <= orig.len(),
                orig == old(self)@,
                self@ == orig.subrange(0, orig.len() - k),
                popped@.len() == k,
                forall|j: int|
                    0 <= j < k ==> orig[orig.len() - 1 - j] == StackValue::Value(
                        #[trigger] popped@[j],
                    ),
            decreases n - k,
        {
            match self.pop_value() {
                Ok(v) => popped.push(v),
                Err(_) => {
                    proof {
                        if k < orig.len() {
                            let i = orig.len() - 1 - k;
                            assert(orig.subrange(0, orig.len() - k).last() == orig[i]);
                            assert(!(orig[i] is Value));
                        }
                        assert(top_values(orig, n as nat) is None);
                    }
                    return Err(Trap::StackUnderflow);
                },
            }
            k = k + 1;
        }
        let mut values: Vec<Val> = Vec::new();
        let mut j: usize = 0;
        while j < n
            invariant
                j <= n,
                popped@.len() == n,
                values@ == Seq::new(j as nat, |i: int| popped@[n - 1 - i]),
            decreases n - j,
        {
            values.push(popped[n - 1 - j]);
            j = j + 1;
            assert(values@ =~= Seq::new(j as nat, |i: int| popped@[n - 1 - i]));
        }
        assert(forall|i: int|
            orig.len() - n <= i < orig.len() ==> #[trigger] orig[i] == StackValue::Value(
                popped@[orig.len() - 1 - i],
            ));
        assert(values@ =~= Seq::new(n as nat, |i: int| orig[orig.len() - n + i]->Value_0));
        Ok(values)
    }

    /// Pops an operand; traps where the top is not one.
    pub fn pop_value(&mut self) -> (r: Result<Val, Trap>)
        ensures
            match pop_value(old(self)@) {
                Ok((v, rest)) => r == Ok::<Val, Trap>(v) && final(self)@ == rest,
                Err(t) => r == Err::<Val, Trap>(t),
            },
    {
        match self.pop() {
            Some(StackValue::Value(v)) => Ok(v),
            _ => Err(Trap::StackUnderflow),
        }
    }
}

/// A structured block being run: how many results it hands back, and its instructions.
#[derive(Debug)]
pub struct Label {
    pub argument_arity: u32,
    pub instructions: Vec<Instr>,
}

/// The activation of a function: how many results it hands back, and its locals (the
/// arguments first, then the declared locals).
#[derive(Debug)]
pub struct Frame {
    pub return_arity: u32,
    pub locals: Vec<Val>,
}

/// A function of the store: its signature and its code.
#[derive(Debug, PartialEq)]
pub struct FuncInst {
    pub type_: FuncType,
    pub code: Func,
}

/// All the functions that instantiation allocated; a function's address is its index here.
#[derive(Debug)]
pub struct Store {
    pub funcs: Vec<FuncInst>,
}

/// The zero of a value type.
pub open spec fn default_val(t: ValType) -> Val {
    match t {
        ValType::NumType(NumType::I32) => Val::I32(0),
        ValType::NumType(NumType::I64) => Val::I64(0),
        ValType::NumType(NumType::F32) => Val::F32(0),
        ValType::NumType(NumType::F64) => Val::F64(0),
    }
}

pub open spec fn default_vals(ts: Seq<ValType>) -> Seq<Val> {
    Seq::new(ts.len(), |i: int| default_val(ts[i]))
}

/// The operand on top, with the stack below it.
pub open spec fn pop_value(stack: Seq<StackValue>) -> Result<(Val, Seq<StackValue>), Trap> {
    if stack.len() == 0 {
        Err(Trap::StackUnderflow)
    } else {
        match stack.last() {
            StackValue::Value(v) => Ok((v, stack.drop_last())),
            _ => Err(Trap::StackUnderflow),
        }
    }
}

/// The top `n` entries as operands in the order they were pushed, where all of them are
/// operands.
pub open spec fn top_values(stack: Seq<StackValue>, n: nat) -> Option<Seq<Val>> {
    if n <= stack.len() && forall|i: int|
        stack.len() - n <= i < stack.len() ==> #[trigger] stack[i] is Value {
        Some(Seq::new(n, |i: int| stack[stack.len() - n + i]->Value_0))
    } else {
        None
    }
}

/// Pushes `v` on `stack`.
pub open spec fn pushed(stack: Seq<StackValue>, v: Val) -> Seq<StackValue> {
    stack.push(StackValue::Value(v))
}

/// One instruction that neither branches nor calls.
pub open spec fn step_plain(locals: Seq<Val>, stack: Seq<StackValue>, instr: Instr) -> Result<
    Seq<StackValue>,
    Trap,
> {
    match instr {
        Instr::LocalGet(i) => if i < locals.len() {
            Ok(pushed(stack, locals[i as int]))
        } else {
            Err(Trap::LocalOutOfRange)
        },
        Instr::I32Const(x) => Ok(pushed(stack, Val::I32(x))),
        Instr::I64Const(x) => Ok(pushed(stack, Val::I64(x))),
        Instr::Drop => match pop_value(stack) {
            Ok((_, rest)) => Ok(rest),
            Err(t) => Err(t),
        },
        _ => step_numeric(stack, instr),
    }
}

/// One integer instruction; any other instruction traps as unsupported.
pub open spec fn step_numeric(stack: Seq<StackValue>, instr: Instr) -> Result<Seq<StackValue>, Trap> {
    if i32_unary(instr, 0) is Some {
        match pop_value(stack) {
            Ok((Val::I32(a), rest)) => match i32_unary(instr, a) {
                Some(v) => Ok(pushed(rest, Val::I32(v))),
                None => Err(Trap::Unsupported),
            },
            Ok(_) => Err(Trap::TypeMismatch),
            Err(t) => Err(t),
        }
    } else if i64_unary(instr, 0) is Some {
        match pop_value(stack) {
            Ok((Val::I64(a), rest)) => match i64_unary(instr, a) {
                Some(v) => Ok(pushed(rest, v)),
                None => Err(Trap::Unsupported),
            },
            Ok(_) => Err(Trap::TypeMismatch),
            Err(t) => Err(t),
        }
    } else if i32_binary(instr, 0, 1) is Some {
        match pop_value(stack) {
            Ok((Val::I32(b), s1)) => match pop_value(s1) {
                Ok((Val::I32(a), s2)) => match i32_binary(instr, a, b) {
                    Some(Ok(v)) => Ok(pushed(s2, Val::I32(v))),
                    Some(Err(t)) => Err(t),
                    None => Err(Trap::Unsupported),
                },
                Ok(_) => Err(Trap::TypeMismatch),
                Err(t) => Err(t),
            },
            Ok(_) => Err(Trap::TypeMismatch),
            Err(t) => Err(t),
        }
    } else if i64_binary(instr, 0, 1) is Some {
        match pop_value(stack) {
            Ok((Val::I64(b), s1)) => match pop_value(s1) {
                Ok((Val::I64(a), s2)) => match i64_binary(instr, a, b) {
                    Some(Ok(v)) => Ok(pushed(s2, v)),
                    Some(Err(t)) => Err(t),
                    None => Err(Trap::Unsupported),
                },
                Ok(_) => Err(Trap::TypeMismatch),
                Err(t) => Err(t),
            },
            Ok(_) => Err(Trap::TypeMismatch),
            Err(t) => Err(t),
        }
    } else {
        Err(Trap::Unsupported)
    }
}

/// Runs `instrs` in order with `locals` as the current frame's locals; gives the stack after
/// the last one, or the first trap. `depth` bounds how deeply calls may nest.
pub open spec fn run_seq(
    store: Seq<FuncInst>,
    locals: Seq<Val>,
    stack: Seq<StackValue>,
    instrs: Seq<Instr>,
    depth: nat,
) -> Result<Seq<StackValue>, Trap>
    decreases depth, instrs,
{
    if instrs.len() == 0 {
        Ok(stack)
    } else {
        match run_instr(store, locals, stack, instrs[0], depth) {
            Ok(s2) => run_seq(store, locals, s2, instrs.subrange(1, instrs.len() as int), depth),
            Err(t) => Err(t),
        }
    }
}

/// The locals of a call of `f` with `args`: the arguments, then the zeros of its declared
/// locals.
pub open spec fn call_locals(f: FuncInst, args: Seq<Val>) -> Seq<Val> {
    args + default_vals(f.code.locals@)
}

/// Runs one instruction.
pub open spec fn run_instr(
    store: Seq<FuncInst>,
    locals: Seq<Val>,
    stack: Seq<StackValue>,
    instr: Instr,
    depth: nat,
) -> Result<Seq<StackValue>, Trap>
    decreases depth, instr,
{
    match instr {
        Instr::If(_, th, el) => match pop_value(stack) {
            Ok((Val::I32(c), rest)) => if c != 0 {
                run_seq(store, locals, rest, th@, depth)
            } else {
                run_seq(store, locals, rest, el@, depth)
            },
            Ok(_) => Err(Trap::TypeMismatch),
            Err(t) => Err(t),
        },
        Instr::Call(addr) => if depth == 0 {
            Err(Trap::DepthExhausted)
        } else if addr >= store.len() {
            Err(Trap::InvalidFunction)
        } else {
            let f = store[addr as int];
            let n = f.type_.parameters@.len();
            match top_values(stack, n) {
                Some(args) => run_seq(
                    store,
                    call_locals(f, args),
                    stack.subrange(0, stack.len() - n),
                    f.code.body.0@,
                    (depth - 1) as nat,
                ),
                None => Err(Trap::StackUnderflow),
            }
        },
        _ => step_plain(locals, stack, instr),
    }
}

/// Whether `instr` is an `i32` instruction with one operand.
fn is_i32_unary(instr: &Instr) -> (r: bool)
    ensures
        r == (i32_unary(*instr, 0) is Some),
{
    matches!(
        instr,
        Instr::I32Clz
            | Instr::I32Ctz
            | Instr::I32Popcnt
            | Instr::I32Eqz
            | Instr::I32Extend8S
            | Instr::I32Extend16S
    )
}

/// Whether `instr` is an `i64` instruction with one operand.
fn is_i64_unary(instr: &Instr) -> (r: bool)
    ensures
        r == (i64_unary(*instr, 0) is Some),
{
    matches!(
        instr,
        Instr::I64Clz
            | Instr::I64Ctz
            | Instr::I64Popcnt
            | Instr::I64Eqz
    )
}

/// Whether `instr` is an `i32` instruction with two operands.
fn is_i32_binary(instr: &Instr) -> (r: bool)
    ensures
        r == (i32_binary(*instr, 0, 1) is Some),
{
    matches!(
        instr,
        Instr::I32Add
            | Instr::I32Sub
            | Instr::I32Mul
            | Instr::I32DivS
            | Instr::I32DivU
            | Instr::I32RemS
            | Instr::I32RemU
            | Instr::I32And
            | Instr::I32Or
            | Instr::I32Xor
            | Instr::I32Shl
            | Instr::I32ShrS
            | Instr::I32ShrU
            | Instr::I32Rotl
            | Instr::I32Rotr
            | Instr::I32Eq
            | Instr::I32Ne
            | Instr::I32LtS
            | Instr::I32LtU
            | Instr::I32GtS
            | Instr::I32GtU
            | Instr::I32LeS
            | Instr::I32LeU
            | Instr::I32GeS
            | Instr::I32GeU
    )
}

/// Whether `instr` is an `i64` instruction with two operands.
fn is_i64_binary(instr: &Instr) -> (r: bool)
    ensures
        r == (i64_binary(*instr, 0, 1) is Some),
{
    matches!(
        instr,
        Instr::I64Add
            | Instr::I64Sub
            | Instr::I64Mul
            | Instr::I64DivS
            | Instr::I64DivU
            | Instr::I64RemS
            | Instr::I64RemU
            | Instr::I64And
            | Instr::I64Or
            | Instr::I64Xor
            | Instr::I64Shl
            | Instr::I64ShrS
            | Instr::I64ShrU
            | Instr::I64Rotl
            | Instr::I64Rotr
            | Instr::I64Eq
            | Instr::I64Ne
            | Instr::I64LtS
            | Instr::I64LtU
            | Instr::I64GtS
            | Instr::I64GtU
            | Instr::I64LeS
            | Instr::I64LeU
            | Instr::I64GeS
            | Instr::I64GeU
    )
}

/// The zero of a value type.
pub fn default_value(t: ValType) -> (r: Val)
    ensures
        r == default_val(t),
{
    match t {
        ValType::NumType(NumType::I32) => Val::I32(0),
        ValType::NumType(NumType::I64) => Val::I64(0),
        ValType::NumType(NumType::F32) => Val::F32(0),
        ValType::NumType(NumType::F64) => Val::F64(0),
    }
}

/// Runs an `i32` instruction with one operand.
pub fn run_unop(stack: &mut Stack, instr: &Instr) -> (r: Result<(), Trap>)
    requires
        i32_unary(*instr, 0) is Some,
    ensures
        match step_numeric(old(stack)@, *instr) {
            Ok(s) => r == Ok::<(), Trap>(()) && final(stack)@ == s,
            Err(t) => r == Err::<(), Trap>(t),
        },
{
    let a = match stack.pop_value() {
        Ok(Val::I32(a)) => a,
        Ok(_) => return Err(Trap::TypeMismatch),
        Err(t) => return Err(t),
    };
    let v = eval_i32_unary(instr, a);
    stack.push(StackValue::Value(Val::I32(v)));
    Ok(())
}

/// Runs an `i64` instruction with one operand.
pub fn run_unop_i64(stack: &mut Stack, instr: &Instr) -> (r: Result<(), Trap>)
    requires
        i32_unary(*instr, 0) is None,
        i64_unary(*instr, 0) is Some,
    ensures
        match step_numeric(old(stack)@, *instr) {
            Ok(s) => r == Ok::<(), Trap>(()) && final(stack)@ == s,
            Err(t) => r == Err::<(), Trap>(t),
        },
{
    let a = match stack.pop_value() {
        Ok(Val::I64(a)) => a,
        Ok(_) => return Err(Trap::TypeMismatch),
        Err(t) => return Err(t),
    };
    let v = eval_i64_unary(instr, a);
    stack.push(StackValue::Value(v));
    Ok(())
}

/// Runs an `i32` instruction with two operands; the right one is on top.
pub fn run_binop(stack: &mut Stack, instr: &Instr) -> (r: Result<(), Trap>)
    requires
        i32_unary(*instr, 0) is None,
        i64_unary(*instr, 0) is None,
        i32_binary(*instr, 0, 1) is Some,
    ensures
        match step_numeric(old(stack)@, *instr) {
            Ok(s) => r == Ok::<(), Trap>(()) && final(stack)@ == s,
            Err(t) => r == Err::<(), Trap>(t),
        },
{
    let b = match stack.pop_value() {
        Ok(Val::I32(b)) => b,
        Ok(_) => return Err(Trap::TypeMismatch),
        Err(t) => return Err(t),
    };
    let a = match stack.pop_value() {
        Ok(Val::I32(a)) => a,
        Ok(_) => return Err(Trap::TypeMismatch),
        Err(t) => return Err(t),
    };
    let v = match eval_i32_binary(instr, a, b) {
        Ok(v) => v,
        Err(t) => return Err(t),
    };
    stack.push(StackValue::Value(Val::I32(v)));
    Ok(())
}

/// Runs an `i64` instruction with two operands; the right one is on top.
pub fn run_binop_i64(stack: &mut Stack, instr: &Instr) -> (r: Result<(), Trap>)
    requires
        i32_unary(*instr, 0) is None,
        i64_unary(*instr, 0) is None,
        i32_binary(*instr, 0, 1) is None,
        i64_binary(*instr, 0, 1) is Some,
    ensures
        match step_numeric(old(stack)@, *instr) {
            Ok(s) => r == Ok::<(), Trap>(()) && final(stack)@ == s,
            Err(t) => r == Err::<(), Trap>(t),
        },
{
    let b = match stack.pop_value() {
        Ok(Val::I64(b)) => b,
        Ok(_) => return Err(Trap::TypeMismatch),
        Err(t) => return Err(t),
    };
    let a = match stack.pop_value() {
        Ok(Val::I64(a)) => a,
        Ok(_) => return Err(Trap::TypeMismatch),
        Err(t) => return Err(t),
    };
    let v = match eval_i64_binary(instr, a, b) {
        Ok(v) => v,
        Err(t) => return Err(t),
    };
    stack.push(StackValue::Value(v));
    Ok(())
}

/// Pops the arguments of a call of `f` and makes its locals: the arguments in the order they
/// were pushed, then the zeros of its declared locals.
pub fn take_arguments(stack: &mut Stack, f: &FuncInst) -> (r: Result<Vec<Val>, Trap>)
    ensures
        match top_values(old(stack)@, f.type_.parameters@.len()) {
            Some(args) => r matches Ok(locals) && locals@ == call_locals(*f, args) && final(stack)@
                == old(stack)@.subrange(0, old(stack)@.len() - f.type_.parameters@.len()),
            None => r == Err::<Vec<Val>, Trap>(Trap::StackUnderflow),
        },
{
    let mut locals = match stack.pop_values(f.type_.parameters.len()) {
        Ok(v) => v,
        Err(t) => return Err(t),
    };
    let ghost args = locals@;
    let mut d: usize = 0;
    while d < f.code.locals.len()
        invariant
            d <= f.code.locals.len(),
            locals@ == args + default_vals(f.code.locals@).subrange(0, d as int),
        decreases f.code.locals.len() - d,
    {
        locals.push(default_value(f.code.locals[d]));
        d = d + 1;
        assert(locals@ =~= args + default_vals(f.code.locals@).subrange(0, d as int));
    }
    assert(default_vals(f.code.locals@).subrange(0, d as int) =~= default_vals(f.code.locals@));
    Ok(locals)
}

/// Runs the instructions of `label` in order with `frame` as the current frame.
pub fn run(stack: &mut Stack, frame: &Frame, label: &Label, store: &Store, depth: u32) -> (r: Result<
    (),
    Trap,
>)
    ensures
        match run_seq(store.funcs@, frame.locals@, old(stack)@, label.instructions@, depth as nat) {
            Ok(s) => r == Ok::<(), Trap>(()) && final(stack)@ == s,
            Err(t) => r == Err::<(), Trap>(t),
        },
{
    run_instrs(stack, frame, &label.instructions, store, depth)
}

fn run_instrs(stack: &mut Stack, frame: &Frame, instrs: &Vec<Instr>, store: &Store, depth: u32) -> (r:
    Result<(), Trap>)
    ensures
        match run_seq(store.funcs@, frame.locals@, old(stack)@, instrs@, depth as nat) {
            Ok(s) => r == Ok::<(), Trap>(()) && final(stack)@ == s,
            Err(t) => r == Err::<(), Trap>(t),
        },
    decreases depth, instrs@,
{
    let mut i: usize = 0;
    assert(instrs@.subrange(0, instrs@.len() as int) =~= instrs@);
    while i < instrs.len()
        invariant
            i <= instrs.len(),
            run_seq(store.funcs@, frame.locals@, old(stack)@, instrs@, depth as nat) == run_seq(
                store.funcs@,
                frame.locals@,
                stack@,
                instrs@.subrange(i as int, instrs@.len() as int),
                depth as nat,
            ),
        decreases instrs.len() - i,
    {
        let ghost rest = instrs@.subrange(i as int, instrs@.len() as int);
        assert(rest[0] == instrs@[i as int]);
        assert(rest.subrange(1, rest.len() as int) =~= instrs@.subrange(
            i + 1,
            instrs@.len() as int,
        ));
        assert(decreases_to!(instrs@ => instrs@[i as int]));
        match execute_instruction(stack, frame, &instrs[i], store, depth) {
            Ok(()) => {},
            Err(t) => return Err(t),
        }
        i = i + 1;
    }
    assert(instrs@.subrange(i as int, instrs@.len() as int).len() == 0);
    Ok(())
}

/// Runs one instruction with `frame` as the current frame.
pub fn execute_instruction(
    stack: &mut Stack,
    frame: &Frame,
    instr: &Instr,
    store: &Store,
    depth: u32,
) -> (r: Result<(), Trap>)
    ensures
        match run_instr(store.funcs@, frame.locals@, old(stack)@, *instr, depth as nat) {
            Ok(s) => r == Ok::<(), Trap>(()) && final(stack)@ == s,
            Err(t) => r == Err::<(), Trap>(t),
        },
    decreases depth, *instr,
{
    match instr {
        Instr::If(_, instructions1, instructions2) => {
            let c = match stack.pop_value() {
                Ok(Val::I32(c)) => c,
                Ok(_) => return Err(Trap::TypeMismatch),
                Err(t) => return Err(t),
            };
            assert(decreases_to!(*instr => instructions1@));
            assert(decreases_to!(*instr => instructions2@));
            if c != 0 {
                run_instrs(stack, frame, instructions1, store, depth)
            } else {
                run_instrs(stack, frame, instructions2, store, depth)
            }
        },
        Instr::Call(addr) => {
            if depth == 0 {
                return Err(Trap::DepthExhausted);
            }
            if *addr as usize >= store.funcs.len() {
                return Err(Trap::InvalidFunction);
            }
            let f = &store.funcs[*addr as usize];
            let locals = match take_arguments(stack, f) {
                Ok(l) => l,
                Err(t) => return Err(t),
            };
            let callee = Frame { return_arity: f.type_.results.len() as u32, locals };
            run_instrs(stack, &callee, &f.code.body.0, store, depth - 1)
        },
        Instr::LocalGet(idx) => {
            if (*idx as usize) < frame.locals.len() {
                stack.push(StackValue::Value(frame.locals[*idx as usize]));
                Ok(())
            } else {
                Err(Trap::LocalOutOfRange)
            }
        },
        Instr::I32Const(x) => {
            stack.push(StackValue::Value(Val::I32(*x)));
            Ok(())
        },
        Instr::I64Const(x) => {
            stack.push(StackValue::Value(Val::I64(*x)));
            Ok(())
        },
        Instr::Drop => {
            match stack.pop_value() {
                Ok(_) => Ok(()),
                Err(t) => Err(t),
            }
        },
        _ => {
            if is_i32_unary(instr) {
                run_unop(stack, instr)
            } else if is_i64_unary(instr) {
                run_unop_i64(stack, instr)
            } else if is_i32_binary(instr) {
                run_binop(stack, instr)
            } else if is_i64_binary(instr) {
                run_binop_i64(stack, instr)
            } else {
                Err(Trap::Unsupported)
            }
        },
    }
}

/// A step for the runtime to take: call the function at an address, run a block with the
/// current frame, or mark a frame (which does nothing by itself).
#[derive(Debug)]
pub enum AdministrativeInstruction {
    Invoke(u32),
    Label(Label),
    Frame,
}

/// A store with an operand stack and the frame whose locals blocks read.
#[derive(Debug)]
pub struct Runtime {
    pub store: Store,
    pub stack: Stack,
    pub current_frame: Option<Frame>,
}

/// The locals that blocks run by `rt` read: none without a current frame.
pub open spec fn current_locals(rt: &Runtime) -> Seq<Val> {
    match rt.current_frame {
        Some(f) => f.locals@,
        None => Seq::empty(),
    }
}

/// What running `ai` on `rt` gives: the new operand stack, or a trap. `depth` bounds how
/// deeply calls may nest.
pub open spec fn runtime_step(rt: &Runtime, ai: AdministrativeInstruction, depth: nat) -> Result<
    Seq<StackValue>,
    Trap,
> {
    match ai {
        AdministrativeInstruction::Invoke(addr) => run_instr(
            rt.store.funcs@,
            current_locals(rt),
            rt.stack@,
            Instr::Call(addr),
            depth,
        ),
        AdministrativeInstruction::Label(label) => run_seq(
            rt.store.funcs@,
            current_locals(rt),
            rt.stack@,
            label.instructions@,
            depth,
        ),
        AdministrativeInstruction::Frame => Ok(rt.stack@),
    }
}

impl Runtime {
    /// Runs one administrative instruction; the store and the current frame stay as they are.
    pub fn run(&mut self, administrative_instruction: AdministrativeInstruction) -> (r: Result<
        (),
        Trap,
    >)
        ensures
            final(self).store == old(self).store,
            final(self).current_frame == old(self).current_frame,
            match runtime_step(&*old(self), administrative_instruction, MAX_CALL_DEPTH as nat) {
                Ok(s) => r == Ok::<(), Trap>(()) && final(self).stack@ == s,
                Err(t) => r == Err::<(), Trap>(t),
            },
    {
        let empty = Frame { return_arity: 0, locals: Vec::new() };
        assert(empty.locals@ =~= Seq::<Val>::empty());
        let frame = match &self.current_frame {
            Some(f) => f,
            None => &empty,
        };
        match administrative_instruction {
            AdministrativeInstruction::Invoke(func_addr) => {
                let call = Instr::Call(func_addr);
                execute_instruction(&mut self.stack, frame, &call, &self.store, MAX_CALL_DEPTH)
            },
            AdministrativeInstruction::Label(label) => {
                run(&mut self.stack, frame, &label, &self.store, MAX_CALL_DEPTH)
            },
            AdministrativeInstruction::Frame => Ok(()),
        }
    }
}

} // verus!
