//! A simple stack typing of function bodies, and the law that a well-typed body made of
//! instructions that cannot trap runs to its end and leaves exactly its results.
use vstd::prelude::*;
use crate::instance::{find_export, initial_stack, spec_invoke, ExternVal, ExportInst, MAX_CALL_DEPTH};
use crate::instr::Instr;
use crate::numeric::{i32_binary, i32_unary, i64_binary, i64_unary};
use crate::runtime::{
    call_locals, default_val, pop_value, pushed, run_instr, run_seq, step_numeric,
    top_values, FuncInst, StackValue, Val,
};
use crate::types::{NumType, ValType};

verus! {

pub open spec fn val_type(v: Val) -> ValType {
    match v {
        Val::I32(_) => ValType::NumType(NumType::I32),
        Val::I64(_) => ValType::NumType(NumType::I64),
        Val::F32(_) => ValType::NumType(NumType::F32),
        Val::F64(_) => ValType::NumType(NumType::F64),
    }
}

/// Each value has the type at its position.
pub open spec fn typed(vs: Seq<Val>, ts: Seq<ValType>) -> bool {
    &&& vs.len() == ts.len()
    &&& forall|i: int| 0 <= i < vs.len() ==> val_type(#[trigger] vs[i]) == ts[i]
}

/// `base` with the operands `vs` pushed on it in order.
pub open spec fn stack_of(base: Seq<StackValue>, vs: Seq<Val>) -> Seq<StackValue> {
    base + vs.map_values(|v: Val| StackValue::Value(v))
}

/// The instructions that trap on some operands: division and remainder.
pub open spec fn may_trap(i: Instr) -> bool {
    match i {
        Instr::I32DivS | Instr::I32DivU | Instr::I32RemS | Instr::I32RemU | Instr::I64DivS
        | Instr::I64DivU | Instr::I64RemS | Instr::I64RemU => true,
        _ => false,
    }
}

pub open spec fn i32_type() -> ValType {
    ValType::NumType(NumType::I32)
}

pub open spec fn i64_type() -> ValType {
    ValType::NumType(NumType::I64)
}

/// The operand types after `i`, given the types of the locals and of the operands before
/// it; `None` where `i` does not fit them, may trap, or calls.
pub open spec fn instr_type(lt: Seq<ValType>, st: Seq<ValType>, i: Instr) -> Option<Seq<ValType>>
    decreases i,
{
    match i {
        Instr::LocalGet(x) => if x < lt.len() {
            Some(st.push(lt[x as int]))
        } else {
            None
        },
        Instr::I32Const(_) => Some(st.push(i32_type())),
        Instr::I64Const(_) => Some(st.push(i64_type())),
        Instr::Drop => if st.len() > 0 {
            Some(st.drop_last())
        } else {
            None
        },
        Instr::If(_, th, el) => if st.len() > 0 && st.last() == i32_type() {
            match (seq_type(lt, st.drop_last(), th@), seq_type(lt, st.drop_last(), el@)) {
                (Some(a), Some(b)) => if a == b {
                    Some(a)
                } else {
                    None
                },
                _ => None,
            }
        } else {
            None
        },
        _ => if i32_unary(i, 0) is Some {
            if st.len() > 0 && st.last() == i32_type() {
                Some(st.drop_last().push(i32_type()))
            } else {
                None
            }
        } else if i64_unary(i, 0) is Some {
            if st.len() > 0 && st.last() == i64_type() {
                Some(st.drop_last().push(val_type(i64_unary(i, 0)->Some_0)))
            } else {
                None
            }
        } else if i32_binary(i, 0, 1) is Some && !may_trap(i) {
            if st.len() > 1 && st.last() == i32_type() && st[st.len() - 2] == i32_type() {
                Some(st.subrange(0, st.len() - 2).push(i32_type()))
            } else {
                None
            }
        } else if i64_binary(i, 0, 1) is Some && !may_trap(i) {
            if st.len() > 1 && st.last() == i64_type() && st[st.len() - 2] == i64_type() {
                Some(
                    st.subrange(0, st.len() - 2).push(
                        match i64_binary(i, 0, 1) {
                            Some(Ok(v)) => val_type(v),
                            _ => i64_type(),
                        },
                    ),
                )
            } else {
                None
            }
        } else {
            None
        },
    }
}

/// The operand types after `instrs`, run in order from `st`.
pub open spec fn seq_type(lt: Seq<ValType>, st: Seq<ValType>, instrs: Seq<Instr>) -> Option<
    Seq<ValType>,
>
    decreases instrs,
{
    if instrs.len() == 0 {
        Some(st)
    } else {
        match instr_type(lt, st, instrs[0]) {
            Some(st2) => seq_type(lt, st2, instrs.subrange(1, instrs.len() as int)),
            None => None,
        }
    }
}

proof fn lemma_stack_push(base: Seq<StackValue>, vs: Seq<Val>, v: Val)
    ensures
        pushed(stack_of(base, vs), v) == stack_of(base, vs.push(v)),
{
    assert(pushed(stack_of(base, vs), v) =~= stack_of(base, vs.push(v)));
}

proof fn lemma_stack_pop(base: Seq<StackValue>, vs: Seq<Val>)
    requires
        vs.len() > 0,
    ensures
        pop_value(stack_of(base, vs)) == Ok::<(Val, Seq<StackValue>), crate::runtime::Trap>(
            (vs.last(), stack_of(base, vs.drop_last())),
        ),
{
    assert(stack_of(base, vs).drop_last() =~= stack_of(base, vs.drop_last()));
}

proof fn lemma_typed_drop(vs: Seq<Val>, ts: Seq<ValType>)
    requires
        typed(vs, ts),
        vs.len() > 0,
    ensures
        typed(vs.drop_last(), ts.drop_last()),
        val_type(vs.last()) == ts.last(),
{
}

proof fn lemma_typed_push(vs: Seq<Val>, ts: Seq<ValType>, v: Val)
    requires
        typed(vs, ts),
    ensures
        typed(vs.push(v), ts.push(val_type(v))),
{
    assert forall|i: int| 0 <= i < vs.len() + 1 implies val_type(#[trigger] vs.push(v)[i]) == ts.push(
        val_type(v),
    )[i] by {
        if i < vs.len() {
            assert(vs.push(v)[i] == vs[i]);
        }
    }
}

/// One well-typed instruction runs without trapping and leaves operands of the types it is
/// typed with.
proof fn lemma_typed_instr(
    store: Seq<FuncInst>,
    locals: Seq<Val>,
    lt: Seq<ValType>,
    base: Seq<StackValue>,
    vals: Seq<Val>,
    st: Seq<ValType>,
    i: Instr,
    depth: nat,
) -> (out: Seq<Val>)
    requires
        typed(locals, lt),
        typed(vals, st),
        instr_type(lt, st, i) is Some,
    ensures
        run_instr(store, locals, stack_of(base, vals), i, depth) == Ok::<
            Seq<StackValue>,
            crate::runtime::Trap,
        >(stack_of(base, out)),
        typed(out, instr_type(lt, st, i)->Some_0),
    decreases i,
{
    let stack = stack_of(base, vals);
    match i {
        Instr::LocalGet(x) => {
            lemma_stack_push(base, vals, locals[x as int]);
            lemma_typed_push(vals, st, locals[x as int]);
            vals.push(locals[x as int])
        },
        Instr::I32Const(c) => {
            lemma_stack_push(base, vals, Val::I32(c));
            lemma_typed_push(vals, st, Val::I32(c));
            vals.push(Val::I32(c))
        },
        Instr::I64Const(c) => {
            lemma_stack_push(base, vals, Val::I64(c));
            lemma_typed_push(vals, st, Val::I64(c));
            vals.push(Val::I64(c))
        },
        Instr::Drop => {
            lemma_stack_pop(base, vals);
            lemma_typed_drop(vals, st);
            vals.drop_last()
        },
        Instr::If(_, th, el) => {
            lemma_stack_pop(base, vals);
            lemma_typed_drop(vals, st);
            let rest = vals.drop_last();
            assert(decreases_to!(i => th@));
            assert(decreases_to!(i => el@));
            match vals.last() {
                Val::I32(c) => {
                    if c != 0 {
                        lemma_typed_seq(store, locals, lt, base, rest, st.drop_last(), th@, depth)
                    } else {
                        lemma_typed_seq(store, locals, lt, base, rest, st.drop_last(), el@, depth)
                    }
                },
                _ => {
                    assert(false);
                    rest
                },
            }
        },
        _ => {
            assert(run_instr(store, locals, stack, i, depth) == step_numeric(stack, i));
            lemma_stack_pop(base, vals);
            lemma_typed_drop(vals, st);
            let rest = vals.drop_last();
            if i32_unary(i, 0) is Some {
                let a = vals.last()->I32_0;
                let v = Val::I32(i32_unary(i, a)->Some_0);
                lemma_stack_push(base, rest, v);
                lemma_typed_push(rest, st.drop_last(), v);
                rest.push(v)
            } else if i64_unary(i, 0) is Some {
                let a = vals.last()->I64_0;
                let v = i64_unary(i, a)->Some_0;
                lemma_stack_push(base, rest, v);
                lemma_typed_push(rest, st.drop_last(), v);
                rest.push(v)
            } else if i32_binary(i, 0, 1) is Some {
                lemma_stack_pop(base, rest);
                lemma_typed_drop(rest, st.drop_last());
                let below = rest.drop_last();
                assert(st.drop_last().drop_last() =~= st.subrange(0, st.len() - 2));
                let b = vals.last()->I32_0;
                let a = rest.last()->I32_0;
                let v = Val::I32(
                    match i32_binary(i, a, b) {
                        Some(Ok(x)) => x,
                        _ => 0,
                    },
                );
                lemma_stack_push(base, below, v);
                lemma_typed_push(below, st.subrange(0, st.len() - 2), v);
                below.push(v)
            } else {
                lemma_stack_pop(base, rest);
                lemma_typed_drop(rest, st.drop_last());
                let below = rest.drop_last();
                assert(st.drop_last().drop_last() =~= st.subrange(0, st.len() - 2));
                let b = vals.last()->I64_0;
                let a = rest.last()->I64_0;
                let v = match i64_binary(i, a, b) {
                    Some(Ok(x)) => x,
                    _ => Val::I64(0),
                };
                lemma_stack_push(base, below, v);
                lemma_typed_push(below, st.subrange(0, st.len() - 2), v);
                below.push(v)
            }
        },
    }
}

/// A well-typed sequence runs to its end without trapping and leaves operands of the types
/// it is typed with, above whatever lay below.
pub proof fn lemma_typed_seq(
    store: Seq<FuncInst>,
    locals: Seq<Val>,
    lt: Seq<ValType>,
    base: Seq<StackValue>,
    vals: Seq<Val>,
    st: Seq<ValType>,
    instrs: Seq<Instr>,
    depth: nat,
) -> (out: Seq<Val>)
    requires
        typed(locals, lt),
        typed(vals, st),
        seq_type(lt, st, instrs) is Some,
    ensures
        run_seq(store, locals, stack_of(base, vals), instrs, depth) == Ok::<
            Seq<StackValue>,
            crate::runtime::Trap,
        >(stack_of(base, out)),
        typed(out, seq_type(lt, st, instrs)->Some_0),
    decreases instrs,
{
    if instrs.len() == 0 {
        vals
    } else {
        let mid = lemma_typed_instr(store, locals, lt, base, vals, st, instrs[0], depth);
        let st2 = instr_type(lt, st, instrs[0])->Some_0;
        lemma_typed_seq(
            store,
            locals,
            lt,
            base,
            mid,
            st2,
            instrs.subrange(1, instrs.len() as int),
            depth,
        )
    }
}

proof fn lemma_top_values_of(base: Seq<StackValue>, vs: Seq<Val>)
    ensures
        top_values(stack_of(base, vs), vs.len()) == Some(vs),
        stack_of(base, vs).subrange(0, stack_of(base, vs).len() - vs.len()) == base,
{
    let s = stack_of(base, vs);
    assert forall|i: int| s.len() - vs.len() <= i < s.len() implies #[trigger] s[i] is Value by {
        assert(s[i] == StackValue::Value(vs[i - base.len()]));
    }
    assert(Seq::new(vs.len(), |i: int| s[s.len() - vs.len() + i]->Value_0) =~= vs);
    assert(s.subrange(0, s.len() - vs.len()) =~= base);
}

/// An invocation of an export whose body is well typed for its signature, with arguments of
/// its parameter types, returns without trapping, and returns exactly as many values as its
/// signature has results, of those types.
pub proof fn lemma_well_typed_invocation(
    store: Seq<FuncInst>,
    exports: Seq<ExportInst>,
    name: Seq<char>,
    args: Seq<Val>,
    k: int,
    addr: u32,
)
    requires
        find_export(exports, name, 0) == Some(k),
        exports[k].value == ExternVal::Func(addr),
        addr < store.len(),
        typed(args, store[addr as int].type_.parameters@),
        seq_type(
            store[addr as int].type_.parameters@ + store[addr as int].code.locals@,
            Seq::empty(),
            store[addr as int].code.body.0@,
        ) == Some(store[addr as int].type_.results@),
    ensures
        spec_invoke(store, exports, name, args) is Ok,
        typed(spec_invoke(store, exports, name, args)->Ok_0, store[addr as int].type_.results@),
{
    let f = store[addr as int];
    let base = seq![StackValue::Frame(0)];
    assert(initial_stack(args) =~= stack_of(base, args));
    lemma_top_values_of(base, args);
    let locals = call_locals(f, args);
    let lt = f.type_.parameters@ + f.code.locals@;
    assert(typed(locals, lt)) by {
        assert forall|i: int| 0 <= i < locals.len() implies val_type(#[trigger] locals[i])
            == lt[i] by {
            if i >= args.len() {
                let t = f.code.locals@[i - args.len()];
                assert(locals[i] == default_val(t));
            }
        }
    }
    let empty = Seq::<Val>::empty();
    assert(stack_of(base, empty) =~= base);
    let out = lemma_typed_seq(
        store,
        locals,
        lt,
        base,
        empty,
        Seq::empty(),
        f.code.body.0@,
        (MAX_CALL_DEPTH - 1) as nat,
    );
    lemma_top_values_of(base, out);
}

} // verus!
