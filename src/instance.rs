//! Instantiation of a decoded module into a store, and invocation of its exports.
use vstd::prelude::*;
use crate::instr::Instr;
use crate::module::{ExportDesc, Func, Module, types_model};
use crate::runtime::{
    execute_instruction, run_instr, top_values, FuncInst, Frame, Stack, StackValue, Store, Trap,
    Val,
};
use crate::types::{FuncType, NumType, ValType};

verus! {

pub type Addr = u32;

pub type FuncAddr = Addr;

/// How deeply calls may nest in one invocation.
pub const MAX_CALL_DEPTH: u32 = 1024;

/// What an export of an instance refers to.
#[derive(Debug, Clone, Copy, PartialEq, Eq, Structural)]
pub enum ExternVal {
    Func(FuncAddr),
}

/// A named export of an instance.
#[derive(Debug, PartialEq)]
pub struct ExportInst {
    pub name: String,
    pub value: ExternVal,
}

/// A module after instantiation: its signatures, the store addresses of its functions, and
/// its exports.
#[derive(Debug, PartialEq)]
pub struct ModuleInst {
    pub types: Vec<FuncType>,
    pub func_addrs: Vec<FuncAddr>,
    pub exports: Vec<ExportInst>,
}

/// `after` is `before` with the functions of `m` appended in order, each with a copy of its
/// signature.
pub open spec fn allocated(before: Seq<FuncInst>, after: Seq<FuncInst>, m: Module) -> bool {
    &&& after.len() == before.len() + m.funcs@.len()
    &&& after.subrange(0, before.len() as int) == before
    &&& forall|i: int|
        0 <= i < m.funcs@.len() ==> {
            &&& (#[trigger] after[before.len() + i]).code == m.funcs@[i]
            &&& after[before.len() + i].type_@ == m.types@[m.funcs@[i].type_ as int]@
        }
}

/// `inst` is the instance of `m` whose functions were appended to a store of `base` functions.
pub open spec fn instance_of(inst: ModuleInst, m: Module, base: nat) -> bool {
    &&& inst.types@ == m.types@
    &&& inst.func_addrs@ == Seq::new(m.funcs@.len(), |i: int| (base + i) as u32)
    &&& inst.exports@.len() == m.exports@.len()
    &&& forall|j: int|
        0 <= j < m.exports@.len() ==> {
            &&& (#[trigger] inst.exports@[j]).name == m.exports@[j].name
            &&& inst.exports@[j].value == match m.exports@[j].desc {
                ExportDesc::Func(f) => ExternVal::Func((base + f) as u32),
            }
        }
}

/// The elements of `v` in reverse order.
fn reversed<T>(v: Vec<T>) -> (r: Vec<T>)
    ensures
        r@.len() == v@.len(),
        forall|i: int| 0 <= i < v@.len() ==> #[trigger] r@[i] == v@[v@.len() - 1 - i],
{
    let ghost orig = v@;
    let mut v = v;
    let mut r: Vec<T> = Vec::new();
    while v.len() > 0
        invariant
            r@.len() + v@.len() == orig.len(),
            v@ == orig.subrange(0, v@.len() as int),
            forall|i: int| 0 <= i < r@.len() ==> #[trigger] r@[i] == orig[orig.len() - 1 - i],
        decreases v.len(),
    {
        let ghost before = v@;
        match v.pop() {
            Some(x) => {
                assert(x == orig[v@.len() as int]);
                r.push(x);
            },
            None => {},
        }
        assert(v@ =~= orig.subrange(0, v@.len() as int));
    }
    r
}

/// Appends a function to the store, with a copy of its signature from `module_inst`; gives
/// its address.
fn allocate_function(store: &mut Store, func: Func, module_inst: &ModuleInst) -> (r: FuncAddr)
    requires
        func.type_ < module_inst.types@.len(),
        old(store).funcs@.len() <= u32::MAX,
    ensures
        r == old(store).funcs@.len(),
        final(store).funcs@.len() == old(store).funcs@.len() + 1,
        final(store).funcs@.subrange(0, old(store).funcs@.len() as int) == old(store).funcs@,
        final(store).funcs@.last().code == func,
        final(store).funcs@.last().type_@ == module_inst.types@[func.type_ as int]@,
{
    let func_inst = FuncInst { type_: module_inst.types[func.type_ as usize].duplicate(), code: func };
    let addr = store.funcs.len() as u32;
    store.funcs.push(func_inst);
    assert(store.funcs@.subrange(0, addr as int) =~= old(store).funcs@);
    addr
}

/// Appends the functions of `module` to the store in order and builds its instance.
pub fn instantiate(store: &mut Store, module: Module) -> (r: ModuleInst)
    requires
        module@.wf(),
        old(store).funcs@.len() + module.funcs@.len() <= u32::MAX + 1,
    ensures
        allocated(old(store).funcs@, final(store).funcs@, module),
        instance_of(r, module, old(store).funcs@.len()),
{
    let ghost m = module;
    let ghost base = store.funcs@.len();
    let Module { types, funcs, exports } = module;
    let mut module_inst = ModuleInst { types, func_addrs: Vec::new(), exports: Vec::new() };
    let n = funcs.len();
    let mut pending = reversed(funcs);
    let mut k: usize = 0;
    while k < n
        invariant
            k <= n,
            n == m.funcs@.len(),
            m@.wf(),
            base + n <= u32::MAX + 1,
            pending@.len() == n - k,
            forall|i: int| 0 <= i < n - k ==> #[trigger] pending@[i] == m.funcs@[n - 1 - i],
            module_inst.types@ == m.types@,
            module_inst.exports@.len() == 0,
            module_inst.func_addrs@ == Seq::new(k as nat, |i: int| (base + i) as u32),
            store.funcs@.len() == base + k,
            store.funcs@.subrange(0, base as int) == old(store).funcs@,
            forall|i: int|
                0 <= i < k ==> {
                    &&& (#[trigger] store.funcs@[base + i]).code == m.funcs@[i]
                    &&& store.funcs@[base + i].type_@ == m.types@[m.funcs@[i].type_ as int]@
                },
        decreases n - k,
    {
        let func = pending.pop().unwrap();
        assert(func == m.funcs@[k as int]);
        assert(m@.funcs[k as int].type_ < m@.types.len());
        assert(types_model(m.types@).len() == m.types@.len());
        let ghost prev = store.funcs@;
        let addr = allocate_function(store, func, &module_inst);
        module_inst.func_addrs.push(addr);
        proof {
            assert(module_inst.func_addrs@ =~= Seq::new((k + 1) as nat, |i: int| (base + i) as u32));
            assert(store.funcs@.subrange(0, base as int) =~= prev.subrange(0, base as int));
            assert forall|i: int| 0 <= i < k + 1 implies {
                &&& (#[trigger] store.funcs@[base + i]).code == m.funcs@[i]
                &&& store.funcs@[base + i].type_@ == m.types@[m.funcs@[i].type_ as int]@
            } by {
                if i < k {
                    assert(store.funcs@[base + i] == store.funcs@.subrange(0, prev.len() as int)[base
                        + i]);
                }
            }
        }
        k = k + 1;
    }
    assert(store.funcs@.subrange(0, base as int) == old(store).funcs@);
    let e = exports.len();
    let mut pending_exports = reversed(exports);
    let mut j: usize = 0;
    while j < e
        invariant
            j <= e,
            e == m.exports@.len(),
            m@.wf(),
            base + m.funcs@.len() <= u32::MAX + 1,
            pending_exports@.len() == e - j,
            forall|i: int| 0 <= i < e - j ==> #[trigger] pending_exports@[i] == m.exports@[e - 1 - i],
            module_inst.types@ == m.types@,
            module_inst.func_addrs@ == Seq::new(m.funcs@.len(), |i: int| (base + i) as u32),
            module_inst.exports@.len() == j,
            forall|i: int|
                0 <= i < j ==> {
                    &&& (#[trigger] module_inst.exports@[i]).name == m.exports@[i].name
                    &&& module_inst.exports@[i].value == match m.exports@[i].desc {
                        ExportDesc::Func(f) => ExternVal::Func((base + f) as u32),
                    }
                },
        decreases e - j,
    {
        let export = pending_exports.pop().unwrap();
        assert(export == m.exports@[j as int]);
        let value = match export.desc {
            ExportDesc::Func(func_index) => {
                assert(m@.exports[j as int].desc == export.desc);
                ExternVal::Func(module_inst.func_addrs[func_index as usize])
            },
        };
        module_inst.exports.push(ExportInst { name: export.name, value });
        j = j + 1;
    }
    module_inst
}

/// Instantiates `module` into `store` and hands both back.
pub fn alloc_module(store: Store, module: Module) -> (r: (Store, ModuleInst))
    requires
        module@.wf(),
        store.funcs@.len() + module.funcs@.len() <= u32::MAX + 1,
    ensures
        allocated(store.funcs@, r.0.funcs@, module),
        instance_of(r.1, module, store.funcs@.len()),
{
    let mut store = store;
    let module_inst = instantiate(&mut store, module);
    (store, module_inst)
}

/// The index of the first export named `name`, searching from `i`.
pub open spec fn find_export(exports: Seq<ExportInst>, name: Seq<char>, i: int) -> Option<int>
    decreases exports.len() - i,
{
    if i < 0 || i >= exports.len() {
        None
    } else if exports[i].name@ == name {
        Some(i)
    } else {
        find_export(exports, name, i + 1)
    }
}

/// The stack an invocation starts from: the mark of the caller's frame, then the arguments.
pub open spec fn initial_stack(args: Seq<Val>) -> Seq<StackValue> {
    seq![StackValue::Frame(0)] + Seq::new(args.len(), |i: int| StackValue::Value(args[i]))
}

/// The results of invoking the export named `name` with `args`: the function is called from
/// an empty frame, and its results are the operands on top when it returns.
pub open spec fn spec_invoke(
    store: Seq<FuncInst>,
    exports: Seq<ExportInst>,
    name: Seq<char>,
    args: Seq<Val>,
) -> Result<Seq<Val>, Trap> {
    match find_export(exports, name, 0) {
        None => Err(Trap::UnknownExport),
        Some(i) => match exports[i].value {
            ExternVal::Func(addr) => if addr >= store.len() {
                Err(Trap::InvalidFunction)
            } else if args.len() != store[addr as int].type_.parameters@.len() {
                Err(Trap::ArityMismatch)
            } else {
                match run_instr(
                    store,
                    Seq::empty(),
                    initial_stack(args),
                    Instr::Call(addr),
                    MAX_CALL_DEPTH as nat,
                ) {
                    Ok(stack) => match top_values(stack, store[addr as int].type_.results@.len()) {
                        Some(results) => Ok(results),
                        None => Err(Trap::StackUnderflow),
                    },
                    Err(t) => Err(t),
                }
            },
        },
    }
}

/// The index of the first export named `name`.
fn find_export_index(exports: &Vec<ExportInst>, name: &String) -> (r: Option<usize>)
    ensures
        match r {
            Some(i) => find_export(exports@, name@, 0) == Some(i as int) && i < exports@.len(),
            None => find_export(exports@, name@, 0) is None,
        },
{
    let mut i: usize = 0;
    while i < exports.len()
        invariant
            i <= exports.len(),
            find_export(exports@, name@, 0) == find_export(exports@, name@, i as int),
        decreases exports.len() - i,
    {
        if exports[i].name == *name {
            return Some(i);
        }
        i = i + 1;
    }
    None
}

/// Invokes the export named `func_name` with `values` as its arguments; gives its results.
pub fn invoke(store: &Store, module: &ModuleInst, func_name: String, values: Vec<Val>) -> (r:
    Result<Vec<Val>, Trap>)
    ensures
        match spec_invoke(store.funcs@, module.exports@, func_name@, values@) {
            Ok(results) => r matches Ok(v) && v@ == results,
            Err(t) => r == Err::<Vec<Val>, Trap>(t),
        },
{
    let i = match find_export_index(&module.exports, &func_name) {
        Some(i) => i,
        None => return Err(Trap::UnknownExport),
    };
    let ExternVal::Func(func_address) = module.exports[i].value;
    if func_address as usize >= store.funcs.len() {
        return Err(Trap::InvalidFunction);
    }
    let func_type = &store.funcs[func_address as usize].type_;
    if func_type.parameters.len() != values.len() {
        return Err(Trap::ArityMismatch);
    }
    let mut stack = Stack::new();
    stack.push(StackValue::Frame(0));
    let mut k: usize = 0;
    while k < values.len()
        invariant
            k <= values.len(),
            stack@ == initial_stack(values@.subrange(0, k as int)),
        decreases values.len() - k,
    {
        stack.push(StackValue::Value(values[k]));
        k = k + 1;
        assert(stack@ =~= initial_stack(values@.subrange(0, k as int)));
    }
    assert(values@.subrange(0, k as int) =~= values@);
    let dummy_frame = Frame { return_arity: 0, locals: Vec::new() };
    assert(dummy_frame.locals@ =~= Seq::<Val>::empty());
    let call = Instr::Call(func_address);
    match execute_instruction(&mut stack, &dummy_frame, &call, store, MAX_CALL_DEPTH) {
        Ok(()) => {},
        Err(t) => return Err(t),
    }
    let results = match stack.pop_values(func_type.results.len()) {
        Ok(v) => v,
        Err(t) => return Err(t),
    };
    Ok(results)
}

/// An integer given for a parameter of type `t`: an `i32` takes its low 32 bits. Floats take
/// no integer.
pub open spec fn bind_value(t: ValType, x: i64) -> Option<Val> {
    match t {
        ValType::NumType(NumType::I32) => Some(Val::I32(x as i32)),
        ValType::NumType(NumType::I64) => Some(Val::I64(x)),
        _ => None,
    }
}

/// The arguments that the integers `raw` make for the parameters `params`, by position.
pub open spec fn bind_spec(params: Seq<ValType>, raw: Seq<i64>) -> Result<Seq<Val>, Trap> {
    if params.len() != raw.len() {
        Err(Trap::ArityMismatch)
    } else if exists|i: int| 0 <= i < params.len() && #[trigger] bind_value(params[i], raw[i]) is None {
        Err(Trap::Unsupported)
    } else {
        Ok(Seq::new(params.len(), |i: int| bind_value(params[i], raw[i])->Some_0))
    }
}

/// The parameter types of the export named `name`.
pub open spec fn export_params(
    store: Seq<FuncInst>,
    exports: Seq<ExportInst>,
    name: Seq<char>,
) -> Result<Seq<ValType>, Trap> {
    match find_export(exports, name, 0) {
        None => Err(Trap::UnknownExport),
        Some(i) => match exports[i].value {
            ExternVal::Func(addr) => if addr >= store.len() {
                Err(Trap::InvalidFunction)
            } else {
                Ok(store[addr as int].type_.parameters@)
            },
        },
    }
}

/// Makes the arguments for the export named `func_name` from integers, one per parameter.
pub fn bind_arguments(store: &Store, module: &ModuleInst, func_name: &String, raw: &Vec<i64>) -> (r:
    Result<Vec<Val>, Trap>)
    ensures
        match export_params(store.funcs@, module.exports@, func_name@) {
            Ok(params) => match bind_spec(params, raw@) {
                Ok(vs) => r matches Ok(v) && v@ == vs,
                Err(t) => r == Err::<Vec<Val>, Trap>(t),
            },
            Err(t) => r == Err::<Vec<Val>, Trap>(t),
        },
{
    let i = match find_export_index(&module.exports, func_name) {
        Some(i) => i,
        None => return Err(Trap::UnknownExport),
    };
    let ExternVal::Func(func_address) = module.exports[i].value;
    if func_address as usize >= store.funcs.len() {
        return Err(Trap::InvalidFunction);
    }
    let params = &store.funcs[func_address as usize].type_.parameters;
    if params.len() != raw.len() {
        return Err(Trap::ArityMismatch);
    }
    assert(export_params(store.funcs@, module.exports@, func_name@) == Ok::<Seq<ValType>, Trap>(
        params@,
    ));
    let mut values: Vec<Val> = Vec::new();
    let mut k: usize = 0;
    while k < params.len()
        invariant
            export_params(store.funcs@, module.exports@, func_name@) == Ok::<Seq<ValType>, Trap>(
                params@,
            ),
            k <= params.len(),
            params.len() == raw.len(),
            forall|j: int| 0 <= j < k ==> #[trigger] bind_value(params@[j], raw@[j]) is Some,
            values@ == Seq::new(k as nat, |j: int| bind_value(params@[j], raw@[j])->Some_0),
        decreases params.len() - k,
    {
        let v = match params[k] {
            ValType::NumType(NumType::I32) => Val::I32(raw[k] as i32),
            ValType::NumType(NumType::I64) => Val::I64(raw[k]),
            _ => {
                assert(bind_value(params@[k as int], raw@[k as int]) is None);
                assert(bind_spec(params@, raw@) == Err::<Seq<Val>, Trap>(Trap::Unsupported));
                return Err(Trap::Unsupported);
            },
        };
        values.push(v);
        k = k + 1;
        assert(values@ =~= Seq::new(k as nat, |j: int| bind_value(params@[j], raw@[j])->Some_0));
    }
    Ok(values)
}

} // verus!
