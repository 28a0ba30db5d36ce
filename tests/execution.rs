use wasm_interp::instance::{
    alloc_module, bind_arguments, instantiate, invoke, ExportInst, ExternVal, ModuleInst,
};
use wasm_interp::instr::{Expr, Instr};
use wasm_interp::module::{Export, ExportDesc, Func, Module};
use wasm_interp::runtime::{
    run, AdministrativeInstruction, FuncInst, Frame, Label, Runtime, Stack, StackValue, Store,
    Trap, Val,
};
use wasm_interp::types::{BlockType, FuncType, NumType, ValType};

fn t(k: NumType) -> ValType {
    ValType::NumType(k)
}

/// A store holding one exported function.
fn single(
    name: &str,
    params: Vec<ValType>,
    results: Vec<ValType>,
    locals: Vec<ValType>,
    body: Vec<Instr>,
) -> (Store, ModuleInst) {
    let module = Module {
        types: vec![FuncType { parameters: params, results }],
        funcs: vec![Func { type_: 0, locals, body: Expr(body) }],
        exports: vec![Export { name: name.to_string(), desc: ExportDesc::Func(0) }],
    };
    let mut store = Store { funcs: Vec::new() };
    let inst = instantiate(&mut store, module);
    (store, inst)
}

fn binary_i32(name: &str, op: Instr) -> (Store, ModuleInst) {
    single(
        name,
        vec![t(NumType::I32), t(NumType::I32)],
        vec![t(NumType::I32)],
        vec![],
        vec![Instr::LocalGet(0), Instr::LocalGet(1), op],
    )
}

fn unary_i32(name: &str, op: Instr) -> (Store, ModuleInst) {
    single(name, vec![t(NumType::I32)], vec![t(NumType::I32)], vec![], vec![Instr::LocalGet(0), op])
}

fn binary_i64(name: &str, op: Instr, result: NumType) -> (Store, ModuleInst) {
    single(
        name,
        vec![t(NumType::I64), t(NumType::I64)],
        vec![t(result)],
        vec![],
        vec![Instr::LocalGet(0), Instr::LocalGet(1), op],
    )
}

fn call2(m: &(Store, ModuleInst), name: &str, a: i32, b: i32) -> Result<Vec<Val>, Trap> {
    invoke(&m.0, &m.1, name.to_string(), vec![Val::I32(a), Val::I32(b)])
}

fn call1(m: &(Store, ModuleInst), name: &str, a: i32) -> Result<Vec<Val>, Trap> {
    invoke(&m.0, &m.1, name.to_string(), vec![Val::I32(a)])
}

fn call2_64(m: &(Store, ModuleInst), name: &str, a: i64, b: i64) -> Result<Vec<Val>, Trap> {
    invoke(&m.0, &m.1, name.to_string(), vec![Val::I64(a), Val::I64(b)])
}

#[test]
fn test_empty() {
    let store = Store { funcs: Vec::new() };
    let module = Module { types: Vec::new(), funcs: Vec::new(), exports: Vec::new() };
    let (store, module_inst) = alloc_module(store, module);
    assert_eq!(store.funcs, Vec::new());
    assert_eq!(module_inst.func_addrs, Vec::new());
    assert_eq!(module_inst.types, Vec::new());
    assert_eq!(module_inst.exports, Vec::new());
}

#[test]
fn test_func() {
    let store = Store { funcs: Vec::new() };
    let module = Module {
        types: vec![FuncType {
            parameters: vec![ValType::NumType(NumType::I32)],
            results: vec![ValType::NumType(NumType::I32)],
        }],
        funcs: vec![Func {
            type_: 0,
            locals: Vec::new(),
            body: Expr(vec![Instr::LocalGet(0), Instr::LocalGet(1), Instr::I32Add]),
        }],
        exports: vec![Export { name: "add".to_string(), desc: ExportDesc::Func(0) }],
    };
    let (store, module_inst) = alloc_module(store, module);
    assert_eq!(
        store.funcs,
        vec![FuncInst {
            type_: FuncType {
                parameters: vec![ValType::NumType(NumType::I32)],
                results: vec![ValType::NumType(NumType::I32)],
            },
            code: Func {
                type_: 0,
                locals: Vec::new(),
                body: Expr(vec![Instr::LocalGet(0), Instr::LocalGet(1), Instr::I32Add]),
            }
        }]
    );
    assert_eq!(
        module_inst.types,
        vec![FuncType {
            parameters: vec![ValType::NumType(NumType::I32)],
            results: vec![ValType::NumType(NumType::I32)],
        }]
    );
    assert_eq!(module_inst.func_addrs, vec![0]);
    assert_eq!(
        module_inst.exports,
        vec![ExportInst { name: "add".to_string(), value: ExternVal::Func(0) },]
    );
}

#[test]
fn second_instance_gets_fresh_addresses() {
    let (mut store, _) = binary_i32("add", Instr::I32Add);
    let module = Module {
        types: vec![FuncType { parameters: vec![], results: vec![] }],
        funcs: vec![
            Func { type_: 0, locals: vec![], body: Expr(vec![]) },
            Func { type_: 0, locals: vec![], body: Expr(vec![]) },
        ],
        exports: vec![Export { name: "second".to_string(), desc: ExportDesc::Func(1) }],
    };
    let inst = instantiate(&mut store, module);
    assert_eq!(store.funcs.len(), 3);
    assert_eq!(inst.func_addrs, vec![1, 2]);
    assert_eq!(inst.exports[0].value, ExternVal::Func(2));
}

#[test]
fn add_two_and_three() {
    let m = binary_i32("add", Instr::I32Add);
    assert_eq!(call2(&m, "add", 2, 3), Ok(vec![Val::I32(5)]));
    assert_eq!(call2(&m, "add", i32::MAX, 1), Ok(vec![Val::I32(i32::MIN)]));
}

#[test]
fn div_s_truncates_and_traps() {
    let m = binary_i32("div_s", Instr::I32DivS);
    assert_eq!(call2(&m, "div_s", -7, 2), Ok(vec![Val::I32(-3)]));
    assert_eq!(call2(&m, "div_s", 7, -2), Ok(vec![Val::I32(-3)]));
    assert_eq!(call2(&m, "div_s", 1, 0), Err(Trap::DivideByZero));
    assert_eq!(call2(&m, "div_s", i32::MIN, -1), Err(Trap::IntegerOverflow));
}

#[test]
fn clz_of_zero_and_one() {
    let m = unary_i32("clz", Instr::I32Clz);
    assert_eq!(call1(&m, "clz", 0), Ok(vec![Val::I32(32)]));
    assert_eq!(call1(&m, "clz", 1), Ok(vec![Val::I32(31)]));
    assert_eq!(call1(&m, "clz", -1), Ok(vec![Val::I32(0)]));
}

#[test]
fn ctz_and_popcnt() {
    let m = unary_i32("ctz", Instr::I32Ctz);
    assert_eq!(call1(&m, "ctz", 0), Ok(vec![Val::I32(32)]));
    assert_eq!(call1(&m, "ctz", 8), Ok(vec![Val::I32(3)]));
    assert_eq!(call1(&m, "ctz", i32::MIN), Ok(vec![Val::I32(31)]));
    let m = unary_i32("popcnt", Instr::I32Popcnt);
    assert_eq!(call1(&m, "popcnt", 0), Ok(vec![Val::I32(0)]));
    assert_eq!(call1(&m, "popcnt", -1), Ok(vec![Val::I32(32)]));
    assert_eq!(call1(&m, "popcnt", 0x0f0f), Ok(vec![Val::I32(8)]));
}

#[test]
fn extend8_s_of_ff() {
    let m = unary_i32("extend8_s", Instr::I32Extend8S);
    assert_eq!(call1(&m, "extend8_s", 0xFF), Ok(vec![Val::I32(-1)]));
    assert_eq!(call1(&m, "extend8_s", 0x7F), Ok(vec![Val::I32(127)]));
    let m = unary_i32("extend16_s", Instr::I32Extend16S);
    assert_eq!(call1(&m, "extend16_s", 0x8000), Ok(vec![Val::I32(-32768)]));
}

#[test]
fn eqz_values() {
    let m = unary_i32("eqz", Instr::I32Eqz);
    assert_eq!(call1(&m, "eqz", 0), Ok(vec![Val::I32(1)]));
    assert_eq!(call1(&m, "eqz", 5), Ok(vec![Val::I32(0)]));
}

#[test]
fn remainders() {
    let m = binary_i32("rem_s", Instr::I32RemS);
    assert_eq!(call2(&m, "rem_s", -7, 2), Ok(vec![Val::I32(-1)]));
    assert_eq!(call2(&m, "rem_s", 7, -2), Ok(vec![Val::I32(1)]));
    assert_eq!(call2(&m, "rem_s", i32::MIN, -1), Ok(vec![Val::I32(0)]));
    assert_eq!(call2(&m, "rem_s", 1, 0), Err(Trap::DivideByZero));
    let m = binary_i32("rem_u", Instr::I32RemU);
    assert_eq!(call2(&m, "rem_u", -1, 10), Ok(vec![Val::I32(5)]));
    assert_eq!(call2(&m, "rem_u", 1, 0), Err(Trap::DivideByZero));
    let m = binary_i32("div_u", Instr::I32DivU);
    assert_eq!(call2(&m, "div_u", -1, 2), Ok(vec![Val::I32(i32::MAX)]));
    assert_eq!(call2(&m, "div_u", 1, 0), Err(Trap::DivideByZero));
}

#[test]
fn arithmetic_wraps() {
    let m = binary_i32("sub", Instr::I32Sub);
    assert_eq!(call2(&m, "sub", i32::MIN, 1), Ok(vec![Val::I32(i32::MAX)]));
    let m = binary_i32("mul", Instr::I32Mul);
    assert_eq!(call2(&m, "mul", 0x10000, 0x10000), Ok(vec![Val::I32(0)]));
    assert_eq!(call2(&m, "mul", -3, 7), Ok(vec![Val::I32(-21)]));
}

#[test]
fn bitwise_ops() {
    let m = binary_i32("and", Instr::I32And);
    assert_eq!(call2(&m, "and", 0b1100, 0b1010), Ok(vec![Val::I32(0b1000)]));
    let m = binary_i32("or", Instr::I32Or);
    assert_eq!(call2(&m, "or", 0b1100, 0b1010), Ok(vec![Val::I32(0b1110)]));
    let m = binary_i32("xor", Instr::I32Xor);
    assert_eq!(call2(&m, "xor", 0b1100, 0b1010), Ok(vec![Val::I32(0b0110)]));
}

#[test]
fn shifts_use_count_mod_32() {
    let m = binary_i32("shl", Instr::I32Shl);
    assert_eq!(call2(&m, "shl", 1, 33), Ok(vec![Val::I32(2)]));
    assert_eq!(call2(&m, "shl", 1, 31), Ok(vec![Val::I32(i32::MIN)]));
    let m = binary_i32("shr_s", Instr::I32ShrS);
    assert_eq!(call2(&m, "shr_s", -8, 1), Ok(vec![Val::I32(-4)]));
    assert_eq!(call2(&m, "shr_s", -8, 32), Ok(vec![Val::I32(-8)]));
    let m = binary_i32("shr_u", Instr::I32ShrU);
    assert_eq!(call2(&m, "shr_u", -8, 1), Ok(vec![Val::I32(0x7ffffffc)]));
}

#[test]
fn rotations_rotate_the_left_operand() {
    let m = binary_i32("rotl", Instr::I32Rotl);
    assert_eq!(call2(&m, "rotl", i32::MIN | 1, 1), Ok(vec![Val::I32(3)]));
    assert_eq!(call2(&m, "rotl", 0x12345678, 0), Ok(vec![Val::I32(0x12345678)]));
    assert_eq!(call2(&m, "rotl", 0x12345678, 36), Ok(vec![Val::I32(0x23456781)]));
    let m = binary_i32("rotr", Instr::I32Rotr);
    assert_eq!(call2(&m, "rotr", 3, 1), Ok(vec![Val::I32(i32::MIN | 1)]));
    assert_eq!(call2(&m, "rotr", 0x12345678, 4), Ok(vec![Val::I32(-2128394905)]));
}

#[test]
fn signed_and_unsigned_comparisons() {
    let lt_s = binary_i32("lt_s", Instr::I32LtS);
    let lt_u = binary_i32("lt_u", Instr::I32LtU);
    assert_eq!(call2(&lt_s, "lt_s", -1, 1), Ok(vec![Val::I32(1)]));
    assert_eq!(call2(&lt_u, "lt_u", -1, 1), Ok(vec![Val::I32(0)]));
    assert_eq!(call2(&lt_s, "lt_s", 1, 2), Ok(vec![Val::I32(1)]));
    assert_eq!(call2(&lt_u, "lt_u", 1, 2), Ok(vec![Val::I32(1)]));
    let ge_s = binary_i32("ge_s", Instr::I32GeS);
    assert_eq!(call2(&ge_s, "ge_s", 1, 2), Ok(vec![Val::I32(0)]));
    assert_eq!(call2(&ge_s, "ge_s", 2, 2), Ok(vec![Val::I32(1)]));
    let ge_u = binary_i32("ge_u", Instr::I32GeU);
    assert_eq!(call2(&ge_u, "ge_u", -1, 2), Ok(vec![Val::I32(1)]));
    let gt_s = binary_i32("gt_s", Instr::I32GtS);
    assert_eq!(call2(&gt_s, "gt_s", -1, -2), Ok(vec![Val::I32(1)]));
    let gt_u = binary_i32("gt_u", Instr::I32GtU);
    assert_eq!(call2(&gt_u, "gt_u", 1, -2), Ok(vec![Val::I32(0)]));
    let le_s = binary_i32("le_s", Instr::I32LeS);
    assert_eq!(call2(&le_s, "le_s", -2, -2), Ok(vec![Val::I32(1)]));
    let le_u = binary_i32("le_u", Instr::I32LeU);
    assert_eq!(call2(&le_u, "le_u", -2, 3), Ok(vec![Val::I32(0)]));
    let eq = binary_i32("eq", Instr::I32Eq);
    assert_eq!(call2(&eq, "eq", 4, 4), Ok(vec![Val::I32(1)]));
    let ne = binary_i32("ne", Instr::I32Ne);
    assert_eq!(call2(&ne, "ne", 4, 4), Ok(vec![Val::I32(0)]));
}

#[test]
fn i64_operations() {
    let m = binary_i64("add", Instr::I64Add, NumType::I64);
    assert_eq!(call2_64(&m, "add", i64::MAX, 1), Ok(vec![Val::I64(i64::MIN)]));
    let m = binary_i64("sub", Instr::I64Sub, NumType::I64);
    assert_eq!(call2_64(&m, "sub", 3, 10), Ok(vec![Val::I64(-7)]));
    let m = binary_i64("mul", Instr::I64Mul, NumType::I64);
    assert_eq!(call2_64(&m, "mul", 1 << 32, 1 << 32), Ok(vec![Val::I64(0)]));
    let m = binary_i64("div_s", Instr::I64DivS, NumType::I64);
    assert_eq!(call2_64(&m, "div_s", -7, 2), Ok(vec![Val::I64(-3)]));
    assert_eq!(call2_64(&m, "div_s", i64::MIN, -1), Err(Trap::IntegerOverflow));
    assert_eq!(call2_64(&m, "div_s", 5, 0), Err(Trap::DivideByZero));
    let m = binary_i64("rem_s", Instr::I64RemS, NumType::I64);
    assert_eq!(call2_64(&m, "rem_s", i64::MIN, -1), Ok(vec![Val::I64(0)]));
    let m = binary_i64("rotl", Instr::I64Rotl, NumType::I64);
    assert_eq!(call2_64(&m, "rotl", i64::MIN, 65), Ok(vec![Val::I64(1)]));
    let m = binary_i64("shr_s", Instr::I64ShrS, NumType::I64);
    assert_eq!(call2_64(&m, "shr_s", -16, 66), Ok(vec![Val::I64(-4)]));
    let m = binary_i64("lt_u", Instr::I64LtU, NumType::I32);
    assert_eq!(call2_64(&m, "lt_u", -1, 1), Ok(vec![Val::I32(0)]));
    let m = binary_i64("lt_s", Instr::I64LtS, NumType::I32);
    assert_eq!(call2_64(&m, "lt_s", -1, 1), Ok(vec![Val::I32(1)]));
    let m = single(
        "clz",
        vec![t(NumType::I64)],
        vec![t(NumType::I64)],
        vec![],
        vec![Instr::LocalGet(0), Instr::I64Clz],
    );
    assert_eq!(invoke(&m.0, &m.1, "clz".to_string(), vec![Val::I64(1)]), Ok(vec![Val::I64(63)]));
    assert_eq!(invoke(&m.0, &m.1, "clz".to_string(), vec![Val::I64(0)]), Ok(vec![Val::I64(64)]));
    let m = single(
        "eqz",
        vec![t(NumType::I64)],
        vec![t(NumType::I32)],
        vec![],
        vec![Instr::LocalGet(0), Instr::I64Eqz],
    );
    assert_eq!(invoke(&m.0, &m.1, "eqz".to_string(), vec![Val::I64(0)]), Ok(vec![Val::I32(1)]));
}

#[test]
fn mixed_locals_read_zero_f64() {
    let m = single(
        "type-mixed",
        vec![t(NumType::I64), t(NumType::F32), t(NumType::F64), t(NumType::I32), t(NumType::I32)],
        vec![t(NumType::F64)],
        vec![t(NumType::F32), t(NumType::I64), t(NumType::I64), t(NumType::F64)],
        vec![Instr::LocalGet(8)],
    );
    let args = vec![Val::I64(1), Val::F32(0), Val::F64(0), Val::I32(2), Val::I32(3)];
    assert_eq!(invoke(&m.0, &m.1, "type-mixed".to_string(), args), Ok(vec![Val::F64(0)]));
}

#[test]
fn locals_follow_the_arguments_in_order() {
    let params = vec![t(NumType::I32), t(NumType::I64), t(NumType::I32)];
    let locals = vec![t(NumType::I64), t(NumType::I32)];
    for (i, expected) in
        [Val::I32(10), Val::I64(20), Val::I32(30), Val::I64(0), Val::I32(0)].iter().enumerate()
    {
        let m = single("get", params.clone(), vec![], locals.clone(), vec![Instr::LocalGet(i as u32)]);
        let args = vec![Val::I32(10), Val::I64(20), Val::I32(30)];
        assert_eq!(invoke(&m.0, &m.1, "get".to_string(), args), Ok(vec![]));
        let m = single(
            "get",
            params.clone(),
            vec![t(NumType::I32)],
            locals.clone(),
            vec![Instr::LocalGet(i as u32)],
        );
        let args = vec![Val::I32(10), Val::I64(20), Val::I32(30)];
        assert_eq!(invoke(&m.0, &m.1, "get".to_string(), args), Ok(vec![*expected]));
    }
    let m = single("get", params, vec![], locals, vec![Instr::LocalGet(5)]);
    let args = vec![Val::I32(10), Val::I64(20), Val::I32(30)];
    assert_eq!(invoke(&m.0, &m.1, "get".to_string(), args), Err(Trap::LocalOutOfRange));
}

#[test]
fn if_else_picks_the_else_branch() {
    let m = single(
        "pick",
        vec![],
        vec![t(NumType::I32)],
        vec![],
        vec![
            Instr::I32Const(0),
            Instr::If(
                BlockType::ValType(t(NumType::I32)),
                vec![Instr::I32Const(1)],
                vec![Instr::I32Const(2)],
            ),
        ],
    );
    assert_eq!(invoke(&m.0, &m.1, "pick".to_string(), vec![]), Ok(vec![Val::I32(2)]));
}

#[test]
fn if_takes_then_on_nonzero() {
    let m = single(
        "pick",
        vec![t(NumType::I32)],
        vec![t(NumType::I32)],
        vec![],
        vec![
            Instr::LocalGet(0),
            Instr::If(
                BlockType::ValType(t(NumType::I32)),
                vec![Instr::I32Const(1)],
                vec![Instr::I32Const(2)],
            ),
        ],
    );
    assert_eq!(call1(&m, "pick", -5), Ok(vec![Val::I32(1)]));
    assert_eq!(call1(&m, "pick", 0), Ok(vec![Val::I32(2)]));
}

#[test]
fn call_passes_arguments_in_order() {
    let module = Module {
        types: vec![
            FuncType { parameters: vec![t(NumType::I32), t(NumType::I32)], results: vec![t(NumType::I32)] },
            FuncType { parameters: vec![], results: vec![t(NumType::I32)] },
        ],
        funcs: vec![
            Func {
                type_: 0,
                locals: vec![t(NumType::I32)],
                body: Expr(vec![Instr::LocalGet(0), Instr::LocalGet(1), Instr::I32Sub]),
            },
            Func {
                type_: 1,
                locals: vec![],
                body: Expr(vec![Instr::I32Const(10), Instr::I32Const(3), Instr::Call(0)]),
            },
        ],
        exports: vec![Export { name: "main".to_string(), desc: ExportDesc::Func(1) }],
    };
    let mut store = Store { funcs: Vec::new() };
    let inst = instantiate(&mut store, module);
    assert_eq!(invoke(&store, &inst, "main".to_string(), vec![]), Ok(vec![Val::I32(7)]));
}

#[test]
fn endless_recursion_exhausts_depth() {
    let m = single("loop", vec![], vec![], vec![], vec![Instr::Call(0)]);
    assert_eq!(invoke(&m.0, &m.1, "loop".to_string(), vec![]), Err(Trap::DepthExhausted));
}

#[test]
fn call_to_missing_function_traps() {
    let m = single("bad", vec![], vec![], vec![], vec![Instr::Call(7)]);
    assert_eq!(invoke(&m.0, &m.1, "bad".to_string(), vec![]), Err(Trap::InvalidFunction));
}

#[test]
fn invocation_failures() {
    let m = binary_i32("add", Instr::I32Add);
    assert_eq!(call2(&m, "sub", 1, 2), Err(Trap::UnknownExport));
    assert_eq!(call1(&m, "add", 1), Err(Trap::ArityMismatch));
    let m = single("under", vec![], vec![], vec![], vec![Instr::I32Add]);
    assert_eq!(invoke(&m.0, &m.1, "under".to_string(), vec![]), Err(Trap::StackUnderflow));
    let m = single("drop", vec![], vec![], vec![], vec![Instr::Drop]);
    assert_eq!(invoke(&m.0, &m.1, "drop".to_string(), vec![]), Err(Trap::StackUnderflow));
    let m = single("short", vec![], vec![t(NumType::I32)], vec![], vec![]);
    assert_eq!(invoke(&m.0, &m.1, "short".to_string(), vec![]), Err(Trap::StackUnderflow));
    let m = single(
        "mixed",
        vec![],
        vec![t(NumType::I32)],
        vec![],
        vec![Instr::I32Const(1), Instr::I64Const(2), Instr::I32Add],
    );
    assert_eq!(invoke(&m.0, &m.1, "mixed".to_string(), vec![]), Err(Trap::TypeMismatch));
    let m = single(
        "float",
        vec![t(NumType::F32)],
        vec![t(NumType::F32)],
        vec![],
        vec![Instr::LocalGet(0), Instr::F32Neg],
    );
    assert_eq!(
        invoke(&m.0, &m.1, "float".to_string(), vec![Val::F32(0)]),
        Err(Trap::Unsupported)
    );
}

#[test]
fn store_stays_usable_after_a_trap() {
    let m = binary_i32("div_s", Instr::I32DivS);
    assert_eq!(call2(&m, "div_s", 1, 0), Err(Trap::DivideByZero));
    assert_eq!(call2(&m, "div_s", 9, 3), Ok(vec![Val::I32(3)]));
}

#[test]
fn run_leaves_results_on_the_stack() {
    let store = Store { funcs: Vec::new() };
    let mut stack = Stack::new();
    stack.push(StackValue::Frame(0));
    let frame = Frame { return_arity: 1, locals: vec![Val::I32(4), Val::I32(6)] };
    let label = Label {
        argument_arity: 1,
        instructions: vec![Instr::LocalGet(0), Instr::LocalGet(1), Instr::I32Mul],
    };
    assert_eq!(run(&mut stack, &frame, &label, &store, 4), Ok(()));
    assert_eq!(stack.pop(), Some(StackValue::Value(Val::I32(24))));
    assert_eq!(stack.pop(), Some(StackValue::Frame(0)));
    assert_eq!(stack.pop(), None);
}

#[test]
fn pop_values_keeps_push_order() {
    let mut stack = Stack::new();
    stack.push(StackValue::Label(0));
    stack.push(StackValue::Value(Val::I32(1)));
    stack.push(StackValue::Value(Val::I64(2)));
    assert_eq!(stack.pop_values(2), Ok(vec![Val::I32(1), Val::I64(2)]));
    assert_eq!(stack.pop_values(1), Err(Trap::StackUnderflow));
}

#[test]
fn runtime_invokes_and_runs_labels() {
    let (store, _) = binary_i32("add", Instr::I32Add);
    let mut rt = Runtime { store, stack: Stack::new(), current_frame: None };
    rt.stack.push(StackValue::Value(Val::I32(40)));
    rt.stack.push(StackValue::Value(Val::I32(2)));
    assert_eq!(rt.run(AdministrativeInstruction::Invoke(0)), Ok(()));
    assert_eq!(rt.stack.pop(), Some(StackValue::Value(Val::I32(42))));
    assert_eq!(rt.run(AdministrativeInstruction::Invoke(3)), Err(Trap::InvalidFunction));
    assert_eq!(rt.run(AdministrativeInstruction::Frame), Ok(()));
    rt.current_frame = Some(Frame { return_arity: 0, locals: vec![Val::I64(9)] });
    let label = Label { argument_arity: 1, instructions: vec![Instr::LocalGet(0), Instr::I64Eqz] };
    assert_eq!(rt.run(AdministrativeInstruction::Label(label)), Ok(()));
    assert_eq!(rt.stack.pop(), Some(StackValue::Value(Val::I32(0))));
    rt.current_frame = None;
    let label = Label { argument_arity: 1, instructions: vec![Instr::LocalGet(0)] };
    assert_eq!(rt.run(AdministrativeInstruction::Label(label)), Err(Trap::LocalOutOfRange));
}

#[test]
fn arguments_bind_by_parameter_type() {
    let m = single(
        "f",
        vec![t(NumType::I32), t(NumType::I64)],
        vec![],
        vec![],
        vec![],
    );
    let name = "f".to_string();
    assert_eq!(
        bind_arguments(&m.0, &m.1, &name, &vec![0x1_0000_0005, -1]),
        Ok(vec![Val::I32(5), Val::I64(-1)])
    );
    assert_eq!(bind_arguments(&m.0, &m.1, &name, &vec![1]), Err(Trap::ArityMismatch));
    assert_eq!(
        bind_arguments(&m.0, &m.1, &"g".to_string(), &vec![1, 2]),
        Err(Trap::UnknownExport)
    );
    let m = single("h", vec![t(NumType::F64)], vec![], vec![], vec![]);
    assert_eq!(bind_arguments(&m.0, &m.1, &"h".to_string(), &vec![1]), Err(Trap::Unsupported));
}

#[test]
fn well_formedness_checks_indices() {
    let good = Module {
        types: vec![FuncType { parameters: vec![], results: vec![] }],
        funcs: vec![Func { type_: 0, locals: vec![], body: Expr(vec![]) }],
        exports: vec![Export { name: "f".to_string(), desc: ExportDesc::Func(0) }],
    };
    assert!(good.is_well_formed());
    let bad_type = Module {
        types: vec![],
        funcs: vec![Func { type_: 0, locals: vec![], body: Expr(vec![]) }],
        exports: vec![],
    };
    assert!(!bad_type.is_well_formed());
    let bad_export = Module {
        types: vec![],
        funcs: vec![],
        exports: vec![Export { name: "f".to_string(), desc: ExportDesc::Func(0) }],
    };
    assert!(!bad_export.is_well_formed());
}

#[test]
fn well_typed_straight_line_leaves_its_results() {
    let m = single(
        "calc",
        vec![t(NumType::I64)],
        vec![t(NumType::I32), t(NumType::I64)],
        vec![t(NumType::I32)],
        vec![
            Instr::LocalGet(1),
            Instr::I32Const(7),
            Instr::I32Xor,
            Instr::LocalGet(0),
            Instr::I64Const(3),
            Instr::I64Mul,
            Instr::I32Const(99),
            Instr::Drop,
        ],
    );
    assert_eq!(
        invoke(&m.0, &m.1, "calc".to_string(), vec![Val::I64(5)]),
        Ok(vec![Val::I32(7), Val::I64(15)])
    );
}
