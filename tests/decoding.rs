use wasm_interp::decoder::{Decoder, DecodingError};
use wasm_interp::instr::{Expr, Instr};
use wasm_interp::leb128::{read_i64, read_u32};
use wasm_interp::module::{Export, ExportDesc, Func, Module};
use wasm_interp::types::{BlockType, FuncType, NumType, ValType};

const I32: u8 = 0x7f;
const I64: u8 = 0x7e;
const F32: u8 = 0x7d;
const F64: u8 = 0x7c;

fn leb(mut x: u64) -> Vec<u8> {
    let mut out = Vec::new();
    loop {
        let low = (x & 0x7f) as u8;
        x >>= 7;
        if x == 0 {
            out.push(low);
            return out;
        }
        out.push(low | 0x80);
    }
}

fn section(id: u8, items: Vec<Vec<u8>>) -> Vec<u8> {
    let mut payload = leb(items.len() as u64);
    for item in items {
        payload.extend(item);
    }
    let mut out = vec![id];
    out.extend(leb(payload.len() as u64));
    out.extend(payload);
    out
}

fn functype(params: &[u8], results: &[u8]) -> Vec<u8> {
    let mut out = vec![0x60];
    out.extend(leb(params.len() as u64));
    out.extend_from_slice(params);
    out.extend(leb(results.len() as u64));
    out.extend_from_slice(results);
    out
}

fn export(name: &str, idx: u32) -> Vec<u8> {
    let mut out = leb(name.len() as u64);
    out.extend_from_slice(name.as_bytes());
    out.push(0x00);
    out.extend(leb(idx as u64));
    out
}

fn code(locals: &[(u32, u8)], body: &[u8]) -> Vec<u8> {
    let mut inner = leb(locals.len() as u64);
    for (n, t) in locals {
        inner.extend(leb(*n as u64));
        inner.push(*t);
    }
    inner.extend_from_slice(body);
    inner.push(0x0b);
    let mut out = leb(inner.len() as u64);
    out.extend(inner);
    out
}

fn module_bytes(
    types: Vec<Vec<u8>>,
    type_idxs: &[u32],
    exports: Vec<Vec<u8>>,
    codes: Vec<Vec<u8>>,
) -> Vec<u8> {
    let mut out = vec![0x00, 0x61, 0x73, 0x6d, 0x01, 0x00, 0x00, 0x00];
    out.extend(section(1, types));
    out.extend(section(3, type_idxs.iter().map(|i| leb(*i as u64)).collect()));
    out.extend(section(7, exports));
    out.extend(section(10, codes));
    out
}

fn decode(input: &[u8]) -> Result<Module, DecodingError> {
    let mut decoder = Decoder::new(input);
    decoder.decode()
}

fn i32t() -> ValType {
    ValType::NumType(NumType::I32)
}

fn binary_module(name: &str, op: u8) -> Vec<u8> {
    module_bytes(
        vec![functype(&[I32, I32], &[I32])],
        &[0],
        vec![export(name, 0)],
        vec![code(&[], &[0x20, 0x00, 0x20, 0x01, op])],
    )
}

fn unary_module(name: &str, op: u8) -> Vec<u8> {
    module_bytes(
        vec![functype(&[I32], &[I32])],
        &[0],
        vec![export(name, 0)],
        vec![code(&[], &[0x20, 0x00, op])],
    )
}

fn check_binary(name: &str, op: u8, instr: Instr) {
    let module = decode(&binary_module(name, op)).unwrap();
    assert_eq!(
        module.types,
        vec![FuncType { parameters: vec![i32t(), i32t()], results: vec![i32t()] }],
    );
    assert_eq!(
        module.funcs,
        vec![Func {
            type_: 0,
            locals: Vec::new(),
            body: Expr(vec![Instr::LocalGet(0), Instr::LocalGet(1), instr]),
        }],
    );
    assert_eq!(module.exports, vec![Export { name: name.to_string(), desc: ExportDesc::Func(0) }]);
}

fn check_unary(name: &str, op: u8, instr: Instr) {
    let module = decode(&unary_module(name, op)).unwrap();
    assert_eq!(
        module.types,
        vec![FuncType { parameters: vec![i32t()], results: vec![i32t()] }],
    );
    assert_eq!(
        module.funcs,
        vec![Func { type_: 0, locals: Vec::new(), body: Expr(vec![Instr::LocalGet(0), instr]) }],
    );
    assert_eq!(module.exports, vec![Export { name: name.to_string(), desc: ExportDesc::Func(0) }]);
}

#[test]
fn test_i32_add() {
    check_binary("add", 0x6a, Instr::I32Add);
}

#[test]
fn test_i32_div_s() {
    check_binary("div_s", 0x6d, Instr::I32DivS);
}

#[test]
fn test_i32_clz() {
    check_unary("clz", 0x67, Instr::I32Clz);
}

#[test]
fn test_i32_eq() {
    check_binary("eq", 0x46, Instr::I32Eq);
}

#[test]
fn test_i32_eqz() {
    check_unary("eqz", 0x45, Instr::I32Eqz);
}

#[test]
fn test_i32_extend8_s() {
    check_unary("extend8_s", 0xc0, Instr::I32Extend8S);
}

#[test]
fn test_i32() {
    let binary: Vec<(&str, u8, Instr)> = vec![
        ("add", 0x6a, Instr::I32Add),
        ("sub", 0x6b, Instr::I32Sub),
        ("mul", 0x6c, Instr::I32Mul),
        ("div_s", 0x6d, Instr::I32DivS),
        ("div_u", 0x6e, Instr::I32DivU),
        ("rem_s", 0x6f, Instr::I32RemS),
        ("rem_u", 0x70, Instr::I32RemU),
        ("and", 0x71, Instr::I32And),
        ("or", 0x72, Instr::I32Or),
        ("xor", 0x73, Instr::I32Xor),
        ("shl", 0x74, Instr::I32Shl),
        ("shr_s", 0x75, Instr::I32ShrS),
        ("shr_u", 0x76, Instr::I32ShrU),
        ("rotl", 0x77, Instr::I32Rotl),
        ("rotr", 0x78, Instr::I32Rotr),
    ];
    let unary: Vec<(&str, u8, Instr)> = vec![
        ("clz", 0x67, Instr::I32Clz),
        ("ctz", 0x68, Instr::I32Ctz),
        ("popcnt", 0x69, Instr::I32Popcnt),
        ("extend8_s", 0xc0, Instr::I32Extend8S),
        ("extend16_s", 0xc1, Instr::I32Extend16S),
        ("eqz", 0x45, Instr::I32Eqz),
    ];
    let compare: Vec<(&str, u8, Instr)> = vec![
        ("eq", 0x46, Instr::I32Eq),
        ("ne", 0x47, Instr::I32Ne),
        ("lt_s", 0x48, Instr::I32LtS),
        ("lt_u", 0x49, Instr::I32LtU),
        ("le_s", 0x4c, Instr::I32LeS),
        ("le_u", 0x4d, Instr::I32LeU),
        ("gt_s", 0x4a, Instr::I32GtS),
        ("gt_u", 0x4b, Instr::I32GtU),
        ("ge_s", 0x4e, Instr::I32GeS),
        ("ge_u", 0x4f, Instr::I32GeU),
    ];
    let mut type_idxs = Vec::new();
    let mut exports = Vec::new();
    let mut codes = Vec::new();
    let mut expected_funcs = Vec::new();
    let mut expected_exports = Vec::new();
    let all: Vec<(&str, u8, Instr, u32)> = binary
        .into_iter()
        .map(|(n, o, i)| (n, o, i, 0))
        .chain(unary.into_iter().map(|(n, o, i)| (n, o, i, 1)))
        .chain(compare.into_iter().map(|(n, o, i)| (n, o, i, 0)))
        .collect();
    for (k, (name, op, instr, ty)) in all.into_iter().enumerate() {
        type_idxs.push(ty);
        exports.push(export(name, k as u32));
        if ty == 0 {
            codes.push(code(&[], &[0x20, 0x00, 0x20, 0x01, op]));
            expected_funcs.push(Func {
                type_: 0,
                locals: Vec::new(),
                body: Expr(vec![Instr::LocalGet(0), Instr::LocalGet(1), instr]),
            });
        } else {
            codes.push(code(&[], &[0x20, 0x00, op]));
            expected_funcs.push(Func {
                type_: 1,
                locals: Vec::new(),
                body: Expr(vec![Instr::LocalGet(0), instr]),
            });
        }
        expected_exports.push(Export { name: name.to_string(), desc: ExportDesc::Func(k as u32) });
    }
    let bytes = module_bytes(
        vec![functype(&[I32, I32], &[I32]), functype(&[I32], &[I32])],
        &type_idxs,
        exports,
        codes,
    );
    let module = decode(&bytes).unwrap();
    assert_eq!(
        module.types,
        vec![
            FuncType { parameters: vec![i32t(), i32t()], results: vec![i32t()] },
            FuncType { parameters: vec![i32t()], results: vec![i32t()] },
        ],
    );
    assert_eq!(module.funcs, expected_funcs);
    assert_eq!(module.exports, expected_exports);
}

#[test]
fn test_local_get_0() {
    let bytes = module_bytes(
        vec![functype(&[], &[I32]), functype(&[], &[I64]), functype(&[], &[F32]), functype(&[], &[F64])],
        &[0, 1, 2, 3],
        vec![
            export("type-local-i32", 0),
            export("type-local-i64", 1),
            export("type-local-f32", 2),
            export("type-local-f64", 3),
        ],
        vec![
            code(&[(1, I32)], &[0x20, 0x00]),
            code(&[(1, I64)], &[0x20, 0x00]),
            code(&[(1, F32)], &[0x20, 0x00]),
            code(&[(1, F64)], &[0x20, 0x00]),
        ],
    );
    let module = decode(&bytes).unwrap();
    let kinds = [NumType::I32, NumType::I64, NumType::F32, NumType::F64];
    assert_eq!(
        module.types,
        kinds
            .iter()
            .map(|k| FuncType { parameters: vec![], results: vec![ValType::NumType(*k)] })
            .collect::<Vec<_>>(),
    );
    assert_eq!(
        module.funcs,
        kinds
            .iter()
            .enumerate()
            .map(|(i, k)| Func {
                type_: i as u32,
                locals: vec![ValType::NumType(*k)],
                body: Expr(vec![Instr::LocalGet(0)]),
            })
            .collect::<Vec<_>>(),
    );
    assert_eq!(
        module.exports,
        vec![
            Export { name: "type-local-i32".to_string(), desc: ExportDesc::Func(0) },
            Export { name: "type-local-i64".to_string(), desc: ExportDesc::Func(1) },
            Export { name: "type-local-f32".to_string(), desc: ExportDesc::Func(2) },
            Export { name: "type-local-f64".to_string(), desc: ExportDesc::Func(3) },
        ],
    );
}

fn mixed_module() -> Vec<u8> {
    module_bytes(
        vec![functype(&[I64, F32, F64, I32, I32], &[])],
        &[0],
        vec![export("type-mixed", 0)],
        vec![code(
            &[(1, F32), (2, I64), (1, F64)],
            &[
                0x20, 0, 0x50, 0x1a, 0x20, 1, 0x8c, 0x1a, 0x20, 2, 0x9a, 0x1a, 0x20, 3, 0x45, 0x1a,
                0x20, 4, 0x45, 0x1a, 0x20, 5, 0x8c, 0x1a, 0x20, 6, 0x50, 0x1a, 0x20, 7, 0x50, 0x1a,
                0x20, 8, 0x9a, 0x1a,
            ],
        )],
    )
}

#[test]
fn test_local_get_1() {
    let module = decode(&mixed_module()).unwrap();
    let t = |k| ValType::NumType(k);
    assert_eq!(
        module.types,
        vec![FuncType {
            parameters: vec![t(NumType::I64), t(NumType::F32), t(NumType::F64), t(NumType::I32), t(NumType::I32)],
            results: vec![],
        }],
    );
    assert_eq!(
        module.funcs,
        vec![Func {
            type_: 0,
            locals: vec![t(NumType::F32), t(NumType::I64), t(NumType::I64), t(NumType::F64)],
            body: Expr(vec![
                Instr::LocalGet(0),
                Instr::I64Eqz,
                Instr::Drop,
                Instr::LocalGet(1),
                Instr::F32Neg,
                Instr::Drop,
                Instr::LocalGet(2),
                Instr::F64Neg,
                Instr::Drop,
                Instr::LocalGet(3),
                Instr::I32Eqz,
                Instr::Drop,
                Instr::LocalGet(4),
                Instr::I32Eqz,
                Instr::Drop,
                Instr::LocalGet(5),
                Instr::F32Neg,
                Instr::Drop,
                Instr::LocalGet(6),
                Instr::I64Eqz,
                Instr::Drop,
                Instr::LocalGet(7),
                Instr::I64Eqz,
                Instr::Drop,
                Instr::LocalGet(8),
                Instr::F64Neg,
                Instr::Drop,
            ]),
        }],
    );
    assert_eq!(
        module.exports,
        vec![Export { name: "type-mixed".to_string(), desc: ExportDesc::Func(0) }],
    );
}

#[test]
fn mixed_locals_expand_to_nine() {
    let module = decode(&mixed_module()).unwrap();
    let params = module.types[0].parameters.len();
    assert_eq!(params + module.funcs[0].locals.len(), 9);
}

#[test]
fn nested_if_decodes_with_both_branches() {
    let body = [0x41, 0x00, 0x04, I32, 0x41, 0x01, 0x05, 0x41, 0x02, 0x0b];
    let bytes = module_bytes(
        vec![functype(&[], &[I32])],
        &[0],
        vec![export("pick", 0)],
        vec![code(&[], &body)],
    );
    let module = decode(&bytes).unwrap();
    assert_eq!(
        module.funcs[0].body,
        Expr(vec![
            Instr::I32Const(0),
            Instr::If(
                BlockType::ValType(i32t()),
                vec![Instr::I32Const(1)],
                vec![Instr::I32Const(2)]
            ),
        ]),
    );
}

#[test]
fn if_without_else_and_empty_block_type() {
    let body = [0x41, 0x01, 0x04, 0x40, 0x41, 0x07, 0x1a, 0x0b];
    let bytes = module_bytes(vec![functype(&[], &[])], &[0], vec![], vec![code(&[], &body)]);
    let module = decode(&bytes).unwrap();
    assert_eq!(
        module.funcs[0].body,
        Expr(vec![
            Instr::I32Const(1),
            Instr::If(BlockType::Empty, vec![Instr::I32Const(7), Instr::Drop], vec![]),
        ]),
    );
}

#[test]
fn constants_use_signed_leb128() {
    let mut body = vec![0x41];
    body.extend([0x7f]);
    body.push(0x42);
    body.extend([0x80, 0x80, 0x80, 0x80, 0x80, 0x80, 0x80, 0x80, 0x80, 0x7f]);
    body.push(0x41);
    body.extend([0xff, 0xff, 0xff, 0xff, 0x07]);
    let bytes = module_bytes(vec![functype(&[], &[])], &[0], vec![], vec![code(&[], &body)]);
    let module = decode(&bytes).unwrap();
    assert_eq!(
        module.funcs[0].body,
        Expr(vec![Instr::I32Const(-1), Instr::I64Const(i64::MIN), Instr::I32Const(i32::MAX)]),
    );
}

#[test]
fn multi_byte_counts_and_indices() {
    let mut type_idxs = Vec::new();
    let mut codes = Vec::new();
    for _ in 0..130 {
        type_idxs.push(0);
        codes.push(code(&[(200, I64)], &[0x10, 0x81, 0x01, 0x1a]));
    }
    let bytes = module_bytes(
        vec![functype(&[], &[I32])],
        &type_idxs,
        vec![export("last", 129)],
        codes,
    );
    let module = decode(&bytes).unwrap();
    assert_eq!(module.funcs.len(), 130);
    assert_eq!(module.funcs[5].locals.len(), 200);
    assert_eq!(module.funcs[5].body, Expr(vec![Instr::Call(129), Instr::Drop]));
    assert_eq!(module.exports[0].desc, ExportDesc::Func(129));
}

#[test]
fn unknown_sections_are_skipped() {
    let mut bytes = binary_module("add", 0x6a);
    bytes.extend([0x00, 0x04, 0x01, 0x61, 0x62, 0x63]);
    let module = decode(&bytes).unwrap();
    assert_eq!(module.funcs.len(), 1);
}

#[test]
fn empty_module_decodes() {
    let module = decode(&[0x00, 0x61, 0x73, 0x6d, 0x01, 0x00, 0x00, 0x00]).unwrap();
    assert!(module.types.is_empty() && module.funcs.is_empty() && module.exports.is_empty());
}

#[test]
fn bad_magic_is_rejected() {
    assert_eq!(decode(&[0x00, 0x61, 0x73, 0x6e, 0x01, 0x00, 0x00, 0x00]).unwrap_err(), DecodingError {});
}

#[test]
fn bad_version_is_rejected() {
    assert!(decode(&[0x00, 0x61, 0x73, 0x6d, 0x02, 0x00, 0x00, 0x00]).is_err());
}

#[test]
fn short_input_is_rejected() {
    assert!(decode(&[0x00, 0x61, 0x73]).is_err());
    assert!(decode(&[]).is_err());
}

#[test]
fn truncated_module_is_rejected() {
    let bytes = binary_module("add", 0x6a);
    // Cutting right after the type section leaves a module of types alone.
    for cut in 9..bytes.len() {
        assert_eq!(decode(&bytes[..cut]).is_ok(), cut == 17, "cut at {}", cut);
    }
}

#[test]
fn unknown_value_type_is_rejected() {
    let bytes = module_bytes(vec![functype(&[0x7b], &[])], &[], vec![], vec![]);
    assert!(decode(&bytes).is_err());
}

#[test]
fn bad_functype_prefix_is_rejected() {
    let mut t = functype(&[I32], &[]);
    t[0] = 0x61;
    let bytes = module_bytes(vec![t], &[], vec![], vec![]);
    assert!(decode(&bytes).is_err());
}

#[test]
fn unknown_opcode_is_rejected() {
    let bytes = module_bytes(vec![functype(&[], &[])], &[0], vec![], vec![code(&[], &[0xfc])]);
    assert!(decode(&bytes).is_err());
}

#[test]
fn function_and_code_counts_must_agree() {
    let bytes = module_bytes(
        vec![functype(&[], &[])],
        &[0, 0],
        vec![],
        vec![code(&[], &[])],
    );
    assert!(decode(&bytes).is_err());
    let bytes = module_bytes(vec![functype(&[], &[])], &[0], vec![], vec![]);
    assert!(decode(&bytes).is_err());
}

#[test]
fn out_of_range_indices_are_rejected() {
    let bytes = module_bytes(vec![functype(&[], &[])], &[1], vec![], vec![code(&[], &[])]);
    assert!(decode(&bytes).is_err());
    let bytes =
        module_bytes(vec![functype(&[], &[])], &[0], vec![export("f", 1)], vec![code(&[], &[])]);
    assert!(decode(&bytes).is_err());
}

#[test]
fn non_utf8_name_is_rejected() {
    let bytes = module_bytes(
        vec![functype(&[], &[])],
        &[0],
        vec![vec![0x01, 0xff, 0x00, 0x00]],
        vec![code(&[], &[])],
    );
    assert!(decode(&bytes).is_err());
}

#[test]
fn utf8_name_is_kept() {
    let bytes = module_bytes(
        vec![functype(&[], &[])],
        &[0],
        vec![export("größe", 0)],
        vec![code(&[], &[])],
    );
    assert_eq!(decode(&bytes).unwrap().exports[0].name, "größe");
}

#[test]
fn stray_else_in_body_is_rejected() {
    let bytes = module_bytes(vec![functype(&[], &[])], &[0], vec![], vec![code(&[], &[0x05])]);
    assert!(decode(&bytes).is_err());
}

#[test]
fn leb128_unsigned_values() {
    assert_eq!(read_u32(&[0x00], 0), Some((0, 1)));
    assert_eq!(read_u32(&[0xe5, 0x8e, 0x26], 0), Some((624485, 3)));
    assert_eq!(read_u32(&[0xff, 0xff, 0xff, 0xff, 0x0f], 0), Some((u32::MAX, 5)));
    assert_eq!(read_u32(&[0x01, 0x83, 0x00], 1), Some((3, 3)));
}

#[test]
fn leb128_unsigned_rejects_bad_encodings() {
    assert_eq!(read_u32(&[0xff, 0xff, 0xff, 0xff, 0x1f], 0), None);
    assert_eq!(read_u32(&[0x80, 0x80, 0x80, 0x80, 0x80, 0x00], 0), None);
    assert_eq!(read_u32(&[0x80, 0x80], 0), None);
    assert_eq!(read_u32(&[], 0), None);
}

#[test]
fn leb128_signed_values() {
    assert_eq!(read_i64(&[0x00], 0), Some((0, 1)));
    assert_eq!(read_i64(&[0x7f], 0), Some((-1, 1)));
    assert_eq!(read_i64(&[0x3f], 0), Some((63, 1)));
    assert_eq!(read_i64(&[0x40], 0), Some((-64, 1)));
    assert_eq!(read_i64(&[0xc0, 0xbb, 0x78], 0), Some((-123456, 3)));
    assert_eq!(
        read_i64(&[0xff, 0xff, 0xff, 0xff, 0xff, 0xff, 0xff, 0xff, 0xff, 0x00], 0),
        Some((i64::MAX, 10))
    );
}

#[test]
fn leb128_signed_rejects_bad_encodings() {
    assert_eq!(read_i64(&[0x80, 0x80, 0x80, 0x80, 0x80, 0x80, 0x80, 0x80, 0x80, 0x01], 0), None);
    assert_eq!(read_i64(&[0x80; 11], 0), None);
    assert_eq!(read_i64(&[0xff], 0), None);
}

#[test]
fn leb128_round_trips_on_samples() {
    for x in [0u32, 1, 63, 64, 127, 128, 300, 16383, 16384, 1 << 28, u32::MAX] {
        let bytes = leb(x as u64);
        assert_eq!(read_u32(&bytes, 0), Some((x, bytes.len())));
    }
}

fn sleb(mut x: i64) -> Vec<u8> {
    let mut out = Vec::new();
    loop {
        let low = (x & 0x7f) as u8;
        x >>= 7;
        let done = (x == 0 && low & 0x40 == 0) || (x == -1 && low & 0x40 != 0);
        if done {
            out.push(low);
            return out;
        }
        out.push(low | 0x80);
    }
}

#[test]
fn leb128_signed_round_trips_on_samples() {
    for x in [0i64, 1, -1, 63, 64, -64, -65, 127, 128, -123456, i32::MIN as i64, i64::MAX, i64::MIN] {
        let bytes = sleb(x);
        assert_eq!(read_i64(&bytes, 0), Some((x, bytes.len())));
    }
}
