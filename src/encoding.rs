//! The binary form of a module model, and the law that decoding it gives the model back.
use vstd::prelude::*;
use vstd::utf8::{encode_utf8, encode_utf8_decode_utf8, encode_utf8_valid_utf8};
use crate::grammar::{
    assemble, blocktype_of_byte, code_item, has_preamble, expand_locals, export_item, functype_item,
    local_group_item, no_sections, parse_code, parse_export, parse_functype, parse_instr,
    parse_repeat, parse_section, parse_sections, parse_seq,
    parse_vec, spec_decode, u32_item, valtype_item, zip_funcs, Sections,
};
use crate::module::{ExportDesc, ExportModel, FuncModel, ModuleModel};
use crate::types::FuncTypeModel;
use crate::instr::{plain_opcode, Instr, InstrModel};
use crate::leb128::{encode_i64, encode_u32, lemma_read_i64_at, lemma_read_u32_at, spec_read_u32};
use crate::types::{BlockType, NumType, ValType};

verus! {

/// The opcode byte of an instruction without immediates or nested sequences.
pub open spec fn opcode_of(i: Instr) -> u8 {
    match i {
        Instr::Drop => 0x1a,
        Instr::I32Eqz => 0x45,
        Instr::I32Eq => 0x46,
        Instr::I32Ne => 0x47,
        Instr::I32LtS => 0x48,
        Instr::I32LtU => 0x49,
        Instr::I32GtS => 0x4a,
        Instr::I32GtU => 0x4b,
        Instr::I32LeS => 0x4c,
        Instr::I32LeU => 0x4d,
        Instr::I32GeS => 0x4e,
        Instr::I32GeU => 0x4f,
        Instr::I64Eqz => 0x50,
        Instr::I64Eq => 0x51,
        Instr::I64Ne => 0x52,
        Instr::I64LtS => 0x53,
        Instr::I64LtU => 0x54,
        Instr::I64GtS => 0x55,
        Instr::I64GtU => 0x56,
        Instr::I64LeS => 0x57,
        Instr::I64LeU => 0x58,
        Instr::I64GeS => 0x59,
        Instr::I64GeU => 0x5a,
        Instr::F32Eq => 0x5b,
        Instr::F32Ne => 0x5c,
        Instr::F32Lt => 0x5d,
        Instr::F32Gt => 0x5e,
        Instr::F32Le => 0x5f,
        Instr::F32Ge => 0x60,
        Instr::F64Eq => 0x61,
        Instr::F64Ne => 0x62,
        Instr::F64Lt => 0x63,
        Instr::F64Gt => 0x64,
        Instr::F64Le => 0x65,
        Instr::F64Ge => 0x66,
        Instr::I32Clz => 0x67,
        Instr::I32Ctz => 0x68,
        Instr::I32Popcnt => 0x69,
        Instr::I32Add => 0x6a,
        Instr::I32Sub => 0x6b,
        Instr::I32Mul => 0x6c,
        Instr::I32DivS => 0x6d,
        Instr::I32DivU => 0x6e,
        Instr::I32RemS => 0x6f,
        Instr::I32RemU => 0x70,
        Instr::I32And => 0x71,
        Instr::I32Or => 0x72,
        Instr::I32Xor => 0x73,
        Instr::I32Shl => 0x74,
        Instr::I32ShrS => 0x75,
        Instr::I32ShrU => 0x76,
        Instr::I32Rotl => 0x77,
        Instr::I32Rotr => 0x78,
        Instr::I64Clz => 0x79,
        Instr::I64Ctz => 0x7a,
        Instr::I64Popcnt => 0x7b,
        Instr::I64Add => 0x7c,
        Instr::I64Sub => 0x7d,
        Instr::I64Mul => 0x7e,
        Instr::I64DivS => 0x7f,
        Instr::I64DivU => 0x80,
        Instr::I64RemS => 0x81,
        Instr::I64RemU => 0x82,
        Instr::I64And => 0x83,
        Instr::I64Or => 0x84,
        Instr::I64Xor => 0x85,
        Instr::I64Shl => 0x86,
        Instr::I64ShrS => 0x87,
        Instr::I64ShrU => 0x88,
        Instr::I64Rotl => 0x89,
        Instr::I64Rotr => 0x8a,
        Instr::F32Abs => 0x8b,
        Instr::F32Neg => 0x8c,
        Instr::F32Ceil => 0x8d,
        Instr::F32Floor => 0x8e,
        Instr::F32Trunc => 0x8f,
        Instr::F32Nearest => 0x90,
        Instr::F32Sqrt => 0x91,
        Instr::F32Add => 0x92,
        Instr::F32Sub => 0x93,
        Instr::F32Mul => 0x94,
        Instr::F32Div => 0x95,
        Instr::F32Min => 0x96,
        Instr::F32Max => 0x97,
        Instr::F32Copysign => 0x98,
        Instr::F64Abs => 0x99,
        Instr::F64Neg => 0x9a,
        Instr::F64Ceil => 0x9b,
        Instr::F64Floor => 0x9c,
        Instr::F64Trunc => 0x9d,
        Instr::F64Nearest => 0x9e,
        Instr::F64Sqrt => 0x9f,
        Instr::F64Add => 0xa0,
        Instr::F64Sub => 0xa1,
        Instr::F64Mul => 0xa2,
        Instr::F64Div => 0xa3,
        Instr::F64Min => 0xa4,
        Instr::F64Max => 0xa5,
        Instr::F64Copysign => 0xa6,
        Instr::I32Extend8S => 0xc0,
        Instr::I32Extend16S => 0xc1,
        _ => 0x00,
    }
}

/// An instruction that a model may hold outside an `If`: anything but `If` itself and the
/// sequence-ending markers.
pub open spec fn is_plain(i: Instr) -> bool {
    !(i is If || i is Else || i is End || i is Call || i is LocalGet || i is I32Const || i is I64Const)
}

proof fn lemma_plain_opcode(i: Instr)
    requires
        is_plain(i),
    ensures
        plain_opcode(opcode_of(i)) == Some(i),
        opcode_of(i) != 0x04 && opcode_of(i) != 0x05 && opcode_of(i) != 0x0b && opcode_of(i) != 0x10
            && opcode_of(i) != 0x20 && opcode_of(i) != 0x41 && opcode_of(i) != 0x42,
{
}

/// `e` stands in `s` from position `p`.
pub open spec fn embedded(s: Seq<u8>, p: int, e: Seq<u8>) -> bool {
    &&& 0 <= p
    &&& p + e.len() <= s.len()
    &&& s.subrange(p, p + e.len()) == e
}

proof fn lemma_embedded_split(s: Seq<u8>, p: int, a: Seq<u8>, b: Seq<u8>)
    requires
        embedded(s, p, a + b),
    ensures
        embedded(s, p, a),
        embedded(s, p + a.len(), b),
{
    let whole = s.subrange(p, p + a.len() + b.len());
    assert forall|k: int| 0 <= k < a.len() implies s.subrange(p, p + a.len())[k] == a[k] by {
        assert(whole[k] == (a + b)[k]);
    }
    assert forall|k: int| 0 <= k < b.len() implies s.subrange(p + a.len(), p + a.len() + b.len())[k]
        == b[k] by {
        assert(whole[a.len() + k] == (a + b)[a.len() + k]);
    }
    assert(s.subrange(p, p + a.len()) =~= a);
    assert(s.subrange(p + a.len(), p + a.len() + b.len()) =~= b);
}

proof fn lemma_embedded_byte(s: Seq<u8>, p: int, e: Seq<u8>)
    requires
        embedded(s, p, e),
        e.len() > 0,
    ensures
        s[p] == e[0],
{
    assert(s[p] == s.subrange(p, p + e.len())[0]);
}

pub open spec fn valtype_byte(t: ValType) -> u8 {
    match t {
        ValType::NumType(NumType::I32) => 0x7f,
        ValType::NumType(NumType::I64) => 0x7e,
        ValType::NumType(NumType::F32) => 0x7d,
        ValType::NumType(NumType::F64) => 0x7c,
    }
}

pub open spec fn blocktype_byte(bt: BlockType) -> u8 {
    match bt {
        BlockType::Empty => 0x40,
        BlockType::ValType(t) => valtype_byte(t),
    }
}

/// The binary form of one instruction; an `If` always spells out its `Else`.
pub open spec fn encode_instr(i: InstrModel) -> Seq<u8>
    decreases i,
{
    match i {
        InstrModel::If(bt, th, el) => seq![0x04u8, blocktype_byte(bt)] + encode_seq(th) + seq![
            0x05u8,
        ] + encode_seq(el) + seq![0x0bu8],
        InstrModel::Op(op) => match op {
            Instr::Call(x) => seq![0x10u8] + encode_u32(x),
            Instr::LocalGet(x) => seq![0x20u8] + encode_u32(x),
            Instr::I32Const(x) => seq![0x41u8] + encode_i64(x as i64),
            Instr::I64Const(x) => seq![0x42u8] + encode_i64(x),
            _ => seq![opcode_of(op)],
        },
    }
}

/// The binary form of a sequence of instructions, without its closing byte.
pub open spec fn encode_seq(xs: Seq<InstrModel>) -> Seq<u8>
    decreases xs,
{
    if xs.len() == 0 {
        Seq::empty()
    } else {
        encode_instr(xs[0]) + encode_seq(xs.subrange(1, xs.len() as int))
    }
}

/// An instruction model that has a binary form: every `Op` holds an instruction other than
/// `If` and the sequence-ending markers.
pub open spec fn valid_instr(i: InstrModel) -> bool
    decreases i,
{
    match i {
        InstrModel::If(_, th, el) => valid_seq(th) && valid_seq(el),
        InstrModel::Op(op) => !(op is If || op is Else || op is End),
    }
}

pub open spec fn valid_seq(xs: Seq<InstrModel>) -> bool
    decreases xs,
{
    if xs.len() == 0 {
        true
    } else {
        valid_instr(xs[0]) && valid_seq(xs.subrange(1, xs.len() as int))
    }
}

proof fn lemma_instr_first_byte(i: InstrModel)
    requires
        valid_instr(i),
    ensures
        encode_instr(i).len() > 0,
        encode_instr(i)[0] != 0x05 && encode_instr(i)[0] != 0x0b,
{
    match i {
        InstrModel::Op(op) => {
            if is_plain(op) {
                lemma_plain_opcode(op);
            }
        },
        _ => {},
    }
}

/// The binary form of an instruction, wherever it stands, decodes back to it.
pub proof fn lemma_instr_round_trip(s: Seq<u8>, p: int, i: InstrModel)
    requires
        valid_instr(i),
        embedded(s, p, encode_instr(i)),
    ensures
        parse_instr(s, p) == Some((i, p + encode_instr(i).len())),
    decreases i,
{
    let e = encode_instr(i);
    lemma_instr_first_byte(i);
    lemma_embedded_byte(s, p, e);
    match i {
        InstrModel::If(bt, th, el) => {
            let head = seq![0x04u8, blocktype_byte(bt)];
            let a = encode_seq(th) + seq![0x05u8];
            let b = encode_seq(el) + seq![0x0bu8];
            assert(e =~= head + a + b);
            lemma_embedded_split(s, p, head + a, b);
            lemma_embedded_split(s, p, head, a);
            assert(s[p + 1] == s.subrange(p, p + 2)[1]);
            assert(blocktype_of_byte(blocktype_byte(bt)) == Some(bt));
            lemma_seq_round_trip(s, p + 2, th, 0x05);
            lemma_seq_round_trip(s, p + 2 + a.len(), el, 0x0b);
        },
        InstrModel::Op(op) => {
            match op {
                Instr::Call(x) => {
                    lemma_embedded_split(s, p, seq![0x10u8], encode_u32(x));
                    lemma_read_u32_at(s, p + 1, x);
                },
                Instr::LocalGet(x) => {
                    lemma_embedded_split(s, p, seq![0x20u8], encode_u32(x));
                    lemma_read_u32_at(s, p + 1, x);
                },
                Instr::I32Const(x) => {
                    lemma_embedded_split(s, p, seq![0x41u8], encode_i64(x as i64));
                    lemma_read_i64_at(s, p + 1, x as i64);
                    assert((x as i64) as i32 == x) by (bit_vector);
                },
                Instr::I64Const(x) => {
                    lemma_embedded_split(s, p, seq![0x42u8], encode_i64(x));
                    lemma_read_i64_at(s, p + 1, x);
                },
                _ => {
                    lemma_plain_opcode(op);
                },
            }
        },
    }
}

/// The binary form of a sequence followed by an ending byte `t` decodes back to the sequence
/// and `t`.
pub proof fn lemma_seq_round_trip(s: Seq<u8>, p: int, xs: Seq<InstrModel>, t: u8)
    requires
        valid_seq(xs),
        t == 0x05 || t == 0x0b,
        embedded(s, p, encode_seq(xs) + seq![t]),
    ensures
        parse_seq(s, p) == Some((xs, t, p + encode_seq(xs).len() + 1)),
    decreases xs,
{
    let e = encode_seq(xs) + seq![t];
    lemma_embedded_byte(s, p, e);
    if xs.len() > 0 {
        let rest = xs.subrange(1, xs.len() as int);
        let a = encode_instr(xs[0]);
        let b = encode_seq(rest) + seq![t];
        assert(e =~= a + b);
        lemma_embedded_split(s, p, a, b);
        lemma_instr_first_byte(xs[0]);
        lemma_instr_round_trip(s, p, xs[0]);
        lemma_seq_round_trip(s, p + a.len(), rest, t);
        assert(seq![xs[0]] + rest =~= xs);
    }
}

/// The encodings of `xs` one after another.
pub open spec fn concat_map<T>(xs: Seq<T>, enc: spec_fn(T) -> Seq<u8>) -> Seq<u8>
    decreases xs.len(),
{
    if xs.len() == 0 {
        Seq::empty()
    } else {
        concat_map(xs.drop_last(), enc) + enc(xs.last())
    }
}

/// A vector: its length, then its items.
pub open spec fn encode_vec<T>(xs: Seq<T>, enc: spec_fn(T) -> Seq<u8>) -> Seq<u8> {
    encode_u32(xs.len() as u32) + concat_map(xs, enc)
}

proof fn lemma_repeat_round_trip<T>(
    s: Seq<u8>,
    p: int,
    xs: Seq<T>,
    enc: spec_fn(T) -> Seq<u8>,
    item: spec_fn(int) -> Option<(T, int)>,
)
    requires
        embedded(s, p, concat_map(xs, enc)),
        forall|q: int, k: int|
            0 <= k < xs.len() && #[trigger] embedded(s, q, enc(xs[k])) ==> item(q) == Some(
                (xs[k], q + enc(xs[k]).len()),
            ),
    ensures
        parse_repeat(p, xs.len(), item) == Some((xs, p + concat_map(xs, enc).len())),
    decreases xs.len(),
{
    if xs.len() > 0 {
        let init = xs.drop_last();
        lemma_embedded_split(s, p, concat_map(init, enc), enc(xs.last()));
        assert forall|q: int, k: int|
            0 <= k < init.len() && #[trigger] embedded(s, q, enc(init[k])) implies item(q) == Some(
            (init[k], q + enc(init[k]).len()),
        ) by {
            assert(init[k] == xs[k]);
        }
        lemma_repeat_round_trip(s, p, init, enc, item);
        let q = p + concat_map(init, enc).len();
        assert(embedded(s, q, enc(xs[xs.len() - 1])));
        assert(init.push(xs.last()) =~= xs);
    }
}

proof fn lemma_vec_round_trip<T>(
    s: Seq<u8>,
    p: int,
    xs: Seq<T>,
    enc: spec_fn(T) -> Seq<u8>,
    item: spec_fn(int) -> Option<(T, int)>,
)
    requires
        xs.len() <= u32::MAX,
        embedded(s, p, encode_vec(xs, enc)),
        forall|q: int, k: int|
            0 <= k < xs.len() && #[trigger] embedded(s, q, enc(xs[k])) ==> item(q) == Some(
                (xs[k], q + enc(xs[k]).len()),
            ),
    ensures
        parse_vec(s, p, item) == Some((xs, p + encode_vec(xs, enc).len())),
{
    let n = xs.len() as u32;
    lemma_embedded_split(s, p, encode_u32(n), concat_map(xs, enc));
    lemma_read_u32_at(s, p, n);
    lemma_repeat_round_trip(s, p + encode_u32(n).len(), xs, enc, item);
}

pub open spec fn valtype_enc() -> spec_fn(ValType) -> Seq<u8> {
    |t: ValType| seq![valtype_byte(t)]
}

pub open spec fn u32_enc() -> spec_fn(u32) -> Seq<u8> {
    |x: u32| encode_u32(x)
}

pub open spec fn encode_functype(t: FuncTypeModel) -> Seq<u8> {
    seq![0x60u8] + encode_vec(t.parameters, valtype_enc()) + encode_vec(t.results, valtype_enc())
}

pub open spec fn functype_enc() -> spec_fn(FuncTypeModel) -> Seq<u8> {
    |t: FuncTypeModel| encode_functype(t)
}

/// A name: the length of its UTF-8 form, then that form.
pub open spec fn encode_name(name: Seq<char>) -> Seq<u8> {
    encode_u32(encode_utf8(name).len() as u32) + encode_utf8(name)
}

pub open spec fn encode_export(e: ExportModel) -> Seq<u8> {
    encode_name(e.name) + seq![0x00u8] + match e.desc {
        ExportDesc::Func(f) => encode_u32(f),
    }
}

pub open spec fn export_enc() -> spec_fn(ExportModel) -> Seq<u8> {
    |e: ExportModel| encode_export(e)
}

/// Each local as a run of one.
pub open spec fn local_groups(locals: Seq<ValType>) -> Seq<(u32, ValType)> {
    Seq::new(locals.len(), |i: int| (1u32, locals[i]))
}

pub open spec fn local_group_enc() -> spec_fn((u32, ValType)) -> Seq<u8> {
    |g: (u32, ValType)| encode_u32(g.0) + seq![valtype_byte(g.1)]
}

/// A body without its size: the locals, the instructions, and the closing `End`.
pub open spec fn code_body(c: (Seq<ValType>, Seq<InstrModel>)) -> Seq<u8> {
    encode_vec(local_groups(c.0), local_group_enc()) + encode_seq(c.1) + seq![0x0bu8]
}

pub open spec fn encode_code(c: (Seq<ValType>, Seq<InstrModel>)) -> Seq<u8> {
    encode_u32(code_body(c).len() as u32) + code_body(c)
}

pub open spec fn code_enc() -> spec_fn((Seq<ValType>, Seq<InstrModel>)) -> Seq<u8> {
    |c: (Seq<ValType>, Seq<InstrModel>)| encode_code(c)
}

/// The locals and body of each function.
pub open spec fn func_codes(m: ModuleModel) -> Seq<(Seq<ValType>, Seq<InstrModel>)> {
    m.funcs.map_values(|f: FuncModel| (f.locals, f.body))
}

pub open spec fn func_type_idxs(m: ModuleModel) -> Seq<u32> {
    m.funcs.map_values(|f: FuncModel| f.type_)
}

pub open spec fn encode_section(id: u8, payload: Seq<u8>) -> Seq<u8> {
    seq![id] + encode_u32(payload.len() as u32) + payload
}

pub open spec fn type_payload(m: ModuleModel) -> Seq<u8> {
    encode_vec(m.types, functype_enc())
}

pub open spec fn function_payload(m: ModuleModel) -> Seq<u8> {
    encode_vec(func_type_idxs(m), u32_enc())
}

pub open spec fn export_payload(m: ModuleModel) -> Seq<u8> {
    encode_vec(m.exports, export_enc())
}

pub open spec fn code_payload(m: ModuleModel) -> Seq<u8> {
    encode_vec(func_codes(m), code_enc())
}

/// The binary form of a module: the preamble, then its type, function, export and code
/// sections.
pub open spec fn encode_module(m: ModuleModel) -> Seq<u8> {
    seq![0x00u8, 0x61, 0x73, 0x6d, 0x01, 0x00, 0x00, 0x00] + encode_section(1, type_payload(m))
        + encode_section(3, function_payload(m)) + encode_section(7, export_payload(m))
        + encode_section(10, code_payload(m))
}

/// A module that has a binary form: its indices are in range, its bodies hold no stray
/// markers, and every count and size fits a `u32`.
#[verifier::opaque]
pub open spec fn encodable(m: ModuleModel) -> bool {
    &&& m.wf()
    &&& m.types.len() <= u32::MAX
    &&& m.funcs.len() <= u32::MAX
    &&& m.exports.len() <= u32::MAX
    &&& forall|i: int|
        0 <= i < m.types.len() ==> (#[trigger] m.types[i]).parameters.len() <= u32::MAX
            && m.types[i].results.len() <= u32::MAX
    &&& forall|i: int|
        0 <= i < m.exports.len() ==> encode_utf8((#[trigger] m.exports[i]).name).len() <= u32::MAX
    &&& forall|i: int|
        0 <= i < m.funcs.len() ==> {
            &&& (#[trigger] m.funcs[i]).locals.len() <= u32::MAX
            &&& valid_seq(m.funcs[i].body)
            &&& code_body((m.funcs[i].locals, m.funcs[i].body)).len() <= u32::MAX
        }
    &&& type_payload(m).len() <= u32::MAX
    &&& function_payload(m).len() <= u32::MAX
    &&& export_payload(m).len() <= u32::MAX
    &&& code_payload(m).len() <= u32::MAX
}

proof fn lemma_valtype_item(s: Seq<u8>)
    ensures
        forall|q: int, t: ValType|
            #[trigger] embedded(s, q, valtype_enc()(t)) ==> valtype_item(s)(q) == Some((t, q + 1)),
{
    assert forall|q: int, t: ValType| #[trigger] embedded(s, q, valtype_enc()(t)) implies valtype_item(
        s,
    )(q) == Some((t, q + 1)) by {
        lemma_embedded_byte(s, q, seq![valtype_byte(t)]);
    }
}

proof fn lemma_functype_round_trip(s: Seq<u8>, q: int, t: FuncTypeModel)
    requires
        t.parameters.len() <= u32::MAX,
        t.results.len() <= u32::MAX,
        embedded(s, q, encode_functype(t)),
    ensures
        parse_functype(s, q) == Some((t, q + encode_functype(t).len())),
{
    let a = encode_vec(t.parameters, valtype_enc());
    let b = encode_vec(t.results, valtype_enc());
    assert(encode_functype(t) =~= seq![0x60u8] + a + b);
    lemma_embedded_split(s, q, seq![0x60u8] + a, b);
    lemma_embedded_split(s, q, seq![0x60u8], a);
    lemma_embedded_byte(s, q, seq![0x60u8]);
    lemma_valtype_item(s);
    lemma_vec_round_trip(s, q + 1, t.parameters, valtype_enc(), valtype_item(s));
    lemma_vec_round_trip(s, q + 1 + a.len(), t.results, valtype_enc(), valtype_item(s));
}

proof fn lemma_export_round_trip(s: Seq<u8>, q: int, e: ExportModel)
    requires
        encode_utf8(e.name).len() <= u32::MAX,
        embedded(s, q, encode_export(e)),
    ensures
        parse_export(s, q) == Some((e, q + encode_export(e).len())),
{
    let bytes = encode_utf8(e.name);
    let n = bytes.len() as u32;
    let idx = match e.desc {
        ExportDesc::Func(f) => f,
    };
    let name = encode_name(e.name);
    assert(encode_export(e) =~= name + seq![0x00u8] + encode_u32(idx));
    lemma_embedded_split(s, q, name + seq![0x00u8], encode_u32(idx));
    lemma_embedded_split(s, q, name, seq![0x00u8]);
    lemma_embedded_split(s, q, encode_u32(n), bytes);
    lemma_read_u32_at(s, q, n);
    encode_utf8_valid_utf8(e.name);
    encode_utf8_decode_utf8(e.name);
    lemma_embedded_byte(s, q + name.len(), seq![0x00u8]);
    lemma_read_u32_at(s, q + name.len() + 1, idx);
}

proof fn lemma_expand_single_locals(locals: Seq<ValType>)
    ensures
        expand_locals(local_groups(locals)) == locals,
    decreases locals.len(),
{
    if locals.len() > 0 {
        let init = locals.drop_last();
        assert(local_groups(locals).drop_last() =~= local_groups(init));
        lemma_expand_single_locals(init);
        assert(Seq::new(1, |i: int| locals.last()) =~= seq![locals.last()]);
        assert(init.push(locals.last()) =~= locals);
    }
}

proof fn lemma_code_round_trip(s: Seq<u8>, q: int, f: (Seq<ValType>, Seq<InstrModel>))
    requires
        f.0.len() <= u32::MAX,
        valid_seq(f.1),
        code_body(f).len() <= u32::MAX,
        embedded(s, q, encode_code(f)),
    ensures
        parse_code(s, q) == Some((f, q + encode_code(f).len())),
{
    let inner = code_body(f);
    let groups = local_groups(f.0);
    let lv = encode_vec(groups, local_group_enc());
    let size = encode_u32(inner.len() as u32);
    lemma_embedded_split(s, q, size, inner);
    lemma_read_u32_at(s, q, inner.len() as u32);
    let r = q + size.len();
    assert(inner =~= lv + (encode_seq(f.1) + seq![0x0bu8]));
    lemma_embedded_split(s, r, lv, encode_seq(f.1) + seq![0x0bu8]);
    assert forall|p: int, k: int|
        0 <= k < groups.len() && #[trigger] embedded(s, p, local_group_enc()(groups[k])) implies local_group_item(
        s,
    )(p) == Some((groups[k], p + local_group_enc()(groups[k]).len())) by {
        let g = groups[k];
        lemma_embedded_split(s, p, encode_u32(g.0), seq![valtype_byte(g.1)]);
        lemma_read_u32_at(s, p, g.0);
        lemma_embedded_byte(s, p + encode_u32(g.0).len(), seq![valtype_byte(g.1)]);
    }
    lemma_vec_round_trip(s, r, groups, local_group_enc(), local_group_item(s));
    lemma_seq_round_trip(s, r + lv.len(), f.1, 0x0b);
    lemma_expand_single_locals(f.0);
}

proof fn lemma_section_header(s: Seq<u8>, p: int, id: u8, payload: Seq<u8>)
    requires
        payload.len() <= u32::MAX,
        embedded(s, p, encode_section(id, payload)),
    ensures
        s[p] == id,
        spec_read_u32(s, p + 1) == Some(
            (payload.len() as u32, p + 1 + encode_u32(payload.len() as u32).len()),
        ),
        embedded(s, p + 1 + encode_u32(payload.len() as u32).len(), payload),
{
    let size = encode_u32(payload.len() as u32);
    lemma_embedded_split(s, p, seq![id] + size, payload);
    lemma_embedded_split(s, p, seq![id], size);
    lemma_embedded_byte(s, p, seq![id]);
    lemma_read_u32_at(s, p + 1, payload.len() as u32);
}

proof fn lemma_type_section(s: Seq<u8>, p: int, m: ModuleModel, st: Sections)
    requires
        encodable(m),
        embedded(s, p, encode_section(1, type_payload(m))),
    ensures
        parse_section(s, p, st) == Some(
            (Sections { types: m.types, ..st }, p + encode_section(1, type_payload(m)).len()),
        ),
{
    reveal(encodable);
    lemma_section_header(s, p, 1, type_payload(m));
    let q = p + 1 + encode_u32(type_payload(m).len() as u32).len();
    assert forall|r: int, k: int|
        0 <= k < m.types.len() && #[trigger] embedded(s, r, functype_enc()(m.types[k])) implies functype_item(
        s,
    )(r) == Some((m.types[k], r + functype_enc()(m.types[k]).len())) by {
        lemma_functype_round_trip(s, r, m.types[k]);
    }
    lemma_vec_round_trip(s, q, m.types, functype_enc(), functype_item(s));
}

proof fn lemma_function_section(s: Seq<u8>, p: int, m: ModuleModel, st: Sections)
    requires
        encodable(m),
        embedded(s, p, encode_section(3, function_payload(m))),
    ensures
        parse_section(s, p, st) == Some(
            (
                Sections { type_idxs: func_type_idxs(m), ..st },
                p + encode_section(3, function_payload(m)).len(),
            ),
        ),
{
    reveal(encodable);
    let idxs = func_type_idxs(m);
    lemma_section_header(s, p, 3, function_payload(m));
    let q = p + 1 + encode_u32(function_payload(m).len() as u32).len();
    assert forall|r: int, k: int|
        0 <= k < idxs.len() && #[trigger] embedded(s, r, u32_enc()(idxs[k])) implies u32_item(s)(r)
        == Some((idxs[k], r + u32_enc()(idxs[k]).len())) by {
        lemma_read_u32_at(s, r, idxs[k]);
    }
    lemma_vec_round_trip(s, q, idxs, u32_enc(), u32_item(s));
}

proof fn lemma_export_section(s: Seq<u8>, p: int, m: ModuleModel, st: Sections)
    requires
        encodable(m),
        embedded(s, p, encode_section(7, export_payload(m))),
    ensures
        parse_section(s, p, st) == Some(
            (Sections { exports: m.exports, ..st }, p + encode_section(7, export_payload(m)).len()),
        ),
{
    reveal(encodable);
    lemma_section_header(s, p, 7, export_payload(m));
    let q = p + 1 + encode_u32(export_payload(m).len() as u32).len();
    assert forall|r: int, k: int|
        0 <= k < m.exports.len() && #[trigger] embedded(s, r, export_enc()(m.exports[k])) implies export_item(
        s,
    )(r) == Some((m.exports[k], r + export_enc()(m.exports[k]).len())) by {
        lemma_export_round_trip(s, r, m.exports[k]);
    }
    lemma_vec_round_trip(s, q, m.exports, export_enc(), export_item(s));
}

proof fn lemma_code_section(s: Seq<u8>, p: int, m: ModuleModel, st: Sections)
    requires
        encodable(m),
        st.type_idxs == func_type_idxs(m),
        embedded(s, p, encode_section(10, code_payload(m))),
    ensures
        parse_section(s, p, st) == Some(
            (Sections { funcs: m.funcs, ..st }, p + encode_section(10, code_payload(m)).len()),
        ),
{
    reveal(encodable);
    let codes = func_codes(m);
    lemma_section_header(s, p, 10, code_payload(m));
    let q = p + 1 + encode_u32(code_payload(m).len() as u32).len();
    assert forall|r: int, k: int|
        0 <= k < codes.len() && #[trigger] embedded(s, r, code_enc()(codes[k])) implies code_item(s)(
        r,
    ) == Some((codes[k], r + code_enc()(codes[k]).len())) by {
        assert(codes[k] == (m.funcs[k].locals, m.funcs[k].body));
        lemma_code_round_trip(s, r, codes[k]);
    }
    lemma_vec_round_trip(s, q, codes, code_enc(), code_item(s));
    assert(zip_funcs(func_type_idxs(m), codes) =~= m.funcs);
}

proof fn lemma_section_chain(
    s: Seq<u8>,
    ps: Seq<int>,
    sts: Seq<Sections>,
)
    requires
        ps.len() == 5,
        sts.len() == 5,
        0 <= ps[0] < ps[1] < ps[2] < ps[3] < ps[4] == s.len(),
        forall|k: int| 0 <= k < 4 ==> parse_section(s, #[trigger] ps[k], sts[k]) == Some((sts[k + 1], ps[k + 1])),
    ensures
        parse_sections(s, ps[0], sts[0]) == Some(sts[4]),
{
    assert(parse_section(s, ps[3], sts[3]) == Some((sts[4], ps[4])));
    assert(parse_section(s, ps[2], sts[2]) == Some((sts[3], ps[3])));
    assert(parse_section(s, ps[1], sts[1]) == Some((sts[2], ps[2])));
    assert(parse_section(s, ps[0], sts[0]) == Some((sts[1], ps[1])));
    assert(parse_sections(s, ps[4], sts[4]) == Some(sts[4]));
    assert(parse_sections(s, ps[3], sts[3]) == Some(sts[4]));
    assert(parse_sections(s, ps[2], sts[2]) == Some(sts[4]));
    assert(parse_sections(s, ps[1], sts[1]) == Some(sts[4]));
}

proof fn lemma_layout(s: Seq<u8>, pre: Seq<u8>, type_sec: Seq<u8>, func_sec: Seq<u8>, export_sec: Seq<u8>, code_sec: Seq<u8>)
    requires
        s == pre + type_sec + func_sec + export_sec + code_sec,
        pre == seq![0x00u8, 0x61, 0x73, 0x6d, 0x01, 0x00, 0x00, 0x00],
    ensures
        has_preamble(s),
        embedded(s, 8, type_sec),
        embedded(s, 8 + type_sec.len() as int, func_sec),
        embedded(s, 8 + type_sec.len() as int + func_sec.len(), export_sec),
        embedded(s, 8 + type_sec.len() as int + func_sec.len() + export_sec.len(), code_sec),
        s.len() == 8 + type_sec.len() + func_sec.len() + export_sec.len() + code_sec.len(),
{
    assert(s.subrange(0, 4) =~= seq![0x00u8, 0x61, 0x73, 0x6d]);
    assert(s.subrange(4, 8) =~= seq![0x01u8, 0x00, 0x00, 0x00]);
    assert(s.subrange(0, s.len() as int) =~= s);
    lemma_embedded_split(s, 0, pre + type_sec + func_sec + export_sec, code_sec);
    lemma_embedded_split(s, 0, pre + type_sec + func_sec, export_sec);
    lemma_embedded_split(s, 0, pre + type_sec, func_sec);
    lemma_embedded_split(s, 0, pre, type_sec);
}

/// Decoding the binary form of a module that has one gives the module back.
#[verifier::rlimit(100)]
pub proof fn lemma_decode_encode(m: ModuleModel)
    requires
        encodable(m),
    ensures
        spec_decode(encode_module(m)) == Some(m),
{
    let s = encode_module(m);
    let pre = seq![0x00u8, 0x61, 0x73, 0x6d, 0x01, 0x00, 0x00, 0x00];
    let type_sec = encode_section(1, type_payload(m));
    let func_sec = encode_section(3, function_payload(m));
    let export_sec = encode_section(7, export_payload(m));
    let code_sec = encode_section(10, code_payload(m));
    lemma_layout(s, pre, type_sec, func_sec, export_sec, code_sec);
    let at_types = 8int;
    let at_funcs = at_types + type_sec.len();
    let at_exports = at_funcs + func_sec.len();
    let at_code = at_exports + export_sec.len();
    let end = at_code + code_sec.len();
    let after_types = Sections { types: m.types, ..no_sections() };
    let after_funcs = Sections { type_idxs: func_type_idxs(m), ..after_types };
    let after_exports = Sections { exports: m.exports, ..after_funcs };
    let after_code = Sections { funcs: m.funcs, ..after_exports };
    lemma_type_section(s, at_types, m, no_sections());
    lemma_function_section(s, at_funcs, m, after_types);
    lemma_export_section(s, at_exports, m, after_funcs);
    lemma_code_section(s, at_code, m, after_exports);
    let ps = seq![at_types, at_funcs, at_exports, at_code, end];
    let sts = seq![no_sections(), after_types, after_funcs, after_exports, after_code];
    lemma_section_chain(s, ps, sts);
    lemma_assemble(m, after_code);
}

proof fn lemma_assemble(m: ModuleModel, st: Sections)
    requires
        encodable(m),
        st == (Sections {
            types: m.types,
            type_idxs: func_type_idxs(m),
            exports: m.exports,
            funcs: m.funcs,
        }),
    ensures
        assemble(st) == Some(m),
{
    reveal(encodable);
    assert(func_type_idxs(m).len() == m.funcs.len());
}

} // verus!
