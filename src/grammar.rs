//! The binary module format, as spec functions over the bytes. Each parser starts at a position
//! and gives what it read with the position just after it, or `None` where the bytes do not
//! follow the format.
use vstd::prelude::*;
use vstd::utf8::{decode_utf8, valid_utf8};
use crate::instr::{plain_opcode, InstrModel, Instr};
use crate::leb128::{spec_read_i64, spec_read_u32};
use crate::module::{ExportDesc, ExportModel, FuncModel, ModuleModel};
use crate::types::{valtype_of_byte, BlockType, FuncTypeModel, ValType};

verus! {

pub const OP_IF: u8 = 0x04;

pub const OP_ELSE: u8 = 0x05;

pub const OP_END: u8 = 0x0b;

pub const OP_CALL: u8 = 0x10;

pub const OP_LOCAL_GET: u8 = 0x20;

pub const OP_I32_CONST: u8 = 0x41;

pub const OP_I64_CONST: u8 = 0x42;

pub const FUNC_TYPE_TAG: u8 = 0x60;

pub const EMPTY_BLOCK: u8 = 0x40;

pub const SECTION_TYPE: u8 = 1;

pub const SECTION_FUNCTION: u8 = 3;

pub const SECTION_EXPORT: u8 = 7;

pub const SECTION_CODE: u8 = 10;

/// `n` items one after another, each read by `item` from where the last one ended.
pub open spec fn parse_repeat<T>(p: int, n: nat, item: spec_fn(int) -> Option<(T, int)>) -> Option<
    (Seq<T>, int),
>
    decreases n,
{
    if n == 0 {
        Some((Seq::empty(), p))
    } else {
        match parse_repeat(p, (n - 1) as nat, item) {
            Some((xs, q)) => match item(q) {
                Some((x, r)) => Some((xs.push(x), r)),
                None => None,
            },
            None => None,
        }
    }
}

/// Once one item fails, any longer run fails too.
pub proof fn lemma_repeat_fails<T>(p: int, k: nat, n: nat, item: spec_fn(int) -> Option<(T, int)>)
    requires
        k <= n,
        parse_repeat(p, k, item) is None,
    ensures
        parse_repeat(p, n, item) is None,
    decreases n,
{
    if k < n {
        lemma_repeat_fails(p, k, (n - 1) as nat, item);
    }
}

/// A run of `n` items has `n` items.
pub proof fn lemma_repeat_len<T>(p: int, n: nat, item: spec_fn(int) -> Option<(T, int)>)
    requires
        parse_repeat(p, n, item) is Some,
    ensures
        match parse_repeat(p, n, item) {
            Some((xs, _)) => xs.len() == n,
            None => false,
        },
    decreases n,
{
    if n > 0 {
        lemma_repeat_len(p, (n - 1) as nat, item);
    }
}

/// A vector: its length as a `u32`, then that many items.
pub open spec fn parse_vec<T>(s: Seq<u8>, p: int, item: spec_fn(int) -> Option<(T, int)>) -> Option<
    (Seq<T>, int),
> {
    match spec_read_u32(s, p) {
        Some((n, q)) => parse_repeat(q, n as nat, item),
        None => None,
    }
}

pub open spec fn parse_valtype(s: Seq<u8>, p: int) -> Option<(ValType, int)> {
    if 0 <= p < s.len() {
        match valtype_of_byte(s[p]) {
            Some(t) => Some((t, p + 1)),
            None => None,
        }
    } else {
        None
    }
}

pub open spec fn valtype_item(s: Seq<u8>) -> spec_fn(int) -> Option<(ValType, int)> {
    |q: int| parse_valtype(s, q)
}

pub open spec fn u32_item(s: Seq<u8>) -> spec_fn(int) -> Option<(u32, int)> {
    |q: int| spec_read_u32(s, q)
}

/// `0x60`, the parameter types, the result types.
pub open spec fn parse_functype(s: Seq<u8>, p: int) -> Option<(FuncTypeModel, int)> {
    if 0 <= p < s.len() && s[p] == FUNC_TYPE_TAG {
        match parse_vec(s, p + 1, valtype_item(s)) {
            Some((ps, q)) => match parse_vec(s, q, valtype_item(s)) {
                Some((rs, r)) => Some((FuncTypeModel { parameters: ps, results: rs }, r)),
                None => None,
            },
            None => None,
        }
    } else {
        None
    }
}

pub open spec fn functype_item(s: Seq<u8>) -> spec_fn(int) -> Option<(FuncTypeModel, int)> {
    |q: int| parse_functype(s, q)
}

/// A name: its length in bytes, then that many bytes of UTF-8.
pub open spec fn parse_name(s: Seq<u8>, p: int) -> Option<(Seq<char>, int)> {
    match spec_read_u32(s, p) {
        Some((n, q)) => if q + n <= s.len() && valid_utf8(s.subrange(q, q + n)) {
            Some((decode_utf8(s.subrange(q, q + n)), q + n))
        } else {
            None
        },
        None => None,
    }
}

/// A name, the kind byte `0x00` of a function export, and the function's index.
pub open spec fn parse_export(s: Seq<u8>, p: int) -> Option<(ExportModel, int)> {
    match parse_name(s, p) {
        Some((name, q)) => if 0 <= q < s.len() && s[q] == 0x00 {
            match spec_read_u32(s, q + 1) {
                Some((idx, r)) => Some((ExportModel { name, desc: ExportDesc::Func(idx) }, r)),
                None => None,
            }
        } else {
            None
        },
        None => None,
    }
}

pub open spec fn export_item(s: Seq<u8>) -> spec_fn(int) -> Option<(ExportModel, int)> {
    |q: int| parse_export(s, q)
}

/// A run of locals: how many, and their type.
pub open spec fn parse_local_group(s: Seq<u8>, p: int) -> Option<((u32, ValType), int)> {
    match spec_read_u32(s, p) {
        Some((n, q)) => match parse_valtype(s, q) {
            Some((t, r)) => Some(((n, t), r)),
            None => None,
        },
        None => None,
    }
}

pub open spec fn local_group_item(s: Seq<u8>) -> spec_fn(int) -> Option<((u32, ValType), int)> {
    |q: int| parse_local_group(s, q)
}

/// Each run of locals spelled out, in order.
pub open spec fn expand_locals(groups: Seq<(u32, ValType)>) -> Seq<ValType>
    decreases groups.len(),
{
    if groups.len() == 0 {
        Seq::empty()
    } else {
        let g = groups.last();
        expand_locals(groups.drop_last()) + Seq::new(g.0 as nat, |i: int| g.1)
    }
}

pub open spec fn blocktype_of_byte(b: u8) -> Option<BlockType> {
    if b == EMPTY_BLOCK {
        Some(BlockType::Empty)
    } else {
        match valtype_of_byte(b) {
            Some(t) => Some(BlockType::ValType(t)),
            None => None,
        }
    }
}

/// Instructions up to an `Else` or an `End`; gives them, the byte that ended them, and the
/// position after that byte.
pub open spec fn parse_seq(s: Seq<u8>, p: int) -> Option<(Seq<InstrModel>, u8, int)>
    decreases s.len() - p, 1int,
{
    if !(0 <= p < s.len()) {
        None
    } else if s[p] == OP_ELSE || s[p] == OP_END {
        Some((Seq::empty(), s[p], p + 1))
    } else {
        match parse_instr(s, p) {
            Some((i, q)) => if p < q <= s.len() {
                match parse_seq(s, q) {
                    Some((rest, t, r)) => Some((seq![i] + rest, t, r)),
                    None => None,
                }
            } else {
                None
            },
            None => None,
        }
    }
}

/// One instruction other than `Else` and `End`, with its immediates and nested sequences.
pub open spec fn parse_instr(s: Seq<u8>, p: int) -> Option<(InstrModel, int)>
    decreases s.len() - p, 0int,
{
    if !(0 <= p < s.len()) {
        None
    } else {
        let op = s[p];
        if op == OP_IF {
            if p + 2 > s.len() {
                None
            } else {
                match blocktype_of_byte(s[p + 1]) {
                    Some(bt) => match parse_seq(s, p + 2) {
                        Some((th, t, q)) => if t == OP_END {
                            Some((InstrModel::If(bt, th, Seq::empty()), q))
                        } else if p < q <= s.len() {
                            match parse_seq(s, q) {
                                Some((el, t2, r)) => if t2 == OP_END {
                                    Some((InstrModel::If(bt, th, el), r))
                                } else {
                                    None
                                },
                                None => None,
                            }
                        } else {
                            None
                        },
                        None => None,
                    },
                    None => None,
                }
            }
        } else if op == OP_CALL {
            match spec_read_u32(s, p + 1) {
                Some((x, q)) => Some((InstrModel::Op(Instr::Call(x)), q)),
                None => None,
            }
        } else if op == OP_LOCAL_GET {
            match spec_read_u32(s, p + 1) {
                Some((x, q)) => Some((InstrModel::Op(Instr::LocalGet(x)), q)),
                None => None,
            }
        } else if op == OP_I32_CONST {
            match spec_read_i64(s, p + 1) {
                Some((x, q)) => Some((InstrModel::Op(Instr::I32Const(x as i32)), q)),
                None => None,
            }
        } else if op == OP_I64_CONST {
            match spec_read_i64(s, p + 1) {
                Some((x, q)) => Some((InstrModel::Op(Instr::I64Const(x)), q)),
                None => None,
            }
        } else {
            match plain_opcode(op) {
                Some(i) => Some((InstrModel::Op(i), p + 1)),
                None => None,
            }
        }
    }
}

/// A function body: the byte size (not checked against the rest), the runs of locals, and
/// instructions up to an `End`.
pub open spec fn parse_code(s: Seq<u8>, p: int) -> Option<((Seq<ValType>, Seq<InstrModel>), int)> {
    match spec_read_u32(s, p) {
        Some((_size, q)) => match parse_vec(s, q, local_group_item(s)) {
            Some((groups, r)) => match parse_seq(s, r) {
                Some((body, t, e)) => if t == OP_END {
                    Some(((expand_locals(groups), body), e))
                } else {
                    None
                },
                None => None,
            },
            None => None,
        },
        None => None,
    }
}

pub open spec fn code_item(s: Seq<u8>) -> spec_fn(int) -> Option<
    ((Seq<ValType>, Seq<InstrModel>), int),
> {
    |q: int| parse_code(s, q)
}

/// What the sections read so far hold; a later section of the same kind replaces an earlier.
pub struct Sections {
    pub types: Seq<FuncTypeModel>,
    pub type_idxs: Seq<u32>,
    pub exports: Seq<ExportModel>,
    pub funcs: Seq<FuncModel>,
}

pub open spec fn no_sections() -> Sections {
    Sections { types: Seq::empty(), type_idxs: Seq::empty(), exports: Seq::empty(), funcs: Seq::empty() }
}

/// The i-th body with the i-th signature index.
pub open spec fn zip_funcs(idxs: Seq<u32>, codes: Seq<(Seq<ValType>, Seq<InstrModel>)>) -> Seq<
    FuncModel,
> {
    Seq::new(
        codes.len(),
        |i: int| FuncModel { type_: idxs[i], locals: codes[i].0, body: codes[i].1 },
    )
}

/// Reads one section at `p`: its id byte, its size, and its payload; a section of an unknown
/// id is skipped by its size.
pub open spec fn parse_section(s: Seq<u8>, p: int, st: Sections) -> Option<(Sections, int)> {
    if !(0 <= p < s.len()) {
        None
    } else {
        let id = s[p];
        match spec_read_u32(s, p + 1) {
            Some((size, q)) => if id == SECTION_TYPE {
                match parse_vec(s, q, functype_item(s)) {
                    Some((v, r)) => Some((Sections { types: v, ..st }, r)),
                    None => None,
                }
            } else if id == SECTION_FUNCTION {
                match parse_vec(s, q, u32_item(s)) {
                    Some((v, r)) => Some((Sections { type_idxs: v, ..st }, r)),
                    None => None,
                }
            } else if id == SECTION_EXPORT {
                match parse_vec(s, q, export_item(s)) {
                    Some((v, r)) => Some((Sections { exports: v, ..st }, r)),
                    None => None,
                }
            } else if id == SECTION_CODE {
                match parse_vec(s, q, code_item(s)) {
                    Some((v, r)) => if v.len() == st.type_idxs.len() {
                        Some((Sections { funcs: zip_funcs(st.type_idxs, v), ..st }, r))
                    } else {
                        None
                    },
                    None => None,
                }
            } else if q + size <= s.len() {
                Some((st, q + size))
            } else {
                None
            },
            None => None,
        }
    }
}

/// Reads sections from `p` to the end of the bytes.
pub open spec fn parse_sections(s: Seq<u8>, p: int, st: Sections) -> Option<Sections>
    decreases s.len() - p,
{
    if !(0 <= p <= s.len()) {
        None
    } else if p == s.len() {
        Some(st)
    } else {
        match parse_section(s, p, st) {
            Some((st2, q)) => if p < q <= s.len() {
                parse_sections(s, q, st2)
            } else {
                None
            },
            None => None,
        }
    }
}

/// The module that the sections describe, if there is a body for every signature index and
/// every index is in range.
pub open spec fn assemble(st: Sections) -> Option<ModuleModel> {
    let m = ModuleModel { types: st.types, funcs: st.funcs, exports: st.exports };
    if st.type_idxs.len() == st.funcs.len() && m.wf() {
        Some(m)
    } else {
        None
    }
}

/// `\0asm`, then version 1.
pub open spec fn has_preamble(s: Seq<u8>) -> bool {
    &&& s.len() >= 8
    &&& s.subrange(0, 4) == seq![0x00u8, 0x61, 0x73, 0x6d]
    &&& s.subrange(4, 8) == seq![0x01u8, 0x00, 0x00, 0x00]
}

/// The module that the bytes encode, if they encode one.
pub open spec fn spec_decode(s: Seq<u8>) -> Option<ModuleModel> {
    if has_preamble(s) {
        match parse_sections(s, 8, no_sections()) {
            Some(st) => assemble(st),
            None => None,
        }
    } else {
        None
    }
}

} // verus!
