//! Instructions, and the table of one-byte opcodes.
use vstd::prelude::*;
use crate::types::BlockType;

verus! {

/// One instruction. `Else` and `End` only mark the ends of sequences in the binary form; they
/// never stand in a decoded body.
#[derive(Debug, PartialEq)]
pub enum Instr {
    If(BlockType, Vec<Instr>, Vec<Instr>),
    Else,
    End,
    Call(u32),
    Drop,
    LocalGet(u32),
    I32Const(i32),
    I64Const(i64),
    I32Eqz,
    I32Eq,
    I32Ne,
    I32LtS,
    I32LtU,
    I32GtS,
    I32GtU,
    I32LeS,
    I32LeU,
    I32GeS,
    I32GeU,
    I64Eqz,
    I64Eq,
    I64Ne,
    I64LtS,
    I64LtU,
    I64GtS,
    I64GtU,
    I64LeS,
    I64LeU,
    I64GeS,
    I64GeU,
    F32Eq,
    F32Ne,
    F32Lt,
    F32Gt,
    F32Le,
    F32Ge,
    F64Eq,
    F64Ne,
    F64Lt,
    F64Gt,
    F64Le,
    F64Ge,
    I32Clz,
    I32Ctz,
    I32Popcnt,
    I32Add,
    I32Sub,
    I32Mul,
    I32DivS,
    I32DivU,
    I32RemS,
    I32RemU,
    I32And,
    I32Or,
    I32Xor,
    I32Shl,
    I32ShrS,
    I32ShrU,
    I32Rotl,
    I32Rotr,
    I64Clz,
    I64Ctz,
    I64Popcnt,
    I64Add,
    I64Sub,
    I64Mul,
    I64DivS,
    I64DivU,
    I64RemS,
    I64RemU,
    I64And,
    I64Or,
    I64Xor,
    I64Shl,
    I64ShrS,
    I64ShrU,
    I64Rotl,
    I64Rotr,
    F32Abs,
    F32Neg,
    F32Ceil,
    F32Floor,
    F32Trunc,
    F32Nearest,
    F32Sqrt,
    F32Add,
    F32Sub,
    F32Mul,
    F32Div,
    F32Min,
    F32Max,
    F32Copysign,
    F64Abs,
    F64Neg,
    F64Ceil,
    F64Floor,
    F64Trunc,
    F64Nearest,
    F64Sqrt,
    F64Add,
    F64Sub,
    F64Mul,
    F64Div,
    F64Min,
    F64Max,
    F64Copysign,
    I32Extend8S,
    I32Extend16S,
}

/// A function body: its instructions in order, without the closing `End`.
#[derive(Debug, PartialEq)]
pub struct Expr(pub Vec<Instr>);

/// An instruction with its nested sequences as `Seq`s. `Op` holds an instruction that has no
/// nested sequence.
pub enum InstrModel {
    If(BlockType, Seq<InstrModel>, Seq<InstrModel>),
    Op(Instr),
}

/// The model of an instruction.
pub open spec fn instr_model(i: Instr) -> InstrModel
    decreases i,
{
    match i {
        Instr::If(bt, a, b) => InstrModel::If(bt, instrs_model(a@), instrs_model(b@)),
        _ => InstrModel::Op(i),
    }
}

/// The models of a sequence of instructions, in order.
pub open spec fn instrs_model(s: Seq<Instr>) -> Seq<InstrModel>
    decreases s,
{
    if s.len() == 0 {
        Seq::empty()
    } else {
        instrs_model(s.subrange(0, s.len() - 1)).push(instr_model(s[s.len() - 1]))
    }
}

impl View for Expr {
    type V = Seq<InstrModel>;

    open spec fn view(&self) -> Seq<InstrModel> {
        instrs_model(self.0@)
    }
}

pub proof fn lemma_instrs_model_push(s: Seq<Instr>, i: Instr)
    ensures
        instrs_model(s.push(i)) == instrs_model(s).push(instr_model(i)),
{
    assert(s.push(i).subrange(0, s.len() as int) =~= s);
}

pub proof fn lemma_instrs_model_len(s: Seq<Instr>)
    ensures
        instrs_model(s).len() == s.len(),
    decreases s.len(),
{
    if s.len() > 0 {
        lemma_instrs_model_len(s.subrange(0, s.len() - 1));
    }
}

/// The instruction that a one-byte opcode without immediates stands for.
pub open spec fn plain_opcode(b: u8) -> Option<Instr> {
    match b {
        0x1au8 => Some(Instr::Drop),
        0x45u8 => Some(Instr::I32Eqz),
        0x46u8 => Some(Instr::I32Eq),
        0x47u8 => Some(Instr::I32Ne),
        0x48u8 => Some(Instr::I32LtS),
        0x49u8 => Some(Instr::I32LtU),
        0x4au8 => Some(Instr::I32GtS),
        0x4bu8 => Some(Instr::I32GtU),
        0x4cu8 => Some(Instr::I32LeS),
        0x4du8 => Some(Instr::I32LeU),
        0x4eu8 => Some(Instr::I32GeS),
        0x4fu8 => Some(Instr::I32GeU),
        0x50u8 => Some(Instr::I64Eqz),
        0x51u8 => Some(Instr::I64Eq),
        0x52u8 => Some(Instr::I64Ne),
        0x53u8 => Some(Instr::I64LtS),
        0x54u8 => Some(Instr::I64LtU),
        0x55u8 => Some(Instr::I64GtS),
        0x56u8 => Some(Instr::I64GtU),
        0x57u8 => Some(Instr::I64LeS),
        0x58u8 => Some(Instr::I64LeU),
        0x59u8 => Some(Instr::I64GeS),
        0x5au8 => Some(Instr::I64GeU),
        0x5bu8 => Some(Instr::F32Eq),
        0x5cu8 => Some(Instr::F32Ne),
        0x5du8 => Some(Instr::F32Lt),
        0x5eu8 => Some(Instr::F32Gt),
        0x5fu8 => Some(Instr::F32Le),
        0x60u8 => Some(Instr::F32Ge),
        0x61u8 => Some(Instr::F64Eq),
        0x62u8 => Some(Instr::F64Ne),
        0x63u8 => Some(Instr::F64Lt),
        0x64u8 => Some(Instr::F64Gt),
        0x65u8 => Some(Instr::F64Le),
        0x66u8 => Some(Instr::F64Ge),
        0x67u8 => Some(Instr::I32Clz),
        0x68u8 => Some(Instr::I32Ctz),
        0x69u8 => Some(Instr::I32Popcnt),
        0x6au8 => Some(Instr::I32Add),
        0x6bu8 => Some(Instr::I32Sub),
        0x6cu8 => Some(Instr::I32Mul),
        0x6du8 => Some(Instr::I32DivS),
        0x6eu8 => Some(Instr::I32DivU),
        0x6fu8 => Some(Instr::I32RemS),
        0x70u8 => Some(Instr::I32RemU),
        0x71u8 => Some(Instr::I32And),
        0x72u8 => Some(Instr::I32Or),
        0x73u8 => Some(Instr::I32Xor),
        0x74u8 => Some(Instr::I32Shl),
        0x75u8 => Some(Instr::I32ShrS),
        0x76u8 => Some(Instr::I32ShrU),
        0x77u8 => Some(Instr::I32Rotl),
        0x78u8 => Some(Instr::I32Rotr),
        0x79u8 => Some(Instr::I64Clz),
        0x7au8 => Some(Instr::I64Ctz),
        0x7bu8 => Some(Instr::I64Popcnt),
        0x7cu8 => Some(Instr::I64Add),
        0x7du8 => Some(Instr::I64Sub),
        0x7eu8 => Some(Instr::I64Mul),
        0x7fu8 => Some(Instr::I64DivS),
        0x80u8 => Some(Instr::I64DivU),
        0x81u8 => Some(Instr::I64RemS),
        0x82u8 => Some(Instr::I64RemU),
        0x83u8 => Some(Instr::I64And),
        0x84u8 => Some(Instr::I64Or),
        0x85u8 => Some(Instr::I64Xor),
        0x86u8 => Some(Instr::I64Shl),
        0x87u8 => Some(Instr::I64ShrS),
        0x88u8 => Some(Instr::I64ShrU),
        0x89u8 => Some(Instr::I64Rotl),
        0x8au8 => Some(Instr::I64Rotr),
        0x8bu8 => Some(Instr::F32Abs),
        0x8cu8 => Some(Instr::F32Neg),
        0x8du8 => Some(Instr::F32Ceil),
        0x8eu8 => Some(Instr::F32Floor),
        0x8fu8 => Some(Instr::F32Trunc),
        0x90u8 => Some(Instr::F32Nearest),
        0x91u8 => Some(Instr::F32Sqrt),
        0x92u8 => Some(Instr::F32Add),
        0x93u8 => Some(Instr::F32Sub),
        0x94u8 => Some(Instr::F32Mul),
        0x95u8 => Some(Instr::F32Div),
        0x96u8 => Some(Instr::F32Min),
        0x97u8 => Some(Instr::F32Max),
        0x98u8 => Some(Instr::F32Copysign),
        0x99u8 => Some(Instr::F64Abs),
        0x9au8 => Some(Instr::F64Neg),
        0x9bu8 => Some(Instr::F64Ceil),
        0x9cu8 => Some(Instr::F64Floor),
        0x9du8 => Some(Instr::F64Trunc),
        0x9eu8 => Some(Instr::F64Nearest),
        0x9fu8 => Some(Instr::F64Sqrt),
        0xa0u8 => Some(Instr::F64Add),
        0xa1u8 => Some(Instr::F64Sub),
        0xa2u8 => Some(Instr::F64Mul),
        0xa3u8 => Some(Instr::F64Div),
        0xa4u8 => Some(Instr::F64Min),
        0xa5u8 => Some(Instr::F64Max),
        0xa6u8 => Some(Instr::F64Copysign),
        0xc0u8 => Some(Instr::I32Extend8S),
        0xc1u8 => Some(Instr::I32Extend16S),
        _ => None,
    }
}

/// Looks up a one-byte opcode without immediates.
pub fn plain_instr(b: u8) -> (r: Option<Instr>)
    ensures
        r == plain_opcode(b),
{
    match b {
        0x1a => Some(Instr::Drop),
        0x45 => Some(Instr::I32Eqz),
        0x46 => Some(Instr::I32Eq),
        0x47 => Some(Instr::I32Ne),
        0x48 => Some(Instr::I32LtS),
        0x49 => Some(Instr::I32LtU),
        0x4a => Some(Instr::I32GtS),
        0x4b => Some(Instr::I32GtU),
        0x4c => Some(Instr::I32LeS),
        0x4d => Some(Instr::I32LeU),
        0x4e => Some(Instr::I32GeS),
        0x4f => Some(Instr::I32GeU),
        0x50 => Some(Instr::I64Eqz),
        0x51 => Some(Instr::I64Eq),
        0x52 => Some(Instr::I64Ne),
        0x53 => Some(Instr::I64LtS),
        0x54 => Some(Instr::I64LtU),
        0x55 => Some(Instr::I64GtS),
        0x56 => Some(Instr::I64GtU),
        0x57 => Some(Instr::I64LeS),
        0x58 => Some(Instr::I64LeU),
        0x59 => Some(Instr::I64GeS),
        0x5a => Some(Instr::I64GeU),
        0x5b => Some(Instr::F32Eq),
        0x5c => Some(Instr::F32Ne),
        0x5d => Some(Instr::F32Lt),
        0x5e => Some(Instr::F32Gt),
        0x5f => Some(Instr::F32Le),
        0x60 => Some(Instr::F32Ge),
        0x61 => Some(Instr::F64Eq),
        0x62 => Some(Instr::F64Ne),
        0x63 => Some(Instr::F64Lt),
        0x64 => Some(Instr::F64Gt),
        0x65 => Some(Instr::F64Le),
        0x66 => Some(Instr::F64Ge),
        0x67 => Some(Instr::I32Clz),
        0x68 => Some(Instr::I32Ctz),
        0x69 => Some(Instr::I32Popcnt),
        0x6a => Some(Instr::I32Add),
        0x6b => Some(Instr::I32Sub),
        0x6c => Some(Instr::I32Mul),
        0x6d => Some(Instr::I32DivS),
        0x6e => Some(Instr::I32DivU),
        0x6f => Some(Instr::I32RemS),
        0x70 => Some(Instr::I32RemU),
        0x71 => Some(Instr::I32And),
        0x72 => Some(Instr::I32Or),
        0x73 => Some(Instr::I32Xor),
        0x74 => Some(Instr::I32Shl),
        0x75 => Some(Instr::I32ShrS),
        0x76 => Some(Instr::I32ShrU),
        0x77 => Some(Instr::I32Rotl),
        0x78 => Some(Instr::I32Rotr),
        0x79 => Some(Instr::I64Clz),
        0x7a => Some(Instr::I64Ctz),
        0x7b => Some(Instr::I64Popcnt),
        0x7c => Some(Instr::I64Add),
        0x7d => Some(Instr::I64Sub),
        0x7e => Some(Instr::I64Mul),
        0x7f => Some(Instr::I64DivS),
        0x80 => Some(Instr::I64DivU),
        0x81 => Some(Instr::I64RemS),
        0x82 => Some(Instr::I64RemU),
        0x83 => Some(Instr::I64And),
        0x84 => Some(Instr::I64Or),
        0x85 => Some(Instr::I64Xor),
        0x86 => Some(Instr::I64Shl),
        0x87 => Some(Instr::I64ShrS),
        0x88 => Some(Instr::I64ShrU),
        0x89 => Some(Instr::I64Rotl),
        0x8a => Some(Instr::I64Rotr),
        0x8b => Some(Instr::F32Abs),
        0x8c => Some(Instr::F32Neg),
        0x8d => Some(Instr::F32Ceil),
        0x8e => Some(Instr::F32Floor),
        0x8f => Some(Instr::F32Trunc),
        0x90 => Some(Instr::F32Nearest),
        0x91 => Some(Instr::F32Sqrt),
        0x92 => Some(Instr::F32Add),
        0x93 => Some(Instr::F32Sub),
        0x94 => Some(Instr::F32Mul),
        0x95 => Some(Instr::F32Div),
        0x96 => Some(Instr::F32Min),
        0x97 => Some(Instr::F32Max),
        0x98 => Some(Instr::F32Copysign),
        0x99 => Some(Instr::F64Abs),
        0x9a => Some(Instr::F64Neg),
        0x9b => Some(Instr::F64Ceil),
        0x9c => Some(Instr::F64Floor),
        0x9d => Some(Instr::F64Trunc),
        0x9e => Some(Instr::F64Nearest),
        0x9f => Some(Instr::F64Sqrt),
        0xa0 => Some(Instr::F64Add),
        0xa1 => Some(Instr::F64Sub),
        0xa2 => Some(Instr::F64Mul),
        0xa3 => Some(Instr::F64Div),
        0xa4 => Some(Instr::F64Min),
        0xa5 => Some(Instr::F64Max),
        0xa6 => Some(Instr::F64Copysign),
        0xc0 => Some(Instr::I32Extend8S),
        0xc1 => Some(Instr::I32Extend16S),
        _ => None,
    }
}

} // verus!
