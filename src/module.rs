//! Decoded modules: function signatures, functions and exports.
use vstd::prelude::*;
use crate::instr::{Expr, InstrModel};
use crate::types::{FuncType, FuncTypeModel, ValType};

verus! {

/// A function as the module declares it: the index of its signature, the types of its
/// locals beyond the parameters, and its body.
#[derive(Debug, PartialEq)]
pub struct Func {
    pub type_: u32,
    pub locals: Vec<ValType>,
    pub body: Expr,
}

pub struct FuncModel {
    pub type_: u32,
    pub locals: Seq<ValType>,
    pub body: Seq<InstrModel>,
}

impl View for Func {
    type V = FuncModel;

    open spec fn view(&self) -> FuncModel {
        FuncModel { type_: self.type_, locals: self.locals@, body: self.body@ }
    }
}

/// What an export refers to.
#[derive(Debug, Clone, Copy, PartialEq, Eq, Structural)]
pub enum ExportDesc {
    Func(u32),
}

/// A named export.
#[derive(Debug, PartialEq)]
pub struct Export {
    pub name: String,
    pub desc: ExportDesc,
}

pub struct ExportModel {
    pub name: Seq<char>,
    pub desc: ExportDesc,
}

impl View for Export {
    type V = ExportModel;

    open spec fn view(&self) -> ExportModel {
        ExportModel { name: self.name@, desc: self.desc }
    }
}

/// A decoded module.
#[derive(Debug)]
pub struct Module {
    pub types: Vec<FuncType>,
    pub funcs: Vec<Func>,
    pub exports: Vec<Export>,
}

pub struct ModuleModel {
    pub types: Seq<FuncTypeModel>,
    pub funcs: Seq<FuncModel>,
    pub exports: Seq<ExportModel>,
}

impl ModuleModel {
    /// Every function's signature index and every export's function index is in range.
    pub open spec fn wf(self) -> bool {
        &&& forall|i: int| 0 <= i < self.funcs.len() ==> #[trigger] self.funcs[i].type_ < self.types.len()
        &&& forall|i: int|
            0 <= i < self.exports.len() ==> match #[trigger] self.exports[i].desc {
                ExportDesc::Func(f) => f < self.funcs.len(),
            }
    }
}

pub open spec fn types_model(v: Seq<FuncType>) -> Seq<FuncTypeModel> {
    v.map_values(|t: FuncType| t@)
}

pub open spec fn funcs_model(v: Seq<Func>) -> Seq<FuncModel> {
    v.map_values(|f: Func| f@)
}

pub open spec fn exports_model(v: Seq<Export>) -> Seq<ExportModel> {
    v.map_values(|e: Export| e@)
}

impl View for Module {
    type V = ModuleModel;

    open spec fn view(&self) -> ModuleModel {
        ModuleModel {
            types: types_model(self.types@),
            funcs: funcs_model(self.funcs@),
            exports: exports_model(self.exports@),
        }
    }
}

impl Module {
    /// Whether every function's signature index and every export's function index is in range.
    pub fn is_well_formed(&self) -> (r: bool)
        ensures
            r == self@.wf(),
    {
        let mut i: usize = 0;
        while i < self.funcs.len()
            invariant
                i <= self.funcs.len(),
                forall|j: int| 0 <= j < i ==> #[trigger] self@.funcs[j].type_ < self@.types.len(),
            decreases self.funcs.len() - i,
        {
            if self.funcs[i].type_ as usize >= self.types.len() {
                assert(self@.funcs[i as int].type_ >= self@.types.len());
                return false;
            }
            i = i + 1;
        }
        let mut k: usize = 0;
        while k < self.exports.len()
            invariant
                k <= self.exports.len(),
                forall|j: int| 0 <= j < self@.funcs.len() ==> #[trigger] self@.funcs[j].type_ < self@.types.len(),
                forall|j: int|
                    0 <= j < k ==> match #[trigger] self@.exports[j].desc {
                        ExportDesc::Func(f) => f < self@.funcs.len(),
                    },
            decreases self.exports.len() - k,
        {
            match self.exports[k].desc {
                ExportDesc::Func(f) => {
                    if f as usize >= self.funcs.len() {
                        assert(self@.exports[k as int].desc == ExportDesc::Func(f));
                        return false;
                    }
                },
            }
            k = k + 1;
        }
        true
    }
}

} // verus!
