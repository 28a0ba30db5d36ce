//! Decodes a module from its binary form.
use vstd::prelude::*;
use vstd::utf8::{decode_utf8, valid_utf8};
use crate::grammar::{
    blocktype_of_byte, code_item, export_item, expand_locals, functype_item, has_preamble,
    lemma_repeat_fails, lemma_repeat_len, local_group_item, parse_code, parse_export,
    parse_functype, parse_instr, parse_local_group, parse_name, parse_repeat, parse_section,
    parse_sections, parse_seq, parse_valtype, parse_vec, spec_decode, u32_item, valtype_item,
    zip_funcs, no_sections, Sections, EMPTY_BLOCK, FUNC_TYPE_TAG, OP_CALL, OP_ELSE,
    OP_END, OP_I32_CONST, OP_I64_CONST, OP_IF, OP_LOCAL_GET, SECTION_CODE, SECTION_EXPORT,
    SECTION_FUNCTION, SECTION_TYPE,
};
use crate::instr::{
    instr_model, instrs_model, lemma_instrs_model_push, plain_instr, Expr, Instr, InstrModel,
};
use crate::leb128::{read_i64, read_u32, spec_read_i64, spec_read_u32};
use crate::module::{
    exports_model, funcs_model, types_model, Export, ExportDesc, Func, Module,
};
use crate::types::{valtype_from_byte, BlockType, FuncType, ValType};

verus! {

/// The bytes do not encode a module of the supported subset.
#[derive(Debug, PartialEq)]
pub struct DecodingError {}

impl DecodingError {
    fn new() -> Self {
        DecodingError {  }
    }
}

/// Relies on `std::str::from_utf8`: it accepts exactly the byte strings that are valid UTF-8,
/// and the string made from its result holds the characters that those bytes encode.
#[verifier::external_body]
fn utf8_string(b: &[u8]) -> (r: Option<String>)
    ensures
        r is Some <==> valid_utf8(b@),
        r matches Some(t) ==> t@ == decode_utf8(b@),
{
    match std::str::from_utf8(b) {
        Ok(t) => Some(t.to_string()),
        Err(_) => None,
    }
}

fn blocktype_from_byte(b: u8) -> (r: Option<BlockType>)
    ensures
        r == blocktype_of_byte(b),
{
    if b == EMPTY_BLOCK {
        Some(BlockType::Empty)
    } else {
        match valtype_from_byte(b) {
            Some(t) => Some(BlockType::ValType(t)),
            None => None,
        }
    }
}

/// Prepends `a` to what a parse of a sequence gave.
pub open spec fn prefixed(a: Seq<InstrModel>, o: Option<(Seq<InstrModel>, u8, int)>) -> Option<
    (Seq<InstrModel>, u8, int),
> {
    match o {
        Some((rest, t, r)) => Some((a + rest, t, r)),
        None => None,
    }
}

/// A cursor over the bytes of a module.
pub struct Decoder<'a> {
    input: &'a [u8],
    pos: usize,
}

impl<'a> Decoder<'a> {
    /// The bytes being decoded.
    pub closed spec fn bytes(&self) -> Seq<u8> {
        self.input@
    }

    /// Where the next byte will be read.
    pub closed spec fn position(&self) -> int {
        self.pos as int
    }

    /// A decoder at the start of `input`.
    pub fn new(input: &'a [u8]) -> (r: Decoder<'a>)
        ensures
            r.bytes() == input@,
            r.position() == 0,
    {
        Decoder { input, pos: 0 }
    }

    /// The cursor moved forward over the same bytes and stays within them.
    pub closed spec fn advanced(&self, later: &Decoder<'a>) -> bool {
        &&& later.input == self.input
        &&& self.pos <= later.pos <= later.input.len()
    }
}

impl Decoder<'_> {
    /// Decodes the whole input as a module.
    pub fn decode(&mut self) -> (r: Result<Module, DecodingError>)
        ensures
            final(self).bytes() == old(self).bytes(),
            match r {
                Ok(m) => spec_decode(old(self).bytes()) == Some(m@),
                Err(_) => spec_decode(old(self).bytes()) is None,
            },
    {
        self.pos = 0;
        let ghost s = self.input@;
        let magic_number = match self.decode_magic_number() {
            Ok(v) => v,
            Err(e) => return Err(e),
        };
        if !(magic_number[0] == 0x00 && magic_number[1] == 0x61 && magic_number[2] == 0x73
            && magic_number[3] == 0x6d) {
            assert(!has_preamble(s)) by {
                if has_preamble(s) {
                    assert(s.subrange(0, 4)[1] == 0x61u8);
                    assert(s.subrange(0, 4)[2] == 0x73u8);
                    assert(s.subrange(0, 4)[3] == 0x6du8);
                }
            }
            return Err(DecodingError::new());
        }
        let version = match self.decode_version() {
            Ok(v) => v,
            Err(e) => return Err(e),
        };
        if !(version[0] == 0x01 && version[1] == 0x00 && version[2] == 0x00 && version[3]
            == 0x00) {
            assert(!has_preamble(s)) by {
                if has_preamble(s) {
                    assert(s.subrange(4, 8)[0] == 0x01u8);
                    assert(s.subrange(4, 8)[1] == 0x00u8);
                    assert(s.subrange(4, 8)[2] == 0x00u8);
                    assert(s.subrange(4, 8)[3] == 0x00u8);
                }
            }
            return Err(DecodingError::new());
        }
        assert(has_preamble(s)) by {
            assert(s.subrange(0, 4) =~= seq![0x00u8, 0x61, 0x73, 0x6d]);
            assert(s.subrange(4, 8) =~= seq![0x01u8, 0x00, 0x00, 0x00]);
        }
        let mut types: Vec<FuncType> = Vec::new();
        let mut type_idxs: Vec<u32> = Vec::new();
        let mut exports: Vec<Export> = Vec::new();
        let mut funcs: Vec<Func> = Vec::new();
        assert(types_model(types@) =~= Seq::empty());
        assert(exports_model(exports@) =~= Seq::empty());
        assert(funcs_model(funcs@) =~= Seq::empty());
        assert(type_idxs@ =~= Seq::empty());
        while self.pos < self.input.len()
            invariant
                self.input == old(self).input,
                self.input@ == s,
                8 <= self.pos <= self.input.len(),
                parse_sections(s, 8, no_sections()) == parse_sections(
                    s,
                    self.pos as int,
                    Sections {
                        types: types_model(types@),
                        type_idxs: type_idxs@,
                        exports: exports_model(exports@),
                        funcs: funcs_model(funcs@),
                    },
                ),
            decreases self.input.len() - self.pos,
        {
            let ghost p = self.pos as int;
            let ghost st = Sections {
                types: types_model(types@),
                type_idxs: type_idxs@,
                exports: exports_model(exports@),
                funcs: funcs_model(funcs@),
            };
            let section_id = self.input[self.pos];
            self.pos = self.pos + 1;
            let section_size = match self.decode_u32() {
                Ok(v) => v,
                Err(e) => return Err(e),
            };
            if section_id == SECTION_TYPE {
                types = match self.decode_type_section() {
                    Ok(v) => v,
                    Err(e) => return Err(e),
                };
            } else if section_id == SECTION_FUNCTION {
                type_idxs = match self.decode_function_section() {
                    Ok(v) => v,
                    Err(e) => return Err(e),
                };
            } else if section_id == SECTION_EXPORT {
                exports = match self.decode_export_section() {
                    Ok(v) => v,
                    Err(e) => return Err(e),
                };
            } else if section_id == SECTION_CODE {
                funcs = match self.decode_code_section(&type_idxs) {
                    Ok(v) => v,
                    Err(e) => return Err(e),
                };
            } else {
                if section_size as usize > self.input.len() - self.pos {
                    return Err(DecodingError::new());
                }
                self.pos = self.pos + section_size as usize;
            }
            assert(parse_section(s, p, st) == Some(
                (
                    Sections {
                        types: types_model(types@),
                        type_idxs: type_idxs@,
                        exports: exports_model(exports@),
                        funcs: funcs_model(funcs@),
                    },
                    self.pos as int,
                ),
            ));
        }
        if type_idxs.len() != funcs.len() {
            return Err(DecodingError::new());
        }
        let module = Module { types, funcs, exports };
        if !module.is_well_formed() {
            return Err(DecodingError::new());
        }
        Ok(module)
    }

    fn decode_magic_number(&mut self) -> (r: Result<Vec<u8>, DecodingError>)
        requires
            old(self).pos == 0,
        ensures
            old(self).advanced(final(self)),
            match r {
                Ok(v) => final(self).pos == 4 && v@ == old(self).input@.subrange(0, 4),
                Err(_) => old(self).input@.len() < 4,
            },
    {
        self.decode_four_bytes()
    }

    fn decode_version(&mut self) -> (r: Result<Vec<u8>, DecodingError>)
        requires
            old(self).pos == 4,
            old(self).pos <= old(self).input.len(),
        ensures
            old(self).advanced(final(self)),
            match r {
                Ok(v) => final(self).pos == 8 && v@ == old(self).input@.subrange(4, 8),
                Err(_) => old(self).input@.len() < 8,
            },
    {
        self.decode_four_bytes()
    }

    fn decode_four_bytes(&mut self) -> (r: Result<Vec<u8>, DecodingError>)
        requires
            old(self).pos <= old(self).input.len(),
        ensures
            old(self).advanced(final(self)),
            match r {
                Ok(v) => final(self).pos == old(self).pos + 4 && v@ == old(self).input@.subrange(
                    old(self).pos as int,
                    old(self).pos + 4,
                ),
                Err(_) => old(self).input@.len() < old(self).pos + 4,
            },
    {
        let ghost p0 = self.pos as int;
        let mut bytes: Vec<u8> = Vec::new();
        let mut i: usize = 0;
        while i < 4
            invariant
                self.input == old(self).input,
                p0 == old(self).pos,
                i <= 4,
                self.pos == p0 + i,
                self.pos <= self.input.len(),
                bytes@ == self.input@.subrange(p0, p0 + i),
            decreases 4 - i,
        {
            if self.input.len() <= self.pos {
                return Err(DecodingError::new());
            }
            bytes.push(self.input[self.pos]);
            self.pos = self.pos + 1;
            i = i + 1;
            assert(bytes@ =~= self.input@.subrange(p0, p0 + i));
        }
        Ok(bytes)
    }

    fn decode_u32(&mut self) -> (r: Result<u32, DecodingError>)
        requires
            old(self).pos <= old(self).input.len(),
        ensures
            old(self).advanced(final(self)),
            match r {
                Ok(v) => spec_read_u32(old(self).input@, old(self).pos as int) == Some(
                    (v, final(self).pos as int),
                ) && old(self).pos < final(self).pos,
                Err(_) => spec_read_u32(old(self).input@, old(self).pos as int) is None,
            },
    {
        match read_u32(self.input, self.pos) {
            Some((v, e)) => {
                self.pos = e;
                Ok(v)
            },
            None => Err(DecodingError::new()),
        }
    }

    fn decode_i64(&mut self) -> (r: Result<i64, DecodingError>)
        requires
            old(self).pos <= old(self).input.len(),
        ensures
            old(self).advanced(final(self)),
            match r {
                Ok(v) => spec_read_i64(old(self).input@, old(self).pos as int) == Some(
                    (v, final(self).pos as int),
                ) && old(self).pos < final(self).pos,
                Err(_) => spec_read_i64(old(self).input@, old(self).pos as int) is None,
            },
    {
        match read_i64(self.input, self.pos) {
            Some((v, e)) => {
                self.pos = e;
                Ok(v)
            },
            None => Err(DecodingError::new()),
        }
    }

    fn decode_valtype(&mut self) -> (r: Result<ValType, DecodingError>)
        requires
            old(self).pos <= old(self).input.len(),
        ensures
            old(self).advanced(final(self)),
            match r {
                Ok(t) => parse_valtype(old(self).input@, old(self).pos as int) == Some(
                    (t, final(self).pos as int),
                ),
                Err(_) => parse_valtype(old(self).input@, old(self).pos as int) is None,
            },
    {
        if self.pos >= self.input.len() {
            return Err(DecodingError::new());
        }
        match valtype_from_byte(self.input[self.pos]) {
            Some(t) => {
                self.pos = self.pos + 1;
                Ok(t)
            },
            None => Err(DecodingError::new()),
        }
    }

    fn decode_valtypes(&mut self) -> (r: Result<Vec<ValType>, DecodingError>)
        requires
            old(self).pos <= old(self).input.len(),
        ensures
            old(self).advanced(final(self)),
            match r {
                Ok(v) => parse_vec(old(self).input@, old(self).pos as int, valtype_item(old(self).input@))
                    == Some((v@, final(self).pos as int)),
                Err(_) => parse_vec(old(self).input@, old(self).pos as int, valtype_item(old(self).input@))
                    is None,
            },
    {
        let ghost s = self.input@;
        let n = match self.decode_u32() {
            Ok(n) => n,
            Err(e) => return Err(e),
        };
        let ghost q = self.pos as int;
        let mut v: Vec<ValType> = Vec::new();
        let mut k: u32 = 0;
        while k < n
            invariant
                self.input == old(self).input,
                s == self.input@,
                old(self).pos <= self.pos <= self.input.len(),
                spec_read_u32(s, old(self).pos as int) == Some((n, q)),
                k <= n,
                parse_repeat(q, k as nat, valtype_item(s)) == Some((v@, self.pos as int)),
            decreases n - k,
        {
            match self.decode_valtype() {
                Ok(t) => v.push(t),
                Err(e) => {
                    proof {
                        lemma_repeat_fails(q, (k + 1) as nat, n as nat, valtype_item(s));
                    }
                    return Err(e);
                },
            }
            k = k + 1;
        }
        Ok(v)
    }

    fn decode_functype(&mut self) -> (r: Result<FuncType, DecodingError>)
        requires
            old(self).pos <= old(self).input.len(),
        ensures
            old(self).advanced(final(self)),
            match r {
                Ok(t) => parse_functype(old(self).input@, old(self).pos as int) == Some(
                    (t@, final(self).pos as int),
                ),
                Err(_) => parse_functype(old(self).input@, old(self).pos as int) is None,
            },
    {
        if self.pos >= self.input.len() || self.input[self.pos] != FUNC_TYPE_TAG {
            return Err(DecodingError::new());
        }
        self.pos = self.pos + 1;
        let parameters = match self.decode_valtypes() {
            Ok(v) => v,
            Err(e) => return Err(e),
        };
        let results = match self.decode_valtypes() {
            Ok(v) => v,
            Err(e) => return Err(e),
        };
        Ok(FuncType { parameters, results })
    }

    fn decode_type_section(&mut self) -> (r: Result<Vec<FuncType>, DecodingError>)
        requires
            old(self).pos <= old(self).input.len(),
        ensures
            old(self).advanced(final(self)),
            match r {
                Ok(v) => parse_vec(old(self).input@, old(self).pos as int, functype_item(old(self).input@))
                    == Some((types_model(v@), final(self).pos as int)),
                Err(_) => parse_vec(old(self).input@, old(self).pos as int, functype_item(old(self).input@))
                    is None,
            },
    {
        let ghost s = self.input@;
        let n = match self.decode_u32() {
            Ok(n) => n,
            Err(e) => return Err(e),
        };
        let ghost q = self.pos as int;
        let mut types: Vec<FuncType> = Vec::new();
        let mut k: u32 = 0;
        while k < n
            invariant
                self.input == old(self).input,
                s == self.input@,
                old(self).pos <= self.pos <= self.input.len(),
                spec_read_u32(s, old(self).pos as int) == Some((n, q)),
                k <= n,
                parse_repeat(q, k as nat, functype_item(s)) == Some(
                    (types_model(types@), self.pos as int),
                ),
            decreases n - k,
        {
            match self.decode_functype() {
                Ok(t) => {
                    proof {
                        assert(types_model(types@.push(t)) =~= types_model(types@).push(t@));
                    }
                    types.push(t);
                },
                Err(e) => {
                    proof {
                        lemma_repeat_fails(q, (k + 1) as nat, n as nat, functype_item(s));
                    }
                    return Err(e);
                },
            }
            k = k + 1;
        }
        Ok(types)
    }

    fn decode_function_section(&mut self) -> (r: Result<Vec<u32>, DecodingError>)
        requires
            old(self).pos <= old(self).input.len(),
        ensures
            old(self).advanced(final(self)),
            match r {
                Ok(v) => parse_vec(old(self).input@, old(self).pos as int, u32_item(old(self).input@))
                    == Some((v@, final(self).pos as int)),
                Err(_) => parse_vec(old(self).input@, old(self).pos as int, u32_item(old(self).input@))
                    is None,
            },
    {
        let ghost s = self.input@;
        let n = match self.decode_u32() {
            Ok(n) => n,
            Err(e) => return Err(e),
        };
        let ghost q = self.pos as int;
        let mut idxs: Vec<u32> = Vec::new();
        let mut k: u32 = 0;
        while k < n
            invariant
                self.input == old(self).input,
                s == self.input@,
                old(self).pos <= self.pos <= self.input.len(),
                spec_read_u32(s, old(self).pos as int) == Some((n, q)),
                k <= n,
                parse_repeat(q, k as nat, u32_item(s)) == Some((idxs@, self.pos as int)),
            decreases n - k,
        {
            match self.decode_u32() {
                Ok(x) => idxs.push(x),
                Err(e) => {
                    proof {
                        lemma_repeat_fails(q, (k + 1) as nat, n as nat, u32_item(s));
                    }
                    return Err(e);
                },
            }
            k = k + 1;
        }
        Ok(idxs)
    }

    fn decode_name(&mut self) -> (r: Result<String, DecodingError>)
        requires
            old(self).pos <= old(self).input.len(),
        ensures
            old(self).advanced(final(self)),
            match r {
                Ok(t) => parse_name(old(self).input@, old(self).pos as int) == Some(
                    (t@, final(self).pos as int),
                ),
                Err(_) => parse_name(old(self).input@, old(self).pos as int) is None,
            },
    {
        let n = match self.decode_u32() {
            Ok(n) => n,
            Err(e) => return Err(e),
        };
        if n as usize > self.input.len() - self.pos {
            return Err(DecodingError::new());
        }
        let start = self.pos;
        let mut bytes: Vec<u8> = Vec::new();
        let mut i: usize = 0;
        while i < n as usize
            invariant
                self.input == old(self).input,
                self.pos == start,
                start + n <= self.input.len(),
                i <= n,
                bytes@ == self.input@.subrange(start as int, start + i),
            decreases n - i,
        {
            bytes.push(self.input[start + i]);
            i = i + 1;
            assert(bytes@ =~= self.input@.subrange(start as int, start + i));
        }
        self.pos = start + n as usize;
        match utf8_string(bytes.as_slice()) {
            Some(t) => Ok(t),
            None => Err(DecodingError::new()),
        }
    }

    fn decode_export(&mut self) -> (r: Result<Export, DecodingError>)
        requires
            old(self).pos <= old(self).input.len(),
        ensures
            old(self).advanced(final(self)),
            match r {
                Ok(x) => parse_export(old(self).input@, old(self).pos as int) == Some(
                    (x@, final(self).pos as int),
                ),
                Err(_) => parse_export(old(self).input@, old(self).pos as int) is None,
            },
    {
        let name = match self.decode_name() {
            Ok(t) => t,
            Err(e) => return Err(e),
        };
        if self.pos >= self.input.len() || self.input[self.pos] != 0x00 {
            return Err(DecodingError::new());
        }
        self.pos = self.pos + 1;
        let idx = match self.decode_u32() {
            Ok(x) => x,
            Err(e) => return Err(e),
        };
        Ok(Export { name, desc: ExportDesc::Func(idx) })
    }

    fn decode_export_section(&mut self) -> (r: Result<Vec<Export>, DecodingError>)
        requires
            old(self).pos <= old(self).input.len(),
        ensures
            old(self).advanced(final(self)),
            match r {
                Ok(v) => parse_vec(old(self).input@, old(self).pos as int, export_item(old(self).input@))
                    == Some((exports_model(v@), final(self).pos as int)),
                Err(_) => parse_vec(old(self).input@, old(self).pos as int, export_item(old(self).input@))
                    is None,
            },
    {
        let ghost s = self.input@;
        let n = match self.decode_u32() {
            Ok(n) => n,
            Err(e) => return Err(e),
        };
        let ghost q = self.pos as int;
        let mut exports: Vec<Export> = Vec::new();
        let mut k: u32 = 0;
        while k < n
            invariant
                self.input == old(self).input,
                s == self.input@,
                old(self).pos <= self.pos <= self.input.len(),
                spec_read_u32(s, old(self).pos as int) == Some((n, q)),
                k <= n,
                parse_repeat(q, k as nat, export_item(s)) == Some(
                    (exports_model(exports@), self.pos as int),
                ),
            decreases n - k,
        {
            match self.decode_export() {
                Ok(x) => {
                    proof {
                        assert(exports_model(exports@.push(x)) =~= exports_model(exports@).push(
                            x@,
                        ));
                    }
                    exports.push(x);
                },
                Err(e) => {
                    proof {
                        lemma_repeat_fails(q, (k + 1) as nat, n as nat, export_item(s));
                    }
                    return Err(e);
                },
            }
            k = k + 1;
        }
        Ok(exports)
    }

    /// The locals of a body, each run spelled out.
    fn decode_locals(&mut self) -> (r: Result<Vec<ValType>, DecodingError>)
        requires
            old(self).pos <= old(self).input.len(),
        ensures
            old(self).advanced(final(self)),
            match r {
                Ok(v) => match parse_vec(
                    old(self).input@,
                    old(self).pos as int,
                    local_group_item(old(self).input@),
                ) {
                    Some((groups, e)) => e == final(self).pos && v@ == expand_locals(groups),
                    None => false,
                },
                Err(_) => parse_vec(
                    old(self).input@,
                    old(self).pos as int,
                    local_group_item(old(self).input@),
                ) is None,
            },
    {
        let ghost s = self.input@;
        let n = match self.decode_u32() {
            Ok(n) => n,
            Err(e) => return Err(e),
        };
        let ghost q = self.pos as int;
        let ghost mut groups: Seq<(u32, ValType)> = Seq::empty();
        let mut locals: Vec<ValType> = Vec::new();
        let mut k: u32 = 0;
        while k < n
            invariant
                self.input == old(self).input,
                s == self.input@,
                old(self).pos <= self.pos <= self.input.len(),
                spec_read_u32(s, old(self).pos as int) == Some((n, q)),
                k <= n,
                parse_repeat(q, k as nat, local_group_item(s)) == Some((groups, self.pos as int)),
                locals@ == expand_locals(groups),
            decreases n - k,
        {
            let ghost p = self.pos as int;
            let count = match self.decode_u32() {
                Ok(c) => c,
                Err(e) => {
                    proof {
                        lemma_repeat_fails(q, (k + 1) as nat, n as nat, local_group_item(s));
                    }
                    return Err(e);
                },
            };
            let t = match self.decode_valtype() {
                Ok(t) => t,
                Err(e) => {
                    proof {
                        lemma_repeat_fails(q, (k + 1) as nat, n as nat, local_group_item(s));
                    }
                    return Err(e);
                },
            };
            assert(parse_local_group(s, p) == Some(((count, t), self.pos as int)));
            let ghost before = locals@;
            let mut j: u32 = 0;
            while j < count
                invariant
                    j <= count,
                    locals@ == before + Seq::new(j as nat, |i: int| t),
                decreases count - j,
            {
                locals.push(t);
                j = j + 1;
                assert(locals@ =~= before + Seq::new(j as nat, |i: int| t));
            }
            proof {
                let g2 = groups.push((count, t));
                assert(g2.drop_last() =~= groups);
                assert(expand_locals(g2) == expand_locals(groups) + Seq::new(
                    count as nat,
                    |i: int| t,
                ));
                assert(Seq::new(count as nat, |i: int| t) =~= Seq::new(j as nat, |i: int| t));
                groups = g2;
            }
            k = k + 1;
        }
        Ok(locals)
    }

    fn decode_code(&mut self) -> (r: Result<(Vec<ValType>, Expr), DecodingError>)
        requires
            old(self).pos <= old(self).input.len(),
        ensures
            old(self).advanced(final(self)),
            match r {
                Ok((locals, body)) => parse_code(old(self).input@, old(self).pos as int) == Some(
                    ((locals@, body@), final(self).pos as int),
                ),
                Err(_) => parse_code(old(self).input@, old(self).pos as int) is None,
            },
    {
        let _size = match self.decode_u32() {
            Ok(n) => n,
            Err(e) => return Err(e),
        };
        let locals = match self.decode_locals() {
            Ok(v) => v,
            Err(e) => return Err(e),
        };
        let (body, t) = match self.decode_seq() {
            Ok(b) => b,
            Err(e) => return Err(e),
        };
        if t != OP_END {
            return Err(DecodingError::new());
        }
        Ok((locals, Expr(body)))
    }

    fn decode_code_section(&mut self, type_idxs: &Vec<u32>) -> (r: Result<
        Vec<Func>,
        DecodingError,
    >)
        requires
            old(self).pos <= old(self).input.len(),
        ensures
            old(self).advanced(final(self)),
            match r {
                Ok(v) => match parse_vec(
                    old(self).input@,
                    old(self).pos as int,
                    code_item(old(self).input@),
                ) {
                    Some((codes, e)) => e == final(self).pos && codes.len() == type_idxs.len()
                        && funcs_model(v@) == zip_funcs(type_idxs@, codes),
                    None => false,
                },
                Err(_) => match parse_vec(
                    old(self).input@,
                    old(self).pos as int,
                    code_item(old(self).input@),
                ) {
                    Some((codes, e)) => codes.len() != type_idxs.len(),
                    None => true,
                },
            },
    {
        let ghost s = self.input@;
        let n = match self.decode_u32() {
            Ok(n) => n,
            Err(e) => return Err(e),
        };
        let ghost q = self.pos as int;
        if n as usize != type_idxs.len() {
            proof {
                if parse_repeat(q, n as nat, code_item(s)) is Some {
                    lemma_repeat_len(q, n as nat, code_item(s));
                }
            }
            return Err(DecodingError::new());
        }
        let ghost mut codes: Seq<(Seq<ValType>, Seq<InstrModel>)> = Seq::empty();
        let mut funcs: Vec<Func> = Vec::new();
        let mut k: u32 = 0;
        while k < n
            invariant
                self.input == old(self).input,
                s == self.input@,
                old(self).pos <= self.pos <= self.input.len(),
                spec_read_u32(s, old(self).pos as int) == Some((n, q)),
                k <= n,
                n == type_idxs.len(),
                codes.len() == k,
                funcs.len() == k,
                parse_repeat(q, k as nat, code_item(s)) == Some((codes, self.pos as int)),
                funcs_model(funcs@) == zip_funcs(type_idxs@, codes),
            decreases n - k,
        {
            match self.decode_code() {
                Ok((locals, body)) => {
                    let f = Func { type_: type_idxs[k as usize], locals, body };
                    proof {
                        let c2 = codes.push((f.locals@, f.body@));
                        assert forall|i: int| 0 <= i < c2.len() implies #[trigger] funcs_model(
                            funcs@.push(f),
                        )[i] == zip_funcs(type_idxs@, c2)[i] by {
                            if i < codes.len() {
                                assert(funcs_model(funcs@)[i] == zip_funcs(type_idxs@, codes)[i]);
                            }
                        }
                        assert(funcs_model(funcs@.push(f)) =~= zip_funcs(type_idxs@, c2));
                        codes = c2;
                    }
                    funcs.push(f);
                },
                Err(e) => {
                    proof {
                        lemma_repeat_fails(q, (k + 1) as nat, n as nat, code_item(s));
                    }
                    return Err(e);
                },
            }
            k = k + 1;
        }
        Ok(funcs)
    }

    /// Instructions up to an `Else` or an `End`; gives them and the byte that ended them.
    fn decode_seq(&mut self) -> (r: Result<(Vec<Instr>, u8), DecodingError>)
        requires
            old(self).pos <= old(self).input.len(),
        ensures
            old(self).advanced(final(self)),
            match r {
                Ok((v, t)) => parse_seq(old(self).input@, old(self).pos as int) == Some(
                    (instrs_model(v@), t, final(self).pos as int),
                ) && old(self).pos < final(self).pos,
                Err(_) => parse_seq(old(self).input@, old(self).pos as int) is None,
            },
        decreases old(self).input.len() - old(self).pos, 1int,
    {
        let ghost s = self.input@;
        let ghost p0 = self.pos as int;
        let mut instrs: Vec<Instr> = Vec::new();
        loop
            invariant
                self.input == old(self).input,
                s == self.input@,
                p0 == old(self).pos,
                p0 <= self.pos <= self.input.len(),
                parse_seq(s, p0) == prefixed(instrs_model(instrs@), parse_seq(s, self.pos as int)),
            decreases self.input.len() - self.pos,
        {
            if self.pos >= self.input.len() {
                return Err(DecodingError::new());
            }
            let byte = self.input[self.pos];
            if byte == OP_ELSE || byte == OP_END {
                self.pos = self.pos + 1;
                assert(instrs_model(instrs@) + Seq::<InstrModel>::empty() =~= instrs_model(
                    instrs@,
                ));
                return Ok((instrs, byte));
            }
            let ghost p = self.pos as int;
            match self.decode_instruction() {
                Ok(i) => {
                    proof {
                        lemma_instrs_model_push(instrs@, i);
                        let a = instrs_model(instrs@);
                        match parse_seq(s, self.pos as int) {
                            Some((rest, t, r)) => {
                                assert(a + (seq![instr_model(i)] + rest) =~= a.push(
                                    instr_model(i),
                                ) + rest);
                            },
                            None => {},
                        }
                    }
                    instrs.push(i);
                },
                Err(e) => return Err(e),
            }
        }
    }

    fn decode_instruction(&mut self) -> (r: Result<Instr, DecodingError>)
        requires
            old(self).pos <= old(self).input.len(),
        ensures
            old(self).advanced(final(self)),
            match r {
                Ok(i) => parse_instr(old(self).input@, old(self).pos as int) == Some(
                    (instr_model(i), final(self).pos as int),
                ) && old(self).pos < final(self).pos,
                Err(_) => parse_instr(old(self).input@, old(self).pos as int) is None,
            },
        decreases old(self).input.len() - old(self).pos, 0int,
    {
        if self.pos >= self.input.len() {
            return Err(DecodingError::new());
        }
        let byte = self.input[self.pos];
        self.pos = self.pos + 1;
        if byte == OP_IF {
            if self.pos >= self.input.len() {
                return Err(DecodingError::new());
            }
            let block_type = match blocktype_from_byte(self.input[self.pos]) {
                Some(bt) => bt,
                None => return Err(DecodingError::new()),
            };
            self.pos = self.pos + 1;
            let (instructions1, t) = match self.decode_seq() {
                Ok(x) => x,
                Err(e) => return Err(e),
            };
            if t == OP_END {
                let instructions2: Vec<Instr> = Vec::new();
                assert(instrs_model(instructions2@) =~= Seq::<InstrModel>::empty());
                return Ok(Instr::If(block_type, instructions1, instructions2));
            }
            let (instructions2, t2) = match self.decode_seq() {
                Ok(x) => x,
                Err(e) => return Err(e),
            };
            if t2 != OP_END {
                return Err(DecodingError::new());
            }
            Ok(Instr::If(block_type, instructions1, instructions2))
        } else if byte == OP_CALL {
            match self.decode_u32() {
                Ok(x) => Ok(Instr::Call(x)),
                Err(e) => Err(e),
            }
        } else if byte == OP_LOCAL_GET {
            match self.decode_u32() {
                Ok(x) => Ok(Instr::LocalGet(x)),
                Err(e) => Err(e),
            }
        } else if byte == OP_I32_CONST {
            match self.decode_i64() {
                Ok(x) => Ok(Instr::I32Const(x as i32)),
                Err(e) => Err(e),
            }
        } else if byte == OP_I64_CONST {
            match self.decode_i64() {
                Ok(x) => Ok(Instr::I64Const(x)),
                Err(e) => Err(e),
            }
        } else {
            match plain_instr(byte) {
                Some(i) => Ok(i),
                None => Err(DecodingError::new()),
            }
        }
    }
}

} // verus!
