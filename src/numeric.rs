//! The integer instructions: what each computes from its operands, and when it traps.
use vstd::prelude::*;
use vstd::arithmetic::div_mod::{lemma_div_is_ordered_by_denominator, lemma_mod_pos_bound};
use vstd::arithmetic::power2::{lemma2_to64, lemma2_to64_rest, lemma_pow2_unfold, pow2};
use crate::instr::Instr;
use crate::runtime::{Trap, Val};

verus! {

/// `1` where `c` holds, else `0`.
pub open spec fn flag(c: bool) -> i32 {
    if c {
        1
    } else {
        0
    }
}

/// How many of the top bits of a `width`-bit number are zero.
pub open spec fn leading_zeros(x: nat, width: nat) -> nat
    decreases width,
{
    if width == 0 || x >= pow2((width - 1) as nat) {
        0
    } else {
        1 + leading_zeros(x, (width - 1) as nat)
    }
}

/// How many of the low bits of a `width`-bit number are zero.
pub open spec fn trailing_zeros(x: nat, width: nat) -> nat
    decreases width,
{
    if width == 0 || x % 2 == 1 {
        0
    } else {
        1 + trailing_zeros(x / 2, (width - 1) as nat)
    }
}

/// How many bits of `x` are set.
pub open spec fn ones(x: nat) -> nat
    decreases x,
{
    if x == 0 {
        0
    } else {
        x % 2 + ones(x / 2)
    }
}

pub open spec fn magnitude(a: int) -> int {
    if a < 0 {
        -a
    } else {
        a
    }
}

/// Division that rounds toward zero.
pub open spec fn trunc_div(a: int, b: int) -> int {
    let q = magnitude(a) / magnitude(b);
    if (a < 0) == (b < 0) {
        q
    } else {
        -q
    }
}

/// The remainder of `trunc_div`: it has the sign of the dividend.
pub open spec fn trunc_rem(a: int, b: int) -> int {
    let r = magnitude(a) % magnitude(b);
    if a < 0 {
        -r
    } else {
        r
    }
}

pub open spec fn shl32(x: u32, k: u32) -> u32 {
    x << k
}

pub open spec fn shl64(x: u64, k: u64) -> u64 {
    x << k
}

pub open spec fn rotl32(x: u32, k: u32) -> u32 {
    (x << k) | (x >> ((32 - k) % 32) as u32)
}

pub open spec fn rotl64(x: u64, k: u64) -> u64 {
    (x << k) | (x >> ((64 - k) % 64) as u64)
}

/// What an `i32` instruction with one operand gives; `None` for any other instruction.
pub open spec fn i32_unary(i: Instr, a: i32) -> Option<i32> {
    match i {
        Instr::I32Clz => Some(leading_zeros(a as u32 as nat, 32) as i32),
        Instr::I32Ctz => Some(trailing_zeros(a as u32 as nat, 32) as i32),
        Instr::I32Popcnt => Some(ones(a as u32 as nat) as i32),
        Instr::I32Eqz => Some(flag(a == 0)),
        Instr::I32Extend8S => Some(a as i8 as i32),
        Instr::I32Extend16S => Some(a as i16 as i32),
        _ => None,
    }
}

/// What an `i32` instruction with two operands gives (`a` below, `b` on top); `None` for any
/// other instruction.
pub open spec fn i32_binary(i: Instr, a: i32, b: i32) -> Option<Result<i32, Trap>> {
    let ua = a as u32;
    let ub = b as u32;
    match i {
        Instr::I32Add => Some(Ok((a + b) as i32)),
        Instr::I32Sub => Some(Ok((a - b) as i32)),
        Instr::I32Mul => Some(Ok((a * b) as i32)),
        Instr::I32DivS => Some(
            if b == 0 {
                Err(Trap::DivideByZero)
            } else if a == i32::MIN && b == -1 {
                Err(Trap::IntegerOverflow)
            } else {
                Ok(trunc_div(a as int, b as int) as i32)
            },
        ),
        Instr::I32DivU => Some(
            if b == 0 {
                Err(Trap::DivideByZero)
            } else {
                Ok((ua / ub) as i32)
            },
        ),
        Instr::I32RemS => Some(
            if b == 0 {
                Err(Trap::DivideByZero)
            } else {
                Ok(trunc_rem(a as int, b as int) as i32)
            },
        ),
        Instr::I32RemU => Some(
            if b == 0 {
                Err(Trap::DivideByZero)
            } else {
                Ok((ua % ub) as i32)
            },
        ),
        Instr::I32And => Some(Ok(a & b)),
        Instr::I32Or => Some(Ok(a | b)),
        Instr::I32Xor => Some(Ok(a ^ b)),
        Instr::I32Shl => Some(Ok(shl32(ua, ub % 32) as i32)),
        Instr::I32ShrS => Some(Ok(a >> (ub % 32))),
        Instr::I32ShrU => Some(Ok((ua >> (ub % 32)) as i32)),
        Instr::I32Rotl => Some(Ok(rotl32(ua, ub % 32) as i32)),
        Instr::I32Rotr => Some(Ok(rotl32(ua, ((32 - ub % 32) % 32) as u32) as i32)),
        Instr::I32Eq => Some(Ok(flag(a == b))),
        Instr::I32Ne => Some(Ok(flag(a != b))),
        Instr::I32LtS => Some(Ok(flag(a < b))),
        Instr::I32LtU => Some(Ok(flag(ua < ub))),
        Instr::I32GtS => Some(Ok(flag(a > b))),
        Instr::I32GtU => Some(Ok(flag(ua > ub))),
        Instr::I32LeS => Some(Ok(flag(a <= b))),
        Instr::I32LeU => Some(Ok(flag(ua <= ub))),
        Instr::I32GeS => Some(Ok(flag(a >= b))),
        Instr::I32GeU => Some(Ok(flag(ua >= ub))),
        _ => None,
    }
}

/// What an `i64` instruction with one operand gives; `None` for any other instruction.
pub open spec fn i64_unary(i: Instr, a: i64) -> Option<Val> {
    match i {
        Instr::I64Clz => Some(Val::I64(leading_zeros(a as u64 as nat, 64) as i64)),
        Instr::I64Ctz => Some(Val::I64(trailing_zeros(a as u64 as nat, 64) as i64)),
        Instr::I64Popcnt => Some(Val::I64(ones(a as u64 as nat) as i64)),
        Instr::I64Eqz => Some(Val::I32(flag(a == 0))),
        _ => None,
    }
}

/// What an `i64` instruction with two operands gives (`a` below, `b` on top): an `i64` for
/// arithmetic, an `i32` flag for a comparison; `None` for any other instruction.
pub open spec fn i64_binary(i: Instr, a: i64, b: i64) -> Option<Result<Val, Trap>> {
    let ua = a as u64;
    let ub = b as u64;
    match i {
        Instr::I64Add => Some(Ok(Val::I64((a + b) as i64))),
        Instr::I64Sub => Some(Ok(Val::I64((a - b) as i64))),
        Instr::I64Mul => Some(Ok(Val::I64((a * b) as i64))),
        Instr::I64DivS => Some(
            if b == 0 {
                Err(Trap::DivideByZero)
            } else if a == i64::MIN && b == -1 {
                Err(Trap::IntegerOverflow)
            } else {
                Ok(Val::I64(trunc_div(a as int, b as int) as i64))
            },
        ),
        Instr::I64DivU => Some(
            if b == 0 {
                Err(Trap::DivideByZero)
            } else {
                Ok(Val::I64((ua / ub) as i64))
            },
        ),
        Instr::I64RemS => Some(
            if b == 0 {
                Err(Trap::DivideByZero)
            } else {
                Ok(Val::I64(trunc_rem(a as int, b as int) as i64))
            },
        ),
        Instr::I64RemU => Some(
            if b == 0 {
                Err(Trap::DivideByZero)
            } else {
                Ok(Val::I64((ua % ub) as i64))
            },
        ),
        Instr::I64And => Some(Ok(Val::I64(a & b))),
        Instr::I64Or => Some(Ok(Val::I64(a | b))),
        Instr::I64Xor => Some(Ok(Val::I64(a ^ b))),
        Instr::I64Shl => Some(Ok(Val::I64(shl64(ua, ub % 64) as i64))),
        Instr::I64ShrS => Some(Ok(Val::I64(a >> (ub % 64)))),
        Instr::I64ShrU => Some(Ok(Val::I64((ua >> (ub % 64)) as i64))),
        Instr::I64Rotl => Some(Ok(Val::I64(rotl64(ua, ub % 64) as i64))),
        Instr::I64Rotr => Some(Ok(Val::I64(rotl64(ua, ((64 - ub % 64) % 64) as u64) as i64))),
        Instr::I64Eq => Some(Ok(Val::I32(flag(a == b)))),
        Instr::I64Ne => Some(Ok(Val::I32(flag(a != b)))),
        Instr::I64LtS => Some(Ok(Val::I32(flag(a < b)))),
        Instr::I64LtU => Some(Ok(Val::I32(flag(ua < ub)))),
        Instr::I64GtS => Some(Ok(Val::I32(flag(a > b)))),
        Instr::I64GtU => Some(Ok(Val::I32(flag(ua > ub)))),
        Instr::I64LeS => Some(Ok(Val::I32(flag(a <= b)))),
        Instr::I64LeU => Some(Ok(Val::I32(flag(ua <= ub)))),
        Instr::I64GeS => Some(Ok(Val::I32(flag(a >= b)))),
        Instr::I64GeU => Some(Ok(Val::I32(flag(ua >= ub)))),
        _ => None,
    }
}

fn flag_of(c: bool) -> (r: i32)
    ensures
        r == flag(c),
{
    if c {
        1
    } else {
        0
    }
}

/// Counts the leading zero bits of a `width`-bit number.
fn count_leading_zeros(x: u64, width: u32) -> (r: u32)
    requires
        width == 32 || width == 64,
        x < pow2(width as nat),
    ensures
        r == leading_zeros(x as nat, width as nat),
        r <= width,
{
    proof {
        lemma2_to64();
        lemma2_to64_rest();
    }
    let mut w: u32 = width;
    let mut n: u32 = 0;
    let mut top: u64 = if width == 32 {
        0x8000_0000
    } else {
        0x8000_0000_0000_0000
    };
    while w > 0 && x < top
        invariant
            n + w == width,
            w <= width,
            w > 0 ==> top == pow2((w - 1) as nat),
            leading_zeros(x as nat, width as nat) == n + leading_zeros(x as nat, w as nat),
        decreases w,
    {
        proof {
            if w > 1 {
                lemma_pow2_unfold((w - 1) as nat);
            }
        }
        n = n + 1;
        w = w - 1;
        top = top / 2;
    }
    n
}

/// Counts the trailing zero bits of a `width`-bit number.
fn count_trailing_zeros(x: u64, width: u32) -> (r: u32)
    requires
        width == 32 || width == 64,
    ensures
        r == trailing_zeros(x as nat, width as nat),
        r <= width,
{
    let mut v: u64 = x;
    let mut w: u32 = width;
    let mut n: u32 = 0;
    while w > 0 && v % 2 == 0
        invariant
            n + w == width,
            trailing_zeros(x as nat, width as nat) == n + trailing_zeros(v as nat, w as nat),
        decreases w,
    {
        n = n + 1;
        w = w - 1;
        v = v / 2;
    }
    n
}

/// Counts the set bits of a `width`-bit number.
fn count_ones(x: u64, width: u32) -> (r: u32)
    requires
        width == 32 || width == 64,
        x < pow2(width as nat),
    ensures
        r == ones(x as nat),
        r <= width,
{
    let mut v: u64 = x;
    let mut w: u32 = width;
    let mut c: u32 = 0;
    while w > 0
        invariant
            c + w <= width,
            v < pow2(w as nat),
            ones(x as nat) == c + ones(v as nat),
        decreases w,
    {
        proof {
            lemma_pow2_unfold(w as nat);
        }
        c = c + (v % 2) as u32;
        v = v / 2;
        w = w - 1;
    }
    proof {
        lemma2_to64();
    }
    c
}

/// Evaluates an `i32` instruction with one operand.
pub fn eval_i32_unary(i: &Instr, a: i32) -> (r: i32)
    requires
        i32_unary(*i, a) is Some,
    ensures
        i32_unary(*i, a) == Some(r),
{
    proof {
        lemma2_to64();
    }
    match i {
        Instr::I32Clz => count_leading_zeros(a as u32 as u64, 32) as i32,
        Instr::I32Ctz => count_trailing_zeros(a as u32 as u64, 32) as i32,
        Instr::I32Popcnt => count_ones(a as u32 as u64, 32) as i32,
        Instr::I32Eqz => flag_of(a == 0),
        Instr::I32Extend8S => a as i8 as i32,
        _ => a as i16 as i32,
    }
}

fn shift_left32(x: u32, k: u32) -> (r: u32)
    requires
        k < 32,
    ensures
        r == shl32(x, k),
{
    x << k
}

fn shift_left64(x: u64, k: u64) -> (r: u64)
    requires
        k < 64,
    ensures
        r == shl64(x, k),
{
    x << k
}

proof fn lemma_trunc_bounds(a: int, b: int)
    requires
        b != 0,
    ensures
        magnitude(trunc_div(a, b)) <= magnitude(a),
        magnitude(b) >= 2 ==> 2 * magnitude(trunc_div(a, b)) <= magnitude(a),
        b == 1 ==> trunc_div(a, b) == a,
        b == -1 ==> trunc_div(a, b) == -a,
        magnitude(trunc_rem(a, b)) < magnitude(b),
{
    let ma = magnitude(a);
    let mb = magnitude(b);
    lemma_div_is_ordered_by_denominator(ma, 1, mb);
    if mb >= 2 {
        lemma_div_is_ordered_by_denominator(ma, 2, mb);
    }
    lemma_mod_pos_bound(ma, mb);
}

/// Truncating division and its remainder, on integers of at most 64 bits and a sign.
fn trunc_div_rem(a: i128, b: i128) -> (r: (i128, i128))
    requires
        b != 0,
        -0x1_0000_0000_0000_0000 <= a <= 0x1_0000_0000_0000_0000,
        -0x1_0000_0000_0000_0000 <= b <= 0x1_0000_0000_0000_0000,
    ensures
        r.0 == trunc_div(a as int, b as int),
        r.1 == trunc_rem(a as int, b as int),
{
    let ma: u128 = if a < 0 {
        (-a) as u128
    } else {
        a as u128
    };
    let mb: u128 = if b < 0 {
        (-b) as u128
    } else {
        b as u128
    };
    proof {
        lemma_trunc_bounds(a as int, b as int);
        lemma_div_is_ordered_by_denominator(ma as int, 1, mb as int);
        lemma_mod_pos_bound(ma as int, mb as int);
    }
    let q = ma / mb;
    let m = ma % mb;
    let quotient: i128 = if (a < 0) == (b < 0) {
        q as i128
    } else {
        -(q as i128)
    };
    let remainder: i128 = if a < 0 {
        -(m as i128)
    } else {
        m as i128
    };
    (quotient, remainder)
}

fn rotate_left32(x: u32, k: u32) -> (r: u32)
    requires
        k < 32,
    ensures
        r == rotl32(x, k),
{
    (x << k) | (x >> ((32 - k) % 32))
}

fn rotate_left64(x: u64, k: u64) -> (r: u64)
    requires
        k < 64,
    ensures
        r == rotl64(x, k),
{
    (x << k) | (x >> ((64 - k) % 64))
}

/// Evaluates an `i32` instruction with two operands.
pub fn eval_i32_binary(i: &Instr, a: i32, b: i32) -> (r: Result<i32, Trap>)
    requires
        i32_binary(*i, a, b) is Some,
    ensures
        i32_binary(*i, a, b) == Some(r),
{
    let ua = a as u32;
    let ub = b as u32;
    assert((b as u32 == 0) == (b == 0)) by (bit_vector);
    match i {
        Instr::I32Add => {
            let x: i64 = a as i64 + b as i64;
            assert(x as i32 == (a + b) as i32);
            Ok(x as i32)
        },
        Instr::I32Sub => Ok((a as i64 - b as i64) as i32),
        Instr::I32Mul => {
            assert(-0x4000_0000_0000_0000 <= (a as int) * (b as int) <= 0x4000_0000_0000_0000)
                by (nonlinear_arith)
                requires
                    -0x8000_0000 <= a <= 0x7fff_ffff,
                    -0x8000_0000 <= b <= 0x7fff_ffff,
            ;
            Ok((a as i64 * b as i64) as i32)
        },
        Instr::I32DivS => {
            if b == 0 {
                Err(Trap::DivideByZero)
            } else if a == i32::MIN && b == -1 {
                Err(Trap::IntegerOverflow)
            } else {
                let (q, _) = trunc_div_rem(a as i128, b as i128);
                proof {
                    lemma_trunc_bounds(a as int, b as int);
                }
                Ok(q as i32)
            }
        },
        Instr::I32DivU => {
            if b == 0 {
                Err(Trap::DivideByZero)
            } else {
                Ok((ua / ub) as i32)
            }
        },
        Instr::I32RemS => {
            if b == 0 {
                Err(Trap::DivideByZero)
            } else {
                let (_, m) = trunc_div_rem(a as i128, b as i128);
                proof {
                    lemma_trunc_bounds(a as int, b as int);
                }
                Ok(m as i32)
            }
        },
        Instr::I32RemU => {
            if b == 0 {
                Err(Trap::DivideByZero)
            } else {
                Ok((ua % ub) as i32)
            }
        },
        Instr::I32And => Ok(a & b),
        Instr::I32Or => Ok(a | b),
        Instr::I32Xor => Ok(a ^ b),
        Instr::I32Shl => Ok(shift_left32(ua, ub % 32) as i32),
        Instr::I32ShrS => Ok(a >> (ub % 32)),
        Instr::I32ShrU => Ok((ua >> (ub % 32)) as i32),
        Instr::I32Rotl => Ok(rotate_left32(ua, ub % 32) as i32),
        Instr::I32Rotr => Ok(rotate_left32(ua, (32 - ub % 32) % 32) as i32),
        Instr::I32Eq => Ok(flag_of(a == b)),
        Instr::I32Ne => Ok(flag_of(a != b)),
        Instr::I32LtS => Ok(flag_of(a < b)),
        Instr::I32LtU => Ok(flag_of(ua < ub)),
        Instr::I32GtS => Ok(flag_of(a > b)),
        Instr::I32GtU => Ok(flag_of(ua > ub)),
        Instr::I32LeS => Ok(flag_of(a <= b)),
        Instr::I32LeU => Ok(flag_of(ua <= ub)),
        Instr::I32GeS => Ok(flag_of(a >= b)),
        _ => Ok(flag_of(ua >= ub)),
    }
}

/// Evaluates an `i64` instruction with one operand.
pub fn eval_i64_unary(i: &Instr, a: i64) -> (r: Val)
    requires
        i64_unary(*i, a) is Some,
    ensures
        i64_unary(*i, a) == Some(r),
{
    proof {
        lemma2_to64();
    }
    match i {
        Instr::I64Clz => Val::I64(count_leading_zeros(a as u64, 64) as i64),
        Instr::I64Ctz => Val::I64(count_trailing_zeros(a as u64, 64) as i64),
        Instr::I64Popcnt => Val::I64(count_ones(a as u64, 64) as i64),
        _ => Val::I32(flag_of(a == 0)),
    }
}

/// Evaluates an `i64` instruction with two operands.
pub fn eval_i64_binary(i: &Instr, a: i64, b: i64) -> (r: Result<Val, Trap>)
    requires
        i64_binary(*i, a, b) is Some,
    ensures
        i64_binary(*i, a, b) == Some(r),
{
    let ua = a as u64;
    let ub = b as u64;
    assert((b as u64 == 0) == (b == 0)) by (bit_vector);
    match i {
        Instr::I64Add => Ok(Val::I64((a as i128 + b as i128) as i64)),
        Instr::I64Sub => Ok(Val::I64((a as i128 - b as i128) as i64)),
        Instr::I64Mul => {
            assert(-0x4000_0000_0000_0000_0000_0000_0000_0000 <= (a as int) * (b as int)
                <= 0x4000_0000_0000_0000_0000_0000_0000_0000) by (nonlinear_arith)
                requires
                    -0x8000_0000_0000_0000 <= a <= 0x7fff_ffff_ffff_ffff,
                    -0x8000_0000_0000_0000 <= b <= 0x7fff_ffff_ffff_ffff,
            ;
            Ok(Val::I64((a as i128 * b as i128) as i64))
        },
        Instr::I64DivS => {
            if b == 0 {
                Err(Trap::DivideByZero)
            } else if a == i64::MIN && b == -1 {
                Err(Trap::IntegerOverflow)
            } else {
                let (q, _) = trunc_div_rem(a as i128, b as i128);
                proof {
                    lemma_trunc_bounds(a as int, b as int);
                }
                Ok(Val::I64(q as i64))
            }
        },
        Instr::I64DivU => {
            if b == 0 {
                Err(Trap::DivideByZero)
            } else {
                Ok(Val::I64((ua / ub) as i64))
            }
        },
        Instr::I64RemS => {
            if b == 0 {
                Err(Trap::DivideByZero)
            } else {
                let (_, m) = trunc_div_rem(a as i128, b as i128);
                proof {
                    lemma_trunc_bounds(a as int, b as int);
                }
                Ok(Val::I64(m as i64))
            }
        },
        Instr::I64RemU => {
            if b == 0 {
                Err(Trap::DivideByZero)
            } else {
                Ok(Val::I64((ua % ub) as i64))
            }
        },
        Instr::I64And => Ok(Val::I64(a & b)),
        Instr::I64Or => Ok(Val::I64(a | b)),
        Instr::I64Xor => Ok(Val::I64(a ^ b)),
        Instr::I64Shl => Ok(Val::I64(shift_left64(ua, ub % 64) as i64)),
        Instr::I64ShrS => Ok(Val::I64(a >> (ub % 64))),
        Instr::I64ShrU => Ok(Val::I64((ua >> (ub % 64)) as i64)),
        Instr::I64Rotl => Ok(Val::I64(rotate_left64(ua, ub % 64) as i64)),
        Instr::I64Rotr => Ok(Val::I64(rotate_left64(ua, (64 - ub % 64) % 64) as i64)),
        Instr::I64Eq => Ok(Val::I32(flag_of(a == b))),
        Instr::I64Ne => Ok(Val::I32(flag_of(a != b))),
        Instr::I64LtS => Ok(Val::I32(flag_of(a < b))),
        Instr::I64LtU => Ok(Val::I32(flag_of(ua < ub))),
        Instr::I64GtS => Ok(Val::I32(flag_of(a > b))),
        Instr::I64GtU => Ok(Val::I32(flag_of(ua > ub))),
        Instr::I64LeS => Ok(Val::I32(flag_of(a <= b))),
        Instr::I64LeU => Ok(Val::I32(flag_of(ua <= ub))),
        Instr::I64GeS => Ok(Val::I32(flag_of(a >= b))),
        _ => Ok(Val::I32(flag_of(ua >= ub))),
    }
}

/// A signed and an unsigned comparison of the same kind differ exactly when the operands
/// differ in their sign bit.
pub proof fn lemma_i32_signed_unsigned_compare(a: i32, b: i32)
    ensures
        (i32_binary(Instr::I32LtS, a, b) != i32_binary(Instr::I32LtU, a, b)) == ((a < 0) != (b
            < 0)),
        (i32_binary(Instr::I32GtS, a, b) != i32_binary(Instr::I32GtU, a, b)) == ((a < 0) != (b
            < 0)),
        (i32_binary(Instr::I32LeS, a, b) != i32_binary(Instr::I32LeU, a, b)) == ((a < 0) != (b
            < 0)),
        (i32_binary(Instr::I32GeS, a, b) != i32_binary(Instr::I32GeU, a, b)) == ((a < 0) != (b
            < 0)),
{
    assert(((a < b) != ((a as u32) < (b as u32))) == ((a < 0) != (b < 0))) by (bit_vector);
    assert(((a > b) != ((a as u32) > (b as u32))) == ((a < 0) != (b < 0))) by (bit_vector);
    assert(((a <= b) != ((a as u32) <= (b as u32))) == ((a < 0) != (b < 0))) by (bit_vector);
    assert(((a >= b) != ((a as u32) >= (b as u32))) == ((a < 0) != (b < 0))) by (bit_vector);
}

/// The same law at 64 bits.
pub proof fn lemma_i64_signed_unsigned_compare(a: i64, b: i64)
    ensures
        (i64_binary(Instr::I64LtS, a, b) != i64_binary(Instr::I64LtU, a, b)) == ((a < 0) != (b
            < 0)),
        (i64_binary(Instr::I64GtS, a, b) != i64_binary(Instr::I64GtU, a, b)) == ((a < 0) != (b
            < 0)),
        (i64_binary(Instr::I64LeS, a, b) != i64_binary(Instr::I64LeU, a, b)) == ((a < 0) != (b
            < 0)),
        (i64_binary(Instr::I64GeS, a, b) != i64_binary(Instr::I64GeU, a, b)) == ((a < 0) != (b
            < 0)),
{
    assert(((a < b) != ((a as u64) < (b as u64))) == ((a < 0) != (b < 0))) by (bit_vector);
    assert(((a > b) != ((a as u64) > (b as u64))) == ((a < 0) != (b < 0))) by (bit_vector);
    assert(((a <= b) != ((a as u64) <= (b as u64))) == ((a < 0) != (b < 0))) by (bit_vector);
    assert(((a >= b) != ((a as u64) >= (b as u64))) == ((a < 0) != (b < 0))) by (bit_vector);
}

} // verus!
