//! LEB128 variable-length integers, as the binary format uses them for every length, count,
//! index and integer constant.
use vstd::prelude::*;

verus! {

/// `128^k`: the weight of the `k`-th seven-bit group.
pub open spec fn group_scale(k: nat) -> int
    decreases k,
{
    if k == 0 {
        1
    } else {
        128 * group_scale((k - 1) as nat)
    }
}

/// Reads an unsigned LEB128 number at `pos`, taking at most `n` more bytes. Each byte adds its
/// low seven bits times `scale` to `acc`; the first byte whose high bit is clear ends the
/// number. Gives the value and the position just after its last byte.
pub open spec fn leb_unsigned(s: Seq<u8>, pos: int, n: nat, acc: int, scale: int) -> Option<
    (int, int),
>
    decreases n,
{
    if n == 0 || pos < 0 || pos >= s.len() {
        None
    } else if s[pos] < 0x80 {
        Some((acc + s[pos] * scale, pos + 1))
    } else {
        leb_unsigned(s, pos + 1, (n - 1) as nat, acc + (s[pos] - 0x80) * scale, scale * 128)
    }
}

/// The seven low bits of a final byte, read as a two's-complement number (bit 6 is the sign).
pub open spec fn signed_group(b: u8) -> int {
    if b >= 0x40 {
        b - 0x80
    } else {
        b as int
    }
}

/// As `leb_unsigned`, but the final byte's group is sign-extended.
pub open spec fn leb_signed(s: Seq<u8>, pos: int, n: nat, acc: int, scale: int) -> Option<
    (int, int),
>
    decreases n,
{
    if n == 0 || pos < 0 || pos >= s.len() {
        None
    } else if s[pos] < 0x80 {
        Some((acc + signed_group(s[pos]) * scale, pos + 1))
    } else {
        leb_signed(s, pos + 1, (n - 1) as nat, acc + (s[pos] - 0x80) * scale, scale * 128)
    }
}

/// A `u32` in unsigned LEB128 at `pos`: at most five bytes, and the value must fit 32 bits.
pub open spec fn spec_read_u32(s: Seq<u8>, pos: int) -> Option<(u32, int)> {
    match leb_unsigned(s, pos, 5, 0, 1) {
        Some((v, e)) => if v <= u32::MAX {
            Some((v as u32, e))
        } else {
            None
        },
        None => None,
    }
}

/// An `i64` in signed LEB128 at `pos`: at most ten bytes, and the value must fit 64 bits.
pub open spec fn spec_read_i64(s: Seq<u8>, pos: int) -> Option<(i64, int)> {
    match leb_signed(s, pos, 10, 0, 1) {
        Some((v, e)) => if i64::MIN <= v <= i64::MAX {
            Some((v as i64, e))
        } else {
            None
        },
        None => None,
    }
}

/// The shortest unsigned LEB128 encoding of `x`.
pub open spec fn encode_unsigned(x: nat) -> Seq<u8>
    decreases x,
{
    if x < 128 {
        seq![x as u8]
    } else {
        seq![(x % 128 + 128) as u8] + encode_unsigned(x / 128)
    }
}

/// The shortest signed LEB128 encoding of `x`.
pub open spec fn encode_signed(x: int) -> Seq<u8>
    decreases (if x < 0 { -x } else { x }),
{
    let low = x % 128;
    let rest = x / 128;
    if (rest == 0 && low < 64) || (rest == -1 && low >= 64) {
        seq![low as u8]
    } else {
        seq![(low + 128) as u8] + encode_signed(rest)
    }
}

pub open spec fn encode_u32(x: u32) -> Seq<u8> {
    encode_unsigned(x as nat)
}

pub open spec fn encode_i64(x: i64) -> Seq<u8> {
    encode_signed(x as int)
}

proof fn lemma_scale_monotone(j: nat, k: nat)
    requires
        j <= k,
    ensures
        1 <= group_scale(j) <= group_scale(k),
    decreases k,
{
    if j < k {
        lemma_scale_monotone(j, (k - 1) as nat);
    } else if k > 0 {
        lemma_scale_monotone(0, (k - 1) as nat);
    }
}

proof fn lemma_unsigned_encoding_reads(s: Seq<u8>, pos: int, x: nat, n: nat, acc: int, scale: int)
    requires
        n >= 1,
        x < group_scale(n),
        0 <= pos,
        pos + encode_unsigned(x).len() <= s.len(),
        s.subrange(pos, pos + encode_unsigned(x).len()) == encode_unsigned(x),
    ensures
        leb_unsigned(s, pos, n, acc, scale) == Some(
            (acc + x * scale, pos + encode_unsigned(x).len()),
        ),
    decreases x,
{
    let e = encode_unsigned(x);
    assert(s[pos] == s.subrange(pos, pos + e.len())[0]);
    if x >= 128 {
        let m = (n - 1) as nat;
        let tail = encode_unsigned(x / 128);
        assert(group_scale(n) == 128 * group_scale(m));
        if m == 0 {
            assert(false);
        }
        assert(x / 128 < group_scale(m)) by (nonlinear_arith)
            requires
                x < 128 * group_scale(m),
        ;
        assert(s.subrange(pos + 1, pos + 1 + tail.len()) =~= tail) by {
            assert forall|i: int| 0 <= i < tail.len() implies s.subrange(
                pos + 1,
                pos + 1 + tail.len(),
            )[i] == tail[i] by {
                assert(s.subrange(pos, pos + e.len())[i + 1] == e[i + 1]);
            }
        }
        lemma_unsigned_encoding_reads(s, pos + 1, x / 128, m, acc + (x % 128) * scale, scale * 128);
        assert(acc + (x % 128) * scale + (x / 128) * (scale * 128) == acc + x * scale)
            by (nonlinear_arith);
    }
}

proof fn lemma_signed_encoding_reads(s: Seq<u8>, pos: int, x: int, n: nat, acc: int, scale: int)
    requires
        n >= 1,
        -64 * group_scale((n - 1) as nat) <= x < 64 * group_scale((n - 1) as nat),
        0 <= pos,
        pos + encode_signed(x).len() <= s.len(),
        s.subrange(pos, pos + encode_signed(x).len()) == encode_signed(x),
    ensures
        leb_signed(s, pos, n, acc, scale) == Some((acc + x * scale, pos + encode_signed(x).len())),
    decreases (if x < 0 { -x } else { x }),
{
    let e = encode_signed(x);
    let low = x % 128;
    let rest = x / 128;
    assert(s[pos] == s.subrange(pos, pos + e.len())[0]);
    if !((rest == 0 && low < 64) || (rest == -1 && low >= 64)) {
        let m = (n - 1) as nat;
        let tail = encode_signed(rest);
        if m == 0 {
            assert(false);
        }
        let k = (m - 1) as nat;
        assert(group_scale(m) == 128 * group_scale(k));
        assert(-64 * group_scale(k) <= rest < 64 * group_scale(k)) by (nonlinear_arith)
            requires
                -64 * (128 * group_scale(k)) <= x < 64 * (128 * group_scale(k)),
                rest == x / 128,
        ;
        assert(s.subrange(pos + 1, pos + 1 + tail.len()) =~= tail) by {
            assert forall|i: int| 0 <= i < tail.len() implies s.subrange(
                pos + 1,
                pos + 1 + tail.len(),
            )[i] == tail[i] by {
                assert(s.subrange(pos, pos + e.len())[i + 1] == e[i + 1]);
            }
        }
        lemma_signed_encoding_reads(s, pos + 1, rest, m, acc + low * scale, scale * 128);
        assert(acc + low * scale + rest * (scale * 128) == acc + x * scale) by (nonlinear_arith)
            requires
                x == 128 * rest + low,
        ;
    }
}

/// Reading back the encoding of any `u32` gives that number, and stops right after the
/// encoding, whatever bytes follow it.
pub proof fn lemma_u32_round_trip(x: u32, rest: Seq<u8>)
    ensures
        spec_read_u32(encode_u32(x) + rest, 0) == Some((x, encode_u32(x).len() as int)),
{
    let e = encode_u32(x);
    let s = e + rest;
    reveal_with_fuel(group_scale, 6);
    assert(s.subrange(0, e.len() as int) =~= e);
    lemma_unsigned_encoding_reads(s, 0, x as nat, 5, 0, 1);
}

/// Reading back the encoding of any `i64` gives that number, and stops right after the
/// encoding, whatever bytes follow it.
pub proof fn lemma_i64_round_trip(x: i64, rest: Seq<u8>)
    ensures
        spec_read_i64(encode_i64(x) + rest, 0) == Some((x, encode_i64(x).len() as int)),
{
    let e = encode_i64(x);
    let s = e + rest;
    reveal_with_fuel(group_scale, 11);
    assert(s.subrange(0, e.len() as int) =~= e);
    lemma_signed_encoding_reads(s, 0, x as int, 10, 0, 1);
}

/// The encoding of a `u32`, wherever it stands in `s`, reads back as that number.
pub proof fn lemma_read_u32_at(s: Seq<u8>, p: int, x: u32)
    requires
        0 <= p,
        p + encode_u32(x).len() <= s.len(),
        s.subrange(p, p + encode_u32(x).len()) == encode_u32(x),
    ensures
        spec_read_u32(s, p) == Some((x, p + encode_u32(x).len())),
{
    reveal_with_fuel(group_scale, 6);
    lemma_unsigned_encoding_reads(s, p, x as nat, 5, 0, 1);
}

/// The encoding of an `i64`, wherever it stands in `s`, reads back as that number.
pub proof fn lemma_read_i64_at(s: Seq<u8>, p: int, x: i64)
    requires
        0 <= p,
        p + encode_i64(x).len() <= s.len(),
        s.subrange(p, p + encode_i64(x).len()) == encode_i64(x),
    ensures
        spec_read_i64(s, p) == Some((x, p + encode_i64(x).len())),
{
    reveal_with_fuel(group_scale, 11);
    lemma_signed_encoding_reads(s, p, x as int, 10, 0, 1);
}

/// Reads a `u32` in unsigned LEB128 at `pos`; gives it with the position after it.
pub fn read_u32(s: &[u8], pos: usize) -> (r: Option<(u32, usize)>)
    ensures
        match r {
            Some((v, e)) => spec_read_u32(s@, pos as int) == Some((v, e as int)) && pos < e
                <= s.len(),
            None => spec_read_u32(s@, pos as int) is None,
        },
{
    let mut acc: u64 = 0;
    let mut scale: u64 = 1;
    let mut p: usize = pos;
    let mut k: usize = 0;
    proof {
        reveal_with_fuel(group_scale, 6);
    }
    loop
        invariant
            k <= 5,
            p == pos + k,
            scale == group_scale(k as nat),
            0 <= acc < scale,
            leb_unsigned(s@, pos as int, 5, 0, 1) == leb_unsigned(
                s@,
                p as int,
                (5 - k) as nat,
                acc as int,
                scale as int,
            ),
        decreases 5 - k,
    {
        proof {
            reveal_with_fuel(group_scale, 6);
            lemma_scale_monotone(k as nat, 5);
            assert(group_scale(5) == 0x8_0000_0000);
        }
        if k == 5 || p >= s.len() {
            return None;
        }
        let b = s[p];
        if b < 0x80 {
            assert((b as u64) * scale <= 127 * scale) by (nonlinear_arith)
                requires
                    b < 0x80,
            ;
            let v = acc + (b as u64) * scale;
            if v > u32::MAX as u64 {
                return None;
            }
            return Some((v as u32, p + 1));
        }
        assert(((b - 0x80) as u64) * scale <= 127 * scale) by (nonlinear_arith)
            requires
                b >= 0x80,
        ;
        acc = acc + ((b - 0x80) as u64) * scale;
        scale = scale * 128;
        p = p + 1;
        k = k + 1;
    }
}

/// Reads an `i64` in signed LEB128 at `pos`; gives it with the position after it.
pub fn read_i64(s: &[u8], pos: usize) -> (r: Option<(i64, usize)>)
    ensures
        match r {
            Some((v, e)) => spec_read_i64(s@, pos as int) == Some((v, e as int)) && pos < e
                <= s.len(),
            None => spec_read_i64(s@, pos as int) is None,
        },
{
    let mut acc: i128 = 0;
    let mut scale: i128 = 1;
    let mut p: usize = pos;
    let mut k: usize = 0;
    proof {
        reveal_with_fuel(group_scale, 11);
    }
    loop
        invariant
            k <= 10,
            p == pos + k,
            scale == group_scale(k as nat),
            0 <= acc < scale,
            leb_signed(s@, pos as int, 10, 0, 1) == leb_signed(
                s@,
                p as int,
                (10 - k) as nat,
                acc as int,
                scale as int,
            ),
        decreases 10 - k,
    {
        proof {
            reveal_with_fuel(group_scale, 11);
            lemma_scale_monotone(k as nat, 10);
            assert(group_scale(10) == 0x40_0000_0000_0000_0000);
        }
        if k == 10 || p >= s.len() {
            return None;
        }
        let b = s[p];
        if b < 0x80 {
            let g: i128 = if b >= 0x40 {
                b as i128 - 0x80
            } else {
                b as i128
            };
            assert(-64 * scale <= g * scale <= 63 * scale) by (nonlinear_arith)
                requires
                    -64 <= g <= 63,
                    scale >= 1,
            ;
            let v = acc + g * scale;
            if v < i64::MIN as i128 || v > i64::MAX as i128 {
                return None;
            }
            return Some((v as i64, p + 1));
        }
        assert(((b - 0x80) as i128) * scale <= 127 * scale) by (nonlinear_arith)
            requires
                b >= 0x80,
                scale >= 1,
        ;
        acc = acc + ((b - 0x80) as i128) * scale;
        scale = scale * 128;
        p = p + 1;
        k = k + 1;
    }
}

} // verus!
