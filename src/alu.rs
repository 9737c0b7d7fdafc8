use vstd::prelude::*;
use crate::basic_op::BasicOp;

verus! {

/// The low 16 bits of an integer (its value modulo 2^16).
pub open spec fn low16(x: int) -> u16 {
    (x % 0x10000) as u16
}

/// A word read as a two's-complement signed number.
pub open spec fn sx(w: u16) -> int {
    if w < 0x8000 {
        w as int
    } else {
        w as int - 0x10000
    }
}

/// The magnitude of an integer.
pub open spec fn mag(x: int) -> int {
    if x < 0 {
        -x
    } else {
        x
    }
}

/// Signed division rounding toward zero.
pub open spec fn tdiv(x: int, y: int) -> int {
    if (x < 0) == (y < 0) {
        mag(x) / mag(y)
    } else {
        -(mag(x) / mag(y))
    }
}

/// The remainder of signed division rounding toward zero: its sign follows the dividend.
pub open spec fn trem(x: int, y: int) -> int {
    if x < 0 {
        -(mag(x) % mag(y))
    } else {
        mag(x) % mag(y)
    }
}

/// Arithmetic right shift of a signed word by `a` places.
pub open spec fn asr_value(b: u16, a: u16) -> u16 {
    if a < 31 {
        (((sx(b) as i32) >> (a as u32)) & 0xffff) as u16
    } else if sx(b) < 0 {
        0xffff
    } else {
        0
    }
}

/// The low 16 bits of `(b << 16) >> a`, shifted arithmetically with `b` signed.
pub open spec fn asr_excess(b: u16, a: u16) -> u16 {
    if a < 32 {
        ((((sx(b) * 0x10000) as i32) >> (a as u32)) & 0xffff) as u16
    } else if sx(b) < 0 {
        0xffff
    } else {
        0
    }
}

/// What a non-conditional basic operation computes from b, a and the old EX: the new value
/// of b, and the new EX where the operation sets it.
pub open spec fn spec_alu(op: BasicOp, b: u16, a: u16, ex: u16) -> (u16, Option<u16>) {
    match op {
        BasicOp::SET => (a, None),
        BasicOp::ADD => (low16(b + a), Some(if b + a > 0xffff { 1u16 } else { 0u16 })),
        BasicOp::SUB => (low16(b - a), Some(if b < a { 0xffffu16 } else { 0u16 })),
        BasicOp::MUL => (low16(b as int * a as int), Some(low16((b as int * a as int) / 0x10000))),
        BasicOp::MLI => (low16(sx(b) * sx(a)), Some(low16((sx(b) * sx(a)) / 0x10000))),
        BasicOp::DIV => if a == 0 {
            (0, Some(0))
        } else {
            ((b / a) as u16, Some(low16((b as int * 0x10000) / (a as int))))
        },
        BasicOp::DVI => if a == 0 {
            (0, Some(0))
        } else {
            (low16(tdiv(sx(b), sx(a))), Some(low16(tdiv(sx(b) * 0x10000, sx(a)))))
        },
        BasicOp::MOD => if a == 0 {
            (0, None)
        } else {
            ((b % a) as u16, None)
        },
        BasicOp::MDI => if a == 0 {
            (0, None)
        } else {
            (low16(trem(sx(b), sx(a))), None)
        },
        BasicOp::AND => (b & a, None),
        BasicOp::BOR => (b | a, None),
        BasicOp::XOR => (b ^ a, None),
        BasicOp::SHR => (
            if a < 16 {
                b >> a
            } else {
                0
            },
            Some(
                if a < 32 {
                    ((((b as u32) << 16u32) >> (a as u32)) & 0xffff) as u16
                } else {
                    0
                },
            ),
        ),
        BasicOp::ASR => (asr_value(b, a), Some(asr_excess(b, a))),
        BasicOp::SHL => (
            if a < 16 {
                b << a
            } else {
                0
            },
            Some(
                if a < 32 {
                    ((((b as u32) << (a as u32)) >> 16u32) & 0xffff) as u16
                } else {
                    0
                },
            ),
        ),
        BasicOp::ADX => (low16(b + a + ex), Some(if b + a + ex > 0xffff { 1u16 } else { 0u16 })),
        BasicOp::SBX => (
            low16(b - a + ex),
            Some(
                if b - a + ex < 0 || b - a + ex > 0xffff {
                    0xffffu16
                } else {
                    0u16
                },
            ),
        ),
        BasicOp::STI | BasicOp::STD => (a, None),
        _ => (b, None),
    }
}

/// The predicate a conditional basic operation tests on (b, a).
pub open spec fn spec_condition(op: BasicOp, b: u16, a: u16) -> bool {
    match op {
        BasicOp::IFB => b & a != 0,
        BasicOp::IFC => b & a == 0,
        BasicOp::IFE => b == a,
        BasicOp::IFN => b != a,
        BasicOp::IFG => b > a,
        BasicOp::IFA => sx(b) > sx(a),
        BasicOp::IFL => b < a,
        BasicOp::IFU => sx(b) < sx(a),
        _ => true,
    }
}

fn signed(w: u16) -> (r: i64)
    ensures
        r == sx(w),
        -0x8000 <= r <= 0x7fff,
{
    if w < 0x8000 {
        w as i64
    } else {
        w as i64 - 0x10000
    }
}

/// The low 16 bits of `-m`.
fn negated_low16(m: u64) -> (r: u16)
    ensures
        r == low16(-m),
{
    let lo = m % 0x10000;
    if lo == 0 {
        0
    } else {
        (0x10000 - lo) as u16
    }
}

fn multiply_signed(b: u16, a: u16) -> (r: (u16, u16))
    ensures
        r == (low16(sx(b) * sx(a)), low16((sx(b) * sx(a)) / 0x10000)),
{
    let x = signed(b);
    let y = signed(a);
    assert(-0x4000_0000 <= x * y <= 0x4000_0000) by (nonlinear_arith)
        requires
            -0x8000 <= x <= 0x7fff,
            -0x8000 <= y <= 0x7fff,
    ;
    let p: i64 = x * y;
    let q: u64 = (p + 0x8000_0000) as u64;
    assert(q as int % 0x10000 == p % 0x10000);
    assert(q as int / 0x10000 == p / 0x10000 + 0x8000);
    ((q % 0x10000) as u16, ((q / 0x10000 + 0x8000) % 0x10000) as u16)
}

/// The magnitude and sign of a signed word.
fn magnitude(w: u16) -> (r: (u64, bool))
    ensures
        r.0 == mag(sx(w)),
        r.1 == (sx(w) < 0),
        r.0 <= 0x8000,
        r.0 == 0 <==> w == 0,
{
    if w < 0x8000 {
        (w as u64, false)
    } else {
        (0x10000 - w as u64, true)
    }
}

fn divide_signed(b: u16, a: u16) -> (r: (u16, u16))
    requires
        a != 0,
    ensures
        r == (low16(tdiv(sx(b), sx(a))), low16(tdiv(sx(b) * 0x10000, sx(a)))),
{
    let (mb, nb) = magnitude(b);
    let (ma, na) = magnitude(a);
    let q = mb / ma;
    let qx = (mb * 0x10000) / ma;
    assert(mag(sx(b) * 0x10000) == mb * 0x10000);
    assert((sx(b) * 0x10000 < 0) == nb);
    if nb == na {
        ((q % 0x10000) as u16, (qx % 0x10000) as u16)
    } else {
        (negated_low16(q), negated_low16(qx))
    }
}

fn remainder_signed(b: u16, a: u16) -> (r: u16)
    requires
        a != 0,
    ensures
        r == low16(trem(sx(b), sx(a))),
{
    let (mb, nb) = magnitude(b);
    let (ma, _) = magnitude(a);
    let m = mb % ma;
    if nb {
        negated_low16(m)
    } else {
        m as u16
    }
}

fn shift_right_arithmetic(b: u16, a: u16) -> (r: (u16, u16))
    ensures
        r == (asr_value(b, a), asr_excess(b, a)),
{
    let x = signed(b);
    let x32: i32 = x as i32;
    let v: u16 = if a < 31 {
        ((x32 >> (a as u32)) & 0xffff) as u16
    } else if x32 < 0 {
        0xffff
    } else {
        0
    };
    let wide: i32 = x32 * 0x10000;
    let e: u16 = if a < 32 {
        ((wide >> (a as u32)) & 0xffff) as u16
    } else if x32 < 0 {
        0xffff
    } else {
        0
    };
    (v, e)
}

/// Computes a non-conditional basic operation: the new value of b, and the new EX where the
/// operation sets it.
pub fn alu(op: BasicOp, b: u16, a: u16, ex: u16) -> (r: (u16, Option<u16>))
    ensures
        r == spec_alu(op, b, a, ex),
{
    match op {
        BasicOp::SET => (a, None),
        BasicOp::ADD => {
            let sum = b as u32 + a as u32;
            ((sum % 0x10000) as u16, Some(if sum > 0xffff { 1 } else { 0 }))
        },
        BasicOp::SUB => (b.wrapping_sub(a), Some(if b < a { 0xffff } else { 0 })),
        BasicOp::MUL => {
            assert(b as int * a as int <= 0xffff * 0xffff) by (nonlinear_arith)
                requires
                    b <= 0xffff,
                    a <= 0xffff,
            ;
            let p = b as u64 * a as u64;
            ((p % 0x10000) as u16, Some(((p / 0x10000) % 0x10000) as u16))
        },
        BasicOp::MLI => {
            let (lo, hi) = multiply_signed(b, a);
            (lo, Some(hi))
        },
        BasicOp::DIV => if a == 0 {
            (0, Some(0))
        } else {
            let x = (b as u32 * 0x10000) / a as u32;
            (b / a, Some((x % 0x10000) as u16))
        },
        BasicOp::DVI => if a == 0 {
            (0, Some(0))
        } else {
            let (q, x) = divide_signed(b, a);
            (q, Some(x))
        },
        BasicOp::MOD => if a == 0 {
            (0, None)
        } else {
            (b % a, None)
        },
        BasicOp::MDI => if a == 0 {
            (0, None)
        } else {
            (remainder_signed(b, a), None)
        },
        BasicOp::AND => (b & a, None),
        BasicOp::BOR => (b | a, None),
        BasicOp::XOR => (b ^ a, None),
        BasicOp::SHR => {
            let v = if a < 16 {
                b >> a
            } else {
                0
            };
            let e: u16 = if a < 32 {
                let w: u32 = ((b as u32) << 16u32) >> (a as u32);
                assert(w & 0xffff <= 0xffff) by (bit_vector);
                (w & 0xffff) as u16
            } else {
                0
            };
            (v, Some(e))
        },
        BasicOp::ASR => {
            let (v, e) = shift_right_arithmetic(b, a);
            (v, Some(e))
        },
        BasicOp::SHL => {
            let v = if a < 16 {
                b << a
            } else {
                0
            };
            let e: u16 = if a < 32 {
                let w: u32 = ((b as u32) << (a as u32)) >> 16u32;
                assert(w & 0xffff <= 0xffff) by (bit_vector);
                (w & 0xffff) as u16
            } else {
                0
            };
            (v, Some(e))
        },
        BasicOp::ADX => {
            let sum = b as u32 + a as u32 + ex as u32;
            ((sum % 0x10000) as u16, Some(if sum > 0xffff { 1 } else { 0 }))
        },
        BasicOp::SBX => {
            let d: i64 = b as i64 - a as i64 + ex as i64;
            let v = ((d + 0x10000) % 0x10000) as u16;
            (v, Some(if d < 0 || d > 0xffff { 0xffff } else { 0 }))
        },
        BasicOp::STI | BasicOp::STD => (a, None),
        _ => (b, None),
    }
}

/// Tests the predicate of a conditional basic operation on (b, a).
pub fn condition(op: BasicOp, b: u16, a: u16) -> (r: bool)
    ensures
        r == spec_condition(op, b, a),
{
    match op {
        BasicOp::IFB => b & a != 0,
        BasicOp::IFC => b & a == 0,
        BasicOp::IFE => b == a,
        BasicOp::IFN => b != a,
        BasicOp::IFG => b > a,
        BasicOp::IFA => signed(b) > signed(a),
        BasicOp::IFL => b < a,
        BasicOp::IFU => signed(b) < signed(a),
        _ => true,
    }
}

} // verus!
