use vstd::prelude::*;
use vstd::arithmetic::power2::{pow2, lemma2_to64, lemma2_to64_rest, lemma_pow2_pos};
use vstd::arithmetic::div_mod::{
    lemma_basic_div, lemma_div_is_ordered, lemma_div_is_ordered_by_denominator, lemma_fundamental_div_mod,
    lemma_mod_add_multiples_vanish, lemma_mod_bound, lemma_mod_multiples_vanish,
};
use vstd::bits::{lemma_u64_pow2_no_overflow, lemma_u64_shl_is_mul, lemma_u64_shr_is_div};
use crate::error::IrError;

verus! {

/// The largest bit width that a `Bitvector` can have.
pub const MAX_WIDTH: u64 = 64;

/// A value of an exact bit width, read as unsigned or as two's complement.
#[derive(Debug, Clone, Copy, PartialEq, Eq, Structural)]
pub struct Bitvector {
    /// The number of bits.
    pub width: u64,
    /// The bits, read as an unsigned number below `2^width`.
    pub value: u64,
}

/// `i` reduced modulo `2^w`: what is left of it in `w` bits.
pub open spec fn wrap(i: int, w: nat) -> nat {
    (i % (pow2(w) as int)) as nat
}

/// The two's complement reading of the `w`-bit pattern `v`.
pub open spec fn to_signed(v: nat, w: nat) -> int {
    if w > 0 && v >= pow2((w - 1) as nat) {
        v - pow2(w)
    } else {
        v as int
    }
}

/// The absolute value of `a`.
pub open spec fn abs_of(a: int) -> nat {
    if a < 0 {
        (-a) as nat
    } else {
        a as nat
    }
}

/// Division that rounds toward zero.
pub open spec fn trunc_div(a: int, b: int) -> int {
    let q = (abs_of(a) / abs_of(b)) as int;
    if (a < 0) != (b < 0) {
        -q
    } else {
        q
    }
}

/// The remainder of `trunc_div`: it has the sign of the dividend.
pub open spec fn trunc_rem(a: int, b: int) -> int {
    let r = (abs_of(a) % abs_of(b)) as int;
    if a < 0 {
        -r
    } else {
        r
    }
}

/// `2^e` as a 128-bit number.
fn pow2_u128(e: u64) -> (r: u128)
    requires
        e <= 64,
    ensures
        r == pow2(e as nat),
        1 <= r <= 0x1_0000_0000_0000_0000u128,
{
    proof {
        lemma2_to64();
        lemma2_to64_rest();
        lemma_pow2_pos(e as nat);
    }
    if e < 64 {
        proof {
            lemma_u64_pow2_no_overflow(e as nat);
            lemma_u64_shl_is_mul(1, e);
            vstd::arithmetic::power2::lemma_pow2_strictly_increases(e as nat, 64);
        }
        (1u64 << e) as u128
    } else {
        0x1_0000_0000_0000_0000u128
    }
}

/// For `w < 64`: `v` fits in `w` bits exactly when shifting it right by `w`
/// leaves nothing.
proof fn lemma_fits(v: u64, w: u64)
    requires
        w < 64,
    ensures
        (v < pow2(w as nat)) <==> (v >> w == 0),
{
    lemma_u64_shr_is_div(v, w);
    lemma_pow2_pos(w as nat);
    if v < pow2(w as nat) {
        lemma_basic_div(v as int, pow2(w as nat) as int);
    } else {
        lemma_div_is_ordered(pow2(w as nat) as int, v as int, pow2(w as nat) as int);
        vstd::arithmetic::div_mod::lemma_div_by_self(pow2(w as nat) as int);
    }
}

impl Bitvector {
    /// The bit width is in `1..=MAX_WIDTH` and the value fits in it.
    pub open spec fn wf(self) -> bool {
        1 <= self.width <= MAX_WIDTH && self.value < pow2(self.width as nat)
    }

    /// The two's complement reading of this value.
    pub open spec fn signed(self) -> int {
        to_signed(self.value as nat, self.width as nat)
    }

    /// A `width`-bit value holding the low `width` bits of `value`; fails with
    /// `ConstructionError` unless `1 <= width <= MAX_WIDTH`.
    pub fn new(width: u64, value: u64) -> (r: Result<Bitvector, IrError>)
        ensures
            (1 <= width <= MAX_WIDTH) ==> r == Ok::<Bitvector, IrError>(
                Bitvector { width, value: wrap(value as int, width as nat) as u64 },
            ),
            !(1 <= width <= MAX_WIDTH) ==> r == Err::<Bitvector, IrError>(IrError::ConstructionError),
            r is Ok ==> r->Ok_0.wf(),
    {
        if width < 1 || width > MAX_WIDTH {
            return Err(IrError::ConstructionError);
        }
        let m = pow2_u128(width);
        let v = (value as u128) % m;
        proof {
            lemma_mod_bound(value as int, m as int);
        }
        Ok(Bitvector { width, value: v as u64 })
    }

    /// Whether the width is in `1..=MAX_WIDTH` and the value fits in it.
    pub fn is_valid(&self) -> (r: bool)
        ensures
            r == self.wf(),
    {
        if self.width < 1 || self.width > MAX_WIDTH {
            return false;
        }
        let m = pow2_u128(self.width);
        (self.value as u128) < m
    }

    /// Whether every bit of this value is zero.
    pub fn is_zero(&self) -> (r: bool)
        ensures
            r == (self.value == 0),
    {
        self.value == 0
    }
}


/// Operations on two values.
#[derive(Debug, Clone, Copy, PartialEq, Eq, Structural)]
pub enum BinOpType {
    IntAdd,
    IntSub,
    IntMult,
    /// Unsigned division.
    IntDiv,
    /// Signed division, rounding toward zero.
    IntSDiv,
    /// Unsigned remainder.
    IntRem,
    /// Signed remainder, with the sign of the dividend.
    IntSRem,
    IntAnd,
    IntOr,
    IntXor,
    /// Shift left; the right operand is the shift amount, of any width.
    IntLeft,
    /// Logical shift right; the right operand is the shift amount, of any width.
    IntRight,
    /// Arithmetic shift right, filling with the sign bit; the right operand
    /// is the shift amount, of any width.
    IntSRight,
    /// Rotate left; the right operand is the rotation amount, of any width.
    IntRotLeft,
    /// Rotate right; the right operand is the rotation amount, of any width.
    IntRotRight,
    IntEqual,
    IntNotEqual,
    /// Unsigned less-than.
    IntLess,
    /// Unsigned less-or-equal.
    IntLessEqual,
    /// Signed less-than.
    IntSLess,
    /// Signed less-or-equal.
    IntSLessEqual,
}

impl BinOpType {
    /// The right operand is a shift amount, whose width need not match.
    pub open spec fn spec_is_shift(self) -> bool {
        self is IntLeft || self is IntRight || self is IntSRight || self is IntRotLeft || self is IntRotRight
    }

    /// The operation fails on a zero right operand.
    pub open spec fn spec_is_division(self) -> bool {
        self is IntDiv || self is IntSDiv || self is IntRem || self is IntSRem
    }

    /// The operation yields a one-bit truth value.
    pub open spec fn spec_is_comparison(self) -> bool {
        self is IntEqual || self is IntNotEqual || self is IntLess || self is IntLessEqual
            || self is IntSLess || self is IntSLessEqual
    }

    /// Whether the right operand is a shift amount.
    pub fn is_shift(&self) -> (r: bool)
        ensures
            r == self.spec_is_shift(),
    {
        matches!(
            self,
            BinOpType::IntLeft | BinOpType::IntRight | BinOpType::IntSRight | BinOpType::IntRotLeft
                | BinOpType::IntRotRight
        )
    }

    /// Whether the operation yields a one-bit truth value.
    pub fn is_comparison(&self) -> (r: bool)
        ensures
            r == self.spec_is_comparison(),
    {
        matches!(
            self,
            BinOpType::IntEqual | BinOpType::IntNotEqual | BinOpType::IntLess | BinOpType::IntLessEqual
                | BinOpType::IntSLess | BinOpType::IntSLessEqual
        )
    }
}

/// Operations on one value.
#[derive(Debug, Clone, Copy, PartialEq, Eq, Structural)]
pub enum UnOpType {
    /// Bitwise complement.
    IntNegate,
    /// Two's complement negation.
    Int2Comp,
}

/// The value of a shift or rotation of the `w`-bit value `x` by `s`. A
/// rotation goes by `s` modulo `w`. An arithmetic shift divides the signed
/// reading by `2^s`, rounding down; by `w - 1` or more bits it leaves only
/// copies of the sign bit.
pub open spec fn shift_value(op: BinOpType, x: nat, s: nat, w: nat) -> nat {
    if op is IntRotLeft {
        rotate_left_value(x, s % w, w)
    } else if op is IntRotRight {
        rotate_left_value(x, ((w - s % w) % (w as int)) as nat, w)
    } else if op is IntSRight {
        wrap(to_signed(x, w) / (pow2(if s >= w { (w - 1) as nat } else { s }) as int), w)
    } else if op is IntLeft {
        shl_value(x, s, w)
    } else {
        lshr_value(x, s, w)
    }
}

/// The `w`-bit value `x` shifted left by `s`, within `w` bits.
pub open spec fn shl_value(x: nat, s: nat, w: nat) -> nat {
    if s >= w {
        0
    } else {
        wrap((x * pow2(s)) as int, w)
    }
}

/// The `w`-bit value `x` shifted right by `s`, filling with zeros.
pub open spec fn lshr_value(x: nat, s: nat, w: nat) -> nat {
    if s >= w {
        0
    } else {
        x / pow2(s)
    }
}

/// The `w`-bit value `x` rotated left by `r < w` bits: the bits shifted out
/// at the top come back in at the bottom.
pub open spec fn rotate_left_value(x: nat, r: nat, w: nat) -> nat {
    (shl_value(x, r, w) as u64 | lshr_value(x, (w - r) as nat, w) as u64) as nat
}

/// The truth value of a comparison.
pub open spec fn compare(op: BinOpType, x: Bitvector, y: Bitvector) -> bool {
    match op {
        BinOpType::IntEqual => x.value == y.value,
        BinOpType::IntNotEqual => x.value != y.value,
        BinOpType::IntLess => x.value < y.value,
        BinOpType::IntLessEqual => x.value <= y.value,
        BinOpType::IntSLess => x.signed() < y.signed(),
        _ => x.signed() <= y.signed(),
    }
}

/// The value of an arithmetic or bitwise operation on two values of width `x.width`.
pub open spec fn arith_value(op: BinOpType, x: Bitvector, y: Bitvector) -> nat {
    let w = x.width as nat;
    match op {
        BinOpType::IntAdd => wrap(x.value + y.value, w),
        BinOpType::IntSub => wrap(x.value - y.value, w),
        BinOpType::IntMult => wrap(x.value * y.value, w),
        BinOpType::IntDiv => (x.value / y.value) as nat,
        BinOpType::IntSDiv => wrap(trunc_div(x.signed(), y.signed()), w),
        BinOpType::IntRem => (x.value % y.value) as nat,
        BinOpType::IntSRem => wrap(trunc_rem(x.signed(), y.signed()), w),
        BinOpType::IntAnd => (x.value & y.value) as nat,
        BinOpType::IntOr => (x.value | y.value) as nat,
        _ => (x.value ^ y.value) as nat,
    }
}

/// The one-bit value of a truth value.
pub open spec fn bool_bits(b: bool) -> Bitvector {
    Bitvector { width: 1, value: if b { 1 } else { 0 } }
}

/// The result of `x op y`: shifts keep the width of `x`; every other operation
/// needs equal widths, else `WidthMismatch`; a division or remainder by zero
/// is `DivisionByZero`; comparisons give one bit; the rest keep the width.
pub open spec fn bin_op_spec(op: BinOpType, x: Bitvector, y: Bitvector) -> Result<Bitvector, IrError> {
    if op.spec_is_shift() {
        Ok(Bitvector { width: x.width, value: shift_value(op, x.value as nat, y.value as nat, x.width as nat) as u64 })
    } else if x.width != y.width {
        Err(IrError::WidthMismatch)
    } else if op.spec_is_division() && y.value == 0 {
        Err(IrError::DivisionByZero)
    } else if op.spec_is_comparison() {
        Ok(bool_bits(compare(op, x, y)))
    } else {
        Ok(Bitvector { width: x.width, value: arith_value(op, x, y) as u64 })
    }
}

/// The result of `op x`, of the width of `x`.
pub open spec fn un_op_spec(op: UnOpType, x: Bitvector) -> Bitvector {
    match op {
        UnOpType::IntNegate => Bitvector { width: x.width, value: (pow2(x.width as nat) - 1 - x.value) as u64 },
        UnOpType::Int2Comp => Bitvector { width: x.width, value: wrap(-x.value, x.width as nat) as u64 },
    }
}

/// `v` reduced to `w` bits.
fn wrap_u128(v: u128, w: u64) -> (r: u64)
    requires
        1 <= w <= 64,
    ensures
        r == wrap(v as int, w as nat),
        r < pow2(w as nat),
{
    let m = pow2_u128(w);
    proof {
        lemma_mod_bound(v as int, m as int);
    }
    (v % m) as u64
}

/// `v` reduced to `w` bits, for a `v` of either sign.
fn wrap_i128(v: i128, w: u64) -> (r: u64)
    requires
        1 <= w <= 64,
        -0x1_0000_0000_0000_0000i128 <= v <= 0x1_0000_0000_0000_0000i128,
    ensures
        r == wrap(v as int, w as nat),
        r < pow2(w as nat),
{
    if v >= 0 {
        wrap_u128(v as u128, w)
    } else {
        let m = pow2_u128(w);
        let a = (-v) as u128;
        let am = a % m;
        proof {
            let mi = m as int;
            lemma_mod_bound(a as int, mi);
            lemma_fundamental_div_mod(a as int, mi);
            let q = (a as int) / mi;
            assert(v as int == mi * (-q) + (-(am as int))) by (nonlinear_arith)
                requires a as int == mi * q + am as int, v as int == -(a as int);
            lemma_mod_multiples_vanish(-q, -(am as int), mi);
            lemma_mod_add_multiples_vanish(-(am as int), mi);
        }
        wrap_u128(m - am, w)
    }
}

/// `x` shifted left by `s` within `w` bits.
fn shift_left(x: u64, s: u64, w: u64) -> (r: u64)
    requires
        1 <= w <= 64,
    ensures
        r == shl_value(x as nat, s as nat, w as nat),
        r < pow2(w as nat),
{
    proof {
        lemma_pow2_pos(w as nat);
    }
    if s >= w {
        return 0;
    }
    let p = pow2_u128(s);
    assert((x as u128) * p <= 0xffff_ffff_ffff_ffffu128 * 0x1_0000_0000_0000_0000u128) by (nonlinear_arith)
        requires
            x <= 0xffff_ffff_ffff_ffffu64,
            p <= 0x1_0000_0000_0000_0000u128,
    ;
    wrap_u128((x as u128) * p, w)
}

/// The `w`-bit value `x` shifted right by `s`, filling with zeros.
fn shift_right(x: u64, s: u64, w: u64) -> (r: u64)
    requires
        1 <= w <= 64,
        x < pow2(w as nat),
    ensures
        r == lshr_value(x as nat, s as nat, w as nat),
        r < pow2(w as nat),
{
    proof {
        lemma_pow2_pos(w as nat);
    }
    if s >= w {
        return 0;
    }
    let p = pow2_u128(s);
    proof {
        lemma_div_is_ordered_by_denominator(x as int, 1, p as int);
    }
    ((x as u128) / p) as u64
}

/// The `w`-bit value `x` rotated left by `r < w` bits.
fn rotate_left(x: u64, r: u64, w: u64) -> (v: u64)
    requires
        1 <= w <= 64,
        r < w,
        x < pow2(w as nat),
    ensures
        v == rotate_left_value(x as nat, r as nat, w as nat),
        v < pow2(w as nat),
{
    let hi = shift_left(x, r, w);
    let lo = shift_right(x, w - r, w);
    if w < 64 {
        proof {
            lemma_fits(hi, w);
            lemma_fits(lo, w);
            lemma_fits(hi | lo, w);
        }
        assert((hi >> w == 0 && lo >> w == 0) ==> ((hi | lo) >> w == 0)) by (bit_vector);
    } else {
        proof {
            lemma2_to64_rest();
        }
    }
    hi | lo
}

/// The two's complement reading of a well-formed value.
fn signed_i128(x: Bitvector) -> (r: i128)
    requires
        x.wf(),
    ensures
        r == x.signed(),
        -0x8000_0000_0000_0000i128 <= r < 0x8000_0000_0000_0000i128,
{
    let half = pow2_u128(x.width - 1);
    let m = pow2_u128(x.width);
    proof {
        vstd::arithmetic::power2::lemma_pow2_unfold(x.width as nat);
    }
    if (x.value as u128) >= half {
        x.value as i128 - m as i128
    } else {
        x.value as i128
    }
}

/// The absolute value of a number of at most 64 bits.
fn abs_u128(v: i128) -> (r: u128)
    requires
        -0x1_0000_0000_0000_0000i128 <= v <= 0x1_0000_0000_0000_0000i128,
    ensures
        r == abs_of(v as int),
{
    if v < 0 {
        (-v) as u128
    } else {
        v as u128
    }
}

impl Bitvector {
    /// `self op rhs`, as `bin_op_spec` states.
    pub fn bin_op(&self, op: BinOpType, rhs: &Bitvector) -> (r: Result<Bitvector, IrError>)
        requires
            self.wf(),
            rhs.wf(),
        ensures
            r == bin_op_spec(op, *self, *rhs),
            r is Ok ==> r->Ok_0.wf(),
    {
        let w = self.width;
        let x = self.value;
        let y = rhs.value;
        proof {
            lemma2_to64();
            lemma2_to64_rest();
            lemma_pow2_pos(w as nat);
        }
        if let BinOpType::IntSRight = op {
            let e: u64 = if y >= w { w - 1 } else { y };
            let p = pow2_u128(e);
            let sx = signed_i128(*self);
            let v: u64 = if sx >= 0 {
                proof {
                    lemma_div_is_ordered_by_denominator(sx as int, 1, p as int);
                }
                wrap_i128(((sx as u128) / p) as i128, w)
            } else {
                let a = (-sx) as u128;
                let q = (a + p - 1) / p;
                proof {
                    let pi = p as int;
                    lemma_fundamental_div_mod(a + pi - 1, pi);
                    lemma_mod_bound(a + pi - 1, pi);
                    let r = (a + pi - 1) % pi;
                    assert(sx as int == (-(q as int)) * pi + (pi - 1 - r)) by (nonlinear_arith)
                        requires a + pi - 1 == pi * (q as int) + r, sx as int == -(a as int);
                    vstd::arithmetic::div_mod::lemma_fundamental_div_mod_converse(sx as int, pi, -(q as int), pi - 1 - r);
                    lemma_div_is_ordered_by_denominator(a + pi - 1, 1, pi);
                }
                wrap_i128(-(q as i128), w)
            };
            return Ok(Bitvector { width: w, value: v });
        }
        if let BinOpType::IntRotLeft = op {
            let v = rotate_left(x, y % w, w);
            return Ok(Bitvector { width: w, value: v });
        }
        if let BinOpType::IntRotRight = op {
            let v = rotate_left(x, (w - y % w) % w, w);
            return Ok(Bitvector { width: w, value: v });
        }
        if op.is_shift() {
            let v: u64 = if let BinOpType::IntLeft = op {
                shift_left(x, y, w)
            } else {
                shift_right(x, y, w)
            };
            return Ok(Bitvector { width: w, value: v });
        }
        if w != rhs.width {
            return Err(IrError::WidthMismatch);
        }
        if op.is_comparison() {
            let b: bool = match op {
                BinOpType::IntEqual => x == y,
                BinOpType::IntNotEqual => x != y,
                BinOpType::IntLess => x < y,
                BinOpType::IntLessEqual => x <= y,
                BinOpType::IntSLess => signed_i128(*self) < signed_i128(*rhs),
                _ => signed_i128(*self) <= signed_i128(*rhs),
            };
            return Ok(Bitvector { width: 1, value: if b { 1 } else { 0 } });
        }
        let v: u64 = match op {
            BinOpType::IntAdd => wrap_u128(x as u128 + y as u128, w),
            BinOpType::IntSub => {
                let m = pow2_u128(w);
                proof {
                    lemma_mod_add_multiples_vanish(x - y, m as int);
                }
                wrap_u128(x as u128 + m - y as u128, w)
            },
            BinOpType::IntMult => {
                assert((x as u128) * (y as u128) <= 0xffff_ffff_ffff_ffffu128 * 0xffff_ffff_ffff_ffffu128)
                    by (nonlinear_arith)
                    requires x <= 0xffff_ffff_ffff_ffffu64, y <= 0xffff_ffff_ffff_ffffu64;
                wrap_u128((x as u128) * (y as u128), w)
            },
            BinOpType::IntDiv => {
                if y == 0 {
                    return Err(IrError::DivisionByZero);
                }
                proof {
                    lemma_div_is_ordered_by_denominator(x as int, 1, y as int);
                }
                x / y
            },
            BinOpType::IntRem => {
                if y == 0 {
                    return Err(IrError::DivisionByZero);
                }
                proof {
                    lemma_mod_bound(x as int, y as int);
                }
                x % y
            },
            BinOpType::IntSDiv => {
                if y == 0 {
                    return Err(IrError::DivisionByZero);
                }
                let sx = signed_i128(*self);
                let sy = signed_i128(*rhs);
                let ax = abs_u128(sx);
                let ay = abs_u128(sy);
                proof {
                    lemma_div_is_ordered_by_denominator(ax as int, 1, ay as int);
                }
                let q = (ax / ay) as i128;
                let s = if (sx < 0) != (sy < 0) { -q } else { q };
                wrap_i128(s, w)
            },
            BinOpType::IntSRem => {
                if y == 0 {
                    return Err(IrError::DivisionByZero);
                }
                let sx = signed_i128(*self);
                let sy = signed_i128(*rhs);
                let ax = abs_u128(sx);
                let ay = abs_u128(sy);
                proof {
                    lemma_mod_bound(ax as int, ay as int);
                }
                let q = (ax % ay) as i128;
                let s = if sx < 0 { -q } else { q };
                wrap_i128(s, w)
            },
            BinOpType::IntAnd => {
                assert(x & y <= x) by (bit_vector);
                x & y
            },
            BinOpType::IntOr => {
                if w < 64 {
                    proof {
                        lemma_fits(x, w);
                        lemma_fits(y, w);
                        lemma_fits(x | y, w);
                    }
                    assert((x >> w == 0 && y >> w == 0) ==> ((x | y) >> w == 0)) by (bit_vector);
                }
                x | y
            },
            _ => {
                if w < 64 {
                    proof {
                        lemma_fits(x, w);
                        lemma_fits(y, w);
                        lemma_fits(x ^ y, w);
                    }
                    assert((x >> w == 0 && y >> w == 0) ==> ((x ^ y) >> w == 0)) by (bit_vector);
                }
                x ^ y
            },
        };
        Ok(Bitvector { width: w, value: v })
    }

    /// `op self`, as `un_op_spec` states.
    pub fn un_op(&self, op: UnOpType) -> (r: Bitvector)
        requires
            self.wf(),
        ensures
            r == un_op_spec(op, *self),
            r.wf(),
    {
        let m = pow2_u128(self.width);
        match op {
            UnOpType::IntNegate => Bitvector { width: self.width, value: (m - 1 - self.value as u128) as u64 },
            UnOpType::Int2Comp => Bitvector { width: self.width, value: wrap_i128(-(self.value as i128), self.width) },
        }
    }
}


/// Width-changing operations.
#[derive(Debug, Clone, Copy, PartialEq, Eq, Structural)]
pub enum CastOpType {
    /// Widen, filling the new high bits with zeros.
    IntZExt,
    /// Widen, filling the new high bits with the sign bit.
    IntSExt,
    /// Narrow, keeping the low bits.
    Trunc,
}

/// The result of casting `x` to `width` bits: a width outside
/// `1..=MAX_WIDTH` is a `ConstructionError`; an extension to fewer bits or a
/// truncation to more bits is a `WidthMismatch`.
pub open spec fn cast_spec(op: CastOpType, x: Bitvector, width: u64) -> Result<Bitvector, IrError> {
    if !(1 <= width <= MAX_WIDTH) {
        Err(IrError::ConstructionError)
    } else {
        match op {
            CastOpType::IntZExt => if width < x.width {
                Err(IrError::WidthMismatch)
            } else {
                Ok(Bitvector { width, value: x.value })
            },
            CastOpType::IntSExt => if width < x.width {
                Err(IrError::WidthMismatch)
            } else {
                Ok(Bitvector { width, value: wrap(x.signed(), width as nat) as u64 })
            },
            CastOpType::Trunc => if width > x.width {
                Err(IrError::WidthMismatch)
            } else {
                Ok(Bitvector { width, value: wrap(x.value as int, width as nat) as u64 })
            },
        }
    }
}

/// The `width` bits of `x` that start at bit `low_bit`: a width outside
/// `1..=MAX_WIDTH` is a `ConstructionError`, a piece that reaches past the
/// top bit of `x` a `WidthMismatch`.
pub open spec fn subpiece_spec(x: Bitvector, low_bit: u64, width: u64) -> Result<Bitvector, IrError> {
    if !(1 <= width <= MAX_WIDTH) {
        Err(IrError::ConstructionError)
    } else if low_bit + width > x.width {
        Err(IrError::WidthMismatch)
    } else {
        Ok(Bitvector { width, value: wrap((x.value as nat / pow2(low_bit as nat)) as int, width as nat) as u64 })
    }
}

impl Bitvector {
    /// `self` cast to `width` bits, as `cast_spec` states.
    pub fn cast(&self, op: CastOpType, width: u64) -> (r: Result<Bitvector, IrError>)
        requires
            self.wf(),
        ensures
            r == cast_spec(op, *self, width),
            r is Ok ==> r->Ok_0.wf(),
    {
        if width < 1 || width > MAX_WIDTH {
            return Err(IrError::ConstructionError);
        }
        match op {
            CastOpType::IntZExt => {
                if width < self.width {
                    return Err(IrError::WidthMismatch);
                }
                proof {
                    if width > self.width {
                        vstd::arithmetic::power2::lemma_pow2_strictly_increases(self.width as nat, width as nat);
                    }
                }
                Ok(Bitvector { width, value: self.value })
            },
            CastOpType::IntSExt => {
                if width < self.width {
                    return Err(IrError::WidthMismatch);
                }
                let v = wrap_i128(signed_i128(*self), width);
                Ok(Bitvector { width, value: v })
            },
            CastOpType::Trunc => {
                if width > self.width {
                    return Err(IrError::WidthMismatch);
                }
                let v = wrap_u128(self.value as u128, width);
                Ok(Bitvector { width, value: v })
            },
        }
    }

    /// The piece of `self` of `width` bits from bit `low_bit` up, as
    /// `subpiece_spec` states.
    pub fn subpiece(&self, low_bit: u64, width: u64) -> (r: Result<Bitvector, IrError>)
        requires
            self.wf(),
        ensures
            r == subpiece_spec(*self, low_bit, width),
            r is Ok ==> r->Ok_0.wf(),
    {
        if width < 1 || width > MAX_WIDTH {
            return Err(IrError::ConstructionError);
        }
        if low_bit > self.width || width > self.width - low_bit {
            return Err(IrError::WidthMismatch);
        }
        let p = pow2_u128(low_bit);
        let v = wrap_u128((self.value as u128) / p, width);
        Ok(Bitvector { width, value: v })
    }
}

/// An arithmetic or bitwise operation on two well-formed values of one width
/// gives a value of that same width; it fails only on a division by zero.
pub proof fn lemma_arith_keeps_width(op: BinOpType, x: Bitvector, y: Bitvector)
    requires
        x.wf(),
        y.wf(),
        x.width == y.width,
        !op.spec_is_comparison(),
    ensures
        bin_op_spec(op, x, y) is Ok ==> bin_op_spec(op, x, y)->Ok_0.width == x.width,
        bin_op_spec(op, x, y) is Err ==> op.spec_is_division() && y.value == 0,
{
}

/// An operation other than a shift on values of different widths fails with
/// `WidthMismatch`; nothing is extended implicitly.
pub proof fn lemma_unequal_widths_mismatch(op: BinOpType, x: Bitvector, y: Bitvector)
    requires
        x.width != y.width,
        !op.spec_is_shift(),
    ensures
        bin_op_spec(op, x, y) == Err::<Bitvector, IrError>(IrError::WidthMismatch),
{
}

/// A division or remainder by a zero value of matching width fails with
/// `DivisionByZero`.
pub proof fn lemma_division_by_zero(op: BinOpType, x: Bitvector, y: Bitvector)
    requires
        op.spec_is_division(),
        x.width == y.width,
        y.value == 0,
    ensures
        bin_op_spec(op, x, y) == Err::<Bitvector, IrError>(IrError::DivisionByZero),
{
}

} // verus!
