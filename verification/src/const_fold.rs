//! Constant folding: evaluating a binary operator on two constants while
//! lowering, where the result is defined.

use vstd::prelude::*;
use vstd::arithmetic::div_mod::lemma_small_mod;
use vstd::arithmetic::power2::{lemma2_to64, lemma_pow2_adds, pow2};

use crate::ir::{spec_common_ir_tys, BinOp, Const, IrTyId};

verus! {

/// The size of a value, in bytes.
#[derive(Debug, Clone, Copy, PartialEq, Eq, Structural)]
pub struct Size {
    pub bytes: u64,
}

impl Size {
    /// The size of one of the integer types: one, two, four, eight or
    /// sixteen bytes.
    pub open spec fn is_int_size(self) -> bool {
        self.bytes == 1 || self.bytes == 2 || self.bytes == 4 || self.bytes == 8 || self.bytes == 16
    }

    /// The number of bits.
    pub open spec fn bits(self) -> nat {
        (8 * self.bytes) as nat
    }

    /// The number of values of this size: `2^bits`.
    pub open spec fn modulus(self) -> int {
        pow2(self.bits()) as int
    }

    /// Half the number of values: the least value that is negative when
    /// read as a signed integer.
    pub open spec fn half(self) -> int {
        pow2((self.bits() - 1) as nat) as int
    }

    /// The raw bits of `v` at this size: `v` modulo `2^bits`.
    pub open spec fn spec_truncate(self, v: int) -> int {
        v % self.modulus()
    }

    /// The signed integer that the raw bits of `v` at this size stand for,
    /// in two's complement.
    pub open spec fn spec_sign_extend(self, v: int) -> int {
        let t = self.spec_truncate(v);
        if t >= self.half() {
            t - self.modulus()
        } else {
            t
        }
    }

    /// The signed integers that fit in this size.
    pub open spec fn fits_signed(self, v: int) -> bool {
        -self.half() <= v < self.half()
    }

    /// The number of bits.
    pub fn bits_exec(&self) -> (r: u64)
        requires
            self.is_int_size(),
        ensures
            r == self.bits(),
    {
        8 * self.bytes
    }

    /// Truncate `value` to this size.
    pub fn truncate(&self, value: u128) -> (r: u128)
        requires
            self.is_int_size(),
        ensures
            r == self.spec_truncate(value as int),
    {
        proof {
            lemma_moduli(*self);
        }
        if self.bytes == 1 {
            value % 0x100
        } else if self.bytes == 2 {
            value % 0x1_0000
        } else if self.bytes == 4 {
            value % 0x1_0000_0000
        } else if self.bytes == 8 {
            value % 0x1_0000_0000_0000_0000
        } else {
            value
        }
    }

    /// Read the raw bits of `value` at this size as a signed integer.
    pub fn sign_extend(&self, value: u128) -> (r: i128)
        requires
            self.is_int_size(),
        ensures
            r == self.spec_sign_extend(value as int),
    {
        proof {
            lemma_moduli(*self);
        }
        let t = self.truncate(value);
        if self.bytes == 1 {
            if t >= 0x80 { t as i128 - 0x100 } else { t as i128 }
        } else if self.bytes == 2 {
            if t >= 0x8000 { t as i128 - 0x1_0000 } else { t as i128 }
        } else if self.bytes == 4 {
            if t >= 0x8000_0000 { t as i128 - 0x1_0000_0000 } else { t as i128 }
        } else if self.bytes == 8 {
            if t >= 0x8000_0000_0000_0000 { t as i128 - 0x1_0000_0000_0000_0000 } else { t as i128 }
        } else {
            if t >= 0x8000_0000_0000_0000_0000_0000_0000_0000 {
                -((u128::MAX - t) as i128) - 1
            } else {
                t as i128
            }
        }
    }

    /// The least signed integer of this size.
    pub fn signed_int_min(&self) -> (r: i128)
        requires
            self.is_int_size(),
        ensures
            r == -self.half(),
    {
        proof {
            lemma_moduli(*self);
        }
        if self.bytes == 1 {
            -0x80
        } else if self.bytes == 2 {
            -0x8000
        } else if self.bytes == 4 {
            -0x8000_0000
        } else if self.bytes == 8 {
            -0x8000_0000_0000_0000
        } else {
            i128::MIN
        }
    }

    /// Whether the signed integer `v` fits in this size.
    fn fits_signed_exec(&self, v: i128) -> (r: bool)
        requires
            self.is_int_size(),
        ensures
            r == self.fits_signed(v as int),
    {
        proof {
            lemma_moduli(*self);
        }
        if self.bytes == 16 {
            true
        } else {
            let min = self.signed_int_min();
            min <= v && v < -min
        }
    }

    /// Whether the unsigned integer `v` fits in this size.
    pub fn fits_unsigned(&self, v: u128) -> (r: bool)
        requires
            self.is_int_size(),
        ensures
            r == (v < self.modulus()),
    {
        proof {
            lemma_moduli(*self);
        }
        if self.bytes == 1 {
            v < 0x100
        } else if self.bytes == 2 {
            v < 0x1_0000
        } else if self.bytes == 4 {
            v < 0x1_0000_0000
        } else if self.bytes == 8 {
            v < 0x1_0000_0000_0000_0000
        } else {
            true
        }
    }

    /// The raw bits at this size of a signed integer that fits in it.
    fn to_bits_signed(&self, v: i128) -> (r: u128)
        requires
            self.is_int_size(),
            self.fits_signed(v as int),
        ensures
            r == self.spec_truncate(v as int),
    {
        proof {
            lemma_moduli(*self);
        }
        if v >= 0 {
            v as u128
        } else if self.bytes == 16 {
            u128::MAX - ((-(v + 1)) as u128)
        } else if self.bytes == 1 {
            (v + 0x100) as u128
        } else if self.bytes == 2 {
            (v + 0x1_0000) as u128
        } else if self.bytes == 4 {
            (v + 0x1_0000_0000) as u128
        } else {
            (v + 0x1_0000_0000_0000_0000) as u128
        }
    }
}

/// The number of values of each integer size, and half of it.
pub proof fn lemma_moduli(s: Size)
    requires
        s.is_int_size(),
    ensures
        s.bytes == 1 ==> s.modulus() == 0x100 && s.half() == 0x80,
        s.bytes == 2 ==> s.modulus() == 0x1_0000 && s.half() == 0x8000,
        s.bytes == 4 ==> s.modulus() == 0x1_0000_0000 && s.half() == 0x8000_0000,
        s.bytes == 8 ==> s.modulus() == 0x1_0000_0000_0000_0000 && s.half() == 0x8000_0000_0000_0000,
        s.bytes == 16 ==> s.modulus() == 0x1_0000_0000_0000_0000_0000_0000_0000_0000 && s.half()
            == 0x8000_0000_0000_0000_0000_0000_0000_0000,
{
    lemma2_to64();
    lemma_pow2_adds(31, 32);
    assert(pow2(63) == pow2(31) * pow2(32));
    assert(0x8000_0000int * 0x1_0000_0000int == 0x8000_0000_0000_0000int) by (nonlinear_arith);
    if s.bytes == 1 {
        assert(s.bits() == 8 && (s.bits() - 1) as nat == 7);
    } else if s.bytes == 2 {
        assert(s.bits() == 16 && (s.bits() - 1) as nat == 15);
    } else if s.bytes == 4 {
        assert(s.bits() == 32 && (s.bits() - 1) as nat == 31);
    } else if s.bytes == 8 {
        assert(s.bits() == 64 && (s.bits() - 1) as nat == 63);
    } else {
        assert(s.bits() == 128 && (s.bits() - 1) as nat == 127);
        lemma_pow2_adds(64, 64);
        lemma_pow2_adds(63, 64);
        assert(pow2(128) == pow2(64) * pow2(64));
        assert(pow2(127) == pow2(63) * pow2(64));
        assert(0x1_0000_0000_0000_0000int * 0x1_0000_0000_0000_0000int == 0x1_0000_0000_0000_0000_0000_0000_0000_0000int) by (nonlinear_arith);
        assert(0x8000_0000_0000_0000int * 0x1_0000_0000_0000_0000int == 0x8000_0000_0000_0000_0000_0000_0000_0000int) by (nonlinear_arith);
    }
}

/// The raw bits of a signed integer that fits in a size read back as that
/// integer.
pub proof fn lemma_sign_extend_truncate(size: Size, v: int)
    requires
        size.is_int_size(),
        size.fits_signed(v),
    ensures
        0 <= size.spec_truncate(v) < size.modulus(),
        size.spec_sign_extend(size.spec_truncate(v)) == v,
{
    lemma_moduli(size);
    let m = size.modulus();
    let t = v % m;
    if v >= 0 {
        lemma_small_mod(v as nat, m as nat);
    } else {
        assert(t == v + m) by {
            vstd::arithmetic::div_mod::lemma_fundamental_div_mod(v, m);
            assert(v / m == -1) by {
                vstd::arithmetic::div_mod::lemma_fundamental_div_mod_converse(v, m, -1, v + m);
            }
        }
    }
    lemma_small_mod(t as nat, m as nat);
}

/// A folded integer result is a valid value of its type and stands for the
/// exact result of the operator: the exact result itself for unsigned
/// types, and, read as two's complement, for signed ones.
pub proof fn lemma_fold_int_exact(op: BinOp, signed: bool, size: Size, ty: IrTyId, lhs: u128, rhs: u128)
    requires
        size.is_int_size(),
        lhs < size.modulus(),
        rhs < size.modulus(),
        is_arith(op),
    ensures
        spec_fold_int(op, signed, size, ty, lhs, rhs) matches Some(c) ==> {
            &&& c.ty == ty
            &&& c.data < size.modulus()
            &&& signed ==> size.spec_sign_extend(c.data as int) == spec_arith(
                op,
                size.spec_sign_extend(lhs as int),
                size.spec_sign_extend(rhs as int),
            )
            &&& !signed ==> c.data == spec_arith(op, lhs as int, rhs as int)
        },
{
    lemma_moduli(size);
    if signed {
        let v = spec_arith(op, size.spec_sign_extend(lhs as int), size.spec_sign_extend(rhs as int));
        if size.fits_signed(v) {
            lemma_sign_extend_truncate(size, v);
        }
    }
}

/// A folded bitwise result on valid values of an integer type is a valid
/// value of it.
pub proof fn lemma_fold_bitwise_valid(op: BinOp, signed: bool, size: Size, ty: IrTyId, lhs: u128, rhs: u128)
    requires
        size.is_int_size(),
        lhs < size.modulus(),
        rhs < size.modulus(),
        op is BitOr || op is BitAnd || op is BitXor,
    ensures
        spec_fold_int(op, signed, size, ty, lhs, rhs) matches Some(c) && c.ty == ty && c.data < size.modulus(),
{
    lemma_moduli(size);
    if size.bytes == 1 {
        assert(lhs < 0x100 && rhs < 0x100 ==> (lhs | rhs) < 0x100 && (lhs & rhs) < 0x100 && (lhs ^ rhs) < 0x100) by (bit_vector);
    } else if size.bytes == 2 {
        assert(lhs < 0x1_0000 && rhs < 0x1_0000 ==> (lhs | rhs) < 0x1_0000 && (lhs & rhs) < 0x1_0000 && (lhs ^ rhs) < 0x1_0000) by (bit_vector);
    } else if size.bytes == 4 {
        assert(lhs < 0x1_0000_0000 && rhs < 0x1_0000_0000 ==> (lhs | rhs) < 0x1_0000_0000 && (lhs & rhs) < 0x1_0000_0000 && (lhs ^ rhs) < 0x1_0000_0000) by (bit_vector);
    } else if size.bytes == 8 {
        assert(lhs < 0x1_0000_0000_0000_0000 && rhs < 0x1_0000_0000_0000_0000 ==> (lhs | rhs) < 0x1_0000_0000_0000_0000 && (lhs & rhs) < 0x1_0000_0000_0000_0000 && (lhs ^ rhs) < 0x1_0000_0000_0000_0000) by (bit_vector);
    }
}

/// What the folder knows of an IR type.
#[derive(Debug, Clone, Copy, PartialEq, Eq, Structural)]
pub enum ScalarTy {
    /// An integer type, signed or not, of the given size.
    Int { signed: bool, size: Size },
    Bool,
    Char,
    /// A floating point type of the given size.
    Float { size: Size },
    /// Any type that is not a scalar.
    Other,
}

/// The comparison `op` on integers.
pub open spec fn spec_compare(op: BinOp, a: int, b: int) -> bool {
    match op {
        BinOp::Gt => a > b,
        BinOp::GtEq => a >= b,
        BinOp::Lt => a < b,
        BinOp::LtEq => a <= b,
        BinOp::Eq => a == b,
        _ => a != b,
    }
}

/// The magnitude of an integer.
pub open spec fn spec_abs(a: int) -> int {
    if a < 0 {
        -a
    } else {
        a
    }
}

/// Division rounding towards zero.
pub open spec fn spec_div_trunc(a: int, b: int) -> int {
    let q = spec_abs(a) / spec_abs(b);
    if (a < 0) != (b < 0) {
        -q
    } else {
        q
    }
}

/// The remainder of division rounding towards zero, which has the sign of
/// the dividend.
pub open spec fn spec_rem_trunc(a: int, b: int) -> int {
    let r = spec_abs(a) % spec_abs(b);
    if a < 0 {
        -r
    } else {
        r
    }
}

/// The arithmetic operator `op` on integers.
pub open spec fn spec_arith(op: BinOp, a: int, b: int) -> int {
    match op {
        BinOp::Add => a + b,
        BinOp::Sub => a - b,
        BinOp::Mul => a * b,
        BinOp::Div => spec_div_trunc(a, b),
        _ => spec_rem_trunc(a, b),
    }
}

/// The operators that compute with integers.
pub open spec fn is_arith(op: BinOp) -> bool {
    op is Add || op is Sub || op is Mul || op is Div || op is Mod
}

/// The operators that divide.
pub open spec fn is_division(op: BinOp) -> bool {
    op is Div || op is Mod
}

/// The constant that folding `op` on two integers of type `ty` gives, from
/// their raw bits at `size`: comparisons give booleans, bitwise operators
/// the combined bits, and arithmetic the exact result when it fits in the
/// type, and nothing when it overflows or divides by zero. Signed integers
/// are compared and computed with as two's complement values.
pub open spec fn spec_fold_int(op: BinOp, signed: bool, size: Size, ty: IrTyId, lhs: u128, rhs: u128) -> Option<Const> {
    let l = size.spec_sign_extend(lhs as int);
    let r = size.spec_sign_extend(rhs as int);
    if signed && op.spec_is_comparator() {
        Some(Const::spec_bool(spec_compare(op, l, r)))
    } else if signed && is_arith(op) {
        if is_division(op) && rhs == 0 {
            None
        } else if is_division(op) && l == -size.half() && r == -1 {
            None
        } else if size.fits_signed(spec_arith(op, l, r)) {
            Some(Const { ty, data: size.spec_truncate(spec_arith(op, l, r)) as u128 })
        } else {
            None
        }
    } else if op.spec_is_comparator() {
        Some(Const::spec_bool(spec_compare(op, lhs as int, rhs as int)))
    } else if is_arith(op) {
        if is_division(op) && rhs == 0 {
            None
        } else if 0 <= spec_arith(op, lhs as int, rhs as int) < size.modulus() {
            Some(Const { ty, data: spec_arith(op, lhs as int, rhs as int) as u128 })
        } else {
            None
        }
    } else {
        match op {
            BinOp::BitOr => Some(Const { ty, data: lhs | rhs }),
            BinOp::BitAnd => Some(Const { ty, data: lhs & rhs }),
            BinOp::BitXor => Some(Const { ty, data: lhs ^ rhs }),
            _ => None,
        }
    }
}

/// The operators that fold on booleans.
pub open spec fn is_bool_op(op: BinOp) -> bool {
    op.spec_is_comparator() || op is BitAnd || op is BitOr || op is BitXor
}

/// The boolean that folding `op` on two booleans gives, `false` before
/// `true`.
pub open spec fn spec_fold_bool(op: BinOp, l: bool, r: bool) -> bool {
    match op {
        BinOp::Gt => l && !r,
        BinOp::GtEq => l || !r,
        BinOp::Lt => !l && r,
        BinOp::LtEq => !l || r,
        BinOp::Eq => l == r,
        BinOp::Neq => l != r,
        BinOp::BitAnd => l && r,
        BinOp::BitOr => l || r,
        _ => l != r,
    }
}

/// Folding a boolean operator on two booleans agrees with the operator on
/// their bits: `&`, `|` and `^` act bit by bit, and the comparisons order
/// false (0) before true (1). The result is a boolean.
pub proof fn lemma_fold_bool_agrees(folder: ConstFolder, op: BinOp, lhs: Const, rhs: Const)
    requires
        folder.scalar_ty_of(lhs.ty) == ScalarTy::Bool,
        lhs.data <= 1,
        rhs.data <= 1,
    ensures
        folder.spec_try_fold_bin_op(op, lhs, rhs) matches Some(c) && c.ty == spec_common_ir_tys().bool_ty && c.data <= 1
            && (op == BinOp::BitAnd ==> c.data == lhs.data & rhs.data)
            && (op == BinOp::BitOr ==> c.data == lhs.data | rhs.data)
            && (op == BinOp::BitXor ==> c.data == lhs.data ^ rhs.data)
            && (op == BinOp::Eq ==> (c.data == 1) == (lhs.data == rhs.data))
            && (op == BinOp::Neq ==> (c.data == 1) == (lhs.data != rhs.data))
            && (op == BinOp::Lt ==> (c.data == 1) == (lhs.data < rhs.data))
            && (op == BinOp::LtEq ==> (c.data == 1) == (lhs.data <= rhs.data))
            && (op == BinOp::Gt ==> (c.data == 1) == (lhs.data > rhs.data))
            && (op == BinOp::GtEq ==> (c.data == 1) == (lhs.data >= rhs.data)),
{
    let l = lhs.data;
    let r = rhs.data;
    assert(l & r == (if l == 1 && r == 1 { 1u128 } else { 0u128 })) by (bit_vector)
        requires
            l <= 1,
            r <= 1,
    ;
    assert(l | r == (if l == 1 || r == 1 { 1u128 } else { 0u128 })) by (bit_vector)
        requires
            l <= 1,
            r <= 1,
    ;
    assert(l ^ r == (if l != r { 1u128 } else { 0u128 })) by (bit_vector)
        requires
            l <= 1,
            r <= 1,
    ;
}

/// Folding a comparison on valid values of an integer type gives a boolean
/// that orders the values they stand for: as two's complement for signed
/// types, as they are for unsigned ones.
pub proof fn lemma_fold_compare_orders(op: BinOp, signed: bool, size: Size, ty: IrTyId, lhs: u128, rhs: u128)
    requires
        op.spec_is_comparator(),
    ensures
        ({
            let l = if signed { size.spec_sign_extend(lhs as int) } else { lhs as int };
            let r = if signed { size.spec_sign_extend(rhs as int) } else { rhs as int };
            spec_fold_int(op, signed, size, ty, lhs, rhs) matches Some(c) && c.ty == spec_common_ir_tys().bool_ty
                && c.data <= 1 && (op == BinOp::Lt ==> (c.data == 1) == (l < r)) && (op == BinOp::LtEq ==> (c.data
                == 1) == (l <= r)) && (op == BinOp::Gt ==> (c.data == 1) == (l > r)) && (op == BinOp::GtEq ==> (
            c.data == 1) == (l >= r)) && (op == BinOp::Eq ==> (c.data == 1) == (l == r)) && (op == BinOp::Neq ==> (
            c.data == 1) == (l != r))
        }),
{
}

/// Folding a bitwise operator on integers acts on each bit by itself: a
/// bit of the result is the `or`, `and` or `xor` of the same bits of the
/// operands.
pub proof fn lemma_fold_bitwise_per_bit(op: BinOp, signed: bool, size: Size, ty: IrTyId, lhs: u128, rhs: u128, k: u128)
    requires
        op is BitOr || op is BitAnd || op is BitXor,
        k < 128,
    ensures
        spec_fold_int(op, signed, size, ty, lhs, rhs) matches Some(c) && c.ty == ty && {
            let bit = (c.data >> k) & 1;
            let a = (lhs >> k) & 1;
            let b = (rhs >> k) & 1;
            &&& op is BitOr ==> (bit == 1) == (a == 1 || b == 1)
            &&& op is BitAnd ==> (bit == 1) == (a == 1 && b == 1)
            &&& op is BitXor ==> (bit == 1) == (a != b)
        },
{
    assert(((lhs | rhs) >> k) & 1 == 1 <==> ((lhs >> k) & 1 == 1 || (rhs >> k) & 1 == 1)) by (bit_vector)
        requires
            k < 128,
    ;
    assert(((lhs & rhs) >> k) & 1 == 1 <==> ((lhs >> k) & 1 == 1 && (rhs >> k) & 1 == 1)) by (bit_vector)
        requires
            k < 128,
    ;
    assert(((lhs ^ rhs) >> k) & 1 == 1 <==> ((lhs >> k) & 1 != (rhs >> k) & 1)) by (bit_vector)
        requires
            k < 128,
    ;
    assert((lhs >> k) & 1 == 0 || (lhs >> k) & 1 == 1) by (bit_vector);
    assert((rhs >> k) & 1 == 0 || (rhs >> k) & 1 == 1) by (bit_vector);
}

/// Folding a comparison on two characters orders them by their code
/// points.
pub proof fn lemma_fold_char_orders(folder: ConstFolder, op: BinOp, lhs: Const, rhs: Const)
    requires
        folder.scalar_ty_of(lhs.ty) == ScalarTy::Char,
        is_char_bits(lhs.data),
        is_char_bits(rhs.data),
        op.spec_is_comparator(),
    ensures
        folder.spec_try_fold_bin_op(op, lhs, rhs) matches Some(c) && c.ty == spec_common_ir_tys().bool_ty && c.data <= 1
            && (op == BinOp::Lt ==> (c.data == 1) == (lhs.data < rhs.data))
            && (op == BinOp::LtEq ==> (c.data == 1) == (lhs.data <= rhs.data))
            && (op == BinOp::Gt ==> (c.data == 1) == (lhs.data > rhs.data))
            && (op == BinOp::GtEq ==> (c.data == 1) == (lhs.data >= rhs.data))
            && (op == BinOp::Eq ==> (c.data == 1) == (lhs.data == rhs.data))
            && (op == BinOp::Neq ==> (c.data == 1) == (lhs.data != rhs.data)),
{
}

/// The raw bits of a character: a Unicode scalar value.
pub open spec fn is_char_bits(v: u128) -> bool {
    v <= 0x10FFFF && !(0xD800 <= v <= 0xDFFF)
}

/// A constant folder, which knows the scalar types of the IR types by
/// their identifiers.
pub struct ConstFolder {
    pub tys: Vec<ScalarTy>,
}

impl ConstFolder {
    /// The folder is well formed: each integer type has an integer size.
    pub open spec fn wf(&self) -> bool {
        forall|i: int| 0 <= i < self.tys@.len() ==> (#[trigger] self.tys@[i] matches ScalarTy::Int { size, .. } ==> size.is_int_size())
    }

    /// The scalar type of `ty`: `Other` for a type the folder does not know.
    pub open spec fn scalar_ty_of(&self, ty: IrTyId) -> ScalarTy {
        if (ty.0 as int) < self.tys@.len() {
            self.tys@[ty.0 as int]
        } else {
            ScalarTy::Other
        }
    }

    /// Folding would stop at an unsupported operator: a shift of integers,
    /// an arithmetic operator on booleans, or anything but a comparison on
    /// characters.
    pub open spec fn fold_unsupported(&self, op: BinOp, lhs: Const, rhs: Const) -> bool {
        match self.scalar_ty_of(lhs.ty) {
            ScalarTy::Int { size, .. } => lhs.data < size.modulus() && rhs.data < size.modulus() && (op is Shl || op is Shr),
            ScalarTy::Bool => lhs.data <= 1 && rhs.data <= 1 && !is_bool_op(op),
            ScalarTy::Char => is_char_bits(lhs.data) && is_char_bits(rhs.data) && !op.spec_is_comparator(),
            _ => false,
        }
    }

    /// The constant that folding `op` on `lhs` and `rhs` gives, by the type
    /// of `lhs`: nothing for constants that are not valid values of it, or
    /// types that are not integers, booleans or characters.
    pub open spec fn spec_try_fold_bin_op(&self, op: BinOp, lhs: Const, rhs: Const) -> Option<Const> {
        match self.scalar_ty_of(lhs.ty) {
            ScalarTy::Int { signed, size } => if lhs.data < size.modulus() && rhs.data < size.modulus() {
                spec_fold_int(op, signed, size, lhs.ty, lhs.data, rhs.data)
            } else {
                None
            },
            ScalarTy::Bool => if lhs.data <= 1 && rhs.data <= 1 {
                Some(Const::spec_bool(spec_fold_bool(op, lhs.data == 1, rhs.data == 1)))
            } else {
                None
            },
            ScalarTy::Char => if is_char_bits(lhs.data) && is_char_bits(rhs.data) {
                Some(Const::spec_bool(spec_compare(op, lhs.data as int, rhs.data as int)))
            } else {
                None
            },
            _ => None,
        }
    }

    /// A folder over the given scalar types.
    pub fn new(tys: Vec<ScalarTy>) -> (r: Self)
        ensures
            r.tys@ == tys@,
    {
        ConstFolder { tys }
    }

    /// Whether every integer type that the folder knows has a supported
    /// size.
    pub fn is_wf(&self) -> (r: bool)
        ensures
            r == self.wf(),
    {
        let mut i: usize = 0;
        while i < self.tys.len()
            invariant
                i <= self.tys@.len(),
                forall|j: int| 0 <= j < i ==> (#[trigger] self.tys@[j] matches ScalarTy::Int { size, .. } ==> size.is_int_size()),
            decreases self.tys@.len() - i,
        {
            if let ScalarTy::Int { size, .. } = self.tys[i] {
                if !(size.bytes == 1 || size.bytes == 2 || size.bytes == 4 || size.bytes == 8 || size.bytes == 16) {
                    assert(!(self.tys@[i as int] matches ScalarTy::Int { size, .. } ==> size.is_int_size()));
                    return false;
                }
            }
            i = i + 1;
        }
        true
    }

    /// The scalar type of `ty`.
    pub fn scalar_ty(&self, ty: IrTyId) -> (r: ScalarTy)
        ensures
            r == self.scalar_ty_of(ty),
    {
        if (ty.0 as usize) < self.tys.len() {
            self.tys[ty.0 as usize]
        } else {
            ScalarTy::Other
        }
    }

    /// The size of an integer type.
    pub fn size_of_ty(&self, ty: IrTyId) -> (r: Option<Size>)
        ensures
            match self.scalar_ty_of(ty) {
                ScalarTy::Int { size, .. } => r == Some(size),
                _ => r is None,
            },
    {
        match self.scalar_ty(ty) {
            ScalarTy::Int { size, .. } => Some(size),
            _ => None,
        }
    }

    /// Attempt to evaluate the binary operator `op` on two constants.
    /// Floating point constants are folded elsewhere.
    pub fn try_fold_bin_op(&self, op: BinOp, lhs: &Const, rhs: &Const) -> (r: Option<Const>)
        requires
            self.wf(),
            !(self.scalar_ty_of(lhs.ty) is Float),
            !self.fold_unsupported(op, *lhs, *rhs),
        ensures
            r == self.spec_try_fold_bin_op(op, *lhs, *rhs),
    {
        match self.scalar_ty(lhs.ty) {
            ScalarTy::Int { size, .. } => {
                proof {
                    assert(self.tys@[lhs.ty.0 as int] matches ScalarTy::Int { size, .. } ==> size.is_int_size());
                }
                if !size.fits_unsigned(lhs.data) || !size.fits_unsigned(rhs.data) {
                    return None;
                }
                self.binary_int_op(op, lhs.ty, lhs.data, rhs.ty, rhs.data)
            },
            ScalarTy::Bool => {
                if lhs.data > 1 || rhs.data > 1 {
                    return None;
                }
                Some(Self::binary_bool_op(op, lhs.data == 1, rhs.data == 1))
            },
            ScalarTy::Char => {
                if !Self::valid_char(lhs.data) || !Self::valid_char(rhs.data) {
                    return None;
                }
                Some(Self::binary_char_op(op, lhs.data, rhs.data))
            },
            _ => None,
        }
    }

    /// Whether the raw bits are those of a character.
    fn valid_char(v: u128) -> (r: bool)
        ensures
            r == is_char_bits(v),
    {
        v <= 0x10FFFF && !(0xD800 <= v && v <= 0xDFFF)
    }

    /// Perform an operation on two boolean constants.
    pub fn binary_bool_op(op: BinOp, lhs: bool, rhs: bool) -> (r: Const)
        requires
            is_bool_op(op),
        ensures
            r == Const::spec_bool(spec_fold_bool(op, lhs, rhs)),
    {
        Const::bool(
            match op {
                BinOp::Gt => lhs && !rhs,
                BinOp::GtEq => lhs || !rhs,
                BinOp::Lt => !lhs && rhs,
                BinOp::LtEq => !lhs || rhs,
                BinOp::Eq => lhs == rhs,
                BinOp::Neq => lhs != rhs,
                BinOp::BitAnd => lhs && rhs,
                BinOp::BitOr => lhs || rhs,
                _ => lhs != rhs,
            },
        )
    }

    /// Perform a comparison on two character constants, given by their
    /// code points; the result is a boolean constant.
    pub fn binary_char_op(op: BinOp, lhs: u128, rhs: u128) -> (r: Const)
        requires
            op.spec_is_comparator(),
        ensures
            r == Const::spec_bool(spec_compare(op, lhs as int, rhs as int)),
    {
        Const::bool(
            match op {
                BinOp::Gt => lhs > rhs,
                BinOp::GtEq => lhs >= rhs,
                BinOp::Lt => lhs < rhs,
                BinOp::LtEq => lhs <= rhs,
                BinOp::Eq => lhs == rhs,
                _ => lhs != rhs,
            },
        )
    }

    /// The magnitude of a signed integer.
    fn magnitude(a: i128) -> (r: u128)
        ensures
            r == spec_abs(a as int),
    {
        if a >= 0 {
            a as u128
        } else if a == i128::MIN {
            0x8000_0000_0000_0000_0000_0000_0000_0000
        } else {
            (-a) as u128
        }
    }

    /// Signed arithmetic, when the exact result is an `i128`.
    fn signed_arith(op: BinOp, a: i128, b: i128) -> (r: Option<i128>)
        requires
            is_arith(op),
            is_division(op) ==> b != 0,
        ensures
            match r {
                Some(v) => v == spec_arith(op, a as int, b as int),
                None => !(i128::MIN <= spec_arith(op, a as int, b as int) <= i128::MAX),
            },
    {
        match op {
            BinOp::Add => a.checked_add(b),
            BinOp::Sub => a.checked_sub(b),
            BinOp::Mul => a.checked_mul(b),
            BinOp::Div => {
                let q = Self::magnitude(a) / Self::magnitude(b);
                if (a < 0) != (b < 0) {
                    if q == 0x8000_0000_0000_0000_0000_0000_0000_0000 {
                        Some(i128::MIN)
                    } else if q > 0x8000_0000_0000_0000_0000_0000_0000_0000 {
                        None
                    } else {
                        Some(-(q as i128))
                    }
                } else if q > i128::MAX as u128 {
                    None
                } else {
                    Some(q as i128)
                }
            },
            _ => {
                let m = Self::magnitude(a) % Self::magnitude(b);
                if a < 0 {
                    Some(-(m as i128))
                } else {
                    Some(m as i128)
                }
            },
        }
    }

    /// Unsigned arithmetic, when the exact result is a `u128`.
    fn unsigned_arith(op: BinOp, a: u128, b: u128) -> (r: Option<u128>)
        requires
            is_arith(op),
            is_division(op) ==> b != 0,
        ensures
            match r {
                Some(v) => v == spec_arith(op, a as int, b as int),
                None => !(0 <= spec_arith(op, a as int, b as int) <= u128::MAX),
            },
    {
        match op {
            BinOp::Add => a.checked_add(b),
            BinOp::Sub => a.checked_sub(b),
            BinOp::Mul => a.checked_mul(b),
            BinOp::Div => Some(a / b),
            _ => Some(a % b),
        }
    }

    /// Perform an operation on two integer constants of type `lhs_ty`, given
    /// by their raw bits at its size.
    pub fn binary_int_op(&self, op: BinOp, lhs_ty: IrTyId, lhs: u128, rhs_ty: IrTyId, rhs: u128) -> (r: Option<Const>)
        requires
            self.wf(),
            self.scalar_ty_of(lhs_ty) is Int,
            !(op is Shl || op is Shr),
            lhs < self.scalar_ty_of(lhs_ty)->Int_size.modulus(),
            rhs < self.scalar_ty_of(lhs_ty)->Int_size.modulus(),
        ensures
            r == spec_fold_int(op, self.scalar_ty_of(lhs_ty)->Int_signed, self.scalar_ty_of(lhs_ty)->Int_size, lhs_ty, lhs, rhs),
    {
        let (signed, size) = match self.scalar_ty(lhs_ty) {
            ScalarTy::Int { signed, size } => (signed, size),
            _ => {
                proof {
                    assert(false);
                }
                return None;
            },
        };
        proof {
            assert(self.tys@[lhs_ty.0 as int] matches ScalarTy::Int { size, .. } ==> size.is_int_size());
            lemma_moduli(size);
        }
        let is_comparison = op.is_comparator();
        let is_arith_op = match op {
            BinOp::Add | BinOp::Sub | BinOp::Mul | BinOp::Div | BinOp::Mod => true,
            _ => false,
        };
        let is_div = match op {
            BinOp::Div | BinOp::Mod => true,
            _ => false,
        };
        if signed && is_comparison {
            let left = size.sign_extend(lhs);
            let right = size.sign_extend(rhs);
            let b = match op {
                BinOp::Gt => left > right,
                BinOp::GtEq => left >= right,
                BinOp::Lt => left < right,
                BinOp::LtEq => left <= right,
                BinOp::Eq => left == right,
                _ => left != right,
            };
            return Some(Const::bool(b));
        }
        if signed && is_arith_op {
            if is_div && rhs == 0 {
                return None;
            }
            let left = size.sign_extend(lhs);
            let right = size.sign_extend(rhs);
            if is_div && left == size.signed_int_min() && right == -1 {
                return None;
            }
            proof {
                if is_div && right == 0 {
                    lemma_small_mod(rhs as nat, size.modulus() as nat);
                    assert(size.spec_truncate(rhs as int) == rhs);
                }
            }
            return match Self::signed_arith(op, left, right) {
                Some(v) => {
                    if size.fits_signed_exec(v) {
                        Some(Const { ty: lhs_ty, data: size.to_bits_signed(v) })
                    } else {
                        None
                    }
                },
                None => None,
            };
        }
        if is_comparison {
            let b = match op {
                BinOp::Gt => lhs > rhs,
                BinOp::GtEq => lhs >= rhs,
                BinOp::Lt => lhs < rhs,
                BinOp::LtEq => lhs <= rhs,
                BinOp::Eq => lhs == rhs,
                _ => lhs != rhs,
            };
            return Some(Const::bool(b));
        }
        match op {
            BinOp::BitOr => Some(Const { ty: lhs_ty, data: lhs | rhs }),
            BinOp::BitAnd => Some(Const { ty: lhs_ty, data: lhs & rhs }),
            BinOp::BitXor => Some(Const { ty: lhs_ty, data: lhs ^ rhs }),
            BinOp::Add | BinOp::Sub | BinOp::Mul | BinOp::Div | BinOp::Mod => {
                if is_div && rhs == 0 {
                    return None;
                }
                match Self::unsigned_arith(op, lhs, rhs) {
                    Some(v) => {
                        if size.fits_unsigned(v) {
                            Some(Const { ty: lhs_ty, data: v })
                        } else {
                            None
                        }
                    },
                    None => None,
                }
            },
            _ => None,
        }
    }
}

} // verus!
