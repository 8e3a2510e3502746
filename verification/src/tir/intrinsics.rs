//! The operators that the TIR's intrinsics stand for.

use vstd::prelude::*;

verus! {

/// A unary operator intrinsic.
#[derive(Debug, Clone, Copy, PartialEq, Eq, Structural)]
pub enum UnOp {
    /// Bitwise inversion.
    BitNot,
    /// Logical inversion.
    Not,
    /// Negation.
    Neg,
}

/// A short-circuiting boolean operator intrinsic.
#[derive(Debug, Clone, Copy, PartialEq, Eq, Structural)]
pub enum ShortCircuitingBoolOp {
    And,
    Or,
}

/// An arithmetic or bitwise binary operator intrinsic.
#[derive(Debug, Clone, Copy, PartialEq, Eq, Structural)]
pub enum BinOp {
    BitOr,
    BitAnd,
    BitXor,
    Exp,
    Shr,
    Shl,
    Add,
    Sub,
    Mul,
    Div,
    Mod,
}

/// A comparison operator intrinsic.
#[derive(Debug, Clone, Copy, PartialEq, Eq, Structural)]
pub enum CondBinOp {
    EqEq,
    NotEq,
    Gt,
    GtEq,
    Lt,
    LtEq,
}

} // verus!
