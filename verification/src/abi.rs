//! Application binary interfaces: how values are passed to and returned
//! from functions.

use vstd::prelude::*;

use crate::ir::IrTyId;

verus! {

/// The calling conventions that functions can be invoked with.
#[derive(Copy, Clone, Debug, PartialEq, Eq, Structural)]
pub enum CallingConvention {
    /// The C calling convention.
    C,
    /// The calling convention for functions that are unlikely to be called.
    Cold,
}

/// A type together with its layout.
#[derive(Copy, Clone, Debug, PartialEq, Eq, Structural)]
pub struct TyInfo {
    pub ty: IrTyId,
    pub layout: u32,
}

/// Attributes of an argument, as bit flags.
#[derive(Copy, Clone, Debug, PartialEq, Eq, Structural)]
pub struct ArgAttributeFlags {
    pub bits: u16,
}

impl ArgAttributeFlags {
    /// The pointer argument does not alias any other argument or the
    /// return value.
    pub const NO_ALIAS: u16 = 0x2;
    /// The pointer argument is not captured by the callee.
    pub const NO_CAPTURE: u16 = 0x4;
    /// The pointer argument holds no undefined values.
    pub const NO_UNDEF: u16 = 0x8;
    /// The pointer argument is not null.
    pub const NON_NULL: u16 = 0x10;
    /// The argument is read only.
    pub const READ_ONLY: u16 = 0x20;
    /// The argument should be passed in a register.
    pub const IN_REG: u16 = 0x40;

    /// No flags.
    pub fn empty() -> (r: Self)
        ensures
            r.bits == 0,
    {
        ArgAttributeFlags { bits: 0 }
    }

    /// The flags of the given bits.
    pub fn from_bits(bits: u16) -> (r: Self)
        ensures
            r.bits == bits,
    {
        ArgAttributeFlags { bits }
    }

    /// Whether all the given flags are set.
    pub fn contains(&self, flags: u16) -> (r: bool)
        ensures
            r == (self.bits & flags == flags),
    {
        self.bits & flags == flags
    }

    /// Set the given flags.
    pub fn insert(&mut self, flags: u16)
        ensures
            final(self).bits == old(self).bits | flags,
    {
        self.bits = self.bits | flags;
    }

    /// Clear the given flags.
    pub fn remove(&mut self, flags: u16)
        ensures
            final(self).bits == old(self).bits & !flags,
    {
        self.bits = self.bits & !flags;
    }
}

/// How an argument should be extended to the size that the ABI needs.
#[derive(Debug, Clone, Copy, PartialEq, Eq, Structural)]
pub enum ArgExtension {
    ZeroExtend,
    SignExtend,
    NoExtend,
}

/// The attributes of an argument: flags, and how it is extended.
#[derive(Debug, Clone, Copy, PartialEq, Eq, Structural)]
pub struct ArgAttributes {
    pub flags: ArgAttributeFlags,
    pub extension: ArgExtension,
}

/// How an argument is passed to a function.
#[derive(Debug, Clone, Copy, PartialEq, Eq, Structural)]
pub enum PassMode {
    /// The argument is ignored: it is uninhabited or of size zero.
    Ignore,
    /// The argument is passed directly.
    Direct(ArgAttributes),
    /// The argument is passed by a pointer to a copy of it, possibly on the
    /// stack.
    Indirect { attributes: ArgAttributes, on_stack: bool },
}

/// How an argument, or the return value, of a function is passed.
#[derive(Debug, Clone, Copy, PartialEq, Eq, Structural)]
pub struct ArgAbi {
    pub info: TyInfo,
    pub mode: PassMode,
}

impl ArgAbi {
    /// Whether the argument is passed indirectly.
    pub fn is_indirect(&self) -> (r: bool)
        ensures
            r == (self.mode is Indirect),
    {
        match self.mode {
            PassMode::Indirect { .. } => true,
            _ => false,
        }
    }

    /// Whether the argument is ignored.
    pub fn is_ignored(&self) -> (r: bool)
        ensures
            r == (self.mode is Ignore),
    {
        match self.mode {
            PassMode::Ignore => true,
            _ => false,
        }
    }
}

/// How the arguments and the return value of a function are passed, and
/// its calling convention.
pub struct FnAbi {
    pub args: Vec<ArgAbi>,
    pub ret_abi: ArgAbi,
    pub calling_convention: CallingConvention,
}

} // verus!
