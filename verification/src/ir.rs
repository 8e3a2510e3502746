//! The Hash intermediate representation (IR): operators, places, r-values,
//! statements, terminators, jump tables and lowered bodies.

use vstd::prelude::*;

use crate::smallvecs::{
    SuccessorBlocks, SwitchBlocks, SwitchValues,
    blocks_get, blocks_len, blocks_new, blocks_push, blocks_set, successor_blocks_of,
    successors_new, successors_push, switch_blocks_of, switch_values_of, values_get, values_len,
    values_new, values_push,
};
use crate::tir::intrinsics::{
    BinOp as TirBinOp, CondBinOp as TirCondBinOp, ShortCircuitingBoolOp as TirShortCircuitingBoolOp,
    UnOp as TirUnOp,
};

verus! {

/// Identifier of an interned IR type.
#[derive(Debug, Clone, Copy, PartialEq, Eq, Structural)]
pub struct IrTyId(pub u32);

/// Identifier of an algebraic data type definition.
#[derive(Debug, Clone, Copy, PartialEq, Eq, Structural)]
pub struct AdtId(pub u32);

/// Index of a variant within an algebraic data type.
#[derive(Debug, Clone, Copy, PartialEq, Eq, Structural)]
pub struct VariantIdx(pub u32);

/// An interned identifier (name) of a declaration.
#[derive(Debug, Clone, Copy, PartialEq, Eq, Structural)]
pub struct Identifier(pub u32);

/// Identifier of the AST node that an IR item originates from.
#[derive(Debug, Clone, Copy, PartialEq, Eq, Structural)]
pub struct AstNodeId(pub u32);

/// Whether a value may be mutated.
#[derive(Debug, Clone, Copy, PartialEq, Eq, Structural)]
pub enum Mutability {
    Mutable,
    Immutable,
}

/// The kind of a reference.
#[derive(Debug, Clone, Copy, PartialEq, Eq, Structural)]
pub enum RefKind {
    /// A reference counted reference.
    Rc,
    /// A raw reference.
    Raw,
    /// A normal reference.
    Normal,
}

/// The kind of a cast between primitive values.
#[derive(Debug, Clone, Copy, PartialEq, Eq, Structural)]
pub enum CastKind {
    IntToInt,
    FloatToFloat,
    IntToFloat,
    FloatToInt,
}

/// A constant value of some IR type.
#[derive(Debug, Clone, Copy, PartialEq, Eq, Structural)]
pub struct Const {
    /// The type of the constant.
    pub ty: IrTyId,
    /// The raw bits of the constant.
    pub data: u128,
}

impl Const {
    /// The boolean constant `b`.
    pub open spec fn spec_bool(b: bool) -> Const {
        Const { ty: spec_common_ir_tys().bool_ty, data: if b { 1 } else { 0 } }
    }

    /// Create a boolean constant.
    pub fn bool(b: bool) -> (r: Const)
        ensures
            r == Const::spec_bool(b),
    {
        Const { ty: common_ir_tys().bool_ty, data: if b { 1 } else { 0 } }
    }
}

/// The interned types that every IR body can refer to directly.
#[derive(Debug, Clone, Copy, PartialEq, Eq, Structural)]
pub struct CommonIrTys {
    /// The `bool` type.
    pub bool_ty: IrTyId,
    /// The `usize` type.
    pub usize_ty: IrTyId,
}

/// The common types are interned first, so their identifiers are fixed.
pub open spec fn spec_common_ir_tys() -> CommonIrTys {
    CommonIrTys { bool_ty: IrTyId(0), usize_ty: IrTyId(1) }
}

/// The identifiers of the common IR types.
pub fn common_ir_tys() -> (r: CommonIrTys)
    ensures
        r == spec_common_ir_tys(),
{
    CommonIrTys { bool_ty: IrTyId(0), usize_ty: IrTyId(1) }
}

/// A collection of operations that are constant and must run during the
/// compilation stage.
#[derive(Debug, PartialEq, Eq, Clone, Copy, Structural)]
pub enum ConstOp {
    /// Yields the size of the given type.
    SizeOf,
    /// Yields the word alignment of the type.
    AlignOf,
}

/// Unary operators.
#[derive(Debug, PartialEq, Eq, Clone, Copy, Structural)]
pub enum UnaryOp {
    /// Bitwise logical inversion.
    BitNot,
    /// Logical inversion.
    Not,
    /// The operator '-' for negation.
    Neg,
}

/// Represents a binary operation that is short-circuiting. These
/// operations are only valid on boolean values.
#[derive(Debug, PartialEq, Eq, Clone, Copy, Structural)]
pub enum LogicalBinOp {
    /// '||'
    Or,
    /// '&&'
    And,
}

/// Binary operations on r-values that are typed as primitive, or have
/// intrinsic implementations defined for them.
#[derive(Debug, PartialEq, Eq, Clone, Copy, Structural)]
pub enum BinOp {
    /// '=='
    Eq,
    /// '!='
    Neq,
    /// '|'
    BitOr,
    /// '&'
    BitAnd,
    /// '^'
    BitXor,
    /// '^^'
    Exp,
    /// '>'
    Gt,
    /// '>='
    GtEq,
    /// '<'
    Lt,
    /// '<='
    LtEq,
    /// '>>'
    Shr,
    /// '<<'
    Shl,
    /// '+'
    Add,
    /// '-'
    Sub,
    /// '*'
    Mul,
    /// '/'
    Div,
    /// '%'
    Mod,
}

/// The unary operator that an intrinsic stands for.
pub open spec fn unary_op_of(value: TirUnOp) -> UnaryOp {
    match value {
        TirUnOp::BitNot => UnaryOp::BitNot,
        TirUnOp::Not => UnaryOp::Not,
        TirUnOp::Neg => UnaryOp::Neg,
    }
}

impl From<TirUnOp> for UnaryOp {
    fn from(value: TirUnOp) -> (r: Self) {
        match value {
            TirUnOp::BitNot => UnaryOp::BitNot,
            TirUnOp::Not => UnaryOp::Not,
            TirUnOp::Neg => UnaryOp::Neg,
        }
    }
}

impl vstd::std_specs::convert::FromSpecImpl<TirUnOp> for UnaryOp {
    open spec fn obeys_from_spec() -> bool {
        true
    }

    open spec fn from_spec(v: TirUnOp) -> Self {
        unary_op_of(v)
    }
}

/// The logical operator that an intrinsic stands for.
pub open spec fn logical_op_of(value: TirShortCircuitingBoolOp) -> LogicalBinOp {
    match value {
        TirShortCircuitingBoolOp::And => LogicalBinOp::And,
        TirShortCircuitingBoolOp::Or => LogicalBinOp::Or,
    }
}

impl From<TirShortCircuitingBoolOp> for LogicalBinOp {
    fn from(value: TirShortCircuitingBoolOp) -> (r: Self) {
        match value {
            TirShortCircuitingBoolOp::And => LogicalBinOp::And,
            TirShortCircuitingBoolOp::Or => LogicalBinOp::Or,
        }
    }
}

impl vstd::std_specs::convert::FromSpecImpl<TirShortCircuitingBoolOp> for LogicalBinOp {
    open spec fn obeys_from_spec() -> bool {
        true
    }

    open spec fn from_spec(v: TirShortCircuitingBoolOp) -> Self {
        logical_op_of(v)
    }
}

/// The binary operator that an arithmetic or bitwise intrinsic stands for.
pub open spec fn bin_op_of(value: TirBinOp) -> BinOp {
    match value {
        TirBinOp::BitOr => BinOp::BitOr,
        TirBinOp::BitAnd => BinOp::BitAnd,
        TirBinOp::BitXor => BinOp::BitXor,
        TirBinOp::Exp => BinOp::Exp,
        TirBinOp::Shr => BinOp::Shr,
        TirBinOp::Shl => BinOp::Shl,
        TirBinOp::Add => BinOp::Add,
        TirBinOp::Sub => BinOp::Sub,
        TirBinOp::Mul => BinOp::Mul,
        TirBinOp::Div => BinOp::Div,
        TirBinOp::Mod => BinOp::Mod,
    }
}

impl From<TirBinOp> for BinOp {
    fn from(value: TirBinOp) -> (r: Self) {
        match value {
            TirBinOp::BitOr => BinOp::BitOr,
            TirBinOp::BitAnd => BinOp::BitAnd,
            TirBinOp::BitXor => BinOp::BitXor,
            TirBinOp::Exp => BinOp::Exp,
            TirBinOp::Shr => BinOp::Shr,
            TirBinOp::Shl => BinOp::Shl,
            TirBinOp::Add => BinOp::Add,
            TirBinOp::Sub => BinOp::Sub,
            TirBinOp::Mul => BinOp::Mul,
            TirBinOp::Div => BinOp::Div,
            TirBinOp::Mod => BinOp::Mod,
        }
    }
}

impl vstd::std_specs::convert::FromSpecImpl<TirBinOp> for BinOp {
    open spec fn obeys_from_spec() -> bool {
        true
    }

    open spec fn from_spec(v: TirBinOp) -> Self {
        bin_op_of(v)
    }
}

/// The binary operator that a comparison intrinsic stands for.
pub open spec fn cond_bin_op_of(value: TirCondBinOp) -> BinOp {
    match value {
        TirCondBinOp::EqEq => BinOp::Eq,
        TirCondBinOp::NotEq => BinOp::Neq,
        TirCondBinOp::Gt => BinOp::Gt,
        TirCondBinOp::GtEq => BinOp::GtEq,
        TirCondBinOp::Lt => BinOp::Lt,
        TirCondBinOp::LtEq => BinOp::LtEq,
    }
}

impl From<TirCondBinOp> for BinOp {
    fn from(value: TirCondBinOp) -> (r: Self) {
        match value {
            TirCondBinOp::EqEq => BinOp::Eq,
            TirCondBinOp::NotEq => BinOp::Neq,
            TirCondBinOp::Gt => BinOp::Gt,
            TirCondBinOp::GtEq => BinOp::GtEq,
            TirCondBinOp::Lt => BinOp::Lt,
            TirCondBinOp::LtEq => BinOp::LtEq,
        }
    }
}

impl vstd::std_specs::convert::FromSpecImpl<TirCondBinOp> for BinOp {
    open spec fn obeys_from_spec() -> bool {
        true
    }

    open spec fn from_spec(v: TirCondBinOp) -> Self {
        cond_bin_op_of(v)
    }
}

impl BinOp {
    /// The symbol of the operator, as it is written in source code.
    pub fn as_str(&self) -> (r: &'static str)
        ensures
            r@ == match *self {
                BinOp::Eq => "=="@,
                BinOp::Neq => "!="@,
                BinOp::BitOr => "|"@,
                BinOp::BitAnd => "&"@,
                BinOp::BitXor => "^"@,
                BinOp::Exp => "**"@,
                BinOp::Gt => ">"@,
                BinOp::GtEq => ">="@,
                BinOp::Lt => "<"@,
                BinOp::LtEq => "<="@,
                BinOp::Shr => ">>"@,
                BinOp::Shl => "<<"@,
                BinOp::Add => "+"@,
                BinOp::Sub => "-"@,
                BinOp::Mul => "*"@,
                BinOp::Div => "/"@,
                BinOp::Mod => "%"@,
            },
    {
        match self {
            BinOp::Eq => "==",
            BinOp::Neq => "!=",
            BinOp::BitOr => "|",
            BinOp::BitAnd => "&",
            BinOp::BitXor => "^",
            BinOp::Exp => "**",
            BinOp::Gt => ">",
            BinOp::GtEq => ">=",
            BinOp::Lt => "<",
            BinOp::LtEq => "<=",
            BinOp::Shr => ">>",
            BinOp::Shl => "<<",
            BinOp::Add => "+",
            BinOp::Sub => "-",
            BinOp::Mul => "*",
            BinOp::Div => "/",
            BinOp::Mod => "%",
        }
    }

    /// The operators that can be "checked" for overflow.
    pub open spec fn spec_is_checkable(self) -> bool {
        self is Add || self is Sub || self is Mul || self is Shl || self is Shr
    }

    /// The comparison operators.
    pub open spec fn spec_is_comparator(self) -> bool {
        self is Eq || self is Neq || self is Gt || self is GtEq || self is Lt || self is LtEq
    }

    /// The operators whose operands must share their type, which is also the
    /// type of the result.
    pub open spec fn is_homogeneous(self) -> bool {
        !self.spec_is_comparator() && !(self is Shl) && !(self is Shr)
    }

    /// The type of the result of the operator on operands of the given types.
    pub open spec fn spec_ty(self, lhs: IrTyId, rhs: IrTyId) -> IrTyId {
        if self.spec_is_comparator() {
            spec_common_ir_tys().bool_ty
        } else {
            lhs
        }
    }

    /// Returns whether the [BinOp] can be "checked".
    pub fn is_checkable(&self) -> (r: bool)
        ensures
            r == self.spec_is_checkable(),
    {
        match self {
            BinOp::Add | BinOp::Sub | BinOp::Mul | BinOp::Shl | BinOp::Shr => true,
            _ => false,
        }
    }

    /// Check if the [BinOp] is a comparator.
    pub fn is_comparator(&self) -> (r: bool)
        ensures
            r == self.spec_is_comparator(),
    {
        match self {
            BinOp::Eq | BinOp::Neq | BinOp::Gt | BinOp::GtEq | BinOp::Lt | BinOp::LtEq => true,
            _ => false,
        }
    }

    /// Compute the type of the operator when applied to operands of the
    /// given types. Arithmetic and bitwise operators need operands of one
    /// type; shifts take the type of `lhs`; comparisons yield `bool`.
    pub fn ty(&self, lhs: IrTyId, rhs: IrTyId) -> (r: IrTyId)
        requires
            self.is_homogeneous() ==> lhs == rhs,
        ensures
            r == self.spec_ty(lhs, rhs),
    {
        match self {
            BinOp::BitOr
            | BinOp::BitAnd
            | BinOp::BitXor
            | BinOp::Div
            | BinOp::Sub
            | BinOp::Mod
            | BinOp::Add
            | BinOp::Mul
            | BinOp::Exp => lhs,
            BinOp::Shr | BinOp::Shl => lhs,
            BinOp::Eq | BinOp::Neq | BinOp::Gt | BinOp::GtEq | BinOp::Lt | BinOp::LtEq => {
                common_ir_tys().bool_ty
            },
        }
    }

    /// The textual form of the operator.
    pub open spec fn spec_symbol(self) -> Seq<char> {
        match self {
            BinOp::Eq => "=="@,
            BinOp::Neq => "!="@,
            BinOp::BitOr => "|"@,
            BinOp::BitAnd => "&"@,
            BinOp::BitXor => "^"@,
            BinOp::Exp => "**"@,
            BinOp::Gt => ">"@,
            BinOp::GtEq => ">="@,
            BinOp::Lt => "<"@,
            BinOp::LtEq => "<="@,
            BinOp::Shr => ">>"@,
            BinOp::Shl => "<<"@,
            BinOp::Add => "+"@,
            BinOp::Sub => "-"@,
            BinOp::Mul => "*"@,
            BinOp::Div => "/"@,
            BinOp::Mod => "%"@,
        }
    }

    /// The textual form of the operator, as it is displayed.
    pub fn to_str(&self) -> (r: &'static str)
        ensures
            r@ == self.spec_symbol(),
    {
        match self {
            BinOp::Eq => "==",
            BinOp::Neq => "!=",
            BinOp::BitOr => "|",
            BinOp::BitAnd => "&",
            BinOp::BitXor => "^",
            BinOp::Exp => "**",
            BinOp::Gt => ">",
            BinOp::GtEq => ">=",
            BinOp::Lt => "<",
            BinOp::LtEq => "<=",
            BinOp::Shr => ">>",
            BinOp::Shl => "<<",
            BinOp::Add => "+",
            BinOp::Sub => "-",
            BinOp::Mul => "*",
            BinOp::Div => "/",
            BinOp::Mod => "%",
        }
    }
}

/// Describes what kind of local something is, whether it is generated by
/// the compiler, or a user variable.
#[derive(Debug, PartialEq, Eq, Clone, Copy, Structural)]
pub enum LocalKind {
    /// The return local place of a function.
    Return,
    /// An argument to the function body.
    Arg,
    /// A local variable that is defined within the function body by the user.
    Var,
    /// A local variable that is generated as a temporary variable during the
    /// lowering process.
    Temp,
}

/// Index of a local declaration within a lowered body.
#[derive(Debug, Clone, Copy, PartialEq, Eq, Structural)]
pub struct Local(pub u32);

/// Index of a basic block within a lowered body.
#[derive(Debug, Clone, Copy, PartialEq, Eq, Structural)]
pub struct BasicBlock(pub u32);

/// `0` is used as the starting block of any lowered body.
pub const START_BLOCK_INDEX: u32 = 0;

/// `0` is used as the return place of any lowered body.
pub const RETURN_PLACE_INDEX: u32 = 0;

impl BasicBlock {
    /// Create an [IrRef] to the start of this [BasicBlock].
    pub fn ref_to_start(self) -> (r: IrRef)
        ensures
            r == (IrRef { block: self, index: 0 }),
    {
        IrRef { block: self, index: 0 }
    }
}

/// Essentially a register for a value: a local declaration with a
/// [Mutability], a type and, where known, a name.
#[derive(Clone, Copy, Debug, PartialEq, Eq, Structural)]
pub struct LocalDecl {
    /// Mutability of the local.
    pub mutability: Mutability,
    /// The type of the local.
    pub ty: IrTyId,
    /// An optional name for the local.
    pub name: Option<Identifier>,
    /// Whether the local declaration is an auxiliary one, created to store
    /// temporary results during lowering.
    pub auxiliary: bool,
}

impl LocalDecl {
    /// Whether the local is an auxiliary.
    pub open spec fn spec_auxiliary(self) -> bool {
        self.auxiliary
    }

    /// Create a new named, non-auxiliary [LocalDecl].
    pub fn new(name: Identifier, mutability: Mutability, ty: IrTyId) -> (r: Self)
        ensures
            r.mutability == mutability,
            r.ty == ty,
            r.name == Some(name),
            !r.spec_auxiliary(),
    {
        Self { mutability, ty, name: Some(name), auxiliary: false }
    }

    /// Create a new mutable [LocalDecl].
    pub fn new_mutable(name: Identifier, ty: IrTyId) -> (r: Self)
        ensures
            r.mutability == Mutability::Mutable,
            r.ty == ty,
            r.name == Some(name),
            !r.spec_auxiliary(),
    {
        Self::new(name, Mutability::Mutable, ty)
    }

    /// Create a new immutable [LocalDecl].
    pub fn new_immutable(name: Identifier, ty: IrTyId) -> (r: Self)
        ensures
            r.mutability == Mutability::Immutable,
            r.ty == ty,
            r.name == Some(name),
            !r.spec_auxiliary(),
    {
        Self::new(name, Mutability::Immutable, ty)
    }

    /// Create a new unnamed auxiliary [LocalDecl].
    pub fn new_auxiliary(ty: IrTyId, mutability: Mutability) -> (r: Self)
        ensures
            r.mutability == mutability,
            r.ty == ty,
            r.name is None,
            r.spec_auxiliary(),
    {
        Self { mutability, ty, name: None, auxiliary: true }
    }

    /// Returns the type of the local.
    pub fn ty(&self) -> (r: IrTyId)
        ensures
            r == self.ty,
    {
        self.ty
    }

    /// Returns the [Mutability] of the local.
    pub fn mutability(&self) -> (r: Mutability)
        ensures
            r == self.mutability,
    {
        self.mutability
    }

    /// Returns the name of the local.
    pub fn name(&self) -> (r: Option<Identifier>)
        ensures
            r == self.name,
    {
        self.name
    }

    /// Is the local an auxiliary?
    pub fn auxiliary(&self) -> (r: bool)
        ensures
            r == self.auxiliary,
    {
        self.auxiliary
    }
}

/// A projection applied onto a place.
#[derive(Debug, PartialEq, Eq, Clone, Copy, Structural)]
pub enum PlaceProjection {
    /// Narrow a union type down to some specific variant.
    Downcast(VariantIdx),
    /// A reference to a specific field within the place.
    Field(usize),
    /// Take the index of some specific place.
    Index(Local),
    /// An index whose offset is known, used for slice patterns.
    ConstantIndex {
        /// The index of the constant index.
        offset: usize,
        /// If the index is referencing from the end of the slice.
        from_end: bool,
        /// The minimum length of the slice that this is referencing.
        min_length: usize,
    },
    /// A sub-slice of the original slice.
    SubSlice {
        /// The initial offset of where the slice is referencing from.
        from: usize,
        /// To which index the slice is referencing to.
        to: usize,
        /// Whether `to` counts from the end of the slice.
        from_end: bool,
    },
    /// Dereference the place.
    Deref,
}

/// A key to a sequence of projections in a [Projections] store: the
/// position of its first element and its length.
#[derive(Debug, PartialEq, Eq, Clone, Copy, Structural)]
pub struct ProjectionId {
    pub index: usize,
    pub len: usize,
}

impl ProjectionId {
    /// The key of the empty sequence of projections.
    pub fn empty() -> (r: Self)
        ensures
            r.len == 0,
            r.index == 0,
    {
        ProjectionId { index: 0, len: 0 }
    }

    /// Whether the key refers to an empty sequence.
    pub fn is_empty(&self) -> (r: bool)
        ensures
            r == (self.len == 0),
    {
        self.len == 0
    }
}

/// The interned projections of a body: each sequence is stored contiguously.
#[derive(Debug, Clone)]
pub struct Projections {
    pub data: Vec<PlaceProjection>,
}

impl Projections {
    /// Whether `id` refers to a sequence within the store.
    pub open spec fn contains_id(&self, id: ProjectionId) -> bool {
        id.index + id.len <= self.data@.len()
    }

    /// The projections that `id` refers to.
    pub open spec fn spec_get(&self, id: ProjectionId) -> Seq<PlaceProjection> {
        self.data@.subrange(id.index as int, id.index + id.len)
    }

    /// Create an empty store.
    pub fn new() -> (r: Self)
        ensures
            r.data@ == Seq::<PlaceProjection>::empty(),
    {
        Projections { data: Vec::new() }
    }

    /// Copy out the projections that `id` refers to.
    pub fn get_vec(&self, id: ProjectionId) -> (r: Vec<PlaceProjection>)
        requires
            self.contains_id(id),
        ensures
            r@ == self.spec_get(id),
    {
        let mut out: Vec<PlaceProjection> = Vec::new();
        let data_len = self.data.len();
        let mut i: usize = 0;
        while i < id.len
            invariant
                i <= id.len,
                data_len == self.data@.len(),
                self.contains_id(id),
                out@ == self.data@.subrange(id.index as int, id.index + i),
            decreases id.len - i,
        {
            out.push(self.data[id.index + i]);
            i = i + 1;
        }
        out
    }

    /// Intern a new sequence of projections, returning its key. Earlier
    /// sequences are unchanged.
    pub fn create_from_vec(&mut self, items: Vec<PlaceProjection>) -> (r: ProjectionId)
        requires
            old(self).data@.len() + items@.len() <= usize::MAX,
        ensures
            final(self).contains_id(r),
            final(self).spec_get(r) == items@,
            final(self).data@.subrange(0, old(self).data@.len() as int) == old(self).data@,
    {
        let start: usize = self.data.len();
        let mut i: usize = 0;
        while i < items.len()
            invariant
                start == old(self).data@.len(),
                start + items@.len() <= usize::MAX,
                i <= items@.len(),
                self.data@ == old(self).data@ + items@.subrange(0, i as int),
            decreases items@.len() - i,
        {
            self.data.push(items[i]);
            i = i + 1;
        }
        assert(self.data@ == old(self).data@ + items@);
        assert(self.data@.subrange(start as int, start + items@.len()) == items@);
        assert(self.data@.subrange(0, start as int) == old(self).data@);
        ProjectionId { index: start, len: items.len() }
    }
}

/// A memory location within the body, backed by a [Local] and narrowed by
/// projections.
#[derive(Debug, PartialEq, Eq, Clone, Copy, Structural)]
pub struct Place {
    /// The local that this place is referring to.
    pub local: Local,
    /// Projections applied onto the local.
    pub projections: ProjectionId,
}

impl Place {
    /// Create a [Place] that points to the return place of a lowered body.
    pub fn return_place() -> (r: Self)
        ensures
            r.local == Local(RETURN_PLACE_INDEX),
            r.projections == (ProjectionId { index: 0, len: 0 }),
    {
        Self { local: Local(RETURN_PLACE_INDEX), projections: ProjectionId::empty() }
    }

    /// Create a new [Place] from a [Local] with no projections.
    pub fn from_local(local: Local) -> (r: Self)
        ensures
            r.local == local,
            r.projections.len == 0,
    {
        Self { local, projections: ProjectionId::empty() }
    }

    /// Create a new [Place] from this one with a dereference appended to
    /// its projections.
    pub fn deref(&self, store: &mut Projections) -> (r: Self)
        requires
            old(store).contains_id(self.projections),
            old(store).data@.len() + self.projections.len + 1 <= usize::MAX,
        ensures
            r.local == self.local,
            final(store).contains_id(r.projections),
            final(store).spec_get(r.projections)
                == old(store).spec_get(self.projections).push(PlaceProjection::Deref),
            final(store).data@.subrange(0, old(store).data@.len() as int) == old(store).data@,
    {
        let mut projections = store.get_vec(self.projections);
        projections.push(PlaceProjection::Deref);
        Self { local: self.local, projections: store.create_from_vec(projections) }
    }

    /// Create a new [Place] from this one with a field access appended to
    /// its projections.
    pub fn field(&self, field: usize, store: &mut Projections) -> (r: Self)
        requires
            old(store).contains_id(self.projections),
            old(store).data@.len() + self.projections.len + 1 <= usize::MAX,
        ensures
            r.local == self.local,
            final(store).contains_id(r.projections),
            final(store).spec_get(r.projections)
                == old(store).spec_get(self.projections).push(PlaceProjection::Field(field)),
            final(store).data@.subrange(0, old(store).data@.len() as int) == old(store).data@,
    {
        let mut projections = store.get_vec(self.projections);
        projections.push(PlaceProjection::Field(field));
        Self { local: self.local, projections: store.create_from_vec(projections) }
    }

    /// Examine a [Place] as a [Local], provided it has no projections.
    pub fn as_local(&self) -> (r: Option<Local>)
        ensures
            r == (if self.projections.len == 0 { Some(self.local) } else { None::<Local> }),
    {
        if self.projections.is_empty() {
            Some(self.local)
        } else {
            None
        }
    }
}

/// The initialisation of an aggregate: a tuple, array, enum or struct.
#[derive(Debug, PartialEq, Eq, Clone, Copy, Structural)]
pub enum AggregateKind {
    /// A tuple value initialisation.
    Tuple(AdtId),
    /// An array initialisation; this is the type of the whole array.
    Array(IrTyId),
    /// An enum variant initialisation.
    Enum(AdtId, VariantIdx),
    /// A struct initialisation.
    Struct(AdtId),
}

impl AggregateKind {
    /// Check if the [AggregateKind] represents an ADT.
    pub fn is_adt(&self) -> (r: bool)
        ensures
            r == !(self is Array),
    {
        match self {
            AggregateKind::Array(_) => false,
            _ => true,
        }
    }

    /// The ADT of an aggregate kind that is one; arrays have none.
    pub open spec fn spec_adt_id(self) -> AdtId
        recommends
            !(self is Array),
    {
        match self {
            AggregateKind::Tuple(id) => id,
            AggregateKind::Enum(id, _) => id,
            AggregateKind::Struct(id) => id,
            AggregateKind::Array(_) => AdtId(0),
        }
    }

    /// Get the [AdtId] of the [AggregateKind]; it must be an ADT.
    pub fn adt_id(&self) -> (r: AdtId)
        requires
            !(*self is Array),
        ensures
            r == self.spec_adt_id(),
    {
        match self {
            AggregateKind::Tuple(id) | AggregateKind::Enum(id, _) | AggregateKind::Struct(id) => {
                *id
            },
            AggregateKind::Array(_) => AdtId(0),
        }
    }
}

/// An operand: a constant or a place.
#[derive(Debug, Clone, PartialEq, Eq, Copy, Structural)]
pub enum Operand {
    /// A constant value.
    Const(Const),
    /// A place that is being used.
    Place(Place),
}

impl Operand {
    /// An operand holding a constant.
    pub fn from_const(constant: Const) -> (r: Self)
        ensures
            r == Operand::Const(constant),
    {
        Operand::Const(constant)
    }

    /// An operand reading a place.
    pub fn from_place(place: Place) -> (r: Self)
        ensures
            r == Operand::Place(place),
    {
        Operand::Place(place)
    }
}

/// The values that occur on the right-hand side of an assignment.
#[derive(Debug, PartialEq, Eq, Clone)]
pub enum RValue {
    /// Some value that is being used. Could be a constant or a place.
    Use(Operand),
    /// Compiler intrinsic operation.
    ConstOp(ConstOp, IrTyId),
    /// A unary expression with a unary operator.
    UnaryOp(UnaryOp, Operand),
    /// A binary expression.
    BinaryOp(BinOp, Box<(Operand, Operand)>),
    /// A checked binary expression, yielding the result and an overflow flag.
    CheckedBinaryOp(BinOp, Box<(Operand, Operand)>),
    /// A cast of the operand to the given type.
    Cast(CastKind, Operand, IrTyId),
    /// The length of a place, yielding a `usize`.
    Len(Place),
    /// Taking the address of a place.
    Ref(Mutability, Place, RefKind),
    /// Initialising aggregate data structures.
    Aggregate(AggregateKind, Vec<Operand>),
    /// An array of a repeated operand: `[x; 5]`.
    Repeat(Operand, usize),
    /// The discriminant of a place.
    Discriminant(Place),
}

impl RValue {
    /// An r-value using a constant.
    pub fn from_const(constant: Const) -> (r: Self)
        ensures
            r == RValue::Use(Operand::Const(constant)),
    {
        RValue::Use(Operand::Const(constant))
    }

    /// An r-value reading a place.
    pub fn from_place(place: Place) -> (r: Self)
        ensures
            r == RValue::Use(Operand::Place(place)),
    {
        RValue::Use(Operand::Place(place))
    }

    /// An r-value using an operand.
    pub fn from_operand(operand: Operand) -> (r: Self)
        ensures
            r == RValue::Use(operand),
    {
        RValue::Use(operand)
    }

    /// Whether the r-value is the use of a constant.
    pub open spec fn spec_is_const(&self) -> bool {
        &&& *self is Use
        &&& self->Use_0 is Const
    }

    /// Check if an [RValue] is a constant.
    pub fn is_const(&self) -> (r: bool)
        ensures
            r == self.spec_is_const(),
    {
        match self {
            RValue::Use(Operand::Const(_)) => true,
            _ => false,
        }
    }

    /// Convert the RValue into a constant; it must be one.
    pub fn as_const(&self) -> (r: Const)
        requires
            self.spec_is_const(),
        ensures
            *self == RValue::Use(Operand::Const(r)),
    {
        match self {
            RValue::Use(Operand::Const(c)) => *c,
            _ => {
                proof {
                    assert(false);
                }
                Const { ty: IrTyId(0), data: 0 }
            },
        }
    }
}

/// A defined statement within the IR.
#[derive(Debug, PartialEq, Eq, Clone)]
pub enum StatementKind {
    /// Filler kind when expressions are optimised out.
    Nop,
    /// An assignment of a right hand-side to a place.
    Assign(Place, RValue),
    /// Set the discriminant on a particular place.
    Discriminate(Place, VariantIdx),
    /// A local is now "live".
    Live(Local),
    /// A local is now "dead".
    Dead(Local),
}

/// A transformation step within a [BasicBlock].
#[derive(Debug, PartialEq, Eq, Clone)]
pub struct Statement {
    /// The kind of statement.
    pub kind: StatementKind,
    /// The location of the statement.
    pub origin: AstNodeId,
}

/// The kind of assert terminator that it is.
#[derive(Debug, PartialEq, Eq, Clone, Copy, Structural)]
pub enum AssertKind {
    /// A division by zero assertion.
    DivisionByZero { operand: Operand },
    /// Taking the remainder of some operand with zero.
    RemainderByZero { operand: Operand },
    /// An arithmetic operation has overflowed.
    Overflow {
        /// The operation that is being performed.
        op: BinOp,
        /// The left hand-side operand in the operation.
        lhs: Operand,
        /// The right hand-side operand in the operation.
        rhs: Operand,
    },
    /// Negation has overflowed.
    NegativeOverflow { operand: Operand },
    /// Bounds check assertion.
    BoundsCheck {
        /// The length of the array that is being checked.
        len: Operand,
        /// The index that is being checked.
        index: Operand,
    },
}

impl AssertKind {
    /// The assertions that have a message: overflow assertions exist only
    /// for the arithmetic and shift operators.
    pub open spec fn has_message(self) -> bool {
        match self {
            AssertKind::Overflow { op, .. } => op is Add || op is Sub || op is Mul || op is Div
                || op is Mod || op is Shl || op is Shr,
            _ => true,
        }
    }

    /// The message of an assertion.
    pub open spec fn spec_message(self) -> Seq<char> {
        match self {
            AssertKind::Overflow { op, .. } => match op {
                BinOp::Add => "attempt to add with overflow\n"@,
                BinOp::Sub => "attempt to subtract with overflow\n"@,
                BinOp::Mul => "attempt to multiply with overflow\n"@,
                BinOp::Div => "attempt to divide with overflow\n"@,
                BinOp::Mod => "attempt to calculate the remainder with overflow"@,
                BinOp::Shl => "attempt to shift left with overflow\n"@,
                BinOp::Shr => "attempt to shift right with overflow\n"@,
                _ => Seq::<char>::empty(),
            },
            AssertKind::DivisionByZero { .. } => "attempt to divide by zero\n"@,
            AssertKind::RemainderByZero { .. } => "attempt to take remainder with a divisor of zero\n"@,
            AssertKind::NegativeOverflow { .. } => "attempt to negate with overflow\n"@,
            AssertKind::BoundsCheck { .. } => "attempt to index array out of bounds\n"@,
        }
    }

    /// A general message of what the assertion is checking, used within the
    /// executable for when the assertion is triggered.
    pub fn message(&self) -> (r: &'static str)
        requires
            self.has_message(),
        ensures
            r@ == self.spec_message(),
    {
        match self {
            AssertKind::Overflow { op, .. } => match op {
                BinOp::Add => "attempt to add with overflow\n",
                BinOp::Sub => "attempt to subtract with overflow\n",
                BinOp::Mul => "attempt to multiply with overflow\n",
                BinOp::Div => "attempt to divide with overflow\n",
                BinOp::Mod => "attempt to calculate the remainder with overflow",
                BinOp::Shl => "attempt to shift left with overflow\n",
                BinOp::Shr => "attempt to shift right with overflow\n",
                _ => {
                    proof {
                        assert(false);
                    }
                    ""
                },
            },
            AssertKind::DivisionByZero { .. } => "attempt to divide by zero\n",
            AssertKind::RemainderByZero { .. } => "attempt to take remainder with a divisor of zero\n",
            AssertKind::NegativeOverflow { .. } => "attempt to negate with overflow\n",
            AssertKind::BoundsCheck { .. } => "attempt to index array out of bounds\n",
        }
    }
}


/// A control-flow edge replacement on a sequence of blocks.
pub open spec fn replace_block(s: Seq<BasicBlock>, successor: BasicBlock, replacement: BasicBlock) -> Seq<BasicBlock> {
    Seq::new(s.len(), |i: int| if s[i] == successor { replacement } else { s[i] })
}

/// All of the targets that a [TerminatorKind::Switch] can jump to: a jump
/// table of values and blocks, and an optional fallback block.
#[derive(Debug, PartialEq, Eq)]
pub struct SwitchTargets {
    /// The values of the jump table; all values are distinct.
    pub values: SwitchValues,
    /// The blocks of the jump table; `targets[i]` is taken on `values[i]`.
    pub targets: SwitchBlocks,
    /// If none of the values match, jump to this block. [None] if the
    /// switch is exhaustive.
    pub otherwise: Option<BasicBlock>,
}

impl SwitchTargets {
    /// The values of the jump table.
    pub open spec fn values_view(&self) -> Seq<u128> {
        switch_values_of(self.values)
    }

    /// The blocks of the jump table.
    pub open spec fn targets_view(&self) -> Seq<BasicBlock> {
        switch_blocks_of(self.targets)
    }

    /// The jump table has one block per value.
    pub open spec fn wf(&self) -> bool {
        self.values_view().len() == self.targets_view().len()
    }

    /// The block that the switch jumps to on `value`: the block of the first
    /// table entry with that value, else the fallback block.
    pub open spec fn jumps_to(&self, value: u128, block: BasicBlock) -> bool {
        if exists|k: int| 0 <= k < self.values_view().len() && self.values_view()[k] == value {
            exists|k: int|
                0 <= k < self.values_view().len() && self.values_view()[k] == value && (forall|j: int|
                    0 <= j < k ==> self.values_view()[j] != value) && block == self.targets_view()[k]
        } else {
            self.otherwise == Some(block)
        }
    }

    /// Create a new [SwitchTargets] with the specified jump table and an
    /// optional otherwise block.
    pub fn new(table: Vec<(u128, BasicBlock)>, otherwise: Option<BasicBlock>) -> (r: Self)
        ensures
            r.wf(),
            r.values_view() == table@.map_values(|e: (u128, BasicBlock)| e.0),
            r.targets_view() == table@.map_values(|e: (u128, BasicBlock)| e.1),
            r.otherwise == otherwise,
    {
        let mut values = values_new();
        let mut targets = blocks_new();
        let mut i: usize = 0;
        while i < table.len()
            invariant
                i <= table@.len(),
                switch_values_of(values) == table@.subrange(0, i as int).map_values(
                    |e: (u128, BasicBlock)| e.0,
                ),
                switch_blocks_of(targets) == table@.subrange(0, i as int).map_values(
                    |e: (u128, BasicBlock)| e.1,
                ),
            decreases table@.len() - i,
        {
            let (v, b) = table[i];
            proof {
                assert(table@.subrange(0, i + 1) == table@.subrange(0, i as int).push(table@[i as int]));
            }
            values_push(&mut values, v);
            blocks_push(&mut targets, b);
            i = i + 1;
        }
        proof {
            assert(table@.subrange(0, table@.len() as int) == table@);
        }
        Self { values, targets, otherwise }
    }

    /// Check if there is an `otherwise` block.
    pub fn has_otherwise(&self) -> (r: bool)
        ensures
            r == self.otherwise is Some,
    {
        self.otherwise.is_some()
    }

    /// Get the `otherwise` block to jump to unconditionally; it must exist.
    pub fn otherwise(&self) -> (r: BasicBlock)
        requires
            self.otherwise is Some,
        ensures
            Some(r) == self.otherwise,
    {
        self.otherwise.unwrap()
    }

    /// All of the associated targets: the fallback block first, if any, then
    /// the blocks of the jump table.
    pub open spec fn spec_all_targets(&self) -> Seq<BasicBlock> {
        match self.otherwise {
            Some(b) => seq![b] + self.targets_view(),
            None => self.targets_view(),
        }
    }

    /// Iterate all of the associated targets.
    pub fn iter_targets(&self) -> (r: Vec<BasicBlock>)
        ensures
            r@ == self.spec_all_targets(),
    {
        let mut out: Vec<BasicBlock> = Vec::new();
        if let Some(b) = self.otherwise {
            out.push(b);
        }
        let n = blocks_len(&self.targets);
        let ghost prefix = out@;
        let mut i: usize = 0;
        while i < n
            invariant
                n == self.targets_view().len(),
                i <= n,
                prefix.len() <= 1,
                out@ == prefix + self.targets_view().subrange(0, i as int),
            decreases n - i,
        {
            out.push(blocks_get(&self.targets, i));
            proof {
                assert(self.targets_view().subrange(0, i + 1) == self.targets_view().subrange(
                    0,
                    i as int,
                ).push(self.targets_view()[i as int]));
            }
            i = i + 1;
        }
        proof {
            assert(self.targets_view().subrange(0, n as int) == self.targets_view());
        }
        out
    }

    /// Replace a successor with another [BasicBlock], in the jump table and
    /// in the fallback.
    pub fn replace_edge(&mut self, successor: BasicBlock, replacement: BasicBlock)
        ensures
            final(self).values == old(self).values,
            final(self).targets_view() == replace_block(old(self).targets_view(), successor, replacement),
            final(self).otherwise == (if old(self).otherwise == Some(successor) {
                Some(replacement)
            } else {
                old(self).otherwise
            }),
    {
        let n = blocks_len(&self.targets);
        let mut i: usize = 0;
        while i < n
            invariant
                n == old(self).targets_view().len(),
                i <= n,
                self.values == old(self).values,
                self.otherwise == old(self).otherwise,
                self.targets_view().len() == n,
                forall|k: int|
                    0 <= k < i ==> self.targets_view()[k] == replace_block(
                        old(self).targets_view(),
                        successor,
                        replacement,
                    )[k],
                forall|k: int| i <= k < n ==> self.targets_view()[k] == old(self).targets_view()[k],
            decreases n - i,
        {
            if blocks_get(&self.targets, i) == successor {
                blocks_set(&mut self.targets, i, replacement);
            }
            i = i + 1;
        }
        assert(self.targets_view() =~= replace_block(old(self).targets_view(), successor, replacement));
        if let Some(otherwise) = self.otherwise {
            if otherwise == successor {
                self.otherwise = Some(replacement);
            }
        }
    }

    /// Iterate over the pairs of the jump table.
    pub fn iter(&self) -> (r: SwitchTargetsIter)
        requires
            self.wf(),
        ensures
            r.pos == 0,
            r.pairs@.len() == self.values_view().len(),
            forall|k: int|
                0 <= k < r.pairs@.len() ==> r.pairs@[k] == (
                self.values_view()[k],
                self.targets_view()[k],
            ),
    {
        let n = values_len(&self.values);
        let mut pairs: Vec<(u128, BasicBlock)> = Vec::new();
        let mut i: usize = 0;
        while i < n
            invariant
                self.wf(),
                n == self.values_view().len(),
                i <= n,
                pairs@.len() == i,
                forall|k: int|
                    0 <= k < i ==> pairs@[k] == (self.values_view()[k], self.targets_view()[k]),
            decreases n - i,
        {
            pairs.push((values_get(&self.values, i), blocks_get(&self.targets, i)));
            i = i + 1;
        }
        SwitchTargetsIter { pairs, pos: 0 }
    }

    /// Find the target for a specific value: the block of the first table
    /// entry with that value, else the fallback block, which must then exist.
    pub fn corresponding_target(&self, value: u128) -> (r: BasicBlock)
        requires
            self.wf(),
            (exists|k: int| 0 <= k < self.values_view().len() && self.values_view()[k] == value)
                || self.otherwise is Some,
        ensures
            self.jumps_to(value, r),
    {
        let n = values_len(&self.values);
        let mut i: usize = 0;
        while i < n
            invariant
                self.wf(),
                n == self.values_view().len(),
                i <= n,
                forall|j: int| 0 <= j < i ==> self.values_view()[j] != value,
            decreases n - i,
        {
            if values_get(&self.values, i) == value {
                let b = blocks_get(&self.targets, i);
                proof {
                    assert(self.values_view()[i as int] == value);
                }
                return b;
            }
            i = i + 1;
        }
        self.otherwise()
    }
}

/// An iterator over the pairs of a jump table.
pub struct SwitchTargetsIter {
    pub pairs: Vec<(u128, BasicBlock)>,
    pub pos: usize,
}

impl SwitchTargetsIter {
    /// The next pair of the jump table, if any remain.
    pub fn next(&mut self) -> (r: Option<(u128, BasicBlock)>)
        ensures
            final(self).pairs == old(self).pairs,
            old(self).pos < old(self).pairs@.len() ==> r == Some(old(self).pairs@[old(self).pos as int])
                && final(self).pos == old(self).pos + 1,
            old(self).pos >= old(self).pairs@.len() ==> r is None && final(self).pos == old(self).pos,
    {
        if self.pos < self.pairs.len() {
            let p = self.pairs[self.pos];
            self.pos = self.pos + 1;
            Some(p)
        } else {
            None
        }
    }

    /// The exact number of remaining pairs, as lower and upper bound.
    pub fn size_hint(&self) -> (r: (usize, Option<usize>))
        ensures
            self.pos <= self.pairs@.len() ==> r == (
                (self.pairs@.len() - self.pos) as usize,
                Some((self.pairs@.len() - self.pos) as usize),
            ),
            self.pos > self.pairs@.len() ==> r == (0usize, Some(0usize)),
    {
        let rem: usize = if self.pos <= self.pairs.len() {
            self.pairs.len() - self.pos
        } else {
            0
        };
        (rem, Some(rem))
    }
}

/// The kind of [Terminator] that it is.
#[derive(Debug, PartialEq, Eq)]
pub enum TerminatorKind {
    /// A simple go to block directive.
    Goto(BasicBlock),
    /// Return from the parent function.
    Return,
    /// Perform a function call.
    Call {
        /// The function that is being called.
        op: Operand,
        /// Arguments to the function.
        args: Vec<Operand>,
        /// Destination of the result.
        destination: Place,
        /// Where to return after completing the call.
        target: Option<BasicBlock>,
    },
    /// This terminator should never be reached.
    Unreachable,
    /// A jump on the value of an operand.
    Switch {
        /// The value to use when comparing against the cases.
        value: Operand,
        /// All of the targets that are defined for the particular switch.
        targets: SwitchTargets,
    },
    /// Verify that `condition` equals `expected`, and continue at `target`.
    Assert {
        /// The condition that is to be checked.
        condition: Operand,
        /// What the assert terminator expects the `condition` to be.
        expected: bool,
        /// What the assertion verifies.
        kind: Box<AssertKind>,
        /// Where the program continues when the condition holds.
        target: BasicBlock,
    },
}

impl TerminatorKind {
    /// A switch emulating an `if`: on `false` (zero) it jumps to
    /// `false_block`, otherwise to `true_block`.
    pub fn make_if(value: Operand, true_block: BasicBlock, false_block: BasicBlock) -> (r: Self)
        ensures
            r is Switch,
            r->Switch_value == value,
            r->Switch_targets.wf(),
            r->Switch_targets.values_view() == seq![0u128],
            r->Switch_targets.targets_view() == seq![false_block],
            r->Switch_targets.otherwise == Some(true_block),
    {
        let mut table: Vec<(u128, BasicBlock)> = Vec::new();
        table.push((0u128, false_block));
        let targets = SwitchTargets::new(table, Some(true_block));
        proof {
            assert(table@.map_values(|e: (u128, BasicBlock)| e.0) =~= seq![0u128]);
            assert(table@.map_values(|e: (u128, BasicBlock)| e.1) =~= seq![false_block]);
        }
        TerminatorKind::Switch { value, targets }
    }

    /// The blocks that control may flow to after this terminator.
    pub open spec fn spec_successors(&self) -> Seq<BasicBlock> {
        match self {
            TerminatorKind::Goto(t) => seq![*t],
            TerminatorKind::Call { target, .. } => match target {
                Some(t) => seq![*t],
                None => Seq::empty(),
            },
            TerminatorKind::Assert { target, .. } => seq![*target],
            TerminatorKind::Switch { targets, .. } => targets.spec_all_targets(),
            _ => Seq::empty(),
        }
    }
}

/// Whether the terminator can hand control to block `b`: the target of a
/// goto, the return block of a call, the continuation of an assertion, and
/// each block of a switch's table and its fallback.
pub open spec fn transfers_to(kind: TerminatorKind, b: BasicBlock) -> bool {
    match kind {
        TerminatorKind::Goto(t) => b == t,
        TerminatorKind::Call { target, .. } => target == Some(b),
        TerminatorKind::Assert { target, .. } => b == target,
        TerminatorKind::Switch { targets, .. } => targets.otherwise == Some(b) || exists|k: int|
            0 <= k < targets.targets_view().len() && targets.targets_view()[k] == b,
        TerminatorKind::Return | TerminatorKind::Unreachable => false,
    }
}

/// The successors of a terminator are exactly the blocks it can hand
/// control to; in particular a switch's successors hold every block it
/// jumps to on some value.
pub proof fn lemma_successors_are_the_targets(kind: TerminatorKind, b: BasicBlock, v: u128)
    ensures
        kind.spec_successors().contains(b) <==> transfers_to(kind, b),
        kind matches TerminatorKind::Switch { targets, .. } && targets.wf() && targets.jumps_to(v, b)
            ==> kind.spec_successors().contains(b),
{
    match kind {
        TerminatorKind::Goto(t) => {
            assert(seq![t][0] == t);
        },
        TerminatorKind::Call { target, .. } => {
            if let Some(t) = target {
                assert(seq![t][0] == t);
            }
        },
        TerminatorKind::Assert { target, .. } => {
            assert(seq![target][0] == target);
        },
        TerminatorKind::Switch { targets, .. } => {
            let all = targets.spec_all_targets();
            let tv = targets.targets_view();
            match targets.otherwise {
                Some(o) => {
                    assert(all == seq![o] + tv);
                    assert(all[0] == o);
                    assert forall|k: int| 0 <= k < tv.len() implies all[k + 1] == tv[k] by {}
                    if all.contains(b) {
                        let i = choose|i: int| 0 <= i < all.len() && all[i] == b;
                        if i > 0 {
                            assert(tv[i - 1] == b);
                        }
                    }
                    if exists|k: int| 0 <= k < tv.len() && tv[k] == b {
                        let k = choose|k: int| 0 <= k < tv.len() && tv[k] == b;
                        assert(all[k + 1] == b);
                    }
                },
                None => {
                    assert(all == tv);
                },
            }
            if targets.wf() && targets.jumps_to(v, b) {
                let vs = targets.values_view();
                if exists|k: int| 0 <= k < vs.len() && vs[k] == v {
                    let k = choose|k: int|
                        0 <= k < vs.len() && vs[k] == v && (forall|j: int| 0 <= j < k ==> vs[j] != v) && b == tv[k];
                    assert(0 <= k < tv.len() && tv[k] == b);
                }
            }
        },
        _ => {},
    }
}

/// A statement that affects control flow. Every [BasicBlock] ends with one.
#[derive(Debug, PartialEq, Eq)]
pub struct Terminator {
    /// The kind of [Terminator] that it is.
    pub kind: TerminatorKind,
    /// The source location of the terminator.
    pub origin: AstNodeId,
}

impl Terminator {
    /// Get all of the successors of a [Terminator].
    pub fn successors(&self) -> (r: Vec<BasicBlock>)
        ensures
            r@ == self.kind.spec_successors(),
            forall|b: BasicBlock| #[trigger] r@.contains(b) <==> transfers_to(self.kind, b),
    {
        proof {
            assert forall|b: BasicBlock| #[trigger] self.kind.spec_successors().contains(b) <==> transfers_to(self.kind, b) by {
                lemma_successors_are_the_targets(self.kind, b, 0);
            }
        }
        let r = match &self.kind {
            TerminatorKind::Goto(target) => {
                let mut v: Vec<BasicBlock> = Vec::new();
                v.push(*target);
                v
            },
            TerminatorKind::Call { target: Some(target), .. } => {
                let mut v: Vec<BasicBlock> = Vec::new();
                v.push(*target);
                v
            },
            TerminatorKind::Assert { target, .. } => {
                let mut v: Vec<BasicBlock> = Vec::new();
                v.push(*target);
                v
            },
            TerminatorKind::Switch { targets, .. } => targets.iter_targets(),
            _ => Vec::new(),
        };
        proof {
            assert(r@ == self.kind.spec_successors());
        }
        r
    }

    /// Replace a specified successor with another [BasicBlock]: every edge
    /// to `successor` goes to `replacement` instead, and no other edge
    /// changes.
    pub fn replace_edge(&mut self, successor: BasicBlock, replacement: BasicBlock)
        ensures
            final(self).origin == old(self).origin,
            match old(self).kind {
                TerminatorKind::Goto(t) => final(self).kind == TerminatorKind::Goto(
                    if t == successor { replacement } else { t },
                ),
                TerminatorKind::Call { op, args, destination, target } => final(self).kind
                    == TerminatorKind::Call {
                    op,
                    args,
                    destination,
                    target: if target == Some(successor) { Some(replacement) } else { target },
                },
                TerminatorKind::Assert { condition, expected, kind, target } => final(self).kind
                    == TerminatorKind::Assert {
                    condition,
                    expected,
                    kind,
                    target: if target == successor { replacement } else { target },
                },
                TerminatorKind::Switch { value, targets } => {
                    &&& final(self).kind is Switch
                    &&& final(self).kind->Switch_value == value
                    &&& final(self).kind->Switch_targets.values == targets.values
                    &&& final(self).kind->Switch_targets.targets_view() == replace_block(
                        targets.targets_view(),
                        successor,
                        replacement,
                    )
                    &&& final(self).kind->Switch_targets.otherwise == (if targets.otherwise == Some(
                        successor,
                    ) {
                        Some(replacement)
                    } else {
                        targets.otherwise
                    })
                },
                TerminatorKind::Return => final(self).kind == TerminatorKind::Return,
                TerminatorKind::Unreachable => final(self).kind == TerminatorKind::Unreachable,
            },
    {
        match &mut self.kind {
            TerminatorKind::Goto(target) => {
                if *target == successor {
                    *target = replacement;
                }
            },
            TerminatorKind::Switch { targets, .. } => {
                targets.replace_edge(successor, replacement);
            },
            TerminatorKind::Call { target: Some(target), .. } => {
                if *target == successor {
                    *target = replacement;
                }
            },
            TerminatorKind::Assert { target, .. } => {
                if *target == successor {
                    *target = replacement;
                }
            },
            _ => {},
        }
    }
}

/// The contents of a [BasicBlock]: its statements and its terminator, which
/// is set once the block has been built.
#[derive(Debug, PartialEq, Eq)]
pub struct BasicBlockData {
    /// The statements that the block has.
    pub statements: Vec<Statement>,
    /// Where the block goes after finishing execution of the statements.
    pub terminator: Option<Terminator>,
}

impl BasicBlockData {
    /// Create a new [BasicBlockData] with no statements and a provided
    /// `terminator`.
    pub fn new(terminator: Option<Terminator>) -> (r: Self)
        ensures
            r.statements@.len() == 0,
            r.terminator == terminator,
    {
        Self { statements: Vec::new(), terminator }
    }

    /// Get a reference to the terminator of this block; it must be set.
    pub fn terminator(&self) -> (r: &Terminator)
        requires
            self.terminator is Some,
        ensures
            Some(*r) == self.terminator,
    {
        self.terminator.as_ref().unwrap()
    }

    /// The successors of this block: those of its terminator, if it has one.
    pub fn successors(&self) -> (r: SuccessorBlocks)
        ensures
            successor_blocks_of(r) == match self.terminator {
                Some(t) => t.kind.spec_successors(),
                None => Seq::<BasicBlock>::empty(),
            },
    {
        let mut out = successors_new();
        match &self.terminator {
            Some(terminator) => {
                let succ = terminator.successors();
                let n = succ.len();
                let mut i: usize = 0;
                while i < n
                    invariant
                        n == succ@.len(),
                        i <= succ@.len(),
                        successor_blocks_of(out) == succ@.subrange(0, i as int),
                    decreases succ@.len() - i,
                {
                    proof {
                        assert(succ@.subrange(0, i + 1) == succ@.subrange(0, i as int).push(succ@[i as int]));
                    }
                    successors_push(&mut out, succ[i]);
                    i = i + 1;
                }
                proof {
                    assert(succ@.subrange(0, succ@.len() as int) == succ@);
                }
                out
            },
            None => out,
        }
    }

    /// Check if the block has no statements and its terminator is
    /// [TerminatorKind::Unreachable].
    pub fn is_empty_and_unreachable(&self) -> (r: bool)
        ensures
            r == (self.statements@.len() == 0 && match self.terminator {
                Some(t) => t.kind is Unreachable,
                None => false,
            }),
    {
        if self.statements.len() != 0 {
            return false;
        }
        match &self.terminator {
            Some(t) => match t.kind {
                TerminatorKind::Unreachable => true,
                _ => false,
            },
            None => false,
        }
    }
}

/// The origin of a lowered function body.
#[derive(Debug, PartialEq, Eq, Clone, Copy, Structural)]
pub enum BodySource {
    /// Constant block.
    Const,
    /// The item is a normal function.
    Item,
}

impl BodySource {
    /// The name of the source, as it is displayed.
    pub fn to_str(&self) -> (r: &'static str)
        ensures
            r@ == (match self {
                BodySource::Const => "constant block"@,
                BodySource::Item => "function"@,
            }),
    {
        match self {
            BodySource::Const => "constant block",
            BodySource::Item => "function",
        }
    }
}

/// Metadata about a lowered body: its name, source and, once computed, type.
pub struct BodyMetadata {
    /// The name of the body that was lowered.
    pub name: Identifier,
    /// The source of the body that was lowered.
    pub source: BodySource,
    /// The type of the body that was lowered, once computed.
    pub ty: Option<IrTyId>,
}

impl BodyMetadata {
    /// The type of the body, if it has been computed.
    pub open spec fn spec_ty(&self) -> Option<IrTyId> {
        self.ty
    }

    /// Create a new [BodyMetadata] with the given `name`, without a type.
    pub fn new(name: Identifier, source: BodySource) -> (r: Self)
        ensures
            r.name == name,
            r.source == source,
            r.spec_ty() is None,
    {
        Self { name, ty: None, source }
    }

    /// Set the type of the body that was lowered.
    pub fn set_ty(&mut self, ty: IrTyId)
        ensures
            final(self).spec_ty() == Some(ty),
            final(self).name == old(self).name,
            final(self).source == old(self).source,
    {
        self.ty = Some(ty);
    }

    /// Get the type of the body that was lowered; it must have been set.
    pub fn ty(&self) -> (r: IrTyId)
        requires
            self.spec_ty() is Some,
        ensures
            Some(r) == self.spec_ty(),
    {
        self.ty.unwrap()
    }

    /// Get the name of the body that was lowered.
    pub fn name(&self) -> (r: Identifier)
        ensures
            r == self.name,
    {
        self.name
    }

    /// Get the [BodySource] of the body.
    pub fn source(&self) -> (r: BodySource)
        ensures
            r == self.source,
    {
        self.source
    }
}

/// A lowered IR body: its blocks, declarations, projections and metadata.
pub struct Body {
    /// The blocks that the function is represented with.
    pub blocks: Vec<BasicBlockData>,
    /// Declarations of locals: first the return place, then the
    /// `arg_count` arguments, then variables and temporaries.
    pub locals: Vec<LocalDecl>,
    /// The interned projections that are used within the body.
    pub projections: Projections,
    /// Information that is derived when the body in being lowered.
    pub meta: BodyMetadata,
    /// Number of arguments to the function.
    pub arg_count: usize,
    /// The location of the function.
    pub origin: AstNodeId,
    /// Whether the body should be printed once generated.
    pub dump: bool,
}

impl Body {
    /// Whether the body is marked to be printed.
    pub open spec fn spec_needs_dumping(&self) -> bool {
        self.dump
    }

    /// The origin of the body.
    pub open spec fn spec_origin(&self) -> AstNodeId {
        self.origin
    }

    /// Create a new [Body], not marked to be printed.
    pub fn new(
        blocks: Vec<BasicBlockData>,
        locals: Vec<LocalDecl>,
        projections: Projections,
        info: BodyMetadata,
        arg_count: usize,
        origin: AstNodeId,
    ) -> (r: Self)
        ensures
            r.blocks == blocks,
            r.locals == locals,
            r.projections == projections,
            r.meta == info,
            r.arg_count == arg_count,
            r.spec_origin() == origin,
            !r.spec_needs_dumping(),
    {
        Self { blocks, meta: info, projections, locals, arg_count, origin, dump: false }
    }

    /// The kind of a local of this body.
    pub open spec fn spec_local_kind(&self, local: Local) -> LocalKind {
        if local.0 == RETURN_PLACE_INDEX {
            LocalKind::Return
        } else if local.0 < self.arg_count + 1 {
            LocalKind::Arg
        } else if self.locals@[local.0 as int].spec_auxiliary() || self.locals@[local.0 as int].name is None {
            LocalKind::Temp
        } else {
            LocalKind::Var
        }
    }

    /// Compute the [LocalKind] of a declared [Local] in this [Body].
    pub fn local_kind(&self, local: Local) -> (r: LocalKind)
        requires
            (local.0 as int) < self.locals@.len(),
        ensures
            r == self.spec_local_kind(local),
    {
        if local.0 == RETURN_PLACE_INDEX {
            LocalKind::Return
        } else if (local.0 as usize) <= self.arg_count {
            LocalKind::Arg
        } else if self.locals[local.0 as usize].auxiliary || self.locals[local.0 as usize].name.is_none() {
            LocalKind::Temp
        } else {
            LocalKind::Var
        }
    }

    /// The function arguments: locals `1` to `arg_count`.
    pub fn args_iter(&self) -> (r: Vec<Local>)
        requires
            self.arg_count < u32::MAX,
        ensures
            r@.len() == self.arg_count,
            forall|k: int| 0 <= k < r@.len() ==> r@[k] == Local((k + 1) as u32),
    {
        let mut out: Vec<Local> = Vec::new();
        let mut i: usize = 0;
        while i < self.arg_count
            invariant
                self.arg_count < u32::MAX,
                i <= self.arg_count,
                out@.len() == i,
                forall|k: int| 0 <= k < i ==> out@[k] == Local((k + 1) as u32),
            decreases self.arg_count - i,
        {
            out.push(Local((i + 1) as u32));
            i = i + 1;
        }
        out
    }

    /// All variables and temporaries: locals `arg_count + 1` onwards.
    pub fn vars_iter(&self) -> (r: Vec<Local>)
        requires
            self.locals@.len() <= u32::MAX,
        ensures
            r@.len() == (if self.locals@.len() > self.arg_count + 1 {
                self.locals@.len() - self.arg_count - 1
            } else {
                0
            }),
            forall|k: int| 0 <= k < r@.len() ==> r@[k] == Local((self.arg_count + 1 + k) as u32),
    {
        let mut out: Vec<Local> = Vec::new();
        if self.arg_count >= self.locals.len() {
            return out;
        }
        let mut i: usize = self.arg_count + 1;
        while i < self.locals.len()
            invariant
                self.locals@.len() <= u32::MAX,
                self.arg_count + 1 <= i <= self.locals@.len(),
                out@.len() == i - self.arg_count - 1,
                forall|k: int| 0 <= k < out@.len() ==> out@[k] == Local((self.arg_count + 1 + k) as u32),
            decreases self.locals@.len() - i,
        {
            out.push(Local(i as u32));
            i = i + 1;
        }
        out
    }

    /// Mark the body to be printed once generated.
    pub fn mark_to_dump(&mut self)
        ensures
            final(self).spec_needs_dumping(),
            final(self).blocks == old(self).blocks,
            final(self).locals == old(self).locals,
            final(self).arg_count == old(self).arg_count,
    {
        self.dump = true;
    }

    /// Check if the [Body] needs to be printed.
    pub fn needs_dumping(&self) -> (r: bool)
        ensures
            r == self.spec_needs_dumping(),
    {
        self.dump
    }

    /// Get the metadata of the body.
    pub fn metadata(&self) -> (r: &BodyMetadata)
        ensures
            *r == self.meta,
    {
        &self.meta
    }

    /// Get the origin of the body.
    pub fn origin(&self) -> (r: AstNodeId)
        ensures
            r == self.spec_origin(),
    {
        self.origin
    }
}

/// The immediate dominators of the blocks of a body: `immediate[b]` is the
/// immediate dominator of block `b`, and the root is its own.
pub struct Dominators {
    pub immediate: Vec<BasicBlock>,
}

impl Dominators {
    /// Every immediate dominator is a block of the body.
    pub open spec fn wf(&self) -> bool {
        forall|i: int| 0 <= i < self.immediate@.len() ==> (self.immediate@[i].0 as int) < self.immediate@.len()
    }

    /// Whether `dom` occurs on the chain of dominators of `node` within
    /// `fuel` steps: `node` itself, its immediate dominator, and so on up to
    /// the root.
    pub open spec fn on_chain(&self, node: BasicBlock, dom: BasicBlock, fuel: nat) -> bool
        decreases fuel,
    {
        if node == dom {
            true
        } else if fuel == 0 {
            false
        } else {
            let up = self.immediate@[node.0 as int];
            up != node && self.on_chain(up, dom, (fuel - 1) as nat)
        }
    }

    /// Whether `node` is dominated by `dom`: `dom` lies on the chain of
    /// immediate dominators from `node` to the root.
    pub open spec fn spec_is_dominated_by(&self, node: BasicBlock, dom: BasicBlock) -> bool {
        self.on_chain(node, dom, self.immediate@.len())
    }

    /// Check whether `node` is dominated by `dom`.
    pub fn is_dominated_by(&self, node: BasicBlock, dom: BasicBlock) -> (r: bool)
        requires
            self.wf(),
            (node.0 as int) < self.immediate@.len(),
        ensures
            r == self.spec_is_dominated_by(node, dom),
    {
        let mut cur = node;
        let mut fuel: usize = self.immediate.len();
        while cur != dom && fuel > 0
            invariant
                self.wf(),
                (cur.0 as int) < self.immediate@.len(),
                fuel <= self.immediate@.len(),
                self.on_chain(cur, dom, fuel as nat) == self.spec_is_dominated_by(node, dom),
            decreases fuel,
        {
            let up = self.immediate[cur.0 as usize];
            if up == cur {
                return false;
            }
            cur = up;
            fuel = fuel - 1;
        }
        cur == dom
    }
}

/// A reference to a position within a [Body]: a block and the index of a
/// statement within it.
#[derive(Copy, Clone, PartialEq, Eq, Debug, Structural)]
pub struct IrRef {
    /// The block that the reference points to.
    pub block: BasicBlock,
    /// The nth statement that the reference points to.
    pub index: usize,
}

impl IrRef {
    /// The reference to the start of the starting block.
    pub fn default() -> (r: Self)
        ensures
            r == (IrRef { block: BasicBlock(START_BLOCK_INDEX), index: 0 }),
    {
        IrRef { block: BasicBlock(START_BLOCK_INDEX), index: 0 }
    }

    /// Create a new [IrRef] with the given `block` and `index`.
    pub fn new(block: BasicBlock, index: usize) -> (r: Self)
        ensures
            r == (IrRef { block, index }),
    {
        Self { block, index }
    }

    /// Within one block, a reference dominates those at or after its index;
    /// across blocks, it dominates the other when its block dominates the
    /// other's block.
    pub open spec fn spec_dominates(&self, other: IrRef, dominators: &Dominators) -> bool {
        if self.block == other.block {
            self.index <= other.index
        } else {
            dominators.spec_is_dominated_by(other.block, self.block)
        }
    }

    /// Check if this [IrRef] dominates `other` with the given dominators.
    pub fn dominates(&self, other: IrRef, dominators: &Dominators) -> (r: bool)
        requires
            dominators.wf(),
            self.block != other.block ==> (other.block.0 as int) < dominators.immediate@.len(),
        ensures
            r == self.spec_dominates(other, dominators),
    {
        if self.block == other.block {
            self.index <= other.index
        } else {
            dominators.is_dominated_by(other.block, self.block)
        }
    }
}

} // verus!
