//! Inferring the types of terms whose type is known from their form alone:
//! literals and constructor calls.

use vstd::prelude::*;

use crate::lower::DataTy;
use crate::tir::defs::{DataDefCtors, Defs, NumericCtorInfo, PrimitiveCtorInfo};
use crate::tir::params::args_at;
use crate::tir::store::{
    extends, has_kind, node_ok, ArgsId, CtorDefId, DataDefId, NodeData, NodeKind, Term,
    TermId, Tir, TyId,
};

verus! {

/// A signed integer type.
#[derive(Debug, Clone, Copy, PartialEq, Eq, Structural)]
pub enum SIntTy {
    I8,
    I16,
    I32,
    I64,
    I128,
    ISize,
    IBig,
}

/// An unsigned integer type.
#[derive(Debug, Clone, Copy, PartialEq, Eq, Structural)]
pub enum UIntTy {
    U8,
    U16,
    U32,
    U64,
    U128,
    USize,
    UBig,
}

/// An integer type, as a literal's suffix names it.
#[derive(Debug, Clone, Copy, PartialEq, Eq, Structural)]
pub enum IntTy {
    Int(SIntTy),
    UInt(UIntTy),
}

/// A float type, as a literal's suffix names it.
#[derive(Debug, Clone, Copy, PartialEq, Eq, Structural)]
pub enum FloatSuffix {
    F32,
    F64,
}

/// A literal, by what its type depends on: its kind and its suffix, if it
/// has one.
#[derive(Debug, Clone, Copy, PartialEq, Eq, Structural)]
pub enum LitKind {
    Int(Option<IntTy>),
    Str,
    Char,
    Float(Option<FloatSuffix>),
}

/// The data definitions of the primitive types.
#[derive(Debug, Clone, Copy, PartialEq, Eq, Structural)]
pub struct Primitives {
    pub i8: DataDefId,
    pub i16: DataDefId,
    pub i32: DataDefId,
    pub i64: DataDefId,
    pub i128: DataDefId,
    pub isize: DataDefId,
    pub ibig: DataDefId,
    pub u8: DataDefId,
    pub u16: DataDefId,
    pub u32: DataDefId,
    pub u64: DataDefId,
    pub u128: DataDefId,
    pub usize: DataDefId,
    pub ubig: DataDefId,
    pub str: DataDefId,
    pub char: DataDefId,
    pub float32: DataDefId,
    pub float64: DataDefId,
}

/// The primitive data type of a literal: a suffix names it; an integer
/// without one is an `i32`, a float without one a 32-bit float.
pub open spec fn lit_data_def(p: Primitives, lit: LitKind) -> DataDefId {
    match lit {
        LitKind::Int(None) => p.i32,
        LitKind::Int(Some(IntTy::Int(s))) => match s {
            SIntTy::I8 => p.i8,
            SIntTy::I16 => p.i16,
            SIntTy::I32 => p.i32,
            SIntTy::I64 => p.i64,
            SIntTy::I128 => p.i128,
            SIntTy::ISize => p.isize,
            SIntTy::IBig => p.ibig,
        },
        LitKind::Int(Some(IntTy::UInt(u))) => match u {
            UIntTy::U8 => p.u8,
            UIntTy::U16 => p.u16,
            UIntTy::U32 => p.u32,
            UIntTy::U64 => p.u64,
            UIntTy::U128 => p.u128,
            UIntTy::USize => p.usize,
            UIntTy::UBig => p.ubig,
        },
        LitKind::Str => p.str,
        LitKind::Char => p.char,
        LitKind::Float(Some(FloatSuffix::F64)) => p.float64,
        LitKind::Float(_) => p.float32,
    }
}

/// A suffixed integer literal has the primitive type that its suffix
/// names, whatever the annotation, and an unsuffixed one is an `i32`
/// unless an annotation says otherwise; strings and characters are
/// `str` and `char`.
pub proof fn lemma_suffix_names_the_type(p: Primitives, negative: bool, ann: Option<(DataDefId, NumericCtorInfo)>)
    ensures
        lit_data_def(p, LitKind::Int(Some(IntTy::Int(SIntTy::I8)))) == p.i8,
        lit_data_def(p, LitKind::Int(Some(IntTy::Int(SIntTy::I16)))) == p.i16,
        lit_data_def(p, LitKind::Int(Some(IntTy::Int(SIntTy::I32)))) == p.i32,
        lit_data_def(p, LitKind::Int(Some(IntTy::Int(SIntTy::I64)))) == p.i64,
        lit_data_def(p, LitKind::Int(Some(IntTy::Int(SIntTy::I128)))) == p.i128,
        lit_data_def(p, LitKind::Int(Some(IntTy::Int(SIntTy::ISize)))) == p.isize,
        lit_data_def(p, LitKind::Int(Some(IntTy::Int(SIntTy::IBig)))) == p.ibig,
        lit_data_def(p, LitKind::Int(Some(IntTy::UInt(UIntTy::U8)))) == p.u8,
        lit_data_def(p, LitKind::Int(Some(IntTy::UInt(UIntTy::U16)))) == p.u16,
        lit_data_def(p, LitKind::Int(Some(IntTy::UInt(UIntTy::U32)))) == p.u32,
        lit_data_def(p, LitKind::Int(Some(IntTy::UInt(UIntTy::U64)))) == p.u64,
        lit_data_def(p, LitKind::Int(Some(IntTy::UInt(UIntTy::U128)))) == p.u128,
        lit_data_def(p, LitKind::Int(Some(IntTy::UInt(UIntTy::USize)))) == p.usize,
        lit_data_def(p, LitKind::Int(Some(IntTy::UInt(UIntTy::UBig)))) == p.ubig,
        lit_data_def(p, LitKind::Int(None)) == p.i32,
        lit_data_def(p, LitKind::Str) == p.str,
        lit_data_def(p, LitKind::Char) == p.char,
        lit_data_def(p, LitKind::Float(Some(FloatSuffix::F32))) == p.float32,
        lit_data_def(p, LitKind::Float(Some(FloatSuffix::F64))) == p.float64,
        forall|t: IntTy| #[trigger] spec_lit_data_def_against(p, LitKind::Int(Some(t)), negative, ann) == lit_data_def(
            p,
            LitKind::Int(Some(t)),
        ),
        spec_lit_data_def_against(p, LitKind::Str, negative, ann) == p.str,
        spec_lit_data_def_against(p, LitKind::Char, negative, ann) == p.char,
        spec_lit_data_def_against(p, LitKind::Float(Some(FloatSuffix::F32)), negative, ann) == p.float32,
        spec_lit_data_def_against(p, LitKind::Float(Some(FloatSuffix::F64)), negative, ann) == p.float64,
        spec_lit_data_def_against(p, LitKind::Int(None), negative, None) == p.i32,
        spec_lit_data_def_against(p, LitKind::Float(None), negative, None) == p.float64,
{
}

/// The data type that a constructor call has: the data definition of the
/// constructor, applied to the call's data arguments.
pub open spec fn ctor_data_ty(defs: &Defs, ctor: CtorDefId, data_args: ArgsId) -> DataTy {
    DataTy { data_def: defs.ctor_defs@[ctor.0 as int]@[ctor.1 as int].data_def_id, args: data_args }
}

/// The constructor exists among the definitions.
pub open spec fn ctor_exists(defs: &Defs, ctor: CtorDefId) -> bool {
    (ctor.0 as int) < defs.ctor_defs@.len() && (ctor.1 as int) < defs.ctor_defs@[ctor.0 as int]@.len()
}

/// A term whose type can be inferred from its form: a literal whose kind
/// is known, or a call of an existing constructor.
pub open spec fn inferable(tir: &Tir, defs: &Defs, lits: Seq<LitKind>, term: TermId) -> bool {
    &&& tir.is_term(term)
    &&& match tir.nodes@[term.0 as int] {
        NodeData::Term(Term::Lit(l)) => (l.0 as int) < lits.len(),
        NodeData::Term(Term::Ctor { ctor, .. }) => ctor_exists(defs, ctor),
        _ => false,
    }
}

/// The type inferred for such a term, as a data type.
pub open spec fn inferred_data_ty(tir: &Tir, defs: &Defs, prims: Primitives, lits: Seq<LitKind>, term: TermId) -> Option<DataTy> {
    match tir.nodes@[term.0 as int] {
        NodeData::Term(Term::Lit(l)) => Some(DataTy { data_def: lit_data_def(prims, lits[l.0 as int]), args: ArgsId(0) }),
        NodeData::Term(Term::Ctor { ctor, data_args, .. }) => Some(ctor_data_ty(defs, ctor, data_args)),
        _ => None,
    }
}

/// The type `r` is the data type of the definition `data_def`: with the
/// given arguments if there are some, else with a new empty argument list
/// just before it.
pub open spec fn is_data_ty_node(t: Seq<NodeData>, r: TyId, data_def: DataDefId, args: Option<ArgsId>) -> bool {
    match t[r.0 as int] {
        NodeData::Term(Term::DataTy { data_def: d, args: a }) => d == data_def && match args {
            Some(x) => a == x,
            None => a.0 + 1 == r.0 && has_kind(t, a.0, NodeKind::Args) && args_at(t, a).len() == 0,
        },
        _ => false,
    }
}

/// The numeric primitive that an annotation type is, if it is one: its
/// data definition and what the definition says of the number.
pub open spec fn annotation_numeric(t: Seq<NodeData>, defs: &Defs, ann: TermId) -> Option<(DataDefId, NumericCtorInfo)> {
    match t[ann.0 as int] {
        NodeData::Term(Term::DataTy { data_def, .. }) => match defs.data_defs@[data_def.0 as int].ctors {
            DataDefCtors::Primitive(PrimitiveCtorInfo::Numeric(n)) => Some((data_def, n)),
            _ => None,
        },
        _ => None,
    }
}

/// The data definition of a literal's type, checked against an
/// annotation: a suffix names it; an integer without one takes an
/// annotated integer type that can hold it (not an unsigned one for a
/// negative integer), else `i32`; a float without one takes an annotated
/// float type, else the 64-bit float.
pub open spec fn spec_lit_data_def_against(
    p: Primitives,
    lit: LitKind,
    negative: bool,
    ann: Option<(DataDefId, NumericCtorInfo)>,
) -> DataDefId {
    match lit {
        LitKind::Int(Some(_)) => lit_data_def(p, lit),
        LitKind::Int(None) => match ann {
            Some((d, n)) => if !n.is_float && !(!n.is_signed && negative) {
                d
            } else {
                p.i32
            },
            None => p.i32,
        },
        LitKind::Str => p.str,
        LitKind::Char => p.char,
        LitKind::Float(Some(FloatSuffix::F32)) => p.float32,
        LitKind::Float(Some(FloatSuffix::F64)) => p.float64,
        LitKind::Float(None) => match ann {
            Some((d, n)) => if n.is_float {
                d
            } else {
                p.float64
            },
            None => p.float64,
        },
    }
}

/// Operations to infer the types of terms.
pub struct InferOps;

impl InferOps {
    /// Create the operations.
    pub fn new() -> Self {
        InferOps
    }

    /// The data definition of a literal's type.
    fn lit_data_def(&self, prims: &Primitives, lit: LitKind) -> (r: DataDefId)
        ensures
            r == lit_data_def(*prims, lit),
    {
        match lit {
            LitKind::Int(None) => prims.i32,
            LitKind::Int(Some(IntTy::Int(s))) => match s {
                SIntTy::I8 => prims.i8,
                SIntTy::I16 => prims.i16,
                SIntTy::I32 => prims.i32,
                SIntTy::I64 => prims.i64,
                SIntTy::I128 => prims.i128,
                SIntTy::ISize => prims.isize,
                SIntTy::IBig => prims.ibig,
            },
            LitKind::Int(Some(IntTy::UInt(u))) => match u {
                UIntTy::U8 => prims.u8,
                UIntTy::U16 => prims.u16,
                UIntTy::U32 => prims.u32,
                UIntTy::U64 => prims.u64,
                UIntTy::U128 => prims.u128,
                UIntTy::USize => prims.usize,
                UIntTy::UBig => prims.ubig,
            },
            LitKind::Str => prims.str,
            LitKind::Char => prims.char,
            LitKind::Float(Some(FloatSuffix::F64)) => prims.float64,
            LitKind::Float(_) => prims.float32,
        }
    }

    /// The data type of a definition, applied to no arguments.
    fn new_data_ty(&self, tir: &mut Tir, data_def: DataDefId) -> (r: TyId)
        requires
            old(tir).inv(),
        ensures
            final(tir).inv(),
            extends(final(tir).nodes@, old(tir).nodes@),
            final(tir).nodes@.len() == old(tir).nodes@.len() + 2,
            final(tir).symbols == old(tir).symbols,
            r.0 + 1 == final(tir).nodes@.len(),
            has_kind(final(tir).nodes@, r.0, NodeKind::Term),
            is_data_ty_node(final(tir).nodes@, r, data_def, None),
    {
        let args = tir.push_args(Vec::new());
        let ghost t = tir.nodes@;
        let r = tir.new_term(Term::DataTy { data_def, args });
        proof {
            assert(tir.nodes@[args.0 as int] == t[args.0 as int]);
            assert(args_at(tir.nodes@, args) == args_at(t, args));
        }
        r
    }

    /// The data definition of a literal's type, checked against the
    /// annotation type `annotation_ty`: see [spec_lit_data_def_against].
    pub fn lit_data_def_against(
        &self,
        tir: &Tir,
        defs: &Defs,
        prims: &Primitives,
        lit: LitKind,
        negative: bool,
        annotation_ty: TermId,
    ) -> (r: DataDefId)
        requires
            tir.is_term(annotation_ty),
            tir.nodes@[annotation_ty.0 as int] matches NodeData::Term(Term::DataTy { data_def, .. }) ==> (data_def.0 as int)
                < defs.data_defs@.len(),
        ensures
            r == spec_lit_data_def_against(*prims, lit, negative, annotation_numeric(tir.nodes@, defs, annotation_ty)),
    {
        let ann: Option<(DataDefId, NumericCtorInfo)> = match tir.get_term(annotation_ty) {
            Term::DataTy { data_def, .. } => match defs.data_defs[data_def.0 as usize].ctors {
                DataDefCtors::Primitive(PrimitiveCtorInfo::Numeric(n)) => Some((data_def, n)),
                _ => None,
            },
            _ => None,
        };
        match lit {
            LitKind::Int(Some(_)) => self.lit_data_def(prims, lit),
            LitKind::Int(None) => match ann {
                Some((d, n)) => if !n.is_float && !(!n.is_signed && negative) {
                    d
                } else {
                    prims.i32
                },
                None => prims.i32,
            },
            LitKind::Str => prims.str,
            LitKind::Char => prims.char,
            LitKind::Float(Some(FloatSuffix::F32)) => prims.float32,
            LitKind::Float(Some(FloatSuffix::F64)) => prims.float64,
            LitKind::Float(None) => match ann {
                Some((d, n)) => if n.is_float {
                    d
                } else {
                    prims.float64
                },
                None => prims.float64,
            },
        }
    }

    /// The type of a literal: the primitive data type that its suffix
    /// names, or `i32` for an integer and a 32-bit float for a float without one.
    pub fn infer_ty_of_prim_term(&self, tir: &mut Tir, prims: &Primitives, lit: LitKind) -> (r: TyId)
        requires
            old(tir).inv(),
        ensures
            final(tir).inv(),
            extends(final(tir).nodes@, old(tir).nodes@),
            final(tir).symbols == old(tir).symbols,
            r.0 + 1 == final(tir).nodes@.len(),
            has_kind(final(tir).nodes@, r.0, NodeKind::Term),
            is_data_ty_node(final(tir).nodes@, r, lit_data_def(*prims, lit), None),
    {
        let d = self.lit_data_def(prims, lit);
        self.new_data_ty(tir, d)
    }

    /// The type of a constructor call: the data definition of the
    /// constructor, applied to the call's data arguments.
    pub fn infer_ty_of_ctor_term(&self, defs: &Defs, ctor: CtorDefId, data_args: ArgsId) -> (r: DataTy)
        requires
            ctor_exists(defs, ctor),
        ensures
            r == ctor_data_ty(defs, ctor, data_args),
    {
        let data_def = defs.ctor_defs[ctor.0 as usize][ctor.1 as usize].data_def_id;
        DataTy { data_def, args: data_args }
    }

    /// Infer the type of a literal or a constructor call, as a new type
    /// node.
    pub fn infer_ty_of_term(&self, tir: &mut Tir, defs: &Defs, prims: &Primitives, lits: &Vec<LitKind>, term: TermId) -> (r: Option<TyId>)
        requires
            old(tir).inv(),
            inferable(&*old(tir), defs, lits@, term),
        ensures
            final(tir).inv(),
            extends(final(tir).nodes@, old(tir).nodes@),
            final(tir).symbols == old(tir).symbols,
            r matches Some(ty) && has_kind(final(tir).nodes@, ty.0, NodeKind::Term) && ty.0 + 1 == final(tir).nodes@.len()
                && match inferred_data_ty(&*old(tir), defs, *prims, lits@, term) {
                Some(d) => match old(tir).nodes@[term.0 as int] {
                    NodeData::Term(Term::Lit(_)) => is_data_ty_node(final(tir).nodes@, ty, d.data_def, None),
                    _ => is_data_ty_node(final(tir).nodes@, ty, d.data_def, Some(d.args)),
                },
                None => false,
            },
    {
        let ghost t = tir.nodes@;
        match tir.get_term(term) {
            Term::Lit(l) => {
                let lit = lits[l.0 as usize];
                Some(self.infer_ty_of_prim_term(tir, prims, lit))
            },
            Term::Ctor { ctor, data_args, .. } => {
                proof {
                    assert(node_ok(t, term.0 as int, t[term.0 as int]));
                }
                let d = self.infer_ty_of_ctor_term(defs, ctor, data_args);
                let r = tir.new_term(Term::DataTy { data_def: d.data_def, args: d.args });
                Some(r)
            },
            _ => {
                proof {
                    assert(false);
                }
                None
            },
        }
    }

    /// Infer the type of a literal or a constructor call; a new type hole
    /// where nothing is inferred.
    pub fn infer_ty_of_term_or_hole(&self, tir: &mut Tir, defs: &Defs, prims: &Primitives, lits: &Vec<LitKind>, term: TermId) -> (r: TyId)
        requires
            old(tir).inv(),
            inferable(&*old(tir), defs, lits@, term),
        ensures
            final(tir).inv(),
            extends(final(tir).nodes@, old(tir).nodes@),
            has_kind(final(tir).nodes@, r.0, NodeKind::Term),
            match inferred_data_ty(&*old(tir), defs, *prims, lits@, term) {
                Some(d) => match old(tir).nodes@[term.0 as int] {
                    NodeData::Term(Term::Lit(_)) => is_data_ty_node(final(tir).nodes@, r, d.data_def, None),
                    _ => is_data_ty_node(final(tir).nodes@, r, d.data_def, Some(d.args)),
                },
                None => false,
            },
    {
        match self.infer_ty_of_term(tir, defs, prims, lits, term) {
            Some(ty) => ty,
            None => tir.new_ty_hole(),
        }
    }
}

} // verus!
