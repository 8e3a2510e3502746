//! Decisions of code generation.

use vstd::prelude::*;

use crate::abi::{ArgAbi, PassMode, TyInfo};
use crate::ir::{BasicBlock, Local, SwitchTargets};

verus! {

/// A place in the generated code: the value that points to it, and its
/// type and layout.
#[derive(Debug, Clone, Copy, PartialEq, Eq)]
pub struct PlaceRef<V> {
    pub value: V,
    pub info: TyInfo,
}

/// The ways a function call returns its value, and how the value is saved.
pub enum ReturnDestinationKind<V> {
    /// The return value is indirect or ignored.
    Nothing,
    /// The return value is stored to the given place.
    Store(PlaceRef<V>),
    /// An indirect return value is stored to an operand local.
    IndirectOperand(PlaceRef<V>, Local),
    /// The return value is stored to an operand local.
    DirectOperand(Local),
}

/// How a switch terminator is emitted.
pub enum SwitchLowering {
    /// A conditional branch on a boolean subject: to `then_block` when the
    /// subject is true, else to `else_block`.
    BoolBranch { then_block: BasicBlock, else_block: BasicBlock },
    /// Compare the subject with `value` and branch: to `then_block` when
    /// they are equal, else to `else_block`.
    CompareBranch { value: u128, then_block: BasicBlock, else_block: BasicBlock },
    /// A switch over the whole jump table, with the fallback block.
    Switch { table: Vec<(u128, BasicBlock)>, otherwise: BasicBlock },
}

/// Where an emitted switch goes when its subject has the value `v`: a
/// boolean subject is true when it is not zero.
pub open spec fn lowering_jumps_to(l: SwitchLowering, v: u128, b: BasicBlock) -> bool {
    match l {
        SwitchLowering::BoolBranch { then_block, else_block } => b == (if v != 0 {
            then_block
        } else {
            else_block
        }),
        SwitchLowering::CompareBranch { value, then_block, else_block } => b == (if v == value {
            then_block
        } else {
            else_block
        }),
        SwitchLowering::Switch { table, otherwise } => table_jumps_to(table@, otherwise, v, b),
    }
}

/// Where a switch over `table` with the fallback `otherwise` goes on the
/// value `v`: to the block of the first entry with that value, else to the
/// fallback.
pub open spec fn table_jumps_to(table: Seq<(u128, BasicBlock)>, otherwise: BasicBlock, v: u128, b: BasicBlock) -> bool {
    if exists|k: int| 0 <= k < table.len() && table[k].0 == v {
        exists|k: int|
            0 <= k < table.len() && table[k].0 == v && (forall|j: int| 0 <= j < k ==> table[j].0 != v) && b
                == table[k].1
    } else {
        b == otherwise
    }
}

/// A switch with one entry jumps to its block on its value, else to the
/// fallback.
proof fn lemma_one_entry_jumps(targets: &SwitchTargets, v: u128, b: BasicBlock)
    requires
        targets.wf(),
        targets.values_view().len() == 1,
        targets.otherwise is Some,
    ensures
        targets.jumps_to(v, b) <==> b == (if v == targets.values_view()[0] {
            targets.targets_view()[0]
        } else {
            targets.otherwise->0
        }),
{
    let vs = targets.values_view();
    let bs = targets.targets_view();
    if v == vs[0] {
        assert(0 <= 0 < vs.len() && vs[0] == v);
        if targets.jumps_to(v, b) {
            let k = choose|k: int|
                0 <= k < vs.len() && vs[k] == v && (forall|j: int| 0 <= j < k ==> vs[j] != v) && b == bs[k];
            assert(k == 0);
        }
    } else {
        assert(!(exists|k: int| 0 <= k < vs.len() && vs[k] == v));
    }
}

/// A switch with two entries jumps, on one of its values, to the block of
/// the first entry with that value.
proof fn lemma_two_entries_jump(targets: &SwitchTargets, v: u128, b: BasicBlock)
    requires
        targets.wf(),
        targets.values_view().len() == 2,
        targets.values_view().contains(v),
    ensures
        targets.jumps_to(v, b) <==> b == (if v == targets.values_view()[0] {
            targets.targets_view()[0]
        } else {
            targets.targets_view()[1]
        }),
{
    let vs = targets.values_view();
    let bs = targets.targets_view();
    let k0 = choose|k: int| 0 <= k < vs.len() && vs[k] == v;
    if targets.jumps_to(v, b) {
        let k = choose|k: int|
            0 <= k < vs.len() && vs[k] == v && (forall|j: int| 0 <= j < k ==> vs[j] != v) && b == bs[k];
        if v == vs[0] {
            assert(k == 0);
        } else {
            assert(k == 1);
        }
    }
    if v != vs[0] {
        assert(k0 == 1);
        assert(forall|j: int| 0 <= j < 1 ==> vs[j] != v);
    } else {
        assert(forall|j: int| 0 <= j < 0 ==> vs[j] != v);
    }
}

/// A switch over a copy of the jump table and the same fallback jumps
/// where the switch does.
proof fn lemma_table_jumps(targets: &SwitchTargets, table: Seq<(u128, BasicBlock)>, ow: BasicBlock, v: u128, b: BasicBlock)
    requires
        targets.wf(),
        Some(ow) == targets.otherwise,
        table.len() == targets.values_view().len(),
        forall|k: int| 0 <= k < table.len() ==> #[trigger] table[k] == (targets.values_view()[k], targets.targets_view()[k]),
    ensures
        targets.jumps_to(v, b) <==> table_jumps_to(table, ow, v, b),
{
    let vs = targets.values_view();
    let bs = targets.targets_view();
    assert forall|k: int| 0 <= k < table.len() implies #[trigger] table[k].0 == vs[k] && table[k].1 == bs[k] by {
        assert(table[k] == (vs[k], bs[k]));
    }
    if exists|k: int| 0 <= k < vs.len() && vs[k] == v {
        let k = choose|k: int| 0 <= k < vs.len() && vs[k] == v;
        assert(table[k].0 == v);
        assert(exists|k: int| 0 <= k < table.len() && table[k].0 == v);
        if targets.jumps_to(v, b) {
            let k = choose|k: int|
                0 <= k < vs.len() && vs[k] == v && (forall|j: int| 0 <= j < k ==> vs[j] != v) && b == bs[k];
            assert forall|j: int| 0 <= j < k implies table[j].0 != v by {
                assert(table[j].0 == vs[j]);
            }
            assert(table[k].0 == v && b == table[k].1);
            assert(table_jumps_to(table, ow, v, b));
        }
        if table_jumps_to(table, ow, v, b) {
            let k = choose|k: int|
                0 <= k < table.len() && table[k].0 == v && (forall|j: int| 0 <= j < k ==> table[j].0 != v)
                    && b == table[k].1;
            assert forall|j: int| 0 <= j < k implies vs[j] != v by {
                assert(table[j].0 == vs[j]);
            }
            assert(vs[k] == v && b == bs[k]);
            assert(targets.jumps_to(v, b));
        }
    } else {
        assert forall|k: int| 0 <= k < table.len() implies table[k].0 != v by {
            assert(vs[k] != v);
        }
        assert(!(exists|k: int| 0 <= k < table.len() && table[k].0 == v));
    }
}

/// Decide how to emit a switch on a subject.
///
/// A jump table of one entry becomes a single branch: on a boolean subject a
/// branch on the subject itself (the entry's value says which way round),
/// else a comparison with the entry's value. A table of two entries whose
/// fallback block is empty and unreachable becomes a comparison with the
/// first value when `prefer_branches` holds (an unoptimised build on a
/// backend that emits branches faster than switches). Anything else is a
/// switch over the table.
pub fn plan_switch_terminator(
    targets: &SwitchTargets,
    subject_is_bool: bool,
    otherwise_is_unreachable: bool,
    prefer_branches: bool,
) -> (r: SwitchLowering)
    requires
        targets.wf(),
        targets.otherwise is Some,
        subject_is_bool && targets.values_view().len() == 1 ==> targets.values_view()[0] == 0
            || targets.values_view()[0] == 1,
    ensures
        ({
            let vs = targets.values_view();
            let bs = targets.targets_view();
            let ow = targets.otherwise->0;
            if vs.len() == 1 && subject_is_bool {
                r == (if vs[0] == 1 {
                    SwitchLowering::BoolBranch { then_block: bs[0], else_block: ow }
                } else {
                    SwitchLowering::BoolBranch { then_block: ow, else_block: bs[0] }
                })
            } else if vs.len() == 1 {
                r == SwitchLowering::CompareBranch { value: vs[0], then_block: bs[0], else_block: ow }
            } else if vs.len() == 2 && otherwise_is_unreachable && prefer_branches {
                r == SwitchLowering::CompareBranch { value: vs[0], then_block: bs[0], else_block: bs[1] }
            } else {
                r matches SwitchLowering::Switch { table, otherwise } && otherwise == ow && table@.len()
                    == vs.len() && forall|k: int| 0 <= k < vs.len() ==> #[trigger] table@[k] == (vs[k], bs[k])
            }
        }),
        // The emitted code goes where the switch goes, for every value that a
        // boolean subject can take, unless the fallback is unreachable and the
        // value is not in the table.
        forall|v: u128, b: BasicBlock|
            #![trigger lowering_jumps_to(r, v, b)]
            (subject_is_bool ==> v <= 1) && (!otherwise_is_unreachable || targets.values_view().contains(v))
                ==> (targets.jumps_to(v, b) <==> lowering_jumps_to(r, v, b)),
{
    let mut it = targets.iter();
    let n = it.pairs.len();
    let otherwise = targets.otherwise();
    let r = if n == 1 {
        let (value, target) = it.pairs[0];
        if subject_is_bool {
            if value == 1 {
                SwitchLowering::BoolBranch { then_block: target, else_block: otherwise }
            } else {
                SwitchLowering::BoolBranch { then_block: otherwise, else_block: target }
            }
        } else {
            SwitchLowering::CompareBranch { value, then_block: target, else_block: otherwise }
        }
    } else if n == 2 && otherwise_is_unreachable && prefer_branches {
        let (value, target_1) = it.pairs[0];
        let (_, target_2) = it.pairs[1];
        SwitchLowering::CompareBranch { value, then_block: target_1, else_block: target_2 }
    } else {
        SwitchLowering::Switch { table: it.pairs, otherwise }
    };
    proof {
        assert forall|v: u128, b: BasicBlock|
            (subject_is_bool ==> v <= 1) && (!otherwise_is_unreachable || targets.values_view().contains(v)) implies (
            targets.jumps_to(v, b) <==> lowering_jumps_to(r, v, b)) by {
            if n == 1 {
                lemma_one_entry_jumps(targets, v, b);
            } else if n == 2 && otherwise_is_unreachable && prefer_branches {
                lemma_two_entries_jump(targets, v, b);
            } else {
                lemma_table_jumps(targets, it.pairs@, otherwise, v, b);
            }
        }
    }
    r
}

/// What a generated operand is: an immediate value, a pair of immediate
/// values, or a reference to memory with the given alignment in bytes.
#[derive(Debug, Clone, Copy, PartialEq, Eq, Structural)]
pub enum OperandShape {
    Immediate,
    Pair,
    Ref { alignment: u64 },
}

/// How the ABI represents an argument's layout.
#[derive(Debug, Clone, Copy, PartialEq, Eq, Structural)]
pub enum AbiShape {
    /// A scalar, which may be a boolean.
    Scalar { is_bool: bool },
    Other,
}

/// Where the value passed for an argument comes from.
#[derive(Debug, Clone, Copy, PartialEq, Eq, Structural)]
pub enum ArgSource {
    /// The operand's immediate value, at the ABI's alignment.
    Immediate,
    /// A new stack slot of the argument's layout, that the operand is
    /// stored into.
    Spill,
    /// A new stack slot of the argument's layout, that the referenced
    /// memory is copied into, to meet the ABI's alignment.
    AlignedCopy,
    /// The operand's reference itself.
    Reference,
}

/// How an argument is passed: its source, and whether the value is then
/// loaded from the source, marked as a boolean's range, and turned into
/// an immediate.
#[derive(Debug, Clone, Copy, PartialEq, Eq, Structural)]
pub struct ArgLowering {
    pub source: ArgSource,
    pub load: bool,
    pub bool_range: bool,
    pub to_immediate: bool,
}

/// Decide how to pass an operand as an argument of the given ABI: nothing
/// for an ignored argument. An immediate operand passed indirectly is
/// spilled to the stack; a reference passed indirectly whose alignment is
/// below the ABI's is copied to an aligned slot. A reference passed
/// directly is loaded, and a scalar loaded this way becomes an immediate,
/// with a boolean's range attached when it is a boolean.
pub fn plan_fn_argument(arg_abi: &ArgAbi, operand: OperandShape, abi_alignment: u64, abi: AbiShape) -> (r: Option<ArgLowering>)
    ensures
        arg_abi.mode is Ignore <==> r is None,
        r matches Some(l) ==> {
            &&& l.source == match operand {
                OperandShape::Ref { alignment } => if arg_abi.mode is Indirect && alignment < abi_alignment {
                    ArgSource::AlignedCopy
                } else {
                    ArgSource::Reference
                },
                _ => if arg_abi.mode is Indirect {
                    ArgSource::Spill
                } else {
                    ArgSource::Immediate
                },
            }
            &&& l.load == (operand is Ref && arg_abi.mode is Direct)
            &&& l.to_immediate == (l.load && abi is Scalar)
            &&& l.bool_range == (l.load && abi == AbiShape::Scalar { is_bool: true })
        },
{
    if arg_abi.is_ignored() {
        return None;
    }
    let (source, by_ref) = match operand {
        OperandShape::Immediate | OperandShape::Pair => match arg_abi.mode {
            PassMode::Indirect { .. } => (ArgSource::Spill, true),
            _ => (ArgSource::Immediate, false),
        },
        OperandShape::Ref { alignment } => {
            if arg_abi.is_indirect() && alignment < abi_alignment {
                (ArgSource::AlignedCopy, true)
            } else {
                (ArgSource::Reference, true)
            }
        },
    };
    let mut lowering = ArgLowering { source, load: false, bool_range: false, to_immediate: false };
    if by_ref && !arg_abi.is_indirect() {
        if let PassMode::Direct(_) = arg_abi.mode {
            lowering.load = true;
            if let AbiShape::Scalar { is_bool } = abi {
                lowering.bool_range = is_bool;
                lowering.to_immediate = true;
            }
        }
    }
    Some(lowering)
}

} // verus!
