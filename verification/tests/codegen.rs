use hash_compiler::abi::{ArgAbi, ArgAttributeFlags, ArgAttributes, ArgExtension, PassMode, TyInfo};
use hash_compiler::codegen::{
    plan_fn_argument, plan_switch_terminator, AbiShape, ArgLowering, ArgSource, OperandShape, SwitchLowering,
};
use hash_compiler::ir::{BasicBlock, IrTyId, SwitchTargets};

fn bb(n: u32) -> BasicBlock {
    BasicBlock(n)
}

#[test]
fn a_single_boolean_entry_branches_on_the_subject() {
    let t = SwitchTargets::new(vec![(0, bb(1))], Some(bb(2)));
    match plan_switch_terminator(&t, true, false, false) {
        SwitchLowering::BoolBranch { then_block, else_block } => {
            assert_eq!(then_block, bb(2));
            assert_eq!(else_block, bb(1));
        }
        _ => panic!("expected a branch"),
    }
    let t = SwitchTargets::new(vec![(1, bb(1))], Some(bb(2)));
    match plan_switch_terminator(&t, true, false, false) {
        SwitchLowering::BoolBranch { then_block, else_block } => {
            assert_eq!(then_block, bb(1));
            assert_eq!(else_block, bb(2));
        }
        _ => panic!("expected a branch"),
    }
}

#[test]
fn a_single_integer_entry_compares() {
    let t = SwitchTargets::new(vec![(7, bb(1))], Some(bb(2)));
    match plan_switch_terminator(&t, false, true, true) {
        SwitchLowering::CompareBranch { value, then_block, else_block } => {
            assert_eq!(value, 7);
            assert_eq!(then_block, bb(1));
            assert_eq!(else_block, bb(2));
        }
        _ => panic!("expected a comparison"),
    }
}

#[test]
fn two_entries_branch_only_when_preferred() {
    let t = SwitchTargets::new(vec![(3, bb(1)), (4, bb(5))], Some(bb(2)));
    match plan_switch_terminator(&t, false, true, true) {
        SwitchLowering::CompareBranch { value, then_block, else_block } => {
            assert_eq!(value, 3);
            assert_eq!(then_block, bb(1));
            assert_eq!(else_block, bb(5));
        }
        _ => panic!("expected a comparison"),
    }
    match plan_switch_terminator(&t, false, false, true) {
        SwitchLowering::Switch { table, otherwise } => {
            assert_eq!(table, vec![(3, bb(1)), (4, bb(5))]);
            assert_eq!(otherwise, bb(2));
        }
        _ => panic!("expected a switch"),
    }
    let t = SwitchTargets::new(vec![(3, bb(1)), (4, bb(5)), (9, bb(6))], Some(bb(2)));
    assert!(matches!(plan_switch_terminator(&t, false, true, true), SwitchLowering::Switch { .. }));
}

fn abi(mode: PassMode) -> ArgAbi {
    ArgAbi { info: TyInfo { ty: IrTyId(0), layout: 0 }, mode }
}

fn attrs() -> ArgAttributes {
    ArgAttributes { flags: ArgAttributeFlags::empty(), extension: ArgExtension::NoExtend }
}

#[test]
fn ignored_arguments_are_not_passed() {
    assert_eq!(plan_fn_argument(&abi(PassMode::Ignore), OperandShape::Immediate, 8, AbiShape::Other), None);
}

#[test]
fn indirect_arguments_are_passed_by_reference() {
    let ind = abi(PassMode::Indirect { attributes: attrs(), on_stack: false });
    let l = plan_fn_argument(&ind, OperandShape::Pair, 8, AbiShape::Other).unwrap();
    assert_eq!(l, ArgLowering { source: ArgSource::Spill, load: false, bool_range: false, to_immediate: false });
    let l = plan_fn_argument(&ind, OperandShape::Ref { alignment: 4 }, 8, AbiShape::Other).unwrap();
    assert_eq!(l.source, ArgSource::AlignedCopy);
    let l = plan_fn_argument(&ind, OperandShape::Ref { alignment: 8 }, 8, AbiShape::Other).unwrap();
    assert_eq!(l.source, ArgSource::Reference);
    assert!(!l.load);
}

#[test]
fn direct_references_are_loaded() {
    let dir = abi(PassMode::Direct(attrs()));
    let l = plan_fn_argument(&dir, OperandShape::Immediate, 8, AbiShape::Scalar { is_bool: true }).unwrap();
    assert_eq!(l, ArgLowering { source: ArgSource::Immediate, load: false, bool_range: false, to_immediate: false });
    let l = plan_fn_argument(&dir, OperandShape::Ref { alignment: 1 }, 8, AbiShape::Scalar { is_bool: true }).unwrap();
    assert_eq!(l, ArgLowering { source: ArgSource::Reference, load: true, bool_range: true, to_immediate: true });
    let l = plan_fn_argument(&dir, OperandShape::Ref { alignment: 1 }, 8, AbiShape::Other).unwrap();
    assert_eq!(l, ArgLowering { source: ArgSource::Reference, load: true, bool_range: false, to_immediate: false });
}

fn plan_target(plan: &SwitchLowering, v: u128) -> BasicBlock {
    match plan {
        SwitchLowering::BoolBranch { then_block, else_block } => if v != 0 { *then_block } else { *else_block },
        SwitchLowering::CompareBranch { value, then_block, else_block } => {
            if v == *value { *then_block } else { *else_block }
        }
        SwitchLowering::Switch { table, otherwise } => {
            table.iter().find(|(x, _)| *x == v).map(|(_, b)| *b).unwrap_or(*otherwise)
        }
    }
}

#[test]
fn lowered_switches_jump_where_the_switch_does() {
    let t = SwitchTargets::new(vec![(3, bb(1)), (4, bb(5))], Some(bb(2)));
    let plan = plan_switch_terminator(&t, false, true, true);
    for v in [3u128, 4] {
        assert_eq!(plan_target(&plan, v), t.corresponding_target(v));
    }
    let t = SwitchTargets::new(vec![(0, bb(1))], Some(bb(2)));
    let plan = plan_switch_terminator(&t, true, false, false);
    for v in [0u128, 1] {
        assert_eq!(plan_target(&plan, v), t.corresponding_target(v));
    }
    let t = SwitchTargets::new(vec![(1, bb(1)), (2, bb(3)), (1, bb(4))], Some(bb(2)));
    let plan = plan_switch_terminator(&t, false, false, true);
    for v in [0u128, 1, 2, 9] {
        assert_eq!(plan_target(&plan, v), t.corresponding_target(v));
    }
}
