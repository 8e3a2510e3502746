use hash_compiler::ir::{LogicalBinOp, UnaryOp};
use hash_compiler::tir::intrinsics;
use hash_compiler::ir::{
    AssertKind, AstNodeId, Terminator,
    BasicBlock, BinOp, Const, Dominators, IrRef, IrTyId, Local, Operand, Place, RValue, SwitchTargets,
    TerminatorKind,
};

#[test]
fn switch_targets_pick_the_first_matching_value() {
    let t = SwitchTargets::new(vec![(1, BasicBlock(10)), (2, BasicBlock(20)), (1, BasicBlock(30))], Some(BasicBlock(99)));
    assert_eq!(t.corresponding_target(1), BasicBlock(10));
    assert_eq!(t.corresponding_target(2), BasicBlock(20));
    assert_eq!(t.corresponding_target(7), BasicBlock(99));
    assert!(t.has_otherwise());
    assert_eq!(t.otherwise(), BasicBlock(99));
    assert_eq!(t.iter_targets(), vec![BasicBlock(99), BasicBlock(10), BasicBlock(20), BasicBlock(30)]);
}

#[test]
fn replacing_an_edge_redirects_every_jump_to_it() {
    let mut t = SwitchTargets::new(vec![(1, BasicBlock(10)), (2, BasicBlock(20))], Some(BasicBlock(10)));
    t.replace_edge(BasicBlock(10), BasicBlock(11));
    assert_eq!(t.corresponding_target(1), BasicBlock(11));
    assert_eq!(t.corresponding_target(5), BasicBlock(11));
    assert_eq!(t.corresponding_target(2), BasicBlock(20));
}

#[test]
fn the_iterator_yields_the_table() {
    let t = SwitchTargets::new(vec![(4, BasicBlock(1)), (5, BasicBlock(2))], None);
    let mut it = t.iter();
    assert_eq!(it.size_hint(), (2, Some(2)));
    assert_eq!(it.next(), Some((4, BasicBlock(1))));
    assert_eq!(it.next(), Some((5, BasicBlock(2))));
    assert_eq!(it.next(), None);
}

#[test]
fn if_terminators_switch_on_false() {
    let cond = Operand::from_const(Const::bool(true));
    match TerminatorKind::make_if(cond, BasicBlock(1), BasicBlock(2)) {
        TerminatorKind::Switch { targets, .. } => {
            assert_eq!(targets.corresponding_target(0), BasicBlock(2));
            assert_eq!(targets.corresponding_target(1), BasicBlock(1));
        }
        _ => panic!("expected a switch"),
    }
}

#[test]
fn binary_operator_types() {
    assert_eq!(BinOp::Add.ty(IrTyId(7), IrTyId(7)), IrTyId(7));
    assert_eq!(BinOp::Lt.ty(IrTyId(7), IrTyId(8)), IrTyId(0));
    assert_eq!(BinOp::Shl.ty(IrTyId(7), IrTyId(8)), IrTyId(7));
    assert!(BinOp::Mul.is_checkable());
    assert!(!BinOp::Div.is_checkable());
    assert!(BinOp::GtEq.is_comparator());
    assert_eq!(BinOp::Exp.to_str(), "**");
}

#[test]
fn places_and_rvalues() {
    assert_eq!(Place::return_place().as_local(), Some(Local(0)));
    assert_eq!(Place::from_local(Local(3)).as_local(), Some(Local(3)));
    let c = Const { ty: IrTyId(1), data: 5 };
    let rv = RValue::from_const(c);
    assert!(rv.is_const());
    assert_eq!(rv.as_const(), c);
}

#[test]
fn dominance_follows_immediate_dominators() {
    // 0 <- 1 <- 2, and 3 dominated by 0
    let d = Dominators { immediate: vec![BasicBlock(0), BasicBlock(0), BasicBlock(1), BasicBlock(0)] };
    assert!(d.is_dominated_by(BasicBlock(2), BasicBlock(0)));
    assert!(d.is_dominated_by(BasicBlock(2), BasicBlock(1)));
    assert!(!d.is_dominated_by(BasicBlock(3), BasicBlock(1)));
    assert!(IrRef::new(BasicBlock(1), 3).dominates(IrRef::new(BasicBlock(1), 5), &d));
    assert!(!IrRef::new(BasicBlock(1), 5).dominates(IrRef::new(BasicBlock(1), 3), &d));
    // a reference in the entry block dominates one in a block below it
    assert!(IrRef::new(BasicBlock(0), 7).dominates(IrRef::new(BasicBlock(1), 0), &d));
    assert!(IrRef::new(BasicBlock(1), 7).dominates(IrRef::new(BasicBlock(2), 0), &d));
    assert!(!IrRef::new(BasicBlock(2), 0).dominates(IrRef::new(BasicBlock(1), 7), &d));
    assert!(!IrRef::new(BasicBlock(1), 0).dominates(IrRef::new(BasicBlock(3), 0), &d));
}

#[test]
fn assertions_keep_edges_to_other_blocks() {
    let operand = Operand::Place(Place::from_local(Local(1)));
    let mut t = Terminator {
        kind: TerminatorKind::Assert {
            condition: operand,
            expected: true,
            kind: Box::new(AssertKind::DivisionByZero { operand }),
            target: BasicBlock(4),
        },
        origin: AstNodeId(0),
    };
    t.replace_edge(BasicBlock(9), BasicBlock(5));
    assert_eq!(t.successors(), vec![BasicBlock(4)]);
    t.replace_edge(BasicBlock(4), BasicBlock(5));
    assert_eq!(t.successors(), vec![BasicBlock(5)]);
}

#[test]
fn intrinsic_operators_become_ir_operators() {
    assert_eq!(UnaryOp::from(intrinsics::UnOp::Neg), UnaryOp::Neg);
    assert_eq!(UnaryOp::from(intrinsics::UnOp::BitNot), UnaryOp::BitNot);
    assert_eq!(LogicalBinOp::from(intrinsics::ShortCircuitingBoolOp::And), LogicalBinOp::And);
    assert_eq!(LogicalBinOp::from(intrinsics::ShortCircuitingBoolOp::Or), LogicalBinOp::Or);
    assert_eq!(BinOp::from(intrinsics::BinOp::Exp), BinOp::Exp);
    assert_eq!(BinOp::from(intrinsics::BinOp::Mod), BinOp::Mod);
    assert_eq!(BinOp::from(intrinsics::CondBinOp::EqEq), BinOp::Eq);
    assert_eq!(BinOp::from(intrinsics::CondBinOp::NotEq), BinOp::Neq);
    assert_eq!(BinOp::from(intrinsics::CondBinOp::LtEq), BinOp::LtEq);
}

#[test]
fn binary_operators_print_as_their_symbols() {
    assert_eq!(BinOp::Exp.as_str(), "**");
    assert_eq!(BinOp::Neq.as_str(), "!=");
    assert_eq!(BinOp::Shl.as_str(), "<<");
    assert_eq!(BinOp::Mod.as_str(), "%");
}
