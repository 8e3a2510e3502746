use hash_compiler::lower::{DiscoveredFns, IrGen};
use hash_compiler::tir::store::FnDefId;

#[test]
fn discovered_functions_are_kept_once_in_order() {
    let mut fns = DiscoveredFns::new();
    fns.add_fn(FnDefId(3));
    fns.add_fn(FnDefId(1));
    fns.add_fn(FnDefId(3));
    assert!(fns.contains(FnDefId(1)));
    assert!(!fns.contains(FnDefId(2)));
    assert_eq!(fns.into_iter(), vec![FnDefId(3), FnDefId(1)]);
}

#[test]
fn a_new_ir_generator_has_no_layouts() {
    assert!(IrGen::new().layouts_to_generate.is_empty());
}
