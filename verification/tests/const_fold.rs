use hash_compiler::const_fold::{ConstFolder, ScalarTy, Size};
use hash_compiler::ir::{BinOp, Const, IrTyId};

fn folder() -> ConstFolder {
    ConstFolder::new(vec![
        ScalarTy::Bool,
        ScalarTy::Int { signed: false, size: Size { bytes: 8 } },
        ScalarTy::Int { signed: true, size: Size { bytes: 1 } },
        ScalarTy::Int { signed: false, size: Size { bytes: 1 } },
        ScalarTy::Char,
        ScalarTy::Int { signed: true, size: Size { bytes: 16 } },
        ScalarTy::Other,
    ])
}

const I8: IrTyId = IrTyId(2);
const U8: IrTyId = IrTyId(3);
const CHAR: IrTyId = IrTyId(4);
const I128: IrTyId = IrTyId(5);
const BOOL: IrTyId = IrTyId(0);

fn c(ty: IrTyId, data: u128) -> Const {
    Const { ty, data }
}

#[test]
fn size_truncates_and_sign_extends() {
    let s = Size { bytes: 1 };
    assert_eq!(s.truncate(0x1ff), 0xff);
    assert_eq!(s.sign_extend(0xff), -1);
    assert_eq!(s.sign_extend(0x7f), 127);
    assert_eq!(s.signed_int_min(), -128);
    let big = Size { bytes: 16 };
    assert_eq!(big.truncate(u128::MAX), u128::MAX);
    assert_eq!(big.sign_extend(u128::MAX), -1);
    assert_eq!(big.signed_int_min(), i128::MIN);
}

#[test]
fn unsigned_addition_folds_when_it_fits() {
    let f = folder();
    assert_eq!(f.try_fold_bin_op(BinOp::Add, &c(U8, 200), &c(U8, 55)), Some(c(U8, 255)));
    assert_eq!(f.try_fold_bin_op(BinOp::Add, &c(U8, 200), &c(U8, 56)), None);
    assert_eq!(f.try_fold_bin_op(BinOp::Sub, &c(U8, 3), &c(U8, 5)), None);
    assert_eq!(f.try_fold_bin_op(BinOp::Mul, &c(U8, 15), &c(U8, 17)), Some(c(U8, 255)));
}

#[test]
fn signed_arithmetic_is_two_complement() {
    let f = folder();
    // -1 + -1 == -2
    assert_eq!(f.try_fold_bin_op(BinOp::Add, &c(I8, 0xff), &c(I8, 0xff)), Some(c(I8, 0xfe)));
    // 127 + 1 overflows
    assert_eq!(f.try_fold_bin_op(BinOp::Add, &c(I8, 0x7f), &c(I8, 1)), None);
    // -128 / -1 overflows
    assert_eq!(f.try_fold_bin_op(BinOp::Div, &c(I8, 0x80), &c(I8, 0xff)), None);
    // -7 / 2 == -3, rounding towards zero
    assert_eq!(f.try_fold_bin_op(BinOp::Div, &c(I8, 0xf9), &c(I8, 2)), Some(c(I8, 0xfd)));
    // -7 % 2 == -1, with the sign of the dividend
    assert_eq!(f.try_fold_bin_op(BinOp::Mod, &c(I8, 0xf9), &c(I8, 2)), Some(c(I8, 0xff)));
    // 7 % -2 == 1
    assert_eq!(f.try_fold_bin_op(BinOp::Mod, &c(I8, 7), &c(I8, 0xfe)), Some(c(I8, 1)));
}

#[test]
fn division_by_zero_does_not_fold() {
    let f = folder();
    assert_eq!(f.try_fold_bin_op(BinOp::Div, &c(I8, 5), &c(I8, 0)), None);
    assert_eq!(f.try_fold_bin_op(BinOp::Mod, &c(U8, 5), &c(U8, 0)), None);
}

#[test]
fn signed_comparison_reads_the_sign() {
    let f = folder();
    let bool_true = Const::bool(true);
    let bool_false = Const::bool(false);
    // -1 < 1 for signed, but 255 > 1 unsigned
    assert_eq!(f.try_fold_bin_op(BinOp::Lt, &c(I8, 0xff), &c(I8, 1)), Some(bool_true));
    assert_eq!(f.try_fold_bin_op(BinOp::Lt, &c(U8, 0xff), &c(U8, 1)), Some(bool_false));
    assert_eq!(f.try_fold_bin_op(BinOp::Eq, &c(I8, 3), &c(I8, 3)), Some(bool_true));
    assert_eq!(f.try_fold_bin_op(BinOp::Neq, &c(I8, 3), &c(I8, 3)), Some(bool_false));
}

#[test]
fn bitwise_operators_combine_bits() {
    let f = folder();
    assert_eq!(f.try_fold_bin_op(BinOp::BitOr, &c(U8, 0x0f), &c(U8, 0xf0)), Some(c(U8, 0xff)));
    assert_eq!(f.try_fold_bin_op(BinOp::BitAnd, &c(I8, 0x0f), &c(I8, 0x3c)), Some(c(I8, 0x0c)));
    assert_eq!(f.try_fold_bin_op(BinOp::BitXor, &c(U8, 0xff), &c(U8, 0x0f)), Some(c(U8, 0xf0)));
    assert_eq!(f.try_fold_bin_op(BinOp::Exp, &c(U8, 2), &c(U8, 3)), None);
}

#[test]
fn out_of_range_bits_do_not_fold() {
    let f = folder();
    assert_eq!(f.try_fold_bin_op(BinOp::Add, &c(U8, 256), &c(U8, 1)), None);
}

#[test]
fn wide_integers_fold() {
    let f = folder();
    let minus_one = u128::MAX;
    assert_eq!(f.try_fold_bin_op(BinOp::Add, &c(I128, minus_one), &c(I128, 2)), Some(c(I128, 1)));
    assert_eq!(f.try_fold_bin_op(BinOp::Mul, &c(I128, 1u128 << 126), &c(I128, 2)), None);
}

#[test]
fn booleans_fold() {
    let f = folder();
    assert_eq!(f.try_fold_bin_op(BinOp::Gt, &c(BOOL, 1), &c(BOOL, 0)), Some(Const::bool(true)));
    assert_eq!(f.try_fold_bin_op(BinOp::LtEq, &c(BOOL, 1), &c(BOOL, 0)), Some(Const::bool(false)));
    assert_eq!(f.try_fold_bin_op(BinOp::BitXor, &c(BOOL, 1), &c(BOOL, 1)), Some(Const::bool(false)));
    assert_eq!(f.try_fold_bin_op(BinOp::BitAnd, &c(BOOL, 2), &c(BOOL, 0)), None);
}

#[test]
fn characters_compare_by_code_point() {
    let f = folder();
    assert_eq!(f.try_fold_bin_op(BinOp::Lt, &c(CHAR, 'a' as u128), &c(CHAR, 'b' as u128)), Some(Const::bool(true)));
    assert_eq!(f.try_fold_bin_op(BinOp::Eq, &c(CHAR, 0xD800), &c(CHAR, 'b' as u128)), None);
}

#[test]
fn other_types_do_not_fold() {
    let f = folder();
    assert_eq!(f.try_fold_bin_op(BinOp::Add, &c(IrTyId(6), 1), &c(IrTyId(6), 1)), None);
    assert_eq!(f.try_fold_bin_op(BinOp::Add, &c(IrTyId(40), 1), &c(IrTyId(40), 1)), None);
}

#[test]
fn folders_check_their_integer_sizes() {
    assert!(ConstFolder::new(vec![ScalarTy::Int { signed: true, size: Size { bytes: 4 } }, ScalarTy::Bool]).is_wf());
    assert!(!ConstFolder::new(vec![ScalarTy::Int { signed: false, size: Size { bytes: 3 } }]).is_wf());
}
