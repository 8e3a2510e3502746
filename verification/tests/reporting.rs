use hash_compiler::abi::{ArgAbi, ArgAttributeFlags, ArgAttributes, ArgExtension, PassMode, TyInfo};
use hash_compiler::driver::{error_prefix, ErrorType};
use hash_compiler::ir::IrTyId;
use hash_compiler::parser::diagnostics::TyArgumentKind;
use hash_compiler::reporting::{
    HashErrorCode, Report, ReportElement, ReportKind, ReportNoteKind, SourceId, SourceLocation, Span,
};
use hash_compiler::semantics::AppliedDirectives;

#[test]
fn a_new_report_is_an_untitled_error() {
    let r = Report::new();
    assert!(r.is_error());
    assert!(!r.is_warning());
    assert_eq!(r.title, "Bottom text");
    assert!(r.error_code.is_none());
    assert!(r.contents.is_empty());
}

#[test]
fn report_builders_chain() {
    let mut r = Report::new();
    let loc = SourceLocation { span: Span { start: 1, end: 4 }, id: SourceId(0) };
    r.kind(ReportKind::Warning)
        .title("unused".to_string())
        .code(HashErrorCode::UnresolvedSymbol)
        .add_span(loc)
        .add_help("remove it".to_string())
        .add_labelled_span(loc, "here".to_string());
    assert!(r.is_warning());
    assert_eq!(r.title, "unused");
    assert_eq!(r.error_code, Some(HashErrorCode::UnresolvedSymbol));
    assert_eq!(r.contents.len(), 3);
    match &r.contents[1] {
        ReportElement::Note(n) => {
            assert_eq!(n.label, ReportNoteKind::Help);
            assert_eq!(n.message, "remove it");
        }
        _ => panic!("expected a note"),
    }
    match &r.contents[2] {
        ReportElement::CodeBlock(b) => {
            assert_eq!(b.code_message, "here");
            assert_eq!(b.source_location, loc);
        }
        _ => panic!("expected a code block"),
    }
}

#[test]
fn labels_of_kinds() {
    assert_eq!(ReportKind::Warning.message(), "warn");
    assert_eq!(ReportKind::Internal.message(), "internal");
    assert_eq!(ReportNoteKind::Help.as_str(), "help");
    assert_eq!(ReportNoteKind::Note.as_str(), "note");
    assert_eq!(TyArgumentKind::Enum.as_str(), "enumeration");
    assert_eq!(error_prefix(ErrorType::IoError), "Failed to read file");
    assert_eq!(error_prefix(ErrorType::default()), "Internal Panic");
}

#[test]
fn argument_passing_modes() {
    let attrs = ArgAttributes { flags: ArgAttributeFlags::empty(), extension: ArgExtension::NoExtend };
    let info = TyInfo { ty: IrTyId(0), layout: 0 };
    assert!(ArgAbi { info, mode: PassMode::Indirect { attributes: attrs, on_stack: false } }.is_indirect());
    assert!(ArgAbi { info, mode: PassMode::Ignore }.is_ignored());
    assert!(!ArgAbi { info, mode: PassMode::Direct(attrs) }.is_ignored());
    let mut flags = ArgAttributeFlags::empty();
    flags.insert(ArgAttributeFlags::NO_ALIAS | ArgAttributeFlags::NON_NULL);
    assert!(flags.contains(ArgAttributeFlags::NON_NULL));
    assert!(!flags.contains(ArgAttributeFlags::READ_ONLY));
    flags.remove(ArgAttributeFlags::NON_NULL);
    assert!(!flags.contains(ArgAttributeFlags::NON_NULL));
}

#[test]
fn applied_directives() {
    let mut d = AppliedDirectives::empty();
    assert!(!d.is_intrinsics());
    d.insert(AppliedDirectives::ENTRY_POINT);
    assert!(d.is_entry_point());
    assert!(!d.is_intrinsics());
    d.insert(AppliedDirectives::INTRINSICS);
    assert!(d.is_intrinsics());
}
