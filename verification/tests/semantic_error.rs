use hash_compiler::reporting::{
    HashErrorCode, Report, ReportElement, ReportKind, ReportNoteKind, Reporter, SourceId, SourceLocation, Span,
};
use hash_compiler::semantic_error::{LookupContext, SemanticError};

fn loc(n: usize) -> SourceLocation {
    SourceLocation { span: Span { start: n, end: n + 1 }, id: SourceId(0) }
}

fn note(r: &Report, i: usize) -> (ReportNoteKind, String) {
    match &r.contents[i] {
        ReportElement::Note(n) => (n.label, n.message.clone()),
        _ => panic!("expected a note"),
    }
}

fn block(r: &Report, i: usize) -> (SourceLocation, String) {
    match &r.contents[i] {
        ReportElement::CodeBlock(b) => (b.source_location, b.code_message.clone()),
        _ => panic!("expected a code block"),
    }
}

#[test]
fn a_missing_member_is_reported_with_its_definition() {
    let err = SemanticError::SymbolNotFound {
        name: "x".to_string(),
        location: loc(1),
        looking_in: LookupContext::Access { description: "struct `Foo`".to_string(), definition: Some(loc(9)) },
    };
    let reports = err.into_reports();
    assert_eq!(reports.len(), 1);
    let r = &reports[0];
    assert_eq!(r.kind, ReportKind::Error);
    assert_eq!(r.error_code, Some(HashErrorCode::UnresolvedSymbol));
    assert_eq!(r.title, "cannot find member `x` in struct `Foo`");
    assert_eq!(block(r, 0), (loc(1), "tried to look for member `x` in struct `Foo`".to_string()));
    assert_eq!(block(r, 1), (loc(9), String::new()));
    assert_eq!(note(r, 2), (ReportNoteKind::Info, "struct `Foo` is defined here, and has no member `x`".to_string()));
}

#[test]
fn a_missing_name_is_reported_where_it_was_used() {
    let err = SemanticError::SymbolNotFound {
        name: "y".to_string(),
        location: loc(2),
        looking_in: LookupContext::Environment { description: "the current scope".to_string() },
    };
    let reports = err.into_reports();
    assert_eq!(reports[0].title, "cannot find name `y` in the current scope");
    assert_eq!(reports[0].contents.len(), 1);
}

#[test]
fn compound_errors_report_each_in_order_and_signals_nothing() {
    let inner = Report::new();
    let err = SemanticError::Compound {
        errors: vec![
            SemanticError::CannotUseDataTypeInValuePosition { location: loc(3) },
            SemanticError::Signal,
            SemanticError::NeedMoreTypeAnnotationsToInfer { term_location: None },
            SemanticError::TypeError { reports: vec![inner] },
            SemanticError::UnexpectedArguments { location: loc(4) },
        ],
    };
    let mut reporter = Reporter::new();
    err.add_to_reporter(&mut reporter);
    let reports = reporter.into_reports();
    assert_eq!(reports.len(), 4);
    assert_eq!(reports[0].title, "cannot use a data type in expression position");
    assert_eq!(reports[0].error_code, Some(HashErrorCode::NonRuntimeInstantiable));
    assert_eq!(note(&reports[0], 0), (ReportNoteKind::Help, "consider using a constructor call instead".to_string()));
    assert_eq!(block(&reports[0], 1).0, loc(3));
    assert_eq!(reports[1].title, "cannot infer the type of this term");
    assert!(reports[1].contents.is_empty());
    assert_eq!(reports[2].title, "Bottom text");
    assert_eq!(reports[3].title, "unexpected arguments given to subject");
    assert_eq!(
        note(&reports[3], 1),
        (ReportNoteKind::Info, "cannot use these arguments as the subject does not expect them".to_string())
    );
}
