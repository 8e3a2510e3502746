use hash_compiler::parser::diagnostics::{decimal_string, ParseError, ParseErrorKind, TyArgumentKind};
use hash_compiler::reporting::{ReportElement, ReportKind, ReportNoteKind, SourceId, SourceLocation, Span};

fn loc() -> SourceLocation {
    SourceLocation { span: Span { start: 3, end: 9 }, id: SourceId(1) }
}

#[test]
fn unexpected_keyword_names_it_twice() {
    let err = ParseError {
        kind: ParseErrorKind::Keyword,
        location: loc(),
        expected: None,
        received: Some("keyword `for`".to_string()),
    };
    let r = err.into_report();
    assert_eq!(r.kind, ReportKind::Error);
    assert_eq!(r.title, "encountered an unexpected keyword keyword `for`, however received keyword `for`");
    assert_eq!(r.contents.len(), 1);
}

#[test]
fn unexpected_token_is_named_once() {
    let err = ParseError {
        kind: ParseErrorKind::Expected,
        location: loc(),
        expected: Some("either `,` or `)`".to_string()),
        received: Some("`;`".to_string()),
    };
    let r = err.into_report();
    assert_eq!(r.title, "unexpectedly encountered `;`");
    match &r.contents[0] {
        ReportElement::CodeBlock(b) => {
            assert_eq!(b.code_message, "here");
            assert_eq!(b.source_location, loc());
            assert!(b.info.is_none());
        }
        _ => panic!("expected a code block"),
    }
    match &r.contents[1] {
        ReportElement::Note(n) => {
            assert_eq!(n.label, ReportNoteKind::Help);
            assert_eq!(n.message, "consider adding either `,` or `)`");
        }
        _ => panic!("expected a note"),
    }
}

#[test]
fn end_of_input() {
    let err = ParseError { kind: ParseErrorKind::Expected, location: loc(), expected: None, received: None };
    assert_eq!(err.into_report().title, "unexpectedly reached the end of input");
}

#[test]
fn type_definitions_name_their_kind() {
    let err = ParseError {
        kind: ParseErrorKind::TypeDefinition(TyArgumentKind::Enum),
        location: loc(),
        expected: None,
        received: None,
    };
    assert_eq!(err.into_report().title, "expected enumeration definition entries here which begin with a `(`");
}

#[test]
fn malformed_spreads_count_the_dots() {
    let err = ParseError {
        kind: ParseErrorKind::MalformedSpreadPattern(2),
        location: loc(),
        expected: None,
        received: Some("`.`".to_string()),
    };
    assert_eq!(
        err.into_report().title,
        "malformed spread pattern, expected 2 more `.` to complete the pattern, however received `.`"
    );
}

#[test]
fn decimal_strings() {
    assert_eq!(decimal_string(0), "0");
    assert_eq!(decimal_string(42), "42");
    assert_eq!(decimal_string(255), "255");
    assert_eq!(decimal_string(100), "100");
}
