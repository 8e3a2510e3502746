//! Diagnostics of the parser.

use vstd::prelude::*;
use vstd::string::{StringExecFns};

use crate::reporting::{
    ElementView, Report, ReportCodeBlock, ReportElement, ReportKind, ReportNote, ReportNoteKind,
    SourceLocation,
};

verus! {

/// The kind of definition where type arguments can be expected.
#[derive(Debug, Clone, Copy, PartialEq, Eq, Structural)]
pub enum TyArgumentKind {
    /// Type arguments at a struct definition.
    Struct,
    /// Type arguments at an enum definition.
    Enum,
}

impl TyArgumentKind {
    /// The word that a message uses for the kind.
    pub fn as_str(&self) -> (r: &'static str)
        ensures
            r@ == match *self {
                TyArgumentKind::Struct => "struct"@,
                TyArgumentKind::Enum => "enumeration"@,
            },
    {
        match self {
            TyArgumentKind::Struct => "struct",
            TyArgumentKind::Enum => "enumeration",
        }
    }
}


/// The decimal digits of `n`.
pub open spec fn decimal(n: nat) -> Seq<char>
    decreases n,
{
    if n < 10 {
        seq![digit_char(n)]
    } else {
        decimal(n / 10).push(digit_char(n % 10))
    }
}

/// The character of a decimal digit.
pub open spec fn digit_char(d: nat) -> char {
    if d == 0 { '0' } else if d == 1 { '1' } else if d == 2 { '2' } else if d == 3 { '3' } else if d == 4 { '4' }
    else if d == 5 { '5' } else if d == 6 { '6' } else if d == 7 { '7' } else if d == 8 { '8' } else { '9' }
}

/// The string of a decimal digit.
fn digit_str(d: u8) -> (r: &'static str)
    requires
        d < 10,
    ensures
        r@ == seq![digit_char(d as nat)],
{
    proof {
        reveal_strlit("0");
        reveal_strlit("1");
        reveal_strlit("2");
        reveal_strlit("3");
        reveal_strlit("4");
        reveal_strlit("5");
        reveal_strlit("6");
        reveal_strlit("7");
        reveal_strlit("8");
        reveal_strlit("9");
    }
    if d == 0 { "0" } else if d == 1 { "1" } else if d == 2 { "2" } else if d == 3 { "3" } else if d == 4 { "4" }
    else if d == 5 { "5" } else if d == 6 { "6" } else if d == 7 { "7" } else if d == 8 { "8" } else { "9" }
}

/// The decimal digits of `n`, as a string.
pub fn decimal_string(n: u8) -> (r: String)
    ensures
        r@ == decimal(n as nat),
{
    if n < 10 {
        String::from_str(digit_str(n))
    } else if n < 100 {
        let mut s = String::from_str(digit_str(n / 10));
        s.append(digit_str(n % 10));
        proof {
            assert(decimal((n / 10) as nat) == seq![digit_char((n / 10) as nat)]);
            assert(s@ =~= decimal(n as nat));
        }
        s
    } else {
        let mut s = String::from_str(digit_str(n / 100));
        s.append(digit_str((n / 10) % 10));
        s.append(digit_str(n % 10));
        proof {
            assert(decimal((n / 100) as nat) == seq![digit_char((n / 100) as nat)]);
            assert((n / 10) / 10 == n / 100);
            assert(decimal((n / 10) as nat) =~= seq![digit_char((n / 100) as nat)].push(digit_char(((n / 10) % 10) as nat)));
            assert(s@ =~= decimal(n as nat));
        }
        s
    }
}

/// The kinds of errors of the parser.
pub enum ParseErrorKind {
    /// An unexpected keyword.
    Keyword,
    /// An unexpected token, or the end of the input.
    Expected,
    /// A block body was expected.
    Block,
    /// A re-assignment operator was expected.
    ReAssignmentOp,
    /// The entries of a definition with type arguments were expected.
    TypeDefinition(TyArgumentKind),
    ExpectedName,
    ExpectedOperator,
    ExpectedExpr,
    ExpectedArrow,
    ExpectedFnArrow,
    ExpectedFnBody,
    ExpectedType,
    ExpectedValueAfterTyAnnotation,
    ExpectedPropertyAccess,
    ExpectedPat,
    ImportPath,
    Namespace,
    /// An imported module has errors; the message of the import error.
    ErroneousImport(String),
    /// A spread pattern is missing the given number of `.`.
    MalformedSpreadPattern(u8),
    ExpectedLiteral,
}

/// An error of the parser: its kind and location, the tokens that were
/// expected, as the message lists them, and the token that was received,
/// as messages name it.
pub struct ParseError {
    pub kind: ParseErrorKind,
    pub location: SourceLocation,
    pub expected: Option<String>,
    pub received: Option<String>,
}

/// The main message of an error of the given kind.
pub open spec fn base_message(kind: &ParseErrorKind, received: Option<Seq<char>>) -> Seq<char> {
    match kind {
        ParseErrorKind::Keyword => "encountered an unexpected keyword "@ + received.unwrap(),
        ParseErrorKind::Expected => match received {
            Some(r) => "unexpectedly encountered "@ + r,
            None => "unexpectedly reached the end of input"@,
        },
        ParseErrorKind::Block => "expected block body, which begins with a `{`"@,
        ParseErrorKind::ReAssignmentOp => "expected a re-assignment operator"@,
        ParseErrorKind::TypeDefinition(ty) => "expected "@ + ty.spec_str() + " definition entries here which begin with a `(`"@,
        ParseErrorKind::ExpectedValueAfterTyAnnotation => "expected value assignment after type annotation within named tuple"@,
        ParseErrorKind::ExpectedOperator => "expected an operator"@,
        ParseErrorKind::ExpectedExpr => "expected an expression"@,
        ParseErrorKind::ExpectedName => "expected a name here"@,
        ParseErrorKind::ExpectedArrow => "expected an arrow `=>` "@,
        ParseErrorKind::ExpectedFnArrow => "expected an arrow `->` after type arguments denoting a function type"@,
        ParseErrorKind::ExpectedFnBody => "expected a function body"@,
        ParseErrorKind::ExpectedType => "expected a type annotation"@,
        ParseErrorKind::ExpectedPropertyAccess => "expected field name access or a method call"@,
        ParseErrorKind::ExpectedPat => "expected pattern"@,
        ParseErrorKind::ImportPath => "expected an import path which should be a string"@,
        ParseErrorKind::ErroneousImport(e) => e@,
        ParseErrorKind::Namespace => "expected identifier after a name access qualifier `::`"@,
        ParseErrorKind::MalformedSpreadPattern(dots) => "malformed spread pattern, expected "@ + decimal(*dots as nat)
            + " more `.` to complete the pattern"@,
        ParseErrorKind::ExpectedLiteral => "expected literal"@,
    }
}

/// The title of the report of an error: the main message, then the
/// received token, except for an unexpected token, whose message names it
/// already.
pub open spec fn parse_error_title(err: &ParseError) -> Seq<char> {
    let received = match &err.received {
        Some(r) => Some(r@),
        None => None,
    };
    let base = base_message(&err.kind, received);
    match received {
        Some(r) => if err.kind is Expected {
            base
        } else {
            base + ", however received "@ + r
        },
        None => base,
    }
}

/// The elements of the report of an error: the location, then a help note
/// with the expected tokens, if any.
pub open spec fn parse_error_elements(err: &ParseError) -> Seq<ElementView> {
    let here = seq![ElementView::CodeBlock(err.location, "here"@, None)];
    match &err.expected {
        Some(e) => here.push(ElementView::Note(ReportNoteKind::Help, "consider adding "@ + e@)),
        None => here,
    }
}

impl TyArgumentKind {
    /// The word that a message uses for the kind.
    pub open spec fn spec_str(&self) -> Seq<char> {
        match *self {
            TyArgumentKind::Struct => "struct"@,
            TyArgumentKind::Enum => "enumeration"@,
        }
    }
}

impl ParseError {
    /// The report of the error: an error titled with its message, at its
    /// location, with help that lists the expected tokens.
    pub fn into_report(self) -> (r: Report)
        requires
            self.kind is Keyword ==> self.received is Some,
        ensures
            r.kind == ReportKind::Error,
            r.title@ == parse_error_title(&self),
            r.error_code is None,
            r.elements() == parse_error_elements(&self),
    {
        let ghost title = parse_error_title(&self);
        let ghost elements = parse_error_elements(&self);
        let mut message = match &self.kind {
            ParseErrorKind::Keyword => {
                let mut m = String::from_str("encountered an unexpected keyword ");
                match &self.received {
                    Some(r) => m.append(r.as_str()),
                    None => {},
                }
                m
            },
            ParseErrorKind::Expected => match &self.received {
                Some(r) => {
                    let mut m = String::from_str("unexpectedly encountered ");
                    m.append(r.as_str());
                    m
                },
                None => String::from_str("unexpectedly reached the end of input"),
            },
            ParseErrorKind::Block => String::from_str("expected block body, which begins with a `{`"),
            ParseErrorKind::ReAssignmentOp => String::from_str("expected a re-assignment operator"),
            ParseErrorKind::TypeDefinition(ty) => {
                let mut m = String::from_str("expected ");
                m.append(ty.as_str());
                m.append(" definition entries here which begin with a `(`");
                m
            },
            ParseErrorKind::ExpectedValueAfterTyAnnotation => String::from_str(
                "expected value assignment after type annotation within named tuple",
            ),
            ParseErrorKind::ExpectedOperator => String::from_str("expected an operator"),
            ParseErrorKind::ExpectedExpr => String::from_str("expected an expression"),
            ParseErrorKind::ExpectedName => String::from_str("expected a name here"),
            ParseErrorKind::ExpectedArrow => String::from_str("expected an arrow `=>` "),
            ParseErrorKind::ExpectedFnArrow => String::from_str(
                "expected an arrow `->` after type arguments denoting a function type",
            ),
            ParseErrorKind::ExpectedFnBody => String::from_str("expected a function body"),
            ParseErrorKind::ExpectedType => String::from_str("expected a type annotation"),
            ParseErrorKind::ExpectedPropertyAccess => String::from_str("expected field name access or a method call"),
            ParseErrorKind::ExpectedPat => String::from_str("expected pattern"),
            ParseErrorKind::ImportPath => String::from_str("expected an import path which should be a string"),
            ParseErrorKind::ErroneousImport(e) => e.clone(),
            ParseErrorKind::Namespace => String::from_str("expected identifier after a name access qualifier `::`"),
            ParseErrorKind::MalformedSpreadPattern(dots) => {
                let mut m = String::from_str("malformed spread pattern, expected ");
                let d = decimal_string(*dots);
                m.append(d.as_str());
                m.append(" more `.` to complete the pattern");
                m
            },
            ParseErrorKind::ExpectedLiteral => String::from_str("expected literal"),
        };
        let is_expected = match &self.kind {
            ParseErrorKind::Expected => true,
            _ => false,
        };
        if !is_expected {
            match &self.received {
                Some(r) => {
                    message.append(", however received ");
                    message.append(r.as_str());
                },
                None => {},
            }
        }
        let mut report = Report::new();
        report.kind(ReportKind::Error);
        report.title(message);
        report.add_element(ReportElement::CodeBlock(ReportCodeBlock::new(self.location, String::from_str("here"))));
        match &self.expected {
            Some(e) => {
                let mut help = String::from_str("consider adding ");
                help.append(e.as_str());
                report.add_element(ReportElement::Note(ReportNote::new(ReportNoteKind::Help, help)));
            },
            None => {},
        }
        proof {
            assert(report.title@ =~= title);
            assert(report.elements() =~= elements);
        }
        report
    }
}

} // verus!
