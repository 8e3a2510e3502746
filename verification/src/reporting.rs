//! Diagnostic reports: a kind, a title, an error code, and code blocks and
//! notes.

use vstd::prelude::*;

verus! {

/// A source of the workspace.
#[derive(Debug, Clone, Copy, PartialEq, Eq, Structural)]
pub struct SourceId(pub u32);

/// A range of byte offsets in a source.
#[derive(Debug, Clone, Copy, PartialEq, Eq, Structural)]
pub struct Span {
    pub start: usize,
    pub end: usize,
}

/// A span in a given source.
#[derive(Debug, Clone, Copy, PartialEq, Eq, Structural)]
pub struct SourceLocation {
    pub span: Span,
    pub id: SourceId,
}

/// A range of rows and columns.
#[derive(Debug, Clone, Copy, PartialEq, Eq, Structural)]
pub struct RowColSpan {
    pub start_row: usize,
    pub start_col: usize,
    pub end_row: usize,
    pub end_col: usize,
}

/// An error code that a report can carry.
#[derive(Debug, Clone, Copy, PartialEq, Eq, Structural)]
pub enum HashErrorCode {
    /// The type of a term could not be inferred.
    UnresolvedType,
    /// Traits, or merge declarations, are not supported yet.
    UnsupportedTraits,
    /// A name could not be found.
    UnresolvedSymbol,
    /// Something that has no value at run time was used as a value.
    NonRuntimeInstantiable,
    /// Something that is not a type was used as one.
    ValueCannotBeUsedAsType,
    /// An access on something that cannot be accessed.
    UnsupportedAccess,
}

/// Where a code block stands: how wide its line numbers are, and its rows
/// and columns.
#[derive(Debug, Clone, Copy, PartialEq, Eq, Structural)]
pub struct ReportCodeBlockInfo {
    pub indent_width: usize,
    pub span: RowColSpan,
}

/// The kind of a report.
#[derive(Debug, Clone, Copy, PartialEq, Eq, Structural)]
pub enum ReportKind {
    Error,
    Info,
    Warning,
    /// An internal compiler error.
    Internal,
}

impl ReportKind {
    /// The label of the kind.
    pub fn message(&self) -> (r: &'static str)
        ensures
            r@ == match *self {
                ReportKind::Error => "error"@,
                ReportKind::Internal => "internal"@,
                ReportKind::Info => "info"@,
                ReportKind::Warning => "warn"@,
            },
    {
        match self {
            ReportKind::Error => "error",
            ReportKind::Internal => "internal",
            ReportKind::Info => "info",
            ReportKind::Warning => "warn",
        }
    }
}

/// The kind of a note, which gives its label.
#[derive(Debug, Clone, Copy, PartialEq, Eq, Structural)]
pub enum ReportNoteKind {
    /// A help message or a suggestion.
    Help,
    /// Information.
    Info,
    /// More about the diagnostic.
    Note,
}

impl ReportNoteKind {
    /// The label of the note.
    pub fn as_str(&self) -> (r: &'static str)
        ensures
            r@ == match *self {
                ReportNoteKind::Note => "note"@,
                ReportNoteKind::Info => "info"@,
                ReportNoteKind::Help => "help"@,
            },
    {
        match self {
            ReportNoteKind::Note => "note",
            ReportNoteKind::Info => "info",
            ReportNoteKind::Help => "help",
        }
    }
}

/// A note of a report: a label and a message.
pub struct ReportNote {
    pub label: ReportNoteKind,
    pub message: String,
}

impl ReportNote {
    /// A note with the given label and message.
    pub fn new(label: ReportNoteKind, message: String) -> (r: Self)
        ensures
            r.label == label,
            r.message@ == message@,
    {
        ReportNote { label, message }
    }
}

/// A block of code of a report, with a message.
pub struct ReportCodeBlock {
    pub source_location: SourceLocation,
    pub code_message: String,
    pub info: Option<ReportCodeBlockInfo>,
}

impl ReportCodeBlock {
    /// A code block at the given location, with the given message.
    pub fn new(source_location: SourceLocation, code_message: String) -> (r: Self)
        ensures
            r.source_location == source_location,
            r.code_message@ == code_message@,
            r.info is None,
    {
        ReportCodeBlock { source_location, code_message, info: None }
    }
}

/// An element of a report: a code block or a note.
pub enum ReportElement {
    CodeBlock(ReportCodeBlock),
    Note(ReportNote),
}

/// What an element of a report says: for a code block, its location,
/// message and layout information; for a note, its label and message.
pub enum ElementView {
    CodeBlock(SourceLocation, Seq<char>, Option<ReportCodeBlockInfo>),
    Note(ReportNoteKind, Seq<char>),
}

impl ReportElement {
    /// What the element says.
    pub open spec fn view(&self) -> ElementView {
        match self {
            ReportElement::CodeBlock(b) => ElementView::CodeBlock(b.source_location, b.code_message@, b.info),
            ReportElement::Note(n) => ElementView::Note(n.label, n.message@),
        }
    }
}

/// A report: its kind, title, error code, and elements in order.
pub struct Report {
    pub kind: ReportKind,
    pub title: String,
    pub error_code: Option<HashErrorCode>,
    pub contents: Vec<ReportElement>,
}

impl Report {
    /// What the elements say, in order.
    pub open spec fn elements(&self) -> Seq<ElementView> {
        self.contents@.map_values(|e: ReportElement| e.view())
    }

    /// An error report titled "Bottom text", without code or elements.
    pub fn new() -> (r: Self)
        ensures
            r.kind == ReportKind::Error,
            r.title@ == "Bottom text"@,
            r.error_code is None,
            r.contents@.len() == 0,
    {
        Report { kind: ReportKind::Error, title: String::from_str("Bottom text"), error_code: None, contents: Vec::new() }
    }

    /// Whether the report is an error.
    pub fn is_error(&self) -> (r: bool)
        ensures
            r == (self.kind == ReportKind::Error),
    {
        self.kind == ReportKind::Error
    }

    /// Whether the report is a warning.
    pub fn is_warning(&self) -> (r: bool)
        ensures
            r == (self.kind == ReportKind::Warning),
    {
        self.kind == ReportKind::Warning
    }

    /// Set the title.
    pub fn title(&mut self, title: String) -> (r: &mut Self)
        ensures
            r.title@ == title@,
            r.kind == old(self).kind,
            r.error_code == old(self).error_code,
            r.elements() == old(self).elements(),
            *final(self) == *final(r),
    {
        self.title = title;
        self
    }

    /// Set the kind.
    pub fn kind(&mut self, kind: ReportKind) -> (r: &mut Self)
        ensures
            r.kind == kind,
            r.title@ == old(self).title@,
            r.error_code == old(self).error_code,
            r.elements() == old(self).elements(),
            *final(self) == *final(r),
    {
        self.kind = kind;
        self
    }

    /// Set the error code.
    pub fn code(&mut self, error_code: HashErrorCode) -> (r: &mut Self)
        ensures
            r.error_code == Some(error_code),
            r.kind == old(self).kind,
            r.title@ == old(self).title@,
            r.elements() == old(self).elements(),
            *final(self) == *final(r),
    {
        self.error_code = Some(error_code);
        self
    }

    /// Add an element last.
    pub fn add_element(&mut self, element: ReportElement) -> (r: &mut Self)
        ensures
            r.elements() == old(self).elements().push(element.view()),
            r.kind == old(self).kind,
            r.title@ == old(self).title@,
            r.error_code == old(self).error_code,
            *final(self) == *final(r),
    {
        let ghost v = element.view();
        self.contents.push(element);
        assert(self.elements() =~= old(self).elements().push(v));
        self
    }

    /// Add a help note with the given message.
    pub fn add_help(&mut self, message: String) -> (r: &mut Self)
        ensures
            r.elements() == old(self).elements().push(ElementView::Note(ReportNoteKind::Help, message@)),
            r.kind == old(self).kind,
            r.title@ == old(self).title@,
            r.error_code == old(self).error_code,
            *final(self) == *final(r),
    {
        self.add_element(ReportElement::Note(ReportNote::new(ReportNoteKind::Help, message)))
    }

    /// Add an information note with the given message.
    pub fn add_info(&mut self, message: String) -> (r: &mut Self)
        ensures
            r.elements() == old(self).elements().push(ElementView::Note(ReportNoteKind::Info, message@)),
            r.kind == old(self).kind,
            r.title@ == old(self).title@,
            r.error_code == old(self).error_code,
            *final(self) == *final(r),
    {
        self.add_element(ReportElement::Note(ReportNote::new(ReportNoteKind::Info, message)))
    }

    /// Add a note with the given message.
    pub fn add_note(&mut self, message: String) -> (r: &mut Self)
        ensures
            r.elements() == old(self).elements().push(ElementView::Note(ReportNoteKind::Note, message@)),
            r.kind == old(self).kind,
            r.title@ == old(self).title@,
            r.error_code == old(self).error_code,
            *final(self) == *final(r),
    {
        self.add_element(ReportElement::Note(ReportNote::new(ReportNoteKind::Note, message)))
    }

    /// Add a code block at the given location, without a message.
    pub fn add_span(&mut self, location: SourceLocation) -> (r: &mut Self)
        ensures
            r.elements() == old(self).elements().push(ElementView::CodeBlock(location, Seq::<char>::empty(), None)),
            r.kind == old(self).kind,
            r.title@ == old(self).title@,
            r.error_code == old(self).error_code,
            *final(self) == *final(r),
    {
        let empty = String::new();
        self.add_element(ReportElement::CodeBlock(ReportCodeBlock::new(location, empty)))
    }

    /// Add a code block at the given location, with a message.
    pub fn add_labelled_span(&mut self, location: SourceLocation, message: String) -> (r: &mut Self)
        ensures
            r.elements() == old(self).elements().push(ElementView::CodeBlock(location, message@, None)),
            r.kind == old(self).kind,
            r.title@ == old(self).title@,
            r.error_code == old(self).error_code,
            *final(self) == *final(r),
    {
        self.add_element(ReportElement::CodeBlock(ReportCodeBlock::new(location, message)))
    }
}

/// What a report says: its kind, title, error code and elements.
pub struct ReportShape {
    pub kind: ReportKind,
    pub title: Seq<char>,
    pub error_code: Option<HashErrorCode>,
    pub elements: Seq<ElementView>,
}

impl Report {
    /// What the report says.
    pub open spec fn shape(&self) -> ReportShape {
        ReportShape { kind: self.kind, title: self.title@, error_code: self.error_code, elements: self.elements() }
    }

    /// A copy of the report, that says what it says.
    pub fn duplicate(&self) -> (r: Report)
        ensures
            r.shape() == self.shape(),
    {
        let mut contents: Vec<ReportElement> = Vec::new();
        let mut i: usize = 0;
        while i < self.contents.len()
            invariant
                i <= self.contents@.len(),
                contents@.len() == i,
                forall|j: int| 0 <= j < i ==> (#[trigger] contents@[j]).view() == self.contents@[j].view(),
            decreases self.contents@.len() - i,
        {
            let e = match &self.contents[i] {
                ReportElement::CodeBlock(b) => ReportElement::CodeBlock(
                    ReportCodeBlock { source_location: b.source_location, code_message: b.code_message.clone(), info: b.info },
                ),
                ReportElement::Note(n) => ReportElement::Note(ReportNote { label: n.label, message: n.message.clone() }),
            };
            contents.push(e);
            i = i + 1;
        }
        let r = Report { kind: self.kind, title: self.title.clone(), error_code: self.error_code, contents };
        assert(r.elements() =~= self.elements());
        r
    }
}

/// The reports made so far, in order.
pub struct Reporter {
    pub reports: Vec<Report>,
}

/// What each of the reports says, in order.
pub open spec fn report_shapes(reports: Seq<Report>) -> Seq<ReportShape> {
    reports.map_values(|r: Report| r.shape())
}

impl Reporter {
    /// No reports.
    pub fn new() -> (r: Self)
        ensures
            r.reports@.len() == 0,
    {
        Reporter { reports: Vec::new() }
    }

    /// What the reports say, in order.
    pub open spec fn shapes(&self) -> Seq<ReportShape> {
        report_shapes(self.reports@)
    }

    /// Add a report last.
    pub fn add_report(&mut self, report: Report)
        ensures
            final(self).shapes() == old(self).shapes().push(report.shape()),
    {
        self.reports.push(report);
        assert(self.shapes() =~= old(self).shapes().push(report.shape()));
    }

    /// The reports, in order.
    pub fn into_reports(self) -> (r: Vec<Report>)
        ensures
            report_shapes(r@) == self.shapes(),
    {
        self.reports
    }
}

} // verus!
