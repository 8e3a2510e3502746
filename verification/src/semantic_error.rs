//! Errors of semantic analysis, and the reports made of them.

use vstd::prelude::*;

use crate::reporting::{
    report_shapes, ElementView, HashErrorCode, Report, ReportKind, ReportNoteKind, ReportShape, Reporter,
    SourceLocation,
};

verus! {

/// Where a name was looked for, as a report speaks of it: in the members of
/// a definition (its description, and where it is defined, if that is
/// known), or in the names of the environment (its description).
pub enum LookupContext {
    Access { description: String, definition: Option<SourceLocation> },
    Environment { description: String },
}

/// An error of semantic analysis.
pub enum SemanticError {
    /// A series of errors.
    Compound { errors: Vec<SemanticError> },
    /// An error was reported already; this only stops the analysis.
    Signal,
    /// More type annotations are needed to infer the type of a term, which
    /// stands at the given location, if it is known.
    NeedMoreTypeAnnotationsToInfer { term_location: Option<SourceLocation> },
    /// Traits are not yet supported.
    TraitsNotSupported { trait_location: SourceLocation },
    /// Merge declarations are not yet supported.
    MergeDeclarationsNotSupported { merge_location: SourceLocation },
    /// A name was not found where it was looked for.
    SymbolNotFound { name: String, location: SourceLocation, looking_in: LookupContext },
    /// A module in a value position.
    CannotUseModuleInValuePosition { location: SourceLocation },
    /// A module in a type position.
    CannotUseModuleInTypePosition { location: SourceLocation },
    /// A module in a pattern position.
    CannotUseModuleInPatternPosition { location: SourceLocation },
    /// A data type in a value position.
    CannotUseDataTypeInValuePosition { location: SourceLocation },
    /// A data type in a pattern position.
    CannotUseDataTypeInPatternPosition { location: SourceLocation },
    /// A constructor in a type position.
    CannotUseConstructorInTypePosition { location: SourceLocation },
    /// A function in a type position.
    CannotUseFunctionInTypePosition { location: SourceLocation },
    /// A function in a pattern position.
    CannotUseFunctionInPatternPosition { location: SourceLocation },
    /// The subject of a namespace access is neither a data type nor a
    /// module.
    InvalidNamespaceSubject { location: SourceLocation },
    /// Arguments where none are expected.
    UnexpectedArguments { location: SourceLocation },
    /// A type error, with the reports that the type checker makes of it.
    TypeError { reports: Vec<Report> },
}

/// An error report with the given code, title and elements.
pub open spec fn error_shape(code: HashErrorCode, title: Seq<char>, elements: Seq<ElementView>) -> ReportShape {
    ReportShape { kind: ReportKind::Error, title, error_code: Some(code), elements }
}

/// A code block at `location` without a message.
pub open spec fn span_at(location: SourceLocation) -> ElementView {
    ElementView::CodeBlock(location, Seq::empty(), None)
}

/// An information note.
pub open spec fn info(message: Seq<char>) -> ElementView {
    ElementView::Note(ReportNoteKind::Info, message)
}

/// A help note.
pub open spec fn help(message: Seq<char>) -> ElementView {
    ElementView::Note(ReportNoteKind::Help, message)
}

/// An error report at `location` with the given code and title, and an
/// information note.
pub open spec fn located_shape(code: HashErrorCode, title: Seq<char>, location: SourceLocation, note: Seq<char>) -> ReportShape {
    error_shape(code, title, seq![span_at(location), info(note)])
}

/// The word for what was looked for: a member of a definition, or a name
/// of the environment.
pub open spec fn lookup_noun(looking_in: LookupContext) -> Seq<char> {
    match looking_in {
        LookupContext::Access { .. } => "member"@,
        LookupContext::Environment { .. } => "name"@,
    }
}

/// The description of where a name was looked for.
pub open spec fn lookup_description(looking_in: LookupContext) -> Seq<char> {
    match looking_in {
        LookupContext::Access { description, .. } => description@,
        LookupContext::Environment { description } => description@,
    }
}

/// The report of a name that was not found: titled "cannot find <noun>
/// `<name>` in <where>", with a labelled code block at the name, and, for
/// a member of a definition whose location is known, a code block there
/// with a note that the definition has no such member.
pub open spec fn symbol_not_found_shape(name: Seq<char>, location: SourceLocation, looking_in: LookupContext) -> ReportShape {
    let noun = lookup_noun(looking_in);
    let place = lookup_description(looking_in);
    let found = "cannot find "@ + noun + " `"@ + name + "` in "@ + place;
    let label = "tried to look for "@ + noun + " `"@ + name + "` in "@ + place;
    let first = seq![ElementView::CodeBlock(location, label, None)];
    error_shape(
        HashErrorCode::UnresolvedSymbol,
        found,
        match looking_in {
            LookupContext::Access { definition: Some(d), .. } => first + seq![
                span_at(d),
                info(place + " is defined here, and has no member `"@ + name + "`"@),
            ],
            _ => first,
        },
    )
}

/// What the reports of a list of errors say: those of each error, in order.
pub open spec fn reports_of_all(errors: Seq<SemanticError>, k: int) -> Seq<ReportShape>
    decreases errors, k,
{
    if k <= 0 || k > errors.len() {
        Seq::empty()
    } else {
        reports_of_all(errors, k - 1) + semantic_reports(errors[k - 1])
    }
}

/// What the reports of an error say. A signal makes none; a series of
/// errors makes the reports of each, in order; a type error makes the
/// reports that the type checker made of it; every other error makes one
/// error report.
pub open spec fn semantic_reports(err: SemanticError) -> Seq<ReportShape>
    decreases err, 0int,
{
    match err {
        SemanticError::Signal => Seq::empty(),
        SemanticError::Compound { errors } => reports_of_all(errors@, errors@.len() as int),
        SemanticError::TypeError { reports } => report_shapes(reports@),
        SemanticError::NeedMoreTypeAnnotationsToInfer { term_location } => seq![
            error_shape(
                HashErrorCode::UnresolvedType,
                "cannot infer the type of this term"@,
                match term_location {
                    Some(l) => seq![span_at(l), help("consider adding more type annotations to this expression"@)],
                    None => Seq::empty(),
                },
            ),
        ],
        SemanticError::TraitsNotSupported { trait_location } => seq![
            error_shape(
                HashErrorCode::UnsupportedTraits,
                "traits are work-in-progress and currently not supported"@,
                seq![span_at(trait_location), help("cannot use traits yet"@)],
            ),
        ],
        SemanticError::MergeDeclarationsNotSupported { merge_location } => seq![
            error_shape(
                HashErrorCode::UnsupportedTraits,
                "merge declarations are currently not supported"@,
                seq![span_at(merge_location), help("cannot use merge declarations yet"@)],
            ),
        ],
        SemanticError::SymbolNotFound { name, location, looking_in } => seq![
            symbol_not_found_shape(name@, location, looking_in),
        ],
        SemanticError::CannotUseModuleInValuePosition { location } => seq![
            located_shape(
                HashErrorCode::NonRuntimeInstantiable,
                "cannot use a module in expression position"@,
                location,
                "cannot use this in expression position as it is a module"@,
            ),
        ],
        SemanticError::CannotUseModuleInTypePosition { location } => seq![
            located_shape(
                HashErrorCode::ValueCannotBeUsedAsType,
                "cannot use a module in type position"@,
                location,
                "cannot use this in type position as it is a module"@,
            ),
        ],
        SemanticError::CannotUseModuleInPatternPosition { location } => seq![
            located_shape(
                HashErrorCode::ValueCannotBeUsedAsType,
                "cannot use a module in pattern position"@,
                location,
                "cannot use this in pattern position as it is a module"@,
            ),
        ],
        SemanticError::CannotUseDataTypeInValuePosition { location } => seq![
            error_shape(
                HashErrorCode::NonRuntimeInstantiable,
                "cannot use a data type in expression position"@,
                seq![
                    help("consider using a constructor call instead"@),
                    span_at(location),
                    info("cannot use this in expression position as it is a data type"@),
                ],
            ),
        ],
        SemanticError::CannotUseDataTypeInPatternPosition { location } => seq![
            error_shape(
                HashErrorCode::NonRuntimeInstantiable,
                "cannot use a data type in pattern position"@,
                seq![
                    help("consider using a constructor pattern instead"@),
                    span_at(location),
                    info("cannot use this in pattern position as it is a data type"@),
                ],
            ),
        ],
        SemanticError::CannotUseConstructorInTypePosition { location } => seq![
            located_shape(
                HashErrorCode::ValueCannotBeUsedAsType,
                "cannot use a constructor in type position"@,
                location,
                "cannot use this in type position as it is a constructor"@,
            ),
        ],
        SemanticError::CannotUseFunctionInTypePosition { location } => seq![
            located_shape(
                HashErrorCode::ValueCannotBeUsedAsType,
                "cannot use a function in type position"@,
                location,
                "cannot use this in type position as it refers to a function definition"@,
            ),
        ],
        SemanticError::CannotUseFunctionInPatternPosition { location } => seq![
            located_shape(
                HashErrorCode::ValueCannotBeUsedAsType,
                "cannot use a function in pattern position"@,
                location,
                "cannot use this in pattern position as it refers to a function definition"@,
            ),
        ],
        SemanticError::InvalidNamespaceSubject { location } => seq![
            located_shape(
                HashErrorCode::UnsupportedAccess,
                "only data types and modules can be used as namespacing subjects"@,
                location,
                "cannot use this as a subject of a namespace access"@,
            ),
        ],
        SemanticError::UnexpectedArguments { location } => seq![
            located_shape(
                HashErrorCode::ValueCannotBeUsedAsType,
                "unexpected arguments given to subject"@,
                location,
                "cannot use these arguments as the subject does not expect them"@,
            ),
        ],
    }
}

/// A new error report with the given code and title, without elements.
fn error_report(code: HashErrorCode, title: &str) -> (r: Report)
    ensures
        r.shape() == error_shape(code, title@, Seq::empty()),
{
    let mut r = Report::new();
    r.code(code);
    r.title(String::from_str(title));
    assert(r.elements() =~= Seq::<ElementView>::empty());
    r
}

/// An error report at `location` with the given code and title, and an
/// information note.
fn located_report(code: HashErrorCode, title: &str, location: SourceLocation, note: &str) -> (r: Report)
    ensures
        r.shape() == located_shape(code, title@, location, note@),
{
    let mut r = error_report(code, title);
    r.add_span(location);
    r.add_info(String::from_str(note));
    assert(r.elements() =~= seq![span_at(location), info(note@)]);
    r
}

/// The report of a name that was not found.
fn symbol_not_found_report(name: &String, location: SourceLocation, looking_in: &LookupContext) -> (r: Report)
    ensures
        r.shape() == symbol_not_found_shape(name@, location, *looking_in),
{
    let (noun, place, definition) = match looking_in {
        LookupContext::Access { description, definition } => ("member", description, *definition),
        LookupContext::Environment { description } => ("name", description, None),
    };
    let mut title = String::from_str("cannot find ");
    title.append(noun);
    title.append(" `");
    title.append(name.as_str());
    title.append("` in ");
    title.append(place.as_str());
    let mut label = String::from_str("tried to look for ");
    label.append(noun);
    label.append(" `");
    label.append(name.as_str());
    label.append("` in ");
    label.append(place.as_str());
    let mut r = Report::new();
    r.code(HashErrorCode::UnresolvedSymbol);
    r.title(title);
    r.add_labelled_span(location, label);
    if let Some(d) = definition {
        let mut note = place.clone();
        note.append(" is defined here, and has no member `");
        note.append(name.as_str());
        note.append("`");
        r.add_span(d);
        r.add_info(note);
    }
    proof {
        assert(noun@ == lookup_noun(*looking_in));
        assert(place@ == lookup_description(*looking_in));
        let first = seq![ElementView::CodeBlock(location, label@, None)];
        match *looking_in {
            LookupContext::Access { definition: Some(d), .. } => {
                assert(r.elements() =~= first + seq![
                    span_at(d),
                    info(place@ + " is defined here, and has no member `"@ + name@ + "`"@),
                ]);
            },
            _ => {
                assert(r.elements() =~= first);
            },
        }
    }
    r
}

impl SemanticError {
    /// Add the reports of the error to the reporter, in order.
    pub fn add_to_reporter(&self, reporter: &mut Reporter)
        ensures
            final(reporter).shapes() == old(reporter).shapes() + semantic_reports(*self),
        decreases self,
    {
        match self {
            SemanticError::Signal => {
                assert(old(reporter).shapes() + semantic_reports(*self) =~= old(reporter).shapes());
            },
            SemanticError::Compound { errors } => {
                let mut i: usize = 0;
                while i < errors.len()
                    invariant
                        i <= errors@.len(),
                        *self == (SemanticError::Compound { errors: *errors }),
                        reporter.shapes() == old(reporter).shapes() + reports_of_all(errors@, i as int),
                    decreases errors@.len() - i,
                {
                    proof {
                        vstd::std_specs::vec::axiom_vec_index_decreases(*errors, i as int);
                        assert((*self)->Compound_errors == *errors);
                        assert(decreases_to!(*self => (*self)->Compound_errors));
                        assert(decreases_to!(*errors => errors[i as int]));
                        assert(decreases_to!(*self => errors@[i as int]));
                    }
                    let ghost before = reporter.shapes();
                    errors[i].add_to_reporter(reporter);
                    proof {
                        assert(reports_of_all(errors@, i + 1) == reports_of_all(errors@, i as int) + semantic_reports(
                            errors@[i as int],
                        ));
                        assert(reporter.shapes() =~= old(reporter).shapes() + reports_of_all(errors@, i + 1));
                    }
                    i = i + 1;
                }
            },
            SemanticError::TypeError { reports } => {
                let mut i: usize = 0;
                while i < reports.len()
                    invariant
                        i <= reports@.len(),
                        reporter.shapes() == old(reporter).shapes() + report_shapes(reports@.take(i as int)),
                    decreases reports@.len() - i,
                {
                    let r = reports[i].duplicate();
                    reporter.add_report(r);
                    proof {
                        assert(report_shapes(reports@.take(i + 1)) =~= report_shapes(reports@.take(i as int)).push(
                            reports@[i as int].shape(),
                        ));
                        assert(reporter.shapes() =~= old(reporter).shapes() + report_shapes(reports@.take(i + 1)));
                    }
                    i = i + 1;
                }
                assert(reports@.take(reports@.len() as int) =~= reports@);
            },
            SemanticError::NeedMoreTypeAnnotationsToInfer { term_location } => {
                let mut r = error_report(HashErrorCode::UnresolvedType, "cannot infer the type of this term");
                if let Some(l) = term_location {
                    r.add_span(*l);
                    r.add_help(String::from_str("consider adding more type annotations to this expression"));
                }
                proof {
                    assert(r.elements() =~= match *term_location {
                        Some(l) => seq![span_at(l), help("consider adding more type annotations to this expression"@)],
                        None => Seq::empty(),
                    });
                }
                reporter.add_report(r);
            },
            SemanticError::TraitsNotSupported { trait_location } => {
                let mut r = error_report(
                    HashErrorCode::UnsupportedTraits,
                    "traits are work-in-progress and currently not supported",
                );
                r.add_span(*trait_location);
                r.add_help(String::from_str("cannot use traits yet"));
                assert(r.elements() =~= seq![span_at(*trait_location), help("cannot use traits yet"@)]);
                reporter.add_report(r);
            },
            SemanticError::MergeDeclarationsNotSupported { merge_location } => {
                let mut r = error_report(HashErrorCode::UnsupportedTraits, "merge declarations are currently not supported");
                r.add_span(*merge_location);
                r.add_help(String::from_str("cannot use merge declarations yet"));
                assert(r.elements() =~= seq![span_at(*merge_location), help("cannot use merge declarations yet"@)]);
                reporter.add_report(r);
            },
            SemanticError::SymbolNotFound { name, location, looking_in } => {
                reporter.add_report(symbol_not_found_report(name, *location, looking_in));
            },
            SemanticError::CannotUseModuleInValuePosition { location } => {
                reporter.add_report(
                    located_report(
                        HashErrorCode::NonRuntimeInstantiable,
                        "cannot use a module in expression position",
                        *location,
                        "cannot use this in expression position as it is a module",
                    ),
                );
            },
            SemanticError::CannotUseModuleInTypePosition { location } => {
                reporter.add_report(
                    located_report(
                        HashErrorCode::ValueCannotBeUsedAsType,
                        "cannot use a module in type position",
                        *location,
                        "cannot use this in type position as it is a module",
                    ),
                );
            },
            SemanticError::CannotUseModuleInPatternPosition { location } => {
                reporter.add_report(
                    located_report(
                        HashErrorCode::ValueCannotBeUsedAsType,
                        "cannot use a module in pattern position",
                        *location,
                        "cannot use this in pattern position as it is a module",
                    ),
                );
            },
            SemanticError::CannotUseDataTypeInValuePosition { location } => {
                let mut r = error_report(HashErrorCode::NonRuntimeInstantiable, "cannot use a data type in expression position");
                r.add_help(String::from_str("consider using a constructor call instead"));
                r.add_span(*location);
                r.add_info(String::from_str("cannot use this in expression position as it is a data type"));
                assert(r.elements() =~= seq![
                    help("consider using a constructor call instead"@),
                    span_at(*location),
                    info("cannot use this in expression position as it is a data type"@),
                ]);
                reporter.add_report(r);
            },
            SemanticError::CannotUseDataTypeInPatternPosition { location } => {
                let mut r = error_report(HashErrorCode::NonRuntimeInstantiable, "cannot use a data type in pattern position");
                r.add_help(String::from_str("consider using a constructor pattern instead"));
                r.add_span(*location);
                r.add_info(String::from_str("cannot use this in pattern position as it is a data type"));
                assert(r.elements() =~= seq![
                    help("consider using a constructor pattern instead"@),
                    span_at(*location),
                    info("cannot use this in pattern position as it is a data type"@),
                ]);
                reporter.add_report(r);
            },
            SemanticError::CannotUseConstructorInTypePosition { location } => {
                reporter.add_report(
                    located_report(
                        HashErrorCode::ValueCannotBeUsedAsType,
                        "cannot use a constructor in type position",
                        *location,
                        "cannot use this in type position as it is a constructor",
                    ),
                );
            },
            SemanticError::CannotUseFunctionInTypePosition { location } => {
                reporter.add_report(
                    located_report(
                        HashErrorCode::ValueCannotBeUsedAsType,
                        "cannot use a function in type position",
                        *location,
                        "cannot use this in type position as it refers to a function definition",
                    ),
                );
            },
            SemanticError::CannotUseFunctionInPatternPosition { location } => {
                reporter.add_report(
                    located_report(
                        HashErrorCode::ValueCannotBeUsedAsType,
                        "cannot use a function in pattern position",
                        *location,
                        "cannot use this in pattern position as it refers to a function definition",
                    ),
                );
            },
            SemanticError::InvalidNamespaceSubject { location } => {
                reporter.add_report(
                    located_report(
                        HashErrorCode::UnsupportedAccess,
                        "only data types and modules can be used as namespacing subjects",
                        *location,
                        "cannot use this as a subject of a namespace access",
                    ),
                );
            },
            SemanticError::UnexpectedArguments { location } => {
                reporter.add_report(
                    located_report(
                        HashErrorCode::ValueCannotBeUsedAsType,
                        "unexpected arguments given to subject",
                        *location,
                        "cannot use these arguments as the subject does not expect them",
                    ),
                );
            },
        }
    }

    /// The reports of the error, in order.
    pub fn into_reports(&self) -> (r: Vec<Report>)
        ensures
            report_shapes(r@) == semantic_reports(*self),
    {
        let mut reporter = Reporter::new();
        proof {
            assert(reporter.shapes() =~= Seq::<ReportShape>::empty());
        }
        self.add_to_reporter(&mut reporter);
        proof {
            assert(Seq::<ReportShape>::empty() + semantic_reports(*self) =~= semantic_reports(*self));
        }
        reporter.into_reports()
    }
}

} // verus!
