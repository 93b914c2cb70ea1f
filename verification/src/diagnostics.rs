//! Markers for the diagnostics of a script: what an editor shows, and where.
use vstd::prelude::*;

verus! {

/// How serious a marker is.
#[derive(Clone, Copy, PartialEq, Eq, Debug, Structural)]
pub enum DiagnosticKind {
    Error,
    Warning,
}

/// A marker in a script's text: its kind, its message and the lines and columns (from zero)
/// where it starts and ends.
#[derive(Debug)]
pub struct DiagnosticMarker {
    pub kind: DiagnosticKind,
    pub message: String,
    pub start_line: usize,
    pub start_column: usize,
    pub end_line: usize,
    pub end_column: usize,
}

/// What a marker reads of a diagnostic of the script compiler: a fatal compile error, another
/// fatal diagnostic, a warning, or anything else.
#[derive(Clone, Copy, PartialEq, Eq, Debug, Structural)]
pub enum DiagnosticClass {
    CompileError,
    OtherFatal,
    Warning,
    Other,
}

/// Where in its source a diagnostic's span lies, as lines and columns from zero.
#[derive(Clone, Copy, PartialEq, Eq, Debug)]
pub struct SourceSpan {
    pub start_line: usize,
    pub start_column: usize,
    pub end_line: usize,
    pub end_column: usize,
}

/// `m` marks `span` with `kind` and `message`.
pub open spec fn marks(m: DiagnosticMarker, kind: DiagnosticKind, message: Seq<char>, span: SourceSpan) -> bool {
    &&& m.kind == kind
    &&& m.message@ == message
    &&& m.start_line == span.start_line && m.start_column == span.start_column
    &&& m.end_line == span.end_line && m.end_column == span.end_column
}

/// The marker of a diagnostic: compile errors become error markers and warnings warning
/// markers, placed at their span; other diagnostics, and those whose source is not found
/// (`span` is `None`), get none.
pub fn diagnostic_to_marker(class: DiagnosticClass, message: String, span: Option<SourceSpan>) -> (m:
    Option<DiagnosticMarker>)
    ensures
        match (class, span) {
            (DiagnosticClass::CompileError, Some(sp)) => m matches Some(x) && marks(
                x,
                DiagnosticKind::Error,
                message@,
                sp,
            ),
            (DiagnosticClass::Warning, Some(sp)) => m matches Some(x) && marks(
                x,
                DiagnosticKind::Warning,
                message@,
                sp,
            ),
            _ => m is None,
        },
{
    let kind = match class {
        DiagnosticClass::CompileError => DiagnosticKind::Error,
        DiagnosticClass::Warning => DiagnosticKind::Warning,
        _ => {
            return None;
        },
    };
    match span {
        Some(sp) => Some(
            DiagnosticMarker {
                kind,
                message,
                start_line: sp.start_line,
                start_column: sp.start_column,
                end_line: sp.end_line,
                end_column: sp.end_column,
            },
        ),
        None => None,
    }
}

} // verus!
