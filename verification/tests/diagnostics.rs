use rhythm_arena::diagnostics::{diagnostic_to_marker, DiagnosticClass, DiagnosticKind, SourceSpan};

#[test]
fn compile_errors_and_warnings_become_markers() {
    let span = SourceSpan { start_line: 1, start_column: 4, end_line: 1, end_column: 9 };
    let m = diagnostic_to_marker(DiagnosticClass::CompileError, "missing item".to_owned(), Some(span)).unwrap();
    assert_eq!((m.kind, m.message.as_str(), m.start_line, m.start_column, m.end_line, m.end_column), (DiagnosticKind::Error, "missing item", 1, 4, 1, 9));
    let w = diagnostic_to_marker(DiagnosticClass::Warning, "unused".to_owned(), Some(span)).unwrap();
    assert_eq!(w.kind, DiagnosticKind::Warning);
    assert!(diagnostic_to_marker(DiagnosticClass::OtherFatal, "x".to_owned(), Some(span)).is_none());
    assert!(diagnostic_to_marker(DiagnosticClass::Other, "x".to_owned(), Some(span)).is_none());
    assert!(diagnostic_to_marker(DiagnosticClass::CompileError, "x".to_owned(), None).is_none());
}
