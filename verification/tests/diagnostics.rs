use cooklang_bindings::diagnostics::{
    diagnostic_report_errors, diagnostic_report_has_errors, diagnostic_report_has_warnings,
    diagnostic_report_warnings, CooklangError, Diagnostic, DiagnosticLabel, DiagnosticReport,
    Severity, Span, Stage,
};

fn diag(severity: Severity, message: &str) -> Diagnostic {
    Diagnostic {
        severity,
        stage: Stage::Parse,
        message: message.to_string(),
        labels: vec![DiagnosticLabel { span: Span { start: 1, end: 4 }, message: None }],
        hints: vec!["hint".to_string()],
    }
}

fn report(items: Vec<Diagnostic>) -> DiagnosticReport {
    DiagnosticReport { diagnostics: items }
}

#[test]
fn empty_report_has_nothing() {
    let r = report(vec![]);
    assert!(!diagnostic_report_has_errors(&r));
    assert!(!diagnostic_report_has_warnings(&r));
    assert!(diagnostic_report_errors(&r).is_empty());
    assert!(diagnostic_report_warnings(&r).is_empty());
}

#[test]
fn errors_and_warnings_are_separated_in_order() {
    let r = report(vec![
        diag(Severity::Warning, "w1"),
        diag(Severity::Error, "e1"),
        diag(Severity::Warning, "w2"),
        diag(Severity::Error, "e2"),
    ]);
    assert!(diagnostic_report_has_errors(&r));
    assert!(diagnostic_report_has_warnings(&r));
    let errors: Vec<String> = diagnostic_report_errors(&r).into_iter().map(|d| d.message).collect();
    let warnings: Vec<String> =
        diagnostic_report_warnings(&r).into_iter().map(|d| d.message).collect();
    assert_eq!(errors, vec!["e1", "e2"]);
    assert_eq!(warnings, vec!["w1", "w2"]);
    assert_eq!(errors.len() + warnings.len(), r.diagnostics.len());
}

#[test]
fn only_warnings_means_no_errors() {
    let r = report(vec![diag(Severity::Warning, "w")]);
    assert!(!diagnostic_report_has_errors(&r));
    assert!(diagnostic_report_has_warnings(&r));
    assert!(diagnostic_report_errors(&r).is_empty());
}

#[test]
fn filtered_diagnostics_keep_all_their_fields() {
    let r = report(vec![diag(Severity::Error, "boom")]);
    let e = &diagnostic_report_errors(&r)[0];
    assert_eq!(e.severity, Severity::Error);
    assert_eq!(e.stage, Stage::Parse);
    assert_eq!(e.message, "boom");
    assert_eq!(e.labels.len(), 1);
    assert_eq!(e.labels[0].span.start, 1);
    assert_eq!(e.labels[0].span.end, 4);
    assert_eq!(e.hints, vec!["hint".to_string()]);
}

#[test]
fn span_copies_the_parser_offsets() {
    let s = Span::from_parser(&cooklang::Span::from(3..7));
    assert_eq!((s.start, s.end), (3, 7));
}

#[test]
fn span_offsets_wrap_at_u32() {
    let big = (u32::MAX as usize) + 6;
    let s = Span::from_parser(&cooklang::Span::from(5..big));
    assert_eq!((s.start, s.end), (5, 5));
}

#[test]
fn parse_error_holds_its_report() {
    let r = report(vec![diag(Severity::Error, "e")]);
    let err = CooklangError::ParseError { errors: r.clone(), error_count: 1 };
    match err {
        CooklangError::ParseError { errors, error_count } => {
            assert_eq!(error_count, 1);
            assert_eq!(errors.diagnostics.len(), 1);
        }
    }
}
