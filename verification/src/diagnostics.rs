//! Diagnostics (errors and warnings) reported while parsing a recipe, and
//! the queries over a report.
use vstd::prelude::*;
use cooklang::Span as SourceSpan;

verus! {

/// The parser's source span, `cooklang::Span`, known to the verifier only
/// through the offsets its accessors return.
#[verifier::external_type_specification]
#[verifier::external_body]
pub struct ExSourceSpan(SourceSpan);

/// The offset that `cooklang::Span::start` returns for `span`.
pub uninterp spec fn span_start_offset(span: SourceSpan) -> usize;

/// The offset that `cooklang::Span::end` returns for `span`.
pub uninterp spec fn span_end_offset(span: SourceSpan) -> usize;

/// `cooklang::Span::start`: the span's start offset, a field read.
#[verifier::external_body]
fn source_span_start(span: &SourceSpan) -> (r: usize)
    ensures
        r == span_start_offset(*span),
{
    span.start()
}

/// `cooklang::Span::end`: the span's (exclusive) end offset, a field read.
#[verifier::external_body]
fn source_span_end(span: &SourceSpan) -> (r: usize)
    ensures
        r == span_end_offset(*span),
{
    span.end()
}

/// Location in the source code (character offsets)
#[derive(Debug, Clone, Copy)]
pub struct Span {
    pub start: u32,
    pub end: u32,
}

impl Span {
    /// Converts the parser's span; offsets beyond `u32::MAX` wrap, as an `as`
    /// cast does.
    pub fn from_parser(span: &SourceSpan) -> (r: Span)
        ensures
            r.start == span_start_offset(*span) as u32,
            r.end == span_end_offset(*span) as u32,
    {
        let start = source_span_start(span);
        let end = source_span_end(span);
        Span { start: start as u32, end: end as u32 }
    }
}

/// Severity of a diagnostic (error or warning)
#[derive(Debug, Clone, Copy, PartialEq, Eq, Structural)]
pub enum Severity {
    Error,
    Warning,
}

/// Parsing stage where the diagnostic originated
#[derive(Debug, Clone, Copy, PartialEq, Eq, Structural)]
pub enum Stage {
    Parse,
    Analysis,
}

/// A label pointing to a location in the source code with an optional message
#[derive(Debug)]
pub struct DiagnosticLabel {
    pub span: Span,
    pub message: Option<String>,
}

impl Clone for DiagnosticLabel {
    fn clone(&self) -> (r: Self)
        ensures
            r == *self,
    {
        DiagnosticLabel { span: self.span, message: self.message.clone() }
    }
}

/// A diagnostic message (error or warning) with location information
#[derive(Debug)]
pub struct Diagnostic {
    pub severity: Severity,
    pub stage: Stage,
    pub message: String,
    pub labels: Vec<DiagnosticLabel>,
    pub hints: Vec<String>,
}

/// The mathematical value of a diagnostic: its vectors taken as sequences.
pub struct DiagnosticView {
    pub severity: Severity,
    pub stage: Stage,
    pub message: String,
    pub labels: Seq<DiagnosticLabel>,
    pub hints: Seq<String>,
}

impl View for Diagnostic {
    type V = DiagnosticView;

    open spec fn view(&self) -> DiagnosticView {
        DiagnosticView {
            severity: self.severity,
            stage: self.stage,
            message: self.message,
            labels: self.labels@,
            hints: self.hints@,
        }
    }
}

impl Clone for Diagnostic {
    fn clone(&self) -> (r: Self)
        ensures
            r@ == self@,
    {
        let labels = self.labels.clone();
        let hints = self.hints.clone();
        proof {
            assert(labels@ =~= self.labels@);
            assert(hints@ =~= self.hints@);
        }
        Diagnostic {
            severity: self.severity,
            stage: self.stage,
            message: self.message.clone(),
            labels,
            hints,
        }
    }
}

/// A collection of diagnostics (errors and warnings)
#[derive(Debug)]
pub struct DiagnosticReport {
    pub diagnostics: Vec<Diagnostic>,
}

/// The values of a sequence of diagnostics.
pub open spec fn diagnostic_views(ds: Seq<Diagnostic>) -> Seq<DiagnosticView> {
    ds.map_values(|d: Diagnostic| d@)
}

impl View for DiagnosticReport {
    type V = Seq<DiagnosticView>;

    open spec fn view(&self) -> Seq<DiagnosticView> {
        diagnostic_views(self.diagnostics@)
    }
}

impl Clone for DiagnosticReport {
    fn clone(&self) -> (r: Self)
        ensures
            r@ == self@,
    {
        let n = self.diagnostics.len();
        let mut diagnostics: Vec<Diagnostic> = Vec::new();
        let mut i: usize = 0;
        while i < n
            invariant
                n == self.diagnostics@.len(),
                0 <= i <= n,
                diagnostic_views(diagnostics@) =~= self@.take(i as int),
            decreases n - i,
        {
            let ghost before = diagnostics@;
            let d = self.diagnostics[i].clone();
            diagnostics.push(d);
            proof {
                assert(diagnostic_views(diagnostics@) =~= diagnostic_views(before).push(self@[i as int]));
                assert(self@.take(i + 1) =~= self@.take(i as int).push(self@[i as int]));
            }
            i = i + 1;
        }
        proof {
            assert(self@.take(n as int) =~= self@);
        }
        DiagnosticReport { diagnostics }
    }
}

/// Error type for recipe parsing failures
#[derive(Debug)]
pub enum CooklangError {
    ParseError { errors: DiagnosticReport, error_count: u32 },
}

/// Whether some diagnostic of `ds` has severity `severity`.
pub open spec fn has_severity(ds: Seq<DiagnosticView>, severity: Severity) -> bool {
    exists|i: int| 0 <= i < ds.len() && #[trigger] ds[i].severity == severity
}

/// The diagnostics of `ds` that have severity `severity`, in order.
pub open spec fn with_severity(ds: Seq<DiagnosticView>, severity: Severity) -> Seq<DiagnosticView> {
    ds.filter(|d: DiagnosticView| d.severity == severity)
}

/// A report has a diagnostic of a severity exactly when the list of its
/// diagnostics of that severity is not empty; that list holds only
/// diagnostics of that severity.
pub proof fn lemma_has_iff_filtered_nonempty(ds: Seq<DiagnosticView>, severity: Severity)
    ensures
        has_severity(ds, severity) <==> with_severity(ds, severity).len() > 0,
        forall|i: int|
            0 <= i < with_severity(ds, severity).len() ==> #[trigger] with_severity(
                ds,
                severity,
            )[i].severity == severity,
    decreases ds.len(),
{
    let pred = |d: DiagnosticView| d.severity == severity;
    if ds.len() > 0 {
        let rest = ds.drop_last();
        lemma_has_iff_filtered_nonempty(rest, severity);
        assert(ds =~= rest.push(ds.last()));
        rest.lemma_filter_push(ds.last(), pred);
        if has_severity(rest, severity) {
            let i = choose|i: int| 0 <= i < rest.len() && #[trigger] rest[i].severity == severity;
            assert(ds[i].severity == severity);
        }
        if has_severity(ds, severity) && !pred(ds.last()) {
            let i = choose|i: int| 0 <= i < ds.len() && #[trigger] ds[i].severity == severity;
            assert(rest[i].severity == severity);
        }
        if pred(ds.last()) {
            assert(ds[ds.len() - 1].severity == severity);
        }
    } else {
        reveal(Seq::filter);
    }
}

/// Every diagnostic is either an error or a warning: the errors and the
/// warnings of a report together number as many as its diagnostics.
pub proof fn lemma_errors_and_warnings_partition(ds: Seq<DiagnosticView>)
    ensures
        with_severity(ds, Severity::Error).len() + with_severity(ds, Severity::Warning).len()
            == ds.len(),
    decreases ds.len(),
{
    if ds.len() > 0 {
        let rest = ds.drop_last();
        lemma_errors_and_warnings_partition(rest);
        assert(ds =~= rest.push(ds.last()));
        rest.lemma_filter_push(ds.last(), |d: DiagnosticView| d.severity == Severity::Error);
        rest.lemma_filter_push(ds.last(), |d: DiagnosticView| d.severity == Severity::Warning);
    } else {
        reveal(Seq::filter);
    }
}

fn any_with_severity(report: &DiagnosticReport, severity: Severity) -> (r: bool)
    ensures
        r == has_severity(report@, severity),
{
    let n = report.diagnostics.len();
    let mut i: usize = 0;
    while i < n
        invariant
            n == report.diagnostics@.len(),
            0 <= i <= n,
            forall|j: int| 0 <= j < i ==> report@[j].severity != severity,
        decreases n - i,
    {
        if report.diagnostics[i].severity == severity {
            assert(report@[i as int].severity == severity);
            return true;
        }
        i = i + 1;
    }
    false
}

fn filter_by_severity(report: &DiagnosticReport, severity: Severity) -> (r: Vec<Diagnostic>)
    ensures
        diagnostic_views(r@) == with_severity(report@, severity),
{
    let ghost pred = |d: DiagnosticView| d.severity == severity;
    let n = report.diagnostics.len();
    let mut out: Vec<Diagnostic> = Vec::new();
    let mut i: usize = 0;
    while i < n
        invariant
            n == report.diagnostics@.len(),
            0 <= i <= n,
            pred == (|d: DiagnosticView| d.severity == severity),
            diagnostic_views(out@) == report@.take(i as int).filter(pred),
        decreases n - i,
    {
        let ghost prefix = report@.take(i as int);
        proof {
            assert(report@.take(i + 1) =~= prefix.push(report@[i as int]));
            prefix.lemma_filter_push(report@[i as int], pred);
        }
        let ghost before = out@;
        if report.diagnostics[i].severity == severity {
            let d = report.diagnostics[i].clone();
            out.push(d);
            proof {
                assert(diagnostic_views(out@) =~= diagnostic_views(before).push(report@[i as int]));
            }
        }
        i = i + 1;
    }
    proof {
        assert(report@.take(n as int) =~= report@);
    }
    out
}

/// Check if the report contains any errors
pub fn diagnostic_report_has_errors(report: &DiagnosticReport) -> (r: bool)
    ensures
        r == has_severity(report@, Severity::Error),
{
    any_with_severity(report, Severity::Error)
}

/// Check if the report contains any warnings
pub fn diagnostic_report_has_warnings(report: &DiagnosticReport) -> (r: bool)
    ensures
        r == has_severity(report@, Severity::Warning),
{
    any_with_severity(report, Severity::Warning)
}

/// Get only the errors from this report
pub fn diagnostic_report_errors(report: &DiagnosticReport) -> (r: Vec<Diagnostic>)
    ensures
        diagnostic_views(r@) == with_severity(report@, Severity::Error),
{
    filter_by_severity(report, Severity::Error)
}

/// Get only the warnings from this report
pub fn diagnostic_report_warnings(report: &DiagnosticReport) -> (r: Vec<Diagnostic>)
    ensures
        diagnostic_views(r@) == with_severity(report@, Severity::Warning),
{
    filter_by_severity(report, Severity::Warning)
}

} // verus!
