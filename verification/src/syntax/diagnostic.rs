//! Error reports about spans of source code, to be shown to the user.

use vstd::prelude::*;
use crate::syntax::lex::span::ByteSpan;

verus! {

/// How serious a report is.
#[derive(Clone, Copy, Debug, PartialEq, Eq, Structural)]
pub enum Severity {
    /// An unexpected bug.
    Bug,
    /// An error.
    Error,
    /// A warning.
    Warning,
    /// A note.
    Note,
    /// A help message.
    Help,
}

/// A span of source code that a report points at, with an optional note.
#[derive(Debug, PartialEq)]
pub struct Label {
    pub span: ByteSpan,
    pub message: Option<String>,
}

/// A report: its severity, its message, and the spans it points at.
#[derive(Debug, PartialEq)]
pub struct Diagnostic {
    pub severity: Severity,
    pub message: String,
    pub labels: Vec<Label>,
}

/// The model of a label.
pub open spec fn label_view(l: Label) -> (ByteSpan, Option<Seq<char>>) {
    (
        l.span,
        match l.message {
            Some(m) => Some(m@),
            None => None,
        },
    )
}

/// The model of a report: its severity, its message and the models of its
/// labels.
pub struct SpecDiagnostic {
    pub severity: Severity,
    pub message: Seq<char>,
    pub labels: Seq<(ByteSpan, Option<Seq<char>>)>,
}

/// The model of a report.
pub open spec fn diagnostic_view(d: Diagnostic) -> SpecDiagnostic {
    SpecDiagnostic {
        severity: d.severity,
        message: d.message@,
        labels: d.labels@.map_values(|l: Label| label_view(l)),
    }
}

impl View for Diagnostic {
    type V = SpecDiagnostic;

    open spec fn view(&self) -> SpecDiagnostic {
        diagnostic_view(*self)
    }
}

impl Diagnostic {
    /// A report of the given severity with the given message and no labels.
    pub fn new(severity: Severity, message: &str) -> (r: Self)
        ensures
            r@.severity == severity,
            r@.message == message@,
            r@.labels == Seq::<(ByteSpan, Option<Seq<char>>)>::empty(),
    {
        let r = Diagnostic { severity, message: message.to_owned(), labels: Vec::new() };
        assert(r@.labels =~= Seq::<(ByteSpan, Option<Seq<char>>)>::empty());
        r
    }

    /// A copy of the report.
    pub fn copy(&self) -> (r: Self)
        ensures
            r@ == self@,
    {
        let mut labels: Vec<Label> = Vec::new();
        let n = self.labels.len();
        let mut i: usize = 0;
        while i < n
            invariant
                n == self.labels@.len(),
                i <= n,
                labels@.len() == i,
                forall|j: int| 0 <= j < i ==> label_view(#[trigger] labels@[j]) == label_view(
                    self.labels@[j],
                ),
            decreases n - i,
        {
            let l = &self.labels[i];
            let message = match &l.message {
                Some(m) => Some(m.clone()),
                None => None,
            };
            labels.push(Label { span: l.span, message });
            i = i + 1;
        }
        let r = Diagnostic { severity: self.severity, message: self.message.clone(), labels };
        assert(r@.labels =~= self@.labels);
        r
    }

    /// The report with a further label on `span`, with no note.
    pub fn span(self, span: ByteSpan) -> (r: Self)
        ensures
            r@.severity == self@.severity,
            r@.message == self@.message,
            r@.labels == self@.labels.push((span, None)),
    {
        let Diagnostic { severity, message, mut labels } = self;
        let ghost before = labels@;
        labels.push(Label { span, message: None });
        let r = Diagnostic { severity, message, labels };
        assert(r@.labels =~= before.map_values(|l: Label| label_view(l)).push((span, None)));
        r
    }

    /// The report with a further label on `span`, with the note `msg`.
    pub fn span_err(self, span: ByteSpan, msg: &str) -> (r: Self)
        ensures
            r@.severity == self@.severity,
            r@.message == self@.message,
            r@.labels == self@.labels.push((span, Some(msg@))),
    {
        let Diagnostic { severity, message, mut labels } = self;
        let ghost before = labels@;
        labels.push(Label { span, message: Some(msg.to_owned()) });
        let r = Diagnostic { severity, message, labels };
        assert(r@.labels =~= before.map_values(|l: Label| label_view(l)).push((span, Some(msg@))));
        r
    }
}

/// The reports handed in so far, in the order they came.
pub struct DiagnosticLog {
    emitted: Vec<Diagnostic>,
}

impl DiagnosticLog {
    /// The models of the reports handed in so far.
    pub closed spec fn spec_emitted(&self) -> Seq<SpecDiagnostic> {
        self.emitted@.map_values(|d: Diagnostic| d@)
    }

    /// A log with no reports.
    pub fn new() -> (r: Self)
        ensures
            r.spec_emitted() == Seq::<SpecDiagnostic>::empty(),
    {
        let r = DiagnosticLog { emitted: Vec::new() };
        assert(r.spec_emitted() =~= Seq::<SpecDiagnostic>::empty());
        r
    }

    /// Records a copy of `diagnostic` after the reports already there.
    pub fn handle(&mut self, diagnostic: &Diagnostic)
        ensures
            final(self).spec_emitted() == old(self).spec_emitted().push(diagnostic@),
    {
        let ghost before = self.emitted@;
        let copy = diagnostic.copy();
        self.emitted.push(copy);
        assert(self.spec_emitted() =~= before.map_values(|d: Diagnostic| d@).push(diagnostic@));
    }

    /// The reports handed in so far, in order.
    pub fn emitted(&self) -> (r: &Vec<Diagnostic>)
        ensures
            r@.map_values(|d: Diagnostic| d@) == self.spec_emitted(),
    {
        &self.emitted
    }
}

} // verus!

