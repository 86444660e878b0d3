use vstd::prelude::*;
use vstd::string::StringExecFns;

verus! {

/// How serious a diagnostic is.
#[derive(Clone, Copy, Debug, PartialEq, Eq, Structural)]
pub enum Severity {
    Error,
    Warning,
    Info,
}

/// The stable code that identifies the kind of a diagnostic.
#[derive(Clone, Copy, Debug, PartialEq, Eq, Structural)]
pub enum ReportCode {
    UninitializedSymbolInExpression,
    ShadowingVariable,
    ParameterNameCollision,
    FailedToLift,
    AnalysisFinding,
}

/// A byte range `start..end` within a source file.
#[derive(Clone, Copy, Debug, PartialEq, Eq, Structural)]
pub struct FileLocation {
    pub start: usize,
    pub end: usize,
}

/// A source location attached to a diagnostic, with an optional message.
#[derive(Clone, Debug)]
pub struct Label {
    pub file_id: usize,
    pub location: FileLocation,
    pub message: Option<String>,
}

/// A source-located diagnostic.
#[derive(Clone, Debug)]
pub struct Report {
    pub severity: Severity,
    pub code: ReportCode,
    pub message: String,
    pub primary: Vec<Label>,
    pub secondary: Vec<Label>,
    pub notes: Vec<String>,
}

/// An ordered sequence of diagnostics.
pub type ReportCollection = Vec<Report>;

/// A label carries `message` at `location` in file `file_id`.
pub open spec fn label_is(l: Label, location: FileLocation, file_id: usize, message: Option<Seq<char>>) -> bool {
    &&& l.location == location
    &&& l.file_id == file_id
    &&& match message {
        Some(m) => l.message is Some && l.message.unwrap()@ == m,
        None => l.message is None,
    }
}

impl Report {
    fn with_severity(severity: Severity, message: String, code: ReportCode) -> (r: Report)
        ensures
            r.severity == severity,
            r.code == code,
            r.message@ == message@,
            r.primary@.len() == 0,
            r.secondary@.len() == 0,
            r.notes@.len() == 0,
    {
        Report { severity, code, message, primary: Vec::new(), secondary: Vec::new(), notes: Vec::new() }
    }

    /// A diagnostic of `Error` severity with no locations or notes yet.
    pub fn error(message: String, code: ReportCode) -> (r: Report)
        ensures
            r.severity == Severity::Error,
            r.code == code,
            r.message@ == message@,
            r.primary@.len() == 0,
            r.secondary@.len() == 0,
            r.notes@.len() == 0,
    {
        Report::with_severity(Severity::Error, message, code)
    }

    /// A diagnostic of `Warning` severity with no locations or notes yet.
    pub fn warning(message: String, code: ReportCode) -> (r: Report)
        ensures
            r.severity == Severity::Warning,
            r.code == code,
            r.message@ == message@,
            r.primary@.len() == 0,
            r.secondary@.len() == 0,
            r.notes@.len() == 0,
    {
        Report::with_severity(Severity::Warning, message, code)
    }

    /// A diagnostic of `Info` severity with no locations or notes yet.
    pub fn info(message: String, code: ReportCode) -> (r: Report)
        ensures
            r.severity == Severity::Info,
            r.code == code,
            r.message@ == message@,
            r.primary@.len() == 0,
            r.secondary@.len() == 0,
            r.notes@.len() == 0,
    {
        Report::with_severity(Severity::Info, message, code)
    }

    /// Adds a primary location.
    pub fn add_primary(&mut self, location: FileLocation, file_id: usize, message: String)
        ensures
            final(self).severity == old(self).severity,
            final(self).code == old(self).code,
            final(self).message == old(self).message,
            final(self).secondary == old(self).secondary,
            final(self).notes == old(self).notes,
            final(self).primary@.len() == old(self).primary@.len() + 1,
            final(self).primary@.drop_last() == old(self).primary@,
            label_is(final(self).primary@.last(), location, file_id, Some(message@)),
    {
        self.primary.push(Label { file_id, location, message: Some(message) });
    }

    /// Adds a secondary location.
    pub fn add_secondary(&mut self, location: FileLocation, file_id: usize, message: Option<String>)
        ensures
            final(self).severity == old(self).severity,
            final(self).code == old(self).code,
            final(self).message == old(self).message,
            final(self).primary == old(self).primary,
            final(self).notes == old(self).notes,
            final(self).secondary@.len() == old(self).secondary@.len() + 1,
            final(self).secondary@.drop_last() == old(self).secondary@,
            label_is(
                final(self).secondary@.last(),
                location,
                file_id,
                match message {
                    Some(m) => Some(m@),
                    None => None,
                },
            ),
    {
        self.secondary.push(Label { file_id, location, message });
    }

    /// Adds a free-text note.
    pub fn add_note(&mut self, note: String)
        ensures
            final(self).severity == old(self).severity,
            final(self).code == old(self).code,
            final(self).message == old(self).message,
            final(self).primary == old(self).primary,
            final(self).secondary == old(self).secondary,
            final(self).notes@.len() == old(self).notes@.len() + 1,
            final(self).notes@.drop_last() == old(self).notes@,
            final(self).notes@.last()@ == note@,
    {
        self.notes.push(note);
    }
}

/// The text `a`, then `b`, then `c`.
pub(crate) fn concat3(a: &str, b: &str, c: &str) -> (r: String)
    ensures
        r@ == a@ + b@ + c@,
{
    let mut r = String::new();
    r.append(a);
    r.append(b);
    r.append(c);
    r
}

} // verus!
