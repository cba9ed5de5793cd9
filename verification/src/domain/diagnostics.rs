//! Render diagnostics as the blog stores and reports them.
use vstd::prelude::*;

verus! {

/// How severe a diagnostic is.
#[derive(Clone, Copy, Debug, PartialEq, Eq, Structural)]
pub enum Severity {
    Error,
    Warning,
}

/// One message from the renderer, with its hints.
#[derive(Debug)]
pub struct Diagnostic {
    pub severity: Severity,
    pub message: String,
    pub hints: Vec<String>,
}

/// Whether two diagnostics say the same.
pub open spec fn same_diagnostic(a: Diagnostic, b: Diagnostic) -> bool {
    a.severity == b.severity && a.message@ == b.message@ && a.hints@ == b.hints@
}

impl Clone for Diagnostic {
    fn clone(&self) -> (r: Self)
        ensures
            same_diagnostic(r, *self),
    {
        let hints = self.hints.clone();
        assert(hints@ =~= self.hints@) by {
            assert forall|i: int| 0 <= i < hints@.len() implies hints@[i] == self.hints@[i] by {
                assert(cloned::<String>(self.hints[i], hints[i]));
            }
        }
        Diagnostic { severity: self.severity, message: self.message.clone(), hints }
    }
}

impl Diagnostic {
    /// An error without hints.
    pub fn error(message: &str) -> (d: Diagnostic)
        ensures
            d.severity == Severity::Error,
            d.message@ == message@,
            d.hints@.len() == 0,
    {
        Diagnostic { severity: Severity::Error, message: message.to_owned(), hints: Vec::new() }
    }

    /// A warning without hints.
    pub fn warning(message: &str) -> (d: Diagnostic)
        ensures
            d.severity == Severity::Warning,
            d.message@ == message@,
            d.hints@.len() == 0,
    {
        Diagnostic { severity: Severity::Warning, message: message.to_owned(), hints: Vec::new() }
    }
}

} // verus!
