//! The diagnostics sink: where the scanner reports lexical errors.

use crate::grammar::{eof_token, scan, scan_diagnostics, DiagnosticView};
use crate::scanner::Scanner;
use crate::token::{token_views, Token};
use vstd::prelude::*;

verus! {

/// One reported error: the line it was found at and what is wrong.
#[derive(Clone, Debug, PartialEq, Eq)]
pub struct Diagnostic {
    line: usize,
    message: String,
}

impl View for Diagnostic {
    type V = DiagnosticView;

    closed spec fn view(&self) -> DiagnosticView {
        DiagnosticView { line: self.line as int, message: self.message@ }
    }
}

impl Diagnostic {
    /// The line the error was found at, counted from one.
    pub fn line(&self) -> (line: usize)
        ensures
            line as int == self@.line,
    {
        self.line
    }

    /// What is wrong.
    pub fn message(&self) -> (message: &str)
        ensures
            message@ == self@.message,
    {
        self.message.as_str()
    }
}

/// The views of a sequence of diagnostics.
pub open spec fn diagnostic_views(reports: Seq<Diagnostic>) -> Seq<DiagnosticView> {
    reports.map_values(|d: Diagnostic| d@)
}

/// Collects the errors reported during scans and remembers whether there
/// was one since the flag was last cleared.
#[derive(Debug)]
pub struct Loxide {
    had_error: bool,
    reports: Vec<Diagnostic>,
}

impl Loxide {
    /// Whether an error was reported since the flag was last cleared.
    pub closed spec fn flagged(&self) -> bool {
        self.had_error
    }

    /// Everything reported so far, oldest first.
    pub closed spec fn reported(&self) -> Seq<DiagnosticView> {
        diagnostic_views(self.reports@)
    }

    /// A sink with no reports and a clear flag.
    pub fn new() -> (sink: Self)
        ensures
            !sink.flagged(),
            sink.reported() == Seq::<DiagnosticView>::empty(),
    {
        let sink = Self { had_error: false, reports: Vec::new() };
        assert(sink.reported() =~= Seq::<DiagnosticView>::empty());
        sink
    }

    /// Scans `source` from its start and returns its tokens, the last of
    /// which is the end-of-input marker. The lexical errors of `source` are
    /// added to the reports, and the flag is set if there is any. Neither the
    /// flag nor the earlier reports have any effect on the tokens.
    pub fn run(&mut self, source: &str) -> (tokens: Vec<Token>)
        ensures
            token_views(tokens@) == scan(source@),
            token_views(tokens@).last() == eof_token(source@),
            final(self).reported() == old(self).reported() + scan_diagnostics(source@),
            final(self).flagged() == (old(self).flagged() || scan_diagnostics(source@).len() > 0),
    {
        let mut scanner = Scanner::new(source.to_owned());
        let tokens = scanner.scan_tokens(self);
        assert(token_views(tokens@) =~= scan(source@));
        tokens
    }

    /// Reports an error at `line`.
    pub fn error(&mut self, line: usize, message: &str)
        ensures
            final(self).flagged(),
            final(self).reported() == old(self).reported().push(
                DiagnosticView { line: line as int, message: message@ },
            ),
    {
        self.report(line, message);
    }

    fn report(&mut self, line: usize, message: &str)
        ensures
            final(self).flagged(),
            final(self).reported() == old(self).reported().push(
                DiagnosticView { line: line as int, message: message@ },
            ),
    {
        let diagnostic = Diagnostic { line, message: message.to_owned() };
        self.reports.push(diagnostic);
        self.set_had_error(true);
        assert(self.reported() =~= old(self).reported().push(diagnostic@));
    }

    /// Whether an error was reported since the flag was last cleared.
    pub fn had_error(&self) -> (flagged: bool)
        ensures
            flagged == self.flagged(),
    {
        self.had_error
    }

    /// Everything reported so far, oldest first.
    pub fn reports(&self) -> (reports: &Vec<Diagnostic>)
        ensures
            diagnostic_views(reports@) == self.reported(),
    {
        &self.reports
    }

    /// Sets or clears the error flag. The reports stay.
    pub fn set_had_error(&mut self, errored: bool)
        ensures
            final(self).flagged() == errored,
            final(self).reported() == old(self).reported(),
    {
        self.had_error = errored;
    }
}

impl Default for Loxide {
    fn default() -> (sink: Self)
        ensures
            !sink.flagged(),
            sink.reported() == Seq::<DiagnosticView>::empty(),
    {
        Self::new()
    }
}

} // verus!
