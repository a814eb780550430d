//! Diagnostics and parse results.
use vstd::prelude::*;
use vstd::string::StringExecFns;
use crate::span::Span;

verus! {

/// How serious a diagnostic is.
#[derive(Debug, Clone, Copy, PartialEq, Eq, Hash, Structural)]
pub enum Severity {
    Error,
    Warning,
    Hint,
}

/// A message about a region of the source.
#[derive(Debug, Clone, PartialEq, Eq)]
pub struct Diagnostic {
    pub span: Span,
    pub severity: Severity,
    pub message: String,
}

impl Severity {
    /// The lowercase name of the severity.
    pub fn display_name(&self) -> (r: &'static str)
        ensures
            r@ == severity_name(*self)@,
    {
        match self {
            Severity::Error => "error",
            Severity::Warning => "warning",
            Severity::Hint => "hint",
        }
    }
}

/// Lowercase names of the severities.
pub open spec fn severity_name(s: Severity) -> &'static str {
    match s {
        Severity::Error => "error",
        Severity::Warning => "warning",
        Severity::Hint => "hint",
    }
}

/// The decimal digits of `n`, most significant first, without leading zeros.
pub open spec fn decimal_digits(n: nat) -> Seq<char>
    decreases n,
{
    if n < 10 {
        seq![(n + 48) as char]
    } else {
        decimal_digits(n / 10).push(((n % 10) + 48) as char)
    }
}

/// The single decimal digit `d` as text.
fn digit_text(d: u32) -> (r: &'static str)
    requires
        d < 10,
    ensures
        r@ == seq![(d + 48) as char],
{
    proof {
        reveal_strlit("0");
        reveal_strlit("1");
        reveal_strlit("2");
        reveal_strlit("3");
        reveal_strlit("4");
        reveal_strlit("5");
        reveal_strlit("6");
        reveal_strlit("7");
        reveal_strlit("8");
        reveal_strlit("9");
    }
    match d {
        0 => "0",
        1 => "1",
        2 => "2",
        3 => "3",
        4 => "4",
        5 => "5",
        6 => "6",
        7 => "7",
        8 => "8",
        _ => "9",
    }
}

/// The decimal text of `n`, without leading zeros.
fn decimal_text(n: u32) -> (r: String)
    ensures
        r@ == decimal_digits(n as nat),
    decreases n,
{
    if n < 10 {
        String::from_str(digit_text(n))
    } else {
        let mut text = decimal_text(n / 10);
        text.append(digit_text(n % 10));
        text
    }
}

impl Diagnostic {
    /// The one-line rendering `"{severity} at {line}:{column}: {message}"`,
    /// with the line and column of the span's start.
    pub fn display_text(&self) -> (r: String)
        ensures
            r@ == severity_name(self.severity)@ + " at "@ + decimal_digits(
                self.span.start.line as nat,
            ) + ":"@ + decimal_digits(self.span.start.column as nat) + ": "@ + self.message@,
    {
        let line = decimal_text(self.span.start.line);
        let column = decimal_text(self.span.start.column);
        let mut text = String::from_str(self.severity.display_name());
        text.append(" at ");
        text.append(line.as_str());
        text.append(":");
        text.append(column.as_str());
        text.append(": ");
        text.append(self.message.as_str());
        text
    }

    /// A diagnostic.
    pub fn new(span: Span, severity: Severity, message: String) -> (r: Self)
        ensures
            r.span == span,
            r.severity == severity,
            r.message@ == message@,
    {
        Diagnostic { span, severity, message }
    }

    /// An error.
    pub fn error(span: Span, message: String) -> (r: Self)
        ensures
            r.span == span,
            r.severity == Severity::Error,
            r.message@ == message@,
    {
        Self::new(span, Severity::Error, message)
    }

    /// A warning.
    pub fn warning(span: Span, message: String) -> (r: Self)
        ensures
            r.span == span,
            r.severity == Severity::Warning,
            r.message@ == message@,
    {
        Self::new(span, Severity::Warning, message)
    }

    /// A hint.
    pub fn hint(span: Span, message: String) -> (r: Self)
        ensures
            r.span == span,
            r.severity == Severity::Hint,
            r.message@ == message@,
    {
        Self::new(span, Severity::Hint, message)
    }
}

/// A value together with the diagnostics produced while computing it.
#[derive(Debug, Clone, PartialEq, Eq)]
pub struct ParseResult<T> {
    pub value: T,
    pub diagnostics: Vec<Diagnostic>,
}

/// Some diagnostic in `d` has severity `s`.
pub open spec fn has_severity(d: Seq<Diagnostic>, s: Severity) -> bool {
    exists|i: int| 0 <= i < d.len() && d[i].severity == s
}

/// The diagnostics of `d` with severity `s`, in order.
pub open spec fn with_severity(d: Seq<Diagnostic>, s: Severity) -> Seq<Diagnostic> {
    d.filter(|x: Diagnostic| x.severity == s)
}

/// Law: a list of diagnostics has one of severity `s` exactly when the
/// diagnostics of severity `s` picked out of it are not none; so
/// `has_errors()` holds exactly when `errors()` is not empty.
pub proof fn law_severity_found(d: Seq<Diagnostic>, s: Severity)
    ensures
        has_severity(d, s) <==> with_severity(d, s).len() > 0,
    decreases d.len(),
{
    reveal(Seq::filter);
    if d.len() > 0 {
        let rest = d.drop_last();
        law_severity_found(rest, s);
        if has_severity(rest, s) {
            let i = choose|i: int| 0 <= i < rest.len() && rest[i].severity == s;
            assert(d[i] == rest[i]);
        }
        if has_severity(d, s) && d.last().severity != s {
            let i = choose|i: int| 0 <= i < d.len() && d[i].severity == s;
            assert(rest[i] == d[i]);
        }
        if d.last().severity == s {
            assert(d[d.len() - 1].severity == s);
        }
    }
}

impl<T> ParseResult<T> {
    /// A result with no diagnostics.
    pub fn ok(value: T) -> (r: Self)
        ensures
            r.value == value,
            r.diagnostics@.len() == 0,
    {
        ParseResult { value, diagnostics: Vec::new() }
    }

    /// A result with the given diagnostics.
    pub fn with_diagnostics(value: T, diagnostics: Vec<Diagnostic>) -> (r: Self)
        ensures
            r.value == value,
            r.diagnostics@ == diagnostics@,
    {
        ParseResult { value, diagnostics }
    }

    /// Whether any diagnostic is an error.
    pub fn has_errors(&self) -> (r: bool)
        ensures
            r == has_severity(self.diagnostics@, Severity::Error),
    {
        let mut i: usize = 0;
        while i < self.diagnostics.len()
            invariant
                i <= self.diagnostics@.len(),
                forall|j: int| 0 <= j < i ==> self.diagnostics@[j].severity != Severity::Error,
            decreases self.diagnostics@.len() - i,
        {
            if self.diagnostics[i].severity == Severity::Error {
                return true;
            }
            i = i + 1;
        }
        false
    }

    /// Whether any diagnostic is an error or a warning.
    pub fn has_warnings(&self) -> (r: bool)
        ensures
            r == (has_severity(self.diagnostics@, Severity::Error) || has_severity(
                self.diagnostics@,
                Severity::Warning,
            )),
    {
        let mut i: usize = 0;
        while i < self.diagnostics.len()
            invariant
                i <= self.diagnostics@.len(),
                forall|j: int|
                    0 <= j < i ==> self.diagnostics@[j].severity != Severity::Error
                        && self.diagnostics@[j].severity != Severity::Warning,
            decreases self.diagnostics@.len() - i,
        {
            let s = self.diagnostics[i].severity;
            if s == Severity::Error || s == Severity::Warning {
                return true;
            }
            i = i + 1;
        }
        false
    }

    /// The errors, in order.
    pub fn errors(&self) -> (r: Vec<&Diagnostic>)
        ensures
            r@.map_values(|d: &Diagnostic| *d) == with_severity(self.diagnostics@, Severity::Error),
    {
        self.select(Severity::Error)
    }

    /// The warnings, in order.
    pub fn warnings(&self) -> (r: Vec<&Diagnostic>)
        ensures
            r@.map_values(|d: &Diagnostic| *d) == with_severity(
                self.diagnostics@,
                Severity::Warning,
            ),
    {
        self.select(Severity::Warning)
    }

    /// The diagnostics of severity `s`, in order.
    fn select(&self, s: Severity) -> (r: Vec<&Diagnostic>)
        ensures
            r@.map_values(|d: &Diagnostic| *d) == with_severity(self.diagnostics@, s),
    {
        let mut out: Vec<&Diagnostic> = Vec::new();
        let mut i: usize = 0;
        while i < self.diagnostics.len()
            invariant
                i <= self.diagnostics@.len(),
                out@.map_values(|d: &Diagnostic| *d) == with_severity(
                    self.diagnostics@.subrange(0, i as int),
                    s,
                ),
            decreases self.diagnostics@.len() - i,
        {
            let d = &self.diagnostics[i];
            proof {
                let pre = self.diagnostics@.subrange(0, i as int);
                let next = self.diagnostics@.subrange(0, i + 1);
                assert(next =~= pre.push(*d));
                reveal(Seq::filter);
                assert(next.drop_last() =~= pre);
            }
            let ghost before = out@;
            if d.severity == s {
                out.push(d);
                assert(out@.map_values(|d: &Diagnostic| *d) =~= before.map_values(
                    |d: &Diagnostic| *d,
                ).push(*d));
            }
            i = i + 1;
        }
        assert(self.diagnostics@.subrange(0, i as int) =~= self.diagnostics@);
        out
    }

    /// The value, without its diagnostics.
    pub fn into_value(self) -> (r: T)
        ensures
            r == self.value,
    {
        self.value
    }

    /// The result with `f` applied to its value; the diagnostics are kept.
    pub fn map<U, F: FnOnce(T) -> U>(self, f: F) -> (r: ParseResult<U>)
        requires
            f.requires((self.value,)),
        ensures
            f.ensures((self.value,), r.value),
            r.diagnostics@ == self.diagnostics@,
    {
        ParseResult { value: f(self.value), diagnostics: self.diagnostics }
    }
}

} // verus!
