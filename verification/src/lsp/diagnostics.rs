//! Warnings on common slips in a document.
use vstd::prelude::*;
use crate::text::{chars_of, owned, lines, lines_of, trim, trim_chars, starts_with, is_prefix, contains, contains_chars};
pub use super::{Position, Range, span, line_span};

verus! {

/// A warning or error on a span of a document.
#[derive(Debug)]
pub struct Diagnostic {
    pub range: Range,
    pub severity: Option<u32>,
    pub code: Option<String>,
    pub source: Option<String>,
    pub message: String,
}

pub open spec fn opt_view(o: Option<String>) -> Option<Seq<char>> {
    match o {
        Some(s) => Some(s@),
        None => None,
    }
}

/// A diagnostic as plain values: span, severity, code, source, message.
pub open spec fn diagnostic_view(d: Diagnostic) -> (Range, Option<u32>, Option<Seq<char>>, Option<Seq<char>>, Seq<char>) {
    (d.range, d.severity, opt_view(d.code), opt_view(d.source), d.message@)
}

/// A diagnostic of this crate: from column 0 to `to` on `line`.
pub open spec fn finding(line: int, to: int, severity: u32, message: Seq<char>) -> (
    Range,
    Option<u32>,
    Option<Seq<char>>,
    Option<Seq<char>>,
    Seq<char>,
) {
    (line_span(line, 0, to), Some(severity), None, Some("PySuals"@), message)
}

/// The findings on line `i`: a misspelt `@component`, a misspelt `signal`,
/// and a `def` without a return type, in that order.
pub open spec fn line_findings(i: int, line: Seq<char>) -> Seq<
    (Range, Option<u32>, Option<Seq<char>>, Option<Seq<char>>, Seq<char>),
> {
    (if contains(line, "@compnent"@) { seq![finding(i, 10, 1, "Did you mean @component?"@)] } else { seq![] }) + (if contains(
        line,
        "siganl"@,
    ) {
        seq![finding(i, 6, 1, "Did you mean signal?"@)]
    } else {
        seq![]
    }) + (if starts_with(trim(line), "def"@) && !contains(line, "->"@) {
        seq![finding(i, 3, 2, "Missing return type hint"@)]
    } else {
        seq![]
    })
}

/// The findings of the lines, line by line.
pub open spec fn findings(ls: Seq<Seq<char>>) -> Seq<(Range, Option<u32>, Option<Seq<char>>, Option<Seq<char>>, Seq<char>)>
    decreases ls.len(),
{
    if ls.len() == 0 {
        seq![]
    } else {
        findings(ls.drop_last()) + line_findings(ls.len() - 1, ls.last())
    }
}

pub struct DiagnosticProvider;

fn finding_of(line: usize, to: usize, severity: u32, message: &str) -> (d: Diagnostic)
    ensures
        diagnostic_view(d) == finding(line as int, to as int, severity, message@),
{
    Diagnostic {
        range: span(line, 0, to),
        severity: Some(severity),
        code: None,
        source: Some(owned("PySuals")),
        message: owned(message),
    }
}

impl DiagnosticProvider {
    pub fn new() -> (p: DiagnosticProvider) {
        DiagnosticProvider
    }

    /// The findings of `content`, line by line.
    pub fn get_diagnostics(&self, uri: &str, content: &str) -> (r: Vec<Diagnostic>)
        ensures
            r@.map_values(|d: Diagnostic| diagnostic_view(d)) == findings(lines(content@)),
    {
        let cs = chars_of(content);
        let ls = lines_of(cs.as_slice());
        let bad_component = chars_of("@compnent");
        let bad_signal = chars_of("siganl");
        let def_kw = chars_of("def");
        let arrow = chars_of("->");
        let mut r: Vec<Diagnostic> = Vec::new();
        let mut i: usize = 0;
        while i < ls.len()
            invariant
                cs@ == content@,
                bad_component@ == "@compnent"@,
                bad_signal@ == "siganl"@,
                def_kw@ == "def"@,
                arrow@ == "->"@,
                ls@.len() == lines(content@).len(),
                forall|k: int| 0 <= k < ls@.len() ==> #[trigger] ls@[k]@ == lines(content@)[k],
                i <= ls@.len(),
                r@.map_values(|d: Diagnostic| diagnostic_view(d)) == findings(lines(content@).take(i as int)),
            decreases ls.len() - i,
        {
            let line = ls[i].as_slice();
            let ghost r0 = r@.map_values(|d: Diagnostic| diagnostic_view(d));
            let ghost l = ls@[i as int]@;
            let a = contains_chars(line, bad_component.as_slice());
            if a {
                r.push(finding_of(i, 10, 1, "Did you mean @component?"));
            }
            let ghost r1 = r@.map_values(|d: Diagnostic| diagnostic_view(d));
            let b = contains_chars(line, bad_signal.as_slice());
            if b {
                r.push(finding_of(i, 6, 1, "Did you mean signal?"));
            }
            let ghost r2 = r@.map_values(|d: Diagnostic| diagnostic_view(d));
            let t = trim_chars(line);
            let c = is_prefix(t.as_slice(), def_kw.as_slice()) && !contains_chars(line, arrow.as_slice());
            if c {
                r.push(finding_of(i, 3, 2, "Missing return type hint"));
            }
            proof {
                let lf = line_findings(i as int, l);
                let p1: Seq<(Range, Option<u32>, Option<Seq<char>>, Option<Seq<char>>, Seq<char>)> = if a {
                    seq![finding(i as int, 10, 1, "Did you mean @component?"@)]
                } else {
                    seq![]
                };
                let p2: Seq<(Range, Option<u32>, Option<Seq<char>>, Option<Seq<char>>, Seq<char>)> = if b {
                    seq![finding(i as int, 6, 1, "Did you mean signal?"@)]
                } else {
                    seq![]
                };
                let p3: Seq<(Range, Option<u32>, Option<Seq<char>>, Option<Seq<char>>, Seq<char>)> = if c {
                    seq![finding(i as int, 3, 2, "Missing return type hint"@)]
                } else {
                    seq![]
                };
                assert(r1 =~= r0 + p1);
                assert(r2 =~= r1 + p2);
                assert(r@.map_values(|d: Diagnostic| diagnostic_view(d)) =~= r2 + p3);
                assert(lf == p1 + p2 + p3);
                let t2 = lines(content@).take(i + 1);
                assert(t2.drop_last() =~= lines(content@).take(i as int));
                assert(t2.last() == l);
                assert(r@.map_values(|d: Diagnostic| diagnostic_view(d)) =~= r0 + lf);
            }
            i += 1;
        }
        assert(lines(content@).take(ls@.len() as int) =~= lines(content@));
        r
    }
}

} // verus!
