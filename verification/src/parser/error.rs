//! Parse errors, and collectors that gather them.
use vstd::prelude::*;
use crate::text::{decimal, owned, push_str, push_string, push_decimal, push_char};
use crate::parser::token::TokenType;

verus! {

#[derive(Debug, Clone)]
pub struct ParseError {
    pub message: String,
    pub line: usize,
    pub column: usize,
    pub error_type: ParseErrorType,
}

#[derive(Debug, Clone, Copy, PartialEq, Eq, Structural)]
pub enum ParseErrorType {
    UnexpectedToken,
    ExpectedToken,
    InvalidSyntax,
    IndentationError,
    UnterminatedString,
    InvalidNumber,
    UndefinedVariable,
    TypeMismatch,
    CyclicDependency,
}

impl ParseErrorType {
    pub open spec fn spec_name(self) -> Seq<char> {
        match self {
            ParseErrorType::UnexpectedToken => "UnexpectedToken"@,
            ParseErrorType::ExpectedToken => "ExpectedToken"@,
            ParseErrorType::InvalidSyntax => "InvalidSyntax"@,
            ParseErrorType::IndentationError => "IndentationError"@,
            ParseErrorType::UnterminatedString => "UnterminatedString"@,
            ParseErrorType::InvalidNumber => "InvalidNumber"@,
            ParseErrorType::UndefinedVariable => "UndefinedVariable"@,
            ParseErrorType::TypeMismatch => "TypeMismatch"@,
            ParseErrorType::CyclicDependency => "CyclicDependency"@,
        }
    }

    /// The kind's name, as `Display` writes it.
    pub fn to_display(&self) -> (s: String)
        ensures
            s@ == self.spec_name(),
    {
        let t = match self {
            ParseErrorType::UnexpectedToken => "UnexpectedToken",
            ParseErrorType::ExpectedToken => "ExpectedToken",
            ParseErrorType::InvalidSyntax => "InvalidSyntax",
            ParseErrorType::IndentationError => "IndentationError",
            ParseErrorType::UnterminatedString => "UnterminatedString",
            ParseErrorType::InvalidNumber => "InvalidNumber",
            ParseErrorType::UndefinedVariable => "UndefinedVariable",
            ParseErrorType::TypeMismatch => "TypeMismatch",
            ParseErrorType::CyclicDependency => "CyclicDependency",
        };
        owned(t)
    }
}

/// The model of an error: message, line, column and kind.
pub type SpecParseError = (Seq<char>, int, int, ParseErrorType);

pub open spec fn error_view(e: ParseError) -> SpecParseError {
    (e.message@, e.line as int, e.column as int, e.error_type)
}

pub open spec fn error_views(v: Seq<ParseError>) -> Seq<SpecParseError> {
    v.map_values(|e: ParseError| error_view(e))
}

impl ParseError {
    pub fn new(message: String, line: usize, column: usize, error_type: ParseErrorType) -> (e: ParseError)
        ensures
            error_view(e) == (message@, line as int, column as int, error_type),
    {
        ParseError { message, line, column, error_type }
    }

    /// A copy of the error.
    pub fn copy(&self) -> (e: ParseError)
        ensures
            error_view(e) == error_view(*self),
    {
        ParseError { message: self.message.clone(), line: self.line, column: self.column, error_type: self.error_type }
    }

    pub fn unexpected_token(line: usize, column: usize, found: &str, expected: &str) -> (e: ParseError)
        ensures
            error_view(e) == ("Unexpected token '"@ + found@ + "', expected "@ + expected@, line as int,
                column as int, ParseErrorType::UnexpectedToken),
    {
        let mut m = owned("Unexpected token '");
        push_str(&mut m, found);
        push_str(&mut m, "', expected ");
        push_str(&mut m, expected);
        Self::new(m, line, column, ParseErrorType::UnexpectedToken)
    }

    pub fn expected_token(line: usize, column: usize, expected: &str) -> (e: ParseError)
        ensures
            error_view(e) == ("Expected "@ + expected@, line as int, column as int,
                ParseErrorType::ExpectedToken),
    {
        let mut m = owned("Expected ");
        push_str(&mut m, expected);
        Self::new(m, line, column, ParseErrorType::ExpectedToken)
    }

    pub fn invalid_syntax(line: usize, column: usize, message: &str) -> (e: ParseError)
        ensures
            error_view(e) == ("Invalid syntax: "@ + message@, line as int, column as int,
                ParseErrorType::InvalidSyntax),
    {
        let mut m = owned("Invalid syntax: ");
        push_str(&mut m, message);
        Self::new(m, line, column, ParseErrorType::InvalidSyntax)
    }

    pub fn indentation_error(line: usize, column: usize) -> (e: ParseError)
        ensures
            error_view(e) == ("Indentation error"@, line as int, column as int,
                ParseErrorType::IndentationError),
    {
        Self::new(owned("Indentation error"), line, column, ParseErrorType::IndentationError)
    }

    pub fn unterminated_string(line: usize, column: usize) -> (e: ParseError)
        ensures
            error_view(e) == ("Unterminated string literal"@, line as int, column as int,
                ParseErrorType::UnterminatedString),
    {
        Self::new(owned("Unterminated string literal"), line, column, ParseErrorType::UnterminatedString)
    }

    pub fn invalid_number(line: usize, column: usize, value: &str) -> (e: ParseError)
        ensures
            error_view(e) == ("Invalid number literal: "@ + value@, line as int, column as int,
                ParseErrorType::InvalidNumber),
    {
        let mut m = owned("Invalid number literal: ");
        push_str(&mut m, value);
        Self::new(m, line, column, ParseErrorType::InvalidNumber)
    }

    pub fn undefined_variable(line: usize, column: usize, name: &str) -> (e: ParseError)
        ensures
            error_view(e) == ("Undefined variable: "@ + name@, line as int, column as int,
                ParseErrorType::UndefinedVariable),
    {
        let mut m = owned("Undefined variable: ");
        push_str(&mut m, name);
        Self::new(m, line, column, ParseErrorType::UndefinedVariable)
    }

    pub open spec fn spec_display(e: SpecParseError) -> Seq<char> {
        e.3.spec_name() + " at "@ + decimal(e.1 as nat) + ":"@ + decimal(e.2 as nat) + ": "@ + e.0
    }

    /// The error as `Display` writes it: `<kind> at <line>:<column>: <message>`.
    pub fn to_display(&self) -> (s: String)
        ensures
            s@ == Self::spec_display(error_view(*self)),
    {
        let mut s = self.error_type.to_display();
        push_str(&mut s, " at ");
        push_decimal(&mut s, self.line as u128);
        push_str(&mut s, ":");
        push_decimal(&mut s, self.column as u128);
        push_str(&mut s, ": ");
        push_string(&mut s, &self.message);
        s
    }
}

/// The spaces before a caret under column `col`.
pub open spec fn spaces(n: nat) -> Seq<char>
    decreases n,
{
    if n == 0 { seq![] } else { spaces((n - 1) as nat).push(' ') }
}

fn push_spaces(s: &mut String, n: usize)
    ensures
        final(s)@ == old(s)@ + spaces(n as nat),
{
    let ghost start = s@;
    let mut i: usize = 0;
    while i < n
        invariant
            i <= n,
            s@ == start + spaces(i as nat),
        decreases n - i,
    {
        push_char(s, ' ');
        i += 1;
    }
}

/// What reporting one error writes: a blank line and the error; then, when
/// its line exists in `lines`, that line and a caret under the column.
pub open spec fn error_report(e: SpecParseError, lines: Seq<Seq<char>>) -> Seq<char> {
    let head = "\n"@ + ParseError::spec_display(e) + "\n"@;
    if e.1 <= lines.len() {
        head + "    "@ + lines[e.1 - 1] + "\n"@ + "    "@ + spaces((e.2 - 1) as nat) + "^"@ + "\n"@
    } else {
        head
    }
}

pub open spec fn errors_report(es: Seq<SpecParseError>, lines: Seq<Seq<char>>) -> Seq<char>
    decreases es.len(),
{
    if es.len() == 0 { seq![] } else { errors_report(es.drop_last(), lines) + error_report(es.last(), lines) }
}

/// Errors that can be reported against a source: their lines and columns
/// count from 1.
pub open spec fn reportable(es: Seq<SpecParseError>, lines: Seq<Seq<char>>) -> bool {
    forall|i: int| 0 <= i < es.len() ==> 1 <= (#[trigger] es[i]).1 && (es[i].1 <= lines.len() ==> 1 <= es[i].2)
}

pub struct ErrorCollector {
    errors: Vec<ParseError>,
}

impl ErrorCollector {
    pub closed spec fn spec_errors(&self) -> Seq<SpecParseError> {
        error_views(self.errors@)
    }

    pub fn new() -> (c: ErrorCollector)
        ensures
            c.spec_errors().len() == 0,
    {
        ErrorCollector { errors: Vec::new() }
    }

    pub fn add(&mut self, error: ParseError)
        ensures
            final(self).spec_errors() == old(self).spec_errors().push(error_view(error)),
    {
        self.errors.push(error);
        assert(error_views(self.errors@) =~= error_views(old(self).errors@).push(error_view(error)));
    }

    pub fn has_errors(&self) -> (b: bool)
        ensures
            b == (self.spec_errors().len() > 0),
    {
        !self.errors.is_empty()
    }

    pub fn get_errors(&self) -> (e: &[ParseError])
        ensures
            error_views(e@) == self.spec_errors(),
    {
        self.errors.as_slice()
    }

    pub fn clear(&mut self)
        ensures
            final(self).spec_errors().len() == 0,
    {
        self.errors.clear();
    }

    pub fn into_result(self) -> (r: Result<(), Vec<ParseError>>)
        ensures
            self.spec_errors().len() == 0 <==> r is Ok,
            r matches Err(v) ==> error_views(v@) == self.spec_errors(),
    {
        if self.errors.is_empty() {
            Ok(())
        } else {
            Err(self.errors)
        }
    }

    /// The text that reporting every error against `source` writes to the
    /// error stream.
    pub fn render_errors(&self, source: &str) -> (out: String)
        requires
            reportable(self.spec_errors(), crate::text::lines(source@)),
        ensures
            out@ == errors_report(self.spec_errors(), crate::text::lines(source@)),
    {
        let src = crate::text::chars_of(source);
        let lines = crate::text::lines_of(src.as_slice());
        let ghost ls = crate::text::lines(source@);
        let mut out = String::new();
        let mut i: usize = 0;
        while i < self.errors.len()
            invariant
                i <= self.errors.len(),
                lines@.len() == ls.len(),
                forall|k: int| 0 <= k < lines@.len() ==> #[trigger] lines@[k]@ == ls[k],
                reportable(self.spec_errors(), ls),
                out@ == errors_report(self.spec_errors().take(i as int), ls),
            decreases self.errors.len() - i,
        {
            let e = &self.errors[i];
            assert(error_view(*e) == self.spec_errors()[i as int]);
            push_str(&mut out, "\n");
            let d = e.to_display();
            push_string(&mut out, &d);
            push_str(&mut out, "\n");
            if e.line <= lines.len() {
                let line = crate::text::string_from(lines[e.line - 1].as_slice());
                push_str(&mut out, "    ");
                push_string(&mut out, &line);
                push_str(&mut out, "\n");
                push_str(&mut out, "    ");
                push_spaces(&mut out, e.column - 1);
                push_str(&mut out, "^");
                push_str(&mut out, "\n");
            }
            proof {
                let es = self.spec_errors().take(i + 1);
                assert(es.drop_last() =~= self.spec_errors().take(i as int));
                assert(out@ =~= errors_report(es, ls));
            }
            i += 1;
        }
        assert(self.spec_errors().take(self.errors.len() as int) =~= self.spec_errors());
        out
    }
}

/// A parser's error state: the errors found and whether it is recovering.
pub struct RecoveryParser {
    errors: ErrorCollector,
    in_error_mode: bool,
}

/// Token kinds at which recovery stops skipping.
pub open spec fn is_sync(t: TokenType) -> bool {
    t == TokenType::Component || t == TokenType::Def || t == TokenType::Import || t == TokenType::Export
        || t == TokenType::RBrace || t == TokenType::Eof
}

impl RecoveryParser {
    pub closed spec fn spec_errors(&self) -> Seq<SpecParseError> {
        self.errors.spec_errors()
    }

    pub closed spec fn spec_error_mode(&self) -> bool {
        self.in_error_mode
    }

    pub fn new() -> (p: RecoveryParser)
        ensures
            p.spec_errors().len() == 0,
            !p.spec_error_mode(),
    {
        RecoveryParser { errors: ErrorCollector::new(), in_error_mode: false }
    }

    pub fn default() -> (p: RecoveryParser)
        ensures
            p.spec_errors().len() == 0,
            !p.spec_error_mode(),
    {
        Self::new()
    }

    pub fn enter_error_mode(&mut self)
        ensures
            final(self).spec_error_mode(),
            final(self).spec_errors() == old(self).spec_errors(),
    {
        self.in_error_mode = true;
    }

    pub fn exit_error_mode(&mut self)
        ensures
            !final(self).spec_error_mode(),
            final(self).spec_errors() == old(self).spec_errors(),
    {
        self.in_error_mode = false;
    }

    pub fn is_in_error_mode(&self) -> (b: bool)
        ensures
            b == self.spec_error_mode(),
    {
        self.in_error_mode
    }

    /// Skips from `position` to the next synchronization token (or the end)
    /// and leaves error mode.
    pub fn recover(&mut self, tokens: &[TokenType], position: usize) -> (p: usize)
        ensures
            !final(self).spec_error_mode(),
            final(self).spec_errors() == old(self).spec_errors(),
            position >= tokens@.len() ==> p == position,
            position < tokens@.len() ==> position <= p <= tokens@.len(),
            forall|j: int| position <= j < p ==> !is_sync(#[trigger] tokens@[j]),
            p < tokens@.len() ==> is_sync(tokens@[p as int]),
    {
        let mut new_pos = position;
        while new_pos < tokens.len()
            invariant
                position <= new_pos,
                position < tokens@.len() ==> new_pos <= tokens@.len(),
                position >= tokens@.len() ==> new_pos == position,
                forall|j: int| position <= j < new_pos ==> !is_sync(#[trigger] tokens@[j]),
                self.spec_errors() == old(self).spec_errors(),
            decreases tokens.len() - new_pos,
        {
            if self.is_synchronization_point(&tokens[new_pos]) {
                self.in_error_mode = false;
                return new_pos;
            }
            new_pos += 1;
        }
        self.in_error_mode = false;
        new_pos
    }

    fn is_synchronization_point(&self, token_type: &TokenType) -> (b: bool)
        ensures
            b == is_sync(*token_type),
    {
        match token_type {
            TokenType::Component | TokenType::Def | TokenType::Import | TokenType::Export
            | TokenType::RBrace | TokenType::Eof => true,
            _ => false,
        }
    }

    pub fn add_error(&mut self, error: ParseError)
        ensures
            final(self).spec_errors() == old(self).spec_errors().push(error_view(error)),
            final(self).spec_error_mode() == old(self).spec_error_mode(),
    {
        self.errors.add(error);
    }

    pub fn get_errors(&self) -> (e: &[ParseError])
        ensures
            error_views(e@) == self.spec_errors(),
    {
        self.errors.get_errors()
    }

    pub fn has_errors(&self) -> (b: bool)
        ensures
            b == (self.spec_errors().len() > 0),
    {
        self.errors.has_errors()
    }

    /// The text that reporting every error against `source` writes.
    pub fn print_errors(&self, source: &str) -> (out: String)
        requires
            reportable(self.spec_errors(), crate::text::lines(source@)),
        ensures
            out@ == errors_report(self.spec_errors(), crate::text::lines(source@)),
    {
        self.errors.render_errors(source)
    }
}

} // verus!
