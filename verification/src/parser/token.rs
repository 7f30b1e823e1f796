//! Tokens and the lexer that produces them from source text.
use vstd::prelude::*;
use crate::text::{alphabetic, numeric, alphanumeric};

verus! {

#[derive(Debug, Clone, Copy, PartialEq, Eq, Structural)]
pub enum TokenType {
    Component,
    Signal,
    Effect,
    Computed,
    Def,
    Return,
    If,
    Else,
    For,
    In,
    While,
    Import,
    From,
    Export,
    Default,
    Css,
    Ident,
    String,
    Number,
    LParen,
    RParen,
    LBrace,
    RBrace,
    LBracket,
    RBracket,
    Colon,
    Semicolon,
    Comma,
    Dot,
    Eq,
    EqEq,
    NotEq,
    Lt,
    Gt,
    LtEq,
    GtEq,
    Plus,
    Minus,
    Star,
    Slash,
    Percent,
    And,
    Or,
    Not,
    Arrow,
    Space,
    Indent,
    Dedent,
    Newline,
    True,
    False,
    Null,
    Eof,
}

impl TokenType {
    /// The variant's name, as `Debug` and `Display` write it.
    pub open spec fn spec_name(self) -> Seq<char> {
        match self {
            TokenType::Component => "Component"@,
            TokenType::Signal => "Signal"@,
            TokenType::Effect => "Effect"@,
            TokenType::Computed => "Computed"@,
            TokenType::Def => "Def"@,
            TokenType::Return => "Return"@,
            TokenType::If => "If"@,
            TokenType::Else => "Else"@,
            TokenType::For => "For"@,
            TokenType::In => "In"@,
            TokenType::While => "While"@,
            TokenType::Import => "Import"@,
            TokenType::From => "From"@,
            TokenType::Export => "Export"@,
            TokenType::Default => "Default"@,
            TokenType::Css => "Css"@,
            TokenType::Ident => "Ident"@,
            TokenType::String => "String"@,
            TokenType::Number => "Number"@,
            TokenType::LParen => "LParen"@,
            TokenType::RParen => "RParen"@,
            TokenType::LBrace => "LBrace"@,
            TokenType::RBrace => "RBrace"@,
            TokenType::LBracket => "LBracket"@,
            TokenType::RBracket => "RBracket"@,
            TokenType::Colon => "Colon"@,
            TokenType::Semicolon => "Semicolon"@,
            TokenType::Comma => "Comma"@,
            TokenType::Dot => "Dot"@,
            TokenType::Eq => "Eq"@,
            TokenType::EqEq => "EqEq"@,
            TokenType::NotEq => "NotEq"@,
            TokenType::Lt => "Lt"@,
            TokenType::Gt => "Gt"@,
            TokenType::LtEq => "LtEq"@,
            TokenType::GtEq => "GtEq"@,
            TokenType::Plus => "Plus"@,
            TokenType::Minus => "Minus"@,
            TokenType::Star => "Star"@,
            TokenType::Slash => "Slash"@,
            TokenType::Percent => "Percent"@,
            TokenType::And => "And"@,
            TokenType::Or => "Or"@,
            TokenType::Not => "Not"@,
            TokenType::Arrow => "Arrow"@,
            TokenType::Space => "Space"@,
            TokenType::Indent => "Indent"@,
            TokenType::Dedent => "Dedent"@,
            TokenType::Newline => "Newline"@,
            TokenType::True => "True"@,
            TokenType::False => "False"@,
            TokenType::Null => "Null"@,
            TokenType::Eof => "Eof"@,
        }
    }

    pub fn name(&self) -> (s: &'static str)
        ensures
            s@ == self.spec_name(),
    {
        match self {
            TokenType::Component => "Component",
            TokenType::Signal => "Signal",
            TokenType::Effect => "Effect",
            TokenType::Computed => "Computed",
            TokenType::Def => "Def",
            TokenType::Return => "Return",
            TokenType::If => "If",
            TokenType::Else => "Else",
            TokenType::For => "For",
            TokenType::In => "In",
            TokenType::While => "While",
            TokenType::Import => "Import",
            TokenType::From => "From",
            TokenType::Export => "Export",
            TokenType::Default => "Default",
            TokenType::Css => "Css",
            TokenType::Ident => "Ident",
            TokenType::String => "String",
            TokenType::Number => "Number",
            TokenType::LParen => "LParen",
            TokenType::RParen => "RParen",
            TokenType::LBrace => "LBrace",
            TokenType::RBrace => "RBrace",
            TokenType::LBracket => "LBracket",
            TokenType::RBracket => "RBracket",
            TokenType::Colon => "Colon",
            TokenType::Semicolon => "Semicolon",
            TokenType::Comma => "Comma",
            TokenType::Dot => "Dot",
            TokenType::Eq => "Eq",
            TokenType::EqEq => "EqEq",
            TokenType::NotEq => "NotEq",
            TokenType::Lt => "Lt",
            TokenType::Gt => "Gt",
            TokenType::LtEq => "LtEq",
            TokenType::GtEq => "GtEq",
            TokenType::Plus => "Plus",
            TokenType::Minus => "Minus",
            TokenType::Star => "Star",
            TokenType::Slash => "Slash",
            TokenType::Percent => "Percent",
            TokenType::And => "And",
            TokenType::Or => "Or",
            TokenType::Not => "Not",
            TokenType::Arrow => "Arrow",
            TokenType::Space => "Space",
            TokenType::Indent => "Indent",
            TokenType::Dedent => "Dedent",
            TokenType::Newline => "Newline",
            TokenType::True => "True",
            TokenType::False => "False",
            TokenType::Null => "Null",
            TokenType::Eof => "Eof",
        }
    }

    /// The variant's name as a `String` (the `Display` text).
    pub fn to_display(&self) -> (s: String)
        ensures
            s@ == self.spec_name(),
    {
        crate::text::owned(self.name())
    }
}

#[derive(Debug, Clone)]
pub struct Token {
    pub token_type: TokenType,
    pub value: String,
    pub line: usize,
    pub column: usize,
}

impl Token {
    /// A copy of the token.
    pub fn copy(&self) -> (t: Token)
        ensures
            token_view(t) == token_view(*self),
    {
        Token { token_type: self.token_type, value: self.value.clone(), line: self.line, column: self.column }
    }

    pub fn new(token_type: TokenType, value: String, line: usize, column: usize) -> (t: Token)
        ensures
            t.token_type == token_type,
            t.value@ == value@,
            t.line == line,
            t.column == column,
    {
        Token { token_type, value, line, column }
    }
}

/// A token of the model: its type, text, line and column.
pub type SpecToken = (TokenType, Seq<char>, int, int);

pub open spec fn token_view(t: Token) -> SpecToken {
    (t.token_type, t.value@, t.line as int, t.column as int)
}

/// The character at `pos`, or `'\0'` past the end.
pub open spec fn cur(s: Seq<char>, pos: int) -> char {
    if 0 <= pos < s.len() { s[pos] } else { '\0' }
}

/// The end of a `#` comment starting at `pos`: the next newline, or the end.
pub open spec fn comment_end(s: Seq<char>, pos: int) -> int
    decreases s.len() - pos,
{
    if pos < 0 || pos >= s.len() || s[pos] == '\n' { pos } else { comment_end(s, pos + 1) }
}

/// The end of an identifier's characters starting at `pos`.
pub open spec fn ident_end(s: Seq<char>, pos: int) -> int
    decreases s.len() - pos,
{
    if 0 <= pos < s.len() && (alphanumeric(s[pos]) || s[pos] == '_') { ident_end(s, pos + 1) } else { pos }
}

/// The end of a number's characters (digits and dots) starting at `pos`.
pub open spec fn number_end(s: Seq<char>, pos: int) -> int
    decreases s.len() - pos,
{
    if 0 <= pos < s.len() && (numeric(s[pos]) || s[pos] == '.') { number_end(s, pos + 1) } else { pos }
}

/// Whitespace and comments skipped from `pos`: the new position, line and
/// column. A newline moves to the next line's first column.
pub open spec fn skip_ws(s: Seq<char>, pos: int, line: int, col: int) -> (int, int, int)
    decreases s.len() - pos,
{
    if pos < 0 || pos >= s.len() {
        (pos, line, col)
    } else if s[pos] == ' ' || s[pos] == '\t' || s[pos] == '\r' {
        skip_ws(s, pos + 1, line, col + 1)
    } else if s[pos] == '\n' {
        skip_ws(s, pos + 1, line + 1, 1)
    } else if s[pos] == '#' {
        let e = comment_end(s, pos);
        if e > pos && e <= s.len() { skip_ws(s, e, line, col + (e - pos)) } else { (pos, line, col) }
    } else {
        (pos, line, col)
    }
}

/// The character an escape `\c` stands for inside a string literal.
pub open spec fn unescape(c: char) -> char {
    if c == 'n' { '\n' } else if c == 't' { '\t' } else if c == 'r' { '\r' } else { c }
}

/// The body of a string literal from `pos` up to the quote `q`: its value
/// and the position of the closing quote (or the end of the text).
pub open spec fn string_body(s: Seq<char>, pos: int, q: char) -> (Seq<char>, int)
    decreases s.len() - pos,
{
    if pos < 0 || pos >= s.len() || s[pos] == q {
        (seq![], pos)
    } else if s[pos] == '\\' {
        let next = if pos + 1 < s.len() { pos + 2 } else { pos + 1 };
        let r = string_body(s, next, q);
        (seq![unescape(cur(s, pos + 1))] + r.0, r.1)
    } else {
        let r = string_body(s, pos + 1, q);
        (seq![s[pos]] + r.0, r.1)
    }
}

/// How a character is written inside a string literal quoted by `q`:
/// newline, tab and carriage return as `\n`, `\t`, `\r`; a backslash or
/// the quote after a backslash; anything else as itself.
pub open spec fn escaped(c: char, q: char) -> Seq<char> {
    if c == '\n' {
        seq!['\\', 'n']
    } else if c == '\t' {
        seq!['\\', 't']
    } else if c == '\r' {
        seq!['\\', 'r']
    } else if c == '\\' || c == q {
        seq!['\\', c]
    } else {
        seq![c]
    }
}

/// A text written out for a string literal quoted by `q`.
pub open spec fn escape(v: Seq<char>, q: char) -> Seq<char>
    decreases v.len(),
{
    if v.len() == 0 { seq![] } else { escaped(v[0], q) + escape(v.drop_first(), q) }
}

/// Reading a string literal's body gives back any text written out with
/// escapes: `\n`, `\t` and `\r` stand for newline, tab and carriage
/// return, and the body ends at the closing quote.
pub proof fn lemma_string_body_unescapes(p: Seq<char>, v: Seq<char>, q: char, rest: Seq<char>)
    requires
        q == '"' || q == '\'',
    ensures
        string_body(p + escape(v, q) + seq![q] + rest, p.len() as int, q) == (v, (p.len() + escape(v, q).len()) as int),
    decreases v.len(),
{
    let s = p + escape(v, q) + seq![q] + rest;
    let pos = p.len() as int;
    if v.len() == 0 {
        assert(s[pos] == q);
    } else {
        let c = v[0];
        let e = escaped(c, q);
        let p2 = p + e;
        lemma_string_body_unescapes(p2, v.drop_first(), q, rest);
        assert(s =~= p2 + escape(v.drop_first(), q) + seq![q] + rest);
        assert(s[pos] == e[0]);
        if e.len() == 2 {
            assert(s[pos + 1] == e[1]);
            assert(cur(s, pos + 1) == e[1]);
            assert(unescape(e[1]) == c);
        }
        assert(string_body(s, pos, q).0 =~= seq![c] + v.drop_first());
        assert(seq![c] + v.drop_first() =~= v);
    }
}

/// A string literal quoted by `'` or `"` at the start of the source is read
/// as one string token holding the text it writes out.
pub proof fn lemma_string_literal_token(v: Seq<char>, q: char, rest: Seq<char>)
    requires
        q == '"' || q == '\'',
    ensures
        tokens_of(seq![q] + escape(v, q) + seq![q] + rest)[0] == (TokenType::String, v, 1int, 1int),
{
    let s = seq![q] + escape(v, q) + seq![q] + rest;
    lemma_string_body_unescapes(seq![q], v, q, rest);
    assert(s =~= seq![q] + escape(v, q) + seq![q] + rest);
    assert(s[0] == q);
    assert(skip_ws(s, 0, 1, 1) == (0int, 1int, 1int));
    assert(lex_step(s, 0, 1, 1).0 == Some((TokenType::String, v, 1int, 1int)));
}

/// The token type of a word: its keyword, or `Ident`.
pub open spec fn keyword_type(w: Seq<char>) -> TokenType {
    if w == "component"@ { TokenType::Component } else
    if w == "signal"@ { TokenType::Signal } else
    if w == "effect"@ { TokenType::Effect } else
    if w == "computed"@ { TokenType::Computed } else
    if w == "def"@ { TokenType::Def } else
    if w == "return"@ { TokenType::Return } else
    if w == "if"@ { TokenType::If } else
    if w == "else"@ { TokenType::Else } else
    if w == "for"@ { TokenType::For } else
    if w == "in"@ { TokenType::In } else
    if w == "while"@ { TokenType::While } else
    if w == "import"@ { TokenType::Import } else
    if w == "from"@ { TokenType::From } else
    if w == "export"@ { TokenType::Export } else
    if w == "default"@ { TokenType::Default } else
    if w == "css"@ { TokenType::Css } else
    if w == "true"@ { TokenType::True } else
    if w == "false"@ { TokenType::False } else
    if w == "null"@ { TokenType::Null } else { TokenType::Ident }
}

/// The type of a one-character punctuation token.
pub open spec fn single_type(c: char) -> Option<TokenType> {
    if c == '(' { Some(TokenType::LParen) } else
    if c == ')' { Some(TokenType::RParen) } else
    if c == '{' { Some(TokenType::LBrace) } else
    if c == '}' { Some(TokenType::RBrace) } else
    if c == '[' { Some(TokenType::LBracket) } else
    if c == ']' { Some(TokenType::RBracket) } else
    if c == ':' { Some(TokenType::Colon) } else
    if c == ';' { Some(TokenType::Semicolon) } else
    if c == ',' { Some(TokenType::Comma) } else
    if c == '.' { Some(TokenType::Dot) } else
    if c == '+' { Some(TokenType::Plus) } else
    if c == '-' { Some(TokenType::Minus) } else
    if c == '*' { Some(TokenType::Star) } else
    if c == '/' { Some(TokenType::Slash) } else
    if c == '%' { Some(TokenType::Percent) } else { None }
}

/// One step of the lexer from position `pos` at `line`, `col`: the token
/// found (none on an error), the position, line and column after it, and
/// the error reported, if any.
pub type LexStep = (Option<SpecToken>, int, int, int, Option<Seq<char>>);

pub open spec fn error_text(line: int, col: int, msg: Seq<char>) -> Seq<char> {
    "Lexer error at "@ + crate::text::decimal(line as nat) + ":"@ + crate::text::decimal(col as nat)
        + ": "@ + msg
}

/// A two-character operator if `second` follows, else the one-character one.
pub open spec fn two_or_one(s: Seq<char>, pos: int, line: int, col: int, second: char,
    t2: TokenType, text2: Seq<char>, t1: TokenType, text1: Seq<char>) -> LexStep
{
    if cur(s, pos + 1) == second {
        (Some((t2, text2, line, col)), pos + 2, line, col + 2, None)
    } else {
        (Some((t1, text1, line, col)), pos + 1, line, col + 1, None)
    }
}

pub open spec fn lex_step(s: Seq<char>, pos0: int, line0: int, col0: int) -> LexStep {
    let w = skip_ws(s, pos0, line0, col0);
    let pos = w.0;
    let line = w.1;
    let col = w.2;
    if pos >= s.len() {
        (Some((TokenType::Eof, seq![], line, col)), pos, line, col, None)
    } else {
        let c = s[pos];
        if single_type(c) is Some {
            (Some((single_type(c)->0, seq![c], line, col)), pos + 1, line, col + 1, None)
        } else if c == '=' {
            if cur(s, pos + 1) == '=' {
                (Some((TokenType::EqEq, "=="@, line, col)), pos + 2, line, col + 2, None)
            } else if cur(s, pos + 1) == '>' {
                (Some((TokenType::Arrow, "=>"@, line, col)), pos + 2, line, col + 2, None)
            } else {
                (Some((TokenType::Eq, "="@, line, col)), pos + 1, line, col + 1, None)
            }
        } else if c == '!' {
            two_or_one(s, pos, line, col, '=', TokenType::NotEq, "!="@, TokenType::Not, "!"@)
        } else if c == '<' {
            two_or_one(s, pos, line, col, '=', TokenType::LtEq, "<="@, TokenType::Lt, "<"@)
        } else if c == '>' {
            two_or_one(s, pos, line, col, '=', TokenType::GtEq, ">="@, TokenType::Gt, ">"@)
        } else if c == '&' || c == '|' {
            if cur(s, pos + 1) == c {
                let t = if c == '&' { TokenType::And } else { TokenType::Or };
                (Some((t, seq![c, c], line, col)), pos + 2, line, col + 2, None)
            } else {
                (None, pos + 1, line, col + 1, Some(error_text(line, col + 1, "Invalid token"@)))
            }
        } else if c == '"' || c == '\'' {
            let b = string_body(s, pos + 1, c);
            let end = if b.1 < s.len() { b.1 + 1 } else { b.1 };
            (Some((TokenType::String, b.0, line, col)), end, line, col + (end - pos), None)
        } else if alphabetic(c) || c == '_' {
            let e = ident_end(s, pos);
            let word = s.subrange(pos, e);
            (Some((keyword_type(word), word, line, col)), e, line, col + (e - pos), None)
        } else if numeric(c) {
            let e = number_end(s, pos);
            (Some((TokenType::Number, s.subrange(pos, e), line, col)), e, line, col + (e - pos), None)
        } else {
            (None, pos, line, col, Some(error_text(line, col, "Unexpected character: "@ + seq![c])))
        }
    }
}

/// All tokens from `pos` on: tokens up to and including `Eof`, or up to
/// the first error.
pub open spec fn lex_all(s: Seq<char>, pos: int, line: int, col: int) -> Seq<SpecToken>
    decreases s.len() - pos,
{
    let st = lex_step(s, pos, line, col);
    match st.0 {
        None => seq![],
        Some(t) => if t.0 == TokenType::Eof {
            seq![t]
        } else if st.1 > pos && st.1 <= s.len() {
            seq![t] + lex_all(s, st.1, st.2, st.3)
        } else {
            seq![t]
        },
    }
}

/// The errors reported while lexing from `pos` on (at most one: lexing
/// stops at the first).
pub open spec fn lex_errors(s: Seq<char>, pos: int, line: int, col: int) -> Seq<Seq<char>>
    decreases s.len() - pos,
{
    let st = lex_step(s, pos, line, col);
    match st.0 {
        None => match st.4 {
            Some(e) => seq![e],
            None => seq![],
        },
        Some(t) => if t.0 == TokenType::Eof {
            seq![]
        } else if st.1 > pos && st.1 <= s.len() {
            lex_errors(s, st.1, st.2, st.3)
        } else {
            seq![]
        },
    }
}

/// The tokens of `source`, from its start at line 1, column 1.
pub open spec fn tokens_of(source: Seq<char>) -> Seq<SpecToken> {
    lex_all(source, 0, 1, 1)
}

pub fn keyword_or_ident(w: &[char]) -> (t: TokenType)
    ensures
        t == keyword_type(w@),
{
    if crate::text::chars_eq(w, crate::text::chars_of("component").as_slice()) { TokenType::Component } else
    if crate::text::chars_eq(w, crate::text::chars_of("signal").as_slice()) { TokenType::Signal } else
    if crate::text::chars_eq(w, crate::text::chars_of("effect").as_slice()) { TokenType::Effect } else
    if crate::text::chars_eq(w, crate::text::chars_of("computed").as_slice()) { TokenType::Computed } else
    if crate::text::chars_eq(w, crate::text::chars_of("def").as_slice()) { TokenType::Def } else
    if crate::text::chars_eq(w, crate::text::chars_of("return").as_slice()) { TokenType::Return } else
    if crate::text::chars_eq(w, crate::text::chars_of("if").as_slice()) { TokenType::If } else
    if crate::text::chars_eq(w, crate::text::chars_of("else").as_slice()) { TokenType::Else } else
    if crate::text::chars_eq(w, crate::text::chars_of("for").as_slice()) { TokenType::For } else
    if crate::text::chars_eq(w, crate::text::chars_of("in").as_slice()) { TokenType::In } else
    if crate::text::chars_eq(w, crate::text::chars_of("while").as_slice()) { TokenType::While } else
    if crate::text::chars_eq(w, crate::text::chars_of("import").as_slice()) { TokenType::Import } else
    if crate::text::chars_eq(w, crate::text::chars_of("from").as_slice()) { TokenType::From } else
    if crate::text::chars_eq(w, crate::text::chars_of("export").as_slice()) { TokenType::Export } else
    if crate::text::chars_eq(w, crate::text::chars_of("default").as_slice()) { TokenType::Default } else
    if crate::text::chars_eq(w, crate::text::chars_of("css").as_slice()) { TokenType::Css } else
    if crate::text::chars_eq(w, crate::text::chars_of("true").as_slice()) { TokenType::True } else
    if crate::text::chars_eq(w, crate::text::chars_of("false").as_slice()) { TokenType::False } else
    if crate::text::chars_eq(w, crate::text::chars_of("null").as_slice()) { TokenType::Null } else { TokenType::Ident }
}

fn single_char_type(c: char) -> (t: Option<TokenType>)
    ensures
        t == single_type(c),
{
    if c == '(' { Some(TokenType::LParen) } else
    if c == ')' { Some(TokenType::RParen) } else
    if c == '{' { Some(TokenType::LBrace) } else
    if c == '}' { Some(TokenType::RBrace) } else
    if c == '[' { Some(TokenType::LBracket) } else
    if c == ']' { Some(TokenType::RBracket) } else
    if c == ':' { Some(TokenType::Colon) } else
    if c == ';' { Some(TokenType::Semicolon) } else
    if c == ',' { Some(TokenType::Comma) } else
    if c == '.' { Some(TokenType::Dot) } else
    if c == '+' { Some(TokenType::Plus) } else
    if c == '-' { Some(TokenType::Minus) } else
    if c == '*' { Some(TokenType::Star) } else
    if c == '/' { Some(TokenType::Slash) } else
    if c == '%' { Some(TokenType::Percent) } else { None }
}

pub struct Lexer {
    chars: Vec<char>,
    position: usize,
    line: usize,
    column: usize,
    errors: Vec<String>,
}

impl Lexer {
    pub closed spec fn text(&self) -> Seq<char> {
        self.chars@
    }

    pub closed spec fn pos(&self) -> int {
        self.position as int
    }

    pub closed spec fn cur_line(&self) -> int {
        self.line as int
    }

    pub closed spec fn cur_col(&self) -> int {
        self.column as int
    }

    /// The error lines recorded so far.
    pub closed spec fn spec_errors(&self) -> Seq<Seq<char>> {
        crate::text::views(self.errors@)
    }

    /// The lexer's state is consistent: the position is within the text and
    /// line and column count no more than the characters read.
    pub open spec fn spec_wf(&self) -> bool {
        &&& 0 <= self.pos() <= self.text().len()
        &&& self.text().len() + 2 <= usize::MAX
        &&& 1 <= self.cur_line()
        &&& 1 <= self.cur_col()
        &&& self.cur_line() + self.cur_col() <= self.pos() + 2
    }

    pub fn new(source: &str) -> (l: Lexer)
        requires
            source@.len() + 2 <= usize::MAX,
        ensures
            l.spec_wf(),
            l.text() == source@,
            l.pos() == 0,
            l.cur_line() == 1,
            l.cur_col() == 1,
            l.spec_errors().len() == 0,
    {
        let chars = crate::text::chars_of(source);
        Lexer { chars, position: 0, line: 1, column: 1, errors: Vec::new() }
    }

    /// The error lines recorded so far (to be printed by the caller).
    pub fn get_errors(&self) -> (e: &Vec<String>)
        ensures
            crate::text::views(e@) == self.spec_errors(),
    {
        &self.errors
    }

    pub fn is_eof(&self) -> (b: bool)
        ensures
            b == (self.pos() >= self.text().len()),
    {
        self.position >= self.chars.len()
    }

    pub fn current_char(&self) -> (c: char)
        ensures
            c == cur(self.text(), self.pos()),
    {
        if self.position < self.chars.len() {
            self.chars[self.position]
        } else {
            '\0'
        }
    }

    /// Moves one character on, unless at the end.
    pub fn advance(&mut self)
        requires
            old(self).spec_wf(),
        ensures
            final(self).spec_wf(),
            final(self).text() == old(self).text(),
            final(self).spec_errors() == old(self).spec_errors(),
            final(self).cur_line() == old(self).cur_line(),
            old(self).pos() < old(self).text().len() ==> final(self).pos() == old(self).pos() + 1
                && final(self).cur_col() == old(self).cur_col() + 1,
            old(self).pos() >= old(self).text().len() ==> final(self).pos() == old(self).pos()
                && final(self).cur_col() == old(self).cur_col(),
    {
        if !self.is_eof() {
            self.position += 1;
            self.column += 1;
        }
    }

    fn error(&mut self, message: &str)
        requires
            old(self).spec_wf(),
        ensures
            final(self).spec_wf(),
            final(self).text() == old(self).text(),
            final(self).pos() == old(self).pos(),
            final(self).cur_line() == old(self).cur_line(),
            final(self).cur_col() == old(self).cur_col(),
            final(self).spec_errors() == old(self).spec_errors().push(
                error_text(old(self).cur_line(), old(self).cur_col(), message@)),
    {
        let mut e = crate::text::owned("Lexer error at ");
        crate::text::push_decimal(&mut e, self.line as u128);
        crate::text::push_str(&mut e, ":");
        crate::text::push_decimal(&mut e, self.column as u128);
        crate::text::push_str(&mut e, ": ");
        crate::text::push_str(&mut e, message);
        let ghost before = self.errors@;
        self.errors.push(e);
        assert(crate::text::views(self.errors@) =~= crate::text::views(before).push(e@));
    }

    pub fn skip_comment(&mut self)
        requires
            old(self).spec_wf(),
        ensures
            final(self).spec_wf(),
            final(self).text() == old(self).text(),
            final(self).spec_errors() == old(self).spec_errors(),
            final(self).cur_line() == old(self).cur_line(),
            final(self).pos() == comment_end(old(self).text(), old(self).pos()),
            final(self).cur_col() == old(self).cur_col() + (final(self).pos() - old(self).pos()),
    {
        let ghost p0 = self.pos();
        let ghost c0 = self.cur_col();
        while !self.is_eof() && self.current_char() != '\n'
            invariant
                self.spec_wf(),
                self.text() == old(self).text(),
                self.spec_errors() == old(self).spec_errors(),
                self.cur_line() == old(self).cur_line(),
                p0 <= self.pos(),
                self.cur_col() == c0 + (self.pos() - p0),
                comment_end(self.text(), self.pos()) == comment_end(self.text(), p0),
            decreases self.text().len() - self.pos(),
        {
            self.advance();
        }
    }

    pub fn skip_whitespace(&mut self)
        requires
            old(self).spec_wf(),
        ensures
            final(self).spec_wf(),
            final(self).text() == old(self).text(),
            final(self).spec_errors() == old(self).spec_errors(),
            (final(self).pos(), final(self).cur_line(), final(self).cur_col()) == skip_ws(
                old(self).text(), old(self).pos(), old(self).cur_line(), old(self).cur_col()),
    {
        loop
            invariant
                self.spec_wf(),
                self.text() == old(self).text(),
                self.spec_errors() == old(self).spec_errors(),
                skip_ws(self.text(), self.pos(), self.cur_line(), self.cur_col()) == skip_ws(
                    old(self).text(), old(self).pos(), old(self).cur_line(), old(self).cur_col()),
            decreases self.text().len() - self.pos(),
        {
            if self.is_eof() {
                return;
            }
            let c = self.current_char();
            if c == ' ' || c == '\t' || c == '\r' {
                self.advance();
            } else if c == '\n' {
                self.advance();
                self.line += 1;
                self.column = 1;
            } else if c == '#' {
                proof { lemma_comment_end(self.text(), self.pos()); }
                self.skip_comment();
            } else {
                return;
            }
        }
    }

    pub fn read_identifier(&mut self) -> (t: Token)
        requires
            old(self).spec_wf(),
        ensures
            final(self).spec_wf(),
            final(self).text() == old(self).text(),
            final(self).spec_errors() == old(self).spec_errors(),
            final(self).cur_line() == old(self).cur_line(),
            final(self).pos() == ident_end(old(self).text(), old(self).pos()),
            final(self).cur_col() == old(self).cur_col() + (final(self).pos() - old(self).pos()),
            token_view(t) == (keyword_type(old(self).text().subrange(old(self).pos(), final(self).pos())),
                old(self).text().subrange(old(self).pos(), final(self).pos()), old(self).cur_line(),
                old(self).cur_col()),
    {
        let start_col = self.column;
        let start = self.position;
        let mut value: Vec<char> = Vec::new();
        while !self.is_eof() && (crate::text::is_alphanumeric(self.current_char()) || self.current_char() == '_')
            invariant
                self.spec_wf(),
                self.text() == old(self).text(),
                self.spec_errors() == old(self).spec_errors(),
                self.cur_line() == old(self).cur_line(),
                start == old(self).pos(),
                start <= self.pos(),
                self.cur_col() == start_col + (self.pos() - start),
                start_col == old(self).cur_col(),
                value@ == self.text().subrange(start as int, self.pos()),
                ident_end(self.text(), self.pos()) == ident_end(self.text(), start as int),
            decreases self.text().len() - self.pos(),
        {
            let c = self.current_char();
            value.push(c);
            assert(self.text().subrange(start as int, self.pos() + 1) =~= self.text().subrange(start as int, self.pos()).push(c));
            self.advance();
        }
        let token_type = keyword_or_ident(value.as_slice());
        let v = crate::text::string_from(value.as_slice());
        Token::new(token_type, v, self.line, start_col)
    }

    pub fn read_number(&mut self) -> (t: Token)
        requires
            old(self).spec_wf(),
        ensures
            final(self).spec_wf(),
            final(self).text() == old(self).text(),
            final(self).spec_errors() == old(self).spec_errors(),
            final(self).cur_line() == old(self).cur_line(),
            final(self).pos() == number_end(old(self).text(), old(self).pos()),
            final(self).cur_col() == old(self).cur_col() + (final(self).pos() - old(self).pos()),
            token_view(t) == (TokenType::Number, old(self).text().subrange(old(self).pos(), final(self).pos()),
                old(self).cur_line(), old(self).cur_col()),
    {
        let start_col = self.column;
        let start = self.position;
        let mut value: Vec<char> = Vec::new();
        while !self.is_eof() && (crate::text::is_numeric(self.current_char()) || self.current_char() == '.')
            invariant
                self.spec_wf(),
                self.text() == old(self).text(),
                self.spec_errors() == old(self).spec_errors(),
                self.cur_line() == old(self).cur_line(),
                start == old(self).pos(),
                start <= self.pos(),
                self.cur_col() == start_col + (self.pos() - start),
                start_col == old(self).cur_col(),
                value@ == self.text().subrange(start as int, self.pos()),
                number_end(self.text(), self.pos()) == number_end(self.text(), start as int),
            decreases self.text().len() - self.pos(),
        {
            let c = self.current_char();
            value.push(c);
            assert(self.text().subrange(start as int, self.pos() + 1) =~= self.text().subrange(start as int, self.pos()).push(c));
            self.advance();
        }
        let v = crate::text::string_from(value.as_slice());
        Token::new(TokenType::Number, v, self.line, start_col)
    }

    /// Reads a string literal whose opening quote is at the position.
    pub fn read_string(&mut self) -> (t: Token)
        requires
            old(self).spec_wf(),
            old(self).pos() < old(self).text().len(),
        ensures
            final(self).spec_wf(),
            final(self).text() == old(self).text(),
            final(self).spec_errors() == old(self).spec_errors(),
            final(self).cur_line() == old(self).cur_line(),
            ({
                let b = string_body(old(self).text(), old(self).pos() + 1, old(self).text()[old(self).pos()]);
                let end = if b.1 < old(self).text().len() { b.1 + 1 } else { b.1 };
                &&& final(self).pos() == end
                &&& token_view(t) == (TokenType::String, b.0, old(self).cur_line(), old(self).cur_col())
            }),
            final(self).cur_col() == old(self).cur_col() + (final(self).pos() - old(self).pos()),
    {
        let quote = self.current_char();
        let start_col = self.column;
        let ghost p0 = self.pos();
        self.advance();
        let ghost s = self.text();
        let ghost p1 = self.pos();
        let mut value: Vec<char> = Vec::new();
        while !self.is_eof() && self.current_char() != quote
            invariant
                self.spec_wf(),
                self.text() == s,
                s == old(self).text(),
                self.spec_errors() == old(self).spec_errors(),
                self.cur_line() == old(self).cur_line(),
                p1 == p0 + 1,
                p1 <= self.pos(),
                self.cur_col() == start_col + (self.pos() - p0),
                start_col == old(self).cur_col(),
                ({
                    let b = string_body(s, self.pos(), quote);
                    string_body(s, p1, quote) == (value@ + b.0, b.1)
                }),
            decreases s.len() - self.pos(),
        {
            let ghost before = value@;
            let ghost here = self.pos();
            if self.current_char() == '\\' {
                self.advance();
                let c = self.current_char();
                let e = if c == 'n' { '\n' } else if c == 't' { '\t' } else if c == 'r' { '\r' } else { c };
                value.push(e);
                proof {
                    let r = string_body(s, self.pos() + (if self.pos() < s.len() { 1int } else { 0int }), quote);
                    assert(string_body(s, here, quote) == (seq![e] + r.0, r.1));
                    assert(before + (seq![e] + r.0) =~= value@ + r.0);
                }
            } else {
                let c = self.current_char();
                value.push(c);
                proof {
                    let r = string_body(s, here + 1, quote);
                    assert(string_body(s, here, quote) == (seq![c] + r.0, r.1));
                    assert(before + (seq![c] + r.0) =~= value@ + r.0);
                }
            }
            self.advance();
        }
        proof {
            assert(string_body(s, self.pos(), quote) == (Seq::<char>::empty(), self.pos()));
            assert(value@ + Seq::<char>::empty() =~= value@);
        }
        self.advance();
        let v = crate::text::string_from(value.as_slice());
        Token::new(TokenType::String, v, self.line, start_col)
    }

    fn simple(&mut self, t: TokenType, text: &str, width: usize) -> (tok: Token)
        requires
            old(self).spec_wf(),
            1 <= width <= 2,
            old(self).pos() + width <= old(self).text().len(),
        ensures
            final(self).spec_wf(),
            final(self).text() == old(self).text(),
            final(self).spec_errors() == old(self).spec_errors(),
            final(self).cur_line() == old(self).cur_line(),
            final(self).pos() == old(self).pos() + width,
            final(self).cur_col() == old(self).cur_col() + width,
            token_view(tok) == (t, text@, old(self).cur_line(), old(self).cur_col()),
    {
        let col = self.column;
        self.advance();
        if width == 2 {
            self.advance();
        }
        Token::new(t, crate::text::owned(text), self.line, col)
    }

    /// Reads the next token, or reports an error and returns `None`.
    pub fn next_token(&mut self) -> (r: Option<Token>)
        requires
            old(self).spec_wf(),
        ensures
            final(self).spec_wf(),
            final(self).text() == old(self).text(),
            ({
                let st = lex_step(old(self).text(), old(self).pos(), old(self).cur_line(), old(self).cur_col());
                &&& (match r { Some(t) => st.0 == Some(token_view(t)), None => st.0 is None })
                &&& final(self).pos() == st.1
                &&& final(self).cur_line() == st.2
                &&& final(self).cur_col() == st.3
                &&& final(self).spec_errors() == (match st.4 {
                    Some(e) => old(self).spec_errors().push(e),
                    None => old(self).spec_errors(),
                })
            }),
    {
        self.skip_whitespace();
        if self.is_eof() {
            return Some(Token::new(TokenType::Eof, String::new(), self.line, self.column));
        }
        let ch = self.current_char();
        let ghost s = self.text();
        let ghost p = self.pos();
        if let Some(t) = single_char_type(ch) {
            let mut v = String::new();
            crate::text::push_char(&mut v, ch);
            let col = self.column;
            self.advance();
            return Some(Token::new(t, v, self.line, col));
        }
        if ch == '=' {
            if self.position + 1 < self.chars.len() && self.chars[self.position + 1] == '=' {
                return Some(self.simple(TokenType::EqEq, "==", 2));
            } else if self.position + 1 < self.chars.len() && self.chars[self.position + 1] == '>' {
                return Some(self.simple(TokenType::Arrow, "=>", 2));
            } else {
                return Some(self.simple(TokenType::Eq, "=", 1));
            }
        }
        if ch == '!' {
            if self.position + 1 < self.chars.len() && self.chars[self.position + 1] == '=' {
                return Some(self.simple(TokenType::NotEq, "!=", 2));
            } else {
                return Some(self.simple(TokenType::Not, "!", 1));
            }
        }
        if ch == '<' {
            if self.position + 1 < self.chars.len() && self.chars[self.position + 1] == '=' {
                return Some(self.simple(TokenType::LtEq, "<=", 2));
            } else {
                return Some(self.simple(TokenType::Lt, "<", 1));
            }
        }
        if ch == '>' {
            if self.position + 1 < self.chars.len() && self.chars[self.position + 1] == '=' {
                return Some(self.simple(TokenType::GtEq, ">=", 2));
            } else {
                return Some(self.simple(TokenType::Gt, ">", 1));
            }
        }
        if ch == '&' || ch == '|' {
            let col = self.column;
            self.advance();
            if self.current_char() == ch {
                self.advance();
                let mut v = String::new();
                crate::text::push_char(&mut v, ch);
                crate::text::push_char(&mut v, ch);
                let t = if ch == '&' { TokenType::And } else { TokenType::Or };
                return Some(Token::new(t, v, self.line, col));
            } else {
                self.error("Invalid token");
                return None;
            }
        }
        if ch == '"' || ch == '\'' {
            return Some(self.read_string());
        }
        if crate::text::is_alphabetic(ch) || ch == '_' {
            return Some(self.read_identifier());
        }
        if crate::text::is_numeric(ch) {
            return Some(self.read_number());
        }
        let mut msg = crate::text::owned("Unexpected character: ");
        crate::text::push_char(&mut msg, ch);
        assert(msg@ =~= "Unexpected character: "@ + seq![ch]);
        self.error(msg.as_str());
        None
    }

    /// Reads tokens until `Eof` (included) or the first error.
    pub fn tokenize(&mut self) -> (tokens: Vec<Token>)
        requires
            old(self).spec_wf(),
        ensures
            final(self).spec_wf(),
            tokens@.map_values(|t: Token| token_view(t)) == lex_all(old(self).text(), old(self).pos(),
                old(self).cur_line(), old(self).cur_col()),
            final(self).spec_errors() == old(self).spec_errors() + lex_errors(old(self).text(),
                old(self).pos(), old(self).cur_line(), old(self).cur_col()),
    {
        let mut tokens: Vec<Token> = Vec::new();
        let ghost s = self.text();
        loop
            invariant
                self.spec_wf(),
                self.text() == s,
                s == old(self).text(),
                lex_all(s, old(self).pos(), old(self).cur_line(), old(self).cur_col())
                    == tokens@.map_values(|t: Token| token_view(t)) + lex_all(s, self.pos(), self.cur_line(), self.cur_col()),
                old(self).spec_errors() + lex_errors(s, old(self).pos(), old(self).cur_line(), old(self).cur_col())
                    == self.spec_errors() + lex_errors(s, self.pos(), self.cur_line(), self.cur_col()),
            decreases s.len() - self.pos(),
        {
            let ghost p = self.pos();
            let ghost l = self.cur_line();
            let ghost c = self.cur_col();
            let ghost before = tokens@;
            let ghost errs = self.spec_errors();
            proof { lemma_step_progress(s, p, l, c); }
            match self.next_token() {
                Some(token) => {
                    let is_eof = token.token_type == TokenType::Eof;
                    tokens.push(token);
                    proof {
                        assert(tokens@.map_values(|t: Token| token_view(t)) =~= before.map_values(|t: Token| token_view(t)).push(token_view(token)));
                    }
                    if is_eof {
                        proof {
                            assert(lex_all(s, p, l, c) == seq![token_view(token)]);
                            assert(lex_errors(s, p, l, c) == Seq::<Seq<char>>::empty());
                            assert(self.spec_errors() + Seq::<Seq<char>>::empty() =~= self.spec_errors());
                            assert(before.map_values(|t: Token| token_view(t)) + seq![token_view(token)] =~= tokens@.map_values(|t: Token| token_view(t)));
                        }
                        return tokens;
                    }
                    proof {
                        assert(seq![token_view(token)] + lex_all(s, self.pos(), self.cur_line(), self.cur_col())
                            == lex_all(s, p, l, c));
                        assert(before.map_values(|t: Token| token_view(t)) + (seq![token_view(token)] + lex_all(s, self.pos(), self.cur_line(), self.cur_col()))
                            =~= tokens@.map_values(|t: Token| token_view(t)) + lex_all(s, self.pos(), self.cur_line(), self.cur_col()));
                    }
                }
                None => {
                    proof {
                        assert(lex_all(s, p, l, c) == Seq::<SpecToken>::empty());
                        assert(before.map_values(|t: Token| token_view(t)) + Seq::<SpecToken>::empty() =~= tokens@.map_values(|t: Token| token_view(t)));
                        let st = lex_step(s, p, l, c);
                        if st.4 is Some {
                            assert(lex_errors(s, p, l, c) == seq![st.4->0]);
                            assert(errs + seq![st.4->0] =~= self.spec_errors());
                        } else {
                            assert(errs + Seq::<Seq<char>>::empty() =~= self.spec_errors());
                        }
                    }
                    return tokens;
                }
            }
        }
    }
}

/// A lexer step that yields a token other than `Eof` moves forward.
proof fn lemma_step_progress(s: Seq<char>, pos: int, line: int, col: int)
    requires
        0 <= pos <= s.len(),
    ensures
        ({
            let st = lex_step(s, pos, line, col);
            st.0 matches Some(t) && t.0 != TokenType::Eof ==> st.1 > pos && st.1 <= s.len()
        }),
{
    lemma_skip_ws_forward(s, pos, line, col);
    let w = skip_ws(s, pos, line, col);
    if w.0 < s.len() {
        let c = s[w.0];
        lemma_ident_end(s, w.0);
        lemma_number_end(s, w.0);
        lemma_string_body(s, w.0 + 1, c);
        if alphabetic(c) || c == '_' {
            lemma_ident_end(s, w.0);
        }
        if numeric(c) {
            lemma_number_end(s, w.0);
        }
        if c == '"' || c == '\'' {
            lemma_string_body(s, w.0 + 1, c);
        }
    }
}

proof fn lemma_skip_ws_forward(s: Seq<char>, pos: int, line: int, col: int)
    requires
        0 <= pos <= s.len(),
    ensures
        pos <= skip_ws(s, pos, line, col).0 <= s.len(),
    decreases s.len() - pos,
{
    if pos < s.len() {
        let c = s[pos];
        if c == ' ' || c == '\t' || c == '\r' || c == '\n' {
            lemma_skip_ws_forward(s, pos + 1, if c == '\n' { line + 1 } else { line }, if c == '\n' { 1 } else { col + 1 });
        } else if c == '#' {
            lemma_comment_end(s, pos);
            let e = comment_end(s, pos);
            if e > pos && e <= s.len() {
                lemma_skip_ws_forward(s, e, line, col + (e - pos));
            }
        }
    }
}

proof fn lemma_comment_end(s: Seq<char>, pos: int)
    requires
        0 <= pos <= s.len(),
    ensures
        pos <= comment_end(s, pos) <= s.len(),
        pos < s.len() && s[pos] != '\n' ==> comment_end(s, pos) > pos,
    decreases s.len() - pos,
{
    if pos < s.len() && s[pos] != '\n' {
        lemma_comment_end(s, pos + 1);
    }
}

proof fn lemma_ident_end(s: Seq<char>, pos: int)
    requires
        0 <= pos <= s.len(),
    ensures
        pos <= ident_end(s, pos) <= s.len(),
        pos < s.len() && (alphabetic(s[pos]) || s[pos] == '_') ==> ident_end(s, pos) > pos,
    decreases s.len() - pos,
{
    if pos < s.len() && (alphanumeric(s[pos]) || s[pos] == '_') {
        lemma_ident_end(s, pos + 1);
    }
}

proof fn lemma_number_end(s: Seq<char>, pos: int)
    requires
        0 <= pos <= s.len(),
    ensures
        pos <= number_end(s, pos) <= s.len(),
        pos < s.len() && numeric(s[pos]) ==> number_end(s, pos) > pos,
    decreases s.len() - pos,
{
    if pos < s.len() && (numeric(s[pos]) || s[pos] == '.') {
        lemma_number_end(s, pos + 1);
    }
}

proof fn lemma_string_body(s: Seq<char>, pos: int, q: char)
    requires
        0 <= pos <= s.len(),
    ensures
        pos <= string_body(s, pos, q).1 <= s.len(),
    decreases s.len() - pos,
{
    if pos < s.len() && s[pos] != q {
        if s[pos] == '\\' {
            lemma_string_body(s, if pos + 1 < s.len() { pos + 2 } else { pos + 1 }, q);
        } else {
            lemma_string_body(s, pos + 1, q);
        }
    }
}

/// A stream of tokens read ahead from source text.
pub struct TokenStream {
    tokens: Vec<Token>,
    position: usize,
}

/// One read of a stream of `toks` at position `p`: the token there and
/// the next position, or nothing and the same position past the end.
pub open spec fn stream_step(toks: Seq<SpecToken>, p: int) -> (Option<SpecToken>, int) {
    if 0 <= p < toks.len() { (Some(toks[p]), p + 1) } else { (None, p) }
}

/// `k` reads in turn from position `p`: what each read gives, and the
/// position after them.
pub open spec fn stream_run(toks: Seq<SpecToken>, p: int, k: nat) -> (Seq<Option<SpecToken>>, int)
    decreases k,
{
    if k == 0 {
        (seq![], p)
    } else {
        let (first, q) = stream_step(toks, p);
        let (rest, e) = stream_run(toks, q, (k - 1) as nat);
        (seq![first] + rest, e)
    }
}

/// Reading a fresh stream `k` times gives its tokens in order, then
/// nothing for every read past the end.
pub proof fn lemma_stream_reads_in_order(toks: Seq<SpecToken>, p: int, k: nat)
    requires
        0 <= p,
    ensures
        stream_run(toks, p, k).0.len() == k,
        forall|i: int|
            0 <= i < k ==> #[trigger] stream_run(toks, p, k).0[i] == if p + i < toks.len() {
                Some(toks[p + i])
            } else {
                None::<SpecToken>
            },
        stream_run(toks, p, k).1 == if p + k <= toks.len() { p + k } else if p <= toks.len() { toks.len() as int } else { p },
    decreases k,
{
    if k > 0 {
        let q = stream_step(toks, p).1;
        lemma_stream_reads_in_order(toks, q, (k - 1) as nat);
        let run = stream_run(toks, p, k).0;
        let rest = stream_run(toks, q, (k - 1) as nat).0;
        assert forall|i: int| 0 <= i < k implies #[trigger] run[i] == if p + i < toks.len() {
            Some(toks[p + i])
        } else {
            None::<SpecToken>
        } by {
            if i > 0 {
                assert(run[i] == rest[i - 1]);
            }
        }
    }
}

impl TokenStream {
    pub closed spec fn spec_tokens(&self) -> Seq<SpecToken> {
        self.tokens@.map_values(|t: Token| token_view(t))
    }

    pub closed spec fn spec_position(&self) -> int {
        self.position as int
    }

    /// The tokens of `source`, positioned at the first.
    pub fn new(source: &str) -> (ts: TokenStream)
        requires
            source@.len() + 2 <= usize::MAX,
        ensures
            ts.spec_tokens() == tokens_of(source@),
            ts.spec_position() == 0,
    {
        let mut lexer = Lexer::new(source);
        let tokens = lexer.tokenize();
        TokenStream { tokens, position: 0 }
    }

    /// A stream over the given tokens.
    pub fn from_tokens(tokens: Vec<Token>) -> (ts: TokenStream)
        ensures
            ts.spec_tokens() == tokens@.map_values(|t: Token| token_view(t)),
            ts.spec_position() == 0,
    {
        TokenStream { tokens, position: 0 }
    }

    /// The next token, consumed.
    pub fn next(&mut self) -> (r: Option<Token>)
        ensures
            final(self).spec_tokens() == old(self).spec_tokens(),
            (match r {
                Some(t) => Some(token_view(t)),
                None => None,
            }, final(self).spec_position()) == stream_step(old(self).spec_tokens(), old(self).spec_position()),
            old(self).spec_position() < old(self).spec_tokens().len() ==> {
                &&& r matches Some(t)
                &&& token_view(t) == old(self).spec_tokens()[old(self).spec_position()]
                &&& final(self).spec_position() == old(self).spec_position() + 1
            },
            old(self).spec_position() >= old(self).spec_tokens().len() ==> r is None
                && final(self).spec_position() == old(self).spec_position(),
    {
        if self.position < self.tokens.len() {
            let token = self.tokens[self.position].copy();
            self.position += 1;
            Some(token)
        } else {
            None
        }
    }

    /// The next token, not consumed.
    pub fn peek(&self) -> (r: Option<&Token>)
        ensures
            self.spec_position() < self.spec_tokens().len() ==> (r matches Some(t) && token_view(*t)
                == self.spec_tokens()[self.spec_position()]),
            self.spec_position() >= self.spec_tokens().len() ==> r is None,
    {
        if self.position < self.tokens.len() {
            Some(&self.tokens[self.position])
        } else {
            None
        }
    }
}

} // verus!
