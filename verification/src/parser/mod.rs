//! Lexing, parsing and grammar checks.
//!
//! The parser reads the lexer's tokens by recursive descent. Errors are
//! messages; the first one ends the parse.
use vstd::prelude::*;
use crate::ast::{
    Program, Component, Function, Import, Export, CssBlock, CssRule, Param, Stmt, IfStmt, ForStmt,
    WhileStmt, AssignStmt, AssignOp, Expr, BinaryExpr, BinaryOp, UnaryExpr, UnaryOp, LiteralExpr,
    LiteralValue, IdentExpr, CallExpr,
};
use crate::text::{owned, push_str, views};

pub mod token;
pub mod error;
pub mod grammar;
pub mod rules;

use token::{Token, TokenType, TokenStream, SpecToken, token_view};
use rules::{tree, agrees, p_expr, p_or, or_rest, p_and, and_rest, p_eq, eq_rest, p_cmp, cmp_rest, p_add, add_rest,
    p_mul, mul_rest, p_unary, p_primary, p_from_ident, p_args, trees, ExprTree, outcome, failure, expect_at, value_at,
    stmt_tree, param_tree, params_tree, component_tree, function_tree, import_tree, export_tree, css_tree, program_tree,
    p_params, p_block, p_if, p_for, p_while, p_return, p_assign_or_expr, p_expr_stmt, p_stmt, p_component, p_function,
    p_names, p_import, p_export, p_css_rules, p_css, p_program, p_all, ParamTree};

verus! {

/// A number literal's text is valid when it is ASCII digits with at most
/// one dot and at least one digit (what `f64` parsing accepts from the
/// characters a number token can hold).
pub open spec fn valid_number(t: Seq<char>) -> bool {
    &&& forall|i: int| 0 <= i < t.len() ==> ('0' <= #[trigger] t[i] <= '9' || t[i] == '.')
    &&& forall|i: int, j: int| 0 <= i < j < t.len() && t[i] == '.' ==> t[j] != '.'
    &&& exists|i: int| 0 <= i < t.len() && '0' <= #[trigger] t[i] <= '9'
}

pub fn is_valid_number(t: &[char]) -> (b: bool)
    ensures
        b == valid_number(t@),
{
    let mut i: usize = 0;
    let mut dot: Option<usize> = None;
    let mut digit: Option<usize> = None;
    while i < t.len()
        invariant
            i <= t.len(),
            forall|k: int| 0 <= k < i ==> ('0' <= #[trigger] t@[k] <= '9' || t@[k] == '.'),
            forall|a: int, b: int| 0 <= a < b < i && t@[a] == '.' ==> t@[b] != '.',
            dot matches Some(d) ==> d < i && t@[d as int] == '.',
            dot is None ==> forall|k: int| 0 <= k < i ==> t@[k] != '.',
            digit matches Some(d) ==> d < i && '0' <= t@[d as int] <= '9',
            digit is None ==> forall|k: int| 0 <= k < i ==> !('0' <= #[trigger] t@[k] <= '9'),
        decreases t.len() - i,
    {
        let c = t[i];
        if '0' <= c && c <= '9' {
            digit = Some(i);
        } else if c == '.' {
            if dot.is_some() {
                proof {
                    let d = dot->0;
                    assert(0 <= d < i && t@[d as int] == '.' && t@[i as int] == '.');
                }
                return false;
            }
            dot = Some(i);
        } else {
            assert(!('0' <= t@[i as int] <= '9' || t@[i as int] == '.'));
            return false;
        }
        i += 1;
    }
    match digit {
        Some(d) => {
            assert('0' <= t@[d as int] <= '9');
            true
        }
        None => false,
    }
}

/// `num` can be called on any text and shows equal texts alike.
pub open spec fn shows_ok<N: Fn(String) -> String>(num: N) -> bool {
    &&& forall|x: String| #[trigger] call_requires(num, (x,))
    &&& forall|x: String, x2: String, r: String, r2: String|
        #![trigger call_ensures(num, (x,), r), call_ensures(num, (x2,), r2)]
        x@ == x2@ && call_ensures(num, (x,), r) && call_ensures(num, (x2,), r2) ==> r@ == r2@
}

/// The text `num` shows for a number's text.
pub open spec fn shown_text<N: Fn(String) -> String>(num: N, a: Seq<char>) -> Seq<char> {
    (choose|t: (String, String)| t.0@ == a && #[trigger] call_ensures(num, (t.0,), t.1)).1@
}

/// A token whose text is a valid number has it replaced by the text `num`
/// shows for it; other tokens stay as they are.
pub open spec fn shown_token<N: Fn(String) -> String>(num: N, t: SpecToken) -> SpecToken {
    if t.0 == TokenType::Number && valid_number(t.1) {
        (t.0, shown_text(num, t.1), t.2, t.3)
    } else {
        t
    }
}

pub open spec fn shown_tokens<N: Fn(String) -> String>(num: N, toks: Seq<SpecToken>) -> Seq<SpecToken> {
    toks.map_values(|t: SpecToken| shown_token(num, t))
}

proof fn lemma_shown_text<N: Fn(String) -> String>(num: N, x: String, r: String)
    requires
        shows_ok(num),
        call_ensures(num, (x,), r),
    ensures
        r@ == shown_text(num, x@),
{
    let w = (x, r);
    assert(w.0@ == x@ && call_ensures(num, (w.0,), w.1));
    let t = choose|t: (String, String)| t.0@ == x@ && #[trigger] call_ensures(num, (t.0,), t.1);
    assert(call_ensures(num, (x,), r) && call_ensures(num, (t.0,), t.1));
}

/// The tokens with each valid number's text replaced by what `num` shows.
fn show_numbers<N: Fn(String) -> String>(tokens: Vec<Token>, num: &N) -> (r: Vec<Token>)
    requires
        shows_ok(*num),
    ensures
        r@.map_values(|t: Token| token_view(t)) == shown_tokens(*num, tokens@.map_values(|t: Token| token_view(t))),
{
    let ghost tv = tokens@.map_values(|t: Token| token_view(t));
    let mut r: Vec<Token> = Vec::new();
    let mut i: usize = 0;
    while i < tokens.len()
        invariant
            i <= tokens@.len(),
            shows_ok(*num),
            tv == tokens@.map_values(|t: Token| token_view(t)),
            r@.len() == i,
            forall|k: int| 0 <= k < i ==> token_view(#[trigger] r@[k]) == shown_token(*num, tv[k]),
        decreases tokens.len() - i,
    {
        let t = &tokens[i];
        assert(token_view(*t) == tv[i as int]);
        let cs = crate::text::chars_of(t.value.as_str());
        if t.token_type == TokenType::Number && is_valid_number(cs.as_slice()) {
            let v = t.value.clone();
            let shown = num(v);
            proof {
                lemma_shown_text(*num, v, shown);
            }
            r.push(Token::new(t.token_type, shown, t.line, t.column));
        } else {
            r.push(t.copy());
        }
        i += 1;
    }
    assert(r@.map_values(|t: Token| token_view(t)) =~= shown_tokens(*num, tv));
    r
}

pub struct Parser {
    tokens: Vec<Token>,
    position: usize,
    current_line: usize,
    current_col: usize,
}

/// A call of the function `name` with these arguments.
fn call_of(name: String, args: Vec<Expr>) -> (e: Expr)
    ensures
        tree(e) == ExprTree::Call(Box::new(ExprTree::Ident(name@, false)), trees(args@)),
{
    let callee = Expr::Ident(IdentExpr { name, global: false });
    assert(tree(callee) == ExprTree::Ident(callee->Ident_0.name@, false));
    Expr::Call(CallExpr { callee: Box::new(callee), args })
}

/// The message for a token of the wrong kind.
pub open spec fn expected_msg(expected: Seq<char>, got: TokenType) -> Seq<char> {
    "Expected "@ + expected + ", got "@ + got.spec_name()
}

impl Parser {
    pub closed spec fn toks(&self) -> Seq<SpecToken> {
        self.tokens@.map_values(|t: Token| token_view(t))
    }

    pub closed spec fn pos(&self) -> int {
        self.position as int
    }

    /// The tokens not yet read.
    pub open spec fn remaining(&self) -> nat {
        if self.pos() <= self.toks().len() { (self.toks().len() - self.pos()) as nat } else { 0 }
    }

    pub open spec fn wf(&self) -> bool {
        0 <= self.pos() <= self.toks().len()
    }

    /// The kind of the next token, `Eof` when none is left.
    pub open spec fn next_type(&self) -> TokenType {
        if self.pos() < self.toks().len() { self.toks()[self.pos()].0 } else { TokenType::Eof }
    }

    /// A parser over the tokens of `source`, each number literal's text
    /// replaced by the text `num` shows for the number (its value printed
    /// back).
    pub fn new<N: Fn(String) -> String>(source: &str, num: &N) -> (p: Parser)
        requires
            source@.len() + 2 <= usize::MAX,
            shows_ok(*num),
        ensures
            p.wf(),
            p.toks() == shown_tokens(*num, token::tokens_of(source@)),
            p.pos() == 0,
    {
        let mut lexer = token::Lexer::new(source);
        let tokens = show_numbers(lexer.tokenize(), num);
        Parser { tokens, position: 0, current_line: 1, current_col: 1 }
    }

    /// A parser over the tokens of `source` as they are written.
    pub(crate) fn as_written(source: &str) -> (p: Parser)
        requires
            source@.len() + 2 <= usize::MAX,
        ensures
            p.wf(),
            p.toks() == token::tokens_of(source@),
            p.pos() == 0,
    {
        let mut lexer = token::Lexer::new(source);
        let tokens = lexer.tokenize();
        Parser { tokens, position: 0, current_line: 1, current_col: 1 }
    }

    pub fn peek_token_type(&self) -> (t: TokenType)
        requires
            self.wf(),
        ensures
            t == self.next_type(),
    {
        if self.position < self.tokens.len() {
            self.tokens[self.position].token_type
        } else {
            TokenType::Eof
        }
    }

    /// Always 0: blocks are not delimited by indentation levels.
    pub fn current_indent(&self) -> (n: usize)
        ensures
            n == 0,
    {
        0
    }

    pub fn is_eof(&self) -> (b: bool)
        requires
            self.wf(),
        ensures
            b == (self.pos() >= self.toks().len()),
    {
        self.position >= self.tokens.len()
    }

    /// Skips one token, if any is left.
    pub fn next_token(&mut self)
        requires
            old(self).wf(),
        ensures
            final(self).wf(),
            final(self).toks() == old(self).toks(),
            final(self).pos() == if old(self).pos() < old(self).toks().len() { old(self).pos() + 1 } else { old(self).pos() },
    {
        if self.position < self.tokens.len() {
            self.position += 1;
        }
    }

    fn take(&mut self) -> (r: Option<&Token>)
        requires
            old(self).wf(),
        ensures
            final(self).wf(),
            final(self).toks() == old(self).toks(),
            old(self).pos() < old(self).toks().len() ==> final(self).pos() == old(self).pos() + 1
                && (r matches Some(t) && token_view(*t) == old(self).toks()[old(self).pos()]),
            old(self).pos() >= old(self).toks().len() ==> final(self).pos() == old(self).pos() && r is None,
    {
        if self.position < self.tokens.len() {
            self.position += 1;
            let t = &self.tokens[self.position - 1];
            Some(t)
        } else {
            None
        }
    }

    /// Reads a token of kind `expected`.
    pub fn expect(&mut self, expected: TokenType) -> (r: Result<(), String>)
        requires
            old(self).wf(),
        ensures
            final(self).wf(),
            final(self).toks() == old(self).toks(),
            final(self).pos() == if old(self).pos() < old(self).toks().len() { old(self).pos() + 1 } else { old(self).pos() },
            r is Ok <==> old(self).pos() < old(self).toks().len() && old(self).next_type() == expected,
            r matches Err(m) ==> m@ == if old(self).pos() < old(self).toks().len() {
                expected_msg(expected.spec_name(), old(self).next_type())
            } else {
                "Unexpected EOF"@
            },
            (failure(r), final(self).pos()) == expect_at(old(self).toks(), old(self).pos(), expected, expected.spec_name()),
    {
        match self.take() {
            Some(t) => {
                if t.token_type == expected {
                    Ok(())
                } else {
                    let mut m = owned("Expected ");
                    push_str(&mut m, expected.name());
                    push_str(&mut m, ", got ");
                    push_str(&mut m, t.token_type.name());
                    Err(m)
                }
            }
            None => Err(owned("Unexpected EOF")),
        }
    }

    fn expect_value(&mut self, kind: TokenType, what: &str) -> (r: Result<String, String>)
        requires
            old(self).wf(),
        ensures
            final(self).wf(),
            final(self).toks() == old(self).toks(),
            final(self).pos() == if old(self).pos() < old(self).toks().len() { old(self).pos() + 1 } else { old(self).pos() },
            r is Ok <==> old(self).pos() < old(self).toks().len() && old(self).next_type() == kind,
            r matches Ok(v) ==> v@ == old(self).toks()[old(self).pos()].1,
            r matches Err(m) ==> m@ == if old(self).pos() < old(self).toks().len() {
                expected_msg(what@, old(self).next_type())
            } else {
                "Unexpected EOF"@
            },
    {
        match self.take() {
            Some(t) => {
                if t.token_type == kind {
                    Ok(t.value.clone())
                } else {
                    let mut m = owned("Expected ");
                    push_str(&mut m, what);
                    push_str(&mut m, ", got ");
                    push_str(&mut m, t.token_type.name());
                    Err(m)
                }
            }
            None => Err(owned("Unexpected EOF")),
        }
    }

    /// Reads an identifier and returns its name.
    pub fn expect_ident(&mut self) -> (r: Result<String, String>)
        requires
            old(self).wf(),
        ensures
            final(self).wf(),
            final(self).toks() == old(self).toks(),
            final(self).pos() == if old(self).pos() < old(self).toks().len() { old(self).pos() + 1 } else { old(self).pos() },
            r is Ok <==> old(self).pos() < old(self).toks().len() && old(self).next_type() == TokenType::Ident,
            r matches Ok(v) ==> v@ == old(self).toks()[old(self).pos()].1,
            r matches Err(m) ==> m@ == if old(self).pos() < old(self).toks().len() {
                expected_msg("ident"@, old(self).next_type())
            } else {
                "Unexpected EOF"@
            },
            (outcome(r, |v: String| v@), final(self).pos()) == value_at(old(self).toks(), old(self).pos(), TokenType::Ident, "ident"@),
    {
        self.expect_value(TokenType::Ident, "ident")
    }

    /// Reads a string literal and returns its value.
    pub fn expect_string(&mut self) -> (r: Result<String, String>)
        requires
            old(self).wf(),
        ensures
            final(self).wf(),
            final(self).toks() == old(self).toks(),
            final(self).pos() == if old(self).pos() < old(self).toks().len() { old(self).pos() + 1 } else { old(self).pos() },
            r is Ok <==> old(self).pos() < old(self).toks().len() && old(self).next_type() == TokenType::String,
            r matches Ok(v) ==> v@ == old(self).toks()[old(self).pos()].1,
            r matches Err(m) ==> m@ == if old(self).pos() < old(self).toks().len() {
                expected_msg("string"@, old(self).next_type())
            } else {
                "Unexpected EOF"@
            },
            (outcome(r, |v: String| v@), final(self).pos()) == value_at(old(self).toks(), old(self).pos(), TokenType::String, "string"@),
    {
        self.expect_value(TokenType::String, "string")
    }

    /// Reads a number literal and returns its text; fails on text that is
    /// not a valid number.
    pub fn expect_number(&mut self) -> (r: Result<String, String>)
        requires
            old(self).wf(),
        ensures
            final(self).wf(),
            final(self).toks() == old(self).toks(),
            final(self).pos() == if old(self).pos() < old(self).toks().len() { old(self).pos() + 1 } else { old(self).pos() },
            r is Ok <==> old(self).pos() < old(self).toks().len() && old(self).next_type() == TokenType::Number
                && valid_number(old(self).toks()[old(self).pos()].1),
            r matches Ok(v) ==> v@ == old(self).toks()[old(self).pos()].1,
            r matches Err(m) ==> m@ == if old(self).pos() >= old(self).toks().len() {
                "Unexpected EOF"@
            } else if old(self).next_type() != TokenType::Number {
                expected_msg("number"@, old(self).next_type())
            } else {
                "Invalid number"@
            },
    {
        let v = self.expect_value(TokenType::Number, "number")?;
        let cs = crate::text::chars_of(v.as_str());
        if is_valid_number(cs.as_slice()) {
            Ok(v)
        } else {
            Err(owned("Invalid number"))
        }
    }

    /// Skips an `Indent` token if one is next.
    pub fn expect_indent(&mut self) -> (r: Result<(), String>)
        requires
            old(self).wf(),
        ensures
            final(self).wf(),
            final(self).toks() == old(self).toks(),
            r is Ok,
            final(self).pos() == if old(self).next_type() == TokenType::Indent && old(self).pos()
                < old(self).toks().len() { old(self).pos() + 1 } else { old(self).pos() },
    {
        if self.peek_token_type() == TokenType::Indent {
            self.next_token();
        }
        Ok(())
    }

    /// Skips a `Dedent` token if one is next.
    pub fn expect_dedent(&mut self) -> (r: Result<(), String>)
        requires
            old(self).wf(),
        ensures
            final(self).wf(),
            final(self).toks() == old(self).toks(),
            r is Ok,
            final(self).pos() == if old(self).next_type() == TokenType::Dedent && old(self).pos()
                < old(self).toks().len() { old(self).pos() + 1 } else { old(self).pos() },
    {
        if self.peek_token_type() == TokenType::Dedent {
            self.next_token();
        }
        Ok(())
    }

    /// `export [default] <name>`.
    pub fn parse_export(&mut self) -> (r: Result<Export, String>)
        requires
            old(self).wf(),
        ensures
            final(self).wf(),
            final(self).toks() == old(self).toks(),
            old(self).pos() <= final(self).pos(),
            r matches Ok(e) ==> {
                let p = old(self).pos();
                let t = old(self).toks();
                let d = p + 1 < t.len() && t[p + 1].0 == TokenType::Default;
                let n = if d { p + 2 } else { p + 1 };
                &&& p < t.len() && t[p].0 == TokenType::Export
                &&& e.is_default == d
                &&& n < t.len() && t[n].0 == TokenType::Ident
                &&& e.name@ == t[n].1
                &&& final(self).pos() == n + 1
            },
            ({
                let p = old(self).pos();
                let t = old(self).toks();
                let d = p + 1 < t.len() && t[p + 1].0 == TokenType::Default;
                let n = if d { p + 2 } else { p + 1 };
                (p < t.len() && t[p].0 == TokenType::Export && n < t.len() && t[n].0 == TokenType::Ident) ==> r is Ok
            }),
            (outcome(r, |v: Export| export_tree(v)), final(self).pos()) == p_export(old(self).toks(), old(self).pos()),
    {
        self.expect(TokenType::Export)?;
        let mut is_default = false;
        if self.peek_token_type() == TokenType::Default {
            self.expect(TokenType::Default)?;
            is_default = true;
        }
        let name = self.expect_ident()?;
        Ok(Export { name, is_default })
    }

    /// `import <name> from "<path>"` or `import { a, b } from "<path>"`.
    #[verifier::rlimit(40)]
    pub fn parse_import(&mut self) -> (r: Result<Import, String>)
        requires
            old(self).wf(),
        ensures
            final(self).wf(),
            final(self).toks() == old(self).toks(),
            old(self).pos() <= final(self).pos(),
            r matches Ok(i) ==> i.alias is None && final(self).pos() > old(self).pos()
                && final(self).toks()[final(self).pos() - 1].0 == TokenType::String
                && i.path@ == final(self).toks()[final(self).pos() - 1].1
                && final(self).toks()[final(self).pos() - 2].0 == TokenType::From
                && old(self).toks()[old(self).pos()].0 == TokenType::Import
                && i.is_default == (old(self).pos() + 1 < old(self).toks().len()
                    && old(self).toks()[old(self).pos() + 1].0 == TokenType::Ident),
            (outcome(r, |v: Import| import_tree(v)), final(self).pos()) == p_import(old(self).toks(), old(self).pos()),
    {
        self.expect(TokenType::Import)?;
        let mut is_default = false;
        let mut names: Vec<String> = Vec::new();
        let alias: Option<String> = None;
        assert(views(names@) =~= Seq::<Seq<char>>::empty());
        if self.peek_token_type() == TokenType::Ident {
            let name = self.expect_ident()?;
            let ghost nv = name@;
            names.push(name);
            assert(views(names@) =~= seq![nv]);
            is_default = true;
        } else if self.peek_token_type() == TokenType::LBrace {
            self.expect(TokenType::LBrace)?;
            assert(views(names@) =~= Seq::<Seq<char>>::empty());
            while self.peek_token_type() != TokenType::RBrace
                invariant
                    self.wf(),
                    self.toks() == old(self).toks(),
                    old(self).pos() + 2 <= self.pos(),
                    !is_default,
                    alias is None,
                    old(self).pos() < old(self).toks().len(),
                    old(self).toks()[old(self).pos()].0 == TokenType::Import,
                    rules::ty(old(self).toks(), old(self).pos() + 1) == TokenType::LBrace,
                    p_names(old(self).toks(), seq![], old(self).pos() + 2) == p_names(
                        old(self).toks(),
                        views(names@),
                        self.pos(),
                    ),
                decreases self.remaining(),
            {
                let name = self.expect_ident()?;
                let ghost n0 = names@;
                names.push(name);
                assert(views(names@) =~= views(n0).push(names@[names@.len() - 1]@));
                if self.peek_token_type() == TokenType::Comma {
                    self.expect(TokenType::Comma)?;
                }
            }
            self.expect(TokenType::RBrace)?;
        }
        self.expect(TokenType::From)?;
        let path = self.expect_string()?;
        Ok(Import { path, names, is_default, alias })
    }

    /// `css "<selector>" { <prop>: "<value>"; ... }`, scoped.
    #[verifier::rlimit(40)]
    pub fn parse_css(&mut self) -> (r: Result<CssBlock, String>)
        requires
            old(self).wf(),
        ensures
            final(self).wf(),
            final(self).toks() == old(self).toks(),
            old(self).pos() <= final(self).pos(),
            r matches Ok(c) ==> c.scoped && final(self).pos() > old(self).pos() + 2
                && old(self).toks()[old(self).pos()].0 == TokenType::Css
                && old(self).toks()[old(self).pos() + 1].0 == TokenType::String
                && c.selector@ == old(self).toks()[old(self).pos() + 1].1
                && final(self).toks()[final(self).pos() - 1].0 == TokenType::RBrace,
            (outcome(r, |v: CssBlock| css_tree(v)), final(self).pos()) == p_css(old(self).toks(), old(self).pos()),
    {
        self.expect(TokenType::Css)?;
        let selector = self.expect_string()?;
        self.expect(TokenType::LBrace)?;
        let mut rules: Vec<CssRule> = Vec::new();
        assert(rules@.map_values(|r: CssRule| (r.property@, r.value@)) =~= Seq::<(Seq<char>, Seq<char>)>::empty());
        while self.peek_token_type() != TokenType::RBrace
            invariant
                self.wf(),
                self.toks() == old(self).toks(),
                old(self).pos() + 3 <= self.pos(),
                old(self).pos() + 2 < old(self).toks().len(),
                old(self).toks()[old(self).pos()].0 == TokenType::Css,
                old(self).toks()[old(self).pos() + 1].0 == TokenType::String,
                old(self).toks()[old(self).pos() + 2].0 == TokenType::LBrace,
                selector@ == old(self).toks()[old(self).pos() + 1].1,
                p_css_rules(old(self).toks(), seq![], old(self).pos() + 3) == p_css_rules(
                    old(self).toks(),
                    rules@.map_values(|r: CssRule| (r.property@, r.value@)),
                    self.pos(),
                ),
            decreases self.remaining(),
        {
            let property = self.expect_ident()?;
            self.expect(TokenType::Colon)?;
            let value = self.expect_string()?;
            self.expect(TokenType::Semicolon)?;
            let ghost r0 = rules@;
            rules.push(CssRule { property, value });
            assert(rules@.map_values(|r: CssRule| (r.property@, r.value@)) =~= r0.map_values(
                |r: CssRule| (r.property@, r.value@),
            ).push((rules@[rules@.len() - 1].property@, rules@[rules@.len() - 1].value@)));
        }
        self.expect(TokenType::RBrace)?;
        Ok(CssBlock { selector, rules, scoped: true })
    }

    pub fn parse_expr(&mut self) -> (r: Result<Expr, String>)
        requires
            old(self).wf(),
        ensures
            final(self).wf(),
            final(self).toks() == old(self).toks(),
            old(self).pos() <= final(self).pos(),
            r is Ok ==> old(self).pos() < final(self).pos(),
            agrees(r, p_expr(old(self).toks(), old(self).pos()), final(self).pos()),
        decreases old(self).remaining(), 9nat,
    {
        self.parse_logical_or()
    }

    pub fn parse_logical_or(&mut self) -> (r: Result<Expr, String>)
        requires
            old(self).wf(),
        ensures
            final(self).wf(),
            final(self).toks() == old(self).toks(),
            old(self).pos() <= final(self).pos(),
            r is Ok ==> old(self).pos() < final(self).pos(),
            agrees(r, p_or(old(self).toks(), old(self).pos()), final(self).pos()),
        decreases old(self).remaining(), 8nat,
    {
        let mut expr = self.parse_logical_and()?;
        loop
            invariant
                self.wf(),
                self.toks() == old(self).toks(),
                old(self).pos() < self.pos(),
                p_or(old(self).toks(), old(self).pos()) == or_rest(old(self).toks(), tree(expr), self.pos()),
            decreases self.remaining(),
        {
            let t = self.peek_token_type();
            if !(t == TokenType::Or) {
                return Ok(expr);
            }
            self.next_token();
            let right = self.parse_logical_and()?;
            let op =                if t == TokenType::Or {
                    BinaryOp::Or
                } else {
                    BinaryOp::Or
                };
            expr = Expr::Binary(BinaryExpr { left: Box::new(expr), right: Box::new(right), op });
        }
    }

    pub fn parse_logical_and(&mut self) -> (r: Result<Expr, String>)
        requires
            old(self).wf(),
        ensures
            final(self).wf(),
            final(self).toks() == old(self).toks(),
            old(self).pos() <= final(self).pos(),
            r is Ok ==> old(self).pos() < final(self).pos(),
            agrees(r, p_and(old(self).toks(), old(self).pos()), final(self).pos()),
        decreases old(self).remaining(), 7nat,
    {
        let mut expr = self.parse_equality()?;
        loop
            invariant
                self.wf(),
                self.toks() == old(self).toks(),
                old(self).pos() < self.pos(),
                p_and(old(self).toks(), old(self).pos()) == and_rest(old(self).toks(), tree(expr), self.pos()),
            decreases self.remaining(),
        {
            let t = self.peek_token_type();
            if !(t == TokenType::And) {
                return Ok(expr);
            }
            self.next_token();
            let right = self.parse_equality()?;
            let op =                if t == TokenType::And {
                    BinaryOp::And
                } else {
                    BinaryOp::And
                };
            expr = Expr::Binary(BinaryExpr { left: Box::new(expr), right: Box::new(right), op });
        }
    }

    pub fn parse_equality(&mut self) -> (r: Result<Expr, String>)
        requires
            old(self).wf(),
        ensures
            final(self).wf(),
            final(self).toks() == old(self).toks(),
            old(self).pos() <= final(self).pos(),
            r is Ok ==> old(self).pos() < final(self).pos(),
            agrees(r, p_eq(old(self).toks(), old(self).pos()), final(self).pos()),
        decreases old(self).remaining(), 6nat,
    {
        let mut expr = self.parse_comparison()?;
        loop
            invariant
                self.wf(),
                self.toks() == old(self).toks(),
                old(self).pos() < self.pos(),
                p_eq(old(self).toks(), old(self).pos()) == eq_rest(old(self).toks(), tree(expr), self.pos()),
            decreases self.remaining(),
        {
            let t = self.peek_token_type();
            if !(t == TokenType::EqEq || t == TokenType::NotEq) {
                return Ok(expr);
            }
            self.next_token();
            let right = self.parse_comparison()?;
            let op =                if t == TokenType::EqEq {
                    BinaryOp::Eq
                } else if t == TokenType::NotEq {
                    BinaryOp::NotEq
                } else {
                    BinaryOp::NotEq
                };
            expr = Expr::Binary(BinaryExpr { left: Box::new(expr), right: Box::new(right), op });
        }
    }

    pub fn parse_comparison(&mut self) -> (r: Result<Expr, String>)
        requires
            old(self).wf(),
        ensures
            final(self).wf(),
            final(self).toks() == old(self).toks(),
            old(self).pos() <= final(self).pos(),
            r is Ok ==> old(self).pos() < final(self).pos(),
            agrees(r, p_cmp(old(self).toks(), old(self).pos()), final(self).pos()),
        decreases old(self).remaining(), 5nat,
    {
        let mut expr = self.parse_addition()?;
        loop
            invariant
                self.wf(),
                self.toks() == old(self).toks(),
                old(self).pos() < self.pos(),
                p_cmp(old(self).toks(), old(self).pos()) == cmp_rest(old(self).toks(), tree(expr), self.pos()),
            decreases self.remaining(),
        {
            let t = self.peek_token_type();
            if !(t == TokenType::Lt || t == TokenType::Gt || t == TokenType::LtEq || t == TokenType::GtEq) {
                return Ok(expr);
            }
            self.next_token();
            let right = self.parse_addition()?;
            let op =                if t == TokenType::Lt {
                    BinaryOp::Lt
                } else if t == TokenType::Gt {
                    BinaryOp::Gt
                } else if t == TokenType::LtEq {
                    BinaryOp::LtEq
                } else if t == TokenType::GtEq {
                    BinaryOp::GtEq
                } else {
                    BinaryOp::GtEq
                };
            expr = Expr::Binary(BinaryExpr { left: Box::new(expr), right: Box::new(right), op });
        }
    }

    pub fn parse_addition(&mut self) -> (r: Result<Expr, String>)
        requires
            old(self).wf(),
        ensures
            final(self).wf(),
            final(self).toks() == old(self).toks(),
            old(self).pos() <= final(self).pos(),
            r is Ok ==> old(self).pos() < final(self).pos(),
            agrees(r, p_add(old(self).toks(), old(self).pos()), final(self).pos()),
        decreases old(self).remaining(), 4nat,
    {
        let mut expr = self.parse_multiplication()?;
        loop
            invariant
                self.wf(),
                self.toks() == old(self).toks(),
                old(self).pos() < self.pos(),
                p_add(old(self).toks(), old(self).pos()) == add_rest(old(self).toks(), tree(expr), self.pos()),
            decreases self.remaining(),
        {
            let t = self.peek_token_type();
            if !(t == TokenType::Plus || t == TokenType::Minus) {
                return Ok(expr);
            }
            self.next_token();
            let right = self.parse_multiplication()?;
            let op =                if t == TokenType::Plus {
                    BinaryOp::Add
                } else if t == TokenType::Minus {
                    BinaryOp::Sub
                } else {
                    BinaryOp::Sub
                };
            expr = Expr::Binary(BinaryExpr { left: Box::new(expr), right: Box::new(right), op });
        }
    }

    pub fn parse_multiplication(&mut self) -> (r: Result<Expr, String>)
        requires
            old(self).wf(),
        ensures
            final(self).wf(),
            final(self).toks() == old(self).toks(),
            old(self).pos() <= final(self).pos(),
            r is Ok ==> old(self).pos() < final(self).pos(),
            agrees(r, p_mul(old(self).toks(), old(self).pos()), final(self).pos()),
        decreases old(self).remaining(), 3nat,
    {
        let mut expr = self.parse_unary()?;
        loop
            invariant
                self.wf(),
                self.toks() == old(self).toks(),
                old(self).pos() < self.pos(),
                p_mul(old(self).toks(), old(self).pos()) == mul_rest(old(self).toks(), tree(expr), self.pos()),
            decreases self.remaining(),
        {
            let t = self.peek_token_type();
            if !(t == TokenType::Star || t == TokenType::Slash || t == TokenType::Percent) {
                return Ok(expr);
            }
            self.next_token();
            let right = self.parse_unary()?;
            let op =                if t == TokenType::Star {
                    BinaryOp::Mul
                } else if t == TokenType::Slash {
                    BinaryOp::Div
                } else if t == TokenType::Percent {
                    BinaryOp::Mod
                } else {
                    BinaryOp::Mod
                };
            expr = Expr::Binary(BinaryExpr { left: Box::new(expr), right: Box::new(right), op });
        }
    }

    pub fn parse_unary(&mut self) -> (r: Result<Expr, String>)
        requires
            old(self).wf(),
        ensures
            final(self).wf(),
            final(self).toks() == old(self).toks(),
            old(self).pos() <= final(self).pos(),
            r is Ok ==> old(self).pos() < final(self).pos(),
            agrees(r, p_unary(old(self).toks(), old(self).pos()), final(self).pos()),
        decreases old(self).remaining(), 2nat,
    {
        let t = self.peek_token_type();
        if t == TokenType::Not || t == TokenType::Minus {
            self.next_token();
            let expr = self.parse_unary()?;
            let op = if t == TokenType::Not { UnaryOp::Not } else { UnaryOp::Neg };
            Ok(Expr::Unary(UnaryExpr { op, expr: Box::new(expr) }))
        } else {
            self.parse_primary()
        }
    }

    pub fn parse_primary(&mut self) -> (r: Result<Expr, String>)
        requires
            old(self).wf(),
        ensures
            final(self).wf(),
            final(self).toks() == old(self).toks(),
            old(self).pos() <= final(self).pos(),
            r is Ok ==> old(self).pos() < final(self).pos(),
            agrees(r, p_primary(old(self).toks(), old(self).pos()), final(self).pos()),
        decreases old(self).remaining(), 1nat,
    {
        match self.peek_token_type() {
            TokenType::Number => {
                let value = self.expect_number()?;
                let raw = value.clone();
                Ok(Expr::Literal(LiteralExpr { value: LiteralValue::Number(value), raw }))
            }
            TokenType::String => {
                let value = self.expect_string()?;
                let raw = value.clone();
                Ok(Expr::Literal(LiteralExpr { value: LiteralValue::String(value), raw }))
            }
            TokenType::True => {
                self.next_token();
                Ok(Expr::Literal(LiteralExpr { value: LiteralValue::Boolean(true), raw: owned("true") }))
            }
            TokenType::False => {
                self.next_token();
                Ok(Expr::Literal(LiteralExpr { value: LiteralValue::Boolean(false), raw: owned("false") }))
            }
            TokenType::Null => {
                self.next_token();
                Ok(Expr::Literal(LiteralExpr { value: LiteralValue::Null, raw: owned("null") }))
            }
            TokenType::Ident => {
                let name = self.expect_ident()?;
                self.parse_expr_from_ident(name)
            }
            TokenType::LParen => {
                self.expect(TokenType::LParen)?;
                let expr = self.parse_expr()?;
                self.expect(TokenType::RParen)?;
                Ok(expr)
            }
            _ => Err(owned("Unexpected token")),
        }
    }

    /// After an identifier: a call `name(args)` or the identifier itself.
    #[verifier::rlimit(60)]
    pub fn parse_expr_from_ident(&mut self, name: String) -> (r: Result<Expr, String>)
        requires
            old(self).wf(),
        ensures
            final(self).wf(),
            final(self).toks() == old(self).toks(),
            old(self).pos() <= final(self).pos(),
            r matches Ok(Expr::Ident(i)) ==> i.name@ == name@ && !i.global && final(self).pos() == old(self).pos(),
            agrees(r, p_from_ident(old(self).toks(), name@, old(self).pos()), final(self).pos()),
        decreases old(self).remaining(), 0nat,
    {
        if self.peek_token_type() == TokenType::LParen {
            self.expect(TokenType::LParen)?;
            let mut args: Vec<Expr> = Vec::new();
            if self.peek_token_type() != TokenType::RParen {
                let ghost start = self.pos();
                assert(trees(args@) =~= Seq::<ExprTree>::empty());
                loop
                    invariant
                        self.wf(),
                        self.toks() == old(self).toks(),
                        old(self).pos() < self.pos(),
                        start == old(self).pos() + 1,
                        rules::ty(old(self).toks(), old(self).pos()) == TokenType::LParen,
                        rules::ty(old(self).toks(), start) != TokenType::RParen,
                        p_args(old(self).toks(), seq![], start) == p_args(old(self).toks(), trees(args@), self.pos()),
                    decreases self.remaining(),
                {
                    let arg = self.parse_expr()?;
                    let ghost a0 = args@;
                    args.push(arg);
                    assert(args@.drop_last() =~= a0);
                    if self.peek_token_type() != TokenType::Comma {
                        self.expect(TokenType::RParen)?;
                        return Ok(call_of(name, args));
                    }
                    self.expect(TokenType::Comma)?;
                }
            }
            assert(trees(args@) =~= Seq::<ExprTree>::empty());
            self.expect(TokenType::RParen)?;
            Ok(call_of(name, args))
        } else {
            let e = Expr::Ident(IdentExpr { name, global: false });
            assert(tree(e) == ExprTree::Ident(e->Ident_0.name@, false));
            Ok(e)
        }
    }

    #[verifier::rlimit(40)]
    pub fn parse_params(&mut self) -> (r: Result<Vec<Param>, String>)
        requires
            old(self).wf(),
        ensures
            final(self).wf(),
            final(self).toks() == old(self).toks(),
            old(self).pos() <= final(self).pos(),
            r is Ok ==> old(self).pos() < final(self).pos(),
            (outcome(r, |v: Vec<Param>| params_tree(v@)), final(self).pos()) == p_params(old(self).toks(), seq![], old(self).pos()),
        decreases old(self).remaining(), 10nat,
    {
        let mut params: Vec<Param> = Vec::new();
        assert(params_tree(params@) =~= Seq::<ParamTree>::empty());
        loop
            invariant
                self.wf(),
                self.toks() == old(self).toks(),
                old(self).pos() <= self.pos(),
                params@.len() > 0 ==> old(self).pos() < self.pos(),
                p_params(old(self).toks(), seq![], old(self).pos()) == p_params(old(self).toks(), params_tree(params@), self.pos()),
            decreases self.remaining(),
        {
            let name = self.expect_ident()?;
            let type_hint = if self.peek_token_type() == TokenType::Colon {
                self.expect(TokenType::Colon)?;
                let hint = self.expect_ident()?;
                Some(hint)
            } else {
                None
            };
            let default = if self.peek_token_type() == TokenType::Eq {
                self.expect(TokenType::Eq)?;
                let expr = self.parse_expr()?;
                Some(expr)
            } else {
                None
            };
            let ghost p0 = params@;
            params.push(Param { name, type_hint, default });
            assert(params_tree(params@) =~= params_tree(p0).push(param_tree(params@[params@.len() - 1])));
            if self.peek_token_type() != TokenType::Comma {
                return Ok(params);
            }
            self.expect(TokenType::Comma)?;
        }
    }

    /// A block: an optional `Indent`, the statements while indented (the
    /// indentation level is always 0, so none), and an optional `Dedent`.
    pub fn parse_block(&mut self) -> (r: Result<Vec<Stmt>, String>)
        requires
            old(self).wf(),
        ensures
            final(self).wf(),
            final(self).toks() == old(self).toks(),
            old(self).pos() <= final(self).pos(),
            r matches Ok(v) ==> v@.len() == 0,
            r is Ok,
            final(self).pos() == p_block(old(self).toks(), old(self).pos()),
        decreases old(self).remaining(), 11nat,
    {
        let mut stmts: Vec<Stmt> = Vec::new();
        self.expect_indent()?;
        while self.current_indent() > 0 && !self.is_eof()
            invariant
                self.wf(),
                self.toks() == old(self).toks(),
                old(self).pos() <= self.pos(),
                stmts@.len() == 0,
                self.pos() == if rules::ty(old(self).toks(), old(self).pos()) == TokenType::Indent {
                    old(self).pos() + 1
                } else {
                    old(self).pos()
                },
            decreases self.remaining(),
        {
            let stmt = self.parse_stmt()?;
            stmts.push(stmt);
        }
        self.expect_dedent()?;
        Ok(stmts)
    }

    #[verifier::rlimit(40)]
    pub fn parse_stmt(&mut self) -> (r: Result<Stmt, String>)
        requires
            old(self).wf(),
        ensures
            final(self).wf(),
            final(self).toks() == old(self).toks(),
            old(self).pos() <= final(self).pos(),
            r is Ok ==> old(self).pos() < final(self).pos(),
            (outcome(r, |v: Stmt| stmt_tree(v)), final(self).pos()) == p_stmt(old(self).toks(), old(self).pos()),
        decreases old(self).remaining(), 13nat,
    {
        match self.peek_token_type() {
            TokenType::If => self.parse_if_stmt(),
            TokenType::For => self.parse_for_stmt(),
            TokenType::While => self.parse_while_stmt(),
            TokenType::Return => self.parse_return_stmt(),
            TokenType::Ident => self.parse_assign_or_expr(),
            _ => self.parse_expr_stmt(),
        }
    }

    #[verifier::rlimit(40)]
    pub fn parse_if_stmt(&mut self) -> (r: Result<Stmt, String>)
        requires
            old(self).wf(),
        ensures
            final(self).wf(),
            final(self).toks() == old(self).toks(),
            old(self).pos() <= final(self).pos(),
            r is Ok ==> old(self).pos() < final(self).pos(),
            (outcome(r, |v: Stmt| stmt_tree(v)), final(self).pos()) == p_if(old(self).toks(), old(self).pos()),
        decreases old(self).remaining(), 12nat,
    {
        self.expect(TokenType::If)?;
        self.expect(TokenType::Space)?;
        let cond = self.parse_expr()?;
        self.expect(TokenType::Colon)?;
        let body = self.parse_block()?;
        Ok(Stmt::If(IfStmt { cond, body, else_if: Vec::new(), else_body: None }))
    }

    #[verifier::rlimit(40)]
    pub fn parse_for_stmt(&mut self) -> (r: Result<Stmt, String>)
        requires
            old(self).wf(),
        ensures
            final(self).wf(),
            final(self).toks() == old(self).toks(),
            old(self).pos() <= final(self).pos(),
            r is Ok ==> old(self).pos() < final(self).pos(),
            (outcome(r, |v: Stmt| stmt_tree(v)), final(self).pos()) == p_for(old(self).toks(), old(self).pos()),
        decreases old(self).remaining(), 12nat,
    {
        self.expect(TokenType::For)?;
        self.expect(TokenType::Space)?;
        let item = self.expect_ident()?;
        self.expect(TokenType::In)?;
        let iter = self.parse_expr()?;
        self.expect(TokenType::Colon)?;
        let body = self.parse_block()?;
        Ok(Stmt::For(ForStmt { item, iter, body, key: None }))
    }

    #[verifier::rlimit(40)]
    pub fn parse_while_stmt(&mut self) -> (r: Result<Stmt, String>)
        requires
            old(self).wf(),
        ensures
            final(self).wf(),
            final(self).toks() == old(self).toks(),
            old(self).pos() <= final(self).pos(),
            r is Ok ==> old(self).pos() < final(self).pos(),
            (outcome(r, |v: Stmt| stmt_tree(v)), final(self).pos()) == p_while(old(self).toks(), old(self).pos()),
        decreases old(self).remaining(), 12nat,
    {
        self.expect(TokenType::While)?;
        self.expect(TokenType::Space)?;
        let cond = self.parse_expr()?;
        self.expect(TokenType::Colon)?;
        let body = self.parse_block()?;
        Ok(Stmt::While(WhileStmt { cond, body }))
    }

    #[verifier::rlimit(40)]
    pub fn parse_return_stmt(&mut self) -> (r: Result<Stmt, String>)
        requires
            old(self).wf(),
        ensures
            final(self).wf(),
            final(self).toks() == old(self).toks(),
            old(self).pos() <= final(self).pos(),
            r is Ok ==> old(self).pos() < final(self).pos(),
            (outcome(r, |v: Stmt| stmt_tree(v)), final(self).pos()) == p_return(old(self).toks(), old(self).pos()),
        decreases old(self).remaining(), 12nat,
    {
        self.expect(TokenType::Return)?;
        let value = self.parse_expr()?;
        Ok(Stmt::Return(value))
    }

    #[verifier::rlimit(40)]
    pub fn parse_assign_or_expr(&mut self) -> (r: Result<Stmt, String>)
        requires
            old(self).wf(),
        ensures
            final(self).wf(),
            final(self).toks() == old(self).toks(),
            old(self).pos() <= final(self).pos(),
            r is Ok ==> old(self).pos() < final(self).pos(),
            (outcome(r, |v: Stmt| stmt_tree(v)), final(self).pos()) == p_assign_or_expr(old(self).toks(), old(self).pos()),
        decreases old(self).remaining(), 12nat,
    {
        let name = self.expect_ident()?;
        if self.peek_token_type() == TokenType::Eq {
            self.expect(TokenType::Eq)?;
            let value = self.parse_expr()?;
            Ok(Stmt::Assign(AssignStmt { target: name, value, op: AssignOp::Eq }))
        } else {
            let expr = self.parse_expr_from_ident(name)?;
            Ok(Stmt::Expr(expr))
        }
    }

    #[verifier::rlimit(40)]
    pub fn parse_expr_stmt(&mut self) -> (r: Result<Stmt, String>)
        requires
            old(self).wf(),
        ensures
            final(self).wf(),
            final(self).toks() == old(self).toks(),
            old(self).pos() <= final(self).pos(),
            r is Ok ==> old(self).pos() < final(self).pos(),
            (outcome(r, |v: Stmt| stmt_tree(v)), final(self).pos()) == p_expr_stmt(old(self).toks(), old(self).pos()),
        decreases old(self).remaining(), 12nat,
    {
        let expr = self.parse_expr()?;
        Ok(Stmt::Expr(expr))
    }

    #[verifier::rlimit(40)]
    pub fn parse_component(&mut self) -> (r: Result<Component, String>)
        requires
            old(self).wf(),
        ensures
            final(self).wf(),
            final(self).toks() == old(self).toks(),
            old(self).pos() <= final(self).pos(),
            r is Ok ==> old(self).pos() < final(self).pos(),
            (outcome(r, |v: Component| component_tree(v)), final(self).pos()) == p_component(old(self).toks(), old(self).pos()),
        decreases old(self).remaining(), 12nat,
    {
        self.expect(TokenType::Component)?;
        let name = self.expect_ident()?;
        self.expect(TokenType::LParen)?;
        let mut params: Vec<Param> = Vec::new();
        assert(params_tree(params@) =~= Seq::<ParamTree>::empty());
        if self.peek_token_type() != TokenType::RParen {
            params = self.parse_params()?;
        }
        self.expect(TokenType::RParen)?;
        self.expect(TokenType::Colon)?;
        let body = self.parse_block()?;
        Ok(Component {
            name,
            params,
            body,
            signals: Vec::new(),
            computed: Vec::new(),
            effects: Vec::new(),
            css_scope: None,
        })
    }

    #[verifier::rlimit(40)]
    pub fn parse_function(&mut self) -> (r: Result<Function, String>)
        requires
            old(self).wf(),
        ensures
            final(self).wf(),
            final(self).toks() == old(self).toks(),
            old(self).pos() <= final(self).pos(),
            r is Ok ==> old(self).pos() < final(self).pos(),
            (outcome(r, |v: Function| function_tree(v)), final(self).pos()) == p_function(old(self).toks(), old(self).pos()),
        decreases old(self).remaining(), 12nat,
    {
        self.expect(TokenType::Def)?;
        let name = self.expect_ident()?;
        self.expect(TokenType::LParen)?;
        let mut params: Vec<Param> = Vec::new();
        assert(params_tree(params@) =~= Seq::<ParamTree>::empty());
        if self.peek_token_type() != TokenType::RParen {
            params = self.parse_params()?;
        }
        self.expect(TokenType::RParen)?;
        self.expect(TokenType::Colon)?;
        let body = self.parse_block()?;
        Ok(Function { name, params, body, return_type: None, is_async: false })
    }

    /// Parses the whole token sequence into a program; tokens that start no
    /// declaration are skipped.
    pub fn parse(&mut self) -> (r: Result<Program, String>)
        requires
            old(self).wf(),
        ensures
            final(self).wf(),
            final(self).toks() == old(self).toks(),
            r is Ok ==> final(self).pos() == final(self).toks().len(),
            (outcome(r, |v: Program| program_tree(v)), final(self).pos()) == rules::p_program(
                old(self).toks(),
                (seq![], seq![], seq![], seq![], seq![]),
                old(self).pos(),
            ),
    {
        let mut program = Program::default();
        assert(program_tree(program) =~~= (
            Seq::<rules::ComponentTree>::empty(),
            Seq::<rules::FunctionTree>::empty(),
            Seq::<rules::ImportTree>::empty(),
            Seq::<(Seq<char>, bool)>::empty(),
            Seq::<rules::CssTree>::empty(),
        ));
        while self.position < self.tokens.len()
            invariant
                self.wf(),
                self.toks() == old(self).toks(),
                rules::p_program(old(self).toks(), (seq![], seq![], seq![], seq![], seq![]), old(self).pos())
                    == rules::p_program(old(self).toks(), program_tree(program), self.pos()),
            decreases self.remaining(),
        {
            let ghost pt = program_tree(program);
            match self.peek_token_type() {
                TokenType::Component => {
                    let component = self.parse_component()?;
                    program.components.push(component);
                    assert(program_tree(program) =~~= (pt.0.push(component_tree(program.components@[program.components@.len() - 1])), pt.1, pt.2, pt.3, pt.4));
                }
                TokenType::Def => {
                    let function = self.parse_function()?;
                    program.functions.push(function);
                    assert(program_tree(program) =~~= (pt.0, pt.1.push(function_tree(program.functions@[program.functions@.len() - 1])), pt.2, pt.3, pt.4));
                }
                TokenType::Import => {
                    let import = self.parse_import()?;
                    program.imports.push(import);
                    assert(program_tree(program) =~~= (pt.0, pt.1, pt.2.push(import_tree(program.imports@[program.imports@.len() - 1])), pt.3, pt.4));
                }
                TokenType::Export => {
                    let export = self.parse_export()?;
                    program.exports.push(export);
                    assert(program_tree(program) =~~= (pt.0, pt.1, pt.2, pt.3.push(export_tree(program.exports@[program.exports@.len() - 1])), pt.4));
                }
                TokenType::Css => {
                    let css = self.parse_css()?;
                    program.css.push(css);
                    assert(program_tree(program) =~~= (pt.0, pt.1, pt.2, pt.3, pt.4.push(css_tree(program.css@[program.css@.len() - 1]))));
                }
                _ => {
                    self.next_token();
                }
            }
        }
        Ok(program)
    }
}

/// Parses `source` into a program, each number literal's text shown by
/// `num`.
pub fn parse<N: Fn(String) -> String>(source: &str, num: &N) -> (r: Result<Program, String>)
    requires
        source@.len() + 2 <= usize::MAX,
        shows_ok(*num),
    ensures
        outcome(r, |v: Program| program_tree(v)) == p_all(shown_tokens(*num, token::tokens_of(source@))),
{
    let mut parser = Parser::new(source, num);
    parser.parse()
}

/// Parses `source` into a program, number literals as they are written.
pub(crate) fn parse_as_written(source: &str) -> (r: Result<Program, String>)
    requires
        source@.len() + 2 <= usize::MAX,
    ensures
        outcome(r, |v: Program| program_tree(v)) == p_all(token::tokens_of(source@)),
{
    let mut parser = Parser::as_written(source);
    parser.parse()
}

/// The tokens of `source`, up to `Eof` or the first lexer error.
pub fn tokenize(source: &str) -> (r: Vec<Token>)
    requires
        source@.len() + 2 <= usize::MAX,
    ensures
        r@.map_values(|t: Token| token_view(t)) == token::tokens_of(source@),
{
    let mut lexer = token::Lexer::new(source);
    lexer.tokenize()
}

} // verus!
