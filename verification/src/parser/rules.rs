//! The expression grammar, stated over token sequences: what each parsing
//! function returns and where it stops, for every input.
use vstd::prelude::*;
use crate::ast::{Expr, LiteralValue, BinaryOp, UnaryOp, Stmt, AssignOp, Param, Component, Function, Import, Export,
    CssBlock, CssRule, Program};
use crate::text::views;
use super::token::{TokenType, SpecToken};
use super::{valid_number, expected_msg};

verus! {

/// A literal's value as plain values.
pub enum LitTree {
    Str(Seq<char>),
    Num(Seq<char>),
    Int(int),
    Bool(bool),
    Null,
    Undefined,
    Big(Seq<char>),
}

/// An expression as plain values, for the kinds of expressions the parser
/// makes; every other kind is `Other`.
pub enum ExprTree {
    Lit(LitTree, Seq<char>),
    Ident(Seq<char>, bool),
    Call(Box<ExprTree>, Seq<ExprTree>),
    Binary(Box<ExprTree>, BinaryOp, Box<ExprTree>),
    Unary(UnaryOp, Box<ExprTree>),
    Other,
}

pub open spec fn lit_tree(v: LiteralValue) -> LitTree {
    match v {
        LiteralValue::String(s) => LitTree::Str(s@),
        LiteralValue::Number(s) => LitTree::Num(s@),
        LiteralValue::Integer(i) => LitTree::Int(i as int),
        LiteralValue::Boolean(b) => LitTree::Bool(b),
        LiteralValue::Null => LitTree::Null,
        LiteralValue::Undefined => LitTree::Undefined,
        LiteralValue::BigInt(s) => LitTree::Big(s@),
    }
}

pub open spec fn tree(e: Expr) -> ExprTree
    decreases e,
{
    match e {
        Expr::Literal(l) => ExprTree::Lit(lit_tree(l.value), l.raw@),
        Expr::Ident(i) => ExprTree::Ident(i.name@, i.global),
        Expr::Call(c) => ExprTree::Call(Box::new(tree(*c.callee)), trees(c.args@)),
        Expr::Binary(b) => ExprTree::Binary(Box::new(tree(*b.left)), b.op, Box::new(tree(*b.right))),
        Expr::Unary(u) => ExprTree::Unary(u.op, Box::new(tree(*u.expr))),
        _ => ExprTree::Other,
    }
}

pub open spec fn trees(s: Seq<Expr>) -> Seq<ExprTree>
    decreases s,
{
    if s.len() == 0 {
        seq![]
    } else {
        trees(s.drop_last()).push(tree(s.last()))
    }
}

/// The kind of the token at `p`, `Eof` past the end.
pub open spec fn ty(t: Seq<SpecToken>, p: int) -> TokenType {
    if 0 <= p < t.len() { t[p].0 } else { TokenType::Eof }
}

/// Where the parse goes on after a part that ended at `q` and started at
/// `p`: a part that succeeds always ends after it starts and within the
/// tokens, so this is `q` for every result of the functions below.
pub open spec fn after(t: Seq<SpecToken>, p: int, q: int) -> int {
    let r = if q <= p { p + 1 } else { q };
    if r > t.len() { t.len() as int } else { r }
}

/// Reading a token of kind `k` (named `what` in the message) at `q`: the
/// error, if any, and the position after.
pub open spec fn expect_at(t: Seq<SpecToken>, q: int, k: TokenType, what: Seq<char>) -> (Option<Seq<char>>, int) {
    if 0 <= q < t.len() {
        (if t[q].0 == k { None } else { Some(expected_msg(what, t[q].0)) }, q + 1)
    } else {
        (Some("Unexpected EOF"@), q)
    }
}

/// The result of a parse and the position it stopped at.
pub type Parsed = (Result<ExprTree, Seq<char>>, int);

/// A result as plain values: the value's view, or the message.
pub open spec fn outcome<A, B>(r: Result<A, String>, view: spec_fn(A) -> B) -> Result<B, Seq<char>> {
    match r {
        Ok(a) => Ok(view(a)),
        Err(m) => Err(m@),
    }
}

/// The message of a result that carries nothing else.
pub open spec fn failure(r: Result<(), String>) -> Option<Seq<char>> {
    match r {
        Ok(_) => None,
        Err(m) => Some(m@),
    }
}

/// A parse result agrees with the grammar's result and stopping place.
pub open spec fn agrees(r: Result<Expr, String>, sp: Parsed, end: int) -> bool {
    &&& sp.1 == end
    &&& match r {
        Ok(e) => sp.0 == Ok::<ExprTree, Seq<char>>(tree(e)),
        Err(m) => sp.0 == Err::<ExprTree, Seq<char>>(m@),
    }
}

pub open spec fn bin(l: ExprTree, op: BinaryOp, r: ExprTree) -> ExprTree {
    ExprTree::Binary(Box::new(l), op, Box::new(r))
}

/// An expression: a chain of `or`s.
pub open spec fn p_expr(t: Seq<SpecToken>, p: int) -> Parsed
    decreases t.len() - p, 20int,
{
    p_or(t, p)
}

pub open spec fn p_or(t: Seq<SpecToken>, p: int) -> Parsed
    decreases t.len() - p, 19int,
{
    match p_and(t, p) {
        (Ok(l), q) => if p < q <= t.len() { or_rest(t, l, q) } else { (Ok(l), q) },
        e => e,
    }
}

pub open spec fn or_rest(t: Seq<SpecToken>, left: ExprTree, q: int) -> Parsed
    decreases t.len() - q, 18int,
{
    if 0 <= q < t.len() && t[q].0 == TokenType::Or {
        match p_and(t, q + 1) {
            (Ok(r), q2) => or_rest(t, bin(left, BinaryOp::Or, r), after(t, q + 1, q2)),
            e => e,
        }
    } else {
        (Ok(left), q)
    }
}

pub open spec fn p_and(t: Seq<SpecToken>, p: int) -> Parsed
    decreases t.len() - p, 17int,
{
    match p_eq(t, p) {
        (Ok(l), q) => if p < q <= t.len() { and_rest(t, l, q) } else { (Ok(l), q) },
        e => e,
    }
}

pub open spec fn and_rest(t: Seq<SpecToken>, left: ExprTree, q: int) -> Parsed
    decreases t.len() - q, 16int,
{
    if 0 <= q < t.len() && t[q].0 == TokenType::And {
        match p_eq(t, q + 1) {
            (Ok(r), q2) => and_rest(t, bin(left, BinaryOp::And, r), after(t, q + 1, q2)),
            e => e,
        }
    } else {
        (Ok(left), q)
    }
}

pub open spec fn eq_op(k: TokenType) -> Option<BinaryOp> {
    match k {
        TokenType::EqEq => Some(BinaryOp::Eq),
        TokenType::NotEq => Some(BinaryOp::NotEq),
        _ => None,
    }
}

pub open spec fn p_eq(t: Seq<SpecToken>, p: int) -> Parsed
    decreases t.len() - p, 15int,
{
    match p_cmp(t, p) {
        (Ok(l), q) => if p < q <= t.len() { eq_rest(t, l, q) } else { (Ok(l), q) },
        e => e,
    }
}

pub open spec fn eq_rest(t: Seq<SpecToken>, left: ExprTree, q: int) -> Parsed
    decreases t.len() - q, 14int,
{
    if 0 <= q < t.len() && eq_op(t[q].0) is Some {
        match p_cmp(t, q + 1) {
            (Ok(r), q2) => eq_rest(t, bin(left, eq_op(t[q].0)->0, r), after(t, q + 1, q2)),
            e => e,
        }
    } else {
        (Ok(left), q)
    }
}

pub open spec fn cmp_op(k: TokenType) -> Option<BinaryOp> {
    match k {
        TokenType::Lt => Some(BinaryOp::Lt),
        TokenType::Gt => Some(BinaryOp::Gt),
        TokenType::LtEq => Some(BinaryOp::LtEq),
        TokenType::GtEq => Some(BinaryOp::GtEq),
        _ => None,
    }
}

pub open spec fn p_cmp(t: Seq<SpecToken>, p: int) -> Parsed
    decreases t.len() - p, 13int,
{
    match p_add(t, p) {
        (Ok(l), q) => if p < q <= t.len() { cmp_rest(t, l, q) } else { (Ok(l), q) },
        e => e,
    }
}

pub open spec fn cmp_rest(t: Seq<SpecToken>, left: ExprTree, q: int) -> Parsed
    decreases t.len() - q, 12int,
{
    if 0 <= q < t.len() && cmp_op(t[q].0) is Some {
        match p_add(t, q + 1) {
            (Ok(r), q2) => cmp_rest(t, bin(left, cmp_op(t[q].0)->0, r), after(t, q + 1, q2)),
            e => e,
        }
    } else {
        (Ok(left), q)
    }
}

pub open spec fn add_op(k: TokenType) -> Option<BinaryOp> {
    match k {
        TokenType::Plus => Some(BinaryOp::Add),
        TokenType::Minus => Some(BinaryOp::Sub),
        _ => None,
    }
}

pub open spec fn p_add(t: Seq<SpecToken>, p: int) -> Parsed
    decreases t.len() - p, 11int,
{
    match p_mul(t, p) {
        (Ok(l), q) => if p < q <= t.len() { add_rest(t, l, q) } else { (Ok(l), q) },
        e => e,
    }
}

pub open spec fn add_rest(t: Seq<SpecToken>, left: ExprTree, q: int) -> Parsed
    decreases t.len() - q, 10int,
{
    if 0 <= q < t.len() && add_op(t[q].0) is Some {
        match p_mul(t, q + 1) {
            (Ok(r), q2) => add_rest(t, bin(left, add_op(t[q].0)->0, r), after(t, q + 1, q2)),
            e => e,
        }
    } else {
        (Ok(left), q)
    }
}

pub open spec fn mul_op(k: TokenType) -> Option<BinaryOp> {
    match k {
        TokenType::Star => Some(BinaryOp::Mul),
        TokenType::Slash => Some(BinaryOp::Div),
        TokenType::Percent => Some(BinaryOp::Mod),
        _ => None,
    }
}

pub open spec fn p_mul(t: Seq<SpecToken>, p: int) -> Parsed
    decreases t.len() - p, 9int,
{
    match p_unary(t, p) {
        (Ok(l), q) => if p < q <= t.len() { mul_rest(t, l, q) } else { (Ok(l), q) },
        e => e,
    }
}

pub open spec fn mul_rest(t: Seq<SpecToken>, left: ExprTree, q: int) -> Parsed
    decreases t.len() - q, 8int,
{
    if 0 <= q < t.len() && mul_op(t[q].0) is Some {
        match p_unary(t, q + 1) {
            (Ok(r), q2) => mul_rest(t, bin(left, mul_op(t[q].0)->0, r), after(t, q + 1, q2)),
            e => e,
        }
    } else {
        (Ok(left), q)
    }
}

/// `not` or `-` before a unary expression, or a primary one.
pub open spec fn p_unary(t: Seq<SpecToken>, p: int) -> Parsed
    decreases t.len() - p, 7int,
{
    if 0 <= p < t.len() && (t[p].0 == TokenType::Not || t[p].0 == TokenType::Minus) {
        match p_unary(t, p + 1) {
            (Ok(e), q) => (
                Ok(ExprTree::Unary(if t[p].0 == TokenType::Not { UnaryOp::Not } else { UnaryOp::Neg }, Box::new(e))),
                q,
            ),
            e => e,
        }
    } else {
        p_primary(t, p)
    }
}

/// A literal, a name or call, or an expression in parentheses.
pub open spec fn p_primary(t: Seq<SpecToken>, p: int) -> Parsed
    decreases t.len() - p, 6int,
{
    match ty(t, p) {
        TokenType::Number => if valid_number(t[p].1) {
            (Ok(ExprTree::Lit(LitTree::Num(t[p].1), t[p].1)), p + 1)
        } else {
            (Err("Invalid number"@), p + 1)
        },
        TokenType::String => (Ok(ExprTree::Lit(LitTree::Str(t[p].1), t[p].1)), p + 1),
        TokenType::True => (Ok(ExprTree::Lit(LitTree::Bool(true), "true"@)), p + 1),
        TokenType::False => (Ok(ExprTree::Lit(LitTree::Bool(false), "false"@)), p + 1),
        TokenType::Null => (Ok(ExprTree::Lit(LitTree::Null, "null"@)), p + 1),
        TokenType::Ident => p_from_ident(t, t[p].1, p + 1),
        TokenType::LParen => match p_expr(t, p + 1) {
            (Ok(e), q) => {
                let x = expect_at(t, after(t, p + 1, q), TokenType::RParen, "RParen"@);
                match x.0 {
                    None => (Ok(e), x.1),
                    Some(m) => (Err(m), x.1),
                }
            },
            e => e,
        },
        _ => (Err("Unexpected token"@), p),
    }
}

/// After a name: a call with arguments in parentheses, or the name.
pub open spec fn p_from_ident(t: Seq<SpecToken>, name: Seq<char>, p: int) -> Parsed
    decreases t.len() - p, 5int,
{
    if ty(t, p) == TokenType::LParen {
        let (args, q) = if ty(t, p + 1) != TokenType::RParen {
            p_args(t, seq![], p + 1)
        } else {
            (Ok(seq![]), p + 1)
        };
        match args {
            Ok(a) => {
                let x = expect_at(t, q, TokenType::RParen, "RParen"@);
                match x.0 {
                    None => (Ok(ExprTree::Call(Box::new(ExprTree::Ident(name, false)), a)), x.1),
                    Some(m) => (Err(m), x.1),
                }
            },
            Err(m) => (Err(m), q),
        }
    } else {
        (Ok(ExprTree::Ident(name, false)), p)
    }
}

/// Arguments separated by commas, after the ones in `acc`.
pub open spec fn p_args(t: Seq<SpecToken>, acc: Seq<ExprTree>, q: int) -> (Result<Seq<ExprTree>, Seq<char>>, int)
    decreases t.len() - q, 21int,
{
    match p_expr(t, q) {
        (Ok(a), q2) => {
            let q3 = after(t, q, q2);
            if ty(t, q3) != TokenType::Comma {
                (Ok(acc.push(a)), q3)
            } else if q3 < t.len() {
                p_args(t, acc.push(a), q3 + 1)
            } else {
                (Ok(acc.push(a)), q3)
            }
        },
        (Err(m), q2) => (Err(m), q2),
    }
}

// ---------------------------------------------------------------------------
// Statements and declarations
// ---------------------------------------------------------------------------

/// A statement as plain values; a body is given by its length (the parser
/// makes empty bodies), the other kinds of statement are `Other`.
pub enum StmtTree {
    Expr(ExprTree),
    Return(ExprTree),
    If(ExprTree, int, int, bool),
    For(Seq<char>, ExprTree, int, bool),
    While(ExprTree, int),
    Assign(Seq<char>, ExprTree, AssignOp),
    Other,
}

pub open spec fn stmt_tree(s: Stmt) -> StmtTree {
    match s {
        Stmt::Expr(e) => StmtTree::Expr(tree(e)),
        Stmt::Return(e) => StmtTree::Return(tree(e)),
        Stmt::If(i) => StmtTree::If(tree(i.cond), i.body@.len() as int, i.else_if@.len() as int, i.else_body is Some),
        Stmt::For(f) => StmtTree::For(f.item@, tree(f.iter), f.body@.len() as int, f.key is Some),
        Stmt::While(w) => StmtTree::While(tree(w.cond), w.body@.len() as int),
        Stmt::Assign(a) => StmtTree::Assign(a.target@, tree(a.value), a.op),
        _ => StmtTree::Other,
    }
}

pub open spec fn opt_text(o: Option<String>) -> Option<Seq<char>> {
    match o {
        Some(s) => Some(s@),
        None => None,
    }
}

/// A parameter: name, type hint, default value.
pub open spec fn param_tree(p: Param) -> (Seq<char>, Option<Seq<char>>, Option<ExprTree>) {
    (p.name@, opt_text(p.type_hint), match p.default {
        Some(e) => Some(tree(e)),
        None => None,
    })
}

pub open spec fn params_tree(s: Seq<Param>) -> Seq<(Seq<char>, Option<Seq<char>>, Option<ExprTree>)> {
    s.map_values(|p: Param| param_tree(p))
}

/// A component: name, parameters, and the lengths of its body, signals,
/// computed values and effects, and its style scope.
pub open spec fn component_tree(c: Component) -> (
    Seq<char>,
    Seq<(Seq<char>, Option<Seq<char>>, Option<ExprTree>)>,
    int,
    int,
    int,
    int,
    Option<Seq<char>>,
) {
    (c.name@, params_tree(c.params@), c.body@.len() as int, c.signals@.len() as int, c.computed@.len() as int,
        c.effects@.len() as int, opt_text(c.css_scope))
}

/// A function: name, parameters, body length, return type, whether async.
pub open spec fn function_tree(f: Function) -> (
    Seq<char>,
    Seq<(Seq<char>, Option<Seq<char>>, Option<ExprTree>)>,
    int,
    Option<Seq<char>>,
    bool,
) {
    (f.name@, params_tree(f.params@), f.body@.len() as int, opt_text(f.return_type), f.is_async)
}

pub open spec fn import_tree(i: Import) -> (Seq<char>, Seq<Seq<char>>, bool, Option<Seq<char>>) {
    (i.path@, views(i.names@), i.is_default, opt_text(i.alias))
}

pub open spec fn export_tree(e: Export) -> (Seq<char>, bool) {
    (e.name@, e.is_default)
}

pub open spec fn css_tree(c: CssBlock) -> (Seq<char>, Seq<(Seq<char>, Seq<char>)>, bool) {
    (c.selector@, c.rules@.map_values(|r: CssRule| (r.property@, r.value@)), c.scoped)
}

pub type ParamTree = (Seq<char>, Option<Seq<char>>, Option<ExprTree>);
pub type ComponentTree = (Seq<char>, Seq<ParamTree>, int, int, int, int, Option<Seq<char>>);
pub type FunctionTree = (Seq<char>, Seq<ParamTree>, int, Option<Seq<char>>, bool);
pub type ImportTree = (Seq<char>, Seq<Seq<char>>, bool, Option<Seq<char>>);
pub type CssTree = (Seq<char>, Seq<(Seq<char>, Seq<char>)>, bool);
pub type ProgramTree = (Seq<ComponentTree>, Seq<FunctionTree>, Seq<ImportTree>, Seq<(Seq<char>, bool)>, Seq<CssTree>);

pub open spec fn program_tree(p: Program) -> ProgramTree {
    (
        p.components@.map_values(|c: Component| component_tree(c)),
        p.functions@.map_values(|f: Function| function_tree(f)),
        p.imports@.map_values(|i: Import| import_tree(i)),
        p.exports@.map_values(|e: Export| export_tree(e)),
        p.css@.map_values(|c: CssBlock| css_tree(c)),
    )
}

/// Reading the text of a token of kind `k` at `q`.
pub open spec fn value_at(t: Seq<SpecToken>, q: int, k: TokenType, what: Seq<char>) -> (Result<Seq<char>, Seq<char>>, int) {
    if 0 <= q < t.len() {
        (if t[q].0 == k { Ok(t[q].1) } else { Err(expected_msg(what, t[q].0)) }, q + 1)
    } else {
        (Err("Unexpected EOF"@), q)
    }
}

/// Parameters separated by commas, each `name[: type][= default]`, after
/// the ones in `acc`.
pub open spec fn p_params(t: Seq<SpecToken>, acc: Seq<ParamTree>, q: int) -> (Result<Seq<ParamTree>, Seq<char>>, int)
    decreases t.len() - q,
{
    match value_at(t, q, TokenType::Ident, "ident"@) {
        (Err(m), q1) => (Err(m), q1),
        (Ok(name), q1) => {
            let hint: (Result<Option<Seq<char>>, Seq<char>>, int) = if ty(t, q1) == TokenType::Colon {
                match value_at(t, q1 + 1, TokenType::Ident, "ident"@) {
                    (Ok(h), x) => (Ok(Some(h)), x),
                    (Err(m), x) => (Err(m), x),
                }
            } else {
                (Ok(None), q1)
            };
            match hint.0 {
                Err(m) => (Err(m), hint.1),
                Ok(h) => {
                    let q2 = hint.1;
                    let dflt: (Result<Option<ExprTree>, Seq<char>>, int) = if ty(t, q2) == TokenType::Eq {
                        match p_expr(t, q2 + 1) {
                            (Ok(e), x) => (Ok(Some(e)), after(t, q2 + 1, x)),
                            (Err(m), x) => (Err(m), x),
                        }
                    } else {
                        (Ok(None), q2)
                    };
                    match dflt.0 {
                        Err(m) => (Err(m), dflt.1),
                        Ok(d) => {
                            let acc2 = acc.push((name, h, d));
                            let q3 = dflt.1;
                            if ty(t, q3) == TokenType::Comma && q < q3 < t.len() {
                                p_params(t, acc2, q3 + 1)
                            } else {
                                (Ok(acc2), q3)
                            }
                        },
                    }
                },
            }
        },
    }
}

/// A block: an optional `Indent` and an optional `Dedent`; its statements
/// are none.
pub open spec fn p_block(t: Seq<SpecToken>, q: int) -> int {
    let q1 = if ty(t, q) == TokenType::Indent { q + 1 } else { q };
    if ty(t, q1) == TokenType::Dedent { q1 + 1 } else { q1 }
}

/// `<k1> <k2>`: two tokens of given kinds; the error if any and where the
/// reading stops.
pub open spec fn expect2(t: Seq<SpecToken>, q: int, k1: TokenType, k2: TokenType) -> (Option<Seq<char>>, int) {
    let a = expect_at(t, q, k1, k1.spec_name());
    match a.0 {
        Some(m) => a,
        None => expect_at(t, a.1, k2, k2.spec_name()),
    }
}

/// `<head> <expr> :` then a block: the condition, or the error, and where
/// the reading stops.
pub open spec fn p_cond_block(t: Seq<SpecToken>, q: int) -> (Result<ExprTree, Seq<char>>, int) {
    match p_expr(t, q) {
        (Ok(c), q1) => {
            let x = expect_at(t, q1, TokenType::Colon, "Colon"@);
            match x.0 {
                Some(m) => (Err(m), x.1),
                None => (Ok(c), p_block(t, x.1)),
            }
        },
        (Err(m), q1) => (Err(m), q1),
    }
}

pub type StmtParsed = (Result<StmtTree, Seq<char>>, int);

/// `if <cond>: <block>`.
pub open spec fn p_if(t: Seq<SpecToken>, q: int) -> StmtParsed {
    let h = expect2(t, q, TokenType::If, TokenType::Space);
    match h.0 {
        Some(m) => (Err(m), h.1),
        None => match p_cond_block(t, h.1) {
            (Ok(c), x) => (Ok(StmtTree::If(c, 0, 0, false)), x),
            (Err(m), x) => (Err(m), x),
        },
    }
}

/// `while <cond>: <block>`.
pub open spec fn p_while(t: Seq<SpecToken>, q: int) -> StmtParsed {
    let h = expect2(t, q, TokenType::While, TokenType::Space);
    match h.0 {
        Some(m) => (Err(m), h.1),
        None => match p_cond_block(t, h.1) {
            (Ok(c), x) => (Ok(StmtTree::While(c, 0)), x),
            (Err(m), x) => (Err(m), x),
        },
    }
}

/// `for <name> in <expr>: <block>`.
pub open spec fn p_for(t: Seq<SpecToken>, q: int) -> StmtParsed {
    let h = expect2(t, q, TokenType::For, TokenType::Space);
    match h.0 {
        Some(m) => (Err(m), h.1),
        None => match value_at(t, h.1, TokenType::Ident, "ident"@) {
            (Err(m), x) => (Err(m), x),
            (Ok(item), x) => {
                let i = expect_at(t, x, TokenType::In, "In"@);
                match i.0 {
                    Some(m) => (Err(m), i.1),
                    None => match p_cond_block(t, i.1) {
                        (Ok(c), y) => (Ok(StmtTree::For(item, c, 0, false)), y),
                        (Err(m), y) => (Err(m), y),
                    },
                }
            },
        },
    }
}

/// `return <expr>`.
pub open spec fn p_return(t: Seq<SpecToken>, q: int) -> StmtParsed {
    let h = expect_at(t, q, TokenType::Return, "Return"@);
    match h.0 {
        Some(m) => (Err(m), h.1),
        None => match p_expr(t, h.1) {
            (Ok(e), x) => (Ok(StmtTree::Return(e)), x),
            (Err(m), x) => (Err(m), x),
        },
    }
}

/// `<name> = <expr>`, or an expression that starts with a name.
pub open spec fn p_assign_or_expr(t: Seq<SpecToken>, q: int) -> StmtParsed {
    match value_at(t, q, TokenType::Ident, "ident"@) {
        (Err(m), x) => (Err(m), x),
        (Ok(name), x) => if ty(t, x) == TokenType::Eq {
            match p_expr(t, x + 1) {
                (Ok(e), y) => (Ok(StmtTree::Assign(name, e, AssignOp::Eq)), y),
                (Err(m), y) => (Err(m), y),
            }
        } else {
            match p_from_ident(t, name, x) {
                (Ok(e), y) => (Ok(StmtTree::Expr(e)), y),
                (Err(m), y) => (Err(m), y),
            }
        },
    }
}

/// An expression as a statement.
pub open spec fn p_expr_stmt(t: Seq<SpecToken>, q: int) -> StmtParsed {
    match p_expr(t, q) {
        (Ok(e), y) => (Ok(StmtTree::Expr(e)), y),
        (Err(m), y) => (Err(m), y),
    }
}

/// A statement, by its first token.
pub open spec fn p_stmt(t: Seq<SpecToken>, q: int) -> StmtParsed {
    match ty(t, q) {
        TokenType::If => p_if(t, q),
        TokenType::For => p_for(t, q),
        TokenType::While => p_while(t, q),
        TokenType::Return => p_return(t, q),
        TokenType::Ident => p_assign_or_expr(t, q),
        _ => p_expr_stmt(t, q),
    }
}

/// `(<params>) :` then a block, after a declaration's name: the
/// parameters, or the error, and where the reading stops.
pub open spec fn p_signature(t: Seq<SpecToken>, q: int) -> (Result<Seq<ParamTree>, Seq<char>>, int) {
    let l = expect_at(t, q, TokenType::LParen, "LParen"@);
    match l.0 {
        Some(m) => (Err(m), l.1),
        None => {
            let ps: (Result<Seq<ParamTree>, Seq<char>>, int) = if ty(t, l.1) != TokenType::RParen {
                p_params(t, seq![], l.1)
            } else {
                (Ok(seq![]), l.1)
            };
            match ps.0 {
                Err(m) => (Err(m), ps.1),
                Ok(params) => {
                    let x = expect2(t, ps.1, TokenType::RParen, TokenType::Colon);
                    match x.0 {
                        Some(m) => (Err(m), x.1),
                        None => (Ok(params), p_block(t, x.1)),
                    }
                },
            }
        },
    }
}

/// `component <name>(<params>): <block>`.
pub open spec fn p_component(t: Seq<SpecToken>, q: int) -> (Result<ComponentTree, Seq<char>>, int) {
    let h = expect_at(t, q, TokenType::Component, "Component"@);
    match h.0 {
        Some(m) => (Err(m), h.1),
        None => match value_at(t, h.1, TokenType::Ident, "ident"@) {
            (Err(m), x) => (Err(m), x),
            (Ok(name), x) => match p_signature(t, x) {
                (Ok(params), y) => (Ok((name, params, 0, 0, 0, 0, None)), y),
                (Err(m), y) => (Err(m), y),
            },
        },
    }
}

/// `def <name>(<params>): <block>`.
pub open spec fn p_function(t: Seq<SpecToken>, q: int) -> (Result<FunctionTree, Seq<char>>, int) {
    let h = expect_at(t, q, TokenType::Def, "Def"@);
    match h.0 {
        Some(m) => (Err(m), h.1),
        None => match value_at(t, h.1, TokenType::Ident, "ident"@) {
            (Err(m), x) => (Err(m), x),
            (Ok(name), x) => match p_signature(t, x) {
                (Ok(params), y) => (Ok((name, params, 0, None, false)), y),
                (Err(m), y) => (Err(m), y),
            },
        },
    }
}

/// Names inside `{ }`, each followed by an optional comma, up to `}`.
pub open spec fn p_names(t: Seq<SpecToken>, acc: Seq<Seq<char>>, q: int) -> (Result<Seq<Seq<char>>, Seq<char>>, int)
    decreases t.len() - q,
{
    if ty(t, q) == TokenType::RBrace {
        (Ok(acc), q)
    } else {
        match value_at(t, q, TokenType::Ident, "ident"@) {
            (Err(m), x) => (Err(m), x),
            (Ok(n), x) => if q < x <= t.len() {
                if ty(t, x) == TokenType::Comma {
                    p_names(t, acc.push(n), x + 1)
                } else {
                    p_names(t, acc.push(n), x)
                }
            } else {
                (Ok(acc.push(n)), x)
            },
        }
    }
}

/// `import <name> from "<path>"`, or `import { <names> } from "<path>"`, or
/// `import from "<path>"`.
pub open spec fn p_import(t: Seq<SpecToken>, q: int) -> (Result<ImportTree, Seq<char>>, int) {
    let h = expect_at(t, q, TokenType::Import, "Import"@);
    match h.0 {
        Some(m) => (Err(m), h.1),
        None => {
            let q1 = h.1;
            let names: (Result<(Seq<Seq<char>>, bool), Seq<char>>, int) = if ty(t, q1) == TokenType::Ident {
                (Ok((seq![t[q1].1], true)), q1 + 1)
            } else if ty(t, q1) == TokenType::LBrace {
                match p_names(t, seq![], q1 + 1) {
                    (Ok(ns), x) => {
                        let r = expect_at(t, x, TokenType::RBrace, "RBrace"@);
                        match r.0 {
                            Some(m) => (Err(m), r.1),
                            None => (Ok((ns, false)), r.1),
                        }
                    },
                    (Err(m), x) => (Err(m), x),
                }
            } else {
                (Ok((seq![], false)), q1)
            };
            match names.0 {
                Err(m) => (Err(m), names.1),
                Ok((ns, d)) => {
                    let f = expect_at(t, names.1, TokenType::From, "From"@);
                    match f.0 {
                        Some(m) => (Err(m), f.1),
                        None => match value_at(t, f.1, TokenType::String, "string"@) {
                            (Ok(path), x) => (Ok((path, ns, d, None)), x),
                            (Err(m), x) => (Err(m), x),
                        },
                    }
                },
            }
        },
    }
}

/// `export [default] <name>`.
pub open spec fn p_export(t: Seq<SpecToken>, q: int) -> (Result<(Seq<char>, bool), Seq<char>>, int) {
    let h = expect_at(t, q, TokenType::Export, "Export"@);
    match h.0 {
        Some(m) => (Err(m), h.1),
        None => {
            let d = ty(t, h.1) == TokenType::Default;
            let n = if d { h.1 + 1 } else { h.1 };
            match value_at(t, n, TokenType::Ident, "ident"@) {
                (Ok(name), x) => (Ok((name, d)), x),
                (Err(m), x) => (Err(m), x),
            }
        },
    }
}

/// `<property>: "<value>";` rules up to `}`.
pub open spec fn p_css_rules(t: Seq<SpecToken>, acc: Seq<(Seq<char>, Seq<char>)>, q: int) -> (
    Result<Seq<(Seq<char>, Seq<char>)>, Seq<char>>,
    int,
)
    decreases t.len() - q,
{
    if ty(t, q) == TokenType::RBrace {
        (Ok(acc), q)
    } else {
        match value_at(t, q, TokenType::Ident, "ident"@) {
            (Err(m), x) => (Err(m), x),
            (Ok(prop), x) => {
                let c = expect_at(t, x, TokenType::Colon, "Colon"@);
                match c.0 {
                    Some(m) => (Err(m), c.1),
                    None => match value_at(t, c.1, TokenType::String, "string"@) {
                        (Err(m), y) => (Err(m), y),
                        (Ok(v), y) => {
                            let s = expect_at(t, y, TokenType::Semicolon, "Semicolon"@);
                            match s.0 {
                                Some(m) => (Err(m), s.1),
                                None => if q < s.1 <= t.len() {
                                    p_css_rules(t, acc.push((prop, v)), s.1)
                                } else {
                                    (Ok(acc.push((prop, v))), s.1)
                                },
                            }
                        },
                    },
                }
            },
        }
    }
}

/// `css "<selector>" { <rules> }`, scoped.
pub open spec fn p_css(t: Seq<SpecToken>, q: int) -> (Result<CssTree, Seq<char>>, int) {
    let h = expect_at(t, q, TokenType::Css, "Css"@);
    match h.0 {
        Some(m) => (Err(m), h.1),
        None => match value_at(t, h.1, TokenType::String, "string"@) {
            (Err(m), x) => (Err(m), x),
            (Ok(sel), x) => {
                let b = expect_at(t, x, TokenType::LBrace, "LBrace"@);
                match b.0 {
                    Some(m) => (Err(m), b.1),
                    None => match p_css_rules(t, seq![], b.1) {
                        (Err(m), y) => (Err(m), y),
                        (Ok(rules), y) => {
                            let e = expect_at(t, y, TokenType::RBrace, "RBrace"@);
                            match e.0 {
                                Some(m) => (Err(m), e.1),
                                None => (Ok((sel, rules, true)), e.1),
                            }
                        },
                    },
                }
            },
        }
    }
}

/// Declarations from `q` on, added to `acc`; tokens that start none are
/// skipped; the first error ends the parse.
pub open spec fn p_program(t: Seq<SpecToken>, acc: ProgramTree, q: int) -> (Result<ProgramTree, Seq<char>>, int)
    decreases t.len() - q,
{
    if q < 0 || q >= t.len() {
        (Ok(acc), q)
    } else {
        match t[q].0 {
            TokenType::Component => match p_component(t, q) {
                (Ok(c), x) => p_program(t, (acc.0.push(c), acc.1, acc.2, acc.3, acc.4), after(t, q, x)),
                (Err(m), x) => (Err(m), x),
            },
            TokenType::Def => match p_function(t, q) {
                (Ok(f), x) => p_program(t, (acc.0, acc.1.push(f), acc.2, acc.3, acc.4), after(t, q, x)),
                (Err(m), x) => (Err(m), x),
            },
            TokenType::Import => match p_import(t, q) {
                (Ok(i), x) => p_program(t, (acc.0, acc.1, acc.2.push(i), acc.3, acc.4), after(t, q, x)),
                (Err(m), x) => (Err(m), x),
            },
            TokenType::Export => match p_export(t, q) {
                (Ok(e), x) => p_program(t, (acc.0, acc.1, acc.2, acc.3.push(e), acc.4), after(t, q, x)),
                (Err(m), x) => (Err(m), x),
            },
            TokenType::Css => match p_css(t, q) {
                (Ok(c), x) => p_program(t, (acc.0, acc.1, acc.2, acc.3, acc.4.push(c)), after(t, q, x)),
                (Err(m), x) => (Err(m), x),
            },
            _ => p_program(t, acc, q + 1),
        }
    }
}

/// The program of a token sequence.
pub open spec fn p_all(t: Seq<SpecToken>) -> Result<ProgramTree, Seq<char>> {
    p_program(t, (seq![], seq![], seq![], seq![], seq![]), 0).0
}

/// The components a parse makes have no signals, computed values or
/// effects yet: those come from analysis.
pub proof fn lemma_parsed_components_bare(t: Seq<SpecToken>, acc: ProgramTree, q: int)
    requires
        forall|i: int| 0 <= i < acc.0.len() ==> (#[trigger] acc.0[i]).3 == 0 && acc.0[i].4 == 0 && acc.0[i].5 == 0,
    ensures
        p_program(t, acc, q).0 matches Ok(pt) ==> forall|i: int|
            0 <= i < pt.0.len() ==> (#[trigger] pt.0[i]).3 == 0 && pt.0[i].4 == 0 && pt.0[i].5 == 0,
    decreases t.len() - q,
{
    if 0 <= q < t.len() {
        match t[q].0 {
            TokenType::Component => match p_component(t, q) {
                (Ok(c), y) => {
                    let a2 = (acc.0.push(c), acc.1, acc.2, acc.3, acc.4);
                    assert forall|i: int| 0 <= i < a2.0.len() implies (#[trigger] a2.0[i]).3 == 0 && a2.0[i].4 == 0
                        && a2.0[i].5 == 0 by {
                        if i < acc.0.len() {
                            assert(a2.0[i] == acc.0[i]);
                        }
                    }
                    lemma_parsed_components_bare(t, a2, after(t, q, y));
                },
                _ => {},
            },
            TokenType::Def => match p_function(t, q) {
                (Ok(f), y) => lemma_parsed_components_bare(t, (acc.0, acc.1.push(f), acc.2, acc.3, acc.4), after(t, q, y)),
                _ => {},
            },
            TokenType::Import => match p_import(t, q) {
                (Ok(f), y) => lemma_parsed_components_bare(t, (acc.0, acc.1, acc.2.push(f), acc.3, acc.4), after(t, q, y)),
                _ => {},
            },
            TokenType::Export => match p_export(t, q) {
                (Ok(f), y) => lemma_parsed_components_bare(t, (acc.0, acc.1, acc.2, acc.3.push(f), acc.4), after(t, q, y)),
                _ => {},
            },
            TokenType::Css => match p_css(t, q) {
                (Ok(f), y) => lemma_parsed_components_bare(t, (acc.0, acc.1, acc.2, acc.3, acc.4.push(f)), after(t, q, y)),
                _ => {},
            },
            _ => lemma_parsed_components_bare(t, acc, q + 1),
        }
    }
}

/// The components of a parsed program have no signals, computed values or
/// effects.
pub proof fn lemma_parsed_program_bare(t: Seq<SpecToken>, pt: ProgramTree)
    requires
        p_all(t) == Ok::<ProgramTree, Seq<char>>(pt),
    ensures
        forall|i: int| 0 <= i < pt.0.len() ==> (#[trigger] pt.0[i]).3 == 0 && pt.0[i].4 == 0 && pt.0[i].5 == 0,
{
    let acc: ProgramTree = (seq![], seq![], seq![], seq![], seq![]);
    lemma_parsed_components_bare(t, acc, 0);
    let r = p_program(t, acc, 0).0;
    assert(r == Ok::<ProgramTree, Seq<char>>(pt));
    match r {
        Ok(x) => {
            assert(x == pt);
        },
        Err(_) => {},
    }
}

} // verus!
