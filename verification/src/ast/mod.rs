//! The syntax tree that the parser builds and every later pass reads.
//!
//! Number literals keep the text they were written with (the value of a
//! float literal is not modelled here).
use vstd::prelude::*;

pub mod node;
pub mod stmt;
pub mod visitor;
pub mod debug;

verus! {

#[derive(Debug)]
pub struct Program {
    pub components: Vec<Component>,
    pub functions: Vec<Function>,
    pub imports: Vec<Import>,
    pub exports: Vec<Export>,
    pub css: Vec<CssBlock>,
}

impl Program {
    /// The empty program.
    pub fn default() -> (p: Program)
        ensures
            p.components@.len() == 0,
            p.functions@.len() == 0,
            p.imports@.len() == 0,
            p.exports@.len() == 0,
            p.css@.len() == 0,
    {
        Program {
            components: Vec::new(),
            functions: Vec::new(),
            imports: Vec::new(),
            exports: Vec::new(),
            css: Vec::new(),
        }
    }
}

#[derive(Debug)]
pub struct Component {
    pub name: String,
    pub params: Vec<Param>,
    pub body: Vec<Stmt>,
    pub signals: Vec<Signal>,
    pub computed: Vec<Computed>,
    pub effects: Vec<Effect>,
    pub css_scope: Option<String>,
}

#[derive(Debug)]
pub struct Signal {
    pub name: String,
    pub initial: Expr,
    pub scope: SignalScope,
}

#[derive(Debug, Clone, Copy, PartialEq, Eq)]
pub enum SignalScope {
    Component,
    Global,
    Context,
}

#[derive(Debug)]
pub struct Computed {
    pub name: String,
    pub deps: Vec<String>,
    pub body: Expr,
}

#[derive(Debug)]
pub struct Effect {
    pub deps: Vec<String>,
    pub body: Vec<Stmt>,
    pub immediate: bool,
}

#[derive(Debug)]
pub struct Function {
    pub name: String,
    pub params: Vec<Param>,
    pub body: Vec<Stmt>,
    pub return_type: Option<String>,
    pub is_async: bool,
}

#[derive(Debug, Clone)]
pub struct Import {
    pub path: String,
    pub names: Vec<String>,
    pub is_default: bool,
    pub alias: Option<String>,
}

#[derive(Debug, Clone)]
pub struct Export {
    pub name: String,
    pub is_default: bool,
}

#[derive(Debug)]
pub struct Param {
    pub name: String,
    pub type_hint: Option<String>,
    pub default: Option<Expr>,
}

#[derive(Debug)]
pub enum Stmt {
    Expr(Expr),
    Return(Expr),
    If(IfStmt),
    For(ForStmt),
    While(WhileStmt),
    Assign(AssignStmt),
    Var(VarStmt),
    Block(Vec<Stmt>),
}

#[derive(Debug)]
pub struct IfStmt {
    pub cond: Expr,
    pub body: Vec<Stmt>,
    pub else_if: Vec<(Expr, Vec<Stmt>)>,
    pub else_body: Option<Vec<Stmt>>,
}

#[derive(Debug)]
pub struct ForStmt {
    pub item: String,
    pub iter: Expr,
    pub body: Vec<Stmt>,
    pub key: Option<String>,
}

#[derive(Debug)]
pub struct WhileStmt {
    pub cond: Expr,
    pub body: Vec<Stmt>,
}

#[derive(Debug)]
pub struct AssignStmt {
    pub target: String,
    pub value: Expr,
    pub op: AssignOp,
}

#[derive(Debug, Clone, Copy, PartialEq, Eq)]
pub enum AssignOp {
    Eq,
    AddEq,
    SubEq,
}

#[derive(Debug)]
pub struct VarStmt {
    pub name: String,
    pub value: Expr,
    pub is_const: bool,
}

#[derive(Debug)]
pub enum Expr {
    Literal(LiteralExpr),
    Ident(IdentExpr),
    Call(CallExpr),
    Binary(BinaryExpr),
    Unary(UnaryExpr),
    Lambda(LambdaExpr),
    Object(ObjectExpr),
    Array(ArrayExpr),
    Member(MemberExpr),
    Ternary(Box<Expr>, Box<Expr>, Box<Expr>),
    Template(TemplateExpr),
    Await(AwaitExpr),
    Spread(SpreadExpr),
}

#[derive(Debug, Clone)]
pub struct LiteralExpr {
    pub value: LiteralValue,
    pub raw: String,
}

/// A literal's value. `Number` holds the literal's decimal text.
#[derive(Debug, Clone)]
pub enum LiteralValue {
    String(String),
    Number(String),
    Integer(i64),
    Boolean(bool),
    Null,
    Undefined,
    BigInt(String),
}

#[derive(Debug, Clone)]
pub struct IdentExpr {
    pub name: String,
    pub global: bool,
}

#[derive(Debug)]
pub struct CallExpr {
    pub callee: Box<Expr>,
    pub args: Vec<Expr>,
}

#[derive(Debug)]
pub struct BinaryExpr {
    pub left: Box<Expr>,
    pub right: Box<Expr>,
    pub op: BinaryOp,
}

#[derive(Debug, Clone, Copy, PartialEq, Eq)]
pub enum BinaryOp {
    Add,
    Sub,
    Mul,
    Div,
    Mod,
    Eq,
    NotEq,
    Lt,
    Gt,
    LtEq,
    GtEq,
    And,
    Or,
    Nullish,
}

#[derive(Debug)]
pub struct UnaryExpr {
    pub op: UnaryOp,
    pub expr: Box<Expr>,
}

#[derive(Debug, Clone, Copy, PartialEq, Eq)]
pub enum UnaryOp {
    Not,
    Neg,
    Typeof,
    Void,
}

#[derive(Debug)]
pub struct LambdaExpr {
    pub params: Vec<String>,
    pub body: Box<Expr>,
}

#[derive(Debug)]
pub struct ObjectExpr {
    pub props: Vec<ObjectProp>,
}

#[derive(Debug)]
pub struct ObjectProp {
    pub key: String,
    pub value: Expr,
    pub shorthand: bool,
}

#[derive(Debug)]
pub struct ArrayExpr {
    pub elements: Vec<Expr>,
}

#[derive(Debug)]
pub struct MemberExpr {
    pub obj: Box<Expr>,
    pub prop: String,
    pub computed: bool,
}

#[derive(Debug)]
pub struct TemplateExpr {
    pub quasis: Vec<TemplateElement>,
    pub expressions: Vec<Expr>,
}

#[derive(Debug, Clone)]
pub struct TemplateElement {
    pub value: String,
    pub tail: bool,
}

#[derive(Debug)]
pub struct AwaitExpr {
    pub expr: Box<Expr>,
}

#[derive(Debug)]
pub struct SpreadExpr {
    pub expr: Box<Expr>,
}

#[derive(Debug, Clone, Copy, PartialEq, Eq)]
pub enum BinOp {
    Add,
    Sub,
    Mul,
    Div,
    Mod,
    Eq,
    Ne,
    Lt,
    Gt,
    Le,
    Ge,
    And,
    Or,
    Nullish,
}

#[derive(Debug, Clone, Copy, PartialEq, Eq)]
pub enum UnOp {
    Not,
    Neg,
    Typeof,
    Void,
}

#[derive(Debug, Clone)]
pub struct CssBlock {
    pub selector: String,
    pub rules: Vec<CssRule>,
    pub scoped: bool,
}

#[derive(Debug, Clone)]
pub struct CssRule {
    pub property: String,
    pub value: String,
}

impl Expr {
    /// A literal, or a unary or binary operation whose operands are constant.
    pub open spec fn spec_is_constant(self) -> bool
        decreases self,
    {
        match self {
            Expr::Literal(_) => true,
            Expr::Binary(b) => b.left.spec_is_constant() && b.right.spec_is_constant(),
            Expr::Unary(u) => u.expr.spec_is_constant(),
            _ => false,
        }
    }

    pub fn is_constant(&self) -> (b: bool)
        ensures
            b == self.spec_is_constant(),
        decreases self,
    {
        match self {
            Expr::Literal(_) => true,
            Expr::Binary(b) => b.left.is_constant() && b.right.is_constant(),
            Expr::Unary(u) => u.expr.is_constant(),
            _ => false,
        }
    }

    /// The JavaScript type name the expression is known to have.
    pub open spec fn spec_type_name(self) -> Seq<char> {
        match self {
            Expr::Literal(lit) => match lit.value {
                LiteralValue::String(_) => "string"@,
                LiteralValue::Number(_) => "number"@,
                LiteralValue::Integer(_) => "number"@,
                LiteralValue::Boolean(_) => "boolean"@,
                LiteralValue::Null => "null"@,
                LiteralValue::Undefined => "undefined"@,
                LiteralValue::BigInt(_) => "bigint"@,
            },
            Expr::Object(_) => "object"@,
            Expr::Array(_) => "array"@,
            Expr::Lambda(_) => "function"@,
            Expr::Template(_) => "string"@,
            Expr::Await(_) => "promise"@,
            Expr::Spread(_) => "array"@,
            _ => "any"@,
        }
    }

    pub fn get_type(&self) -> (t: &'static str)
        ensures
            t@ == self.spec_type_name(),
    {
        match self {
            Expr::Literal(lit) => match lit.value {
                LiteralValue::String(_) => "string",
                LiteralValue::Number(_) => "number",
                LiteralValue::Integer(_) => "number",
                LiteralValue::Boolean(_) => "boolean",
                LiteralValue::Null => "null",
                LiteralValue::Undefined => "undefined",
                LiteralValue::BigInt(_) => "bigint",
            },
            Expr::Ident(_) => "any",
            Expr::Binary(_) => "any",
            Expr::Unary(_) => "any",
            Expr::Call(_) => "any",
            Expr::Member(_) => "any",
            Expr::Object(_) => "object",
            Expr::Array(_) => "array",
            Expr::Ternary(_, _, _) => "any",
            Expr::Lambda(_) => "function",
            Expr::Template(_) => "string",
            Expr::Await(_) => "promise",
            Expr::Spread(_) => "array",
        }
    }
}

impl LiteralExpr {
    /// A string literal; its source text is the string in double quotes.
    pub fn string(s: String) -> (l: LiteralExpr)
        ensures
            l.value == LiteralValue::String(s),
            l.raw@ == seq!['"'] + s@ + seq!['"'],
    {
        let mut raw = String::new();
        crate::text::push_char(&mut raw, '"');
        crate::text::push_string(&mut raw, &s);
        crate::text::push_char(&mut raw, '"');
        LiteralExpr { value: LiteralValue::String(s), raw }
    }

    /// A boolean literal, written `true` or `false`.
    pub fn boolean(b: bool) -> (l: LiteralExpr)
        ensures
            l.value == LiteralValue::Boolean(b),
            l.raw@ == (if b { "true"@ } else { "false"@ }),
    {
        let raw = if b { crate::text::owned("true") } else { crate::text::owned("false") };
        LiteralExpr { value: LiteralValue::Boolean(b), raw }
    }

    /// The `null` literal.
    pub fn null() -> (l: LiteralExpr)
        ensures
            l.value == LiteralValue::Null,
            l.raw@ == "null"@,
    {
        LiteralExpr { value: LiteralValue::Null, raw: crate::text::owned("null") }
    }
}

} // verus!
