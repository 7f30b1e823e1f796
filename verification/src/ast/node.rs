//! Node-level views of the syntax tree: nodes are named by `NodeId`s and
//! carry source `Span`s.
use vstd::prelude::*;

verus! {

#[derive(Debug, Clone, Copy, PartialEq, Eq, Hash)]
pub struct NodeId(pub usize);

#[derive(Debug, Clone, Copy, PartialEq, Eq)]
pub struct Span {
    pub start: usize,
    pub end: usize,
    pub line: usize,
    pub column: usize,
}

impl Span {
    pub fn new(start: usize, end: usize, line: usize, column: usize) -> (s: Span)
        ensures
            s == (Span { start, end, line, column }),
    {
        Span { start, end, line, column }
    }

    /// The number of positions the span covers.
    pub fn len(&self) -> (n: usize)
        requires
            self.start <= self.end,
        ensures
            n == self.end - self.start,
    {
        self.end - self.start
    }

    pub fn is_empty(&self) -> (b: bool)
        ensures
            b == (self.start == self.end),
    {
        self.start == self.end
    }

    pub open spec fn spec_merge(self, other: Span) -> Span {
        Span {
            start: if self.start <= other.start { self.start } else { other.start },
            end: if self.end >= other.end { self.end } else { other.end },
            line: if self.line <= other.line { self.line } else { other.line },
            column: self.column,
        }
    }

    /// The smallest span covering both; the line is the earlier one and the
    /// column is this span's.
    pub fn merge(&self, other: &Span) -> (s: Span)
        ensures
            s == self.spec_merge(*other),
    {
        Span {
            start: if self.start <= other.start { self.start } else { other.start },
            end: if self.end >= other.end { self.end } else { other.end },
            line: if self.line <= other.line { self.line } else { other.line },
            column: self.column,
        }
    }

    /// The span written as `line:column`.
    pub fn to_display(&self) -> (s: String)
        ensures
            s@ == crate::text::decimal(self.line as nat) + seq![':'] + crate::text::decimal(
                self.column as nat,
            ),
    {
        let mut s = crate::text::decimal_string(self.line as u128);
        crate::text::push_char(&mut s, ':');
        crate::text::push_decimal(&mut s, self.column as u128);
        s
    }
}

/// Merging is commutative in the extent it covers: both orders cover the
/// same start, end and line.
pub proof fn merge_extent_commutes(a: Span, b: Span)
    ensures
        a.spec_merge(b).start == b.spec_merge(a).start,
        a.spec_merge(b).end == b.spec_merge(a).end,
        a.spec_merge(b).line == b.spec_merge(a).line,
{
}

/// A merged span covers both spans.
pub proof fn merge_covers(a: Span, b: Span)
    ensures
        a.spec_merge(b).start <= a.start && a.spec_merge(b).start <= b.start,
        a.spec_merge(b).end >= a.end && a.spec_merge(b).end >= b.end,
{
}

#[derive(Debug, Clone)]
pub struct ProgramNode {
    pub components: Vec<NodeId>,
    pub functions: Vec<NodeId>,
    pub imports: Vec<NodeId>,
    pub exports: Vec<NodeId>,
}

#[derive(Debug, Clone)]
pub struct ComponentNode {
    pub name: String,
    pub params: Vec<NodeId>,
    pub body: Vec<NodeId>,
    pub signals: Vec<NodeId>,
    pub computed: Vec<NodeId>,
    pub effects: Vec<NodeId>,
}

#[derive(Debug, Clone)]
pub struct FunctionNode {
    pub name: String,
    pub params: Vec<NodeId>,
    pub body: Vec<NodeId>,
    pub return_type: Option<String>,
    pub is_async: bool,
    pub is_generator: bool,
}

#[derive(Debug, Clone)]
pub struct SignalNode {
    pub name: String,
    pub initial: NodeId,
    pub scope: SignalScope,
}

#[derive(Debug, Clone)]
pub enum SignalScope {
    Local,
    Global,
    Context(String),
}

#[derive(Debug, Clone)]
pub struct EffectNode {
    pub deps: Vec<String>,
    pub body: Vec<NodeId>,
    pub immediate: bool,
}

#[derive(Debug, Clone)]
pub struct ComputedNode {
    pub name: String,
    pub deps: Vec<String>,
    pub body: NodeId,
}

#[derive(Debug, Clone)]
pub struct ImportNode {
    pub path: String,
    pub names: Vec<String>,
    pub is_default: bool,
    pub alias: Option<String>,
}

#[derive(Debug, Clone)]
pub struct ExportNode {
    pub name: String,
    pub is_default: bool,
    pub alias: Option<String>,
}

#[derive(Debug, Clone)]
pub struct BlockNode {
    pub statements: Vec<NodeId>,
}

#[derive(Debug, Clone)]
pub struct ReturnNode {
    pub value: Option<NodeId>,
}

#[derive(Debug, Clone)]
pub struct IfNode {
    pub condition: NodeId,
    pub then_branch: Vec<NodeId>,
    pub else_if_branches: Vec<(NodeId, Vec<NodeId>)>,
    pub else_branch: Option<Vec<NodeId>>,
}

#[derive(Debug, Clone)]
pub struct ForNode {
    pub item: String,
    pub iter: NodeId,
    pub body: Vec<NodeId>,
    pub key: Option<String>,
}

#[derive(Debug, Clone)]
pub struct WhileNode {
    pub condition: NodeId,
    pub body: Vec<NodeId>,
}

#[derive(Debug, Clone)]
pub struct AssignNode {
    pub target: String,
    pub value: NodeId,
    pub op: AssignOp,
}

#[derive(Debug, Clone, Copy, PartialEq, Eq)]
pub enum AssignOp {
    Eq,
    AddEq,
    SubEq,
    MulEq,
    DivEq,
}

#[derive(Debug, Clone)]
pub struct CallNode {
    pub callee: NodeId,
    pub args: Vec<NodeId>,
}

#[derive(Debug, Clone)]
pub struct BinaryNode {
    pub left: NodeId,
    pub right: NodeId,
    pub op: BinaryOp,
}

#[derive(Debug, Clone, Copy, PartialEq, Eq)]
pub enum BinaryOp {
    Add,
    Sub,
    Mul,
    Div,
    Mod,
    Eq,
    Ne,
    Lt,
    Gt,
    Le,
    Ge,
    And,
    Or,
    Nullish,
    In,
    InstanceOf,
}

#[derive(Debug, Clone)]
pub struct UnaryNode {
    pub expr: NodeId,
    pub op: UnaryOp,
}

#[derive(Debug, Clone, Copy, PartialEq, Eq)]
pub enum UnaryOp {
    Not,
    Neg,
    Plus,
    Typeof,
    Void,
    Delete,
}

#[derive(Debug, Clone)]
pub struct IdentNode {
    pub name: String,
}

#[derive(Debug, Clone)]
pub struct ObjectNode {
    pub properties: Vec<ObjectProperty>,
}

#[derive(Debug, Clone)]
pub struct ObjectProperty {
    pub key: String,
    pub value: NodeId,
    pub shorthand: bool,
    pub computed: bool,
}

#[derive(Debug, Clone)]
pub struct ArrayNode {
    pub elements: Vec<NodeId>,
}

#[derive(Debug, Clone)]
pub struct MemberNode {
    pub object: NodeId,
    pub property: String,
    pub computed: bool,
    pub optional: bool,
}

} // verus!
