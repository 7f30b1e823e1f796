//! Statement-level kinds used by the extended statement forms.
use vstd::prelude::*;

verus! {

#[derive(Debug, Clone, Copy, PartialEq, Eq)]
pub enum AssignOp {
    Eq,
    AddEq,
    SubEq,
    MulEq,
    DivEq,
    ModEq,
    PowEq,
    AndEq,
    OrEq,
    NullishEq,
}

#[derive(Debug, Clone, Copy, PartialEq, Eq)]
pub enum VarKind {
    Var,
    Let,
    Const,
}

#[derive(Debug, Clone)]
pub struct BreakStmt {
    pub label: Option<String>,
}

#[derive(Debug, Clone)]
pub struct ContinueStmt {
    pub label: Option<String>,
}

#[derive(Debug, Clone, Copy)]
pub struct DebuggerStmt;

} // verus!
