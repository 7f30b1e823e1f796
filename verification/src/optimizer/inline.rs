//! Inlining of small functions: a call of a function whose body is small
//! is replaced by that function's first returned expression, itself
//! inlined, and the small functions are then dropped from the program.
use vstd::prelude::*;
use crate::ast::{
    Program, Component, Function, Stmt, IfStmt, AssignStmt, VarStmt, Expr, LiteralExpr, LiteralValue, IdentExpr,
    CallExpr, BinaryExpr, BinaryOp, UnaryExpr, UnaryOp, LambdaExpr, ObjectExpr, ObjectProp, ArrayExpr, MemberExpr,
    TemplateExpr, TemplateElement, AwaitExpr, SpreadExpr,
};
use crate::parser::rules::{LitTree, lit_tree};
use crate::text::views;

verus! {

/// An expression as plain values, every kind of expression included.
pub enum XTree {
    Lit(LitTree, Seq<char>),
    Ident(Seq<char>, bool),
    Call(Box<XTree>, Seq<XTree>),
    Binary(Box<XTree>, BinaryOp, Box<XTree>),
    Unary(UnaryOp, Box<XTree>),
    Lambda(Seq<Seq<char>>, Box<XTree>),
    Object(Seq<(Seq<char>, XTree, bool)>),
    Array(Seq<XTree>),
    Member(Box<XTree>, Seq<char>, bool),
    Ternary(Box<XTree>, Box<XTree>, Box<XTree>),
    Template(Seq<(Seq<char>, bool)>, Seq<XTree>),
    Await(Box<XTree>),
    Spread(Box<XTree>),
}

pub open spec fn xv(e: Expr) -> XTree
    decreases e,
{
    match e {
        Expr::Literal(l) => XTree::Lit(lit_tree(l.value), l.raw@),
        Expr::Ident(i) => XTree::Ident(i.name@, i.global),
        Expr::Call(c) => XTree::Call(Box::new(xv(*c.callee)), xvs(c.args@)),
        Expr::Binary(b) => XTree::Binary(Box::new(xv(*b.left)), b.op, Box::new(xv(*b.right))),
        Expr::Unary(u) => XTree::Unary(u.op, Box::new(xv(*u.expr))),
        Expr::Lambda(l) => XTree::Lambda(views(l.params@), Box::new(xv(*l.body))),
        Expr::Object(o) => XTree::Object(pvs(o.props@)),
        Expr::Array(a) => XTree::Array(xvs(a.elements@)),
        Expr::Member(m) => XTree::Member(Box::new(xv(*m.obj)), m.prop@, m.computed),
        Expr::Ternary(c, t, f) => XTree::Ternary(Box::new(xv(*c)), Box::new(xv(*t)), Box::new(xv(*f))),
        Expr::Template(t) => XTree::Template(tvs(t.quasis@), xvs(t.expressions@)),
        Expr::Await(a) => XTree::Await(Box::new(xv(*a.expr))),
        Expr::Spread(s) => XTree::Spread(Box::new(xv(*s.expr))),
    }
}

pub open spec fn xvs(s: Seq<Expr>) -> Seq<XTree>
    decreases s,
{
    if s.len() == 0 {
        seq![]
    } else {
        xvs(s.drop_last()).push(xv(s.last()))
    }
}

pub open spec fn pvs(s: Seq<ObjectProp>) -> Seq<(Seq<char>, XTree, bool)>
    decreases s,
{
    if s.len() == 0 {
        seq![]
    } else {
        let p = s.last();
        pvs(s.drop_last()).push((p.key@, xv(p.value), p.shorthand))
    }
}

pub open spec fn tvs(s: Seq<TemplateElement>) -> Seq<(Seq<char>, bool)> {
    s.map_values(|t: TemplateElement| (t.value@, t.tail))
}

pub open spec fn opt_xv(o: Option<Expr>) -> Option<XTree> {
    match o {
        Some(e) => Some(xv(e)),
        None => None,
    }
}

fn copy_literal(l: &LiteralExpr) -> (r: LiteralExpr)
    ensures
        lit_tree(r.value) == lit_tree(l.value),
        r.raw@ == l.raw@,
{
    let value = match &l.value {
        LiteralValue::String(s) => LiteralValue::String(s.clone()),
        LiteralValue::Number(s) => LiteralValue::Number(s.clone()),
        LiteralValue::Integer(i) => LiteralValue::Integer(*i),
        LiteralValue::Boolean(b) => LiteralValue::Boolean(*b),
        LiteralValue::Null => LiteralValue::Null,
        LiteralValue::Undefined => LiteralValue::Undefined,
        LiteralValue::BigInt(s) => LiteralValue::BigInt(s.clone()),
    };
    LiteralExpr { value, raw: l.raw.clone() }
}

/// A deep copy of an expression.
pub fn copy_expr(e: &Expr) -> (r: Expr)
    ensures
        xv(r) == xv(*e),
    decreases e,
{
    match e {
        Expr::Literal(l) => Expr::Literal(copy_literal(l)),
        Expr::Ident(i) => Expr::Ident(IdentExpr { name: i.name.clone(), global: i.global }),
        Expr::Call(c) => Expr::Call(CallExpr { callee: Box::new(copy_expr(&c.callee)), args: copy_exprs(&c.args) }),
        Expr::Binary(b) => Expr::Binary(
            BinaryExpr { left: Box::new(copy_expr(&b.left)), right: Box::new(copy_expr(&b.right)), op: b.op },
        ),
        Expr::Unary(u) => Expr::Unary(UnaryExpr { op: u.op, expr: Box::new(copy_expr(&u.expr)) }),
        Expr::Lambda(l) => Expr::Lambda(LambdaExpr { params: copy_names(&l.params), body: Box::new(copy_expr(&l.body)) }),
        Expr::Object(o) => Expr::Object(ObjectExpr { props: copy_props(&o.props) }),
        Expr::Array(a) => Expr::Array(ArrayExpr { elements: copy_exprs(&a.elements) }),
        Expr::Member(m) => Expr::Member(
            MemberExpr { obj: Box::new(copy_expr(&m.obj)), prop: m.prop.clone(), computed: m.computed },
        ),
        Expr::Ternary(c, t, f) => Expr::Ternary(
            Box::new(copy_expr(c)),
            Box::new(copy_expr(t)),
            Box::new(copy_expr(f)),
        ),
        Expr::Template(t) => Expr::Template(
            TemplateExpr { quasis: copy_quasis(&t.quasis), expressions: copy_exprs(&t.expressions) },
        ),
        Expr::Await(a) => Expr::Await(AwaitExpr { expr: Box::new(copy_expr(&a.expr)) }),
        Expr::Spread(s) => Expr::Spread(SpreadExpr { expr: Box::new(copy_expr(&s.expr)) }),
    }
}

#[verifier::loop_isolation(false)]
fn copy_exprs(v: &Vec<Expr>) -> (r: Vec<Expr>)
    ensures
        xvs(r@) == xvs(v@),
    decreases v,
{
    let mut r: Vec<Expr> = Vec::new();
    let mut i: usize = 0;
    while i < v.len()
        invariant
            i <= v.len(),
            xvs(r@) == xvs(v@.take(i as int)),
        decreases v.len() - i,
    {
        proof {
            assert(decreases_to!(v => v@));
            assert(decreases_to!(v@ => v@[i as int]));
        }
        let x = copy_expr(&v[i]);
        let ghost r0 = r@;
        r.push(x);
        assert(r@.drop_last() =~= r0);
        assert(v@.take(i + 1).drop_last() =~= v@.take(i as int));
        i += 1;
    }
    assert(v@.take(v.len() as int) =~= v@);
    r
}

#[verifier::loop_isolation(false)]
fn copy_props(v: &Vec<ObjectProp>) -> (r: Vec<ObjectProp>)
    ensures
        pvs(r@) == pvs(v@),
    decreases v,
{
    let mut r: Vec<ObjectProp> = Vec::new();
    let mut i: usize = 0;
    while i < v.len()
        invariant
            i <= v.len(),
            pvs(r@) == pvs(v@.take(i as int)),
        decreases v.len() - i,
    {
        proof {
            assert(decreases_to!(v => v@));
            assert(decreases_to!(v@ => v@[i as int]));
            assert(decreases_to!(v@[i as int] => v@[i as int].value));
        }
        let x = copy_expr(&v[i].value);
        let p = ObjectProp { key: v[i].key.clone(), value: x, shorthand: v[i].shorthand };
        let ghost r0 = r@;
        r.push(p);
        assert(r@.drop_last() =~= r0);
        assert(v@.take(i + 1).drop_last() =~= v@.take(i as int));
        i += 1;
    }
    assert(v@.take(v.len() as int) =~= v@);
    r
}

fn copy_names(v: &Vec<String>) -> (r: Vec<String>)
    ensures
        views(r@) == views(v@),
{
    let mut r: Vec<String> = Vec::new();
    let mut i: usize = 0;
    while i < v.len()
        invariant
            i <= v.len(),
            r@.len() == i,
            forall|j: int| 0 <= j < i ==> #[trigger] r@[j]@ == v@[j]@,
        decreases v.len() - i,
    {
        r.push(v[i].clone());
        i += 1;
    }
    assert(views(r@) =~= views(v@));
    r
}

fn copy_quasis(v: &Vec<TemplateElement>) -> (r: Vec<TemplateElement>)
    ensures
        tvs(r@) == tvs(v@),
{
    let mut r: Vec<TemplateElement> = Vec::new();
    let mut i: usize = 0;
    while i < v.len()
        invariant
            i <= v.len(),
            r@.len() == i,
            forall|j: int| 0 <= j < i ==> #[trigger] r@[j].value@ == v@[j].value@ && r@[j].tail == v@[j].tail,
        decreases v.len() - i,
    {
        r.push(TemplateElement { value: v[i].value.clone(), tail: v[i].tail });
        i += 1;
    }
    assert(tvs(r@) =~= tvs(v@));
    r
}


// ---------------------------------------------------------------------------
// Size estimates
// ---------------------------------------------------------------------------

/// The estimated size of an expression: one for the node and the sizes of
/// the parts that are counted.
pub open spec fn esize(e: Expr) -> nat
    decreases e,
{
    match e {
        Expr::Call(c) => 1 + esize(*c.callee) + esizes(c.args@),
        Expr::Binary(b) => 1 + esize(*b.left) + esize(*b.right),
        Expr::Unary(u) => 1 + esize(*u.expr),
        Expr::Member(m) => 1 + esize(*m.obj),
        Expr::Object(o) => 1 + psizes(o.props@),
        Expr::Array(a) => 1 + esizes(a.elements@),
        Expr::Lambda(l) => 1 + esize(*l.body),
        Expr::Ternary(c, t, f) => 1 + esize(*c) + esize(*t) + esize(*f),
        _ => 1,
    }
}

pub open spec fn esizes(s: Seq<Expr>) -> nat
    decreases s,
{
    if s.len() == 0 {
        0
    } else {
        esizes(s.drop_last()) + esize(s.last())
    }
}

pub open spec fn psizes(s: Seq<ObjectProp>) -> nat
    decreases s,
{
    if s.len() == 0 {
        0
    } else {
        psizes(s.drop_last()) + esize(s.last().value)
    }
}

/// The estimated size of a statement: its expression (plus one for a
/// `return`, an assignment or a declaration), the sum over a block, and
/// one for anything else.
pub open spec fn ssize(s: Stmt) -> nat
    decreases s,
{
    match s {
        Stmt::Expr(e) => esize(e),
        Stmt::Return(e) => 1 + esize(e),
        Stmt::Assign(a) => 1 + esize(a.value),
        Stmt::Var(v) => 1 + esize(v.value),
        Stmt::Block(b) => ssizes(b@),
        _ => 1,
    }
}

pub open spec fn ssizes(s: Seq<Stmt>) -> nat
    decreases s,
{
    if s.len() == 0 {
        0
    } else {
        ssizes(s.drop_last()) + ssize(s.last())
    }
}

/// `n`, or `usize::MAX` where it is larger.
pub open spec fn cap(n: nat) -> usize {
    if n > usize::MAX { usize::MAX } else { n as usize }
}

fn estimate_expr_size(e: &Expr) -> (r: usize)
    ensures
        r == cap(esize(*e)),
    decreases e,
{
    match e {
        Expr::Call(c) => 1usize.saturating_add(estimate_expr_size(&c.callee)).saturating_add(size_exprs(&c.args)),
        Expr::Binary(b) => 1usize.saturating_add(estimate_expr_size(&b.left)).saturating_add(estimate_expr_size(&b.right)),
        Expr::Unary(u) => 1usize.saturating_add(estimate_expr_size(&u.expr)),
        Expr::Member(m) => 1usize.saturating_add(estimate_expr_size(&m.obj)),
        Expr::Object(o) => 1usize.saturating_add(size_props(&o.props)),
        Expr::Array(a) => 1usize.saturating_add(size_exprs(&a.elements)),
        Expr::Lambda(l) => 1usize.saturating_add(estimate_expr_size(&l.body)),
        Expr::Ternary(c, t, f) => 1usize.saturating_add(estimate_expr_size(c)).saturating_add(estimate_expr_size(t)).saturating_add(
            estimate_expr_size(f),
        ),
        _ => 1,
    }
}

#[verifier::loop_isolation(false)]
fn size_exprs(v: &Vec<Expr>) -> (r: usize)
    ensures
        r == cap(esizes(v@)),
    decreases v,
{
    let mut r: usize = 0;
    let mut i: usize = 0;
    while i < v.len()
        invariant
            i <= v.len(),
            r == cap(esizes(v@.take(i as int))),
        decreases v.len() - i,
    {
        proof {
            assert(decreases_to!(v => v@));
            assert(decreases_to!(v@ => v@[i as int]));
        }
        let x = estimate_expr_size(&v[i]);
        r = r.saturating_add(x);
        assert(v@.take(i + 1).drop_last() =~= v@.take(i as int));
        i += 1;
    }
    assert(v@.take(v.len() as int) =~= v@);
    r
}

#[verifier::loop_isolation(false)]
fn size_props(v: &Vec<ObjectProp>) -> (r: usize)
    ensures
        r == cap(psizes(v@)),
    decreases v,
{
    let mut r: usize = 0;
    let mut i: usize = 0;
    while i < v.len()
        invariant
            i <= v.len(),
            r == cap(psizes(v@.take(i as int))),
        decreases v.len() - i,
    {
        proof {
            assert(decreases_to!(v => v@));
            assert(decreases_to!(v@ => v@[i as int]));
            assert(decreases_to!(v@[i as int] => v@[i as int].value));
        }
        let x = estimate_expr_size(&v[i].value);
        r = r.saturating_add(x);
        assert(v@.take(i + 1).drop_last() =~= v@.take(i as int));
        i += 1;
    }
    assert(v@.take(v.len() as int) =~= v@);
    r
}

fn estimate_stmt_size(s: &Stmt) -> (r: usize)
    ensures
        r == cap(ssize(*s)),
    decreases s,
{
    match s {
        Stmt::Expr(e) => estimate_expr_size(e),
        Stmt::Return(e) => 1usize.saturating_add(estimate_expr_size(e)),
        Stmt::Assign(a) => 1usize.saturating_add(estimate_expr_size(&a.value)),
        Stmt::Var(v) => 1usize.saturating_add(estimate_expr_size(&v.value)),
        Stmt::Block(b) => size_stmts(b),
        _ => 1,
    }
}

#[verifier::loop_isolation(false)]
fn size_stmts(v: &Vec<Stmt>) -> (r: usize)
    ensures
        r == cap(ssizes(v@)),
    decreases v,
{
    let mut r: usize = 0;
    let mut i: usize = 0;
    while i < v.len()
        invariant
            i <= v.len(),
            r == cap(ssizes(v@.take(i as int))),
        decreases v.len() - i,
    {
        proof {
            assert(decreases_to!(v => v@));
            assert(decreases_to!(v@ => v@[i as int]));
        }
        let x = estimate_stmt_size(&v[i]);
        r = r.saturating_add(x);
        assert(v@.take(i + 1).drop_last() =~= v@.take(i as int));
        i += 1;
    }
    assert(v@.take(v.len() as int) =~= v@);
    r
}


// ---------------------------------------------------------------------------
// Inlining expressions
// ---------------------------------------------------------------------------

/// The small functions known to the inliner, in the order they were met:
/// each name with the first expression its body returns, if any.
pub type Table = Seq<(Seq<char>, Option<XTree>)>;

/// What the table holds under `n`: its last entry of that name.
pub open spec fn entry(t: Table, n: Seq<char>) -> Option<Option<XTree>>
    decreases t.len(),
{
    if t.len() == 0 {
        None
    } else if t.last().0 == n {
        Some(t.last().1)
    } else {
        entry(t.drop_last(), n)
    }
}

pub open spec fn null_x() -> XTree {
    XTree::Lit(LitTree::Null, "null"@)
}

/// The function a call names directly, when the table holds it.
pub open spec fn callee_entry(t: Table, callee: XTree) -> Option<Option<XTree>> {
    match callee {
        XTree::Ident(n, _) => entry(t, n),
        _ => None,
    }
}

/// Inlining `x` with `fuel` expansions nested at most: a call of a small
/// function becomes what its returned expression inlines to (`null` when
/// it returns nothing); calls, binary and unary operations and member
/// accesses are inlined in their parts; anything else stays. `None` when
/// the expansions nest deeper than `fuel`.
pub open spec fn inl(t: Table, x: XTree, fuel: nat) -> Option<XTree>
    decreases fuel, x,
{
    match x {
        XTree::Call(callee, args) => match callee_entry(t, *callee) {
            Some(body) => if fuel == 0 {
                None
            } else {
                match body {
                    Some(b) => inl(t, b, (fuel - 1) as nat),
                    None => Some(null_x()),
                }
            },
            None => match (inl(t, *callee, fuel), inl_all(t, args, fuel)) {
                (Some(c), Some(a)) => Some(XTree::Call(Box::new(c), a)),
                _ => None,
            },
        },
        XTree::Binary(l, op, r) => match (inl(t, *l, fuel), inl(t, *r, fuel)) {
            (Some(a), Some(b)) => Some(XTree::Binary(Box::new(a), op, Box::new(b))),
            _ => None,
        },
        XTree::Unary(op, e) => match inl(t, *e, fuel) {
            Some(a) => Some(XTree::Unary(op, Box::new(a))),
            None => None,
        },
        XTree::Member(o, p, c) => match inl(t, *o, fuel) {
            Some(a) => Some(XTree::Member(Box::new(a), p, c)),
            None => None,
        },
        _ => Some(x),
    }
}

pub open spec fn inl_all(t: Table, s: Seq<XTree>, fuel: nat) -> Option<Seq<XTree>>
    decreases fuel, s,
{
    if s.len() == 0 {
        Some(seq![])
    } else {
        match (inl_all(t, s.drop_last(), fuel), inl(t, s.last(), fuel)) {
            (Some(a), Some(b)) => Some(a.push(b)),
            _ => None,
        }
    }
}

pub open spec fn opt_xvs(o: Option<Vec<Expr>>) -> Option<Seq<XTree>> {
    match o {
        Some(v) => Some(xvs(v@)),
        None => None,
    }
}

proof fn lemma_inl_all_prefix(t: Table, s: Seq<XTree>, k: int, fuel: nat)
    requires
        0 <= k <= s.len(),
        inl_all(t, s.take(k), fuel) is None,
    ensures
        inl_all(t, s, fuel) is None,
    decreases s.len(),
{
    if s.len() > k {
        assert(s.drop_last().take(k) =~= s.take(k));
        lemma_inl_all_prefix(t, s.drop_last(), k, fuel);
    } else {
        assert(s.take(k) =~= s);
    }
}

proof fn lemma_xvs_take(s: Seq<Expr>, k: int)
    requires
        0 <= k < s.len(),
    ensures
        xvs(s.take(k + 1)) == xvs(s.take(k)).push(xv(s[k])),
{
    assert(s.take(k + 1).drop_last() =~= s.take(k));
}

proof fn lemma_xvs_len(s: Seq<Expr>)
    ensures
        xvs(s).len() == s.len(),
    decreases s.len(),
{
    if s.len() > 0 {
        lemma_xvs_len(s.drop_last());
    }
}


proof fn lemma_xvs_prefix(s: Seq<Expr>, k: int)
    requires
        0 <= k <= s.len(),
    ensures
        xvs(s).take(k) == xvs(s.take(k)),
    decreases s.len(),
{
    lemma_xvs_len(s);
    if k == s.len() {
        assert(s.take(k) =~= s);
        assert(xvs(s).take(k) =~= xvs(s));
    } else {
        lemma_xvs_len(s.drop_last());
        lemma_xvs_prefix(s.drop_last(), k);
        assert(s.drop_last().take(k) =~= s.take(k));
        assert(xvs(s).take(k) =~= xvs(s.drop_last()).take(k));
    }
}


// ---------------------------------------------------------------------------
// Inlining statements
// ---------------------------------------------------------------------------

/// `r` is what `e` inlines to.
pub open spec fn x_inl(t: Table, e: Expr, r: Expr, fuel: nat) -> bool {
    inl(t, xv(e), fuel) == Some(xv(r))
}

/// Inlining `e` ends within `fuel` nested expansions.
pub open spec fn x_ends(t: Table, e: Expr, fuel: nat) -> bool {
    inl(t, xv(e), fuel) is Some
}

/// Inlining every expression that `s` inlines ends.
pub open spec fn stmt_ends(t: Table, s: Stmt, fuel: nat) -> bool
    decreases s,
{
    match s {
        Stmt::Expr(e) => x_ends(t, e, fuel),
        Stmt::Return(e) => x_ends(t, e, fuel),
        Stmt::Assign(a) => x_ends(t, a.value, fuel),
        Stmt::Var(v) => x_ends(t, v.value, fuel),
        Stmt::Block(b) => stmts_end(t, b@, fuel),
        Stmt::If(i) => x_ends(t, i.cond, fuel) && stmts_end(t, i.body@, fuel) && elifs_end(t, i.else_if@, fuel)
            && match i.else_body {
            Some(b) => stmts_end(t, b@, fuel),
            None => true,
        },
        _ => true,
    }
}

pub open spec fn stmts_end(t: Table, s: Seq<Stmt>, fuel: nat) -> bool
    decreases s,
{
    s.len() == 0 || (stmts_end(t, s.drop_last(), fuel) && stmt_ends(t, s.last(), fuel))
}

pub open spec fn elifs_end(t: Table, s: Seq<(Expr, Vec<Stmt>)>, fuel: nat) -> bool
    decreases s,
{
    s.len() == 0 || (elifs_end(t, s.drop_last(), fuel) && x_ends(t, s.last().0, fuel) && stmts_end(
        t,
        s.last().1@,
        fuel,
    ))
}

/// `r` is what inlining gives for `s`: expression statements, returns,
/// assignments, declarations and the conditions of `if`s are inlined,
/// blocks and branches statement by statement; loops stay as they are.
pub open spec fn stmt_inl(t: Table, s: Stmt, r: Stmt, fuel: nat) -> bool
    decreases s,
{
    match s {
        Stmt::Expr(e) => r matches Stmt::Expr(x) && x_inl(t, e, x, fuel),
        Stmt::Return(e) => r matches Stmt::Return(x) && x_inl(t, e, x, fuel),
        Stmt::Assign(a) => r matches Stmt::Assign(a2) && a2.target == a.target && a2.op == a.op && x_inl(
            t,
            a.value,
            a2.value,
            fuel,
        ),
        Stmt::Var(v) => r matches Stmt::Var(v2) && v2.name == v.name && v2.is_const == v.is_const && x_inl(
            t,
            v.value,
            v2.value,
            fuel,
        ),
        Stmt::Block(b) => r matches Stmt::Block(b2) && stmts_inl(t, b@, b2@, fuel),
        Stmt::If(i) => r matches Stmt::If(i2) && x_inl(t, i.cond, i2.cond, fuel) && stmts_inl(t, i.body@, i2.body@, fuel)
            && elifs_inl(t, i.else_if@, i2.else_if@, fuel) && match (i.else_body, i2.else_body) {
            (Some(x), Some(y)) => stmts_inl(t, x@, y@, fuel),
            (None, None) => true,
            _ => false,
        },
        _ => r == s,
    }
}

pub open spec fn stmts_inl(t: Table, s: Seq<Stmt>, r: Seq<Stmt>, fuel: nat) -> bool
    decreases s,
{
    if s.len() == 0 {
        r.len() == 0
    } else {
        r.len() == s.len() && stmts_inl(t, s.drop_last(), r.drop_last(), fuel) && stmt_inl(t, s.last(), r.last(), fuel)
    }
}

pub open spec fn elifs_inl(t: Table, s: Seq<(Expr, Vec<Stmt>)>, r: Seq<(Expr, Vec<Stmt>)>, fuel: nat) -> bool
    decreases s,
{
    if s.len() == 0 {
        r.len() == 0
    } else {
        r.len() == s.len() && elifs_inl(t, s.drop_last(), r.drop_last(), fuel) && x_inl(t, s.last().0, r.last().0, fuel)
            && stmts_inl(t, s.last().1@, r.last().1@, fuel)
    }
}

proof fn lemma_stmts_end_prefix(t: Table, s: Seq<Stmt>, k: int, fuel: nat)
    requires
        0 <= k <= s.len(),
        !stmts_end(t, s.take(k), fuel),
    ensures
        !stmts_end(t, s, fuel),
    decreases s.len(),
{
    if s.len() > k {
        assert(s.drop_last().take(k) =~= s.take(k));
        lemma_stmts_end_prefix(t, s.drop_last(), k, fuel);
    } else {
        assert(s.take(k) =~= s);
    }
}

proof fn lemma_elifs_end_prefix(t: Table, s: Seq<(Expr, Vec<Stmt>)>, k: int, fuel: nat)
    requires
        0 <= k <= s.len(),
        !elifs_end(t, s.take(k), fuel),
    ensures
        !elifs_end(t, s, fuel),
    decreases s.len(),
{
    if s.len() > k {
        assert(s.drop_last().take(k) =~= s.take(k));
        lemma_elifs_end_prefix(t, s.drop_last(), k, fuel);
    } else {
        assert(s.take(k) =~= s);
    }
}


// ---------------------------------------------------------------------------
// Programs
// ---------------------------------------------------------------------------

/// The first expression that a body returns at its top level.
pub open spec fn ret_of(body: Seq<Stmt>) -> Option<XTree>
    decreases body.len(),
{
    if body.len() == 0 {
        None
    } else {
        match body[0] {
            Stmt::Return(e) => Some(xv(e)),
            _ => ret_of(body.skip(1)),
        }
    }
}

/// A function whose body's estimated size is below `thr`.
pub open spec fn is_small(f: Function, thr: nat) -> bool {
    ssizes(f.body@) < thr
}

/// The table entries for the small functions among `fs`, in order.
pub open spec fn collected(fs: Seq<Function>, thr: nat) -> Table
    decreases fs.len(),
{
    if fs.len() == 0 {
        seq![]
    } else {
        let r = collected(fs.drop_last(), thr);
        if is_small(fs.last(), thr) {
            r.push((fs.last().name@, ret_of(fs.last().body@)))
        } else {
            r
        }
    }
}

/// The functions of `fs` whose names the table does not hold.
pub open spec fn kept(fs: Seq<Function>, t: Table) -> Seq<Function>
    decreases fs.len(),
{
    if fs.len() == 0 {
        seq![]
    } else {
        let r = kept(fs.drop_last(), t);
        if entry(t, fs.last().name@) is Some {
            r
        } else {
            r.push(fs.last())
        }
    }
}

pub open spec fn component_inl(t: Table, c: Component, r: Component, fuel: nat) -> bool {
    &&& r.name == c.name
    &&& r.params == c.params
    &&& r.signals == c.signals
    &&& r.computed == c.computed
    &&& r.effects == c.effects
    &&& r.css_scope == c.css_scope
    &&& stmts_inl(t, c.body@, r.body@, fuel)
}

pub open spec fn function_inl(t: Table, f: Function, r: Function, fuel: nat) -> bool {
    &&& r.name == f.name
    &&& r.params == f.params
    &&& r.return_type == f.return_type
    &&& r.is_async == f.is_async
    &&& stmts_inl(t, f.body@, r.body@, fuel)
}

/// Inlining ends in the body of every component and every function.
pub open spec fn program_ends(t: Table, p: Program, fuel: nat) -> bool {
    &&& forall|i: int| 0 <= i < p.components@.len() ==> stmts_end(t, (#[trigger] p.components@[i]).body@, fuel)
    &&& forall|i: int| 0 <= i < p.functions@.len() ==> stmts_end(t, (#[trigger] p.functions@[i]).body@, fuel)
}

/// `r` is what inlining with the table `t` makes of `p`: component bodies
/// and the bodies of the functions that stay are inlined, the functions
/// that the table names are dropped, the rest is unchanged.
pub open spec fn program_inl(t: Table, p: Program, r: Program, fuel: nat) -> bool {
    &&& r.components@.len() == p.components@.len()
    &&& forall|i: int| 0 <= i < r.components@.len() ==> component_inl(t, p.components@[i], #[trigger] r.components@[i], fuel)
    &&& r.functions@.len() == kept(p.functions@, t).len()
    &&& forall|i: int| 0 <= i < r.functions@.len() ==> function_inl(t, kept(p.functions@, t)[i], #[trigger] r.functions@[i], fuel)
    &&& r.imports == p.imports
    &&& r.exports == p.exports
    &&& r.css == p.css
}

proof fn lemma_kept_unnamed(fs: Seq<Function>, t: Table)
    ensures
        forall|i: int| 0 <= i < kept(fs, t).len() ==> entry(t, (#[trigger] kept(fs, t)[i]).name@) is None,
    decreases fs.len(),
{
    if fs.len() > 0 {
        lemma_kept_unnamed(fs.drop_last(), t);
        let r = kept(fs.drop_last(), t);
        if entry(t, fs.last().name@) is None {
            assert forall|i: int| 0 <= i < kept(fs, t).len() implies entry(t, (#[trigger] kept(fs, t)[i]).name@) is None by {
                if i < r.len() {
                    assert(kept(fs, t)[i] == r[i]);
                }
            }
        }
    }
}

/// No function that the table names is left after inlining.
pub proof fn lemma_inlined_functions_gone(t: Table, p: Program, r: Program, fuel: nat)
    requires
        program_inl(t, p, r, fuel),
    ensures
        forall|i: int| 0 <= i < r.functions@.len() ==> entry(t, (#[trigger] r.functions@[i]).name@) is None,
{
    lemma_kept_unnamed(p.functions@, t);
    assert forall|i: int| 0 <= i < r.functions@.len() implies entry(t, (#[trigger] r.functions@[i]).name@) is None by {
        assert(function_inl(t, kept(p.functions@, t)[i], r.functions@[i], fuel));
    }
}

/// The table after meeting `p`, and the nesting bound used with it.
pub open spec fn table_after(t: Table, p: Program, thr: nat) -> Table {
    t + collected(p.functions@, thr)
}

/// Inlines small functions into a program.
pub struct Inliner {
    inline_threshold: usize,
    inlined_functions: Vec<(String, Option<Expr>)>,
}

impl Inliner {
    /// The small functions met so far.
    pub closed spec fn table(&self) -> Table {
        self.inlined_functions@.map_values(|p: (String, Option<Expr>)| (p.0@, opt_xv(p.1)))
    }

    /// A function is small when its estimated size is below this.
    pub closed spec fn threshold(&self) -> nat {
        self.inline_threshold as nat
    }

    /// An inliner that knows no function yet, with the size limit 10.
    pub fn new() -> (r: Inliner)
        ensures
            r.table().len() == 0,
            r.threshold() == 10,
    {
        Inliner { inline_threshold: 10, inlined_functions: Vec::new() }
    }

    fn find(&self, name: &String) -> (r: Option<usize>)
        ensures
            match r {
                Some(k) => k < self.table().len() && entry(self.table(), name@) == Some(self.table()[k as int].1),
                None => entry(self.table(), name@) is None,
            },
    {
        let ghost t = self.table();
        let mut i: usize = self.inlined_functions.len();
        assert(t.take(i as int) =~= t);
        while i > 0
            invariant
                i <= self.inlined_functions@.len(),
                t == self.table(),
                t.len() == self.inlined_functions@.len(),
                entry(t, name@) == entry(t.take(i as int), name@),
            decreases i,
        {
            i -= 1;
            assert(t.take(i + 1).drop_last() =~= t.take(i as int));
            assert(t[i as int].0 == self.inlined_functions@[i as int].0@);
            if self.inlined_functions[i].0 == *name {
                return Some(i);
            }
        }
        None
    }

    /// Inlines the calls in `e`, with at most `fuel` expansions nested;
    /// `None` when they nest deeper.
    pub fn inline_expr(&self, e: Expr, fuel: usize) -> (r: Option<Expr>)
        ensures
            opt_xv(r) == inl(self.table(), xv(e), fuel as nat),
        decreases fuel, e,
    {
        let ghost t = self.table();
        match e {
            Expr::Call(call) => {
                let CallExpr { callee, args } = call;
                let found = match &*callee {
                    Expr::Ident(id) => self.find(&id.name),
                    _ => None,
                };
                match found {
                    Some(k) => {
                        assert(callee_entry(t, xv(*callee)) == Some(t[k as int].1));
                        if fuel == 0 {
                            return None;
                        }
                        assert(t[k as int].1 == opt_xv(self.inlined_functions@[k as int].1));
                        match &self.inlined_functions[k].1 {
                            Some(b) => {
                                let c = copy_expr(b);
                                self.inline_expr(c, fuel - 1)
                            },
                            None => Some(Expr::Literal(LiteralExpr::null())),
                        }
                    },
                    None => {
                        match self.inline_expr(*callee, fuel) {
                            None => None,
                            Some(c) => match self.inline_exprs(args, fuel) {
                                None => None,
                                Some(a) => Some(Expr::Call(CallExpr { callee: Box::new(c), args: a })),
                            },
                        }
                    },
                }
            },
            Expr::Binary(b) => {
                let BinaryExpr { left, right, op } = b;
                match self.inline_expr(*left, fuel) {
                    None => None,
                    Some(l) => match self.inline_expr(*right, fuel) {
                        None => None,
                        Some(r) => Some(Expr::Binary(BinaryExpr { left: Box::new(l), right: Box::new(r), op })),
                    },
                }
            },
            Expr::Unary(u) => {
                let UnaryExpr { op, expr } = u;
                match self.inline_expr(*expr, fuel) {
                    None => None,
                    Some(x) => Some(Expr::Unary(UnaryExpr { op, expr: Box::new(x) })),
                }
            },
            Expr::Member(m) => {
                let MemberExpr { obj, prop, computed } = m;
                match self.inline_expr(*obj, fuel) {
                    None => None,
                    Some(x) => Some(Expr::Member(MemberExpr { obj: Box::new(x), prop, computed })),
                }
            },
            other => Some(other),
        }
    }

    /// Inlines each expression in turn.
    pub fn inline_exprs(&self, v: Vec<Expr>, fuel: usize) -> (r: Option<Vec<Expr>>)
        ensures
            opt_xvs(r) == inl_all(self.table(), xvs(v@), fuel as nat),
        decreases fuel, v,
    {
        let ghost t = self.table();
        let ghost v0 = v@;
        let mut rest = v;
        let mut out: Vec<Expr> = Vec::new();
        assert(v0.take(0) =~= seq![]);
        while rest.len() > 0
            invariant
                t == self.table(),
                v0 == v@,
                out@.len() + rest@.len() == v0.len(),
                rest@ == v0.skip(out@.len() as int),
                inl_all(t, xvs(v0.take(out@.len() as int)), fuel as nat) == Some(xvs(out@)),
            decreases rest.len(),
        {
            let ghost k = out@.len() as int;
            let x = rest.remove(0);
            assert(x == v0[k]);
            proof {
                assert(decreases_to!(v => v@));
                assert(decreases_to!(v@ => v@[k]));
                lemma_xvs_take(v0, k);
                assert(xvs(v0.take(k)).push(xv(x)).drop_last() =~= xvs(v0.take(k)));
            }
            match self.inline_expr(x, fuel) {
                None => {
                    proof {
                        lemma_xvs_prefix(v0, k + 1);
                        lemma_xvs_len(v0);
                        lemma_inl_all_prefix(t, xvs(v0), k + 1, fuel as nat);
                    }
                    return None;
                },
                Some(y) => {
                    let ghost o0 = out@;
                    out.push(y);
                    assert(out@.drop_last() =~= o0);
                    assert(rest@ =~= v0.skip(out@.len() as int));
                },
            }
        }
        assert(v0.take(v0.len() as int) =~= v0);
        Some(out)
    }

    /// Inlines the statement `s`; `None` when an expansion in it nests
    /// deeper than `fuel`.
    pub fn inline_stmt(&self, s: Stmt, fuel: usize) -> (r: Option<Stmt>)
        ensures
            (r is Some) == stmt_ends(self.table(), s, fuel as nat),
            r matches Some(x) ==> stmt_inl(self.table(), s, x, fuel as nat),
        decreases s,
    {
        match s {
            Stmt::Expr(e) => match self.inline_expr(e, fuel) {
                Some(x) => Some(Stmt::Expr(x)),
                None => None,
            },
            Stmt::Return(e) => match self.inline_expr(e, fuel) {
                Some(x) => Some(Stmt::Return(x)),
                None => None,
            },
            Stmt::Assign(a) => {
                let AssignStmt { target, value, op } = a;
                match self.inline_expr(value, fuel) {
                    Some(x) => Some(Stmt::Assign(AssignStmt { target, value: x, op })),
                    None => None,
                }
            },
            Stmt::Var(v) => {
                let VarStmt { name, value, is_const } = v;
                match self.inline_expr(value, fuel) {
                    Some(x) => Some(Stmt::Var(VarStmt { name, value: x, is_const })),
                    None => None,
                }
            },
            Stmt::Block(b) => match self.inline_stmts(b, fuel) {
                Some(x) => Some(Stmt::Block(x)),
                None => None,
            },
            Stmt::If(i) => {
                let IfStmt { cond, body, else_if, else_body } = i;
                let c = match self.inline_expr(cond, fuel) {
                    Some(x) => x,
                    None => return None,
                };
                let b = match self.inline_stmts(body, fuel) {
                    Some(x) => x,
                    None => return None,
                };
                let ei = match self.inline_elifs(else_if, fuel) {
                    Some(x) => x,
                    None => return None,
                };
                let eb = match else_body {
                    Some(x) => match self.inline_stmts(x, fuel) {
                        Some(y) => Some(y),
                        None => return None,
                    },
                    None => None,
                };
                Some(Stmt::If(IfStmt { cond: c, body: b, else_if: ei, else_body: eb }))
            },
            other => Some(other),
        }
    }

    /// Inlines each statement in turn.
    pub fn inline_stmts(&self, v: Vec<Stmt>, fuel: usize) -> (r: Option<Vec<Stmt>>)
        ensures
            (r is Some) == stmts_end(self.table(), v@, fuel as nat),
            r matches Some(x) ==> stmts_inl(self.table(), v@, x@, fuel as nat),
        decreases v,
    {
        let ghost t = self.table();
        let ghost v0 = v@;
        let mut rest = v;
        let mut out: Vec<Stmt> = Vec::new();
        assert(v0.take(0) =~= seq![]);
        while rest.len() > 0
            invariant
                t == self.table(),
                v0 == v@,
                out@.len() + rest@.len() == v0.len(),
                rest@ == v0.skip(out@.len() as int),
                stmts_end(t, v0.take(out@.len() as int), fuel as nat),
                stmts_inl(t, v0.take(out@.len() as int), out@, fuel as nat),
            decreases rest.len(),
        {
            let ghost k = out@.len() as int;
            let x = rest.remove(0);
            assert(x == v0[k]);
            proof {
                assert(decreases_to!(v => v@));
                assert(decreases_to!(v@ => v@[k]));
                assert(v0.take(k + 1).drop_last() =~= v0.take(k));
            }
            match self.inline_stmt(x, fuel) {
                None => {
                    proof {
                        lemma_stmts_end_prefix(t, v0, k + 1, fuel as nat);
                    }
                    return None;
                },
                Some(y) => {
                    let ghost o0 = out@;
                    out.push(y);
                    assert(out@.drop_last() =~= o0);
                    assert(rest@ =~= v0.skip(out@.len() as int));
                },
            }
        }
        assert(v0.take(v0.len() as int) =~= v0);
        Some(out)
    }

    /// Inlines the conditions and bodies of `else if` branches.
    pub fn inline_elifs(&self, v: Vec<(Expr, Vec<Stmt>)>, fuel: usize) -> (r: Option<Vec<(Expr, Vec<Stmt>)>>)
        ensures
            (r is Some) == elifs_end(self.table(), v@, fuel as nat),
            r matches Some(x) ==> elifs_inl(self.table(), v@, x@, fuel as nat),
        decreases v,
    {
        let ghost t = self.table();
        let ghost v0 = v@;
        let mut rest = v;
        let mut out: Vec<(Expr, Vec<Stmt>)> = Vec::new();
        assert(v0.take(0) =~= seq![]);
        while rest.len() > 0
            invariant
                t == self.table(),
                v0 == v@,
                out@.len() + rest@.len() == v0.len(),
                rest@ == v0.skip(out@.len() as int),
                elifs_end(t, v0.take(out@.len() as int), fuel as nat),
                elifs_inl(t, v0.take(out@.len() as int), out@, fuel as nat),
            decreases rest.len(),
        {
            let ghost k = out@.len() as int;
            let x = rest.remove(0);
            assert(x == v0[k]);
            proof {
                assert(decreases_to!(v => v@));
                assert(decreases_to!(v@ => v@[k]));
                assert(decreases_to!(v@[k] => v@[k].1));
                assert(v0.take(k + 1).drop_last() =~= v0.take(k));
            }
            let (c, b) = x;
            let c2 = match self.inline_expr(c, fuel) {
                Some(y) => y,
                None => {
                    proof {
                        lemma_elifs_end_prefix(t, v0, k + 1, fuel as nat);
                    }
                    return None;
                },
            };
            let b2 = match self.inline_stmts(b, fuel) {
                Some(y) => y,
                None => {
                    proof {
                        lemma_elifs_end_prefix(t, v0, k + 1, fuel as nat);
                    }
                    return None;
                },
            };
            let ghost o0 = out@;
            out.push((c2, b2));
            assert(out@.drop_last() =~= o0);
            assert(rest@ =~= v0.skip(out@.len() as int));
        }
        assert(v0.take(v0.len() as int) =~= v0);
        Some(out)
    }


    fn first_return(body: &Vec<Stmt>) -> (r: Option<Expr>)
        ensures
            opt_xv(r) == ret_of(body@),
    {
        let mut i: usize = 0;
        assert(body@.skip(0) =~= body@);
        while i < body.len()
            invariant
                i <= body@.len(),
                ret_of(body@) == ret_of(body@.skip(i as int)),
            decreases body.len() - i,
        {
            assert(body@.skip(i as int)[0] == body@[i as int]);
            if let Stmt::Return(e) = &body[i] {
                return Some(copy_expr(e));
            }
            assert(body@.skip(i as int).skip(1) =~= body@.skip(i + 1));
            i += 1;
        }
        None
    }

    fn is_small_function(&self, f: &Function) -> (b: bool)
        ensures
            b == is_small(*f, self.threshold()),
    {
        size_stmts(&f.body) < self.inline_threshold
    }

    fn collect_small_functions(&mut self, fs: &Vec<Function>)
        ensures
            final(self).threshold() == old(self).threshold(),
            final(self).table() == old(self).table() + collected(fs@, old(self).threshold()),
    {
        let ghost thr = self.threshold();
        let mut i: usize = 0;
        assert(fs@.take(0) =~= seq![]);
        assert(old(self).table() + collected(fs@.take(0), thr) =~= old(self).table());
        while i < fs.len()
            invariant
                i <= fs@.len(),
                self.threshold() == thr,
                thr == old(self).threshold(),
                self.table() == old(self).table() + collected(fs@.take(i as int), thr),
            decreases fs.len() - i,
        {
            assert(fs@.take(i + 1).drop_last() =~= fs@.take(i as int));
            if self.is_small_function(&fs[i]) {
                let ghost t0 = self.table();
                let name = fs[i].name.clone();
                let ret = Self::first_return(&fs[i].body);
                self.inlined_functions.push((name, ret));
                assert(self.table() =~= t0.push((fs@[i as int].name@, ret_of(fs@[i as int].body@))));
                assert(self.table() =~= old(self).table() + collected(fs@.take(i + 1), thr));
            }
            i += 1;
        }
        assert(fs@.take(fs.len() as int) =~= fs@);
    }

    /// Inlines small functions into `program`: the small functions are
    /// added to the table, every body is inlined with at most as many
    /// nested expansions as the table has entries, and the functions that
    /// the table names are dropped. `None` when an expansion nests deeper:
    /// such a chain meets some function inside its own expansion, whose
    /// inlining never ends.
    pub fn try_inline(&mut self, program: Program) -> (r: Option<Program>)
        ensures
            final(self).threshold() == old(self).threshold(),
            final(self).table() == table_after(old(self).table(), program, old(self).threshold()),
            (r is Some) == program_ends(final(self).table(), program, final(self).table().len()),
            r matches Some(q) ==> program_inl(final(self).table(), program, q, final(self).table().len()),
    {
        self.collect_small_functions(&program.functions);
        let fuel = self.inlined_functions.len();
        let ghost t = self.table();
        let ghost p = program;
        assert(t == table_after(old(self).table(), p, old(self).threshold()));
        let Program { components, functions, imports, exports, css } = program;
        let ghost cs0 = components@;
        let mut rest = components;
        let mut new_components: Vec<Component> = Vec::new();
        while rest.len() > 0
            invariant
                t == self.table(),
                t == table_after(old(self).table(), p, old(self).threshold()),
                self.threshold() == old(self).threshold(),
                p == program,
                fuel == t.len(),
                cs0 == p.components@,
                new_components@.len() + rest@.len() == cs0.len(),
                rest@ == cs0.skip(new_components@.len() as int),
                forall|i: int| 0 <= i < new_components@.len() ==> stmts_end(t, (#[trigger] cs0[i]).body@, fuel as nat),
                forall|i: int|
                    0 <= i < new_components@.len() ==> component_inl(t, cs0[i], #[trigger] new_components@[i], fuel as nat),
            decreases rest.len(),
        {
            let ghost k = new_components@.len() as int;
            let c = rest.remove(0);
            assert(c == cs0[k]);
            let Component { name, params, body, signals, computed, effects, css_scope } = c;
            let body = match self.inline_stmts(body, fuel) {
                Some(b) => b,
                None => {
                    assert(!stmts_end(t, p.components@[k].body@, fuel as nat));
                    return None;
                },
            };
            new_components.push(Component { name, params, body, signals, computed, effects, css_scope });
            assert(rest@ =~= cs0.skip(new_components@.len() as int));
        }
        let ghost fs0 = functions@;
        let mut rest_f = functions;
        let mut new_functions: Vec<Function> = Vec::new();
        let mut k: usize = 0;
        let total: usize = rest_f.len();
        assert(fs0.take(0) =~= seq![]);
        while rest_f.len() > 0
            invariant
                t == self.table(),
                t == table_after(old(self).table(), p, old(self).threshold()),
                self.threshold() == old(self).threshold(),
                p == program,
                fuel == t.len(),
                fs0 == p.functions@,
                fs0.len() == total,
                k + rest_f@.len() == fs0.len(),
                rest_f@ == fs0.skip(k as int),
                forall|i: int| 0 <= i < k ==> stmts_end(t, (#[trigger] fs0[i]).body@, fuel as nat),
                new_functions@.len() == kept(fs0.take(k as int), t).len(),
                forall|i: int|
                    0 <= i < new_functions@.len() ==> function_inl(
                        t,
                        kept(fs0.take(k as int), t)[i],
                        #[trigger] new_functions@[i],
                        fuel as nat,
                    ),
            decreases rest_f.len(),
        {
            let f = rest_f.remove(0);
            assert(f == fs0[k as int]);
            assert(fs0.take(k + 1).drop_last() =~= fs0.take(k as int));
            let known = self.find(&f.name).is_some();
            let Function { name, params, body, return_type, is_async } = f;
            let body = match self.inline_stmts(body, fuel) {
                Some(b) => b,
                None => {
                    assert(!stmts_end(t, p.functions@[k as int].body@, fuel as nat));
                    return None;
                },
            };
            if !known {
                let ghost n0 = new_functions@;
                new_functions.push(Function { name, params, body, return_type, is_async });
                assert(forall|i: int| 0 <= i < n0.len() ==> new_functions@[i] == n0[i]);
            }
            k += 1;
            assert(rest_f@ =~= fs0.skip(k as int));
        }
        assert(fs0.take(k as int) =~= fs0);
        Some(Program { components: new_components, functions: new_functions, imports, exports, css })
    }

    /// Inlines small functions into `program`, where every inlining ends
    /// (see `try_inline`).
    pub fn inline(&mut self, program: Program) -> (r: Program)
        requires
            program_ends(
                table_after(old(self).table(), program, old(self).threshold()),
                program,
                table_after(old(self).table(), program, old(self).threshold()).len(),
            ),
        ensures
            final(self).threshold() == old(self).threshold(),
            final(self).table() == table_after(old(self).table(), program, old(self).threshold()),
            program_inl(final(self).table(), program, r, final(self).table().len()),
    {
        match self.try_inline(program) {
            Some(q) => q,
            None => Program::default(),
        }
    }
}

}
