//! Constant folding: operations on literals are computed, and branches on
//! constant conditions are taken or dropped. Arithmetic on numbers is
//! floating point and is supplied by the caller.
use vstd::prelude::*;
use crate::ast::{
    Program, Component, Function, Stmt, IfStmt, AssignStmt, VarStmt, Expr, BinaryExpr, BinaryOp, UnaryExpr, UnaryOp,
    LiteralExpr, LiteralValue, CallExpr,
};
use crate::text::{owned, push_str, push_string};
use crate::parser::rules::{LitTree, lit_tree};

verus! {

/// Number arithmetic is supplied by the caller as two functions on the
/// texts of number literals: `bin(op, a, b)` for `+`, `-`, `*` and `/`,
/// `neg(a)` for `-a`, each returning the text of the result. They can be
/// called on any texts and give one text for equal texts.
pub open spec fn arith_ok<B: Fn(BinaryOp, String, String) -> String, G: Fn(String) -> String>(bin: B, neg: G) -> bool {
    &&& forall|op: BinaryOp, x: String, y: String| #[trigger] call_requires(bin, (op, x, y))
    &&& forall|x: String| #[trigger] call_requires(neg, (x,))
    &&& forall|op: BinaryOp, x: String, y: String, x2: String, y2: String, r: String, r2: String|
        #![trigger call_ensures(bin, (op, x, y), r), call_ensures(bin, (op, x2, y2), r2)]
        x@ == x2@ && y@ == y2@ && call_ensures(bin, (op, x, y), r) && call_ensures(bin, (op, x2, y2), r2) ==> r@ == r2@
    &&& forall|x: String, x2: String, r: String, r2: String|
        #![trigger call_ensures(neg, (x,), r), call_ensures(neg, (x2,), r2)]
        x@ == x2@ && call_ensures(neg, (x,), r) && call_ensures(neg, (x2,), r2) ==> r@ == r2@
}

/// The text `bin` gives for an operation on two number texts.
pub open spec fn bin_text<B: Fn(BinaryOp, String, String) -> String>(bin: B, op: BinaryOp, a: Seq<char>, b: Seq<char>) -> Seq<char> {
    (choose|t: (String, String, String)| t.0@ == a && t.1@ == b && #[trigger] call_ensures(bin, (op, t.0, t.1), t.2)).2@
}

/// The text `neg` gives for a number text.
pub open spec fn neg_text<G: Fn(String) -> String>(neg: G, a: Seq<char>) -> Seq<char> {
    (choose|t: (String, String)| t.0@ == a && #[trigger] call_ensures(neg, (t.0,), t.1)).1@
}

proof fn lemma_bin_text<B: Fn(BinaryOp, String, String) -> String, G: Fn(String) -> String>(bin: B, neg: G, op: BinaryOp, x: String, y: String, r: String)
    requires
        arith_ok(bin, neg),
        call_ensures(bin, (op, x, y), r),
    ensures
        r@ == bin_text(bin, op, x@, y@),
{
    let w = (x, y, r);
    assert(w.0@ == x@ && w.1@ == y@ && call_ensures(bin, (op, w.0, w.1), w.2));
    let t = choose|t: (String, String, String)| t.0@ == x@ && t.1@ == y@ && #[trigger] call_ensures(bin, (op, t.0, t.1), t.2);
    assert(call_ensures(bin, (op, x, y), r) && call_ensures(bin, (op, t.0, t.1), t.2));
}

proof fn lemma_neg_text<B: Fn(BinaryOp, String, String) -> String, G: Fn(String) -> String>(bin: B, neg: G, x: String, r: String)
    requires
        arith_ok(bin, neg),
        call_ensures(neg, (x,), r),
    ensures
        r@ == neg_text(neg, x@),
{
    let w = (x, r);
    assert(w.0@ == x@ && call_ensures(neg, (w.0,), w.1));
    let t = choose|t: (String, String)| t.0@ == x@ && #[trigger] call_ensures(neg, (t.0,), t.1);
    assert(call_ensures(neg, (x,), r) && call_ensures(neg, (t.0,), t.1));
}

pub open spec fn bool_raw(b: bool) -> Seq<char> {
    if b { "true"@ } else { "false"@ }
}

pub open spec fn is_arith(op: BinaryOp) -> bool {
    op == BinaryOp::Add || op == BinaryOp::Sub || op == BinaryOp::Mul || op == BinaryOp::Div
}

/// What folding looks at in a literal: a number, a string, a boolean, or
/// something else.
pub enum Kind {
    Num(Seq<char>),
    Str(Seq<char>),
    Bool(bool),
    Other,
}

pub open spec fn kind_of(v: LiteralValue) -> Kind {
    match v {
        LiteralValue::Number(n) => Kind::Num(n@),
        LiteralValue::String(s) => Kind::Str(s@),
        LiteralValue::Boolean(b) => Kind::Bool(b),
        _ => Kind::Other,
    }
}

pub open spec fn kind_of_tree(v: LitTree) -> Kind {
    match v {
        LitTree::Num(n) => Kind::Num(n),
        LitTree::Str(s) => Kind::Str(s),
        LitTree::Bool(b) => Kind::Bool(b),
        _ => Kind::Other,
    }
}

/// The result of folding an expression; expressions that folding leaves
/// alone are `Kept`.
pub enum Folded {
    Lit(LitTree, Seq<char>),
    Binary(Box<Folded>, BinaryOp, Box<Folded>),
    Unary(UnaryOp, Box<Folded>),
    Ternary(Box<Folded>, Box<Folded>, Box<Folded>),
    Call(Box<Folded>, Seq<Folded>),
    Kept(Expr),
}

/// A number literal with this text.
pub open spec fn number_folded(t: Seq<char>) -> Folded {
    Folded::Lit(LitTree::Num(t), t)
}

pub open spec fn null_folded() -> Folded {
    Folded::Lit(LitTree::Null, "null"@)
}

pub open spec fn bool_folded(b: bool) -> Folded {
    Folded::Lit(LitTree::Bool(b), bool_raw(b))
}

/// The kind of a folded expression that is a literal.
pub open spec fn fkind(f: Folded) -> Option<Kind> {
    match f {
        Folded::Lit(v, _) => Some(kind_of_tree(v)),
        Folded::Kept(e) => match e {
            Expr::Literal(l) => Some(kind_of(l.value)),
            _ => None,
        },
        _ => None,
    }
}

/// An operation on two literals: arithmetic on numbers gives the number
/// that `bin` gives for their texts,
/// `+` on strings joins them (quoted in the raw text), `==`, `and` and
/// `or` on booleans give a boolean, and anything else gives `null`.
pub open spec fn eval2<B: Fn(BinaryOp, String, String) -> String, G: Fn(String) -> String>(bin: B, neg: G, a: Kind, b: Kind, op: BinaryOp) -> Folded {
    match (a, b) {
        (Kind::Num(x), Kind::Num(y)) => if is_arith(op) { number_folded(bin_text(bin, op, x, y)) } else { null_folded() },
        (Kind::Str(x), Kind::Str(y)) => if op == BinaryOp::Add {
            Folded::Lit(LitTree::Str(x + y), seq!['"'] + x + y + seq!['"'])
        } else {
            null_folded()
        },
        (Kind::Bool(x), Kind::Bool(y)) => if op == BinaryOp::Eq {
            bool_folded(x == y)
        } else if op == BinaryOp::And {
            bool_folded(x && y)
        } else if op == BinaryOp::Or {
            bool_folded(x || y)
        } else {
            null_folded()
        },
        _ => null_folded(),
    }
}

/// An operation on one literal: `-` on a number (by `neg`), `not` on a boolean, and
/// `null` otherwise.
pub open spec fn eval1<B: Fn(BinaryOp, String, String) -> String, G: Fn(String) -> String>(bin: B, neg: G, a: Kind, op: UnaryOp) -> Folded {
    match a {
        Kind::Num(x) => if op == UnaryOp::Neg { number_folded(neg_text(neg, x)) } else { null_folded() },
        Kind::Bool(b) => if op == UnaryOp::Not { bool_folded(!b) } else { null_folded() },
        _ => null_folded(),
    }
}

pub open spec fn ftrue(f: Folded) -> bool {
    fkind(f) == Some(Kind::Bool(true))
}

pub open spec fn ffalse(f: Folded) -> bool {
    fkind(f) == Some(Kind::Bool(false))
}

/// What folding `e` gives: operands are folded first; operations on
/// literals become literals; a conditional on a constant becomes the
/// branch taken; calls fold their callee and arguments; anything else
/// stays as it is.
pub open spec fn fold_tree<B: Fn(BinaryOp, String, String) -> String, G: Fn(String) -> String>(bin: B, neg: G, e: Expr) -> Folded
    decreases e,
{
    match e {
        Expr::Literal(l) => Folded::Lit(lit_tree(l.value), l.raw@),
        Expr::Binary(b) => {
            let l = fold_tree(bin, neg, *b.left);
            let x = fold_tree(bin, neg, *b.right);
            match (fkind(l), fkind(x)) {
                (Some(a), Some(c)) => eval2(bin, neg, a, c, b.op),
                _ => Folded::Binary(Box::new(l), b.op, Box::new(x)),
            }
        },
        Expr::Unary(u) => {
            let x = fold_tree(bin, neg, *u.expr);
            match fkind(x) {
                Some(a) => eval1(bin, neg, a, u.op),
                None => Folded::Unary(u.op, Box::new(x)),
            }
        },
        Expr::Ternary(c, t, f) => {
            let fc = fold_tree(bin, neg, *c);
            if ftrue(fc) {
                fold_tree(bin, neg, *t)
            } else if ffalse(fc) {
                fold_tree(bin, neg, *f)
            } else {
                Folded::Ternary(Box::new(fc), Box::new(fold_tree(bin, neg, *t)), Box::new(fold_tree(bin, neg, *f)))
            }
        },
        Expr::Call(c) => Folded::Call(Box::new(fold_tree(bin, neg, *c.callee)), fold_trees(bin, neg, c.args@)),
        _ => Folded::Kept(e),
    }
}

pub open spec fn fold_trees<B: Fn(BinaryOp, String, String) -> String, G: Fn(String) -> String>(bin: B, neg: G, s: Seq<Expr>) -> Seq<Folded>
    decreases s,
{
    if s.len() == 0 {
        seq![]
    } else {
        fold_trees(bin, neg, s.drop_last()).push(fold_tree(bin, neg, s.last()))
    }
}

/// `r` is an expression that `f` describes.
pub open spec fn conforms(r: Expr, f: Folded) -> bool
    decreases f,
{
    match f {
        Folded::Lit(v, raw) => r matches Expr::Literal(l) && lit_tree(l.value) == v && l.raw@ == raw,
        Folded::Binary(a, op, b) => r matches Expr::Binary(rb) && rb.op == op && conforms(*rb.left, *a) && conforms(
            *rb.right,
            *b,
        ),
        Folded::Unary(op, a) => r matches Expr::Unary(ru) && ru.op == op && conforms(*ru.expr, *a),
        Folded::Ternary(a, b, c) => r matches Expr::Ternary(x, y, z) && conforms(*x, *a) && conforms(*y, *b) && conforms(
            *z,
            *c,
        ),
        Folded::Call(a, args) => r matches Expr::Call(rc) && conforms(*rc.callee, *a) && conforms_all(rc.args@, args),
        Folded::Kept(e) => r == e,
    }
}

pub open spec fn conforms_all(rs: Seq<Expr>, fs: Seq<Folded>) -> bool
    decreases fs,
{
    if fs.len() == 0 {
        rs.len() == 0
    } else {
        rs.len() == fs.len() && conforms_all(rs.drop_last(), fs.drop_last()) && conforms(rs.last(), fs.last())
    }
}

/// An expression that `f` describes is a literal exactly when `f` says
/// so, and of the kind it says.
pub proof fn lemma_conforms_kind(r: Expr, f: Folded)
    requires
        conforms(r, f),
    ensures
        (fkind(f) is Some) == (r is Literal),
        r is Literal ==> fkind(f) == Some(kind_of(r->Literal_0.value)),
{
    match f {
        Folded::Lit(v, raw) => {
            let l = r->Literal_0;
            assert(kind_of_tree(lit_tree(l.value)) == kind_of(l.value));
        },
        _ => {},
    }
}

pub open spec fn const_bool(e: Expr, b: bool) -> bool {
    e matches Expr::Literal(l) && l.value == LiteralValue::Boolean(b)
}

/// `r` is what folding the statement `s` gives: expressions in it are
/// folded; an `if` on constant `false` becomes its `else` block (or an
/// empty one), on constant `true` its body as it is; blocks fold their
/// statements; other statements stay.
pub open spec fn stmt_folds<B: Fn(BinaryOp, String, String) -> String, G: Fn(String) -> String>(bin: B, neg: G, s: Stmt, r: Stmt) -> bool
    decreases s,
{
    match s {
        Stmt::Expr(e) => r matches Stmt::Expr(x) && conforms(x, fold_tree(bin, neg, e)),
        Stmt::Return(e) => r matches Stmt::Return(x) && conforms(x, fold_tree(bin, neg, e)),
        Stmt::Assign(a) => r matches Stmt::Assign(a2) && a2.target == a.target && a2.op == a.op && conforms(
            a2.value,
            fold_tree(bin, neg, a.value),
        ),
        Stmt::Var(v) => r matches Stmt::Var(v2) && v2.name == v.name && v2.is_const == v.is_const && conforms(
            v2.value,
            fold_tree(bin, neg, v.value),
        ),
        Stmt::If(i) => {
            let fc = fold_tree(bin, neg, i.cond);
            if ffalse(fc) {
                r matches Stmt::Block(b) && match i.else_body {
                    Some(eb) => b == eb,
                    None => b@.len() == 0,
                }
            } else if ftrue(fc) {
                r == Stmt::Block(i.body)
            } else {
                r matches Stmt::If(i2) && conforms(i2.cond, fc) && stmts_fold(bin, neg, i.body@, i2.body@) && elifs_fold(bin, neg, 
                    i.else_if@,
                    i2.else_if@,
                ) && match (i.else_body, i2.else_body) {
                    (Some(x), Some(y)) => stmts_fold(bin, neg, x@, y@),
                    (None, None) => true,
                    _ => false,
                }
            }
        },
        Stmt::Block(b) => r matches Stmt::Block(b2) && stmts_fold(bin, neg, b@, b2@),
        _ => r == s,
    }
}

pub open spec fn stmts_fold<B: Fn(BinaryOp, String, String) -> String, G: Fn(String) -> String>(bin: B, neg: G, s: Seq<Stmt>, r: Seq<Stmt>) -> bool
    decreases s,
{
    if s.len() == 0 {
        r.len() == 0
    } else {
        r.len() == s.len() && stmts_fold(bin, neg, s.drop_last(), r.drop_last()) && stmt_folds(bin, neg, s.last(), r.last())
    }
}

pub open spec fn elifs_fold<B: Fn(BinaryOp, String, String) -> String, G: Fn(String) -> String>(bin: B, neg: G, s: Seq<(Expr, Vec<Stmt>)>, r: Seq<(Expr, Vec<Stmt>)>) -> bool
    decreases s,
{
    if s.len() == 0 {
        r.len() == 0
    } else {
        r.len() == s.len() && elifs_fold(bin, neg, s.drop_last(), r.drop_last()) && conforms(r.last().0, fold_tree(bin, neg, s.last().0))
            && stmts_fold(bin, neg, s.last().1@, r.last().1@)
    }
}

impl LiteralExpr {
    /// A number literal from its text.
    pub fn number(text: String) -> (l: LiteralExpr)
        ensures
            l.value matches LiteralValue::Number(n) && n@ == text@,
            l.raw@ == text@,
    {
        let raw = text.clone();
        LiteralExpr { value: LiteralValue::Number(text), raw }
    }
}

/// Folds constants; number arithmetic comes from the caller.
pub struct ConstantFolder {
    changed: bool,
}

impl ConstantFolder {
    pub closed spec fn changed(&self) -> bool {
        self.changed
    }

    pub fn new() -> (f: ConstantFolder)
        ensures
            !f.changed(),
    {
        ConstantFolder { changed: false }
    }

    /// Whether folding changed anything; folding never records a change,
    /// so this stays as `new` made it.
    pub fn has_changed(&self) -> (b: bool)
        ensures
            b == self.changed(),
    {
        self.changed
    }

    pub fn is_constant_true(&self, expr: &Expr) -> (b: bool)
        ensures
            b == const_bool(*expr, true),
    {
        match expr {
            Expr::Literal(l) => match &l.value {
                LiteralValue::Boolean(x) => *x,
                _ => false,
            },
            _ => false,
        }
    }

    pub fn is_constant_false(&self, expr: &Expr) -> (b: bool)
        ensures
            b == const_bool(*expr, false),
    {
        match expr {
            Expr::Literal(l) => match &l.value {
                LiteralValue::Boolean(x) => !*x,
                _ => false,
            },
            _ => false,
        }
    }

    /// The literal an operation on two literals folds to.
    pub fn eval_binary<B: Fn(BinaryOp, String, String) -> String, G: Fn(String) -> String>(&self, left: &LiteralValue, right: &LiteralValue, op: BinaryOp, bin: &B, neg: &G) -> (r: Expr)
        requires
            arith_ok(*bin, *neg),
        ensures
            conforms(r, eval2(*bin, *neg, kind_of(*left), kind_of(*right), op)),
    {
        match (left, right) {
            (LiteralValue::Number(a), LiteralValue::Number(b)) => match op {
                BinaryOp::Add | BinaryOp::Sub | BinaryOp::Mul | BinaryOp::Div => {
                    let text = bin(op, a.clone(), b.clone());
                    proof {
                        lemma_bin_text(*bin, *neg, op, *a, *b, text);
                    }
                    Expr::Literal(LiteralExpr::number(text))
                },
                _ => Expr::Literal(LiteralExpr::null()),
            },
            (LiteralValue::String(a), LiteralValue::String(b)) => match op {
                BinaryOp::Add => {
                    let mut s = owned(a.as_str());
                    push_string(&mut s, b);
                    let l = LiteralExpr::string(s);
                    assert(l.raw@ =~= seq!['"'] + a@ + b@ + seq!['"']);
                    Expr::Literal(l)
                },
                _ => Expr::Literal(LiteralExpr::null()),
            },
            (LiteralValue::Boolean(a), LiteralValue::Boolean(b)) => match op {
                BinaryOp::Eq => Expr::Literal(LiteralExpr::boolean(*a == *b)),
                BinaryOp::And => Expr::Literal(LiteralExpr::boolean(*a && *b)),
                BinaryOp::Or => Expr::Literal(LiteralExpr::boolean(*a || *b)),
                _ => Expr::Literal(LiteralExpr::null()),
            },
            _ => Expr::Literal(LiteralExpr::null()),
        }
    }

    /// The literal an operation on one literal folds to.
    pub fn eval_unary<B: Fn(BinaryOp, String, String) -> String, G: Fn(String) -> String>(&self, value: &LiteralValue, op: UnaryOp, bin: &B, neg: &G) -> (r: Expr)
        requires
            arith_ok(*bin, *neg),
        ensures
            conforms(r, eval1(*bin, *neg, kind_of(*value), op)),
    {
        match value {
            LiteralValue::Number(n) => match op {
                UnaryOp::Neg => {
                    let text = neg(n.clone());
                    proof {
                        lemma_neg_text(*bin, *neg, *n, text);
                    }
                    Expr::Literal(LiteralExpr::number(text))
                },
                _ => Expr::Literal(LiteralExpr::null()),
            },
            LiteralValue::Boolean(b) => match op {
                UnaryOp::Not => Expr::Literal(LiteralExpr::boolean(!*b)),
                _ => Expr::Literal(LiteralExpr::null()),
            },
            _ => Expr::Literal(LiteralExpr::null()),
        }
    }
}

/// A component after folding: its body folded, all else as it was.
pub open spec fn component_folds<B: Fn(BinaryOp, String, String) -> String, G: Fn(String) -> String>(bin: B, neg: G, c: Component, r: Component) -> bool {
    &&& r.name == c.name
    &&& r.params == c.params
    &&& r.signals == c.signals
    &&& r.computed == c.computed
    &&& r.effects == c.effects
    &&& r.css_scope == c.css_scope
    &&& stmts_fold(bin, neg, c.body@, r.body@)
}

/// A function after folding: its body folded, all else as it was.
pub open spec fn function_folds<B: Fn(BinaryOp, String, String) -> String, G: Fn(String) -> String>(bin: B, neg: G, f: Function, r: Function) -> bool {
    &&& r.name == f.name
    &&& r.params == f.params
    &&& r.return_type == f.return_type
    &&& r.is_async == f.is_async
    &&& stmts_fold(bin, neg, f.body@, r.body@)
}

impl ConstantFolder {
    /// Folds the bodies of every component and function.
    pub fn fold<B: Fn(BinaryOp, String, String) -> String, G: Fn(String) -> String>(&mut self, program: Program, bin: &B, neg: &G) -> (r: Program)
        requires
            arith_ok(*bin, *neg),
        ensures
            final(self).changed() == old(self).changed(),
            r.components@.len() == program.components@.len(),
            forall|i: int| 0 <= i < r.components@.len() ==> component_folds(*bin, *neg, program.components@[i], #[trigger] r.components@[i]),
            r.functions@.len() == program.functions@.len(),
            forall|i: int| 0 <= i < r.functions@.len() ==> function_folds(*bin, *neg, program.functions@[i], #[trigger] r.functions@[i]),
            r.imports == program.imports,
            r.exports == program.exports,
            r.css == program.css,
    {
        let Program { components, functions, imports, exports, css } = program;
        let ghost cs0 = components@;
        let mut rest = components;
        let mut new_components: Vec<Component> = Vec::new();
        while rest.len() > 0
            invariant
                self.changed() == old(self).changed(),
                arith_ok(*bin, *neg),
                new_components@.len() + rest@.len() == cs0.len(),
                rest@ == cs0.skip(new_components@.len() as int),
                forall|i: int| 0 <= i < new_components@.len() ==> component_folds(*bin, *neg, cs0[i], #[trigger] new_components@[i]),
            decreases rest.len(),
        {
            let ghost k = new_components@.len() as int;
            let c = rest.remove(0);
            assert(c == cs0[k]);
            let Component { name, params, body, signals, computed, effects, css_scope } = c;
            let body = self.fold_stmts(body, bin, neg);
            new_components.push(Component { name, params, body, signals, computed, effects, css_scope });
            assert(rest@ =~= cs0.skip(new_components@.len() as int));
        }
        let ghost fs0 = functions@;
        let mut rest_f = functions;
        let mut new_functions: Vec<Function> = Vec::new();
        while rest_f.len() > 0
            invariant
                self.changed() == old(self).changed(),
                arith_ok(*bin, *neg),
                new_functions@.len() + rest_f@.len() == fs0.len(),
                rest_f@ == fs0.skip(new_functions@.len() as int),
                forall|i: int| 0 <= i < new_functions@.len() ==> function_folds(*bin, *neg, fs0[i], #[trigger] new_functions@[i]),
            decreases rest_f.len(),
        {
            let ghost k = new_functions@.len() as int;
            let f = rest_f.remove(0);
            assert(f == fs0[k]);
            let Function { name, params, body, return_type, is_async } = f;
            let body = self.fold_stmts(body, bin, neg);
            new_functions.push(Function { name, params, body, return_type, is_async });
            assert(rest_f@ =~= fs0.skip(new_functions@.len() as int));
        }
        Program { components: new_components, functions: new_functions, imports, exports, css }
    }

    /// Folds each statement in turn.
    #[verifier::loop_isolation(false)]
    pub fn fold_stmts<B: Fn(BinaryOp, String, String) -> String, G: Fn(String) -> String>(&mut self, stmts: Vec<Stmt>, bin: &B, neg: &G) -> (r: Vec<Stmt>)
        requires
            arith_ok(*bin, *neg),
        ensures
            final(self).changed() == old(self).changed(),
            stmts_fold(*bin, *neg, stmts@, r@),
        decreases stmts,
    {
        let ghost s0 = stmts@;
        let ghost whole = stmts;
        let mut rest = stmts;
        let mut out: Vec<Stmt> = Vec::new();
        while rest.len() > 0
            invariant
                self.changed() == old(self).changed(),
                whole@ == s0,
                out@.len() + rest@.len() == s0.len(),
                rest@ == s0.skip(out@.len() as int),
                stmts_fold(*bin, *neg, s0.take(out@.len() as int), out@),
            decreases rest.len(),
        {
            let ghost k = out@.len() as int;
            let st = rest.remove(0);
            assert(st == s0[k]);
            proof {
                assert(decreases_to!(whole => whole@));
                assert(decreases_to!(whole@ => whole@[k]));
            }
            let f = self.fold_stmt(st, bin, neg);
            let ghost o0 = out@;
            out.push(f);
            assert(s0.take(k + 1).drop_last() =~= s0.take(k));
            assert(out@.drop_last() =~= o0);
            assert(rest@ =~= s0.skip(out@.len() as int));
        }
        assert(s0.take(s0.len() as int) =~= s0);
        out
    }

    #[verifier::loop_isolation(false)]
    fn fold_elifs<B: Fn(BinaryOp, String, String) -> String, G: Fn(String) -> String>(&mut self, elifs: Vec<(Expr, Vec<Stmt>)>, bin: &B, neg: &G) -> (r: Vec<(Expr, Vec<Stmt>)>)
        requires
            arith_ok(*bin, *neg),
        ensures
            final(self).changed() == old(self).changed(),
            elifs_fold(*bin, *neg, elifs@, r@),
        decreases elifs,
    {
        let ghost s0 = elifs@;
        let ghost whole = elifs;
        let mut rest = elifs;
        let mut out: Vec<(Expr, Vec<Stmt>)> = Vec::new();
        while rest.len() > 0
            invariant
                self.changed() == old(self).changed(),
                whole@ == s0,
                out@.len() + rest@.len() == s0.len(),
                rest@ == s0.skip(out@.len() as int),
                elifs_fold(*bin, *neg, s0.take(out@.len() as int), out@),
            decreases rest.len(),
        {
            let ghost k = out@.len() as int;
            let (c, b) = rest.remove(0);
            assert(c == s0[k].0 && b == s0[k].1);
            proof {
                assert(decreases_to!(whole => whole@));
                assert(decreases_to!(whole@ => whole@[k]));
                assert(decreases_to!(whole@[k] => whole@[k].1));
            }
            let fc = self.fold_expr(c, bin, neg);
            let fb = self.fold_stmts(b, bin, neg);
            let ghost o0 = out@;
            out.push((fc, fb));
            assert(s0.take(k + 1).drop_last() =~= s0.take(k));
            assert(out@.drop_last() =~= o0);
            assert(rest@ =~= s0.skip(out@.len() as int));
        }
        assert(s0.take(s0.len() as int) =~= s0);
        out
    }

    /// Folds the expressions of a statement; an `if` on a constant
    /// condition becomes the block that runs.
    pub fn fold_stmt<B: Fn(BinaryOp, String, String) -> String, G: Fn(String) -> String>(&mut self, stmt: Stmt, bin: &B, neg: &G) -> (r: Stmt)
        requires
            arith_ok(*bin, *neg),
        ensures
            final(self).changed() == old(self).changed(),
            stmt_folds(*bin, *neg, stmt, r),
        decreases stmt,
    {
        match stmt {
            Stmt::Expr(e) => Stmt::Expr(self.fold_expr(e, bin, neg)),
            Stmt::Return(e) => Stmt::Return(self.fold_expr(e, bin, neg)),
            Stmt::Assign(a) => {
                let AssignStmt { target, value, op } = a;
                let value = self.fold_expr(value, bin, neg);
                Stmt::Assign(AssignStmt { target, value, op })
            },
            Stmt::Var(v) => {
                let VarStmt { name, value, is_const } = v;
                let value = self.fold_expr(value, bin, neg);
                Stmt::Var(VarStmt { name, value, is_const })
            },
            Stmt::If(i) => {
                let ghost i0 = i;
                let IfStmt { cond, body, else_if, else_body } = i;
                let fc = self.fold_expr(cond, bin, neg);
                proof {
                    lemma_conforms_kind(fc, fold_tree(*bin, *neg, i0.cond));
                }
                if self.is_constant_false(&fc) {
                    return match else_body {
                        Some(eb) => Stmt::Block(eb),
                        None => Stmt::Block(Vec::new()),
                    };
                }
                if self.is_constant_true(&fc) {
                    return Stmt::Block(body);
                }
                let fbody = self.fold_stmts(body, bin, neg);
                let felifs = self.fold_elifs(else_if, bin, neg);
                let felse = match else_body {
                    Some(b) => Some(self.fold_stmts(b, bin, neg)),
                    None => None,
                };
                Stmt::If(IfStmt { cond: fc, body: fbody, else_if: felifs, else_body: felse })
            },
            Stmt::Block(b) => Stmt::Block(self.fold_stmts(b, bin, neg)),
            other => other,
        }
    }

    /// Folds operations on literals, after folding their operands.
    pub fn fold_expr<B: Fn(BinaryOp, String, String) -> String, G: Fn(String) -> String>(&mut self, expr: Expr, bin: &B, neg: &G) -> (r: Expr)
        requires
            arith_ok(*bin, *neg),
        ensures
            final(self).changed() == old(self).changed(),
            conforms(r, fold_tree(*bin, *neg, expr)),
        decreases expr,
    {
        match expr {
            Expr::Binary(b) => {
                let BinaryExpr { left, right, op } = b;
                let l = self.fold_expr(*left, bin, neg);
                let x = self.fold_expr(*right, bin, neg);
                proof {
                    lemma_conforms_kind(l, fold_tree(*bin, *neg, *left));
                    lemma_conforms_kind(x, fold_tree(*bin, *neg, *right));
                }
                match (l, x) {
                    (Expr::Literal(a), Expr::Literal(c)) => self.eval_binary(&a.value, &c.value, op, bin, neg),
                    (l, x) => Expr::Binary(BinaryExpr { left: Box::new(l), right: Box::new(x), op }),
                }
            },
            Expr::Unary(u) => {
                let UnaryExpr { op, expr: inner } = u;
                let x = self.fold_expr(*inner, bin, neg);
                proof {
                    lemma_conforms_kind(x, fold_tree(*bin, *neg, *inner));
                }
                match x {
                    Expr::Literal(a) => self.eval_unary(&a.value, op, bin, neg),
                    x => Expr::Unary(UnaryExpr { op, expr: Box::new(x) }),
                }
            },
            Expr::Ternary(c, t, f) => {
                let fc = self.fold_expr(*c, bin, neg);
                proof {
                    lemma_conforms_kind(fc, fold_tree(*bin, *neg, *c));
                }
                if self.is_constant_true(&fc) {
                    self.fold_expr(*t, bin, neg)
                } else if self.is_constant_false(&fc) {
                    self.fold_expr(*f, bin, neg)
                } else {
                    let ft = self.fold_expr(*t, bin, neg);
                    let ff = self.fold_expr(*f, bin, neg);
                    Expr::Ternary(Box::new(fc), Box::new(ft), Box::new(ff))
                }
            },
            Expr::Call(call) => {
                let CallExpr { callee, args } = call;
                let fcallee = self.fold_expr(*callee, bin, neg);
                let fargs = self.fold_exprs(args, bin, neg);
                Expr::Call(CallExpr { callee: Box::new(fcallee), args: fargs })
            },
            Expr::Literal(l) => Expr::Literal(l),
            other => other,
        }
    }

    #[verifier::loop_isolation(false)]
    fn fold_exprs<B: Fn(BinaryOp, String, String) -> String, G: Fn(String) -> String>(&mut self, exprs: Vec<Expr>, bin: &B, neg: &G) -> (r: Vec<Expr>)
        requires
            arith_ok(*bin, *neg),
        ensures
            final(self).changed() == old(self).changed(),
            conforms_all(r@, fold_trees(*bin, *neg, exprs@)),
        decreases exprs,
    {
        let ghost s0 = exprs@;
        let ghost whole = exprs;
        let mut rest = exprs;
        let mut out: Vec<Expr> = Vec::new();
        while rest.len() > 0
            invariant
                self.changed() == old(self).changed(),
                whole@ == s0,
                out@.len() + rest@.len() == s0.len(),
                rest@ == s0.skip(out@.len() as int),
                conforms_all(out@, fold_trees(*bin, *neg, s0.take(out@.len() as int))),
            decreases rest.len(),
        {
            let ghost k = out@.len() as int;
            let e = rest.remove(0);
            assert(e == s0[k]);
            proof {
                assert(decreases_to!(whole => whole@));
                assert(decreases_to!(whole@ => whole@[k]));
            }
            let f = self.fold_expr(e, bin, neg);
            let ghost o0 = out@;
            out.push(f);
            proof {
                let t = s0.take(k + 1);
                assert(t.drop_last() =~= s0.take(k));
                assert(t.last() == s0[k]);
                assert(fold_trees(*bin, *neg, t) == fold_trees(*bin, *neg, s0.take(k)).push(fold_tree(*bin, *neg, s0[k])));
                assert(fold_trees(*bin, *neg, t).drop_last() =~= fold_trees(*bin, *neg, s0.take(k)));
                assert(out@.drop_last() =~= o0);
            }
            assert(rest@ =~= s0.skip(out@.len() as int));
        }
        assert(s0.take(s0.len() as int) =~= s0);
        out
    }
}

} // verus!
