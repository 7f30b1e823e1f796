//! Signal borrow checking: a signal may not be read while an assignment
//! holds it, nor assigned while a read holds it.
use vstd::prelude::*;
use crate::ast::{Program, Component, Stmt, Expr, ObjectProp, Signal};
use crate::text::{owned, push_str, push_string, str_eq, views, set_add, set_insert, contains_string};

verus! {

#[derive(Debug, Clone, Copy, PartialEq, Eq, Structural)]
pub enum BorrowKind {
    Shared,
    Mutable,
    Owned,
}

/// A signal held by a read (`Shared`) or an assignment (`Mutable`), and the
/// scope depth at which it was taken.
#[derive(Debug)]
pub struct Borrow {
    pub name: String,
    pub kind: BorrowKind,
    pub scope: usize,
}

impl Borrow {
    pub open spec fn spec_view(&self) -> (Seq<char>, BorrowKind, int) {
        (self.name@, self.kind, self.scope as int)
    }
}

/// What the checker keeps: the borrows (one per signal), the signals, the
/// errors and the scope depth.
pub struct BorrowState {
    pub borrows: Seq<(Seq<char>, BorrowKind, int)>,
    pub signals: Seq<Seq<char>>,
    pub errs: Seq<Seq<char>>,
    pub cur: int,
}

/// The last position of the borrow of `n`.
pub open spec fn b_pos(bs: Seq<(Seq<char>, BorrowKind, int)>, n: Seq<char>) -> Option<int>
    decreases bs.len(),
{
    if bs.len() == 0 {
        None
    } else if bs.last().0 == n {
        Some(bs.len() - 1)
    } else {
        b_pos(bs.drop_last(), n)
    }
}

/// Records the borrow of `n`: in place of an earlier one, else at the end.
pub open spec fn b_insert(bs: Seq<(Seq<char>, BorrowKind, int)>, n: Seq<char>, k: BorrowKind, sc: int) -> Seq<(Seq<char>, BorrowKind, int)> {
    match b_pos(bs, n) {
        Some(i) => bs.update(i, (n, k, sc)),
        None => bs.push((n, k, sc)),
    }
}

/// The borrows not taken at depth `x`.
pub open spec fn drop_scope(bs: Seq<(Seq<char>, BorrowKind, int)>, x: int) -> Seq<(Seq<char>, BorrowKind, int)>
    decreases bs.len(),
{
    if bs.len() == 0 {
        seq![]
    } else if bs.last().2 == x {
        drop_scope(bs.drop_last(), x)
    } else {
        drop_scope(bs.drop_last(), x).push(bs.last())
    }
}

pub open spec fn read_msg(n: Seq<char>) -> Seq<char> {
    "Cannot read signal '"@ + n + "' while mutably borrowed"@
}

pub open spec fn mut_msg(n: Seq<char>) -> Seq<char> {
    "Cannot mutate signal '"@ + n + "' while borrowed as shared"@
}

pub open spec fn with_errs(st: BorrowState, errs: Seq<Seq<char>>) -> BorrowState {
    BorrowState { borrows: st.borrows, signals: st.signals, errs: errs, cur: st.cur }
}

pub open spec fn with_borrows(st: BorrowState, bs: Seq<(Seq<char>, BorrowKind, int)>) -> BorrowState {
    BorrowState { borrows: bs, signals: st.signals, errs: st.errs, cur: st.cur }
}

/// Reading `n`: an error if an assignment holds it; a shared borrow if
/// nothing does; nothing for a name that is not a signal.
pub open spec fn read(st: BorrowState, n: Seq<char>) -> BorrowState {
    if st.signals.contains(n) {
        match b_pos(st.borrows, n) {
            Some(j) => if st.borrows[j].1 == BorrowKind::Mutable { with_errs(st, st.errs.push(read_msg(n))) } else { st },
            None => with_borrows(st, b_insert(st.borrows, n, BorrowKind::Shared, st.cur)),
        }
    } else {
        st
    }
}

/// Assigning `n`: an error if a read holds it; then a mutable borrow.
pub open spec fn write(st: BorrowState, n: Seq<char>) -> BorrowState {
    if st.signals.contains(n) {
        let s1 = match b_pos(st.borrows, n) {
            Some(j) => if st.borrows[j].1 == BorrowKind::Shared { with_errs(st, st.errs.push(mut_msg(n))) } else { st },
            None => st,
        };
        with_borrows(s1, b_insert(s1.borrows, n, BorrowKind::Mutable, s1.cur))
    } else {
        st
    }
}

pub open spec fn expr_bc(st: BorrowState, e: Expr) -> BorrowState
    decreases e,
{
    match e {
        Expr::Ident(i) => read(st, i.name@),
        Expr::Call(c) => exprs_bc(expr_bc(st, *c.callee), c.args@),
        Expr::Binary(b) => expr_bc(expr_bc(st, *b.left), *b.right),
        Expr::Unary(u) => expr_bc(st, *u.expr),
        Expr::Member(m) => expr_bc(st, *m.obj),
        Expr::Object(o) => props_bc(st, o.props@),
        Expr::Array(a) => exprs_bc(st, a.elements@),
        Expr::Lambda(l) => expr_bc(st, *l.body),
        Expr::Ternary(c, t, f) => expr_bc(expr_bc(expr_bc(st, *c), *t), *f),
        _ => st,
    }
}

pub open spec fn exprs_bc(st: BorrowState, s: Seq<Expr>) -> BorrowState
    decreases s,
{
    if s.len() == 0 { st } else { expr_bc(exprs_bc(st, s.drop_last()), s.last()) }
}

pub open spec fn props_bc(st: BorrowState, s: Seq<ObjectProp>) -> BorrowState
    decreases s,
{
    if s.len() == 0 { st } else { expr_bc(props_bc(st, s.drop_last()), s.last().value) }
}

/// One scope deeper (wrapping at the end of `usize`).
pub open spec fn enter(st: BorrowState) -> BorrowState {
    BorrowState {
        borrows: st.borrows,
        signals: st.signals,
        errs: st.errs,
        cur: if st.cur == usize::MAX { 0 } else { st.cur + 1 },
    }
}

/// Drops the borrows taken at the current depth and goes one scope up.
pub open spec fn exit(st: BorrowState) -> BorrowState {
    BorrowState {
        borrows: drop_scope(st.borrows, st.cur),
        signals: st.signals,
        errs: st.errs,
        cur: if st.cur > 0 { st.cur - 1 } else { st.cur },
    }
}

/// Checking a statement; `return` statements are not looked into.
pub open spec fn stmt_bc(st: BorrowState, s: Stmt) -> BorrowState
    decreases s,
{
    match s {
        Stmt::Expr(e) => expr_bc(st, e),
        Stmt::Assign(a) => expr_bc(write(st, a.target@), a.value),
        Stmt::Var(v) => expr_bc(st, v.value),
        Stmt::If(i) => {
            let s3 = elifs_bc(stmts_bc(expr_bc(st, i.cond), i.body@), i.else_if@);
            match i.else_body {
                Some(b) => stmts_bc(s3, b@),
                None => s3,
            }
        },
        Stmt::For(f) => exit(stmts_bc(enter(expr_bc(st, f.iter)), f.body@)),
        Stmt::While(w) => stmts_bc(expr_bc(st, w.cond), w.body@),
        Stmt::Block(b) => stmts_bc(st, b@),
        Stmt::Return(_) => st,
    }
}

pub open spec fn stmts_bc(st: BorrowState, s: Seq<Stmt>) -> BorrowState
    decreases s,
{
    if s.len() == 0 { st } else { stmt_bc(stmts_bc(st, s.drop_last()), s.last()) }
}

pub open spec fn elifs_bc(st: BorrowState, s: Seq<(Expr, Vec<Stmt>)>) -> BorrowState
    decreases s,
{
    if s.len() == 0 { st } else { stmts_bc(expr_bc(elifs_bc(st, s.drop_last()), s.last().0), s.last().1@) }
}

pub open spec fn add_signals(st: BorrowState, s: Seq<Signal>) -> BorrowState
    decreases s.len(),
{
    if s.len() == 0 {
        st
    } else {
        let p = add_signals(st, s.drop_last());
        BorrowState { borrows: p.borrows, signals: set_add(p.signals, s.last().name@), errs: p.errs, cur: p.cur }
    }
}

pub open spec fn component_bc(st: BorrowState, c: Component) -> BorrowState {
    stmts_bc(add_signals(st, c.signals@), c.body@)
}

pub open spec fn components_bc(st: BorrowState, s: Seq<Component>) -> BorrowState
    decreases s.len(),
{
    if s.len() == 0 { st } else { component_bc(components_bc(st, s.drop_last()), s.last()) }
}

pub struct BorrowChecker {
    borrows: Vec<Borrow>,
    signals: Vec<String>,
    errors: Vec<String>,
    current_scope: usize,
}

pub open spec fn borrow_views(s: Seq<Borrow>) -> Seq<(Seq<char>, BorrowKind, int)> {
    s.map_values(|b: Borrow| b.spec_view())
}

/// The position of the borrow of `n`.
fn borrow_index(v: &Vec<Borrow>, n: &str) -> (r: Option<usize>)
    ensures
        match r {
            Some(j) => j < v.len() && b_pos(borrow_views(v@), n@) == Some(j as int),
            None => b_pos(borrow_views(v@), n@) is None,
        },
{
    let ghost bs = borrow_views(v@);
    let mut j: usize = v.len();
    assert(bs.take(j as int) =~= bs);
    while j > 0
        invariant
            j <= v.len(),
            bs == borrow_views(v@),
            b_pos(bs, n@) == b_pos(bs.take(j as int), n@),
        decreases j,
    {
        assert(bs.take(j as int).drop_last() =~= bs.take(j - 1));
        assert(bs.take(j as int).last() == bs[j - 1]);
        if str_eq(v[j - 1].name.as_str(), n) {
            return Some(j - 1);
        }
        j -= 1;
    }
    assert(bs.take(0) =~= Seq::<(Seq<char>, BorrowKind, int)>::empty());
    None
}

impl BorrowChecker {
    pub closed spec fn state(&self) -> BorrowState {
        BorrowState {
            borrows: borrow_views(self.borrows@),
            signals: views(self.signals@),
            errs: views(self.errors@),
            cur: self.current_scope as int,
        }
    }

    pub fn new() -> (b: BorrowChecker)
        ensures
            b.state().borrows.len() == 0,
            b.state().signals.len() == 0,
            b.state().errs.len() == 0,
            b.state().cur == 0,
    {
        BorrowChecker { borrows: Vec::new(), signals: Vec::new(), errors: Vec::new(), current_scope: 0 }
    }

    /// Checks every component.
    pub fn check(&mut self, program: &Program)
        ensures
            final(self).state() == components_bc(old(self).state(), program.components@),
    {
        let mut i: usize = 0;
        while i < program.components.len()
            invariant
                i <= program.components.len(),
                self.state() == components_bc(old(self).state(), program.components@.take(i as int)),
            decreases program.components.len() - i,
        {
            self.check_component(&program.components[i]);
            assert(program.components@.take(i + 1).drop_last() =~= program.components@.take(i as int));
            i += 1;
        }
        assert(program.components@.take(program.components.len() as int) =~= program.components@);
    }

    fn check_component(&mut self, component: &Component)
        ensures
            final(self).state() == component_bc(old(self).state(), *component),
    {
        let mut i: usize = 0;
        while i < component.signals.len()
            invariant
                i <= component.signals.len(),
                self.state() == add_signals(old(self).state(), component.signals@.take(i as int)),
            decreases component.signals.len() - i,
        {
            set_insert(&mut self.signals, component.signals[i].name.as_str());
            assert(component.signals@.take(i + 1).drop_last() =~= component.signals@.take(i as int));
            i += 1;
        }
        assert(component.signals@.take(component.signals.len() as int) =~= component.signals@);
        self.check_stmts(&component.body);
    }

    fn push_error(&mut self, m: String)
        ensures
            final(self).state() == with_errs(old(self).state(), old(self).state().errs.push(m@)),
    {
        let ghost e0 = self.errors@;
        self.errors.push(m);
        assert(views(self.errors@) =~= views(e0).push(m@));
    }

    /// Records the borrow of `n` with kind `k` at the current depth.
    fn put_borrow(&mut self, n: &str, k: BorrowKind)
        ensures
            final(self).state() == with_borrows(
                old(self).state(),
                b_insert(old(self).state().borrows, n@, k, old(self).state().cur),
            ),
    {
        let b = Borrow { name: owned(n), kind: k, scope: self.current_scope };
        let ghost v0 = self.borrows@;
        match borrow_index(&self.borrows, n) {
            Some(j) => {
                self.borrows.set(j, b);
                assert(borrow_views(self.borrows@) =~= borrow_views(v0).update(j as int, (n@, k, self.current_scope as int)));
            }
            None => {
                self.borrows.push(b);
                assert(borrow_views(self.borrows@) =~= borrow_views(v0).push((n@, k, self.current_scope as int)));
            }
        }
    }

    fn check_assign(&mut self, target: &str)
        ensures
            final(self).state() == write(old(self).state(), target@),
    {
        if contains_string(&self.signals, target) {
            match borrow_index(&self.borrows, target) {
                Some(j) => {
                    if self.borrows[j].kind == BorrowKind::Shared {
                        let mut m = owned("Cannot mutate signal '");
                        push_str(&mut m, target);
                        push_str(&mut m, "' while borrowed as shared");
                        self.push_error(m);
                    }
                }
                None => {}
            }
            self.put_borrow(target, BorrowKind::Mutable);
        }
    }

    fn check_read(&mut self, name: &str)
        ensures
            final(self).state() == read(old(self).state(), name@),
    {
        if contains_string(&self.signals, name) {
            match borrow_index(&self.borrows, name) {
                Some(j) => {
                    if self.borrows[j].kind == BorrowKind::Mutable {
                        let mut m = owned("Cannot read signal '");
                        push_str(&mut m, name);
                        push_str(&mut m, "' while mutably borrowed");
                        self.push_error(m);
                    }
                }
                None => {
                    self.put_borrow(name, BorrowKind::Shared);
                }
            }
        }
    }

    #[verifier::loop_isolation(false)]
    fn check_stmts(&mut self, stmts: &Vec<Stmt>)
        ensures
            final(self).state() == stmts_bc(old(self).state(), stmts@),
        decreases stmts,
    {
        let mut i: usize = 0;
        while i < stmts.len()
            invariant
                i <= stmts.len(),
                self.state() == stmts_bc(old(self).state(), stmts@.take(i as int)),
            decreases stmts.len() - i,
        {
            proof {
                assert(decreases_to!(stmts => stmts@));
                assert(decreases_to!(stmts@ => stmts@[i as int]));
            }
            self.check_stmt(&stmts[i]);
            assert(stmts@.take(i + 1).drop_last() =~= stmts@.take(i as int));
            i += 1;
        }
        assert(stmts@.take(stmts.len() as int) =~= stmts@);
    }

    #[verifier::loop_isolation(false)]
    fn check_elifs(&mut self, elifs: &Vec<(Expr, Vec<Stmt>)>)
        ensures
            final(self).state() == elifs_bc(old(self).state(), elifs@),
        decreases elifs,
    {
        let mut i: usize = 0;
        while i < elifs.len()
            invariant
                i <= elifs.len(),
                self.state() == elifs_bc(old(self).state(), elifs@.take(i as int)),
            decreases elifs.len() - i,
        {
            proof {
                assert(decreases_to!(elifs => elifs@));
                assert(decreases_to!(elifs@ => elifs@[i as int]));
                assert(decreases_to!(elifs@[i as int] => elifs@[i as int].0));
                assert(decreases_to!(elifs@[i as int] => elifs@[i as int].1));
            }
            self.check_expr(&elifs[i].0);
            self.check_stmts(&elifs[i].1);
            assert(elifs@.take(i + 1).drop_last() =~= elifs@.take(i as int));
            i += 1;
        }
        assert(elifs@.take(elifs.len() as int) =~= elifs@);
    }

    fn check_stmt(&mut self, stmt: &Stmt)
        ensures
            final(self).state() == stmt_bc(old(self).state(), *stmt),
        decreases stmt,
    {
        match stmt {
            Stmt::Expr(expr) => self.check_expr(expr),
            Stmt::Assign(assign) => {
                self.check_assign(assign.target.as_str());
                self.check_expr(&assign.value);
            }
            Stmt::Var(var) => self.check_expr(&var.value),
            Stmt::If(if_stmt) => {
                self.check_expr(&if_stmt.cond);
                self.check_stmts(&if_stmt.body);
                self.check_elifs(&if_stmt.else_if);
                match &if_stmt.else_body {
                    Some(else_body) => self.check_stmts(else_body),
                    None => {}
                }
            }
            Stmt::For(for_stmt) => {
                self.check_expr(&for_stmt.iter);
                self.enter_scope();
                self.check_stmts(&for_stmt.body);
                self.exit_scope();
            }
            Stmt::While(while_stmt) => {
                self.check_expr(&while_stmt.cond);
                self.check_stmts(&while_stmt.body);
            }
            Stmt::Block(block) => self.check_stmts(block),
            Stmt::Return(_) => {}
        }
    }

    #[verifier::loop_isolation(false)]
    fn check_exprs(&mut self, exprs: &Vec<Expr>)
        ensures
            final(self).state() == exprs_bc(old(self).state(), exprs@),
        decreases exprs,
    {
        let mut i: usize = 0;
        while i < exprs.len()
            invariant
                i <= exprs.len(),
                self.state() == exprs_bc(old(self).state(), exprs@.take(i as int)),
            decreases exprs.len() - i,
        {
            proof {
                assert(decreases_to!(exprs => exprs@));
                assert(decreases_to!(exprs@ => exprs@[i as int]));
            }
            self.check_expr(&exprs[i]);
            assert(exprs@.take(i + 1).drop_last() =~= exprs@.take(i as int));
            i += 1;
        }
        assert(exprs@.take(exprs.len() as int) =~= exprs@);
    }

    #[verifier::loop_isolation(false)]
    fn check_props(&mut self, props: &Vec<ObjectProp>)
        ensures
            final(self).state() == props_bc(old(self).state(), props@),
        decreases props,
    {
        let mut i: usize = 0;
        while i < props.len()
            invariant
                i <= props.len(),
                self.state() == props_bc(old(self).state(), props@.take(i as int)),
            decreases props.len() - i,
        {
            proof {
                assert(decreases_to!(props => props@));
                assert(decreases_to!(props@ => props@[i as int]));
                assert(decreases_to!(props@[i as int] => props@[i as int].value));
            }
            self.check_expr(&props[i].value);
            assert(props@.take(i + 1).drop_last() =~= props@.take(i as int));
            i += 1;
        }
        assert(props@.take(props.len() as int) =~= props@);
    }

    fn check_expr(&mut self, expr: &Expr)
        ensures
            final(self).state() == expr_bc(old(self).state(), *expr),
        decreases expr,
    {
        match expr {
            Expr::Ident(ident) => self.check_read(ident.name.as_str()),
            Expr::Call(call) => {
                self.check_expr(&call.callee);
                self.check_exprs(&call.args);
            }
            Expr::Binary(binary) => {
                self.check_expr(&binary.left);
                self.check_expr(&binary.right);
            }
            Expr::Unary(unary) => self.check_expr(&unary.expr),
            Expr::Member(member) => self.check_expr(&member.obj),
            Expr::Object(object) => self.check_props(&object.props),
            Expr::Array(array) => self.check_exprs(&array.elements),
            Expr::Lambda(lambda) => self.check_expr(&lambda.body),
            Expr::Ternary(cond, then_expr, else_expr) => {
                self.check_expr(cond);
                self.check_expr(then_expr);
                self.check_expr(else_expr);
            }
            _ => {}
        }
    }

    fn enter_scope(&mut self)
        ensures
            final(self).state() == enter(old(self).state()),
    {
        self.current_scope = self.current_scope.wrapping_add(1);
    }

    fn exit_scope(&mut self)
        ensures
            final(self).state() == exit(old(self).state()),
    {
        let scope_to_remove = self.current_scope;
        let mut kept: Vec<Borrow> = Vec::new();
        let mut i: usize = 0;
        while i < self.borrows.len()
            invariant
                i <= self.borrows.len(),
                self.borrows@ == old(self).borrows@,
                self.current_scope == scope_to_remove,
                borrow_views(kept@) == drop_scope(borrow_views(self.borrows@).take(i as int), scope_to_remove as int),
            decreases self.borrows.len() - i,
        {
            let ghost bs = borrow_views(self.borrows@);
            assert(bs.take(i + 1).drop_last() =~= bs.take(i as int));
            assert(bs.take(i + 1).last() == bs[i as int]);
            if self.borrows[i].scope != scope_to_remove {
                let b = &self.borrows[i];
                let ghost k0 = kept@;
                kept.push(Borrow { name: b.name.clone(), kind: b.kind, scope: b.scope });
                assert(borrow_views(kept@) =~= borrow_views(k0).push(bs[i as int]));
            }
            i += 1;
        }
        assert(borrow_views(self.borrows@).take(self.borrows.len() as int) =~= borrow_views(self.borrows@));
        self.borrows = kept;
        if self.current_scope > 0 {
            self.current_scope -= 1;
        }
    }

    pub fn has_errors(&self) -> (b: bool)
        ensures
            b == (self.state().errs.len() > 0),
    {
        self.errors.len() > 0
    }

    pub fn get_errors(&self) -> (v: Vec<String>)
        ensures
            views(v@) == self.state().errs,
    {
        let v = self.errors.clone();
        assert(views(v@) =~= self.state().errs);
        v
    }

    /// Whether no error was found.
    pub fn validate(&self, _program: &Program) -> (b: bool)
        ensures
            b == (self.state().errs.len() == 0),
    {
        !self.has_errors()
    }
}

/// The errors of checking `program` with a new checker: `Err` with them
/// when there are any.
pub fn check_borrows(program: &Program) -> (r: Result<(), Vec<String>>)
    ensures
        ({
            let st = components_bc(
                BorrowState { borrows: seq![], signals: seq![], errs: seq![], cur: 0 },
                program.components@,
            );
            &&& r is Ok <==> st.errs.len() == 0
            &&& r matches Err(v) ==> views(v@) == st.errs
        }),
{
    let mut checker = BorrowChecker::new();
    assert(checker.state().borrows =~= seq![]);
    assert(checker.state().signals =~= seq![]);
    assert(checker.state().errs =~= seq![]);
    assert(checker.state() == BorrowState { borrows: seq![], signals: seq![], errs: seq![], cur: 0 });
    checker.check(program);
    if checker.has_errors() {
        Err(checker.get_errors())
    } else {
        Ok(())
    }
}

} // verus!
