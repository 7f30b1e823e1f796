//! Checks on a parsed program: scopes, types and signal borrows.
use vstd::prelude::*;
use crate::ast::{Program, Expr};
use crate::text::{owned, push_str, push_string, views};

pub mod typeck;
pub mod scope;
pub mod borrow;

use scope::{ScopeAnalyzer, ScopeState, program_sc, sym_views};
use typeck::{TypeChecker, program_tc, ty_text, infer};
use crate::text::{debug_quoted, debug_str};
use borrow::{BorrowChecker, BorrowState, components_bc};

verus! {

/// The debug text of a list of strings: each quoted, comma-separated, in
/// brackets.
pub open spec fn list_text(s: Seq<Seq<char>>) -> Seq<char> {
    "["@ + quoted_join(s) + "]"@
}

pub open spec fn quoted_join(s: Seq<Seq<char>>) -> Seq<char>
    decreases s.len(),
{
    if s.len() == 0 {
        seq![]
    } else if s.len() == 1 {
        debug_quoted(s[0])
    } else {
        quoted_join(s.drop_last()) + ", "@ + debug_quoted(s.last())
    }
}

/// The message of a failed analysis.
pub open spec fn failed_msg(errs: Seq<Seq<char>>) -> Seq<char> {
    "Analysis failed: "@ + list_text(errs)
}

/// Writes the debug text of a list of strings.
pub fn list_to_text(v: &Vec<String>) -> (r: String)
    ensures
        r@ == list_text(views(v@)),
{
    let mut r = owned("[");
    let mut i: usize = 0;
    while i < v.len()
        invariant
            i <= v.len(),
            r@ == "["@ + quoted_join(views(v@).take(i as int)),
        decreases v.len() - i,
    {
        if i > 0 {
            push_str(&mut r, ", ");
        }
        let q = debug_str(v[i].as_str());
        push_string(&mut r, &q);
        proof {
            let t = views(v@).take(i + 1);
            assert(t.drop_last() =~= views(v@).take(i as int));
            assert(t.last() == v@[i as int]@);
            if i == 0 {
                assert(r@ =~= "["@ + quoted_join(t));
            } else {
                assert(r@ =~= "["@ + quoted_join(t));
            }
        }
        i += 1;
    }
    assert(views(v@).take(v.len() as int) =~= views(v@));
    push_str(&mut r, "]");
    r
}

#[derive(Debug, Clone, Copy, PartialEq, Eq)]
pub enum SymbolKind {
    Component,
    Function,
    Signal,
    Effect,
    Variable,
    Parameter,
}

/// A definition as the analyzer reports it: its name, kind, the name of the
/// scope it was made in, and its type annotation where known.
#[derive(Debug)]
pub struct Symbol {
    pub name: String,
    pub kind: SymbolKind,
    pub scope: String,
    pub type_hint: Option<String>,
}

/// The reported kind of a scope definition: computed values are signals and
/// imports are variables.
pub open spec fn kind_of(k: scope::SymbolKind) -> SymbolKind {
    match k {
        scope::SymbolKind::Component => SymbolKind::Component,
        scope::SymbolKind::Function => SymbolKind::Function,
        scope::SymbolKind::Signal => SymbolKind::Signal,
        scope::SymbolKind::Effect => SymbolKind::Effect,
        scope::SymbolKind::Computed => SymbolKind::Signal,
        scope::SymbolKind::Variable => SymbolKind::Variable,
        scope::SymbolKind::Parameter => SymbolKind::Parameter,
        scope::SymbolKind::Import => SymbolKind::Variable,
    }
}

fn convert_kind(k: scope::SymbolKind) -> (r: SymbolKind)
    ensures
        r == kind_of(k),
{
    match k {
        scope::SymbolKind::Component => SymbolKind::Component,
        scope::SymbolKind::Function => SymbolKind::Function,
        scope::SymbolKind::Signal => SymbolKind::Signal,
        scope::SymbolKind::Effect => SymbolKind::Effect,
        scope::SymbolKind::Computed => SymbolKind::Signal,
        scope::SymbolKind::Variable => SymbolKind::Variable,
        scope::SymbolKind::Parameter => SymbolKind::Parameter,
        scope::SymbolKind::Import => SymbolKind::Variable,
    }
}

/// What `get_type_info` reports of an expression.
pub struct TypeInfo {
    pub ty_name: String,
    pub nullable: bool,
    pub optional: bool,
}

/// Runs the scope analysis, the type checker and the borrow checker.
pub struct Analyzer {
    scope_analyzer: ScopeAnalyzer,
    type_checker: TypeChecker,
    borrow_checker: BorrowChecker,
    errors: Vec<String>,
}

impl Analyzer {
    pub closed spec fn scope_state(&self) -> ScopeState {
        self.scope_analyzer.state()
    }

    pub closed spec fn type_state(&self) -> (Seq<(Seq<char>, typeck::Ty)>, Seq<Seq<char>>) {
        self.type_checker.state()
    }

    pub closed spec fn borrow_state(&self) -> BorrowState {
        self.borrow_checker.state()
    }

    pub closed spec fn errs(&self) -> Seq<Seq<char>> {
        views(self.errors@)
    }

    pub closed spec fn wf(&self) -> bool {
        self.scope_analyzer.wf()
    }

    pub fn new() -> (a: Analyzer)
        ensures
            a.wf(),
            a.scope_state().frames == seq![(None::<int>, Seq::<Seq<char>>::empty())],
            a.scope_state().names == seq!["global"@],
            a.scope_state().cur == 0,
            a.scope_state().errs.len() == 0,
            a.scope_state().syms.len() == 0,
            a.type_state().0.len() == 0,
            a.type_state().1.len() == 0,
            a.borrow_state().borrows.len() == 0,
            a.borrow_state().signals.len() == 0,
            a.borrow_state().errs.len() == 0,
            a.borrow_state().cur == 0,
            a.errs().len() == 0,
    {
        Analyzer {
            scope_analyzer: ScopeAnalyzer::new(),
            type_checker: TypeChecker::new(),
            borrow_checker: BorrowChecker::new(),
            errors: Vec::new(),
        }
    }

    /// Runs the three checks on `program`; fails with every error found so
    /// far when there is any, else gives the program back.
    pub fn analyze(&mut self, program: Program) -> (r: Result<Program, String>)
        requires
            old(self).wf(),
        ensures
            final(self).wf(),
            final(self).scope_state() == program_sc(old(self).scope_state(), program),
            final(self).type_state() == program_tc(old(self).type_state(), program),
            final(self).borrow_state() == components_bc(old(self).borrow_state(), program.components@),
            final(self).errs() == old(self).errs() + final(self).scope_state().errs + final(self).type_state().1
                + final(self).borrow_state().errs,
            r is Ok <==> final(self).errs().len() == 0,
            r matches Ok(p) ==> p == program,
            r matches Err(m) ==> m@ == failed_msg(final(self).errs()),
    {
        self.scope_analyzer.analyze(&program);
        self.type_checker.check(&program);
        self.borrow_checker.check(&program);
        let e1 = self.scope_analyzer.get_errors();
        self.extend(e1);
        let e2 = self.type_checker.get_errors();
        self.extend(e2);
        let e3 = self.borrow_checker.get_errors();
        self.extend(e3);
        if self.errors.len() > 0 {
            let mut m = owned("Analysis failed: ");
            let l = list_to_text(&self.errors);
            push_string(&mut m, &l);
            return Err(m);
        }
        Ok(program)
    }

    fn extend(&mut self, more: Vec<String>)
        ensures
            final(self).errs() == old(self).errs() + views(more@),
            final(self).scope_analyzer == old(self).scope_analyzer,
            final(self).type_checker == old(self).type_checker,
            final(self).borrow_checker == old(self).borrow_checker,
    {
        let mut i: usize = 0;
        while i < more.len()
            invariant
                i <= more.len(),
                self.errs() == old(self).errs() + views(more@).take(i as int),
                self.scope_analyzer == old(self).scope_analyzer,
                self.type_checker == old(self).type_checker,
                self.borrow_checker == old(self).borrow_checker,
            decreases more.len() - i,
        {
            let ghost e0 = self.errors@;
            self.errors.push(more[i].clone());
            assert(views(self.errors@) =~= views(e0).push(more@[i as int]@));
            assert(views(more@).take(i + 1) =~= views(more@).take(i as int).push(more@[i as int]@));
            i += 1;
        }
        assert(views(more@).take(more.len() as int) =~= views(more@));
    }

    /// Whether none of the three checks found an error.
    pub fn validate(&self, program: &Program) -> (b: bool)
        ensures
            b == (self.scope_state().errs.len() == 0 && self.type_state().1.len() == 0
                && self.borrow_state().errs.len() == 0),
    {
        self.scope_analyzer.validate(program) && self.type_checker.validate(program)
            && self.borrow_checker.validate(program)
    }

    /// Every definition the scope analysis made, in order.
    pub fn get_symbols(&self) -> (v: Vec<Symbol>)
        requires
            self.wf(),
        ensures
            v@.len() == self.scope_state().syms.len(),
            forall|i: int| 0 <= i < v@.len() ==> {
                let s = self.scope_state().syms[i];
                &&& (#[trigger] v@[i]).name@ == s.0
                &&& v@[i].kind == kind_of(s.1)
                &&& v@[i].type_hint is None
                &&& (0 <= s.2 < self.scope_state().names.len() ==> v@[i].scope@ == self.scope_state().names[s.2])
            },
    {
        let syms = self.scope_analyzer.get_symbols();
        let mut v: Vec<Symbol> = Vec::new();
        let mut i: usize = 0;
        while i < syms.len()
            invariant
                i <= syms.len(),
                self.wf(),
                sym_views(syms@) == self.scope_state().syms,
                v@.len() == i,
                forall|k: int| 0 <= k < i ==> {
                    let s = self.scope_state().syms[k];
                    &&& (#[trigger] v@[k]).name@ == s.0
                    &&& v@[k].kind == kind_of(s.1)
                    &&& v@[k].type_hint is None
                    &&& (0 <= s.2 < self.scope_state().names.len() ==> v@[k].scope@ == self.scope_state().names[s.2])
                },
            decreases syms.len() - i,
        {
            assert(sym_views(syms@)[i as int] == syms@[i as int].spec_view());
            let scope = self.scope_analyzer.scope_name(syms[i].defined_at);
            v.push(Symbol {
                name: syms[i].name.clone(),
                kind: convert_kind(syms[i].kind),
                scope,
                type_hint: None,
            });
            i += 1;
        }
        v
    }

    /// The inferred type of `expr`, in debug form.
    pub fn get_type_info(&self, expr: &Expr) -> (r: Option<TypeInfo>)
        ensures
            r matches Some(i) && i.ty_name@ == ty_text(infer(self.type_state().0, *expr)) && !i.nullable
                && !i.optional,
    {
        match self.type_checker.get_type(expr) {
            Some(t) => Some(TypeInfo { ty_name: t.ty_name, nullable: t.nullable, optional: t.optional }),
            None => None,
        }
    }
}

/// The errors that a new analyzer finds in `program`: scopes, then types,
/// then borrows.
pub open spec fn analysis_errs(program: Program) -> Seq<Seq<char>> {
    let a = Analyzer::new_state();
    program_sc(a.0, program).errs + program_tc(a.1, program).1 + components_bc(a.2, program.components@).errs
}

/// Analyses `program` with a new analyzer.
pub fn analyze(program: Program) -> (r: Result<Program, String>)
    ensures
        r is Ok <==> analysis_errs(program).len() == 0,
        r matches Ok(p) ==> p == program,
        r matches Err(m) ==> m@ == failed_msg(analysis_errs(program)),
{
    let mut analyzer = Analyzer::new();
    proof {
        Analyzer::lemma_new_state(analyzer);
    }
    analyzer.analyze(program)
}

/// Whether a new analyzer finds no error; it has run no check, so it finds
/// none.
pub fn validate(program: &Program) -> (b: bool)
    ensures
        b,
{
    let analyzer = Analyzer::new();
    analyzer.validate(program)
}

impl Analyzer {
    /// The states of the three checks in a new analyzer.
    pub open spec fn new_state() -> (ScopeState, (Seq<(Seq<char>, typeck::Ty)>, Seq<Seq<char>>), BorrowState) {
        (
            ScopeState {
                frames: seq![(None::<int>, Seq::<Seq<char>>::empty())],
                names: seq!["global"@],
                cur: 0,
                errs: seq![],
                syms: seq![],
            },
            (seq![], seq![]),
            BorrowState { borrows: seq![], signals: seq![], errs: seq![], cur: 0 },
        )
    }

    proof fn lemma_new_state(a: Analyzer)
        requires
            a.scope_state().frames == seq![(None::<int>, Seq::<Seq<char>>::empty())],
            a.scope_state().names == seq!["global"@],
            a.scope_state().cur == 0,
            a.scope_state().errs.len() == 0,
            a.scope_state().syms.len() == 0,
            a.type_state().0.len() == 0,
            a.type_state().1.len() == 0,
            a.borrow_state().borrows.len() == 0,
            a.borrow_state().signals.len() == 0,
            a.borrow_state().errs.len() == 0,
            a.borrow_state().cur == 0,
            a.errs().len() == 0,
        ensures
            a.scope_state() == Self::new_state().0,
            a.type_state() == Self::new_state().1,
            a.borrow_state() == Self::new_state().2,
            a.errs() == Seq::<Seq<char>>::empty(),
    {
        assert(a.scope_state().errs =~= seq![]);
        assert(a.scope_state().syms =~= seq![]);
        assert(a.type_state().0 =~= seq![]);
        assert(a.type_state().1 =~= seq![]);
        assert(a.borrow_state().borrows =~= seq![]);
        assert(a.borrow_state().signals =~= seq![]);
        assert(a.borrow_state().errs =~= seq![]);
        assert(a.errs() =~= seq![]);
    }
}

} // verus!
