//! Program optimisations: constant folding, dead code elimination,
//! inlining of small functions and tree shaking, run in that order.
use vstd::prelude::*;

pub mod constant;
pub mod dce;
pub mod inline;
pub mod tree_shake;

use crate::ast::Program;
use crate::CompilerConfig;
use self::constant::{ConstantFolder, arith_ok, component_folds, function_folds};
use crate::ast::BinaryOp;
use self::dce::{DeadCodeEliminator, DceState, mark_program, keep_components, keep_functions};
use self::inline::{Inliner, Table, table_after, program_ends, program_inl};
use self::tree_shake::{TreeShaker, graph_of, entries, reach_set};

verus! {

/// `r` is `p` with every component and function body folded, numbers by
/// `bin` and `neg`.
pub open spec fn program_folds<B: Fn(BinaryOp, String, String) -> String, G: Fn(String) -> String>(bin: B, neg: G, p: Program, r: Program) -> bool {
    &&& r.components@.len() == p.components@.len()
    &&& forall|i: int| 0 <= i < r.components@.len() ==> component_folds(bin, neg, p.components@[i], #[trigger] r.components@[i])
    &&& r.functions@.len() == p.functions@.len()
    &&& forall|i: int| 0 <= i < r.functions@.len() ==> function_folds(bin, neg, p.functions@[i], #[trigger] r.functions@[i])
    &&& r.imports == p.imports
    &&& r.exports == p.exports
    &&& r.css == p.css
}

/// `r` is what dead code elimination makes of `p`, starting from the marks
/// `st0` and ending with the marks `st1`.
pub open spec fn program_eliminates(st0: DceState, p: Program, r: Program, st1: DceState) -> bool {
    &&& st1 == mark_program(st0, p)
    &&& r.components@ == keep_components(p.components@, st1.components)
    &&& r.functions@ == keep_functions(p.functions@, st1.functions)
    &&& r.imports == p.imports
    &&& r.exports == p.exports
    &&& r.css == p.css
}

/// `r` is what tree shaking makes of `p`, from the graph `g0` and the
/// reached names `r0` to the graph `g1` and the reached names `r1`.
pub open spec fn program_shakes(
    g0: Seq<(Seq<char>, Seq<Seq<char>>)>,
    r0: Seq<Seq<char>>,
    p: Program,
    r: Program,
    g1: Seq<(Seq<char>, Seq<Seq<char>>)>,
    r1: Seq<Seq<char>>,
) -> bool {
    &&& g1 == graph_of(g0, p)
    &&& reach_set(g1, entries(r0, p), r1)
    &&& r.components@ == keep_components(p.components@, r1)
    &&& r.functions@ == keep_functions(p.functions@, r1)
    &&& r.imports == p.imports
    &&& r.exports == p.exports
    &&& r.css == p.css
}

/// The optimisation passes with their state, and the options they run
/// under.
pub struct Optimizer {
    constant_folder: ConstantFolder,
    dce: DeadCodeEliminator,
    inliner: Inliner,
    tree_shaker: TreeShaker,
    config: CompilerConfig,
}

impl Optimizer {
    pub closed spec fn config(&self) -> CompilerConfig {
        self.config
    }

    pub closed spec fn marks(&self) -> DceState {
        self.dce.state()
    }

    pub closed spec fn table(&self) -> Table {
        self.inliner.table()
    }

    pub closed spec fn threshold(&self) -> nat {
        self.inliner.threshold()
    }

    pub closed spec fn graph(&self) -> Seq<(Seq<char>, Seq<Seq<char>>)> {
        self.tree_shaker.graph()
    }

    pub closed spec fn reached(&self) -> Seq<Seq<char>> {
        self.tree_shaker.reached()
    }

    pub closed spec fn wf(&self) -> bool {
        self.tree_shaker.wf()
    }

    /// Fresh passes under a copy of `config`.
    pub fn new(config: &CompilerConfig) -> (o: Optimizer)
        ensures
            o.wf(),
            o.config() == *config,
            o.marks().components.len() == 0,
            o.marks().functions.len() == 0,
            o.marks().signals.len() == 0,
            o.table().len() == 0,
            o.threshold() == 10,
            o.graph().len() == 0,
            o.reached().len() == 0,
    {
        Optimizer {
            constant_folder: ConstantFolder::new(),
            dce: DeadCodeEliminator::new(),
            inliner: Inliner::new(),
            tree_shaker: TreeShaker::new(),
            config: config.copy(),
        }
    }

    /// Where optimisation is on: folds constants (with the caller's
    /// arithmetic `bin` and `neg` on numbers), removes dead code, inlines small functions
    /// and shakes the tree; else hands the program back. `None` where
    /// inlining would not end (see `Inliner::try_inline`).
    pub fn optimize<B: Fn(BinaryOp, String, String) -> String, G: Fn(String) -> String>(&mut self, program: Program, bin: &B, neg: &G) -> (r: Option<Program>)
        requires
            old(self).wf(),
            arith_ok(*bin, *neg),
        ensures
            final(self).wf(),
            final(self).config() == old(self).config(),
            final(self).threshold() == old(self).threshold(),
            !old(self).config().optimize ==> r == Some(program) && final(self).marks() == old(self).marks()
                && final(self).table() == old(self).table() && final(self).graph() == old(self).graph()
                && final(self).reached() == old(self).reached(),
            old(self).config().optimize ==> exists|f: Program, d: Program|
                {
                    &&& #[trigger] program_folds(*bin, *neg, program, f)
                    &&& #[trigger] program_eliminates(old(self).marks(), f, d, final(self).marks())
                    &&& final(self).table() == table_after(old(self).table(), d, old(self).threshold())
                    &&& (r is Some) == program_ends(final(self).table(), d, final(self).table().len())
                    &&& (r matches Some(q) ==> exists|i: Program|
                        #[trigger] program_inl(final(self).table(), d, i, final(self).table().len())
                            && program_shakes(old(self).graph(), old(self).reached(), i, q, final(self).graph(), final(self).reached()))
                },
    {
        if !self.config.optimize {
            return Some(program);
        }
        let ghost p0 = program;
        let f = self.constant_folder.fold(program, bin, neg);
        let ghost f0 = f;
        assert(program_folds(*bin, *neg, p0, f));
        let d = self.dce.eliminate(f);
        let ghost d0 = d;
        assert(program_eliminates(old(self).marks(), f, d, self.marks()));
        let ghost m1 = self.marks();
        let res = self.inliner.try_inline(d);
        let ghost t1 = self.table();
        assert(t1 == table_after(old(self).table(), d0, old(self).threshold()));
        assert((res is Some) == program_ends(t1, d0, t1.len()));
        match res {
            None => {
                assert(program_folds(*bin, *neg, p0, f0) && program_eliminates(old(self).marks(), f0, d0, m1));
                assert(!program_ends(self.table(), d0, self.table().len()));
                assert(self.marks() == m1);
                None
            },
            Some(i) => {
                let ghost i0 = i;
                assert(program_inl(self.table(), d0, i0, self.table().len()));
                let q = self.tree_shaker.shake(i);
                assert(program_shakes(old(self).graph(), old(self).reached(), i0, q, self.graph(), self.reached()));
                assert(self.marks() == m1);
                assert(self.table() == t1);
                assert(program_folds(*bin, *neg, p0, f0) && program_eliminates(old(self).marks(), f0, d0, m1));
                Some(q)
            },
        }
    }

    /// Whether optimisation is on.
    pub fn should_optimize(&self) -> (b: bool)
        ensures
            b == self.config().optimize,
    {
        self.config.optimize
    }
}

/// What fresh optimisation passes under `config` make of `program`: with
/// optimisation off, the program itself; else the program folded, with dead
/// code removed, small functions inlined (`None` where that would not end)
/// and the tree shaken, each pass starting empty.
pub open spec fn optimizes<B: Fn(BinaryOp, String, String) -> String, G: Fn(String) -> String>(bin: B, neg: G, program: Program, config: CompilerConfig, r: Option<Program>) -> bool {
    &&& !config.optimize ==> r == Some(program)
    &&& config.optimize ==> exists|f: Program, d: Program, st: DceState|
        {
            &&& #[trigger] program_folds(bin, neg, program, f)
            &&& st.components.len() == 0 && st.functions.len() == 0 && st.signals.len() == 0
            &&& #[trigger] program_eliminates(st, f, d, mark_program(st, f))
            &&& (r is Some) == program_ends(table_after(seq![], d, 10), d, table_after(seq![], d, 10).len())
            &&& (r matches Some(q) ==> exists|i: Program, g1: Seq<(Seq<char>, Seq<Seq<char>>)>, r1: Seq<Seq<char>>|
                #[trigger] program_inl(table_after(seq![], d, 10), d, i, table_after(seq![], d, 10).len())
                    && #[trigger] program_shakes(seq![], seq![], i, q, g1, r1))
        }
}

/// Runs fresh optimisation passes under `config` on `program`.
pub fn optimize<B: Fn(BinaryOp, String, String) -> String, G: Fn(String) -> String>(program: Program, config: &CompilerConfig, bin: &B, neg: &G) -> (r: Option<Program>)
    requires
        arith_ok(*bin, *neg),
    ensures
        optimizes(*bin, *neg, program, *config, r),
{
    let mut optimizer = Optimizer::new(config);
    let ghost o0 = optimizer;
    let r = optimizer.optimize(program, bin, neg);
    proof {
        assert(o0.graph() =~= seq![]);
        assert(o0.reached() =~= seq![]);
        assert(o0.table() =~= seq![]);
    }
    r
}

}
