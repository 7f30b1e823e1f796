//! Program walkers that count or collect top-level items.
//!
//! Both walkers visit the program's components, functions, imports, exports
//! and style blocks in that order; a component is recorded without walking
//! into its body, so the signals and effects inside components are not
//! reached.
use vstd::prelude::*;
use crate::ast::Program;

verus! {

pub struct CountingVisitor {
    pub component_count: usize,
    pub signal_count: usize,
    pub effect_count: usize,
    pub function_count: usize,
}

impl CountingVisitor {
    pub fn new() -> (v: CountingVisitor)
        ensures
            v.component_count == 0,
            v.signal_count == 0,
            v.effect_count == 0,
            v.function_count == 0,
    {
        CountingVisitor { component_count: 0, signal_count: 0, effect_count: 0, function_count: 0 }
    }

    /// Walks `program`: one count per component and per function.
    pub fn visit_program(&mut self, program: &Program)
        requires
            old(self).component_count + program.components@.len() <= usize::MAX,
            old(self).function_count + program.functions@.len() <= usize::MAX,
        ensures
            final(self).component_count == old(self).component_count + program.components@.len(),
            final(self).function_count == old(self).function_count + program.functions@.len(),
            final(self).signal_count == old(self).signal_count,
            final(self).effect_count == old(self).effect_count,
    {
        self.component_count = self.component_count + program.components.len();
        self.function_count = self.function_count + program.functions.len();
    }
}

pub struct CollectingVisitor {
    pub signals: Vec<String>,
    pub components: Vec<String>,
    pub imports: Vec<String>,
}

impl CollectingVisitor {
    pub fn new() -> (v: CollectingVisitor)
        ensures
            v.signals@.len() == 0,
            v.components@.len() == 0,
            v.imports@.len() == 0,
    {
        CollectingVisitor { signals: Vec::new(), components: Vec::new(), imports: Vec::new() }
    }

    /// Walks `program`: collects each component's name and each import's
    /// path, in program order.
    pub fn visit_program(&mut self, program: &Program)
        ensures
            final(self).signals@ == old(self).signals@,
            crate::text::views(final(self).components@) == crate::text::views(old(self).components@)
                + program.components@.map_values(|c: crate::ast::Component| c.name@),
            crate::text::views(final(self).imports@) == crate::text::views(old(self).imports@)
                + program.imports@.map_values(|i: crate::ast::Import| i.path@),
    {
        let ghost c0 = crate::text::views(self.components@);
        let mut i: usize = 0;
        while i < program.components.len()
            invariant
                i <= program.components.len(),
                self.signals@ == old(self).signals@,
                self.imports@ == old(self).imports@,
                crate::text::views(self.components@) == c0 + program.components@.take(i as int).map_values(
                    |c: crate::ast::Component| c.name@),
            decreases program.components.len() - i,
        {
            let name = program.components[i].name.clone();
            let ghost prev = self.components@;
            self.components.push(name);
            assert(crate::text::views(self.components@) =~= crate::text::views(prev).push(name@));
            assert(program.components@.take(i + 1).map_values(|c: crate::ast::Component| c.name@)
                =~= program.components@.take(i as int).map_values(|c: crate::ast::Component| c.name@).push(
                program.components@[i as int].name@));
            assert(crate::text::views(self.components@) =~= c0 + program.components@.take(i + 1).map_values(
                    |c: crate::ast::Component| c.name@));
            i += 1;
        }
        assert(program.components@.take(program.components.len() as int) =~= program.components@);
        let ghost m0 = crate::text::views(self.imports@);
        let ghost cs = self.components@;
        let mut j: usize = 0;
        while j < program.imports.len()
            invariant
                j <= program.imports.len(),
                self.signals@ == old(self).signals@,
                self.components@ == cs,
                crate::text::views(self.imports@) == m0 + program.imports@.take(j as int).map_values(
                    |m: crate::ast::Import| m.path@),
            decreases program.imports.len() - j,
        {
            let path = program.imports[j].path.clone();
            let ghost prev = self.imports@;
            self.imports.push(path);
            assert(crate::text::views(self.imports@) =~= crate::text::views(prev).push(path@));
            assert(program.imports@.take(j + 1).map_values(|m: crate::ast::Import| m.path@)
                =~= program.imports@.take(j as int).map_values(|m: crate::ast::Import| m.path@).push(
                program.imports@[j as int].path@));
            assert(crate::text::views(self.imports@) =~= m0 + program.imports@.take(j + 1).map_values(
                    |m: crate::ast::Import| m.path@));
            j += 1;
        }
        assert(program.imports@.take(program.imports.len() as int) =~= program.imports@);
    }
}

} // verus!
