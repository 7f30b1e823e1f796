//! Scoping selectors to a component with a data attribute.
use vstd::prelude::*;
use crate::text::{owned, push_str, push_string, push_decimal, decimal, chars_of, string_from, trim, trim_chars, split,
    split_char, join, views, join_strings};
use super::{Stylesheet, CssRule, rule_view, rules_view};

verus! {

/// A selector part limited to the scope; pseudo-classes and at-rules stay.
pub open spec fn scope_part(t: Seq<char>, sc: Seq<char>) -> Seq<char> {
    if t.len() > 0 && (t[0] == ':' || t[0] == '@') { t } else { t + "[data-pysuals-"@ + sc + "]"@ }
}

pub open spec fn scope_parts(ps: Seq<Seq<char>>, sc: Seq<char>) -> Seq<Seq<char>>
    decreases ps.len(),
{
    if ps.len() == 0 { seq![] } else { scope_parts(ps.drop_last(), sc).push(scope_part(trim(ps.last()), sc)) }
}

/// Each comma-separated part, trimmed and scoped, joined by `", "`.
pub open spec fn scope_selector(sel: Seq<char>, sc: Seq<char>) -> Seq<char> {
    join(scope_parts(split(sel, ','), sc), ", "@)
}

pub open spec fn scope_rules(rs: Seq<(Seq<char>, Seq<(Seq<char>, Seq<char>, bool)>)>, sc: Seq<char>) -> Seq<(Seq<char>, Seq<(Seq<char>, Seq<char>, bool)>)> {
    rs.map_values(|r: (Seq<char>, Seq<(Seq<char>, Seq<char>, bool)>)| (scope_selector(r.0, sc), r.1))
}

/// Scoping changes selectors only: the rules stay, in order, each with
/// its declarations.
pub proof fn lemma_scope_keeps_declarations(rs: Seq<(Seq<char>, Seq<(Seq<char>, Seq<char>, bool)>)>, sc: Seq<char>)
    ensures
        scope_rules(rs, sc).len() == rs.len(),
        forall|i: int| 0 <= i < rs.len() ==> (#[trigger] scope_rules(rs, sc)[i]).1 == rs[i].1,
{
}

pub struct ScopedCss {
    scope_id: u32,
}

impl ScopedCss {
    pub closed spec fn counter(&self) -> int {
        self.scope_id as int
    }

    pub fn new() -> (s: ScopedCss)
        ensures
            s.counter() == 0,
    {
        ScopedCss { scope_id: 0 }
    }

    /// The stylesheet with every selector scoped to `scope`.
    pub fn scope(&mut self, stylesheet: Stylesheet, scope: &str) -> (r: Stylesheet)
        ensures
            rules_view(r.rules@) == scope_rules(rules_view(stylesheet.rules@), scope@),
            views(r.imports@) == views(stylesheet.imports@),
            final(self).counter() == old(self).counter(),
    {
        let Stylesheet { rules, imports } = stylesheet;
        let ghost all = rules@;
        let mut rest = rules;
        let mut out: Vec<CssRule> = Vec::new();
        while rest.len() > 0
            invariant
                rules_view(out@) + scope_rules(rules_view(rest@), scope@) == scope_rules(rules_view(all), scope@),
            decreases rest.len(),
        {
            let ghost r0 = rest@;
            let rule = rest.remove(0);
            assert(rest@ =~= r0.drop_first());
            let ghost rv = rule_view(rule);
            let selector = self.scope_selector(rule.selector.as_str(), scope);
            let ghost o0 = out@;
            out.push(CssRule { selector, declarations: rule.declarations });
            proof {
                assert(rules_view(out@) =~= rules_view(o0).push((scope_selector(rv.0, scope@), rv.1)));
                assert(rules_view(r0) =~= seq![rv] + rules_view(rest@));
                assert(scope_rules(rules_view(r0), scope@) =~= seq![(scope_selector(rv.0, scope@), rv.1)] + scope_rules(
                    rules_view(rest@),
                    scope@,
                ));
                assert(rules_view(out@) + scope_rules(rules_view(rest@), scope@) =~= rules_view(o0) + scope_rules(
                    rules_view(r0),
                    scope@,
                ));
            }
        }
        assert(rules_view(out@) + scope_rules(rules_view(rest@), scope@) =~= rules_view(out@));
        Stylesheet { rules: out, imports }
    }

    /// A selector list with each part scoped.
    pub fn scope_selector(&self, selector: &str, scope: &str) -> (r: String)
        ensures
            r@ == scope_selector(selector@, scope@),
    {
        let cs = chars_of(selector);
        let parts = split_char(cs.as_slice(), ',');
        let mut scoped_parts: Vec<String> = Vec::new();
        let mut i: usize = 0;
        while i < parts.len()
            invariant
                i <= parts.len(),
                cs@ == selector@,
                parts@.len() == split(selector@, ',').len(),
                forall|k: int| 0 <= k < parts@.len() ==> #[trigger] parts@[k]@ == split(selector@, ',')[k],
                views(scoped_parts@) == scope_parts(split(selector@, ',').take(i as int), scope@),
            decreases parts.len() - i,
        {
            let trimmed = trim_chars(parts[i].as_slice());
            let scoped = if trimmed.len() > 0 && (trimmed[0] == ':' || trimmed[0] == '@') {
                string_from(trimmed.as_slice())
            } else {
                let mut s = string_from(trimmed.as_slice());
                push_str(&mut s, "[data-pysuals-");
                push_str(&mut s, scope);
                push_str(&mut s, "]");
                s
            };
            let ghost v0 = scoped_parts@;
            scoped_parts.push(scoped);
            proof {
                let t = split(selector@, ',').take(i + 1);
                assert(t.drop_last() =~= split(selector@, ',').take(i as int));
                assert(t.last() == parts@[i as int]@);
                assert(views(scoped_parts@) =~= views(v0).push(scoped@));
            }
            i += 1;
        }
        assert(split(selector@, ',').take(parts.len() as int) =~= split(selector@, ','));
        join_strings(&scoped_parts, ", ")
    }

    /// The next scope name, `_scope_` and a counter (wrapping at the end of
    /// `u32`).
    pub fn generate_scope_id(&mut self) -> (r: String)
        ensures
            final(self).counter() == if old(self).counter() == u32::MAX { 0 } else { old(self).counter() + 1 },
            r@ == "_scope_"@ + decimal(final(self).counter() as nat),
    {
        self.scope_id = self.scope_id.wrapping_add(1);
        let mut r = owned("_scope_");
        push_decimal(&mut r, self.scope_id as u128);
        r
    }

    pub fn scope_keyframes(&self, name: &str, scope: &str) -> (r: String)
        ensures
            r@ == name@ + "_"@ + scope@,
    {
        let mut r = owned(name);
        push_str(&mut r, "_");
        push_str(&mut r, scope);
        r
    }

    pub fn add_data_attribute(&self, selector: &str, scope: &str) -> (r: String)
        ensures
            r@ == selector@ + "[data-pysuals-"@ + scope@ + "]"@,
    {
        let mut r = owned(selector);
        push_str(&mut r, "[data-pysuals-");
        push_str(&mut r, scope);
        push_str(&mut r, "]");
        r
    }
}

} // verus!
