//! Vendor prefixes for declarations and keyframes.
use vstd::prelude::*;
use crate::text::{owned, push_str, push_string, str_eq, views};
use super::{Stylesheet, CssRule, CssDeclaration, decl_view, decls_view, rule_view, rules_view};

verus! {

/// A declaration with the prefixed copies placed before it.
pub open spec fn prefix_decl(d: (Seq<char>, Seq<char>, bool)) -> Seq<(Seq<char>, Seq<char>, bool)> {
    if d.0 == "user-select"@ {
        seq![("-webkit-user-select"@, d.1, d.2), d]
    } else if d.0 == "transform"@ {
        seq![("-webkit-transform"@, d.1, d.2), d]
    } else if d.0 == "transition"@ {
        seq![("-webkit-transition"@, d.1, d.2), d]
    } else if d.0 == "animation"@ {
        seq![("-webkit-animation"@, d.1, d.2), d]
    } else if d.0 == "display"@ && d.1 == "flex"@ {
        seq![("display"@, "-webkit-flex"@, d.2), d]
    } else if d.0 == "appearance"@ {
        seq![("-webkit-appearance"@, d.1, d.2), ("-moz-appearance"@, d.1, d.2), d]
    } else {
        seq![d]
    }
}

pub open spec fn prefix_decls(s: Seq<(Seq<char>, Seq<char>, bool)>) -> Seq<(Seq<char>, Seq<char>, bool)>
    decreases s.len(),
{
    if s.len() == 0 { seq![] } else { prefix_decls(s.drop_last()) + prefix_decl(s.last()) }
}

pub open spec fn prefix_rules(rs: Seq<(Seq<char>, Seq<(Seq<char>, Seq<char>, bool)>)>) -> Seq<(Seq<char>, Seq<(Seq<char>, Seq<char>, bool)>)> {
    rs.map_values(|r: (Seq<char>, Seq<(Seq<char>, Seq<char>, bool)>)| (r.0, prefix_decls(r.1)))
}

/// Prefixing keeps every declaration: each one ends the group that
/// replaces it, after its prefixed copies.
pub proof fn lemma_prefix_keeps_declaration(d: (Seq<char>, Seq<char>, bool))
    ensures
        prefix_decl(d).len() >= 1,
        prefix_decl(d).last() == d,
{
}

pub struct VendorPrefixer;

fn decl(property: &str, value: &String, important: bool) -> (d: CssDeclaration)
    ensures
        decl_view(d) == (property@, value@, important),
{
    CssDeclaration { property: owned(property), value: value.clone(), important }
}

fn copy_decl(d: &CssDeclaration) -> (r: CssDeclaration)
    ensures
        decl_view(r) == decl_view(*d),
{
    CssDeclaration { property: d.property.clone(), value: d.value.clone(), important: d.important }
}

impl VendorPrefixer {
    pub fn new() -> (p: VendorPrefixer) {
        VendorPrefixer
    }

    /// Each rule's declarations, with prefixed copies added.
    pub fn process(&self, stylesheet: Stylesheet) -> (r: Stylesheet)
        ensures
            rules_view(r.rules@) == prefix_rules(rules_view(stylesheet.rules@)),
            views(r.imports@) == views(stylesheet.imports@),
    {
        let Stylesheet { rules, imports } = stylesheet;
        let ghost all = rules@;
        let mut rest = rules;
        let mut out: Vec<CssRule> = Vec::new();
        while rest.len() > 0
            invariant
                rules_view(out@) + prefix_rules(rules_view(rest@)) == prefix_rules(rules_view(all)),
            decreases rest.len(),
        {
            let ghost r0 = rest@;
            let rule = rest.remove(0);
            assert(rest@ =~= r0.drop_first());
            let mut decls: Vec<CssDeclaration> = Vec::new();
            let mut i: usize = 0;
            while i < rule.declarations.len()
                invariant
                    i <= rule.declarations.len(),
                    decls_view(decls@) == prefix_decls(decls_view(rule.declarations@).take(i as int)),
                decreases rule.declarations.len() - i,
            {
                let more = self.prefix_declaration(&rule.declarations[i]);
                let ghost d0 = decls@;
                let mut k: usize = 0;
                while k < more.len()
                    invariant
                        k <= more.len(),
                        decls_view(decls@) == decls_view(d0) + decls_view(more@).take(k as int),
                    decreases more.len() - k,
                {
                    let ghost dd = decls@;
                    decls.push(copy_decl(&more[k]));
                    assert(decls_view(decls@) =~= decls_view(dd).push(decl_view(more@[k as int])));
                    assert(decls_view(more@).take(k + 1) =~= decls_view(more@).take(k as int).push(decl_view(more@[k as int])));
                    k += 1;
                }
                assert(decls_view(more@).take(more.len() as int) =~= decls_view(more@));
                let ghost t = decls_view(rule.declarations@).take(i + 1);
                assert(t.drop_last() =~= decls_view(rule.declarations@).take(i as int));
                assert(t.last() == decl_view(rule.declarations@[i as int]));
                i += 1;
            }
            assert(decls_view(rule.declarations@).take(rule.declarations.len() as int) =~= decls_view(rule.declarations@));
            let ghost o0 = out@;
            let ghost rv = rule_view(rule);
            let new_rule = CssRule { selector: rule.selector, declarations: decls };
            out.push(new_rule);
            proof {
                assert(rules_view(out@) =~= rules_view(o0).push((rv.0, prefix_decls(rv.1))));
                assert(rules_view(r0) =~= seq![rv] + rules_view(rest@));
                assert(prefix_rules(rules_view(r0)) =~= seq![(rv.0, prefix_decls(rv.1))] + prefix_rules(rules_view(rest@)));
                assert(rules_view(out@) + prefix_rules(rules_view(rest@)) =~= rules_view(o0) + prefix_rules(rules_view(r0)));
            }
        }
        assert(rules_view(out@) + prefix_rules(rules_view(rest@)) =~= rules_view(out@));
        Stylesheet { rules: out, imports }
    }

    /// A declaration with its prefixed copies before it.
    pub fn prefix_declaration(&self, d: &CssDeclaration) -> (r: Vec<CssDeclaration>)
        ensures
            decls_view(r@) == prefix_decl(decl_view(*d)),
    {
        let mut result: Vec<CssDeclaration> = Vec::new();
        let p = d.property.as_str();
        if str_eq(p, "user-select") {
            result.push(decl("-webkit-user-select", &d.value, d.important));
            result.push(copy_decl(d));
        } else if str_eq(p, "transform") {
            result.push(decl("-webkit-transform", &d.value, d.important));
            result.push(copy_decl(d));
        } else if str_eq(p, "transition") {
            result.push(decl("-webkit-transition", &d.value, d.important));
            result.push(copy_decl(d));
        } else if str_eq(p, "animation") {
            result.push(decl("-webkit-animation", &d.value, d.important));
            result.push(copy_decl(d));
        } else if str_eq(p, "display") && str_eq(d.value.as_str(), "flex") {
            result.push(CssDeclaration { property: owned("display"), value: owned("-webkit-flex"), important: d.important });
            result.push(copy_decl(d));
        } else if str_eq(p, "appearance") {
            result.push(decl("-webkit-appearance", &d.value, d.important));
            result.push(decl("-moz-appearance", &d.value, d.important));
            result.push(copy_decl(d));
        } else {
            result.push(copy_decl(d));
        }
        assert(decls_view(result@) =~= prefix_decl(decl_view(*d)));
        result
    }

    /// The keyframes rule names, prefixed and plain.
    pub fn prefix_keyframes(&self, name: &str) -> (r: Vec<String>)
        ensures
            views(r@) == seq!["@-webkit-keyframes "@ + name@, "@keyframes "@ + name@],
    {
        let mut a = owned("@-webkit-keyframes ");
        push_str(&mut a, name);
        let mut b = owned("@keyframes ");
        push_str(&mut b, name);
        let mut r: Vec<String> = Vec::new();
        r.push(a);
        r.push(b);
        assert(views(r@) =~= seq!["@-webkit-keyframes "@ + name@, "@keyframes "@ + name@]);
        r
    }

    /// Whether a property is given prefixed copies whatever its value.
    pub fn needs_prefix(&self, property: &str) -> (b: bool)
        ensures
            b == (property@ == "user-select"@ || property@ == "transform"@ || property@ == "transition"@
                || property@ == "animation"@ || property@ == "appearance"@),
    {
        str_eq(property, "user-select") || str_eq(property, "transform") || str_eq(property, "transition")
            || str_eq(property, "animation") || str_eq(property, "appearance")
    }
}

} // verus!
