//! Minified CSS text, and comment removal.
use vstd::prelude::*;
use crate::text::{owned, push_str, push_string, push_char, chars_of, string_from, slice_chars, trim, trim_chars,
    split, split_char, join, views, join_strings, replace, replace_chars, starts_with, ends_with, is_prefix, is_suffix};
use super::{Stylesheet, CssRule, CssDeclaration, decl_view, decls_view, rule_view, rules_view};

verus! {

/// A selector without spaces around `:`, `>`, `+` and `~`, and its
/// comma-separated parts trimmed and joined by `,`.
pub open spec fn min_selector(sel: Seq<char>) -> Seq<char> {
    let r = replace(replace(replace(replace(sel, " :"@, ":"@), " > "@, ">"@), " + "@, "+"@), " ~ "@, "~"@);
    join(trims(split(r, ',')), ","@)
}

pub open spec fn trims(ps: Seq<Seq<char>>) -> Seq<Seq<char>>
    decreases ps.len(),
{
    if ps.len() == 0 { seq![] } else { trims(ps.drop_last()).push(trim(ps.last())) }
}

/// A value with doubled spaces halved and zero lengths shortened; an
/// opaque `rgba(..)` written as `rgb(..)`.
pub open spec fn min_value(v: Seq<char>) -> Seq<char> {
    let r = replace(
        replace(replace(replace(replace(replace(v, "  "@, " "@), " 0px"@, " 0"@), "0px "@, "0 "@), "0px"@, "0"@), " 0%"@, " 0"@),
        "0% "@,
        "0 "@,
    );
    if starts_with(r, "rgba("@) && ends_with(r, ")"@) { min_rgba(r) } else { r }
}

/// `rgba(r, g, b, 1)` as `rgb(r,g,b)`; other colours unchanged.
pub open spec fn min_rgba(r: Seq<char>) -> Seq<char> {
    let parts = split(r.subrange(5, r.len() - 1), ',');
    if parts.len() == 4 && trim(parts[3]) == "1"@ {
        "rgb("@ + trim(parts[0]) + ","@ + trim(parts[1]) + ","@ + trim(parts[2]) + ")"@
    } else {
        r
    }
}

/// `x` holds no `c`.
pub open spec fn lacks(x: Seq<char>, c: char) -> bool {
    forall|i: int| 0 <= i < x.len() ==> x[i] != c
}

proof fn lemma_split_whole(x: Seq<char>, c: char)
    requires
        lacks(x, c),
    ensures
        split(x, c) == seq![x],
{
    crate::text::lemma_find_from(x, c, 0);
}

proof fn lemma_split_first(x: Seq<char>, y: Seq<char>, c: char)
    requires
        lacks(x, c),
    ensures
        split(x + seq![c] + y, c) == seq![x] + split(y, c),
{
    let s = x + seq![c] + y;
    crate::text::lemma_find_from(s, c, 0);
    assert(s[x.len() as int] == c);
    match crate::text::find_from(s, c, 0) {
        Some(k) => {
            if k < x.len() {
                assert(s[k] == x[k]);
            }
            assert(k == x.len());
            assert(s.take(k) =~= x);
            assert(s.skip(k + 1) =~= y);
        },
        None => {},
    }
}

/// Minifying an `rgba(r, g, b, a)` colour keeps the colour it denotes: it
/// is written `rgb(r,g,b)` only when the alpha is `1`; with any other alpha
/// the text stays as it is, alpha included.
pub proof fn lemma_rgba_keeps_alpha(r: Seq<char>, g: Seq<char>, b: Seq<char>, a: Seq<char>)
    requires
        lacks(r, ','),
        lacks(g, ','),
        lacks(b, ','),
        lacks(a, ','),
    ensures
        ({
            let v = "rgba("@ + r + ","@ + g + ","@ + b + ","@ + a + ")"@;
            min_rgba(v) == if trim(a) == "1"@ {
                "rgb("@ + trim(r) + ","@ + trim(g) + ","@ + trim(b) + ")"@
            } else {
                v
            }
        }),
{
    reveal_strlit("rgba(");
    reveal_strlit(",");
    reveal_strlit(")");
    let v = "rgba("@ + r + ","@ + g + ","@ + b + ","@ + a + ")"@;
    let inner = v.subrange(5, v.len() - 1);
    assert(inner =~= r + seq![','] + (g + seq![','] + (b + seq![','] + a)));
    lemma_split_first(r, g + seq![','] + (b + seq![','] + a), ',');
    lemma_split_first(g, b + seq![','] + a, ',');
    lemma_split_first(b, a, ',');
    lemma_split_whole(a, ',');
    let parts = split(inner, ',');
    assert(parts =~= seq![r, g, b, a]);
}

pub open spec fn min_decl(d: (Seq<char>, Seq<char>, bool)) -> Seq<char> {
    trim(d.0) + ":"@ + min_value(d.1) + if d.2 { "!important;"@ } else { ";"@ }
}

pub open spec fn decls_min(s: Seq<(Seq<char>, Seq<char>, bool)>) -> Seq<char>
    decreases s.len(),
{
    if s.len() == 0 { seq![] } else { decls_min(s.drop_last()) + min_decl(s.last()) }
}

/// Each rule as its minified selector and declarations in braces.
pub open spec fn sheet_min(rs: Seq<(Seq<char>, Seq<(Seq<char>, Seq<char>, bool)>)>) -> Seq<char>
    decreases rs.len(),
{
    if rs.len() == 0 {
        seq![]
    } else {
        sheet_min(rs.drop_last()) + min_selector(rs.last().0) + seq!['{'] + decls_min(rs.last().1) + seq!['}']
    }
}

/// The text outside `/* .. */` comments; an unclosed comment runs to the
/// end.
pub open spec fn strip_comments(s: Seq<char>, i: int, in_c: bool) -> Seq<char>
    decreases s.len() - i,
{
    if i < 0 || i >= s.len() {
        seq![]
    } else if !in_c && s[i] == '/' && i + 1 < s.len() && s[i + 1] == '*' {
        strip_comments(s, i + 2, true)
    } else if in_c && s[i] == '*' && i + 1 < s.len() && s[i + 1] == '/' {
        strip_comments(s, i + 2, false)
    } else if !in_c {
        seq![s[i]] + strip_comments(s, i + 1, in_c)
    } else {
        strip_comments(s, i + 1, in_c)
    }
}

pub struct CssMinifier;

fn replace_str(s: &[char], from: &str, to: &str) -> (r: Vec<char>)
    ensures
        r@ == replace(s@, from@, to@),
{
    let f = chars_of(from);
    let t = chars_of(to);
    replace_chars(s, f.as_slice(), t.as_slice())
}

impl CssMinifier {
    pub fn new() -> (m: CssMinifier) {
        CssMinifier
    }

    /// The stylesheet's rules, minified, one after another.
    pub fn minify(&self, stylesheet: &Stylesheet) -> (r: String)
        ensures
            r@ == sheet_min(rules_view(stylesheet.rules@)),
    {
        let mut result = String::new();
        let mut i: usize = 0;
        while i < stylesheet.rules.len()
            invariant
                i <= stylesheet.rules.len(),
                result@ == sheet_min(rules_view(stylesheet.rules@).take(i as int)),
            decreases stylesheet.rules.len() - i,
        {
            let rule = &stylesheet.rules[i];
            let sel = self.minify_selector(rule.selector.as_str());
            push_string(&mut result, &sel);
            push_char(&mut result, '{');
            let ghost r1 = result@;
            let mut k: usize = 0;
            while k < rule.declarations.len()
                invariant
                    k <= rule.declarations.len(),
                    result@ == r1 + decls_min(decls_view(rule.declarations@).take(k as int)),
                decreases rule.declarations.len() - k,
            {
                let d = self.minify_declaration(&rule.declarations[k]);
                push_string(&mut result, &d);
                proof {
                    let t = decls_view(rule.declarations@).take(k + 1);
                    assert(t.drop_last() =~= decls_view(rule.declarations@).take(k as int));
                    assert(t.last() == decl_view(rule.declarations@[k as int]));
                }
                k += 1;
            }
            assert(decls_view(rule.declarations@).take(rule.declarations.len() as int) =~= decls_view(rule.declarations@));
            push_char(&mut result, '}');
            proof {
                let t = rules_view(stylesheet.rules@).take(i + 1);
                assert(t.drop_last() =~= rules_view(stylesheet.rules@).take(i as int));
                assert(t.last() == rule_view(stylesheet.rules@[i as int]));
                assert(result@ =~= sheet_min(t));
            }
            i += 1;
        }
        assert(rules_view(stylesheet.rules@).take(stylesheet.rules.len() as int) =~= rules_view(stylesheet.rules@));
        result
    }

    fn minify_selector(&self, selector: &str) -> (r: String)
        ensures
            r@ == min_selector(selector@),
    {
        let s0 = chars_of(selector);
        let s1 = replace_str(s0.as_slice(), " :", ":");
        let s2 = replace_str(s1.as_slice(), " > ", ">");
        let s3 = replace_str(s2.as_slice(), " + ", "+");
        let s4 = replace_str(s3.as_slice(), " ~ ", "~");
        let parts = split_char(s4.as_slice(), ',');
        let mut trimmed: Vec<String> = Vec::new();
        let mut i: usize = 0;
        while i < parts.len()
            invariant
                i <= parts.len(),
                parts@.len() == split(s4@, ',').len(),
                forall|k: int| 0 <= k < parts@.len() ==> #[trigger] parts@[k]@ == split(s4@, ',')[k],
                views(trimmed@) == trims(split(s4@, ',').take(i as int)),
            decreases parts.len() - i,
        {
            let t = trim_chars(parts[i].as_slice());
            let ghost v0 = trimmed@;
            let ts = string_from(t.as_slice());
            trimmed.push(ts);
            proof {
                let q = split(s4@, ',').take(i + 1);
                assert(q.drop_last() =~= split(s4@, ',').take(i as int));
                assert(q.last() == parts@[i as int]@);
                assert(views(trimmed@) =~= views(v0).push(ts@));
            }
            i += 1;
        }
        assert(split(s4@, ',').take(parts.len() as int) =~= split(s4@, ','));
        join_strings(&trimmed, ",")
    }

    fn minify_declaration(&self, decl: &CssDeclaration) -> (r: String)
        ensures
            r@ == min_decl(decl_view(*decl)),
    {
        let p = trim_chars(chars_of(decl.property.as_str()).as_slice());
        let mut r = string_from(p.as_slice());
        push_str(&mut r, ":");
        let v = self.minify_value(decl.value.as_str());
        push_string(&mut r, &v);
        if decl.important {
            push_str(&mut r, "!important;");
        } else {
            push_str(&mut r, ";");
        }
        r
    }

    fn minify_value(&self, value: &str) -> (r: String)
        ensures
            r@ == min_value(value@),
    {
        let v0 = chars_of(value);
        let v1 = replace_str(v0.as_slice(), "  ", " ");
        let v2 = replace_str(v1.as_slice(), " 0px", " 0");
        let v3 = replace_str(v2.as_slice(), "0px ", "0 ");
        let v4 = replace_str(v3.as_slice(), "0px", "0");
        let v5 = replace_str(v4.as_slice(), " 0%", " 0");
        let v6 = replace_str(v5.as_slice(), "0% ", "0 ");
        let rgba = chars_of("rgba(");
        let close = chars_of(")");
        if is_prefix(v6.as_slice(), rgba.as_slice()) && is_suffix(v6.as_slice(), close.as_slice()) {
            self.minify_rgba(v6.as_slice())
        } else {
            string_from(v6.as_slice())
        }
    }

    fn minify_rgba(&self, rgba: &[char]) -> (r: String)
        requires
            starts_with(rgba@, "rgba("@),
            ends_with(rgba@, ")"@),
        ensures
            r@ == min_rgba(rgba@),
    {
        proof {
            reveal_strlit("rgba(");
            reveal_strlit(")");
            assert(rgba@.take(5)[4] == '(');
            assert(rgba@[4] == '(');
            assert(rgba@.skip(rgba@.len() - 1)[0] == ')');
        }
        let inner = slice_chars(rgba, 5, rgba.len() - 1);
        let parts = split_char(inner.as_slice(), ',');
        if parts.len() == 4 {
            let r = trim_chars(parts[0].as_slice());
            let g = trim_chars(parts[1].as_slice());
            let b = trim_chars(parts[2].as_slice());
            let a = trim_chars(parts[3].as_slice());
            let one = chars_of("1");
            if crate::text::chars_eq(a.as_slice(), one.as_slice()) {
                let mut s = owned("rgb(");
                push_string(&mut s, &string_from(r.as_slice()));
                push_str(&mut s, ",");
                push_string(&mut s, &string_from(g.as_slice()));
                push_str(&mut s, ",");
                push_string(&mut s, &string_from(b.as_slice()));
                push_str(&mut s, ")");
                return s;
            }
        }
        string_from(rgba)
    }

    /// `css` without its `/* .. */` comments.
    pub fn remove_comments(&self, css: &str) -> (r: String)
        ensures
            r@ == strip_comments(css@, 0, false),
    {
        let chars = chars_of(css);
        let mut result: Vec<char> = Vec::new();
        let mut in_comment = false;
        let mut i: usize = 0;
        while i < chars.len()
            invariant
                i <= chars.len(),
                chars@ == css@,
                strip_comments(css@, 0, false) == result@ + strip_comments(css@, i as int, in_comment),
            decreases chars.len() - i,
        {
            if !in_comment && chars[i] == '/' && i + 1 < chars.len() && chars[i + 1] == '*' {
                in_comment = true;
                i += 2;
            } else if in_comment && chars[i] == '*' && i + 1 < chars.len() && chars[i + 1] == '/' {
                in_comment = false;
                i += 2;
            } else {
                if !in_comment {
                    let ghost r0 = result@;
                    result.push(chars[i]);
                    assert(r0 + (seq![chars@[i as int]] + strip_comments(css@, i + 1, in_comment)) =~= result@
                        + strip_comments(css@, i + 1, in_comment));
                }
                i += 1;
            }
        }
        assert(result@ + strip_comments(css@, i as int, in_comment) =~= result@);
        string_from(result.as_slice())
    }
}

} // verus!
