//! Reading a stylesheet: each `selector { declarations }` block, the
//! `property: value;` declarations inside it, and `@import` paths.
use vstd::prelude::*;
use crate::text::{
    chars_of, string_from, slice_chars, trim, trim_chars, find_from, find_char, lemma_find_from, whitespace,
    is_whitespace, occurs_at, matches_at, starts_with, ends_with, is_prefix, is_suffix, split, split_char,
};
use super::{Stylesheet, CssRule, CssDeclaration, decl_view, rule_view, decls_view, rules_view};

verus! {

/// Where a block starting at `p` has its `{` and `}`: text without `{`
/// from `p`, the first `{`, text without `}`, the first `}` after it.
pub open spec fn rule_at(s: Seq<char>, p: int) -> Option<(int, int)> {
    if 0 <= p < s.len() && s[p] != '{' {
        match find_from(s, '{', p) {
            Some(q) => if q + 1 < s.len() && s[q + 1] != '}' {
                match find_from(s, '}', q + 1) {
                    Some(r) => Some((q, r)),
                    None => None,
                }
            } else {
                None
            },
            None => None,
        }
    } else {
        None
    }
}

/// The blocks from `p` on, leftmost first and not overlapping: each as
/// the text before `{` and the text between the braces.
pub open spec fn rule_caps(s: Seq<char>, p: int) -> Seq<(Seq<char>, Seq<char>)>
    decreases s.len() - p,
{
    if p < 0 || p >= s.len() {
        seq![]
    } else {
        match rule_at(s, p) {
            // the `}` always lies after `p`
            Some((q, r)) => if p < r < s.len() {
                seq![(s.subrange(p, q), s.subrange(q + 1, r))] + rule_caps(s, r + 1)
            } else {
                seq![]
            },
            None => rule_caps(s, p + 1),
        }
    }
}

/// The first position at or after `from` holding `a` or `b`.
pub open spec fn find_either(s: Seq<char>, a: char, b: char, from: int) -> Option<int>
    decreases s.len() - from,
{
    if from < 0 || from >= s.len() {
        None
    } else if s[from] == a || s[from] == b {
        Some(from)
    } else {
        find_either(s, a, b, from + 1)
    }
}

/// A declaration starting at `p`: text without `:` or `;`, a `:`, a value
/// without `;` (up to the next `;` or the end), and the `;` if present.
/// The positions of the `:`, of the value's end, and of the match's end.
pub open spec fn decl_at(s: Seq<char>, p: int) -> Option<(int, int, int)> {
    if 0 <= p < s.len() && s[p] != ':' && s[p] != ';' {
        match find_either(s, ':', ';', p) {
            Some(c) => if s[c] == ':' && c + 1 < s.len() && s[c + 1] != ';' {
                match find_from(s, ';', c + 1) {
                    Some(e) => Some((c, e, e + 1)),
                    None => Some((c, s.len() as int, s.len() as int)),
                }
            } else {
                None
            },
            None => None,
        }
    } else {
        None
    }
}

pub open spec fn decl_caps(s: Seq<char>, p: int) -> Seq<(Seq<char>, Seq<char>)>
    decreases s.len() - p,
{
    if p < 0 || p >= s.len() {
        seq![]
    } else {
        match decl_at(s, p) {
            // the match always ends after `p`
            Some((c, e, end)) => if p < c < e <= s.len() && p < end <= s.len() {
                seq![(s.subrange(p, c), s.subrange(c + 1, e))] + decl_caps(s, end)
            } else {
                seq![]
            },
            None => decl_caps(s, p + 1),
        }
    }
}

pub open spec fn is_quote(c: char) -> bool {
    c == '"' || c == '\''
}

/// The first position at or after `from` that is not whitespace, or the
/// end.
pub open spec fn ws_end(s: Seq<char>, from: int) -> int
    decreases s.len() - from,
{
    if from < 0 || from >= s.len() || !whitespace(s[from]) {
        from
    } else {
        ws_end(s, from + 1)
    }
}

pub open spec fn find_quote(s: Seq<char>, from: int) -> Option<int>
    decreases s.len() - from,
{
    if from < 0 || from >= s.len() {
        None
    } else if is_quote(s[from]) {
        Some(from)
    } else {
        find_quote(s, from + 1)
    }
}

pub(crate) proof fn lemma_find_quote(s: Seq<char>, from: int)
    ensures
        find_quote(s, from) matches Some(e) ==> (from <= e < s.len() && is_quote(s[e])),
    decreases s.len() - from,
{
    if 0 <= from < s.len() && !is_quote(s[from]) {
        lemma_find_quote(s, from + 1);
    }
}

/// The path of an `@import` at `p`: `@import`, whitespace, a quote, text
/// without quotes, a quote.
pub open spec fn import_at(s: Seq<char>, p: int) -> Option<Seq<char>> {
    if occurs_at(s, "@import"@, p) {
        let k = ws_end(s, p + 7);
        if p + 7 < k < s.len() && is_quote(s[k]) && k + 1 < s.len() && !is_quote(s[k + 1]) {
            match find_quote(s, k + 1) {
                Some(e) => if k + 1 < e <= s.len() { Some(s.subrange(k + 1, e)) } else { None },
                None => None,
            }
        } else {
            None
        }
    } else {
        None
    }
}

/// The leftmost `@import` path from `p` on.
pub open spec fn import_cap(s: Seq<char>, p: int) -> Option<Seq<char>>
    decreases s.len() - p,
{
    if p < 0 || p > s.len() {
        None
    } else {
        match import_at(s, p) {
            Some(c) => Some(c),
            None => if p < s.len() { import_cap(s, p + 1) } else { None },
        }
    }
}

/// `v` without every trailing copy of `pat`.
pub open spec fn strip_all(v: Seq<char>, pat: Seq<char>) -> Seq<char>
    decreases v.len(),
{
    if pat.len() > 0 && ends_with(v, pat) { strip_all(v.take(v.len() - pat.len()), pat) } else { v }
}

/// A declaration from its captured property and value: both trimmed, and
/// an `!important` suffix taken off the value.
pub open spec fn decl_of(c: (Seq<char>, Seq<char>)) -> (Seq<char>, Seq<char>, bool) {
    let v = trim(c.1);
    if ends_with(v, "!important"@) {
        (trim(c.0), trim(strip_all(v, "!important"@)), true)
    } else {
        (trim(c.0), v, false)
    }
}

pub open spec fn decls_of(s: Seq<(Seq<char>, Seq<char>)>) -> Seq<(Seq<char>, Seq<char>, bool)>
    decreases s.len(),
{
    if s.len() == 0 { seq![] } else { decls_of(s.drop_last()).push(decl_of(s.last())) }
}

/// The stylesheet read so far from the blocks: rules with declarations,
/// and `@import` paths; a block whose selector starts with `@import` gives
/// only its path, and a block without declarations gives nothing.
pub open spec fn sheet_of(caps: Seq<(Seq<char>, Seq<char>)>) -> (Seq<(Seq<char>, Seq<(Seq<char>, Seq<char>, bool)>)>, Seq<Seq<char>>)
    decreases caps.len(),
{
    if caps.len() == 0 {
        (seq![], seq![])
    } else {
        let prev = sheet_of(caps.drop_last());
        let sel = trim(caps.last().0);
        if starts_with(sel, "@import"@) {
            match import_cap(sel, 0) {
                Some(path) => (prev.0, prev.1.push(path)),
                None => prev,
            }
        } else {
            let d = decls_of(decl_caps(caps.last().1, 0));
            if d.len() > 0 { (prev.0.push((sel, d)), prev.1) } else { prev }
        }
    }
}

/// The stylesheet of a CSS text.
pub open spec fn parse_css(css: Seq<char>) -> (Seq<(Seq<char>, Seq<(Seq<char>, Seq<char>, bool)>)>, Seq<Seq<char>>) {
    sheet_of(rule_caps(css, 0))
}

pub struct CssParser;

/// The first position at or after `from` holding `a` or `b`.
fn find_either_exec(s: &[char], a: char, b: char, from: usize) -> (r: Option<usize>)
    requires
        from <= s.len(),
    ensures
        match r {
            Some(k) => find_either(s@, a, b, from as int) == Some(k as int) && from <= k < s.len(),
            None => find_either(s@, a, b, from as int) is None,
        },
{
    let mut i = from;
    while i < s.len()
        invariant
            from <= i <= s.len(),
            find_either(s@, a, b, from as int) == find_either(s@, a, b, i as int),
        decreases s.len() - i,
    {
        if s[i] == a || s[i] == b {
            return Some(i);
        }
        i += 1;
    }
    None
}

pub(crate) fn ws_end_exec(s: &[char], from: usize) -> (r: usize)
    requires
        from <= s.len(),
    ensures
        r as int == ws_end(s@, from as int),
        from <= r <= s.len(),
{
    let mut i = from;
    while i < s.len() && is_whitespace(s[i])
        invariant
            from <= i <= s.len(),
            ws_end(s@, from as int) == ws_end(s@, i as int),
        decreases s.len() - i,
    {
        i += 1;
    }
    i
}

pub(crate) fn find_quote_exec(s: &[char], from: usize) -> (r: Option<usize>)
    requires
        from <= s.len(),
    ensures
        match r {
            Some(k) => find_quote(s@, from as int) == Some(k as int) && from <= k < s.len(),
            None => find_quote(s@, from as int) is None,
        },
{
    let mut i = from;
    while i < s.len()
        invariant
            from <= i <= s.len(),
            find_quote(s@, from as int) == find_quote(s@, i as int),
        decreases s.len() - i,
    {
        if s[i] == '"' || s[i] == '\'' {
            return Some(i);
        }
        i += 1;
    }
    None
}

/// The block starting at `p`, if there is one.
fn rule_at_exec(s: &[char], p: usize) -> (r: Option<(usize, usize)>)
    requires
        p < s.len(),
    ensures
        match r {
            Some((q, e)) => rule_at(s@, p as int) == Some((q as int, e as int)) && p < q < e < s.len(),
            None => rule_at(s@, p as int) is None,
        },
{
    if s[p] == '{' {
        return None;
    }
    proof {
        lemma_find_from(s@, '{', p as int);
    }
    match find_char(s, '{', p) {
        Some(q) => {
            if q + 1 < s.len() && s[q + 1] != '}' {
                proof {
                    lemma_find_from(s@, '}', q + 1);
                }
                match find_char(s, '}', q + 1) {
                    Some(e) => Some((q, e)),
                    None => None,
                }
            } else {
                None
            }
        }
        None => None,
    }
}

fn decl_at_exec(s: &[char], p: usize) -> (r: Option<(usize, usize, usize)>)
    requires
        p < s.len(),
    ensures
        match r {
            Some((c, e, end)) => decl_at(s@, p as int) == Some((c as int, e as int, end as int)) && p < c < e
                <= s.len() && p < end <= s.len(),
            None => decl_at(s@, p as int) is None,
        },
{
    if s[p] == ':' || s[p] == ';' {
        return None;
    }
    match find_either_exec(s, ':', ';', p) {
        Some(c) => {
            if s[c] == ':' && c + 1 < s.len() && s[c + 1] != ';' {
                proof {
                    lemma_find_from(s@, ';', c + 1);
                }
                match find_char(s, ';', c + 1) {
                    Some(e) => Some((c, e, e + 1)),
                    None => Some((c, s.len(), s.len())),
                }
            } else {
                None
            }
        }
        None => None,
    }
}

fn import_at_exec(s: &[char], p: usize, kw: &[char]) -> (r: Option<Vec<char>>)
    requires
        p <= s.len(),
        kw@ == "@import"@,
    ensures
        match import_at(s@, p as int) {
            Some(c) => r matches Some(v) && v@ == c,
            None => r is None,
        },
{
    if !matches_at(s, kw, p) {
        assert(!occurs_at(s@, "@import"@, p as int));
        return None;
    }
    proof {
        reveal_strlit("@import");
    }
    assert(kw@.len() == 7);
    let k = ws_end_exec(s, p + 7);
    if p + 7 < k && k < s.len() && (s[k] == '"' || s[k] == '\'') && k + 1 < s.len() && !(s[k + 1] == '"' || s[k
        + 1] == '\'') {
        match find_quote_exec(s, k + 1) {
            Some(e) => {
                proof {
                    lemma_find_quote(s@, k + 1);
                }
                assert(e != k + 1);
                Some(slice_chars(s, k + 1, e))
            },
            None => None,
        }
    } else {
        None
    }
}

fn import_cap_exec(s: &[char]) -> (r: Option<Vec<char>>)
    ensures
        match import_cap(s@, 0) {
            Some(c) => r matches Some(v) && v@ == c,
            None => r is None,
        },
{
    let kw = chars_of("@import");
    let mut p: usize = 0;
    loop
        invariant
            p <= s.len(),
            kw@ == "@import"@,
            import_cap(s@, 0) == import_cap(s@, p as int),
        decreases s.len() - p,
    {
        match import_at_exec(s, p, kw.as_slice()) {
            Some(c) => {
                return Some(c);
            }
            None => {
                if p < s.len() {
                    p += 1;
                } else {
                    return None;
                }
            }
        }
    }
}

fn strip_all_exec(v: &[char], pat: &[char]) -> (r: Vec<char>)
    ensures
        r@ == strip_all(v@, pat@),
{
    let mut end: usize = v.len();
    assert(v@.take(end as int) =~= v@);
    loop
        invariant
            end <= v.len(),
            strip_all(v@, pat@) == strip_all(v@.take(end as int), pat@),
        decreases end,
    {
        let cur = slice_chars(v, 0, end);
        assert(cur@ =~= v@.take(end as int));
        if pat.len() > 0 && is_suffix(cur.as_slice(), pat) {
            assert(v@.take(end as int).take(end - pat.len()) =~= v@.take(end - pat.len()));
            end = end - pat.len();
        } else {
            return cur;
        }
    }
}

impl CssParser {
    pub fn new() -> (p: CssParser) {
        CssParser
    }

    /// The stylesheet of `css`; never fails.
    pub fn parse(&self, css: &str) -> (r: Result<Stylesheet, String>)
        ensures
            r matches Ok(sheet) && rules_view(sheet.rules@) == parse_css(css@).0 && crate::text::views(
                sheet.imports@,
            ) == parse_css(css@).1,
    {
        let s = chars_of(css);
        let mut rules: Vec<CssRule> = Vec::new();
        let mut imports: Vec<String> = Vec::new();
        let import_kw = chars_of("@import");
        let mut p: usize = 0;
        let ghost mut caps: Seq<(Seq<char>, Seq<char>)> = seq![];
        while p < s.len()
            invariant
                p <= s.len(),
                s@ == css@,
                import_kw@ == "@import"@,
                rule_caps(s@, 0) == caps + rule_caps(s@, p as int),
                rules_view(rules@) == sheet_of(caps).0,
                crate::text::views(imports@) == sheet_of(caps).1,
            decreases s.len() - p,
        {
            match rule_at_exec(s.as_slice(), p) {
                Some((q, e)) => {
                    let sel_v = slice_chars(s.as_slice(), p, q);
                    let body = slice_chars(s.as_slice(), q + 1, e);
                    let ghost cap = (s@.subrange(p as int, q as int), s@.subrange(q + 1, e as int));
                    assert(rule_caps(s@, p as int) == seq![cap] + rule_caps(s@, e + 1));
                    let selector = trim_chars(sel_v.as_slice());
                    let ghost prev = sheet_of(caps);
                    proof {
                        assert((caps.push(cap)).drop_last() =~= caps);
                        assert(caps + rule_caps(s@, p as int) =~= caps.push(cap) + rule_caps(s@, e + 1));
                        caps = caps.push(cap);
                    }
                    if is_prefix(selector.as_slice(), import_kw.as_slice()) {
                        match import_cap_exec(selector.as_slice()) {
                            Some(path) => {
                                let ghost i0 = imports@;
                                imports.push(string_from(path.as_slice()));
                                assert(crate::text::views(imports@) =~= crate::text::views(i0).push(path@));
                            }
                            None => {}
                        }
                    } else {
                        let declarations = self.parse_block(body.as_slice());
                        if declarations.len() > 0 {
                            let ghost r0 = rules@;
                            let rule = CssRule { selector: string_from(selector.as_slice()), declarations };
                            let ghost rv = rule_view(rule);
                            rules.push(rule);
                            assert(rules_view(rules@) =~= rules_view(r0).push(rv));
                        }
                    }
                    p = e + 1;
                }
                None => {
                    assert(rule_caps(s@, p as int) == rule_caps(s@, p + 1));
                    p += 1;
                }
            }
        }
        assert(caps + rule_caps(s@, p as int) =~= caps);
        Ok(Stylesheet { rules, imports })
    }

    /// The declarations of a block's inside.
    fn parse_block(&self, s: &[char]) -> (r: Vec<CssDeclaration>)
        ensures
            decls_view(r@) == decls_of(decl_caps(s@, 0)),
    {
        let mut decls: Vec<CssDeclaration> = Vec::new();
        let mut p: usize = 0;
        let ghost mut caps: Seq<(Seq<char>, Seq<char>)> = seq![];
        let imp = chars_of("!important");
        while p < s.len()
            invariant
                p <= s.len(),
                imp@ == "!important"@,
                decl_caps(s@, 0) == caps + decl_caps(s@, p as int),
                decls_view(decls@) == decls_of(caps),
            decreases s.len() - p,
        {
            match decl_at_exec(s, p) {
                Some((c, e, end)) => {
                    let prop = slice_chars(s, p, c);
                    let val = slice_chars(s, c + 1, e);
                    let ghost cap = (s@.subrange(p as int, c as int), s@.subrange(c + 1, e as int));
                    assert(decl_caps(s@, p as int) == seq![cap] + decl_caps(s@, end as int));
                    let property = trim_chars(prop.as_slice());
                    let mut value = trim_chars(val.as_slice());
                    let mut important = false;
                    if is_suffix(value.as_slice(), imp.as_slice()) {
                        important = true;
                        let stripped = strip_all_exec(value.as_slice(), imp.as_slice());
                        value = trim_chars(stripped.as_slice());
                    }
                    let d = CssDeclaration {
                        property: string_from(property.as_slice()),
                        value: string_from(value.as_slice()),
                        important,
                    };
                    let ghost d0 = decls@;
                    let ghost dv = decl_view(d);
                    assert(dv == decl_of(cap));
                    decls.push(d);
                    proof {
                        assert(decls_view(decls@) =~= decls_view(d0).push(dv));
                        assert((caps.push(cap)).drop_last() =~= caps);
                        assert(caps + decl_caps(s@, p as int) =~= caps.push(cap) + decl_caps(s@, end as int));
                        caps = caps.push(cap);
                    }
                    p = end;
                }
                None => {
                    assert(decl_caps(s@, p as int) == decl_caps(s@, p + 1));
                    p += 1;
                }
            }
        }
        assert(caps + decl_caps(s@, p as int) =~= caps);
        decls
    }

    /// The parts of a selector list, each trimmed.
    pub fn parse_selector(&self, selector: &str) -> (r: Vec<String>)
        ensures
            r@.len() == split(selector@, ',').len(),
            forall|i: int| 0 <= i < r@.len() ==> #[trigger] r@[i]@ == trim(split(selector@, ',')[i]),
    {
        let cs = chars_of(selector);
        let parts = split_char(cs.as_slice(), ',');
        let mut r: Vec<String> = Vec::new();
        let mut i: usize = 0;
        while i < parts.len()
            invariant
                i <= parts.len(),
                cs@ == selector@,
                parts@.len() == split(selector@, ',').len(),
                forall|k: int| 0 <= k < parts@.len() ==> #[trigger] parts@[k]@ == split(selector@, ',')[k],
                r@.len() == i,
                forall|k: int| 0 <= k < i ==> #[trigger] r@[k]@ == trim(split(selector@, ',')[k]),
            decreases parts.len() - i,
        {
            let t = trim_chars(parts[i].as_slice());
            r.push(string_from(t.as_slice()));
            i += 1;
        }
        r
    }

    /// A `property: value` pair (both trimmed) when `decl` has exactly one
    /// colon.
    pub fn parse_declaration(&self, decl: &str) -> (r: Option<CssDeclaration>)
        ensures
            split(decl@, ':').len() == 2 ==> (r matches Some(d) && d.property@ == trim(split(decl@, ':')[0])
                && d.value@ == trim(split(decl@, ':')[1]) && !d.important),
            split(decl@, ':').len() != 2 ==> r is None,
    {
        let cs = chars_of(decl);
        let parts = split_char(cs.as_slice(), ':');
        if parts.len() == 2 {
            let p = trim_chars(parts[0].as_slice());
            let v = trim_chars(parts[1].as_slice());
            Some(CssDeclaration { property: string_from(p.as_slice()), value: string_from(v.as_slice()), important: false })
        } else {
            None
        }
    }
}

} // verus!
