//! The module graph: which files import which, found from an entry file
//! breadth first, and an order in which every module follows what it
//! imports.
use vstd::prelude::*;
use crate::text::{chars_of, slice_string, whitespace, is_whitespace, occurs_at, matches_at, views, owned, str_eq, split,
    split_char, chars_eq,
    contains_string};
use crate::css::parser::{ws_end, find_quote, is_quote, ws_end_exec, find_quote_exec, lemma_find_quote};

verus! {

// ---------------------------------------------------------------------------
// Import statements: `import <anything> from "<path>"`
// ---------------------------------------------------------------------------

/// The end of the line from `from` on: the first `\n` at or after it, or
/// the end of the text.
pub open spec fn line_end(s: Seq<char>, from: int) -> int
    decreases s.len() - from,
{
    if from < 0 || from >= s.len() || s[from] == '\n' {
        from
    } else {
        line_end(s, from + 1)
    }
}

/// The tail of an import from `e` on: whitespace, `from`, whitespace, a
/// quote, text without quotes, a quote. The bounds of the quoted text.
pub open spec fn tail_at(s: Seq<char>, e: int) -> Option<(int, int)> {
    if 0 <= e < s.len() && whitespace(s[e]) {
        let f = ws_end(s, e);
        if occurs_at(s, "from"@, f) {
            let g = ws_end(s, f + 4);
            if f + 4 < g < s.len() && is_quote(s[g]) && g + 1 < s.len() && !is_quote(s[g + 1]) {
                match find_quote(s, g + 1) {
                    Some(r) => Some((g + 1, r)),
                    None => None,
                }
            } else {
                None
            }
        } else {
            None
        }
    } else {
        None
    }
}

/// The tail that starts furthest right in `lo..=hi`.
pub open spec fn last_tail(s: Seq<char>, lo: int, hi: int) -> Option<(int, int)>
    decreases hi - lo + 1,
{
    if hi < lo {
        None
    } else {
        match tail_at(s, hi) {
            Some(t) => Some(t),
            None => last_tail(s, lo, hi - 1),
        }
    }
}

/// An import starting at `p`: `import`, whitespace, then the text before
/// the tail stays on one line after the whitespace, and the tail starting
/// furthest right is taken. The bounds of the quoted path.
pub open spec fn import_match_at(s: Seq<char>, p: int) -> Option<(int, int)> {
    if occurs_at(s, "import"@, p) && p + 6 < s.len() && whitespace(s[p + 6]) {
        last_tail(s, p + 7, line_end(s, ws_end(s, p + 6)))
    } else {
        None
    }
}

/// The imported paths from `p` on, leftmost first and not overlapping.
pub open spec fn import_caps(s: Seq<char>, p: int) -> Seq<Seq<char>>
    decreases s.len() - p,
{
    if p < 0 || p >= s.len() {
        seq![]
    } else {
        match import_match_at(s, p) {
            // the closing quote lies after `p`
            Some((a, b)) => if p < b < s.len() {
                seq![s.subrange(a, b)] + import_caps(s, b + 1)
            } else {
                seq![]
            },
            None => import_caps(s, p + 1),
        }
    }
}

/// The paths that a module's text imports.
pub open spec fn imports_of(content: Seq<char>) -> Seq<Seq<char>> {
    import_caps(content, 0)
}

fn line_end_exec(s: &[char], from: usize) -> (r: usize)
    requires
        from <= s.len(),
    ensures
        r as int == line_end(s@, from as int),
        from <= r <= s.len(),
{
    let mut i = from;
    while i < s.len() && s[i] != '\n'
        invariant
            from <= i <= s.len(),
            line_end(s@, from as int) == line_end(s@, i as int),
        decreases s.len() - i,
    {
        i += 1;
    }
    i
}

fn tail_at_exec(s: &[char], e: usize, kw: &[char]) -> (r: Option<(usize, usize)>)
    requires
        e < s.len(),
        kw@ == "from"@,
    ensures
        match r {
            Some((a, b)) => tail_at(s@, e as int) == Some((a as int, b as int)) && e < a < b < s.len(),
            None => tail_at(s@, e as int) is None,
        },
{
    if !is_whitespace(s[e]) {
        return None;
    }
    let f = ws_end_exec(s, e);
    if !matches_at(s, kw, f) {
        return None;
    }
    proof {
        reveal_strlit("from");
    }
    assert(kw@.len() == 4);
    let g = ws_end_exec(s, f + 4);
    if f + 4 < g && g < s.len() && (s[g] == '"' || s[g] == '\'') && g + 1 < s.len() && !(s[g + 1] == '"'
        || s[g + 1] == '\'') {
        match find_quote_exec(s, g + 1) {
            Some(b) => {
                proof {
                    lemma_find_quote(s@, g + 1);
                }
                Some((g + 1, b))
            },
            None => None,
        }
    } else {
        None
    }
}

fn import_match_exec(s: &[char], p: usize, kw_import: &[char], kw_from: &[char]) -> (r: Option<(usize, usize)>)
    requires
        p < s.len(),
        kw_import@ == "import"@,
        kw_from@ == "from"@,
    ensures
        match r {
            Some((a, b)) => import_match_at(s@, p as int) == Some((a as int, b as int)) && p < a < b < s.len(),
            None => import_match_at(s@, p as int) is None,
        },
{
    if !matches_at(s, kw_import, p) {
        return None;
    }
    proof {
        reveal_strlit("import");
    }
    assert(kw_import@.len() == 6);
    if !(p + 6 < s.len() && is_whitespace(s[p + 6])) {
        return None;
    }
    let w = ws_end_exec(s, p + 6);
    let l = line_end_exec(s, w);
    let mut e = l;
    assert(import_match_at(s@, p as int) == last_tail(s@, p + 7, l as int));
    while e >= p + 7
        invariant
            p + 6 < s.len(),
            import_match_at(s@, p as int) == last_tail(s@, p + 7, l as int),
            e <= s.len(),
            kw_from@ == "from"@,
            last_tail(s@, p + 7, l as int) == last_tail(s@, p + 7, e as int),
        decreases e,
    {
        if e < s.len() {
            match tail_at_exec(s, e, kw_from) {
                Some((a, b)) => {
                    return Some((a, b));
                },
                None => {},
            }
        }
        e -= 1;
    }
    None
}

/// The paths imported by `content`, in order.
pub fn extract_imports(content: &str) -> (r: Vec<String>)
    ensures
        views(r@) == imports_of(content@),
{
    let s = chars_of(content);
    let kw_import: Vec<char> = vec!['i', 'm', 'p', 'o', 'r', 't'];
    let kw_from: Vec<char> = vec!['f', 'r', 'o', 'm'];
    proof {
        reveal_strlit("import");
        reveal_strlit("from");
    }
    assert(kw_import@ =~= "import"@);
    assert(kw_from@ =~= "from"@);
    let mut out: Vec<String> = Vec::new();
    let mut p: usize = 0;
    while p < s.len()
        invariant
            p <= s.len(),
            s@ == content@,
            kw_import@ == "import"@,
            kw_from@ == "from"@,
            views(out@) + import_caps(s@, p as int) == import_caps(s@, 0),
        decreases s.len() - p,
    {
        match import_match_exec(s.as_slice(), p, kw_import.as_slice(), kw_from.as_slice()) {
            Some((a, b)) => {
                let piece = slice_string(s.as_slice(), a, b);
                let ghost o0 = views(out@);
                out.push(piece);
                assert(views(out@) =~= o0.push(piece@));
                assert(import_caps(s@, p as int) == seq![s@.subrange(a as int, b as int)] + import_caps(s@, b + 1));
                assert(views(out@) + import_caps(s@, b + 1) =~= o0 + import_caps(s@, p as int));
                p = b + 1;
            },
            None => {
                p += 1;
            },
        }
    }
    assert(views(out@) + import_caps(s@, p as int) =~= views(out@));
    out
}

// ---------------------------------------------------------------------------
// The graph
// ---------------------------------------------------------------------------

/// A module: its path, its text and the paths it imports.
#[derive(Debug)]
pub struct Node {
    pub path: String,
    pub content: String,
    pub deps: Vec<String>,
}

/// A module as plain values: path, text, imported paths.
pub open spec fn node_view(n: Node) -> (Seq<char>, Seq<char>, Seq<Seq<char>>) {
    (n.path@, n.content@, views(n.deps@))
}

pub open spec fn nodes_view(s: Seq<Node>) -> Seq<(Seq<char>, Seq<char>, Seq<Seq<char>>)> {
    s.map_values(|n: Node| node_view(n))
}

/// The parts of a path that are not empty and not `.`.
pub open spec fn normal_parts(s: Seq<Seq<char>>) -> Seq<Seq<char>>
    decreases s.len(),
{
    if s.len() == 0 {
        seq![]
    } else if s.last().len() == 0 || s.last() == seq!['.'] {
        normal_parts(s.drop_last())
    } else {
        normal_parts(s.drop_last()).push(s.last())
    }
}

/// The components of a path, as `Path::components` gives them: the root
/// (`/`) or a leading `.`, then the parts between separators, without
/// empty parts and without `.`. Two paths name one module when their
/// components are equal, as `PathBuf`s compare.
#[verifier::opaque]
pub open spec fn path_key(p: Seq<char>) -> Seq<Seq<char>> {
    let parts = split(p, '/');
    let lead: Seq<Seq<char>> = if p.len() > 0 && p[0] == '/' {
        seq![seq!['/']]
    } else if parts.len() > 0 && parts[0] == seq!['.'] {
        seq![seq!['.']]
    } else {
        seq![]
    };
    lead + normal_parts(parts)
}

fn path_key_exec(p: &str) -> (r: Vec<Vec<char>>)
    ensures
        r@.map_values(|v: Vec<char>| v@) == path_key(p@),
{
    reveal(path_key);
    let cs = chars_of(p);
    let parts = split_char(cs.as_slice(), '/');
    let ghost sp = split(p@, '/');
    let dot: Vec<char> = vec!['.'];
    assert(dot@ =~= seq!['.']);
    let mut r: Vec<Vec<char>> = Vec::new();
    if cs.len() > 0 && cs[0] == '/' {
        r.push(vec!['/']);
    } else if parts.len() > 0 && chars_eq(parts[0].as_slice(), dot.as_slice()) {
        r.push(vec!['.']);
    }
    let ghost lead = r@.map_values(|v: Vec<char>| v@);
    proof {
        let sl: Seq<Seq<char>> = if p@.len() > 0 && p@[0] == '/' {
            seq![seq!['/']]
        } else if sp.len() > 0 && sp[0] == seq!['.'] {
            seq![seq!['.']]
        } else {
            seq![]
        };
        if r@.len() > 0 {
            assert(r@[0]@ =~= sl[0]);
        }
        assert(lead =~= sl);
    }
    let mut i: usize = 0;
    assert(sp.take(0) =~= Seq::<Seq<char>>::empty());
    assert(lead + normal_parts(sp.take(0)) =~= lead);
    while i < parts.len()
        invariant
            i <= parts@.len(),
            parts@.len() == sp.len(),
            sp == split(p@, '/'),
            dot@ == seq!['.'],
            forall|j: int| 0 <= j < parts@.len() ==> #[trigger] parts@[j]@ == sp[j],
            r@.map_values(|v: Vec<char>| v@) == lead + normal_parts(sp.take(i as int)),
        decreases parts.len() - i,
    {
        assert(sp.take(i + 1).drop_last() =~= sp.take(i as int));
        assert(sp.take(i + 1).last() == parts@[i as int]@);
        let part = &parts[i];
        if !(part.len() == 0 || chars_eq(part.as_slice(), dot.as_slice())) {
            let ghost r0 = r@.map_values(|v: Vec<char>| v@);
            let c = part.clone();
            assert(c@ == part@);
            r.push(c);
            assert(r@.map_values(|v: Vec<char>| v@) =~= r0.push(parts@[i as int]@));
            assert(lead + normal_parts(sp.take(i as int)).push(parts@[i as int]@) =~= (lead + normal_parts(
                sp.take(i as int),
            )).push(parts@[i as int]@));
        }
        i += 1;
    }
    assert(sp.take(parts.len() as int) =~= sp);
    r
}

/// Whether two paths name one module (see `path_key`).
pub fn same_path(a: &str, b: &str) -> (r: bool)
    ensures
        r == (path_key(a@) == path_key(b@)),
{
    let x = path_key_exec(a);
    let y = path_key_exec(b);
    let ghost xv = x@.map_values(|v: Vec<char>| v@);
    let ghost yv = y@.map_values(|v: Vec<char>| v@);
    if x.len() != y.len() {
        assert(xv.len() != yv.len());
        return false;
    }
    let mut i: usize = 0;
    while i < x.len()
        invariant
            i <= x@.len(),
            x@.len() == y@.len(),
            xv == x@.map_values(|v: Vec<char>| v@),
            yv == y@.map_values(|v: Vec<char>| v@),
            xv == path_key(a@),
            yv == path_key(b@),
            forall|j: int| 0 <= j < i ==> xv[j] == yv[j],
        decreases x.len() - i,
    {
        assert(xv[i as int] == x@[i as int]@ && yv[i as int] == y@[i as int]@);
        if !chars_eq(x[i].as_slice(), y[i].as_slice()) {
            assert(xv[i as int] != yv[i as int]);
            assert(xv != yv);
            return false;
        }
        i += 1;
    }
    assert(xv =~= yv);
    true
}

/// The position of the module with path `p`, if there is one.
pub open spec fn index_of_path(g: Seq<(Seq<char>, Seq<char>, Seq<Seq<char>>)>, p: Seq<char>) -> Option<int>
    decreases g.len(),
{
    if g.len() == 0 {
        None
    } else {
        match index_of_path(g.drop_last(), p) {
            Some(k) => Some(k),
            None => if path_key(g.last().0) == path_key(p) { Some(g.len() - 1) } else { None },
        }
    }
}

pub open spec fn has_path(g: Seq<(Seq<char>, Seq<char>, Seq<Seq<char>>)>, p: Seq<char>) -> bool {
    index_of_path(g, p) is Some
}

/// No two modules share a path (by components), and each module's imports are those of
/// its text.
pub open spec fn graph_wf(g: Seq<(Seq<char>, Seq<char>, Seq<Seq<char>>)>) -> bool {
    &&& forall|i: int, j: int| 0 <= i < j < g.len() ==> path_key(g[i].0) != path_key(g[j].0)
    &&& forall|k: int| 0 <= k < g.len() ==> #[trigger] g[k].2 == imports_of(g[k].1)
}

pub proof fn lemma_index_of_path(g: Seq<(Seq<char>, Seq<char>, Seq<Seq<char>>)>, p: Seq<char>)
    ensures
        match index_of_path(g, p) {
            Some(k) => 0 <= k < g.len() && path_key(g[k].0) == path_key(p) && forall|j: int|
                0 <= j < k ==> path_key(g[j].0) != path_key(p),
            None => forall|j: int| 0 <= j < g.len() ==> path_key(g[j].0) != path_key(p),
        },
    decreases g.len(),
{
    if g.len() > 0 {
        let d = g.drop_last();
        lemma_index_of_path(d, p);
        assert(forall|j: int| 0 <= j < d.len() ==> d[j] == g[j]);
    }
}

/// The modules by path, and the entry paths.
pub struct DependencyGraph {
    nodes: Vec<Node>,
    roots: Vec<String>,
}

impl DependencyGraph {
    /// The modules, in the order they were added.
    pub closed spec fn nodes(&self) -> Seq<(Seq<char>, Seq<char>, Seq<Seq<char>>)> {
        nodes_view(self.nodes@)
    }

    /// The entry paths.
    pub closed spec fn roots(&self) -> Seq<Seq<char>> {
        views(self.roots@)
    }

    pub closed spec fn wf(&self) -> bool {
        graph_wf(self.nodes())
    }

    /// An empty graph.
    pub fn new() -> (g: DependencyGraph)
        ensures
            g.wf(),
            g.nodes() == Seq::<(Seq<char>, Seq<char>, Seq<Seq<char>>)>::empty(),
            g.roots() == Seq::<Seq<char>>::empty(),
    {
        let g = DependencyGraph { nodes: Vec::new(), roots: Vec::new() };
        assert(g.nodes() =~= Seq::<(Seq<char>, Seq<char>, Seq<Seq<char>>)>::empty());
        assert(g.roots() =~= Seq::<Seq<char>>::empty());
        g
    }

    fn find(&self, path: &str) -> (r: Option<usize>)
        ensures
            match r {
                Some(k) => index_of_path(self.nodes(), path@) == Some(k as int) && k < self.nodes@.len(),
                None => index_of_path(self.nodes(), path@) is None,
            },
    {
        proof {
            lemma_index_of_path(self.nodes(), path@);
        }
        let mut i: usize = 0;
        while i < self.nodes.len()
            invariant
                i <= self.nodes@.len(),
                forall|j: int| 0 <= j < i ==> path_key(self.nodes()[j].0) != path_key(path@),
                match index_of_path(self.nodes(), path@) {
                    Some(k) => 0 <= k < self.nodes().len() && path_key(self.nodes()[k].0) == path_key(path@) && forall|
                        j: int,
                    | 0 <= j < k ==> path_key(self.nodes()[j].0) != path_key(path@),
                    None => forall|j: int| 0 <= j < self.nodes().len() ==> path_key(self.nodes()[j].0) != path_key(path@),
                },
            decreases self.nodes.len() - i,
        {
            assert(self.nodes()[i as int].0 == self.nodes@[i as int].path@);
            if same_path(self.nodes[i].path.as_str(), path) {
                return Some(i);
            }
            i += 1;
        }
        None
    }

    /// Whether a module with this path is in the graph.
    pub fn contains(&self, path: &str) -> (b: bool)
        ensures
            b == has_path(self.nodes(), path@),
    {
        self.find(path).is_some()
    }

    /// The module with this path.
    pub fn get_node(&self, path: &str) -> (r: Option<&Node>)
        ensures
            match index_of_path(self.nodes(), path@) {
                Some(k) => r matches Some(n) && node_view(*n) == self.nodes()[k],
                None => r is None,
            },
    {
        match self.find(path) {
            Some(k) => Some(&self.nodes[k]),
            None => None,
        }
    }

    /// All modules, in the order they were added.
    pub fn get_all_nodes(&self) -> (r: Vec<&Node>)
        ensures
            r@.len() == self.nodes().len(),
            forall|i: int| 0 <= i < r@.len() ==> node_view(*#[trigger] r@[i]) == self.nodes()[i],
    {
        let mut r: Vec<&Node> = Vec::new();
        let mut i: usize = 0;
        while i < self.nodes.len()
            invariant
                i <= self.nodes@.len(),
                r@.len() == i,
                forall|j: int| 0 <= j < i ==> node_view(*#[trigger] r@[j]) == self.nodes()[j],
            decreases self.nodes.len() - i,
        {
            r.push(&self.nodes[i]);
            i += 1;
        }
        r
    }

    /// Adds the module at `path` with text `content`, its imports read from
    /// the text; a module already at that path is replaced.
    pub fn add_node(&mut self, path: &str, content: String)
        requires
            old(self).wf(),
        ensures
            final(self).wf(),
            final(self).roots() == old(self).roots(),
            final(self).nodes() == match index_of_path(old(self).nodes(), path@) {
                Some(k) => old(self).nodes().update(k, (path@, content@, imports_of(content@))),
                None => old(self).nodes().push((path@, content@, imports_of(content@))),
            },
    {
        let deps = extract_imports(content.as_str());
        let node = Node { path: owned(path), content, deps };
        let ghost nv = node_view(node);
        let ghost g0 = self.nodes();
        proof {
            lemma_index_of_path(g0, path@);
        }
        match self.find(path) {
            Some(k) => {
                self.nodes.set(k, node);
                assert(self.nodes() =~= g0.update(k as int, nv));
            },
            None => {
                self.nodes.push(node);
                assert(self.nodes() =~= g0.push(nv));
            },
        }
    }

    /// Adds an entry path.
    pub fn add_root(&mut self, path: &str)
        ensures
            final(self).nodes() == old(self).nodes(),
            final(self).roots() == old(self).roots().push(path@),
            old(self).wf() ==> final(self).wf(),
    {
        let ghost r0 = self.roots();
        self.roots.push(owned(path));
        assert(self.roots() =~= r0.push(path@));
    }
}

// ---------------------------------------------------------------------------
// Depth-first order
// ---------------------------------------------------------------------------

/// Depth first from `p`, with `seen` the paths already met: the paths met
/// afterwards, and the modules in the order they are finished (each after
/// the modules it imports that were not met before). `fuel` bounds the
/// depth; the graph's size plus one is always enough.
pub open spec fn dfs_from(
    g: Seq<(Seq<char>, Seq<char>, Seq<Seq<char>>)>,
    p: Seq<char>,
    seen: Set<Seq<Seq<char>>>,
    fuel: nat,
) -> (Set<Seq<Seq<char>>>, Seq<int>)
    decreases fuel, 0int,
{
    if fuel == 0 || seen.contains(path_key(p)) {
        (seen, seq![])
    } else {
        match index_of_path(g, p) {
            None => (seen.insert(path_key(p)), seq![]),
            Some(k) => if 0 <= k < g.len() {
                let r = dfs_all(g, g[k].2, 0, seen.insert(path_key(p)), (fuel - 1) as nat);
                (r.0, r.1.push(k))
            } else {
                (seen.insert(path_key(p)), seq![])
            },
        }
    }
}

/// Depth first from each of `ps` from the `i`-th on, in turn.
pub open spec fn dfs_all(
    g: Seq<(Seq<char>, Seq<char>, Seq<Seq<char>>)>,
    ps: Seq<Seq<char>>,
    i: int,
    seen: Set<Seq<Seq<char>>>,
    fuel: nat,
) -> (Set<Seq<Seq<char>>>, Seq<int>)
    decreases fuel, ps.len() - i,
{
    if i < 0 || i >= ps.len() {
        (seen, seq![])
    } else {
        let a = dfs_from(g, ps[i], seen, fuel);
        let b = dfs_all(g, ps, i + 1, a.0, fuel);
        (b.0, a.1 + b.1)
    }
}

/// The positions of the modules in dependency order: depth first from
/// each root in turn, a module after the modules it imports.
pub open spec fn topo_order(g: Seq<(Seq<char>, Seq<char>, Seq<Seq<char>>)>, roots: Seq<Seq<char>>) -> Seq<int> {
    dfs_all(g, roots, 0, Set::empty(), (g.len() + 1) as nat).1
}

/// No position occurs twice.
pub open spec fn no_repeats(s: Seq<int>) -> bool {
    forall|i: int, j: int| 0 <= i < j < s.len() ==> s[i] != s[j]
}

/// What a depth-first walk from `p` finishes is made of modules met for
/// the first time: positions in the graph, none twice, whose paths were not
/// seen before and are seen after.
proof fn lemma_dfs_from_fresh(g: Seq<(Seq<char>, Seq<char>, Seq<Seq<char>>)>, p: Seq<char>, seen: Set<Seq<Seq<char>>>, fuel: nat)
    ensures
        ({
            let r = dfs_from(g, p, seen, fuel);
            &&& seen.subset_of(r.0)
            &&& no_repeats(r.1)
            &&& forall|i: int|
                0 <= i < r.1.len() ==> 0 <= #[trigger] r.1[i] < g.len() && r.0.contains(path_key(g[r.1[i]].0)) && !seen.contains(
                    path_key(g[r.1[i]].0),
                )
        }),
    decreases fuel, 0int,
{
    if fuel == 0 || seen.contains(path_key(p)) {
    } else {
        lemma_index_of_path(g, p);
        match index_of_path(g, p) {
            None => {},
            Some(k) => if 0 <= k < g.len() {
                let s1 = seen.insert(path_key(p));
                lemma_dfs_all_fresh(g, g[k].2, 0, s1, (fuel - 1) as nat);
                let r = dfs_all(g, g[k].2, 0, s1, (fuel - 1) as nat);
                let out = r.1.push(k);
                assert forall|i: int| 0 <= i < out.len() implies 0 <= #[trigger] out[i] < g.len() && r.0.contains(
                    path_key(g[out[i]].0),
                ) && !seen.contains(path_key(g[out[i]].0)) by {
                    if i < r.1.len() {
                        assert(out[i] == r.1[i]);
                    }
                }
                assert forall|i: int, j: int| 0 <= i < j < out.len() implies out[i] != out[j] by {
                    if j == r.1.len() {
                        assert(out[i] == r.1[i]);
                        assert(!s1.contains(path_key(g[r.1[i]].0)));
                    } else {
                        assert(out[i] == r.1[i] && out[j] == r.1[j]);
                    }
                }
            } else {
            },
        }
    }
}

proof fn lemma_dfs_all_fresh(
    g: Seq<(Seq<char>, Seq<char>, Seq<Seq<char>>)>,
    ps: Seq<Seq<char>>,
    i: int,
    seen: Set<Seq<Seq<char>>>,
    fuel: nat,
)
    ensures
        ({
            let r = dfs_all(g, ps, i, seen, fuel);
            &&& seen.subset_of(r.0)
            &&& no_repeats(r.1)
            &&& forall|x: int|
                0 <= x < r.1.len() ==> 0 <= #[trigger] r.1[x] < g.len() && r.0.contains(path_key(g[r.1[x]].0)) && !seen.contains(
                    path_key(g[r.1[x]].0),
                )
        }),
    decreases fuel, ps.len() - i,
{
    if i < 0 || i >= ps.len() {
    } else {
        lemma_dfs_from_fresh(g, ps[i], seen, fuel);
        let a = dfs_from(g, ps[i], seen, fuel);
        lemma_dfs_all_fresh(g, ps, i + 1, a.0, fuel);
        let b = dfs_all(g, ps, i + 1, a.0, fuel);
        let out = a.1 + b.1;
        assert forall|x: int| 0 <= x < out.len() implies 0 <= #[trigger] out[x] < g.len() && b.0.contains(
            path_key(g[out[x]].0),
        ) && !seen.contains(path_key(g[out[x]].0)) by {
            if x < a.1.len() {
                assert(out[x] == a.1[x]);
            } else {
                assert(out[x] == b.1[x - a.1.len()]);
            }
        }
        assert forall|x: int, y: int| 0 <= x < y < out.len() implies out[x] != out[y] by {
            if y < a.1.len() {
                assert(out[x] == a.1[x] && out[y] == a.1[y]);
            } else if x >= a.1.len() {
                assert(out[x] == b.1[x - a.1.len()] && out[y] == b.1[y - a.1.len()]);
            } else {
                assert(out[x] == a.1[x] && out[y] == b.1[y - a.1.len()]);
                assert(a.0.contains(path_key(g[a.1[x]].0)));
            }
        }
    }
}

/// The dependency order lists positions of the graph, each module at most
/// once.
pub proof fn lemma_topo_order_distinct(g: Seq<(Seq<char>, Seq<char>, Seq<Seq<char>>)>, roots: Seq<Seq<char>>)
    ensures
        no_repeats(topo_order(g, roots)),
        forall|i: int| 0 <= i < topo_order(g, roots).len() ==> 0 <= #[trigger] topo_order(g, roots)[i] < g.len(),
{
    lemma_dfs_all_fresh(g, roots, 0, Set::empty(), (g.len() + 1) as nat);
}

/// How many modules have path components outside `a`.
pub open spec fn unseen(g: Seq<(Seq<char>, Seq<char>, Seq<Seq<char>>)>, a: Set<Seq<Seq<char>>>) -> nat
    decreases g.len(),
{
    if g.len() == 0 {
        0
    } else {
        unseen(g.drop_last(), a) + if a.contains(path_key(g.last().0)) { 0nat } else { 1nat }
    }
}

proof fn lemma_unseen_mono(g: Seq<(Seq<char>, Seq<char>, Seq<Seq<char>>)>, a: Set<Seq<Seq<char>>>, b: Set<Seq<Seq<char>>>)
    requires
        a.subset_of(b),
    ensures
        unseen(g, b) <= unseen(g, a),
    decreases g.len(),
{
    if g.len() > 0 {
        lemma_unseen_mono(g.drop_last(), a, b);
    }
}

proof fn lemma_unseen_insert(g: Seq<(Seq<char>, Seq<char>, Seq<Seq<char>>)>, a: Set<Seq<Seq<char>>>, k: int)
    requires
        0 <= k < g.len(),
        !a.contains(path_key(g[k].0)),
    ensures
        unseen(g, a.insert(path_key(g[k].0))) < unseen(g, a),
    decreases g.len(),
{
    let d = g.drop_last();
    if k == g.len() - 1 {
        lemma_unseen_mono(d, a, a.insert(path_key(g[k].0)));
    } else {
        assert(d[k] == g[k]);
        lemma_unseen_insert(d, a, k);
    }
}

/// The set of the path components of the strings of `v`.
pub open spec fn seen_set(v: Seq<String>) -> Set<Seq<Seq<char>>> {
    Set::new(|x: Seq<Seq<char>>| exists|j: int| 0 <= j < v.len() && path_key(#[trigger] v[j]@) == x)
}

/// Whether `v` holds a path with the components of `path`.
fn contains_path(v: &Vec<String>, path: &str) -> (b: bool)
    ensures
        b == seen_set(v@).contains(path_key(path@)),
{
    let mut i: usize = 0;
    while i < v.len()
        invariant
            i <= v@.len(),
            forall|j: int| 0 <= j < i ==> path_key(#[trigger] v@[j]@) != path_key(path@),
        decreases v.len() - i,
    {
        if same_path(v[i].as_str(), path) {
            return true;
        }
        i += 1;
    }
    false
}

impl DependencyGraph {
    fn dfs(&self, path: &str, seen: &mut Vec<String>, out: &mut Vec<usize>, Ghost(fuel): Ghost<nat>)
        requires
            self.wf(),
            fuel >= unseen(self.nodes(), seen_set(old(seen)@)) + 1,
            forall|i: int| 0 <= i < old(out)@.len() ==> old(out)@[i] < self.nodes().len(),
        ensures
            seen_set(final(seen)@) == dfs_from(self.nodes(), path@, seen_set(old(seen)@), fuel).0,
            final(out)@.map_values(|x: usize| x as int) == old(out)@.map_values(|x: usize| x as int) + dfs_from(
                self.nodes(),
                path@,
                seen_set(old(seen)@),
                fuel,
            ).1,
            seen_set(old(seen)@).subset_of(seen_set(final(seen)@)),
            forall|i: int| 0 <= i < final(out)@.len() ==> final(out)@[i] < self.nodes().len(),
        decreases fuel, 0int,
    {
        let ghost g = self.nodes();
        let ghost s0 = seen_set(seen@);
        let ghost o0 = out@;
        if contains_path(seen, path) {
            assert(s0.contains(path_key(path@)));
            assert(out@.map_values(|x: usize| x as int) =~= o0.map_values(|x: usize| x as int) + seq![]);
            return;
        }
        let ghost v0 = seen@;
        seen.push(owned(path));
        assert(seen_set(seen@) =~= s0.insert(path_key(path@))) by {
            assert forall|x: Seq<Seq<char>>| #[trigger] seen_set(seen@).contains(x) == s0.insert(path_key(path@)).contains(x) by {
                if s0.contains(x) {
                    let j = choose|j: int| 0 <= j < v0.len() && path_key(#[trigger] v0[j]@) == x;
                    assert(seen@[j] == v0[j]);
                }
                if x == path_key(path@) {
                    assert(seen@[v0.len() as int]@ == path@);
                }
                if seen_set(seen@).contains(x) {
                    let j = choose|j: int| 0 <= j < seen@.len() && path_key(#[trigger] seen@[j]@) == x;
                    if j < v0.len() {
                        assert(seen@[j] == v0[j]);
                    }
                }
            }
        }
        proof {
            lemma_index_of_path(g, path@);
        }
        match self.find(path) {
            None => {
                assert(out@.map_values(|x: usize| x as int) =~= o0.map_values(|x: usize| x as int) + seq![]);
            },
            Some(k) => {
                proof {
                    lemma_unseen_insert(g, s0, k as int);
                }
                let ghost s1 = seen_set(seen@);
                let ghost f1: nat = (fuel - 1) as nat;
                let ghost o1 = out@;
                let deps = &self.nodes[k].deps;
                assert(views(deps@) == g[k as int].2);
                let mut i: usize = 0;
                while i < deps.len()
                    invariant
                        self.wf(),
                        g == self.nodes(),
                        fuel >= 1,
                        f1 == fuel - 1,
                        0 <= k < g.len(),
                        views(deps@) == g[k as int].2,
                        i <= deps@.len(),
                        f1 >= unseen(g, seen_set(seen@)) + 1,
                        s1.subset_of(seen_set(seen@)),
                        s0.subset_of(s1),
                        dfs_all(g, g[k as int].2, 0, s1, f1).0 == dfs_all(g, g[k as int].2, i as int, seen_set(seen@), f1).0,
                        o1.map_values(|x: usize| x as int) + dfs_all(g, g[k as int].2, 0, s1, f1).1 =~= out@.map_values(
                            |x: usize| x as int,
                        ) + dfs_all(g, g[k as int].2, i as int, seen_set(seen@), f1).1,
                        forall|j: int| 0 <= j < out@.len() ==> out@[j] < g.len(),
                    decreases deps.len() - i,
                {
                    let ghost sc = seen_set(seen@);
                    let ghost oc = out@;
                    assert(deps@[i as int]@ == g[k as int].2[i as int]);
                    self.dfs(deps[i].as_str(), seen, out, Ghost(f1));
                    proof {
                        lemma_unseen_mono(g, sc, seen_set(seen@));
                        let a = dfs_from(g, g[k as int].2[i as int], sc, f1);
                        let b = dfs_all(g, g[k as int].2, i + 1, a.0, f1);
                        assert(dfs_all(g, g[k as int].2, i as int, sc, f1) == (b.0, a.1 + b.1));
                        assert(out@.map_values(|x: usize| x as int) =~= oc.map_values(|x: usize| x as int) + a.1);
                        assert(oc.map_values(|x: usize| x as int) + (a.1 + b.1) =~= (oc.map_values(|x: usize| x as int)
                            + a.1) + b.1);
                    }
                    i += 1;
                }
                assert(dfs_all(g, g[k as int].2, i as int, seen_set(seen@), f1) == (seen_set(seen@), Seq::<int>::empty()));
                let ghost r = dfs_all(g, g[k as int].2, 0, s1, f1);
                assert(dfs_from(g, path@, s0, fuel) == (r.0, r.1.push(k as int)));
                let ghost o2 = out@;
                out.push(k);
                assert(out@.map_values(|x: usize| x as int) =~= o2.map_values(|x: usize| x as int).push(k as int));
                assert(o0.map_values(|x: usize| x as int) + r.1.push(k as int) =~= (o0.map_values(|x: usize| x as int)
                    + r.1).push(k as int));
            },
        }
    }

    /// The modules in dependency order: depth first from each root in
    /// turn, each module after the modules it imports (except along a
    /// cycle), each module at most once.
    pub fn topological_sort(&self) -> (r: Vec<&Node>)
        requires
            self.wf(),
        ensures
            r@.len() == topo_order(self.nodes(), self.roots()).len(),
            forall|i: int| 0 <= i < r@.len() ==> node_view(*#[trigger] r@[i]) == self.nodes()[topo_order(
                self.nodes(),
                self.roots(),
            )[i]],
    {
        let ghost g = self.nodes();
        let ghost rs = self.roots();
        let ghost fuel: nat = (g.len() + 1) as nat;
        let mut seen: Vec<String> = Vec::new();
        let mut order: Vec<usize> = Vec::new();
        proof {
            assert(seen_set(seen@) =~= Set::<Seq<Seq<char>>>::empty());
            lemma_unseen_bound(g, seen_set(seen@));
        }
        let mut i: usize = 0;
        while i < self.roots.len()
            invariant
                self.wf(),
                g == self.nodes(),
                rs == self.roots(),
                fuel == g.len() + 1,
                i <= self.roots@.len(),
                dfs_all(g, rs, 0, Set::empty(), fuel).0 == dfs_all(g, rs, i as int, seen_set(seen@), fuel).0,
                dfs_all(g, rs, 0, Set::empty(), fuel).1 =~= order@.map_values(|x: usize| x as int) + dfs_all(
                    g,
                    rs,
                    i as int,
                    seen_set(seen@),
                    fuel,
                ).1,
                forall|j: int| 0 <= j < order@.len() ==> order@[j] < g.len(),
            decreases self.roots.len() - i,
        {
            let ghost sc = seen_set(seen@);
            let ghost oc = order@;
            proof {
                lemma_unseen_bound(g, sc);
            }
            assert(self.roots@[i as int]@ == rs[i as int]);
            self.dfs(self.roots[i].as_str(), &mut seen, &mut order, Ghost(fuel));
            proof {
                let a = dfs_from(g, rs[i as int], sc, fuel);
                let b = dfs_all(g, rs, i + 1, a.0, fuel);
                assert(dfs_all(g, rs, i as int, sc, fuel) == (b.0, a.1 + b.1));
                assert(oc.map_values(|x: usize| x as int) + (a.1 + b.1) =~= (oc.map_values(|x: usize| x as int) + a.1)
                    + b.1);
            }
            i += 1;
        }
        let ghost t = topo_order(g, rs);
        assert(t =~= order@.map_values(|x: usize| x as int));
        let mut r: Vec<&Node> = Vec::new();
        let mut j: usize = 0;
        while j < order.len()
            invariant
                g == self.nodes(),
                t =~= order@.map_values(|x: usize| x as int),
                forall|q: int| 0 <= q < order@.len() ==> order@[q] < g.len(),
                j <= order@.len(),
                r@.len() == j,
                forall|q: int| 0 <= q < j ==> node_view(*#[trigger] r@[q]) == g[t[q]],
            decreases order.len() - j,
        {
            assert(t[j as int] == order@[j as int] as int);
            r.push(&self.nodes[order[j]]);
            j += 1;
        }
        r
    }
}

proof fn lemma_unseen_bound(g: Seq<(Seq<char>, Seq<char>, Seq<Seq<char>>)>, a: Set<Seq<Seq<char>>>)
    ensures
        unseen(g, a) <= g.len(),
    decreases g.len(),
{
    if g.len() > 0 {
        lemma_unseen_bound(g.drop_last(), a);
    }
}

// ---------------------------------------------------------------------------
// Building the graph from an entry file
// ---------------------------------------------------------------------------

/// The next import to fetch, breadth first from module `h`'s `d`-th
/// import on: the first import whose path is not in the graph yet.
pub open spec fn next_missing(g: Seq<(Seq<char>, Seq<char>, Seq<Seq<char>>)>, h: int, d: int) -> Option<(int, int)>
    decreases g.len() - h, (if 0 <= h < g.len() { g[h].2.len() - d } else { 0 }),
{
    if h < 0 || h >= g.len() {
        None
    } else if d < 0 || d >= g[h].2.len() {
        next_missing(g, h + 1, 0)
    } else if !has_path(g, g[h].2[d]) {
        Some((h, d))
    } else {
        next_missing(g, h, d + 1)
    }
}

/// Every import of every module is in the graph.
pub open spec fn closed(g: Seq<(Seq<char>, Seq<char>, Seq<Seq<char>>)>) -> bool {
    forall|k: int, i: int| 0 <= k < g.len() && 0 <= i < g[k].2.len() ==> has_path(g, #[trigger] g[k].2[i])
}

/// The first module is at `entry`, and every other module is imported by
/// a module added before it.
pub open spec fn reached(g: Seq<(Seq<char>, Seq<char>, Seq<Seq<char>>)>, entry: Seq<char>) -> bool {
    &&& g.len() > 0 ==> g[0].0 == entry
    &&& forall|k: int|
        1 <= k < g.len() ==> exists|j: int, i: int| 0 <= j < k && 0 <= i < g[j].2.len() && #[trigger] g[j].2[i] == #[trigger] g[k].0
}

/// The imports of modules before `h`, and those of module `h` before its
/// `d`-th, are in the graph.
pub open spec fn closed_upto(g: Seq<(Seq<char>, Seq<char>, Seq<Seq<char>>)>, h: int, d: int) -> bool {
    &&& forall|k: int, i: int| 0 <= k < h && k < g.len() && 0 <= i < g[k].2.len() ==> has_path(g, #[trigger] g[k].2[i])
    &&& forall|i: int| 0 <= h < g.len() && 0 <= i < d && i < g[h].2.len() ==> has_path(g, #[trigger] g[h].2[i])
}

/// What a build asks for next.
pub enum BuildStep {
    /// The text of the file at this path.
    Read(String),
    /// Nothing more: the graph is complete.
    Done,
}

/// A graph being built breadth first from an entry file, one file read at
/// a time: each step names the file whose text it needs next.
pub struct GraphBuilder {
    graph: DependencyGraph,
    head: usize,
    dep: usize,
    waiting: bool,
}

impl GraphBuilder {
    /// The modules read so far.
    pub closed spec fn graph(&self) -> Seq<(Seq<char>, Seq<char>, Seq<Seq<char>>)> {
        self.graph.nodes()
    }

    pub closed spec fn entry(&self) -> Seq<char> {
        self.graph.roots()[0]
    }

    /// The path whose text the build needs next, if any.
    pub closed spec fn awaiting(&self) -> Option<Seq<char>> {
        if !self.waiting {
            None
        } else if self.graph.nodes().len() == 0 {
            Some(self.entry())
        } else {
            Some(self.graph.nodes()[self.head as int].2[self.dep as int])
        }
    }

    pub closed spec fn wf(&self) -> bool {
        let g = self.graph.nodes();
        &&& self.graph.wf()
        &&& self.graph.roots().len() == 1
        &&& reached(g, self.entry())
        &&& if g.len() == 0 {
            self.waiting && self.head == 0 && self.dep == 0
        } else {
            &&& self.head <= g.len()
            &&& closed_upto(g, self.head as int, self.dep as int)
            &&& self.waiting ==> self.head < g.len() && self.dep < g[self.head as int].2.len() && !has_path(
                g,
                g[self.head as int].2[self.dep as int],
            )
            &&& !self.waiting ==> self.head == g.len()
        }
    }

    /// Starts a build at `entry`; the first step asks for the entry file.
    pub fn new(entry: &str) -> (r: (GraphBuilder, BuildStep))
        ensures
            r.0.wf(),
            r.0.graph() == Seq::<(Seq<char>, Seq<char>, Seq<Seq<char>>)>::empty(),
            r.0.entry() == entry@,
            r.0.awaiting() == Some(entry@),
            r.1 matches BuildStep::Read(p) && p@ == entry@,
    {
        let mut graph = DependencyGraph::new();
        graph.add_root(entry);
        let b = GraphBuilder { graph, head: 0, dep: 0, waiting: true };
        (b, BuildStep::Read(owned(entry)))
    }

    /// Where the scan goes on after the awaited file is added.
    pub closed spec fn resume(&self) -> (int, int) {
        if self.graph.nodes().len() == 0 {
            (0, 0)
        } else {
            (self.head as int, self.dep + 1)
        }
    }

    /// Adds the awaited file with its text, then scans on breadth first:
    /// asks for the next import not in the graph yet, or ends.
    pub fn supply(&mut self, content: String) -> (r: BuildStep)
        requires
            old(self).wf(),
            old(self).awaiting() is Some,
        ensures
            final(self).wf(),
            final(self).entry() == old(self).entry(),
            final(self).graph() == old(self).graph().push(
                (old(self).awaiting()->0, content@, imports_of(content@)),
            ),
            final(self).awaiting() == match next_missing(final(self).graph(), old(self).resume().0, old(self).resume().1) {
                Some((h, d)) => Some(final(self).graph()[h].2[d]),
                None => None,
            },
            match r {
                BuildStep::Read(p) => final(self).awaiting() == Some(p@),
                BuildStep::Done => final(self).awaiting() is None,
            },
    {
        let ghost g0 = self.graph.nodes();
        let ghost e0 = self.entry();
        let ghost rs = old(self).resume();
        let path = if self.graph.nodes.len() == 0 {
            owned(self.graph.roots[0].as_str())
        } else {
            owned(self.graph.nodes[self.head].deps[self.dep].as_str())
        };
        assert(path@ == old(self).awaiting()->0) by {
            if g0.len() > 0 {
                assert(self.graph.nodes@[self.head as int].deps@[self.dep as int]@ == g0[self.head as int].2[self.dep as int]);
            }
        }
        proof {
            lemma_index_of_path(g0, path@);
        }
        self.graph.add_node(path.as_str(), content);
        let ghost g = self.graph.nodes();
        let ghost nv = (path@, content@, imports_of(content@));
        assert(g == g0.push(nv));
        proof {
            // the new module is imported by the module being scanned
            assert forall|k: int| 1 <= k < g.len() implies exists|j: int, i: int| 0 <= j < k && 0 <= i < g[j].2.len()
                && #[trigger] g[j].2[i] == #[trigger] g[k].0 by {
                if k < g0.len() {
                    assert(g0[k] == g[k]);
                    let (j, i) = choose|j: int, i: int| 0 <= j < k && 0 <= i < g0[j].2.len() && #[trigger] g0[j].2[i]
                        == #[trigger] g0[k].0;
                    assert(g[j] == g0[j]);
                    assert(g[j].2[i] == g[k].0);
                } else {
                    assert(g[self.head as int] == g0[self.head as int]);
                    assert(g[self.head as int].2[self.dep as int] == g[k].0);
                }
            }
        }
        assert(g.len() == g0.len() + 1);
        assert(reached(g, e0));
        let mut h: usize;
        let mut d: usize;
        if self.graph.nodes.len() == 1 {
            h = 0;
            d = 0;
        } else {
            assert(g0.len() > 0);
            assert(self.dep < g0[self.head as int].2.len());
            assert(g0[self.head as int].2.len() == self.graph.nodes@[self.head as int].deps@.len());
            let n = self.graph.nodes[self.head].deps.len();
            h = self.head;
            d = self.dep + 1;
        }
        assert forall|q: Seq<char>| has_path(g0, q) implies has_path(g, q) by {
            lemma_index_of_path(g0, q);
            lemma_index_of_path(g, q);
            let k = index_of_path(g0, q)->0;
            assert(g[k] == g0[k]);
        }
        proof {
            lemma_index_of_path(g, path@);
            assert(g[g.len() - 1].0 == path@);
        }
        assert(closed_upto(g, h as int, d as int));
        loop
            invariant
                self.graph.wf(),
                self.graph.nodes() == g,
                self.graph.roots().len() == 1,
                self.graph.roots()[0] == e0,
                e0 == old(self).entry(),
                rs == old(self).resume(),
                g == old(self).graph().push((old(self).awaiting()->0, content@, imports_of(content@))),
                reached(g, e0),
                g.len() > 0,
                h <= g.len(),
                closed_upto(g, h as int, d as int),
                next_missing(g, rs.0, rs.1) == next_missing(g, h as int, d as int),
            decreases g.len() - h, (if h < g.len() { g[h as int].2.len() - d } else { 0 }),
        {
            if h >= self.graph.nodes.len() {
                self.head = h;
                self.dep = d;
                self.waiting = false;
                assert(self.graph() == g);
                assert(self.entry() == e0);
                return BuildStep::Done;
            }
            assert(views(self.graph.nodes@[h as int].deps@) == g[h as int].2);
            if d >= self.graph.nodes[h].deps.len() {
                h = h + 1;
                d = 0;
            } else {
                assert(self.graph.nodes@[h as int].deps@[d as int]@ == g[h as int].2[d as int]);
                if !self.graph.contains(self.graph.nodes[h].deps[d].as_str()) {
                    let p = owned(self.graph.nodes[h].deps[d].as_str());
                    self.head = h;
                    self.dep = d;
                    self.waiting = true;
                    assert(self.graph() == g);
                    assert(self.entry() == e0);
                    return BuildStep::Read(p);
                }
                d = d + 1;
            }
        }
    }

    /// The graph as built so far.
    pub fn finish(self) -> (g: DependencyGraph)
        requires
            self.wf(),
        ensures
            g.wf(),
            g.nodes() == self.graph(),
            g.roots() == seq![self.entry()],
    {
        assert(self.graph.roots() =~= seq![self.entry()]);
        self.graph
    }

    /// Once the build has ended, every import of every module is in the
    /// graph, and every module is the entry or imported by an earlier one.
    pub proof fn lemma_complete(&self)
        requires
            self.wf(),
            self.awaiting() is None,
        ensures
            closed(self.graph()),
            reached(self.graph(), self.entry()),
    {
    }
}

} // verus!
