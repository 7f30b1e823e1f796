//! The workspace: the source files under a root directory, searched for
//! symbols and references.
use vstd::prelude::*;
use vstd::utf8::encode_utf8;
use crate::text::{chars_of, owned, push_str, lines, lines_of, contains, contains_chars, starts_with, is_prefix,
    slice_string, string_from, whitespace, is_whitespace, alphabetic, is_alphabetic, str_eq};
use crate::css::parser::{ws_end, ws_end_exec};
pub use super::{Position, Range, Location, span, line_span, location_view};

verus! {

/// A symbol found in the workspace.
#[derive(Debug)]
pub struct SymbolInfo {
    pub name: String,
    pub kind: u32,
    pub location: Location,
}

pub open spec fn symbol_view(s: SymbolInfo) -> (Seq<char>, u32, Seq<char>, Range) {
    (s.name@, s.kind, s.location.uri@, s.location.range)
}

/// The byte length of a text in UTF-8.
pub open spec fn byte_len(s: Seq<char>) -> int {
    encode_utf8(s).len() as int
}

/// The end of the run of non-whitespace starting at `i`.
pub open spec fn word_end(s: Seq<char>, i: int) -> int
    decreases s.len() - i,
{
    if i < 0 || i >= s.len() || whitespace(s[i]) {
        i
    } else {
        word_end(s, i + 1)
    }
}

/// The second whitespace-separated word of `s`.
pub open spec fn second_word(s: Seq<char>) -> Option<Seq<char>> {
    let a = ws_end(s, 0);
    if a >= s.len() {
        None
    } else {
        let c = ws_end(s, word_end(s, a));
        if c >= s.len() {
            None
        } else {
            Some(s.subrange(c, word_end(s, c)))
        }
    }
}

/// The symbols on line `i` of the file at `uri`: a component declared
/// there (the word after `@component`), then the query if the line holds
/// it.
pub open spec fn line_symbols(uri: Seq<char>, i: int, line: Seq<char>, query: Seq<char>) -> Seq<
    (Seq<char>, u32, Seq<char>, Range),
> {
    (if contains(line, "@component"@) {
        match second_word(line) {
            Some(n) => seq![(n, 2u32, uri, line_span(i, 0, byte_len(n)))],
            None => seq![],
        }
    } else {
        seq![]
    }) + (if contains(line, query) {
        seq![(query, 5u32, uri, line_span(i, 0, byte_len(query)))]
    } else {
        seq![]
    })
}

pub open spec fn lines_symbols(uri: Seq<char>, ls: Seq<Seq<char>>, query: Seq<char>) -> Seq<(Seq<char>, u32, Seq<char>, Range)>
    decreases ls.len(),
{
    if ls.len() == 0 {
        seq![]
    } else {
        lines_symbols(uri, ls.drop_last(), query) + line_symbols(uri, ls.len() - 1, ls.last(), query)
    }
}

/// The symbols of the files, file by file, line by line.
pub open spec fn files_symbols(fs: Seq<(Seq<char>, Seq<char>)>, query: Seq<char>) -> Seq<(Seq<char>, u32, Seq<char>, Range)>
    decreases fs.len(),
{
    if fs.len() == 0 {
        seq![]
    } else {
        files_symbols(fs.drop_last(), query) + lines_symbols(fs.last().0, lines(fs.last().1), query)
    }
}

/// The start of the run of letters that ends at `i`.
pub open spec fn alpha_start(s: Seq<char>, i: int) -> int
    decreases i,
{
    if 0 < i <= s.len() && alphabetic(s[i - 1]) {
        alpha_start(s, i - 1)
    } else {
        i
    }
}

/// The end of the run of letters that starts at `i`.
pub open spec fn alpha_end(s: Seq<char>, i: int) -> int
    decreases s.len() - i,
{
    if 0 <= i < s.len() && alphabetic(s[i]) {
        alpha_end(s, i + 1)
    } else {
        i
    }
}

/// The position of the file at `uri`.
pub open spec fn file_index(fs: Seq<(Seq<char>, Seq<char>)>, uri: Seq<char>) -> Option<int>
    decreases fs.len(),
{
    if fs.len() == 0 {
        None
    } else {
        match file_index(fs.drop_last(), uri) {
            Some(k) => Some(k),
            None => if fs.last().0 == uri { Some(fs.len() - 1) } else { None },
        }
    }
}

/// The word of letters around column `ch` of line `line` of the file at
/// `uri`, when there is a letter there.
pub open spec fn word_at(fs: Seq<(Seq<char>, Seq<char>)>, uri: Seq<char>, line: int, ch: int) -> Option<Seq<char>> {
    match file_index(fs, uri) {
        Some(k) => if 0 <= k < fs.len() && 0 <= line < lines(fs[k].1).len() {
            let cs = lines(fs[k].1)[line];
            if 0 <= ch < cs.len() && alphabetic(cs[ch]) {
                Some(cs.subrange(alpha_start(cs, ch), alpha_end(cs, ch)))
            } else {
                None
            }
        } else {
            None
        },
        None => None,
    }
}

pub open spec fn lines_refs(uri: Seq<char>, ls: Seq<Seq<char>>, w: Seq<char>) -> Seq<(Seq<char>, Range)>
    decreases ls.len(),
{
    if ls.len() == 0 {
        seq![]
    } else {
        lines_refs(uri, ls.drop_last(), w) + if contains(ls.last(), w) {
            seq![(uri, line_span(ls.len() - 1, 0, byte_len(w)))]
        } else {
            seq![]
        }
    }
}

/// Every line, in every file, that holds `w`.
pub open spec fn files_refs(fs: Seq<(Seq<char>, Seq<char>)>, w: Seq<char>) -> Seq<(Seq<char>, Range)>
    decreases fs.len(),
{
    if fs.len() == 0 {
        seq![]
    } else {
        files_refs(fs.drop_last(), w) + lines_refs(fs.last().0, lines(fs.last().1), w)
    }
}

/// The extension of a file name, as `Path::extension` gives it: the text
/// after the last dot, unless that dot starts the name.
pub open spec fn last_dot(s: Seq<char>) -> Option<int>
    decreases s.len(),
{
    if s.len() == 0 {
        None
    } else if s.last() == '.' {
        Some(s.len() - 1)
    } else {
        last_dot(s.drop_last())
    }
}

pub open spec fn extension(name: Seq<char>) -> Option<Seq<char>> {
    if name == ".."@ {
        None
    } else {
        match last_dot(name) {
            Some(i) => if 0 < i < name.len() { Some(name.skip(i + 1)) } else { None },
            None => None,
        }
    }
}

pub open spec fn entry_views(v: Seq<(String, String)>) -> Seq<(Seq<char>, Seq<char>)> {
    v.map_values(|e: (String, String)| (e.0@, e.1@))
}

/// The files of the workspace by URI, and its root directory.
pub struct WorkspaceManager {
    root_path: Option<String>,
    files: Vec<(String, String)>,
}

fn byte_count(s: &String) -> (n: usize)
    ensures
        n as int == byte_len(s@),
{
    s.as_str().as_bytes().len()
}

impl WorkspaceManager {
    /// The files: URI and text, no URI twice.
    pub closed spec fn files(&self) -> Seq<(Seq<char>, Seq<char>)> {
        entry_views(self.files@)
    }

    pub closed spec fn root(&self) -> Option<Seq<char>> {
        match self.root_path {
            Some(p) => Some(p@),
            None => None,
        }
    }

    pub closed spec fn wf(&self) -> bool {
        forall|i: int, j: int| 0 <= i < j < self.files().len() ==> self.files()[i].0 != self.files()[j].0
    }

    pub fn new() -> (w: WorkspaceManager)
        ensures
            w.wf(),
            w.files() == Seq::<(Seq<char>, Seq<char>)>::empty(),
            w.root() is None,
    {
        let w = WorkspaceManager { root_path: None, files: Vec::new() };
        assert(w.files() =~= Seq::<(Seq<char>, Seq<char>)>::empty());
        w
    }

    /// Takes the root of a `file://` URI as the workspace root and returns
    /// the directory to scan; any other URI changes nothing.
    pub fn initialize(&mut self, root_uri: &str) -> (r: Option<String>)
        ensures
            final(self).files() == old(self).files(),
            old(self).wf() ==> final(self).wf(),
            starts_with(root_uri@, "file://"@) ==> (r matches Some(p) && p@ == root_uri@.skip(7) && final(self).root()
                == Some(p@)),
            !starts_with(root_uri@, "file://"@) ==> r is None && final(self).root() == old(self).root(),
    {
        let cs = chars_of(root_uri);
        let prefix = chars_of("file://");
        proof {
            reveal_strlit("file://");
        }
        if is_prefix(cs.as_slice(), prefix.as_slice()) {
            let p = slice_string(cs.as_slice(), 7, cs.len());
            assert(p@ =~= root_uri@.skip(7));
            self.root_path = Some(owned(p.as_str()));
            Some(p)
        } else {
            None
        }
    }

    /// Whether a scan skips a directory of this name.
    pub fn skips_dir(name: &str) -> (b: bool)
        ensures
            b == (name@ == "node_modules"@ || name@ == ".git"@ || name@ == "dist"@),
    {
        str_eq(name, "node_modules") || str_eq(name, ".git") || str_eq(name, "dist")
    }

    /// Whether a file of this name is a source file (`.pys` or `.pydom`).
    pub fn is_source_file(name: &str) -> (b: bool)
        ensures
            b == (extension(name@) == Some("pys"@) || extension(name@) == Some("pydom"@)),
    {
        let cs = chars_of(name);
        if str_eq(name, "..") {
            return false;
        }
        let mut i = cs.len();
        assert(name@.take(i as int) =~= name@);
        while i > 0 && cs[i - 1] != '.'
            invariant
                i <= cs@.len(),
                cs@ == name@,
                last_dot(name@) == last_dot(name@.take(i as int)),
            decreases i,
        {
            assert(name@.take(i as int).drop_last() =~= name@.take(i - 1));
            i -= 1;
        }
        if i <= 1 {
            proof {
                if i == 1 {
                    assert(name@.take(1).drop_last() =~= name@.take(0));
                }
                assert(name@.take(0) =~= Seq::<char>::empty());
            }
            return false;
        }
        assert(name@.take(i as int).last() == '.');
        let ext = slice_string(cs.as_slice(), i, cs.len());
        assert(ext@ =~= name@.skip(i as int));
        str_eq(ext.as_str(), "pys") || str_eq(ext.as_str(), "pydom")
    }

    fn find(&self, uri: &str) -> (r: Option<usize>)
        ensures
            r matches Some(k) ==> file_index(self.files(), uri@) == Some(k as int) && k < self.files@.len(),
            r is None ==> file_index(self.files(), uri@) is None,
    {
        proof {
            lemma_file_index(self.files(), uri@);
        }
        let mut i: usize = 0;
        while i < self.files.len()
            invariant
                i <= self.files@.len(),
                forall|j: int| 0 <= j < i ==> self.files()[j].0 != uri@,
                match file_index(self.files(), uri@) {
                    Some(k) => 0 <= k < self.files().len() && self.files()[k].0 == uri@ && forall|j: int|
                        0 <= j < k ==> self.files()[j].0 != uri@,
                    None => forall|j: int| 0 <= j < self.files().len() ==> self.files()[j].0 != uri@,
                },
            decreases self.files.len() - i,
        {
            assert(self.files()[i as int].0 == self.files@[i as int].0@);
            if str_eq(self.files[i].0.as_str(), uri) {
                return Some(i);
            }
            i += 1;
        }
        None
    }

    /// Adds a file found by a scan at `path`, under the URI `file://<path>`,
    /// replacing a file with that URI.
    pub fn add_scanned_file(&mut self, path: &str, content: String)
        requires
            old(self).wf(),
        ensures
            final(self).wf(),
            final(self).root() == old(self).root(),
            final(self).files() == with_file(old(self).files(), "file://"@ + path@, content@),
    {
        let mut uri = owned("file://");
        push_str(&mut uri, path);
        let ghost f0 = self.files();
        let ghost e = (uri@, content@);
        proof {
            lemma_file_index(f0, uri@);
        }
        match self.find(uri.as_str()) {
            Some(k) => {
                self.files.set(k, (uri, content));
                assert(self.files() =~= f0.update(k as int, e));
            },
            None => {
                self.files.push((uri, content));
                assert(self.files() =~= f0.push(e));
            },
        }
    }

    /// The text of the file at `uri`.
    pub fn get_file(&self, uri: &str) -> (r: Option<&String>)
        ensures
            match file_index(self.files(), uri@) {
                Some(k) => r matches Some(s) && s@ == self.files()[k].1,
                None => r is None,
            },
    {
        match self.find(uri) {
            Some(k) => Some(&self.files[k].1),
            None => None,
        }
    }

    /// Every file: URI and text.
    pub fn get_all_files(&self) -> (r: Vec<(String, String)>)
        ensures
            entry_views(r@) == self.files(),
    {
        let mut r: Vec<(String, String)> = Vec::new();
        let mut i: usize = 0;
        while i < self.files.len()
            invariant
                i <= self.files@.len(),
                entry_views(r@) == self.files().take(i as int),
            decreases self.files.len() - i,
        {
            let ghost r0 = entry_views(r@);
            r.push((owned(self.files[i].0.as_str()), owned(self.files[i].1.as_str())));
            assert(self.files()[i as int] == (self.files@[i as int].0@, self.files@[i as int].1@));
            assert(entry_views(r@) =~= r0.push(self.files()[i as int]));
            assert(entry_views(r@) =~= self.files().take(i + 1));
            i += 1;
        }
        assert(self.files().take(i as int) =~= self.files());
        r
    }
}

pub proof fn lemma_file_index(fs: Seq<(Seq<char>, Seq<char>)>, uri: Seq<char>)
    ensures
        match file_index(fs, uri) {
            Some(k) => 0 <= k < fs.len() && fs[k].0 == uri && forall|j: int| 0 <= j < k ==> fs[j].0 != uri,
            None => forall|j: int| 0 <= j < fs.len() ==> fs[j].0 != uri,
        },
    decreases fs.len(),
{
    if fs.len() > 0 {
        let d = fs.drop_last();
        lemma_file_index(d, uri);
        assert(forall|j: int| 0 <= j < d.len() ==> d[j] == fs[j]);
    }
}

/// The files after adding `content` under `uri`, as a scan adds a file.
pub open spec fn with_file(fs: Seq<(Seq<char>, Seq<char>)>, uri: Seq<char>, content: Seq<char>) -> Seq<(Seq<char>, Seq<char>)> {
    match file_index(fs, uri) {
        Some(k) => fs.update(k, (uri, content)),
        None => fs.push((uri, content)),
    }
}

/// A file that was added is found again under its URI, with the content
/// it was added with, and the other files keep theirs.
pub proof fn lemma_added_file_found(
    fs: Seq<(Seq<char>, Seq<char>)>,
    uri: Seq<char>,
    content: Seq<char>,
    other: Seq<char>,
)
    requires
        other != uri,
    ensures
        file_index(with_file(fs, uri, content), uri) matches Some(k) && with_file(fs, uri, content)[k].1 == content,
        match file_index(fs, other) {
            Some(k) => file_index(with_file(fs, uri, content), other) == Some(k) && with_file(fs, uri, content)[k] == fs[k],
            None => file_index(with_file(fs, uri, content), other) is None,
        },
{
    let fs2 = with_file(fs, uri, content);
    lemma_file_index(fs, uri);
    lemma_file_index(fs, other);
    lemma_file_index(fs2, uri);
    lemma_file_index(fs2, other);
    match file_index(fs, uri) {
        Some(k) => {
            assert(fs2[k].0 == uri);
            let k2 = file_index(fs2, uri)->0;
            if k2 < k {
                assert(fs2[k2] == fs[k2]);
            }
            assert(forall|j: int| 0 <= j < fs.len() && j != k ==> fs2[j] == fs[j]);
        },
        None => {
            assert(fs2[fs.len() as int].0 == uri);
            assert(forall|j: int| 0 <= j < fs.len() ==> fs2[j] == fs[j]);
        },
    }
    match file_index(fs, other) {
        Some(k) => {
            let k2 = file_index(fs2, other);
            assert(fs2[k].0 == other) by {
                if file_index(fs, uri) is Some {
                    assert(k != file_index(fs, uri)->0);
                }
            }
        },
        None => {},
    }
}

fn word_end_exec(s: &[char], i: usize) -> (r: usize)
    requires
        i <= s.len(),
    ensures
        r as int == word_end(s@, i as int),
        i <= r <= s.len(),
{
    let mut j = i;
    while j < s.len() && !is_whitespace(s[j])
        invariant
            i <= j <= s.len(),
            word_end(s@, i as int) == word_end(s@, j as int),
        decreases s.len() - j,
    {
        j += 1;
    }
    j
}

fn second_word_exec(s: &[char]) -> (r: Option<String>)
    ensures
        match second_word(s@) {
            Some(w) => r matches Some(x) && x@ == w,
            None => r is None,
        },
{
    let a = ws_end_exec(s, 0);
    if a >= s.len() {
        return None;
    }
    let b = word_end_exec(s, a);
    let c = ws_end_exec(s, b);
    if c >= s.len() {
        return None;
    }
    let e = word_end_exec(s, c);
    Some(slice_string(s, c, e))
}

fn push_symbol(out: &mut Vec<SymbolInfo>, name: String, kind: u32, uri: &String, line: usize)
    ensures
        final(out)@.map_values(|x: SymbolInfo| symbol_view(x)) == old(out)@.map_values(|x: SymbolInfo| symbol_view(x)).push(
            (name@, kind, uri@, line_span(line as int, 0, byte_len(name@))),
        ),
{
    let n = byte_count(&name);
    let ghost o0 = out@.map_values(|x: SymbolInfo| symbol_view(x));
    out.push(SymbolInfo { name, kind, location: Location { uri: owned(uri.as_str()), range: span(line, 0, n) } });
    assert(out@.map_values(|x: SymbolInfo| symbol_view(x)) =~= o0.push(
        (out@[out@.len() - 1].name@, kind, uri@, line_span(line as int, 0, n as int)),
    ));
}

fn file_symbols(uri: &String, content: &String, query: &str, q: &[char], comp: &[char], out: &mut Vec<SymbolInfo>)
    requires
        q@ == query@,
        comp@ == "@component"@,
    ensures
        final(out)@.map_values(|x: SymbolInfo| symbol_view(x)) == old(out)@.map_values(|x: SymbolInfo| symbol_view(x))
            + lines_symbols(uri@, lines(content@), query@),
{
    let cs = chars_of(content.as_str());
    let ls = lines_of(cs.as_slice());
    let ghost o0 = out@.map_values(|x: SymbolInfo| symbol_view(x));
    let ghost all = lines(content@);
    let mut i: usize = 0;
    while i < ls.len()
        invariant
            q@ == query@,
            comp@ == "@component"@,
            cs@ == content@,
            all == lines(content@),
            ls@.len() == all.len(),
            forall|k: int| 0 <= k < ls@.len() ==> #[trigger] ls@[k]@ == all[k],
            i <= ls@.len(),
            out@.map_values(|x: SymbolInfo| symbol_view(x)) == o0 + lines_symbols(uri@, all.take(i as int), query@),
        decreases ls.len() - i,
    {
        let line = ls[i].as_slice();
        let ghost l = ls@[i as int]@;
        let ghost p0 = out@.map_values(|x: SymbolInfo| symbol_view(x));
        if contains_chars(line, comp) {
            match second_word_exec(line) {
                Some(n) => {
                    push_symbol(out, n, 2, uri, i);
                },
                None => {},
            }
        }
        let ghost p1 = out@.map_values(|x: SymbolInfo| symbol_view(x));
        if contains_chars(line, q) {
            push_symbol(out, owned(query), 5, uri, i);
        }
        proof {
            let t = all.take(i + 1);
            assert(t.drop_last() =~= all.take(i as int));
            assert(t.last() == l);
            let a: Seq<(Seq<char>, u32, Seq<char>, Range)> = if contains(l, "@component"@) {
                match second_word(l) {
                    Some(n) => seq![(n, 2u32, uri@, line_span(i as int, 0, byte_len(n)))],
                    None => seq![],
                }
            } else {
                seq![]
            };
            let b: Seq<(Seq<char>, u32, Seq<char>, Range)> = if contains(l, query@) {
                seq![(query@, 5u32, uri@, line_span(i as int, 0, byte_len(query@)))]
            } else {
                seq![]
            };
            assert(p1 =~= p0 + a);
            assert(out@.map_values(|x: SymbolInfo| symbol_view(x)) =~= p1 + b);
            assert(line_symbols(uri@, i as int, l, query@) == a + b);
            assert(out@.map_values(|x: SymbolInfo| symbol_view(x)) =~= o0 + lines_symbols(uri@, t, query@));
        }
        i += 1;
    }
    assert(all.take(ls@.len() as int) =~= all);
}

fn file_refs(uri: &String, content: &String, w: &[char], out: &mut Vec<Location>)
    ensures
        final(out)@.map_values(|x: Location| location_view(x)) == old(out)@.map_values(|x: Location| location_view(x))
            + lines_refs(uri@, lines(content@), w@),
{
    let cs = chars_of(content.as_str());
    let ls = lines_of(cs.as_slice());
    let word = string_from(w);
    let n = byte_count(&word);
    let ghost o0 = out@.map_values(|x: Location| location_view(x));
    let ghost all = lines(content@);
    let mut i: usize = 0;
    while i < ls.len()
        invariant
            cs@ == content@,
            all == lines(content@),
            n as int == byte_len(w@),
            ls@.len() == all.len(),
            forall|k: int| 0 <= k < ls@.len() ==> #[trigger] ls@[k]@ == all[k],
            i <= ls@.len(),
            out@.map_values(|x: Location| location_view(x)) == o0 + lines_refs(uri@, all.take(i as int), w@),
        decreases ls.len() - i,
    {
        let ghost p0 = out@.map_values(|x: Location| location_view(x));
        let ghost l = ls@[i as int]@;
        let hit = contains_chars(ls[i].as_slice(), w);
        if hit {
            out.push(Location { uri: owned(uri.as_str()), range: span(i, 0, n) });
        }
        proof {
            let t = all.take(i + 1);
            assert(t.drop_last() =~= all.take(i as int));
            assert(t.last() == l);
            if hit {
                assert(out@.map_values(|x: Location| location_view(x)) =~= p0.push(
                    (uri@, line_span(i as int, 0, byte_len(w@))),
                ));
            } else {
                assert(out@.map_values(|x: Location| location_view(x)) =~= p0);
            }
            assert(out@.map_values(|x: Location| location_view(x)) =~= o0 + lines_refs(uri@, t, w@));
        }
        i += 1;
    }
    assert(all.take(ls@.len() as int) =~= all);
}

impl WorkspaceManager {
    /// The symbols of every file: for each line, a component declared on it
    /// (kind 2) and the query if the line holds it (kind 5).
    pub fn search_symbols(&self, query: &str) -> (r: Vec<SymbolInfo>)
        ensures
            r@.map_values(|x: SymbolInfo| symbol_view(x)) == files_symbols(self.files(), query@),
    {
        let q = chars_of(query);
        let comp = chars_of("@component");
        let mut out: Vec<SymbolInfo> = Vec::new();
        let mut f: usize = 0;
        assert(out@.map_values(|x: SymbolInfo| symbol_view(x)) =~= files_symbols(self.files().take(0), query@));
        while f < self.files.len()
            invariant
                q@ == query@,
                comp@ == "@component"@,
                f <= self.files@.len(),
                out@.map_values(|x: SymbolInfo| symbol_view(x)) == files_symbols(self.files().take(f as int), query@),
            decreases self.files.len() - f,
        {
            file_symbols(&self.files[f].0, &self.files[f].1, query, q.as_slice(), comp.as_slice(), &mut out);
            proof {
                let t = self.files().take(f + 1);
                assert(t.drop_last() =~= self.files().take(f as int));
                assert(t.last() == (self.files@[f as int].0@, self.files@[f as int].1@));
            }
            f += 1;
        }
        assert(self.files().take(f as int) =~= self.files());
        out
    }

    fn get_word_at_position(&self, uri: &str, line: usize, character: usize) -> (r: Option<Vec<char>>)
        ensures
            match word_at(self.files(), uri@, line as int, character as int) {
                Some(w) => r matches Some(x) && x@ == w,
                None => r is None,
            },
    {
        proof {
            lemma_file_index(self.files(), uri@);
        }
        match self.find(uri) {
            Some(k) => {
                let cs = chars_of(self.files[k].1.as_str());
                let ls = lines_of(cs.as_slice());
                assert(self.files()[k as int].1 == self.files@[k as int].1@);
                if line < ls.len() {
                    let chars = ls[line].as_slice();
                    if character < chars.len() && is_alphabetic(chars[character]) {
                        let mut start = character;
                        let mut end = character;
                        while start > 0 && is_alphabetic(chars[start - 1])
                            invariant
                                start <= character < chars@.len(),
                                alpha_start(chars@, character as int) == alpha_start(chars@, start as int),
                            decreases start,
                        {
                            start -= 1;
                        }
                        while end < chars.len() && is_alphabetic(chars[end])
                            invariant
                                character <= end <= chars@.len(),
                                alpha_end(chars@, character as int) == alpha_end(chars@, end as int),
                            decreases chars.len() - end,
                        {
                            end += 1;
                        }
                        return Some(crate::text::slice_chars(chars, start, end));
                    }
                }
                None
            },
            None => None,
        }
    }

    /// Every line, in every file, holding the word at `line` and
    /// `character` of the file at `uri`; none when no word is there.
    pub fn get_references(&self, uri: &str, line: usize, character: usize) -> (r: Vec<Location>)
        ensures
            r@.map_values(|x: Location| location_view(x)) == match word_at(
                self.files(),
                uri@,
                line as int,
                character as int,
            ) {
                Some(w) => files_refs(self.files(), w),
                None => Seq::empty(),
            },
    {
        let mut out: Vec<Location> = Vec::new();
        match self.get_word_at_position(uri, line, character) {
            Some(w) => {
                let mut f: usize = 0;
                assert(out@.map_values(|x: Location| location_view(x)) =~= files_refs(self.files().take(0), w@));
                while f < self.files.len()
                    invariant
                        f <= self.files@.len(),
                        out@.map_values(|x: Location| location_view(x)) == files_refs(self.files().take(f as int), w@),
                    decreases self.files.len() - f,
                {
                    file_refs(&self.files[f].0, &self.files[f].1, w.as_slice(), &mut out);
                    proof {
                        let t = self.files().take(f + 1);
                        assert(t.drop_last() =~= self.files().take(f as int));
                        assert(t.last() == (self.files@[f as int].0@, self.files@[f as int].1@));
                    }
                    f += 1;
                }
                assert(self.files().take(f as int) =~= self.files());
                out
            },
            None => {
                assert(out@.map_values(|x: Location| location_view(x)) =~= Seq::<(Seq<char>, Range)>::empty());
                out
            },
        }
    }
}

} // verus!
