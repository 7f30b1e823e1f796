//! Chunks: the modules in dependency order with their code joined, split
//! in halves when too large.
use vstd::prelude::*;
use vstd::utf8::encode_utf8;
use crate::text::{owned, push_str, push_string, views};
use super::graph::{DependencyGraph, Node, node_view, topo_order};

verus! {

/// A piece of the bundle: its name, the paths of its modules, its code,
/// and whether it is the entry chunk.
#[derive(Debug)]
pub struct Chunk {
    pub name: String,
    pub modules: Vec<String>,
    pub code: String,
    pub is_entry: bool,
}

pub open spec fn chunk_view(c: Chunk) -> (Seq<char>, Seq<Seq<char>>, Seq<char>, bool) {
    (c.name@, views(c.modules@), c.code@, c.is_entry)
}

pub open spec fn chunks_view(s: Seq<Chunk>) -> Seq<(Seq<char>, Seq<Seq<char>>, Seq<char>, bool)> {
    s.map_values(|c: Chunk| chunk_view(c))
}

/// Chunks larger than this many bytes are split.
pub const MAX_CHUNK_BYTES: usize = 102400;

/// A module's part of a chunk's code: a comment with its path, its text,
/// and a blank line.
pub open spec fn module_code(n: (Seq<char>, Seq<char>, Seq<Seq<char>>)) -> Seq<char> {
    "// "@ + n.0 + "\n"@ + n.1 + "\n\n"@
}

/// The code of the modules at positions `order`, in that order.
pub open spec fn bundle_code(g: Seq<(Seq<char>, Seq<char>, Seq<Seq<char>>)>, order: Seq<int>) -> Seq<char>
    decreases order.len(),
{
    if order.len() == 0 {
        seq![]
    } else {
        bundle_code(g, order.drop_last()) + module_code(g[order.last()])
    }
}

/// The entry chunk of a graph: all modules in dependency order.
pub open spec fn main_chunk(g: Seq<(Seq<char>, Seq<char>, Seq<Seq<char>>)>, order: Seq<int>) -> (
    Seq<char>,
    Seq<Seq<char>>,
    Seq<char>,
    bool,
) {
    ("main"@, order.map_values(|k: int| g[k].0), bundle_code(g, order), true)
}

/// A chunk over the size limit with more than one module becomes two
/// chunks, `<name>.1` and `<name>.2`, each with half of the modules and no
/// code yet; any other chunk stays.
pub open spec fn split_chunk(c: (Seq<char>, Seq<Seq<char>>, Seq<char>, bool)) -> Seq<
    (Seq<char>, Seq<Seq<char>>, Seq<char>, bool),
> {
    if encode_utf8(c.2).len() > MAX_CHUNK_BYTES && c.1.len() > 1 {
        let half = c.1.len() / 2;
        seq![(c.0 + ".1"@, c.1.take(half as int), seq![], false), (c.0 + ".2"@, c.1.skip(half as int), seq![], false)]
    } else {
        seq![c]
    }
}

pub open spec fn split_chunks(cs: Seq<(Seq<char>, Seq<Seq<char>>, Seq<char>, bool)>) -> Seq<
    (Seq<char>, Seq<Seq<char>>, Seq<char>, bool),
>
    decreases cs.len(),
{
    if cs.len() == 0 {
        seq![]
    } else {
        split_chunks(cs.drop_last()) + split_chunk(cs.last())
    }
}

/// The modules of the chunks, one chunk after another.
pub open spec fn all_modules(cs: Seq<(Seq<char>, Seq<Seq<char>>, Seq<char>, bool)>) -> Seq<Seq<char>>
    decreases cs.len(),
{
    if cs.len() == 0 {
        seq![]
    } else {
        all_modules(cs.drop_last()) + cs.last().1
    }
}

proof fn lemma_all_modules_append(
    a: Seq<(Seq<char>, Seq<Seq<char>>, Seq<char>, bool)>,
    b: Seq<(Seq<char>, Seq<Seq<char>>, Seq<char>, bool)>,
)
    ensures
        all_modules(a + b) == all_modules(a) + all_modules(b),
    decreases b.len(),
{
    if b.len() == 0 {
        assert(a + b =~= a);
    } else {
        lemma_all_modules_append(a, b.drop_last());
        assert((a + b).drop_last() =~= a + b.drop_last());
        assert(all_modules(a) + (all_modules(b.drop_last()) + b.last().1) =~= (all_modules(a) + all_modules(
            b.drop_last(),
        )) + b.last().1);
    }
}

/// Splitting chunks by size keeps every module, in order: the parts of
/// a chunk hold its modules between them.
pub proof fn lemma_split_keeps_modules(cs: Seq<(Seq<char>, Seq<Seq<char>>, Seq<char>, bool)>)
    ensures
        all_modules(split_chunks(cs)) == all_modules(cs),
    decreases cs.len(),
{
    if cs.len() > 0 {
        let c = cs.last();
        lemma_split_keeps_modules(cs.drop_last());
        lemma_all_modules_append(split_chunks(cs.drop_last()), split_chunk(c));
        let parts = split_chunk(c);
        if encode_utf8(c.2).len() > MAX_CHUNK_BYTES && c.1.len() > 1 {
            let half = c.1.len() / 2;
            assert(parts.drop_last().drop_last() =~= seq![]);
            assert(c.1.take(half as int) + c.1.skip(half as int) =~= c.1);
            let p1 = parts.drop_last();
            assert(p1.len() == 1 && p1.last() == parts[0]);
            assert(all_modules(p1.drop_last()) == Seq::<Seq<char>>::empty());
            assert(all_modules(p1) == all_modules(p1.drop_last()) + p1.last().1);
            assert(all_modules(p1) =~= parts[0].1);
            assert(all_modules(parts) =~= c.1);
        } else {
            assert(parts.drop_last() =~= seq![]);
            assert(all_modules(parts.drop_last()) =~= seq![]);
            assert(all_modules(parts) =~= c.1);
        }
    }
}

/// The file a chunk is written to, and its text.
pub open spec fn chunk_file(c: (Seq<char>, Seq<Seq<char>>, Seq<char>, bool)) -> (Seq<char>, Seq<char>) {
    (if c.3 { "main.js"@ } else { "chunk_"@ + c.0 + ".js"@ }, c.2)
}

/// A copy of `v[from..to]`.
fn copy_strings(v: &Vec<String>, from: usize, to: usize) -> (r: Vec<String>)
    requires
        from <= to <= v@.len(),
    ensures
        views(r@) == views(v@).subrange(from as int, to as int),
{
    let mut r: Vec<String> = Vec::new();
    let mut i = from;
    while i < to
        invariant
            from <= i <= to <= v@.len(),
            views(r@) == views(v@).subrange(from as int, i as int),
        decreases to - i,
    {
        let ghost r0 = views(r@);
        r.push(owned(v[i].as_str()));
        assert(views(r@) =~= r0.push(v@[i as int]@));
        assert(views(r@) =~= views(v@).subrange(from as int, i + 1));
        i += 1;
    }
    r
}

impl Chunk {
    /// A copy of this chunk.
    pub fn copy(&self) -> (c: Chunk)
        ensures
            chunk_view(c) == chunk_view(*self),
    {
        let modules = copy_strings(&self.modules, 0, self.modules.len());
        assert(views(self.modules@).subrange(0, self.modules@.len() as int) =~= views(self.modules@));
        Chunk { name: owned(self.name.as_str()), modules, code: owned(self.code.as_str()), is_entry: self.is_entry }
    }
}

/// The chunks of a bundle.
pub struct ChunkManager {
    chunks: Vec<Chunk>,
}

impl ChunkManager {
    /// The chunks as plain values.
    pub closed spec fn chunks(&self) -> Seq<(Seq<char>, Seq<Seq<char>>, Seq<char>, bool)> {
        chunks_view(self.chunks@)
    }

    pub fn new() -> (m: ChunkManager)
        ensures
            m.chunks() == Seq::<(Seq<char>, Seq<Seq<char>>, Seq<char>, bool)>::empty(),
    {
        let m = ChunkManager { chunks: Vec::new() };
        assert(m.chunks() =~= Seq::<(Seq<char>, Seq<Seq<char>>, Seq<char>, bool)>::empty());
        m
    }

    /// Adds the entry chunk of `graph`, all modules in dependency order,
    /// then splits every chunk over the size limit.
    pub fn split(&mut self, graph: &DependencyGraph) -> (r: Result<(), String>)
        requires
            graph.wf(),
        ensures
            r is Ok,
            final(self).chunks() == split_chunks(
                old(self).chunks().push(main_chunk(graph.nodes(), topo_order(graph.nodes(), graph.roots()))),
            ),
    {
        let sorted = graph.topological_sort();
        let ghost g = graph.nodes();
        let ghost t = topo_order(graph.nodes(), graph.roots());
        let mut modules: Vec<String> = Vec::new();
        let mut code = String::new();
        let mut i: usize = 0;
        while i < sorted.len()
            invariant
                sorted@.len() == t.len(),
                forall|q: int| 0 <= q < sorted@.len() ==> node_view(*#[trigger] sorted@[q]) == g[t[q]],
                i <= sorted@.len(),
                views(modules@) == t.take(i as int).map_values(|k: int| g[k].0),
                code@ == bundle_code(g, t.take(i as int)),
            decreases sorted.len() - i,
        {
            let node: &Node = sorted[i];
            assert(node_view(*node) == g[t[i as int]]);
            let ghost m0 = views(modules@);
            let ghost c0 = code@;
            modules.push(owned(node.path.as_str()));
            push_str(&mut code, "// ");
            push_string(&mut code, &node.path);
            push_str(&mut code, "\n");
            push_string(&mut code, &node.content);
            push_str(&mut code, "\n\n");
            proof {
                let tt = t.take(i + 1);
                assert(tt.drop_last() =~= t.take(i as int));
                assert(tt.last() == t[i as int]);
                assert(views(modules@) =~= m0.push(g[t[i as int]].0));
                assert(t.take(i + 1).map_values(|k: int| g[k].0) =~= t.take(i as int).map_values(|k: int| g[k].0).push(
                    g[t[i as int]].0,
                ));
                assert(code@ =~= c0 + module_code(g[t[i as int]]));
            }
            i += 1;
        }
        assert(t.take(sorted@.len() as int) =~= t);
        let entry_chunk = Chunk { name: owned("main"), modules, code, is_entry: true };
        let ghost c0 = self.chunks();
        self.chunks.push(entry_chunk);
        assert(self.chunks() =~= c0.push(main_chunk(g, t)));
        self.split_by_size();
        Ok(())
    }

    /// Splits every chunk over the size limit that has more than one
    /// module.
    pub fn split_by_size(&mut self)
        ensures
            final(self).chunks() == split_chunks(old(self).chunks()),
    {
        let max_size = MAX_CHUNK_BYTES;
        let ghost cs = self.chunks();
        let mut new_chunks: Vec<Chunk> = Vec::new();
        let mut i: usize = 0;
        while i < self.chunks.len()
            invariant
                cs == self.chunks(),
                max_size == MAX_CHUNK_BYTES,
                i <= self.chunks@.len(),
                chunks_view(new_chunks@) == split_chunks(cs.take(i as int)),
            decreases self.chunks.len() - i,
        {
            let chunk = &self.chunks[i];
            let ghost cv = chunk_view(*chunk);
            assert(cv == cs[i as int]);
            let ghost n0 = chunks_view(new_chunks@);
            let bytes = chunk.code.as_str().as_bytes().len();
            if bytes > max_size && chunk.modules.len() > 1 {
                let half = chunk.modules.len() / 2;
                let mut name1 = owned(chunk.name.as_str());
                push_str(&mut name1, ".1");
                let mut name2 = owned(chunk.name.as_str());
                push_str(&mut name2, ".2");
                let chunk1 = Chunk {
                    name: name1,
                    modules: copy_strings(&chunk.modules, 0, half),
                    code: String::new(),
                    is_entry: false,
                };
                let chunk2 = Chunk {
                    name: name2,
                    modules: copy_strings(&chunk.modules, half, chunk.modules.len()),
                    code: String::new(),
                    is_entry: false,
                };
                new_chunks.push(chunk1);
                new_chunks.push(chunk2);
                proof {
                    assert(views(chunk.modules@).subrange(0, half as int) =~= cv.1.take(half as int));
                    assert(views(chunk.modules@).subrange(half as int, chunk.modules@.len() as int) =~= cv.1.skip(
                        half as int,
                    ));
                    assert(chunks_view(new_chunks@) =~= n0 + split_chunk(cv));
                }
            } else {
                let c = chunk.copy();
                new_chunks.push(c);
                assert(chunks_view(new_chunks@) =~= n0.push(cv));
                assert(chunks_view(new_chunks@) =~= n0 + split_chunk(cv));
            }
            assert(cs.take(i + 1).drop_last() =~= cs.take(i as int));
            i += 1;
        }
        assert(cs.take(i as int) =~= cs);
        self.chunks = new_chunks;
    }

    /// The chunks.
    pub fn get_chunks(&self) -> (r: &[Chunk])
        ensures
            chunks_view(r@) == self.chunks(),
    {
        self.chunks.as_slice()
    }

    /// The files to write, one per chunk: `main.js` for the entry chunk,
    /// `chunk_<name>.js` for the others, each with the chunk's code.
    pub fn output_files(&self) -> (r: Vec<(String, String)>)
        ensures
            r@.len() == self.chunks().len(),
            forall|i: int| 0 <= i < r@.len() ==> (#[trigger] r@[i].0@, r@[i].1@) == chunk_file(self.chunks()[i]),
    {
        let mut r: Vec<(String, String)> = Vec::new();
        let mut i: usize = 0;
        while i < self.chunks.len()
            invariant
                i <= self.chunks@.len(),
                r@.len() == i,
                forall|q: int| 0 <= q < i ==> (#[trigger] r@[q].0@, r@[q].1@) == chunk_file(self.chunks()[q]),
            decreases self.chunks.len() - i,
        {
            let chunk = &self.chunks[i];
            assert(chunk_view(*chunk) == self.chunks()[i as int]);
            let name = if chunk.is_entry {
                owned("main.js")
            } else {
                let mut n = owned("chunk_");
                push_string(&mut n, &chunk.name);
                push_str(&mut n, ".js");
                n
            };
            r.push((name, owned(chunk.code.as_str())));
            i += 1;
        }
        r
    }
}

} // verus!
