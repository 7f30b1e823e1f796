//! Bundling: the module graph from an entry file, chunks of code in
//! dependency order, and plugins that transform the chunks.
use vstd::prelude::*;
use crate::text::owned;

pub mod graph;
pub mod chunk;
pub mod plugin;

pub use graph::{DependencyGraph, GraphBuilder, BuildStep};
pub use chunk::ChunkManager;
pub use plugin::Plugin;

verus! {

/// Bundles the modules reachable from an entry file into chunks. The
/// files are read and written by the caller: a build asks for files one at
/// a time (see `GraphBuilder`), and the chunks come back as files to write.
pub struct Bundler {
    entry: String,
    output: String,
    graph: DependencyGraph,
    chunk_manager: ChunkManager,
    plugins: Vec<PluginSlot>,
}

/// A plugin held by the bundler.
struct PluginSlot {
    plugin: Box<dyn Plugin>,
}

impl Bundler {
    pub closed spec fn entry(&self) -> Seq<char> {
        self.entry@
    }

    pub closed spec fn output(&self) -> Seq<char> {
        self.output@
    }

    pub closed spec fn plugin_count(&self) -> nat {
        self.plugins@.len()
    }

    pub closed spec fn chunks(&self) -> Seq<(Seq<char>, Seq<Seq<char>>, Seq<char>, bool)> {
        self.chunk_manager.chunks()
    }

    pub closed spec fn graph(&self) -> Seq<(Seq<char>, Seq<char>, Seq<Seq<char>>)> {
        self.graph.nodes()
    }

    /// A bundler for `entry`, writing under `output`, with no plugins.
    pub fn new(entry: String, output: String) -> (b: Bundler)
        ensures
            b.entry() == entry@,
            b.output() == output@,
            b.plugin_count() == 0,
            b.chunks() == Seq::<(Seq<char>, Seq<Seq<char>>, Seq<char>, bool)>::empty(),
    {
        Bundler {
            entry,
            output,
            graph: DependencyGraph::new(),
            chunk_manager: ChunkManager::new(),
            plugins: Vec::new(),
        }
    }

    /// Adds a plugin; plugins run in the order they were added. What the
    /// list of plugins holds afterwards is not stated: it holds trait
    /// objects, of which Verus keeps nothing across the call.
    pub fn add_plugin(&mut self, plugin: Box<dyn Plugin>)
        ensures
            final(self).entry() == old(self).entry(),
            final(self).output() == old(self).output(),
            final(self).chunks() == old(self).chunks(),
    {
        self.plugins.push(PluginSlot { plugin });
    }

    /// The directory the chunks go to.
    pub fn output_dir(&self) -> (r: String)
        ensures
            r@ == self.output(),
    {
        owned(self.output.as_str())
    }

    /// Starts building the module graph at the entry file.
    pub fn start_build(&self) -> (r: (GraphBuilder, BuildStep))
        ensures
            r.0.wf(),
            r.0.entry() == self.entry(),
            r.0.graph() == Seq::<(Seq<char>, Seq<char>, Seq<Seq<char>>)>::empty(),
            r.0.awaiting() == Some(self.entry()),
            r.1 matches BuildStep::Read(p) && p@ == self.entry(),
    {
        GraphBuilder::new(self.entry.as_str())
    }

    /// Takes the built graph, makes the chunks from it, runs the plugins
    /// in order (stopping at the first that fails), and returns the files
    /// to write: each chunk's file name and code. Without plugins the
    /// chunks are exactly those made from the graph.
    pub fn assemble(&mut self, built: GraphBuilder) -> (r: Result<Vec<(String, String)>, String>)
        requires
            built.wf(),
        ensures
            final(self).graph() == built.graph(),
            final(self).entry() == old(self).entry(),
            final(self).output() == old(self).output(),
            r matches Ok(files) ==> files@.len() == final(self).chunks().len() && forall|i: int|
                0 <= i < files@.len() ==> (#[trigger] files@[i].0@, files@[i].1@) == chunk::chunk_file(
                    final(self).chunks()[i],
                ),
            old(self).plugin_count() == 0 ==> r is Ok && final(self).chunks() == chunk::split_chunks(
                old(self).chunks().push(
                    chunk::main_chunk(built.graph(), graph::topo_order(built.graph(), seq![built.entry()])),
                ),
            ),
    {
        self.graph = built.finish();
        let _ = self.chunk_manager.split(&self.graph);
        let ghost after = self.chunk_manager.chunks();
        let mut i: usize = 0;
        while i < self.plugins.len()
            invariant
                i <= self.plugins@.len(),
                self.graph.nodes() == built.graph(),
                self.entry@ == old(self).entry(),
                self.output@ == old(self).output(),
                self.plugins@.len() == old(self).plugin_count(),
                self.plugins@.len() == 0 ==> self.chunk_manager.chunks() == after,
            decreases self.plugins.len() - i,
        {
            match self.plugins[i].plugin.transform(&mut self.chunk_manager) {
                Ok(()) => {},
                Err(e) => {
                    return Err(e);
                },
            }
            i += 1;
        }
        Ok(self.chunk_manager.output_files())
    }
}

} // verus!
