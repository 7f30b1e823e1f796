use pysuals::bundler::graph::{extract_imports, GraphBuilder, BuildStep, DependencyGraph};
use pysuals::bundler::chunk::ChunkManager;
use pysuals::bundler::plugin::{MinifyPlugin, Plugin, SourceMapPlugin, TreeShakePlugin};
use pysuals::bundler::Bundler;

fn read(step: &BuildStep) -> String {
    match step {
        BuildStep::Read(p) => p.clone(),
        BuildStep::Done => panic!("the build ended early"),
    }
}

#[test]
fn imports_are_found_in_order() {
    let src = "import a from './a.js'\nimport { b } from \"./b.js\"\nconst c = 1";
    assert_eq!(extract_imports(src), vec!["./a.js".to_string(), "./b.js".to_string()]);
}

#[test]
fn import_takes_the_last_from_on_the_line() {
    assert_eq!(extract_imports("import x from 'a' from 'b'"), vec!["b".to_string()]);
    assert!(extract_imports("importx from 'a'").is_empty());
}

#[test]
fn build_reads_breadth_first_and_sorts_by_dependency() {
    let (mut b, step) = GraphBuilder::new("main.js");
    assert_eq!(read(&step), "main.js");
    let step = b.supply("import u from './util.js'\nimport v from './view.js'".to_string());
    assert_eq!(read(&step), "./util.js");
    let step = b.supply("import v from './view.js'".to_string());
    assert_eq!(read(&step), "./view.js");
    let step = b.supply("export const v = 1".to_string());
    assert!(matches!(step, BuildStep::Done));
    let graph = b.finish();
    assert_eq!(graph.get_all_nodes().len(), 3);
    assert!(graph.contains("./view.js"));
    let order: Vec<String> = graph.topological_sort().iter().map(|n| n.path.clone()).collect();
    assert_eq!(order, vec!["./view.js".to_string(), "./util.js".to_string(), "main.js".to_string()]);
}

#[test]
fn a_cycle_is_listed_once() {
    let (mut b, _) = GraphBuilder::new("a");
    let step = b.supply("import x from 'b'".to_string());
    assert_eq!(read(&step), "b");
    let step = b.supply("import y from 'a'".to_string());
    assert!(matches!(step, BuildStep::Done));
    let graph = b.finish();
    let order: Vec<String> = graph.topological_sort().iter().map(|n| n.path.clone()).collect();
    assert_eq!(order, vec!["b".to_string(), "a".to_string()]);
}

#[test]
fn entry_chunk_holds_all_modules() {
    let (mut b, _) = GraphBuilder::new("main.js");
    b.supply("import u from './util.js'".to_string());
    b.supply("export const y = 1".to_string());
    let graph = b.finish();
    let mut cm = ChunkManager::new();
    assert!(cm.split(&graph).is_ok());
    let chunks = cm.get_chunks();
    assert_eq!(chunks.len(), 1);
    assert_eq!(chunks[0].name, "main");
    assert!(chunks[0].is_entry);
    assert_eq!(chunks[0].modules, vec!["./util.js".to_string(), "main.js".to_string()]);
    assert_eq!(
        chunks[0].code,
        "// ./util.js\nexport const y = 1\n\n// main.js\nimport u from './util.js'\n\n"
    );
    let files = cm.output_files();
    assert_eq!(files.len(), 1);
    assert_eq!(files[0].0, "main.js");
}

#[test]
fn large_chunk_is_split_in_halves() {
    let big = "x".repeat(60000);
    let mut g = DependencyGraph::new();
    g.add_root("a");
    g.add_node("a", format!("import b from 'b'\n{}", big));
    g.add_node("b", big.clone());
    let mut cm = ChunkManager::new();
    cm.split(&g).unwrap();
    let chunks = cm.get_chunks();
    assert_eq!(chunks.len(), 2);
    assert_eq!(chunks[0].name, "main.1");
    assert_eq!(chunks[0].modules, vec!["b".to_string()]);
    assert_eq!(chunks[1].name, "main.2");
    assert_eq!(chunks[1].modules, vec!["a".to_string()]);
    assert!(chunks[1].code.is_empty() && !chunks[1].is_entry);
    let files = cm.output_files();
    assert_eq!(files[0].0, "chunk_main.1.js");
}

#[test]
fn minify_drops_comments_and_blank_lines() {
    let m = MinifyPlugin;
    assert_eq!(m.minify_js("// c\n  a = 1 \n\n b\n"), "a = 1b");
    assert_eq!(m.name(), "minify");
    assert_eq!(SourceMapPlugin.name(), "sourcemap");
    assert_eq!(TreeShakePlugin.name(), "tree-shake");
}

#[test]
fn bundler_assembles_files() {
    let mut bundler = Bundler::new("main.js".to_string(), "dist".to_string());
    bundler.add_plugin(Box::new(MinifyPlugin));
    let (mut b, step) = bundler.start_build();
    assert_eq!(read(&step), "main.js");
    let step = b.supply("const a = 1".to_string());
    assert!(matches!(step, BuildStep::Done));
    let files = bundler.assemble(b).unwrap();
    assert_eq!(files, vec![("main.js".to_string(), "// main.js\nconst a = 1\n\n".to_string())]);
    assert_eq!(bundler.output_dir(), "dist");
}

#[test]
fn paths_that_differ_only_in_separators_name_one_module() {
    let mut g = DependencyGraph::new();
    g.add_node("src/a.pys", String::from("x = 1"));
    assert!(g.contains("src//a.pys"));
    assert!(g.contains("./src/a.pys") == false);
    assert!(g.contains("src/./a.pys"));
    assert!(!g.contains("src/b.pys"));
    g.add_node("src//a.pys", String::from("x = 2"));
    assert_eq!(g.get_all_nodes().len(), 1);
    assert_eq!(g.get_node("src/a.pys").unwrap().content, "x = 2");
}
