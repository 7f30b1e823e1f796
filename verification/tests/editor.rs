use pysuals::lsp::diagnostics::DiagnosticProvider;
use pysuals::lsp::completion::CompletionProvider;
use pysuals::lsp::formatting::Formatter;
use pysuals::lsp::hover::HoverProvider;
use pysuals::lsp::goto::GotoProvider;
use pysuals::lsp::rename::RenameProvider;
use pysuals::lsp::workspace::WorkspaceManager;
use pysuals::lsp::server::{route, open_document, update_document, Document, Request};

#[test]
fn diagnostics_for_slips() {
    let d = DiagnosticProvider::new();
    let found = d.get_diagnostics("file:///a.pys", "@compnent App\ndef f():\ndef g() -> int:\nsiganl x");
    assert_eq!(found.len(), 3);
    assert_eq!(found[0].message, "Did you mean @component?");
    assert_eq!((found[0].range.start.line, found[0].range.end.character), (0, 10));
    assert_eq!(found[0].severity, Some(1));
    assert_eq!(found[0].source, Some("PySuals".to_string()));
    assert_eq!(found[1].message, "Missing return type hint");
    assert_eq!((found[1].range.start.line, found[1].severity), (1, Some(2)));
    assert_eq!(found[2].message, "Did you mean signal?");
    assert_eq!(found[2].range.start.line, 3);
}

#[test]
fn completion_lists_keywords_then_elements() {
    let c = CompletionProvider::new();
    let items = c.get_completions();
    assert_eq!(items.len(), 26);
    assert_eq!(items[0].label, "component");
    assert_eq!(items[0].kind, 15);
    assert_eq!(items[0].detail, Some("Keyword".to_string()));
    assert_eq!(items[13].label, "div");
    assert_eq!(items[13].documentation, Some("Creates a <div> element".to_string()));
}

#[test]
fn formatting_indents_blocks() {
    let f = Formatter::new();
    assert_eq!(f.format_content("a:\nb\n}\nc"), "a:\n    b\n}\nc\n");
    let edits = f.format("  x:\n y");
    assert_eq!(edits.len(), 1);
    assert_eq!(edits[0].new_text, "x:\n    y\n");
    assert_eq!(edits[0].range.end.line, 10000);
    assert_eq!(f.content_path("file:///tmp/a.pys"), Some("/tmp/a.pys".to_string()));
    assert_eq!(f.content_path("http://x"), None);
}

#[test]
fn hover_and_definition() {
    let h = HoverProvider::new();
    let hv = h.get_hover(Some(3), Some(5)).unwrap();
    assert_eq!(hv.contents.kind, "markdown");
    assert_eq!(hv.contents.value, "**PySuals Component**\n\nDefined at line 3");
    let r = hv.range.unwrap();
    assert_eq!((r.start.character, r.end.character), (5, 6));
    assert!(h.get_hover(None, Some(1)).is_none());
    let g = GotoProvider::new();
    let locs = g.get_definition(Some("file:///a.pys"), Some(2));
    assert_eq!(locs.len(), 1);
    assert_eq!((locs[0].range.start.line, locs[0].range.end.character), (2, 10));
    assert!(g.get_definition(None, Some(2)).is_empty());
    let edit = RenameProvider::new().rename_symbol(Some("y"));
    assert!(edit.changes.unwrap().is_empty());
    assert!(edit.document_changes.is_none());
}

#[test]
fn workspace_symbols_and_references() {
    let mut w = WorkspaceManager::new();
    assert_eq!(w.initialize("file:///w"), Some("/w".to_string()));
    assert_eq!(w.initialize("/w"), None);
    w.add_scanned_file("/w/a.pys", "@component Counter\nlet count = 1\n".to_string());
    assert_eq!(w.get_file("file:///w/a.pys"), Some(&"@component Counter\nlet count = 1\n".to_string()));
    let syms = w.search_symbols("count");
    assert_eq!(syms.len(), 2);
    assert_eq!((syms[0].name.as_str(), syms[0].kind), ("Counter", 2));
    assert_eq!(syms[0].location.range.end.character, 7);
    assert_eq!((syms[1].name.as_str(), syms[1].kind), ("count", 5));
    assert_eq!(syms[1].location.range.start.line, 1);
    let refs = w.get_references("file:///w/a.pys", 1, 5);
    assert_eq!(refs.len(), 1);
    assert_eq!((refs[0].range.start.line, refs[0].range.end.character), (1, 5));
    assert!(w.get_references("file:///w/a.pys", 1, 3).is_empty());
    w.add_scanned_file("/w/a.pys", "x".to_string());
    assert_eq!(w.get_all_files().len(), 1);
}

#[test]
fn scan_filters() {
    assert!(WorkspaceManager::skips_dir("node_modules"));
    assert!(!WorkspaceManager::skips_dir("src"));
    assert!(WorkspaceManager::is_source_file("app.pys"));
    assert!(WorkspaceManager::is_source_file("view.pydom"));
    assert!(!WorkspaceManager::is_source_file(".pys"));
    assert!(!WorkspaceManager::is_source_file("app.py"));
}

#[test]
fn routing_and_documents() {
    assert_eq!(route("textDocument/hover"), Some(Request::Hover));
    assert_eq!(route("shutdown"), Some(Request::Shutdown));
    assert_eq!(route("textDocument/unknown"), None);
    let mut docs: Vec<Document> = Vec::new();
    open_document(&mut docs, Document { uri: "a".to_string(), content: "1".to_string(), version: 1 });
    update_document(&mut docs, "a", 2, "2");
    update_document(&mut docs, "b", 9, "9");
    assert_eq!(docs.len(), 1);
    assert_eq!((docs[0].content.as_str(), docs[0].version), ("2", 2));
}

#[test]
fn formatting_twice_changes_nothing() {
    let f = Formatter::new();
    let text = "component App():\n  if x:\n y = 1\n        }\n\r\n)\n  z  ";
    let once = f.format_content(text);
    assert_eq!(f.format_content(&once), once);
}
