//! Renaming: answered with an empty set of changes.
use vstd::prelude::*;
use std::collections::HashMap;
pub use super::{Position, Range, TextEdit};

verus! {

/// Edits to make across the workspace: per document, or as versioned
/// document edits.
#[derive(Debug)]
pub struct WorkspaceEdit {
    pub changes: Option<HashMap<String, Vec<TextEdit>>>,
    pub document_changes: Option<Vec<DocumentChange>>,
}

#[derive(Debug)]
pub enum DocumentChange {
    TextDocumentEdit(TextDocumentEdit),
}

/// Edits to one version of one document.
#[derive(Debug)]
pub struct TextDocumentEdit {
    pub text_document: VersionedTextDocumentIdentifier,
    pub edits: Vec<TextEdit>,
}

#[derive(Debug)]
pub struct VersionedTextDocumentIdentifier {
    pub uri: String,
    pub version: i32,
}

pub struct RenameProvider;

impl RenameProvider {
    pub fn new() -> (p: RenameProvider) {
        RenameProvider
    }

    /// A workspace edit with an empty map of changes and no document
    /// changes, whatever the new name.
    pub fn rename_symbol(&self, new_name: Option<&str>) -> (r: WorkspaceEdit)
        ensures
            r.changes matches Some(m) && m@ == Map::<String, Vec<TextEdit>>::empty(),
            r.document_changes is None,
    {
        WorkspaceEdit { changes: Some(HashMap::new()), document_changes: None }
    }
}

} // verus!
