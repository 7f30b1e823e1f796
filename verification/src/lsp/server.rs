//! The server's decisions: which handler a request goes to, and the open
//! documents it keeps. Reading requests and writing replies is the
//! caller's.
use vstd::prelude::*;
use crate::text::{owned, str_eq};

verus! {

/// An open document.
#[derive(Debug)]
pub struct Document {
    pub uri: String,
    pub content: String,
    pub version: i32,
}

pub open spec fn document_view(d: Document) -> (Seq<char>, Seq<char>, i32) {
    (d.uri@, d.content@, d.version)
}

pub open spec fn documents_view(s: Seq<Document>) -> Seq<(Seq<char>, Seq<char>, i32)> {
    s.map_values(|d: Document| document_view(d))
}

/// The first open document with this URI.
pub open spec fn document_index(s: Seq<(Seq<char>, Seq<char>, i32)>, uri: Seq<char>) -> Option<int>
    decreases s.len(),
{
    if s.len() == 0 {
        None
    } else {
        match document_index(s.drop_last(), uri) {
            Some(k) => Some(k),
            None => if s.last().0 == uri { Some(s.len() - 1) } else { None },
        }
    }
}

proof fn lemma_document_index(s: Seq<(Seq<char>, Seq<char>, i32)>, uri: Seq<char>)
    ensures
        match document_index(s, uri) {
            Some(k) => 0 <= k < s.len() && s[k].0 == uri && forall|j: int| 0 <= j < k ==> s[j].0 != uri,
            None => forall|j: int| 0 <= j < s.len() ==> s[j].0 != uri,
        },
    decreases s.len(),
{
    if s.len() > 0 {
        let d = s.drop_last();
        lemma_document_index(d, uri);
        assert(forall|j: int| 0 <= j < d.len() ==> d[j] == s[j]);
    }
}

/// Records a newly opened document after the others.
pub fn open_document(documents: &mut Vec<Document>, doc: Document)
    ensures
        documents_view(final(documents)@) == documents_view(old(documents)@).push(document_view(doc)),
{
    let ghost d0 = documents_view(documents@);
    let ghost dv = document_view(doc);
    documents.push(doc);
    assert(documents_view(documents@) =~= d0.push(dv));
}

/// Gives the first open document with this URI the new text and version;
/// nothing changes when no document has that URI.
pub fn update_document(documents: &mut Vec<Document>, uri: &str, version: i32, content: &str)
    ensures
        documents_view(final(documents)@) == match document_index(documents_view(old(documents)@), uri@) {
            Some(k) => documents_view(old(documents)@).update(k, (uri@, content@, version)),
            None => documents_view(old(documents)@),
        },
{
    let ghost d0 = documents_view(documents@);
    proof {
        lemma_document_index(d0, uri@);
    }
    let mut i: usize = 0;
    while i < documents.len()
        invariant
            d0 == documents_view(documents@),
            d0 == documents_view(old(documents)@),
            i <= documents@.len(),
            forall|j: int| 0 <= j < i ==> d0[j].0 != uri@,
            match document_index(d0, uri@) {
                Some(k) => 0 <= k < d0.len() && d0[k].0 == uri@ && forall|j: int| 0 <= j < k ==> d0[j].0 != uri@,
                None => forall|j: int| 0 <= j < d0.len() ==> d0[j].0 != uri@,
            },
        decreases documents.len() - i,
    {
        assert(d0[i as int].0 == documents@[i as int].uri@);
        if str_eq(documents[i].uri.as_str(), uri) {
            let doc = Document { uri: owned(documents[i].uri.as_str()), content: owned(content), version };
            documents.set(i, doc);
            assert(documents_view(documents@) =~= d0.update(i as int, (uri@, content@, version)));
            return;
        }
        i += 1;
    }
}

/// The requests the server answers.
#[derive(Debug, Clone, Copy, PartialEq, Eq, Structural)]
pub enum Request {
    Initialize,
    Completion,
    Hover,
    Definition,
    Rename,
    DidOpen,
    DidChange,
    Formatting,
    ConfigurationChange,
    Shutdown,
}

/// The handler for a request's method; other methods are ignored.
pub fn route(method: &str) -> (r: Option<Request>)
    ensures
        r == if method@ == "initialize"@ {
            Some(Request::Initialize)
        } else if method@ == "textDocument/completion"@ {
            Some(Request::Completion)
        } else if method@ == "textDocument/hover"@ {
            Some(Request::Hover)
        } else if method@ == "textDocument/definition"@ {
            Some(Request::Definition)
        } else if method@ == "textDocument/rename"@ {
            Some(Request::Rename)
        } else if method@ == "textDocument/didOpen"@ {
            Some(Request::DidOpen)
        } else if method@ == "textDocument/didChange"@ {
            Some(Request::DidChange)
        } else if method@ == "textDocument/formatting"@ {
            Some(Request::Formatting)
        } else if method@ == "workspace/didChangeConfiguration"@ {
            Some(Request::ConfigurationChange)
        } else if method@ == "shutdown"@ {
            Some(Request::Shutdown)
        } else {
            None
        },
{
    if str_eq(method, "initialize") {
        Some(Request::Initialize)
    } else if str_eq(method, "textDocument/completion") {
        Some(Request::Completion)
    } else if str_eq(method, "textDocument/hover") {
        Some(Request::Hover)
    } else if str_eq(method, "textDocument/definition") {
        Some(Request::Definition)
    } else if str_eq(method, "textDocument/rename") {
        Some(Request::Rename)
    } else if str_eq(method, "textDocument/didOpen") {
        Some(Request::DidOpen)
    } else if str_eq(method, "textDocument/didChange") {
        Some(Request::DidChange)
    } else if str_eq(method, "textDocument/formatting") {
        Some(Request::Formatting)
    } else if str_eq(method, "workspace/didChangeConfiguration") {
        Some(Request::ConfigurationChange)
    } else if str_eq(method, "shutdown") {
        Some(Request::Shutdown)
    } else {
        None
    }
}

} // verus!
