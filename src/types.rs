//! The plain data that the search service's responses are read into.
use vstd::prelude::*;

verus! {

/// One matching line of a file.
#[derive(Clone, Debug)]
pub struct Line {
    /// 1-based line number; 0 for a file-level match.
    pub lno: usize,
    pub line: String,
    pub bounds: Option<Vec<usize>>,
    pub context: Option<String>,
    pub contextsym: Option<String>,
    pub peek_range: Option<String>,
    /// A more specific query for the symbol on this line, if any.
    pub upsearch: Option<String>,
}

/// A file with its matching lines.
#[derive(Clone, Debug)]
pub struct File {
    pub path: String,
    pub lines: Vec<Line>,
}

/// One value of a search response, its shape resolved once: a flat list of
/// files, or named categories (`Definitions (Foo)`, `Declarations`, ...) of
/// files.
#[derive(Clone, Debug)]
pub enum ResultGroup {
    Files(Vec<File>),
    Categories(Vec<(String, Vec<File>)>),
}

/// A search response: its keys in order, each with its group.  Keys that
/// begin with `*` hold metadata.
#[derive(Clone, Debug)]
pub struct SearchfoxResponse {
    pub groups: Vec<(String, ResultGroup)>,
}

/// `std::time::Instant`, carried unread in request logs.
#[verifier::external_type_specification]
#[verifier::external_body]
pub struct ExInstant(std::time::Instant);

/// A request being timed.
#[derive(Debug)]
pub struct RequestLog {
    pub url: String,
    pub method: String,
    pub start_time: std::time::Instant,
    pub request_id: usize,
}

/// A finished request.
#[derive(Debug)]
pub struct ResponseLog {
    pub request_id: usize,
    pub status: u16,
    pub size_bytes: usize,
    pub duration: std::time::Duration,
}

/// Whether a response key holds metadata, not results.
pub open spec fn is_metadata_key(key: Seq<char>) -> bool {
    key.len() > 0 && key[0] == '*'
}

/// Whether `key` begins with `*`.
pub fn metadata_key(key: &str) -> (r: bool)
    ensures
        r == is_metadata_key(key@),
{
    let k = crate::text::chars_of(key);
    k.len() > 0 && k[0] == '*'
}

} // verus!
