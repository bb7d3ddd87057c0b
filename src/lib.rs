//! Turns searchfox code-search results into answers: where a symbol is
//! defined, its complete source block, who last touched its lines, and the
//! call graph between symbols.
use vstd::prelude::*;

pub mod blame;
pub mod call_graph;
pub mod client;
pub mod field_layout;
pub mod lexer;
pub mod order;
pub mod resolver;
pub mod search;
pub mod text;
pub mod types;
pub mod utils;

pub use client::{Config, SearchfoxClient};
pub use search::{CategoryFilter, SearchOptions, SearchResult};
pub use types::{File, Line, RequestLog, ResponseLog, ResultGroup, SearchfoxResponse};
pub use utils::searchfox_url_repo;

verus! {

} // verus!
