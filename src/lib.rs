//! Field extraction over a parsed catalog page.
//!
//! A page is held as a [`dom::Dom`]: its nodes in document order, each with
//! the end of its subtree. Extractors find the first node that matches a
//! selector, read its trimmed text, and fall back to a fixed absence text
//! when nothing matches.

pub mod dom;
pub mod text;
pub mod rating;
pub mod extract;
pub mod laws;

pub use dom::{Attribute, Dom, Node, NodeData, Selector};
pub use extract::{
    get_cast, get_language, get_origin, get_rate, get_title, id_from_link, parse_info,
    parse_reviews, search_result, CastEntry, ReviewRecord, SearchResultEntry, TitleRecord,
    CAST_CAP, REVIEW_CAP, SEARCH_CAP,
};
pub use rating::{parse_rating, Rating};
pub use text::normalize_time;
