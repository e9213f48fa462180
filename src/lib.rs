//! Structural extraction of search results and readable page text from
//! loosely structured HTML trees.
//!
//! - [`dom`]: the document tree, an arena of nodes in document order.
//! - [`query`]: attribute lookup, descendant patterns, children and siblings.
//! - [`render`]: text of a subtree, and its rendering with `*`-emphasis.
//! - [`url`]: resolving relative and redirecting links.
//! - [`search`]: the rule-driven result extractor.
//! - [`engines`]: the rule table of each engine and the dispatcher.
//! - [`browse`]: the readable text of a page.

pub mod browse;
pub mod dom;
pub mod engines;
pub mod query;
pub mod render;
pub mod search;
pub mod strings;
pub mod url;
