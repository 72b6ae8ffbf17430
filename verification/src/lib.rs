//! A depth-bounded web crawler library.
//!
//! The library holds the crawler's logic: turning the token stream of a
//! fetched page into the href values of its anchor elements, resolving each
//! href against the page's domain base into an absolute URL, and the
//! round-by-round orchestration of a crawl up to a depth bound. Network I/O,
//! the HTML tokenizer and the channel to the result sink live outside the
//! library and are driven by its caller.

pub mod crawl;
pub mod extract;
pub mod html;
pub mod urls;
