//! A catalog of display records fetched from a remote document, with a cache
//! of the decoded poster images that the records refer to.
//!
//! The library holds the state and the decisions; issuing network requests
//! and drawing belong to the program that embeds it.

pub mod text;
pub mod bitmap;
pub mod decode;
pub mod cache;
pub mod fetch;
pub mod json;
pub mod date;
pub mod catalog;
pub mod app;
