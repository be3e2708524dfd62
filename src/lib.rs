//! Vocabulary word lists with pronunciation audio: normalising labels into
//! file-safe keys, resolving lesson URLs, extracting word sections from a
//! page, and the decisions of an idempotent download pipeline.

pub mod text;
pub mod urls;
pub mod words;
pub mod dom;
pub mod page;
pub mod download;
pub mod args;
pub mod driver;
