//! A file-carving library: recovers files embedded in raw binary media by
//! scanning the byte stream for known file-type signatures, independent of
//! any filesystem metadata.

pub mod catalog;
pub mod engine;
pub mod laws;
pub mod matcher;
pub mod resolver;
