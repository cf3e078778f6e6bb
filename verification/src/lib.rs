//! Access-log ingestion core.
//!
//! The crate parses access-log lines written in a fixed positional grammar
//! into typed records ([`parser::LogRow`]) and drives batches of lines
//! through that parser while counting accepted and rejected lines
//! ([`ingest::BatchIngestor`]). Parsing is total and verified: the grammar
//! is written down as a specification over the line text, and the executable
//! parser is proved to accept exactly the lines the grammar describes.
//!
//! The analytical store the records are appended to and the dashboard that
//! queries it are external collaborators; only the path handle they share
//! ([`web::AppState`]) lives here.

pub mod ingest;
pub mod parser;
pub mod scan;
pub mod time;
pub mod urlsplit;
pub mod web;
