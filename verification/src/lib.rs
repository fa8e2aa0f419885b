//! Core logic of a terminal viewer for RFC-style plain-text documents.
//!
//! The crate models a loaded document as a sequence of lines and provides,
//! with machine-checked contracts: extraction of a table of contents (a
//! structured pass over an explicit "Table of Contents" region with a
//! heuristic fallback), literal case-insensitive search with cursor-relative
//! match navigation, bounded viewport scrolling, the exclusive UI-mode state
//! machine, and the decision rules of the background input pump.
//!
//! Everything that touches the terminal, the network, or the file system
//! lives outside this crate; the functions here compute over plain values.

pub mod app;
pub mod cache;
pub mod client;
pub mod document;
pub mod event;
pub mod highlight;
pub mod logging;
pub mod numfmt;
pub mod patterns;
pub mod search;
pub mod text;
pub mod toc;
pub mod toc_panel;
