//! A verified core for a terminal-resident, read-only HTML viewer.
//!
//! The library holds the viewer's logic: numeric-prefixed motion
//! interpretation, two-axis scroll tracking with saturating clamps, and
//! the fetch pipeline's text processing (body normalization, title
//! extraction, and line splitting around an HTML-to-text conversion).
//! Terminal handling and the HTTP transport live outside it.

pub mod browser;
pub mod document;
pub mod prefix;
pub mod sat;
pub mod scroll;
pub mod text;
