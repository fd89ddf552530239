//! URL routing rules for a browser launcher: a small pattern language over
//! scheme, host, port and path, its parser, matcher and canonical renderer,
//! and the ordered rule list that picks a browser for a URL.

pub mod config;
pub mod grammar;
pub mod host;
pub mod host_pattern;
pub mod laws;
pub mod path;
pub mod pattern;
pub mod rules;
pub mod scheme;
pub mod text;
