//! Position resolution and tag indexing for htmx attributes in HTML,
//! JavaScript and backend sources.

pub mod config;
pub mod diagnostics;
pub mod htmx_tags;
pub mod htmx_tree_sitter;
pub mod init_hx;
pub mod model;
pub mod position;
pub mod queries;
pub mod query_helper;
pub mod server;
pub mod store;
pub mod syntax;
pub mod text;
