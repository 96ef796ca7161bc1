//! Resolution of colour schemes and templates in a two-root directory layout.
//!
//! `pattern` rewrites user patterns and builds the glob and candidate paths;
//! `find` expands them against the file system.
pub mod find;
pub mod layout;
pub mod pattern;
