//! Discovers source files, filters them by extension and exclude globs,
//! optionally strips full-line comments, and renders them as text blocks or
//! as a JSON array.

pub mod comments;
pub mod config;
pub mod exclude;
pub mod output;
pub mod paths;
pub mod text;

pub use comments::strip_comments_for_ext;
pub use config::Config;
pub use paths::{make_display_path, matches_ext};
