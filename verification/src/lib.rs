//! A text-substitution engine for a file-scaffolding tool: template text is
//! scanned for bracket-delimited tokens, each token is parsed into an
//! identifier plus parameter groups and evaluated against a per-file
//! context, and the value is spliced back until no token remains.

pub mod config;
pub mod enumeration_list;
pub mod environment;
pub mod file_context;
pub mod file_harvester;
pub mod formatter;
pub mod output_file_description;
pub mod parser;
pub mod platform_list;
pub mod replacement_token;
pub mod symbol_replacer;
pub mod template_file_list;
pub mod text;
pub mod token;
pub mod util;

pub use util::replace_if_not_none;
