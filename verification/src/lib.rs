//! An image catalog: the query language, the catalog's statements and the
//! ingest rules, each with a proved contract.

pub mod alias;
pub mod app;
pub mod database;
pub mod defun;
pub mod errors;
pub mod expander;
pub mod expression;
pub mod global_alias;
pub mod image_format;
pub mod loader;
pub mod meta;
pub mod output_format;
pub mod retry;
pub mod search_history;
pub mod server;
pub mod tag;
pub mod text;
pub mod time;
