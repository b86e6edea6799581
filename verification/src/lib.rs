//! Lists issues, pull requests and review requests from GitHub: the search
//! strings that ask for them, the order and the lines they are shown in, and
//! the decisions around both. What talks to the network, the file system and
//! the terminal is left to the program that uses this library.

pub mod api;
pub mod args;
pub mod arrange;
pub mod cfg;
pub mod cmd;
pub mod create;
pub mod dbg;
pub mod error;
pub mod github_resources;
pub mod issue;
pub mod list;
pub mod project;
pub mod search;
pub mod search_laws;
pub mod sort;
pub mod target;
pub mod text;
pub mod ui;
pub mod user;

pub use error::AppErr;
