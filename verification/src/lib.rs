//! Creates and tracks merge commits between watched topic references and a target reference.

pub mod codec;
pub mod config;
pub mod document;
pub mod driver;
pub mod error;
pub mod git;
pub mod merger;
pub mod merges;
pub mod nesting;
pub mod note;
pub mod oid;
pub mod refspec;
pub mod task;
pub mod text;
pub mod utils;
pub mod watch;

pub use crate::config::{Config, Password, RepositoryConfiguration};
pub use crate::watch::WatchReferences;
