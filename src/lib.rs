//! Tag-relation synchronisation and candidate-ranking support for a
//! catalog of tagged items.

mod support;

pub mod cors;
pub mod retry;
pub mod store;
pub mod finder;
pub mod dedup;
pub mod sync;
pub mod url;
pub mod post;
pub mod config;
pub mod profile;
