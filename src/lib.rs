//! The serving core of a single-author content server: configuration,
//! pagination, form handling, a post store and the publish workflow.
use vstd::prelude::*;

pub mod config;
pub mod feeds;
pub mod form;
pub mod listing;
pub mod page;
pub mod store;
pub mod text;
pub mod workflow;

pub use config::{ServeArgs, ServerContext, is_logged_in};
pub use form::{AddPostForm, EditPostForm, LoginForm};
pub use text::trim_newline_suffix;

verus! {

} // verus!
