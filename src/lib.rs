//! Directory-scoped file management: a search engine that walks directory
//! trees, selects files by regular expression and size, and renders or
//! dispatches the matches per root; plus the helpers of the add, remove,
//! line search and text substitution commands.

use vstd::prelude::*;

pub mod config;
pub mod dispatch;
pub mod grep;
pub mod matcher;
pub mod search;
pub mod size;
pub mod text;
pub mod tree;

pub use config::{AddConfig, FindConfig, FindError, GrepConfig, RemoveConfig, keep_accessible};
pub use dispatch::{command_lines, placeholder_position, split_template, substitute};
pub use grep::matching_lines;
pub use matcher::{Pattern, compile_all, matches_any_of};
pub use search::{Dispatch, FindPlan, RootOutput, display, render};
pub use size::{admits, threshold_from};
pub use text::{TrConfig, delete_words, replace_words};
pub use tree::{Entry, FileError, MyFile, get_matched_files};

verus! {

} // verus!
