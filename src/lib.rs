//! A prompt-library controller.
//!
//! - `naming`: normalized prompt names.
//! - `model`: the metadata record of a prompt and its tag-list updates.
//! - `index`: all records ordered by name, the visible subsequence chosen by
//!   a tag filter and a search query, and a selection that follows the
//!   selected record.
//! - `input`, `dialogs`: keys and the four dialog models.
//! - `tui`: the application state and the key router.
//! - `commands`: the decisions of the command surface.
//! - `frontmatter`: the prompt file format.
//! - `error`: the error taxonomy and its messages.
//! - `text`: character-level helpers.
use vstd::prelude::*;

pub mod text;
pub mod naming;
pub mod model;
pub mod index;
pub mod input;
pub mod dialogs;
pub mod error;
pub mod tui;
pub mod commands;
pub mod frontmatter;

verus! {

} // verus!
