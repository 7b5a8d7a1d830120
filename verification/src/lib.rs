//! Layout and navigation engine of a resizable, recursively splittable pane
//! workspace.
//!
//! A [`split::LapceSplitNew`] owns an ordered list of panes along one axis. It
//! computes their rectangles with a flex allocation, and it splits, closes,
//! exchanges and moves between panes while it keeps the ordering list of a
//! [`registry::PaneRegistry`] in step with its own children.
//!
//! All extents are whole pixels. Every function states what it computes in
//! terms of the mathematical models in this crate, and is proved against it:
//!
//! - [`sizing`] and [`flex`] say what a layout is, [`transition`] says what
//!   each operation and each event does, and [`laws`] states what holds of
//!   them whatever happens;
//! - [`split`] holds the container itself, [`registry`] the registry of
//!   panes;
//! - [`command`], [`keypress`] and [`empty_state`] make the list of commands
//!   that an empty container shows;
//! - [`search`] and [`title`] hold what the list of search results and the
//!   title bar compute for their pointers.

pub mod command;
pub mod empty_state;
pub mod flex;
pub mod geometry;
pub mod keypress;
pub mod laws;
pub mod registry;
pub mod search;
pub mod sizing;
pub mod split;
pub mod title;
pub mod transition;

use vstd::prelude::*;

verus! {

} // verus!
