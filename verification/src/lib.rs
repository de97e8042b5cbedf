//! Core of a synthesized-speech project editor: an entity store of text
//! lines bound to speaker styles and synthesis parameters, reversible
//! commands over that store, an undo/redo history with a per-line revision
//! clock, and bookkeeping for asynchronous recomputation jobs whose results
//! arrive out of band and must never clobber newer edits.

use vstd::prelude::*;

pub mod api;
pub mod api_schema;
pub mod bottom_pane;
pub mod chara_change_button;
pub mod commands;
pub mod dialogue;
pub mod history;
pub mod jobs;
pub mod menu;
pub mod project;
pub mod tool_bar;

verus! {

/// Sampling rate used when a project supplies no explicit value.
pub const DEFAULT_SAMPLING_RATE: i64 = 24000;

/// The style every newly created line starts out with.
pub const DEFAULT_STYLE_ID: i32 = 2;

} // verus!
