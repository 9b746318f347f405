//! Verified core of a language server for the Vale prose linter.
//!
//! The crate holds the logic of the server — document tracking and
//! cursor-to-token resolution, translation of linter alerts into diagnostics
//! and quick-fix edits, the style-directory indexer, and the decisions of the
//! external-tool manager (executable resolution, update planning, command
//! construction, output interpretation) — each stated in contracts and proved.
//! Process spawning, networking and the filesystem live outside the crate and
//! hand these functions plain values.

pub mod alerts;
pub mod document;
pub mod error;
pub mod ini;
pub mod pkg;
pub mod protocol;
pub mod session;
pub mod styles;
pub mod text;
pub mod vale;
pub mod yml;
