//! A terminal note-taking editor core: an editable text document with
//! per-character color annotations, cursor and viewport management, search,
//! and a modal overlay state machine coordinating save/open/delete flows
//! around two guards — unsaved changes are never discarded unconfirmed, and
//! a category picker never opens with nothing to pick.
pub mod app;
pub mod buffer;
pub mod colors;
pub mod command;
pub mod edits;
pub mod overlay;
pub mod persist;
pub mod rope;
pub mod search;
pub mod strutil;
pub mod text;
pub mod tree;
