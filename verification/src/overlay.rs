//! The modal overlays and the deferred-action data they carry. At most one
//! overlay is live; absence of an overlay means keys route to the document
//! (or to the file tree when it has focus). Deferred work is kept as plain
//! data — a pending action captured by the unsaved-changes guard, and a
//! continuation carried through a forced category creation — so the state
//! machine stays inspectable.
use crate::search::SearchState;
use vstd::prelude::*;

verus! {

/// An effect that was deferred until an unsaved-changes confirmation
/// resolves; created by the guard and consumed exactly once.
#[derive(Debug)]
pub enum PendingAction {
    Quit,
    OpenPath(String),
    OpenNewFileOverlay { preferred_category: Option<usize> },
    DeletePath(String),
}

/// What to resume once a prerequisite category has been created.
#[derive(Debug)]
pub enum PostCategoryAction {
    Nothing,
    OpenSaveAs { pending: Option<PendingAction> },
    OpenNewFile { preferred_category: Option<usize> },
}

/// The two buttons of a confirmation dialog.
#[derive(Debug, Clone, Copy, PartialEq, Eq, Structural)]
pub enum ConfirmChoice {
    Yes,
    No,
}

/// The single live modal interaction, if any.
#[derive(Debug)]
pub enum Overlay {
    Idle,
    Help,
    Search { input: String, state: SearchState },
    Goto { input: String },
    SaveAs { filename: String, category_index: usize },
    NewFile { filename: String, category_index: usize },
    NewCategory { name: String, next: PostCategoryAction },
    ConfirmUnsaved { file_name: String, pending: PendingAction, choice: ConfirmChoice },
    ConfirmDelete { file_name: String, path: String, choice: ConfirmChoice },
    Error { message: String },
}

/// What to do after a save completes.
#[derive(Debug)]
pub enum AfterPersist {
    Nothing,
    Run(PendingAction),
    ConsumeStored,
}

/// A side effect the state machine asks its caller to perform; the caller
/// reports the outcome through the matching completion method.
#[derive(Debug)]
pub enum IoRequest {
    /// Write the document (and its annotation sidecar) to `path`.
    Persist { path: String, then: AfterPersist },
    /// Create an empty file at `path`; fail if it already exists.
    CreateFile { path: String },
    /// Create the category directory `name` under the notes root.
    CreateCategory { name: String, next: PostCategoryAction },
    /// Delete the file at `path` and, best effort, its sidecar.
    DeleteFile { path: String },
    /// Load the document at `path`, with its sidecar colors.
    OpenFile { path: String },
    /// List the categories and their files again.
    RefreshTree,
}

} // verus!
