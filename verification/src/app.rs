//! The application: one document, one live overlay, the category/file
//! browser, and the rules that route keys between them. Everything here is
//! pure state transition; when a step needs the filesystem, it hands the
//! caller an `IoRequest` and the caller reports the outcome through the
//! matching completion method. Two guards shape the flows: an action that
//! would discard unsaved edits is deferred behind a confirmation, and a save
//! or new-file dialog is never opened with no category to pick.
use crate::buffer::{same_doc, same_size, visible_cursor, visible_viewport, Cursor, TextBuffer, Viewport};
use crate::colors::ColorId;
use crate::command::{map_key_event, mapped_command, Command, Key};
use crate::overlay::{
    AfterPersist, ConfirmChoice, IoRequest, Overlay, PendingAction, PostCategoryAction,
};
use crate::persist::EolStyle;
use crate::search::{next_match_index, step_backward, step_forward, SearchState};
use crate::strutil::{
    file_name_of, file_name_spec, join_path, parent_of, parent_spec, string_pop, string_push,
    trim, trim_spec, ensure_txt_ext, has_txt_ext, parse_usize, all_digits, digits_value,
};
use crate::text::line_count;
use crate::tree::{FileTree, TreeNode, TreeNodeKind};
use vstd::prelude::*;

verus! {

/// Whether the application started editable or read-only.
#[derive(Debug, Clone, Copy, PartialEq, Eq, Structural)]
pub enum AppMode {
    Edit,
    ReadOnly,
}

/// One category of the notes tree, as the filesystem lists it: its name and
/// its files, sorted by the lister.
#[derive(Debug)]
pub struct CategoryListing {
    pub name: String,
    pub files: Vec<FileEntry>,
}

/// One file of a category: its bare name and its full path.
#[derive(Debug)]
pub struct FileEntry {
    pub name: String,
    pub path: String,
}

/// The whole application state.
pub struct App {
    pub buffer: TextBuffer,
    pub overlay: Overlay,
    pub mode: AppMode,
    pub eol: EolStyle,
    pub running: bool,
    pub needs_redraw: bool,
    pub no_style: bool,
    pub notes_root: String,
    pub file_tree: FileTree,
    pub pending_after_save: Option<PendingAction>,
    pub categories: Vec<String>,
}

/// The name shown for a document: its file name, or a placeholder.
pub open spec fn shown_name(path: Option<String>) -> Seq<char> {
    match path {
        Some(p) => if file_name_spec(p@).len() > 0 {
            file_name_spec(p@)
        } else {
            "[No Name]"@
        },
        None => "[No Name]"@,
    }
}

/// The index of the first category whose directory is `parent`, from `i` on.
pub open spec fn category_pos(
    categories: Seq<String>,
    root: Seq<char>,
    parent: Seq<char>,
    i: int,
) -> Option<int>
    decreases categories.len() - i,
{
    if i < 0 || i >= categories.len() {
        None
    } else if root + "/"@ + categories[i]@ == parent {
        Some(i)
    } else {
        category_pos(categories, root, parent, i + 1)
    }
}

/// The category a save-as dialog starts on, for a document at `path`.
pub open spec fn start_category(
    categories: Seq<String>,
    root: Seq<char>,
    path: Option<String>,
) -> int {
    let base: int = match path {
        Some(p) => match category_pos(categories, root, parent_spec(p@), 0) {
            Some(i) => i,
            None => 0,
        },
        None => 0,
    };
    if base < categories.len() - 1 {
        base
    } else {
        categories.len() - 1
    }
}


/// Whether the node list holds a file row for `path` under category `c`.
pub open spec fn has_file_node(nodes: Seq<TreeNode>, path: String, c: usize) -> bool {
    exists|j: int|
        0 <= j < nodes.len() && (#[trigger] nodes[j]).kind is File && nodes[j].path == Some(path)
            && nodes[j].category_index == Some(c)
}

/// Extending the node list keeps every file-row witness valid.
proof fn lemma_has_file_node_extend(
    before: Seq<TreeNode>,
    after: Seq<TreeNode>,
    path: String,
    c: usize,
)
    requires
        has_file_node(before, path, c),
        before.len() <= after.len(),
        forall|j: int| 0 <= j < before.len() ==> after[j] == before[j],
    ensures
        has_file_node(after, path, c),
{
    let j0 = choose|j: int|
        0 <= j < before.len() && (#[trigger] before[j]).kind is File && before[j].path == Some(
            path,
        ) && before[j].category_index == Some(c);
    assert(after[j0] == before[j0]);
}

/// The category a new-file dialog starts on: the preferred one, else the
/// open document's, else the first, clamped into the list.
pub open spec fn start_category_pref(
    categories: Seq<String>,
    root: Seq<char>,
    preferred: Option<usize>,
    path: Option<String>,
) -> int {
    let base: int = match preferred {
        Some(i) => i as int,
        None => match path {
            Some(p) => match category_pos(categories, root, parent_spec(p@), 0) {
                Some(i) => i,
                None => 0,
            },
            None => 0,
        },
    };
    if base < categories.len() - 1 {
        base
    } else {
        categories.len() - 1
    }
}

impl App {
    /// The overlay's own consistency: a search state indexes its matches, a
    /// category picker points into the category list.
    pub open spec fn overlay_ok(&self) -> bool {
        match self.overlay {
            Overlay::Search { input, state } => state.wf(),
            Overlay::SaveAs { filename, category_index } => self.categories@.len() > 0 && (
            category_index as int) < self.categories@.len(),
            Overlay::NewFile { filename, category_index } => self.categories@.len() > 0 && (
            category_index as int) < self.categories@.len(),
            _ => true,
        }
    }

    pub open spec fn wf(&self) -> bool {
        self.buffer.wf() && self.file_tree.wf() && self.overlay_ok()
    }

    /// Everything but the overlay and the redraw flag is unchanged.
    pub open spec fn same_core(a: App, b: App) -> bool {
        b.buffer == a.buffer && b.mode == a.mode && b.eol == a.eol && b.running == a.running
            && b.no_style == a.no_style && b.notes_root == a.notes_root && b.file_tree
            == a.file_tree && b.pending_after_save == a.pending_after_save && b.categories
            == a.categories
    }

    pub fn new(buffer: TextBuffer, eol: EolStyle, no_style: bool, notes_root: String) -> (r: App)
        requires
            buffer.size_ok(),
            buffer.colors_ok(),
        ensures
            r.wf(),
            r.overlay is Idle,
            r.mode == (if buffer.readonly {
                AppMode::ReadOnly
            } else {
                AppMode::Edit
            }),
            r.eol == eol,
            r.running == true,
            r.needs_redraw == true,
            r.no_style == no_style,
            r.notes_root == notes_root,
            r.file_tree.nodes@.len() == 0,
            r.pending_after_save is None,
            r.categories@.len() == 0,
            same_doc(buffer, r.buffer),
            same_size(buffer, r.buffer),
    {
        let mode = if buffer.readonly {
            AppMode::ReadOnly
        } else {
            AppMode::Edit
        };
        let mut buffer = buffer;
        buffer.ensure_cursor_visible();
        App {
            buffer,
            overlay: Overlay::Idle,
            mode,
            eol,
            running: true,
            needs_redraw: true,
            no_style,
            notes_root,
            file_tree: FileTree::new(),
            pending_after_save: None,
            categories: Vec::new(),
        }
    }

    /// Show an error message; the rest of the state is untouched, so the
    /// user can dismiss and retry.
    pub fn open_error(&mut self, msg: String)
        ensures
            final (self).overlay matches Overlay::Error { message } && message == msg,
            final (self).needs_redraw == true,
            Self::same_core(*old(self), *final (self)),
    {
        self.overlay = Overlay::Error { message: msg };
        self.needs_redraw = true;
    }

    /// The displayed name of the open document.
    pub fn current_file_name(&self) -> (r: String)
        ensures
            r@ == shown_name(self.buffer.path),
    {
        match &self.buffer.path {
            Some(p) => {
                let name = file_name_of(p.as_str());
                if name.unicode_len() == 0 {
                    String::from_str("[No Name]")
                } else {
                    name
                }
            },
            None => String::from_str("[No Name]"),
        }
    }

    /// The unsaved-changes guard: capture the intended action and ask first.
    pub fn request_unsaved_confirmation(&mut self, pending: PendingAction)
        ensures
            final (self).overlay matches Overlay::ConfirmUnsaved { file_name, pending: p, choice }
                && file_name@ == shown_name(old(self).buffer.path) && p == pending && choice
                == ConfirmChoice::Yes,
            final (self).needs_redraw == true,
            Self::same_core(*old(self), *final (self)),
    {
        let file_name = self.current_file_name();
        self.overlay = Overlay::ConfirmUnsaved { file_name, pending, choice: ConfirmChoice::Yes };
        self.needs_redraw = true;
    }

    /// The category containing `path`, if its directory is one of ours.
    pub fn category_index_for_path(&self, path: &str) -> (r: Option<usize>)
        ensures
            match r {
                Some(u) => category_pos(self.categories@, self.notes_root@, parent_spec(path@), 0)
                    == Some(u as int),
                None => category_pos(self.categories@, self.notes_root@, parent_spec(path@), 0)
                    is None,
            },
    {
        let parent = parent_of(path);
        let n = self.categories.len();
        let mut i: usize = 0;
        while i < n
            invariant
                n == self.categories@.len(),
                i <= n,
                category_pos(self.categories@, self.notes_root@, parent_spec(path@), 0)
                    == category_pos(self.categories@, self.notes_root@, parent_spec(path@), i as int),
                parent@ == parent_spec(path@),
            decreases n - i,
        {
            let dir = join_path(self.notes_root.as_str(), self.categories[i].as_str());
            if dir.eq(&parent) {
                return Some(i);
            }
            i += 1;
        }
        None
    }

    /// Open the save-as dialog, carrying a deferred action to run after the
    /// save; with no category to pick, detour into category creation first.
    pub fn open_save_as_overlay_with_pending(&mut self, pending: Option<PendingAction>)
        requires
            old(self).wf(),
        ensures
            final (self).wf(),
            final (self).buffer == old(self).buffer,
            final (self).mode == old(self).mode,
            final (self).eol == old(self).eol,
            final (self).running == old(self).running,
            final (self).no_style == old(self).no_style,
            final (self).notes_root == old(self).notes_root,
            final (self).file_tree == old(self).file_tree,
            final (self).categories == old(self).categories,
            final (self).needs_redraw == old(self).needs_redraw,
            old(self).categories@.len() == 0 ==> {
                &&& final (self).overlay matches Overlay::NewCategory { name, next } && name@
                    == Seq::<char>::empty() && (next matches PostCategoryAction::OpenSaveAs {
                    pending: p,
                } && p == pending)
                &&& final (self).pending_after_save is None
            },
            old(self).categories@.len() > 0 ==> {
                &&& final (self).overlay matches Overlay::SaveAs { filename, category_index }
                    && filename@ == (match old(self).buffer.path {
                    Some(p) => if file_name_spec(p@).len() > 0 {
                        file_name_spec(p@)
                    } else {
                        "note.txt"@
                    },
                    None => "note.txt"@,
                }) && category_index as int == start_category(
                    old(self).categories@,
                    old(self).notes_root@,
                    old(self).buffer.path,
                )
                &&& final (self).pending_after_save == pending
            },
    {
        if self.categories.len() == 0 {
            self.pending_after_save = None;
            self.overlay = Overlay::NewCategory {
                name: String::new(),
                next: PostCategoryAction::OpenSaveAs { pending },
            };
            return ;
        }
        self.pending_after_save = pending;
        let filename = match &self.buffer.path {
            Some(p) => {
                let name = file_name_of(p.as_str());
                if name.unicode_len() == 0 {
                    String::from_str("note.txt")
                } else {
                    name
                }
            },
            None => String::from_str("note.txt"),
        };
        let base = match &self.buffer.path {
            Some(p) => {
                let pcopy = p.clone();
                match self.category_index_for_path(pcopy.as_str()) {
                    Some(i) => i,
                    None => 0,
                }
            },
            None => 0,
        };
        let category_index = if base < self.categories.len() - 1 {
            base
        } else {
            self.categories.len() - 1
        };
        self.overlay = Overlay::SaveAs { filename, category_index };
    }

    /// Open the new-file dialog; with no category to pick, detour into
    /// category creation first.
    pub fn open_new_file_overlay(&mut self, preferred_category: Option<usize>)
        requires
            old(self).wf(),
        ensures
            final (self).wf(),
            final (self).buffer == old(self).buffer,
            final (self).mode == old(self).mode,
            final (self).eol == old(self).eol,
            final (self).running == old(self).running,
            final (self).no_style == old(self).no_style,
            final (self).notes_root == old(self).notes_root,
            final (self).file_tree == old(self).file_tree,
            final (self).categories == old(self).categories,
            final (self).pending_after_save == old(self).pending_after_save,
            final (self).needs_redraw == old(self).needs_redraw,
            old(self).categories@.len() == 0 ==> (final (self).overlay
                matches Overlay::NewCategory { name, next } && name@ == Seq::<char>::empty()
                && (next matches PostCategoryAction::OpenNewFile { preferred_category: pc } && pc
                == preferred_category)),
            old(self).categories@.len() > 0 ==> (final (self).overlay matches Overlay::NewFile {
                filename,
                category_index,
            } && filename@ == "new_note.txt"@ && category_index as int == start_category_pref(
                old(self).categories@,
                old(self).notes_root@,
                preferred_category,
                old(self).buffer.path,
            )),
    {
        if self.categories.len() == 0 {
            self.overlay = Overlay::NewCategory {
                name: String::new(),
                next: PostCategoryAction::OpenNewFile { preferred_category },
            };
            return ;
        }
        let base = match preferred_category {
            Some(i) => i,
            None => {
                match &self.buffer.path {
                    Some(p) => {
                        let pcopy = p.clone();
                        match self.category_index_for_path(pcopy.as_str()) {
                            Some(i) => i,
                            None => 0,
                        }
                    },
                    None => 0,
                }
            },
        };
        let category_index = if base < self.categories.len() - 1 {
            base
        } else {
            self.categories.len() - 1
        };
        self.overlay = Overlay::NewFile { filename: String::from_str("new_note.txt"), category_index };
    }

    /// Open the category-creation dialog with a continuation to resume.
    pub fn open_new_category_overlay(&mut self, next: PostCategoryAction)
        ensures
            final (self).overlay matches Overlay::NewCategory { name, next: nx } && name@ == Seq::<
                char,
            >::empty() && nx == next,
            final (self).needs_redraw == true,
            Self::same_core(*old(self), *final (self)),
    {
        self.overlay = Overlay::NewCategory { name: String::new(), next };
        self.needs_redraw = true;
    }

    /// Ask before deleting a file.
    pub fn open_delete_confirmation(&mut self, path: String)
        ensures
            final (self).overlay matches Overlay::ConfirmDelete { file_name, path: p, choice }
                && file_name@ == (if file_name_spec(path@).len() > 0 {
                file_name_spec(path@)
            } else {
                "unknown.txt"@
            }) && p == path && choice == ConfirmChoice::No,
            final (self).needs_redraw == true,
            Self::same_core(*old(self), *final (self)),
    {
        let name = file_name_of(path.as_str());
        let file_name = if name.unicode_len() == 0 {
            String::from_str("unknown.txt")
        } else {
            name
        };
        self.overlay = Overlay::ConfirmDelete { file_name, path, choice: ConfirmChoice::No };
        self.needs_redraw = true;
    }

    /// Run a deferred action once its guard has resolved. Quitting and
    /// overlay openings are immediate; file work is handed back as a
    /// request.
    pub fn execute_pending_action(&mut self, pending: PendingAction) -> (r: Option<IoRequest>)
        requires
            old(self).wf(),
        ensures
            final (self).wf(),
            final (self).eol == old(self).eol,
            final (self).mode == old(self).mode,
            final (self).no_style == old(self).no_style,
            final (self).notes_root == old(self).notes_root,
            final (self).categories == old(self).categories,
            final (self).file_tree == old(self).file_tree,
            final (self).needs_redraw == old(self).needs_redraw,
            final (self).pending_after_save == old(self).pending_after_save,
            final (self).buffer == old(self).buffer,
            match pending {
                PendingAction::Quit => {
                    &&& final (self).running == false
                    &&& r is None
                    &&& final (self).overlay == old(self).overlay
                    &&& final (self).buffer == old(self).buffer
                },
                PendingAction::OpenPath(p) => {
                    &&& r matches Some(IoRequest::OpenFile { path }) && path == p
                    &&& final (self).running == old(self).running
                    &&& final (self).overlay == old(self).overlay
                    &&& final (self).buffer == old(self).buffer
                },
                PendingAction::OpenNewFileOverlay { preferred_category } => {
                    &&& r is None
                    &&& final (self).running == old(self).running
                    &&& final (self).buffer == old(self).buffer
                    &&& (old(self).categories@.len() == 0 ==> (final (self).overlay
                        matches Overlay::NewCategory { name, next } && name@ == Seq::<
                        char,
                    >::empty() && (next matches PostCategoryAction::OpenNewFile {
                        preferred_category: pc,
                    } && pc == preferred_category)))
                    &&& (old(self).categories@.len() > 0 ==> (final (self).overlay
                        matches Overlay::NewFile { filename, category_index } && filename@
                        == "new_note.txt"@ && category_index as int == start_category_pref(
                        old(self).categories@,
                        old(self).notes_root@,
                        preferred_category,
                        old(self).buffer.path,
                    )))
                },
                PendingAction::DeletePath(p) => {
                    &&& r matches Some(IoRequest::DeleteFile { path }) && path == p
                    &&& final (self).running == old(self).running
                    &&& final (self).overlay == old(self).overlay
                    &&& final (self).buffer == old(self).buffer
                },
            },
    {
        match pending {
            PendingAction::Quit => {
                self.running = false;
                None
            },
            PendingAction::OpenPath(path) => Some(IoRequest::OpenFile { path }),
            PendingAction::OpenNewFileOverlay { preferred_category } => {
                self.open_new_file_overlay(preferred_category);
                None
            },
            PendingAction::DeletePath(path) => Some(IoRequest::DeleteFile { path }),
        }
    }

    /// The editor pane carved from a terminal of the given size: on a wide
    /// terminal a sidebar of 28 to 68 columns is split off first, and borders
    /// and status rows are subtracted.
    pub open spec fn editor_dims(width: u16, height: u16) -> (int, int) {
        if width >= 100 {
            let sidebar0: int = if width >= 20 {
                width - 20
            } else {
                0
            };
            let sidebar1: int = if sidebar0 > 68 {
                68
            } else {
                sidebar0
            };
            let sidebar: int = if sidebar1 < 28 {
                28
            } else {
                sidebar1
            };
            let w: int = if width >= sidebar + 2 {
                width - sidebar - 2
            } else {
                0
            };
            let h: int = if height >= 3 {
                height - 3
            } else {
                0
            };
            (w, h)
        } else {
            (
                if width >= 2 {
                    width - 2
                } else {
                    0
                },
                if height >= 4 {
                    height - 4
                } else {
                    0
                },
            )
        }
    }

    /// Compute the layout of the editor area for a terminal size, and resize
    /// the viewport to that pane (each dimension at least one cell),
    /// re-deriving the cursor clamp and the minimal scroll.
    pub fn update_viewport_from_size(&mut self, width: u16, height: u16)
        requires
            old(self).wf(),
        ensures
            final (self).wf(),
            Self::only_buffer_changed(*old(self), *final (self)),
            same_doc(old(self).buffer, final (self).buffer),
            final (self).buffer.viewport.width as int == (if Self::editor_dims(width, height).0
                >= 1 {
                Self::editor_dims(width, height).0
            } else {
                1
            }),
            final (self).buffer.viewport.height as int == (if Self::editor_dims(width, height).1
                >= 1 {
                Self::editor_dims(width, height).1
            } else {
                1
            }),
            final (self).buffer.cursor == visible_cursor(
                old(self).buffer.content(),
                old(self).buffer.cursor,
            ),
            final (self).buffer.viewport == visible_viewport(
                Viewport {
                    width: final (self).buffer.viewport.width,
                    height: final (self).buffer.viewport.height,
                    ..old(self).buffer.viewport
                },
                final (self).buffer.cursor,
            ),
            final (self).buffer.preferred_col == old(self).buffer.preferred_col,
            final (self).buffer.size_ok(),
    {
        let editor_w: u16;
        let editor_h: u16;
        if width >= 100 {
            let mut sidebar = if width >= 20 {
                width - 20
            } else {
                0
            };
            if sidebar > 68 {
                sidebar = 68;
            }
            if sidebar < 28 {
                sidebar = 28;
            }
            editor_w = if width >= sidebar + 2 {
                width - sidebar - 2
            } else {
                0
            };
            editor_h = if height >= 3 {
                height - 3
            } else {
                0
            };
        } else {
            editor_w = if width >= 2 {
                width - 2
            } else {
                0
            };
            editor_h = if height >= 4 {
                height - 4
            } else {
                0
            };
        }
        let w = if editor_w >= 1 {
            editor_w
        } else {
            1
        };
        let h = if editor_h >= 1 {
            editor_h
        } else {
            1
        };
        self.buffer.set_viewport_size(w, h);
    }

    /// The window title: the document's full path, or a placeholder.
    pub fn file_title(&self) -> (r: String)
        ensures
            r@ == (match self.buffer.path {
                Some(p) => p@,
                None => "[No Name]"@,
            }),
    {
        match &self.buffer.path {
            Some(p) => p.clone(),
            None => String::from_str("[No Name]"),
        }
    }

    /// Recompute the search state for a query: its matches over the current
    /// document and a current index clamped into them.
    pub fn build_search_state(&self, query: &str, current_idx: usize) -> (r: SearchState)
        requires
            self.buffer.wf(),
        ensures
            r.query@ == query@,
            r.wf(),
            query@.len() == 0 ==> r.matches@.len() == 0,
            forall|a: int, b: int| 0 <= a < b < r.matches@.len() ==> r.matches@[a] < r.matches@[b],
            forall|j: int|
                0 <= j < r.matches@.len() ==> (#[trigger] r.matches@[j] as int) < line_count(
                    self.buffer.content(),
                ) && crate::buffer::line_matches(self.buffer.content(), r.matches@[j] as int, query@),
            forall|l: int|
                0 <= l < line_count(self.buffer.content()) && query@.len() > 0
                    && #[trigger] crate::buffer::line_matches(self.buffer.content(), l, query@)
                    ==> exists|j: int| 0 <= j < r.matches@.len() && r.matches@[j] == l,
            r.current == (if r.matches@.len() == 0 {
                None::<usize>
            } else if (current_idx as int) < r.matches@.len() {
                Some(current_idx)
            } else {
                Some((r.matches@.len() - 1) as usize)
            }),
    {
        let matches = self.buffer.find_matches(query);
        proof {
            assert forall|l: int|
                0 <= l < line_count(self.buffer.content()) && query@.len() > 0
                    && #[trigger] crate::buffer::line_matches(
                    self.buffer.content(),
                    l,
                    query@,
                ) implies exists|j: int| 0 <= j < matches@.len() && matches@[j] == l by {
            }
        }
        let current = if matches.len() == 0 {
            None
        } else if current_idx < matches.len() {
            Some(current_idx)
        } else {
            Some(matches.len() - 1)
        };
        SearchState { query: String::from_str(query), matches, current }
    }

    /// Jump the cursor to the current match's line, if there is one.
    pub fn jump_to_search_match(&mut self, state: &SearchState)
        requires
            old(self).wf(),
            state.wf(),
        ensures
            final (self).wf(),
            same_doc(old(self).buffer, final (self).buffer),
            same_size(old(self).buffer, final (self).buffer),
            final (self).overlay == old(self).overlay,
            final (self).mode == old(self).mode,
            final (self).eol == old(self).eol,
            final (self).running == old(self).running,
            final (self).needs_redraw == old(self).needs_redraw,
            final (self).no_style == old(self).no_style,
            final (self).notes_root == old(self).notes_root,
            final (self).file_tree == old(self).file_tree,
            final (self).pending_after_save == old(self).pending_after_save,
            final (self).categories == old(self).categories,
            match state.current {
                Some(i) => ({
                    let s = old(self).buffer.content();
                    let m = state.matches@[i as int] as int;
                    final (self).buffer.cursor.line as int == (if m < line_count(s) - 1 {
                        m
                    } else {
                        line_count(s) - 1
                    })
                }),
                None => final (self).buffer == old(self).buffer,
            },
    {
        match state.current {
            Some(i) => {
                let line = state.matches[i];
                let lc = self.buffer.line_count();
                let target = if line < lc - 1 {
                    line
                } else {
                    lc - 1
                };
                self.buffer.goto_line(target + 1);
            },
            None => {},
        }
    }

    /// Rebuild the browser from a fresh listing: a header row per category,
    /// its files (or an empty marker) beneath it; the previously selected
    /// file stays selected where it still exists, else the first file is
    /// selected. The category names become the pickable category list. The
    /// caller refreshes only while no category picker is open.
    pub fn apply_tree_listing(&mut self, listing: Vec<CategoryListing>)
        requires
            old(self).wf(),
            !(old(self).overlay is SaveAs),
            !(old(self).overlay is NewFile),
        ensures
            final (self).wf(),
            final (self).buffer == old(self).buffer,
            final (self).overlay == old(self).overlay,
            final (self).mode == old(self).mode,
            final (self).eol == old(self).eol,
            final (self).running == old(self).running,
            final (self).no_style == old(self).no_style,
            final (self).notes_root == old(self).notes_root,
            final (self).pending_after_save == old(self).pending_after_save,
            final (self).file_tree.focus == old(self).file_tree.focus,
            final (self).categories@.len() == listing@.len(),
            forall|i: int|
                0 <= i < listing@.len() ==> final (self).categories@[i] == (
                #[trigger] listing@[i]).name,
            // every file of the listing stands in the tree with its path and
            // its category index
            forall|ci: int, fi: int| #![trigger listing@[ci].files@[fi]]
                0 <= ci < listing@.len() && 0 <= fi < listing@[ci].files@.len()
                    ==> has_file_node(
                    final (self).file_tree.nodes@,
                    listing@[ci].files@[fi].path,
                    ci as usize,
                ),
    {
        let prev = self.file_tree.selected_path();
        let mut names: Vec<String> = Vec::new();
        let mut nodes: Vec<TreeNode> = Vec::new();
        let n = listing.len();
        let ghost ls = listing@;
        let mut ci: usize = 0;
        while ci < n
            invariant
                n == ls.len(),
                ls == listing@,
                ci <= n,
                names@.len() == ci,
                forall|i: int| 0 <= i < ci ==> names@[i] == (#[trigger] ls[i]).name,
                forall|cj: int, fj: int| #![trigger ls[cj].files@[fj]]
                    0 <= cj < ci && 0 <= fj < ls[cj].files@.len() ==> has_file_node(
                        nodes@,
                        ls[cj].files@[fj].path,
                        cj as usize,
                    ),
            decreases n - ci,
        {
            let cat = &listing[ci];
            let label = String::from_str("[").concat(cat.name.as_str()).concat("]");
            names.push(cat.name.clone());
            let ghost nb0 = nodes@;
            nodes.push(
                TreeNode { label, kind: TreeNodeKind::Category, path: None, category_index: Some(ci) },
            );
            proof {
                assert(forall|j: int| 0 <= j < nb0.len() ==> nodes@[j] == nb0[j]);
                assert forall|cj: int, fj: int| #![trigger ls[cj].files@[fj]]
                    0 <= cj < ci && 0 <= fj < ls[cj].files@.len() implies has_file_node(
                    nodes@,
                    ls[cj].files@[fj].path,
                    cj as usize,
                ) by {
                    lemma_has_file_node_extend(nb0, nodes@, ls[cj].files@[fj].path, cj as usize);
                }
            }
            if cat.files.len() == 0 {
                let ghost nb1 = nodes@;
                nodes.push(
                    TreeNode {
                        label: String::from_str("  (empty)"),
                        kind: TreeNodeKind::Empty,
                        path: None,
                        category_index: Some(ci),
                    },
                );
                proof {
                    assert(forall|j: int| 0 <= j < nb1.len() ==> nodes@[j] == nb1[j]);
                    assert forall|cj: int, fj: int| #![trigger ls[cj].files@[fj]]
                        0 <= cj < ci && 0 <= fj < ls[cj].files@.len() implies has_file_node(
                        nodes@,
                        ls[cj].files@[fj].path,
                        cj as usize,
                    ) by {
                        lemma_has_file_node_extend(nb1, nodes@, ls[cj].files@[fj].path, cj as usize);
                    }
                }
            } else {
                let file_count = cat.files.len();
                let mut fi: usize = 0;
                while fi < file_count
                    invariant
                        n == ls.len(),
                        ls == listing@,
                        ci < n,
                        *cat == ls[ci as int],
                        file_count == ls[ci as int].files@.len(),
                        fi <= file_count,
                        forall|cj: int, fj: int| #![trigger ls[cj].files@[fj]]
                            0 <= cj < ci && 0 <= fj < ls[cj].files@.len() ==> has_file_node(
                                nodes@,
                                ls[cj].files@[fj].path,
                                cj as usize,
                            ),
                        forall|fj: int| #![trigger ls[ci as int].files@[fj]]
                            0 <= fj < fi ==> has_file_node(
                                nodes@,
                                ls[ci as int].files@[fj].path,
                                ci as usize,
                            ),
                    decreases file_count - fi,
                {
                    let f = &cat.files[fi];
                    let flabel = String::from_str("  ").concat(f.name.as_str());
                    let ghost nb2 = nodes@;
                    nodes.push(
                        TreeNode {
                            label: flabel,
                            kind: TreeNodeKind::File,
                            path: Some(f.path.clone()),
                            category_index: Some(ci),
                        },
                    );
                    proof {
                        assert(forall|j: int| 0 <= j < nb2.len() ==> nodes@[j] == nb2[j]);
                        assert forall|cj: int, fj: int| #![trigger ls[cj].files@[fj]]
                            0 <= cj < ci && 0 <= fj < ls[cj].files@.len() implies has_file_node(
                            nodes@,
                            ls[cj].files@[fj].path,
                            cj as usize,
                        ) by {
                            lemma_has_file_node_extend(
                                nb2,
                                nodes@,
                                ls[cj].files@[fj].path,
                                cj as usize,
                            );
                        }
                        let last = nodes@.len() - 1;
                        assert(nodes@[last].kind is File && nodes@[last].path == Some(
                            ls[ci as int].files@[fi as int].path,
                        ) && nodes@[last].category_index == Some(ci));
                        assert forall|fj: int| #![trigger ls[ci as int].files@[fj]]
                            0 <= fj < fi + 1 implies has_file_node(
                            nodes@,
                            ls[ci as int].files@[fj].path,
                            ci as usize,
                        ) by {
                            if fj < fi {
                                lemma_has_file_node_extend(
                                    nb2,
                                    nodes@,
                                    ls[ci as int].files@[fj].path,
                                    ci as usize,
                                );
                            }
                        }
                    }
                    fi += 1;
                }
            }
            proof {
                assert forall|cj: int, fj: int| #![trigger ls[cj].files@[fj]]
                    0 <= cj < ci + 1 && 0 <= fj < ls[cj].files@.len() implies has_file_node(
                    nodes@,
                    ls[cj].files@[fj].path,
                    cj as usize,
                ) by {
                }
            }
            ci += 1;
        }
        self.categories = names;
        self.file_tree.nodes = nodes;
        self.file_tree.selected = 0;
        let ghost gnodes = self.file_tree.nodes@;
        let ghost gnames = self.categories@;
        // keep the previous selection where its file still exists
        let mut found = false;
        match prev {
            Some(p) => {
                let count = self.file_tree.nodes.len();
                let mut j: usize = 0;
                while j < count && !found
                    invariant
                        count == self.file_tree.nodes@.len(),
                        j <= count,
                        !found ==> self.file_tree.selected == 0,
                        found ==> (self.file_tree.selected as int) < count,
                        self.file_tree.nodes@ == gnodes,
                        self.categories@ == gnames,
                        self.categories == names,
                        self.file_tree.focus == old(self).file_tree.focus,
                        self.buffer == old(self).buffer,
                        self.overlay == old(self).overlay,
                        self.mode == old(self).mode,
                        self.eol == old(self).eol,
                        self.running == old(self).running,
                        self.no_style == old(self).no_style,
                        self.notes_root == old(self).notes_root,
                        self.pending_after_save == old(self).pending_after_save,
                        self.needs_redraw == old(self).needs_redraw,
                    decreases count - j,
                {
                    let hit = match &self.file_tree.nodes[j].path {
                        Some(np) => np.eq(&p),
                        None => false,
                    };
                    if hit {
                        self.file_tree.selected = j;
                        found = true;
                    }
                    j += 1;
                }
            },
            None => {},
        }
        if !found {
            self.file_tree.select_first_file();
        }
    }

    /// A save succeeded: adopt the path, mark the document clean, and run
    /// whatever was deferred behind the save.
    pub fn persist_ok(&mut self, path: String, then: AfterPersist) -> (r: Option<IoRequest>)
        requires
            old(self).wf(),
        ensures
            final (self).wf(),
            final (self).needs_redraw == true,
            final (self).buffer.path == Some(path),
            final (self).buffer.dirty == false,
            final (self).buffer.content() == old(self).buffer.content(),
            final (self).buffer.cursor == old(self).buffer.cursor,
            final (self).buffer.viewport == old(self).buffer.viewport,
            final (self).buffer.colors() == old(self).buffer.colors(),
            final (self).buffer.readonly == old(self).buffer.readonly,
            final (self).eol == old(self).eol,
            final (self).mode == old(self).mode,
            final (self).categories == old(self).categories,
            match then {
                AfterPersist::Nothing => r is None && final (self).overlay == old(self).overlay
                    && final (self).running == old(self).running && final (self).pending_after_save == old(self).pending_after_save,
                AfterPersist::Run(p) => Self::pending_outcome(*old(self), *final (self), p, r)
                    && final (self).pending_after_save == old(self).pending_after_save,
                AfterPersist::ConsumeStored => match old(self).pending_after_save {
                    None => r is None && final (self).overlay == old(self).overlay && final (self).running == old(self).running && final (self).pending_after_save is None,
                    Some(p) => Self::pending_outcome(*old(self), *final (self), p, r) && final (
                    self).pending_after_save is None,
                },
            },
    {
        self.buffer.path = Some(path);
        self.buffer.mark_saved();
        self.needs_redraw = true;
        match then {
            AfterPersist::Nothing => None,
            AfterPersist::Run(p) => self.execute_pending_action(p),
            AfterPersist::ConsumeStored => {
                let mut stored: Option<PendingAction> = None;
                core::mem::swap(&mut self.pending_after_save, &mut stored);
                match stored {
                    Some(p) => self.execute_pending_action(p),
                    None => None,
                }
            },
        }
    }

    /// What running a deferred action leaves behind: quitting stops the
    /// loop, opening or deleting a file becomes a request, and the deferred
    /// new-file flow reopens its dialog (or the category detour).
    pub open spec fn pending_outcome(
        pre: App,
        post: App,
        p: PendingAction,
        r: Option<IoRequest>,
    ) -> bool {
        match p {
            PendingAction::Quit => post.running == false && r is None && post.overlay
                == pre.overlay,
            PendingAction::OpenPath(pp) => (r matches Some(IoRequest::OpenFile { path }) && path
                == pp) && post.running == pre.running && post.overlay == pre.overlay,
            PendingAction::OpenNewFileOverlay { preferred_category } => r is None && post.running
                == pre.running && (pre.categories@.len() == 0 ==> (post.overlay
                matches Overlay::NewCategory { name, next } && name@ == Seq::<char>::empty() && (
            next matches PostCategoryAction::OpenNewFile { preferred_category: pc } && pc
                == preferred_category))) && (pre.categories@.len() > 0 ==> (post.overlay
                matches Overlay::NewFile { filename, category_index } && filename@
                == "new_note.txt"@ && (category_index as int) < pre.categories@.len())),
            PendingAction::DeletePath(pp) => (r matches Some(IoRequest::DeleteFile { path })
                && path == pp) && post.running == pre.running && post.overlay == pre.overlay,
        }
    }

    /// A save failed: report it; nothing else changes, so the user can
    /// dismiss and retry.
    pub fn persist_failed(&mut self, msg: String)
        ensures
            final (self).overlay matches Overlay::Error { message } && message@ == "Save failed: "@
                + msg@,
            final (self).needs_redraw == true,
            Self::same_core(*old(self), *final (self)),
    {
        let m = String::from_str("Save failed: ").concat(msg.as_str());
        self.open_error(m);
    }

    /// A new empty file exists: ask to open it.
    pub fn file_created(&mut self, path: String) -> (r: Option<IoRequest>)
        ensures
            r matches Some(IoRequest::OpenFile { path: p }) && p == path,
            final (self).needs_redraw == true,
            final (self).overlay == old(self).overlay,
            Self::same_core(*old(self), *final (self)),
    {
        self.needs_redraw = true;
        Some(IoRequest::OpenFile { path })
    }

    pub fn file_create_failed(&mut self, msg: String)
        ensures
            final (self).overlay matches Overlay::Error { message } && message@
                == "File creation failed: "@ + msg@,
            final (self).needs_redraw == true,
            Self::same_core(*old(self), *final (self)),
    {
        let m = String::from_str("File creation failed: ").concat(msg.as_str());
        self.open_error(m);
    }

    /// A category was created: focus the browser and resume the interrupted
    /// flow. The caller refreshes the listing first, so the new category is
    /// pickable when the save-as or new-file dialog reopens.
    pub fn category_created(&mut self, next: PostCategoryAction)
        requires
            old(self).wf(),
        ensures
            final (self).wf(),
            final (self).needs_redraw == true,
            final (self).file_tree.focus == true,
            final (self).buffer == old(self).buffer,
            final (self).running == old(self).running,
            final (self).categories == old(self).categories,
            match next {
                PostCategoryAction::Nothing => final (self).overlay is Idle,
                PostCategoryAction::OpenSaveAs { pending } => {
                    &&& old(self).categories@.len() == 0 ==> final (self).overlay is NewCategory
                    &&& old(self).categories@.len() > 0 ==> (final (self).overlay
                        matches Overlay::SaveAs { filename, category_index } && category_index as int
                        == start_category(
                        old(self).categories@,
                        old(self).notes_root@,
                        old(self).buffer.path,
                    ) && final (self).pending_after_save == pending)
                },
                PostCategoryAction::OpenNewFile { preferred_category } => {
                    &&& old(self).categories@.len() == 0 ==> final (self).overlay is NewCategory
                    &&& old(self).categories@.len() > 0 ==> final (self).overlay is NewFile
                },
            },
    {
        self.file_tree.focus = true;
        self.needs_redraw = true;
        match next {
            PostCategoryAction::Nothing => {
                self.overlay = Overlay::Idle;
            },
            PostCategoryAction::OpenSaveAs { pending } => {
                self.open_save_as_overlay_with_pending(pending);
            },
            PostCategoryAction::OpenNewFile { preferred_category } => {
                self.open_new_file_overlay(preferred_category);
            },
        }
    }

    pub fn category_create_failed(&mut self, msg: String)
        ensures
            final (self).overlay matches Overlay::Error { message } && message@
                == "Category creation failed: "@ + msg@,
            final (self).needs_redraw == true,
            Self::same_core(*old(self), *final (self)),
    {
        let m = String::from_str("Category creation failed: ").concat(msg.as_str());
        self.open_error(m);
    }

    /// A file was deleted: when it was the open document, replace it with a
    /// fresh empty one (keeping the window size); focus the browser.
    pub fn delete_done(&mut self, path: String)
        requires
            old(self).wf(),
        ensures
            final (self).wf(),
            final (self).needs_redraw == true,
            final (self).file_tree.focus == true,
            final (self).overlay == old(self).overlay,
            final (self).running == old(self).running,
            (match old(self).buffer.path {
                Some(p) => p@ == path@,
                None => false,
            }) ==> {
                &&& final (self).buffer.content() == Seq::<char>::empty()
                &&& final (self).buffer.path is None
                &&& final (self).buffer.dirty == false
                &&& final (self).buffer.readonly == (old(self).mode is ReadOnly)
                &&& same_size(old(self).buffer, final (self).buffer)
                &&& final (self).eol == EolStyle::Lf
            },
            !(match old(self).buffer.path {
                Some(p) => p@ == path@,
                None => false,
            }) ==> final (self).buffer == old(self).buffer && final (self).eol == old(self).eol,
    {
        let is_open = match &self.buffer.path {
            Some(p) => p.eq(&path),
            None => false,
        };
        if is_open {
            let w = self.buffer.viewport.width;
            let h = self.buffer.viewport.height;
            let readonly = matches!(self.mode, AppMode::ReadOnly);
            let mut fresh = TextBuffer::new(None, readonly);
            fresh.set_viewport_size(w, h);
            self.buffer = fresh;
            self.eol = EolStyle::Lf;
        }
        self.file_tree.focus = true;
        self.needs_redraw = true;
    }

    pub fn delete_failed(&mut self, msg: String)
        ensures
            final (self).overlay matches Overlay::Error { message } && message@
                == "Delete failed: "@ + msg@,
            final (self).needs_redraw == true,
            Self::same_core(*old(self), *final (self)),
    {
        let m = String::from_str("Delete failed: ").concat(msg.as_str());
        self.open_error(m);
    }

    /// A document was loaded: it becomes the open document, with its
    /// sidecar colors (unless styling is off), the kept window size, and its
    /// detected line-ending style; the browser loses focus.
    pub fn opened(
        &mut self,
        path: String,
        text: String,
        eol: EolStyle,
        colors: Vec<(usize, ColorId)>,
    )
        requires
            old(self).wf(),
        ensures
            final (self).wf(),
            final (self).needs_redraw == true,
            final (self).file_tree.focus == false,
            final (self).overlay == old(self).overlay,
            final (self).running == old(self).running,
            final (self).buffer.content() == text@,
            final (self).buffer.path == Some(path),
            final (self).buffer.dirty == false,
            final (self).buffer.readonly == (old(self).mode is ReadOnly),
            final (self).buffer.active_color is None,
            final (self).buffer.colors() == (if old(self).no_style {
                Map::<int, ColorId>::empty()
            } else {
                crate::buffer::load_colors(text@, colors@)
            }),
            final (self).eol == eol,
    {
        let w = self.buffer.viewport.width;
        let h = self.buffer.viewport.height;
        let readonly = matches!(self.mode, AppMode::ReadOnly);
        let mut buffer = TextBuffer::from_text(text, Some(path), readonly);
        if !self.no_style {
            buffer.set_char_colors(colors);
        }
        buffer.set_viewport_size(w, h);
        self.buffer = buffer;
        self.eol = eol;
        self.file_tree.focus = false;
        self.needs_redraw = true;
    }

    pub fn open_failed(&mut self, msg: String)
        ensures
            final (self).overlay matches Overlay::Error { message } && message@
                == "Failed to open file: "@ + msg@,
            final (self).needs_redraw == true,
            Self::same_core(*old(self), *final (self)),
    {
        let m = String::from_str("Failed to open file: ").concat(msg.as_str());
        self.open_error(m);
    }

    /// Everything but the document and the redraw flag is unchanged.
    pub open spec fn only_buffer_changed(pre: App, post: App) -> bool {
        post.overlay == pre.overlay && post.mode == pre.mode && post.eol == pre.eol
            && post.running == pre.running && post.no_style == pre.no_style && post.notes_root
            == pre.notes_root && post.file_tree == pre.file_tree && post.pending_after_save
            == pre.pending_after_save && post.categories == pre.categories
    }

    /// What applying one editor command leaves behind: the exact document
    /// change, overlay, request and guard outcome per command.
    pub open spec fn command_step(pre: App, post: App, cmd: Command, r: Option<IoRequest>) -> bool {
        match cmd {
            Command::Insert(c) => r is None && Self::only_buffer_changed(pre, post) && (
            pre.buffer.readonly ==> post.buffer == pre.buffer) && (!pre.buffer.readonly
                ==> crate::buffer::inserted_state(pre.buffer, post.buffer, c)),
            Command::NewLine => r is None && Self::only_buffer_changed(pre, post) && (
            pre.buffer.readonly ==> post.buffer == pre.buffer) && (!pre.buffer.readonly
                ==> crate::buffer::newline_state(pre.buffer, post.buffer)),
            Command::Backspace => r is None && Self::only_buffer_changed(pre, post) && (
            pre.buffer.readonly ==> post.buffer == pre.buffer) && (!pre.buffer.readonly
                ==> crate::buffer::backspaced_state(pre.buffer, post.buffer)),
            Command::Delete => r is None && Self::only_buffer_changed(pre, post) && (
            pre.buffer.readonly ==> post.buffer == pre.buffer) && (!pre.buffer.readonly
                ==> crate::buffer::deleted_state(pre.buffer, post.buffer)),
            Command::MoveLeft => r is None && Self::only_buffer_changed(pre, post) && same_doc(
                pre.buffer,
                post.buffer,
            ) && same_size(pre.buffer, post.buffer) && post.buffer.cursor
                == crate::buffer::cursor_after_left(pre.buffer.content(), pre.buffer.cursor),
            Command::MoveRight => r is None && Self::only_buffer_changed(pre, post) && same_doc(
                pre.buffer,
                post.buffer,
            ) && same_size(pre.buffer, post.buffer) && post.buffer.cursor
                == crate::buffer::cursor_after_right(pre.buffer.content(), pre.buffer.cursor),
            Command::MoveUp => r is None && Self::only_buffer_changed(pre, post) && same_doc(
                pre.buffer,
                post.buffer,
            ) && same_size(pre.buffer, post.buffer) && post.buffer.cursor
                == crate::buffer::cursor_after_up(
                pre.buffer.content(),
                pre.buffer.cursor,
                pre.buffer.preferred_col as int,
            ),
            Command::MoveDown => r is None && Self::only_buffer_changed(pre, post) && same_doc(
                pre.buffer,
                post.buffer,
            ) && same_size(pre.buffer, post.buffer) && post.buffer.cursor
                == crate::buffer::cursor_after_down(
                pre.buffer.content(),
                pre.buffer.cursor,
                pre.buffer.preferred_col as int,
            ),
            Command::MoveHome => r is None && Self::only_buffer_changed(pre, post) && same_doc(
                pre.buffer,
                post.buffer,
            ) && same_size(pre.buffer, post.buffer) && post.buffer.cursor == (Cursor {
                line: pre.buffer.cursor.line,
                col: 0,
            }),
            Command::MoveEnd => r is None && Self::only_buffer_changed(pre, post) && same_doc(
                pre.buffer,
                post.buffer,
            ) && same_size(pre.buffer, post.buffer) && post.buffer.cursor
                == crate::buffer::cursor_after_end(pre.buffer.content(), pre.buffer.cursor),
            Command::PageUp => r is None && Self::only_buffer_changed(pre, post) && same_doc(
                pre.buffer,
                post.buffer,
            ) && same_size(pre.buffer, post.buffer) && post.buffer.cursor
                == crate::buffer::cursor_after_page_up(
                pre.buffer.content(),
                pre.buffer.cursor,
                pre.buffer.preferred_col as int,
                pre.buffer.viewport.height as int,
            ),
            Command::PageDown => r is None && Self::only_buffer_changed(pre, post) && same_doc(
                pre.buffer,
                post.buffer,
            ) && same_size(pre.buffer, post.buffer) && post.buffer.cursor
                == crate::buffer::cursor_after_page_down(
                pre.buffer.content(),
                pre.buffer.cursor,
                pre.buffer.preferred_col as int,
                pre.buffer.viewport.height as int,
            ),
            Command::SetLineColor(cid) => r is None && (pre.buffer.readonly ==> (post.overlay
                matches Overlay::Error { message } && message@ == "Readonly mode: cannot modify styles"@)
                && post.buffer == pre.buffer) && (!pre.buffer.readonly ==> post.overlay
                == pre.overlay && crate::buffer::recolored_state(pre.buffer, post.buffer, Some(cid))),
            Command::ResetLineColor => r is None && (pre.buffer.readonly ==> (post.overlay
                matches Overlay::Error { message } && message@ == "Readonly mode: cannot modify styles"@)
                && post.buffer == pre.buffer) && (!pre.buffer.readonly ==> post.overlay
                == pre.overlay && crate::buffer::recolored_state(pre.buffer, post.buffer, None)),
            Command::Save => {
                &&& pre.buffer.readonly ==> r is None && (post.overlay matches Overlay::Error {
                    message,
                } && message@ == "Readonly mode: save disabled"@) && post.buffer == pre.buffer
                &&& !pre.buffer.readonly ==> match pre.buffer.path {
                    Some(p) => (r matches Some(IoRequest::Persist { path, then }) && path == p
                        && then is Nothing) && post.overlay == pre.overlay && post.buffer
                        == pre.buffer,
                    None => r is None && post.buffer == pre.buffer && (pre.categories@.len() == 0
                        ==> post.overlay is NewCategory) && (pre.categories@.len() > 0
                        ==> post.overlay is SaveAs && post.pending_after_save is None),
                }
            },
            Command::Quit => r is None && post.buffer == pre.buffer && (pre.buffer.dirty ==> (
            post.overlay matches Overlay::ConfirmUnsaved { file_name, pending, choice } && pending
                is Quit && choice == ConfirmChoice::Yes && file_name@ == shown_name(
                pre.buffer.path,
            )) && post.running == pre.running) && (!pre.buffer.dirty ==> post.running == false),
            Command::OpenHelp => r is None && post.overlay is Help && post.buffer == pre.buffer,
            Command::OpenSearch => r is None && (post.overlay matches Overlay::Search {
                input,
                state,
            } && input@ == Seq::<char>::empty() && state.matches@.len() == 0 && state.current
                is None) && post.buffer == pre.buffer,
            Command::OpenGoto => r is None && (post.overlay matches Overlay::Goto { input }
                && input@ == Seq::<char>::empty()) && post.buffer == pre.buffer,
            Command::OpenFileTree => r == Some(IoRequest::RefreshTree) && post.file_tree.focus
                == !pre.file_tree.focus && post.overlay == pre.overlay && post.buffer
                == pre.buffer,
            Command::NewFile => {
                &&& r is None
                &&& post.buffer == pre.buffer
                &&& pre.buffer.readonly ==> (post.overlay matches Overlay::Error { message }
                    && message@ == "Readonly mode: cannot create files"@)
                &&& !pre.buffer.readonly && pre.buffer.dirty ==> (post.overlay
                    matches Overlay::ConfirmUnsaved { file_name, pending, choice } && (pending
                    matches PendingAction::OpenNewFileOverlay { preferred_category }
                    && preferred_category is None) && choice == ConfirmChoice::Yes && file_name@
                    == shown_name(pre.buffer.path))
                &&& !pre.buffer.readonly && !pre.buffer.dirty ==> (pre.categories@.len() == 0
                    ==> post.overlay is NewCategory) && (pre.categories@.len() > 0 ==> post.overlay
                    is NewFile)
            },
            Command::CloseOverlay => r is None && post == App { needs_redraw: true, ..pre },
            Command::SearchNext => r is None && post == App { needs_redraw: true, ..pre },
            Command::SearchPrev => r is None && post == App { needs_redraw: true, ..pre },
        }
    }

    /// Apply an editor command to the document (or open the matching
    /// overlay): the dispatch for keys that arrive while no overlay is
    /// active and the browser has no focus.
    pub fn apply_command(&mut self, cmd: Command) -> (r: Option<IoRequest>)
        requires
            old(self).wf(),
            old(self).buffer.content().len() < usize::MAX,
        ensures
            final (self).wf(),
            final (self).needs_redraw == true,
            Self::command_step(*old(self), *final (self), cmd, r),
    {
        let mut req: Option<IoRequest> = None;
        match cmd {
            Command::Insert(c) => self.buffer.insert_char(c),
            Command::NewLine => self.buffer.insert_newline(),
            Command::Backspace => self.buffer.backspace(),
            Command::Delete => self.buffer.delete(),
            Command::MoveLeft => self.buffer.move_left(),
            Command::MoveRight => self.buffer.move_right(),
            Command::MoveUp => self.buffer.move_up(),
            Command::MoveDown => self.buffer.move_down(),
            Command::MoveHome => self.buffer.move_home(),
            Command::MoveEnd => self.buffer.move_end(),
            Command::PageUp => self.buffer.page_up(),
            Command::PageDown => self.buffer.page_down(),
            Command::SetLineColor(cid) => {
                if self.buffer.readonly {
                    self.open_error(String::from_str("Readonly mode: cannot modify styles"));
                } else {
                    self.buffer.set_current_char_color(Some(cid));
                }
            },
            Command::ResetLineColor => {
                if self.buffer.readonly {
                    self.open_error(String::from_str("Readonly mode: cannot modify styles"));
                } else {
                    self.buffer.set_current_char_color(None);
                }
            },
            Command::Save => {
                if self.buffer.readonly {
                    self.open_error(String::from_str("Readonly mode: save disabled"));
                } else {
                    let has_path = match &self.buffer.path {
                        Some(p) => Some(p.clone()),
                        None => None,
                    };
                    match has_path {
                        Some(path) => {
                            req = Some(IoRequest::Persist { path, then: AfterPersist::Nothing });
                        },
                        None => {
                            self.open_save_as_overlay_with_pending(None);
                        },
                    }
                }
            },
            Command::Quit => {
                if self.buffer.dirty {
                    self.request_unsaved_confirmation(PendingAction::Quit);
                } else {
                    self.running = false;
                }
            },
            Command::OpenHelp => {
                self.overlay = Overlay::Help;
            },
            Command::OpenSearch => {
                proof {
                    reveal_strlit("");
                }
                let state = self.build_search_state("", 0);
                self.overlay = Overlay::Search { input: String::new(), state };
            },
            Command::OpenGoto => {
                self.overlay = Overlay::Goto { input: String::new() };
            },
            Command::OpenFileTree => {
                self.file_tree.focus = !self.file_tree.focus;
                req = Some(IoRequest::RefreshTree);
            },
            Command::NewFile => {
                if self.buffer.readonly {
                    self.open_error(String::from_str("Readonly mode: cannot create files"));
                } else if self.buffer.dirty {
                    self.request_unsaved_confirmation(
                        PendingAction::OpenNewFileOverlay { preferred_category: None },
                    );
                } else {
                    self.open_new_file_overlay(None);
                }
            },
            Command::CloseOverlay => {},
            Command::SearchNext => {},
            Command::SearchPrev => {},
        }
        self.needs_redraw = true;
        req
    }

    /// The browser selection after one wrapping step over the file rows.
    pub open spec fn moved_selection(pre: FileTree, post: FileTree, dir: int) -> bool {
        &&& post.nodes == pre.nodes
        &&& post.focus == pre.focus
        &&& (pre.nodes@.len() == 0 ==> post.selected == pre.selected)
        &&& (pre.nodes@.len() > 0 ==> ({
            let found = crate::tree::scan_file(
                pre.nodes@,
                pre.selected as int,
                dir,
                pre.nodes@.len() as nat,
            );
            if found >= 0 {
                post.selected as int == found
            } else {
                post.selected == pre.selected
            }
        }))
    }

    /// What one key press does while the browser has focus: the exact
    /// selection movement, and each guarded flow (open, create, delete).
    pub open spec fn tree_step(pre: App, post: App, key: Key, r: Option<IoRequest>) -> bool {
        match key {
            Key::Esc => r is None && post.file_tree.focus == false && post.overlay == pre.overlay
                && post.buffer == pre.buffer,
            Key::Up => r is None && post.overlay == pre.overlay && post.buffer == pre.buffer
                && Self::moved_selection(pre.file_tree, post.file_tree, -1),
            Key::Down => r is None && post.overlay == pre.overlay && post.buffer == pre.buffer
                && Self::moved_selection(pre.file_tree, post.file_tree, 1),
            Key::Enter { .. } => {
                &&& post.buffer == pre.buffer
                &&& pre.buffer.dirty && crate::tree::sel_path(pre.file_tree) is Some ==> r is None
                    && (post.overlay matches Overlay::ConfirmUnsaved { file_name, pending, choice }
                    && (pending matches PendingAction::OpenPath(p) && Some(p)
                    == crate::tree::sel_path(pre.file_tree)) && choice == ConfirmChoice::Yes
                    && file_name@ == shown_name(pre.buffer.path))
                &&& pre.buffer.dirty && crate::tree::sel_path(pre.file_tree) is None ==> r is None
                    && post.overlay == pre.overlay
                &&& !pre.buffer.dirty ==> match crate::tree::sel_path(pre.file_tree) {
                    Some(p) => r == Some(IoRequest::OpenFile { path: p }) && post.overlay
                        == pre.overlay,
                    None => r is None && post.overlay == pre.overlay,
                }
            },
            Key::Delete => Self::delete_key_outcome(pre, post, r),
            Key::Char { c, ctrl, .. } => {
                if c == 'n' || c == 'N' {
                    &&& post.buffer == pre.buffer
                    &&& pre.buffer.readonly ==> r is None && (post.overlay
                        matches Overlay::Error { message } && message@
                        == "Readonly mode: cannot create files"@)
                    &&& !pre.buffer.readonly && pre.buffer.dirty ==> r is None && (post.overlay
                        matches Overlay::ConfirmUnsaved { file_name, pending, choice } && (pending
                        matches PendingAction::OpenNewFileOverlay { preferred_category }
                        && preferred_category == crate::tree::sel_cat(pre.file_tree)) && choice
                        == ConfirmChoice::Yes && file_name@ == shown_name(pre.buffer.path))
                    &&& !pre.buffer.readonly && !pre.buffer.dirty ==> r is None && (
                    pre.categories@.len() == 0 ==> post.overlay is NewCategory) && (
                    pre.categories@.len() > 0 ==> post.overlay is NewFile)
                } else if c == 'c' || c == 'C' {
                    r is None && post.buffer == pre.buffer && (post.overlay
                        matches Overlay::NewCategory { name, next } && name@ == Seq::<
                        char,
                    >::empty() && next is Nothing)
                } else if c == 'd' || c == 'D' {
                    Self::delete_key_outcome(pre, post, r)
                } else if (c == 'o' || c == 'O') && ctrl {
                    r is None && post.buffer == pre.buffer && post.file_tree.focus == false
                        && post.overlay == pre.overlay
                } else {
                    r is None && post.overlay == pre.overlay && post.buffer == pre.buffer
                }
            },
            _ => r is None && post.overlay == pre.overlay && post.buffer == pre.buffer,
        }
    }

    /// Route a key press while the browser has focus: selection movement,
    /// opening, creating and deleting, each behind its guard.
    pub fn handle_tree_key(&mut self, key: Key) -> (r: Option<IoRequest>)
        requires
            old(self).wf(),
        ensures
            final (self).wf(),
            final (self).needs_redraw == true,
            Self::tree_step(*old(self), *final (self), key, r),
    {
        let mut req: Option<IoRequest> = None;
        match key {
            Key::Esc => {
                self.file_tree.focus = false;
            },
            Key::Up => {
                self.file_tree.move_selection(-1);
            },
            Key::Down => {
                self.file_tree.move_selection(1);
            },
            Key::Char { c, ctrl, .. } => {
                if c == 'n' || c == 'N' {
                    if self.buffer.readonly {
                        self.open_error(String::from_str("Readonly mode: cannot create files"));
                    } else if self.buffer.dirty {
                        let preferred = self.file_tree.selected_category_index();
                        self.request_unsaved_confirmation(
                            PendingAction::OpenNewFileOverlay { preferred_category: preferred },
                        );
                    } else {
                        let preferred = self.file_tree.selected_category_index();
                        self.open_new_file_overlay(preferred);
                    }
                } else if c == 'c' || c == 'C' {
                    self.open_new_category_overlay(PostCategoryAction::Nothing);
                } else if c == 'd' || c == 'D' {
                    req = self.delete_key();
                } else if (c == 'o' || c == 'O') && ctrl {
                    self.file_tree.focus = false;
                }
            },
            Key::Enter { .. } => {
                if self.buffer.dirty {
                    match self.file_tree.selected_path() {
                        Some(path) => {
                            self.request_unsaved_confirmation(PendingAction::OpenPath(path));
                        },
                        None => {},
                    }
                } else {
                    match self.file_tree.selected_path() {
                        Some(path) => {
                            req = Some(IoRequest::OpenFile { path });
                        },
                        None => {},
                    }
                }
            },
            Key::Delete => {
                req = self.delete_key();
            },
            _ => {},
        }
        self.needs_redraw = true;
        req
    }

    /// What pressing delete in the browser leaves behind.
    pub open spec fn delete_key_outcome(pre: App, post: App, r: Option<IoRequest>) -> bool {
        &&& post.buffer == pre.buffer
        &&& pre.buffer.readonly ==> r is None && (post.overlay matches Overlay::Error { message }
            && message@ == "Readonly mode: cannot delete files"@)
        &&& !pre.buffer.readonly ==> match crate::tree::sel_path(pre.file_tree) {
            Some(p) => {
                if pre.buffer.dirty && (match pre.buffer.path {
                    Some(bp) => bp@ == p@,
                    None => false,
                }) {
                    r is None && (post.overlay matches Overlay::ConfirmUnsaved {
                        file_name,
                        pending,
                        choice,
                    } && (pending matches PendingAction::DeletePath(dp) && dp == p) && choice
                        == ConfirmChoice::Yes && file_name@ == shown_name(pre.buffer.path))
                } else {
                    r is None && (post.overlay matches Overlay::ConfirmDelete {
                        file_name,
                        path,
                        choice,
                    } && path == p && choice == ConfirmChoice::No)
                }
            },
            None => r is None && post.overlay == pre.overlay,
        }
    }

    /// The browser's delete key: guard read-only mode and unsaved changes,
    /// then ask for confirmation.
    fn delete_key(&mut self) -> (r: Option<IoRequest>)
        requires
            old(self).wf(),
        ensures
            final (self).wf(),
            Self::delete_key_outcome(*old(self), *final (self), r),
    {
        if self.buffer.readonly {
            self.open_error(String::from_str("Readonly mode: cannot delete files"));
            return None;
        }
        match self.file_tree.selected_path() {
            Some(path) => {
                let is_open = match &self.buffer.path {
                    Some(bp) => bp.eq(&path),
                    None => false,
                };
                if self.buffer.dirty && is_open {
                    self.request_unsaved_confirmation(PendingAction::DeletePath(path));
                } else {
                    self.open_delete_confirmation(path);
                }
                None
            },
            None => None,
        }
    }

    /// The top-level key router: the save-as chord is intercepted first;
    /// otherwise keys go to the live overlay, else to the focused browser,
    /// else to the document as editor commands, each step as its own
    /// contract states.
    pub fn handle_key(&mut self, key: Key) -> (r: Option<IoRequest>)
        requires
            old(self).wf(),
            old(self).buffer.content().len() < usize::MAX,
        ensures
            final (self).wf(),
            final (self).needs_redraw == true,
            ({
                let chord = match key {
                    Key::Char { c, ctrl, shift, .. } => (c == 's' || c == 'S') && ctrl && shift,
                    _ => false,
                };
                if chord {
                    &&& r is None
                    &&& final (self).buffer == old(self).buffer
                    &&& old(self).buffer.readonly ==> (final (self).overlay
                        matches Overlay::Error { message } && message@
                        == "Readonly mode: save disabled"@) && final (self).pending_after_save
                        == old(self).pending_after_save
                    &&& !old(self).buffer.readonly ==> {
                        &&& final (self).pending_after_save is None
                        &&& old(self).categories@.len() == 0 ==> (final (self).overlay
                            matches Overlay::NewCategory { name, next } && name@ == Seq::<
                            char,
                        >::empty() && (next matches PostCategoryAction::OpenSaveAs { pending: pp }
                            && pp is None))
                        &&& old(self).categories@.len() > 0 ==> (final (self).overlay
                            matches Overlay::SaveAs { filename, category_index } && category_index
                            as int == start_category(
                            old(self).categories@,
                            old(self).notes_root@,
                            old(self).buffer.path,
                        ))
                    }
                } else if !(old(self).overlay is Idle) {
                    Self::overlay_step(*old(self), *final (self), key, r)
                } else if old(self).file_tree.focus {
                    Self::tree_step(*old(self), *final (self), key, r)
                } else {
                    match mapped_command(key, false) {
                        Some(cmd) => Self::command_step(*old(self), *final (self), cmd, r),
                        None => r is None && *final (self) == App {
                            needs_redraw: true,
                            ..*old(self)
                        },
                    }
                }
            }),
    {
        let chord = match key {
            Key::Char { c, ctrl, shift, .. } => (c == 's' || c == 'S') && ctrl && shift,
            _ => false,
        };
        if chord {
            if self.buffer.readonly {
                self.open_error(String::from_str("Readonly mode: save disabled"));
            } else {
                self.open_save_as_overlay_with_pending(None);
            }
            self.needs_redraw = true;
            return None;
        }
        let overlay_live = !matches!(self.overlay, Overlay::Idle);
        if overlay_live {
            return self.handle_overlay_key(key);
        }
        if self.file_tree.focus {
            return self.handle_tree_key(key);
        }
        match map_key_event(key, false) {
            Some(cmd) => {
                let r = self.apply_command(cmd);
                r
            },
            None => {
                self.needs_redraw = true;
                None
            },
        }
    }

    /// How a confirmation dialog's highlighted button moves under a key.
    pub open spec fn confirm_choice_after(c: ConfirmChoice, key: Key) -> ConfirmChoice {
        match key {
            Key::Left | Key::Up => ConfirmChoice::Yes,
            Key::Right | Key::Down => ConfirmChoice::No,
            Key::Char { c: ch, .. } => if ch == 'y' || ch == 'Y' {
                ConfirmChoice::Yes
            } else if ch == 'n' || ch == 'N' {
                ConfirmChoice::No
            } else {
                c
            },
            _ => c,
        }
    }

    /// The character a key contributes to a file or category name: plain
    /// characters except path separators.
    pub open spec fn name_input_char(key: Key) -> Option<char> {
        match key {
            Key::Char { c, ctrl, alt, .. } => if !ctrl && !alt && c != '/' && c != '\\' {
                Some(c)
            } else {
                None
            },
            _ => None,
        }
    }

    /// The character a key contributes to a search query: any plain one.
    pub open spec fn query_input_char(key: Key) -> Option<char> {
        match key {
            Key::Char { c, ctrl, alt, .. } => if !ctrl && !alt {
                Some(c)
            } else {
                None
            },
            _ => None,
        }
    }

    /// The digit a key contributes to a line-number field.
    pub open spec fn digit_input_char(key: Key) -> Option<char> {
        match key {
            Key::Char { c, .. } => if '0' <= c && c <= '9' {
                Some(c)
            } else {
                None
            },
            _ => None,
        }
    }

    /// Whether a key dismisses a message box.
    pub open spec fn dismisses(key: Key) -> bool {
        key is Esc || key matches Key::Enter { .. }
    }

    /// A search state freshly recomputed for query `q` over the document:
    /// its matches are exactly the ascending matching lines, and the first
    /// match (if any) is current.
    pub open spec fn recomputed_search(buf: TextBuffer, q: Seq<char>, st: SearchState) -> bool {
        &&& st.query@ == q
        &&& st.wf()
        &&& (q.len() == 0 ==> st.matches@.len() == 0)
        &&& (forall|a: int, b: int|
            0 <= a < b < st.matches@.len() ==> st.matches@[a] < st.matches@[b])
        &&& (forall|j: int|
            0 <= j < st.matches@.len() ==> (#[trigger] st.matches@[j] as int) < line_count(
                buf.content(),
            ) && crate::buffer::line_matches(buf.content(), st.matches@[j] as int, q))
        &&& (forall|l: int|
            0 <= l < line_count(buf.content()) && q.len() > 0
                && #[trigger] crate::buffer::line_matches(buf.content(), l, q) ==> exists|j: int|
                0 <= j < st.matches@.len() && st.matches@[j] == l)
        &&& st.current == (if st.matches@.len() == 0 {
            None::<usize>
        } else {
            Some(0usize)
        })
    }

    /// The document after jumping to the search state's current match: the
    /// cursor sits on the matched line (clamped into the text), and nothing
    /// moves when there is no match.
    pub open spec fn jumped_to_match(pre: TextBuffer, post: TextBuffer, st: SearchState) -> bool {
        &&& same_doc(pre, post)
        &&& same_size(pre, post)
        &&& match st.current {
            Some(i) => post.cursor.line as int == ({
                let m = st.matches@[i as int] as int;
                let lc = line_count(pre.content());
                if m < lc - 1 {
                    m
                } else {
                    lc - 1
                }
            }),
            None => post == pre,
        }
    }

    /// What one key press does to the live overlay: each modal state
    /// consumes its own input and either stays, transforms, resolves into a
    /// request, or closes; the document is untouched except where a state
    /// navigates it.
    pub open spec fn overlay_step(pre: App, post: App, key: Key, r: Option<IoRequest>) -> bool {
        match pre.overlay {
            Overlay::Idle => r is None && post.overlay is Idle && post.buffer == pre.buffer
                && post.running == pre.running,
            Overlay::Help => r is None && post.buffer == pre.buffer && post.running == pre.running
                && (if Self::dismisses(key) {
                post.overlay is Idle
            } else {
                post.overlay is Help
            }),
            Overlay::Error { message } => r is None && post.buffer == pre.buffer && post.running
                == pre.running && (if Self::dismisses(key) {
                post.overlay is Idle
            } else {
                post.overlay matches Overlay::Error { message: m } && m == message
            }),
            Overlay::ConfirmUnsaved { file_name, pending, choice } => match key {
                Key::Esc => r is None && post.overlay is Idle && post.buffer == pre.buffer
                    && post.running == pre.running,
                Key::Enter { .. } => {
                    if choice == ConfirmChoice::Yes {
                        match pre.buffer.path {
                            Some(p) => (r matches Some(IoRequest::Persist { path, then }) && path
                                == p && (then matches AfterPersist::Run(pa) && pa == pending))
                                && post.overlay is Idle && post.buffer == pre.buffer
                                && post.running == pre.running,
                            None => r is None && post.buffer == pre.buffer && post.running
                                == pre.running && (pre.categories@.len() == 0 ==> (post.overlay
                                matches Overlay::NewCategory { name, next } && name@ == Seq::<
                                char,
                            >::empty() && (next matches PostCategoryAction::OpenSaveAs {
                                pending: pp,
                            } && pp == Some(pending)) && post.pending_after_save is None)) && (
                            pre.categories@.len() > 0 ==> post.overlay is SaveAs && (
                            post.pending_after_save matches Some(pa) && pa == pending)),
                        }
                    } else {
                        Self::pending_outcome_idle(pre, post, pending, r)
                    }
                },
                _ => r is None && post.buffer == pre.buffer && post.running == pre.running && (
                post.overlay matches Overlay::ConfirmUnsaved {
                    file_name: f2,
                    pending: p2,
                    choice: c2,
                } && f2 == file_name && p2 == pending && c2 == Self::confirm_choice_after(
                    choice,
                    key,
                )),
            },
            Overlay::ConfirmDelete { file_name, path, choice } => {
                &&& post.buffer == pre.buffer
                &&& post.running == pre.running
                &&& match key {
                    Key::Esc => r is None && post.overlay is Idle,
                    Key::Enter { .. } => post.overlay is Idle && (if choice == ConfirmChoice::Yes {
                        r matches Some(IoRequest::DeleteFile { path: dp }) && dp == path
                    } else {
                        r is None
                    }),
                    _ => r is None && (post.overlay matches Overlay::ConfirmDelete {
                        file_name: f2,
                        path: p2,
                        choice: c2,
                    } && f2 == file_name && p2 == path && c2 == Self::confirm_choice_after(
                        choice,
                        key,
                    )),
                }
            },
            Overlay::NewCategory { name, next } => {
                &&& post.buffer == pre.buffer
                &&& post.running == pre.running
                &&& match key {
                    Key::Esc => r is None && post.overlay is Idle,
                    Key::Backspace => r is None && (post.overlay matches Overlay::NewCategory {
                        name: n2,
                        next: x2,
                    } && n2@ == (if name@.len() > 0 {
                        name@.drop_last()
                    } else {
                        name@
                    }) && x2 == next),
                    Key::Enter { .. } => {
                        if trim_spec(name@).len() == 0 {
                            r is None && (post.overlay matches Overlay::Error { message }
                                && message@ == "Category name cannot be empty"@)
                        } else {
                            (r matches Some(IoRequest::CreateCategory { name: n2, next: x2 })
                                && n2@ == trim_spec(name@) && x2 == next) && post.overlay is Idle
                        }
                    },
                    _ => match Self::name_input_char(key) {
                        Some(c) => r is None && (post.overlay matches Overlay::NewCategory {
                            name: n2,
                            next: x2,
                        } && n2@ == name@.push(c) && x2 == next),
                        None => r is None && (post.overlay matches Overlay::NewCategory {
                            name: n2,
                            next: x2,
                        } && n2 == name && x2 == next),
                    },
                }
            },
            Overlay::Goto { input } => {
                &&& post.running == pre.running
                &&& match key {
                    Key::Esc => r is None && post.overlay is Idle && post.buffer == pre.buffer,
                    Key::Backspace => r is None && post.buffer == pre.buffer && (post.overlay
                        matches Overlay::Goto { input: i2 } && i2@ == (if input@.len() > 0 {
                        input@.drop_last()
                    } else {
                        input@
                    })),
                    Key::Enter { .. } => {
                        &&& r is None
                        &&& post.overlay is Idle
                        &&& same_doc(pre.buffer, post.buffer)
                        &&& same_size(pre.buffer, post.buffer)
                        &&& (input@.len() > 0 && all_digits(input@) && digits_value(input@)
                            <= usize::MAX ==> post.buffer.cursor
                            == crate::buffer::cursor_after_goto(
                            pre.buffer.content(),
                            pre.buffer.cursor,
                            digits_value(input@),
                        ))
                        &&& (!(input@.len() > 0 && all_digits(input@) && digits_value(input@)
                            <= usize::MAX) ==> post.buffer == pre.buffer)
                    },
                    _ => match Self::digit_input_char(key) {
                        Some(c) => r is None && post.buffer == pre.buffer && (post.overlay
                            matches Overlay::Goto { input: i2 } && i2@ == input@.push(c)),
                        None => r is None && post.buffer == pre.buffer && (post.overlay
                            matches Overlay::Goto { input: i2 } && i2 == input),
                    },
                }
            },
            Overlay::SaveAs { filename, category_index } => Self::picker_outcome(
                pre,
                post,
                key,
                filename,
                category_index,
                true,
                r,
            ),
            Overlay::NewFile { filename, category_index } => Self::picker_outcome(
                pre,
                post,
                key,
                filename,
                category_index,
                false,
                r,
            ),
            Overlay::Search { input, state } => {
                &&& post.running == pre.running
                &&& match key {
                    Key::Esc => r is None && post.overlay is Idle && post.buffer == pre.buffer,
                    Key::Enter { shift } => {
                        &&& r is None
                        &&& (post.overlay matches Overlay::Search { input: i2, state: s2 } && i2
                            == input && s2.matches == state.matches && s2.query == state.query && (
                        state.matches@.len() > 0 ==> {
                            let curr = (match state.current {
                                Some(i) => i as int,
                                None => 0,
                            });
                            let nxt = (if shift {
                                step_backward(curr, state.matches@.len() as int)
                            } else {
                                step_forward(curr, state.matches@.len() as int)
                            });
                            s2.current == Some(nxt as usize)
                        }) && (state.matches@.len() == 0 ==> s2.current == state.current)
                            && Self::jumped_to_match(pre.buffer, post.buffer, s2))
                    },
                    Key::Backspace => {
                        &&& r is None
                        &&& (post.overlay matches Overlay::Search { input: i2, state: s2 } && i2@
                            == (if input@.len() > 0 {
                            input@.drop_last()
                        } else {
                            input@
                        }) && Self::recomputed_search(pre.buffer, i2@, s2)
                            && Self::jumped_to_match(pre.buffer, post.buffer, s2))
                    },
                    _ => match Self::query_input_char(key) {
                        Some(c) => {
                            &&& r is None
                            &&& (post.overlay matches Overlay::Search { input: i2, state: s2 }
                                && i2@ == input@.push(c) && Self::recomputed_search(
                                pre.buffer,
                                i2@,
                                s2,
                            ) && Self::jumped_to_match(pre.buffer, post.buffer, s2))
                        },
                        None => r is None && post.buffer == pre.buffer && (post.overlay
                            matches Overlay::Search { input: i2, state: s2 } && i2 == input && s2
                            == state),
                    },
                }
            },
        }
    }

    /// Route a key press into the live overlay: each modal state consumes
    /// its own input and either stays, transforms, resolves into a request,
    /// or closes.
    #[verifier::rlimit(60)]
    pub fn handle_overlay_key(&mut self, key: Key) -> (r: Option<IoRequest>)
        requires
            old(self).wf(),
        ensures
            final (self).wf(),
            final (self).needs_redraw == true,
            final (self).buffer.readonly == old(self).buffer.readonly,
            Self::overlay_step(*old(self), *final (self), key, r),
    {
        let mut cur = Overlay::Idle;
        core::mem::swap(&mut self.overlay, &mut cur);
        let mut req: Option<IoRequest> = None;
        match cur {
            Overlay::Idle => {},
            Overlay::Help => {
                if !(matches!(key, Key::Esc) || matches!(key, Key::Enter { .. })) {
                    self.overlay = Overlay::Help;
                }
            },
            Overlay::Error { message } => {
                if !(matches!(key, Key::Esc) || matches!(key, Key::Enter { .. })) {
                    self.overlay = Overlay::Error { message };
                }
            },
            Overlay::ConfirmUnsaved { file_name, pending, choice } => {
                match key {
                    Key::Esc => {},
                    Key::Enter { .. } => {
                        if matches!(choice, ConfirmChoice::Yes) {
                            let has_path = match &self.buffer.path {
                                Some(p) => Some(p.clone()),
                                None => None,
                            };
                            match has_path {
                                Some(path) => {
                                    req = Some(
                                        IoRequest::Persist {
                                            path,
                                            then: AfterPersist::Run(pending),
                                        },
                                    );
                                },
                                None => {
                                    self.open_save_as_overlay_with_pending(Some(pending));
                                },
                            }
                        } else {
                            req = self.execute_pending_action(pending);
                        }
                    },
                    _ => {
                        let c2 = Self::choice_after(choice, key);
                        self.overlay = Overlay::ConfirmUnsaved { file_name, pending, choice: c2 };
                    },
                }
            },
            Overlay::ConfirmDelete { file_name, path, choice } => {
                match key {
                    Key::Esc => {},
                    Key::Enter { .. } => {
                        if matches!(choice, ConfirmChoice::Yes) {
                            req = Some(IoRequest::DeleteFile { path });
                        }
                    },
                    _ => {
                        let c2 = Self::choice_after(choice, key);
                        self.overlay = Overlay::ConfirmDelete { file_name, path, choice: c2 };
                    },
                }
            },
            Overlay::NewCategory { mut name, next } => {
                match key {
                    Key::Esc => {},
                    Key::Backspace => {
                        string_pop(&mut name);
                        self.overlay = Overlay::NewCategory { name, next };
                    },
                    Key::Enter { .. } => {
                        let trimmed = trim(name.as_str());
                        if trimmed.unicode_len() == 0 {
                            self.open_error(String::from_str("Category name cannot be empty"));
                        } else {
                            req = Some(IoRequest::CreateCategory { name: trimmed, next });
                        }
                    },
                    Key::Char { c, ctrl, alt, .. } => {
                        if !ctrl && !alt && c != '/' && c != '\\' {
                            string_push(&mut name, c);
                        }
                        self.overlay = Overlay::NewCategory { name, next };
                    },
                    _ => {
                        self.overlay = Overlay::NewCategory { name, next };
                    },
                }
            },
            Overlay::Goto { mut input } => {
                match key {
                    Key::Esc => {},
                    Key::Backspace => {
                        string_pop(&mut input);
                        self.overlay = Overlay::Goto { input };
                    },
                    Key::Enter { .. } => {
                        match parse_usize(input.as_str()) {
                            Some(n) => {
                                self.buffer.goto_line(n);
                            },
                            None => {},
                        }
                    },
                    Key::Char { c, .. } => {
                        if '0' <= c && c <= '9' {
                            string_push(&mut input, c);
                        }
                        self.overlay = Overlay::Goto { input };
                    },
                    _ => {
                        self.overlay = Overlay::Goto { input };
                    },
                }
            },
            Overlay::SaveAs { filename, category_index } => {
                req = self.picker_key(key, filename, category_index, true);
            },
            Overlay::NewFile { filename, category_index } => {
                req = self.picker_key(key, filename, category_index, false);
            },
            Overlay::Search { mut input, mut state } => {
                match key {
                    Key::Esc => {},
                    Key::Backspace => {
                        string_pop(&mut input);
                        state = self.build_search_state(input.as_str(), 0);
                        self.jump_to_search_match(&state);
                        self.overlay = Overlay::Search { input, state };
                    },
                    Key::Enter { shift } => {
                        if state.matches.len() > 0 {
                            let curr = match state.current {
                                Some(i) => i,
                                None => 0,
                            };
                            let nxt = next_match_index(curr, state.matches.len(), shift);
                            state.current = Some(nxt);
                            self.jump_to_search_match(&state);
                        }
                        self.overlay = Overlay::Search { input, state };
                    },
                    Key::Char { c, ctrl, alt, .. } => {
                        if !ctrl && !alt {
                            string_push(&mut input, c);
                            state = self.build_search_state(input.as_str(), 0);
                            self.jump_to_search_match(&state);
                        }
                        self.overlay = Overlay::Search { input, state };
                    },
                    _ => {
                        self.overlay = Overlay::Search { input, state };
                    },
                }
            },
        }
        self.needs_redraw = true;
        req
    }

    /// Like `pending_outcome`, with the confirmation itself closed first, so
    /// an overlay opened by the deferred action survives; the document is
    /// untouched.
    pub open spec fn pending_outcome_idle(
        pre: App,
        post: App,
        p: PendingAction,
        r: Option<IoRequest>,
    ) -> bool {
        &&& post.buffer == pre.buffer
        &&& match p {
            PendingAction::Quit => post.running == false && r is None && post.overlay is Idle,
            PendingAction::OpenPath(pp) => (r matches Some(IoRequest::OpenFile { path }) && path
                == pp) && post.running == pre.running && post.overlay is Idle,
            PendingAction::OpenNewFileOverlay { preferred_category } => r is None && post.running
                == pre.running && (pre.categories@.len() == 0 ==> (post.overlay
                matches Overlay::NewCategory { name, next } && name@ == Seq::<char>::empty() && (
            next matches PostCategoryAction::OpenNewFile { preferred_category: pc } && pc
                == preferred_category))) && (pre.categories@.len() > 0 ==> (post.overlay
                matches Overlay::NewFile { filename, category_index } && filename@
                == "new_note.txt"@ && category_index as int == start_category_pref(
                pre.categories@,
                pre.notes_root@,
                preferred_category,
                pre.buffer.path,
            ))),
            PendingAction::DeletePath(pp) => (r matches Some(IoRequest::DeleteFile { path })
                && path == pp) && post.running == pre.running && post.overlay is Idle,
        }
    }

    /// Move a confirmation dialog's highlight under a key.
    fn choice_after(choice: ConfirmChoice, key: Key) -> (r: ConfirmChoice)
        ensures
            r == Self::confirm_choice_after(choice, key),
    {
        match key {
            Key::Left | Key::Up => ConfirmChoice::Yes,
            Key::Right | Key::Down => ConfirmChoice::No,
            Key::Char { c, .. } => {
                if c == 'y' || c == 'Y' {
                    ConfirmChoice::Yes
                } else if c == 'n' || c == 'N' {
                    ConfirmChoice::No
                } else {
                    choice
                }
            },
            _ => choice,
        }
    }

    /// What a key does to a save-as or new-file picker: edit the name,
    /// cycle the category with wraparound, or commit; the document itself is
    /// untouched until the requested save or creation completes.
    pub open spec fn picker_outcome(
        pre: App,
        post: App,
        key: Key,
        filename: String,
        category_index: usize,
        saving: bool,
        r: Option<IoRequest>,
    ) -> bool {
        &&& post.buffer == pre.buffer
        &&& post.running == pre.running
        &&& post.pending_after_save == pre.pending_after_save
        &&& match key {
            Key::Esc => r is None && post.overlay is Idle,
            Key::Up => r is None && (if saving {
                post.overlay matches Overlay::SaveAs { filename: rf, category_index: rk } && rf
                    == filename && rk as int == step_backward(
                    category_index as int,
                    pre.categories@.len() as int,
                )
            } else {
                post.overlay matches Overlay::NewFile { filename: rf, category_index: rk } && rf
                    == filename && rk as int == step_backward(
                    category_index as int,
                    pre.categories@.len() as int,
                )
            }),
            Key::Down => r is None && (if saving {
                post.overlay matches Overlay::SaveAs { filename: rf, category_index: rk } && rf
                    == filename && rk as int == step_forward(
                    category_index as int,
                    pre.categories@.len() as int,
                )
            } else {
                post.overlay matches Overlay::NewFile { filename: rf, category_index: rk } && rf
                    == filename && rk as int == step_forward(
                    category_index as int,
                    pre.categories@.len() as int,
                )
            }),
            Key::Backspace => r is None && (if saving {
                post.overlay matches Overlay::SaveAs { filename: rf, category_index: rk } && rf@
                    == (if filename@.len() > 0 {
                    filename@.drop_last()
                } else {
                    filename@
                }) && rk == category_index
            } else {
                post.overlay matches Overlay::NewFile { filename: rf, category_index: rk } && rf@
                    == (if filename@.len() > 0 {
                    filename@.drop_last()
                } else {
                    filename@
                }) && rk == category_index
            }),
            Key::Enter { .. } => {
                if trim_spec(filename@).len() == 0 {
                    r is None && (post.overlay matches Overlay::Error { message } && message@
                        == "File name cannot be empty"@)
                } else {
                    let final_name = if has_txt_ext(trim_spec(filename@)) {
                        trim_spec(filename@)
                    } else {
                        trim_spec(filename@) + ".txt"@
                    };
                    let full = pre.notes_root@ + "/"@ + pre.categories@[category_index as int]@
                        + "/"@ + final_name;
                    post.overlay is Idle && (if saving {
                        r matches Some(IoRequest::Persist { path, then }) && path@ == full && then
                            is ConsumeStored
                    } else {
                        r matches Some(IoRequest::CreateFile { path }) && path@ == full
                    })
                }
            },
            _ => match Self::name_input_char(key) {
                Some(c) => r is None && (if saving {
                    post.overlay matches Overlay::SaveAs { filename: rf, category_index: rk }
                        && rf@ == filename@.push(c) && rk == category_index
                } else {
                    post.overlay matches Overlay::NewFile { filename: rf, category_index: rk }
                        && rf@ == filename@.push(c) && rk == category_index
                }),
                None => r is None && (if saving {
                    post.overlay matches Overlay::SaveAs { filename: rf, category_index: rk } && rf
                        == filename && rk == category_index
                } else {
                    post.overlay matches Overlay::NewFile { filename: rf, category_index: rk }
                        && rf == filename && rk == category_index
                }),
            },
        }
    }

    /// Shared key handling of the save-as and new-file pickers.
    fn picker_key(
        &mut self,
        key: Key,
        filename: String,
        category_index: usize,
        saving: bool,
    ) -> (r: Option<IoRequest>)
        requires
            old(self).wf(),
            old(self).overlay is Idle,
            old(self).categories@.len() > 0,
            (category_index as int) < old(self).categories@.len(),
        ensures
            final (self).wf(),
            final (self).buffer.readonly == old(self).buffer.readonly,
            final (self).running == old(self).running,
            Self::picker_outcome(*old(self), *final (self), key, filename, category_index, saving, r),
    {
        let mut filename = filename;
        match key {
            Key::Esc => None,
            Key::Up => {
                let n = self.categories.len();
                let k2 = if category_index == 0 {
                    n - 1
                } else {
                    category_index - 1
                };
                self.overlay = if saving {
                    Overlay::SaveAs { filename, category_index: k2 }
                } else {
                    Overlay::NewFile { filename, category_index: k2 }
                };
                None
            },
            Key::Down => {
                let n = self.categories.len();
                let k2 = if category_index + 1 >= n {
                    0
                } else {
                    category_index + 1
                };
                self.overlay = if saving {
                    Overlay::SaveAs { filename, category_index: k2 }
                } else {
                    Overlay::NewFile { filename, category_index: k2 }
                };
                None
            },
            Key::Backspace => {
                string_pop(&mut filename);
                self.overlay = if saving {
                    Overlay::SaveAs { filename, category_index }
                } else {
                    Overlay::NewFile { filename, category_index }
                };
                None
            },
            Key::Enter { .. } => {
                let trimmed = trim(filename.as_str());
                if trimmed.unicode_len() == 0 {
                    self.open_error(String::from_str("File name cannot be empty"));
                    return None;
                }
                let final_name = ensure_txt_ext(trimmed.as_str());
                let dir = join_path(self.notes_root.as_str(), self.categories[category_index].as_str());
                let full = join_path(dir.as_str(), final_name.as_str());
                proof {
                    assert(full@ == self.notes_root@ + "/"@
                        + self.categories@[category_index as int]@ + "/"@ + final_name@);
                }
                if saving {
                    Some(IoRequest::Persist { path: full, then: AfterPersist::ConsumeStored })
                } else {
                    Some(IoRequest::CreateFile { path: full })
                }
            },
            Key::Char { c, ctrl, alt, .. } => {
                if !ctrl && !alt && c != '/' && c != '\\' {
                    string_push(&mut filename, c);
                }
                self.overlay = if saving {
                    Overlay::SaveAs { filename, category_index }
                } else {
                    Overlay::NewFile { filename, category_index }
                };
                None
            },
            _ => {
                self.overlay = if saving {
                    Overlay::SaveAs { filename, category_index }
                } else {
                    Overlay::NewFile { filename, category_index }
                };
                None
            },
        }
    }

    /// The key hint for the status line.
    pub fn status_hint(&self) -> (r: String)
        ensures
            r@ == (if self.file_tree.focus {
                "TREE: Up/Down select | Enter open | N new | C category | Del delete | Esc back"@
            } else if self.buffer.readonly {
                "Ctrl+O Tree | Ctrl+Q Quit | Ctrl+F Search | F1 Help"@
            } else {
                "Ctrl+N New | Ctrl+O Tree | Ctrl+S Save | Ctrl+Shift+S SaveAs | Ctrl+Q Quit"@
            }),
    {
        if self.file_tree.focus {
            String::from_str(
                "TREE: Up/Down select | Enter open | N new | C category | Del delete | Esc back",
            )
        } else if self.buffer.readonly {
            String::from_str("Ctrl+O Tree | Ctrl+Q Quit | Ctrl+F Search | F1 Help")
        } else {
            String::from_str("Ctrl+N New | Ctrl+O Tree | Ctrl+S Save | Ctrl+Shift+S SaveAs | Ctrl+Q Quit")
        }
    }
}

} // verus!
