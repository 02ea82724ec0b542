use dopepad::app::{App, AppMode, CategoryListing, FileEntry};
use dopepad::buffer::TextBuffer;
use dopepad::command::{Command, Key};
use dopepad::overlay::{
    AfterPersist, ConfirmChoice, IoRequest, Overlay, PendingAction, PostCategoryAction,
};
use dopepad::command::map_key_event;
use dopepad::persist::EolStyle;

fn fresh_app() -> App {
    let buffer = TextBuffer::new(None, false);
    App::new(buffer, EolStyle::Lf, false, "/notes".to_string())
}

fn plain(c: char) -> Key {
    Key::Char { c, ctrl: false, alt: false, shift: false }
}

fn enter() -> Key {
    Key::Enter { shift: false }
}

fn listing(names: &[&str]) -> Vec<CategoryListing> {
    names
        .iter()
        .map(|n| CategoryListing { name: n.to_string(), files: Vec::new() })
        .collect()
}

#[test]
fn save_as_with_no_categories_detours_to_new_category() {
    // Scenario: zero categories; opening save-as routes into category
    // creation, and creating "Work" resumes into save-as with it selected
    let mut app = fresh_app();
    let chord = Key::Char { c: 'S', ctrl: true, alt: false, shift: true };
    let r = app.handle_key(chord);
    assert!(r.is_none());
    match &app.overlay {
        Overlay::NewCategory { name, next } => {
            assert_eq!(name.as_str(), "");
            assert!(matches!(next, PostCategoryAction::OpenSaveAs { .. }));
        },
        other => panic!("expected category detour, got {:?}", other),
    }
    for c in "Work".chars() {
        assert!(app.handle_key(plain(c)).is_none());
    }
    let req = app.handle_key(enter());
    let next = match req {
        Some(IoRequest::CreateCategory { name, next }) => {
            assert_eq!(name, "Work");
            next
        },
        other => panic!("expected a category request, got {:?}", other),
    };
    // the caller creates the directory, refreshes the listing, and reports
    app.apply_tree_listing(listing(&["Work"]));
    app.category_created(next);
    match &app.overlay {
        Overlay::SaveAs { filename, category_index } => {
            assert_eq!(filename.as_str(), "note.txt");
            assert_eq!(*category_index, 0);
            assert_eq!(app.categories[*category_index], "Work");
        },
        other => panic!("expected the save-as dialog, got {:?}", other),
    }
}

#[test]
fn quit_with_unsaved_changes_defers_through_save_as() {
    // Scenario: dirty document, quit requested; confirming with no known
    // path routes through save-as, and completing the save performs the quit
    let mut app = fresh_app();
    app.apply_tree_listing(listing(&["Work"]));
    app.apply_command(Command::Insert('a'));
    assert!(app.buffer.dirty);
    let r = app.apply_command(Command::Quit);
    assert!(r.is_none());
    assert!(app.running);
    match &app.overlay {
        Overlay::ConfirmUnsaved { pending, choice, .. } => {
            assert!(matches!(pending, PendingAction::Quit));
            assert_eq!(*choice, ConfirmChoice::Yes);
        },
        other => panic!("expected the unsaved-changes dialog, got {:?}", other),
    }
    // Enter commits the default Yes; with no path, save-as opens carrying
    // the deferred quit
    assert!(app.handle_key(enter()).is_none());
    match &app.overlay {
        Overlay::SaveAs { .. } => {},
        other => panic!("expected the save-as dialog, got {:?}", other),
    }
    assert!(matches!(app.pending_after_save, Some(PendingAction::Quit)));
    // commit the default name: the machine asks for the save
    let req = app.handle_key(enter());
    let (path, then) = match req {
        Some(IoRequest::Persist { path, then }) => (path, then),
        other => panic!("expected a save request, got {:?}", other),
    };
    assert_eq!(path, "/notes/Work/note.txt");
    assert!(matches!(then, AfterPersist::ConsumeStored));
    // the save succeeds: the deferred quit runs
    let after = app.persist_ok(path, then);
    assert!(after.is_none());
    assert!(!app.running);
    assert!(!app.buffer.dirty);
}

#[test]
fn confirm_unsaved_no_discards_and_proceeds() {
    let mut app = fresh_app();
    app.apply_command(Command::Insert('a'));
    app.apply_command(Command::Quit);
    // choose No, then commit: the quit proceeds without saving
    assert!(app.handle_key(plain('n')).is_none());
    match &app.overlay {
        Overlay::ConfirmUnsaved { choice, .. } => assert_eq!(*choice, ConfirmChoice::No),
        other => panic!("expected the unsaved-changes dialog, got {:?}", other),
    }
    assert!(app.handle_key(enter()).is_none());
    assert!(!app.running);
    assert!(app.buffer.dirty);
}

#[test]
fn search_enter_cycles_with_wraparound() {
    let buffer = TextBuffer::from_text("apple\nx\napple\nx\napple".into(), None, false);
    let mut app = App::new(buffer, EolStyle::Lf, false, "/notes".to_string());
    app.apply_command(Command::OpenSearch);
    for c in "apple".chars() {
        app.handle_key(plain(c));
    }
    let lines = |app: &App| match &app.overlay {
        Overlay::Search { state, .. } => (state.matches.clone(), state.current),
        other => panic!("expected the search overlay, got {:?}", other),
    };
    let (matches, current) = lines(&app);
    assert_eq!(matches, vec![0, 2, 4]);
    assert_eq!(current, Some(0));
    assert_eq!(app.buffer.cursor.line, 0);
    // forward through all matches and back to the first
    app.handle_key(enter());
    assert_eq!(lines(&app).1, Some(1));
    assert_eq!(app.buffer.cursor.line, 2);
    app.handle_key(enter());
    assert_eq!(lines(&app).1, Some(2));
    assert_eq!(app.buffer.cursor.line, 4);
    app.handle_key(enter());
    assert_eq!(lines(&app).1, Some(0));
    assert_eq!(app.buffer.cursor.line, 0);
    // backward wraps to the last
    app.handle_key(Key::Enter { shift: true });
    assert_eq!(lines(&app).1, Some(2));
    assert_eq!(app.buffer.cursor.line, 4);
}

#[test]
fn goto_overlay_parses_and_jumps() {
    let buffer = TextBuffer::from_text("a\nb\nc\nd".into(), None, false);
    let mut app = App::new(buffer, EolStyle::Lf, false, "/notes".to_string());
    app.apply_command(Command::OpenGoto);
    app.handle_key(plain('3'));
    app.handle_key(enter());
    assert!(matches!(app.overlay, Overlay::Idle));
    assert_eq!(app.buffer.cursor.line, 2);
}

#[test]
fn goto_overlay_ignores_unparseable_input() {
    let buffer = TextBuffer::from_text("a\nb".into(), None, false);
    let mut app = App::new(buffer, EolStyle::Lf, false, "/notes".to_string());
    app.apply_command(Command::OpenGoto);
    app.handle_key(plain('x')); // not a digit: not accumulated
    app.handle_key(enter()); // empty input: silently ignored, overlay closes
    assert!(matches!(app.overlay, Overlay::Idle));
    assert_eq!(app.buffer.cursor.line, 0);
}

#[test]
fn empty_file_name_is_rejected() {
    let mut app = fresh_app();
    app.apply_tree_listing(listing(&["Work"]));
    app.handle_key(Key::Char { c: 's', ctrl: true, alt: false, shift: true });
    // erase the suggested name, then commit: an error replaces the dialog
    for _ in 0.."note.txt".len() {
        app.handle_key(Key::Backspace);
    }
    app.handle_key(plain(' '));
    let r = app.handle_key(enter());
    assert!(r.is_none());
    match &app.overlay {
        Overlay::Error { message } => assert_eq!(message.as_str(), "File name cannot be empty"),
        other => panic!("expected an error, got {:?}", other),
    }
}

#[test]
fn empty_category_name_is_rejected() {
    let mut app = fresh_app();
    app.handle_key(Key::Char { c: 's', ctrl: true, alt: false, shift: true });
    let r = app.handle_key(enter());
    assert!(r.is_none());
    match &app.overlay {
        Overlay::Error { message } => assert_eq!(message.as_str(), "Category name cannot be empty"),
        other => panic!("expected an error, got {:?}", other),
    }
}

#[test]
fn category_name_is_trimmed() {
    let mut app = fresh_app();
    app.handle_key(Key::Char { c: 's', ctrl: true, alt: false, shift: true });
    for c in "  Work  ".chars() {
        app.handle_key(plain(c));
    }
    match app.handle_key(enter()) {
        Some(IoRequest::CreateCategory { name, .. }) => assert_eq!(name, "Work"),
        other => panic!("expected a category request, got {:?}", other),
    }
}

#[test]
fn file_name_gets_txt_extension() {
    let mut app = fresh_app();
    app.apply_tree_listing(listing(&["Work"]));
    app.handle_key(Key::Char { c: 's', ctrl: true, alt: false, shift: true });
    for _ in 0.."note.txt".len() {
        app.handle_key(Key::Backspace);
    }
    for c in "memo".chars() {
        app.handle_key(plain(c));
    }
    match app.handle_key(enter()) {
        Some(IoRequest::Persist { path, .. }) => assert_eq!(path, "/notes/Work/memo.txt"),
        other => panic!("expected a save request, got {:?}", other),
    }
}

#[test]
fn readonly_save_shows_error() {
    let buffer = TextBuffer::new(None, true);
    let mut app = App::new(buffer, EolStyle::Lf, false, "/notes".to_string());
    assert_eq!(app.mode, AppMode::ReadOnly);
    let r = app.apply_command(Command::Save);
    assert!(r.is_none());
    match &app.overlay {
        Overlay::Error { message } => assert_eq!(message.as_str(), "Readonly mode: save disabled"),
        other => panic!("expected an error, got {:?}", other),
    }
}

#[test]
fn save_with_known_path_requests_persist() {
    let mut app = fresh_app();
    app.buffer.path = Some("/notes/Work/a.txt".to_string());
    app.apply_command(Command::Insert('x'));
    match app.apply_command(Command::Save) {
        Some(IoRequest::Persist { path, then }) => {
            assert_eq!(path, "/notes/Work/a.txt");
            assert!(matches!(then, AfterPersist::Nothing));
        },
        other => panic!("expected a save request, got {:?}", other),
    }
}

#[test]
fn save_failure_reports_and_keeps_state() {
    let mut app = fresh_app();
    app.apply_command(Command::Insert('x'));
    app.persist_failed("disk full".to_string());
    match &app.overlay {
        Overlay::Error { message } => assert_eq!(message.as_str(), "Save failed: disk full"),
        other => panic!("expected an error, got {:?}", other),
    }
    assert!(app.buffer.dirty);
    assert_eq!(app.buffer.as_string(), "x");
}

#[test]
fn delete_confirmation_flows_to_request() {
    let mut app = fresh_app();
    let mut work = listing(&["Work"]);
    work[0].files.push(FileEntry {
        name: "a.txt".to_string(),
        path: "/notes/Work/a.txt".to_string(),
    });
    app.apply_tree_listing(work);
    app.file_tree.focus = true;
    // 'd' on the selected file asks first, defaulting to No
    assert!(app.handle_key(plain('d')).is_none());
    match &app.overlay {
        Overlay::ConfirmDelete { path, choice, .. } => {
            assert_eq!(path.as_str(), "/notes/Work/a.txt");
            assert_eq!(*choice, ConfirmChoice::No);
        },
        other => panic!("expected the delete dialog, got {:?}", other),
    }
    // choose Yes and commit
    assert!(app.handle_key(plain('y')).is_none());
    match app.handle_key(enter()) {
        Some(IoRequest::DeleteFile { path }) => assert_eq!(path, "/notes/Work/a.txt"),
        other => panic!("expected a delete request, got {:?}", other),
    }
}

#[test]
fn deleting_open_document_replaces_it() {
    let mut app = fresh_app();
    app.opened(
        "/notes/Work/a.txt".to_string(),
        "hello".to_string(),
        EolStyle::Lf,
        Vec::new(),
    );
    assert_eq!(app.buffer.as_string(), "hello");
    app.delete_done("/notes/Work/a.txt".to_string());
    assert_eq!(app.buffer.as_string(), "");
    assert!(app.buffer.path.is_none());
    assert!(app.file_tree.focus);
}

#[test]
fn opened_document_carries_sidecar_colors() {
    let mut app = fresh_app();
    app.opened(
        "/notes/Work/a.txt".to_string(),
        "ab\ncd".to_string(),
        EolStyle::Crlf,
        vec![(0, 2), (3, 7)],
    );
    assert_eq!(app.eol, EolStyle::Crlf);
    assert_eq!(app.buffer.char_color(0), Some(2));
    assert_eq!(app.buffer.char_color(3), Some(7));
    assert_eq!(app.buffer.char_color(2), None);
}

#[test]
fn tree_selection_wraps_over_file_rows() {
    let mut app = fresh_app();
    let mut work = listing(&["Work"]);
    work[0].files.push(FileEntry { name: "a.txt".into(), path: "/notes/Work/a.txt".into() });
    work[0].files.push(FileEntry { name: "b.txt".into(), path: "/notes/Work/b.txt".into() });
    app.apply_tree_listing(work);
    app.file_tree.focus = true;
    // rows: [Work], a.txt, b.txt; the first file is selected
    assert_eq!(app.file_tree.selected, 1);
    app.handle_key(Key::Down);
    assert_eq!(app.file_tree.selected, 2);
    app.handle_key(Key::Down); // wraps past the header back to the first file
    assert_eq!(app.file_tree.selected, 1);
    app.handle_key(Key::Up);
    assert_eq!(app.file_tree.selected, 2);
}

#[test]
fn help_overlay_dismisses_on_escape_or_enter() {
    let mut app = fresh_app();
    app.apply_command(Command::OpenHelp);
    assert!(matches!(app.overlay, Overlay::Help));
    app.handle_key(plain('x')); // ignored
    assert!(matches!(app.overlay, Overlay::Help));
    app.handle_key(Key::Esc);
    assert!(matches!(app.overlay, Overlay::Idle));
}

#[test]
fn readonly_mode_blocks_styling_and_file_changes() {
    let buffer = TextBuffer::new(None, true);
    let mut app = App::new(buffer, EolStyle::Lf, false, "/notes".to_string());
    app.apply_command(Command::SetLineColor(3));
    match &app.overlay {
        Overlay::Error { message } => {
            assert_eq!(message.as_str(), "Readonly mode: cannot modify styles")
        },
        other => panic!("expected an error, got {:?}", other),
    }
    app.overlay = Overlay::Idle;
    app.file_tree.focus = true;
    app.handle_key(plain('n'));
    match &app.overlay {
        Overlay::Error { message } => {
            assert_eq!(message.as_str(), "Readonly mode: cannot create files")
        },
        other => panic!("expected an error, got {:?}", other),
    }
    app.overlay = Overlay::Idle;
    app.handle_key(plain('d'));
    match &app.overlay {
        Overlay::Error { message } => {
            assert_eq!(message.as_str(), "Readonly mode: cannot delete files")
        },
        other => panic!("expected an error, got {:?}", other),
    }
}

#[test]
fn failure_reports_carry_their_messages() {
    let mut app = fresh_app();
    app.file_create_failed("exists".to_string());
    match &app.overlay {
        Overlay::Error { message } => assert_eq!(message.as_str(), "File creation failed: exists"),
        other => panic!("expected an error, got {:?}", other),
    }
    app.category_create_failed("exists".to_string());
    match &app.overlay {
        Overlay::Error { message } => {
            assert_eq!(message.as_str(), "Category creation failed: exists")
        },
        other => panic!("expected an error, got {:?}", other),
    }
    app.delete_failed("gone".to_string());
    match &app.overlay {
        Overlay::Error { message } => assert_eq!(message.as_str(), "Delete failed: gone"),
        other => panic!("expected an error, got {:?}", other),
    }
    app.open_failed("gone".to_string());
    match &app.overlay {
        Overlay::Error { message } => assert_eq!(message.as_str(), "Failed to open file: gone"),
        other => panic!("expected an error, got {:?}", other),
    }
}

#[test]
fn map_key_event_routes_commands() {
    assert_eq!(
        map_key_event(Key::Char { c: 'q', ctrl: true, alt: false, shift: false }, false),
        Some(Command::Quit)
    );
    assert_eq!(map_key_event(Key::F(1), false), Some(Command::OpenHelp));
    assert_eq!(map_key_event(Key::F(3), false), Some(Command::SetLineColor(2)));
    assert_eq!(map_key_event(Key::F(10), false), Some(Command::ResetLineColor));
    assert_eq!(map_key_event(plain('a'), false), Some(Command::Insert('a')));
    assert_eq!(map_key_event(enter(), true), Some(Command::SearchNext));
    assert_eq!(map_key_event(Key::Enter { shift: true }, true), Some(Command::SearchPrev));
    assert_eq!(map_key_event(enter(), false), Some(Command::NewLine));
    assert_eq!(
        map_key_event(Key::Char { c: 'a', ctrl: true, alt: false, shift: false }, false),
        None
    );
}

#[test]
fn tree_selection_stays_put_without_files() {
    let mut app = fresh_app();
    app.apply_tree_listing(listing(&["Work"]));
    app.file_tree.focus = true;
    let before = app.file_tree.selected;
    app.handle_key(Key::Down);
    app.handle_key(Key::Up);
    assert_eq!(app.file_tree.selected, before);
}

#[test]
fn opening_the_tree_asks_for_a_fresh_listing() {
    let mut app = fresh_app();
    assert!(!app.file_tree.focus);
    match app.apply_command(Command::OpenFileTree) {
        Some(IoRequest::RefreshTree) => {},
        other => panic!("expected a listing request, got {:?}", other),
    }
    assert!(app.file_tree.focus);
}

#[test]
fn resize_computes_editor_pane() {
    let mut app = fresh_app();
    // wide terminal: a 68-column sidebar and a 2-cell border are carved off,
    // and one status row plus the editor border from the height
    app.update_viewport_from_size(120, 30);
    assert_eq!(app.buffer.viewport.width, 50);
    assert_eq!(app.buffer.viewport.height, 27);
    // narrow terminal: borders only
    app.update_viewport_from_size(80, 30);
    assert_eq!(app.buffer.viewport.width, 78);
    assert_eq!(app.buffer.viewport.height, 26);
    // degenerate sizes clamp to one cell
    app.update_viewport_from_size(1, 1);
    assert_eq!(app.buffer.viewport.width, 1);
    assert_eq!(app.buffer.viewport.height, 1);
}

#[test]
fn discarding_changes_still_opens_deferred_new_file_dialog() {
    let mut app = fresh_app();
    let mut cats = listing(&["Alpha", "Beta"]);
    cats[1].files.push(FileEntry {
        name: "b.txt".to_string(),
        path: "/notes/Beta/b.txt".to_string(),
    });
    app.apply_tree_listing(cats);
    app.apply_command(Command::Insert('x'));
    app.file_tree.focus = true;
    // 'n' on the selected file (category Beta) hits the unsaved guard
    assert!(app.handle_key(plain('n')).is_none());
    match &app.overlay {
        Overlay::ConfirmUnsaved { pending, .. } => {
            assert!(matches!(
                pending,
                PendingAction::OpenNewFileOverlay { preferred_category: Some(1) }
            ));
        },
        other => panic!("expected the unsaved-changes dialog, got {:?}", other),
    }
    // discard: the deferred dialog opens, on the remembered category
    app.handle_key(plain('n'));
    app.handle_key(enter());
    match &app.overlay {
        Overlay::NewFile { filename, category_index } => {
            assert_eq!(filename.as_str(), "new_note.txt");
            assert_eq!(*category_index, 1);
        },
        other => panic!("expected the new-file dialog, got {:?}", other),
    }
}
