use dopepad::buffer::TextBuffer;

#[test]
fn insert_and_backspace_work() {
    let mut b = TextBuffer::new(None, false);
    b.insert_char('A');
    b.insert_char('ç');
    b.backspace();
    assert_eq!(b.as_string(), "A");
    assert_eq!(b.cursor.col, 1);
}

#[test]
fn inserted_chars_keep_active_color() {
    let mut b = TextBuffer::new(None, false);
    b.set_active_color(Some(3));
    b.insert_char('a');
    b.insert_char('b');
    assert_eq!(b.char_color(0), Some(3));
    assert_eq!(b.char_color(1), Some(3));
}

#[test]
fn color_map_shifts_after_insert_and_remove() {
    let mut b = TextBuffer::from_text("ab".into(), None, false);
    b.move_right();
    b.set_current_char_color(Some(5));
    assert_eq!(b.char_color(1), Some(5));

    b.move_home();
    b.insert_char('x');
    assert_eq!(b.char_color(2), Some(5));

    b.delete();
    assert_eq!(b.char_color(1), Some(5));
}

#[test]
fn stress_insertions_keep_valid_text() {
    let mut b = TextBuffer::new(None, false);
    for _ in 0..20000 {
        b.insert_char('x');
    }
    b.insert_newline();
    for _ in 0..10000 {
        b.insert_char('y');
    }
    assert!(b.as_string().contains('\n'));
    assert_eq!(b.line_count(), 2);
    assert_eq!(b.line_len_chars(0), 20000);
}

#[test]
fn cursor_stays_inside_text_and_viewport() {
    // exercise a mixed run of edits and moves; afterwards the cursor names a
    // real position and lies inside the viewport, as the engine's invariant
    // promises
    let mut b = TextBuffer::from_text("one\ntwo\nthree".into(), None, false);
    b.set_viewport_size(4, 2);
    b.move_down();
    b.move_down();
    b.move_end();
    b.insert_char('!');
    b.move_up();
    b.backspace();
    b.page_down();
    b.page_up();
    let line = b.cursor.line;
    let col = b.cursor.col;
    assert!(line < b.line_count());
    assert!(col <= b.line_len_chars(line));
    let v = b.viewport;
    assert!(v.top_line <= line && line <= v.top_line + (v.height as usize) - 1);
    assert!(v.left_col <= col && col <= v.left_col + (v.width as usize) - 1);
}

#[test]
fn vertical_moves_restore_preferred_column() {
    let mut b = TextBuffer::from_text("abcdef\nxy\nabcdef".into(), None, false);
    b.move_end();
    assert_eq!(b.cursor.col, 6);
    b.move_down();
    assert_eq!(b.cursor.col, 2); // clamped on the short line
    b.move_down();
    assert_eq!(b.cursor.col, 6); // restored on the long line
}

#[test]
fn horizontal_moves_wrap_at_line_ends() {
    let mut b = TextBuffer::from_text("ab\ncd".into(), None, false);
    b.move_end();
    b.move_right();
    assert_eq!((b.cursor.line, b.cursor.col), (1, 0));
    b.move_left();
    assert_eq!((b.cursor.line, b.cursor.col), (0, 2));
}

#[test]
fn backspace_at_line_start_merges_lines() {
    let mut b = TextBuffer::from_text("ab\ncd".into(), None, false);
    b.move_down();
    b.move_home();
    b.backspace();
    assert_eq!(b.as_string(), "abcd");
    assert_eq!((b.cursor.line, b.cursor.col), (0, 2));
}

#[test]
fn delete_at_line_end_merges_lines() {
    let mut b = TextBuffer::from_text("ab\ncd".into(), None, false);
    b.move_end();
    b.delete();
    assert_eq!(b.as_string(), "abcd");
}

#[test]
fn readonly_document_ignores_mutation() {
    let mut b = TextBuffer::from_text("ab".into(), None, true);
    b.insert_char('x');
    b.insert_newline();
    b.backspace();
    b.delete();
    assert_eq!(b.as_string(), "ab");
    assert!(!b.dirty);
}

#[test]
fn goto_line_is_one_based_and_clamped() {
    let mut b = TextBuffer::from_text("a\nb\nc".into(), None, false);
    b.goto_line(2);
    assert_eq!(b.cursor.line, 1);
    b.goto_line(0);
    assert_eq!(b.cursor.line, 0);
    b.goto_line(99);
    assert_eq!(b.cursor.line, 2);
}

#[test]
fn find_matches_is_case_insensitive_and_ascending() {
    let b = TextBuffer::from_text("Apple\nbanana\nAPPLE pie\ncherry".into(), None, false);
    assert_eq!(b.find_matches(""), Vec::<usize>::new());
    assert_eq!(b.find_matches("apple"), vec![0, 2]);
    assert_eq!(b.find_matches("APPLE"), vec![0, 2]);
    assert_eq!(b.find_matches("an"), vec![1]);
    assert_eq!(b.find_matches("zzz"), Vec::<usize>::new());
}

#[test]
fn current_char_color_prefers_explicit_color() {
    let mut b = TextBuffer::from_text("ab".into(), None, false);
    b.set_current_char_color(Some(4));
    b.set_active_color(Some(7));
    // the explicit color on the character wins over the active color
    assert_eq!(b.current_char_color(), Some(4));
    b.move_right();
    // no explicit color here: the active color shows as a typing preview
    assert_eq!(b.current_char_color(), Some(7));
}

#[test]
fn clearing_color_removes_entry() {
    let mut b = TextBuffer::from_text("ab".into(), None, false);
    b.set_current_char_color(Some(4));
    assert_eq!(b.char_color(0), Some(4));
    b.set_current_char_color(None);
    assert_eq!(b.char_color(0), None);
}

#[test]
fn newline_characters_are_never_colored() {
    let mut b = TextBuffer::from_text("a\nb".into(), None, false);
    b.move_end();
    // the cursor sits on the line break: no color is recorded for it
    b.set_current_char_color(Some(2));
    assert_eq!(b.char_color(1), None);
}

#[test]
fn set_char_colors_drops_invalid_entries() {
    let mut b = TextBuffer::from_text("a\nb".into(), None, false);
    // offset 1 is the line break, offset 9 is past the end: both dropped
    b.set_char_colors(vec![(0, 3), (1, 4), (2, 5), (9, 6)]);
    assert_eq!(b.char_color(0), Some(3));
    assert_eq!(b.char_color(1), None);
    assert_eq!(b.char_color(2), Some(5));
    assert_eq!(b.char_color(9), None);
}

#[test]
fn set_text_resets_state() {
    let mut b = TextBuffer::from_text("ab".into(), None, false);
    b.move_right();
    b.set_current_char_color(Some(5));
    b.set_text_from_string("xyz".into());
    assert_eq!(b.as_string(), "xyz");
    assert_eq!((b.cursor.line, b.cursor.col), (0, 0));
    assert_eq!(b.char_color(0), None);
    assert_eq!(b.active_color(), None);
    assert!(!b.dirty);
}

#[test]
fn color_survives_interleaved_edits() {
    // color a character, then batter the document around it; the color stays
    // on the same character, tracked by value
    let mut b = TextBuffer::from_text("hello".into(), None, false);
    b.move_right();
    b.move_right();
    b.set_current_char_color(Some(8)); // colors the 'l' at offset 2
    b.set_active_color(None); // newly typed text inherits nothing
    b.move_home();
    b.insert_char('x');
    b.insert_char('y'); // 'l' now at offset 4
    assert_eq!(b.char_color(4), Some(8));
    b.delete(); // the cursor sits at column 2: removes the 'h'
    b.move_home();
    b.delete(); // remove 'x'
    let text = b.as_string();
    // find the colored offset and check it still holds an 'l'
    let colored: Vec<usize> = (0..text.chars().count())
        .filter(|i| b.char_color(*i) == Some(8))
        .collect();
    assert_eq!(colored.len(), 1);
    assert_eq!(text.chars().nth(colored[0]), Some('l'));
}

#[test]
fn viewport_rederivation_is_idempotent() {
    let text = (0..40).map(|i| format!("line{i}")).collect::<Vec<_>>().join("\n");
    let mut b = TextBuffer::from_text(text, None, false);
    b.set_viewport_size(10, 5);
    b.goto_line(30);
    let cursor = b.cursor;
    let viewport = b.viewport;
    b.ensure_cursor_visible();
    assert_eq!(b.cursor, cursor);
    assert_eq!(b.viewport, viewport);
}
