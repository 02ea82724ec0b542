//! The abstract editing model: single-character insertions and deletions,
//! their effect on the text and on the color annotation, and the law that a
//! color explicitly set on a character stays attached to that character —
//! tracked by value, not by offset — through any interleaving of edits it
//! survives.
use crate::buffer::{backspaced_state, deleted_state, inserted_state, newline_state, TextBuffer};
use crate::colors::{shift_down_map, shift_up_map, ColorId};
use crate::text::pos_offset;
use vstd::prelude::*;

verus! {

/// One atomic edit of the document text.
pub enum TextEdit {
    /// Insert `ch` at offset `at`; a color, if given, is recorded for it.
    Insert { at: int, ch: char, color: Option<ColorId> },
    /// Remove the character at offset `at`.
    Remove { at: int },
}

pub open spec fn edit_valid(s: Seq<char>, e: TextEdit) -> bool {
    match e {
        TextEdit::Insert { at, .. } => 0 <= at <= s.len(),
        TextEdit::Remove { at } => 0 <= at < s.len(),
    }
}

pub open spec fn apply_edit_text(s: Seq<char>, e: TextEdit) -> Seq<char> {
    match e {
        TextEdit::Insert { at, ch, .. } => s.insert(at, ch),
        TextEdit::Remove { at } => s.remove(at),
    }
}

pub open spec fn apply_edit_colors(m: Map<int, ColorId>, e: TextEdit) -> Map<int, ColorId> {
    match e {
        TextEdit::Insert { at, color, .. } => {
            let shifted = shift_up_map(m, at, 1);
            match color {
                Some(c) => shifted.insert(at, c),
                None => shifted,
            }
        },
        TextEdit::Remove { at } => shift_down_map(m, at, 1),
    }
}

/// Where the character previously at `off` sits after the edit.
pub open spec fn track_offset(off: int, e: TextEdit) -> int {
    match e {
        TextEdit::Insert { at, .. } => if off < at {
            off
        } else {
            off + 1
        },
        TextEdit::Remove { at } => if off < at {
            off
        } else {
            off - 1
        },
    }
}

/// Whether the character at `off` outlives the edit.
pub open spec fn edit_spares(off: int, e: TextEdit) -> bool {
    match e {
        TextEdit::Insert { .. } => true,
        TextEdit::Remove { at } => off != at,
    }
}

pub open spec fn edits_valid(s: Seq<char>, es: Seq<TextEdit>) -> bool
    decreases es.len(),
{
    es.len() == 0 || (edit_valid(s, es[0]) && edits_valid(apply_edit_text(s, es[0]), es.skip(1)))
}

pub open spec fn apply_edits_text(s: Seq<char>, es: Seq<TextEdit>) -> Seq<char>
    decreases es.len(),
{
    if es.len() == 0 {
        s
    } else {
        apply_edits_text(apply_edit_text(s, es[0]), es.skip(1))
    }
}

pub open spec fn apply_edits_colors(m: Map<int, ColorId>, es: Seq<TextEdit>) -> Map<int, ColorId>
    decreases es.len(),
{
    if es.len() == 0 {
        m
    } else {
        apply_edits_colors(apply_edit_colors(m, es[0]), es.skip(1))
    }
}

pub open spec fn track_offsets(off: int, es: Seq<TextEdit>) -> int
    decreases es.len(),
{
    if es.len() == 0 {
        off
    } else {
        track_offsets(track_offset(off, es[0]), es.skip(1))
    }
}

pub open spec fn edits_spare(off: int, es: Seq<TextEdit>) -> bool
    decreases es.len(),
{
    es.len() == 0 || (edit_spares(off, es[0]) && edits_spare(track_offset(off, es[0]), es.skip(1)))
}

/// One edit keeps a surviving colored character attached to its color: at the
/// tracked offset the new text holds the same character and the new
/// annotation the same color.
pub proof fn lemma_attachment_step(s: Seq<char>, m: Map<int, ColorId>, e: TextEdit, k: int)
    requires
        edit_valid(s, e),
        m.dom().contains(k),
        0 <= k < s.len(),
        edit_spares(k, e),
    ensures
        ({
            let k2 = track_offset(k, e);
            &&& 0 <= k2 < apply_edit_text(s, e).len()
            &&& apply_edit_colors(m, e).dom().contains(k2)
            &&& apply_edit_colors(m, e)[k2] == m[k]
            &&& apply_edit_text(s, e)[k2] == s[k]
        }),
{
    match e {
        TextEdit::Insert { at, ch, .. } => {
            s.insert_ensures(at, ch);
        },
        TextEdit::Remove { at } => {
            s.remove_ensures(at);
        },
    }
}

/// For any interleaving of insertions and deletions, a color explicitly
/// present on a character that survives them all remains attached to that
/// same character: at the tracked offset, the final text holds the original
/// character and the final annotation holds the original color.
pub proof fn lemma_color_attachment(s: Seq<char>, m: Map<int, ColorId>, es: Seq<TextEdit>, k: int)
    requires
        edits_valid(s, es),
        m.dom().contains(k),
        0 <= k < s.len(),
        edits_spare(k, es),
    ensures
        ({
            let k2 = track_offsets(k, es);
            &&& 0 <= k2 < apply_edits_text(s, es).len()
            &&& apply_edits_colors(m, es).dom().contains(k2)
            &&& apply_edits_colors(m, es)[k2] == m[k]
            &&& apply_edits_text(s, es)[k2] == s[k]
        }),
    decreases es.len(),
{
    if es.len() > 0 {
        lemma_attachment_step(s, m, es[0], k);
        lemma_color_attachment(
            apply_edit_text(s, es[0]),
            apply_edit_colors(m, es[0]),
            es.skip(1),
            track_offset(k, es[0]),
        );
    }
}

/// The document engine's character insertion is an instance of the abstract
/// edit model, on both the text and the annotation.
pub proof fn lemma_insert_char_is_edit(pre: TextBuffer, post: TextBuffer, c: char)
    requires
        inserted_state(pre, post, c),
    ensures
        ({
            let idx = pos_offset(pre.content(), pre.cursor.line as int, pre.cursor.col as int);
            let e = TextEdit::Insert {
                at: idx,
                ch: c,
                color: if c != '\n' {
                    pre.active_color
                } else {
                    None
                },
            };
            post.content() == apply_edit_text(pre.content(), e) && post.colors()
                == apply_edit_colors(pre.colors(), e)
        }),
{
}

/// The document engine's line-break insertion is an instance of the
/// abstract edit model; a break never carries a color.
pub proof fn lemma_insert_newline_is_edit(pre: TextBuffer, post: TextBuffer)
    requires
        newline_state(pre, post),
    ensures
        ({
            let idx = pos_offset(pre.content(), pre.cursor.line as int, pre.cursor.col as int);
            let e = TextEdit::Insert { at: idx, ch: '\n', color: None };
            post.content() == apply_edit_text(pre.content(), e) && post.colors()
                == apply_edit_colors(pre.colors(), e)
        }),
{
}

/// The document engine's forward delete (when it removes something) is an
/// instance of the abstract edit model.
pub proof fn lemma_delete_is_edit(pre: TextBuffer, post: TextBuffer)
    requires
        deleted_state(pre, post),
        pos_offset(pre.content(), pre.cursor.line as int, pre.cursor.col as int)
            < pre.content().len(),
    ensures
        ({
            let idx = pos_offset(pre.content(), pre.cursor.line as int, pre.cursor.col as int);
            let e = TextEdit::Remove { at: idx };
            post.content() == apply_edit_text(pre.content(), e) && post.colors()
                == apply_edit_colors(pre.colors(), e)
        }),
{
}

/// The document engine's backspace (when it removes something) is an
/// instance of the abstract edit model.
pub proof fn lemma_backspace_is_edit(pre: TextBuffer, post: TextBuffer)
    requires
        backspaced_state(pre, post),
        pre.cursor.col > 0 || pre.cursor.line > 0,
    ensures
        ({
            let idx = pos_offset(pre.content(), pre.cursor.line as int, pre.cursor.col as int);
            let e = TextEdit::Remove { at: idx - 1 };
            post.content() == apply_edit_text(pre.content(), e) && post.colors()
                == apply_edit_colors(pre.colors(), e)
        }),
{
}

} // verus!
