//! The document engine: an editable text with cursor, scrollable viewport,
//! per-character color annotations and search. Every operation keeps the
//! engine well formed: the cursor addresses a real position of the text and
//! lies inside the viewport, and every color annotation points at a visible
//! (non-break) character of the current text.
use crate::colors::{shift_down_map, shift_up_map, ColorId, ColorIndex};
use crate::strutil::{lower_of, seq_contains_sub, str_contains, to_lower};
use crate::rope::{
    rope_char_at, rope_from_str, rope_insert_char, rope_len_chars, rope_len_lines,
    rope_line_to_char, rope_remove_char, rope_to_string, rope_chars,
};
use crate::text::{
    lemma_insert_break, lemma_insert_in_line, lemma_line_boundary, lemma_line_start_end,
    lemma_line_start_mono, lemma_newline_count_le_len, lemma_remove_break, lemma_remove_in_line,
    line_count, line_len, line_seq, line_start, newline_count, pos_offset,
};
use vstd::prelude::*;

verus! {

/// A position in the document: 0-based line and column.
#[derive(Clone, Copy, PartialEq, Eq, Debug)]
pub struct Cursor {
    pub line: usize,
    pub col: usize,
}

/// The visible window over the document.
#[derive(Clone, Copy, PartialEq, Eq, Debug)]
pub struct Viewport {
    pub top_line: usize,
    pub left_col: usize,
    pub width: u16,
    pub height: u16,
}

/// The cursor clamped into the bounds of the text `s`.
pub open spec fn visible_cursor(s: Seq<char>, c: Cursor) -> Cursor {
    let l: int = if (c.line as int) < line_count(s) {
        c.line as int
    } else {
        line_count(s) - 1
    };
    let co: int = if (c.col as int) <= line_len(s, l) {
        c.col as int
    } else {
        line_len(s, l)
    };
    Cursor { line: l as usize, col: co as usize }
}

/// Minimal scroll of one axis: the window start moves just enough to show
/// position `pos` in a window of `size` cells starting at `start`.
pub open spec fn fit_axis(start: int, size: int, pos: int) -> int {
    if pos < start {
        pos
    } else if pos > start + (size - 1) {
        pos - (size - 1)
    } else {
        start
    }
}

/// The viewport after the minimal scroll that shows the cursor.
pub open spec fn visible_viewport(v: Viewport, c: Cursor) -> Viewport {
    Viewport {
        top_line: fit_axis(v.top_line as int, v.height as int, c.line as int) as usize,
        left_col: fit_axis(v.left_col as int, v.width as int, c.col as int) as usize,
        width: v.width,
        height: v.height,
    }
}

/// Every color annotation points at a visible (non-break) character.
pub open spec fn colors_fit(s: Seq<char>, m: Map<int, ColorId>) -> bool {
    forall|k: int| #[trigger] m.dom().contains(k) ==> 0 <= k < s.len() && s[k] != '\n'
}

pub proof fn lemma_colors_fit_shift_up(s: Seq<char>, m: Map<int, ColorId>, at: int, ch: char)
    requires
        colors_fit(s, m),
        0 <= at <= s.len(),
    ensures
        colors_fit(s.insert(at, ch), shift_up_map(m, at, 1)),
{
    let t = s.insert(at, ch);
    s.insert_ensures(at, ch);
    assert forall|k: int| #[trigger]
        shift_up_map(m, at, 1).dom().contains(k) implies 0 <= k < t.len() && t[k] != '\n' by {
        if k < at {
            assert(m.dom().contains(k));
            assert(t[k] == s[k]);
        } else {
            assert(m.dom().contains(k - 1));
            assert(t[k] == s[k - 1]);
        }
    }
}

pub proof fn lemma_colors_fit_shift_down(s: Seq<char>, m: Map<int, ColorId>, at: int)
    requires
        colors_fit(s, m),
        0 <= at < s.len(),
    ensures
        colors_fit(s.remove(at), shift_down_map(m, at, 1)),
{
    let t = s.remove(at);
    s.remove_ensures(at);
    assert forall|k: int| #[trigger]
        shift_down_map(m, at, 1).dom().contains(k) implies 0 <= k < t.len() && t[k] != '\n' by {
        if k < at {
            assert(m.dom().contains(k));
            assert(t[k] == s[k]);
        } else {
            assert(m.dom().contains(k + 1));
            assert(t[k] == s[k + 1]);
        }
    }
}

/// The annotation a pair list loads over text `s`: pairs naming an offset
/// past the end or a line break are dropped, later pairs win.
pub open spec fn load_colors(s: Seq<char>, es: Seq<(usize, ColorId)>) -> Map<int, ColorId>
    decreases es.len(),
{
    if es.len() == 0 {
        Map::empty()
    } else {
        let m = load_colors(s, es.drop_last());
        let e = es.last();
        if (e.0 as int) < s.len() && s[e.0 as int] != '\n' {
            m.insert(e.0 as int, e.1)
        } else {
            m
        }
    }
}

/// Whether line `l` of `s` contains the query `q`, case insensitively.
pub open spec fn line_matches(s: Seq<char>, l: int, q: Seq<char>) -> bool {
    seq_contains_sub(lower_of(line_seq(s, l)), lower_of(q))
}

/// Re-deriving the cursor clamp and the minimal scroll is idempotent: a
/// second pass changes neither the cursor nor the viewport.
pub proof fn lemma_reestablish_idempotent(s: Seq<char>, c: Cursor, v: Viewport)
    requires
        v.width >= 1,
        v.height >= 1,
        s.len() <= usize::MAX,
    ensures
        ({
            let c1 = visible_cursor(s, c);
            let v1 = visible_viewport(v, c1);
            visible_cursor(s, c1) == c1 && visible_viewport(v1, c1) == v1
        }),
{
    lemma_newline_count_le_len(s);
    let l: int = if (c.line as int) < line_count(s) {
        c.line as int
    } else {
        line_count(s) - 1
    };
    lemma_line_boundary(s, l);
    let c1 = visible_cursor(s, c);
    assert(c1.line as int == l);
}

/// `b` leaves the document payload of `a` untouched: same text, colors,
/// active color, dirty and readonly flags, and path.
pub open spec fn same_doc(a: TextBuffer, b: TextBuffer) -> bool {
    b.rope == a.rope && b.char_colors == a.char_colors && b.active_color == a.active_color
        && b.dirty == a.dirty && b.readonly == a.readonly && b.path == a.path
}

/// `b` keeps the viewport dimensions of `a`.
pub open spec fn same_size(a: TextBuffer, b: TextBuffer) -> bool {
    b.viewport.width == a.viewport.width && b.viewport.height == a.viewport.height
}

/// The cursor after one step left (wrap to the end of the previous line).
pub open spec fn cursor_after_left(s: Seq<char>, c: Cursor) -> Cursor {
    if c.col > 0 {
        Cursor { line: c.line, col: (c.col - 1) as usize }
    } else if c.line > 0 {
        Cursor { line: (c.line - 1) as usize, col: line_len(s, c.line - 1) as usize }
    } else {
        c
    }
}

/// The cursor after one step right (wrap to the start of the next line).
pub open spec fn cursor_after_right(s: Seq<char>, c: Cursor) -> Cursor {
    if (c.col as int) < line_len(s, c.line as int) {
        Cursor { line: c.line, col: (c.col + 1) as usize }
    } else if (c.line as int) + 1 < line_count(s) {
        Cursor { line: (c.line + 1) as usize, col: 0 }
    } else {
        c
    }
}

/// The cursor after one line up, aiming at the preferred column.
pub open spec fn cursor_after_up(s: Seq<char>, c: Cursor, pref: int) -> Cursor {
    if c.line > 0 {
        let ll = line_len(s, c.line - 1);
        Cursor {
            line: (c.line - 1) as usize,
            col: (if pref <= ll {
                pref
            } else {
                ll
            }) as usize,
        }
    } else {
        c
    }
}

/// The cursor after one line down, aiming at the preferred column.
pub open spec fn cursor_after_down(s: Seq<char>, c: Cursor, pref: int) -> Cursor {
    if (c.line as int) + 1 < line_count(s) {
        let ll = line_len(s, c.line + 1);
        Cursor {
            line: (c.line + 1) as usize,
            col: (if pref <= ll {
                pref
            } else {
                ll
            }) as usize,
        }
    } else {
        c
    }
}

/// The cursor after jumping to the end of its line.
pub open spec fn cursor_after_end(s: Seq<char>, c: Cursor) -> Cursor {
    Cursor { line: c.line, col: line_len(s, c.line as int) as usize }
}

/// The cursor after one window height up, aiming at the preferred column.
pub open spec fn cursor_after_page_up(s: Seq<char>, c: Cursor, pref: int, height: int) -> Cursor {
    let amount = height - 1;
    let l: int = if c.line >= amount {
        c.line - amount
    } else {
        0
    };
    let ll = line_len(s, l);
    Cursor {
        line: l as usize,
        col: (if pref <= ll {
            pref
        } else {
            ll
        }) as usize,
    }
}

/// The cursor after one window height down, aiming at the preferred column.
pub open spec fn cursor_after_page_down(s: Seq<char>, c: Cursor, pref: int, height: int) -> Cursor {
    let amount = height - 1;
    let l: int = if c.line + amount < line_count(s) - 1 {
        c.line + amount
    } else {
        line_count(s) - 1
    };
    let ll = line_len(s, l);
    Cursor {
        line: l as usize,
        col: (if pref <= ll {
            pref
        } else {
            ll
        }) as usize,
    }
}

/// The cursor after a 1-based go-to-line, clamped into the text.
pub open spec fn cursor_after_goto(s: Seq<char>, c: Cursor, line_1based: int) -> Cursor {
    let t0: int = if line_1based >= 1 {
        line_1based - 1
    } else {
        0
    };
    let l: int = if t0 < line_count(s) - 1 {
        t0
    } else {
        line_count(s) - 1
    };
    let ll = line_len(s, l);
    Cursor {
        line: l as usize,
        col: (if c.col <= ll {
            c.col as int
        } else {
            ll
        }) as usize,
    }
}

/// The document state after a character insertion at the cursor.
pub open spec fn inserted_state(pre: TextBuffer, post: TextBuffer, c: char) -> bool {
    let s = pre.content();
    let cur = pre.cursor;
    let idx = pos_offset(s, cur.line as int, cur.col as int);
    &&& post.content() == s.insert(idx, c)
    &&& post.colors() == (match pre.active_color {
        Some(cid) => if c != '\n' {
            shift_up_map(pre.colors(), idx, 1).insert(idx, cid)
        } else {
            shift_up_map(pre.colors(), idx, 1)
        },
        None => shift_up_map(pre.colors(), idx, 1),
    })
    &&& post.dirty
    &&& post.readonly == pre.readonly
    &&& post.path == pre.path
    &&& post.active_color == pre.active_color
    &&& same_size(pre, post)
    &&& post.cursor == (if c != '\n' {
        Cursor { line: cur.line, col: (cur.col + 1) as usize }
    } else {
        cur
    })
    &&& post.preferred_col == cur.col + 1
    &&& post.viewport == visible_viewport(pre.viewport, post.cursor)
}

/// The document state after a line break insertion at the cursor.
pub open spec fn newline_state(pre: TextBuffer, post: TextBuffer) -> bool {
    let s = pre.content();
    let cur = pre.cursor;
    let idx = pos_offset(s, cur.line as int, cur.col as int);
    &&& post.content() == s.insert(idx, '\n')
    &&& post.colors() == shift_up_map(pre.colors(), idx, 1)
    &&& post.dirty
    &&& post.readonly == pre.readonly
    &&& post.path == pre.path
    &&& post.active_color == pre.active_color
    &&& same_size(pre, post)
    &&& post.cursor == (Cursor { line: (cur.line + 1) as usize, col: 0 })
    &&& post.preferred_col == 0
    &&& post.viewport == visible_viewport(pre.viewport, post.cursor)
}

/// The document state after a backspace at the cursor.
pub open spec fn backspaced_state(pre: TextBuffer, post: TextBuffer) -> bool {
    let s = pre.content();
    let cur = pre.cursor;
    let idx = pos_offset(s, cur.line as int, cur.col as int);
    &&& cur.col == 0 && cur.line == 0 ==> post == pre
    &&& cur.col > 0 || cur.line > 0 ==> {
        &&& post.content() == s.remove(idx - 1)
        &&& post.colors() == shift_down_map(pre.colors(), idx - 1, 1)
        &&& post.dirty
        &&& post.readonly == pre.readonly
        &&& post.path == pre.path
        &&& post.active_color == pre.active_color
        &&& same_size(pre, post)
        &&& post.cursor == (if cur.col > 0 {
            Cursor { line: cur.line, col: (cur.col - 1) as usize }
        } else {
            Cursor { line: (cur.line - 1) as usize, col: line_len(s, cur.line - 1) as usize }
        })
        &&& post.preferred_col == post.cursor.col
        &&& post.viewport == visible_viewport(pre.viewport, post.cursor)
    }
}

/// The document state after a forward delete at the cursor.
pub open spec fn deleted_state(pre: TextBuffer, post: TextBuffer) -> bool {
    let s = pre.content();
    let cur = pre.cursor;
    let idx = pos_offset(s, cur.line as int, cur.col as int);
    &&& idx >= s.len() ==> post == pre
    &&& idx < s.len() ==> {
        &&& post.content() == s.remove(idx)
        &&& post.colors() == shift_down_map(pre.colors(), idx, 1)
        &&& post.dirty
        &&& post.readonly == pre.readonly
        &&& post.path == pre.path
        &&& post.active_color == pre.active_color
        &&& same_size(pre, post)
        &&& post.cursor == cur
        &&& post.viewport == pre.viewport
        &&& post.preferred_col == pre.preferred_col
    }
}

/// The document state after setting (or clearing) the color at the cursor.
pub open spec fn recolored_state(pre: TextBuffer, post: TextBuffer, color: Option<ColorId>) -> bool {
    let s = pre.content();
    let idx = pos_offset(s, pre.cursor.line as int, pre.cursor.col as int);
    &&& post.active_color == color
    &&& post.cursor == pre.cursor
    &&& post.viewport == pre.viewport
    &&& post.content() == pre.content()
    &&& post.readonly == pre.readonly
    &&& post.path == pre.path
    &&& post.preferred_col == pre.preferred_col
    &&& if idx < s.len() && s[idx] != '\n' {
        post.colors() == (match color {
            Some(id) => pre.colors().insert(idx, id),
            None => pre.colors().remove(idx),
        }) && post.dirty
    } else {
        post.colors() == pre.colors() && post.dirty == pre.dirty
    }
}

/// The editable document.
pub struct TextBuffer {
    pub rope: ropey::Rope,
    pub cursor: Cursor,
    pub viewport: Viewport,
    pub preferred_col: usize,
    pub dirty: bool,
    pub readonly: bool,
    pub path: Option<String>,
    pub char_colors: ColorIndex,
    pub active_color: Option<ColorId>,
}

impl TextBuffer {
    /// The characters of the document.
    pub open spec fn content(&self) -> Seq<char> {
        rope_chars(self.rope)
    }

    /// The color annotation: offset to color id.
    pub open spec fn colors(&self) -> Map<int, ColorId> {
        self.char_colors@
    }

    /// The cursor addresses a real position of the text.
    pub open spec fn cursor_in_text(&self) -> bool {
        (self.cursor.line as int) < line_count(self.content()) && (self.cursor.col as int)
            <= line_len(self.content(), self.cursor.line as int)
    }

    /// The cursor lies inside the viewport.
    pub open spec fn cursor_in_view(&self) -> bool {
        self.viewport.top_line <= self.cursor.line <= self.viewport.top_line as int
            + self.viewport.height - 1 && self.viewport.left_col <= self.cursor.col
            <= self.viewport.left_col as int + self.viewport.width - 1
    }

    pub open spec fn size_ok(&self) -> bool {
        self.viewport.width >= 1 && self.viewport.height >= 1
    }

    pub open spec fn colors_ok(&self) -> bool {
        self.char_colors.wf() && colors_fit(self.content(), self.colors())
    }

    /// Well-formedness: established by the constructors, preserved by every
    /// operation.
    pub open spec fn wf(&self) -> bool {
        self.cursor_in_text() && self.cursor_in_view() && self.size_ok() && self.colors_ok()
    }

    pub fn from_text(text: String, path: Option<String>, readonly: bool) -> (r: TextBuffer)
        ensures
            r.wf(),
            r.content() == text@,
            r.cursor == (Cursor { line: 0, col: 0 }),
            r.viewport == (Viewport { top_line: 0, left_col: 0, width: 80, height: 20 }),
            r.preferred_col == 0,
            r.dirty == false,
            r.readonly == readonly,
            r.path == path,
            r.colors() == Map::<int, ColorId>::empty(),
            r.active_color is None,
    {
        let rope = rope_from_str(text.as_str());
        proof {
            lemma_line_boundary(text@, 0);
        }
        TextBuffer {
            rope,
            cursor: Cursor { line: 0, col: 0 },
            viewport: Viewport { top_line: 0, left_col: 0, width: 80, height: 20 },
            preferred_col: 0,
            dirty: false,
            readonly,
            path,
            char_colors: ColorIndex::new(),
            active_color: None,
        }
    }

    pub fn new(path: Option<String>, readonly: bool) -> (r: TextBuffer)
        ensures
            r.wf(),
            r.content() == Seq::<char>::empty(),
            r.cursor == (Cursor { line: 0, col: 0 }),
            r.viewport == (Viewport { top_line: 0, left_col: 0, width: 80, height: 20 }),
            r.preferred_col == 0,
            r.dirty == false,
            r.readonly == readonly,
            r.path == path,
            r.colors() == Map::<int, ColorId>::empty(),
            r.active_color is None,
    {
        let r = Self::from_text(String::new(), path, readonly);
        proof {
            assert(r.content() =~= Seq::<char>::empty());
        }
        r
    }

    /// Number of logical lines; at least one, even for empty content.
    pub fn line_count(&self) -> (r: usize)
        ensures
            r == line_count(self.content()),
            r >= 1,
    {
        let r = rope_len_lines(&self.rope);
        proof {
            lemma_newline_count_le_len(self.content());
        }
        r
    }

    /// Length of the given line, not counting its line break; zero for lines
    /// past the end.
    pub fn line_len_chars(&self, line: usize) -> (r: usize)
        ensures
            (line as int) < line_count(self.content()) ==> r == line_len(
                self.content(),
                line as int,
            ),
            (line as int) >= line_count(self.content()) ==> r == 0,
    {
        let lc = self.line_count();
        if line >= lc {
            return 0;
        }
        proof {
            lemma_newline_count_le_len(self.content());
            lemma_line_boundary(self.content(), line as int);
        }
        let start = rope_line_to_char(&self.rope, line);
        if line + 1 < lc {
            proof {
                lemma_line_start_mono(self.content(), line as int);
            }
            let next = rope_line_to_char(&self.rope, line + 1);
            next - start - 1
        } else {
            proof {
                lemma_line_start_end(self.content());
            }
            let len = rope_len_chars(&self.rope);
            len - start
        }
    }

    /// Total number of characters in the document.
    pub fn len_chars(&self) -> (r: usize)
        ensures
            r == self.content().len(),
    {
        rope_len_chars(&self.rope)
    }

    /// The whole document as a string.
    pub fn as_string(&self) -> (r: String)
        ensures
            r@ == self.content(),
    {
        rope_to_string(&self.rope)
    }

    /// The text of the given line, without its line break; empty for lines
    /// past the end.
    pub fn line_text(&self, line: usize) -> (r: String)
        ensures
            (line as int) < line_count(self.content()) ==> r@ == line_seq(
                self.content(),
                line as int,
            ),
            (line as int) >= line_count(self.content()) ==> r@ == Seq::<char>::empty(),
    {
        let lc = self.line_count();
        if line >= lc {
            let r = String::new();
            proof {
                assert(r@ =~= Seq::<char>::empty());
            }
            return r;
        }
        proof {
            lemma_newline_count_le_len(self.content());
            lemma_line_boundary(self.content(), line as int);
        }
        let total = rope_len_chars(&self.rope);
        let s = self.as_string();
        let start = rope_line_to_char(&self.rope, line);
        let ll = self.line_len_chars(line);
        let piece = s.as_str().substring_char(start, start + ll);
        String::from_str(piece)
    }

    /// Char index of the start of the given line (clamped to the last line).
    pub fn line_start_char_idx(&self, line: usize) -> (r: usize)
        ensures
            r == line_start(
                self.content(),
                if (line as int) < line_count(self.content()) {
                    line as int
                } else {
                    line_count(self.content()) - 1
                },
            ),
    {
        let lc = self.line_count();
        let l = if line >= lc {
            lc - 1
        } else {
            line
        };
        rope_line_to_char(&self.rope, l)
    }

    /// Absolute char offset of position (line, col), both clamped into the
    /// text.
    fn line_col_to_char_idx(&self, line: usize, col: usize) -> (r: usize)
        ensures
            ({
                let c = visible_cursor(self.content(), Cursor { line, col });
                r == pos_offset(self.content(), c.line as int, c.col as int)
            }),
            r <= self.content().len(),
    {
        let lc = self.line_count();
        let l = if line >= lc {
            lc - 1
        } else {
            line
        };
        proof {
            lemma_newline_count_le_len(self.content());
            lemma_line_boundary(self.content(), l as int);
        }
        let total = rope_len_chars(&self.rope);
        let ll = self.line_len_chars(l);
        let c = if col > ll {
            ll
        } else {
            col
        };
        let start = rope_line_to_char(&self.rope, l);
        start + c
    }

    /// Absolute char offset of the cursor.
    pub fn cursor_char_index(&self) -> (r: usize)
        requires
            self.wf(),
        ensures
            r == pos_offset(self.content(), self.cursor.line as int, self.cursor.col as int),
            r <= self.content().len(),
    {
        self.line_col_to_char_idx(self.cursor.line, self.cursor.col)
    }

    /// Re-establish the cursor and viewport invariants: clamp the cursor into
    /// the text, then scroll minimally so the cursor is visible. Idempotent.
    pub fn ensure_cursor_visible(&mut self)
        requires
            old(self).size_ok(),
        ensures
            same_doc(*old(self), *final (self)),
            same_size(*old(self), *final (self)),
            final (self).preferred_col == old(self).preferred_col,
            final (self).cursor == visible_cursor(old(self).content(), old(self).cursor),
            final (self).viewport == visible_viewport(old(self).viewport, final (self).cursor),
            final (self).cursor_in_text(),
            final (self).cursor_in_view(),
            final (self).size_ok(),
    {
        let ghost s = self.content();
        // clamp the cursor into the text
        let lc = self.line_count();
        proof {
            lemma_newline_count_le_len(s);
        }
        if self.cursor.line > lc - 1 {
            self.cursor.line = lc - 1;
        }
        proof {
            lemma_line_boundary(s, self.cursor.line as int);
        }
        let ll = self.line_len_chars(self.cursor.line);
        if self.cursor.col > ll {
            self.cursor.col = ll;
        }
        // minimal vertical scroll
        let h1 = (self.viewport.height - 1) as usize;
        if self.cursor.line < self.viewport.top_line {
            self.viewport.top_line = self.cursor.line;
        } else if self.cursor.line - self.viewport.top_line > h1 {
            self.viewport.top_line = self.cursor.line - h1;
        }
        // minimal horizontal scroll
        let w1 = (self.viewport.width - 1) as usize;
        if self.cursor.col < self.viewport.left_col {
            self.viewport.left_col = self.cursor.col;
        } else if self.cursor.col - self.viewport.left_col > w1 {
            self.viewport.left_col = self.cursor.col - w1;
        }
    }

    /// Resize the viewport (each dimension at least one cell) and re-derive
    /// the scroll position.
    pub fn set_viewport_size(&mut self, width: u16, height: u16)
        ensures
            same_doc(*old(self), *final (self)),
            final (self).viewport.width == (if width >= 1 {
                width
            } else {
                1u16
            }),
            final (self).viewport.height == (if height >= 1 {
                height
            } else {
                1u16
            }),
            final (self).cursor == visible_cursor(old(self).content(), old(self).cursor),
            final (self).viewport == visible_viewport(
                Viewport {
                    width: final (self).viewport.width,
                    height: final (self).viewport.height,
                    ..old(self).viewport
                },
                final (self).cursor,
            ),
            final (self).preferred_col == old(self).preferred_col,
            old(self).colors_ok() ==> final (self).wf(),
    {
        self.viewport.width = if width >= 1 {
            width
        } else {
            1
        };
        self.viewport.height = if height >= 1 {
            height
        } else {
            1
        };
        self.ensure_cursor_visible();
    }

    /// One step left; at the start of a line, wraps to the end of the
    /// previous line.
    pub fn move_left(&mut self)
        requires
            old(self).wf(),
        ensures
            final (self).wf(),
            same_doc(*old(self), *final (self)),
            same_size(*old(self), *final (self)),
            final (self).cursor == cursor_after_left(old(self).content(), old(self).cursor),
            final (self).preferred_col == final (self).cursor.col,
            final (self).viewport == visible_viewport(old(self).viewport, final (self).cursor),
    {
        proof {
            lemma_line_boundary(self.content(), self.cursor.line as int);
            if self.cursor.line > 0 {
                lemma_line_boundary(self.content(), self.cursor.line - 1);
            }
        }
        if self.cursor.col > 0 {
            self.cursor.col -= 1;
        } else if self.cursor.line > 0 {
            self.cursor.line -= 1;
            let ll = self.line_len_chars(self.cursor.line);
            self.cursor.col = ll;
        }
        self.preferred_col = self.cursor.col;
        self.ensure_cursor_visible();
    }

    /// One step right; at the end of a line, wraps to the start of the next
    /// line.
    pub fn move_right(&mut self)
        requires
            old(self).wf(),
        ensures
            final (self).wf(),
            same_doc(*old(self), *final (self)),
            same_size(*old(self), *final (self)),
            final (self).cursor == cursor_after_right(old(self).content(), old(self).cursor),
            final (self).preferred_col == final (self).cursor.col,
            final (self).viewport == visible_viewport(old(self).viewport, final (self).cursor),
    {
        proof {
            lemma_line_boundary(self.content(), self.cursor.line as int);
            lemma_newline_count_le_len(self.content());
            if (self.cursor.line as int) + 1 < line_count(self.content()) {
                lemma_line_boundary(self.content(), self.cursor.line as int + 1);
            }
        }
        let len = self.line_len_chars(self.cursor.line);
        let lc = self.line_count();
        if self.cursor.col < len {
            self.cursor.col += 1;
        } else if self.cursor.line + 1 < lc {
            self.cursor.line += 1;
            self.cursor.col = 0;
        }
        self.preferred_col = self.cursor.col;
        self.ensure_cursor_visible();
    }

    /// One line up, aiming at the remembered preferred column.
    pub fn move_up(&mut self)
        requires
            old(self).wf(),
        ensures
            final (self).wf(),
            same_doc(*old(self), *final (self)),
            same_size(*old(self), *final (self)),
            final (self).preferred_col == old(self).preferred_col,
            final (self).cursor == cursor_after_up(
                old(self).content(),
                old(self).cursor,
                old(self).preferred_col as int,
            ),
            final (self).viewport == visible_viewport(old(self).viewport, final (self).cursor),
    {
        proof {
            lemma_line_boundary(self.content(), self.cursor.line as int);
            if self.cursor.line > 0 {
                lemma_line_boundary(self.content(), self.cursor.line - 1);
            }
        }
        if self.cursor.line > 0 {
            self.cursor.line -= 1;
            let ll = self.line_len_chars(self.cursor.line);
            self.cursor.col = if self.preferred_col <= ll {
                self.preferred_col
            } else {
                ll
            };
        }
        self.ensure_cursor_visible();
    }

    /// One line down, aiming at the remembered preferred column.
    pub fn move_down(&mut self)
        requires
            old(self).wf(),
        ensures
            final (self).wf(),
            same_doc(*old(self), *final (self)),
            same_size(*old(self), *final (self)),
            final (self).preferred_col == old(self).preferred_col,
            final (self).cursor == cursor_after_down(
                old(self).content(),
                old(self).cursor,
                old(self).preferred_col as int,
            ),
            final (self).viewport == visible_viewport(old(self).viewport, final (self).cursor),
    {
        proof {
            lemma_newline_count_le_len(self.content());
            lemma_line_boundary(self.content(), self.cursor.line as int);
            if (self.cursor.line as int) + 1 < line_count(self.content()) {
                lemma_line_boundary(self.content(), self.cursor.line as int + 1);
            }
        }
        let lc = self.line_count();
        if self.cursor.line + 1 < lc {
            self.cursor.line += 1;
            let ll = self.line_len_chars(self.cursor.line);
            self.cursor.col = if self.preferred_col <= ll {
                self.preferred_col
            } else {
                ll
            };
        }
        self.ensure_cursor_visible();
    }

    /// To the start of the current line.
    pub fn move_home(&mut self)
        requires
            old(self).wf(),
        ensures
            final (self).wf(),
            same_doc(*old(self), *final (self)),
            same_size(*old(self), *final (self)),
            final (self).cursor == (Cursor { line: old(self).cursor.line, col: 0 }),
            final (self).preferred_col == 0,
            final (self).viewport == visible_viewport(old(self).viewport, final (self).cursor),
    {
        proof {
            lemma_line_boundary(self.content(), self.cursor.line as int);
        }
        self.cursor.col = 0;
        self.preferred_col = 0;
        self.ensure_cursor_visible();
    }

    /// To the end of the current line.
    pub fn move_end(&mut self)
        requires
            old(self).wf(),
        ensures
            final (self).wf(),
            same_doc(*old(self), *final (self)),
            same_size(*old(self), *final (self)),
            final (self).cursor == cursor_after_end(old(self).content(), old(self).cursor),
            final (self).preferred_col == final (self).cursor.col,
            final (self).viewport == visible_viewport(old(self).viewport, final (self).cursor),
    {
        proof {
            lemma_line_boundary(self.content(), self.cursor.line as int);
        }
        let ll = self.line_len_chars(self.cursor.line);
        self.cursor.col = ll;
        self.preferred_col = self.cursor.col;
        self.ensure_cursor_visible();
    }

    /// One window height up, aiming at the preferred column.
    pub fn page_up(&mut self)
        requires
            old(self).wf(),
        ensures
            final (self).wf(),
            same_doc(*old(self), *final (self)),
            same_size(*old(self), *final (self)),
            final (self).preferred_col == old(self).preferred_col,
            final (self).cursor == cursor_after_page_up(
                old(self).content(),
                old(self).cursor,
                old(self).preferred_col as int,
                old(self).viewport.height as int,
            ),
            final (self).viewport == visible_viewport(old(self).viewport, final (self).cursor),
    {
        let amount = (self.viewport.height - 1) as usize;
        let target = if self.cursor.line >= amount {
            self.cursor.line - amount
        } else {
            0
        };
        proof {
            lemma_line_boundary(self.content(), self.cursor.line as int);
            lemma_line_boundary(self.content(), target as int);
        }
        self.cursor.line = target;
        let ll = self.line_len_chars(self.cursor.line);
        self.cursor.col = if self.preferred_col <= ll {
            self.preferred_col
        } else {
            ll
        };
        self.ensure_cursor_visible();
    }

    /// One window height down, aiming at the preferred column.
    pub fn page_down(&mut self)
        requires
            old(self).wf(),
        ensures
            final (self).wf(),
            same_doc(*old(self), *final (self)),
            same_size(*old(self), *final (self)),
            final (self).preferred_col == old(self).preferred_col,
            final (self).cursor == cursor_after_page_down(
                old(self).content(),
                old(self).cursor,
                old(self).preferred_col as int,
                old(self).viewport.height as int,
            ),
            final (self).viewport == visible_viewport(old(self).viewport, final (self).cursor),
    {
        let amount = (self.viewport.height - 1) as usize;
        let lc = self.line_count();
        proof {
            lemma_newline_count_le_len(self.content());
        }
        let target = if self.cursor.line >= lc - 1 {
            lc - 1
        } else if amount >= lc - 1 - self.cursor.line {
            lc - 1
        } else {
            self.cursor.line + amount
        };
        proof {
            lemma_line_boundary(self.content(), target as int);
        }
        self.cursor.line = target;
        let ll = self.line_len_chars(self.cursor.line);
        self.cursor.col = if self.preferred_col <= ll {
            self.preferred_col
        } else {
            ll
        };
        self.ensure_cursor_visible();
    }

    /// Jump to a 1-based line number, clamped into the text; the column is
    /// kept where possible.
    pub fn goto_line(&mut self, line_1based: usize)
        requires
            old(self).wf(),
        ensures
            final (self).wf(),
            same_doc(*old(self), *final (self)),
            same_size(*old(self), *final (self)),
            final (self).cursor == cursor_after_goto(
                old(self).content(),
                old(self).cursor,
                line_1based as int,
            ),
            final (self).preferred_col == final (self).cursor.col,
            final (self).viewport == visible_viewport(old(self).viewport, final (self).cursor),
    {
        let lc = self.line_count();
        proof {
            lemma_newline_count_le_len(self.content());
        }
        let t0 = if line_1based >= 1 {
            line_1based - 1
        } else {
            0
        };
        let target = if t0 < lc - 1 {
            t0
        } else {
            lc - 1
        };
        proof {
            lemma_line_boundary(self.content(), target as int);
        }
        self.cursor.line = target;
        let ll = self.line_len_chars(self.cursor.line);
        self.cursor.col = if self.cursor.col <= ll {
            self.cursor.col
        } else {
            ll
        };
        self.preferred_col = self.cursor.col;
        self.ensure_cursor_visible();
    }

    /// Insert `c` at the cursor. A non-break character advances the column
    /// and, when an active color is set, is recorded with it; a no-op when
    /// the document is read-only.
    pub fn insert_char(&mut self, c: char)
        requires
            old(self).wf(),
            old(self).content().len() < usize::MAX,
        ensures
            final (self).wf(),
            old(self).readonly ==> *final (self) == *old(self),
            !old(self).readonly ==> inserted_state(*old(self), *final (self), c),
    {
        if self.readonly {
            return ;
        }
        let ghost s = self.content();
        let ghost cur = self.cursor;
        proof {
            lemma_line_boundary(s, cur.line as int);
        }
        let idx = self.line_col_to_char_idx(self.cursor.line, self.cursor.col);
        proof {
            if c == '\n' {
                lemma_insert_break(s, cur.line as int, cur.col as int);
            } else {
                lemma_insert_in_line(s, cur.line as int, cur.col as int, c);
            }
            lemma_colors_fit_shift_up(s, self.colors(), idx as int, c);
        }
        rope_insert_char(&mut self.rope, idx, c);
        self.char_colors.shift_up(idx, 1);
        if c != '\n' {
            if let Some(color) = self.active_color {
                self.char_colors.set(idx, color);
                proof {
                    s.insert_ensures(idx as int, c);
                }
            }
        }
        self.cursor.col += 1;
        self.preferred_col = self.cursor.col;
        self.dirty = true;
        self.ensure_cursor_visible();
    }

    /// Break the current line at the cursor; the cursor moves to the start
    /// of the new line. A no-op when the document is read-only.
    pub fn insert_newline(&mut self)
        requires
            old(self).wf(),
            old(self).content().len() < usize::MAX,
        ensures
            final (self).wf(),
            old(self).readonly ==> *final (self) == *old(self),
            !old(self).readonly ==> newline_state(*old(self), *final (self)),
    {
        if self.readonly {
            return ;
        }
        let ghost s = self.content();
        let ghost cur = self.cursor;
        proof {
            lemma_line_boundary(s, cur.line as int);
        }
        let idx = self.line_col_to_char_idx(self.cursor.line, self.cursor.col);
        proof {
            lemma_newline_count_le_len(s);
            lemma_insert_break(s, cur.line as int, cur.col as int);
            lemma_colors_fit_shift_up(s, self.colors(), idx as int, '\n');
        }
        rope_insert_char(&mut self.rope, idx, '\n');
        self.char_colors.shift_up(idx, 1);
        self.cursor.line += 1;
        self.cursor.col = 0;
        self.preferred_col = 0;
        self.dirty = true;
        self.ensure_cursor_visible();
    }

    /// Remove the character left of the cursor; at the start of a line,
    /// merge with the previous line. A no-op when read-only or at the very
    /// start of the document.
    pub fn backspace(&mut self)
        requires
            old(self).wf(),
        ensures
            final (self).wf(),
            old(self).readonly ==> *final (self) == *old(self),
            !old(self).readonly ==> backspaced_state(*old(self), *final (self)),
    {
        if self.readonly {
            return ;
        }
        let ghost s = self.content();
        let ghost cur = self.cursor;
        proof {
            lemma_line_boundary(s, cur.line as int);
            if cur.line > 0 {
                lemma_line_boundary(s, cur.line - 1);
                lemma_line_start_mono(s, cur.line - 1);
            }
        }
        if self.cursor.col > 0 {
            let idx = self.line_col_to_char_idx(self.cursor.line, self.cursor.col);
            proof {
                lemma_remove_in_line(s, cur.line as int, idx - 1);
                lemma_colors_fit_shift_down(s, self.colors(), idx - 1);
            }
            rope_remove_char(&mut self.rope, idx - 1);
            self.char_colors.shift_down(idx - 1, 1);
            self.cursor.col -= 1;
            self.preferred_col = self.cursor.col;
            self.dirty = true;
        } else if self.cursor.line > 0 {
            let prev_len = self.line_len_chars(self.cursor.line - 1);
            let idx = self.line_col_to_char_idx(self.cursor.line, self.cursor.col);
            proof {
                lemma_remove_break(s, cur.line - 1);
                lemma_colors_fit_shift_down(s, self.colors(), idx - 1);
            }
            rope_remove_char(&mut self.rope, idx - 1);
            self.char_colors.shift_down(idx - 1, 1);
            self.cursor.line -= 1;
            self.cursor.col = prev_len;
            self.preferred_col = self.cursor.col;
            self.dirty = true;
        }
        self.ensure_cursor_visible();
    }

    /// Remove the character under the cursor, merging lines when it is a
    /// line break. A no-op when read-only or at the end of the document.
    pub fn delete(&mut self)
        requires
            old(self).wf(),
        ensures
            final (self).wf(),
            old(self).readonly ==> *final (self) == *old(self),
            !old(self).readonly ==> deleted_state(*old(self), *final (self)),
    {
        if self.readonly {
            return ;
        }
        let ghost s = self.content();
        let ghost cur = self.cursor;
        proof {
            lemma_line_boundary(s, cur.line as int);
        }
        let idx = self.line_col_to_char_idx(self.cursor.line, self.cursor.col);
        let len = rope_len_chars(&self.rope);
        if idx >= len {
            return ;
        }
        proof {
            if s[idx as int] == '\n' {
                // the cursor sits at the end of its line, on the break
                lemma_line_boundary(s, cur.line as int + 1);
                lemma_remove_break(s, cur.line as int);
            } else {
                lemma_remove_in_line(s, cur.line as int, idx as int);
            }
            lemma_colors_fit_shift_down(s, self.colors(), idx as int);
        }
        rope_remove_char(&mut self.rope, idx);
        self.char_colors.shift_down(idx, 1);
        self.dirty = true;
        self.ensure_cursor_visible();
    }

    /// The explicit color of the character at `char_idx`, if any.
    pub fn char_color(&self, char_idx: usize) -> (r: Option<ColorId>)
        requires
            self.colors_ok(),
        ensures
            self.colors().dom().contains(char_idx as int) ==> r == Some(
                self.colors()[char_idx as int],
            ),
            !self.colors().dom().contains(char_idx as int) ==> r is None,
    {
        self.char_colors.get(char_idx)
    }

    /// The color newly typed characters inherit.
    pub fn active_color(&self) -> (r: Option<ColorId>)
        ensures
            r == self.active_color,
    {
        self.active_color
    }

    pub fn set_active_color(&mut self, color: Option<ColorId>)
        ensures
            final (self).active_color == color,
            final (self).cursor == old(self).cursor,
            final (self).viewport == old(self).viewport,
            final (self).rope == old(self).rope,
            final (self).char_colors == old(self).char_colors,
            final (self).dirty == old(self).dirty,
            final (self).readonly == old(self).readonly,
            final (self).path == old(self).path,
            final (self).preferred_col == old(self).preferred_col,
            old(self).wf() ==> final (self).wf(),
    {
        self.active_color = color;
    }

    /// Set (or clear) the active color, and re-tag the character under the
    /// cursor when it is a visible one.
    pub fn set_current_char_color(&mut self, color: Option<ColorId>)
        requires
            old(self).wf(),
        ensures
            final (self).wf(),
            recolored_state(*old(self), *final (self), color),
    {
        self.active_color = color;
        let idx = self.cursor_char_index();
        let len = rope_len_chars(&self.rope);
        if idx < len {
            let ch = rope_char_at(&self.rope, idx);
            if ch != '\n' {
                match color {
                    Some(id) => {
                        self.char_colors.set(idx, id);
                    },
                    None => {
                        self.char_colors.unset(idx);
                    },
                }
                self.dirty = true;
                proof {
                    assert forall|k: int| #[trigger]
                        self.colors().dom().contains(k) implies 0 <= k < self.content().len()
                        && self.content()[k] != '\n' by {
                        if k != idx as int {
                            assert(old(self).colors().dom().contains(k));
                        }
                    }
                }
            }
        }
    }

    /// The color the cursor position shows: the character's explicit color
    /// if it has one, else the active color as a typing preview.
    pub fn current_char_color(&self) -> (r: Option<ColorId>)
        requires
            self.wf(),
        ensures
            ({
                let idx = pos_offset(self.content(), self.cursor.line as int, self.cursor.col as int);
                r == (if self.colors().dom().contains(idx) {
                    Some(self.colors()[idx])
                } else {
                    self.active_color
                })
            }),
    {
        let idx = self.cursor_char_index();
        match self.char_colors.get(idx) {
            Some(c) => Some(c),
            None => self.active_color,
        }
    }

    /// Set (or clear) the color at the cursor; line-level alias kept for
    /// callers that address colors by the current position.
    pub fn set_current_line_color(&mut self, color: Option<ColorId>)
        requires
            old(self).wf(),
        ensures
            final (self).wf(),
            recolored_state(*old(self), *final (self), color),
    {
        self.set_current_char_color(color);
    }

    /// The color shown at the cursor; line-level alias of
    /// `current_char_color`.
    pub fn current_line_color(&self) -> (r: Option<ColorId>)
        requires
            self.wf(),
        ensures
            ({
                let idx = pos_offset(self.content(), self.cursor.line as int, self.cursor.col as int);
                r == (if self.colors().dom().contains(idx) {
                    Some(self.colors()[idx])
                } else {
                    self.active_color
                })
            }),
    {
        self.current_char_color()
    }

    /// The explicit color at the start of the given line (clamped), if any.
    pub fn line_color(&self, line: usize) -> (r: Option<ColorId>)
        requires
            self.wf(),
        ensures
            ({
                let s = self.content();
                let l: int = if (line as int) < line_count(s) {
                    line as int
                } else {
                    line_count(s) - 1
                };
                let idx = line_start(s, l);
                r == (if self.colors().dom().contains(idx) {
                    Some(self.colors()[idx])
                } else {
                    Option::<ColorId>::None
                })
            }),
    {
        proof {
            let s = self.content();
            let l: int = if (line as int) < line_count(s) {
                line as int
            } else {
                line_count(s) - 1
            };
            lemma_newline_count_le_len(s);
            lemma_line_boundary(s, l);
        }
        let idx = self.line_col_to_char_idx(line, 0);
        self.char_colors.get(idx)
    }

    /// Replace the annotation wholesale from a list of `(offset, color)`
    /// pairs, dropping entries that do not name a visible character of the
    /// current text; a later pair for the same offset wins.
    pub fn set_char_colors(&mut self, colors: Vec<(usize, ColorId)>)
        requires
            old(self).wf(),
        ensures
            final (self).wf(),
            final (self).colors() == load_colors(old(self).content(), colors@),
            final (self).cursor == old(self).cursor,
            final (self).viewport == old(self).viewport,
            final (self).content() == old(self).content(),
            final (self).active_color == old(self).active_color,
            final (self).dirty == old(self).dirty,
            final (self).readonly == old(self).readonly,
            final (self).path == old(self).path,
            final (self).preferred_col == old(self).preferred_col,
    {
        let ghost s = self.content();
        let mut ci = ColorIndex::new();
        let len = rope_len_chars(&self.rope);
        let n = colors.len();
        let mut i: usize = 0;
        while i < n
            invariant
                *self == *old(self),
                s == self.content(),
                len == s.len(),
                n == colors.len(),
                i <= n,
                ci.wf(),
                ci@ == load_colors(s, colors@.take(i as int)),
                colors_fit(s, ci@),
            decreases n - i,
        {
            let (k, v) = colors[i];
            let ghost prev = ci@;
            proof {
                assert(colors@.take(i + 1).drop_last() =~= colors@.take(i as int));
                assert(colors@.take(i + 1).last() == colors@[i as int]);
            }
            if k < len {
                let ch = rope_char_at(&self.rope, k);
                if ch != '\n' {
                    ci.set(k, v);
                    proof {
                        assert forall|kk: int| #[trigger]
                            ci@.dom().contains(kk) implies 0 <= kk < s.len() && s[kk] != '\n' by {
                            if kk != k as int {
                                assert(prev.dom().contains(kk));
                            }
                        }
                    }
                }
            }
            i += 1;
        }
        proof {
            assert(colors@.take(n as int) =~= colors@);
        }
        self.char_colors = ci;
    }

    /// Alias of `set_char_colors` kept for callers that speak of lines.
    pub fn set_line_colors(&mut self, colors: Vec<(usize, ColorId)>)
        requires
            old(self).wf(),
        ensures
            final (self).wf(),
            final (self).colors() == load_colors(old(self).content(), colors@),
            final (self).cursor == old(self).cursor,
            final (self).viewport == old(self).viewport,
            final (self).content() == old(self).content(),
            final (self).active_color == old(self).active_color,
            final (self).dirty == old(self).dirty,
            final (self).readonly == old(self).readonly,
            final (self).path == old(self).path,
            final (self).preferred_col == old(self).preferred_col,
    {
        self.set_char_colors(colors);
    }

    /// The annotation as a plain list of `(offset, color)` pairs.
    pub fn char_colors_list(&self) -> (r: Vec<(usize, ColorId)>)
        requires
            self.colors_ok(),
        ensures
            crate::colors::distinct_keys(r@),
            crate::colors::entries_map(r@) == self.colors(),
    {
        self.char_colors.pairs()
    }

    /// Replace the whole text; the cursor, scroll position, annotation and
    /// active color reset, and the document counts as saved.
    pub fn set_text_from_string(&mut self, text: String)
        requires
            old(self).size_ok(),
        ensures
            final (self).wf(),
            final (self).content() == text@,
            final (self).cursor == (Cursor { line: 0, col: 0 }),
            final (self).viewport == (Viewport { top_line: 0, left_col: 0, ..old(self).viewport }),
            final (self).preferred_col == 0,
            final (self).colors() == Map::<int, ColorId>::empty(),
            final (self).active_color is None,
            final (self).dirty == false,
            final (self).readonly == old(self).readonly,
            final (self).path == old(self).path,
    {
        self.rope = rope_from_str(text.as_str());
        self.cursor = Cursor { line: 0, col: 0 };
        self.viewport.top_line = 0;
        self.viewport.left_col = 0;
        self.preferred_col = 0;
        self.char_colors = ColorIndex::new();
        self.active_color = None;
        self.dirty = false;
        proof {
            lemma_line_boundary(text@, 0);
        }
    }

    /// The 0-based indices of the lines whose text contains the query, case
    /// insensitively; the empty query matches nothing.
    pub fn find_matches(&self, query: &str) -> (r: Vec<usize>)
        requires
            self.wf(),
        ensures
            query@.len() == 0 ==> r@.len() == 0,
            forall|a: int, b: int| 0 <= a < b < r@.len() ==> r@[a] < r@[b],
            forall|j: int|
                0 <= j < r@.len() ==> (#[trigger] r@[j] as int) < line_count(self.content())
                    && line_matches(self.content(), r@[j] as int, query@),
            query@.len() > 0 ==> forall|l: int|
                0 <= l < line_count(self.content()) && #[trigger] line_matches(
                    self.content(),
                    l,
                    query@,
                ) ==> exists|j: int| 0 <= j < r@.len() && r@[j] == l,
    {
        if query.is_empty() {
            return Vec::new();
        }
        let query_lower = to_lower(query);
        let mut out: Vec<usize> = Vec::new();
        let lc = self.line_count();
        let mut line: usize = 0;
        while line < lc
            invariant
                self.wf(),
                query@.len() > 0,
                query_lower@ == lower_of(query@),
                lc == line_count(self.content()),
                line <= lc,
                forall|a: int, b: int| 0 <= a < b < out@.len() ==> out@[a] < out@[b],
                forall|j: int|
                    0 <= j < out@.len() ==> (#[trigger] out@[j] as int) < line && line_matches(
                        self.content(),
                        out@[j] as int,
                        query@,
                    ),
                forall|l: int|
                    0 <= l < line && #[trigger] line_matches(self.content(), l, query@)
                        ==> exists|j: int| 0 <= j < out@.len() && out@[j] == l,
            decreases lc - line,
        {
            let lt = self.line_text(line);
            let lt_lower = to_lower(lt.as_str());
            let ghost out0 = out@;
            if str_contains(lt_lower.as_str(), query_lower.as_str()) {
                out.push(line);
            }
            proof {
                assert(forall|j: int| 0 <= j < out0.len() ==> out@[j] == out0[j]);
                if line_matches(self.content(), line as int, query@) {
                    assert(out@[out@.len() - 1] == line);
                }
            }
            line += 1;
        }
        out
    }

    /// Mark the document as matching its persisted state.
    pub fn mark_saved(&mut self)
        ensures
            final (self).dirty == false,
            final (self).cursor == old(self).cursor,
            final (self).viewport == old(self).viewport,
            final (self).rope == old(self).rope,
            final (self).char_colors == old(self).char_colors,
            final (self).active_color == old(self).active_color,
            final (self).readonly == old(self).readonly,
            final (self).path == old(self).path,
            final (self).preferred_col == old(self).preferred_col,
            old(self).wf() ==> final (self).wf(),
    {
        self.dirty = false;
    }
}

} // verus!
