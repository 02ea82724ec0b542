//! Bindings to the rope that stores the document text. The rope is an
//! edit-friendly character sequence; to the proofs it is opaque, so its
//! contents are named by the uninterpreted function `rope_chars`, and each
//! operation the editor uses carries a contract stating its effect on that
//! sequence. The rope is built with line breaks being `'\n'` alone, which is
//! what the contracts of the line-indexed operations state, through the line
//! model of `crate::text`.
use crate::text::{line_count, line_start, newline_count};
use vstd::prelude::*;

verus! {

#[verifier::external_type_specification]
#[verifier::external_body]
pub struct ExRope(ropey::Rope);

/// The characters held by a rope, in order.
pub uninterp spec fn rope_chars(r: ropey::Rope) -> Seq<char>;

/// Relies on ropey::Rope::from_str: builds a rope holding exactly the
/// characters of `s`.
#[verifier::external_body]
pub(crate) fn rope_from_str(s: &str) -> (r: ropey::Rope)
    ensures
        rope_chars(r) == s@,
{
    ropey::Rope::from_str(s)
}

/// Relies on ropey::Rope::len_chars: the total number of chars.
#[verifier::external_body]
pub(crate) fn rope_len_chars(r: &ropey::Rope) -> (n: usize)
    ensures
        n == rope_chars(*r).len(),
{
    r.len_chars()
}

/// Relies on ropey::Rope::len_lines: one more than the number of line
/// breaks, a line break being `'\n'` (the crate is built without its
/// carriage-return and Unicode line-break features).
#[verifier::external_body]
pub(crate) fn rope_len_lines(r: &ropey::Rope) -> (n: usize)
    ensures
        n == line_count(rope_chars(*r)),
{
    r.len_lines()
}

/// Relies on ropey::Rope::line_to_char: the char index of the start of the
/// given line; the index one past the last line maps to the end of the text.
#[verifier::external_body]
pub(crate) fn rope_line_to_char(r: &ropey::Rope, line: usize) -> (n: usize)
    requires
        line <= line_count(rope_chars(*r)),
    ensures
        n == line_start(rope_chars(*r), line as int),
{
    r.line_to_char(line)
}

/// Relies on ropey::Rope::insert_char: inserts `c` at char index `idx`.
#[verifier::external_body]
pub(crate) fn rope_insert_char(r: &mut ropey::Rope, idx: usize, c: char)
    requires
        idx <= rope_chars(*old(r)).len(),
        rope_chars(*old(r)).len() < usize::MAX,
    ensures
        rope_chars(*final (r)) == rope_chars(*old(r)).insert(idx as int, c),
{
    r.insert_char(idx, c);
}

/// Relies on ropey::Rope::remove: removes the char at index `idx`.
#[verifier::external_body]
pub(crate) fn rope_remove_char(r: &mut ropey::Rope, idx: usize)
    requires
        idx < rope_chars(*old(r)).len(),
    ensures
        rope_chars(*final (r)) == rope_chars(*old(r)).remove(idx as int),
{
    r.remove(idx..idx + 1);
}

/// Relies on ropey::Rope::char: the char at index `idx`.
#[verifier::external_body]
pub(crate) fn rope_char_at(r: &ropey::Rope, idx: usize) -> (c: char)
    requires
        idx < rope_chars(*r).len(),
    ensures
        c == rope_chars(*r)[idx as int],
{
    r.char(idx)
}

/// Relies on ropey's `From<&Rope> for String`: the rope's chars as a string.
#[verifier::external_body]
pub(crate) fn rope_to_string(r: &ropey::Rope) -> (s: String)
    ensures
        s@ == rope_chars(*r),
{
    String::from(r)
}

} // verus!
