//! Small string helpers: case-insensitive matching (through the standard
//! library's case folding, named but not restated), substring search,
//! whitespace trimming, digit parsing, and suffix checks.
use vstd::prelude::*;

verus! {

/// What `str::to_lowercase` returns for the characters `s`: a function of
/// the characters alone, left unstated.
pub uninterp spec fn lower_of(s: Seq<char>) -> Seq<char>;

/// Whether `needle` occurs in `hay` as a contiguous run of characters.
pub open spec fn seq_contains_sub(hay: Seq<char>, needle: Seq<char>) -> bool {
    exists|i: int|
        0 <= i && i + needle.len() <= hay.len() && #[trigger] hay.subrange(i, i + needle.len())
            == needle
}

/// What `char::is_whitespace` returns: a property of the character alone,
/// left unstated.
pub uninterp spec fn is_white(c: char) -> bool;

/// Relies on str::to_lowercase: the result depends on the characters alone,
/// and an empty string stays empty.
#[verifier::external_body]
pub(crate) fn to_lower(s: &str) -> (r: String)
    ensures
        r@ == lower_of(s@),
        s@.len() == 0 ==> r@.len() == 0,
{
    s.to_lowercase()
}

/// Relies on str::contains with a string pattern: true exactly when the
/// pattern occurs as a contiguous substring. The standard library matches
/// byte slices, which for valid UTF-8 coincides with a contiguous run of
/// characters: a match cannot begin inside a character, since leading and
/// continuation bytes are disjoint.
#[verifier::external_body]
pub(crate) fn str_contains(hay: &str, needle: &str) -> (r: bool)
    ensures
        r == seq_contains_sub(hay@, needle@),
{
    hay.contains(needle)
}

/// Relies on char::is_whitespace: a property of the character alone.
#[verifier::external_body]
pub(crate) fn char_is_white(c: char) -> (r: bool)
    ensures
        r == is_white(c),
{
    c.is_whitespace()
}

/// The characters of `s` with leading and trailing whitespace removed.
pub open spec fn trim_spec(s: Seq<char>) -> Seq<char>
    decreases s.len(),
{
    if s.len() == 0 {
        s
    } else if is_white(s[0]) {
        trim_spec(s.skip(1))
    } else if is_white(s.last()) {
        trim_spec(s.drop_last())
    } else {
        s
    }
}

/// Trim leading and trailing whitespace, as `str::trim` does.
pub fn trim(s: &str) -> (r: String)
    ensures
        r@ == trim_spec(s@),
{
    let n = s.unicode_len();
    let mut start: usize = 0;
    let mut end: usize = n;
    proof {
        assert(s@.subrange(0, n as int) =~= s@);
    }
    loop
        invariant
            0 <= start <= end <= n == s@.len(),
            trim_spec(s@) == trim_spec(s@.subrange(start as int, end as int)),
        decreases end - start,
    {
        if start < end {
            let c = s.get_char(start);
            if char_is_white(c) {
                proof {
                    let sub = s@.subrange(start as int, end as int);
                    assert(sub[0] == s@[start as int]);
                    assert(sub.skip(1) =~= s@.subrange(start + 1, end as int));
                }
                start += 1;
                continue ;
            }
            let c2 = s.get_char(end - 1);
            if char_is_white(c2) {
                proof {
                    let sub = s@.subrange(start as int, end as int);
                    assert(sub[0] == s@[start as int]);
                    assert(sub.last() == s@[end - 1]);
                    assert(sub.drop_last() =~= s@.subrange(start as int, end - 1));
                }
                end -= 1;
                continue ;
            }
            proof {
                let sub = s@.subrange(start as int, end as int);
                assert(sub[0] == s@[start as int]);
                assert(sub.last() == s@[end - 1]);
            }
        } else {
            proof {
                assert(s@.subrange(start as int, end as int) =~= Seq::<char>::empty());
            }
        }
        let piece = s.substring_char(start, end);
        return String::from_str(piece);
    }
}

/// The numeric value of a run of decimal digits, most significant first.
pub open spec fn digits_value(s: Seq<char>) -> int
    decreases s.len(),
{
    if s.len() == 0 {
        0
    } else {
        digits_value(s.drop_last()) * 10 + (s.last() as int - '0' as int)
    }
}

pub open spec fn all_digits(s: Seq<char>) -> bool {
    forall|i: int| 0 <= i < s.len() ==> '0' <= #[trigger] s[i] <= '9'
}

/// Parse a string of decimal digits. `None` when the string is empty, holds
/// a non-digit, or the value does not fit in `usize`.
pub fn parse_usize(s: &str) -> (r: Option<usize>)
    ensures
        match r {
            Some(v) => s@.len() > 0 && all_digits(s@) && v == digits_value(s@),
            None => s@.len() == 0 || !all_digits(s@) || digits_value(s@) > usize::MAX,
        },
{
    let n = s.unicode_len();
    if n == 0 {
        return None;
    }
    let mut acc: usize = 0;
    let mut i: usize = 0;
    while i < n
        invariant
            0 <= i <= n == s@.len(),
            all_digits(s@.take(i as int)),
            acc == digits_value(s@.take(i as int)),
        decreases n - i,
    {
        let c = s.get_char(i);
        if c < '0' || c > '9' {
            proof {
                assert(s@[i as int] == c);
            }
            return None;
        }
        let d = (c as u32 - '0' as u32) as usize;
        proof {
            assert(s@.take(i + 1).drop_last() =~= s@.take(i as int));
            assert(s@.take(i + 1).last() == s@[i as int]);
        }
        if acc > usize::MAX / 10 || (acc == usize::MAX / 10 && d > usize::MAX % 10) {
            proof {
                let pre = s@.take(i + 1);
                lemma_digits_value_grows(s@, i + 1);
            }
            return None;
        }
        acc = acc * 10 + d;
        i += 1;
    }
    proof {
        assert(s@.take(n as int) =~= s@);
    }
    Some(acc)
}

/// A longer digit prefix never has a smaller value.
proof fn lemma_digits_value_grows(s: Seq<char>, i: int)
    requires
        0 < i <= s.len(),
        all_digits(s.take(i)),
    ensures
        digits_value(s) >= digits_value(s.take(i)) || !all_digits(s),
    decreases s.len() - i,
{
    if i < s.len() {
        if all_digits(s.take(i + 1)) {
            assert(s.take(i + 1).drop_last() =~= s.take(i));
            assert(digits_value(s.take(i + 1)) == digits_value(s.take(i)) * 10 + (s.take(
                i + 1,
            ).last() as int - '0' as int));
            assert(digits_value(s.take(i)) >= 0) by {
                lemma_digits_nonneg(s.take(i));
            }
            lemma_digits_value_grows(s, i + 1);
        } else {
            assert(!all_digits(s)) by {
                let j = choose|j: int| 0 <= j < i + 1 && !('0' <= #[trigger] s.take(i + 1)[j] <= '9');
                assert(s[j] == s.take(i + 1)[j]);
            }
        }
    } else {
        assert(s.take(i) =~= s);
    }
}

proof fn lemma_digits_nonneg(s: Seq<char>)
    requires
        all_digits(s),
    ensures
        digits_value(s) >= 0,
    decreases s.len(),
{
    if s.len() > 0 {
        assert(s.drop_last() =~= s.take(s.len() - 1));
        assert(all_digits(s.drop_last())) by {
            assert(forall|i: int| 0 <= i < s.len() - 1 ==> s.drop_last()[i] == s[i]);
        }
        lemma_digits_nonneg(s.drop_last());
    }
}

/// Whether `s` ends with the four characters `.txt`.
pub open spec fn has_txt_ext(s: Seq<char>) -> bool {
    s.len() >= 4 && s[s.len() - 4] == '.' && s[s.len() - 3] == 't' && s[s.len() - 2] == 'x'
        && s[s.len() - 1] == 't'
}

/// Append `.txt` unless the name already ends with it.
pub fn ensure_txt_ext(s: &str) -> (r: String)
    ensures
        has_txt_ext(s@) ==> r@ == s@,
        !has_txt_ext(s@) ==> r@ == s@ + ".txt"@,
{
    let n = s.unicode_len();
    if n >= 4 {
        let c1 = s.get_char(n - 4);
        let c2 = s.get_char(n - 3);
        let c3 = s.get_char(n - 2);
        let c4 = s.get_char(n - 1);
        if c1 == '.' && c2 == 't' && c3 == 'x' && c4 == 't' {
            return String::from_str(s);
        }
    }
    let r = String::from_str(s).concat(".txt");
    r
}

/// `a` and `b` joined with a single path separator.
pub fn join_path(a: &str, b: &str) -> (r: String)
    ensures
        r@ == a@ + "/"@ + b@,
{
    String::from_str(a).concat("/").concat(b)
}

/// Relies on String::push: appends one character.
#[verifier::external_body]
pub(crate) fn string_push(s: &mut String, c: char)
    ensures
        final (s)@ == old(s)@.push(c),
{
    s.push(c);
}

/// Relies on String::pop: removes the last character, if any.
#[verifier::external_body]
pub(crate) fn string_pop(s: &mut String)
    ensures
        old(s)@.len() == 0 ==> final (s)@ == old(s)@,
        old(s)@.len() > 0 ==> final (s)@ == old(s)@.drop_last(),
{
    s.pop();
}

/// Offset just after the last path separator of `s`; 0 when there is none.
pub open spec fn name_start(s: Seq<char>) -> int
    decreases s.len(),
{
    if s.len() == 0 {
        0
    } else if s.last() == '/' {
        s.len() as int
    } else {
        name_start(s.drop_last())
    }
}

/// The file-name part of a path: everything after the last separator.
pub open spec fn file_name_spec(s: Seq<char>) -> Seq<char> {
    s.subrange(name_start(s), s.len() as int)
}

/// The parent part of a path: everything before the last separator.
pub open spec fn parent_spec(s: Seq<char>) -> Seq<char> {
    if name_start(s) > 0 {
        s.subrange(0, name_start(s) - 1)
    } else {
        s.subrange(0, 0)
    }
}

proof fn lemma_name_start_bounds(s: Seq<char>)
    ensures
        0 <= name_start(s) <= s.len(),
    decreases s.len(),
{
    if s.len() > 0 && s.last() != '/' {
        lemma_name_start_bounds(s.drop_last());
    }
}

proof fn lemma_name_start_at(s: Seq<char>, i: int)
    requires
        0 <= i <= s.len(),
        i == 0 || s[i - 1] == '/',
        forall|j: int| i <= j < s.len() ==> s[j] != '/',
    ensures
        name_start(s) == i,
    decreases s.len(),
{
    if s.len() == i {
        if i > 0 {
            assert(s.last() == s[i - 1]);
        }
    } else {
        assert(s.last() == s[s.len() - 1]);
        assert(s.last() != '/');
        assert(forall|j: int| 0 <= j < s.len() - 1 ==> s.drop_last()[j] == s[j]);
        lemma_name_start_at(s.drop_last(), i);
    }
}

/// Where the file name of `path` begins: just after its last separator.
fn find_name_start(path: &str) -> (r: usize)
    ensures
        r as int == name_start(path@),
{
    let n = path.unicode_len();
    let mut i: usize = n;
    while i > 0
        invariant
            i <= n == path@.len(),
            forall|j: int| i <= j < path@.len() ==> path@[j] != '/',
        decreases i,
    {
        let c = path.get_char(i - 1);
        if c == '/' {
            proof {
                assert(path@[i - 1] == '/');
                lemma_name_start_at(path@, i as int);
            }
            return i;
        }
        proof {
            assert(path@[i - 1] != '/');
        }
        i -= 1;
    }
    proof {
        lemma_name_start_at(path@, 0);
    }
    0
}

/// The file-name part of a path (may be empty).
pub fn file_name_of(path: &str) -> (r: String)
    ensures
        r@ == file_name_spec(path@),
{
    let n = path.unicode_len();
    let start = find_name_start(path);
    proof {
        lemma_name_start_bounds(path@);
    }
    let piece = path.substring_char(start, n);
    String::from_str(piece)
}

/// The parent part of a path (may be empty).
pub fn parent_of(path: &str) -> (r: String)
    ensures
        r@ == parent_spec(path@),
{
    let start = find_name_start(path);
    proof {
        lemma_name_start_bounds(path@);
    }
    let piece = if start > 0 {
        path.substring_char(0, start - 1)
    } else {
        proof {
            lemma_name_start_bounds(path@);
        }
        path.substring_char(0, 0)
    };
    String::from_str(piece)
}

} // verus!
