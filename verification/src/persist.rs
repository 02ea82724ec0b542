//! The computable part of persistence: detecting a file's line-ending style,
//! decoding carriage-return+line-feed pairs to plain line feeds, re-encoding
//! on save, and deriving the annotation sidecar's path. Reading and writing
//! the files themselves is the caller's affair.
use crate::strutil::{seq_contains_sub, str_contains};
use vstd::prelude::*;

verus! {

/// The line-termination style of a document on disk.
#[derive(Debug, Clone, Copy, PartialEq, Eq, Structural)]
pub enum EolStyle {
    Lf,
    Crlf,
}

/// A decoded document: its text with plain line feeds, and the style the
/// file used, so that saving restores it.
#[derive(Debug, Clone)]
pub struct FileData {
    pub text: String,
    pub eol: EolStyle,
}

/// Whether `s` contains a carriage-return+line-feed pair.
pub open spec fn has_crlf(s: Seq<char>) -> bool {
    seq_contains_sub(s, seq!['\r', '\n'])
}

/// A carriage-return+line-feed pair at `i` witnesses `has_crlf`.
proof fn lemma_crlf_at(s: Seq<char>, i: int)
    requires
        0 <= i,
        i + 1 < s.len(),
        s[i] == '\r',
        s[i + 1] == '\n',
    ensures
        has_crlf(s),
{
    let needle = seq!['\r', '\n'];
    assert(needle.len() == 2);
    assert(s.subrange(i, i + needle.len() as int) =~= needle);
}

/// A `has_crlf` text has a pair at some position; returns one.
proof fn lemma_has_crlf_pos(s: Seq<char>) -> (i: int)
    requires
        has_crlf(s),
    ensures
        0 <= i,
        i + 1 < s.len(),
        s[i] == '\r',
        s[i + 1] == '\n',
{
    let needle = seq!['\r', '\n'];
    let i = choose|i: int|
        0 <= i && i + needle.len() <= s.len() && #[trigger] s.subrange(i, i + needle.len() as int)
            == needle;
    assert(s.subrange(i, i + 2)[0] == s[i]);
    assert(s.subrange(i, i + 2)[1] == s[i + 1]);
    i
}

/// `s` with every carriage-return+line-feed pair replaced by a line feed.
pub open spec fn decode_crlf(s: Seq<char>) -> Seq<char>
    decreases s.len(),
{
    if s.len() == 0 {
        s
    } else if s.len() >= 2 && s[0] == '\r' && s[1] == '\n' {
        seq!['\n'] + decode_crlf(s.skip(2))
    } else {
        seq![s[0]] + decode_crlf(s.skip(1))
    }
}

/// `s` with every line feed replaced by a carriage-return+line-feed pair.
pub open spec fn encode_crlf(s: Seq<char>) -> Seq<char>
    decreases s.len(),
{
    if s.len() == 0 {
        s
    } else if s[0] == '\n' {
        seq!['\r', '\n'] + encode_crlf(s.skip(1))
    } else {
        seq![s[0]] + encode_crlf(s.skip(1))
    }
}

/// What saving writes for a text in the given style.
pub open spec fn encoded_for(s: Seq<char>, eol: EolStyle) -> Seq<char> {
    match eol {
        EolStyle::Lf => s,
        EolStyle::Crlf => encode_crlf(s),
    }
}

/// The style a raw file is detected as.
pub open spec fn detected(s: Seq<char>) -> EolStyle {
    if has_crlf(s) {
        EolStyle::Crlf
    } else {
        EolStyle::Lf
    }
}

/// Detect the line-ending style of raw file contents.
pub fn detect_eol(content: &str) -> (r: EolStyle)
    ensures
        r == detected(content@),
{
    proof {
        reveal_strlit("\r\n");
        assert("\r\n"@ =~= seq!['\r', '\n']);
    }
    if str_contains(content, "\r\n") {
        EolStyle::Crlf
    } else {
        EolStyle::Lf
    }
}

/// Decode raw file contents: remember the detected style and normalize
/// carriage-return+line-feed pairs to line feeds.
pub fn decode_document(raw: &str) -> (r: FileData)
    ensures
        r.text@ == decode_crlf(raw@),
        r.eol == detected(raw@),
{
    let eol = detect_eol(raw);
    let n = raw.unicode_len();
    let mut out = String::new();
    let mut i: usize = 0;
    proof {
        assert(raw@.skip(0) =~= raw@);
        assert(out@ + decode_crlf(raw@) =~= decode_crlf(raw@));
    }
    while i < n
        invariant
            0 <= i <= n == raw@.len(),
            decode_crlf(raw@) == out@ + decode_crlf(raw@.skip(i as int)),
        decreases n - i,
    {
        let c = raw.get_char(i);
        if c == '\r' && i + 1 < n {
            let c2 = raw.get_char(i + 1);
            if c2 == '\n' {
                proof {
                    let suf = raw@.skip(i as int);
                    assert(suf[0] == raw@[i as int]);
                    assert(suf[1] == raw@[i + 1]);
                    assert(suf.skip(2) =~= raw@.skip(i + 2));
                    assert(out@ + (seq!['\n'] + decode_crlf(raw@.skip(i + 2))) =~= (out@
                        + seq!['\n']) + decode_crlf(raw@.skip(i + 2)));
                    reveal_strlit("\n");
                    assert(out@ + "\n"@ =~= out@ + seq!['\n']);
                }
                out.append("\n");
                i += 2;
                continue ;
            }
        }
        let piece = raw.substring_char(i, i + 1);
        proof {
            let suf = raw@.skip(i as int);
            assert(suf[0] == raw@[i as int]);
            assert(suf.skip(1) =~= raw@.skip(i + 1));
            assert(piece@ =~= seq![raw@[i as int]]);
            assert(out@ + (seq![raw@[i as int]] + decode_crlf(raw@.skip(i + 1))) =~= (out@
                + piece@) + decode_crlf(raw@.skip(i + 1)));
        }
        out.append(piece);
        i += 1;
    }
    proof {
        assert(raw@.skip(n as int) =~= Seq::<char>::empty());
        assert(out@ + decode_crlf(raw@.skip(n as int)) =~= out@);
    }
    FileData { text: out, eol }
}

/// Encode a text for saving in the given line-ending style.
pub fn encode_document(text: &str, eol: EolStyle) -> (r: String)
    ensures
        r@ == encoded_for(text@, eol),
{
    match eol {
        EolStyle::Lf => String::from_str(text),
        EolStyle::Crlf => {
            let n = text.unicode_len();
            let mut out = String::new();
            let mut i: usize = 0;
            proof {
                assert(text@.skip(0) =~= text@);
                assert(out@ + encode_crlf(text@) =~= encode_crlf(text@));
            }
            while i < n
                invariant
                    0 <= i <= n == text@.len(),
                    encode_crlf(text@) == out@ + encode_crlf(text@.skip(i as int)),
                decreases n - i,
            {
                let c = text.get_char(i);
                proof {
                    let suf = text@.skip(i as int);
                    assert(suf[0] == text@[i as int]);
                    assert(suf.skip(1) =~= text@.skip(i + 1));
                }
                if c == '\n' {
                    proof {
                        assert(out@ + (seq!['\r', '\n'] + encode_crlf(text@.skip(i + 1))) =~= (out@
                            + seq!['\r', '\n']) + encode_crlf(text@.skip(i + 1)));
                        reveal_strlit("\r\n");
                        assert(out@ + "\r\n"@ =~= out@ + seq!['\r', '\n']);
                    }
                    out.append("\r\n");
                } else {
                    let piece = text.substring_char(i, i + 1);
                    proof {
                        assert(piece@ =~= seq![text@[i as int]]);
                        assert(out@ + (seq![text@[i as int]] + encode_crlf(text@.skip(i + 1))) =~= (
                        out@ + piece@) + encode_crlf(text@.skip(i + 1)));
                    }
                    out.append(piece);
                }
                i += 1;
            }
            proof {
                assert(text@.skip(n as int) =~= Seq::<char>::empty());
                assert(out@ + encode_crlf(text@.skip(n as int)) =~= out@);
            }
            out
        },
    }
}

/// The sidecar path of a document: its path with a fixed suffix appended.
pub fn sidecar_path_for(path: &str) -> (r: String)
    ensures
        r@ == path@ + ".dopedpad.json"@,
{
    String::from_str(path).concat(".dopedpad.json")
}

/// Every line feed in `s` is the second half of a carriage-return pair.
pub open spec fn all_breaks_crlf(s: Seq<char>) -> bool {
    forall|i: int| 0 <= i < s.len() && #[trigger] s[i] == '\n' ==> i > 0 && s[i - 1] == '\r'
}

proof fn lemma_all_breaks_skip(s: Seq<char>, k: int)
    requires
        all_breaks_crlf(s),
        0 <= k <= s.len(),
        k == s.len() || s[k] != '\n',
    ensures
        all_breaks_crlf(s.skip(k)),
{
    let t = s.skip(k);
    assert forall|i: int| 0 <= i < t.len() && #[trigger] t[i] == '\n' implies i > 0 && t[i - 1]
        == '\r' by {
        assert(t[i] == s[k + i]);
        if i > 0 {
            assert(t[i - 1] == s[k + i - 1]);
        }
    }
}

proof fn lemma_encode_decode(s: Seq<char>)
    requires
        all_breaks_crlf(s),
    ensures
        encode_crlf(decode_crlf(s)) == s,
    decreases s.len(),
{
    if s.len() == 0 {
    } else if s.len() >= 2 && s[0] == '\r' && s[1] == '\n' {
        assert(s.len() == 2 || s[2] != '\n');
        lemma_all_breaks_skip(s, 2);
        lemma_encode_decode(s.skip(2));
        let d = decode_crlf(s.skip(2));
        let whole = seq!['\n'] + d;
        assert(whole[0] == '\n');
        assert(whole.skip(1) =~= d);
        assert(encode_crlf(whole) == seq!['\r', '\n'] + encode_crlf(d));
        assert(seq!['\r', '\n'] + s.skip(2) =~= s);
    } else {
        assert(s[0] != '\n');
        if s.len() >= 2 && s[1] == '\n' {
            assert(s[0] == '\r');
            assert(false);
        }
        lemma_all_breaks_skip(s, 1);
        lemma_encode_decode(s.skip(1));
        let d = decode_crlf(s.skip(1));
        let whole = seq![s[0]] + d;
        assert(whole[0] == s[0]);
        assert(whole.skip(1) =~= d);
        assert(encode_crlf(whole) == seq![s[0]] + encode_crlf(d));
        assert(seq![s[0]] + s.skip(1) =~= s);
    }
}

proof fn lemma_decode_no_crlf(s: Seq<char>)
    requires
        !has_crlf(s),
    ensures
        decode_crlf(s) == s,
    decreases s.len(),
{
    if s.len() > 0 {
        if s.len() >= 2 && s[0] == '\r' && s[1] == '\n' {
            lemma_crlf_at(s, 0);
            assert(false);
        }
        assert(!has_crlf(s.skip(1))) by {
            if has_crlf(s.skip(1)) {
                let i = lemma_has_crlf_pos(s.skip(1));
                assert(s.skip(1)[i] == s[i + 1]);
                assert(s.skip(1)[i + 1] == s[i + 2]);
                lemma_crlf_at(s, i + 1);
            }
        }
        lemma_decode_no_crlf(s.skip(1));
        assert(seq![s[0]] + s.skip(1) =~= s);
    }
}

/// Loading a file whose every line feed is part of a carriage-return pair
/// and saving it unchanged, in its detected style, writes back the very same
/// characters.
pub proof fn lemma_eol_round_trip(raw: Seq<char>)
    requires
        all_breaks_crlf(raw),
    ensures
        encoded_for(decode_crlf(raw), detected(raw)) == raw,
{
    if has_crlf(raw) {
        lemma_encode_decode(raw);
    } else {
        lemma_decode_no_crlf(raw);
    }
}

} // verus!
