use dopepad::persist::{
    decode_document, detect_eol, encode_document, sidecar_path_for, EolStyle,
};
use dopepad::strutil::{ensure_txt_ext, parse_usize, trim};

#[test]
fn eol_detection_and_round_trip() {
    // a file of carriage-return+line-feed pairs decodes to plain line feeds
    // and, saved unmodified in its detected style, comes back byte-identical
    let raw = "a\r\nb\r\n";
    let doc = decode_document(raw);
    assert_eq!(doc.eol, EolStyle::Crlf);
    assert_eq!(doc.text, "a\nb\n");
    let saved = encode_document(&doc.text, doc.eol);
    assert_eq!(saved, raw);
    assert_eq!(detect_eol(&saved), EolStyle::Crlf);
}

#[test]
fn plain_line_feeds_round_trip_unchanged() {
    let raw = "a\nb\nc";
    let doc = decode_document(raw);
    assert_eq!(doc.eol, EolStyle::Lf);
    assert_eq!(doc.text, raw);
    assert_eq!(encode_document(&doc.text, doc.eol), raw);
}

#[test]
fn lone_carriage_returns_survive_decoding() {
    let raw = "a\rb";
    let doc = decode_document(raw);
    assert_eq!(doc.eol, EolStyle::Lf);
    assert_eq!(doc.text, "a\rb");
}

#[test]
fn mixed_endings_normalize_to_crlf_on_save() {
    // a bare line feed next to a pair: decoding normalizes both, saving in
    // the detected style re-encodes every break as a pair
    let raw = "a\nb\r\n";
    let doc = decode_document(raw);
    assert_eq!(doc.eol, EolStyle::Crlf);
    assert_eq!(doc.text, "a\nb\n");
    assert_eq!(encode_document(&doc.text, doc.eol), "a\r\nb\r\n");
}

#[test]
fn sidecar_path_appends_fixed_suffix() {
    assert_eq!(
        sidecar_path_for("/notes/Work/a.txt"),
        "/notes/Work/a.txt.dopedpad.json"
    );
}

#[test]
fn parse_usize_accepts_digits_only() {
    assert_eq!(parse_usize("42"), Some(42));
    assert_eq!(parse_usize("0"), Some(0));
    assert_eq!(parse_usize(""), None);
    assert_eq!(parse_usize("4x2"), None);
    assert_eq!(parse_usize("99999999999999999999999999"), None);
}

#[test]
fn trim_strips_surrounding_whitespace() {
    assert_eq!(trim("  hello  "), "hello");
    assert_eq!(trim("\t a b \t"), "a b");
    assert_eq!(trim("   "), "");
    assert_eq!(trim("x"), "x");
}

#[test]
fn ensure_txt_ext_appends_when_missing() {
    assert_eq!(ensure_txt_ext("memo"), "memo.txt");
    assert_eq!(ensure_txt_ext("memo.txt"), "memo.txt");
    assert_eq!(ensure_txt_ext(""), ".txt");
}
