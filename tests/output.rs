use pc::output::{
    decimal_string, json_record, object_from_literals, render_text_block, size_skip_message,
    JsonArrayWriter,
};

#[test]
fn text_block_without_end_marker() {
    assert_eq!(
        render_text_block("src/main.py", "print('hello')\n", false),
        "========== FILE: src/main.py ==========\nprint('hello')\n\n"
    );
}

#[test]
fn text_block_adds_missing_newline_and_end_marker() {
    assert_eq!(
        render_text_block("a.rs", "fn main() {}", true),
        "========== FILE: a.rs ==========\nfn main() {}\n========== END FILE: a.rs ==========\n\n"
    );
}

#[test]
fn text_block_empty_content() {
    assert_eq!(
        render_text_block("e.py", "", false),
        "========== FILE: e.py ==========\n\n\n"
    );
}

#[test]
fn json_record_escapes() {
    let r = json_record("src/main.py", "main.py", "print(\"hi\")\n");
    assert_eq!(
        r,
        "{\"path\":\"src/main.py\",\"file_name\":\"main.py\",\"content\":\"print(\\\"hi\\\")\\n\"}"
    );
}

#[test]
fn object_from_literal_parts() {
    assert_eq!(
        object_from_literals("\"a\"", "\"b\"", "\"c\""),
        "{\"path\":\"a\",\"file_name\":\"b\",\"content\":\"c\"}"
    );
}

#[test]
fn json_array_with_no_records() {
    let (w, open) = JsonArrayWriter::begin();
    let doc = format!("{}{}", open, w.finish());
    assert_eq!(doc, "[\n\n]\n");
}

#[test]
fn json_array_with_two_records() {
    let (mut w, open) = JsonArrayWriter::begin();
    let mut doc = open;
    doc.push_str(&w.item("{\"a\":1}"));
    doc.push_str(&w.item("{\"b\":2}"));
    doc.push_str(&w.finish());
    assert_eq!(doc, "[\n{\"a\":1},\n{\"b\":2}\n]\n");
}

#[test]
fn decimal_forms() {
    assert_eq!(decimal_string(0), "0");
    assert_eq!(decimal_string(110), "110");
    assert_eq!(decimal_string(u64::MAX), u64::MAX.to_string());
}

#[test]
fn size_skip_names_file_size_and_limit() {
    let m = size_skip_message("big.py", 110, 50);
    assert_eq!(m, "Skipping big.py (size 110 bytes > max 50 bytes)");
}

#[test]
fn json_record_escapes_controls_and_backslash() {
    let r = json_record("a\\b", "t\tx", "\u{1}\r\u{8}\u{c}é");
    assert_eq!(
        r,
        "{\"path\":\"a\\\\b\",\"file_name\":\"t\\tx\",\"content\":\"\\u0001\\r\\b\\fé\"}"
    );
}
