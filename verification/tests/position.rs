use easl_lsp::position::{document_end, whole_document_range, TextPosition};

#[test]
fn document_end_is_after_the_last_byte() {
    let cases: [(&str, u32, u32); 10] = [
        ("", 0, 0),
        ("a", 0, 1),
        ("ab\n", 1, 0),
        ("a\r\nbc", 1, 2),
        ("ab\r\n", 1, 0),
        ("a\n\n", 2, 0),
        ("x\r", 0, 2),
        ("h\u{e9}llo", 0, 6),
        ("\n", 1, 0),
        ("(defn f [] 1)\n  (g)", 1, 5),
    ];
    for (text, line, character) in cases {
        assert_eq!(document_end(text), TextPosition { line, character }, "{text:?}");
    }
}

#[test]
fn whole_range_starts_at_origin() {
    let r = whole_document_range("ab\ncd\n");
    assert_eq!(r.start, TextPosition { line: 0, character: 0 });
    assert_eq!(r.end, TextPosition { line: 2, character: 0 });
    let r = whole_document_range("ab\n");
    assert_eq!(r.end, TextPosition { line: 1, character: 0 });
}
