use easl_lsp::hover::{Span, TypeAnnotation};
use easl_lsp::store::DocumentStore;

fn ann(d: &str) -> TypeAnnotation {
    TypeAnnotation { primary_span: Some(Span { start: 0, end: 1 }), is_known: true, description: d.to_string() }
}

#[test]
fn text_reads_back_what_was_written() {
    let mut s = DocumentStore::new();
    assert_eq!(s.text("file:///a.easl"), None);
    s.set_text("file:///a.easl", "(def x 1)".to_string());
    assert_eq!(s.text("file:///a.easl"), Some("(def x 1)".to_string()));
    assert_eq!(s.annotations("file:///a.easl").map(|a| a.len()), Some(0));
    s.set_text("file:///a.easl", "(def x 2)".to_string());
    assert_eq!(s.text("file:///a.easl"), Some("(def x 2)".to_string()));
    assert_eq!(s.text("file:///b.easl"), None);
}

#[test]
fn annotations_survive_text_updates_and_keep_text() {
    let mut s = DocumentStore::new();
    s.set_text("u", "one".to_string());
    s.set_annotations("u", vec![ann("f32")]);
    assert_eq!(s.text("u"), Some("one".to_string()));
    s.set_text("u", "two".to_string());
    let a = s.annotations("u").unwrap();
    assert_eq!(a.len(), 1);
    assert_eq!(a[0].description, "f32");
    assert_eq!(s.text("u"), Some("two".to_string()));
}

#[test]
fn closed_documents_are_forgotten_and_late_annotations_dropped() {
    let mut s = DocumentStore::new();
    s.set_text("u", "x".to_string());
    s.set_text("v", "y".to_string());
    s.close("u");
    assert_eq!(s.text("u"), None);
    s.set_annotations("u", vec![ann("i32")]);
    assert_eq!(s.text("u"), None);
    assert!(s.annotations("u").is_none());
    assert_eq!(s.text("v"), Some("y".to_string()));
}
