use easl_lsp::hover::{best_annotation, hover_text, Span, TypeAnnotation};

fn ann(start: usize, end: usize, known: bool, d: &str) -> TypeAnnotation {
    TypeAnnotation { primary_span: Some(Span { start, end }), is_known: known, description: d.to_string() }
}

#[test]
fn tightest_span_wins() {
    let anns = vec![ann(0, 20, true, "outer"), ann(5, 10, true, "inner"), ann(6, 9, true, "tight")];
    assert_eq!(best_annotation(&anns, 7), Some(2));
    assert_eq!(best_annotation(&anns, 5), Some(1));
    assert_eq!(best_annotation(&anns, 15), Some(0));
    assert_eq!(best_annotation(&anns, 20), None);
}

#[test]
fn tighter_span_wins_over_known_type() {
    let anns = vec![ann(2, 4, false, "?? T"), ann(0, 10, true, "f32")];
    assert_eq!(best_annotation(&anns, 3), Some(0));
    let anns = vec![ann(0, 10, true, "f32"), ann(2, 4, false, "?? T")];
    assert_eq!(best_annotation(&anns, 3), Some(1));
}

#[test]
fn known_type_breaks_ties() {
    let anns = vec![ann(5, 10, false, "?? T"), ann(5, 10, true, "f32")];
    assert_eq!(best_annotation(&anns, 6), Some(1));
    let anns = vec![ann(5, 10, true, "i32"), ann(5, 10, false, "?? T")];
    assert_eq!(best_annotation(&anns, 6), Some(0));
    // among equally good ones, the first is shown
    let anns = vec![ann(5, 10, true, "a"), ann(5, 10, true, "b")];
    assert_eq!(best_annotation(&anns, 6), Some(0));
}

#[test]
fn annotations_without_span_are_skipped() {
    let anns = vec![
        TypeAnnotation { primary_span: None, is_known: true, description: "x".to_string() },
        ann(1, 2, true, "y"),
    ];
    assert_eq!(best_annotation(&anns, 1), Some(1));
    assert_eq!(best_annotation(&anns, 0), None);
}

#[test]
fn hover_text_is_a_code_block() {
    let anns = vec![ann(0, 3, true, "vec4f")];
    assert_eq!(hover_text(&anns, 1), Some("```\nvec4f\n```".to_string()));
    assert_eq!(hover_text(&anns, 3), None);
    assert_eq!(hover_text(&vec![], 0), None);
}
