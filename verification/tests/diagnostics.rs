use easl_lsp::diagnostics::{collect_diagnostics, compile_outcome, parse_outcome, type_annotation, ErrorReport};
use easl_lsp::hover::Span;
use easl_lsp::position::{TextPosition, TextRange};

fn range(a: u32, b: u32, c: u32, d: u32) -> TextRange {
    TextRange { start: TextPosition { line: a, character: b }, end: TextPosition { line: c, character: d } }
}

#[test]
fn one_diagnostic_per_placed_span() {
    let reports = vec![
        ErrorReport {
            message: "unbound name".to_string(),
            places: vec![(Some((0, 1)), Some((0, 4))), (None, Some((1, 0))), (Some((2, 0)), Some((2, 3)))],
        },
        ErrorReport { message: "type mismatch".to_string(), places: vec![] },
        ErrorReport { message: "bad".to_string(), places: vec![(Some((3, 3)), None), (Some((4, 0)), Some((5, 1)))] },
    ];
    let d = collect_diagnostics(&reports);
    let got: Vec<(TextRange, String, String)> =
        d.into_iter().map(|x| (x.range, x.message, x.source)).collect();
    assert_eq!(
        got,
        vec![
            (range(0, 1, 0, 4), "unbound name".to_string(), "easl".to_string()),
            (range(2, 0, 2, 3), "unbound name".to_string(), "easl".to_string()),
            (range(4, 0, 5, 1), "bad".to_string(), "easl".to_string()),
        ]
    );
}

#[test]
fn positions_are_cut_to_32_bits() {
    let big = (1usize << 32) + 5;
    let d = collect_diagnostics(&vec![ErrorReport { message: "m".to_string(), places: vec![(Some((big, 1)), Some((big, 2)))] }]);
    assert_eq!(d[0].range, range(5, 1, 5, 2));
}

#[test]
fn parse_failures_decide_the_outcome() {
    assert!(parse_outcome(&vec![]).is_none());
    let failures = vec![ErrorReport { message: "unclosed (".to_string(), places: vec![(Some((0, 0)), Some((0, 1)))] }];
    let o = parse_outcome(&failures).unwrap();
    assert!(o.annotations.is_empty());
    assert_eq!(o.diagnostics.len(), 1);
    assert_eq!(o.diagnostics[0].message, "unclosed (");
    let c = compile_outcome(vec![type_annotation(None, true, true, "f32".to_string())], &vec![]);
    assert_eq!(c.annotations.len(), 1);
    assert!(c.diagnostics.is_empty());
}

#[test]
fn unknown_type_states_are_marked() {
    let a = type_annotation(Some(Span { start: 1, end: 4 }), false, false, "T".to_string());
    assert_eq!(a.description, "?? T");
    assert!(!a.is_known);
    assert_eq!(a.primary_span, Some(Span { start: 1, end: 4 }));
    let b = type_annotation(None, false, true, "vec2<T>".to_string());
    assert_eq!(b.description, "vec2<T>");
    assert!(!b.is_known);
}
