use easl_lsp::encoding::{
    build_semantic_tokens, collect_raw_tokens, encode_deltas, raw_token, sort_by_position,
    AnnotatedSpan, RawToken, SemanticToken,
};

fn span(start: usize, end: usize, token_type: u32, pos: Option<(usize, usize)>) -> AnnotatedSpan {
    AnnotatedSpan { start, end, token_type, start_position: pos }
}

fn tok(dl: u32, ds: u32, len: u32, ty: u32) -> SemanticToken {
    SemanticToken { delta_line: dl, delta_start: ds, length: len, token_type: ty, token_modifiers_bitset: 0 }
}

fn raw(line: u32, col: u32, length: u32, token_type: u32) -> RawToken {
    RawToken { line, col, length, token_type }
}

// How a client turns the delta stream back into absolute positions.
fn decode(tokens: &[SemanticToken]) -> Vec<RawToken> {
    let (mut line, mut col) = (0u32, 0u32);
    let mut out = Vec::new();
    for t in tokens {
        line += t.delta_line;
        col = if t.delta_line == 0 { col + t.delta_start } else { t.delta_start };
        out.push(raw(line, col, t.length, t.token_type));
    }
    out
}

#[test]
fn raw_token_skips_unplaced_and_empty_spans() {
    assert_eq!(raw_token(&span(3, 7, 2, Some((1, 3)))), Some(raw(1, 3, 4, 2)));
    assert_eq!(raw_token(&span(3, 7, 2, None)), None);
    assert_eq!(raw_token(&span(5, 5, 2, Some((0, 5)))), None);
    assert_eq!(raw_token(&span(9, 4, 2, None)), None);
}

#[test]
fn collect_keeps_span_order() {
    let spans = vec![
        span(10, 12, 1, Some((1, 0))),
        span(0, 1, 4, Some((0, 0))),
        span(2, 2, 3, Some((0, 2))),
        span(4, 6, 2, None),
    ];
    assert_eq!(collect_raw_tokens(&spans), vec![raw(1, 0, 2, 1), raw(0, 0, 1, 4)]);
}

#[test]
fn sort_orders_by_line_then_column() {
    let sorted = sort_by_position(vec![raw(2, 1, 1, 0), raw(0, 5, 1, 1), raw(2, 0, 1, 2), raw(0, 1, 1, 3)]);
    assert_eq!(sorted, vec![raw(0, 1, 1, 3), raw(0, 5, 1, 1), raw(2, 0, 1, 2), raw(2, 1, 1, 0)]);
}

#[test]
fn delta_encoding_of_a_small_document() {
    // (defn f [x] 1)
    //   (+ x 1)
    let raw_tokens = vec![
        raw(0, 0, 1, 4),
        raw(0, 1, 4, 1),
        raw(0, 8, 1, 5),
        raw(0, 12, 1, 2),
        raw(1, 2, 1, 5),
        raw(1, 3, 1, 3),
    ];
    let encoded = encode_deltas(&raw_tokens);
    assert_eq!(
        encoded,
        vec![tok(0, 0, 1, 4), tok(0, 1, 4, 1), tok(0, 7, 1, 5), tok(0, 4, 1, 2), tok(1, 2, 1, 5), tok(0, 1, 1, 3)]
    );
    assert_eq!(decode(&encoded), raw_tokens);
}

#[test]
fn build_semantic_tokens_sorts_then_encodes() {
    let spans = vec![
        span(20, 23, 1, Some((2, 4))),
        span(0, 1, 4, Some((0, 0))),
        span(5, 5, 2, Some((0, 5))),
        span(7, 9, 2, None),
        span(11, 13, 2, Some((1, 3))),
        span(1, 4, 1, Some((0, 1))),
    ];
    let tokens = build_semantic_tokens(&spans);
    assert_eq!(tokens, vec![tok(0, 0, 1, 4), tok(0, 1, 3, 1), tok(1, 3, 2, 2), tok(1, 4, 3, 1)]);
    assert_eq!(
        decode(&tokens),
        vec![raw(0, 0, 1, 4), raw(0, 1, 3, 1), raw(1, 3, 2, 2), raw(2, 4, 3, 1)]
    );
}

#[test]
fn empty_document_has_no_tokens() {
    assert!(build_semantic_tokens(&vec![]).is_empty());
}
