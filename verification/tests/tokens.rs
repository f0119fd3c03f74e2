use easl_lsp::pattern::PatternMatcher;
use easl_lsp::tokens::{
    encloser_step, encloser_token_type, initial_walk_state, keyword, leaf_annotation,
    number_literal_matcher, operator_step, token_legend_names, EncloserKind, OperatorKind,
    WalkState, TOK_COMMENT, TOK_KEYWORD, TOK_NUMBER, TOK_OPERATOR,
};
use tower_lsp::lsp_types::SemanticTokenType;

#[test]
fn encloser_token_type_cycles_through_seven_colors() {
    assert_eq!(encloser_token_type(0), 4);
    assert_eq!(encloser_token_type(6), 10);
    assert_eq!(encloser_token_type(7), 4);
    assert_eq!(encloser_token_type(15), 5);
    assert_eq!(encloser_token_type(usize::MAX), 4 + (usize::MAX % 7) as u32);
}

#[test]
fn legend_matches_lsp_token_type_names() {
    let names = token_legend_names();
    assert_eq!(names.len(), 11);
    assert_eq!(names[TOK_COMMENT as usize], SemanticTokenType::COMMENT.as_str());
    assert_eq!(names[TOK_KEYWORD as usize], SemanticTokenType::KEYWORD.as_str());
    assert_eq!(names[TOK_NUMBER as usize], SemanticTokenType::NUMBER.as_str());
    assert_eq!(names[TOK_OPERATOR as usize], SemanticTokenType::OPERATOR.as_str());
    for depth in 0..7usize {
        assert_eq!(names[encloser_token_type(depth) as usize], format!("encloserD{depth}"));
    }
}

#[test]
fn keywords_are_recognized_exactly() {
    for k in [
        "let", "defn", "def", "var", "override", "if", "when", "match", "enum", "struct", "fn",
        "return", "break", "loop", "for", "in",
    ] {
        assert!(keyword(k), "{k}");
    }
    for k in ["define", "Let", "", "lets", "in ", "x"] {
        assert!(!keyword(k), "{k}");
    }
}

#[test]
fn number_literals_follow_the_pattern() {
    let m = number_literal_matcher().expect("the number pattern compiles");
    for n in ["0", "42", "3.14", "2f", "7u", "1i", "10.5f", "\u{0663}"] {
        assert!(m.is_match(n), "{n}");
    }
    for n in ["", "x1", "-1", "1.", ".5", "1.5.2", "1ff", "1x", "1 "] {
        assert!(!m.is_match(n), "{n}");
    }
}

#[test]
fn leaf_annotation_prefers_comment_then_keyword_then_number() {
    let m = number_literal_matcher().unwrap();
    let plain = initial_walk_state();
    let commented = WalkState { commented: true, depth: 3 };
    assert_eq!(leaf_annotation("let", plain, &m), Some(TOK_KEYWORD));
    assert_eq!(leaf_annotation("12", plain, &m), Some(TOK_NUMBER));
    assert_eq!(leaf_annotation("foo", plain, &m), None);
    assert_eq!(leaf_annotation("let", commented, &m), Some(TOK_COMMENT));
    assert_eq!(leaf_annotation("foo", commented, &m), Some(TOK_COMMENT));
}

#[test]
fn enclosers_deepen_or_comment_out() {
    let s = WalkState { commented: false, depth: 2 };
    assert_eq!(
        encloser_step(EncloserKind::Bracket, s),
        (WalkState { commented: false, depth: 3 }, Some(6))
    );
    assert_eq!(
        encloser_step(EncloserKind::Comment, s),
        (WalkState { commented: true, depth: 2 }, Some(6))
    );
    let c = WalkState { commented: true, depth: 9 };
    assert_eq!(
        encloser_step(EncloserKind::Bracket, c),
        (WalkState { commented: true, depth: 10 }, Some(TOK_COMMENT))
    );
}

#[test]
fn expression_comment_comments_out_what_follows() {
    let s = WalkState { commented: false, depth: 4 };
    assert_eq!(
        operator_step(OperatorKind::ExpressionComment, s),
        (WalkState { commented: true, depth: 4 }, None)
    );
    assert_eq!(operator_step(OperatorKind::Other, s), (s, Some(TOK_OPERATOR)));
    let c = WalkState { commented: true, depth: 4 };
    assert_eq!(operator_step(OperatorKind::Other, c), (c, Some(TOK_COMMENT)));
}

#[test]
fn comment_state_is_sticky() {
    let m = number_literal_matcher().unwrap();
    let mut s = WalkState { commented: true, depth: 0 };
    for _ in 0..3 {
        let (next, t) = encloser_step(EncloserKind::Bracket, s);
        assert_eq!(t, Some(TOK_COMMENT));
        assert!(next.commented);
        s = next;
    }
    assert_eq!(leaf_annotation("1", s, &m), Some(TOK_COMMENT));
    assert_eq!(s.depth, 3);
}

#[test]
fn invalid_patterns_are_refused() {
    assert!(PatternMatcher::new("(").is_none());
    assert!(PatternMatcher::new("[a-").is_none());
    let m = PatternMatcher::new("^ab$").unwrap();
    assert!(m.is_match("ab"));
    assert!(!m.is_match("abc"));
}
