//! Semantic-token classification and the LSP delta encoding of tokens.

use crate::pattern::PatternMatcher;
use crate::pattern::regex_compiles;
use crate::pattern::regex_is_match;
use vstd::prelude::*;

verus! {

/// Index of the `comment` token type in the legend.
pub const TOK_COMMENT: u32 = 0;
/// Index of the `keyword` token type in the legend.
pub const TOK_KEYWORD: u32 = 1;
/// Index of the `number` token type in the legend.
pub const TOK_NUMBER: u32 = 2;
/// Index of the `operator` token type in the legend.
pub const TOK_OPERATOR: u32 = 3;
/// Index of the first encloser-depth token type in the legend.
pub const TOK_FIRST_ENCLOSER: u32 = 4;
/// Number of distinct encloser-depth colors; deeper enclosers cycle through them.
pub const ENCLOSER_COLORS: usize = 7;

/// The token type of an encloser at nesting depth `depth`.
pub open spec fn spec_encloser_token_type(depth: nat) -> u32 {
    (TOK_FIRST_ENCLOSER + depth % (ENCLOSER_COLORS as nat)) as u32
}

/// Token type used to color an encloser at nesting depth `depth`: the
/// depth colors repeat every seven levels.
pub fn encloser_token_type(depth: usize) -> (t: u32)
    ensures
        t == spec_encloser_token_type(depth as nat),
        TOK_FIRST_ENCLOSER <= t < TOK_FIRST_ENCLOSER + ENCLOSER_COLORS,
{
    let r: usize = depth % ENCLOSER_COLORS;
    TOK_FIRST_ENCLOSER + (r as u32)
}


/// The names of the token types, in legend order: a token's type is an index
/// into this list.
pub open spec fn token_legend() -> Seq<Seq<char>> {
    seq![
        "comment"@,
        "keyword"@,
        "number"@,
        "operator"@,
        "encloserD0"@,
        "encloserD1"@,
        "encloserD2"@,
        "encloserD3"@,
        "encloserD4"@,
        "encloserD5"@,
        "encloserD6"@,
    ]
}

/// The legend of token types that the server declares.
pub fn token_legend_names() -> (r: Vec<&'static str>)
    ensures
        r@.len() == token_legend().len(),
        forall|i: int| 0 <= i < r@.len() ==> (#[trigger] r@[i])@ == token_legend()[i],
{
    let r = vec![
        "comment",
        "keyword",
        "number",
        "operator",
        "encloserD0",
        "encloserD1",
        "encloserD2",
        "encloserD3",
        "encloserD4",
        "encloserD5",
        "encloserD6",
    ];
    assert forall|i: int| 0 <= i < r@.len() implies (#[trigger] r@[i])@ == token_legend()[i] by {}
    r
}

/// Every token type that coloring produces names an entry of the legend, and
/// the fixed types name the entries they stand for.
pub proof fn lemma_token_types_in_legend(depth: nat)
    ensures
        token_legend()[TOK_COMMENT as int] == "comment"@,
        token_legend()[TOK_KEYWORD as int] == "keyword"@,
        token_legend()[TOK_NUMBER as int] == "number"@,
        token_legend()[TOK_OPERATOR as int] == "operator"@,
        spec_encloser_token_type(depth) < token_legend().len(),
        token_legend()[spec_encloser_token_type(depth) as int] == token_legend().subrange(
            TOK_FIRST_ENCLOSER as int,
            token_legend().len() as int,
        )[(depth % 7) as int],
{
}

/// Encloser colors repeat every seven levels of nesting, and neighbouring
/// levels never share a color.
pub proof fn lemma_encloser_colors_cycle(depth: nat)
    ensures
        spec_encloser_token_type(depth + ENCLOSER_COLORS as nat) == spec_encloser_token_type(depth),
        spec_encloser_token_type(depth + 1) != spec_encloser_token_type(depth),
{
}

/// How a leaf is colored: inside a comment as a comment; otherwise each of the
/// sixteen keywords as a keyword, a leaf the number pattern matches (and that
/// is no keyword) as a number, and any other leaf not at all.
pub proof fn lemma_leaf_colors(leaf: Seq<char>, state: WalkState, is_number: bool)
    ensures
        state.commented ==> spec_leaf_annotation(leaf, state, is_number) == Some(0u32),
        !state.commented ==> spec_leaf_annotation("let"@, state, is_number) == Some(1u32),
        !state.commented ==> spec_leaf_annotation("defn"@, state, is_number) == Some(1u32),
        !state.commented ==> spec_leaf_annotation("def"@, state, is_number) == Some(1u32),
        !state.commented ==> spec_leaf_annotation("var"@, state, is_number) == Some(1u32),
        !state.commented ==> spec_leaf_annotation("override"@, state, is_number) == Some(1u32),
        !state.commented ==> spec_leaf_annotation("if"@, state, is_number) == Some(1u32),
        !state.commented ==> spec_leaf_annotation("when"@, state, is_number) == Some(1u32),
        !state.commented ==> spec_leaf_annotation("match"@, state, is_number) == Some(1u32),
        !state.commented ==> spec_leaf_annotation("enum"@, state, is_number) == Some(1u32),
        !state.commented ==> spec_leaf_annotation("struct"@, state, is_number) == Some(1u32),
        !state.commented ==> spec_leaf_annotation("fn"@, state, is_number) == Some(1u32),
        !state.commented ==> spec_leaf_annotation("return"@, state, is_number) == Some(1u32),
        !state.commented ==> spec_leaf_annotation("break"@, state, is_number) == Some(1u32),
        !state.commented ==> spec_leaf_annotation("loop"@, state, is_number) == Some(1u32),
        !state.commented ==> spec_leaf_annotation("for"@, state, is_number) == Some(1u32),
        !state.commented ==> spec_leaf_annotation("in"@, state, is_number) == Some(1u32),
        !state.commented && !is_keyword(leaf) && is_number ==> spec_leaf_annotation(
            leaf,
            state,
            is_number,
        ) == Some(2u32),
        !state.commented && !is_keyword(leaf) && !is_number ==> spec_leaf_annotation(
            leaf,
            state,
            is_number,
        ) is None,
{
}

/// How an encloser is colored and what it does to the state: outside a comment
/// an encloser at depth `d` gets the color `4 + d % 7`, inside a comment the
/// comment color; a bracket leaves the comment state alone and deepens the
/// nesting by one, a comment encloser comments out its contents at the same
/// depth.
pub proof fn lemma_encloser_colors(kind: EncloserKind, state: WalkState)
    requires
        state.depth < usize::MAX,
    ensures
        !state.commented ==> spec_encloser_step(kind, state).1 == Some((4 + state.depth % 7) as u32),
        state.commented ==> spec_encloser_step(kind, state).1 == Some(0u32),
        kind is Bracket ==> spec_encloser_step(kind, state).0 == (WalkState {
            commented: state.commented,
            depth: (state.depth + 1) as usize,
        }),
        kind is Comment ==> spec_encloser_step(kind, state).0 == (WalkState {
            commented: true,
            depth: state.depth,
        }),
{
}

/// Inside a comment everything stays commented out: each leaf, encloser and
/// operator is colored as a comment (a `#_` is not colored), and the state
/// below it is still commented at the same depth, or one deeper below a
/// bracket.
pub proof fn lemma_comment_is_sticky(
    state: WalkState,
    leaf: Seq<char>,
    is_number: bool,
    encloser: EncloserKind,
    operator: OperatorKind,
)
    requires
        state.commented,
        state.depth < usize::MAX,
    ensures
        spec_leaf_annotation(leaf, state, is_number) == Some(TOK_COMMENT),
        spec_encloser_step(encloser, state).0.commented,
        spec_encloser_step(encloser, state).1 == Some(TOK_COMMENT),
        spec_operator_step(operator, state).0.commented,
        spec_operator_step(operator, state).0.depth == state.depth,
        operator is Other ==> spec_operator_step(operator, state).1 == Some(TOK_COMMENT),
        operator is ExpressionComment ==> spec_operator_step(operator, state).1 is None,
{
}

/// The pattern that a leaf must match to be colored as a number literal:
/// digits, an optional fraction, and an optional `i`, `u` or `f` suffix.
pub const NUMBER_LITERAL_PATTERN: &'static str = r"^\d+(\.\d+)?[iuf]?$";

/// Compiles the number-literal pattern.
pub fn number_literal_matcher() -> (r: Option<PatternMatcher>)
    ensures
        r is Some <==> regex_compiles(NUMBER_LITERAL_PATTERN@),
        r matches Some(m) ==> m@ == NUMBER_LITERAL_PATTERN@,
{
    PatternMatcher::new(NUMBER_LITERAL_PATTERN)
}

/// The state carried down the syntax tree while annotating it: whether the
/// subtree is commented out, and how many enclosers surround it.
#[derive(Clone, Copy, Debug, PartialEq, Eq)]
pub struct WalkState {
    pub commented: bool,
    pub depth: usize,
}

/// The state at the root of a document.
pub fn initial_walk_state() -> (s: WalkState)
    ensures
        s == (WalkState { commented: false, depth: 0 }),
{
    WalkState { commented: false, depth: 0 }
}

/// The kind of an encloser, as far as coloring is concerned.
#[derive(Clone, Copy, Debug, PartialEq, Eq)]
pub enum EncloserKind {
    /// A line comment or a block comment.
    Comment,
    /// Any other encloser: parentheses, square brackets, curly braces.
    Bracket,
}

/// The kind of a prefix operator, as far as coloring is concerned.
#[derive(Clone, Copy, Debug, PartialEq, Eq)]
pub enum OperatorKind {
    /// `#_`, which comments out the form that follows it.
    ExpressionComment,
    /// Any other operator.
    Other,
}

/// The words that are colored as keywords.
pub open spec fn is_keyword(leaf: Seq<char>) -> bool {
    ||| leaf == "let"@
    ||| leaf == "defn"@
    ||| leaf == "def"@
    ||| leaf == "var"@
    ||| leaf == "override"@
    ||| leaf == "if"@
    ||| leaf == "when"@
    ||| leaf == "match"@
    ||| leaf == "enum"@
    ||| leaf == "struct"@
    ||| leaf == "fn"@
    ||| leaf == "return"@
    ||| leaf == "break"@
    ||| leaf == "loop"@
    ||| leaf == "for"@
    ||| leaf == "in"@
}

/// The token type of a leaf: commented leaves are comments, then keywords,
/// then leaves that the number pattern matches; any other leaf is not colored.
pub open spec fn spec_leaf_annotation(leaf: Seq<char>, state: WalkState, is_number: bool) -> Option<
    u32,
> {
    if state.commented {
        Some(TOK_COMMENT)
    } else if is_keyword(leaf) {
        Some(TOK_KEYWORD)
    } else if is_number {
        Some(TOK_NUMBER)
    } else {
        None
    }
}

fn same_text(a: &str, b: &str) -> (r: bool)
    ensures
        r == (a@ == b@),
{
    let a_owned: String = a.to_owned();
    let b_owned: String = b.to_owned();
    a_owned == b_owned
}

/// Whether `leaf` is one of the keywords.
pub fn keyword(leaf: &str) -> (r: bool)
    ensures
        r == is_keyword(leaf@),
{
    same_text(leaf, "let") || same_text(leaf, "defn") || same_text(leaf, "def") || same_text(
        leaf,
        "var",
    ) || same_text(leaf, "override") || same_text(leaf, "if") || same_text(leaf, "when")
        || same_text(leaf, "match") || same_text(leaf, "enum") || same_text(leaf, "struct")
        || same_text(leaf, "fn") || same_text(leaf, "return") || same_text(leaf, "break")
        || same_text(leaf, "loop") || same_text(leaf, "for") || same_text(leaf, "in")
}

/// The token type of a leaf reached in `state`; `numbers` decides what counts
/// as a number literal.
pub fn leaf_annotation(leaf: &str, state: WalkState, numbers: &PatternMatcher) -> (r: Option<u32>)
    ensures
        r == spec_leaf_annotation(leaf@, state, regex_is_match(numbers@, leaf@)),
{
    if state.commented {
        Some(TOK_COMMENT)
    } else if keyword(leaf) {
        Some(TOK_KEYWORD)
    } else if numbers.is_match(leaf) {
        Some(TOK_NUMBER)
    } else {
        None
    }
}

/// Entering an encloser: the encloser itself is colored by depth (or as a
/// comment inside a comment); a comment encloser comments out its contents at
/// the same depth, any other encloser deepens the nesting by one.
pub open spec fn spec_encloser_step(kind: EncloserKind, state: WalkState) -> (WalkState, Option<u32>) {
    let annotation = if state.commented {
        Some(TOK_COMMENT)
    } else {
        Some(spec_encloser_token_type(state.depth as nat))
    };
    let next = match kind {
        EncloserKind::Comment => WalkState { commented: true, depth: state.depth },
        EncloserKind::Bracket => WalkState {
            commented: state.commented,
            depth: (state.depth + 1) as usize,
        },
    };
    (next, annotation)
}

/// The state inside an encloser of kind `kind` entered in `state`, and the
/// token type of the encloser.
pub fn encloser_step(kind: EncloserKind, state: WalkState) -> (r: (WalkState, Option<u32>))
    requires
        state.depth < usize::MAX,
    ensures
        r == spec_encloser_step(kind, state),
{
    let deeper = WalkState { commented: state.commented, depth: state.depth + 1 };
    let annotation = if state.commented {
        Some(TOK_COMMENT)
    } else {
        Some(encloser_token_type(state.depth))
    };
    let next = match kind {
        EncloserKind::Comment => WalkState { commented: true, depth: state.depth },
        EncloserKind::Bracket => deeper,
    };
    (next, annotation)
}

/// Passing an operator: `#_` comments out what follows and is not colored
/// itself; any other operator is colored as an operator (or as a comment
/// inside a comment) and leaves the state as it was.
pub open spec fn spec_operator_step(kind: OperatorKind, state: WalkState) -> (WalkState, Option<u32>) {
    match kind {
        OperatorKind::ExpressionComment => (WalkState { commented: true, depth: state.depth }, None),
        OperatorKind::Other => (
            state,
            if state.commented {
                Some(TOK_COMMENT)
            } else {
                Some(TOK_OPERATOR)
            },
        ),
    }
}

/// The state after an operator of kind `kind` reached in `state`, and the
/// token type of the operator.
pub fn operator_step(kind: OperatorKind, state: WalkState) -> (r: (WalkState, Option<u32>))
    ensures
        r == spec_operator_step(kind, state),
{
    match kind {
        OperatorKind::ExpressionComment => (WalkState { commented: true, depth: state.depth }, None),
        OperatorKind::Other => {
            let annotation = if state.commented {
                Some(TOK_COMMENT)
            } else {
                Some(TOK_OPERATOR)
            };
            (state, annotation)
        },
    }
}

} // verus!
