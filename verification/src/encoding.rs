//! From annotated source spans to the LSP semantic-token stream: spans become
//! absolute tokens, the tokens are ordered by position, and each token is
//! written relative to the one before it.

use vstd::prelude::*;

verus! {

/// A colored span of the source as the syntax walk reports it: byte range,
/// token type, and the (line, column) of its start where the document could
/// place it.
#[derive(Clone, Copy, Debug, PartialEq, Eq)]
pub struct AnnotatedSpan {
    pub start: usize,
    pub end: usize,
    pub token_type: u32,
    pub start_position: Option<(usize, usize)>,
}

/// A token at an absolute position.
#[derive(Clone, Copy, Debug, PartialEq, Eq)]
pub struct RawToken {
    pub line: u32,
    pub col: u32,
    pub length: u32,
    pub token_type: u32,
}

/// A token in the LSP delta format: its line relative to the previous token,
/// and its start relative to the previous token's start when both share a line.
#[derive(Clone, Copy, Debug, PartialEq, Eq)]
pub struct SemanticToken {
    pub delta_line: u32,
    pub delta_start: u32,
    pub length: u32,
    pub token_type: u32,
    pub token_modifiers_bitset: u32,
}

/// The token that a span yields: none where its start has no position or
/// where it is empty; line, column and length are cut to 32 bits.
pub open spec fn spec_raw_token(a: AnnotatedSpan) -> Option<RawToken> {
    match a.start_position {
        None => None,
        Some(pos) => {
            let length = (a.end - a.start) as u32;
            if length == 0 {
                None
            } else {
                Some(
                    RawToken {
                        line: pos.0 as u32,
                        col: pos.1 as u32,
                        length,
                        token_type: a.token_type,
                    },
                )
            }
        },
    }
}

/// A span whose length can be taken: a placed span does not end before it starts.
pub open spec fn span_ok(a: AnnotatedSpan) -> bool {
    a.start_position is Some ==> a.start <= a.end
}

/// The tokens of the spans, in the order of the spans.
pub open spec fn spec_collect(spans: Seq<AnnotatedSpan>) -> Seq<RawToken>
    decreases spans.len(),
{
    if spans.len() == 0 {
        Seq::empty()
    } else {
        let rest = spec_collect(spans.drop_last());
        match spec_raw_token(spans.last()) {
            Some(t) => rest.push(t),
            None => rest,
        }
    }
}

/// The tokens of two runs of spans are those of the first run followed by
/// those of the second: every span is turned into tokens on its own.
pub proof fn lemma_collect_concat(a: Seq<AnnotatedSpan>, b: Seq<AnnotatedSpan>)
    ensures
        spec_collect(a + b) == spec_collect(a) + spec_collect(b),
    decreases b.len(),
{
    if b.len() == 0 {
        assert(a + b =~= a);
        assert(spec_collect(a) + spec_collect(b) =~= spec_collect(a));
    } else {
        lemma_collect_concat(a, b.drop_last());
        assert((a + b).drop_last() =~= a + b.drop_last());
        assert((a + b).last() == b.last());
        let rest = spec_collect(a) + spec_collect(b.drop_last());
        match spec_raw_token(b.last()) {
            Some(t) => {
                assert(rest.push(t) =~= spec_collect(a) + spec_collect(b.drop_last()).push(t));
            },
            None => {},
        }
    }
}

/// One span yields exactly one token where it has a start position and a
/// length that is not zero in 32 bits: the token sits at that (line, column),
/// has that length and keeps the span's own token type, whatever the type.
/// Any other span yields no token.
pub proof fn lemma_collect_single(a: AnnotatedSpan)
    ensures
        a.start_position matches Some(p) ==> ((a.end - a.start) as u32 != 0 ==> spec_collect(
            seq![a],
        ) == seq![
            RawToken {
                line: p.0 as u32,
                col: p.1 as u32,
                length: (a.end - a.start) as u32,
                token_type: a.token_type,
            },
        ]),
        !(a.start_position is Some && (a.end - a.start) as u32 != 0) ==> spec_collect(seq![a]).len()
            == 0,
{
    assert(seq![a].drop_last() =~= Seq::<AnnotatedSpan>::empty());
    assert(seq![a].last() == a);
    let e = Seq::<RawToken>::empty();
    assert(spec_collect(Seq::<AnnotatedSpan>::empty()) == e);
    if let Some(t) = spec_raw_token(a) {
        assert(e.push(t) =~= seq![t]);
    }
}

/// Every span with a start position and a length that is not zero in 32 bits
/// gives its token, at its start and with its length and token type, among
/// the tokens of all the spans.
pub proof fn lemma_collect_keeps_every_span(spans: Seq<AnnotatedSpan>, i: int)
    requires
        0 <= i < spans.len(),
    ensures
        spans[i].start_position matches Some(p) ==> ((spans[i].end - spans[i].start) as u32 != 0
            ==> spec_collect(spans).contains(
            RawToken {
                line: p.0 as u32,
                col: p.1 as u32,
                length: (spans[i].end - spans[i].start) as u32,
                token_type: spans[i].token_type,
            },
        )),
{
    let a = spans[i];
    let pre = spans.take(i);
    let post = spans.skip(i + 1);
    assert(spans =~= pre + seq![a] + post);
    lemma_collect_concat(pre + seq![a], post);
    lemma_collect_concat(pre, seq![a]);
    lemma_collect_single(a);
    if let Some(p) = a.start_position {
        if (a.end - a.start) as u32 != 0 {
            let t = RawToken {
                line: p.0 as u32,
                col: p.1 as u32,
                length: (a.end - a.start) as u32,
                token_type: a.token_type,
            };
            let c = spec_collect(pre) + seq![t] + spec_collect(post);
            assert(c[spec_collect(pre).len() as int] == t);
        }
    }
}

/// The token that one span yields.
pub fn raw_token(a: &AnnotatedSpan) -> (r: Option<RawToken>)
    requires
        span_ok(*a),
    ensures
        r == spec_raw_token(*a),
{
    match a.start_position {
        None => None,
        Some((line, col)) => {
            let diff: usize = a.end - a.start;
            let length: u32 = #[verifier::truncate] (diff as u32);
            if length == 0 {
                None
            } else {
                Some(
                    RawToken {
                        line: #[verifier::truncate] (line as u32),
                        col: #[verifier::truncate] (col as u32),
                        length,
                        token_type: a.token_type,
                    },
                )
            }
        },
    }
}

/// The tokens of all the spans, in order.
pub fn collect_raw_tokens(spans: &Vec<AnnotatedSpan>) -> (r: Vec<RawToken>)
    requires
        forall|i: int| 0 <= i < spans@.len() ==> span_ok(#[trigger] spans@[i]),
    ensures
        r@ == spec_collect(spans@),
{
    let mut out: Vec<RawToken> = Vec::new();
    let mut i: usize = 0;
    while i < spans.len()
        invariant
            i <= spans@.len(),
            forall|k: int| 0 <= k < spans@.len() ==> span_ok(#[trigger] spans@[k]),
            out@ == spec_collect(spans@.take(i as int)),
        decreases spans@.len() - i,
    {
        proof {
            assert(spans@.take(i + 1).drop_last() =~= spans@.take(i as int));
        }
        match raw_token(&spans[i]) {
            Some(t) => out.push(t),
            None => {},
        }
        i = i + 1;
    }
    proof {
        assert(spans@.take(spans@.len() as int) =~= spans@);
    }
    out
}

/// `a` does not come after `b` in the document.
pub open spec fn position_le(a: RawToken, b: RawToken) -> bool {
    a.line < b.line || (a.line == b.line && a.col <= b.col)
}

/// Tokens ordered by line, then column.
pub open spec fn sorted_by_position(s: Seq<RawToken>) -> bool {
    forall|i: int, j: int| 0 <= i < j < s.len() ==> position_le(#[trigger] s[i], #[trigger] s[j])
}

/// Orders tokens by line, then column. Tokens at the same position may come
/// out in any order; none is lost or added.
pub fn sort_by_position(tokens: Vec<RawToken>) -> (r: Vec<RawToken>)
    ensures
        sorted_by_position(r@),
        r@.to_multiset() =~= tokens@.to_multiset(),
{
    broadcast use vstd::seq_lib::group_to_multiset_ensures;

    let mut out: Vec<RawToken> = Vec::new();
    let mut i: usize = 0;
    while i < tokens.len()
        invariant
            i <= tokens@.len(),
            sorted_by_position(out@),
            out@.to_multiset() =~= tokens@.take(i as int).to_multiset(),
        decreases tokens@.len() - i,
    {
        let t = tokens[i];
        let mut p: usize = out.len();
        while p > 0 && !(out[p - 1].line < t.line || (out[p - 1].line == t.line && out[p - 1].col
            <= t.col))
            invariant
                p <= out@.len(),
                forall|k: int| p <= k < out@.len() ==> !position_le(#[trigger] out@[k], t),
            decreases p,
        {
            p = p - 1;
        }
        let ghost before = out@;
        out.insert(p, t);
        proof {
            let after = out@;
            assert(after =~= before.insert(p as int, t));
            before.insert_ensures(p as int, t);
            assert(after.remove(p as int) =~= before);
            assert(after[p as int] == t);
            assert(after.to_multiset() =~= before.to_multiset().insert(t)) by {
                after.to_multiset_ensures();
                assert(after.contains(t));
                assert(after.remove(p as int).to_multiset() =~= after.to_multiset().remove(t));
                assert(after.to_multiset().count(t) > 0);
            }
            assert(tokens@.take(i + 1) =~= tokens@.take(i as int).push(t));
            tokens@.take(i as int).to_multiset_ensures();
            assert(tokens@.take(i + 1).to_multiset() =~= tokens@.take(i as int).to_multiset().insert(t));
            assert forall|a: int, b: int| 0 <= a < b < after.len() implies position_le(
                #[trigger] after[a],
                #[trigger] after[b],
            ) by {
                if b < p {
                } else if a < p && b == p {
                    // everything before p is not after t
                    if p > 0 {
                        assert(position_le(before[p - 1], t));
                        assert(position_le(before[a], before[p - 1]) || a == p - 1);
                    }
                } else if a < p {
                    assert(after[b] == before[b - 1]);
                    if p < before.len() {
                        assert(!position_le(before[p as int], t));
                    }
                } else if a == p {
                    assert(after[b] == before[b - 1]);
                    assert(!position_le(before[b - 1], t));
                } else {
                    assert(after[a] == before[a - 1]);
                    assert(after[b] == before[b - 1]);
                }
            }
        }
        i = i + 1;
    }
    proof {
        assert(tokens@.take(tokens@.len() as int) =~= tokens@);
    }
    out
}


/// The (line, column) that the token at index `i` is written relative to:
/// the previous token's start, or the document's origin for the first token.
pub open spec fn previous_start(s: Seq<RawToken>, i: int) -> (u32, u32) {
    if i == 0 {
        (0, 0)
    } else {
        (s[i - 1].line, s[i - 1].col)
    }
}

/// `t` written relative to the start `prev`.
pub open spec fn delta_token(prev: (u32, u32), t: RawToken) -> SemanticToken {
    let delta_line = (t.line - prev.0) as u32;
    SemanticToken {
        delta_line,
        delta_start: if delta_line == 0 {
            (t.col - prev.1) as u32
        } else {
            t.col
        },
        length: t.length,
        token_type: t.token_type,
        token_modifiers_bitset: 0,
    }
}

/// The LSP delta encoding of a token sequence.
pub open spec fn spec_encode(s: Seq<RawToken>) -> Seq<SemanticToken> {
    Seq::new(s.len(), |i: int| delta_token(previous_start(s, i), s[i]))
}

/// How a client reads the delta encoding back into absolute tokens.
pub open spec fn spec_decode(d: Seq<SemanticToken>) -> Seq<RawToken>
    decreases d.len(),
{
    if d.len() == 0 {
        Seq::empty()
    } else {
        let prev = spec_decode(d.drop_last());
        let origin: (u32, u32) = if prev.len() == 0 {
            (0, 0)
        } else {
            (prev.last().line, prev.last().col)
        };
        let t = d.last();
        let line = origin.0 + t.delta_line;
        let col = if t.delta_line == 0 {
            origin.1 + t.delta_start
        } else {
            t.delta_start as int
        };
        prev.push(
            RawToken {
                line: line as u32,
                col: col as u32,
                length: t.length,
                token_type: t.token_type,
            },
        )
    }
}

/// Decoding the delta encoding of tokens ordered by position gives the tokens
/// back: no position is lost by writing tokens relative to each other.
pub proof fn lemma_decode_encode(s: Seq<RawToken>)
    requires
        sorted_by_position(s),
    ensures
        spec_decode(spec_encode(s)) == s,
    decreases s.len(),
{
    if s.len() > 0 {
        let n = s.len() - 1;
        let init = s.drop_last();
        assert(sorted_by_position(init));
        lemma_decode_encode(init);
        assert(spec_encode(s).drop_last() =~= spec_encode(init));
        let prev = spec_decode(spec_encode(init));
        assert(prev == init);
        if n > 0 {
            assert(position_le(s[n - 1], s[n]));
            assert(prev.last() == s[n - 1]);
        }
        assert(spec_decode(spec_encode(s)) =~= s);
    }
}

/// Writes tokens ordered by position in the delta format.
pub fn encode_deltas(raw: &Vec<RawToken>) -> (r: Vec<SemanticToken>)
    requires
        sorted_by_position(raw@),
    ensures
        r@ == spec_encode(raw@),
{
    let mut out: Vec<SemanticToken> = Vec::new();
    let mut prev_line: u32 = 0;
    let mut prev_start: u32 = 0;
    let mut i: usize = 0;
    while i < raw.len()
        invariant
            i <= raw@.len(),
            sorted_by_position(raw@),
            out@.len() == i,
            forall|k: int|
                0 <= k < i ==> #[trigger] out@[k] == delta_token(previous_start(raw@, k), raw@[k]),
            (prev_line, prev_start) == previous_start(raw@, i as int),
        decreases raw@.len() - i,
    {
        let t = raw[i];
        proof {
            if i > 0 {
                assert(position_le(raw@[i - 1], raw@[i as int]));
            }
        }
        let delta_line: u32 = t.line - prev_line;
        let delta_start: u32 = if delta_line == 0 {
            t.col - prev_start
        } else {
            t.col
        };
        out.push(
            SemanticToken {
                delta_line,
                delta_start,
                length: t.length,
                token_type: t.token_type,
                token_modifiers_bitset: 0,
            },
        );
        prev_line = t.line;
        prev_start = t.col;
        i = i + 1;
    }
    assert(out@ =~= spec_encode(raw@));
    out
}

/// The semantic tokens of a document, given the colored spans of its syntax
/// walk: the spans' tokens, ordered by position (tokens at one position in
/// any order), in the delta format.
pub fn build_semantic_tokens(spans: &Vec<AnnotatedSpan>) -> (r: Vec<SemanticToken>)
    requires
        forall|i: int| 0 <= i < spans@.len() ==> span_ok(#[trigger] spans@[i]),
    ensures
        sorted_by_position(spec_decode(r@)),
        spec_decode(r@).to_multiset() =~= spec_collect(spans@).to_multiset(),
        r@ == spec_encode(spec_decode(r@)),
{
    let raw = collect_raw_tokens(spans);
    let sorted = sort_by_position(raw);
    let r = encode_deltas(&sorted);
    proof {
        lemma_decode_encode(sorted@);
    }
    r
}

} // verus!
