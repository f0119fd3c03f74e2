//! Choosing the type shown when hovering over a position of a document.

use vstd::prelude::*;

verus! {

/// A byte range `start..end` of a document.
#[derive(Clone, Copy, Debug, PartialEq, Eq)]
pub struct Span {
    pub start: usize,
    pub end: usize,
}

/// The type the compiler inferred for an expression: the span of the
/// expression (if it has one), whether the type is fully known, and its text.
#[derive(Debug)]
pub struct TypeAnnotation {
    pub primary_span: Option<Span>,
    pub is_known: bool,
    pub description: String,
}

/// `index` lies in the span `start..end`.
pub open spec fn span_contains(s: Span, index: usize) -> bool {
    s.start <= index < s.end
}

/// The annotation's span contains `index`.
pub open spec fn covers(a: TypeAnnotation, index: usize) -> bool {
    a.primary_span matches Some(s) && span_contains(s, index)
}

/// The length of the annotation's span (meaningful where it covers an index).
pub open spec fn span_len(a: TypeAnnotation) -> int {
    match a.primary_span {
        Some(s) => s.end - s.start,
        None => 0,
    }
}

/// `a` is a better answer than `b`: its span is shorter, or as long and its
/// type is fully known where that of `b` is not.
pub open spec fn better(a: TypeAnnotation, b: TypeAnnotation) -> bool {
    span_len(a) < span_len(b) || (span_len(a) == span_len(b) && a.is_known && !b.is_known)
}

/// The annotation shown for `index`: the first, in order, of the covering
/// annotations that no other covering annotation is better than.
pub open spec fn spec_best_annotation(anns: Seq<TypeAnnotation>, index: usize) -> Option<int>
    decreases anns.len(),
{
    if anns.len() == 0 {
        None
    } else {
        let n = anns.len() - 1;
        let best = spec_best_annotation(anns.drop_last(), index);
        let a = anns[n];
        if !covers(a, index) {
            best
        } else {
            match best {
                None => Some(n),
                Some(j) => if better(a, anns[j]) {
                    Some(n)
                } else {
                    best
                },
            }
        }
    }
}

/// What the annotation shown for `index` is: one that covers `index`, with the
/// tightest span among those that do, and with a fully known type where some
/// equally tight one has a fully known type; there is one exactly when some
/// annotation covers `index`.
pub proof fn lemma_best_annotation_tightest(anns: Seq<TypeAnnotation>, index: usize)
    ensures
        spec_best_annotation(anns, index) matches Some(j) ==> {
            &&& 0 <= j < anns.len()
            &&& covers(anns[j], index)
            &&& forall|k: int|
                0 <= k < anns.len() && covers(#[trigger] anns[k], index) ==> span_len(anns[j])
                    <= span_len(anns[k])
            &&& forall|k: int|
                0 <= k < anns.len() && covers(#[trigger] anns[k], index) && span_len(anns[k])
                    == span_len(anns[j]) && anns[k].is_known ==> anns[j].is_known
        },
        spec_best_annotation(anns, index) is None <==> (forall|k: int|
            0 <= k < anns.len() ==> !covers(#[trigger] anns[k], index)),
    decreases anns.len(),
{
    if anns.len() > 0 {
        let n = anns.len() - 1;
        let init = anns.drop_last();
        lemma_best_annotation_tightest(init, index);
        assert forall|k: int| 0 <= k < init.len() implies #[trigger] init[k] == anns[k] by {}
        if spec_best_annotation(anns, index) is None {
            assert forall|k: int| 0 <= k < anns.len() implies !covers(#[trigger] anns[k], index) by {
                if k < init.len() {
                    assert(init[k] == anns[k]);
                }
            }
        } else {
            let j = spec_best_annotation(anns, index)->0;
            assert forall|k: int|
                0 <= k < anns.len() && covers(#[trigger] anns[k], index) implies span_len(anns[j])
                <= span_len(anns[k]) && (span_len(anns[k]) == span_len(anns[j]) && anns[k].is_known
                ==> anns[j].is_known) by {
                if k < init.len() {
                    assert(init[k] == anns[k]);
                    assert(covers(init[k], index));
                }
            }
        }
    }
}

/// The annotation shown is the first among the best: every covering
/// annotation before it has a longer span, or one as long whose type is not
/// fully known where the shown one's is.
pub proof fn lemma_best_annotation_first(anns: Seq<TypeAnnotation>, index: usize)
    ensures
        spec_best_annotation(anns, index) matches Some(j) ==> forall|k: int|
            0 <= k < j && covers(#[trigger] anns[k], index) ==> span_len(anns[j]) < span_len(anns[k])
                || (span_len(anns[j]) == span_len(anns[k]) && anns[j].is_known
                && !anns[k].is_known),
    decreases anns.len(),
{
    if anns.len() > 0 {
        let n = anns.len() - 1;
        let init = anns.drop_last();
        lemma_best_annotation_first(init, index);
        lemma_best_annotation_tightest(init, index);
        assert forall|k: int| 0 <= k < init.len() implies #[trigger] init[k] == anns[k] by {}
        if let Some(j) = spec_best_annotation(anns, index) {
            assert forall|k: int| 0 <= k < j && covers(#[trigger] anns[k], index) implies span_len(
                anns[j],
            ) < span_len(anns[k]) || (span_len(anns[j]) == span_len(anns[k]) && anns[j].is_known
                && !anns[k].is_known) by {
                assert(init[k] == anns[k]);
                assert(covers(init[k], index));
            }
        }
    }
}

/// The index of the annotation shown for `index`.
pub fn best_annotation(anns: &Vec<TypeAnnotation>, index: usize) -> (r: Option<usize>)
    ensures
        r matches Some(j) ==> spec_best_annotation(anns@, index) == Some(j as int),
        r is None ==> spec_best_annotation(anns@, index) is None,
        r matches Some(j) ==> {
            &&& j < anns@.len()
            &&& covers(anns@[j as int], index)
            &&& forall|k: int|
                0 <= k < anns@.len() && covers(#[trigger] anns@[k], index) ==> span_len(
                    anns@[j as int],
                ) <= span_len(anns@[k])
            &&& forall|k: int|
                0 <= k < anns@.len() && covers(#[trigger] anns@[k], index) && span_len(anns@[k])
                    == span_len(anns@[j as int]) && anns@[k].is_known ==> anns@[j as int].is_known
            &&& forall|k: int|
                0 <= k < j && covers(#[trigger] anns@[k], index) ==> span_len(anns@[j as int])
                    < span_len(anns@[k]) || (span_len(anns@[j as int]) == span_len(anns@[k])
                    && anns@[j as int].is_known && !anns@[k].is_known)
        },
        r is None <==> (forall|k: int| 0 <= k < anns@.len() ==> !covers(#[trigger] anns@[k], index)),
{
    let mut best: Option<usize> = None;
    let mut i: usize = 0;
    while i < anns.len()
        invariant
            i <= anns@.len(),
            match best {
                Some(j) => spec_best_annotation(anns@.take(i as int), index) == Some(j as int),
                None => spec_best_annotation(anns@.take(i as int), index) is None,
            },
            best matches Some(j) ==> j < i,
        decreases anns@.len() - i,
    {
        proof {
            assert(anns@.take(i + 1).drop_last() =~= anns@.take(i as int));
            assert forall|k: int| 0 <= k < i implies #[trigger] anns@.take(i + 1)[k] == anns@[k] by {}
        }
        let a = &anns[i];
        match a.primary_span {
            Some(s) => {
                if s.start <= index && index < s.end {
                    let len: usize = s.end - s.start;
                    match best {
                        None => {
                            best = Some(i);
                        },
                        Some(j) => {
                            let b = &anns[j];
                            let best_len: usize = match b.primary_span {
                                Some(bs) => if bs.start <= bs.end {
                                    bs.end - bs.start
                                } else {
                                    0
                                },
                                None => 0,
                            };
                            proof {
                                lemma_best_annotation_tightest(anns@.take(i as int), index);
                                assert(anns@.take(i as int)[j as int] == anns@[j as int]);
                            }
                            if len < best_len || (len == best_len && a.is_known && !b.is_known) {
                                best = Some(i);
                            }
                        },
                    }
                }
            },
            None => {},
        }
        i = i + 1;
    }
    proof {
        assert(anns@.take(anns@.len() as int) =~= anns@);
        lemma_best_annotation_tightest(anns@, index);
        lemma_best_annotation_first(anns@, index);
    }
    best
}

/// The hover text for a type: the type in a code block.
pub open spec fn hover_markdown(description: Seq<char>) -> Seq<char> {
    "```\n"@ + description + "\n```"@
}

/// The hover text for `index`, where an annotation covers it.
pub fn hover_text(anns: &Vec<TypeAnnotation>, index: usize) -> (r: Option<String>)
    ensures
        match spec_best_annotation(anns@, index) {
            Some(j) => r matches Some(text) && text@ == hover_markdown(anns@[j].description@),
            None => r is None,
        },
{
    match best_annotation(anns, index) {
        Some(j) => {
            let mut text: String = "```\n".to_owned();
            text.append(anns[j].description.as_str());
            text.append("\n```");
            Some(text)
        },
        None => None,
    }
}

} // verus!
