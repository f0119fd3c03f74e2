//! Turning the compiler's findings into editor diagnostics and hover annotations.

use crate::hover::{Span, TypeAnnotation};
use crate::position::{TextPosition, TextRange};
use vstd::prelude::*;

verus! {

/// Where a diagnostic's range starts or ends: the (line, column) that the
/// document gave for a byte index, or `None` where it could not place it.
pub type Place = Option<(usize, usize)>;

/// One error of the compiler or of the parser: its message, and the
/// (start, end) places of the source spans it points at.
#[derive(Debug)]
pub struct ErrorReport {
    pub message: String,
    pub places: Vec<(Place, Place)>,
}

/// An error shown in the editor; its severity is always "error".
#[derive(Debug)]
pub struct Diagnostic {
    pub range: TextRange,
    pub message: String,
    pub source: String,
}

/// The name reported as the source of every diagnostic.
pub open spec fn diagnostic_source() -> Seq<char> {
    "easl"@
}

/// The range between two places, each cut to 32 bits; none where either
/// place is missing.
pub open spec fn spec_place_range(start: Place, end: Place) -> Option<TextRange> {
    match (start, end) {
        (Some(s), Some(e)) => Some(
            TextRange {
                start: TextPosition { line: s.0 as u32, character: s.1 as u32 },
                end: TextPosition { line: e.0 as u32, character: e.1 as u32 },
            },
        ),
        _ => None,
    }
}

/// The ranges of one report's spans that could be placed, in order.
pub open spec fn spec_report_ranges(places: Seq<(Place, Place)>) -> Seq<TextRange>
    decreases places.len(),
{
    if places.len() == 0 {
        Seq::empty()
    } else {
        let rest = spec_report_ranges(places.drop_last());
        match spec_place_range(places.last().0, places.last().1) {
            Some(r) => rest.push(r),
            None => rest,
        }
    }
}

/// The diagnostics of a list of reports, as (range, message) pairs: each
/// report gives one diagnostic per span that could be placed, in order.
pub open spec fn spec_diagnostics(reports: Seq<ErrorReport>) -> Seq<(TextRange, Seq<char>)>
    decreases reports.len(),
{
    if reports.len() == 0 {
        Seq::empty()
    } else {
        let last = reports.last();
        spec_diagnostics(reports.drop_last()) + spec_report_ranges(last.places@).map_values(
            |r: TextRange| (r, last.message@),
        )
    }
}

/// The (range, message) pairs of diagnostics that all name the source.
pub open spec fn diagnostics_view(d: Seq<Diagnostic>) -> Seq<(TextRange, Seq<char>)> {
    d.map_values(|x: Diagnostic| (x.range, x.message@))
}

/// The ranges of two runs of spans are those of the first run followed by
/// those of the second: every span is placed on its own.
pub proof fn lemma_report_ranges_concat(a: Seq<(Place, Place)>, b: Seq<(Place, Place)>)
    ensures
        spec_report_ranges(a + b) == spec_report_ranges(a) + spec_report_ranges(b),
    decreases b.len(),
{
    if b.len() == 0 {
        assert(a + b =~= a);
        assert(spec_report_ranges(a) + spec_report_ranges(b) =~= spec_report_ranges(a));
    } else {
        lemma_report_ranges_concat(a, b.drop_last());
        assert((a + b).drop_last() =~= a + b.drop_last());
        assert((a + b).last() == b.last());
        if let Some(r) = spec_place_range(b.last().0, b.last().1) {
            assert((spec_report_ranges(a) + spec_report_ranges(b.drop_last())).push(r)
                =~= spec_report_ranges(a) + spec_report_ranges(b.drop_last()).push(r));
        }
    }
}

/// One span gives one range where both its ends are placed, from the start's
/// (line, column) to the end's, each cut to 32 bits; otherwise none.
pub proof fn lemma_report_ranges_single(start: Place, end: Place)
    ensures
        start matches Some(s) ==> (end matches Some(e) ==> spec_report_ranges(seq![(start, end)])
            == seq![
            TextRange {
                start: TextPosition { line: s.0 as u32, character: s.1 as u32 },
                end: TextPosition { line: e.0 as u32, character: e.1 as u32 },
            },
        ]),
        start is None || end is None ==> spec_report_ranges(seq![(start, end)]).len() == 0,
{
    let one = seq![(start, end)];
    assert(one.drop_last() =~= Seq::<(Place, Place)>::empty());
    assert(one.last() == (start, end));
    let e = Seq::<TextRange>::empty();
    assert(spec_report_ranges(Seq::<(Place, Place)>::empty()) == e);
    if let Some(r) = spec_place_range(start, end) {
        assert(e.push(r) =~= seq![r]);
    }
}

/// The diagnostics of two runs of reports are those of the first run followed
/// by those of the second: every report gives its diagnostics whatever the
/// other reports are.
pub proof fn lemma_diagnostics_concat(a: Seq<ErrorReport>, b: Seq<ErrorReport>)
    ensures
        spec_diagnostics(a + b) == spec_diagnostics(a) + spec_diagnostics(b),
    decreases b.len(),
{
    if b.len() == 0 {
        assert(a + b =~= a);
        assert(spec_diagnostics(a) + spec_diagnostics(b) =~= spec_diagnostics(a));
    } else {
        lemma_diagnostics_concat(a, b.drop_last());
        assert((a + b).drop_last() =~= a + b.drop_last());
        assert((a + b).last() == b.last());
        let last = b.last();
        let extra = spec_report_ranges(last.places@).map_values(|r: TextRange| (r, last.message@));
        assert(spec_diagnostics(a) + spec_diagnostics(b.drop_last()) + extra =~= spec_diagnostics(a)
            + (spec_diagnostics(b.drop_last()) + extra));
    }
}

/// One report gives one diagnostic per span whose ends are both placed, in
/// the order of its spans, each carrying the report's own message.
pub proof fn lemma_diagnostics_single(r: ErrorReport)
    ensures
        spec_diagnostics(seq![r]).len() == spec_report_ranges(r.places@).len(),
        forall|k: int|
            0 <= k < spec_diagnostics(seq![r]).len() ==> #[trigger] spec_diagnostics(seq![r])[k] == (
                spec_report_ranges(r.places@)[k],
                r.message@,
            ),
{
    let one = seq![r];
    assert(one.drop_last() =~= Seq::<ErrorReport>::empty());
    assert(one.last() == r);
    assert(spec_diagnostics(Seq::<ErrorReport>::empty()) == Seq::<(TextRange, Seq<char>)>::empty());
    let extra = spec_report_ranges(r.places@).map_values(|x: TextRange| (x, r.message@));
    assert(Seq::<(TextRange, Seq<char>)>::empty() + extra =~= extra);
}

/// Every span of every report whose ends are both placed gives a diagnostic
/// with that report's message, from the start's (line, column) to the end's.
pub proof fn lemma_diagnostics_keep_every_span(reports: Seq<ErrorReport>, i: int, p: int)
    requires
        0 <= i < reports.len(),
        0 <= p < reports[i].places@.len(),
    ensures
        reports[i].places@[p].0 matches Some(s) ==> (reports[i].places@[p].1 matches Some(e)
            ==> spec_diagnostics(reports).contains(
            (
                TextRange {
                    start: TextPosition { line: s.0 as u32, character: s.1 as u32 },
                    end: TextPosition { line: e.0 as u32, character: e.1 as u32 },
                },
                reports[i].message@,
            ),
        )),
{
    let r = reports[i];
    let places = r.places@;
    let (start, end) = places[p];
    if let (Some(s), Some(e)) = (start, end) {
        let range = TextRange {
            start: TextPosition { line: s.0 as u32, character: s.1 as u32 },
            end: TextPosition { line: e.0 as u32, character: e.1 as u32 },
        };
        let pre = places.take(p);
        let post = places.skip(p + 1);
        assert(places =~= pre + seq![(start, end)] + post);
        lemma_report_ranges_concat(pre + seq![(start, end)], post);
        lemma_report_ranges_concat(pre, seq![(start, end)]);
        lemma_report_ranges_single(start, end);
        let k = spec_report_ranges(pre).len() as int;
        assert(spec_report_ranges(places)[k] == range);
        lemma_diagnostics_single(r);
        assert(spec_diagnostics(seq![r])[k] == (range, r.message@));
        let before = reports.take(i);
        let after = reports.skip(i + 1);
        assert(reports =~= before + seq![r] + after);
        lemma_diagnostics_concat(before + seq![r], after);
        lemma_diagnostics_concat(before, seq![r]);
        let whole = spec_diagnostics(before) + spec_diagnostics(seq![r]) + spec_diagnostics(after);
        assert(whole[spec_diagnostics(before).len() + k] == (range, r.message@));
    }
}

/// The range between two places.
pub fn place_range(start: Place, end: Place) -> (r: Option<TextRange>)
    ensures
        r == spec_place_range(start, end),
{
    match (start, end) {
        (Some((sl, sc)), Some((el, ec))) => Some(
            TextRange {
                start: TextPosition {
                    line: #[verifier::truncate] (sl as u32),
                    character: #[verifier::truncate] (sc as u32),
                },
                end: TextPosition {
                    line: #[verifier::truncate] (el as u32),
                    character: #[verifier::truncate] (ec as u32),
                },
            },
        ),
        _ => None,
    }
}

/// Appends to `out` the diagnostics of one report.
fn push_report_diagnostics(out: &mut Vec<Diagnostic>, report: &ErrorReport)
    ensures
        diagnostics_view(final(out)@) == diagnostics_view(old(out)@) + spec_report_ranges(
            report.places@,
        ).map_values(|r: TextRange| (r, report.message@)),
        forall|k: int|
            0 <= k < final(out)@.len() ==> (k < old(out)@.len() ==> #[trigger] final(out)@[k]
                == old(out)@[k]) && (k >= old(out)@.len() ==> final(out)@[k].source@
                == diagnostic_source()),
{
    let ghost start = out@;
    let mut i: usize = 0;
    while i < report.places.len()
        invariant
            i <= report.places@.len(),
            start.len() <= out@.len(),
            diagnostics_view(out@) == diagnostics_view(start) + spec_report_ranges(
                report.places@.take(i as int),
            ).map_values(|r: TextRange| (r, report.message@)),
            forall|k: int|
                0 <= k < out@.len() ==> (k < start.len() ==> #[trigger] out@[k] == start[k]) && (k
                    >= start.len() ==> out@[k].source@ == diagnostic_source()),
        decreases report.places@.len() - i,
    {
        proof {
            assert(report.places@.take(i + 1).drop_last() =~= report.places@.take(i as int));
        }
        let (s, e) = report.places[i];
        match place_range(s, e) {
            Some(range) => {
                let ghost before = out@;
                let message = report.message.clone();
                let source: String = "easl".to_owned();
                out.push(Diagnostic { range, message, source });
                proof {
                    let f = |r: TextRange| (r, report.message@);
                    let ranges = spec_report_ranges(report.places@.take(i as int));
                    assert(spec_report_ranges(report.places@.take(i + 1)) == ranges.push(range));
                    assert(ranges.push(range).map_values(f) =~= ranges.map_values(f).push(
                        (range, report.message@),
                    ));
                    assert(diagnostics_view(out@) =~= diagnostics_view(before).push(
                        (range, report.message@),
                    ));
                }
            },
            None => {},
        }
        i = i + 1;
    }
    proof {
        assert(report.places@.take(report.places@.len() as int) =~= report.places@);
    }
}

/// The diagnostics of all the reports, in order; every one names `easl` as
/// its source.
pub fn collect_diagnostics(reports: &Vec<ErrorReport>) -> (r: Vec<Diagnostic>)
    ensures
        diagnostics_view(r@) == spec_diagnostics(reports@),
        forall|k: int| 0 <= k < r@.len() ==> (#[trigger] r@[k]).source@ == diagnostic_source(),
{
    let mut out: Vec<Diagnostic> = Vec::new();
    let mut i: usize = 0;
    while i < reports.len()
        invariant
            i <= reports@.len(),
            diagnostics_view(out@) == spec_diagnostics(reports@.take(i as int)),
            forall|k: int| 0 <= k < out@.len() ==> (#[trigger] out@[k]).source@ == diagnostic_source(),
        decreases reports@.len() - i,
    {
        proof {
            assert(reports@.take(i + 1).drop_last() =~= reports@.take(i as int));
        }
        push_report_diagnostics(&mut out, &reports[i]);
        i = i + 1;
    }
    proof {
        assert(reports@.take(reports@.len() as int) =~= reports@);
    }
    out
}

/// What a compilation reports: the type annotations found and the diagnostics.
pub struct CompileOutcome {
    pub annotations: Vec<TypeAnnotation>,
    pub diagnostics: Vec<Diagnostic>,
}

/// The outcome decided by parsing alone: where the parser failed, its errors
/// are reported and there are no annotations; otherwise `None`, and the
/// document has to be compiled.
pub fn parse_outcome(parse_failures: &Vec<ErrorReport>) -> (r: Option<CompileOutcome>)
    ensures
        r is Some <==> parse_failures@.len() > 0,
        r matches Some(o) ==> o.annotations@.len() == 0 && diagnostics_view(o.diagnostics@)
            == spec_diagnostics(parse_failures@),
        r matches Some(o) ==> forall|k: int|
            0 <= k < o.diagnostics@.len() ==> (#[trigger] o.diagnostics@[k]).source@
                == diagnostic_source(),
{
    if parse_failures.len() == 0 {
        None
    } else {
        Some(CompileOutcome { annotations: Vec::new(), diagnostics: collect_diagnostics(parse_failures) })
    }
}

/// The outcome of a full compilation: its annotations, and the diagnostics of
/// its errors.
pub fn compile_outcome(annotations: Vec<TypeAnnotation>, errors: &Vec<ErrorReport>) -> (r: CompileOutcome)
    ensures
        r.annotations@ == annotations@,
        diagnostics_view(r.diagnostics@) == spec_diagnostics(errors@),
        forall|k: int|
            0 <= k < r.diagnostics@.len() ==> (#[trigger] r.diagnostics@[k]).source@
                == diagnostic_source(),
{
    CompileOutcome { annotations, diagnostics: collect_diagnostics(errors) }
}

/// The text of an inferred type: a known type as the compiler renders it, any
/// other state after `?? `.
pub open spec fn spec_type_description(state_known: bool, rendered: Seq<char>) -> Seq<char> {
    if state_known {
        rendered
    } else {
        "?? "@ + rendered
    }
}

/// The annotation of an expression whose type the compiler inferred:
/// `state_known` says whether the type state is a known type, `fully_known`
/// whether no part of it is left open, `rendered` is the compiler's text for
/// the type or the state.
pub fn type_annotation(primary_span: Option<Span>, fully_known: bool, state_known: bool, rendered: String) -> (r:
    TypeAnnotation)
    ensures
        r.primary_span == primary_span,
        r.is_known == fully_known,
        r.description@ == spec_type_description(state_known, rendered@),
{
    let description = if state_known {
        rendered
    } else {
        let mut d: String = "?? ".to_owned();
        d.append(rendered.as_str());
        d
    };
    TypeAnnotation { primary_span, is_known: fully_known, description }
}

} // verus!
