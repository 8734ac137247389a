//! The lines of a source: the few beside one artifact, and the whole of it
//! cut where the artifacts claiming it change.
//!
//! A text source is answered by its lines, a picture by the reading that was
//! made of it, a PDF by what was extracted from it. All three count lines.

use crate::records::{Corpus, CorpusSpan, ORIGIN_IMAGE, ORIGIN_PDF};
use crate::text;
use crate::text::{copy_all, is_blank, lines_of, same, same_all, signed_of};
use vstd::prelude::*;

verus! {

/// Lines shown without a span are context, not the claim itself.
pub const HEADLESS_PREVIEW_LINES: usize = 40;

/// One numbered line of a source.
pub struct CorpusLine {
    pub number: i64,
    pub text: String,
    /// Inside the lines asked for, as opposed to the context around them.
    pub in_span: bool,
}

/// Some lines of a source and what to call them.
pub struct CorpusSlice {
    pub lines: Vec<CorpusLine>,
    /// What to call this range: `lines 118–141`.
    pub label: String,
}

/// One stretch of the source, and which artifacts claim to have been written
/// from it.
pub struct Band {
    pub from: i64,
    pub to: i64,
    pub lines: Vec<CorpusLine>,
    /// Ids of the artifacts claiming these lines, in the order given. Empty
    /// means nothing claims them, which is what makes this a gap.
    pub artifact_ids: Vec<String>,
}

/// The empty slice is what an artifact that belongs to no source has.
impl Default for CorpusSlice {
    fn default() -> (r: Self)
        ensures
            r.lines@.len() == 0,
            r.label@.len() == 0,
    {
        CorpusSlice { lines: Vec::new(), label: String::new() }
    }
}

// ---------------------------------------------------------------------------
// What the lines are
// ---------------------------------------------------------------------------

/// What a source's lines are called where they are not the source itself.
pub open spec fn written_down(origin: Seq<char>) -> Option<Seq<char>> {
    if origin == ORIGIN_IMAGE@ {
        Some("transcription"@)
    } else if origin == ORIGIN_PDF@ {
        Some("extraction"@)
    } else {
        None
    }
}

/// What a slice without a span is called.
pub open spec fn headless_label(origin: Seq<char>) -> Seq<char> {
    match written_down(origin) {
        Some(w) => w,
        None => "corpus"@,
    }
}

/// What a slice around a span is called: singular where the span is one line.
pub open spec fn span_label(origin: Seq<char>, span: CorpusSpan) -> Seq<char> {
    let what = match written_down(origin) {
        Some(w) => w + " "@,
        None => Seq::empty(),
    };
    if span.start_line == span.end_line {
        what + "line "@ + text::signed(span.start_line as int)
    } else {
        what + "lines "@ + text::signed(span.start_line as int) + "–"@
            + text::signed(span.end_line as int)
    }
}

/// Whether line `n` is among the marked ones.
pub open spec fn marks(mark: Option<(i64, i64)>, n: int) -> bool {
    match mark {
        Some((f, t)) => f <= n <= t,
        None => false,
    }
}

/// `run` is the lines `first` to `last` of `all`, each under its own number,
/// marked where `mark` says. A range that ends before it begins has no lines.
pub open spec fn is_run(
    run: Seq<CorpusLine>,
    all: Seq<Seq<char>>,
    first: int,
    last: int,
    mark: Option<(i64, i64)>,
) -> bool {
    &&& run.len() == (if first <= last { last - first + 1 } else { 0 })
    &&& forall|i: int|
        0 <= i < run.len() ==> {
            &&& (#[trigger] run[i]).number == first + i
            &&& run[i].text@ == all[first + i - 1]
            &&& run[i].in_span == marks(mark, first + i)
        }
}

/// The first line of a slice: `context` lines ahead of the span, and not
/// before the first line there is.
pub open spec fn slice_first(span: CorpusSpan, context: int) -> int {
    if span.start_line - context < 1 {
        1
    } else {
        span.start_line - context
    }
}

/// The last line of a slice: `context` lines past the span, and not after the
/// last line there is.
pub open spec fn slice_last(span: CorpusSpan, context: int, total: int) -> int {
    if span.end_line + context > total {
        total
    } else {
        span.end_line + context
    }
}

/// `r` is the opening of a source, shown where nothing says which of its lines
/// are meant.
pub open spec fn is_opening(r: CorpusSlice, source: Corpus) -> bool {
    let all = text::lines(source.raw_text@);
    &&& is_run(
        r.lines@,
        all,
        1,
        if all.len() < HEADLESS_PREVIEW_LINES {
            all.len() as int
        } else {
            HEADLESS_PREVIEW_LINES as int
        },
        None,
    )
    &&& r.label@ == headless_label(source.origin@)
}

/// `r` is the lines of a source around a span, with `context` of them on either
/// side.
pub open spec fn is_slice(r: CorpusSlice, source: Corpus, span: CorpusSpan, context: int) -> bool {
    let all = text::lines(source.raw_text@);
    &&& is_run(
        r.lines@,
        all,
        slice_first(span, context),
        slice_last(span, context, all.len() as int),
        Some((span.start_line, span.end_line)),
    )
    &&& r.label@ == span_label(source.origin@, span)
}

/// Whether a span claims line `n`.
pub open spec fn covers(span: CorpusSpan, n: int) -> bool {
    span.start_line <= n <= span.end_line
}

/// The ids of the artifacts that claim line `n`, in the order given.
pub open spec fn claims(spans: Seq<(String, CorpusSpan)>, n: int) -> Seq<Seq<char>>
    decreases spans.len(),
{
    if spans.len() == 0 {
        Seq::empty()
    } else if covers(spans.last().1, n) {
        claims(spans.drop_last(), n).push(spans.last().0@)
    } else {
        claims(spans.drop_last(), n)
    }
}

/// The ids that line `n` is shown beside: those that claim it, unless it is
/// blank, in which case it goes with the line before it. A blank first line
/// has nothing to go with.
pub open spec fn shown_beside(
    all: Seq<Seq<char>>,
    spans: Seq<(String, CorpusSpan)>,
    n: int,
) -> Seq<Seq<char>>
    decreases n,
{
    if n > 1 && text::blank(all[n - 1]) {
        shown_beside(all, spans, n - 1)
    } else {
        claims(spans, n)
    }
}

/// One band: a run of lines that are all shown beside the ids it carries.
pub open spec fn is_band(
    b: Band,
    all: Seq<Seq<char>>,
    spans: Seq<(String, CorpusSpan)>,
    highlight: Option<(i64, i64)>,
) -> bool {
    &&& 1 <= b.from <= b.to <= all.len()
    &&& is_run(b.lines@, all, b.from as int, b.to as int, highlight)
    &&& forall|n: int|
        b.from <= n <= b.to ==> #[trigger] shown_beside(all, spans, n) == text::texts(
            b.artifact_ids@,
        )
}

/// `b` takes up where `a` stops, with other ids.
pub open spec fn follows(a: Band, b: Band) -> bool {
    &&& b.from == a.to + 1
    &&& text::texts(a.artifact_ids@) != text::texts(b.artifact_ids@)
}

/// `cut` is the first `n` lines of a source, cut exactly where the ids shown
/// beside it change.
pub open spec fn is_cut(
    cut: Seq<Band>,
    all: Seq<Seq<char>>,
    spans: Seq<(String, CorpusSpan)>,
    highlight: Option<(i64, i64)>,
    n: int,
) -> bool {
    &&& cut.len() == 0 <==> n == 0
    &&& cut.len() > 0 ==> cut[0].from == 1 && cut.last().to == n
    &&& forall|k: int| 0 <= k < cut.len() ==> is_band(#[trigger] cut[k], all, spans, highlight)
    &&& forall|k: int, m: int|
        0 <= k < m < cut.len() && m == k + 1 ==> #[trigger] follows(cut[k], cut[m])
}

// ---------------------------------------------------------------------------
// Cutting
// ---------------------------------------------------------------------------

/// The ids of the artifacts that claim line `n`, in the order given.
fn claimants(spans: &[(String, CorpusSpan)], n: i64) -> (r: Vec<String>)
    ensures
        text::texts(r@) == claims(spans@, n as int),
{
    let mut r: Vec<String> = Vec::new();
    let mut i: usize = 0;
    assert(text::texts(r@) =~= claims(spans@.take(0), n as int));
    while i < spans.len()
        invariant
            i <= spans@.len(),
            text::texts(r@) == claims(spans@.take(i as int), n as int),
        decreases spans.len() - i,
    {
        proof {
            assert(spans@.take(i + 1).drop_last() =~= spans@.take(i as int));
            assert(spans@.take(i + 1).last() == spans@[i as int]);
        }
        if spans[i].1.start_line <= n && n <= spans[i].1.end_line {
            let id = spans[i].0.clone();
            assert(text::texts(r@.push(id)) =~= text::texts(r@).push(id@));
            r.push(id);
        }
        i = i + 1;
    }
    assert(spans@.take(spans@.len() as int) =~= spans@);
    r
}

/// The lines `first` to `last` of `all`, marked where `mark` says.
fn run_of(all: &[String], first: i64, last: i64, mark: Option<(i64, i64)>) -> (r: Vec<CorpusLine>)
    requires
        first >= 1,
        last <= all@.len() <= i64::MAX,
    ensures
        is_run(r@, text::texts(all@), first as int, last as int, mark),
{
    let mut r: Vec<CorpusLine> = Vec::new();
    if first > last {
        return r;
    }
    let mut n: i64 = first;
    while n <= last
        invariant
            1 <= first <= n <= last + 1,
            last <= all@.len() <= i64::MAX,
            is_run(r@, text::texts(all@), first as int, n - 1, mark),
        decreases last + 1 - n,
    {
        let at: usize = (n - 1) as usize;
        let in_span = match mark {
            Some((f, t)) => f <= n && n <= t,
            None => false,
        };
        r.push(CorpusLine { number: n, text: all[at].clone(), in_span });
        if n == last {
            return r;
        }
        n = n + 1;
    }
    r
}

/// The lines of `source` around `span`, labelled for the pane. Without a span
/// the opening of the source is shown as context.
pub fn slice(source: &Corpus, span: Option<&CorpusSpan>, context: usize) -> (r: CorpusSlice)
    requires
        text::lines(source.raw_text@).len() <= i64::MAX,
        span matches Some(s) ==> context <= i64::MAX && i64::MIN <= s.start_line - context
            && s.end_line + context <= i64::MAX,
    ensures
        match span {
            None => is_opening(r, *source),
            Some(s) => is_slice(r, *source, *s, context as int),
        },
{
    let written: Option<&'static str> = if same(source.origin.as_str(), ORIGIN_IMAGE) {
        Some("transcription")
    } else if same(source.origin.as_str(), ORIGIN_PDF) {
        Some("extraction")
    } else {
        None
    };
    let all = lines_of(source.raw_text.as_str());
    let ghost lines = text::lines(source.raw_text@);
    assert(text::texts(all@).len() == all@.len());
    let total: i64 = all.len() as i64;
    match span {
        None => {
            let last: i64 = if total < HEADLESS_PREVIEW_LINES as i64 {
                total
            } else {
                HEADLESS_PREVIEW_LINES as i64
            };
            let label = match written {
                Some(w) => w.to_owned(),
                None => "corpus".to_owned(),
            };
            CorpusSlice { lines: run_of(all.as_slice(), 1, last, None), label }
        },
        Some(s) => {
            let early: i64 = s.start_line - context as i64;
            let first: i64 = if early < 1 {
                1
            } else {
                early
            };
            let late: i64 = s.end_line + context as i64;
            let last: i64 = if late > total {
                total
            } else {
                late
            };
            let mut label = String::new();
            match written {
                Some(w) => {
                    label.append(w);
                    label.append(" ");
                },
                None => {},
            }
            if s.start_line == s.end_line {
                label.append("line ");
                label.append(signed_of(s.start_line).as_str());
            } else {
                label.append("lines ");
                label.append(signed_of(s.start_line).as_str());
                label.append("–");
                label.append(signed_of(s.end_line).as_str());
            }
            assert(label@ =~= span_label(source.origin@, *s));
            CorpusSlice {
                lines: run_of(all.as_slice(), first, last, Some((s.start_line, s.end_line))),
                label,
            }
        },
    }
}

impl Band {
    /// Nothing was written from these lines.
    pub open spec fn is_gap(self) -> bool {
        self.artifact_ids@.len() == 0
    }

    /// Nothing was written from these lines: a passage the base cannot answer
    /// a question about, and one that can be told to read itself again.
    pub fn gap(&self) -> (r: bool)
        ensures
            r == self.is_gap(),
    {
        self.artifact_ids.len() == 0
    }
}

/// Cut the source wherever the set of artifacts claiming it changes.
///
/// Overlaps become their own bands: where two artifacts both claim a line,
/// both are shown against it, which is the truth and needs no tie-break. A
/// blank line continues whatever band it follows.
///
/// `highlight` is the range a deep link names, and costs the cut nothing.
pub fn bands(
    raw_text: &str,
    spans: &[(String, CorpusSpan)],
    highlight: Option<(i64, i64)>,
) -> (r: Vec<Band>)
    requires
        text::lines(raw_text@).len() <= i64::MAX,
    ensures
        is_cut(
            r@,
            text::lines(raw_text@),
            spans@,
            highlight,
            text::lines(raw_text@).len() as int,
        ),
{
    let all = lines_of(raw_text);
    let ghost lines = text::lines(raw_text@);
    assert(text::texts(all@).len() == all@.len());
    let mut out: Vec<Band> = Vec::new();
    let mut i: usize = 0;
    while i < all.len()
        invariant
            i <= all@.len() <= i64::MAX,
            text::texts(all@) == lines,
            lines.len() == all@.len(),
            is_cut(out@, lines, spans@, highlight, i as int),
        decreases all.len() - i,
    {
        let number: i64 = i as i64 + 1;
        assert(lines[number - 1] == all@[i as int]@);
        let ids = if i > 0 && is_blank(all[i].as_str()) {
            let ghost prev = out@[out@.len() - 1];
            assert(shown_beside(lines, spans@, i as int) == text::texts(prev.artifact_ids@));
            copy_all(out[out.len() - 1].artifact_ids.as_slice())
        } else {
            claimants(spans, number)
        };
        assert(text::texts(ids@) == shown_beside(lines, spans@, number as int));
        let in_span = match highlight {
            Some((f, t)) => f <= number && number <= t,
            None => false,
        };
        let line = CorpusLine { number, text: all[i].clone(), in_span };
        let ghost before = out@;
        if out.len() > 0 && same_all(
            out[out.len() - 1].artifact_ids.as_slice(),
            ids.as_slice(),
        ) {
            match out.pop() {
                Some(mut b) => {
                    let ghost old_b = b;
                    b.to = number;
                    b.lines.push(line);
                    out.push(b);
                    proof {
                        assert(out@.len() == before.len());
                        assert(forall|k: int| 0 <= k < before.len() - 1 ==> out@[k] == before[k]);
                        assert(is_band(old_b, lines, spans@, highlight));
                        assert(is_band(out@.last(), lines, spans@, highlight));
                        assert forall|k: int, m: int|
                            0 <= k < m < out@.len() && m == k + 1 implies #[trigger] follows(
                            out@[k],
                            out@[m],
                        ) by {
                            assert(follows(before[k], before[m]));
                        }
                    }
                },
                None => {},
            }
        } else {
            let mut run: Vec<CorpusLine> = Vec::new();
            run.push(line);
            out.push(Band { from: number, to: number, lines: run, artifact_ids: ids });
            proof {
                assert(is_band(out@.last(), lines, spans@, highlight));
                assert forall|k: int, m: int|
                    0 <= k < m < out@.len() && m == k + 1 implies #[trigger] follows(
                    out@[k],
                    out@[m],
                ) by {
                    if m < before.len() {
                        assert(follows(before[k], before[m]));
                    }
                }
            }
        }
        i = i + 1;
    }
    out
}

// ---------------------------------------------------------------------------
// What holds of every cut
// ---------------------------------------------------------------------------

/// A band that stands ahead of another ends before the other begins.
pub proof fn bands_are_in_order(
    cut: Seq<Band>,
    all: Seq<Seq<char>>,
    spans: Seq<(String, CorpusSpan)>,
    highlight: Option<(i64, i64)>,
    n: int,
    j: int,
    k: int,
)
    requires
        is_cut(cut, all, spans, highlight, n),
        0 <= j < k < cut.len(),
    ensures
        cut[j].to < cut[k].from,
    decreases k - j,
{
    assert(follows(cut[k - 1], cut[k]));
    assert(is_band(cut[k - 1], all, spans, highlight));
    if j < k - 1 {
        bands_are_in_order(cut, all, spans, highlight, n, j, k - 1);
    }
}

/// The band that line `line` stands in, looked for among the first `k + 1`.
proof fn band_at(
    cut: Seq<Band>,
    all: Seq<Seq<char>>,
    spans: Seq<(String, CorpusSpan)>,
    highlight: Option<(i64, i64)>,
    n: int,
    line: int,
    k: int,
) -> (found: int)
    requires
        is_cut(cut, all, spans, highlight, n),
        0 <= k < cut.len(),
        1 <= line <= cut[k].to,
    ensures
        0 <= found <= k,
        cut[found].from <= line <= cut[found].to,
    decreases k,
{
    if cut[k].from <= line {
        k
    } else {
        assert(follows(cut[k - 1], cut[k]));
        band_at(cut, all, spans, highlight, n, line, k - 1)
    }
}

/// Every line of the source stands in exactly one band, and no band holds a
/// line the source does not have.
pub proof fn every_line_stands_in_one_band(
    cut: Seq<Band>,
    all: Seq<Seq<char>>,
    spans: Seq<(String, CorpusSpan)>,
    highlight: Option<(i64, i64)>,
    line: int,
)
    requires
        is_cut(cut, all, spans, highlight, all.len() as int),
    ensures
        1 <= line <= all.len() <==> exists|k: int|
            0 <= k < cut.len() && (#[trigger] cut[k]).from <= line <= cut[k].to,
        forall|j: int, k: int|
            0 <= j < cut.len() && 0 <= k < cut.len() && (#[trigger] cut[j]).from <= line
                <= cut[j].to && (#[trigger] cut[k]).from <= line <= cut[k].to ==> j == k,
{
    if 1 <= line <= all.len() {
        let found = band_at(
            cut,
            all,
            spans,
            highlight,
            all.len() as int,
            line,
            cut.len() - 1,
        );
        assert(cut[found].from <= line <= cut[found].to);
    }
    assert forall|j: int, k: int|
        0 <= j < cut.len() && 0 <= k < cut.len() && (#[trigger] cut[j]).from <= line <= cut[j].to
            && (#[trigger] cut[k]).from <= line <= cut[k].to implies j == k by {
        if j < k {
            bands_are_in_order(cut, all, spans, highlight, all.len() as int, j, k);
        }
        if k < j {
            bands_are_in_order(cut, all, spans, highlight, all.len() as int, k, j);
        }
    }
}

/// A line with something on it stands beside exactly the artifacts that claim
/// it: a gap holds no claimed line, and a claimed line is in no gap.
pub proof fn a_gap_is_what_nothing_claims(
    cut: Seq<Band>,
    all: Seq<Seq<char>>,
    spans: Seq<(String, CorpusSpan)>,
    highlight: Option<(i64, i64)>,
    k: int,
    line: int,
)
    requires
        is_cut(cut, all, spans, highlight, all.len() as int),
        0 <= k < cut.len(),
        cut[k].from <= line <= cut[k].to,
        !text::blank(all[line - 1]),
    ensures
        text::texts(cut[k].artifact_ids@) == claims(spans, line),
        cut[k].is_gap() <==> cut[k].artifact_ids@.len() == 0,
        cut[k].is_gap() <==> forall|i: int|
            0 <= i < spans.len() ==> !covers(#[trigger] spans[i].1, line),
{
    assert(is_band(cut[k], all, spans, highlight));
    assert(shown_beside(all, spans, line) == claims(spans, line));
    assert(text::texts(cut[k].artifact_ids@).len() == cut[k].artifact_ids@.len());
    nothing_claims(spans, line);
}

/// No artifact claims a line exactly where no span covers it.
pub proof fn nothing_claims(spans: Seq<(String, CorpusSpan)>, n: int)
    ensures
        claims(spans, n).len() == 0 <==> forall|i: int|
            0 <= i < spans.len() ==> !covers(#[trigger] spans[i].1, n),
    decreases spans.len(),
{
    if spans.len() > 0 {
        let front = spans.drop_last();
        nothing_claims(front, n);
        if claims(spans, n).len() == 0 {
            assert forall|i: int| 0 <= i < spans.len() implies !covers(
                #[trigger] spans[i].1,
                n,
            ) by {
                if i < front.len() {
                    assert(front[i].1 == spans[i].1);
                }
            }
        }
        if forall|i: int| 0 <= i < spans.len() ==> !covers(#[trigger] spans[i].1, n) {
            assert forall|i: int| 0 <= i < front.len() implies !covers(
                #[trigger] front[i].1,
                n,
            ) by {
                assert(front[i].1 == spans[i].1);
            }
            assert(!covers(spans[spans.len() - 1].1, n));
        }
    }
}

/// No band after the first opens on a blank line: a blank line never cuts.
pub proof fn a_blank_line_never_cuts(
    cut: Seq<Band>,
    all: Seq<Seq<char>>,
    spans: Seq<(String, CorpusSpan)>,
    highlight: Option<(i64, i64)>,
    k: int,
)
    requires
        is_cut(cut, all, spans, highlight, all.len() as int),
        0 < k < cut.len(),
    ensures
        !text::blank(all[cut[k].from - 1]),
{
    let at = cut[k].from as int;
    assert(follows(cut[k - 1], cut[k]));
    assert(is_band(cut[k - 1], all, spans, highlight));
    assert(is_band(cut[k], all, spans, highlight));
    assert(shown_beside(all, spans, at) == text::texts(cut[k].artifact_ids@));
    assert(shown_beside(all, spans, at - 1) == text::texts(cut[k - 1].artifact_ids@));
}

/// There is one way to cut a source: two cuts of it have the same bands, line
/// for line and id for id, up to the first `k`.
proof fn cuts_agree(
    a: Seq<Band>,
    b: Seq<Band>,
    all: Seq<Seq<char>>,
    spans: Seq<(String, CorpusSpan)>,
    one: Option<(i64, i64)>,
    other: Option<(i64, i64)>,
    k: int,
)
    requires
        is_cut(a, all, spans, one, all.len() as int),
        is_cut(b, all, spans, other, all.len() as int),
        0 <= k < a.len(),
    ensures
        k < b.len(),
        a[k].from == b[k].from,
        a[k].to == b[k].to,
        text::texts(a[k].artifact_ids@) == text::texts(b[k].artifact_ids@),
    decreases k,
{
    let n = all.len() as int;
    assert(is_band(a[k], all, spans, one));
    if k > 0 {
        cuts_agree(a, b, all, spans, one, other, k - 1);
        assert(follows(a[k - 1], a[k]));
        if k >= b.len() {
            assert(b[k - 1].to == n);
        }
        assert(follows(b[k - 1], b[k]));
    }
    assert(is_band(b[k], all, spans, other));
    let at = a[k].from as int;
    assert(shown_beside(all, spans, at) == text::texts(a[k].artifact_ids@));
    assert(shown_beside(all, spans, at) == text::texts(b[k].artifact_ids@));
    if a[k].to < b[k].to {
        let next = a[k].to + 1;
        assert(shown_beside(all, spans, next) == text::texts(b[k].artifact_ids@));
        if k + 1 == a.len() {
            assert(a.last().to == n);
        }
        assert(follows(a[k], a[k + 1]));
        assert(is_band(a[k + 1], all, spans, one));
        assert(shown_beside(all, spans, next) == text::texts(a[k + 1].artifact_ids@));
    }
    if b[k].to < a[k].to {
        let next = b[k].to + 1;
        assert(shown_beside(all, spans, next) == text::texts(a[k].artifact_ids@));
        if k + 1 == b.len() {
            assert(b.last().to == n);
        }
        assert(follows(b[k], b[k + 1]));
        assert(is_band(b[k + 1], all, spans, other));
        assert(shown_beside(all, spans, next) == text::texts(b[k + 1].artifact_ids@));
    }
}

/// Two runs of lines have the same numbers and the same words.
pub open spec fn same_words(a: Seq<CorpusLine>, b: Seq<CorpusLine>) -> bool {
    &&& a.len() == b.len()
    &&& forall|i: int|
        0 <= i < a.len() ==> (#[trigger] a[i]).number == b[i].number && a[i].text@ == b[i].text@
}

/// Of some lines exactly those are marked that `mark` says.
pub open spec fn marked_by(lines: Seq<CorpusLine>, mark: Option<(i64, i64)>) -> bool {
    forall|i: int|
        0 <= i < lines.len() ==> (#[trigger] lines[i]).in_span == marks(
            mark,
            lines[i].number as int,
        )
}

/// There is one way to cut a source, whichever of its lines are marked: two
/// cuts of it have as many bands, over the same lines with the same words,
/// beside the same artifacts, and each marks the lines it was asked to and no
/// others.
pub proof fn there_is_one_cut(
    a: Seq<Band>,
    b: Seq<Band>,
    all: Seq<Seq<char>>,
    spans: Seq<(String, CorpusSpan)>,
    one: Option<(i64, i64)>,
    other: Option<(i64, i64)>,
)
    requires
        is_cut(a, all, spans, one, all.len() as int),
        is_cut(b, all, spans, other, all.len() as int),
    ensures
        a.len() == b.len(),
        forall|k: int|
            0 <= k < a.len() ==> {
                &&& (#[trigger] a[k]).from == b[k].from
                &&& a[k].to == b[k].to
                &&& text::texts(a[k].artifact_ids@) == text::texts(b[k].artifact_ids@)
                &&& same_words(a[k].lines@, b[k].lines@)
                &&& marked_by(a[k].lines@, one)
                &&& marked_by(b[k].lines@, other)
            },
{
    if a.len() > 0 {
        cuts_agree(a, b, all, spans, one, other, a.len() - 1);
    }
    if b.len() > 0 {
        cuts_agree(b, a, all, spans, other, one, b.len() - 1);
    }
    assert forall|k: int| 0 <= k < a.len() implies {
        &&& (#[trigger] a[k]).from == b[k].from
        &&& a[k].to == b[k].to
        &&& text::texts(a[k].artifact_ids@) == text::texts(b[k].artifact_ids@)
        &&& same_words(a[k].lines@, b[k].lines@)
        &&& marked_by(a[k].lines@, one)
        &&& marked_by(b[k].lines@, other)
    } by {
        cuts_agree(a, b, all, spans, one, other, k);
        assert(is_band(a[k], all, spans, one));
        assert(is_band(b[k], all, spans, other));
    }
}

/// How much context is asked for changes nothing of a slice but how far it
/// reaches: the narrower of two slices of one span is a run of the wider, line
/// for line; both mark the same lines; the wider reaches at most as far past
/// the narrower as it was asked to, on either side; and both are called the
/// same.
pub proof fn a_wider_slice_holds_a_narrower(
    a: CorpusSlice,
    b: CorpusSlice,
    source: Corpus,
    span: CorpusSpan,
    narrow: int,
    wide: int,
)
    requires
        0 <= narrow <= wide,
        is_slice(a, source, span, narrow),
        is_slice(b, source, span, wide),
    ensures
        a.label@ == b.label@,
        a.lines@.len() > 0 ==> {
            let ahead = slice_first(span, narrow) - slice_first(span, wide);
            &&& 0 <= ahead
            &&& ahead + a.lines@.len() <= b.lines@.len() <= a.lines@.len() + 2 * (wide - narrow)
            &&& forall|i: int|
                0 <= i < a.lines@.len() ==> {
                    &&& (#[trigger] a.lines@[i]).number == b.lines@[ahead + i].number
                    &&& a.lines@[i].text@ == b.lines@[ahead + i].text@
                    &&& a.lines@[i].in_span == b.lines@[ahead + i].in_span
                }
        },
        forall|j: int|
            0 <= j < b.lines@.len() && (#[trigger] b.lines@[j]).in_span ==> {
                let i = j - (slice_first(span, narrow) - slice_first(span, wide));
                0 <= i < a.lines@.len() && a.lines@[i].number == b.lines@[j].number
                    && a.lines@[i].in_span
            },
{
    let ahead = slice_first(span, narrow) - slice_first(span, wide);
    assert forall|i: int| 0 <= i < a.lines@.len() implies {
        &&& (#[trigger] a.lines@[i]).number == b.lines@[ahead + i].number
        &&& a.lines@[i].text@ == b.lines@[ahead + i].text@
        &&& a.lines@[i].in_span == b.lines@[ahead + i].in_span
    } by {
        assert(0 <= ahead + i < b.lines@.len());
        assert(b.lines@[ahead + i].number == slice_first(span, wide) + (ahead + i));
    }
    assert forall|j: int| 0 <= j < b.lines@.len() && (#[trigger] b.lines@[j]).in_span implies {
        let i = j - ahead;
        0 <= i < a.lines@.len() && a.lines@[i].number == b.lines@[j].number && a.lines@[i].in_span
    } by {
        assert(b.lines@[j].number == slice_first(span, wide) + j);
        assert(0 <= j - ahead < a.lines@.len());
        assert(a.lines@[j - ahead].number == slice_first(span, narrow) + (j - ahead));
    }
}

/// A slice never shows a line the source does not have, and never leaves out a
/// line of the span that it does have.
pub proof fn a_slice_holds_its_span(span: CorpusSpan, context: int, total: int, line: int)
    requires
        context >= 0,
        total >= 0,
        1 <= line <= total,
        covers(span, line),
    ensures
        slice_first(span, context) <= line <= slice_last(span, context, total),
        1 <= slice_first(span, context),
        slice_last(span, context, total) <= total,
{
}

/// Whatever claims a line stands beside it, once for each span that covers it
/// and in the order the spans are in; nothing else does.
pub proof fn a_line_stands_beside_all_that_claim_it(spans: Seq<(String, CorpusSpan)>, n: int)
    ensures
        claims(spans, n) == spans.filter(
            |s: (String, CorpusSpan)| s.1.start_line <= n <= s.1.end_line,
        ).map_values(|s: (String, CorpusSpan)| s.0@),
        claims(spans, n).len() == spans.filter(
            |s: (String, CorpusSpan)| s.1.start_line <= n <= s.1.end_line,
        ).len(),
        forall|i: int|
            0 <= i < spans.len() && (#[trigger] spans[i]).1.start_line <= n <= spans[i].1.end_line
                ==> claims(spans, n).contains(spans[i].0@),
        forall|k: int|
            0 <= k < claims(spans, n).len() ==> exists|i: int|
                0 <= i < spans.len() && (#[trigger] spans[i]).1.start_line <= n
                    <= spans[i].1.end_line && #[trigger] claims(spans, n)[k] == spans[i].0@,
    decreases spans.len(),
{
    reveal(Seq::filter);
    let p = |s: (String, CorpusSpan)| s.1.start_line <= n <= s.1.end_line;
    let f = |s: (String, CorpusSpan)| s.0@;
    if spans.len() > 0 {
        let less = spans.drop_last();
        let last = spans.last();
        a_line_stands_beside_all_that_claim_it(less, n);
        if p(last) {
            assert(spans.filter(p) =~= less.filter(p).push(last));
            assert(claims(spans, n) =~= claims(less, n).push(f(last)));
            assert(claims(spans, n)[claims(less, n).len() as int] == last.0@);
        }
        assert(claims(spans, n) =~= spans.filter(p).map_values(f));
        assert forall|i: int|
            0 <= i < spans.len() && (#[trigger] spans[i]).1.start_line <= n
                <= spans[i].1.end_line implies claims(spans, n).contains(spans[i].0@) by {
            if i < less.len() {
                assert(less[i] == spans[i]);
                assert(claims(less, n).contains(spans[i].0@));
                let k = choose|k: int|
                    0 <= k < claims(less, n).len() && claims(less, n)[k] == spans[i].0@;
                assert(claims(spans, n)[k] == claims(less, n)[k]);
            } else {
                assert(spans[i] == last);
            }
        }
        assert forall|k: int| 0 <= k < claims(spans, n).len() implies exists|i: int|
            0 <= i < spans.len() && (#[trigger] spans[i]).1.start_line <= n <= spans[i].1.end_line
                && #[trigger] claims(spans, n)[k] == spans[i].0@ by {
            if k < claims(less, n).len() {
                assert(claims(spans, n)[k] == claims(less, n)[k]);
                let i = choose|i: int|
                    0 <= i < less.len() && (#[trigger] less[i]).1.start_line <= n
                        <= less[i].1.end_line && claims(less, n)[k] == less[i].0@;
                assert(spans[i] == less[i]);
            } else {
                assert(spans[spans.len() - 1] == last);
            }
        }
    } else {
        assert(spans.filter(p) =~= spans);
        assert(claims(spans, n) =~= spans.filter(p).map_values(f));
    }
}

/// A band names every artifact whose span covers a line of it, and for a line
/// that says something, no others. A blank line stands beside whatever the
/// line ahead of it does.
pub proof fn a_band_names_all_that_claim_its_lines(
    b: Band,
    all: Seq<Seq<char>>,
    spans: Seq<(String, CorpusSpan)>,
    highlight: Option<(i64, i64)>,
    n: int,
)
    requires
        is_band(b, all, spans, highlight),
        b.from <= n <= b.to,
    ensures
        n == 1 || !text::blank(all[n - 1]) ==> text::texts(b.artifact_ids@) == spans.filter(
            |s: (String, CorpusSpan)| s.1.start_line <= n <= s.1.end_line,
        ).map_values(|s: (String, CorpusSpan)| s.0@),
        n > 1 && text::blank(all[n - 1]) ==> shown_beside(all, spans, n) == shown_beside(
            all,
            spans,
            n - 1,
        ),
        b.lines@[n - b.from].number == n,
        b.lines@[n - b.from].text@ == all[n - 1],
        b.lines@[n - b.from].in_span <==> (highlight matches Some(h) && h.0 <= n <= h.1),
        b.lines@.len() == b.to - b.from + 1,
        b.is_gap() <==> b.artifact_ids@.len() == 0,
{
    a_line_stands_beside_all_that_claim_it(spans, n);
    assert(shown_beside(all, spans, n) == text::texts(b.artifact_ids@));
    assert(b.lines@[n - b.from].number == b.from + (n - b.from));
}

/// A slice shows the lines of its span and as many on either side as were asked
/// for, as far as the source has them: no other line, none twice, each under
/// its own number and marked where it is of the span.
pub proof fn a_slice_is_a_window(
    r: CorpusSlice,
    source: Corpus,
    span: CorpusSpan,
    context: int,
    line: int,
)
    requires
        is_slice(r, source, span, context),
        context >= 0,
    ensures
        (exists|i: int| 0 <= i < r.lines@.len() && (#[trigger] r.lines@[i]).number == line) <==> 1
            <= line <= text::lines(source.raw_text@).len() && span.start_line - context <= line
            <= span.end_line + context,
        forall|i: int|
            0 <= i < r.lines@.len() ==> {
                &&& (#[trigger] r.lines@[i]).number == r.lines@[0].number + i
                &&& r.lines@[i].text@ == text::lines(source.raw_text@)[r.lines@[i].number - 1]
                &&& r.lines@[i].in_span <==> span.start_line <= r.lines@[i].number
                    <= span.end_line
            },
{
    let total = text::lines(source.raw_text@).len() as int;
    let first = slice_first(span, context);
    if 1 <= line <= total && span.start_line - context <= line <= span.end_line + context {
        assert(0 <= line - first < r.lines@.len());
        assert(r.lines@[line - first].number == first + (line - first));
    }
    assert forall|i: int| 0 <= i < r.lines@.len() implies {
        &&& (#[trigger] r.lines@[i]).number == r.lines@[0].number + i
        &&& r.lines@[i].text@ == text::lines(source.raw_text@)[r.lines@[i].number - 1]
        &&& r.lines@[i].in_span <==> span.start_line <= r.lines@[i].number <= span.end_line
    } by {
        assert(r.lines@[0].number == first + 0);
        assert(r.lines@[i].number == first + i);
    }
}

/// Where no lines are named, the opening forty lines are shown, or all of a
/// shorter source, and none of them is marked.
pub proof fn an_opening_is_the_first_forty_lines(r: CorpusSlice, source: Corpus)
    requires
        is_opening(r, source),
    ensures
        text::lines(source.raw_text@).len() <= 40 ==> r.lines@.len() == text::lines(
            source.raw_text@,
        ).len(),
        text::lines(source.raw_text@).len() > 40 ==> r.lines@.len() == 40,
        forall|i: int|
            0 <= i < r.lines@.len() ==> {
                &&& (#[trigger] r.lines@[i]).number == i + 1
                &&& r.lines@[i].text@ == text::lines(source.raw_text@)[i]
                &&& !r.lines@[i].in_span
            },
        source.origin@ == "image"@ ==> r.label@ == "transcription"@,
        source.origin@ == "pdf"@ ==> r.label@ == "extraction"@,
        source.origin@ != "image"@ && source.origin@ != "pdf"@ ==> r.label@ == "corpus"@,
{
    reveal_strlit("image");
    reveal_strlit("pdf");
    assert("image"@.len() != "pdf"@.len());
}

/// A span is called by its lines, one line by its number alone and more by the
/// first and the last; what was read off a picture or out of a file says so
/// ahead of it.
pub proof fn a_span_is_called_by_its_lines(
    r: CorpusSlice,
    source: Corpus,
    span: CorpusSpan,
    context: int,
)
    requires
        is_slice(r, source, span, context),
    ensures
        ({
            let what = if source.origin@ == "image"@ {
                "transcription "@
            } else if source.origin@ == "pdf"@ {
                "extraction "@
            } else {
                Seq::empty()
            };
            if span.start_line == span.end_line {
                r.label@ == what + "line "@ + text::signed(span.end_line as int)
            } else {
                r.label@ == what + "lines "@ + text::signed(span.start_line as int) + "–"@
                    + text::signed(span.end_line as int)
            }
        }),
{
    reveal_strlit("image");
    reveal_strlit("pdf");
    reveal_strlit("transcription");
    reveal_strlit("extraction");
    reveal_strlit("transcription ");
    reveal_strlit("extraction ");
    reveal_strlit(" ");
    assert("transcription "@ =~= "transcription"@ + " "@);
    assert("extraction "@ =~= "extraction"@ + " "@);
}

// ---------------------------------------------------------------------------
// What holds of every call
// ---------------------------------------------------------------------------

/// However a source is cut, every line of it that says something stands in one
/// band, and that band names each span that covers the line, once and in the
/// order given, and no other.
pub proof fn a_cut_names_all_that_claim_a_line(
    raw_text: &str,
    spans: &[(String, CorpusSpan)],
    highlight: Option<(i64, i64)>,
    r: Vec<Band>,
    k: int,
    n: int,
)
    requires
        call_ensures(bands, (raw_text, spans, highlight), r),
        text::lines(raw_text@).len() <= i64::MAX,
        0 <= k < r@.len(),
        r@[k].from <= n <= r@[k].to,
        n == 1 || !text::blank(text::lines(raw_text@)[n - 1]),
    ensures
        text::texts(r@[k].artifact_ids@) == spans@.filter(
            |s: (String, CorpusSpan)| s.1.start_line <= n <= s.1.end_line,
        ).map_values(|s: (String, CorpusSpan)| s.0@),
        forall|i: int|
            0 <= i < spans@.len() && (#[trigger] spans@[i]).1.start_line <= n
                <= spans@[i].1.end_line ==> text::texts(r@[k].artifact_ids@).contains(
                spans@[i].0@,
            ),
{
    let all = text::lines(raw_text@);
    assert(is_band(r@[k], all, spans@, highlight));
    a_band_names_all_that_claim_its_lines(r@[k], all, spans@, highlight, n);
    a_line_stands_beside_all_that_claim_it(spans@, n);
}

/// A slice that is asked for shows every line of the source that is within its
/// reach, and no other, as the source has it.
pub proof fn a_slice_is_what_was_asked_for(
    source: &Corpus,
    span: &CorpusSpan,
    context: usize,
    r: CorpusSlice,
    line: int,
)
    requires
        call_ensures(slice, (source, Some(span), context), r),
        text::lines(source.raw_text@).len() <= i64::MAX,
        context <= i64::MAX,
        i64::MIN <= span.start_line - context,
        span.end_line + context <= i64::MAX,
    ensures
        (exists|i: int| 0 <= i < r.lines@.len() && (#[trigger] r.lines@[i]).number == line) <==> 1
            <= line <= text::lines(source.raw_text@).len() && span.start_line - context <= line
            <= span.end_line + context,
        forall|i: int|
            0 <= i < r.lines@.len() ==> (#[trigger] r.lines@[i]).text@ == text::lines(
                source.raw_text@,
            )[r.lines@[i].number - 1],
{
    a_slice_is_a_window(r, *source, *span, context as int, line);
}

} // verus!
