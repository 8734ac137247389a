//! The doors a phone presses: the decisions and the pages beyond reading.
//!
//! Every answer here is the same decision a browser's page makes, so a verdict
//! from a phone and one from a browser are one kind of verdict.

use crate::api::ask_door;
use crate::artifact;
use crate::artifact::{how_far_off, probes_of, tag_words, ArtifactView, Integration, Probe};
use crate::capture::{refuses, Code, IngestOutcome};
use crate::corpus;
use crate::corpus::{
    coverage_final, coverage_of, deal, exif_tag_rows, metadata_rows, offer_of, placed_of, unread_of,
};
use crate::corpus_view;
use crate::corpus_view::{bands, Band, CorpusLine};
use crate::day;
use crate::day::entry_capture;
use crate::json;
use crate::json::text_in;
use crate::records::{
    AskNote, Capture, Chunk, Corpus, Error, Moment, Provenance, Segment, SegmentState, ORIGIN_ASK,
    ORIGIN_IMAGE, ORIGIN_PDF,
};
use crate::text;
use crate::text::{is_blank, same, trimmed};
use crate::zones;
use crate::zones::{iso_of, read_day, zone, ISO_DAY};
use vstd::prelude::*;

verus! {

// ---------------------------------------------------------------------------
// The page of a source, as data
// ---------------------------------------------------------------------------

/// One numbered line of a source, as it is sent.
pub struct SourceLine {
    pub number: i64,
    pub text: String,
    pub in_span: bool,
}

/// One stretch of a source, as it is sent.
pub struct BandOut {
    pub from: i64,
    pub to: i64,
    /// Nothing was written from these lines, and the loss is final.
    pub gap: bool,
    /// The lines a re-read would read, where one is offered: `reads lines
    /// 118–141`.
    pub reread: Option<String>,
    pub lines: Vec<SourceLine>,
    /// The artifacts written from these lines, in order. The first band an
    /// artifact appears in carries it; a later band it also spans names it in
    /// `echoes`.
    pub artifact_ids: Vec<String>,
    pub echoes: Vec<String>,
}

/// A window a promotion has synthesized, as it is sent.
pub struct PromotedOut {
    pub idx: i64,
    pub from: i64,
    pub to: i64,
}

/// The page of a source as data: what stands above the bands, and the bands.
pub struct CorpusPage {
    pub image: bool,
    pub pdf: bool,
    /// A photo or a PDF nothing has read yet.
    pub unread: bool,
    pub restored: bool,
    pub note: Option<String>,
    pub coverage: Option<String>,
    pub meta: Vec<(String, String)>,
    pub exif: Vec<(String, String)>,
    pub promoted: Vec<PromotedOut>,
    pub bands: Vec<BandOut>,
    /// Artifacts that name no lines of this capture.
    pub unplaced: Vec<String>,
    /// Artifacts written from several sources, this one among them.
    pub written_from: Vec<String>,
}

/// `v` is the lines `l`, in order.
pub open spec fn are_lines(v: Seq<SourceLine>, l: Seq<CorpusLine>) -> bool {
    &&& v.len() == l.len()
    &&& forall|i: int|
        0 <= i < v.len() ==> {
            &&& (#[trigger] v[i]).number == l[i].number
            &&& v[i].text@ == l[i].text@
            &&& v[i].in_span == l[i].in_span
        }
}

/// `v` is the band `cut[k]` as it is sent.
pub open spec fn is_out(
    v: BandOut,
    cut: Seq<Band>,
    k: int,
    segments: Seq<Segment>,
    losses_are_final: bool,
) -> bool {
    let b = cut[k];
    let ids = text::texts(b.artifact_ids@);
    &&& v.from == b.from
    &&& v.to == b.to
    &&& are_lines(v.lines@, b.lines@)
    &&& v.gap == (b.is_gap() && losses_are_final)
    &&& text::text_of(v.reread) == corpus::offer(
        b.is_gap(),
        b.from as int,
        b.to as int,
        segments,
        losses_are_final,
    )
    &&& text::texts(v.artifact_ids@) == corpus::fresh(corpus::seen(cut, k), ids)
    &&& text::texts(v.echoes@) == corpus::stale(corpus::seen(cut, k), ids)
}

/// `v` is the bands of `cut` as they are sent.
pub open spec fn are_outs(
    v: Seq<BandOut>,
    cut: Seq<Band>,
    segments: Seq<Segment>,
    losses_are_final: bool,
) -> bool {
    &&& v.len() == cut.len()
    &&& forall|k: int|
        0 <= k < v.len() ==> is_out(#[trigger] v[k], cut, k, segments, losses_are_final)
}

/// Whether a window holds something that was captured from it, once it was
/// read: what a promotion wrote.
pub open spec fn holds_written(w: Segment, chunks: Seq<Chunk>) -> bool {
    w.state == SegmentState::Done && exists|i: int|
        0 <= i < chunks.len() && (#[trigger] chunks[i]).segment_idx == Some(w.idx)
            && chunks[i].provenance == Provenance::Captured
}

/// The windows that hold something a promotion wrote, in order.
pub open spec fn written_windows(segments: Seq<Segment>, chunks: Seq<Chunk>) -> Seq<Segment> {
    segments.filter(|w: Segment| holds_written(w, chunks))
}

/// `v` is the windows `w`, in order.
pub open spec fn are_windows(v: Seq<PromotedOut>, w: Seq<Segment>) -> bool {
    &&& v.len() == w.len()
    &&& forall|i: int|
        0 <= i < v.len() ==> {
            &&& (#[trigger] v[i]).idx == w[i].idx
            &&& v[i].from == w[i].start_line
            &&& v[i].to == w[i].end_line
        }
}

/// What artifacts go by.
pub open spec fn ids_of(chunks: Seq<Chunk>) -> Seq<Seq<char>> {
    chunks.map_values(|c: Chunk| c.id@)
}

/// What is sent of a source.
pub open spec fn is_corpus_page(
    p: CorpusPage,
    s: Corpus,
    chunks: Seq<Chunk>,
    segments: Seq<Segment>,
    originating: Seq<Chunk>,
) -> bool {
    let restored = s.restored_at is Some;
    let lines = text::lines(s.raw_text@);
    let lost = corpus::losses_final(s.status, segments, chunks, restored);
    &&& p.image == (s.origin@ == ORIGIN_IMAGE@)
    &&& p.pdf == (s.origin@ == ORIGIN_PDF@)
    &&& p.unread == corpus::is_unread(s)
    &&& p.restored == restored
    &&& text::text_of(p.note) == json::as_text(json::under(s.metadata, "note"@))
    &&& text::text_of(p.coverage) == corpus::coverage_words(s, chunks)
    &&& corpus::pairs(p.meta@) == corpus::rows_of(s.metadata)
    &&& corpus::in_label_order(corpus::pairs(p.exif@))
    &&& corpus::pairs(p.exif@).to_multiset() == corpus::tags_of(s.metadata).to_multiset()
    &&& are_windows(p.promoted@, written_windows(segments, chunks))
    &&& restored ==> p.bands@.len() == 0
    &&& !restored ==> exists|cut: Seq<Band>|
        {
            &&& #[trigger] corpus_view::is_cut(
                cut,
                lines,
                corpus::placed(chunks),
                None,
                lines.len() as int,
            )
            &&& are_outs(p.bands@, cut, segments, lost)
        }
    &&& text::texts(p.unplaced@) == ids_of(corpus::unplaced(chunks, restored))
    &&& text::texts(p.written_from@) == ids_of(corpus::still_returned(originating))
}

/// Some lines of a source, as they are sent.
fn lines_out(lines: Vec<CorpusLine>) -> (r: Vec<SourceLine>)
    ensures
        are_lines(r@, lines@),
{
    let ghost all = lines@;
    let mut r: Vec<SourceLine> = Vec::new();
    for l in it: lines
        invariant
            it.seq() == all,
            r@.len() == it.index(),
            forall|i: int|
                0 <= i < r@.len() ==> {
                    &&& (#[trigger] r@[i]).number == all[i].number
                    &&& r@[i].text@ == all[i].text@
                    &&& r@[i].in_span == all[i].in_span
                },
    {
        r.push(SourceLine { number: l.number, text: l.text, in_span: l.in_span });
    }
    r
}

/// The bands of a source as they are sent.
pub fn bands_out(cut: Vec<Band>, segments: &[Segment], losses_are_final: bool) -> (r: Vec<BandOut>)
    ensures
        are_outs(r@, cut@, segments@, losses_are_final),
{
    let ghost whole = cut@;
    let mut out: Vec<BandOut> = Vec::new();
    let mut carded: Vec<String> = Vec::new();
    assert(text::texts(carded@).to_set() =~= corpus::seen(whole, 0));
    for b in it: cut
        invariant
            it.seq() == whole,
            out@.len() == it.index(),
            text::texts(carded@).to_set() == corpus::seen(whole, it.index() as int),
            forall|k: int|
                0 <= k < out@.len() ==> is_out(
                    #[trigger] out@[k],
                    whole,
                    k,
                    segments@,
                    losses_are_final,
                ),
    {
        assert(b == whole[it.index() as int]);
        let (artifact_ids, echoes) = deal(b.artifact_ids.as_slice(), &mut carded);
        let gap = b.gap();
        let reread = offer_of(gap, b.from, b.to, segments, losses_are_final);
        out.push(
            BandOut {
                from: b.from,
                to: b.to,
                gap: gap && losses_are_final,
                reread,
                lines: lines_out(b.lines),
                artifact_ids,
                echoes,
            },
        );
    }
    out
}

/// The ids of the artifacts that name no lines.
fn unplaced_ids(chunks: &[Chunk], restored: bool) -> (r: Vec<String>)
    ensures
        text::texts(r@) == ids_of(corpus::unplaced(chunks@, restored)),
{
    reveal(Seq::filter);
    let mut r: Vec<String> = Vec::new();
    let mut i: usize = 0;
    assert(text::texts(r@) =~= ids_of(corpus::unplaced(chunks@.take(0), restored)));
    while i < chunks.len()
        invariant
            i <= chunks@.len(),
            text::texts(r@) == ids_of(corpus::unplaced(chunks@.take(i as int), restored)),
        decreases chunks.len() - i,
    {
        reveal(Seq::filter);
        assert(chunks@.take(i + 1).drop_last() =~= chunks@.take(i as int));
        if restored || chunks[i].corpus_span.is_none() {
            let id = chunks[i].id.clone();
            proof {
                let before = corpus::unplaced(chunks@.take(i as int), restored);
                assert(text::texts(r@.push(id)) =~= text::texts(r@).push(id@));
                assert(ids_of(before.push(chunks@[i as int])) =~= ids_of(before).push(id@));
            }
            r.push(id);
        }
        i = i + 1;
    }
    assert(chunks@.take(chunks@.len() as int) =~= chunks@);
    r
}

/// The ids of the artifacts that a search may still return.
fn returned_ids(chunks: &[Chunk]) -> (r: Vec<String>)
    ensures
        text::texts(r@) == ids_of(corpus::still_returned(chunks@)),
{
    reveal(Seq::filter);
    let mut r: Vec<String> = Vec::new();
    let mut i: usize = 0;
    assert(text::texts(r@) =~= ids_of(corpus::still_returned(chunks@.take(0))));
    while i < chunks.len()
        invariant
            i <= chunks@.len(),
            text::texts(r@) == ids_of(corpus::still_returned(chunks@.take(i as int))),
        decreases chunks.len() - i,
    {
        reveal(Seq::filter);
        assert(chunks@.take(i + 1).drop_last() =~= chunks@.take(i as int));
        if chunks[i].in_results() {
            let id = chunks[i].id.clone();
            proof {
                let before = corpus::still_returned(chunks@.take(i as int));
                assert(text::texts(r@.push(id)) =~= text::texts(r@).push(id@));
                assert(ids_of(before.push(chunks@[i as int])) =~= ids_of(before).push(id@));
            }
            r.push(id);
        }
        i = i + 1;
    }
    assert(chunks@.take(chunks@.len() as int) =~= chunks@);
    r
}

/// Whether a window holds something a promotion wrote.
fn written(w: &Segment, chunks: &[Chunk]) -> (r: bool)
    ensures
        r == holds_written(*w, chunks@),
{
    if w.state != SegmentState::Done {
        return false;
    }
    let mut i: usize = 0;
    while i < chunks.len()
        invariant
            i <= chunks@.len(),
            w.state == SegmentState::Done,
            forall|j: int|
                0 <= j < i ==> !((#[trigger] chunks@[j]).segment_idx == Some(w.idx)
                    && chunks@[j].provenance == Provenance::Captured),
        decreases chunks.len() - i,
    {
        if chunks[i].provenance == Provenance::Captured {
            match chunks[i].segment_idx {
                Some(idx) => {
                    if idx == w.idx {
                        assert(chunks@[i as int].segment_idx == Some(w.idx));
                        return true;
                    }
                },
                None => {},
            }
        }
        i = i + 1;
    }
    false
}

/// The windows that hold something a promotion wrote, in order.
fn written_of(segments: &[Segment], chunks: &[Chunk]) -> (r: Vec<PromotedOut>)
    ensures
        are_windows(r@, written_windows(segments@, chunks@)),
{
    reveal(Seq::filter);
    let mut r: Vec<PromotedOut> = Vec::new();
    let mut i: usize = 0;
    while i < segments.len()
        invariant
            i <= segments@.len(),
            are_windows(r@, written_windows(segments@.take(i as int), chunks@)),
        decreases segments.len() - i,
    {
        reveal(Seq::filter);
        assert(segments@.take(i + 1).drop_last() =~= segments@.take(i as int));
        let w = segments[i];
        if written(&w, chunks) {
            r.push(PromotedOut { idx: w.idx, from: w.start_line, to: w.end_line });
        }
        i = i + 1;
    }
    assert(segments@.take(segments@.len() as int) =~= segments@);
    r
}

/// The source band by band beside what was written from it: the same cut the
/// page shows, so a phone and a browser show the same losses.
pub fn corpus_bands(
    s: &Corpus,
    chunks: &[Chunk],
    segments: &[Segment],
    originating: &[Chunk],
) -> (r: CorpusPage)
    requires
        text::lines(s.raw_text@).len() <= i64::MAX,
    ensures
        is_corpus_page(r, *s, chunks@, segments@, originating@),
{
    let restored = s.restored_at.is_some();
    let unplaced = unplaced_ids(chunks, restored);
    assert(text::texts(unplaced@).len() == corpus::unplaced(chunks@, restored).len());
    let losses_are_final = coverage_final(&s.status) && segments.len() > 0 && unplaced.len() == 0;
    let ghost lines = text::lines(s.raw_text@);
    let ghost mut cut_seq: Seq<Band> = Seq::empty();
    let outs = if restored {
        Vec::new()
    } else {
        let spans = placed_of(chunks);
        let cut = bands(s.raw_text.as_str(), spans.as_slice(), None);
        proof {
            cut_seq = cut@;
        }
        bands_out(cut, segments, losses_are_final)
    };
    proof {
        if !restored {
            assert(corpus_view::is_cut(
                cut_seq,
                lines,
                corpus::placed(chunks@),
                None,
                lines.len() as int,
            ));
            assert(are_outs(outs@, cut_seq, segments@, losses_are_final));
        }
    }
    CorpusPage {
        image: same(s.origin.as_str(), ORIGIN_IMAGE),
        pdf: same(s.origin.as_str(), ORIGIN_PDF),
        unread: unread_of(s),
        restored,
        note: text_in(s.metadata.get("note")),
        coverage: coverage_of(s, chunks),
        meta: metadata_rows(&s.metadata),
        exif: exif_tag_rows(&s.metadata),
        promoted: written_of(segments, chunks),
        bands: outs,
        unplaced,
        written_from: returned_ids(originating),
    }
}

/// What a page card goes by.
pub open spec fn card_ids(cards: Seq<ArtifactView>) -> Seq<Seq<char>> {
    cards.map_values(|c: ArtifactView| c.id@)
}

/// What an echo points at.
pub open spec fn echo_ids(echoes: Seq<corpus::BandEcho>) -> Seq<Seq<char>> {
    echoes.map_values(|e: corpus::BandEcho| e.id@)
}

/// `out` as it is sent and `view` on the page are the same band: the same lines
/// with the same words, the same loss and offer, and the same artifacts shown
/// and pointed at.
pub open spec fn same_band(out: BandOut, view: corpus::BandView) -> bool {
    &&& out.from == view.from
    &&& out.to == view.to
    &&& out.gap == view.gap
    &&& text::text_of(out.reread) == text::text_of(view.reread)
    &&& out.lines@.len() == view.lines@.len()
    &&& forall|i: int|
        0 <= i < out.lines@.len() ==> (#[trigger] out.lines@[i]).number == view.lines@[i].number
            && out.lines@[i].text@ == view.lines@[i].text@
    &&& text::texts(out.artifact_ids@) == card_ids(view.artifacts@)
    &&& text::texts(out.echoes@) == echo_ids(view.echoes@)
}

/// An artifact that is found goes by what it was looked for.
proof fn what_is_found_goes_by_its_id(chunks: Seq<Chunk>, id: Seq<char>)
    ensures
        corpus::found(chunks, id) matches Some(c) ==> c.id@ == id,
    decreases chunks.len(),
{
    if chunks.len() > 0 && chunks.last().id@ != id {
        what_is_found_goes_by_its_id(chunks.drop_last(), id);
    }
}

/// Two cuts with the same bands have claimed the same artifacts by any band.
proof fn cuts_have_seen_the_same(a: Seq<Band>, b: Seq<Band>, k: int)
    requires
        0 <= k <= a.len(),
        a.len() == b.len(),
        forall|i: int|
            0 <= i < a.len() ==> text::texts((#[trigger] a[i]).artifact_ids@) == text::texts(
                b[i].artifact_ids@,
            ),
    ensures
        corpus::seen(a, k) == corpus::seen(b, k),
    decreases k,
{
    if k > 0 {
        cuts_have_seen_the_same(a, b, k - 1);
        assert(text::texts(a[k - 1].artifact_ids@) == text::texts(b[k - 1].artifact_ids@));
    }
}

/// The `k`th band of a cut as it is sent is the `k`th band of a cut of the same
/// source on the page.
proof fn bands_agree(
    out: BandOut,
    view: corpus::BandView,
    a: Seq<Band>,
    b: Seq<Band>,
    k: int,
    lines: Seq<Seq<char>>,
    chunks: Seq<Chunk>,
    segments: Seq<Segment>,
    highlight: Option<(i64, i64)>,
    lost: bool,
)
    requires
        corpus_view::is_cut(a, lines, corpus::placed(chunks), None, lines.len() as int),
        corpus_view::is_cut(b, lines, corpus::placed(chunks), highlight, lines.len() as int),
        0 <= k < a.len(),
        k < b.len(),
        is_out(out, a, k, segments, lost),
        corpus::is_view(view, b, k, chunks, segments, lost),
    ensures
        same_band(out, view),
{
    corpus_view::there_is_one_cut(a, b, lines, corpus::placed(chunks), None, highlight);
    cuts_have_seen_the_same(a, b, k);
    assert(corpus_view::is_band(a[k], lines, corpus::placed(chunks), None));
    assert(corpus_view::is_band(b[k], lines, corpus::placed(chunks), highlight));
    let ids = text::texts(a[k].artifact_ids@);
    assert(ids == text::texts(b[k].artifact_ids@));
    assert(ids.len() == a[k].artifact_ids@.len());
    assert(ids.len() == b[k].artifact_ids@.len());
    let first = corpus::fresh(corpus::seen(b, k), ids);
    let again = corpus::stale(corpus::seen(b, k), ids);
    assert(card_ids(view.artifacts@) =~= first) by {
        assert forall|i: int| 0 <= i < first.len() implies card_ids(view.artifacts@)[i]
            == first[i] by {
            what_is_found_goes_by_its_id(chunks, first[i]);
            assert(card_ids(view.artifacts@)[i] == view.artifacts@[i].id@);
        }
    }
    assert(echo_ids(view.echoes@) =~= again) by {
        assert forall|i: int| 0 <= i < again.len() implies echo_ids(view.echoes@)[i]
            == again[i] by {
            what_is_found_goes_by_its_id(chunks, again[i]);
            assert(echo_ids(view.echoes@)[i] == view.echoes@[i].id@);
        }
    }
}

/// A phone and a browser show the same source the same way, whichever lines the
/// browser marks: what is sent and what is shown have the same bands, over the
/// same lines, with the same losses and offers, beside the same artifacts; the
/// same artifacts that name no lines and that were written from this source
/// among others; and the same coverage. A restored source has no bands.
pub proof fn two_doors_one_page(
    sent: CorpusPage,
    shown: corpus::CorpusTemplate,
    s: Corpus,
    chunks: Seq<Chunk>,
    segments: Seq<Segment>,
    originating: Seq<Chunk>,
    range: corpus::LineRange,
)
    requires
        is_corpus_page(sent, s, chunks, segments, originating),
        corpus::is_page(shown, s, chunks, segments, originating, range),
    ensures
        sent.bands@.len() == shown.bands@.len(),
        forall|k: int|
            0 <= k < sent.bands@.len() ==> same_band(#[trigger] sent.bands@[k], shown.bands@[k]),
        text::texts(sent.unplaced@) == card_ids(shown.unplaced@),
        text::texts(sent.written_from@) == card_ids(shown.written_from@),
        text::text_of(sent.coverage) == text::text_of(shown.coverage),
        s.restored_at is Some ==> sent.bands@.len() == 0 && shown.bands@.len() == 0,
{
    let lines = text::lines(s.raw_text@);
    let n = lines.len() as int;
    let placed = corpus::placed(chunks);
    let highlight = corpus::highlighted(range);
    let restored = s.restored_at is Some;
    let lost = corpus::losses_final(s.status, segments, chunks, restored);
    assert(ids_of(corpus::unplaced(chunks, restored)) =~= card_ids(shown.unplaced@));
    assert(ids_of(corpus::still_returned(originating)) =~= card_ids(shown.written_from@));
    if !restored {
        let a = choose|cut: Seq<Band>|
            {
                &&& #[trigger] corpus_view::is_cut(cut, lines, placed, None, n)
                &&& are_outs(sent.bands@, cut, segments, lost)
            };
        let b = choose|cut: Seq<Band>|
            {
                &&& #[trigger] corpus_view::is_cut(cut, lines, placed, highlight, n)
                &&& corpus::are_views(shown.bands@, cut, chunks, segments, lost)
            };
        corpus_view::there_is_one_cut(a, b, lines, placed, None, highlight);
        assert forall|k: int| 0 <= k < sent.bands@.len() implies same_band(
            #[trigger] sent.bands@[k],
            shown.bands@[k],
        ) by {
            assert(is_out(sent.bands@[k], a, k, segments, lost));
            assert(corpus::is_view(shown.bands@[k], b, k, chunks, segments, lost));
            bands_agree(
                sent.bands@[k],
                shown.bands@[k],
                a,
                b,
                k,
                lines,
                chunks,
                segments,
                highlight,
                lost,
            );
        }
    }
}

// ---------------------------------------------------------------------------
// Verdicts
// ---------------------------------------------------------------------------

/// A verdict on what a search found.
pub struct SearchVerdictBody {
    /// `hit`, `no`, `skip`, or `none` to take a verdict back.
    pub verdict: String,
    pub artifact_id: String,
}

/// What stands of a search afterwards.
pub struct VerdictAnswer {
    /// `hit`, `no`, `skip`, or nothing for no verdict.
    pub state: &'static str,
    /// Another door judged this search first.
    pub already: bool,
}

/// What stands of a search once somebody has judged it: what they said, and
/// where another door was first only that.
pub fn search_verdict(judged: Option<&'static str>) -> (r: VerdictAnswer)
    ensures
        match judged {
            Some(state) => r.state@ == state@ && !r.already,
            None => r.state@ == ""@ && r.already,
        },
{
    match judged {
        Some(state) => VerdictAnswer { state, already: false },
        None => VerdictAnswer { state: "", already: true },
    }
}

/// That nothing found answers a search.
pub struct GapBody {
    pub q: String,
}

/// Whether that was taken down.
pub struct GapAnswer {
    pub recorded: bool,
}

/// A verdict on an answer.
pub struct AskVerdictBody {
    /// `right`, `wrong`, `nothing_here`, or `none` to take it back.
    pub verdict: String,
}

/// What stands of an answer afterwards.
pub struct AskVerdictAnswer {
    /// The verdict in words, none where the question stands unjudged.
    pub verdict: Option<String>,
}

/// A verdict on an answer.
#[derive(Clone, Copy, PartialEq, Eq, Structural, Debug)]
pub enum AskVerdict {
    Right,
    Wrong,
    NothingHere,
}

impl AskVerdict {
    /// The verdict a word stands for.
    pub open spec fn named(word: Seq<char>) -> Option<AskVerdict> {
        if word == "right"@ {
            Some(AskVerdict::Right)
        } else if word == "wrong"@ {
            Some(AskVerdict::Wrong)
        } else if word == "nothing_here"@ {
            Some(AskVerdict::NothingHere)
        } else {
            None
        }
    }

    /// The verdict a word stands for.
    pub fn parse(word: &str) -> (r: Option<AskVerdict>)
        ensures
            r == AskVerdict::named(word@),
    {
        if same(word, "right") {
            Some(AskVerdict::Right)
        } else if same(word, "wrong") {
            Some(AskVerdict::Wrong)
        } else if same(word, "nothing_here") {
            Some(AskVerdict::NothingHere)
        } else {
            None
        }
    }

    /// A verdict in words.
    pub open spec fn words(self) -> Seq<char> {
        match self {
            AskVerdict::Right => "right"@,
            AskVerdict::Wrong => "wrong"@,
            AskVerdict::NothingHere => "nothing here"@,
        }
    }

    /// A verdict in words.
    pub fn label(self) -> (r: String)
        ensures
            r@ == self.words(),
    {
        match self {
            AskVerdict::Right => "right".to_owned(),
            AskVerdict::Wrong => "wrong".to_owned(),
            AskVerdict::NothingHere => "nothing here".to_owned(),
        }
    }
}

/// What a verdict on an answer does.
#[derive(Clone, Copy, PartialEq, Eq, Structural, Debug)]
pub enum Judgement {
    TakenBack,
    Judged(AskVerdict),
}

/// What a verdict on an answer does. Without a model that answers there is no
/// answer to judge.
pub fn ask_verdict(asks: bool, b: &AskVerdictBody) -> (r: Result<Judgement, Error>)
    ensures
        if !asks {
            r matches Err(Error::NotFound)
        } else if b.verdict@ == "none"@ {
            r matches Ok(j) && j == Judgement::TakenBack
        } else {
            match AskVerdict::named(b.verdict@) {
                Some(v) => r matches Ok(j) && j == Judgement::Judged(v),
                None => refuses(r, "unknown verdict "@ + b.verdict@),
            }
        },
{
    match ask_door(asks) {
        Ok(_) => {},
        Err(e) => {
            return Err(e);
        },
    }
    if same(b.verdict.as_str(), "none") {
        return Ok(Judgement::TakenBack);
    }
    match AskVerdict::parse(b.verdict.as_str()) {
        Some(v) => Ok(Judgement::Judged(v)),
        None => {
            let mut m = "unknown verdict ".to_owned();
            m.append(b.verdict.as_str());
            Err(Error::Validation(m))
        },
    }
}

/// The words of a verdict that may be absent.
pub open spec fn verdict_words(v: Option<AskVerdict>) -> Option<Seq<char>> {
    match v {
        Some(x) => Some(x.words()),
        None => None,
    }
}

/// The words of a verdict that may be absent.
fn verdict_said(v: Option<AskVerdict>) -> (r: Option<String>)
    ensures
        text::text_of(r) == verdict_words(v),
{
    match v {
        Some(x) => Some(x.label()),
        None => None,
    }
}

/// What stands of an answer after a verdict. `found` is the verdict on the
/// question, where there is such a question.
pub fn ask_verdict_answer(found: Option<Option<AskVerdict>>) -> (r: Result<
    AskVerdictAnswer,
    Error,
>)
    ensures
        match found {
            Some(v) => r matches Ok(a) && text::text_of(a.verdict) == verdict_words(v),
            None => r matches Err(Error::NotFound),
        },
{
    match found {
        Some(v) => Ok(AskVerdictAnswer { verdict: verdict_said(v) }),
        None => Err(Error::NotFound),
    }
}

/// Which excerpt carried an answer.
pub struct CarriedBody {
    /// Its number, from one, as the answer cites it.
    pub n: i64,
}

/// Whether it is said to, and what that makes of the answer.
pub struct CarriedAnswer {
    pub carried: bool,
    pub verdict: Option<String>,
}

/// What stands of an answer after an excerpt was said to carry it. The verdict
/// comes back with it: to say that an excerpt carried the answer is to say that
/// the answer was right.
pub fn ask_carried(carried: bool, found: Option<Option<AskVerdict>>) -> (r: Result<
    CarriedAnswer,
    Error,
>)
    ensures
        match found {
            Some(v) => r matches Ok(a) && a.carried == carried && text::text_of(a.verdict)
                == verdict_words(v),
            None => r matches Err(Error::NotFound),
        },
{
    match found {
        Some(v) => Ok(CarriedAnswer { carried, verdict: verdict_said(v) }),
        None => Err(Error::NotFound),
    }
}

// ---------------------------------------------------------------------------
// Keeping an answer
// ---------------------------------------------------------------------------

/// A question and its answer.
pub struct Asked {
    pub id: String,
    pub question: String,
    pub answer: String,
    /// The artifacts it was written from.
    pub citations: Vec<String>,
}

/// What became of an answer that was kept.
pub struct KeptAnswer {
    /// The source it became.
    pub id: String,
    pub duplicate: bool,
    /// Stored, but waiting on a decision between it and a source nearly like
    /// it.
    pub parked: bool,
    pub near_dupe_percent: i64,
}

/// `n` is what is noted of the question `a` beside a text that answers it.
pub open spec fn is_note(n: AskNote, a: Asked) -> bool {
    &&& n.event_id == a.id
    &&& n.question == a.question
    &&& n.citations == a.citations
}

/// What is noted of a question beside a text that answers it.
pub fn ask_note(a: Asked) -> (r: AskNote)
    ensures
        is_note(r, a),
{
    AskNote { event_id: a.id, question: a.question, citations: a.citations }
}

/// An answer as a source, with the question and what it was written from.
pub fn ask_keep(asks: bool, found: Option<Asked>) -> (r: Result<Capture, Error>)
    ensures
        match found {
            Some(a) => if asks {
                &&& r matches Ok(c)
                &&& (Capture { ask: None, ..c }).is_bare(a.answer@, ORIGIN_ASK@)
                &&& c.ask matches Some(n) && is_note(n, a)
            } else {
                r matches Err(Error::NotFound)
            },
            None => r matches Err(Error::NotFound),
        },
{
    match ask_door(asks) {
        Ok(_) => {},
        Err(e) => {
            return Err(e);
        },
    }
    match found {
        Some(a) => {
            let mut c = Capture::new(a.answer.clone(), ORIGIN_ASK);
            c.ask = Some(ask_note(a));
            Ok(c)
        },
        None => Err(Error::NotFound),
    }
}

/// What became of an answer that was kept. `near` is how much of a hundred it
/// is like the source nearest to it, where it is parked for that.
pub fn kept_answer(out: IngestOutcome, near: Option<i64>) -> (r: KeptAnswer)
    ensures
        r.id == out.id,
        r.duplicate == out.duplicate,
        r.parked == (near is Some),
        r.near_dupe_percent == (match near {
            Some(n) => n,
            None => 0,
        }),
{
    let near_dupe_percent: i64 = match near {
        Some(n) => n,
        None => 0,
    };
    KeptAnswer { id: out.id, duplicate: out.duplicate, parked: near.is_some(), near_dupe_percent }
}

// ---------------------------------------------------------------------------
// Reminders, artifacts and days
// ---------------------------------------------------------------------------

/// Where a reminder is moved to.
pub struct DateBody {
    /// The new instant.
    pub at: i64,
    /// The zone it was chosen in.
    pub tz: String,
}

/// Where a reminder is moved to: the instant, and the zone as the table spells
/// it.
pub fn moment_date(found: bool, b: &DateBody) -> (r: Result<(i64, String), Error>)
    ensures
        if found {
            r matches Ok(t) && t.0 == b.at && t.1@ == zones::zone_of(Some(b.tz@))
        } else {
            r matches Err(Error::NotFound)
        },
{
    if found {
        Ok((b.at, zone(Some(b.tz.as_str())).name))
    } else {
        Err(Error::NotFound)
    }
}

/// What becomes of a reminder that was none.
pub struct NotAReminderAnswer {
    /// The artifact it can be given back to, where it can.
    pub undo: Option<String>,
}

/// What becomes of a reminder that was none: it can be given back where it was
/// taken and where what it was read from can be one.
pub fn not_a_reminder(artifact_id: String, did: bool, takes_it_back: bool) -> (r:
    NotAReminderAnswer)
    ensures
        r.undo == (if did && takes_it_back {
            Some(artifact_id)
        } else {
            None
        }),
{
    let undo = if did && takes_it_back {
        Some(artifact_id)
    } else {
        None
    };
    NotAReminderAnswer { undo }
}

/// How long an artifact was on the screen.
pub struct DwellBody {
    pub secs: i64,
}

/// The lines of the pane that are about an artifact rather than of it.
pub struct About {
    /// What the base found when it arrived, as a sentence.
    pub tag: Option<String>,
    /// Its probes, one line each.
    pub probes: Vec<String>,
    /// What undoes the condensation of its text, where the text is condensed.
    pub condensed: Option<String>,
    /// When it is due, in words.
    pub due_in: Option<String>,
}

/// What is said about an artifact.
pub fn artifact_about(
    integration: Option<&Integration>,
    probes: &[Probe],
    condensed: Option<String>,
    due: Option<&Moment>,
    due_in: Option<String>,
) -> (r: About)
    ensures
        text::text_of(r.tag) == (match integration {
            Some(i) => Some(artifact::tag_sentence(*i)),
            None => None,
        }),
        artifact::are_probe_lines(r.probes@, probes@),
        r.condensed == condensed,
        r.due_in == artifact::off_said(
            match due {
                Some(m) => Some(*m),
                None => None,
            },
            due_in,
        ),
{
    let tag = match integration {
        Some(i) => Some(tag_words(i)),
        None => None,
    };
    About { tag, probes: probes_of(probes), condensed, due_in: how_far_off(due, due_in) }
}

/// Which lines of a source are to be read again.
pub struct RereadBody {
    pub from: i64,
    pub to: i64,
}

/// What a re-read is answered: that something will be read, or that there was
/// nothing to read again.
pub fn reread_code(windows: &[i64]) -> (r: Code)
    ensures
        r == (if windows@.len() > 0 {
            Code::Accepted
        } else {
            Code::Done
        }),
{
    if windows.len() > 0 {
        Code::Accepted
    } else {
        Code::Done
    }
}

/// Whether a capture is the day's entry.
pub struct EntryBody {
    pub on: bool,
}

/// An entry into a day.
pub struct DayEntryBody {
    pub text: String,
    pub tz: String,
}

/// What an entry became.
pub struct DayEntryAnswer {
    pub id: String,
}

/// The entry that is kept: into a day that is one, under its one spelling, in
/// a zone of the zone table.
pub fn day_entry(date: &str, b: &DayEntryBody, lang: &str) -> (r: Result<Capture, Error>)
    ensures
        match zones::day_read(date@) {
            None => r matches Err(Error::NotFound),
            Some(day) => if text::blank(b.text@) {
                refuses(r, "the entry is empty"@)
            } else {
                r matches Ok(c) && day::is_entry_capture(
                    c,
                    b.text@,
                    zones::day_written(day, ISO_DAY@),
                    zones::zone_of(Some(b.tz@)),
                    lang@,
                )
            },
        },
{
    match read_day(date) {
        None => Err(Error::NotFound),
        Some(day) => {
            if is_blank(b.text.as_str()) {
                return Err(Error::Validation("the entry is empty".to_owned()));
            }
            let tz = zone(Some(b.tz.as_str()));
            Ok(entry_capture(b.text.as_str(), iso_of(day), &tz, lang))
        },
    }
}

/// A phone and a browser write the same entry: whatever the page of a day
/// keeps, the phone's door keeps too.
pub proof fn one_entry_from_two_doors(
    phone: Capture,
    page: Capture,
    text: Seq<char>,
    date: Seq<char>,
    zone: Seq<char>,
    lang: Seq<char>,
)
    requires
        day::is_entry_capture(phone, text, date, zone, lang),
        day::is_entry_capture(page, text, date, zone, lang),
    ensures
        phone.text@ == page.text@,
        phone.origin@ == page.origin@,
        text::text_of(phone.day) == text::text_of(page.day),
        text::text_of(phone.tz) == text::text_of(page.tz),
        text::text_of(phone.lang) == text::text_of(page.lang),
{
}

// ---------------------------------------------------------------------------
// What is recorded, and settings
// ---------------------------------------------------------------------------

/// What the box holds.
pub struct EchoParams {
    pub q: String,
}

/// What capture will do with the box, said before it is pressed.
pub struct Echo {
    /// Nothing for an empty box.
    pub kind: String,
    pub detail: String,
}

/// What is recorded of searches.
pub struct Recorded {
    pub captured: i64,
    pub pending: i64,
    pub judged: i64,
}

/// What is recorded of asks.
pub struct AskedRecorded {
    pub asked: i64,
    pub judged: i64,
}

/// What is kept about how the base is used: nothing while nothing is learnt.
pub struct Feedback {
    pub searches: Option<Recorded>,
    pub asks: Option<AskedRecorded>,
}

/// What is kept about how the base is used.
pub fn feedback(learning: bool, searches: Recorded, asks: AskedRecorded) -> (r: Feedback)
    ensures
        r.searches == (if learning {
            Some(searches)
        } else {
            None
        }),
        r.asks == (if learning {
            Some(asks)
        } else {
            None
        }),
{
    if learning {
        Feedback { searches: Some(searches), asks: Some(asks) }
    } else {
        Feedback { searches: None, asks: None }
    }
}

/// How many records were forgotten.
pub struct Purged {
    pub dropped: u64,
}

/// One language to choose from.
pub struct LangRow {
    pub value: &'static str,
    pub label: &'static str,
}

/// The language that is chosen, and those to choose from.
pub struct LangSetting {
    /// The tag chosen, or nothing for automatic.
    pub chosen: String,
    pub langs: Vec<LangRow>,
}

/// The language that is chosen, and those to choose from.
pub fn lang_setting(chosen: Option<&str>, langs: Vec<LangRow>) -> (r: LangSetting)
    ensures
        r.chosen@ == (match chosen {
            Some(tag) => tag@,
            None => ""@,
        }),
        r.langs == langs,
{
    let chosen = match chosen {
        Some(tag) => tag.to_owned(),
        None => "".to_owned(),
    };
    LangSetting { chosen, langs }
}

/// The language to read in.
pub struct LangBody {
    pub lang: String,
}

/// The tag a choice names, none where it is left to be automatic.
pub fn lang_tag(b: &LangBody) -> (r: Option<String>)
    ensures
        text::text_of(r) == crate::capture::given(Some(b.lang@)),
{
    let tag = trimmed(b.lang.as_str());
    if tag.as_str().is_empty() {
        None
    } else {
        Some(tag)
    }
}

/// The language a choice names. `parsed` is the language of its tag, where
/// there is one.
pub fn put_lang<L>(b: &LangBody, parsed: Option<L>) -> (r: Result<Option<L>, Error>)
    ensures
        match crate::capture::given(Some(b.lang@)) {
            None => r == Ok::<Option<L>, Error>(None),
            Some(tag) => match parsed {
                Some(lang) => r == Ok::<Option<L>, Error>(Some(lang)),
                None => refuses(r, "lang: `"@ + tag + "` is not one of the ten"@),
            },
        },
{
    match lang_tag(b) {
        None => Ok(None),
        Some(tag) => match parsed {
            Some(lang) => Ok(Some(lang)),
            None => {
                let mut m = "lang: `".to_owned();
                m.append(tag.as_str());
                m.append("` is not one of the ten");
                Err(Error::Validation(m))
            },
        },
    }
}

/// Where reminders are sent.
pub struct NotifyBody {
    pub gotify_url: String,
    pub gotify_token: String,
    pub up_endpoint: String,
}

/// Which of them is tried.
pub struct NotifyTestBody {
    pub channel: String,
}

/// What came of trying it.
pub struct NotifyTested {
    pub sent: bool,
    /// Why not, in words.
    pub error: Option<String>,
}

/// What came of trying a channel.
pub fn test_notify(out: Result<(), String>) -> (r: NotifyTested)
    ensures
        r.sent == (out is Ok),
        r.error == (match out {
            Ok(_) => None,
            Err(why) => Some(why),
        }),
{
    match out {
        Ok(_) => NotifyTested { sent: true, error: None },
        Err(why) => NotifyTested { sent: false, error: Some(why) },
    }
}

// ---------------------------------------------------------------------------
// What holds of every page that is sent
// ---------------------------------------------------------------------------

/// A band that is sent is the band that was cut: its lines as they stand, what
/// is new there and what is not, and a second reading where one is offered.
pub proof fn a_band_is_sent_as_it_was_cut(
    v: BandOut,
    cut: Seq<Band>,
    k: int,
    segments: Seq<Segment>,
    known: bool,
    i: int,
)
    requires
        0 <= k < cut.len(),
        is_out(v, cut, k, segments, known),
    ensures
        v.from == cut[k].from,
        v.to == cut[k].to,
        v.lines@.len() == cut[k].lines@.len(),
        0 <= i < v.lines@.len() ==> v.lines@[i].number == cut[k].lines@[i].number
            && v.lines@[i].text@ == cut[k].lines@[i].text@ && v.lines@[i].in_span
            == cut[k].lines@[i].in_span,
        v.gap <==> cut[k].artifact_ids@.len() == 0 && known,
        text::text_of(v.reread) == corpus::offer(
            cut[k].artifact_ids@.len() == 0,
            cut[k].from as int,
            cut[k].to as int,
            segments,
            known,
        ),
        text::texts(v.artifact_ids@) == corpus::fresh(
            corpus::seen(cut, k),
            text::texts(cut[k].artifact_ids@),
        ),
        text::texts(v.echoes@) == corpus::stale(
            corpus::seen(cut, k),
            text::texts(cut[k].artifact_ids@),
        ),
{
    if 0 <= i < v.lines@.len() {
        let _ = v.lines@[i];
    }
}

/// A window is sent as written where it is done and an artifact was written
/// from it.
pub proof fn a_window_is_sent_where_it_was_written(
    w: Segment,
    segments: Seq<Segment>,
    chunks: Seq<Chunk>,
)
    ensures
        holds_written(w, chunks) <==> w.state is Done && exists|i: int|
            0 <= i < chunks.len() && (#[trigger] chunks[i]).segment_idx == Some(w.idx)
                && chunks[i].provenance is Captured,
        written_windows(segments, chunks) == segments.filter(|w: Segment| holds_written(w, chunks)),
{
}

/// The page of a source that is sent says what the source is and what came of
/// it.
pub proof fn a_source_is_sent_as_it_is(
    p: CorpusPage,
    s: Corpus,
    chunks: Seq<Chunk>,
    segments: Seq<Segment>,
    originating: Seq<Chunk>,
)
    requires
        is_corpus_page(p, s, chunks, segments, originating),
    ensures
        p.image <==> s.origin@ == "image"@,
        p.pdf <==> s.origin@ == "pdf"@,
        p.unread == corpus::is_unread(s),
        p.restored <==> s.restored_at is Some,
        text::text_of(p.note) == json::as_text(json::under(s.metadata, "note"@)),
        text::text_of(p.coverage) == corpus::coverage_words(s, chunks),
        corpus::pairs(p.meta@) == corpus::rows_of(s.metadata),
        corpus::pairs(p.exif@).to_multiset() == corpus::tags_of(s.metadata).to_multiset(),
        forall|i: int, j: int|
            0 <= i < j < p.exif@.len() ==> text::at_most(
                #[trigger] corpus::pairs(p.exif@)[i].0,
                #[trigger] corpus::pairs(p.exif@)[j].0,
            ),
        p.promoted@.len() == written_windows(segments, chunks).len(),
        forall|i: int|
            0 <= i < p.promoted@.len() ==> {
                &&& (#[trigger] p.promoted@[i]).idx == written_windows(segments, chunks)[i].idx
                &&& p.promoted@[i].from == written_windows(segments, chunks)[i].start_line
                &&& p.promoted@[i].to == written_windows(segments, chunks)[i].end_line
            },
        s.restored_at is Some ==> p.bands@.len() == 0,
        s.restored_at is None ==> exists|cut: Seq<Band>|
            #[trigger] corpus_view::is_cut(
                cut,
                text::lines(s.raw_text@),
                corpus::placed(chunks),
                None,
                text::lines(s.raw_text@).len() as int,
            ) && p.bands@.len() == cut.len() && (forall|k: int|
                0 <= k < cut.len() ==> is_out(
                    #[trigger] p.bands@[k],
                    cut,
                    k,
                    segments,
                    corpus::losses_final(s.status, segments, chunks, false),
                )),
        p.unplaced@.len() == corpus::unplaced(chunks, s.restored_at is Some).len(),
        forall|i: int|
            0 <= i < p.unplaced@.len() ==> (#[trigger] p.unplaced@[i])@ == corpus::unplaced(
                chunks,
                s.restored_at is Some,
            )[i].id@,
        p.written_from@.len() == corpus::still_returned(originating).len(),
        forall|i: int|
            0 <= i < p.written_from@.len() ==> (#[trigger] p.written_from@[i])@
                == corpus::still_returned(originating)[i].id@,
{
    let loose = corpus::unplaced(chunks, s.restored_at is Some);
    let kept = corpus::still_returned(originating);
    assert(text::texts(p.unplaced@).len() == p.unplaced@.len());
    assert(ids_of(loose).len() == loose.len());
    assert(text::texts(p.written_from@).len() == p.written_from@.len());
    assert(ids_of(kept).len() == kept.len());
    assert forall|i: int| 0 <= i < p.unplaced@.len() implies (#[trigger] p.unplaced@[i])@
        == loose[i].id@ by {
        assert(text::texts(p.unplaced@)[i] == ids_of(loose)[i]);
    }
    assert forall|i: int| 0 <= i < p.written_from@.len() implies (#[trigger] p.written_from@[i])@
        == kept[i].id@ by {
        assert(text::texts(p.written_from@)[i] == ids_of(kept)[i]);
    }
    assert(corpus::pairs(p.exif@).len() == p.exif@.len());
}

/// A verdict is known by its word, and is said in words that say the same.
pub proof fn a_verdict_is_known_by_its_word(word: Seq<char>, v: AskVerdict)
    ensures
        AskVerdict::named(word) == Some(AskVerdict::Right) <==> word == "right"@,
        AskVerdict::named(word) == Some(AskVerdict::Wrong) <==> word == "wrong"@,
        AskVerdict::named(word) == Some(AskVerdict::NothingHere) <==> word == "nothing_here"@,
        v is Right ==> verdict_words(Some(v)) == Some("right"@),
        v is Wrong ==> verdict_words(Some(v)) == Some("wrong"@),
        v is NothingHere ==> verdict_words(Some(v)) == Some("nothing here"@),
        verdict_words(None) is None,
        !(v is NothingHere) ==> AskVerdict::named(v.words()) == Some(v),
{
    reveal_strlit("right");
    reveal_strlit("wrong");
    reveal_strlit("nothing_here");
    assert("right"@[0] == 'r' && "wrong"@[0] == 'w' && "nothing_here"@[0] == 'n');
}

/// What is kept of a question is its name, its words and what its answer cites.
pub proof fn a_note_is_of_its_question(n: AskNote, a: Asked)
    requires
        is_note(n, a),
    ensures
        n.event_id@ == a.id@,
        n.question@ == a.question@,
        n.citations == a.citations,
{
}

// ---------------------------------------------------------------------------
// What holds of every call
// ---------------------------------------------------------------------------

/// A search that was judged here stands as it was judged, and one that another
/// door judged first stands as that.
pub proof fn a_search_is_judged_once(judged: Option<&'static str>, r: VerdictAnswer)
    requires
        call_ensures(search_verdict, (judged,), r),
    ensures
        r.already <==> judged is None,
        judged matches Some(state) ==> r.state@ == state@,
        judged is None ==> r.state@.len() == 0,
{
    reveal_strlit("");
}

/// An answer is judged by one of three words, or its judgement is taken back;
/// any other word is refused by name, and there is nothing to judge where
/// nothing answers.
pub proof fn an_answer_is_judged_by_its_word(
    asks: bool,
    b: &AskVerdictBody,
    r: Result<Judgement, Error>,
)
    requires
        call_ensures(ask_verdict, (asks, b), r),
    ensures
        !asks ==> (r matches Err(e) && e is NotFound),
        asks && b.verdict@ == "none"@ ==> r == Ok::<Judgement, Error>(Judgement::TakenBack),
        asks && b.verdict@ == "right"@ ==> r == Ok::<Judgement, Error>(
            Judgement::Judged(AskVerdict::Right),
        ),
        asks && b.verdict@ == "wrong"@ ==> r == Ok::<Judgement, Error>(
            Judgement::Judged(AskVerdict::Wrong),
        ),
        asks && b.verdict@ == "nothing_here"@ ==> r == Ok::<Judgement, Error>(
            Judgement::Judged(AskVerdict::NothingHere),
        ),
        asks && b.verdict@ != "none"@ && b.verdict@ != "right"@ && b.verdict@ != "wrong"@
            && b.verdict@ != "nothing_here"@ ==> refuses(r, "unknown verdict "@ + b.verdict@),
{
    reveal_strlit("none");
    reveal_strlit("right");
    reveal_strlit("wrong");
    reveal_strlit("nothing_here");
    assert("none"@.len() == 4 && "right"@.len() == 5 && "wrong"@.len() == 5);
    assert("nothing_here"@.len() == 12);
    assert("right"@[0] != "wrong"@[0]);
}

/// What stands of an answer is said in words, and what an excerpt is said to
/// carry stands beside it; there is none where there is no such answer.
pub proof fn what_stands_of_an_answer(
    carried: bool,
    found: Option<Option<AskVerdict>>,
    judged: Result<AskVerdictAnswer, Error>,
    r: Result<CarriedAnswer, Error>,
)
    requires
        call_ensures(ask_verdict_answer, (found,), judged),
        call_ensures(ask_carried, (carried, found), r),
    ensures
        found is None ==> (judged matches Err(e) && e is NotFound) && (r matches Err(e)
            && e is NotFound),
        found matches Some(v) ==> (judged matches Ok(a) && text::text_of(a.verdict)
            == verdict_words(v)) && (r matches Ok(b) && b.carried == carried && text::text_of(
            b.verdict,
        ) == verdict_words(v)),
{
}

/// An answer is kept as what it says, filed as an answer and with the question
/// it answers, where anything answers and there is such an answer.
pub proof fn an_answer_is_kept_with_its_question(
    asks: bool,
    found: Option<Asked>,
    r: Result<Capture, Error>,
)
    requires
        call_ensures(ask_keep, (asks, found), r),
    ensures
        r is Ok <==> asks && found is Some,
        r matches Err(e) ==> e is NotFound,
        r matches Ok(c) ==> (found matches Some(a) && c.text@ == a.answer@ && c.origin@ == "ask"@
            && c.title is None && c.note is None && c.day is None && (c.ask matches Some(n)
            && n.event_id@ == a.id@ && n.question@ == a.question@ && n.citations == a.citations)),
{
}

/// What became of a kept answer is what became of its capture, and it waits
/// exactly where something nearly like it was found.
pub proof fn a_kept_answer_may_wait(out: IngestOutcome, near: Option<i64>, r: KeptAnswer)
    requires
        call_ensures(kept_answer, (out, near), r),
    ensures
        r.id@ == out.id@,
        r.duplicate == out.duplicate,
        r.parked <==> near is Some,
        near matches Some(n) ==> r.near_dupe_percent == n,
        near is None ==> r.near_dupe_percent == 0,
{
}

/// A reminder is moved to the instant that was chosen, in the zone it was
/// chosen in; and one that was none can be given back where it was taken and
/// can be one.
pub proof fn a_reminder_is_moved_or_given_back(
    found: bool,
    b: &DateBody,
    r: Result<(i64, String), Error>,
    id: String,
    did: bool,
    takes: bool,
    back: NotAReminderAnswer,
)
    requires
        call_ensures(moment_date, (found, b), r),
        call_ensures(not_a_reminder, (id, did, takes), back),
    ensures
        found <==> r is Ok,
        r matches Err(e) ==> e is NotFound,
        r matches Ok((at, tz)) ==> at == b.at && tz@ == zones::zone_of(Some(b.tz@)),
        back.undo is Some <==> did && takes,
        back.undo matches Some(given) ==> given@ == id@,
{
}

/// What is said about an artifact on a phone is what its pane says.
pub proof fn what_is_said_about_an_artifact(
    found: &Integration,
    probes: &[Probe],
    condensed: Option<String>,
    due: &Moment,
    due_in: Option<String>,
    r: About,
)
    requires
        call_ensures(artifact_about, (Some(found), probes, condensed, Some(due), due_in), r),
    ensures
        r.tag matches Some(said) && said@ == artifact::tag_sentence(*found),
        artifact::are_probe_lines(r.probes@, probes@),
        r.condensed == condensed,
        due.snoozed_until is Some || due.at is Some ==> r.due_in == due_in,
        due.snoozed_until is None && due.at is None ==> r.due_in is None,
{
}

/// Nothing is said of what is not there.
pub proof fn nothing_is_said_of_what_is_not_there(
    probes: &[Probe],
    condensed: Option<String>,
    due_in: Option<String>,
    r: About,
    windows: &[i64],
    code: Code,
)
    requires
        call_ensures(
            artifact_about,
            (None::<&Integration>, probes, condensed, None::<&Moment>, due_in),
            r,
        ),
        call_ensures(reread_code, (windows,), code),
    ensures
        r.tag is None,
        r.due_in is None,
        windows@.len() > 0 ==> code.number_spec() == 202,
        windows@.len() == 0 ==> code.number_spec() == 204,
{
}

/// An entry from a phone is kept into the day it names, under that day's one
/// spelling and as it was written; one that says nothing is refused.
pub proof fn an_entry_from_a_phone_is_kept(
    date: &str,
    b: &DayEntryBody,
    lang: &str,
    r: Result<Capture, Error>,
    day: int,
)
    requires
        call_ensures(day_entry, (date, b, lang), r),
    ensures
        zones::day_parsed(date@, "%Y-%m-%d"@) is None ==> (r matches Err(e) && e is NotFound),
        zones::day_parsed(date@, "%Y-%m-%d"@) == Some(day) && text::blank(b.text@) ==> refuses(
            r,
            "the entry is empty"@,
        ),
        zones::day_parsed(date@, "%Y-%m-%d"@) == Some(day) && !text::blank(b.text@) ==> (
        r matches Ok(c) && c.text@ == b.text@ && c.origin@ == "journal"@ && (c.day matches Some(on)
            && on@ == zones::day_written(day, "%Y-%m-%d"@)) && (c.tz matches Some(z) && z@
            == zones::zone_of(Some(b.tz@))) && (c.lang matches Some(l) && l@ == lang@)),
{
}

/// What was recorded is told where anything is learnt from it, and not
/// otherwise; what a test sent is told as it went.
pub proof fn what_is_told_of_what_was_recorded(
    learning: bool,
    searches: Recorded,
    asks: AskedRecorded,
    r: Feedback,
    out: Result<(), String>,
    tested: NotifyTested,
)
    requires
        call_ensures(feedback, (learning, searches, asks), r),
        call_ensures(test_notify, (out,), tested),
    ensures
        learning ==> r.searches == Some(searches) && r.asks == Some(asks),
        !learning ==> r.searches is None && r.asks is None,
        tested.sent <==> out is Ok,
        out is Ok ==> tested.error is None,
        out matches Err(why) ==> tested.error == Some(why),
{
}

/// A language is the one that is chosen, none where none is given, and refused
/// by its tag where there is no such one.
pub proof fn a_language_is_the_one_chosen<L>(
    chosen: Option<&str>,
    langs: Vec<LangRow>,
    shown: LangSetting,
    b: &LangBody,
    tag: Option<String>,
    parsed: Option<L>,
    r: Result<Option<L>, Error>,
)
    requires
        call_ensures(lang_setting, (chosen, langs), shown),
        call_ensures(lang_tag, (b,), tag),
        call_ensures(put_lang::<L>, (b, parsed), r),
    ensures
        chosen matches Some(t) ==> shown.chosen@ == t@,
        chosen is None ==> shown.chosen@.len() == 0,
        shown.langs == langs,
        text::blank(b.lang@) <==> tag is None,
        tag matches Some(t) ==> t@ == text::trim(b.lang@),
        text::blank(b.lang@) ==> r == Ok::<Option<L>, Error>(None),
        !text::blank(b.lang@) ==> match parsed {
            Some(l) => r == Ok::<Option<L>, Error>(Some(l)),
            None => refuses(r, "lang: `"@ + text::trim(b.lang@) + "` is not one of the ten"@),
        },
{
    reveal_strlit("");
    crate::capture::what_is_given_is_trimmed(b.lang@);
}

} // verus!
