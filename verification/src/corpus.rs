//! One captured document, read: the passages, what each one became, the
//! coverage the reader is owed, and what may be read again.

use crate::artifact;
use crate::artifact::{artifact_view, row_label, ArtifactView};
use crate::corpus_view;
use crate::corpus_view::{bands, Band, CorpusLine};
use crate::json;
use crate::json::{shown_in, text_in, whole_in, Json};
use crate::records::{
    Chunk, Corpus, CorpusSpan, CorpusStatus, Provenance, Segment, SegmentState, ORIGIN_IMAGE,
    ORIGIN_PDF,
};
use crate::text;
use crate::text::{any_same, decimal_of, is_blank, same, signed_of};
use vstd::prelude::*;

verus! {

/// A window a promotion has synthesized, for the page's undo list.
pub struct PromotedWindow {
    pub idx: i64,
    pub from: i64,
    pub to: i64,
}

/// A pointer up at an artifact carded in an earlier band. A link and nothing
/// else, so its label falls to the opening of the text.
pub struct BandEcho {
    pub id: String,
    pub label: String,
    pub named: bool,
}

/// One stretch of the source on the page, beside what came of it.
pub struct BandView {
    pub from: i64,
    pub to: i64,
    pub lines: Vec<CorpusLine>,
    /// The artifacts claiming this band that no earlier band claims.
    pub artifacts: Vec<ArtifactView>,
    /// The artifacts claiming this band whose card is in an earlier one. The
    /// card itself can only exist once: two copies of it would share their
    /// element ids, and edit and delete would reach the wrong one.
    pub echoes: Vec<BandEcho>,
    /// Nothing was written from these lines, and nothing will be.
    pub gap: bool,
    /// For a gap, the lines a re-read would actually cover: the windows
    /// holding this passage, which are wider than it.
    pub reread: Option<String>,
}

/// Which lines to highlight, when the page was opened from an artifact that
/// claims them.
pub struct LineRange {
    pub from: Option<i64>,
    pub to: Option<i64>,
}

/// The band a re-read button sits in, both ends.
pub struct RereadForm {
    pub from: i64,
    pub to: i64,
}

/// The page.
pub struct CorpusTemplate {
    pub id: String,
    pub status: &'static str,
    /// The row stands for a source that was never captured here.
    pub restored: bool,
    pub source_url: Option<String>,
    pub image: bool,
    pub pdf: bool,
    /// A picture or a PDF whose reading has not landed.
    pub unread: bool,
    /// What the door recorded about the capture.
    pub meta_rows: Vec<(String, String)>,
    /// Every other tag the file carried, by name.
    pub exif_rows: Vec<(String, String)>,
    pub note: Option<String>,
    /// The source cut where the artifacts claiming it change. Empty for a
    /// restored row, where a span points at an artifact and not at a source.
    pub bands: Vec<BandView>,
    pub promoted: Vec<PromotedWindow>,
    /// The artifacts of this capture that name no lines of it.
    pub unplaced: Vec<ArtifactView>,
    /// Artifacts written from several sources, this one among them.
    pub written_from: Vec<ArtifactView>,
    pub lines_empty: bool,
    pub raw_text: String,
    pub coverage: Option<String>,
    /// What every list calls this capture.
    pub title: String,
}

impl CorpusTemplate {
    /// Which entry of the top row is current: none, since a source is reached
    /// from several of them and belongs to no one.
    pub fn section(&self) -> (r: &'static str)
        ensures
            r@.len() == 0,
    {
        proof {
            reveal_strlit("");
        }
        ""
    }
}

// ---------------------------------------------------------------------------
// What is lost, and what may be read again
// ---------------------------------------------------------------------------

/// Whether what no artifact carried is a loss rather than a window nobody has
/// read yet: every window has resolved.
pub open spec fn is_final(status: CorpusStatus) -> bool {
    status == CorpusStatus::Ready || status == CorpusStatus::Partial || status
        == CorpusStatus::Failed
}

/// Whether a capture's coverage is final. `partial` and `failed` are in the
/// list on purpose: they are where a real loss lives.
pub fn coverage_final(status: &CorpusStatus) -> (r: bool)
    ensures
        r == is_final(*status),
{
    match status {
        CorpusStatus::Ready | CorpusStatus::Partial | CorpusStatus::Failed => true,
        _ => false,
    }
}

/// The artifacts that name lines, with the lines they name, in order.
pub open spec fn placed(chunks: Seq<Chunk>) -> Seq<(String, CorpusSpan)>
    decreases chunks.len(),
{
    if chunks.len() == 0 {
        Seq::empty()
    } else {
        match chunks.last().corpus_span {
            Some(span) => placed(chunks.drop_last()).push((chunks.last().id, span)),
            None => placed(chunks.drop_last()),
        }
    }
}

/// The artifacts that name no lines; every one of them where the source was
/// never captured.
pub open spec fn unplaced(chunks: Seq<Chunk>, restored: bool) -> Seq<Chunk> {
    chunks.filter(|c: Chunk| restored || c.corpus_span is None)
}

/// Whether an unclaimed passage of a source is a loss: it has been read to the
/// end, in windows, and no artifact of it might have come from just there.
pub open spec fn losses_final(
    status: CorpusStatus,
    segments: Seq<Segment>,
    chunks: Seq<Chunk>,
    restored: bool,
) -> bool {
    is_final(status) && segments.len() > 0 && unplaced(chunks, restored).len() == 0
}

/// Whether a window and the lines `from` to `to` have a line in common.
pub open spec fn touches(w: Segment, from: int, to: int) -> bool {
    w.start_line <= to && from <= w.end_line
}

/// The lines that the windows touching `from` to `to` span between them.
pub open spec fn hull(segments: Seq<Segment>, from: int, to: int) -> Option<(int, int)>
    decreases segments.len(),
{
    if segments.len() == 0 {
        None
    } else {
        let w = segments.last();
        let front = hull(segments.drop_last(), from, to);
        if !touches(w, from, to) {
            front
        } else {
            match front {
                None => Some((w.start_line as int, w.end_line as int)),
                Some((a, z)) => Some(
                    (
                        if w.start_line < a {
                            w.start_line as int
                        } else {
                            a
                        },
                        if w.end_line > z {
                            w.end_line as int
                        } else {
                            z
                        },
                    ),
                ),
            }
        }
    }
}

/// What the button on a band says it would read, where one is offered: only on
/// a loss, and only where some window holds it.
pub open spec fn offer(
    gap: bool,
    from: int,
    to: int,
    segments: Seq<Segment>,
    losses_are_final: bool,
) -> Option<Seq<char>> {
    if gap && losses_are_final {
        match hull(segments, from, to) {
            Some((a, z)) => Some("reads lines "@ + text::signed(a) + "–"@ + text::signed(z)),
            None => None,
        }
    } else {
        None
    }
}

/// The artifacts that name lines, with the lines they name.
pub fn placed_of(chunks: &[Chunk]) -> (r: Vec<(String, CorpusSpan)>)
    ensures
        r@ == placed(chunks@),
{
    let mut r: Vec<(String, CorpusSpan)> = Vec::new();
    let mut i: usize = 0;
    assert(chunks@.take(0) =~= Seq::empty());
    while i < chunks.len()
        invariant
            i <= chunks@.len(),
            r@ == placed(chunks@.take(i as int)),
        decreases chunks.len() - i,
    {
        proof {
            assert(chunks@.take(i + 1).drop_last() =~= chunks@.take(i as int));
            assert(chunks@.take(i + 1).last() == chunks@[i as int]);
        }
        match chunks[i].corpus_span {
            Some(span) => {
                r.push((chunks[i].id.clone(), span));
            },
            None => {},
        }
        i = i + 1;
    }
    assert(chunks@.take(chunks@.len() as int) =~= chunks@);
    r
}

/// What the button on a band says it would read.
pub fn offer_of(
    gap: bool,
    from: i64,
    to: i64,
    segments: &[Segment],
    losses_are_final: bool,
) -> (r: Option<String>)
    ensures
        text::text_of(r) == offer(gap, from as int, to as int, segments@, losses_are_final),
{
    if !(gap && losses_are_final) {
        return None;
    }
    let mut span: Option<(i64, i64)> = None;
    let mut i: usize = 0;
    assert(segments@.take(0) =~= Seq::empty());
    while i < segments.len()
        invariant
            i <= segments@.len(),
            match (span, hull(segments@.take(i as int), from as int, to as int)) {
                (Some((a, z)), Some((b, y))) => a == b && z == y,
                (None, None) => true,
                _ => false,
            },
        decreases segments.len() - i,
    {
        proof {
            assert(segments@.take(i + 1).drop_last() =~= segments@.take(i as int));
            assert(segments@.take(i + 1).last() == segments@[i as int]);
        }
        let w = segments[i];
        if w.start_line <= to && from <= w.end_line {
            span = match span {
                None => Some((w.start_line, w.end_line)),
                Some((a, z)) => Some(
                    (
                        if w.start_line < a {
                            w.start_line
                        } else {
                            a
                        },
                        if w.end_line > z {
                            w.end_line
                        } else {
                            z
                        },
                    ),
                ),
            };
        }
        i = i + 1;
    }
    assert(segments@.take(segments@.len() as int) =~= segments@);
    match span {
        None => None,
        Some((a, z)) => {
            let mut r = "reads lines ".to_owned();
            r.append(signed_of(a).as_str());
            r.append("–");
            r.append(signed_of(z).as_str());
            Some(r)
        },
    }
}

/// Whether the band `b` is a loss that the lines `from` to `to` reach into.
pub open spec fn is_lost(b: Band, from: int, to: int) -> bool {
    b.is_gap() && b.from <= to && from <= b.to
}

/// Whether a window holds some of what a cut has lost between `from` and `to`.
pub open spec fn holds_loss(w: Segment, cut: Seq<Band>, from: int, to: int) -> bool {
    exists|k: int|
        0 <= k < cut.len() && is_lost(#[trigger] cut[k], from, to) && touches(
            w,
            cut[k].from as int,
            cut[k].to as int,
        )
}

/// The windows to read again for the lines `from` to `to`: those that hold
/// some of what was lost there, and that nothing is going to read anyway.
pub open spec fn to_read_again(
    segments: Seq<Segment>,
    cut: Seq<Band>,
    live: Seq<i64>,
    from: int,
    to: int,
) -> Seq<i64>
    decreases segments.len(),
{
    if segments.len() == 0 {
        Seq::empty()
    } else {
        let w = segments.last();
        let front = to_read_again(segments.drop_last(), cut, live, from, to);
        if holds_loss(w, cut, from, to) && !live.contains(w.idx) {
            front.push(w.idx)
        } else {
            front
        }
    }
}

/// Whether nothing may be read again at all: the source is still being read,
/// or was never captured, or has an artifact that may have come from anywhere
/// in it.
pub open spec fn nothing_to_reread(s: Corpus, chunks: Seq<Chunk>) -> bool {
    !is_final(s.status) || s.restored_at is Some || exists|i: int|
        0 <= i < chunks.len() && (#[trigger] chunks[i]).corpus_span is None
}

/// Which windows to read again when the button on the band `form` is pressed.
///
/// The range is what the band said, not what it is: taken at its word, one
/// request naming every line would pay for reading the whole source again. So
/// the bands are cut here too, and only a window holding a passage that really
/// is a loss, and really is inside the band pressed, is read. `live` is the
/// windows something is already going to read.
pub fn reread(
    s: &Corpus,
    chunks: &[Chunk],
    segments: &[Segment],
    live: &[i64],
    form: &RereadForm,
) -> (r: Vec<i64>)
    requires
        text::lines(s.raw_text@).len() <= i64::MAX,
    ensures
        nothing_to_reread(*s, chunks@) ==> r@.len() == 0,
        !nothing_to_reread(*s, chunks@) ==> exists|cut: Seq<Band>|
            #[trigger] corpus_view::is_cut(
                cut,
                text::lines(s.raw_text@),
                placed(chunks@),
                None,
                text::lines(s.raw_text@).len() as int,
            ) && r@ == to_read_again(segments@, cut, live@, form.from as int, form.to as int),
{
    if !coverage_final(&s.status) || s.restored_at.is_some() {
        return Vec::new();
    }
    let mut i: usize = 0;
    while i < chunks.len()
        invariant
            i <= chunks@.len(),
            is_final(s.status),
            s.restored_at is None,
            forall|j: int| 0 <= j < i ==> (#[trigger] chunks@[j]).corpus_span is Some,
        decreases chunks.len() - i,
    {
        if chunks[i].corpus_span.is_none() {
            assert(chunks@[i as int].corpus_span is None);
            return Vec::new();
        }
        i = i + 1;
    }
    let spans = placed_of(chunks);
    let cut = bands(s.raw_text.as_str(), spans.as_slice(), None);
    let mut r: Vec<i64> = Vec::new();
    let mut w: usize = 0;
    assert(segments@.take(0) =~= Seq::empty());
    while w < segments.len()
        invariant
            w <= segments@.len(),
            r@ == to_read_again(
                segments@.take(w as int),
                cut@,
                live@,
                form.from as int,
                form.to as int,
            ),
        decreases segments.len() - w,
    {
        proof {
            assert(segments@.take(w + 1).drop_last() =~= segments@.take(w as int));
            assert(segments@.take(w + 1).last() == segments@[w as int]);
        }
        if window_lost(&segments[w], cut.as_slice(), form.from, form.to) && !among(
            live,
            segments[w].idx,
        ) {
            r.push(segments[w].idx);
        }
        w = w + 1;
    }
    assert(segments@.take(segments@.len() as int) =~= segments@);
    r
}

/// Whether `idx` is among `live`.
fn among(live: &[i64], idx: i64) -> (r: bool)
    ensures
        r == live@.contains(idx),
{
    let mut i: usize = 0;
    while i < live.len()
        invariant
            i <= live@.len(),
            forall|j: int| 0 <= j < i ==> live@[j] != idx,
        decreases live.len() - i,
    {
        if live[i] == idx {
            return true;
        }
        i = i + 1;
    }
    false
}

/// Whether a window holds some of what a cut has lost between `from` and `to`.
fn window_lost(w: &Segment, cut: &[Band], from: i64, to: i64) -> (r: bool)
    ensures
        r == holds_loss(*w, cut@, from as int, to as int),
{
    let mut i: usize = 0;
    while i < cut.len()
        invariant
            i <= cut@.len(),
            forall|k: int|
                0 <= k < i ==> !(is_lost(#[trigger] cut@[k], from as int, to as int) && touches(
                    *w,
                    cut@[k].from as int,
                    cut@[k].to as int,
                )),
        decreases cut.len() - i,
    {
        let b = &cut[i];
        if b.gap() && b.from <= to && from <= b.to && w.start_line <= b.to && b.from
            <= w.end_line {
            assert(is_lost(cut@[i as int], from as int, to as int));
            return true;
        }
        i = i + 1;
    }
    false
}

// ---------------------------------------------------------------------------
// What the door recorded
// ---------------------------------------------------------------------------

/// What a list of labelled rows spells.
pub open spec fn pairs(rows: Seq<(String, String)>) -> Seq<(Seq<char>, Seq<char>)> {
    rows.map_values(|r: (String, String)| (r.0@, r.1@))
}

/// A row, where there is something to put in it.
pub open spec fn row(label: Seq<char>, value: Option<Seq<char>>) -> Seq<(Seq<char>, Seq<char>)> {
    match value {
        Some(v) => seq![(label, v)],
        None => Seq::empty(),
    }
}

/// Where a picture was taken, where both coordinates are known.
pub open spec fn location(m: Json) -> Option<Seq<char>> {
    match json::under2(m, "exif"@, "gps"@) {
        Some(gps) => match (
            json::as_shown(json::under(gps, "lat"@)),
            json::as_shown(json::under(gps, "lon"@)),
        ) {
            (Some(lat), Some(lon)) => Some(lat + ", "@ + lon),
            _ => None,
        },
        None => None,
    }
}

/// How large a picture is, where both sides are known.
pub open spec fn size(m: Json) -> Option<Seq<char>> {
    match (
        json::as_whole(json::under2(m, "file"@, "width"@)),
        json::as_whole(json::under2(m, "file"@, "height"@)),
    ) {
        (Some(w), Some(h)) => Some(text::decimal(w as nat) + "×"@ + text::decimal(h as nat)),
        _ => None,
    }
}

/// The metadata worth a row of its own, in reading order.
pub open spec fn rows_of(m: Json) -> Seq<(Seq<char>, Seq<char>)> {
    row("Taken"@, json::as_text(json::under2(m, "exif"@, "taken_at"@))) + row(
        "Camera"@,
        json::as_text(json::under2(m, "exif"@, "camera"@)),
    ) + row("Location"@, location(m)) + row(
        "File"@,
        json::as_text(json::under2(m, "file"@, "name"@)),
    ) + row("Size"@, size(m)) + row(
        "Reading"@,
        json::as_text(json::under2(m, "describe"@, "error"@)),
    ) + row("Extraction"@, json::as_text(json::under2(m, "extract"@, "error"@)))
}

/// Adds a row, where there is something to put in it.
fn put_row(rows: &mut Vec<(String, String)>, label: &str, value: Option<String>)
    ensures
        pairs(final(rows)@) == pairs(old(rows)@) + row(label@, text::text_of(value)),
{
    let ghost before = pairs(rows@);
    match value {
        Some(v) => {
            let l = label.to_owned();
            assert(pairs(rows@.push((l, v))) =~= before + seq![(l@, v@)]);
            rows.push((l, v));
        },
        None => {
            assert(before =~= before + Seq::empty());
        },
    }
}

/// The metadata worth a row on the page, in reading order. Everything else the
/// file carried is under its tags.
pub fn metadata_rows(m: &Json) -> (r: Vec<(String, String)>)
    ensures
        pairs(r@) == rows_of(*m),
{
    let mut rows: Vec<(String, String)> = Vec::new();
    assert(pairs(rows@) =~= Seq::empty());
    put_row(&mut rows, "Taken", text_in(m.get2("exif", "taken_at")));
    put_row(&mut rows, "Camera", text_in(m.get2("exif", "camera")));
    let place = match m.get2("exif", "gps") {
        Some(gps) => {
            let lat = shown_in(gps.get("lat"));
            let lon = shown_in(gps.get("lon"));
            match (lat, lon) {
                (Some(lat), Some(lon)) => {
                    let mut at = lat;
                    at.append(", ");
                    at.append(lon.as_str());
                    Some(at)
                },
                _ => None,
            }
        },
        None => None,
    };
    assert(text::text_of(place) == location(*m));
    put_row(&mut rows, "Location", place);
    put_row(&mut rows, "File", text_in(m.get2("file", "name")));
    let width = whole_in(m.get2("file", "width"));
    let height = whole_in(m.get2("file", "height"));
    let large = match (width, height) {
        (Some(w), Some(h)) => {
            let mut at = decimal_of(w);
            at.append("×");
            at.append(decimal_of(h).as_str());
            Some(at)
        },
        _ => None,
    };
    assert(text::text_of(large) == size(*m));
    put_row(&mut rows, "Size", large);
    put_row(&mut rows, "Reading", text_in(m.get2("describe", "error")));
    put_row(&mut rows, "Extraction", text_in(m.get2("extract", "error")));
    assert(pairs(rows@) =~= rows_of(*m));
    rows
}

/// The members of an object that are texts, under their names.
pub open spec fn text_members(members: Seq<(String, Json)>) -> Seq<(Seq<char>, Seq<char>)>
    decreases members.len(),
{
    if members.len() == 0 {
        Seq::empty()
    } else {
        match members.last().1 {
            Json::Text(t) => text_members(members.drop_last()).push((members.last().0@, t@)),
            _ => text_members(members.drop_last()),
        }
    }
}

/// The tags a file carried that are texts, under their names.
pub open spec fn tags_of(m: Json) -> Seq<(Seq<char>, Seq<char>)> {
    match json::under2(m, "exif"@, "tags"@) {
        Some(Json::Object(members)) => text_members(members@),
        _ => Seq::empty(),
    }
}

/// Each row's label comes no later than those of the rows after it.
pub open spec fn in_label_order(rows: Seq<(Seq<char>, Seq<char>)>) -> bool {
    forall|i: int, j: int|
        0 <= i < j < rows.len() ==> text::at_most(#[trigger] rows[i].0, #[trigger] rows[j].0)
}

/// Everything under the file's tags that is a text, by name, in the order of
/// the names.
pub fn exif_tag_rows(m: &Json) -> (r: Vec<(String, String)>)
    ensures
        in_label_order(pairs(r@)),
        pairs(r@).to_multiset() == tags_of(*m).to_multiset(),
{
    let mut rows: Vec<(String, String)> = Vec::new();
    assert(pairs(rows@) =~= Seq::empty());
    match m.get2("exif", "tags") {
        Some(Json::Object(members)) => {
            let mut i: usize = 0;
            assert(members@.take(0) =~= Seq::empty());
            while i < members.len()
                invariant
                    i <= members@.len(),
                    in_label_order(pairs(rows@)),
                    pairs(rows@).to_multiset() == text_members(
                        members@.take(i as int),
                    ).to_multiset(),
                decreases members.len() - i,
            {
                proof {
                    assert(members@.take(i + 1).drop_last() =~= members@.take(i as int));
                    assert(members@.take(i + 1).last() == members@[i as int]);
                    broadcast use vstd::seq_lib::group_to_multiset_ensures;

                }
                match &members[i].1 {
                    Json::Text(t) => {
                        put_in_order(&mut rows, members[i].0.clone(), t.clone());
                    },
                    _ => {},
                }
                i = i + 1;
            }
            assert(members@.take(members@.len() as int) =~= members@);
        },
        _ => {},
    }
    rows
}

/// Puts a row among rows in the order of their labels, after those that share
/// its label.
fn put_in_order(rows: &mut Vec<(String, String)>, label: String, value: String)
    requires
        in_label_order(pairs(old(rows)@)),
    ensures
        in_label_order(pairs(final(rows)@)),
        pairs(final(rows)@).to_multiset() == pairs(old(rows)@).to_multiset().insert(
            (label@, value@),
        ),
{
    let ghost before = pairs(rows@);
    let ghost l = label@;
    let ghost v = value@;
    let mut at: usize = rows.len();
    proof {
        text::at_most_itself(l);
    }
    while at > 0 && !text::no_later(rows[at - 1].0.as_str(), label.as_str())
        invariant
            at <= rows@.len(),
            before == pairs(rows@),
            l == label@,
            in_label_order(before),
            forall|j: int| at <= j < rows@.len() ==> text::at_most(l, #[trigger] before[j].0),
        decreases at,
    {
        proof {
            text::at_most_one_way(before[at - 1].0, l);
        }
        at = at - 1;
    }
    rows.insert(at, (label, value));
    proof {
        let now = pairs(rows@);
        assert(now =~= before.insert(at as int, (l, v)));
        vstd::seq_lib::to_multiset_insert(before, at as int, (l, v));
        assert forall|i: int, j: int| 0 <= i < j < now.len() implies text::at_most(
            #[trigger] now[i].0,
            #[trigger] now[j].0,
        ) by {
            if i < at {
                if j < at {
                    assert(text::at_most(before[i].0, before[j].0));
                } else {
                    if i < at - 1 {
                        assert(text::at_most(before[i].0, before[at - 1].0));
                        text::at_most_carries(before[i].0, before[at - 1].0, l);
                    }
                    assert(text::at_most(before[i].0, l));
                    if j > at {
                        text::at_most_carries(before[i].0, l, before[j - 1].0);
                    }
                }
            } else if i == at {
                assert(text::at_most(l, before[j - 1].0));
            } else {
                assert(text::at_most(before[i - 1].0, before[j - 1].0));
            }
        }
    }
}

// ---------------------------------------------------------------------------
// Each artifact once: its card in the first band that claims it, and a line
// pointing up at that card in every later one
// ---------------------------------------------------------------------------

/// The artifacts that the bands before the `k`th claim.
pub open spec fn seen(cut: Seq<Band>, k: int) -> Set<Seq<char>>
    decreases k,
{
    if k <= 0 {
        Set::empty()
    } else {
        seen(cut, k - 1).union(text::texts(cut[k - 1].artifact_ids@).to_set())
    }
}

/// Those of `ids` that come up for the first time.
pub open spec fn fresh(seen: Set<Seq<char>>, ids: Seq<Seq<char>>) -> Seq<Seq<char>>
    decreases ids.len(),
{
    if ids.len() == 0 {
        Seq::empty()
    } else if seen.contains(ids.last()) || ids.drop_last().contains(ids.last()) {
        fresh(seen, ids.drop_last())
    } else {
        fresh(seen, ids.drop_last()).push(ids.last())
    }
}

/// Those of `ids` that have come up before.
pub open spec fn stale(seen: Set<Seq<char>>, ids: Seq<Seq<char>>) -> Seq<Seq<char>>
    decreases ids.len(),
{
    if ids.len() == 0 {
        Seq::empty()
    } else if seen.contains(ids.last()) || ids.drop_last().contains(ids.last()) {
        stale(seen, ids.drop_last()).push(ids.last())
    } else {
        stale(seen, ids.drop_last())
    }
}

/// Splits the ids of a band into those that come up for the first time and
/// those that `carded` holds already, and adds the former to `carded`.
pub fn deal(ids: &[String], carded: &mut Vec<String>) -> (r: (Vec<String>, Vec<String>))
    ensures
        text::texts(r.0@) == fresh(text::texts(old(carded)@).to_set(), text::texts(ids@)),
        text::texts(r.1@) == stale(text::texts(old(carded)@).to_set(), text::texts(ids@)),
        text::texts(final(carded)@).to_set() == text::texts(old(carded)@).to_set().union(
            text::texts(ids@).to_set(),
        ),
{
    let ghost before = text::texts(carded@).to_set();
    let ghost all = text::texts(ids@);
    let mut first: Vec<String> = Vec::new();
    let mut again: Vec<String> = Vec::new();
    let mut i: usize = 0;
    assert(all.take(0) =~= Seq::empty());
    assert(text::texts(first@) =~= Seq::empty());
    assert(text::texts(again@) =~= Seq::empty());
    assert(before =~= before.union(all.take(0).to_set()));
    while i < ids.len()
        invariant
            i <= ids@.len(),
            all == text::texts(ids@),
            text::texts(first@) == fresh(before, all.take(i as int)),
            text::texts(again@) == stale(before, all.take(i as int)),
            text::texts(carded@).to_set() == before.union(all.take(i as int).to_set()),
        decreases ids.len() - i,
    {
        let ghost taken = all.take(i as int);
        let ghost now = all.take(i + 1);
        let ghost held = text::texts(carded@);
        proof {
            assert(now.drop_last() =~= taken);
            assert(now.last() == ids@[i as int]@);
            assert(now =~= taken.push(ids@[i as int]@));
            text::push_to_set(taken, ids@[i as int]@);
            assert(held.contains(ids@[i as int]@) == held.to_set().contains(ids@[i as int]@));
        }
        let id = ids[i].clone();
        if any_same(carded.as_slice(), id.as_str()) {
            assert(text::texts(again@.push(id)) =~= text::texts(again@).push(id@));
            again.push(id);
            assert(before.union(now.to_set()) =~= held.to_set());
        } else {
            let kept = id.clone();
            assert(text::texts(first@.push(id)) =~= text::texts(first@).push(id@));
            first.push(id);
            assert(text::texts(carded@.push(kept)) =~= held.push(kept@));
            carded.push(kept);
            proof {
                text::push_to_set(held, kept@);
                assert(held.push(kept@).to_set() =~= before.union(now.to_set()));
            }
        }
        i = i + 1;
    }
    assert(all.take(all.len() as int) =~= all);
    (first, again)
}

/// The artifact that goes by `id`.
pub open spec fn found(chunks: Seq<Chunk>, id: Seq<char>) -> Option<Chunk>
    decreases chunks.len(),
{
    if chunks.len() == 0 {
        None
    } else if chunks.last().id@ == id {
        Some(chunks.last())
    } else {
        found(chunks.drop_last(), id)
    }
}

/// Every one of `ids` names an artifact.
pub open spec fn all_found(chunks: Seq<Chunk>, ids: Seq<Seq<char>>) -> bool {
    forall|i: int| 0 <= i < ids.len() ==> found(chunks, #[trigger] ids[i]) is Some
}

/// `v` is the cards of the artifacts that go by `ids`.
pub open spec fn cards_of(v: Seq<ArtifactView>, chunks: Seq<Chunk>, ids: Seq<Seq<char>>) -> bool {
    &&& v.len() == ids.len()
    &&& forall|i: int|
        0 <= i < v.len() ==> (found(chunks, ids[i]) matches Some(c) && artifact::is_card(
            #[trigger] v[i],
            c,
        ))
}

/// `e` points at the artifact `c`.
pub open spec fn is_echo(e: BandEcho, c: Chunk) -> bool {
    e.id@ == c.id@ && artifact::labels(e.label@, e.named, c)
}

/// `v` points at the artifacts that go by `ids`.
pub open spec fn echoes_of(v: Seq<BandEcho>, chunks: Seq<Chunk>, ids: Seq<Seq<char>>) -> bool {
    &&& v.len() == ids.len()
    &&& forall|i: int|
        0 <= i < v.len() ==> (found(chunks, ids[i]) matches Some(c) && is_echo(#[trigger] v[i], c))
}

/// The artifact that goes by `id`.
fn find<'a>(chunks: &'a [Chunk], id: &str) -> (r: &'a Chunk)
    requires
        found(chunks@, id@) is Some,
    ensures
        found(chunks@, id@) == Some(*r),
{
    let mut i: usize = chunks.len();
    assert(chunks@.take(chunks@.len() as int) =~= chunks@);
    while i > 0
        invariant
            i <= chunks@.len(),
            found(chunks@.take(i as int), id@) == found(chunks@, id@),
            found(chunks@, id@) is Some,
        decreases i,
    {
        assert(chunks@.take(i as int).drop_last() =~= chunks@.take(i - 1));
        if same(chunks[i - 1].id.as_str(), id) {
            return &chunks[i - 1];
        }
        i = i - 1;
    }
    &chunks[0]
}

/// `v` is the band `cut[k]` on the page.
pub open spec fn is_view(
    v: BandView,
    cut: Seq<Band>,
    k: int,
    chunks: Seq<Chunk>,
    segments: Seq<Segment>,
    losses_are_final: bool,
) -> bool {
    let b = cut[k];
    let ids = text::texts(b.artifact_ids@);
    &&& v.from == b.from
    &&& v.to == b.to
    &&& v.lines@ == b.lines@
    &&& v.gap == (b.is_gap() && losses_are_final)
    &&& text::text_of(v.reread) == offer(
        b.is_gap(),
        b.from as int,
        b.to as int,
        segments,
        losses_are_final,
    )
    &&& cards_of(v.artifacts@, chunks, fresh(seen(cut, k), ids))
    &&& echoes_of(v.echoes@, chunks, stale(seen(cut, k), ids))
}

/// What comes up for the first time, and what has come up before, are both
/// among what there is.
pub proof fn dealt_from(seen: Set<Seq<char>>, ids: Seq<Seq<char>>, chunks: Seq<Chunk>)
    requires
        all_found(chunks, ids),
    ensures
        all_found(chunks, fresh(seen, ids)),
        all_found(chunks, stale(seen, ids)),
    decreases ids.len(),
{
    if ids.len() > 0 {
        let front = ids.drop_last();
        assert forall|i: int| 0 <= i < front.len() implies found(chunks, #[trigger] front[i]) is Some by {
            assert(front[i] == ids[i]);
        }
        dealt_from(seen, front, chunks);
        assert(found(chunks, ids[ids.len() - 1]) is Some);
    }
}

/// The bands of a source as the page shows them.
pub fn band_views(
    cut: Vec<Band>,
    chunks: &[Chunk],
    segments: &[Segment],
    losses_are_final: bool,
) -> (r: Vec<BandView>)
    requires
        forall|k: int|
            0 <= k < cut@.len() ==> all_found(
                chunks@,
                text::texts((#[trigger] cut@[k]).artifact_ids@),
            ),
    ensures
        r@.len() == cut@.len(),
        forall|k: int|
            0 <= k < r@.len() ==> is_view(
                #[trigger] r@[k],
                cut@,
                k,
                chunks@,
                segments@,
                losses_are_final,
            ),
{
    let ghost whole = cut@;
    let mut out: Vec<BandView> = Vec::new();
    let mut carded: Vec<String> = Vec::new();
    assert(text::texts(carded@).to_set() =~= seen(whole, 0));
    for b in it: cut
        invariant
            it.seq() == whole,
            forall|k: int|
                0 <= k < whole.len() ==> all_found(
                    chunks@,
                    text::texts((#[trigger] whole[k]).artifact_ids@),
                ),
            out@.len() == it.index(),
            text::texts(carded@).to_set() == seen(whole, it.index() as int),
            forall|k: int|
                0 <= k < out@.len() ==> is_view(
                    #[trigger] out@[k],
                    whole,
                    k,
                    chunks@,
                    segments@,
                    losses_are_final,
                ),
    {
        let ghost k = it.index() as int;
        let ghost ids = text::texts(b.artifact_ids@);
        let ghost up = seen(whole, k);
        assert(b == whole[k]);
        let (first, again) = deal(b.artifact_ids.as_slice(), &mut carded);
        proof {
            dealt_from(up, ids, chunks@);
        }
        let mut artifacts: Vec<ArtifactView> = Vec::new();
        let mut i: usize = 0;
        while i < first.len()
            invariant
                i <= first@.len(),
                text::texts(first@) == fresh(up, ids),
                all_found(chunks@, fresh(up, ids)),
                artifacts@.len() == i,
                forall|j: int|
                    0 <= j < i ==> (found(chunks@, fresh(up, ids)[j]) matches Some(c)
                        && artifact::is_card(#[trigger] artifacts@[j], c)),
            decreases first.len() - i,
        {
            assert(fresh(up, ids)[i as int] == first@[i as int]@);
            artifacts.push(artifact_view(find(chunks, first[i].as_str())));
            i = i + 1;
        }
        let mut echoes: Vec<BandEcho> = Vec::new();
        let mut i: usize = 0;
        while i < again.len()
            invariant
                i <= again@.len(),
                text::texts(again@) == stale(up, ids),
                all_found(chunks@, stale(up, ids)),
                echoes@.len() == i,
                forall|j: int|
                    0 <= j < i ==> (found(chunks@, stale(up, ids)[j]) matches Some(c) && is_echo(
                        #[trigger] echoes@[j],
                        c,
                    )),
            decreases again.len() - i,
        {
            assert(stale(up, ids)[i as int] == again@[i as int]@);
            let c = find(chunks, again[i].as_str());
            let label = row_label(c);
            echoes.push(BandEcho { id: c.id.clone(), label: label.text, named: label.named });
            i = i + 1;
        }
        assert(text::texts(first@).len() == first@.len());
        assert(text::texts(again@).len() == again@.len());
        let gap = b.gap();
        let reread = offer_of(gap, b.from, b.to, segments, losses_are_final);
        out.push(
            BandView {
                from: b.from,
                to: b.to,
                lines: b.lines,
                artifacts,
                echoes,
                gap: gap && losses_are_final,
                reread,
            },
        );
    }
    out
}

/// What claims a line of the source is an artifact of it.
pub proof fn claims_are_found(chunks: Seq<Chunk>, n: int)
    ensures
        all_found(chunks, corpus_view::claims(placed(chunks), n)),
    decreases chunks.len(),
{
    if chunks.len() > 0 {
        let front = chunks.drop_last();
        claims_are_found(front, n);
        let before = corpus_view::claims(placed(front), n);
        let now = corpus_view::claims(placed(chunks), n);
        if chunks.last().corpus_span is Some {
            assert(placed(chunks).drop_last() =~= placed(front));
        }
        assert forall|i: int| 0 <= i < now.len() implies found(chunks, #[trigger] now[i]) is Some by {
            if i < before.len() {
                assert(now[i] == before[i]);
                assert(found(front, before[i]) is Some);
            }
        }
    }
}

/// What a line is shown beside is an artifact of its source.
pub proof fn shown_are_found(all: Seq<Seq<char>>, chunks: Seq<Chunk>, n: int)
    ensures
        all_found(chunks, corpus_view::shown_beside(all, placed(chunks), n)),
    decreases n,
{
    if n > 1 && text::blank(all[n - 1]) {
        shown_are_found(all, chunks, n - 1);
    } else {
        claims_are_found(chunks, n);
    }
}

/// Every band of a source stands beside artifacts of it.
pub proof fn cut_is_found(
    cut: Seq<Band>,
    all: Seq<Seq<char>>,
    chunks: Seq<Chunk>,
    highlight: Option<(i64, i64)>,
    n: int,
)
    requires
        corpus_view::is_cut(cut, all, placed(chunks), highlight, n),
    ensures
        forall|k: int|
            0 <= k < cut.len() ==> all_found(
                chunks,
                text::texts((#[trigger] cut[k]).artifact_ids@),
            ),
{
    assert forall|k: int| 0 <= k < cut.len() implies all_found(
        chunks,
        text::texts((#[trigger] cut[k]).artifact_ids@),
    ) by {
        let b = cut[k];
        assert(corpus_view::is_band(b, all, placed(chunks), highlight));
        assert(corpus_view::shown_beside(all, placed(chunks), b.from as int) == text::texts(
            b.artifact_ids@,
        ));
        shown_are_found(all, chunks, b.from as int);
    }
}

// ---------------------------------------------------------------------------
// The page
// ---------------------------------------------------------------------------

/// The lines a link asks to be highlighted: from the one it names to the other
/// one it names, or that one alone.
pub open spec fn highlighted(range: LineRange) -> Option<(i64, i64)> {
    match range.from {
        Some(f) => Some(
            (
                f,
                match range.to {
                    Some(t) => t,
                    None => f,
                },
            ),
        ),
        None => None,
    }
}

/// Whether a picture or a PDF has no reading yet: it is still being read, or
/// nothing was read from it.
pub open spec fn is_unread(s: Corpus) -> bool {
    ||| s.origin@ == ORIGIN_IMAGE@ && (s.status == CorpusStatus::Describing || text::blank(
        s.raw_text@,
    ))
    ||| s.origin@ == ORIGIN_PDF@ && (s.status == CorpusStatus::Extracting || text::blank(
        s.raw_text@,
    ))
}

/// How much of the wording survived, said only once something was written
/// from the source: passages are the wording, and the measure of them is
/// always the whole.
pub open spec fn coverage_words(s: Corpus, chunks: Seq<Chunk>) -> Option<Seq<char>> {
    if forall|i: int|
        0 <= i < chunks.len() ==> (#[trigger] chunks[i]).provenance == Provenance::Passage {
        None
    } else {
        match s.coverage {
            Some(c) => Some(text::decimal(c as nat) + "%"@),
            None => None,
        }
    }
}

/// Whether a window's passages were replaced by something written from them.
pub open spec fn is_promoted(w: Segment, chunks: Seq<Chunk>) -> bool {
    w.state == SegmentState::Done && exists|i: int|
        0 <= i < chunks.len() && (#[trigger] chunks[i]).segment_idx == Some(w.idx)
            && chunks[i].provenance == Provenance::Passage && chunks[i].superseded_by is Some
}

/// The windows whose passages were replaced, in order.
pub open spec fn promoted_windows(segments: Seq<Segment>, chunks: Seq<Chunk>) -> Seq<Segment> {
    segments.filter(|w: Segment| is_promoted(w, chunks))
}

/// Those of the artifacts that a search may still return.
pub open spec fn still_returned(chunks: Seq<Chunk>) -> Seq<Chunk> {
    chunks.filter(|c: Chunk| c.is_in_results())
}

/// What the page shows of a source.
pub open spec fn is_page(
    t: CorpusTemplate,
    s: Corpus,
    chunks: Seq<Chunk>,
    segments: Seq<Segment>,
    originating: Seq<Chunk>,
    range: LineRange,
) -> bool {
    let restored = s.restored_at is Some;
    let lines = text::lines(s.raw_text@);
    let lost = losses_final(s.status, segments, chunks, restored);
    &&& t.id@ == s.id@
    &&& t.status@ == s.status.word()
    &&& t.restored == restored
    &&& t.source_url == s.source_url
    &&& t.image == (s.origin@ == ORIGIN_IMAGE@)
    &&& t.pdf == (s.origin@ == ORIGIN_PDF@)
    &&& t.unread == is_unread(s)
    &&& pairs(t.meta_rows@) == rows_of(s.metadata)
    &&& in_label_order(pairs(t.exif_rows@))
    &&& pairs(t.exif_rows@).to_multiset() == tags_of(s.metadata).to_multiset()
    &&& text::text_of(t.note) == json::as_text(json::under(s.metadata, "note"@))
    &&& restored ==> t.bands@.len() == 0
    &&& !restored ==> exists|cut: Seq<Band>|
        {
            &&& #[trigger] corpus_view::is_cut(
                cut,
                lines,
                placed(chunks),
                highlighted(range),
                lines.len() as int,
            )
            &&& are_views(t.bands@, cut, chunks, segments, lost)
        }
    &&& are_windows(t.promoted@, promoted_windows(segments, chunks))
    &&& artifact::are_cards(t.unplaced@, unplaced(chunks, restored))
    &&& artifact::are_cards(t.written_from@, still_returned(originating))
    &&& t.lines_empty == text::blank(s.raw_text@)
    &&& t.raw_text@ == s.raw_text@
    &&& text::text_of(t.coverage) == coverage_words(s, chunks)
    &&& t.title@ == s.label@
}

/// `v` is the bands of `cut` on the page.
pub open spec fn are_views(
    v: Seq<BandView>,
    cut: Seq<Band>,
    chunks: Seq<Chunk>,
    segments: Seq<Segment>,
    losses_are_final: bool,
) -> bool {
    &&& v.len() == cut.len()
    &&& forall|k: int|
        0 <= k < v.len() ==> is_view(#[trigger] v[k], cut, k, chunks, segments, losses_are_final)
}

/// `v` is the windows `w`, in order.
pub open spec fn are_windows(v: Seq<PromotedWindow>, w: Seq<Segment>) -> bool {
    &&& v.len() == w.len()
    &&& forall|i: int|
        0 <= i < v.len() ==> {
            &&& (#[trigger] v[i]).idx == w[i].idx
            &&& v[i].from == w[i].start_line
            &&& v[i].to == w[i].end_line
        }
}

/// The cards of the artifacts that name no lines.
fn unplaced_cards(chunks: &[Chunk], restored: bool) -> (r: Vec<ArtifactView>)
    ensures
        artifact::are_cards(r@, unplaced(chunks@, restored)),
{
    reveal(Seq::filter);
    let mut r: Vec<ArtifactView> = Vec::new();
    let mut i: usize = 0;
    while i < chunks.len()
        invariant
            i <= chunks@.len(),
            artifact::are_cards(r@, unplaced(chunks@.take(i as int), restored)),
        decreases chunks.len() - i,
    {
        reveal(Seq::filter);
        assert(chunks@.take(i + 1).drop_last() =~= chunks@.take(i as int));
        if restored || chunks[i].corpus_span.is_none() {
            r.push(artifact_view(&chunks[i]));
        }
        i = i + 1;
    }
    assert(chunks@.take(chunks@.len() as int) =~= chunks@);
    r
}

/// The cards of the artifacts that a search may still return.
fn returned_cards(chunks: &[Chunk]) -> (r: Vec<ArtifactView>)
    ensures
        artifact::are_cards(r@, still_returned(chunks@)),
{
    reveal(Seq::filter);
    let mut r: Vec<ArtifactView> = Vec::new();
    let mut i: usize = 0;
    while i < chunks.len()
        invariant
            i <= chunks@.len(),
            artifact::are_cards(r@, still_returned(chunks@.take(i as int))),
        decreases chunks.len() - i,
    {
        reveal(Seq::filter);
        assert(chunks@.take(i + 1).drop_last() =~= chunks@.take(i as int));
        if chunks[i].in_results() {
            r.push(artifact_view(&chunks[i]));
        }
        i = i + 1;
    }
    assert(chunks@.take(chunks@.len() as int) =~= chunks@);
    r
}

/// Whether a window's passages were replaced by something written from them.
fn promoted(w: &Segment, chunks: &[Chunk]) -> (r: bool)
    ensures
        r == is_promoted(*w, chunks@),
{
    if w.state != SegmentState::Done {
        return false;
    }
    let mut i: usize = 0;
    while i < chunks.len()
        invariant
            i <= chunks@.len(),
            w.state == SegmentState::Done,
            forall|j: int|
                0 <= j < i ==> !((#[trigger] chunks@[j]).segment_idx == Some(w.idx)
                    && chunks@[j].provenance == Provenance::Passage
                    && chunks@[j].superseded_by is Some),
        decreases chunks.len() - i,
    {
        let c = &chunks[i];
        if c.provenance == Provenance::Passage && c.superseded_by.is_some() {
            match c.segment_idx {
                Some(idx) => {
                    if idx == w.idx {
                        assert(chunks@[i as int].segment_idx == Some(w.idx));
                        return true;
                    }
                },
                None => {},
            }
        }
        i = i + 1;
    }
    false
}

/// The windows whose passages were replaced, in order.
fn promoted_of(segments: &[Segment], chunks: &[Chunk]) -> (r: Vec<PromotedWindow>)
    ensures
        are_windows(r@, promoted_windows(segments@, chunks@)),
{
    reveal(Seq::filter);
    let mut r: Vec<PromotedWindow> = Vec::new();
    let mut i: usize = 0;
    while i < segments.len()
        invariant
            i <= segments@.len(),
            are_windows(r@, promoted_windows(segments@.take(i as int), chunks@)),
        decreases segments.len() - i,
    {
        reveal(Seq::filter);
        assert(segments@.take(i + 1).drop_last() =~= segments@.take(i as int));
        let w = segments[i];
        if promoted(&w, chunks) {
            r.push(PromotedWindow { idx: w.idx, from: w.start_line, to: w.end_line });
        }
        i = i + 1;
    }
    assert(segments@.take(segments@.len() as int) =~= segments@);
    r
}

/// How much of the wording survived, where that says something.
pub fn coverage_of(s: &Corpus, chunks: &[Chunk]) -> (r: Option<String>)
    ensures
        text::text_of(r) == coverage_words(*s, chunks@),
{
    let mut i: usize = 0;
    while i < chunks.len()
        invariant
            i <= chunks@.len(),
            forall|j: int| 0 <= j < i ==> (#[trigger] chunks@[j]).provenance == Provenance::Passage,
        decreases chunks.len() - i,
    {
        if chunks[i].provenance != Provenance::Passage {
            assert(chunks@[i as int].provenance != Provenance::Passage);
            return match s.coverage {
                Some(c) => {
                    let mut r = decimal_of(c);
                    r.append("%");
                    Some(r)
                },
                None => None,
            };
        }
        i = i + 1;
    }
    None
}

/// Whether a picture or a PDF has no reading yet.
pub fn unread_of(s: &Corpus) -> (r: bool)
    ensures
        r == is_unread(*s),
{
    let empty = is_blank(s.raw_text.as_str());
    (same(s.origin.as_str(), ORIGIN_IMAGE) && (s.status == CorpusStatus::Describing || empty))
        || (same(s.origin.as_str(), ORIGIN_PDF) && (s.status == CorpusStatus::Extracting || empty))
}

/// The page that a source is read on.
///
/// Until the source has been read to its end, a passage nothing claims is a
/// passage nothing has got to yet: banded, still, but no loss. And nothing is
/// a loss while an artifact of it names no lines, since that one may have come
/// from exactly the lines about to be called lost.
pub fn corpus_detail(
    s: &Corpus,
    chunks: &[Chunk],
    segments: &[Segment],
    originating: &[Chunk],
    range: &LineRange,
) -> (r: CorpusTemplate)
    requires
        text::lines(s.raw_text@).len() <= i64::MAX,
    ensures
        is_page(r, *s, chunks@, segments@, originating@, *range),
{
    let restored = s.restored_at.is_some();
    let unplaced = unplaced_cards(chunks, restored);
    let losses_are_final = coverage_final(&s.status) && segments.len() > 0 && unplaced.len() == 0;
    let ghost lines = text::lines(s.raw_text@);
    let ghost mut cut_seq: Seq<Band> = Seq::empty();
    let views = if restored {
        Vec::new()
    } else {
        let highlight = match range.from {
            Some(f) => match range.to {
                Some(t) => Some((f, t)),
                None => Some((f, f)),
            },
            None => None,
        };
        let spans = placed_of(chunks);
        let cut = bands(s.raw_text.as_str(), spans.as_slice(), highlight);
        proof {
            cut_seq = cut@;
            cut_is_found(cut@, lines, chunks@, highlight, lines.len() as int);
        }
        band_views(cut, chunks, segments, losses_are_final)
    };
    proof {
        if !restored {
            assert(corpus_view::is_cut(
                cut_seq,
                lines,
                placed(chunks@),
                highlighted(*range),
                lines.len() as int,
            ));
            assert(are_views(views@, cut_seq, chunks@, segments@, losses_are_final));
        }
    }
    CorpusTemplate {
        id: s.id.clone(),
        status: s.status.as_str(),
        restored,
        source_url: text::copy_opt(&s.source_url),
        image: same(s.origin.as_str(), ORIGIN_IMAGE),
        pdf: same(s.origin.as_str(), ORIGIN_PDF),
        unread: unread_of(s),
        meta_rows: metadata_rows(&s.metadata),
        exif_rows: exif_tag_rows(&s.metadata),
        note: text_in(s.metadata.get("note")),
        bands: views,
        promoted: promoted_of(segments, chunks),
        unplaced,
        written_from: returned_cards(originating),
        lines_empty: is_blank(s.raw_text.as_str()),
        raw_text: s.raw_text.clone(),
        coverage: coverage_of(s, chunks),
        title: s.label.clone(),
    }
}

// ---------------------------------------------------------------------------
// What holds of every page
// ---------------------------------------------------------------------------

/// What comes up for the first time in a band is claimed there, was not seen
/// before, and comes up once.
pub proof fn fresh_is_new(up: Set<Seq<char>>, ids: Seq<Seq<char>>)
    ensures
        forall|id: Seq<char>|
            #[trigger] fresh(up, ids).contains(id) <==> ids.contains(id) && !up.contains(id),
        fresh(up, ids).no_duplicates(),
    decreases ids.len(),
{
    if ids.len() > 0 {
        let front = ids.drop_last();
        let last = ids.last();
        fresh_is_new(up, front);
        let before = fresh(up, front);
        let now = fresh(up, ids);
        assert forall|id: Seq<char>| #[trigger] now.contains(id) <==> ids.contains(id)
            && !up.contains(id) by {
            if front.contains(id) {
                let i = choose|i: int| 0 <= i < front.len() && front[i] == id;
                assert(ids[i] == id);
            }
            if ids.contains(id) {
                let i = choose|i: int| 0 <= i < ids.len() && ids[i] == id;
                if i < front.len() {
                    assert(front[i] == id);
                } else {
                    assert(id == last);
                }
            }
            assert(ids[ids.len() - 1] == last);
            if now == before.push(last) {
                if now.contains(id) {
                    let i = choose|i: int| 0 <= i < now.len() && now[i] == id;
                    if i < before.len() {
                        assert(before[i] == id);
                    }
                }
                if before.contains(id) {
                    let i = choose|i: int| 0 <= i < before.len() && before[i] == id;
                    assert(now[i] == id);
                }
                assert(now[before.len() as int] == last);
            }
        }
        if now == before.push(last) {
            assert(!before.contains(last));
            assert forall|i: int, j: int|
                0 <= i < now.len() && 0 <= j < now.len() && i != j implies now[i] != now[j] by {
                if i == before.len() {
                    assert(before.contains(before[j]));
                }
                if j == before.len() {
                    assert(before.contains(before[i]));
                }
            }
        }
    }
}

/// What the bands before the `k`th claim is what some one of them claims.
pub proof fn seen_is_claimed(cut: Seq<Band>, k: int, id: Seq<char>)
    requires
        0 <= k <= cut.len(),
    ensures
        seen(cut, k).contains(id) <==> exists|j: int|
            0 <= j < k && text::texts((#[trigger] cut[j]).artifact_ids@).contains(id),
    decreases k,
{
    if k > 0 {
        seen_is_claimed(cut, k - 1, id);
        if text::texts(cut[k - 1].artifact_ids@).contains(id) {
            assert(0 <= k - 1 < k);
        }
        if exists|j: int| 0 <= j < k && text::texts((#[trigger] cut[j]).artifact_ids@).contains(id) {
            let j = choose|j: int|
                0 <= j < k && text::texts((#[trigger] cut[j]).artifact_ids@).contains(id);
            if j < k - 1 {
                assert(seen(cut, k - 1).contains(id));
            }
        }
    }
}

/// An artifact has its card in exactly one band: the first that claims it.
pub proof fn an_artifact_is_carded_once(cut: Seq<Band>, k: int, id: Seq<char>)
    requires
        0 <= k < cut.len(),
    ensures
        fresh(seen(cut, k), text::texts(cut[k].artifact_ids@)).contains(id) <==> {
            &&& text::texts(cut[k].artifact_ids@).contains(id)
            &&& forall|j: int|
                0 <= j < k ==> !text::texts((#[trigger] cut[j]).artifact_ids@).contains(id)
        },
        fresh(seen(cut, k), text::texts(cut[k].artifact_ids@)).no_duplicates(),
{
    fresh_is_new(seen(cut, k), text::texts(cut[k].artifact_ids@));
    seen_is_claimed(cut, k, id);
}

/// Nothing is read again but windows that hold some of what was lost inside
/// the band pressed, and that nothing else is going to read.
pub proof fn only_a_loss_is_read_again(
    segments: Seq<Segment>,
    cut: Seq<Band>,
    live: Seq<i64>,
    from: int,
    to: int,
    idx: i64,
)
    ensures
        to_read_again(segments, cut, live, from, to).contains(idx) <==> {
            &&& !live.contains(idx)
            &&& exists|i: int|
                0 <= i < segments.len() && (#[trigger] segments[i]).idx == idx && holds_loss(
                    segments[i],
                    cut,
                    from,
                    to,
                )
        },
    decreases segments.len(),
{
    if segments.len() > 0 {
        let front = segments.drop_last();
        let w = segments.last();
        only_a_loss_is_read_again(front, cut, live, from, to, idx);
        let before = to_read_again(front, cut, live, from, to);
        let now = to_read_again(segments, cut, live, from, to);
        if now == before.push(w.idx) {
            assert(now[before.len() as int] == w.idx);
            if before.contains(idx) {
                let i = choose|i: int| 0 <= i < before.len() && before[i] == idx;
                assert(now[i] == idx);
            }
            if now.contains(idx) {
                let i = choose|i: int| 0 <= i < now.len() && now[i] == idx;
                if i < before.len() {
                    assert(before[i] == idx);
                }
            }
        }
        assert(segments[segments.len() - 1] == w);
        if exists|i: int|
            0 <= i < front.len() && (#[trigger] front[i]).idx == idx && holds_loss(
                front[i],
                cut,
                from,
                to,
            ) {
            let i = choose|i: int|
                0 <= i < front.len() && (#[trigger] front[i]).idx == idx && holds_loss(
                    front[i],
                    cut,
                    from,
                    to,
                );
            assert(segments[i].idx == idx);
        }
        if exists|i: int|
            0 <= i < segments.len() && (#[trigger] segments[i]).idx == idx && holds_loss(
                segments[i],
                cut,
                from,
                to,
            ) {
            let i = choose|i: int|
                0 <= i < segments.len() && (#[trigger] segments[i]).idx == idx && holds_loss(
                    segments[i],
                    cut,
                    from,
                    to,
                );
            if i < front.len() {
                assert(front[i].idx == idx);
            }
        }
    }
}

/// A band of a source that is not read to its end, or has an artifact that
/// names no lines, is no loss, and offers nothing to read.
pub proof fn an_unread_source_has_no_loss(
    v: BandView,
    cut: Seq<Band>,
    k: int,
    s: Corpus,
    chunks: Seq<Chunk>,
    segments: Seq<Segment>,
)
    requires
        is_view(
            v,
            cut,
            k,
            chunks,
            segments,
            losses_final(s.status, segments, chunks, s.restored_at is Some),
        ),
        !is_final(s.status) || unplaced(chunks, s.restored_at is Some).len() > 0,
    ensures
        !v.gap,
        v.reread is None,
{
}

proof fn hull_is_touched(segments: Seq<Segment>, from: int, to: int)
    requires
        hull(segments, from, to) is Some,
    ensures
        exists|i: int| 0 <= i < segments.len() && touches(#[trigger] segments[i], from, to),
    decreases segments.len(),
{
    if segments.len() > 0 {
        let front = segments.drop_last();
        if touches(segments.last(), from, to) {
            assert(touches(segments[segments.len() - 1], from, to));
        } else {
            hull_is_touched(front, from, to);
            let i = choose|i: int|
                0 <= i < front.len() && touches(#[trigger] front[i], from, to);
            assert(touches(segments[i], from, to));
        }
    }
}

/// A button that is offered does something: where a band offers a re-read,
/// pressing it reads a window that holds lines of the band, unless something is
/// going to read that window anyway.
pub proof fn what_is_offered_is_read(
    cut: Seq<Band>,
    k: int,
    all: Seq<Seq<char>>,
    spans: Seq<(String, CorpusSpan)>,
    highlight: Option<(i64, i64)>,
    n: int,
    segments: Seq<Segment>,
    live: Seq<i64>,
)
    requires
        corpus_view::is_cut(cut, all, spans, highlight, n),
        0 <= k < cut.len(),
        offer(cut[k].is_gap(), cut[k].from as int, cut[k].to as int, segments, true) is Some,
    ensures
        exists|i: int|
            0 <= i < segments.len() && touches(
                #[trigger] segments[i],
                cut[k].from as int,
                cut[k].to as int,
            ) && (live.contains(segments[i].idx) || to_read_again(
                segments,
                cut,
                live,
                cut[k].from as int,
                cut[k].to as int,
            ).contains(segments[i].idx)),
{
    let b = cut[k];
    let from = b.from as int;
    let to = b.to as int;
    assert(corpus_view::is_band(b, all, spans, highlight));
    assert(is_lost(b, from, to));
    hull_is_touched(segments, from, to);
    let i = choose|i: int| 0 <= i < segments.len() && touches(#[trigger] segments[i], from, to);
    assert(holds_loss(segments[i], cut, from, to));
    only_a_loss_is_read_again(segments, cut, live, from, to, segments[i].idx);
}

/// Where the page of a source is.
pub fn corpus_address(id: &str) -> (r: String)
    ensures
        r@ == "/ui/corpora/"@ + id@,
{
    let mut r = "/ui/corpora/".to_owned();
    r.append(id);
    r
}

/// Where pressing the button on a band leads: back to the band it was on.
pub fn band_address(id: &str, form: &RereadForm) -> (r: String)
    ensures
        r@ == "/ui/corpora/"@ + id@ + "#L"@ + text::signed(form.from as int),
{
    let mut r = corpus_address(id);
    r.append("#L");
    r.append(signed_of(form.from).as_str());
    r
}

// ---------------------------------------------------------------------------
// What holds of every source
// ---------------------------------------------------------------------------

/// Reading is over where it is done, done in part, or has failed, and nowhere
/// else.
pub proof fn reading_is_over_three_ways(status: CorpusStatus)
    ensures
        is_final(status) <==> status is Ready || status is Partial || status is Failed,
{
}

/// What names lines is placed by the lines it names, in order; what names none
/// is unplaced, and so is everything of a source that was never captured here.
pub proof fn what_names_lines_is_placed(chunks: Seq<Chunk>)
    ensures
        placed(chunks) == chunks.filter(|c: Chunk| c.corpus_span is Some).map_values(
            |c: Chunk| (c.id, c.corpus_span->0),
        ),
        unplaced(chunks, false) == chunks.filter(|c: Chunk| c.corpus_span is None),
        unplaced(chunks, true) == chunks,
        placed(chunks).len() + unplaced(chunks, false).len() == chunks.len(),
    decreases chunks.len(),
{
    reveal(Seq::filter);
    let p = |c: Chunk| c.corpus_span is Some;
    let f = |c: Chunk| (c.id, c.corpus_span->0);
    assert((|c: Chunk| false || c.corpus_span is None) =~= (|c: Chunk| c.corpus_span is None));
    let yes = true;
    let no = false;
    assert((|c: Chunk| no || c.corpus_span is None) =~= (|c: Chunk| c.corpus_span is None));
    let any = |c: Chunk| yes || c.corpus_span is None;
    if chunks.len() > 0 {
        let less = chunks.drop_last();
        what_names_lines_is_placed(less);
        assert(less.filter(any) == less);
        assert(chunks.filter(any) =~= chunks);
        assert(placed(chunks) =~= chunks.filter(p).map_values(f));
    } else {
        assert(chunks.filter(any) =~= chunks);
        assert(placed(chunks) =~= chunks.filter(p).map_values(f));
    }
}

/// What nothing was written from is a loss once every window has been read and
/// every artifact names its lines, and not before.
pub proof fn a_loss_is_known_once_all_is_read(
    status: CorpusStatus,
    segments: Seq<Segment>,
    chunks: Seq<Chunk>,
)
    ensures
        losses_final(status, segments, chunks, false) <==> (status is Ready || status is Partial
            || status is Failed) && segments.len() > 0 && (forall|i: int|
            0 <= i < chunks.len() ==> (#[trigger] chunks[i]).corpus_span is Some),
        losses_final(status, segments, chunks, true) <==> (status is Ready || status is Partial
            || status is Failed) && segments.len() > 0 && chunks.len() == 0,
{
    broadcast use vstd::seq_lib::group_filter_ensures;

    what_names_lines_is_placed(chunks);
    let p = |c: Chunk| c.corpus_span is None;
    let none = chunks.filter(p);
    if none.len() > 0 {
        assert(p(none[0]));
        assert(none.contains(none[0]));
        chunks.lemma_filter_contains_rev(p, none[0]);
        let i = choose|i: int| 0 <= i < chunks.len() && chunks[i] == none[0];
        assert(chunks[i].corpus_span is None);
    }
    if exists|i: int| 0 <= i < chunks.len() && (#[trigger] chunks[i]).corpus_span is None {
        let i = choose|i: int| 0 <= i < chunks.len() && (#[trigger] chunks[i]).corpus_span is None;
        assert(p(chunks[i]));
        assert(chunks.contains(chunks[i]));
        assert(none.contains(chunks[i]));
    }
}

/// A window touches lines exactly where it holds one of them, or where the
/// lines are so many that they hold it.
pub proof fn a_window_touches_what_it_holds(w: Segment, from: int, to: int)
    requires
        w.start_line <= w.end_line,
        from <= to,
    ensures
        touches(w, from, to) <==> exists|n: int|
            #![trigger corpus_view::covers(CorpusSpan {
                start_line: w.start_line,
                end_line: w.end_line,
            }, n)]
            from <= n <= to && w.start_line <= n <= w.end_line,
{
    let n = if from > w.start_line {
        from
    } else {
        w.start_line as int
    };
    let _ = corpus_view::covers(
        CorpusSpan { start_line: w.start_line, end_line: w.end_line },
        n,
    );
}

/// What a second reading would cover is what the windows that hold the lines
/// cover together: every one of them lies within it, it ends on both sides
/// where one of them does, and it is nothing where no window holds them.
pub proof fn a_second_reading_covers_its_windows(segments: Seq<Segment>, from: int, to: int)
    ensures
        hull(segments, from, to) is None <==> forall|i: int|
            0 <= i < segments.len() ==> !((#[trigger] segments[i]).start_line <= to && from
                <= segments[i].end_line),
        hull(segments, from, to) matches Some((a, z)) ==> {
            &&& forall|i: int|
                0 <= i < segments.len() && (#[trigger] segments[i]).start_line <= to && from
                    <= segments[i].end_line ==> a <= segments[i].start_line && segments[i].end_line
                    <= z
            &&& exists|i: int|
                0 <= i < segments.len() && (#[trigger] segments[i]).start_line <= to && from
                    <= segments[i].end_line && segments[i].start_line == a
            &&& exists|i: int|
                0 <= i < segments.len() && (#[trigger] segments[i]).start_line <= to && from
                    <= segments[i].end_line && segments[i].end_line == z
        },
    decreases segments.len(),
{
    if segments.len() > 0 {
        let less = segments.drop_last();
        let w = segments.last();
        let last = segments.len() - 1;
        a_second_reading_covers_its_windows(less, from, to);
        assert forall|i: int| 0 <= i < less.len() implies #[trigger] less[i] == segments[i] by {}
        assert(segments[last] == w);
        if hull(less, from, to) is Some {
            let (a, z) = hull(less, from, to)->0;
            let i = choose|i: int|
                0 <= i < less.len() && (#[trigger] less[i]).start_line <= to && from
                    <= less[i].end_line && less[i].start_line == a;
            let j = choose|i: int|
                0 <= i < less.len() && (#[trigger] less[i]).start_line <= to && from
                    <= less[i].end_line && less[i].end_line == z;
            assert(segments[i] == less[i]);
            assert(segments[j] == less[j]);
        }
        assert forall|i: int|
            0 <= i < segments.len() && (#[trigger] segments[i]).start_line <= to && from
                <= segments[i].end_line implies ({
            &&& hull(segments, from, to) matches Some((a, z))
            &&& a <= segments[i].start_line
            &&& segments[i].end_line <= z
        }) by {
            if i < last {
                assert(less[i] == segments[i]);
            }
        }
        if hull(segments, from, to) is None {
            assert forall|i: int| 0 <= i < segments.len() implies !((#[trigger] segments[i]).start_line
                <= to && from <= segments[i].end_line) by {
                if i < last {
                    assert(less[i] == segments[i]);
                }
            }
        }
    }
}

/// A second reading is offered of a gap whose loss is known, and says the lines
/// it would cover; nothing else is offered one.
pub proof fn a_second_reading_says_what_it_covers(
    from: int,
    to: int,
    segments: Seq<Segment>,
    known: bool,
)
    ensures
        hull(segments, from, to) matches Some((a, z)) ==> offer(true, from, to, segments, true)
            == Some("reads lines "@ + text::signed(a) + "–"@ + text::signed(z)),
        hull(segments, from, to) is None ==> offer(true, from, to, segments, known) is None,
        offer(true, from, to, segments, false) is None,
        offer(false, from, to, segments, known) is None,
{
}

/// A window is read again where it holds a line of a gap among the lines asked
/// for, and is not being read already; the windows stay in their order.
pub proof fn what_is_read_again_keeps_its_order(
    segments: Seq<Segment>,
    cut: Seq<Band>,
    live: Seq<i64>,
    from: int,
    to: int,
)
    ensures
        to_read_again(segments, cut, live, from, to) == segments.filter(
            |w: Segment| holds_loss(w, cut, from, to) && !live.contains(w.idx),
        ).map_values(|w: Segment| w.idx),
    decreases segments.len(),
{
    reveal(Seq::filter);
    let p = |w: Segment| holds_loss(w, cut, from, to) && !live.contains(w.idx);
    let f = |w: Segment| w.idx;
    if segments.len() > 0 {
        what_is_read_again_keeps_its_order(segments.drop_last(), cut, live, from, to);
    }
    assert(to_read_again(segments, cut, live, from, to) =~= segments.filter(p).map_values(f));
}

/// A window holds a loss where a band that nothing claims shares lines with
/// what was asked for, and with the window.
pub proof fn a_loss_is_a_band_that_nothing_claims(
    w: Segment,
    cut: Seq<Band>,
    from: int,
    to: int,
    k: int,
)
    requires
        0 <= k < cut.len(),
    ensures
        cut[k].artifact_ids@.len() == 0 && cut[k].from <= to && from <= cut[k].to && w.start_line
            <= cut[k].to && cut[k].from <= w.end_line ==> holds_loss(w, cut, from, to),
        holds_loss(w, cut, from, to) ==> exists|j: int|
            0 <= j < cut.len() && (#[trigger] cut[j]).artifact_ids@.len() == 0 && cut[j].from <= to
                && from <= cut[j].to && w.start_line <= cut[j].to && cut[j].from <= w.end_line,
{
    if cut[k].artifact_ids@.len() == 0 && cut[k].from <= to && from <= cut[k].to && w.start_line
        <= cut[k].to && cut[k].from <= w.end_line {
        assert(is_lost(cut[k], from, to));
    }
}

/// There is nothing to read again of a source that is still being read, that
/// was never captured here, or of which an artifact names no lines.
pub proof fn when_there_is_nothing_to_read_again(s: Corpus, chunks: Seq<Chunk>)
    ensures
        nothing_to_reread(s, chunks) <==> !(s.status is Ready || s.status is Partial || s.status
            is Failed) || s.restored_at is Some || !(forall|i: int|
            0 <= i < chunks.len() ==> (#[trigger] chunks[i]).corpus_span is Some),
{
    if exists|i: int| 0 <= i < chunks.len() && (#[trigger] chunks[i]).corpus_span is None {
        let i = choose|i: int| 0 <= i < chunks.len() && (#[trigger] chunks[i]).corpus_span is None;
        assert(!(chunks[i].corpus_span is Some));
    }
}

/// What the door recorded has its row where it was recorded, and no other row
/// stands there.
pub proof fn what_was_recorded_has_its_row(m: Json, label: Seq<char>, value: Seq<char>)
    ensures
        rows_of(m).contains((label, value)) <==> {
            ||| label == "Taken"@ && json::as_text(json::under2(m, "exif"@, "taken_at"@)) == Some(
                value,
            )
            ||| label == "Camera"@ && json::as_text(json::under2(m, "exif"@, "camera"@)) == Some(
                value,
            )
            ||| label == "Location"@ && location(m) == Some(value)
            ||| label == "File"@ && json::as_text(json::under2(m, "file"@, "name"@)) == Some(value)
            ||| label == "Size"@ && size(m) == Some(value)
            ||| label == "Reading"@ && json::as_text(json::under2(m, "describe"@, "error"@))
                == Some(value)
            ||| label == "Extraction"@ && json::as_text(json::under2(m, "extract"@, "error"@))
                == Some(value)
        },
{
    let x = (label, value);
    let a = row("Taken"@, json::as_text(json::under2(m, "exif"@, "taken_at"@)));
    let b = row("Camera"@, json::as_text(json::under2(m, "exif"@, "camera"@)));
    let c = row("Location"@, location(m));
    let d = row("File"@, json::as_text(json::under2(m, "file"@, "name"@)));
    let e = row("Size"@, size(m));
    let f = row("Reading"@, json::as_text(json::under2(m, "describe"@, "error"@)));
    let g = row("Extraction"@, json::as_text(json::under2(m, "extract"@, "error"@)));
    one_or_other(a, b, x);
    one_or_other(a + b, c, x);
    one_or_other(a + b + c, d, x);
    one_or_other(a + b + c + d, e, x);
    one_or_other(a + b + c + d + e, f, x);
    one_or_other(a + b + c + d + e + f, g, x);
    a_row_holds_its_value("Taken"@, json::as_text(json::under2(m, "exif"@, "taken_at"@)), x);
    a_row_holds_its_value("Camera"@, json::as_text(json::under2(m, "exif"@, "camera"@)), x);
    a_row_holds_its_value("Location"@, location(m), x);
    a_row_holds_its_value("File"@, json::as_text(json::under2(m, "file"@, "name"@)), x);
    a_row_holds_its_value("Size"@, size(m), x);
    a_row_holds_its_value("Reading"@, json::as_text(json::under2(m, "describe"@, "error"@)), x);
    a_row_holds_its_value("Extraction"@, json::as_text(json::under2(m, "extract"@, "error"@)), x);
}

/// What two runs of rows hold together, one of them holds.
proof fn one_or_other(
    a: Seq<(Seq<char>, Seq<char>)>,
    b: Seq<(Seq<char>, Seq<char>)>,
    x: (Seq<char>, Seq<char>),
)
    ensures
        (a + b).contains(x) <==> a.contains(x) || b.contains(x),
{
    let s = a + b;
    if s.contains(x) {
        let i = choose|i: int| 0 <= i < s.len() && s[i] == x;
        if i < a.len() {
            assert(a[i] == x);
        } else {
            assert(b[i - a.len()] == x);
        }
    }
    if a.contains(x) {
        let i = choose|i: int| 0 <= i < a.len() && a[i] == x;
        assert(s[i] == x);
    }
    if b.contains(x) {
        let i = choose|i: int| 0 <= i < b.len() && b[i] == x;
        assert(s[a.len() + i] == x);
    }
}

/// A row holds its label and its value, where there is one.
proof fn a_row_holds_its_value(
    label: Seq<char>,
    value: Option<Seq<char>>,
    x: (Seq<char>, Seq<char>),
)
    ensures
        row(label, value).contains(x) <==> x.0 == label && value == Some(x.1),
{
    if x.0 == label && value == Some(x.1) {
        assert(row(label, value)[0] == x);
    }
}

/// The rows stand in one order: when and with what a picture was taken, where,
/// the file, its size, and what went wrong in reading it.
pub proof fn the_rows_stand_in_one_order(m: Json)
    requires
        json::as_text(json::under2(m, "exif"@, "taken_at"@)) is Some,
        json::as_text(json::under2(m, "exif"@, "camera"@)) is Some,
        location(m) is Some,
        json::as_text(json::under2(m, "file"@, "name"@)) is Some,
        size(m) is Some,
        json::as_text(json::under2(m, "describe"@, "error"@)) is Some,
        json::as_text(json::under2(m, "extract"@, "error"@)) is Some,
    ensures
        rows_of(m).len() == 7,
        rows_of(m)[0].0 == "Taken"@,
        rows_of(m)[1].0 == "Camera"@,
        rows_of(m)[2].0 == "Location"@,
        rows_of(m)[3].0 == "File"@,
        rows_of(m)[4].0 == "Size"@,
        rows_of(m)[5].0 == "Reading"@,
        rows_of(m)[6].0 == "Extraction"@,
{
}

/// A place is its latitude and its longitude, and a size its width and its
/// height; neither is half said.
pub proof fn neither_place_nor_size_is_half_said(
    m: Json,
    gps: Json,
    lat: Seq<char>,
    lon: Seq<char>,
    w: u64,
    h: u64,
)
    ensures
        json::under2(m, "exif"@, "gps"@) == Some(gps) && json::as_shown(json::under(gps, "lat"@))
            == Some(lat) && json::as_shown(json::under(gps, "lon"@)) == Some(lon) ==> location(m)
            == Some(lat + ", "@ + lon),
        json::under2(m, "exif"@, "gps"@) is None ==> location(m) is None,
        json::under2(m, "exif"@, "gps"@) == Some(gps) && (json::as_shown(json::under(gps, "lat"@))
            is None || json::as_shown(json::under(gps, "lon"@)) is None) ==> location(m) is None,
        json::as_whole(json::under2(m, "file"@, "width"@)) == Some(w) && json::as_whole(
            json::under2(m, "file"@, "height"@),
        ) == Some(h) ==> size(m) == Some(
            text::decimal(w as nat) + "×"@ + text::decimal(h as nat),
        ),
        json::as_whole(json::under2(m, "file"@, "width"@)) is None || json::as_whole(
            json::under2(m, "file"@, "height"@),
        ) is None ==> size(m) is None,
{
}

/// Every other tag that is a text is a row under its name, and what is no text
/// is none.
pub proof fn every_other_tag_has_its_row(m: Json, members: Vec<(String, Json)>)
    ensures
        json::under2(m, "exif"@, "tags"@) == Some(Json::Object(members)) ==> tags_of(m)
            == members@.filter(|e: (String, Json)| e.1 is Text).map_values(
            |e: (String, Json)| (e.0@, e.1->Text_0@),
        ),
        !(json::under2(m, "exif"@, "tags"@) is Some && json::under2(m, "exif"@, "tags"@)->0
            is Object) ==> tags_of(m).len() == 0,
{
    text_members_are(members@);
}

/// The members that are texts are those of them that are, in order.
proof fn text_members_are(members: Seq<(String, Json)>)
    ensures
        text_members(members) == members.filter(|e: (String, Json)| e.1 is Text).map_values(
            |e: (String, Json)| (e.0@, e.1->Text_0@),
        ),
    decreases members.len(),
{
    reveal(Seq::filter);
    let p = |e: (String, Json)| e.1 is Text;
    let f = |e: (String, Json)| (e.0@, e.1->Text_0@);
    if members.len() > 0 {
        text_members_are(members.drop_last());
    }
    assert(text_members(members) =~= members.filter(p).map_values(f));
}

/// Of what claims a band, each is carded there the first time it is met, and
/// pointed up at every time after that: nothing is left out and nothing is
/// both at once.
pub proof fn what_is_not_carded_is_pointed_at(up: Set<Seq<char>>, ids: Seq<Seq<char>>)
    ensures
        fresh(up, ids).len() + stale(up, ids).len() == ids.len(),
        forall|id: Seq<char>| #[trigger]
            stale(up, ids).contains(id) <==> (ids.contains(id) && up.contains(id)) || exists|
                i: int,
                j: int,
            |
                0 <= j < i < ids.len() && #[trigger] ids[j] == id && #[trigger] ids[i] == id,
    decreases ids.len(),
{
    if ids.len() > 0 {
        let less = ids.drop_last();
        let last = ids.last();
        let n = ids.len() - 1;
        what_is_not_carded_is_pointed_at(up, less);
        assert(ids[n] == last);
        assert forall|id: Seq<char>| #[trigger] stale(up, ids).contains(id) <==> (ids.contains(id)
            && up.contains(id)) || exists|i: int, j: int|
            0 <= j < i < ids.len() && #[trigger] ids[j] == id && #[trigger] ids[i] == id by {
            let before = stale(up, less);
            let after = stale(up, ids);
            let twice_before = exists|i: int, j: int|
                0 <= j < i < less.len() && #[trigger] less[j] == id && #[trigger] less[i] == id;
            let twice = exists|i: int, j: int|
                0 <= j < i < ids.len() && #[trigger] ids[j] == id && #[trigger] ids[i] == id;
            assert(before.contains(id) <==> (less.contains(id) && up.contains(id)) || twice_before);
            let again = up.contains(last) || less.contains(last);
            // What is pointed at.
            if after.contains(id) {
                let k = choose|k: int| 0 <= k < after.len() && after[k] == id;
                if again && k == before.len() {
                    assert(id == last);
                    if less.contains(last) {
                        let j = choose|j: int| 0 <= j < less.len() && less[j] == last;
                        assert(ids[j] == id && ids[n] == id);
                    }
                    assert(ids.contains(id));
                } else {
                    assert(before[k] == id);
                    assert(before.contains(id));
                }
            }
            if before.contains(id) {
                let k = choose|k: int| 0 <= k < before.len() && before[k] == id;
                assert(after[k] == id);
                if less.contains(id) {
                    let j = choose|j: int| 0 <= j < less.len() && less[j] == id;
                    assert(ids[j] == id);
                }
            }
            if twice_before {
                let (i, j) = choose|i: int, j: int|
                    0 <= j < i < less.len() && #[trigger] less[j] == id && #[trigger] less[i] == id;
                assert(ids[j] == id && ids[i] == id);
            }
            // What stands in the run.
            if ids.contains(id) && up.contains(id) {
                let i = choose|i: int| 0 <= i < ids.len() && ids[i] == id;
                if i < n {
                    assert(less[i] == id);
                } else {
                    assert(after[before.len() as int] == id);
                }
            }
            if twice {
                let (i, j) = choose|i: int, j: int|
                    0 <= j < i < ids.len() && #[trigger] ids[j] == id && #[trigger] ids[i] == id;
                assert(less[j] == id);
                if i < n {
                    assert(less[i] == id);
                } else {
                    assert(after[before.len() as int] == id);
                }
            }
        }
    }
}

/// An artifact is found by its id: what is found has that id and is the last
/// that has, and nothing is found exactly where none has.
pub proof fn an_artifact_is_found_by_its_id(chunks: Seq<Chunk>, id: Seq<char>)
    ensures
        found(chunks, id) is None <==> forall|i: int|
            0 <= i < chunks.len() ==> (#[trigger] chunks[i]).id@ != id,
        found(chunks, id) matches Some(c) ==> c.id@ == id && exists|i: int|
            0 <= i < chunks.len() && #[trigger] chunks[i] == c && (forall|j: int|
                i < j < chunks.len() ==> (#[trigger] chunks[j]).id@ != id),
    decreases chunks.len(),
{
    if chunks.len() > 0 {
        let less = chunks.drop_last();
        let n = chunks.len() - 1;
        assert(chunks[n] == chunks.last());
        if chunks.last().id@ != id {
            an_artifact_is_found_by_its_id(less, id);
            assert forall|i: int| 0 <= i < less.len() implies #[trigger] chunks[i] == less[i] by {}
            if found(less, id) is Some {
                let c = found(less, id)->0;
                let i = choose|i: int|
                    0 <= i < less.len() && #[trigger] less[i] == c && (forall|j: int|
                        i < j < less.len() ==> (#[trigger] less[j]).id@ != id);
                assert(chunks[i] == c);
                assert forall|j: int| i < j < chunks.len() implies (#[trigger] chunks[j]).id@
                    != id by {
                    if j < n {
                        assert(less[j] == chunks[j]);
                    }
                }
            } else {
                assert forall|i: int| 0 <= i < chunks.len() implies (#[trigger] chunks[i]).id@
                    != id by {
                    if i < n {
                        assert(less[i] == chunks[i]);
                    }
                }
            }
        }
    }
}

/// A band on the page shows its lines, and beside them a card of each artifact
/// that is new there and a link up to each that is not, by name.
pub proof fn a_band_shows_what_came_of_it(
    v: BandView,
    cut: Seq<Band>,
    k: int,
    chunks: Seq<Chunk>,
    segments: Seq<Segment>,
    known: bool,
    i: int,
)
    requires
        0 <= k < cut.len(),
        is_view(v, cut, k, chunks, segments, known),
    ensures
        v.from == cut[k].from,
        v.to == cut[k].to,
        v.lines@ == cut[k].lines@,
        v.gap <==> cut[k].artifact_ids@.len() == 0 && known,
        text::text_of(v.reread) == offer(
            cut[k].artifact_ids@.len() == 0,
            cut[k].from as int,
            cut[k].to as int,
            segments,
            known,
        ),
        ({
            let new = fresh(seen(cut, k), text::texts(cut[k].artifact_ids@));
            let old_ones = stale(seen(cut, k), text::texts(cut[k].artifact_ids@));
            &&& v.artifacts@.len() == new.len()
            &&& v.echoes@.len() == old_ones.len()
            &&& 0 <= i < new.len() ==> ({
                &&& found(chunks, new[i]) matches Some(c)
                &&& v.artifacts@[i].id@ == new[i]
                &&& artifact::is_card(v.artifacts@[i], c)
            })
            &&& 0 <= i < old_ones.len() ==> ({
                &&& found(chunks, old_ones[i]) matches Some(c)
                &&& v.echoes@[i].id@ == old_ones[i]
                &&& artifact::labels(v.echoes@[i].label@, v.echoes@[i].named, c)
            })
        }),
{
    let new = fresh(seen(cut, k), text::texts(cut[k].artifact_ids@));
    let old_ones = stale(seen(cut, k), text::texts(cut[k].artifact_ids@));
    if 0 <= i < new.len() {
        let _ = v.artifacts@[i];
        an_artifact_is_found_by_its_id(chunks, new[i]);
    }
    if 0 <= i < old_ones.len() {
        let _ = v.echoes@[i];
        an_artifact_is_found_by_its_id(chunks, old_ones[i]);
    }
}

/// The lines asked for are marked from the first to the last, one line where
/// only the first is named, and none where that is not.
pub proof fn the_lines_asked_for_are_marked(range: LineRange)
    ensures
        range.from is None ==> highlighted(range) is None,
        range.from matches Some(f) ==> (range.to matches Some(t) ==> highlighted(range) == Some(
            (f, t),
        )),
        range.from matches Some(f) ==> (range.to is None ==> highlighted(range) == Some((f, f))),
{
}

/// A picture or a PDF has not been read while that is being done, and where
/// nothing came of it; any other source is its own text.
pub proof fn only_a_file_can_be_unread(s: Corpus)
    ensures
        s.origin@ == "image"@ ==> (is_unread(s) <==> s.status is Describing || text::blank(
            s.raw_text@,
        )),
        s.origin@ == "pdf"@ ==> (is_unread(s) <==> s.status is Extracting || text::blank(
            s.raw_text@,
        )),
        s.origin@ != "image"@ && s.origin@ != "pdf"@ ==> !is_unread(s),
{
    reveal_strlit("image");
    reveal_strlit("pdf");
    assert("image"@.len() != "pdf"@.len());
}

/// How much of a source survived is said in percent where it is known and
/// anything was written of it: passages alone are the source itself.
pub proof fn coverage_is_said_in_percent(s: Corpus, chunks: Seq<Chunk>)
    ensures
        s.coverage is None ==> coverage_words(s, chunks) is None,
        (forall|i: int| 0 <= i < chunks.len() ==> (#[trigger] chunks[i]).provenance is Passage)
            ==> coverage_words(s, chunks) is None,
        (exists|i: int|
            0 <= i < chunks.len() && !((#[trigger] chunks[i]).provenance is Passage)) ==> (
        s.coverage matches Some(c) ==> coverage_words(s, chunks) == Some(
            text::decimal(c as nat) + "%"@,
        )),
{
    if exists|i: int| 0 <= i < chunks.len() && !((#[trigger] chunks[i]).provenance is Passage) {
        let i = choose|i: int|
            0 <= i < chunks.len() && !((#[trigger] chunks[i]).provenance is Passage);
        assert(chunks[i].provenance != Provenance::Passage);
    }
}

/// A window was promoted where it is done and a passage of it was taken the
/// place of; those windows are listed, in order.
pub proof fn a_window_is_promoted_by_its_passages(
    w: Segment,
    segments: Seq<Segment>,
    chunks: Seq<Chunk>,
)
    ensures
        is_promoted(w, chunks) <==> w.state is Done && exists|i: int|
            0 <= i < chunks.len() && (#[trigger] chunks[i]).segment_idx == Some(w.idx)
                && chunks[i].provenance is Passage && chunks[i].superseded_by is Some,
        promoted_windows(segments, chunks) == segments.filter(
            |w: Segment| is_promoted(w, chunks),
        ),
{
}

/// What is still returned is what is active and has not been taken the place
/// of, in order.
pub proof fn what_is_still_returned_is_active(chunks: Seq<Chunk>)
    ensures
        still_returned(chunks) == chunks.filter(
            |c: Chunk| c.status is Active && c.superseded_by is None,
        ),
{
    let p = |c: Chunk| c.is_in_results();
    let q = |c: Chunk| c.status is Active && c.superseded_by is None;
    assert(p =~= q);
}

/// The page of a source shows the source, and what came of it.
pub proof fn a_source_is_shown_as_it_is(
    t: CorpusTemplate,
    s: Corpus,
    chunks: Seq<Chunk>,
    segments: Seq<Segment>,
    originating: Seq<Chunk>,
    range: LineRange,
)
    requires
        is_page(t, s, chunks, segments, originating, range),
    ensures
        t.id@ == s.id@,
        t.title@ == s.label@,
        t.raw_text@ == s.raw_text@,
        t.lines_empty <==> text::blank(s.raw_text@),
        t.restored <==> s.restored_at is Some,
        t.source_url == s.source_url,
        t.image <==> s.origin@ == "image"@,
        t.pdf <==> s.origin@ == "pdf"@,
        t.unread == is_unread(s),
        s.status is Ready ==> t.status@ == "ready"@,
        s.status is Partial ==> t.status@ == "partial"@,
        s.status is Failed ==> t.status@ == "failed"@,
        s.status is Raw ==> t.status@ == "raw"@,
        s.status is Describing ==> t.status@ == "describing"@,
        s.status is Extracting ==> t.status@ == "extracting"@,
        s.status is Segmenting ==> t.status@ == "segmenting"@,
        text::text_of(t.note) == json::as_text(json::under(s.metadata, "note"@)),
        text::text_of(t.coverage) == coverage_words(s, chunks),
        pairs(t.meta_rows@) == rows_of(s.metadata),
        pairs(t.exif_rows@).to_multiset() == tags_of(s.metadata).to_multiset(),
        forall|i: int, j: int|
            0 <= i < j < t.exif_rows@.len() ==> text::at_most(
                #[trigger] pairs(t.exif_rows@)[i].0,
                #[trigger] pairs(t.exif_rows@)[j].0,
            ),
        s.restored_at is Some ==> t.bands@.len() == 0,
        s.restored_at is None ==> exists|cut: Seq<Band>|
            #[trigger] corpus_view::is_cut(
                cut,
                text::lines(s.raw_text@),
                placed(chunks),
                highlighted(range),
                text::lines(s.raw_text@).len() as int,
            ) && t.bands@.len() == cut.len() && (forall|k: int|
                0 <= k < cut.len() ==> is_view(
                    #[trigger] t.bands@[k],
                    cut,
                    k,
                    chunks,
                    segments,
                    losses_final(s.status, segments, chunks, false),
                )),
        artifact::are_cards(t.unplaced@, unplaced(chunks, s.restored_at is Some)),
        artifact::are_cards(t.written_from@, still_returned(originating)),
        t.promoted@.len() == promoted_windows(segments, chunks).len(),
        forall|i: int|
            0 <= i < t.promoted@.len() ==> {
                &&& (#[trigger] t.promoted@[i]).idx == promoted_windows(segments, chunks)[i].idx
                &&& t.promoted@[i].from == promoted_windows(segments, chunks)[i].start_line
                &&& t.promoted@[i].to == promoted_windows(segments, chunks)[i].end_line
            },
{
    assert(pairs(t.exif_rows@).len() == t.exif_rows@.len());
}

/// A source is at its own address, and a band of it at its first line.
pub proof fn a_source_is_at_its_address(id: &str, form: &RereadForm, source: String, band: String)
    requires
        call_ensures(corpus_address, (id,), source),
        call_ensures(band_address, (id, form), band),
    ensures
        source@ == "/ui/corpora/"@ + id@,
        band@ == source@ + "#L"@ + text::signed(form.from as int),
{
}

/// The page that is made is of the source that was read.
pub proof fn a_page_is_of_the_source_read(
    s: &Corpus,
    chunks: &[Chunk],
    segments: &[Segment],
    originating: &[Chunk],
    range: &LineRange,
    t: CorpusTemplate,
)
    requires
        call_ensures(corpus_detail, (s, chunks, segments, originating, range), t),
        text::lines(s.raw_text@).len() <= i64::MAX,
    ensures
        t.id@ == s.id@,
        t.title@ == s.label@,
        t.raw_text@ == s.raw_text@,
        t.restored <==> s.restored_at is Some,
        t.source_url == s.source_url,
        t.written_from@.len() == still_returned(originating@).len(),
        t.unplaced@.len() == unplaced(chunks@, s.restored_at is Some).len(),
{
}

/// What is read again is nothing where there is nothing to read again, and
/// never a window that is being read already.
pub proof fn what_is_being_read_is_not_read_again(
    s: &Corpus,
    chunks: &[Chunk],
    segments: &[Segment],
    live: &[i64],
    form: &RereadForm,
    r: Vec<i64>,
)
    requires
        call_ensures(reread, (s, chunks, segments, live, form), r),
        text::lines(s.raw_text@).len() <= i64::MAX,
    ensures
        s.restored_at is Some ==> r@.len() == 0,
        !(s.status is Ready || s.status is Partial || s.status is Failed) ==> r@.len() == 0,
        forall|i: int| 0 <= i < r@.len() ==> !live@.contains(#[trigger] r@[i]),
{
    if !nothing_to_reread(*s, chunks@) {
        let cut = choose|cut: Seq<Band>|
            #[trigger] corpus_view::is_cut(
                cut,
                text::lines(s.raw_text@),
                placed(chunks@),
                None,
                text::lines(s.raw_text@).len() as int,
            ) && r@ == to_read_again(segments@, cut, live@, form.from as int, form.to as int);
        assert forall|i: int| 0 <= i < r@.len() implies !live@.contains(#[trigger] r@[i]) by {
            only_a_loss_is_read_again(
                segments@,
                cut,
                live@,
                form.from as int,
                form.to as int,
                r@[i],
            );
            assert(r@.contains(r@[i]));
        }
    }
}

} // verus!
