//! One day of the base: what was written as an entry, what was captured, what
//! was due, what refers to it, and the sittings.

use crate::artifact;
use crate::artifact::row_label;
use crate::corpus;
use crate::json;
use crate::json::text_in;
use crate::links::same_origin_path;
use crate::records::{
    Capture, Chunk, Corpus, DueRow, Error, Kind, ORIGIN_JOURNAL, ORIGIN_WEB,
};
use crate::text;
use crate::text::{copy_opt, is_blank, same};
use crate::zones;
use crate::zones::{
    bounds, day_at, hm, iso_of, long_of, next_day, previous_day, read_day, short_of, zone, Zone,
    EPOCH_DAY, FIRST_DAY, ISO_DAY, LAST_DAY, LONG_DAY, SHORT_DAY,
};
use vstd::prelude::*;

verus! {

/// One row of the page.
pub struct Line {
    pub id: String,
    pub href: String,
    pub label: String,
    pub when: String,
    pub detail: String,
}

/// One artifact a sitting opened, as the row links to it.
pub struct Opened {
    pub id: String,
    pub label: String,
    /// Whether `label` is a name somebody gave it.
    pub named: bool,
}

/// A sitting, as the page shows it.
pub struct Sitting {
    pub span: String,
    pub query: String,
    pub searches: usize,
    pub opened: Vec<Opened>,
}

/// The page.
pub struct DayTemplate {
    pub date: String,
    pub prev: String,
    pub next: String,
    /// What the two arrows say out loud.
    pub prev_label: String,
    pub next_label: String,
    pub tz: String,
    pub heading: String,
    pub entries: Vec<Line>,
    pub captured: Vec<Line>,
    pub was_due: Vec<Line>,
    pub refers: Vec<Line>,
    pub sittings: Vec<Sitting>,
}

impl DayTemplate {
    /// Which entry of the top row is current: none, since a day hangs off no
    /// section.
    pub fn section(&self) -> (r: &'static str)
        ensures
            r@.len() == 0,
    {
        proof {
            reveal_strlit("");
        }
        ""
    }

    /// Whether there is nothing on this day.
    pub open spec fn has_nothing(self) -> bool {
        self.entries@.len() == 0 && self.captured@.len() == 0 && self.was_due@.len() == 0
            && self.refers@.len() == 0 && self.sittings@.len() == 0
    }

    /// Whether there is nothing on this day.
    pub fn is_empty(&self) -> (r: bool)
        ensures
            r == self.has_nothing(),
    {
        self.entries.len() == 0 && self.captured.len() == 0 && self.was_due.len() == 0
            && self.refers.len() == 0 && self.sittings.len() == 0
    }
}

/// One day, as facts: ids, instants and labels, and nothing that belongs to a
/// rendering.
pub struct Day {
    pub date: String,
    pub tz: String,
    /// The day's instants in `tz`, the last one left out.
    pub from: i64,
    pub to: i64,
    pub entries: Vec<DayCorpus>,
    pub captured: Vec<DayCorpus>,
    pub was_due: Vec<DayMoment>,
    pub refers: Vec<DayMoment>,
    pub sittings: Vec<DaySitting>,
}

/// One capture of a day.
pub struct DayCorpus {
    pub id: String,
    pub label: String,
    /// Whether `label` is a name somebody gave it.
    pub named: bool,
    pub at: i64,
    /// The whole text of an entry, which is read on the day's page. Empty on a
    /// captured row, which is a link to a document that may be a book.
    pub text: String,
}

/// One moment of a day.
pub struct DayMoment {
    pub id: String,
    pub artifact_id: String,
    pub label: String,
    /// Whether `label` is a name somebody gave the artifact.
    pub named: bool,
    pub kind: Kind,
    /// None for a reminder with no time of its own.
    pub at: Option<i64>,
    pub done: bool,
    pub span: Option<String>,
}

/// One sitting of a day.
pub struct DaySitting {
    pub opened_at: i64,
    pub closed_at: i64,
    pub query: String,
    pub searches: usize,
    pub opened: Vec<Opened>,
}

/// A run of searches that went after one thing, as the store keeps it.
pub struct Pursuit {
    pub opened_at: i64,
    pub closed_at: Option<i64>,
    pub queries: Vec<String>,
    /// The ids of the artifacts it opened.
    pub sources: Vec<String>,
}

/// Which day was asked for.
pub struct WhichDay {
    pub day: i32,
    /// The day as an address has it, however it was spelled.
    pub date: String,
    pub from: i64,
    pub to: i64,
}

/// Which day a text asks for in a zone: none where it names no day, or one
/// whose end there is no day for.
pub open spec fn day_asked(date: Seq<char>, zone: Seq<char>) -> Option<(int, int, int)> {
    match zones::day_read(date) {
        Some(day) => match zones::bounds_of(zone, day) {
            Some((from, to)) => Some((day, from, to)),
            None => None,
        },
        None => None,
    }
}

/// Which day a text asks for in a zone. A date that is not one is not found,
/// and one that is spelled leniently is the day it names: what is compared and
/// sent back is the one spelling an entry is filed under.
pub fn which_day(date: &str, tz: &Zone) -> (r: Result<WhichDay, Error>)
    ensures
        match day_asked(date@, tz.name@) {
            Some((day, from, to)) => {
                &&& r matches Ok(d)
                &&& d.day == day
                &&& FIRST_DAY <= d.day < LAST_DAY
                &&& d.from == from
                &&& d.to == to
                &&& d.from < d.to
                &&& d.date@ == zones::day_written(day, ISO_DAY@)
                &&& zones::day_read(d.date@) == Some(day)
            },
            None => r matches Err(Error::NotFound),
        },
{
    match read_day(date) {
        Some(day) => match bounds(day, tz) {
            Some((from, to)) => Ok(WhichDay { day, date: iso_of(day), from, to }),
            None => Err(Error::NotFound),
        },
        None => Err(Error::NotFound),
    }
}

// ---------------------------------------------------------------------------
// What happened
// ---------------------------------------------------------------------------

/// Whether one of the captures goes by `id`.
pub open spec fn has_corpus(corpora: Seq<Corpus>, id: Seq<char>) -> bool {
    exists|i: int| 0 <= i < corpora.len() && (#[trigger] corpora[i]).id@ == id
}

/// The captures made on a day, and after them those that name it and are not
/// among the former, each once.
pub open spec fn gathered(between: Seq<Corpus>, by_day: Seq<Corpus>) -> Seq<Corpus>
    decreases by_day.len(),
{
    if by_day.len() == 0 {
        between
    } else {
        let front = gathered(between, by_day.drop_last());
        if has_corpus(front, by_day.last().id@) {
            front
        } else {
            front.push(by_day.last())
        }
    }
}

/// Whether a capture belongs to a day: it does not name another.
pub open spec fn belongs(c: Corpus, date: Seq<char>) -> bool {
    match json::as_text(json::under(c.metadata, "day"@)) {
        Some(d) => d == date,
        None => true,
    }
}

/// Whether a capture was written as an entry.
pub open spec fn is_entry(c: Corpus) -> bool {
    c.origin@ == ORIGIN_JOURNAL@
}

/// The captures of a day, its entries or the others.
pub open spec fn of_day(corpora: Seq<Corpus>, date: Seq<char>, entries: bool) -> Seq<Corpus> {
    corpora.filter(|c: Corpus| belongs(c, date) && is_entry(c) == entries)
}

/// `r` is the row of the capture `c`: the text of an entry, and never that of
/// anything else.
pub open spec fn is_row(r: DayCorpus, c: Corpus) -> bool {
    &&& r.id@ == c.id@
    &&& r.label@ == c.label@
    &&& r.named == (c.title_hint is Some)
    &&& r.at == c.created_at
    &&& r.text@ == (if is_entry(c) {
        c.raw_text@
    } else {
        Seq::empty()
    })
}

/// `r` is the rows of the captures `c`, in order.
pub open spec fn are_rows(r: Seq<DayCorpus>, c: Seq<Corpus>) -> bool {
    &&& r.len() == c.len()
    &&& forall|i: int| 0 <= i < r.len() ==> is_row(#[trigger] r[i], c[i])
}

/// The moments of a kind.
pub open spec fn of_kind(moments: Seq<DueRow>, kind: Kind) -> Seq<DueRow> {
    moments.filter(|m: DueRow| m.moment.kind == kind)
}

/// `r` is the row of the moment `m`.
pub open spec fn is_moment(r: DayMoment, m: DueRow) -> bool {
    &&& r.id@ == m.moment.id@
    &&& r.artifact_id@ == m.moment.artifact_id@
    &&& r.label@ == m.title@
    &&& r.named == m.named
    &&& r.kind == m.moment.kind
    &&& r.at == m.moment.at
    &&& r.done == (m.moment.done_at is Some)
    &&& text::text_of(r.span) == text::text_of(m.moment.span)
}

/// `r` is the rows of the moments `m`, in order.
pub open spec fn are_moments(r: Seq<DayMoment>, m: Seq<DueRow>) -> bool {
    &&& r.len() == m.len()
    &&& forall|i: int| 0 <= i < r.len() ==> is_moment(#[trigger] r[i], m[i])
}

/// When a sitting ended: when it was closed, and where it was not when it was
/// opened.
pub open spec fn end_of(p: Pursuit) -> int {
    match p.closed_at {
        Some(t) => t as int,
        None => p.opened_at as int,
    }
}

/// Whether a search made at `at` belongs to a sitting: it falls between its
/// ends, the last of which is at least a second after the first.
pub open spec fn in_sitting(p: Pursuit, at: int) -> bool {
    p.opened_at <= at && at <= (if end_of(p) > p.opened_at + 1 {
        end_of(p)
    } else {
        p.opened_at + 1
    })
}

/// How many of the searches belong to a sitting.
pub open spec fn searches_in(p: Pursuit, searches: Seq<i64>) -> nat
    decreases searches.len(),
{
    if searches.len() == 0 {
        0
    } else {
        searches_in(p, searches.drop_last()) + (if in_sitting(p, searches.last() as int) {
            1nat
        } else {
            0nat
        })
    }
}

/// How many searches a sitting is said to hold: those recorded in it, and no
/// fewer than the questions it kept.
pub open spec fn searches_of(p: Pursuit, searches: Seq<i64>) -> nat {
    if searches_in(p, searches) < p.queries@.len() {
        p.queries@.len()
    } else {
        searches_in(p, searches)
    }
}

/// Those of the ids that name an artifact there still is.
pub open spec fn still_there(ids: Seq<Seq<char>>, artifacts: Seq<Chunk>) -> Seq<Seq<char>> {
    ids.filter(|id: Seq<char>| corpus::found(artifacts, id) is Some)
}

/// `o` is the link to the artifact that goes by `id`.
pub open spec fn is_opened(o: Opened, id: Seq<char>, artifacts: Seq<Chunk>) -> bool {
    &&& o.id@ == id
    &&& corpus::found(artifacts, id) matches Some(c) && artifact::labels(o.label@, o.named, c)
}

/// `o` is the links to the artifacts that go by `ids`, those left out that are
/// gone.
pub open spec fn are_opened(o: Seq<Opened>, ids: Seq<Seq<char>>, artifacts: Seq<Chunk>) -> bool {
    &&& o.len() == still_there(ids, artifacts).len()
    &&& forall|i: int|
        0 <= i < o.len() ==> is_opened(#[trigger] o[i], still_there(ids, artifacts)[i], artifacts)
}

/// `s` is the sitting `p`.
pub open spec fn is_sitting(
    s: DaySitting,
    p: Pursuit,
    searches: Seq<i64>,
    artifacts: Seq<Chunk>,
) -> bool {
    &&& s.opened_at == p.opened_at
    &&& s.closed_at == end_of(p)
    &&& s.query@ == (if p.queries@.len() > 0 {
        p.queries@[0]@
    } else {
        Seq::empty()
    })
    &&& s.searches == searches_of(p, searches)
    &&& are_opened(s.opened@, text::texts(p.sources@), artifacts)
}

/// `s` is the sittings `p`, in order.
pub open spec fn are_sittings(
    s: Seq<DaySitting>,
    p: Seq<Pursuit>,
    searches: Seq<i64>,
    artifacts: Seq<Chunk>,
) -> bool {
    &&& s.len() == p.len()
    &&& forall|i: int| 0 <= i < s.len() ==> is_sitting(#[trigger] s[i], p[i], searches, artifacts)
}

/// The row of a capture.
fn row_of(c: &Corpus, journal: bool) -> (r: DayCorpus)
    requires
        journal == is_entry(*c),
    ensures
        is_row(r, *c),
{
    DayCorpus {
        id: c.id.clone(),
        label: c.label.clone(),
        named: c.title_hint.is_some(),
        at: c.created_at,
        text: if journal {
            c.raw_text.clone()
        } else {
            String::new()
        },
    }
}

/// What borrowed captures are.
pub open spec fn these(v: Seq<&Corpus>) -> Seq<Corpus> {
    v.map_values(|c: &Corpus| *c)
}

/// Whether one of the captures goes by `id`.
fn holds_corpus(corpora: &[&Corpus], id: &str) -> (r: bool)
    ensures
        r == has_corpus(these(corpora@), id@),
{
    let mut i: usize = 0;
    while i < corpora.len()
        invariant
            i <= corpora@.len(),
            forall|j: int| 0 <= j < i ==> (#[trigger] corpora@[j]).id@ != id@,
        decreases corpora.len() - i,
    {
        if same(corpora[i].id.as_str(), id) {
            assert(these(corpora@)[i as int].id@ == id@);
            return true;
        }
        i = i + 1;
    }
    assert forall|j: int| 0 <= j < these(corpora@).len() implies (#[trigger] these(
        corpora@,
    )[j]).id@ != id@ by {
        assert(corpora@[j].id@ != id@);
    }
    false
}

/// The captures made on a day, and after them those that name it.
fn gather<'a>(between: &'a [Corpus], by_day: &'a [Corpus]) -> (r: Vec<&'a Corpus>)
    ensures
        these(r@) == gathered(between@, by_day@),
{
    let mut all: Vec<&Corpus> = Vec::new();
    let mut i: usize = 0;
    while i < between.len()
        invariant
            i <= between@.len(),
            these(all@) == between@.take(i as int),
        decreases between.len() - i,
    {
        let ghost before = all@;
        all.push(&between[i]);
        proof {
            assert(these(all@) =~= these(before).push(between@[i as int]));
            assert(between@.take(i + 1) =~= between@.take(i as int).push(between@[i as int]));
        }
        i = i + 1;
    }
    assert(between@.take(between@.len() as int) =~= between@);
    let mut i: usize = 0;
    assert(by_day@.take(0) =~= Seq::empty());
    while i < by_day.len()
        invariant
            i <= by_day@.len(),
            these(all@) == gathered(between@, by_day@.take(i as int)),
        decreases by_day.len() - i,
    {
        proof {
            assert(by_day@.take(i + 1).drop_last() =~= by_day@.take(i as int));
            assert(by_day@.take(i + 1).last() == by_day@[i as int]);
        }
        if !holds_corpus(all.as_slice(), by_day[i].id.as_str()) {
            let ghost before = all@;
            all.push(&by_day[i]);
            assert(these(all@) =~= these(before).push(by_day@[i as int]));
        }
        i = i + 1;
    }
    assert(by_day@.take(by_day@.len() as int) =~= by_day@);
    all
}

/// The rows of the captures of a day: its entries, and the others.
fn corpus_rows(corpora: &[&Corpus], date: &str) -> (r: (Vec<DayCorpus>, Vec<DayCorpus>))
    ensures
        are_rows(r.0@, of_day(these(corpora@), date@, true)),
        are_rows(r.1@, of_day(these(corpora@), date@, false)),
{
    reveal(Seq::filter);
    let ghost all = these(corpora@);
    let mut entries: Vec<DayCorpus> = Vec::new();
    let mut captured: Vec<DayCorpus> = Vec::new();
    let mut i: usize = 0;
    while i < corpora.len()
        invariant
            i <= corpora@.len(),
            all == these(corpora@),
            are_rows(entries@, of_day(all.take(i as int), date@, true)),
            are_rows(captured@, of_day(all.take(i as int), date@, false)),
        decreases corpora.len() - i,
    {
        reveal(Seq::filter);
        proof {
            assert(all.take(i + 1).drop_last() =~= all.take(i as int));
            assert(all.take(i + 1).last() == *corpora@[i as int]);
        }
        let c = corpora[i];
        let elsewhere = match text_in(c.metadata.get("day")) {
            Some(d) => !same(d.as_str(), date),
            None => false,
        };
        assert(elsewhere == !belongs(*c, date@));
        if !elsewhere {
            let journal = same(c.origin.as_str(), ORIGIN_JOURNAL);
            let row = row_of(c, journal);
            if journal {
                entries.push(row);
            } else {
                captured.push(row);
            }
        }
        i = i + 1;
    }
    assert(all.take(all.len() as int) =~= all);
    (entries, captured)
}

/// The rows of the moments of a day: what was due, and what refers to it.
fn moment_rows(moments: &[DueRow]) -> (r: (Vec<DayMoment>, Vec<DayMoment>))
    ensures
        are_moments(r.0@, of_kind(moments@, Kind::Due)),
        are_moments(r.1@, of_kind(moments@, Kind::Event)),
{
    reveal(Seq::filter);
    let mut was_due: Vec<DayMoment> = Vec::new();
    let mut refers: Vec<DayMoment> = Vec::new();
    let mut i: usize = 0;
    while i < moments.len()
        invariant
            i <= moments@.len(),
            are_moments(was_due@, of_kind(moments@.take(i as int), Kind::Due)),
            are_moments(refers@, of_kind(moments@.take(i as int), Kind::Event)),
        decreases moments.len() - i,
    {
        reveal(Seq::filter);
        assert(moments@.take(i + 1).drop_last() =~= moments@.take(i as int));
        let m = &moments[i];
        let row = DayMoment {
            id: m.moment.id.clone(),
            artifact_id: m.moment.artifact_id.clone(),
            label: m.title.clone(),
            named: m.named,
            kind: m.moment.kind,
            at: m.moment.at,
            done: m.moment.done_at.is_some(),
            span: copy_opt(&m.moment.span),
        };
        match m.moment.kind {
            Kind::Due => {
                was_due.push(row);
            },
            Kind::Event => {
                refers.push(row);
            },
        }
        i = i + 1;
    }
    assert(moments@.take(moments@.len() as int) =~= moments@);
    (was_due, refers)
}

/// How many of the searches belong to a sitting.
fn count_searches(p: &Pursuit, searches: &[i64]) -> (n: usize)
    requires
        p.opened_at < i64::MAX,
    ensures
        n == searches_in(*p, searches@),
{
    let end: i64 = match p.closed_at {
        Some(t) => t,
        None => p.opened_at,
    };
    let soonest: i64 = p.opened_at + 1;
    let last: i64 = if end > soonest {
        end
    } else {
        soonest
    };
    let mut n: usize = 0;
    let mut i: usize = 0;
    assert(searches@.take(0) =~= Seq::empty());
    while i < searches.len()
        invariant
            i <= searches@.len(),
            n <= i,
            last == (if end_of(*p) > p.opened_at + 1 {
                end_of(*p)
            } else {
                p.opened_at + 1
            }),
            n == searches_in(*p, searches@.take(i as int)),
        decreases searches.len() - i,
    {
        proof {
            assert(searches@.take(i + 1).drop_last() =~= searches@.take(i as int));
            assert(searches@.take(i + 1).last() == searches@[i as int]);
        }
        if p.opened_at <= searches[i] && searches[i] <= last {
            n = n + 1;
        }
        i = i + 1;
    }
    assert(searches@.take(searches@.len() as int) =~= searches@);
    n
}

/// The artifact that goes by `id`, where there is one.
fn seek<'a>(artifacts: &'a [Chunk], id: &str) -> (r: Option<&'a Chunk>)
    ensures
        match r {
            Some(c) => corpus::found(artifacts@, id@) == Some(*c),
            None => corpus::found(artifacts@, id@) is None,
        },
{
    let mut i: usize = artifacts.len();
    assert(artifacts@.take(artifacts@.len() as int) =~= artifacts@);
    while i > 0
        invariant
            i <= artifacts@.len(),
            corpus::found(artifacts@.take(i as int), id@) == corpus::found(artifacts@, id@),
        decreases i,
    {
        assert(artifacts@.take(i as int).drop_last() =~= artifacts@.take(i - 1));
        if same(artifacts[i - 1].id.as_str(), id) {
            return Some(&artifacts[i - 1]);
        }
        i = i - 1;
    }
    None
}

/// The links to the artifacts that go by `ids`, those left out that are gone.
fn opened_of(ids: &[String], artifacts: &[Chunk]) -> (r: Vec<Opened>)
    ensures
        are_opened(r@, text::texts(ids@), artifacts@),
{
    reveal(Seq::filter);
    let ghost all = text::texts(ids@);
    let mut r: Vec<Opened> = Vec::new();
    let mut i: usize = 0;
    while i < ids.len()
        invariant
            i <= ids@.len(),
            all == text::texts(ids@),
            are_opened(r@, all.take(i as int), artifacts@),
        decreases ids.len() - i,
    {
        reveal(Seq::filter);
        proof {
            assert(all.take(i + 1).drop_last() =~= all.take(i as int));
            assert(all.take(i + 1).last() == ids@[i as int]@);
        }
        match seek(artifacts, ids[i].as_str()) {
            Some(c) => {
                let label = row_label(c);
                r.push(Opened { id: ids[i].clone(), label: label.text, named: label.named });
            },
            None => {},
        }
        i = i + 1;
    }
    assert(all.take(all.len() as int) =~= all);
    r
}

/// The sittings of a day.
fn sittings_of(pursuits: &[Pursuit], searches: &[i64], artifacts: &[Chunk]) -> (r: Vec<DaySitting>)
    requires
        forall|i: int| 0 <= i < pursuits@.len() ==> (#[trigger] pursuits@[i]).opened_at < i64::MAX,
    ensures
        are_sittings(r@, pursuits@, searches@, artifacts@),
{
    let mut r: Vec<DaySitting> = Vec::new();
    let mut i: usize = 0;
    while i < pursuits.len()
        invariant
            i <= pursuits@.len(),
            forall|j: int|
                0 <= j < pursuits@.len() ==> (#[trigger] pursuits@[j]).opened_at < i64::MAX,
            are_sittings(r@, pursuits@.take(i as int), searches@, artifacts@),
        decreases pursuits.len() - i,
    {
        let p = &pursuits[i];
        let closed_at: i64 = match p.closed_at {
            Some(t) => t,
            None => p.opened_at,
        };
        let recorded: usize = count_searches(p, searches);
        let kept: usize = p.queries.len();
        let query = if p.queries.len() > 0 {
            p.queries[0].clone()
        } else {
            String::new()
        };
        r.push(
            DaySitting {
                opened_at: p.opened_at,
                closed_at,
                query,
                searches: if recorded < kept {
                    kept
                } else {
                    recorded
                },
                opened: opened_of(p.sources.as_slice(), artifacts),
            },
        );
        assert(pursuits@.take(i + 1) =~= pursuits@.take(i as int).push(pursuits@[i as int]));
        i = i + 1;
    }
    assert(pursuits@.take(pursuits@.len() as int) =~= pursuits@);
    r
}

/// What the store has to say about a day.
pub struct DayRows<'a> {
    /// The captures made between its ends.
    pub between: &'a [Corpus],
    /// The captures that name it.
    pub by_day: &'a [Corpus],
    /// The moments between its ends.
    pub moments: &'a [DueRow],
    /// When each search between its ends was made.
    pub searches: &'a [i64],
    /// The sittings between its ends.
    pub pursuits: &'a [Pursuit],
    /// The artifacts those opened that there still are.
    pub artifacts: &'a [Chunk],
}

/// What happened on a day.
pub open spec fn is_day(d: Day, asked: WhichDay, zone: Seq<char>, rows: DayRows) -> bool {
    let corpora = gathered(rows.between@, rows.by_day@);
    &&& d.date@ == asked.date@
    &&& d.tz@ == zone
    &&& d.from == asked.from
    &&& d.to == asked.to
    &&& are_rows(d.entries@, of_day(corpora, asked.date@, true))
    &&& are_rows(d.captured@, of_day(corpora, asked.date@, false))
    &&& are_moments(d.was_due@, of_kind(rows.moments@, Kind::Due))
    &&& are_moments(d.refers@, of_kind(rows.moments@, Kind::Event))
    &&& are_sittings(d.sittings@, rows.pursuits@, rows.searches@, rows.artifacts@)
}

/// What happened on a day, read in a zone.
///
/// Every capture made on the day, and any entry that names it; never one that
/// names another day. The text of an entry is part of the day, that of
/// anything else is behind a link.
pub fn facts(asked: &WhichDay, tz: &Zone, rows: &DayRows) -> (r: Day)
    requires
        forall|i: int|
            0 <= i < rows.pursuits@.len() ==> (#[trigger] rows.pursuits@[i]).opened_at < i64::MAX,
    ensures
        is_day(r, *asked, tz.name@, *rows),
{
    let corpora = gather(rows.between, rows.by_day);
    let (entries, captured) = corpus_rows(corpora.as_slice(), asked.date.as_str());
    let (was_due, refers) = moment_rows(rows.moments);
    let sittings = sittings_of(rows.pursuits, rows.searches, rows.artifacts);
    Day {
        date: asked.date.clone(),
        tz: tz.name.clone(),
        from: asked.from,
        to: asked.to,
        entries,
        captured,
        was_due,
        refers,
        sittings,
    }
}

// ---------------------------------------------------------------------------
// The page
// ---------------------------------------------------------------------------

/// The row that shows a capture, seen at `when`.
pub open spec fn is_corpus_line(l: Line, c: DayCorpus, when: Seq<char>) -> bool {
    &&& l.id@ == c.id@
    &&& l.href@ == "/ui/corpora/"@ + c.id@
    &&& l.label@ == c.label@
    &&& l.when@ == when
    &&& l.detail@ == c.text@
}

/// The row that shows a capture, seen at `when`.
pub fn corpus_line(c: DayCorpus, when: String) -> (r: Line)
    ensures
        is_corpus_line(r, c, when@),
{
    let mut href = "/ui/corpora/".to_owned();
    href.append(c.id.as_str());
    Line { href, id: c.id, label: c.label, when, detail: c.text }
}

/// What a row says of a moment: whether a reminder is done, and the words that
/// refer to a day.
pub open spec fn moment_detail(m: DayMoment) -> Seq<char> {
    match m.kind {
        Kind::Due => if m.done {
            "done"@
        } else {
            "still open"@
        },
        Kind::Event => text::or_empty(m.span),
    }
}

/// The row that shows a moment, seen at `when`.
pub open spec fn is_moment_line(l: Line, m: DayMoment, when: Seq<char>) -> bool {
    &&& l.id@ == m.id@
    &&& l.href@ == "/ui/artifacts/"@ + m.artifact_id@
    &&& l.label@ == m.label@
    &&& l.when@ == when
    &&& l.detail@ == moment_detail(m)
}

/// The row that shows a moment, seen at `when`.
pub fn moment_line(m: DayMoment, when: String) -> (r: Line)
    ensures
        is_moment_line(r, m, when@),
{
    let mut href = "/ui/artifacts/".to_owned();
    href.append(m.artifact_id.as_str());
    let detail = match m.kind {
        Kind::Due => if m.done {
            "done".to_owned()
        } else {
            "still open".to_owned()
        },
        Kind::Event => match m.span {
            Some(s) => s,
            None => String::new(),
        },
    };
    Line { href, id: m.id, label: m.label, when, detail }
}

/// The row that shows a sitting, from one time to another.
pub open spec fn is_sitting_line(
    l: Sitting,
    s: DaySitting,
    opened: Seq<char>,
    closed: Seq<char>,
) -> bool {
    &&& l.span@ == opened + "–"@ + closed
    &&& l.query@ == s.query@
    &&& l.searches == s.searches
    &&& l.opened@ == s.opened@
}

/// The row that shows a sitting, from one time to another.
pub fn sitting_line(s: DaySitting, opened: String, closed: String) -> (r: Sitting)
    ensures
        is_sitting_line(r, s, opened@, closed@),
{
    let mut span = opened;
    span.append("–");
    span.append(closed.as_str());
    Sitting { span, query: s.query, searches: s.searches, opened: s.opened }
}

/// What a zone's clock shows at an instant.
pub open spec fn shown_at(zone: Seq<char>, at: int) -> Seq<char> {
    zones::clock_words(zones::zone_clock(zone, at))
}

/// When a moment is shown on its day: at its time, and where it has none where
/// the day starts.
pub open spec fn moment_at(m: DayMoment, from: i64) -> int {
    match m.at {
        Some(t) => t as int,
        None => from as int,
    }
}

/// `l` is the rows that show the captures `c`.
pub open spec fn are_corpus_lines(l: Seq<Line>, c: Seq<DayCorpus>, zone: Seq<char>) -> bool {
    &&& l.len() == c.len()
    &&& forall|i: int|
        0 <= i < l.len() ==> is_corpus_line(#[trigger] l[i], c[i], shown_at(zone, c[i].at as int))
}

/// `l` is the rows that show the moments `m`.
pub open spec fn are_moment_lines(
    l: Seq<Line>,
    m: Seq<DayMoment>,
    from: i64,
    zone: Seq<char>,
) -> bool {
    &&& l.len() == m.len()
    &&& forall|i: int|
        0 <= i < l.len() ==> is_moment_line(
            #[trigger] l[i],
            m[i],
            shown_at(zone, moment_at(m[i], from)),
        )
}

/// `l` is the rows that show the sittings `s`.
pub open spec fn are_sitting_lines(l: Seq<Sitting>, s: Seq<DaySitting>, zone: Seq<char>) -> bool {
    &&& l.len() == s.len()
    &&& forall|i: int|
        0 <= i < l.len() ==> is_sitting_line(
            #[trigger] l[i],
            s[i],
            shown_at(zone, s[i].opened_at as int),
            shown_at(zone, s[i].closed_at as int),
        )
}

/// The day that the arrow back leads to; the first day leads to itself.
pub open spec fn day_before(day: int) -> int {
    if day > FIRST_DAY {
        day - 1
    } else {
        day
    }
}

/// The day that the arrow on leads to; the last day leads to itself.
pub open spec fn day_after(day: int) -> int {
    if day < LAST_DAY {
        day + 1
    } else {
        day
    }
}

/// What the page shows of a day.
pub open spec fn is_page(t: DayTemplate, d: Day, day: int, zone: Seq<char>) -> bool {
    &&& t.date@ == d.date@
    &&& t.tz@ == d.tz@
    &&& t.prev@ == zones::day_written(day_before(day), ISO_DAY@)
    &&& t.next@ == zones::day_written(day_after(day), ISO_DAY@)
    &&& t.prev_label@ == zones::day_written(day_before(day), SHORT_DAY@)
    &&& t.next_label@ == zones::day_written(day_after(day), SHORT_DAY@)
    &&& t.heading@ == zones::day_written(day, LONG_DAY@)
    &&& are_corpus_lines(t.entries@, d.entries@, zone)
    &&& are_corpus_lines(t.captured@, d.captured@, zone)
    &&& are_moment_lines(t.was_due@, d.was_due@, d.from, zone)
    &&& are_moment_lines(t.refers@, d.refers@, d.from, zone)
    &&& are_sitting_lines(t.sittings@, d.sittings@, zone)
}

/// The rows that show some captures.
fn corpus_lines(rows: Vec<DayCorpus>, tz: &Zone) -> (r: Vec<Line>)
    ensures
        are_corpus_lines(r@, rows@, tz.name@),
{
    let ghost all = rows@;
    let mut r: Vec<Line> = Vec::new();
    for c in it: rows
        invariant
            it.seq() == all,
            r@.len() == it.index(),
            forall|i: int|
                0 <= i < r@.len() ==> is_corpus_line(
                    #[trigger] r@[i],
                    all[i],
                    shown_at(tz.name@, all[i].at as int),
                ),
    {
        let when = hm(c.at, tz);
        r.push(corpus_line(c, when));
    }
    r
}

/// The rows that show some moments.
fn moment_lines(rows: Vec<DayMoment>, from: i64, tz: &Zone) -> (r: Vec<Line>)
    ensures
        are_moment_lines(r@, rows@, from, tz.name@),
{
    let ghost all = rows@;
    let mut r: Vec<Line> = Vec::new();
    for m in it: rows
        invariant
            it.seq() == all,
            r@.len() == it.index(),
            forall|i: int|
                0 <= i < r@.len() ==> is_moment_line(
                    #[trigger] r@[i],
                    all[i],
                    shown_at(tz.name@, moment_at(all[i], from)),
                ),
    {
        let at: i64 = match m.at {
            Some(t) => t,
            None => from,
        };
        let when = hm(at, tz);
        r.push(moment_line(m, when));
    }
    r
}

/// The rows that show some sittings.
fn sitting_lines(rows: Vec<DaySitting>, tz: &Zone) -> (r: Vec<Sitting>)
    ensures
        are_sitting_lines(r@, rows@, tz.name@),
{
    let ghost all = rows@;
    let mut r: Vec<Sitting> = Vec::new();
    for s in it: rows
        invariant
            it.seq() == all,
            r@.len() == it.index(),
            forall|i: int|
                0 <= i < r@.len() ==> is_sitting_line(
                    #[trigger] r@[i],
                    all[i],
                    shown_at(tz.name@, all[i].opened_at as int),
                    shown_at(tz.name@, all[i].closed_at as int),
                ),
    {
        let opened = hm(s.opened_at, tz);
        let closed = hm(s.closed_at, tz);
        r.push(sitting_line(s, opened, closed));
    }
    r
}

/// The page of a day. Not found where the day is not one; what `facts` answers
/// always is.
pub fn page(d: Day, tz: &Zone) -> (r: Result<DayTemplate, Error>)
    ensures
        match zones::day_read(d.date@) {
            Some(day) => r matches Ok(t) && is_page(t, d, day, tz.name@),
            None => r matches Err(Error::NotFound),
        },
{
    let day: i32 = match read_day(d.date.as_str()) {
        Some(day) => day,
        None => {
            return Err(Error::NotFound);
        },
    };
    let before: i32 = match previous_day(day) {
        Some(b) => b,
        None => day,
    };
    let after: i32 = match next_day(day) {
        Some(a) => a,
        None => day,
    };
    Ok(
        DayTemplate {
            prev: iso_of(before),
            next: iso_of(after),
            prev_label: short_of(before),
            next_label: short_of(after),
            heading: long_of(day),
            date: d.date,
            tz: d.tz,
            entries: corpus_lines(d.entries, tz),
            captured: corpus_lines(d.captured, tz),
            was_due: moment_lines(d.was_due, d.from, tz),
            refers: moment_lines(d.refers, d.from, tz),
            sittings: sitting_lines(d.sittings, tz),
        },
    )
}

/// Where the page of a day is.
pub open spec fn day_address(date: Seq<char>, zone: Seq<char>) -> Seq<char> {
    "/ui/day/"@ + date + "?tz="@ + zone
}

/// Where the page of a day is.
pub fn day_address_of(date: &str, tz: &Zone) -> (r: String)
    ensures
        r@ == day_address(date@, tz.name@),
{
    let mut r = "/ui/day/".to_owned();
    r.append(date);
    r.append("?tz=");
    r.append(tz.name.as_str());
    r
}

/// Which day it is now: the one a zone has, and where the calendar has none
/// the first of January 1970.
pub open spec fn day_now(zone: Seq<char>, now: int) -> int {
    match zones::zone_day(zone, now) {
        Some(d) => d,
        None => EPOCH_DAY as int,
    }
}

/// Where the page of today is.
pub fn today(now: i64, tz: &Zone) -> (r: String)
    ensures
        r@ == day_address(
            zones::day_written(day_now(tz.name@, now as int), ISO_DAY@),
            tz.name@,
        ),
{
    let day: i32 = match day_at(now, tz) {
        Some(d) => d,
        None => EPOCH_DAY,
    };
    let date = iso_of(day);
    day_address_of(date.as_str(), tz)
}

// ---------------------------------------------------------------------------
// Writing an entry
// ---------------------------------------------------------------------------

/// What becomes of an entry: where its writer goes next, and what is kept.
pub struct EntryPlan {
    pub back: String,
    pub capture: Option<Capture>,
}

/// `c` is the entry `text` into a day, written in a zone and to be read in a
/// language.
pub open spec fn is_entry_capture(
    c: Capture,
    text: Seq<char>,
    date: Seq<char>,
    zone: Seq<char>,
    lang: Seq<char>,
) -> bool {
    &&& c.text@ == text
    &&& c.origin@ == ORIGIN_JOURNAL@
    &&& c.channel matches Some(door) && door@ == ORIGIN_WEB@
    &&& text::text_of(c.tz) == Some(zone)
    &&& text::text_of(c.lang) == Some(lang)
    &&& text::text_of(c.day) == Some(date)
    &&& c.title is None
    &&& c.note is None
    &&& c.intent is None
    &&& c.source_url is None
    &&& c.file is None
    &&& c.ask is None
}

/// The entry `text` into a day, written in a zone and to be read in a language.
pub fn entry_capture(text: &str, date: String, tz: &Zone, lang: &str) -> (r: Capture)
    ensures
        is_entry_capture(r, text@, date@, tz.name@, lang@),
{
    let mut c = Capture::new(text.to_owned(), ORIGIN_JOURNAL);
    c.channel = Some(ORIGIN_WEB);
    c.tz = Some(tz.name.clone());
    c.lang = Some(lang.to_owned());
    c.day = Some(date);
    c
}

/// What becomes of an entry written on the page of a day.
///
/// The day is a day, and goes back out under its one spelling; the zone goes
/// through the zone table. An empty entry is kept nowhere and leads back.
pub fn entry(date: &str, text: &str, tz: &str, lang: &str) -> (r: Result<EntryPlan, Error>)
    ensures
        match zones::day_read(date@) {
            None => r matches Err(Error::NotFound),
            Some(day) => {
                let canonical = zones::day_written(day, ISO_DAY@);
                let zone = zones::zone_of(Some(tz@));
                &&& r matches Ok(plan)
                &&& plan.back@ == day_address(canonical, zone)
                &&& plan.capture is None <==> text::blank(text@)
                &&& plan.capture matches Some(c) ==> is_entry_capture(
                    c,
                    text@,
                    canonical,
                    zone,
                    lang@,
                )
            },
        },
{
    match read_day(date) {
        None => Err(Error::NotFound),
        Some(day) => {
            let canonical = iso_of(day);
            let tz = zone(Some(tz));
            let back = day_address_of(canonical.as_str(), &tz);
            if is_blank(text) {
                Ok(EntryPlan { back, capture: None })
            } else {
                Ok(EntryPlan { back, capture: Some(entry_capture(text, canonical, &tz, lang)) })
            }
        },
    }
}

/// Where turning an entry on or off leads: back to the page it was done on,
/// and to today where there is no such page.
pub open spec fn entry_leads(back: Option<Seq<char>>) -> Seq<char> {
    match back {
        Some(b) => b,
        None => "/ui/day/today"@,
    }
}

/// Where turning an entry on or off leads, which is never off this server.
pub fn set_entry(referer: Option<&str>) -> (r: String)
    ensures
        r@ == entry_leads(
            match referer {
                Some(x) => crate::links::way_back(x@, crate::links::url_read(x@)),
                None => None,
            },
        ),
        crate::links::is_here(r@),
{
    proof {
        reveal_strlit("/ui/day/today");
    }
    match referer {
        Some(x) => match same_origin_path(x) {
            Some(b) => b,
            None => "/ui/day/today".to_owned(),
        },
        None => "/ui/day/today".to_owned(),
    }
}

// ---------------------------------------------------------------------------
// What holds of every day
// ---------------------------------------------------------------------------

/// What is gathered holds no capture twice that was not made twice: everything
/// made on the day stays where it was, and everything that names the day is
/// there.
pub proof fn gathering_loses_nothing(between: Seq<Corpus>, by_day: Seq<Corpus>)
    ensures
        gathered(between, by_day).len() >= between.len(),
        gathered(between, by_day).take(between.len() as int) == between,
        forall|i: int|
            0 <= i < by_day.len() ==> has_corpus(
                gathered(between, by_day),
                (#[trigger] by_day[i]).id@,
            ),
    decreases by_day.len(),
{
    let all = gathered(between, by_day);
    if by_day.len() == 0 {
        assert(between.take(between.len() as int) =~= between);
    } else {
        let rest = by_day.drop_last();
        let front = gathered(between, rest);
        gathering_loses_nothing(between, rest);
        assert(all.take(between.len() as int) =~= front.take(between.len() as int));
        assert forall|i: int| 0 <= i < by_day.len() implies has_corpus(
            all,
            (#[trigger] by_day[i]).id@,
        ) by {
            if i < rest.len() {
                assert(rest[i] == by_day[i]);
                let k = choose|k: int| 0 <= k < front.len() && (#[trigger] front[k]).id@ == rest[i].id@;
                assert(all[k].id@ == by_day[i].id@);
            } else if !has_corpus(front, by_day.last().id@) {
                assert(all[front.len() as int].id@ == by_day[i].id@);
            }
        }
    }
}

/// A capture that names another day is on no list of this one, and an entry
/// that names this day is listed as an entry.
pub proof fn an_entry_is_on_its_own_day(corpora: Seq<Corpus>, date: Seq<char>, i: int)
    requires
        0 <= i < corpora.len(),
    ensures
        belongs(corpora[i], date) && is_entry(corpora[i]) ==> of_day(
            corpora,
            date,
            true,
        ).contains(corpora[i]),
        !belongs(corpora[i], date) ==> !of_day(corpora, date, true).contains(corpora[i])
            && !of_day(corpora, date, false).contains(corpora[i]),
        !is_entry(corpora[i]) ==> !of_day(corpora, date, true).contains(corpora[i]),
{
    broadcast use vstd::seq_lib::group_filter_ensures;

    let entries = of_day(corpora, date, true);
    let others = of_day(corpora, date, false);
    if entries.contains(corpora[i]) {
        let k = choose|k: int| 0 <= k < entries.len() && entries[k] == corpora[i];
        assert(belongs(entries[k], date) && is_entry(entries[k]));
    }
    if others.contains(corpora[i]) {
        let k = choose|k: int| 0 <= k < others.len() && others[k] == corpora[i];
        assert(belongs(others[k], date) && !is_entry(others[k]));
    }
}

/// A captured row carries no text, and an entry all of it.
pub proof fn only_an_entry_carries_its_text(d: Day, asked: WhichDay, zone: Seq<char>, rows: DayRows)
    requires
        is_day(d, asked, zone, rows),
    ensures
        forall|i: int| 0 <= i < d.captured@.len() ==> (#[trigger] d.captured@[i]).text@.len() == 0,
        forall|i: int|
            0 <= i < d.entries@.len() ==> (#[trigger] d.entries@[i]).text@ == of_day(
                gathered(rows.between@, rows.by_day@),
                asked.date@,
                true,
            )[i].raw_text@,
{
    broadcast use vstd::seq_lib::group_filter_ensures;

    let corpora = gathered(rows.between@, rows.by_day@);
    let entries = of_day(corpora, asked.date@, true);
    let others = of_day(corpora, asked.date@, false);
    assert forall|i: int| 0 <= i < d.captured@.len() implies (#[trigger] d.captured@[i]).text@.len()
        == 0 by {
        assert(is_row(d.captured@[i], others[i]));
        assert(!is_entry(others[i]));
    }
    assert forall|i: int| 0 <= i < d.entries@.len() implies (#[trigger] d.entries@[i]).text@
        == entries[i].raw_text@ by {
        assert(is_row(d.entries@[i], entries[i]));
        assert(is_entry(entries[i]));
    }
}

/// Every moment of a day is listed once, as due or as referring to it.
pub proof fn every_moment_is_listed(moments: Seq<DueRow>)
    ensures
        of_kind(moments, Kind::Due).len() + of_kind(moments, Kind::Event).len() == moments.len(),
    decreases moments.len(),
{
    reveal(Seq::filter);
    if moments.len() > 0 {
        every_moment_is_listed(moments.drop_last());
    }
}

/// A sitting holds at least as many searches as questions.
pub proof fn a_sitting_counts_its_questions(p: Pursuit, searches: Seq<i64>)
    ensures
        searches_of(p, searches) >= p.queries@.len(),
        searches_of(p, searches) >= searches_in(p, searches),
{
}

/// A day is read as its address has it, and its ends are those that the zone
/// has of it; what names no day, or one without both ends, asks for none.
pub proof fn a_day_is_asked_for_by_its_date(date: Seq<char>, zone: Seq<char>)
    ensures
        day_asked(date, zone) matches Some((day, from, to)) ==> zones::day_parsed(
            date,
            "%Y-%m-%d"@,
        ) == Some(day) && zones::bounds_of(zone, day) == Some((from, to)),
        day_asked(date, zone) is Some <==> (zones::day_parsed(date, "%Y-%m-%d"@) matches Some(day)
            && zones::bounds_of(zone, day) is Some),
{
}

/// A day says which it is, where, and between which instants it lies.
pub proof fn a_day_says_which_it_is(d: Day, asked: WhichDay, zone: Seq<char>, rows: DayRows)
    requires
        is_day(d, asked, zone, rows),
    ensures
        d.date@ == asked.date@,
        d.tz@ == zone,
        d.from == asked.from,
        d.to == asked.to,
{
}

/// A page without a row is one with nothing on it.
pub proof fn a_page_is_empty_without_a_row(t: DayTemplate)
    ensures
        t.has_nothing() <==> t.entries@.len() + t.captured@.len() + t.was_due@.len()
            + t.refers@.len() + t.sittings@.len() == 0,
{
}

/// What a day names that was not captured between its ends comes after what
/// was, once each, and nothing else does.
pub proof fn what_is_gathered_is_gathered_once(between: Seq<Corpus>, by_day: Seq<Corpus>)
    ensures
        forall|i: int|
            between.len() <= i < gathered(between, by_day).len() ==> by_day.contains(
                #[trigger] gathered(between, by_day)[i],
            ),
        forall|i: int, j: int|
            0 <= j < i < gathered(between, by_day).len() && between.len() <= i ==> (
            #[trigger] gathered(between, by_day)[i]).id@ != (#[trigger] gathered(
                between,
                by_day,
            )[j]).id@,
        gathered(between, by_day).len() <= between.len() + by_day.len(),
    decreases by_day.len(),
{
    if by_day.len() > 0 {
        let less = by_day.drop_last();
        let last = by_day.last();
        let front = gathered(between, less);
        let whole = gathered(between, by_day);
        what_is_gathered_is_gathered_once(between, less);
        gathering_loses_nothing(between, less);
        assert forall|i: int| between.len() <= i < whole.len() implies by_day.contains(
            #[trigger] whole[i],
        ) by {
            if i < front.len() {
                assert(whole[i] == front[i]);
                let k = choose|k: int| 0 <= k < less.len() && less[k] == front[i];
                assert(by_day[k] == whole[i]);
            } else {
                assert(by_day[by_day.len() - 1] == whole[i]);
            }
        }
        assert forall|i: int, j: int|
            0 <= j < i < whole.len() && between.len() <= i implies (#[trigger] whole[i]).id@ != (
        #[trigger] whole[j]).id@ by {
            assert(whole[j] == front[j]);
            if i < front.len() {
                assert(whole[i] == front[i]);
            } else {
                assert(!has_corpus(front, last.id@));
            }
        }
    }
}

/// A capture is of a day where it names that day, or names none.
pub proof fn a_capture_is_of_the_day_it_names(c: Corpus, date: Seq<char>)
    ensures
        json::as_text(json::under(c.metadata, "day"@)) == Some(date) ==> belongs(c, date),
        json::as_text(json::under(c.metadata, "day"@)) is None ==> belongs(c, date),
        json::as_text(json::under(c.metadata, "day"@)) matches Some(other) ==> other != date
            ==> !belongs(c, date),
        is_entry(c) <==> c.origin@ == "journal"@,
{
}

/// What is of a day and whether it is an entry decides where it is listed, and
/// the order stays that of what was read.
pub proof fn a_list_of_a_day_is_what_is_of_it(
    corpora: Seq<Corpus>,
    date: Seq<char>,
    entries: bool,
)
    ensures
        of_day(corpora, date, entries) == corpora.filter(
            |c: Corpus| belongs(c, date) && (c.origin@ == "journal"@) == entries,
        ),
{
    let p = |c: Corpus| belongs(c, date) && is_entry(c) == entries;
    let q = |c: Corpus| belongs(c, date) && (c.origin@ == "journal"@) == entries;
    assert(p =~= q);
}

/// Every capture of the day has its row on the page: it leads to the capture,
/// is called what lists call it, and says when it was made. An entry is read
/// there; of anything else the page shows no text.
pub proof fn every_capture_has_its_row(
    t: DayTemplate,
    d: Day,
    asked: WhichDay,
    day: int,
    zone: Seq<char>,
    rows: DayRows,
    i: int,
)
    requires
        is_day(d, asked, zone, rows),
        is_page(t, d, day, zone),
    ensures
        ({
            let entries = of_day(gathered(rows.between@, rows.by_day@), asked.date@, true);
            let others = of_day(gathered(rows.between@, rows.by_day@), asked.date@, false);
            &&& t.entries@.len() == entries.len()
            &&& t.captured@.len() == others.len()
            &&& 0 <= i < entries.len() ==> {
                &&& t.entries@[i].id@ == entries[i].id@
                &&& t.entries@[i].href@ == "/ui/corpora/"@ + entries[i].id@
                &&& t.entries@[i].label@ == entries[i].label@
                &&& t.entries@[i].detail@ == entries[i].raw_text@
                &&& t.entries@[i].when@ == zones::clock_words(
                    zones::zone_clock(zone, entries[i].created_at as int),
                )
                &&& d.entries@[i].named <==> entries[i].title_hint is Some
                &&& d.entries@[i].at == entries[i].created_at
            }
            &&& 0 <= i < others.len() ==> {
                &&& t.captured@[i].id@ == others[i].id@
                &&& t.captured@[i].href@ == "/ui/corpora/"@ + others[i].id@
                &&& t.captured@[i].label@ == others[i].label@
                &&& t.captured@[i].detail@.len() == 0
                &&& t.captured@[i].when@ == zones::clock_words(
                    zones::zone_clock(zone, others[i].created_at as int),
                )
                &&& d.captured@[i].named <==> others[i].title_hint is Some
                &&& d.captured@[i].at == others[i].created_at
            }
        }),
{
    broadcast use vstd::seq_lib::group_filter_ensures;

    let entries = of_day(gathered(rows.between@, rows.by_day@), asked.date@, true);
    let others = of_day(gathered(rows.between@, rows.by_day@), asked.date@, false);
    if 0 <= i < entries.len() {
        assert(is_row(d.entries@[i], entries[i]));
        assert(is_entry(entries[i]));
        let _ = t.entries@[i];
    }
    if 0 <= i < others.len() {
        assert(is_row(d.captured@[i], others[i]));
        assert(!is_entry(others[i]));
        let _ = t.captured@[i];
    }
}

/// The moments of a kind are those of that kind, in the order they were read.
proof fn of_kind_is(moments: Seq<DueRow>)
    ensures
        of_kind(moments, Kind::Due) == moments.filter(|m: DueRow| m.moment.kind == Kind::Due),
        of_kind(moments, Kind::Event) == moments.filter(|m: DueRow| m.moment.kind == Kind::Event),
{
    let due = Kind::Due;
    let event = Kind::Event;
    let p = |m: DueRow| m.moment.kind == due;
    let q = |m: DueRow| m.moment.kind == event;
    assert(p =~= (|m: DueRow| m.moment.kind == Kind::Due));
    assert(q =~= (|m: DueRow| m.moment.kind == Kind::Event));
}

/// Every reminder of the day has its row on the page, and the row says `done`
/// exactly where the reminder was done, and `still open` exactly where it was
/// not. It leads to the artifact that it is on, and says when it was due, or
/// when the day starts where it has no time of its own.
pub proof fn a_reminder_says_whether_it_is_done(
    t: DayTemplate,
    d: Day,
    asked: WhichDay,
    day: int,
    zone: Seq<char>,
    rows: DayRows,
    i: int,
)
    requires
        is_day(d, asked, zone, rows),
        is_page(t, d, day, zone),
    ensures
        ({
            let due = rows.moments@.filter(|m: DueRow| m.moment.kind == Kind::Due);
            &&& t.was_due@.len() == due.len()
            &&& 0 <= i < due.len() ==> {
                &&& t.was_due@[i].detail@ == "done"@ <==> due[i].moment.done_at is Some
                &&& t.was_due@[i].detail@ == "still open"@ <==> due[i].moment.done_at is None
                &&& t.was_due@[i].id@ == due[i].moment.id@
                &&& t.was_due@[i].href@ == "/ui/artifacts/"@ + due[i].moment.artifact_id@
                &&& t.was_due@[i].label@ == due[i].title@
                &&& t.was_due@[i].when@ == zones::clock_words(
                    zones::zone_clock(
                        zone,
                        match due[i].moment.at {
                            Some(at) => at as int,
                            None => asked.from as int,
                        },
                    ),
                )
                &&& d.was_due@[i].named == due[i].named
                &&& d.was_due@[i].at == due[i].moment.at
                &&& d.was_due@[i].done <==> due[i].moment.done_at is Some
                &&& d.was_due@[i].kind is Due
            }
        }),
{
    broadcast use vstd::seq_lib::group_filter_ensures;

    reveal_strlit("done");
    reveal_strlit("still open");
    assert("done"@.len() != "still open"@.len());
    of_kind_is(rows.moments@);
    let due = of_kind(rows.moments@, Kind::Due);
    if 0 <= i < due.len() {
        assert(is_moment(d.was_due@[i], due[i]));
        assert(due[i].moment.kind == Kind::Due);
        let _ = t.was_due@[i];
    }
}

/// Every event that refers to the day has its row on the page, with the words
/// it was read from, or with none where there are none.
pub proof fn an_event_says_its_words(
    t: DayTemplate,
    d: Day,
    asked: WhichDay,
    day: int,
    zone: Seq<char>,
    rows: DayRows,
    i: int,
)
    requires
        is_day(d, asked, zone, rows),
        is_page(t, d, day, zone),
    ensures
        ({
            let events = rows.moments@.filter(|m: DueRow| m.moment.kind == Kind::Event);
            &&& t.refers@.len() == events.len()
            &&& 0 <= i < events.len() ==> {
                &&& events[i].moment.span matches Some(words) ==> t.refers@[i].detail@ == words@
                &&& events[i].moment.span is None ==> t.refers@[i].detail@.len() == 0
                &&& t.refers@[i].id@ == events[i].moment.id@
                &&& t.refers@[i].href@ == "/ui/artifacts/"@ + events[i].moment.artifact_id@
                &&& t.refers@[i].label@ == events[i].title@
                &&& t.refers@[i].when@ == zones::clock_words(
                    zones::zone_clock(
                        zone,
                        match events[i].moment.at {
                            Some(at) => at as int,
                            None => asked.from as int,
                        },
                    ),
                )
                &&& d.refers@[i].named == events[i].named
                &&& d.refers@[i].at == events[i].moment.at
                &&& d.refers@[i].done <==> events[i].moment.done_at is Some
                &&& d.refers@[i].kind is Event
            }
        }),
{
    broadcast use vstd::seq_lib::group_filter_ensures;

    of_kind_is(rows.moments@);
    let events = of_kind(rows.moments@, Kind::Event);
    if 0 <= i < events.len() {
        assert(is_moment(d.refers@[i], events[i]));
        assert(events[i].moment.kind == Kind::Event);
        assert(text::text_of(d.refers@[i].span) == text::text_of(events[i].moment.span));
        let _ = t.refers@[i];
    }
}

/// A sitting counts the searches made between its start and its end, and at
/// least within the second after its start.
proof fn searches_are_counted(p: Pursuit, searches: Seq<i64>, to: int)
    requires
        p.closed_at matches Some(end) ==> to == (if end > p.opened_at + 1 {
            end as int
        } else {
            p.opened_at + 1
        }),
        p.closed_at is None ==> to == p.opened_at + 1,
    ensures
        searches_in(p, searches) == searches.filter(|at: i64| p.opened_at <= at <= to).len(),
    decreases searches.len(),
{
    reveal(Seq::filter);
    if searches.len() > 0 {
        searches_are_counted(p, searches.drop_last(), to);
    }
}

/// A sitting on the page says from when to when it went, what was first asked
/// in it, and how many searches it took: those made between its start and its
/// end, or as many as it keeps questions of where that is more. One that was
/// never closed ends where it started.
pub proof fn a_sitting_says_what_it_was(
    t: DayTemplate,
    d: Day,
    asked: WhichDay,
    day: int,
    zone: Seq<char>,
    rows: DayRows,
    i: int,
)
    requires
        is_day(d, asked, zone, rows),
        is_page(t, d, day, zone),
        0 <= i < rows.pursuits@.len(),
    ensures
        t.sittings@.len() == rows.pursuits@.len(),
        ({
            let p = rows.pursuits@[i];
            let end = match p.closed_at {
                Some(at) => at as int,
                None => p.opened_at as int,
            };
            let to = if end > p.opened_at + 1 {
                end
            } else {
                p.opened_at + 1
            };
            let made = rows.searches@.filter(|at: i64| p.opened_at <= at <= to).len();
            &&& t.sittings@[i].span@ == zones::clock_words(
                zones::zone_clock(zone, p.opened_at as int),
            ) + "–"@ + zones::clock_words(zones::zone_clock(zone, end))
            &&& p.queries@.len() > 0 ==> t.sittings@[i].query@ == p.queries@[0]@
            &&& p.queries@.len() == 0 ==> t.sittings@[i].query@.len() == 0
            &&& t.sittings@[i].searches == (if made < p.queries@.len() {
                p.queries@.len()
            } else {
                made
            })
            &&& d.sittings@[i].opened_at == p.opened_at
            &&& d.sittings@[i].closed_at == end
        }),
{
    let p = rows.pursuits@[i];
    let end = match p.closed_at {
        Some(at) => at as int,
        None => p.opened_at as int,
    };
    let to = if end > p.opened_at + 1 {
        end
    } else {
        p.opened_at + 1
    };
    searches_are_counted(p, rows.searches@, to);
    assert(is_sitting(d.sittings@[i], p, rows.searches@, rows.artifacts@));
    let _ = t.sittings@[i];
}

/// A sitting lists what it opened, in the order it opened it and as often,
/// leaving out what is gone; each under the name that lists call it by.
pub proof fn a_sitting_lists_what_is_still_there(
    t: DayTemplate,
    d: Day,
    asked: WhichDay,
    day: int,
    zone: Seq<char>,
    rows: DayRows,
    i: int,
    k: int,
)
    requires
        is_day(d, asked, zone, rows),
        is_page(t, d, day, zone),
        0 <= i < rows.pursuits@.len(),
    ensures
        ({
            let there = text::texts(rows.pursuits@[i].sources@).filter(
                |id: Seq<char>| corpus::found(rows.artifacts@, id) is Some,
            );
            &&& t.sittings@[i].opened@.len() == there.len()
            &&& 0 <= k < there.len() ==> {
                let o = t.sittings@[i].opened@[k];
                &&& o.id@ == there[k]
                &&& corpus::found(rows.artifacts@, there[k]) matches Some(c)
                &&& artifact::labels(o.label@, o.named, c)
            }
        }),
{
    let p = rows.pursuits@[i];
    let ids = text::texts(p.sources@);
    let there = ids.filter(|id: Seq<char>| corpus::found(rows.artifacts@, id) is Some);
    assert(there == still_there(ids, rows.artifacts@)) by {
        let artifacts = rows.artifacts@;
        assert((|id: Seq<char>| corpus::found(artifacts, id) is Some) =~= (|id: Seq<char>|
            corpus::found(rows.artifacts@, id) is Some));
    }
    let s = d.sittings@[i];
    assert(is_sitting(s, p, rows.searches@, rows.artifacts@));
    let _ = t.sittings@[i];
    if 0 <= k < there.len() {
        assert(is_opened(s.opened@[k], there[k], rows.artifacts@));
    }
}

/// The arrows of a day lead to the day before it and to the day after it, and
/// the page is headed by the day itself. The first day leads back to itself,
/// and the last day on to itself.
pub proof fn the_arrows_lead_one_day_either_way(t: DayTemplate, d: Day, day: int, zone: Seq<char>)
    requires
        is_page(t, d, day, zone),
    ensures
        t.date@ == d.date@,
        t.tz@ == d.tz@,
        -95_746_129 < day ==> t.prev@ == zones::day_written(day - 1, "%Y-%m-%d"@)
            && t.prev_label@ == zones::day_written(day - 1, "%a %-d %b"@),
        -95_746_129 == day ==> t.prev@ == zones::day_written(day, "%Y-%m-%d"@) && t.prev_label@
            == zones::day_written(day, "%a %-d %b"@),
        day < 95_745_399 ==> t.next@ == zones::day_written(day + 1, "%Y-%m-%d"@) && t.next_label@
            == zones::day_written(day + 1, "%a %-d %b"@),
        day == 95_745_399 ==> t.next@ == zones::day_written(day, "%Y-%m-%d"@) && t.next_label@
            == zones::day_written(day, "%a %-d %b"@),
        t.heading@ == zones::day_written(day, "%A, %-d %B %Y"@),
{
}

/// A day's address names the day and the zone; today is the day that the zone
/// has now, and the first of 1970 where it has none.
pub proof fn a_day_has_an_address(date: Seq<char>, zone: Seq<char>, now: int, day: int)
    ensures
        day_address(date, zone) == "/ui/day/"@ + date + "?tz="@ + zone,
        zones::zone_day(zone, now) == Some(day) ==> day_now(zone, now) == day,
        zones::zone_day(zone, now) is None ==> day_now(zone, now) == 719_163,
{
}

/// An entry is kept as it was written, on the day and in the zone it was
/// written for, and says nothing that was not said.
pub proof fn an_entry_is_kept_as_it_was_written(
    c: Capture,
    text: Seq<char>,
    date: Seq<char>,
    zone: Seq<char>,
    lang: Seq<char>,
)
    requires
        is_entry_capture(c, text, date, zone, lang),
    ensures
        c.text@ == text,
        c.origin@ == "journal"@,
        c.channel matches Some(door) && door@ == "web"@,
        c.tz matches Some(z) && z@ == zone,
        c.lang matches Some(l) && l@ == lang,
        c.day matches Some(day) && day@ == date,
        c.title is None,
        c.note is None,
        c.intent is None,
        c.source_url is None,
        c.file is None,
        c.ask is None,
{
}

/// A page whose entry was set is gone back to, and today where it is not known
/// which that was.
pub proof fn an_entry_leads_back(back: Seq<char>)
    ensures
        entry_leads(Some(back)) == back,
        entry_leads(None) == "/ui/day/today"@,
{
}

// ---------------------------------------------------------------------------
// What holds of every call
// ---------------------------------------------------------------------------

/// From what was read to what is shown: of every reminder of a day, the page
/// says `done` exactly where it was done and `still open` exactly where it was
/// not.
pub proof fn the_page_says_what_was_done(
    asked: &WhichDay,
    tz: &Zone,
    rows: &DayRows,
    d: Day,
    t: DayTemplate,
    i: int,
)
    requires
        call_ensures(facts, (asked, tz, rows), d),
        call_ensures(page, (d, tz), Ok(t)),
    ensures
        ({
            let due = rows.moments@.filter(|m: DueRow| m.moment.kind == Kind::Due);
            &&& t.was_due@.len() == due.len()
            &&& 0 <= i < due.len() ==> {
                &&& t.was_due@[i].id@ == due[i].moment.id@
                &&& t.was_due@[i].detail@ == "done"@ <==> due[i].moment.done_at is Some
                &&& t.was_due@[i].detail@ == "still open"@ <==> due[i].moment.done_at is None
            }
        }),
{
    match zones::day_read(d.date@) {
        Some(day) => {
            a_reminder_says_whether_it_is_done(t, d, *asked, day, tz.name@, *rows, i);
        },
        None => {},
    }
}

/// A day that is asked for is the one its date names, spelled one way and with
/// the ends that the zone has of it; and there is a page of every day that
/// there is.
pub proof fn a_day_is_the_one_its_date_names(
    date: &str,
    tz: &Zone,
    asked: Result<WhichDay, Error>,
    d: Day,
    shown: Result<DayTemplate, Error>,
)
    requires
        call_ensures(which_day, (date, tz), asked),
        call_ensures(page, (d, tz), shown),
    ensures
        asked matches Ok(w) ==> {
            &&& zones::day_parsed(date@, "%Y-%m-%d"@) == Some(w.day as int)
            &&& w.date@ == zones::day_written(w.day as int, "%Y-%m-%d"@)
            &&& zones::start_of(tz.name@, w.day as int) == Some(w.from as int)
            &&& zones::start_of(tz.name@, w.day + 1) == Some(w.to as int)
            &&& w.from < w.to
        },
        asked matches Err(e) ==> e is NotFound,
        zones::day_parsed(date@, "%Y-%m-%d"@) is None ==> asked is Err,
        shown is Ok <==> zones::day_parsed(d.date@, "%Y-%m-%d"@) is Some,
        shown matches Err(e) ==> e is NotFound,
        asked matches Ok(w) ==> (d.date@ == w.date@ ==> shown is Ok),
{
}

/// An entry goes back to the day it was written into, under that day's one
/// spelling; one that says nothing is not kept, and one that does is kept as it
/// was written.
pub proof fn an_entry_goes_back_to_its_day(
    date: &str,
    text: &str,
    tz: &str,
    lang: &str,
    r: Result<EntryPlan, Error>,
    day: int,
)
    requires
        call_ensures(entry, (date, text, tz, lang), r),
    ensures
        zones::day_parsed(date@, "%Y-%m-%d"@) is None <==> r is Err,
        r matches Err(e) ==> e is NotFound,
        zones::day_parsed(date@, "%Y-%m-%d"@) == Some(day) ==> (r matches Ok(plan) && plan.back@
            == "/ui/day/"@ + zones::day_written(day, "%Y-%m-%d"@) + "?tz="@ + zones::zone_of(
            Some(tz@),
        ) && (plan.capture is Some <==> !text::blank(text@)) && (plan.capture matches Some(c)
            ==> c.text@ == text@ && (c.day matches Some(on) && on@ == zones::day_written(
            day,
            "%Y-%m-%d"@,
        )) && (c.tz matches Some(z) && z@ == zones::zone_of(Some(tz@))))),
{
}

} // verus!
