//! What the store keeps, as the pages read it.

use crate::json::Json;
use crate::text;
use vstd::prelude::*;

verus! {

/// The door a source came in by when a picture was captured.
pub const ORIGIN_IMAGE: &'static str = "image";

/// The door a source came in by when a PDF was captured.
pub const ORIGIN_PDF: &'static str = "pdf";

/// The door a source came in by when it was typed or pasted in a browser.
pub const ORIGIN_WEB: &'static str = "web";

/// The door a source came in by when it was written as a day's entry.
pub const ORIGIN_JOURNAL: &'static str = "journal";

/// The door a source came in by when a browser extension sent it.
pub const ORIGIN_EXTENSION: &'static str = "extension";

/// The door a source came in by when it was an answer somebody kept.
pub const ORIGIN_ASK: &'static str = "ask";

/// The flag a merged artifact carries once one of its sources is gone.
pub const ORPHANED_SOURCE: &'static str = "orphaned_source";

/// Why a request is refused.
#[derive(Debug)]
pub enum Error {
    /// The request says something that cannot be acted on.
    Validation(String),
    NotFound,
    Unauthorized,
    /// Something here did not work.
    Internal(String),
}

/// The lines of a source that an artifact was written from, both ends counted
/// and the first line being line one.
#[derive(Clone, Copy, PartialEq, Eq, Structural, Debug)]
pub struct CorpusSpan {
    pub start_line: i64,
    pub end_line: i64,
}

/// Where a capture is in being read.
#[derive(Clone, Copy, PartialEq, Eq, Structural, Debug)]
pub enum CorpusStatus {
    Raw,
    Describing,
    Extracting,
    Segmenting,
    Ready,
    Partial,
    Failed,
}

impl CorpusStatus {
    /// The word a status is stored and shown under.
    pub open spec fn word(self) -> Seq<char> {
        match self {
            CorpusStatus::Raw => "raw"@,
            CorpusStatus::Describing => "describing"@,
            CorpusStatus::Extracting => "extracting"@,
            CorpusStatus::Segmenting => "segmenting"@,
            CorpusStatus::Ready => "ready"@,
            CorpusStatus::Partial => "partial"@,
            CorpusStatus::Failed => "failed"@,
        }
    }

    /// The word a status is stored and shown under.
    pub fn as_str(self) -> (r: &'static str)
        ensures
            r@ == self.word(),
    {
        match self {
            CorpusStatus::Raw => "raw",
            CorpusStatus::Describing => "describing",
            CorpusStatus::Extracting => "extracting",
            CorpusStatus::Segmenting => "segmenting",
            CorpusStatus::Ready => "ready",
            CorpusStatus::Partial => "partial",
            CorpusStatus::Failed => "failed",
        }
    }
}

/// One captured source.
pub struct Corpus {
    pub id: String,
    pub raw_text: String,
    /// The door it came in by.
    pub origin: String,
    pub status: CorpusStatus,
    pub title_hint: Option<String>,
    /// What every list calls this source: its title, or the opening of its
    /// text where it has none.
    pub label: String,
    /// The page it was captured from, for the doors that know one.
    pub source_url: Option<String>,
    pub created_at: i64,
    /// When this row was made to stand for a source that was never captured
    /// here. Its text is then its own artifacts, joined.
    pub restored_at: Option<i64>,
    /// How much of the wording survived into what was written, in percent.
    pub coverage: Option<u64>,
    /// What the door recorded about the capture.
    pub metadata: Json,
}

/// How an artifact came to be.
#[derive(Clone, Copy, PartialEq, Eq, Structural, Debug)]
pub enum Provenance {
    Captured,
    Passage,
    Note,
    Merged,
    Synthesized,
}

impl Provenance {
    /// How an artifact came to be, by the word it is stored under. An
    /// unfamiliar word is an ordinary capture.
    pub open spec fn named(word: Seq<char>) -> Provenance {
        if word == "passage"@ {
            Provenance::Passage
        } else if word == "note"@ {
            Provenance::Note
        } else if word == "merged"@ {
            Provenance::Merged
        } else if word == "synthesized"@ {
            Provenance::Synthesized
        } else {
            Provenance::Captured
        }
    }

    /// How an artifact came to be, by the word it is stored under.
    pub fn parse(word: &str) -> (r: Provenance)
        ensures
            r == Provenance::named(word@),
    {
        if text::same(word, "passage") {
            Provenance::Passage
        } else if text::same(word, "note") {
            Provenance::Note
        } else if text::same(word, "merged") {
            Provenance::Merged
        } else if text::same(word, "synthesized") {
            Provenance::Synthesized
        } else {
            Provenance::Captured
        }
    }

    /// Whether its title is a name somebody gave this text. A passage carries
    /// the heading it was cut from under, which names the section and never
    /// the text; a note has no title of its own.
    pub open spec fn has_own_name(self) -> bool {
        self != Provenance::Passage && self != Provenance::Note
    }

    /// Whether its title is a name somebody gave this text.
    pub fn names_its_own_text(self) -> (r: bool)
        ensures
            r == self.has_own_name(),
    {
        match self {
            Provenance::Passage | Provenance::Note => false,
            _ => true,
        }
    }

    /// Whether a model wrote it from other artifacts, so that it belongs to
    /// no one source.
    pub open spec fn is_written(self) -> bool {
        self == Provenance::Merged || self == Provenance::Synthesized
    }

    /// Whether a model wrote it from other artifacts.
    pub fn is_model_written(self) -> (r: bool)
        ensures
            r == self.is_written(),
    {
        match self {
            Provenance::Merged | Provenance::Synthesized => true,
            _ => false,
        }
    }
}

/// Whether an artifact is still held to be true.
#[derive(Clone, Copy, PartialEq, Eq, Structural, Debug)]
pub enum ArtifactStatus {
    Active,
    Deprecated,
}

/// Whether a search may still return an artifact: it is active, and nothing
/// has taken its place.
pub open spec fn in_results_spec(status: ArtifactStatus, superseded: bool) -> bool {
    status == ArtifactStatus::Active && !superseded
}

/// Whether a search may still return an artifact.
pub fn in_results(status: ArtifactStatus, superseded_by: Option<&str>) -> (r: bool)
    ensures
        r == in_results_spec(status, superseded_by is Some),
{
    match status {
        ArtifactStatus::Active => superseded_by.is_none(),
        ArtifactStatus::Deprecated => false,
    }
}

/// One artifact.
pub struct Chunk {
    pub id: String,
    pub text: String,
    pub title: Option<String>,
    /// How its text opens, as a list that can show no more than that shows it.
    pub opening: String,
    /// Its text rendered for reading.
    pub html: String,
    pub category: Option<String>,
    pub tags: Vec<String>,
    pub flags: Vec<String>,
    pub flag_detail: Option<String>,
    pub caveats: Vec<String>,
    /// The questions it was written for.
    pub cues: Vec<String>,
    pub status: ArtifactStatus,
    /// The artifact that took its place.
    pub superseded_by: Option<String>,
    pub last_verified_at: Option<i64>,
    pub provenance: Provenance,
    /// The source it was written from; none for one written from others.
    pub corpus_id: Option<String>,
    /// The lines of that source, where it names them.
    pub corpus_span: Option<CorpusSpan>,
    /// The window of that source it was written from.
    pub segment_idx: Option<i64>,
    /// Its place among the artifacts of that source.
    pub ordinal: i64,
    pub created_at: i64,
}

impl Chunk {
    /// Whether a search may still return it.
    pub open spec fn is_in_results(self) -> bool {
        in_results_spec(self.status, self.superseded_by is Some)
    }

    /// Whether a search may still return it.
    pub fn in_results(&self) -> (r: bool)
        ensures
            r == self.is_in_results(),
    {
        match self.status {
            ArtifactStatus::Active => self.superseded_by.is_none(),
            ArtifactStatus::Deprecated => false,
        }
    }
}

/// Where a window of a source is in being read.
#[derive(Clone, Copy, PartialEq, Eq, Structural, Debug)]
pub enum SegmentState {
    Pending,
    Verbatim,
    Done,
    Failed,
}

/// One window of a source: the lines a model reads at once.
#[derive(Clone, Copy, PartialEq, Eq, Structural, Debug)]
pub struct Segment {
    pub idx: i64,
    pub start_line: i64,
    pub end_line: i64,
    pub state: SegmentState,
}

/// Whether a moment is something to do or something that happens.
#[derive(Clone, Copy, PartialEq, Eq, Structural, Debug)]
pub enum Kind {
    Due,
    Event,
}

impl Kind {
    /// The word a kind is stored and sent under.
    pub open spec fn word(self) -> Seq<char> {
        match self {
            Kind::Due => "due"@,
            Kind::Event => "event"@,
        }
    }

    /// The word a kind is stored and sent under.
    pub fn as_str(self) -> (r: &'static str)
        ensures
            r@ == self.word(),
    {
        match self {
            Kind::Due => "due",
            Kind::Event => "event",
        }
    }
}

/// How a moment came to be on an artifact.
#[derive(Clone, Copy, PartialEq, Eq, Structural, Debug)]
pub enum Source {
    /// A person set it.
    ByHand,
    /// It was read off the words of a note that asks to be reminded.
    Cue,
    /// It was read out of the text.
    Extracted,
}

impl Source {
    /// The word a source is stored and sent under.
    pub open spec fn word(self) -> Seq<char> {
        match self {
            Source::ByHand => "set"@,
            Source::Cue => "cue"@,
            Source::Extracted => "extracted"@,
        }
    }

    /// The word a source is stored and sent under.
    pub fn as_str(self) -> (r: &'static str)
        ensures
            r@ == self.word(),
    {
        match self {
            Source::ByHand => "set",
            Source::Cue => "cue",
            Source::Extracted => "extracted",
        }
    }
}

/// A time on an artifact.
pub struct Moment {
    pub id: String,
    pub artifact_id: String,
    pub kind: Kind,
    /// None for a reminder with no time of its own.
    pub at: Option<i64>,
    pub snoozed_until: Option<i64>,
    pub done_at: Option<i64>,
    pub created_at: i64,
    /// How it recurs, where it does.
    pub rule: Option<String>,
    pub source: Source,
    /// The words it was read from.
    pub span: Option<String>,
}

/// A moment and what a list calls the artifact it is on.
pub struct DueRow {
    pub moment: Moment,
    pub title: String,
    /// Whether `title` is a name somebody gave the artifact.
    pub named: bool,
}

/// What a capture was asked to be, beyond kept.
#[derive(Clone, Copy, PartialEq, Eq, Structural, Debug)]
pub enum Intent {
    /// Date the note as a reminder.
    Remind,
}

/// The file a text was captured from.
pub struct FileNote {
    pub name: Option<String>,
    pub size: usize,
    pub mime: &'static str,
}

/// The question that a text answers.
pub struct AskNote {
    /// What the question was taken down as.
    pub event_id: String,
    pub question: String,
    /// The artifacts its answer was written from.
    pub citations: Vec<String>,
}

/// A text to be kept, and what is known of it.
pub struct Capture {
    pub text: String,
    /// What it is filed as.
    pub origin: &'static str,
    /// The door it came in by, where that is told beside what it is filed as.
    pub channel: Option<&'static str>,
    pub title: Option<String>,
    pub note: Option<String>,
    /// The zone a date in it is read in.
    pub tz: Option<String>,
    /// The tag of the language it will be read in.
    pub lang: Option<String>,
    pub intent: Option<Intent>,
    /// The page it was captured from.
    pub source_url: Option<String>,
    /// The day it is an entry into.
    pub day: Option<String>,
    pub file: Option<FileNote>,
    /// The question it answers.
    pub ask: Option<AskNote>,
}

impl Capture {
    /// A text filed as `origin`, with nothing else known of it.
    pub open spec fn is_bare(self, text: Seq<char>, origin: Seq<char>) -> bool {
        &&& self.text@ == text
        &&& self.origin@ == origin
        &&& self.channel is None
        &&& self.title is None
        &&& self.note is None
        &&& self.tz is None
        &&& self.lang is None
        &&& self.intent is None
        &&& self.source_url is None
        &&& self.day is None
        &&& self.file is None
        &&& self.ask is None
    }

    /// A text filed as `origin`, with nothing else known of it.
    pub fn new(text: String, origin: &'static str) -> (r: Capture)
        ensures
            r.is_bare(text@, origin@),
            r.text == text,
            r.origin == origin,
    {
        Capture {
            text,
            origin,
            channel: None,
            title: None,
            note: None,
            tz: None,
            lang: None,
            intent: None,
            source_url: None,
            day: None,
            file: None,
            ask: None,
        }
    }
}

// ---------------------------------------------------------------------------
// What holds of every record
// ---------------------------------------------------------------------------

/// Every status, every kind and every source has a word of its own.
pub proof fn every_word_says_one_thing(s: CorpusStatus, k: Kind, o: Source)
    ensures
        s.word() == "raw"@ <==> s is Raw,
        s.word() == "describing"@ <==> s is Describing,
        s.word() == "extracting"@ <==> s is Extracting,
        s.word() == "segmenting"@ <==> s is Segmenting,
        s.word() == "ready"@ <==> s is Ready,
        s.word() == "partial"@ <==> s is Partial,
        s.word() == "failed"@ <==> s is Failed,
        k.word() == "due"@ <==> k is Due,
        k.word() == "event"@ <==> k is Event,
        o.word() == "set"@ <==> o is ByHand,
        o.word() == "cue"@ <==> o is Cue,
        o.word() == "extracted"@ <==> o is Extracted,
{
    reveal_strlit("raw");
    reveal_strlit("describing");
    reveal_strlit("extracting");
    reveal_strlit("segmenting");
    reveal_strlit("ready");
    reveal_strlit("partial");
    reveal_strlit("failed");
    reveal_strlit("due");
    reveal_strlit("event");
    reveal_strlit("set");
    reveal_strlit("cue");
    reveal_strlit("extracted");
    let w = s.word();
    assert(w.len() > 1 && k.word().len() > 1 && o.word().len() > 1);
    let _ = (w[0], w[1], o.word()[0]);
    assert("describing"@[0] == 'd' && "extracting"@[0] == 'e' && "segmenting"@[0] == 's');
    assert("failed"@.len() == 6 && "ready"@.len() == 5 && "partial"@.len() == 7);
    assert("set"@[0] == 's' && "cue"@[0] == 'c');
}

/// What an artifact came to be by is known by its word, and an unfamiliar word
/// is an ordinary capture. A passage and a note have no name of their own, and
/// only what was merged or synthesized was written from others.
pub proof fn how_an_artifact_came_to_be(word: Seq<char>, p: Provenance)
    ensures
        Provenance::named(word) is Passage <==> word == "passage"@,
        Provenance::named(word) is Note <==> word == "note"@,
        Provenance::named(word) is Merged <==> word == "merged"@,
        Provenance::named(word) is Synthesized <==> word == "synthesized"@,
        p.has_own_name() <==> p is Captured || p is Merged || p is Synthesized,
        p.is_written() <==> p is Merged || p is Synthesized,
{
    reveal_strlit("passage");
    reveal_strlit("note");
    reveal_strlit("merged");
    reveal_strlit("synthesized");
    assert("passage"@.len() == 7 && "note"@.len() == 4 && "merged"@.len() == 6);
    assert("synthesized"@.len() == 11);
}

/// A search may return what is active and has not been taken the place of.
pub proof fn a_search_returns_what_is_active(c: Chunk)
    ensures
        c.is_in_results() <==> c.status is Active && c.superseded_by is None,
{
}

/// A bare capture is its text and what it is filed as.
pub proof fn a_bare_capture_says_nothing_else(c: Capture, text: Seq<char>, origin: Seq<char>)
    requires
        c.is_bare(text, origin),
    ensures
        c.text@ == text,
        c.origin@ == origin,
        c.channel is None,
        c.title is None,
        c.note is None,
        c.tz is None,
        c.lang is None,
        c.intent is None,
        c.source_url is None,
        c.day is None,
        c.file is None,
        c.ask is None,
{
}

} // verus!
