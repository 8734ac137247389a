//! The doors of the programming interface: what a request may ask, what it is
//! refused for, and what it is answered.

use crate::artifact;
use crate::artifact::{search_event, VectorPayload};
use crate::capture;
use crate::capture::{given_of, lend, refuses, Code};
use crate::json;
use crate::json::{Json, Number};
use crate::records::{Chunk, Corpus, Error, Kind, Moment, Source};
use crate::text;
use crate::text::{
    any_same, chars_of, copy_all, copy_opt, decimal_of, is_blank, pieces_of, same, signed_of,
    trimmed,
};
use crate::zones::{on_calendar, zone_named};
use vstd::prelude::*;

verus! {

// ---------------------------------------------------------------------------
// Labels
// ---------------------------------------------------------------------------

/// How many tags an artifact may carry.
pub const MAX_TAGS: usize = 32;

/// How long a tag may be.
pub const MAX_TAG_LEN: usize = 64;

/// How long a category may be.
pub const MAX_CATEGORY_LEN: usize = 64;

/// How long a title may be.
pub const MAX_TITLE_LEN: usize = 512;

/// A refusal in these words.
fn refusal<T>(words: String) -> (r: Result<T, Error>)
    ensures
        refuses(r, words@),
{
    Err(Error::Validation(words))
}

/// The tags a list holds: trimmed, without the blank ones, and each of them
/// once, where it stood first.
pub open spec fn tidy(tags: Seq<Seq<char>>) -> Seq<Seq<char>>
    decreases tags.len(),
{
    if tags.len() == 0 {
        Seq::empty()
    } else {
        let rest = tidy(tags.drop_last());
        let t = text::trim(tags.last());
        if t.len() == 0 || rest.contains(t) {
            rest
        } else {
            rest.push(t)
        }
    }
}

/// A tag of the list is too long to be one.
pub open spec fn overlong(tags: Seq<Seq<char>>) -> bool {
    exists|i: int| 0 <= i < tags.len() && text::trim(#[trigger] tags[i]).len() > MAX_TAG_LEN
}

/// What a list of tags is cleaned to.
pub open spec fn is_cleaned(r: Result<Vec<String>, Error>, tags: Seq<Seq<char>>) -> bool {
    if overlong(tags) {
        refuses(r, "tag is longer than 64 characters"@)
    } else if tidy(tags).len() > MAX_TAGS {
        refuses(
            r,
            "a chunk may carry at most 32 tags, got "@ + text::decimal(tidy(tags).len()),
        )
    } else {
        r matches Ok(v) && text::texts(v@) == tidy(tags)
    }
}

/// The tags a list holds, where they are few enough and short enough.
///
/// Each of them once, and not for tidiness alone: the tags of a search are
/// conditions, and a repeated one is a condition tried twice for one answer.
pub fn clean_tags(tags: &[String]) -> (r: Result<Vec<String>, Error>)
    ensures
        is_cleaned(r, text::texts(tags@)),
{
    let ghost all = text::texts(tags@);
    let mut out: Vec<String> = Vec::new();
    let mut i: usize = 0;
    assert(text::texts(out@) =~= tidy(all.take(0)));
    while i < tags.len()
        invariant
            i <= tags@.len(),
            all == text::texts(tags@),
            text::texts(out@) == tidy(all.take(i as int)),
            forall|j: int| 0 <= j < i ==> text::trim(#[trigger] all[j]).len() <= MAX_TAG_LEN,
        decreases tags.len() - i,
    {
        let t = trimmed(tags[i].as_str());
        assert(all[i as int] == tags@[i as int]@);
        assert(all.take(i + 1).drop_last() =~= all.take(i as int));
        assert(all.take(i + 1).last() == all[i as int]);
        let long: usize = chars_of(t.as_str()).len();
        if long > MAX_TAG_LEN {
            return refusal("tag is longer than 64 characters".to_owned());
        }
        let ghost before = text::texts(out@);
        if long > 0 && !any_same(out.as_slice(), t.as_str()) {
            out.push(t);
            assert(text::texts(out@) =~= before.push(t@));
        }
        i = i + 1;
    }
    assert(all.take(all.len() as int) =~= all);
    let n: usize = out.len();
    assert(text::texts(out@).len() == n);
    if n > MAX_TAGS {
        let mut m = "a chunk may carry at most 32 tags, got ".to_owned();
        m.append(decimal_of(n as u64).as_str());
        return refusal(m);
    }
    Ok(out)
}

/// What a field that can be set and cleared is cleaned to.
pub open spec fn is_set_to(
    r: Result<Option<String>, Error>,
    value: Option<Seq<char>>,
    max: nat,
    field: Seq<char>,
) -> bool {
    if capture::given(value) matches Some(v) && v.len() > max {
        refuses(r, field + " is longer than "@ + text::decimal(max) + " characters"@)
    } else {
        r matches Ok(v) && text::text_of(v) == capture::given(value)
    }
}

/// What a field that can be set and cleared is cleaned to. Nothing left after
/// trimming is a clear, so that a blank and an absence mean the same.
pub fn clean_optional(value: Option<&str>, max: usize, field: &str) -> (r: Result<
    Option<String>,
    Error,
>)
    ensures
        is_set_to(r, text::borrowed(value), max as nat, field@),
{
    match given_of(value) {
        None => Ok(None),
        Some(v) => {
            let long: usize = chars_of(v.as_str()).len();
            if long > max {
                let mut m = field.to_owned();
                m.append(" is longer than ");
                m.append(decimal_of(max as u64).as_str());
                m.append(" characters");
                return refusal(m);
            }
            Ok(Some(v))
        },
    }
}

/// What holds of every list of tags that was cleaned: few enough of them, each
/// of them trimmed, something, short enough and there once.
pub proof fn clean_tags_are_clean(r: Result<Vec<String>, Error>, tags: Seq<Seq<char>>)
    requires
        is_cleaned(r, tags),
    ensures
        r matches Ok(v) ==> {
            let out = text::texts(v@);
            &&& out.len() <= MAX_TAGS
            &&& out.no_duplicates()
            &&& forall|i: int|
                0 <= i < out.len() ==> {
                    &&& 0 < (#[trigger] out[i]).len() <= MAX_TAG_LEN
                    &&& text::trim(out[i]) == out[i]
                }
        },
{
    if !overlong(tags) {
        tidy_is_tidy(tags);
    }
}

proof fn tidy_is_tidy(tags: Seq<Seq<char>>)
    requires
        !overlong(tags),
    ensures
        tidy(tags).no_duplicates(),
        forall|i: int|
            0 <= i < tidy(tags).len() ==> {
                &&& 0 < (#[trigger] tidy(tags)[i]).len() <= MAX_TAG_LEN
                &&& text::trim(tidy(tags)[i]) == tidy(tags)[i]
            },
    decreases tags.len(),
{
    if tags.len() > 0 {
        let rest = tags.drop_last();
        assert(!overlong(rest)) by {
            assert forall|i: int| 0 <= i < rest.len() implies text::trim(#[trigger] rest[i]).len()
                <= MAX_TAG_LEN by {
                assert(rest[i] == tags[i]);
            }
        }
        tidy_is_tidy(rest);
        assert(tags.last() == tags[tags.len() - 1]);
        text::trim_twice(tags.last());
    }
}

/// Nothing that was asked for is lost, and nothing is made up: a tag is there
/// after cleaning exactly where something that trims to it was sent.
pub proof fn no_tag_is_lost(tags: Seq<Seq<char>>, t: Seq<char>)
    ensures
        tidy(tags).contains(t) <==> t.len() > 0 && exists|i: int|
            0 <= i < tags.len() && text::trim(#[trigger] tags[i]) == t,
    decreases tags.len(),
{
    if tags.len() > 0 {
        let rest = tags.drop_last();
        let last = text::trim(tags.last());
        no_tag_is_lost(rest, t);
        if last == t {
            no_tag_is_lost(rest, last);
            assert(text::trim(tags[tags.len() - 1]) == t);
            if t.len() > 0 && !tidy(rest).contains(t) {
                assert(tidy(tags)[tidy(rest).len() as int] == t);
            }
        }
        if tidy(rest).contains(t) {
            let k = choose|k: int| 0 <= k < rest.len() && text::trim(#[trigger] rest[k]) == t;
            assert(text::trim(tags[k]) == t);
            let j = choose|j: int| 0 <= j < tidy(rest).len() && tidy(rest)[j] == t;
            assert(tidy(tags)[j] == t);
        } else if last != t {
            assert forall|i: int| 0 <= i < tags.len() && t.len() > 0 implies text::trim(
                #[trigger] tags[i],
            ) != t by {
                if i < rest.len() {
                    assert(rest[i] == tags[i]);
                }
            }
            assert(!tidy(tags).contains(t));
        }
    }
}

/// Cleaning what is clean changes nothing.
pub proof fn cleaning_twice_is_cleaning_once(tags: Seq<Seq<char>>)
    ensures
        tidy(tidy(tags)) == tidy(tags),
    decreases tags.len(),
{
    if tags.len() > 0 {
        let rest = tags.drop_last();
        let t = text::trim(tags.last());
        cleaning_twice_is_cleaning_once(rest);
        if t.len() > 0 && !tidy(rest).contains(t) {
            text::trim_twice(tags.last());
            assert(tidy(rest).push(t).drop_last() =~= tidy(rest));
            assert(tidy(rest).push(t).last() == t);
        }
    }
}

// ---------------------------------------------------------------------------
// Correcting an artifact
// ---------------------------------------------------------------------------

/// What is to be corrected of an artifact. Of what can be cleared, an absent
/// value leaves it alone and an empty one clears it.
pub struct PatchArtifactRequest {
    pub text: Option<String>,
    pub title: Option<Option<String>>,
    pub category: Option<Option<String>>,
    pub tags: Option<Vec<String>>,
}

/// What is written to an artifact.
pub struct PatchPlan {
    pub text: Option<String>,
    pub title: Option<Option<String>>,
    /// The category as it was asked for, cleaned. What is written is the one of
    /// the closed list that it folds onto, which is the store's to say.
    pub category: Option<Option<String>>,
    pub tags: Option<Vec<String>>,
    /// What the model was shown has changed, so the vector is stale.
    pub revectorize: bool,
}

/// What a field that may be left alone, cleared or set is asked to say.
pub open spec fn asked(field: Option<Option<String>>) -> Option<Option<Seq<char>>> {
    match field {
        Some(v) => Some(text::text_of(v)),
        None => None,
    }
}

/// What a field that may be left alone, cleared or set says once it is cleaned.
pub open spec fn written(field: Option<Option<String>>) -> Option<Option<Seq<char>>> {
    match asked(field) {
        Some(v) => Some(capture::given(v)),
        None => None,
    }
}

/// A field asks for more than it may hold.
pub open spec fn too_long(field: Option<Option<String>>, max: nat) -> bool {
    written(field) matches Some(Some(v)) && v.len() > max
}

/// The tags that a list that may be absent is cleaned to.
pub open spec fn tags_of(tags: Option<Vec<String>>) -> Option<Seq<Seq<char>>> {
    match tags {
        Some(v) => Some(text::texts(v@)),
        None => None,
    }
}

/// What becomes of a correction. Everything is tried before anything is
/// written: half a correction is a state that nobody asked for.
pub open spec fn is_patch(r: Result<PatchPlan, Error>, req: PatchArtifactRequest) -> bool {
    if req.text is None && req.title is None && req.category is None && req.tags is None {
        refuses(r, "no fields to update"@)
    } else if req.text matches Some(t) && text::blank(t@) {
        refuses(r, "chunk text is empty"@)
    } else if too_long(req.title, MAX_TITLE_LEN as nat) {
        refuses(r, "title is longer than 512 characters"@)
    } else if too_long(req.category, MAX_CATEGORY_LEN as nat) {
        refuses(r, "category is longer than 64 characters"@)
    } else if req.tags matches Some(v) && overlong(text::texts(v@)) {
        refuses(r, "tag is longer than 64 characters"@)
    } else if req.tags matches Some(v) && tidy(text::texts(v@)).len() > MAX_TAGS {
        refuses(
            r,
            "a chunk may carry at most 32 tags, got "@ + text::decimal(
                tidy(text::texts(req.tags->0@)).len(),
            ),
        )
    } else {
        &&& r matches Ok(plan)
        &&& text::text_of(plan.text) == (match req.text {
            Some(t) => Some(text::trim(t@)),
            None => None,
        })
        &&& asked(plan.title) == written(req.title)
        &&& asked(plan.category) == written(req.category)
        &&& tags_of(plan.tags) == (match req.tags {
            Some(v) => Some(tidy(text::texts(v@))),
            None => None,
        })
        &&& plan.revectorize <==> req.text is Some || req.title is Some
    }
}

/// Cleans a field that may be left alone, cleared or set.
fn clean_field(field: &Option<Option<String>>, max: usize, name: &str) -> (r: Result<
    Option<Option<String>>,
    Error,
>)
    ensures
        if too_long(*field, max as nat) {
            refuses(r, name@ + " is longer than "@ + text::decimal(max as nat) + " characters"@)
        } else {
            r matches Ok(v) && asked(v) == written(*field)
        },
{
    match field {
        None => Ok(None),
        Some(v) => match clean_optional(lend(v), max, name) {
            Ok(c) => Ok(Some(c)),
            Err(e) => Err(e),
        },
    }
}

proof fn limits_in_words()
    ensures
        "title"@ + " is longer than "@ + text::decimal(512) + " characters"@
            == "title is longer than 512 characters"@,
        "category"@ + " is longer than "@ + text::decimal(64) + " characters"@
            == "category is longer than 64 characters"@,
{
    reveal_strlit("title");
    reveal_strlit("category");
    reveal_strlit(" is longer than ");
    reveal_strlit(" characters");
    reveal_strlit("title is longer than 512 characters");
    reveal_strlit("category is longer than 64 characters");
    reveal_with_fuel(text::decimal, 4);
    assert(text::decimal(512) =~= seq!['5', '1', '2']);
    assert(text::decimal(64) =~= seq!['6', '4']);
    assert("title"@ + " is longer than "@ + text::decimal(512) + " characters"@
        =~= "title is longer than 512 characters"@);
    assert("category"@ + " is longer than "@ + text::decimal(64) + " characters"@
        =~= "category is longer than 64 characters"@);
}

/// What becomes of a correction.
pub fn patch_artifact(req: &PatchArtifactRequest) -> (r: Result<PatchPlan, Error>)
    ensures
        is_patch(r, *req),
{
    if req.text.is_none() && req.title.is_none() && req.category.is_none() && req.tags.is_none() {
        return refusal("no fields to update".to_owned());
    }
    let body = match &req.text {
        Some(t) => {
            if is_blank(t.as_str()) {
                return refusal("chunk text is empty".to_owned());
            }
            Some(trimmed(t.as_str()))
        },
        None => None,
    };
    proof {
        limits_in_words();
    }
    let title = match clean_field(&req.title, MAX_TITLE_LEN, "title") {
        Ok(v) => v,
        Err(e) => {
            return Err(e);
        },
    };
    let category = match clean_field(&req.category, MAX_CATEGORY_LEN, "category") {
        Ok(v) => v,
        Err(e) => {
            return Err(e);
        },
    };
    let tags = match &req.tags {
        Some(v) => match clean_tags(v.as_slice()) {
            Ok(c) => Some(c),
            Err(e) => {
                return Err(e);
            },
        },
        None => None,
    };
    let revectorize = body.is_some() || title.is_some();
    Ok(PatchPlan { text: body, title, category, tags, revectorize })
}

/// What follows a correction that was written.
pub enum AfterPatch {
    /// The artifact is embedded anew.
    Embed,
    /// What is kept beside its vector is rewritten in place.
    Rewrite(VectorPayload),
    Nothing,
}

/// `p` is what is kept beside the vector of `c`.
pub open spec fn is_payload(p: VectorPayload, c: Chunk) -> bool {
    &&& p.artifact_id@ == c.id@
    &&& p.corpus_id@ == text::or_empty(c.corpus_id)
    &&& p.text@ == c.text@
    &&& text::text_of(p.title) == text::text_of(c.title)
    &&& text::text_of(p.category) == text::text_of(c.category)
    &&& text::texts(p.tags@) == text::texts(c.tags@)
    &&& p.created_at == c.created_at
    &&& p.provenance is None
    &&& p.snippet@ == c.opening@
}

/// What follows a correction that was written. Where nothing that the model
/// was shown has changed there is nothing to embed, and where nothing has been
/// embedded yet there is nothing to rewrite.
pub fn after_patch(revectorize: bool, embedded: bool, c: &Chunk) -> (r: AfterPatch)
    ensures
        if revectorize {
            r is Embed
        } else if embedded {
            r matches AfterPatch::Rewrite(p) && is_payload(p, *c)
        } else {
            r is Nothing
        },
{
    if revectorize {
        return AfterPatch::Embed;
    }
    if !embedded {
        return AfterPatch::Nothing;
    }
    AfterPatch::Rewrite(
        VectorPayload {
            artifact_id: c.id.clone(),
            corpus_id: match &c.corpus_id {
                Some(id) => id.clone(),
                None => String::new(),
            },
            text: c.text.clone(),
            title: copy_opt(&c.title),
            category: copy_opt(&c.category),
            tags: copy_all(c.tags.as_slice()),
            created_at: c.created_at,
            provenance: None,
            snippet: c.opening.clone(),
        },
    )
}

/// A correction that only touches labels never costs an embedding, and one
/// that touches what the model was shown always does.
pub proof fn a_label_costs_no_embedding(
    r: Result<PatchPlan, Error>,
    req: PatchArtifactRequest,
)
    requires
        is_patch(r, req),
        r is Ok,
    ensures
        r->Ok_0.revectorize <==> r->Ok_0.text is Some || r->Ok_0.title is Some,
        req.text is None && req.title is None ==> !r->Ok_0.revectorize,
{
}

// ---------------------------------------------------------------------------
// Reading
// ---------------------------------------------------------------------------

/// A flag of a query string is on.
pub open spec fn flag_on(v: Seq<char>) -> bool {
    ||| text::trim(v) == ""@
    ||| text::trim(v) == "1"@
    ||| text::trim(v) == "true"@
    ||| text::trim(v) == "yes"@
    ||| text::trim(v) == "on"@
}

/// Whether a flag of a query string is on, in the spellings a query string
/// carries. A flag without a value is on: writing it at all is the request.
pub fn query_flag(raw: Option<&str>) -> (r: Option<bool>)
    ensures
        r == (match raw {
            Some(v) => Some(flag_on(v@)),
            None => None,
        }),
{
    match raw {
        None => None,
        Some(v) => {
            let t = trimmed(v);
            let t = t.as_str();
            Some(
                same(t, "") || same(t, "1") || same(t, "true") || same(t, "yes") || same(t, "on"),
            )
        },
    }
}

/// Whether the bytes as uploaded are asked for, and not the preview.
pub fn wants_original(original: Option<&str>) -> (r: bool)
    ensures
        r <==> (original matches Some(v) && (v@ == "1"@ || v@ == "true"@)),
{
    match original {
        Some(v) => same(v, "1") || same(v, "true"),
        None => false,
    }
}

/// A stored file, as it is sent.
pub struct Attachment {
    pub mime: String,
    pub cache_control: &'static str,
    pub bytes: Vec<u8>,
}

/// How long a reader may keep a stored file: an hour, and nobody else may.
pub const KEEP_AN_HOUR: &'static str = "private, max-age=3600";

/// A stored file, as it is sent, where there is one.
pub fn attachment(found: Option<(String, Vec<u8>)>) -> (r: Result<Attachment, Error>)
    ensures
        match found {
            Some(f) => r matches Ok(a) && a.mime == f.0 && a.bytes == f.1 && a.cache_control@
                == KEEP_AN_HOUR@,
            None => r matches Err(Error::NotFound),
        },
{
    match found {
        Some((mime, bytes)) => Ok(Attachment { mime, cache_control: KEEP_AN_HOUR, bytes }),
        None => Err(Error::NotFound),
    }
}

/// Which rows of a list are asked for.
pub struct ListParams {
    pub limit: i64,
    pub offset: i64,
}

/// How many rows a list has where nobody says how many.
pub const DEFAULT_LIMIT: i64 = 50;

/// How many rows a list may have.
pub const MOST_ROWS: i64 = 200;

/// Which rows of a list are read: at least one, at most two hundred, and none
/// before the first.
pub fn page_of(p: &ListParams) -> (r: (i64, i64))
    ensures
        r.0 == (if p.limit < 1 {
            1
        } else if p.limit > MOST_ROWS {
            MOST_ROWS
        } else {
            p.limit
        }),
        r.1 == (if p.offset < 0 {
            0
        } else {
            p.offset
        }),
{
    let limit: i64 = if p.limit < 1 {
        1
    } else if p.limit > MOST_ROWS {
        MOST_ROWS
    } else {
        p.limit
    };
    let offset: i64 = if p.offset < 0 {
        0
    } else {
        p.offset
    };
    (limit, offset)
}

/// How many forgotten artifacts are asked for.
pub struct StaleParams {
    pub limit: Option<usize>,
}

/// How many forgotten artifacts are listed.
pub fn stale_limit(p: &StaleParams) -> (r: usize)
    ensures
        r == (match p.limit {
            Some(n) => n,
            None => 20,
        }),
{
    match p.limit {
        Some(n) => n,
        None => 20,
    }
}

/// How many artifacts are to be brought back to mind.
pub struct ResurfaceParams {
    pub limit: Option<usize>,
}

/// How many artifacts are brought back to mind.
pub fn resurface_limit(p: &ResurfaceParams) -> (r: usize)
    ensures
        r == (match p.limit {
            Some(n) => n,
            None => 5,
        }),
{
    match p.limit {
        Some(n) => n,
        None => 5,
    }
}

/// A source and everything written from it.
pub struct CorpusDetail {
    pub source: Corpus,
    pub chunks: Vec<Chunk>,
}

/// Enough of a source to say where a passage came from, and no more: the text
/// of a captured book is the whole book.
pub struct SourceRef {
    pub id: String,
    pub title: Option<String>,
    pub origin: String,
    pub source_url: Option<String>,
}

/// One artifact, and the source it was captured from.
pub struct ArtifactDetail {
    pub artifact: Chunk,
    pub source: Option<SourceRef>,
    /// The search this was opened from.
    pub search_event: Option<String>,
}

/// What an open says of the search it came from.
pub struct OpenedFrom<'a> {
    /// Whether searches are recorded.
    pub learning: bool,
    /// The search that the request names.
    pub event: Option<&'a str>,
    /// Whether that is the reader's own.
    pub mine: bool,
    /// Whether the open was taken down under it.
    pub taken: bool,
}

/// One artifact, the source it was captured from, and the search it was opened
/// from. A reading is not refused because the source behind it is gone, and an
/// artifact that belongs to no single source has none.
pub fn get_artifact(artifact: Chunk, found: Option<SourceRef>, from: &OpenedFrom) -> (r:
    ArtifactDetail)
    ensures
        r.artifact == artifact,
        r.source == (if artifact.corpus_id is Some {
            found
        } else {
            None
        }),
        text::text_of(r.search_event) == artifact::counted_under(
            from.learning,
            crate::records::in_results_spec(artifact.status, artifact.superseded_by is Some),
            text::borrowed(from.event),
            from.mine,
            from.taken,
        ),
{
    let source = match &artifact.corpus_id {
        Some(_) => found,
        None => None,
    };
    let search_event = search_event(
        artifact.in_results(),
        from.learning,
        from.event,
        from.mine,
        from.taken,
    );
    ArtifactDetail { artifact, source, search_event }
}

/// From which stage a source is to be read again.
pub struct ReprocessRequest {
    pub stage: String,
}

/// The stage a source is read again from where nobody names one.
pub const DEFAULT_STAGE: &'static str = "segment";

/// From which stage a source is read again: the one that is named, and where
/// none is it is segmented again.
pub fn stage_asked(stage: Option<String>) -> (r: ReprocessRequest)
    ensures
        r.stage@ == (match stage {
            Some(s) => s@,
            None => DEFAULT_STAGE@,
        }),
{
    match stage {
        Some(stage) => ReprocessRequest { stage },
        None => ReprocessRequest { stage: DEFAULT_STAGE.to_owned() },
    }
}

/// The stage a request names. `parsed` is the stage of that name, where there
/// is one.
pub fn reprocess<S>(req: &ReprocessRequest, parsed: Option<S>) -> (r: Result<S, Error>)
    ensures
        match parsed {
            Some(stage) => r == Ok::<S, Error>(stage),
            None => refuses(r, "unknown stage `"@ + req.stage@ + "`"@),
        },
{
    match parsed {
        Some(stage) => Ok(stage),
        None => {
            let mut m = "unknown stage `".to_owned();
            m.append(req.stage.as_str());
            m.append("`");
            refusal(m)
        },
    }
}

// ---------------------------------------------------------------------------
// Searching and asking
// ---------------------------------------------------------------------------

/// What a search asks for.
pub struct SearchParams {
    pub q: String,
    /// How many ranked hits to return.
    pub limit: Option<usize>,
    /// The tags a hit must carry, with commas between them.
    pub tags: Option<String>,
    pub category: Option<String>,
    pub include_deprecated: bool,
    pub include_superseded: bool,
    /// Which client is asking.
    pub door: Option<String>,
    /// Whether the hits are ordered a second time, by the better judge.
    pub rerank: Option<bool>,
    /// Whether the ranking is to be explained.
    pub explain: Option<bool>,
}

/// Which client an ask says it came through.
pub struct AskParams {
    pub door: Option<String>,
}

/// The client a search or an ask came through.
#[derive(Clone, Copy, PartialEq, Eq, Structural, Debug)]
pub enum Door {
    /// Whoever holds a token.
    Api,
    /// The panel of the browser extension.
    Extension,
    /// A shell.
    Cli,
    /// The app on a phone.
    App,
}

/// The client that a name stands for. A name that is not a client's is a
/// token's, whatever it claims.
pub open spec fn door_named(name: Seq<char>) -> Door {
    if name == "extension"@ {
        Door::Extension
    } else if name == "cli"@ {
        Door::Cli
    } else if name == "app"@ {
        Door::App
    } else {
        Door::Api
    }
}

/// The client a request names, or the one it is taken for where it names none.
pub open spec fn door_asked(name: Option<Seq<char>>, default: Door) -> Door {
    match name {
        Some(n) => door_named(n),
        None => default,
    }
}

impl Door {
    /// The client that a name stands for.
    pub fn from_client(name: &str) -> (r: Door)
        ensures
            r == door_named(name@),
    {
        if same(name, "extension") {
            Door::Extension
        } else if same(name, "cli") {
            Door::Cli
        } else if same(name, "app") {
            Door::App
        } else {
            Door::Api
        }
    }
}

/// The client a question came through, and on whose behalf.
pub struct Origin {
    pub door: Door,
    pub scope: Option<String>,
}

/// On whose behalf a client asks: a client with a known person says who, and a
/// token is not a person.
pub open spec fn scope_of(door: Door, subject: Seq<char>) -> Option<Seq<char>> {
    match door {
        Door::Extension | Door::Cli | Door::App => Some(subject),
        Door::Api => None,
    }
}

/// The client a question came through, and on whose behalf. `default` is what
/// a question that names no client is taken for.
pub fn ask_origin(door: Option<&str>, subject: &str, default: Door) -> (r: Origin)
    ensures
        r.door == door_asked(text::borrowed(door), default),
        text::text_of(r.scope) == scope_of(r.door, subject@),
{
    let door = match door {
        Some(n) => Door::from_client(n),
        None => default,
    };
    let scope = match door {
        Door::Extension | Door::Cli | Door::App => Some(subject.to_owned()),
        Door::Api => None,
    };
    Origin { door, scope }
}

/// What is searched for.
pub struct SearchQuery {
    pub q: String,
    /// How many ranked hits; none for as many as there are by default.
    pub limit: usize,
    pub tags: Vec<String>,
    pub category: Option<String>,
    /// Whether what it finds counts as seen.
    pub mark: bool,
    pub include_deprecated: bool,
    pub include_superseded: bool,
    pub rerank: bool,
    pub explain: bool,
}

/// What is left of some texts once each of them is trimmed and the blank ones
/// are gone.
pub open spec fn named_of(pieces: Seq<Seq<char>>) -> Seq<Seq<char>>
    decreases pieces.len(),
{
    if pieces.len() == 0 {
        Seq::empty()
    } else {
        let rest = named_of(pieces.drop_last());
        let t = text::trim(pieces.last());
        if t.len() == 0 {
            rest
        } else {
            rest.push(t)
        }
    }
}

/// The tags that a list with commas between them names.
pub fn listed(s: &str) -> (r: Vec<String>)
    ensures
        text::texts(r@) == named_of(text::pieces(s@, ',')),
{
    let pieces = pieces_of(s, ',');
    let ghost all = text::texts(pieces@);
    let mut out: Vec<String> = Vec::new();
    let mut i: usize = 0;
    assert(text::texts(out@) =~= named_of(all.take(0)));
    while i < pieces.len()
        invariant
            i <= pieces@.len(),
            all == text::texts(pieces@),
            text::texts(out@) == named_of(all.take(i as int)),
        decreases pieces.len() - i,
    {
        let t = trimmed(pieces[i].as_str());
        assert(all.take(i + 1).drop_last() =~= all.take(i as int));
        assert(all.take(i + 1).last() == pieces@[i as int]@);
        let ghost before = text::texts(out@);
        if !t.as_str().is_empty() {
            out.push(t);
            assert(text::texts(out@) =~= before.push(t@));
        }
        i = i + 1;
    }
    assert(all.take(all.len() as int) =~= all);
    out
}

/// What a search asks for, in full. The panel of the extension types: it sends
/// a query as a run of its own beginnings, so that nothing it finds counts as
/// seen and nothing is ordered twice unless that is asked for.
pub open spec fn is_search(r: (SearchQuery, Origin), q: SearchParams, subject: Seq<char>) -> bool {
    let door = door_asked(text::text_of(q.door), Door::Api);
    let typing = door == Door::Extension;
    &&& r.0.q@ == q.q@
    &&& r.0.limit == (match q.limit {
        Some(n) => n,
        None => 0,
    })
    &&& text::texts(r.0.tags@) == (match q.tags {
        Some(t) => named_of(text::pieces(t@, ',')),
        None => Seq::empty(),
    })
    &&& text::text_of(r.0.category) == (match q.category {
        Some(c) => if c@.len() > 0 {
            Some(c@)
        } else {
            None
        },
        None => None,
    })
    &&& r.0.mark == !typing
    &&& r.0.include_deprecated == q.include_deprecated
    &&& r.0.include_superseded == q.include_superseded
    &&& r.0.rerank == (match q.rerank {
        Some(b) => b,
        None => !typing,
    })
    &&& r.0.explain == (q.explain == Some(true))
    &&& r.1.door == door
    &&& text::text_of(r.1.scope) == scope_of(door, subject)
}

/// What a search asks for, in full: one decision for every door that searches.
pub fn search_request(subject: &str, q: SearchParams) -> (r: (SearchQuery, Origin))
    ensures
        is_search(r, q, subject@),
{
    let origin = ask_origin(lend(&q.door), subject, Door::Api);
    let typing = match origin.door {
        Door::Extension => true,
        _ => false,
    };
    let tags = match &q.tags {
        Some(t) => listed(t.as_str()),
        None => Vec::new(),
    };
    assert(q.tags is None ==> text::texts(tags@) =~= Seq::<Seq<char>>::empty());
    let category = match q.category {
        Some(c) => if c.as_str().is_empty() {
            None
        } else {
            Some(c)
        },
        None => None,
    };
    let limit: usize = match q.limit {
        Some(n) => n,
        None => 0,
    };
    let query = SearchQuery {
        q: q.q,
        limit,
        tags,
        category,
        mark: !typing,
        include_deprecated: q.include_deprecated,
        include_superseded: q.include_superseded,
        rerank: match q.rerank {
            Some(b) => b,
            None => !typing,
        },
        explain: match q.explain {
            Some(b) => b,
            None => false,
        },
    };
    (query, origin)
}

/// Whether there is a door to ask at: without a model that answers there is
/// none.
pub fn ask_door(asks: bool) -> (r: Result<(), Error>)
    ensures
        asks ==> r is Ok,
        !asks ==> r matches Err(Error::NotFound),
{
    if asks {
        Ok(())
    } else {
        Err(Error::NotFound)
    }
}

/// No client can be claimed into being: whatever name is sent, a question
/// comes through the extension, a shell, the app or a token, and all but the
/// last speak for a person.
pub proof fn a_client_cannot_launder_its_question(
    name: Seq<char>,
    default: Door,
    subject: Seq<char>,
)
    ensures
        name != "extension"@ && name != "cli"@ && name != "app"@ ==> door_asked(
            Some(name),
            default,
        ) == Door::Api && scope_of(door_asked(Some(name), default), subject) is None,
{
}

/// Only the app is told what its search was taken down as, and it is always
/// told; nobody else's answer has such a member, whatever was taken down.
pub proof fn only_the_app_can_name_its_search(
    r: Json,
    door: Door,
    results: Json,
    explanation: Json,
    explain: bool,
    recorded: Option<Seq<char>>,
)
    requires
        is_search_answer(r, results, explanation, explain, event_shown(door, recorded)),
    ensures
        door == Door::App && recorded is Some ==> (r matches Json::Object(m) && m@.last().0@
            == "event"@ && (m@.last().1 matches Json::Text(t) && t@ == recorded->0)),
        door != Door::App && !explain ==> r == results,
        door != Door::App && explain ==> (r matches Json::Object(m) && forall|i: int|
            0 <= i < m@.len() ==> (#[trigger] m@[i]).0@ != "event"@),
{
    reveal_strlit("results");
    reveal_strlit("explanation");
    reveal_strlit("event");
    assert("results"@.len() != "event"@.len());
    assert("explanation"@.len() != "event"@.len());
}

/// Typing is not reading: what the extension's panel finds while somebody
/// types never counts as seen.
pub proof fn typing_is_not_reading(r: (SearchQuery, Origin), q: SearchParams, subject: Seq<char>)
    requires
        is_search(r, q, subject),
    ensures
        r.1.door == Door::Extension ==> !r.0.mark && (q.rerank is None ==> !r.0.rerank),
        r.1.door != Door::Extension ==> r.0.mark,
{
}

// ---------------------------------------------------------------------------
// Moments
// ---------------------------------------------------------------------------

/// The first second of the year one.
pub const YEAR_ONE: i64 = -62_135_596_800;

/// The last second of the year 9999.
pub const END_OF_9999: i64 = 253_402_300_799;

/// Which moments are asked for.
pub struct MomentsQuery {
    pub from: Option<i64>,
    pub to: Option<i64>,
    /// `due`, which is what an absence means, or `event`.
    pub kind: Option<String>,
}

/// Which moments are listed.
#[derive(Clone, Copy, PartialEq, Eq, Structural, Debug)]
pub enum Window {
    /// What is open and due until then, as things stand now.
    Due { now: i64, to: i64 },
    /// What refers to a stretch of time.
    Events { from: i64, to: i64 },
}

/// The kind of moment a word stands for; an absence stands for a reminder.
pub open spec fn kind_asked(kind: Option<Seq<char>>) -> Option<Kind> {
    match kind {
        None => Some(Kind::Due),
        Some(w) => if w == "due"@ {
            Some(Kind::Due)
        } else if w == "event"@ {
            Some(Kind::Event)
        } else {
            None
        },
    }
}

/// The words that refuse a kind of moment that there is not.
pub open spec fn kind_words(kind: Option<Seq<char>>) -> Seq<char> {
    "kind="@ + kind->0 + ": `due` or `event`"@
}

/// The kind of moment a word stands for.
pub fn kind_of(kind: Option<&str>) -> (r: Result<Kind, Error>)
    ensures
        match kind_asked(text::borrowed(kind)) {
            Some(k) => r matches Ok(x) && x == k,
            None => refuses(r, kind_words(text::borrowed(kind))),
        },
{
    match kind {
        None => Ok(Kind::Due),
        Some(w) => {
            if same(w, "due") {
                return Ok(Kind::Due);
            }
            if same(w, "event") {
                return Ok(Kind::Event);
            }
            let mut m = "kind=".to_owned();
            m.append(w);
            m.append(": `due` or `event`");
            refusal(m)
        },
    }
}

/// Which moments are listed. What is due is measured from now and never from
/// where the window opens: an overdue reminder is the one that most deserves
/// to be listed, and what is put aside until the window opens is not due yet.
pub fn list_moments(q: &MomentsQuery, now: i64, horizon_hours: u32) -> (r: Result<Window, Error>)
    requires
        q.to is None ==> now + horizon_hours * 3600 <= i64::MAX,
    ensures
        ({
            let from = match q.from {
                Some(t) => t as int,
                None => now as int,
            };
            let to = match q.to {
                Some(t) => t as int,
                None => now + horizon_hours * 3600,
            };
            match kind_asked(text::text_of(q.kind)) {
                None => refuses(r, kind_words(text::text_of(q.kind))),
                Some(Kind::Due) => r matches Ok(Window::Due { now: n, to: t }) && n == now && t
                    == to,
                Some(Kind::Event) => r matches Ok(Window::Events { from: f, to: t }) && f == from
                    && t == to,
            }
        }),
{
    let from: i64 = match q.from {
        Some(t) => t,
        None => now,
    };
    let to: i64 = match q.to {
        Some(t) => t,
        None => now + horizon_hours as i64 * 3600,
    };
    match kind_of(lend(&q.kind)) {
        Ok(Kind::Due) => Ok(Window::Due { now, to }),
        Ok(Kind::Event) => Ok(Window::Events { from, to }),
        Err(e) => Err(e),
    }
}

/// Until when a reminder is to be put aside.
pub struct SnoozeBody {
    pub until: i64,
}

/// The words that refuse to put a reminder aside, where something does.
pub open spec fn snooze_refusal(until: i64, now: i64, undated: bool) -> Option<Seq<char>> {
    if !(YEAR_ONE <= until <= END_OF_9999) {
        Some("until="@ + text::signed(until as int) + ": outside the range a date can be spelled in"@)
    } else if until <= now {
        Some(
            "until must be in the future; to put a reminder back on the band, DELETE the snooze instead"@,
        )
    } else if undated {
        Some(
            "this reminder has no date, so there is nothing to put it aside until;              set a date first"@,
        )
    } else {
        None
    }
}

/// Whether a reminder may be put aside. Never until an instant that is past:
/// that would not hide it, and would take its warnings from it for good. And a
/// reminder without a date has nothing to be put aside until.
pub fn may_snooze(b: &SnoozeBody, now: i64, found: Option<&Moment>) -> (r: Result<(), Error>)
    ensures
        match snooze_refusal(b.until, now, found matches Some(m) && m.at is None) {
            Some(words) => refuses(r, words),
            None => r is Ok,
        },
{
    if !(YEAR_ONE <= b.until && b.until <= END_OF_9999) {
        let mut m = "until=".to_owned();
        m.append(signed_of(b.until).as_str());
        m.append(": outside the range a date can be spelled in");
        return refusal(m);
    }
    if b.until <= now {
        return refusal(
            "until must be in the future; to put a reminder back on the band, DELETE the snooze instead".to_owned(),
        );
    }
    match found {
        Some(m) => {
            if m.at.is_none() {
                return refusal(
                    "this reminder has no date, so there is nothing to put it aside until;              set a date first".to_owned(),
                );
            }
            Ok(())
        },
        None => Ok(()),
    }
}

/// What putting a reminder aside is answered: nothing to say where it moved,
/// and that there is no such reminder where nothing did.
pub fn snoozed(moved: bool) -> (r: Result<Code, Error>)
    ensures
        moved ==> (r matches Ok(c) && c == Code::Done),
        !moved ==> r matches Err(Error::NotFound),
{
    if moved {
        Ok(Code::Done)
    } else {
        Err(Error::NotFound)
    }
}

/// A moment somebody sets on an artifact they name.
pub struct NewMomentBody {
    pub at: i64,
    pub tz: Option<String>,
    /// `due`, which is what an absence means, or `event`.
    pub kind: Option<String>,
    pub rule: Option<String>,
}

/// A moment to be stored.
pub struct NewMoment {
    pub artifact_id: String,
    pub kind: Kind,
    pub at: Option<i64>,
    pub tz: String,
    pub rule: Option<String>,
    pub source: Source,
}

/// What becomes of a moment that is set. `bad_rule` is what is wrong with the
/// rule it recurs by, and `known` whether the zone table has its zone.
pub open spec fn is_new_moment(
    r: Result<NewMoment, Error>,
    artifact: Seq<char>,
    b: NewMomentBody,
    bad_rule: Option<Seq<char>>,
    known: bool,
) -> bool {
    let tz = capture::given(text::text_of(b.tz));
    if kind_asked(text::text_of(b.kind)) is None {
        refuses(r, kind_words(text::text_of(b.kind)))
    } else if b.rule is Some && bad_rule is Some {
        refuses(r, bad_rule->0)
    } else if !(YEAR_ONE <= b.at <= END_OF_9999) {
        refuses(
            r,
            "at="@ + text::signed(b.at as int)
                + ": seconds since the epoch, within the years 1 to 9999"@,
        )
    } else if tz is Some && !known {
        refuses(r, "tz="@ + tz->0 + ": not an IANA zone name"@)
    } else {
        &&& r matches Ok(m)
        &&& m.artifact_id@ == artifact
        &&& Some(m.kind) == kind_asked(text::text_of(b.kind))
        &&& m.at == Some(b.at)
        &&& m.tz@ == (match tz {
            Some(name) => name,
            None => "UTC"@,
        })
        &&& text::text_of(m.rule) == text::text_of(b.rule)
        &&& m.source == Source::ByHand
    }
}

/// What becomes of a moment that is set, given what is wrong with its rule and
/// the zone it names as the table spells it.
pub fn plan_moment(
    artifact: &str,
    b: NewMomentBody,
    bad_rule: Option<String>,
    zone: Option<String>,
) -> (r: Result<NewMoment, Error>)
    requires
        zone matches Some(z) ==> capture::given(text::text_of(b.tz)) == Some(z@),
    ensures
        is_new_moment(r, artifact@, b, text::text_of(bad_rule), zone is Some),
{
    let kind = match kind_of(lend(&b.kind)) {
        Ok(k) => k,
        Err(e) => {
            return Err(e);
        },
    };
    match (&b.rule, bad_rule) {
        (Some(_), Some(why)) => {
            return refusal(why);
        },
        _ => {},
    }
    let spelled = on_calendar(b.at) && YEAR_ONE <= b.at && b.at <= END_OF_9999;
    if !spelled {
        let mut m = "at=".to_owned();
        m.append(signed_of(b.at).as_str());
        m.append(": seconds since the epoch, within the years 1 to 9999");
        return refusal(m);
    }
    let tz = match given_of(lend(&b.tz)) {
        None => "UTC".to_owned(),
        Some(name) => match zone {
            Some(z) => z,
            None => {
                let mut m = "tz=".to_owned();
                m.append(name.as_str());
                m.append(": not an IANA zone name");
                return refusal(m);
            },
        },
    };
    Ok(
        NewMoment {
            artifact_id: artifact.to_owned(),
            kind,
            at: Some(b.at),
            tz,
            rule: b.rule,
            source: Source::ByHand,
        },
    )
}

/// What becomes of a moment that is set. Its kind, its rule, its instant and
/// its zone are all held to: a typo in any of them would otherwise stay on the
/// row as though somebody had asked for it.
pub fn set_moment(artifact: &str, b: NewMomentBody, bad_rule: Option<String>) -> (r: Result<
    NewMoment,
    Error,
>)
    ensures
        is_new_moment(
            r,
            artifact@,
            b,
            text::text_of(bad_rule),
            capture::zone_given(text::text_of(b.tz)),
        ),
{
    let zone = match given_of(lend(&b.tz)) {
        Some(name) => zone_named(name.as_str()),
        None => None,
    };
    plan_moment(artifact, b, bad_rule, zone)
}

/// Every moment that is stored, and every instant a reminder is put aside
/// until, lies in the years a date can be spelled in.
pub proof fn a_moment_can_be_spelled(
    r: Result<NewMoment, Error>,
    artifact: Seq<char>,
    b: NewMomentBody,
    bad_rule: Option<Seq<char>>,
    known: bool,
    until: i64,
    now: i64,
    undated: bool,
)
    requires
        is_new_moment(r, artifact, b, bad_rule, known),
    ensures
        r matches Ok(m) ==> (m.at matches Some(at) && YEAR_ONE <= at <= END_OF_9999),
        snooze_refusal(until, now, undated) is None ==> YEAR_ONE <= until <= END_OF_9999 && now
            < until,
{
}

// ---------------------------------------------------------------------------
// How things stand
// ---------------------------------------------------------------------------

/// What the base has been learning.
pub struct Learning {
    pub pursuits_open: i64,
    pub pursuits_unsatisfied: i64,
    pub from_pursuits: i64,
    pub gaps_open: i64,
}

/// What the last sweep of retired artifacts did, and how many of them still
/// hold their text.
pub struct ReapStatus {
    pub judged: i64,
    pub reaped: i64,
    pub rescued: i64,
    pub retired_waiting: i64,
}

/// How things stand.
pub struct StatusResponse {
    pub sources: Vec<(String, i64)>,
    pub jobs: Vec<(String, i64)>,
    pub failed: Vec<Json>,
    pub oldest_pending_secs: Option<i64>,
    pub chunks: i64,
    pub vectors: u64,
    /// Absent rather than nothing but zeroes: a faculty that was never
    /// switched on is not failing.
    pub learning: Option<Learning>,
    /// Absent while the sweep is off.
    pub reap: Option<ReapStatus>,
    /// Whether anything is being learnt.
    pub learn: bool,
    /// Whether there is a model that answers questions.
    pub asks: bool,
    /// Whether there is a model that reads pictures.
    pub vision: bool,
    /// Whether the search box offers anything.
    pub recommend: bool,
    pub held: Held,
    pub last_kept: Option<LastKept>,
    pub examples: Examples,
    /// Whether the base is young enough to be told how it is used.
    pub teach: bool,
}

/// What the base holds.
pub struct Held {
    pub corpora: i64,
}

/// The source that was kept last.
pub struct LastKept {
    pub id: String,
}

/// Things one might say to the base.
pub struct Examples {
    /// The language they are said in.
    pub lang: String,
}

/// What is counted for the page of how things stand.
pub struct StatusRows {
    pub sources: Vec<(String, i64)>,
    pub jobs: Vec<(String, i64)>,
    pub failed: Vec<Json>,
    pub oldest_pending_secs: Option<i64>,
    pub chunks: i64,
    /// None where the vectors could not be counted.
    pub vectors: Option<u64>,
    /// Whether anything is being learnt.
    pub learns: bool,
    /// What has been learnt. Nothing is counted while nothing is.
    pub learning: Learning,
    pub reap_enabled: bool,
    /// Whether there is a judge to sweep with.
    pub has_judge: bool,
    /// What the last sweep noted of itself, where there was one.
    pub last_reap: Option<String>,
    pub retired_waiting: i64,
    pub asks: bool,
    pub vision: bool,
    pub recommend: bool,
    pub held: Held,
    pub last_kept: Option<LastKept>,
    /// Whether the base is young enough to be told how it is used.
    pub teach: bool,
}

/// The integer that a JSON document holds under a key.
pub uninterp spec fn json_count(document: Seq<char>, key: Seq<char>) -> Option<i64>;

/// `from_str` of serde_json, and `get` and `as_i64` of its `Value`: the integer
/// that a document holds under a key, none where the text is no document, the
/// document is no object with that key, or what is under it is no integer.
#[verifier::external_body]
fn count_in(document: &str, key: &str) -> (r: Option<i64>)
    ensures
        r == json_count(document@, key@),
{
    serde_json::from_str::<serde_json::Value>(document).ok()?.get(key)?.as_i64()
}

/// A count that may be missing.
pub open spec fn or_zero(n: Option<i64>) -> i64 {
    match n {
        Some(x) => x,
        None => 0,
    }
}

/// A count that may be missing.
fn counted(n: Option<i64>) -> (r: i64)
    ensures
        r == or_zero(n),
{
    match n {
        Some(x) => x,
        None => 0,
    }
}

/// What a sweep did, given what it noted of each count.
pub fn reap_of(
    judged: Option<i64>,
    reaped: Option<i64>,
    rescued: Option<i64>,
    retired_waiting: i64,
) -> (r: ReapStatus)
    ensures
        r.judged == or_zero(judged),
        r.reaped == or_zero(reaped),
        r.rescued == or_zero(rescued),
        r.retired_waiting == retired_waiting,
{
    ReapStatus {
        judged: counted(judged),
        reaped: counted(reaped),
        rescued: counted(rescued),
        retired_waiting,
    }
}

/// What a sweep noted under a key.
pub open spec fn noted(last: Option<String>, key: Seq<char>) -> i64 {
    match last {
        Some(d) => or_zero(json_count(d@, key)),
        None => 0,
    }
}

/// How things stand. Nothing is said of learning while nothing is learnt, and
/// nothing of a sweep that cannot run. That the vectors cannot be counted just
/// now does not take the page away, which is where one looks when something is
/// wrong.
///
/// `lang` is the language of whoever asks, which is the one they are spoken to
/// in.
pub fn status(rows: StatusRows, lang: &str) -> (r: StatusResponse)
    ensures
        r.sources == rows.sources,
        r.jobs == rows.jobs,
        r.failed == rows.failed,
        r.oldest_pending_secs == rows.oldest_pending_secs,
        r.chunks == rows.chunks,
        r.vectors == (match rows.vectors {
            Some(n) => n,
            None => 0,
        }),
        r.learning == (if rows.learns {
            Some(rows.learning)
        } else {
            None
        }),
        r.reap is Some <==> rows.reap_enabled && rows.has_judge,
        r.reap matches Some(x) ==> {
            &&& x.judged == noted(rows.last_reap, "judged"@)
            &&& x.reaped == noted(rows.last_reap, "reaped"@)
            &&& x.rescued == noted(rows.last_reap, "rescued"@)
            &&& x.retired_waiting == rows.retired_waiting
        },
        r.learn == rows.learns,
        r.asks == rows.asks,
        r.vision == rows.vision,
        r.recommend == rows.recommend,
        r.held == rows.held,
        r.last_kept == rows.last_kept,
        r.examples.lang@ == lang@,
        r.teach == rows.teach,
{
    let reap = if rows.reap_enabled && rows.has_judge {
        Some(
            match &rows.last_reap {
                Some(d) => reap_of(
                    count_in(d.as_str(), "judged"),
                    count_in(d.as_str(), "reaped"),
                    count_in(d.as_str(), "rescued"),
                    rows.retired_waiting,
                ),
                None => reap_of(None, None, None, rows.retired_waiting),
            },
        )
    } else {
        None
    };
    StatusResponse {
        sources: rows.sources,
        jobs: rows.jobs,
        failed: rows.failed,
        oldest_pending_secs: rows.oldest_pending_secs,
        chunks: rows.chunks,
        vectors: match rows.vectors {
            Some(n) => n,
            None => 0,
        },
        learning: if rows.learns {
            Some(rows.learning)
        } else {
            None
        },
        reap,
        learn: rows.learns,
        asks: rows.asks,
        vision: rows.vision,
        recommend: rows.recommend,
        held: rows.held,
        last_kept: rows.last_kept,
        examples: Examples { lang: lang.to_owned() },
        teach: rows.teach,
    }
}

// ---------------------------------------------------------------------------
// Answers and frames
// ---------------------------------------------------------------------------

/// `v` is an object with one member.
pub open spec fn is_single(v: Json, key: Seq<char>, value: Json) -> bool {
    v matches Json::Object(m) && m@.len() == 1 && m@[0].0@ == key && m@[0].1 == value
}

/// An object with one member.
fn single(key: &str, value: Json) -> (r: Json)
    ensures
        is_single(r, key@, value),
{
    let mut m: Vec<(String, Json)> = Vec::new();
    m.push((key.to_owned(), value));
    Json::Object(m)
}

/// `v` is a number.
pub open spec fn is_count(v: Json, n: u64) -> bool {
    v matches Json::Number(x) && x.shown@ == text::decimal(n as nat) && x.whole == Some(n)
}

/// A number.
fn count(n: u64) -> (r: Json)
    ensures
        is_count(r, n),
{
    Json::Number(Number { shown: decimal_of(n), whole: Some(n) })
}

/// What a search is answered: the bare hits; for whoever asked for an
/// explanation the hits beside it; and where the search can be named, what it
/// was taken down as beside the hits, for an open, a verdict or a gap to name.
pub open spec fn is_search_answer(
    r: Json,
    results: Json,
    explanation: Json,
    explain: bool,
    event: Option<Seq<char>>,
) -> bool {
    match event {
        Some(id) => {
            &&& r matches Json::Object(m)
            &&& m@.len() == (if explain {
                3int
            } else {
                2int
            })
            &&& m@[0].0@ == "results"@ && m@[0].1 == results
            &&& explain ==> m@[1].0@ == "explanation"@ && m@[1].1 == explanation
            &&& m@.last().0@ == "event"@ && (m@.last().1 matches Json::Text(t) && t@ == id)
        },
        None => if explain {
            r matches Json::Object(m) && m@.len() == 2 && m@[0].0@ == "results"@ && m@[0].1
                == results && m@[1].0@ == "explanation"@ && m@[1].1 == explanation
        } else {
            r == results
        },
    }
}

/// What a search is answered. `event` is what it was taken down as, where that
/// is to be named.
pub fn search_answer(
    results: Json,
    explanation: Json,
    explain: bool,
    event: Option<String>,
) -> (r: Json)
    ensures
        is_search_answer(r, results, explanation, explain, text::text_of(event)),
{
    if !explain && event.is_none() {
        return results;
    }
    let mut m: Vec<(String, Json)> = Vec::new();
    m.push(("results".to_owned(), results));
    if explain {
        m.push(("explanation".to_owned(), explanation));
    }
    match event {
        Some(id) => {
            m.push(("event".to_owned(), Json::Text(id)));
        },
        None => {},
    }
    Json::Object(m)
}

/// What a search is named as in its answer: what it was taken down as, where it
/// came through the app. Nobody else waits for it.
pub open spec fn event_shown(door: Door, recorded: Option<Seq<char>>) -> Option<Seq<char>> {
    if door == Door::App {
        recorded
    } else {
        None
    }
}

/// What a search through a door is answered. `recorded` is what it was taken
/// down as, where it was.
pub fn search(
    door: Door,
    results: Json,
    explanation: Json,
    explain: bool,
    recorded: Option<String>,
) -> (r: Json)
    ensures
        is_search_answer(
            r,
            results,
            explanation,
            explain,
            event_shown(door, text::text_of(recorded)),
        ),
{
    let event = match door {
        Door::App => recorded,
        _ => None,
    };
    search_answer(results, explanation, explain, event)
}

/// What consolidation has decided and what it is still asking about.
pub struct Consolidation {
    pub superseded: Json,
    pub contradictions: Json,
    pub supersede_proposals: Json,
    pub discard_proposals: Json,
    pub pairs: Json,
}

/// What consolidation has decided and what it is still asking about, as it is
/// sent. There are no merges to propose any more, and the key stays for whoever
/// looks under it.
pub fn consolidation(c: Consolidation) -> (r: Json)
    ensures
        r matches Json::Object(m) && {
            &&& m@.len() == 6
            &&& m@[0].0@ == "superseded"@ && m@[0].1 == c.superseded
            &&& m@[1].0@ == "contradictions"@ && m@[1].1 == c.contradictions
            &&& m@[2].0@ == "supersede_proposals"@ && m@[2].1 == c.supersede_proposals
            &&& m@[3].0@ == "discard_proposals"@ && m@[3].1 == c.discard_proposals
            &&& m@[4].0@ == "merge_proposals"@ && (m@[4].1 matches Json::Array(none)
                && none@.len() == 0)
            &&& m@[5].0@ == "pairs"@ && m@[5].1 == c.pairs
        },
{
    let mut m: Vec<(String, Json)> = Vec::new();
    m.push(("superseded".to_owned(), c.superseded));
    m.push(("contradictions".to_owned(), c.contradictions));
    m.push(("supersede_proposals".to_owned(), c.supersede_proposals));
    m.push(("discard_proposals".to_owned(), c.discard_proposals));
    m.push(("merge_proposals".to_owned(), Json::Array(Vec::new())));
    m.push(("pairs".to_owned(), c.pairs));
    Json::Object(m)
}

/// One event of a stream, as it is sent.
pub struct Frame {
    pub name: &'static str,
    pub data: Json,
}

/// What a search reports of itself as it goes.
pub enum SearchEvent {
    /// The stages it will go through.
    Stages(Json),
    /// The stage it has come to.
    Stage(Json),
    Results(Json),
}

/// One event of a search, as it is sent.
pub fn search_sse_event(ev: SearchEvent) -> (r: Frame)
    ensures
        match ev {
            SearchEvent::Stages(v) => r.name@ == "stages"@ && is_single(r.data, "stages"@, v),
            SearchEvent::Stage(v) => r.name@ == "stage"@ && is_single(r.data, "stage"@, v),
            SearchEvent::Results(v) => r.name@ == "results"@ && is_single(r.data, "results"@, v),
        },
{
    match ev {
        SearchEvent::Stages(v) => Frame { name: "stages", data: single("stages", v) },
        SearchEvent::Stage(v) => Frame { name: "stage", data: single("stage", v) },
        SearchEvent::Results(v) => Frame { name: "results", data: single("results", v) },
    }
}

/// What an ask reports of itself as it goes.
pub enum AskEvent {
    /// What a round of searching brought, and how much of it is shown.
    Retrieved { round: u64, retrieved: u64, shown: u64, dropped: u64, cliff_at: Option<u64> },
    /// What it still looks for.
    Needs(Json),
    /// What it cites.
    Citations(Json),
    Reasoning(String),
    Token(String),
    /// The whole answer.
    Done(Json),
}

/// One event of an ask, as it is sent.
pub open spec fn is_ask_frame(r: Frame, ev: AskEvent) -> bool {
    match ev {
        AskEvent::Retrieved { round, retrieved, shown, dropped, cliff_at } => {
            &&& r.name@ == "retrieved"@
            &&& r.data matches Json::Object(m)
            &&& m@.len() == 5
            &&& m@[0].0@ == "round"@ && is_count(m@[0].1, round)
            &&& m@[1].0@ == "retrieved"@ && is_count(m@[1].1, retrieved)
            &&& m@[2].0@ == "shown"@ && is_count(m@[2].1, shown)
            &&& m@[3].0@ == "dropped"@ && is_count(m@[3].1, dropped)
            &&& m@[4].0@ == "cliff_at"@ && match cliff_at {
                Some(n) => is_count(m@[4].1, n),
                None => m@[4].1 is Null,
            }
        },
        AskEvent::Needs(v) => r.name@ == "needs"@ && is_single(r.data, "queries"@, v),
        AskEvent::Citations(v) => r.name@ == "citations"@ && is_single(r.data, "hits"@, v),
        AskEvent::Reasoning(t) => r.name@ == "reasoning"@ && is_single(
            r.data,
            "text"@,
            Json::Text(t),
        ),
        AskEvent::Token(t) => r.name@ == "token"@ && is_single(r.data, "text"@, Json::Text(t)),
        AskEvent::Done(v) => r.name@ == "done"@ && r.data == v,
    }
}

/// One event of an ask, as it is sent.
pub fn api_sse_event(ev: AskEvent) -> (r: Frame)
    ensures
        is_ask_frame(r, ev),
{
    match ev {
        AskEvent::Retrieved { round, retrieved, shown, dropped, cliff_at } => {
            let mut m: Vec<(String, Json)> = Vec::new();
            m.push(("round".to_owned(), count(round)));
            m.push(("retrieved".to_owned(), count(retrieved)));
            m.push(("shown".to_owned(), count(shown)));
            m.push(("dropped".to_owned(), count(dropped)));
            let cliff = match cliff_at {
                Some(n) => count(n),
                None => Json::Null,
            };
            m.push(("cliff_at".to_owned(), cliff));
            Frame { name: "retrieved", data: Json::Object(m) }
        },
        AskEvent::Needs(v) => Frame { name: "needs", data: single("queries", v) },
        AskEvent::Citations(v) => Frame { name: "citations", data: single("hits", v) },
        AskEvent::Reasoning(t) => Frame { name: "reasoning", data: single("text", Json::Text(t)) },
        AskEvent::Token(t) => Frame { name: "token", data: single("text", Json::Text(t)) },
        AskEvent::Done(v) => Frame { name: "done", data: v },
    }
}

/// A failure, as it is sent: a frame like every other, so that a reader of the
/// stream has one shape to read and a failure with words has them said.
pub fn error_frame(words: String) -> (r: Frame)
    ensures
        r.name@ == "error"@,
        is_single(r.data, "error"@, Json::Text(words)),
{
    Frame { name: "error", data: single("error", Json::Text(words)) }
}

// ---------------------------------------------------------------------------
// What holds of every request
// ---------------------------------------------------------------------------

/// How much is kept and how much is listed.
pub proof fn how_much_is_kept()
    ensures
        MAX_TAGS == 32,
        MAX_TAG_LEN == 64,
        MAX_CATEGORY_LEN == 64,
        MAX_TITLE_LEN == 512,
        DEFAULT_LIMIT == 50,
        MOST_ROWS == 200,
        DEFAULT_STAGE@ == "segment"@,
        KEEP_AN_HOUR@ == "private, max-age=3600"@,
        YEAR_ONE == -62_135_596_800,
        END_OF_9999 == 253_402_300_799,
{
}

/// Tags keep the order in which they were first said: what was tidied before
/// stays ahead of what comes after it.
pub proof fn tags_keep_their_order(tags: Seq<Seq<char>>, more: Seq<Seq<char>>)
    ensures
        tidy(tags).is_prefix_of(tidy(tags + more)),
    decreases more.len(),
{
    if more.len() == 0 {
        assert(tags + more =~= tags);
    } else {
        tags_keep_their_order(tags, more.drop_last());
        assert((tags + more).drop_last() =~= tags + more.drop_last());
    }
}

/// Tags are refused where one of them is longer than sixty-four characters, or
/// where more than thirty-two are left of them, and are tidied otherwise.
pub proof fn tags_are_refused_for_their_size(r: Result<Vec<String>, Error>, tags: Seq<Seq<char>>)
    requires
        is_cleaned(r, tags),
    ensures
        (exists|i: int| 0 <= i < tags.len() && text::trim(#[trigger] tags[i]).len() > 64)
            ==> refuses(r, "tag is longer than 64 characters"@),
        (forall|i: int| 0 <= i < tags.len() ==> text::trim(#[trigger] tags[i]).len() <= 64) ==> if tidy(
            tags,
        ).len() > 32 {
            refuses(r, "a chunk may carry at most 32 tags, got "@ + text::decimal(tidy(tags).len()))
        } else {
            r matches Ok(v) && text::texts(v@) == tidy(tags)
        },
{
    if exists|i: int| 0 <= i < tags.len() && text::trim(#[trigger] tags[i]).len() > 64 {
        let i = choose|i: int| 0 <= i < tags.len() && text::trim(#[trigger] tags[i]).len() > 64;
        assert(text::trim(tags[i]).len() > MAX_TAG_LEN);
    }
}

/// A field is set to what is given of it, is cleared by nothing and by blanks,
/// and is refused by name where what is given is too long.
pub proof fn a_field_is_set_or_cleared(
    r: Result<Option<String>, Error>,
    value: Option<Seq<char>>,
    max: nat,
    field: Seq<char>,
)
    requires
        is_set_to(r, value, max, field),
    ensures
        capture::given(value) is None ==> (r matches Ok(v) && v is None),
        capture::given(value) matches Some(said) ==> if said.len() <= max {
            r matches Ok(v) && (v matches Some(kept) && kept@ == said)
        } else {
            refuses(r, field + " is longer than "@ + text::decimal(max) + " characters"@)
        },
{
}

/// What a change asks for is what is written: a field that is not named stays,
/// one that is named blank is cleared, and any other is set without the white
/// space around it.
pub proof fn a_change_writes_what_it_names(
    r: Result<PatchPlan, Error>,
    req: PatchArtifactRequest,
    plan: PatchPlan,
)
    requires
        is_patch(r, req),
        r == Ok::<PatchPlan, Error>(plan),
    ensures
        req.text is None ==> plan.text is None,
        req.text matches Some(t) ==> !text::blank(t@) && (plan.text matches Some(kept) && kept@
            == text::trim(t@)),
        req.title is None <==> plan.title is None,
        req.title matches Some(v) ==> (plan.title matches Some(w) && text::text_of(w)
            == capture::given(text::text_of(v))),
        req.category is None <==> plan.category is None,
        req.category matches Some(v) ==> (plan.category matches Some(w) && text::text_of(w)
            == capture::given(text::text_of(v))),
        req.tags is None <==> plan.tags is None,
        req.tags matches Some(v) ==> (plan.tags matches Some(w) && text::texts(w@) == tidy(
            text::texts(v@),
        )),
        plan.revectorize <==> req.text is Some || req.title is Some,
        plan.title matches Some(Some(t)) ==> t@.len() <= 512,
        plan.category matches Some(Some(c)) ==> c@.len() <= 64,
        plan.tags matches Some(v) ==> v@.len() <= 32,
{
    if let Some(v) = plan.tags {
        assert(text::texts(v@).len() == v@.len());
    }
}

/// A change is refused for the first thing that is wrong with it, and only for
/// that.
pub proof fn a_change_is_refused_for_cause(r: Result<PatchPlan, Error>, req: PatchArtifactRequest)
    requires
        is_patch(r, req),
    ensures
        r is Err <==> {
            ||| req.text is None && req.title is None && req.category is None && req.tags is None
            ||| req.text matches Some(t) && text::blank(t@)
            ||| req.title matches Some(v) && (capture::given(text::text_of(v)) matches Some(t)
                && t.len() > 512)
            ||| req.category matches Some(v) && (capture::given(text::text_of(v)) matches Some(t)
                && t.len() > 64)
            ||| req.tags matches Some(v) && (overlong(text::texts(v@)) || tidy(
                text::texts(v@),
            ).len() > 32)
        },
        req.text is None && req.title is None && req.category is None && req.tags is None
            ==> refuses(r, "no fields to update"@),
        req.text matches Some(t) ==> text::blank(t@) ==> refuses(r, "chunk text is empty"@),
        req.text is None ==> (req.title matches Some(v) ==> (capture::given(
            text::text_of(v),
        ) matches Some(t) ==> t.len() > 512 ==> refuses(
            r,
            "title is longer than 512 characters"@,
        ))),
        req.text is None && req.title is None ==> (req.category matches Some(v) ==> (capture::given(
            text::text_of(v),
        ) matches Some(t) ==> t.len() > 64 ==> refuses(
            r,
            "category is longer than 64 characters"@,
        ))),
{
}

/// What is kept beside a vector is what the artifact says.
pub proof fn what_is_kept_beside_a_vector(p: VectorPayload, c: Chunk)
    requires
        is_payload(p, c),
    ensures
        p.artifact_id@ == c.id@,
        p.text@ == c.text@,
        p.snippet@ == c.opening@,
        p.created_at == c.created_at,
        p.provenance is None,
        text::text_of(p.title) == text::text_of(c.title),
        text::text_of(p.category) == text::text_of(c.category),
        text::texts(p.tags@) == text::texts(c.tags@),
        c.corpus_id matches Some(id) ==> p.corpus_id@ == id@,
        c.corpus_id is None ==> p.corpus_id@.len() == 0,
{
}

/// A flag is on where it stands alone, and where it is said to be in one of
/// four ways; white space around it says nothing.
pub proof fn a_flag_is_on_where_it_is_said_to_be(v: Seq<char>)
    ensures
        flag_on(v) <==> text::trim(v).len() == 0 || text::trim(v) == seq!['1'] || text::trim(v)
            == "true"@ || text::trim(v) == "yes"@ || text::trim(v) == "on"@,
{
    reveal_strlit("");
    reveal_strlit("1");
    assert("1"@ =~= seq!['1']);
    if text::trim(v).len() == 0 {
        assert(text::trim(v) =~= ""@);
    }
}

/// A client is known by its name, and asks on behalf of whoever holds it; a
/// token is nobody. Where no client is named the one that the door is for asks.
pub proof fn a_client_is_known_by_its_name(default: Door, subject: Seq<char>)
    ensures
        door_asked(Some("extension"@), default) == Door::Extension,
        door_asked(Some("cli"@), default) == Door::Cli,
        door_asked(Some("app"@), default) == Door::App,
        door_asked(None, default) == default,
        scope_of(Door::Extension, subject) == Some(subject),
        scope_of(Door::Cli, subject) == Some(subject),
        scope_of(Door::App, subject) == Some(subject),
        scope_of(Door::Api, subject) is None,
{
    reveal_strlit("extension");
    reveal_strlit("cli");
    reveal_strlit("app");
    assert("extension"@.len() != "cli"@.len());
    assert("extension"@.len() != "app"@.len());
    assert("cli"@[0] != "app"@[0]);
}

/// What is named in a list is each of its pieces that is not blank, without
/// the white space around it, in order and as often as it stands there.
pub proof fn a_list_names_what_is_not_blank(pieces: Seq<Seq<char>>)
    ensures
        named_of(pieces) == pieces.map_values(|p: Seq<char>| text::trim(p)).filter(
            |p: Seq<char>| p.len() > 0,
        ),
    decreases pieces.len(),
{
    reveal(Seq::filter);
    let f = |p: Seq<char>| text::trim(p);
    let q = |p: Seq<char>| p.len() > 0;
    if pieces.len() > 0 {
        a_list_names_what_is_not_blank(pieces.drop_last());
        assert(pieces.map_values(f).drop_last() =~= pieces.drop_last().map_values(f));
    }
    assert(named_of(pieces) =~= pieces.map_values(f).filter(q));
}

/// A search asks for what the request asks for.
pub proof fn a_search_asks_for_what_was_asked(
    r: (SearchQuery, Origin),
    q: SearchParams,
    subject: Seq<char>,
)
    requires
        is_search(r, q, subject),
    ensures
        r.0.q@ == q.q@,
        q.limit matches Some(n) ==> r.0.limit == n,
        q.limit is None ==> r.0.limit == 0,
        q.tags is None ==> r.0.tags@.len() == 0,
        q.tags matches Some(t) ==> text::texts(r.0.tags@) == named_of(text::pieces(t@, ',')),
        q.category is None ==> r.0.category is None,
        q.category matches Some(c) ==> (c@.len() == 0 ==> r.0.category is None) && (c@.len() > 0
            ==> (r.0.category matches Some(k) && k@ == c@)),
        r.0.include_deprecated == q.include_deprecated,
        r.0.include_superseded == q.include_superseded,
        q.rerank matches Some(b) ==> r.0.rerank == b,
        r.0.explain <==> (q.explain matches Some(b) && b),
        q.door is None ==> r.1.door == Door::Api && r.1.scope is None && r.0.mark && (q.rerank
            is None ==> r.0.rerank),
        q.door matches Some(name) ==> r.1.door == door_named(name@),
        q.rerank is None ==> r.0.rerank == !(r.1.door is Extension),
        r.0.mark == !(r.1.door is Extension),
        r.1.door is Api <==> r.1.scope is None,
        r.1.scope matches Some(who) ==> who@ == subject,
{
    if q.tags is None {
        assert(text::texts(r.0.tags@).len() == r.0.tags@.len());
    }
}

/// A moment is a reminder where nothing is said, and otherwise the kind that
/// its word names; any other word is refused by name.
pub proof fn a_kind_is_known_by_its_word(word: Seq<char>)
    ensures
        kind_asked(None) == Some(Kind::Due),
        kind_asked(Some(word)) == Some(Kind::Due) <==> word == "due"@,
        kind_asked(Some(word)) == Some(Kind::Event) <==> word == "event"@,
        kind_asked(Some(word)) is None <==> word != "due"@ && word != "event"@,
        kind_words(Some(word)) == "kind="@ + word + ": `due` or `event`"@,
        forall|k: Kind| kind_asked(Some(#[trigger] k.word())) == Some(k),
{
    reveal_strlit("due");
    reveal_strlit("event");
    assert("due"@.len() != "event"@.len());
}

/// A reminder is put aside until an instant that can be spelled and is yet to
/// come, where it has a date to be put aside from; the first of these that
/// does not hold refuses it.
pub proof fn a_snooze_is_refused_for_cause(until: i64, now: i64, undated: bool)
    ensures
        snooze_refusal(until, now, undated) is None <==> -62_135_596_800 <= until
            <= 253_402_300_799 && now < until && !undated,
        until < -62_135_596_800 || 253_402_300_799 < until ==> snooze_refusal(until, now, undated)
            == Some(
            "until="@ + text::signed(until as int)
                + ": outside the range a date can be spelled in"@,
        ),
        -62_135_596_800 <= until <= 253_402_300_799 && until <= now ==> snooze_refusal(
            until,
            now,
            undated,
        ) == Some(
            "until must be in the future; to put a reminder back on the band, DELETE the snooze instead"@,
        ),
        -62_135_596_800 <= until <= 253_402_300_799 && now < until && undated ==> snooze_refusal(
            until,
            now,
            undated,
        ) == Some(
            "this reminder has no date, so there is nothing to put it aside until;              set a date first"@,
        ),
{
}

/// A moment that is set is the one that was asked for, set by hand, in the zone
/// that was named, or in UTC where none was.
pub proof fn a_moment_is_set_as_it_was_asked(
    r: Result<NewMoment, Error>,
    artifact: Seq<char>,
    b: NewMomentBody,
    bad_rule: Option<Seq<char>>,
    known: bool,
)
    requires
        is_new_moment(r, artifact, b, bad_rule, known),
    ensures
        r matches Ok(m) ==> {
            &&& m.artifact_id@ == artifact
            &&& m.at == Some(b.at)
            &&& m.source is ByHand
            &&& text::text_of(m.rule) == text::text_of(b.rule)
            &&& b.kind is None ==> m.kind is Due
            &&& b.kind matches Some(w) ==> kind_asked(Some(w@)) == Some(m.kind)
            &&& capture::given(text::text_of(b.tz)) is None ==> m.tz@ == "UTC"@
            &&& capture::given(text::text_of(b.tz)) matches Some(z) ==> m.tz@ == z
        },
        r is Err <==> {
            ||| b.kind matches Some(w) && w@ != "due"@ && w@ != "event"@
            ||| b.rule is Some && bad_rule is Some
            ||| !(-62_135_596_800 <= b.at <= 253_402_300_799)
            ||| capture::given(text::text_of(b.tz)) is Some && !known
        },
        b.kind matches Some(w) ==> w@ != "due"@ && w@ != "event"@ ==> refuses(
            r,
            "kind="@ + w@ + ": `due` or `event`"@,
        ),
        b.kind is None && b.rule is Some ==> (bad_rule matches Some(why) ==> refuses(r, why)),
        b.kind is None && b.rule is None && !(-62_135_596_800 <= b.at <= 253_402_300_799)
            ==> refuses(
            r,
            "at="@ + text::signed(b.at as int)
                + ": seconds since the epoch, within the years 1 to 9999"@,
        ),
        b.kind is None && b.rule is None && -62_135_596_800 <= b.at <= 253_402_300_799 && !known
            ==> (capture::given(text::text_of(b.tz)) matches Some(z) ==> refuses(
            r,
            "tz="@ + z + ": not an IANA zone name"@,
        )),
{
}

/// A count that was not noted is none.
pub proof fn what_was_not_noted_is_none(last: String, key: Seq<char>, n: i64)
    ensures
        or_zero(Some(n)) == n,
        or_zero(None) == 0,
        noted(None, key) == 0,
        json_count(last@, key) == Some(n) ==> noted(Some(last), key) == n,
        json_count(last@, key) is None ==> noted(Some(last), key) == 0,
{
}

/// A search answers with its results alone, with the explanation beside them
/// where that was asked for, and with the name of the search last where there
/// is one to give.
pub proof fn a_search_answers_with_its_results(
    r: Json,
    results: Json,
    explanation: Json,
    event: Seq<char>,
    explain: bool,
)
    ensures
        is_search_answer(r, results, explanation, false, None) ==> r == results,
        is_search_answer(r, results, explanation, true, None) ==> {
            &&& json::under(r, "results"@) == Some(results)
            &&& json::under(r, "explanation"@) == Some(explanation)
            &&& json::under(r, "event"@) is None
        },
        is_search_answer(r, results, explanation, explain, Some(event)) ==> {
            &&& json::under(r, "results"@) == Some(results)
            &&& json::as_text(json::under(r, "event"@)) == Some(event)
            &&& explain ==> json::under(r, "explanation"@) == Some(explanation)
            &&& !explain ==> json::under(r, "explanation"@) is None
        },
{
    reveal_strlit("results");
    reveal_strlit("explanation");
    reveal_strlit("event");
    assert("results"@.len() == 7 && "explanation"@.len() == 11 && "event"@.len() == 5);
    reveal_with_fuel(json::member, 5);
    if let Json::Object(m) = r {
        let s = m@;
        if s.len() >= 2 {
            assert(s.skip(1)[0] == s[1]);
            assert(s.skip(1).skip(1) =~= s.skip(2));
        }
        if s.len() >= 3 {
            assert(s.skip(2)[0] == s[2]);
            assert(s.skip(2).skip(1) =~= s.skip(3));
        }
        assert(s.len() == 2 ==> s.skip(2).len() == 0);
        assert(s.len() == 3 ==> s.skip(3).len() == 0);
    }
}

/// Only the app is told the name of the search that was taken down.
pub proof fn the_app_is_told_its_search(door: Door, recorded: Seq<char>)
    ensures
        event_shown(Door::App, Some(recorded)) == Some(recorded),
        event_shown(Door::App, None) is None,
        !(door is App) ==> event_shown(door, Some(recorded)) is None,
{
}

/// Everything that happens while a question is answered is sent under the name
/// of what it is, with what there is to say of it.
pub proof fn what_happens_is_sent_by_its_name(r: Frame, ev: AskEvent)
    requires
        is_ask_frame(r, ev),
    ensures
        ev is Retrieved <==> r.name@ == "retrieved"@,
        ev is Needs <==> r.name@ == "needs"@,
        ev is Citations <==> r.name@ == "citations"@,
        ev is Reasoning <==> r.name@ == "reasoning"@,
        ev is Token <==> r.name@ == "token"@,
        ev is Done <==> r.name@ == "done"@,
        ev matches AskEvent::Needs(v) ==> json::under(r.data, "queries"@) == Some(v),
        ev matches AskEvent::Citations(v) ==> json::under(r.data, "hits"@) == Some(v),
        ev matches AskEvent::Reasoning(t) ==> json::as_text(json::under(r.data, "text"@)) == Some(
            t@,
        ),
        ev matches AskEvent::Token(t) ==> json::as_text(json::under(r.data, "text"@)) == Some(t@),
        ev matches AskEvent::Done(v) ==> r.data == v,
        ev matches AskEvent::Retrieved { round, retrieved, shown, dropped, cliff_at } ==> {
            &&& json::as_whole(json::under(r.data, "round"@)) == Some(round)
            &&& json::as_whole(json::under(r.data, "retrieved"@)) == Some(retrieved)
            &&& json::as_whole(json::under(r.data, "shown"@)) == Some(shown)
            &&& json::as_whole(json::under(r.data, "dropped"@)) == Some(dropped)
            &&& json::as_whole(json::under(r.data, "cliff_at"@)) == cliff_at
        },
{
    reveal_strlit("retrieved");
    reveal_strlit("needs");
    reveal_strlit("citations");
    reveal_strlit("reasoning");
    reveal_strlit("token");
    reveal_strlit("done");
    reveal_strlit("round");
    reveal_strlit("shown");
    reveal_strlit("dropped");
    reveal_strlit("cliff_at");
    assert("retrieved"@[2] == 't' && "citations"@[2] == 't' && "reasoning"@[2] == 'a');
    assert("retrieved"@[0] == 'r' && "citations"@[0] == 'c' && "reasoning"@[0] == 'r');
    assert("needs"@[0] == 'n' && "token"@[0] == 't' && "done"@[0] == 'd');
    assert("round"@[0] == 'r' && "shown"@[0] == 's' && "dropped"@[0] == 'd' && "cliff_at"@[0]
        == 'c');
    assert("round"@.len() == 5 && "retrieved"@.len() == 9);
    reveal_with_fuel(json::member, 7);
    if let Json::Object(m) = r.data {
        let s = m@;
        if ev is Retrieved {
            assert(s.skip(1)[0] == s[1]);
            assert(s.skip(1).skip(1) =~= s.skip(2));
            assert(s.skip(2)[0] == s[2]);
            assert(s.skip(2).skip(1) =~= s.skip(3));
            assert(s.skip(3)[0] == s[3]);
            assert(s.skip(3).skip(1) =~= s.skip(4));
            assert(s.skip(4)[0] == s[4]);
        }
    }
}

// ---------------------------------------------------------------------------
// What holds of every call
// ---------------------------------------------------------------------------

/// A list is read from a row that there is, at least one row and at most two
/// hundred of them, and as was asked where that is within bounds.
pub proof fn a_page_of_a_list_is_within_bounds(p: &ListParams, r: (i64, i64))
    requires
        call_ensures(page_of, (p,), r),
    ensures
        1 <= r.0 <= 200,
        0 <= r.1,
        1 <= p.limit <= 200 ==> r.0 == p.limit,
        p.limit < 1 ==> r.0 == 1,
        p.limit > 200 ==> r.0 == 200,
        p.offset >= 0 ==> r.1 == p.offset,
        p.offset < 0 ==> r.1 == 0,
{
}

/// As many are listed as were asked for; twenty that were forgotten and five to
/// be brought back where nobody says how many.
pub proof fn as_many_as_were_asked_for(
    s: &StaleParams,
    forgotten: usize,
    p: &ResurfaceParams,
    brought: usize,
)
    requires
        call_ensures(stale_limit, (s,), forgotten),
        call_ensures(resurface_limit, (p,), brought),
    ensures
        s.limit matches Some(n) ==> forgotten == n,
        s.limit is None ==> forgotten == 20,
        p.limit matches Some(n) ==> brought == n,
        p.limit is None ==> brought == 5,
{
}

/// What is left to be done after a change: what the model was shown is embedded
/// anew; what it was not, and is embedded, is rewritten in place; and anything
/// else needs nothing.
pub proof fn what_a_change_leaves_to_do(revectorize: bool, embedded: bool, c: &Chunk, r: AfterPatch)
    requires
        call_ensures(after_patch, (revectorize, embedded, c), r),
    ensures
        r is Embed <==> revectorize,
        r is Rewrite <==> !revectorize && embedded,
        r matches AfterPatch::Rewrite(p) ==> p.artifact_id@ == c.id@ && p.text@ == c.text@
            && text::texts(p.tags@) == text::texts(c.tags@) && text::text_of(p.category)
            == text::text_of(c.category),
{
}

/// A flag that is not there says nothing; the original is asked for in two
/// ways; and a stored file is sent as it is held, to be kept for an hour by its
/// reader alone.
pub proof fn a_stored_file_is_sent_as_it_is(
    raw: Option<&str>,
    flag: Option<bool>,
    original: Option<&str>,
    wants: bool,
    held: Option<(String, Vec<u8>)>,
    sent: Result<Attachment, Error>,
)
    requires
        call_ensures(query_flag, (raw,), flag),
        call_ensures(wants_original, (original,), wants),
        call_ensures(attachment, (held,), sent),
    ensures
        raw is None <==> flag is None,
        raw matches Some(v) ==> flag == Some(flag_on(v@)),
        original is None ==> !wants,
        original matches Some(v) ==> (wants <==> v@ == "1"@ || v@ == "true"@),
        held is None ==> (sent matches Err(e) && e is NotFound),
        held matches Some((mime, bytes)) ==> (sent matches Ok(a) && a.mime@ == mime@ && a.bytes@
            == bytes@ && a.cache_control@ == "private, max-age=3600"@),
{
}

/// An artifact is answered as it is, with the source it was captured from where
/// it has one, and with the search it is counted under.
pub proof fn an_artifact_is_answered_with_its_source(
    a: Chunk,
    found: Option<SourceRef>,
    from: &OpenedFrom,
    r: ArtifactDetail,
)
    requires
        call_ensures(get_artifact, (a, found, from), r),
    ensures
        r.artifact == a,
        a.corpus_id is Some ==> r.source == found,
        a.corpus_id is None ==> r.source is None,
        r.search_event is Some <==> from.learning && a.status is Active && a.superseded_by is None
            && from.mine && from.taken && from.event is Some,
        r.search_event matches Some(id) ==> (from.event matches Some(e) && id@ == e@),
{
}

/// A source is read again from the stage that is named, from segmenting where
/// none is, and a stage that there is none of is refused by name.
pub proof fn a_stage_is_the_one_that_is_named<S>(
    stage: Option<String>,
    req: ReprocessRequest,
    parsed: Option<S>,
    r: Result<S, Error>,
)
    requires
        call_ensures(stage_asked, (stage,), req),
        call_ensures(reprocess::<S>, (&req, parsed), r),
    ensures
        stage matches Some(s) ==> req.stage@ == s@,
        stage is None ==> req.stage@ == "segment"@,
        parsed matches Some(s) ==> r == Ok::<S, Error>(s),
        parsed is None ==> refuses(r, "unknown stage `"@ + req.stage@ + "`"@),
{
}

/// A question asked through a client is asked on behalf of whoever holds it,
/// and there is no asking where nothing answers.
pub proof fn a_question_has_its_client(
    door: Option<&str>,
    subject: &str,
    default: Door,
    r: Origin,
    asks: bool,
    may: Result<(), Error>,
)
    requires
        call_ensures(ask_origin, (door, subject, default), r),
        call_ensures(ask_door, (asks,), may),
    ensures
        door is None ==> r.door == default,
        door matches Some(name) ==> r.door == door_named(name@),
        r.door is Api <==> r.scope is None,
        r.scope matches Some(who) ==> who@ == subject@,
        asks <==> may is Ok,
        may matches Err(e) ==> e is NotFound,
{
}

/// The moments that are listed are what is due until then, or what refers to a
/// stretch of time: from now on where nothing is said, and as far ahead as the
/// horizon lies.
pub proof fn which_moments_are_listed(
    q: &MomentsQuery,
    now: i64,
    hours: u32,
    r: Result<Window, Error>,
)
    requires
        call_ensures(list_moments, (q, now, hours), r),
    ensures
        r is Err <==> (q.kind matches Some(w) && w@ != "due"@ && w@ != "event"@),
        r matches Ok(Window::Due { now: n, to }) ==> n == now && (q.to matches Some(t) ==> to == t)
            && (q.to is None ==> to == now + hours * 3600) && (q.kind matches Some(w) ==> w@
            == "due"@),
        r matches Ok(Window::Events { from, to }) ==> (q.from matches Some(t) ==> from == t) && (
        q.from is None ==> from == now) && (q.to matches Some(t) ==> to == t) && (q.to is None ==> to
            == now + hours * 3600) && (q.kind matches Some(w) && w@ == "event"@),
{
    if let Some(w) = q.kind {
        a_kind_is_known_by_its_word(w@);
    }
}

/// A snooze that may be made is made where there is a reminder, and is refused
/// for what is wrong with it where it may not.
pub proof fn a_snooze_may_be_made(
    b: &SnoozeBody,
    now: i64,
    m: &Moment,
    r: Result<(), Error>,
    other: Result<(), Error>,
    moved: bool,
    done: Result<Code, Error>,
)
    requires
        call_ensures(may_snooze, (b, now, Some(m)), r),
        call_ensures(may_snooze, (b, now, None::<&Moment>), other),
        call_ensures(snoozed, (moved,), done),
    ensures
        r is Ok <==> -62_135_596_800 <= b.until <= 253_402_300_799 && now < b.until && m.at is Some,
        other is Ok <==> -62_135_596_800 <= b.until <= 253_402_300_799 && now < b.until,
        moved ==> (done matches Ok(c) && c.number_spec() == 204),
        !moved ==> (done matches Err(e) && e is NotFound),
{
}

/// What the base is doing is answered as it was read; what has been learnt only
/// where anything is, and what was swept only where sweeping is on and there is
/// a judge to sweep with.
pub proof fn what_the_base_is_doing(rows: StatusRows, lang: &str, r: StatusResponse)
    requires
        call_ensures(status, (rows, lang), r),
    ensures
        r.sources == rows.sources,
        r.jobs == rows.jobs,
        r.failed == rows.failed,
        r.oldest_pending_secs == rows.oldest_pending_secs,
        r.chunks == rows.chunks,
        rows.vectors matches Some(n) ==> r.vectors == n,
        rows.vectors is None ==> r.vectors == 0,
        rows.learns ==> r.learning == Some(rows.learning),
        !rows.learns ==> r.learning is None,
        r.learn == rows.learns,
        r.asks == rows.asks,
        r.vision == rows.vision,
        r.recommend == rows.recommend,
        r.held == rows.held,
        r.last_kept == rows.last_kept,
        r.teach == rows.teach,
        r.examples.lang@ == lang@,
        r.reap is Some <==> rows.reap_enabled && rows.has_judge,
        r.reap matches Some(x) ==> x.retired_waiting == rows.retired_waiting && (rows.last_reap
            is None ==> x.judged == 0 && x.reaped == 0 && x.rescued == 0) && (
        rows.last_reap matches Some(d) ==> x.judged == or_zero(json_count(d@, "judged"@))
            && x.reaped == or_zero(json_count(d@, "reaped"@)) && x.rescued == or_zero(
            json_count(d@, "rescued"@),
        )),
{
}

/// What a search reports is sent under the name of what it is, and a failure
/// with its words.
pub proof fn what_a_search_reports(ev: SearchEvent, f: Frame, words: String, e: Frame)
    requires
        call_ensures(search_sse_event, (ev,), f),
        call_ensures(error_frame, (words,), e),
    ensures
        ev matches SearchEvent::Stages(v) ==> f.name@ == "stages"@ && json::under(
            f.data,
            "stages"@,
        ) == Some(v),
        ev matches SearchEvent::Stage(v) ==> f.name@ == "stage"@ && json::under(f.data, "stage"@)
            == Some(v),
        ev matches SearchEvent::Results(v) ==> f.name@ == "results"@ && json::under(
            f.data,
            "results"@,
        ) == Some(v),
        e.name@ == "error"@,
        json::as_text(json::under(e.data, "error"@)) == Some(words@),
{
}

/// What was consolidated is answered under its names, each with what there is.
pub proof fn what_was_consolidated(c: Consolidation, r: Json)
    requires
        call_ensures(consolidation, (c,), r),
    ensures
        json::under(r, "superseded"@) == Some(c.superseded),
        json::under(r, "contradictions"@) == Some(c.contradictions),
        json::under(r, "supersede_proposals"@) == Some(c.supersede_proposals),
        json::under(r, "discard_proposals"@) == Some(c.discard_proposals),
        json::under(r, "pairs"@) == Some(c.pairs),
        json::under(r, "merge_proposals"@) matches Some(Json::Array(none)) && none@.len() == 0,
{
    reveal_strlit("superseded");
    reveal_strlit("contradictions");
    reveal_strlit("supersede_proposals");
    reveal_strlit("discard_proposals");
    reveal_strlit("merge_proposals");
    reveal_strlit("pairs");
    assert("superseded"@.len() == 10 && "contradictions"@.len() == 14);
    assert("supersede_proposals"@.len() == 19 && "discard_proposals"@.len() == 17);
    assert("merge_proposals"@.len() == 15 && "pairs"@.len() == 5);
    reveal_with_fuel(json::member, 8);
    if let Json::Object(m) = r {
        let s = m@;
        assert(s.skip(1)[0] == s[1]);
        assert(s.skip(1).skip(1) =~= s.skip(2));
        assert(s.skip(2)[0] == s[2]);
        assert(s.skip(2).skip(1) =~= s.skip(3));
        assert(s.skip(3)[0] == s[3]);
        assert(s.skip(3).skip(1) =~= s.skip(4));
        assert(s.skip(4)[0] == s[4]);
        assert(s.skip(4).skip(1) =~= s.skip(5));
        assert(s.skip(5)[0] == s[5]);
    }
}

/// What a change asks for is written, and what it does not name is left alone.
pub proof fn a_change_is_what_was_asked(
    req: &PatchArtifactRequest,
    r: Result<PatchPlan, Error>,
)
    requires
        call_ensures(patch_artifact, (req,), r),
    ensures
        r matches Ok(plan) ==> {
            &&& plan.text is Some <==> req.text is Some
            &&& plan.title is Some <==> req.title is Some
            &&& plan.category is Some <==> req.category is Some
            &&& plan.tags is Some <==> req.tags is Some
            &&& req.text matches Some(t) ==> (plan.text matches Some(kept) && kept@ == text::trim(
                t@,
            ))
            &&& plan.revectorize <==> req.text is Some || req.title is Some
        },
{
}

/// A search is for what the request asks, on behalf of whoever asks.
pub proof fn a_search_is_for_what_was_asked(
    subject: &str,
    q: SearchParams,
    r: (SearchQuery, Origin),
)
    requires
        call_ensures(search_request, (subject, q), r),
    ensures
        r.0.q@ == q.q@,
        r.0.include_deprecated == q.include_deprecated,
        r.0.include_superseded == q.include_superseded,
        q.limit matches Some(n) ==> r.0.limit == n,
        q.category matches Some(c) ==> c@.len() > 0 ==> (r.0.category matches Some(k) && k@ == c@),
        r.1.scope matches Some(who) ==> who@ == subject@,
        q.door is None ==> r.1.door is Api,
{
}

/// A moment that is set is on the artifact it was set on, at the instant that
/// was given.
pub proof fn a_moment_is_set_where_it_was_asked(
    artifact: &str,
    b: NewMomentBody,
    bad_rule: Option<String>,
    r: Result<NewMoment, Error>,
)
    requires
        call_ensures(set_moment, (artifact, b, bad_rule), r),
    ensures
        r matches Ok(m) ==> m.artifact_id@ == artifact@ && m.at == Some(b.at) && text::text_of(
            m.rule,
        ) == text::text_of(b.rule) && m.source is ByHand && (b.kind is None ==> m.kind is Due),
        b.kind is None && b.rule is None && b.tz is None ==> (r is Ok <==> -62_135_596_800 <= b.at
            <= 253_402_300_799),
{
}

} // verus!
