//! Every door a capture comes in by: what a request may ask for, what it is
//! taken to be, and what it is answered.

use crate::files;
use crate::files::{named_pdf, named_txt};
use crate::links;
use crate::links::{read_link, Address, Link};
use crate::records::{
    AskNote, Capture, CorpusStatus, Error, FileNote, Intent, ORIGIN_EXTENSION, ORIGIN_JOURNAL, ORIGIN_WEB,
};
use crate::text;
use crate::text::{
    any_same, chars_of, copy_opt, decimal_of, is_blank, joined, lower_of, opens_with, same, trimmed, white,
};
use crate::zones;
use crate::zones::zone_named;
use vstd::prelude::*;

verus! {

/// The largest body a text may arrive in.
pub const MAX_BODY_BYTES: usize = 8_388_608;

/// The bytes of a megabyte.
pub const MEGABYTE: usize = 1_048_576;

/// What an uploaded text is filed as.
pub const ORIGIN_UPLOAD: &'static str = "upload";

/// One of `text`, `html` or `url`, never two: every rule for which of them
/// wins would silently discard something the caller meant to capture.
pub struct IngestRequest {
    pub text: Option<String>,
    /// HTML the browser has already rendered.
    pub html: Option<String>,
    /// With `html`: where it came from. Alone: the page to fetch.
    pub url: Option<String>,
    pub title: Option<String>,
    /// `selection` when `html` is a fragment somebody highlighted.
    pub scope: Option<String>,
}

/// What the query of a capture carries, whatever its body is.
pub struct CaptureQuery {
    pub title: Option<String>,
    pub note: Option<String>,
    /// The zone a date in the text is read in.
    pub tz: Option<String>,
    /// `journal` to file the capture as an entry, and nothing else: every
    /// other origin is what a door is, not what a caller asks for.
    pub origin: Option<String>,
    /// `remind` to date the note as a reminder.
    pub intent: Option<String>,
    /// The question that a text answers, by what it was taken down as.
    pub from_ask: Option<String>,
}

/// What a capture takes from the fields that are about time.
pub struct CaptureTime {
    pub tz: Option<String>,
    pub origin: &'static str,
    /// The door itself, whatever `origin` ended up saying.
    pub channel: &'static str,
    pub intent: Option<Intent>,
}

/// What became of one capture.
pub struct IngestOutcome {
    pub id: String,
    pub duplicate: bool,
    pub status: CorpusStatus,
}

/// One capture or several.
pub enum Captured {
    One(IngestOutcome),
    Many(Vec<IngestOutcome>),
}

/// One file of an upload.
pub struct FilePart {
    pub filename: Option<String>,
    /// The type it was declared with, or nothing where it was declared with
    /// none.
    pub declared: String,
    pub bytes: Vec<u8>,
}

/// The status a request is answered with.
#[derive(Clone, Copy, PartialEq, Eq, Structural, Debug)]
pub enum Code {
    /// It was held already.
    Held,
    Created,
    /// It is still to be read.
    Accepted,
    /// It was done, and there is nothing to say of it.
    Done,
}

impl Code {
    /// The status as a number.
    pub open spec fn number_spec(self) -> u16 {
        match self {
            Code::Held => 200,
            Code::Created => 201,
            Code::Accepted => 202,
            Code::Done => 204,
        }
    }

    /// The status as a number.
    pub fn number(self) -> (r: u16)
        ensures
            r == self.number_spec(),
    {
        match self {
            Code::Held => 200,
            Code::Created => 201,
            Code::Accepted => 202,
            Code::Done => 204,
        }
    }
}

/// What a body that holds one thing is taken to be.
pub enum CapturePlan {
    /// The page at an address, to be fetched.
    Fetch { url: String, title: Option<String>, note: Option<String>, lang: String },
    /// The text itself.
    Store(Capture),
}

/// `r` refuses, in these words.
pub open spec fn refuses<T>(r: Result<T, Error>, words: Seq<char>) -> bool {
    r matches Err(Error::Validation(m)) && m@ == words
}

/// A refusal in these words.
fn refusal<T>(words: String) -> (r: Result<T, Error>)
    ensures
        refuses(r, words@),
{
    Err(Error::Validation(words))
}

// ---------------------------------------------------------------------------
// What a text is made of
// ---------------------------------------------------------------------------

/// `String::from_utf8`: the text that some bytes spell in UTF-8, where they
/// are UTF-8.
#[verifier::external_body]
fn from_utf8(bytes: Vec<u8>) -> (r: Option<String>)
    ensures
        r is Some <==> vstd::utf8::valid_utf8(bytes@),
        r matches Some(s) ==> vstd::utf8::encode_utf8(s@) == bytes@,
{
    String::from_utf8(bytes).ok()
}

/// What a field that may be absent or blank says: what is left of it once
/// trimmed.
pub open spec fn given(s: Option<Seq<char>>) -> Option<Seq<char>> {
    match s {
        Some(t) => if text::trim(t).len() > 0 {
            Some(text::trim(t))
        } else {
            None
        },
        None => None,
    }
}

/// What a field that may be absent or blank says.
pub fn given_of(s: Option<&str>) -> (r: Option<String>)
    ensures
        text::text_of(r) == given(text::borrowed(s)),
{
    match s {
        Some(t) => {
            let v = trimmed(t);
            if v.as_str().is_empty() {
                None
            } else {
                Some(v)
            }
        },
        None => None,
    }
}

/// A string that may be absent, borrowed.
pub fn lend(s: &Option<String>) -> (r: Option<&str>)
    ensures
        text::borrowed(r) == text::text_of(*s),
{
    match s {
        Some(t) => Some(t.as_str()),
        None => None,
    }
}

// ---------------------------------------------------------------------------
// The fields about time
// ---------------------------------------------------------------------------

/// The words that refuse the fields about time, where something refuses them.
/// `known` is whether the zone table has the zone.
pub open spec fn time_refusal(
    tz: Option<Seq<char>>,
    known: bool,
    origin: Option<Seq<char>>,
    intent: Option<Seq<char>>,
) -> Option<Seq<char>> {
    if given(tz) is Some && !known {
        Some("tz="@ + given(tz)->0 + ": not an IANA zone name"@)
    } else if given(origin) is Some && given(origin)->0 != "journal"@ {
        Some("origin="@ + given(origin)->0 + ": only `journal` can be asked for"@)
    } else if given(intent) is Some && given(intent)->0 != "remind"@ {
        Some("intent="@ + given(intent)->0 + ": only `remind` can be asked for"@)
    } else {
        None
    }
}

/// What the fields about time say, where nothing refuses them.
pub open spec fn is_time(
    t: CaptureTime,
    tz: Option<Seq<char>>,
    origin: Option<Seq<char>>,
    intent: Option<Seq<char>>,
    door: Seq<char>,
) -> bool {
    &&& text::text_of(t.tz) == given(tz)
    &&& t.origin@ == (if given(origin) is Some {
        ORIGIN_JOURNAL@
    } else {
        door
    })
    &&& t.channel@ == door
    &&& t.intent == (if given(intent) is Some {
        Some(Intent::Remind)
    } else {
        None
    })
}

/// Whether the zone that a field names, if it names one, is one the zone table
/// has.
pub open spec fn zone_given(tz: Option<Seq<char>>) -> bool {
    given(tz) matches Some(name) && zones::zone_known(name)
}

/// What the fields about time say. `zone` is the zone the first of them names,
/// as the table spells it, where the table has it.
pub fn time_of(
    tz: Option<&str>,
    zone: Option<String>,
    origin: Option<&str>,
    intent: Option<&str>,
    door: &'static str,
) -> (r: Result<CaptureTime, Error>)
    requires
        zone matches Some(z) ==> given(text::borrowed(tz)) == Some(z@),
    ensures
        match time_refusal(
            text::borrowed(tz),
            zone is Some,
            text::borrowed(origin),
            text::borrowed(intent),
        ) {
            Some(words) => refuses(r, words),
            None => r matches Ok(t) && is_time(
                t,
                text::borrowed(tz),
                text::borrowed(origin),
                text::borrowed(intent),
                door@,
            ),
        },
{
    let tz = match given_of(tz) {
        None => None,
        Some(name) => match zone {
            Some(z) => Some(z),
            None => {
                let mut m = "tz=".to_owned();
                m.append(name.as_str());
                m.append(": not an IANA zone name");
                return refusal(m);
            },
        },
    };
    let filed = match given_of(origin) {
        None => door,
        Some(o) => if same(o.as_str(), "journal") {
            ORIGIN_JOURNAL
        } else {
            let mut m = "origin=".to_owned();
            m.append(o.as_str());
            m.append(": only `journal` can be asked for");
            return refusal(m);
        },
    };
    let intent = match given_of(intent) {
        None => None,
        Some(i) => if same(i.as_str(), "remind") {
            Some(Intent::Remind)
        } else {
            let mut m = "intent=".to_owned();
            m.append(i.as_str());
            m.append(": only `remind` can be asked for");
            return refusal(m);
        },
    };
    Ok(CaptureTime { tz, origin: filed, channel: door, intent })
}

/// What the fields about time say. A typo in one of them is refused, and never
/// silently ignored; a zone is kept as the zone table spells it.
pub fn capture_time(
    tz: Option<&str>,
    origin: Option<&str>,
    intent: Option<&str>,
    door: &'static str,
) -> (r: Result<CaptureTime, Error>)
    ensures
        match time_refusal(
            text::borrowed(tz),
            zone_given(text::borrowed(tz)),
            text::borrowed(origin),
            text::borrowed(intent),
        ) {
            Some(words) => refuses(r, words),
            None => r matches Ok(t) && is_time(
                t,
                text::borrowed(tz),
                text::borrowed(origin),
                text::borrowed(intent),
                door@,
            ),
        },
{
    let zone = match given_of(tz) {
        Some(name) => zone_named(name.as_str()),
        None => None,
    };
    time_of(tz, zone, origin, intent, door)
}

/// The names of the fields about time that say something.
pub open spec fn time_fields(
    tz: Option<Seq<char>>,
    origin: Option<Seq<char>>,
    intent: Option<Seq<char>>,
) -> Seq<Seq<char>> {
    (if given(tz) is Some {
        seq!["tz"@]
    } else {
        Seq::empty()
    }) + (if given(origin) is Some {
        seq!["origin"@]
    } else {
        Seq::empty()
    }) + (if given(intent) is Some {
        seq!["intent"@]
    } else {
        Seq::empty()
    })
}

/// The words that refuse the fields about time on what is no text, where there
/// are any.
pub open spec fn fields_refusal(
    tz: Option<Seq<char>>,
    origin: Option<Seq<char>>,
    intent: Option<Seq<char>>,
) -> Option<Seq<char>> {
    if time_fields(tz, origin, intent).len() == 0 {
        None
    } else {
        Some(
            text::join(time_fields(tz, origin, intent), ", "@)
                + " only applies to a text capture — a link or a file is read by the server, and its origin and any date in it come from what it turns out to be"@,
        )
    }
}

/// Adds a name to the names of the fields that say something.
fn put_name(names: &mut Vec<String>, name: &str, field: Option<&str>)
    ensures
        text::texts(final(names)@) == text::texts(old(names)@) + (if given(
            text::borrowed(field),
        ) is Some {
            seq![name@]
        } else {
            Seq::empty()
        }),
{
    let ghost before = text::texts(names@);
    if given_of(field).is_some() {
        let n = name.to_owned();
        assert(text::texts(names@.push(n)) =~= before + seq![n@]);
        names.push(n);
    } else {
        assert(before =~= before + Seq::empty());
    }
}

/// Refuse the fields about time on a capture that is not verbatim text: what a
/// page or a file is filed as is what it turns out to be, and nobody typed a
/// sentence for the rest to be about.
pub fn refuse_time_fields(
    tz: Option<&str>,
    origin: Option<&str>,
    intent: Option<&str>,
) -> (r: Result<(), Error>)
    ensures
        match fields_refusal(text::borrowed(tz), text::borrowed(origin), text::borrowed(intent)) {
            Some(words) => refuses(r, words),
            None => r is Ok,
        },
{
    let mut names: Vec<String> = Vec::new();
    assert(text::texts(names@) =~= Seq::empty());
    put_name(&mut names, "tz", tz);
    put_name(&mut names, "origin", origin);
    put_name(&mut names, "intent", intent);
    let ghost all = time_fields(text::borrowed(tz), text::borrowed(origin), text::borrowed(intent));
    assert(text::texts(names@) =~= all);
    assert(text::texts(names@).len() == names@.len());
    if names.len() == 0 {
        return Ok(());
    }
    let mut m = joined(names.as_slice(), ", ");
    m.append(
        " only applies to a text capture — a link or a file is read by the server, and its origin and any date in it come from what it turns out to be",
    );
    refusal(m)
}

// ---------------------------------------------------------------------------
// Links
// ---------------------------------------------------------------------------

/// Whether a text is one word: something, and no white space in it.
pub open spec fn one_word(s: Seq<char>) -> bool {
    s.len() > 0 && forall|i: int| 0 <= i < s.len() ==> !text::is_white(#[trigger] s[i])
}

/// The link a body is, where it is one link and nothing else. `read` is what
/// the body, trimmed, is as an address.
pub open spec fn lone_link(
    body: Seq<char>,
    read: Result<Address, Seq<char>>,
) -> Option<Address> {
    if !one_word(text::trim(body)) {
        None
    } else {
        match read {
            Ok(a) => if links::is_web(a) {
                Some(a)
            } else {
                None
            },
            Err(_) => None,
        }
    }
}

/// What a link that may be absent says.
pub open spec fn link_says(l: Option<Link>) -> Option<Address> {
    match l {
        Some(link) => Some(link@),
        None => None,
    }
}

/// The link a body is, given what it is as an address.
pub fn lone_link_of(body: &str, read: Result<Link, String>) -> (r: Option<Link>)
    ensures
        link_says(r) == lone_link(body@, links::read_as(read)),
{
    let word = trimmed(body);
    let v = chars_of(word.as_str());
    if v.len() == 0 {
        return None;
    }
    let mut i: usize = 0;
    while i < v.len()
        invariant
            i <= v@.len(),
            v@ == text::trim(body@),
            forall|j: int| 0 <= j < i ==> !text::is_white(#[trigger] v@[j]),
        decreases v.len() - i,
    {
        if white(v[i]) {
            assert(!one_word(v@));
            return None;
        }
        i = i + 1;
    }
    match read {
        Ok(link) => if link.web() {
            Some(link)
        } else {
            None
        },
        Err(_) => None,
    }
}

/// Whether a body is one link and nothing else. Every share sheet hands a link
/// over as plain text; a line of prose that opens with a link is prose.
pub fn only_a_url(body: &str) -> (r: Option<Link>)
    ensures
        link_says(r) == lone_link(body@, links::url_read(text::trim(body@))),
{
    let word = trimmed(body);
    lone_link_of(body, read_link(word.as_str()))
}

/// The words that refuse an address, where something refuses it: it is none,
/// or one that no page is read over.
pub open spec fn link_refusal(read: Result<Address, Seq<char>>) -> Option<Seq<char>> {
    match read {
        Err(why) => Some("url: "@ + why),
        Ok(a) => if links::is_web(a) {
            None
        } else {
            Some("url: `"@ + a.scheme + "` is not a scheme a page is read over"@)
        },
    }
}

/// An address that a page may be read over. What is kept of it is shown as a
/// link, so the rule holds even where nothing is fetched.
pub fn followable(read: Result<Link, String>) -> (r: Result<Link, Error>)
    ensures
        match link_refusal(links::read_as(read)) {
            Some(words) => refuses(r, words),
            None => r matches Ok(link) && links::read_as(read) == Ok::<Address, Seq<char>>(link@),
        },
{
    match read {
        Err(why) => {
            let mut m = "url: ".to_owned();
            m.append(why.as_str());
            refusal(m)
        },
        Ok(link) => if link.web() {
            Ok(link)
        } else {
            let mut m = "url: `".to_owned();
            m.append(link.scheme.as_str());
            m.append("` is not a scheme a page is read over");
            refusal(m)
        },
    }
}

// ---------------------------------------------------------------------------
// What a capture is answered
// ---------------------------------------------------------------------------

/// Whether what was stored is still to be read.
pub open spec fn still_read(status: CorpusStatus) -> bool {
    status == CorpusStatus::Extracting || status == CorpusStatus::Describing
}

/// What one capture is answered: that it was held already, that it is still to
/// be read, or that it is complete.
pub open spec fn code_of(out: IngestOutcome) -> Code {
    if out.duplicate {
        Code::Held
    } else if still_read(out.status) {
        Code::Accepted
    } else {
        Code::Created
    }
}

/// What one capture is answered.
pub fn code_for(out: &IngestOutcome) -> (r: Code)
    ensures
        r == code_of(*out),
{
    if out.duplicate {
        Code::Held
    } else if out.status == CorpusStatus::Extracting || out.status == CorpusStatus::Describing {
        Code::Accepted
    } else {
        Code::Created
    }
}

/// What several captures are answered, the weakest true statement about them:
/// nothing is new only if every one of them was held already, and something is
/// still to be read if anything is.
pub open spec fn code_of_all(outs: Seq<IngestOutcome>) -> Code {
    if forall|i: int| 0 <= i < outs.len() ==> (#[trigger] outs[i]).duplicate {
        Code::Held
    } else if exists|i: int| 0 <= i < outs.len() && still_read((#[trigger] outs[i]).status) {
        Code::Accepted
    } else {
        Code::Created
    }
}

/// What several captures are answered.
pub fn code_for_all(outs: &[IngestOutcome]) -> (r: Code)
    ensures
        r == code_of_all(outs@),
{
    let mut all_held = true;
    let mut any_read = false;
    let mut i: usize = 0;
    while i < outs.len()
        invariant
            i <= outs@.len(),
            all_held == forall|j: int| 0 <= j < i ==> (#[trigger] outs@[j]).duplicate,
            any_read == exists|j: int| 0 <= j < i && still_read((#[trigger] outs@[j]).status),
        decreases outs.len() - i,
    {
        if !outs[i].duplicate {
            assert(!outs@[i as int].duplicate);
            all_held = false;
        }
        if outs[i].status == CorpusStatus::Extracting || outs[i].status
            == CorpusStatus::Describing {
            assert(still_read(outs@[i as int].status));
            any_read = true;
        }
        i = i + 1;
    }
    if all_held {
        Code::Held
    } else if any_read {
        Code::Accepted
    } else {
        Code::Created
    }
}

/// What a share that held some things is answered: nothing to capture where it
/// held none, and the one or the several with their code.
pub fn captured(outs: Vec<IngestOutcome>) -> (r: Result<(Code, Captured), Error>)
    ensures
        if outs@.len() == 0 {
            refuses(
                r,
                "nothing to capture: send `text`, `url`, or at least one file part"@,
            )
        } else if outs@.len() == 1 {
            r matches Ok(a) && a.0 == code_of(outs@[0]) && (a.1 matches Captured::One(one) && one
                == outs@[0])
        } else {
            r matches Ok(a) && a.0 == code_of_all(outs@) && (a.1 matches Captured::Many(many)
                && many@ == outs@)
        },
{
    let mut outs = outs;
    if outs.len() == 0 {
        return refusal(
            "nothing to capture: send `text`, `url`, or at least one file part".to_owned(),
        );
    }
    if outs.len() == 1 {
        let code = code_for(&outs[0]);
        return match outs.pop() {
            Some(one) => Ok((code, Captured::One(one))),
            None => Ok((code, Captured::Many(outs))),
        };
    }
    let code = code_for_all(outs.as_slice());
    Ok((code, Captured::Many(outs)))
}

// ---------------------------------------------------------------------------
// The door for those who know what they hold
// ---------------------------------------------------------------------------

/// Whether a request may skip the floor under what is extracted from a page.
pub open spec fn is_exempt(req: IngestRequest) -> bool {
    req.html is Some && text::text_of(req.scope) == Some("selection"@)
}

/// Whether a request may skip the floor under what is extracted from a page.
///
/// Only where there is a fragment to be exempt: nobody selected anything in a
/// page the server fetches, and honouring the claim there would switch off the
/// one guard that catches a login wall.
pub fn floor_exempt(req: &IngestRequest) -> (r: bool)
    ensures
        r == is_exempt(*req),
{
    match (&req.html, &req.scope) {
        (Some(_), Some(scope)) => same(scope.as_str(), "selection"),
        _ => false,
    }
}

/// What a request is taken to be.
pub enum IngestPlan {
    /// A text, to be kept.
    Store(Capture),
    /// A page the browser has rendered, to be extracted: refused where less
    /// than `floor` characters come of it.
    Extract {
        html: String,
        base: Option<String>,
        floor: usize,
        title: Option<String>,
        lang: String,
    },
    /// A page to be fetched.
    Fetch { url: String, title: Option<String>, lang: String },
}

/// How many bodies a request supplies. An address beside a page says where the
/// page came from, and is no second body.
pub open spec fn bodies(req: IngestRequest) -> int {
    (if req.text is Some {
        1int
    } else {
        0
    }) + (if req.html is Some {
        1int
    } else {
        0
    }) + (if req.url is Some && req.html is None {
        1int
    } else {
        0
    })
}

/// `c` is a text typed or pasted, with its title.
pub open spec fn is_pasted(
    c: Capture,
    text: Seq<char>,
    title: Option<Seq<char>>,
    lang: Seq<char>,
) -> bool {
    &&& c.text@ == text
    &&& c.origin@ == ORIGIN_WEB@
    &&& text::text_of(c.title) == title
    &&& text::text_of(c.lang) == Some(lang)
    &&& c.channel is None
    &&& c.note is None
    &&& c.tz is None
    &&& c.intent is None
    &&& c.source_url is None
    &&& c.day is None
    &&& c.file is None
    &&& c.ask is None
}

/// What a request is taken to be. `read` is what its address is, where it has
/// one.
pub open spec fn is_ingest(
    r: Result<IngestPlan, Error>,
    req: IngestRequest,
    read: Option<Result<Address, Seq<char>>>,
    min_chars: usize,
    lang: Seq<char>,
) -> bool {
    if bodies(req) != 1 {
        refuses(r, "supply exactly one of `text`, `html` or `url`"@)
    } else if read matches Some(x) && link_refusal(x) is Some {
        refuses(r, link_refusal(read->0)->0)
    } else if req.text is Some {
        r matches Ok(IngestPlan::Store(c)) && is_pasted(
            c,
            req.text->0@,
            text::text_of(req.title),
            lang,
        )
    } else if req.html is Some {
        &&& r matches Ok(IngestPlan::Extract { html, base, floor, title, lang: l })
        &&& html@ == req.html->0@
        &&& text::text_of(base) == (match read {
            Some(Ok(a)) => Some(a.whole),
            _ => None,
        })
        &&& floor == (if is_exempt(req) {
            0
        } else {
            min_chars
        })
        &&& text::text_of(title) == text::text_of(req.title)
        &&& l@ == lang
    } else {
        &&& r matches Ok(IngestPlan::Fetch { url, title, lang: l })
        &&& read matches Some(Ok(a))
        &&& url@ == a.whole
        &&& text::text_of(title) == text::text_of(req.title)
        &&& l@ == lang
    }
}

/// What an address that may be absent was read as.
pub open spec fn read_as_opt(r: Option<Result<Link, String>>) -> Option<
    Result<Address, Seq<char>>,
> {
    match r {
        Some(x) => Some(links::read_as(x)),
        None => None,
    }
}

/// What a request is taken to be, given what its address is.
pub fn plan_ingest(
    req: IngestRequest,
    read: Option<Result<Link, String>>,
    min_chars: usize,
    lang: &str,
) -> (r: Result<IngestPlan, Error>)
    requires
        read is Some <==> req.url is Some,
    ensures
        is_ingest(r, req, read_as_opt(read), min_chars, lang@),
{
    let texts: usize = if req.text.is_some() {
        1
    } else {
        0
    };
    let pages: usize = if req.html.is_some() {
        1
    } else {
        0
    };
    let addresses: usize = if req.url.is_some() && req.html.is_none() {
        1
    } else {
        0
    };
    if texts + pages + addresses != 1 {
        return refusal("supply exactly one of `text`, `html` or `url`".to_owned());
    }
    let exempt = floor_exempt(&req);
    let link = match read {
        Some(x) => match followable(x) {
            Ok(link) => Some(link),
            Err(e) => {
                return Err(e);
            },
        },
        None => None,
    };
    match req.text {
        Some(t) => {
            let mut c = Capture::new(t, ORIGIN_WEB);
            c.lang = Some(lang.to_owned());
            c.title = req.title;
            Ok(IngestPlan::Store(c))
        },
        None => match req.html {
            Some(html) => Ok(
                IngestPlan::Extract {
                    html,
                    base: match link {
                        Some(l) => Some(l.whole),
                        None => None,
                    },
                    floor: if exempt {
                        0
                    } else {
                        min_chars
                    },
                    title: req.title,
                    lang: lang.to_owned(),
                },
            ),
            None => match link {
                Some(l) => Ok(
                    IngestPlan::Fetch { url: l.whole, title: req.title, lang: lang.to_owned() },
                ),
                None => refusal("supply exactly one of `text`, `html` or `url`".to_owned()),
            },
        },
    }
}

/// What a request is taken to be: exactly one body, and an address, if there is
/// one, that a page may be read over.
pub fn ingest(req: IngestRequest, min_chars: usize, lang: &str) -> (r: Result<
    IngestPlan,
    Error,
>)
    ensures
        is_ingest(
            r,
            req,
            match req.url {
                Some(u) => Some(links::url_read(u@)),
                None => None,
            },
            min_chars,
            lang@,
        ),
{
    let read = match &req.url {
        Some(u) => Some(read_link(u.as_str())),
        None => None,
    };
    plan_ingest(req, read, min_chars, lang)
}

/// What is kept of a page that was extracted: its text, under the title that
/// was sent and otherwise under its own.
pub fn extracted(
    markdown: String,
    page_title: Option<String>,
    title: Option<String>,
    base: Option<String>,
    lang: String,
) -> (r: Capture)
    ensures
        r.text == markdown,
        r.origin@ == ORIGIN_EXTENSION@,
        r.title == (if title is Some {
            title
        } else {
            page_title
        }),
        r.source_url == base,
        text::text_of(r.lang) == Some(lang@),
        r.channel is None,
        r.note is None,
        r.tz is None,
        r.intent is None,
        r.day is None,
        r.file is None,
        r.ask is None,
{
    let mut c = Capture::new(markdown, ORIGIN_EXTENSION);
    c.title = match title {
        Some(t) => Some(t),
        None => page_title,
    };
    c.source_url = base;
    c.lang = Some(lang);
    c
}

/// What a text that is kept is answered: that it was held already, or that it
/// is new.
pub fn kept_code(duplicate: bool) -> (r: Code)
    ensures
        r == (if duplicate {
            Code::Held
        } else {
            Code::Created
        }),
{
    if duplicate {
        Code::Held
    } else {
        Code::Created
    }
}

/// What a file that is stored is answered: that it was held already, or that
/// it is still to be read.
pub fn stored_code(duplicate: bool) -> (r: Code)
    ensures
        r == (if duplicate {
            Code::Held
        } else {
            Code::Accepted
        }),
{
    if duplicate {
        Code::Held
    } else {
        Code::Accepted
    }
}

// ---------------------------------------------------------------------------
// The door for those who do not
// ---------------------------------------------------------------------------

/// What a body is, by the type it is declared with.
pub enum Body {
    Text,
    Parts,
    /// A file of a kind that may be at most so large.
    File { what: &'static str, ceiling: usize },
}

/// What a body is, by the type it is declared with; none where this door does
/// not read it.
pub open spec fn is_body(r: Option<Body>, kind: Seq<char>, pdf: usize, image: usize) -> bool {
    if "text/plain"@.is_prefix_of(kind) {
        r matches Some(Body::Text)
    } else if "multipart/form-data"@.is_prefix_of(kind) {
        r matches Some(Body::Parts)
    } else if "application/pdf"@.is_prefix_of(kind) {
        r matches Some(Body::File { what, ceiling }) && what@ == "PDF"@ && ceiling == pdf
    } else if "image/"@.is_prefix_of(kind) {
        r matches Some(Body::File { what, ceiling }) && what@ == "image"@ && ceiling == image
    } else {
        r is None
    }
}

/// A text with its ASCII letters in lower case.
fn lowercase(s: &str) -> (r: String)
    ensures
        r@ == text::lowered(s@),
{
    let v = chars_of(s);
    let mut r = String::new();
    let mut i: usize = 0;
    assert(r@ =~= text::lowered(s@).take(0));
    while i < v.len()
        invariant
            i <= v@.len(),
            v@ == s@,
            r@ == text::lowered(s@).take(i as int),
        decreases v.len() - i,
    {
        r.push(lower_of(v[i]));
        assert(r@ =~= text::lowered(s@).take(i + 1));
        i = i + 1;
    }
    assert(text::lowered(s@).take(s@.len() as int) =~= text::lowered(s@));
    r
}

/// What a type is declared as, in lower case; nothing where nothing is.
pub open spec fn declared_kind(content_type: Option<Seq<char>>) -> Seq<char> {
    match content_type {
        Some(t) => text::lowered(t),
        None => Seq::empty(),
    }
}

/// What a body is, by the type it is declared with. A type this door does not
/// read is refused by name.
pub open spec fn is_body_read(
    r: Result<Body, Error>,
    kind: Seq<char>,
    pdf: usize,
    image: usize,
) -> bool {
    match r {
        Ok(b) => is_body(Some(b), kind, pdf, image),
        Err(e) => is_body(None, kind, pdf, image) && refuses(
            r,
            "`"@ + kind
                + "` is not a type this door reads — send text/plain, application/pdf, an image, or multipart/form-data"@,
        ),
    }
}

/// What a body is, by the type it is declared with, in whatever case.
pub fn body_of(content_type: Option<&str>, pdf: usize, image: usize) -> (r: Result<Body, Error>)
    ensures
        is_body_read(r, declared_kind(text::borrowed(content_type)), pdf, image),
{
    let kind = match content_type {
        Some(t) => lowercase(t),
        None => String::new(),
    };
    if opens_with(kind.as_str(), "text/plain") {
        return Ok(Body::Text);
    }
    if opens_with(kind.as_str(), "multipart/form-data") {
        return Ok(Body::Parts);
    }
    if opens_with(kind.as_str(), "application/pdf") {
        return Ok(Body::File { what: "PDF", ceiling: pdf });
    }
    if opens_with(kind.as_str(), "image/") {
        return Ok(Body::File { what: "image", ceiling: image });
    }
    let mut m = "`".to_owned();
    m.append(kind.as_str());
    m.append(
        "` is not a type this door reads — send text/plain, application/pdf, an image, or multipart/form-data",
    );
    refusal(m)
}

/// The question that rides along with a text: the one the query names, where
/// `asked` is that one.
pub open spec fn rides(from_ask: Option<Seq<char>>, asked: Option<AskNote>) -> Option<AskNote> {
    match (from_ask, asked) {
        (Some(id), Some(a)) => if a.event_id@ == id {
            Some(a)
        } else {
            None
        },
        _ => None,
    }
}

/// The question that rides along with a text.
pub fn riding(from_ask: Option<&str>, asked: Option<AskNote>) -> (r: Option<AskNote>)
    ensures
        r == rides(text::borrowed(from_ask), asked),
{
    match (from_ask, asked) {
        (Some(id), Some(a)) => if same(a.event_id.as_str(), id) {
            Some(a)
        } else {
            None
        },
        _ => None,
    }
}

/// `c` is a text captured as it stands, with what was said of it.
pub open spec fn is_kept(
    c: Capture,
    body: Seq<char>,
    time: CaptureTime,
    title: Option<Seq<char>>,
    note: Option<Seq<char>>,
    lang: Seq<char>,
    ask: Option<AskNote>,
    channel: Option<Seq<char>>,
) -> bool {
    &&& c.text@ == body
    &&& c.origin@ == time.origin@
    &&& text::borrowed(c.channel) == channel
    &&& text::text_of(c.title) == title
    &&& text::text_of(c.note) == note
    &&& text::text_of(c.tz) == text::text_of(time.tz)
    &&& text::text_of(c.lang) == Some(lang)
    &&& c.intent == time.intent
    &&& c.source_url is None
    &&& c.day is None
    &&& c.file is None
    &&& c.ask == ask
}

/// A text captured as it stands, with what was said of it and the door it came
/// in by, where that is told.
pub fn keep(
    body: String,
    time: CaptureTime,
    title: Option<String>,
    note: Option<String>,
    lang: &str,
    ask: Option<AskNote>,
    channel: Option<&'static str>,
) -> (r: Capture)
    ensures
        is_kept(
            r,
            body@,
            time,
            text::text_of(title),
            text::text_of(note),
            lang@,
            ask,
            text::borrowed(channel),
        ),
{
    let mut c = Capture::new(body, time.origin);
    c.channel = channel;
    c.title = title;
    c.note = note;
    c.tz = time.tz;
    c.lang = Some(lang.to_owned());
    c.intent = time.intent;
    c.ask = ask;
    c
}

/// `p` fetches the page at an address.
pub open spec fn is_fetch(
    p: CapturePlan,
    url: Seq<char>,
    title: Option<Seq<char>>,
    note: Option<Seq<char>>,
    lang: Seq<char>,
) -> bool {
    p matches CapturePlan::Fetch { url: u, title: t, note: n, lang: l } && u@ == url
        && text::text_of(t) == title && text::text_of(n) == note && l@ == lang
}

/// `p` keeps a text as the fields about time say. `channel` is the door it is
/// said to have come in by, beside what it is filed as.
pub open spec fn is_store(
    p: CapturePlan,
    body: Seq<char>,
    tz: Option<Seq<char>>,
    origin: Option<Seq<char>>,
    intent: Option<Seq<char>>,
    title: Option<Seq<char>>,
    note: Option<Seq<char>>,
    lang: Seq<char>,
    ask: Option<AskNote>,
    channel: Option<Seq<char>>,
) -> bool {
    &&& p matches CapturePlan::Store(c)
    &&& c.text@ == body
    &&& c.origin@ == (if given(origin) is Some {
        ORIGIN_JOURNAL@
    } else {
        ORIGIN_WEB@
    })
    &&& text::borrowed(c.channel) == channel
    &&& text::text_of(c.title) == title
    &&& text::text_of(c.note) == note
    &&& text::text_of(c.tz) == given(tz)
    &&& text::text_of(c.lang) == Some(lang)
    &&& c.intent == (if given(intent) is Some {
        Some(Intent::Remind)
    } else {
        None
    })
    &&& c.source_url is None
    &&& c.day is None
    &&& c.file is None
    &&& c.ask == ask
}

/// What a plain text is taken to be: the page it links to, where it is one
/// link and nothing else, and otherwise itself. `read` is what it is as an
/// address.
pub open spec fn is_text_plan(
    r: Result<CapturePlan, Error>,
    q: CaptureQuery,
    body: Seq<char>,
    read: Result<Address, Seq<char>>,
    lang: Seq<char>,
    asked: Option<AskNote>,
) -> bool {
    let tz = text::text_of(q.tz);
    let origin = text::text_of(q.origin);
    let intent = text::text_of(q.intent);
    match lone_link(body, read) {
        Some(a) => match fields_refusal(tz, origin, intent) {
            Some(words) => refuses(r, words),
            None => r matches Ok(p) && is_fetch(
                p,
                a.whole,
                text::text_of(q.title),
                text::text_of(q.note),
                lang,
            ),
        },
        None => r matches Ok(p) && is_store(
            p,
            body,
            tz,
            origin,
            intent,
            text::text_of(q.title),
            text::text_of(q.note),
            lang,
            rides(text::text_of(q.from_ask), asked),
            Some(ORIGIN_WEB@),
        ),
    }
}

/// What a plain text is taken to be, given what it is as an address and what
/// the fields about time say.
pub fn plan_text(
    q: CaptureQuery,
    time: CaptureTime,
    body: String,
    read: Result<Link, String>,
    lang: &str,
    asked: Option<AskNote>,
) -> (r: Result<CapturePlan, Error>)
    requires
        is_time(
            time,
            text::text_of(q.tz),
            text::text_of(q.origin),
            text::text_of(q.intent),
            ORIGIN_WEB@,
        ),
    ensures
        is_text_plan(r, q, body@, links::read_as(read), lang@, asked),
{
    match lone_link_of(body.as_str(), read) {
        Some(link) => {
            match refuse_time_fields(lend(&q.tz), lend(&q.origin), lend(&q.intent)) {
                Ok(_) => {},
                Err(e) => {
                    return Err(e);
                },
            }
            Ok(
                CapturePlan::Fetch {
                    url: link.whole,
                    title: q.title,
                    note: q.note,
                    lang: lang.to_owned(),
                },
            )
        },
        None => {
            let ask = riding(lend(&q.from_ask), asked);
            let door = Some(time.channel);
            Ok(CapturePlan::Store(keep(body, time, q.title, q.note, lang, ask, door)))
        },
    }
}

/// What some bytes declared as plain text are taken to be.
///
/// Refused rather than mended where they are no UTF-8: a source is quoted back
/// verbatim, and text that arrived mangled is a loss nothing later can detect.
/// `asked` is the question that the query names, where there is such a one.
pub fn capture_text(
    q: CaptureQuery,
    bytes: Vec<u8>,
    lang: &str,
    asked: Option<AskNote>,
) -> (r: Result<CapturePlan, Error>)
    ensures
        match time_refusal(
            text::text_of(q.tz),
            zone_given(text::text_of(q.tz)),
            text::text_of(q.origin),
            text::text_of(q.intent),
        ) {
            Some(words) => refuses(r, words),
            None => if bytes@.len() > MAX_BODY_BYTES {
                refuses(r, "that text is over the 8 MB limit for a text capture"@)
            } else if !vstd::utf8::valid_utf8(bytes@) {
                refuses(r, "that body is not valid UTF-8 text"@)
            } else {
                let body = vstd::utf8::decode_utf8(bytes@);
                is_text_plan(r, q, body, links::url_read(text::trim(body)), lang@, asked)
            },
        },
{
    let time = match capture_time(lend(&q.tz), lend(&q.origin), lend(&q.intent), ORIGIN_WEB) {
        Ok(t) => t,
        Err(e) => {
            return Err(e);
        },
    };
    if bytes.len() > MAX_BODY_BYTES {
        return refusal("that text is over the 8 MB limit for a text capture".to_owned());
    }
    match from_utf8(bytes) {
        Some(body) => {
            proof {
                vstd::utf8::encode_utf8_decode_utf8(body@);
            }
            let word = trimmed(body.as_str());
            let read = read_link(word.as_str());
            plan_text(q, time, body, read, lang, asked)
        },
        None => refusal("that body is not valid UTF-8 text".to_owned()),
    }
}

/// What a body is taken to be at the door for whatever a client is holding,
/// told before it is read: what is wrong with the fields about time is said
/// first, and then what the body is.
pub fn capture(q: &CaptureQuery, content_type: Option<&str>, pdf: usize, image: usize) -> (r:
    Result<Body, Error>)
    ensures
        match time_refusal(
            text::text_of(q.tz),
            zone_given(text::text_of(q.tz)),
            text::text_of(q.origin),
            text::text_of(q.intent),
        ) {
            Some(words) => refuses(r, words),
            None => is_body_read(r, declared_kind(text::borrowed(content_type)), pdf, image),
        },
{
    match capture_time(lend(&q.tz), lend(&q.origin), lend(&q.intent), ORIGIN_WEB) {
        Ok(_) => body_of(content_type, pdf, image),
        Err(e) => Err(e),
    }
}

/// A file to be kept, with what was said of it.
pub struct FileCapture {
    pub bytes: Vec<u8>,
    pub filename: Option<String>,
    pub title: Option<String>,
    pub note: Option<String>,
    pub origin: &'static str,
    pub lang: String,
}

/// `c` is a file to be kept, with what was said of it.
pub open spec fn is_file(
    c: FileCapture,
    bytes: Seq<u8>,
    filename: Option<Seq<char>>,
    title: Option<Seq<char>>,
    note: Option<Seq<char>>,
    lang: Seq<char>,
) -> bool {
    &&& c.bytes@ == bytes
    &&& text::text_of(c.filename) == filename
    &&& text::text_of(c.title) == title
    &&& text::text_of(c.note) == note
    &&& c.origin@ == ORIGIN_WEB@
    &&& c.lang@ == lang
}

/// The words that refuse a file that is too large.
pub open spec fn size_refusal(what: Seq<char>, ceiling: usize) -> Seq<char> {
    "that "@ + what + " is over the "@ + text::decimal((ceiling / MEGABYTE) as nat)
        + " MB limit for a "@ + what + " capture"@
}

/// What some bytes declared as a file of some kind are taken to be: a file that
/// is not too large for its kind, and of which none of the fields about time is
/// asked.
pub fn capture_file(
    q: CaptureQuery,
    what: &'static str,
    ceiling: usize,
    bytes: Vec<u8>,
    lang: &str,
) -> (r: Result<FileCapture, Error>)
    ensures
        match time_refusal(
            text::text_of(q.tz),
            zone_given(text::text_of(q.tz)),
            text::text_of(q.origin),
            text::text_of(q.intent),
        ) {
            Some(words) => refuses(r, words),
            None => if bytes@.len() > ceiling {
                refuses(r, size_refusal(what@, ceiling))
            } else {
                match fields_refusal(
                    text::text_of(q.tz),
                    text::text_of(q.origin),
                    text::text_of(q.intent),
                ) {
                    Some(words) => refuses(r, words),
                    None => r matches Ok(c) && is_file(
                        c,
                        bytes@,
                        None,
                        text::text_of(q.title),
                        text::text_of(q.note),
                        lang@,
                    ),
                }
            },
        },
{
    match capture_time(lend(&q.tz), lend(&q.origin), lend(&q.intent), ORIGIN_WEB) {
        Ok(_) => {},
        Err(e) => {
            return Err(e);
        },
    }
    if bytes.len() > ceiling {
        let mut m = "that ".to_owned();
        m.append(what);
        m.append(" is over the ");
        m.append(decimal_of((ceiling / MEGABYTE) as u64).as_str());
        m.append(" MB limit for a ");
        m.append(what);
        m.append(" capture");
        return refusal(m);
    }
    match refuse_time_fields(lend(&q.tz), lend(&q.origin), lend(&q.intent)) {
        Ok(_) => Ok(
            FileCapture {
                bytes,
                filename: None,
                title: q.title,
                note: q.note,
                origin: ORIGIN_WEB,
                lang: lang.to_owned(),
            },
        ),
        Err(e) => Err(e),
    }
}

// ---------------------------------------------------------------------------
// A share: several things at once
// ---------------------------------------------------------------------------

/// What the field `name` of a form says.
pub open spec fn field(fields: Seq<(String, String)>, name: Seq<char>) -> Option<Seq<char>>
    decreases fields.len(),
{
    if fields.len() == 0 {
        None
    } else if fields.last().0@ == name {
        Some(fields.last().1@)
    } else {
        field(fields.drop_last(), name)
    }
}

/// What the field `name` of a form says.
pub fn field_of(fields: &[(String, String)], name: &str) -> (r: Option<String>)
    ensures
        text::text_of(r) == field(fields@, name@),
{
    let mut i: usize = fields.len();
    assert(fields@.take(fields@.len() as int) =~= fields@);
    while i > 0
        invariant
            i <= fields@.len(),
            field(fields@.take(i as int), name@) == field(fields@, name@),
        decreases i,
    {
        assert(fields@.take(i as int).drop_last() =~= fields@.take(i - 1));
        if same(fields[i - 1].0.as_str(), name) {
            return Some(fields[i - 1].1.clone());
        }
        i = i - 1;
    }
    None
}

/// Takes down a field of a form, unless it is blank. A field sent again says
/// what it said last.
pub fn put_field(fields: &mut Vec<(String, String)>, name: String, said: String)
    ensures
        forall|k: Seq<char>| #[trigger]
            field(final(fields)@, k) == (if k == name@ && !text::blank(said@) {
                Some(said@)
            } else {
                field(old(fields)@, k)
            }),
{
    if !is_blank(said.as_str()) {
        let ghost before = fields@;
        fields.push((name, said));
        assert(fields@.drop_last() =~= before);
    }
}

/// The first of two fields that is there.
pub open spec fn either(a: Option<Seq<char>>, b: Option<Seq<char>>) -> Option<Seq<char>> {
    if a is Some {
        a
    } else {
        b
    }
}

/// The first of two fields that is there.
fn either_of(a: &Option<String>, b: Option<String>) -> (r: Option<String>)
    ensures
        text::text_of(r) == either(text::text_of(*a), text::text_of(b)),
{
    match a {
        Some(t) => Some(t.clone()),
        None => b,
    }
}

/// What a share is taken to be, beside its files.
pub struct PartsPlan {
    /// The page or the text it holds.
    pub first: Option<CapturePlan>,
    pub title: Option<String>,
    pub note: Option<String>,
}

/// The address a share names: the one it gives as such, and otherwise the text
/// of it where that is one link and nothing else.
pub open spec fn shared(
    fields: Seq<(String, String)>,
    lone: Option<Address>,
) -> Option<Seq<char>> {
    match field(fields, "url"@) {
        Some(raw) => Some(raw),
        None => match lone {
            Some(a) => Some(a.whole),
            None => None,
        },
    }
}

/// What a share is taken to be. `lone` is the link that its text is, and `read`
/// what the address it names is.
pub open spec fn is_parts_plan(
    r: Result<PartsPlan, Error>,
    q: CaptureQuery,
    fields: Seq<(String, String)>,
    files: nat,
    known: bool,
    lone: Option<Address>,
    read: Result<Address, Seq<char>>,
    lang: Seq<char>,
    asked: Option<AskNote>,
) -> bool {
    let title = either(text::text_of(q.title), field(fields, "title"@));
    let note = either(text::text_of(q.note), field(fields, "note"@));
    let tz = either(text::text_of(q.tz), field(fields, "tz"@));
    let origin = either(text::text_of(q.origin), field(fields, "origin"@));
    let intent = either(text::text_of(q.intent), field(fields, "intent"@));
    let body = field(fields, "text"@);
    let link = shared(fields, lone);
    if time_refusal(tz, known, origin, intent) is Some {
        refuses(r, time_refusal(tz, known, origin, intent)->0)
    } else if (link is Some || body is None) && fields_refusal(tz, origin, intent) is Some {
        refuses(r, fields_refusal(tz, origin, intent)->0)
    } else if link is Some && link_refusal(read) is Some {
        refuses(r, link_refusal(read)->0)
    } else if link is None && body is None && files == 0 {
        refuses(r, "nothing to capture: send `text`, `url`, or at least one file part"@)
    } else {
        &&& r matches Ok(plan)
        &&& text::text_of(plan.title) == title
        &&& text::text_of(plan.note) == note
        &&& if link is Some {
            plan.first matches Some(p) && read matches Ok(a) && is_fetch(
                p,
                a.whole,
                title,
                note,
                lang,
            )
        } else if body is Some {
            plan.first matches Some(p) && is_store(
                p,
                body->0,
                tz,
                origin,
                intent,
                title,
                note,
                lang,
                rides(text::text_of(q.from_ask), asked),
                None,
            )
        } else {
            plan.first is None
        }
    }
}

/// What a share is taken to be, given the zone it names as the table spells
/// it, the link that its text is, and what the address it names is.
///
/// A share sheet sends an address and a text for the same share, and the
/// address is the better capture of the two: the text is usually the page's
/// title repeated.
pub fn plan_parts(
    q: CaptureQuery,
    fields: &[(String, String)],
    files: usize,
    zone: Option<String>,
    lone: Option<Link>,
    read: Result<Link, String>,
    lang: &str,
    asked: Option<AskNote>,
) -> (r: Result<PartsPlan, Error>)
    requires
        zone matches Some(z) ==> given(either(text::text_of(q.tz), field(fields@, "tz"@))) == Some(
            z@,
        ),
    ensures
        is_parts_plan(
            r,
            q,
            fields@,
            files as nat,
            zone is Some,
            link_says(lone),
            links::read_as(read),
            lang@,
            asked,
        ),
{
    let title = either_of(&q.title, field_of(fields, "title"));
    let note = either_of(&q.note, field_of(fields, "note"));
    let tz = either_of(&q.tz, field_of(fields, "tz"));
    let origin = either_of(&q.origin, field_of(fields, "origin"));
    let intent = either_of(&q.intent, field_of(fields, "intent"));
    let time = match time_of(lend(&tz), zone, lend(&origin), lend(&intent), ORIGIN_WEB) {
        Ok(t) => t,
        Err(e) => {
            return Err(e);
        },
    };
    let body = field_of(fields, "text");
    let linked = field_of(fields, "url").is_some() || lone.is_some();
    assert(linked == (shared(fields@, link_says(lone)) is Some));
    if linked || body.is_none() {
        match refuse_time_fields(lend(&tz), lend(&origin), lend(&intent)) {
            Ok(_) => {},
            Err(e) => {
                return Err(e);
            },
        }
    }
    if linked {
        let link = match followable(read) {
            Ok(l) => l,
            Err(e) => {
                return Err(e);
            },
        };
        let first = CapturePlan::Fetch {
            url: link.whole,
            title: copy_opt(&title),
            note: copy_opt(&note),
            lang: lang.to_owned(),
        };
        return Ok(PartsPlan { first: Some(first), title, note });
    }
    match body {
        Some(t) => {
            let ask = riding(lend(&q.from_ask), asked);
            let c = keep(t, time, copy_opt(&title), copy_opt(&note), lang, ask, None);
            Ok(PartsPlan { first: Some(CapturePlan::Store(c)), title, note })
        },
        None => {
            if files == 0 {
                return refusal(
                    "nothing to capture: send `text`, `url`, or at least one file part".to_owned(),
                );
            }
            Ok(PartsPlan { first: None, title, note })
        },
    }
}

/// The link that the text of a share is.
pub open spec fn text_link(fields: Seq<(String, String)>) -> Option<Address> {
    match field(fields, "text"@) {
        Some(t) => lone_link(t, links::url_read(text::trim(t))),
        None => None,
    }
}

/// What the address that a share names is.
pub open spec fn shared_read(fields: Seq<(String, String)>) -> Result<Address, Seq<char>> {
    match shared(fields, text_link(fields)) {
        Some(raw) => links::url_read(raw),
        None => Err(Seq::empty()),
    }
}

/// What a share is taken to be. Where a text of it is kept, the fields about
/// time apply to that, and the files beside it are read on their own terms.
pub fn capture_parts(
    q: CaptureQuery,
    fields: &[(String, String)],
    files: usize,
    lang: &str,
    asked: Option<AskNote>,
) -> (r: Result<PartsPlan, Error>)
    ensures
        match time_refusal(
            text::text_of(q.tz),
            zone_given(text::text_of(q.tz)),
            text::text_of(q.origin),
            text::text_of(q.intent),
        ) {
            Some(words) => refuses(r, words),
            None => is_parts_plan(
                r,
                q,
                fields@,
                files as nat,
                zone_given(either(text::text_of(q.tz), field(fields@, "tz"@))),
                text_link(fields@),
                shared_read(fields@),
                lang@,
                asked,
            ),
        },
{
    match capture_time(lend(&q.tz), lend(&q.origin), lend(&q.intent), ORIGIN_WEB) {
        Ok(_) => {},
        Err(e) => {
            return Err(e);
        },
    }
    let tz = either_of(&q.tz, field_of(fields, "tz"));
    let zone = match given_of(lend(&tz)) {
        Some(name) => zone_named(name.as_str()),
        None => None,
    };
    let lone = match field_of(fields, "text") {
        Some(t) => only_a_url(t.as_str()),
        None => None,
    };
    let named = match field_of(fields, "url") {
        Some(raw) => Some(raw),
        None => match &lone {
            Some(link) => Some(link.whole.clone()),
            None => None,
        },
    };
    let read = match named {
        Some(raw) => read_link(raw.as_str()),
        None => Err(String::new()),
    };
    assert(links::read_as(read) == shared_read(fields@));
    plan_parts(q, fields, files, zone, lone, read, lang, asked)
}

/// `r` is the files of a share, each with what was said of the share.
pub open spec fn are_files(
    r: Seq<FileCapture>,
    files: Seq<FilePart>,
    title: Option<Seq<char>>,
    note: Option<Seq<char>>,
    lang: Seq<char>,
) -> bool {
    &&& r.len() == files.len()
    &&& forall|i: int|
        0 <= i < r.len() ==> is_file(
            #[trigger] r[i],
            files[i].bytes@,
            text::text_of(files[i].filename),
            title,
            note,
            lang,
        )
}

/// The files of a share, each with what was said of the share.
pub fn share_files(
    files: Vec<FilePart>,
    title: &Option<String>,
    note: &Option<String>,
    lang: &str,
) -> (r: Vec<FileCapture>)
    ensures
        are_files(r@, files@, text::text_of(*title), text::text_of(*note), lang@),
{
    let ghost all = files@;
    let mut r: Vec<FileCapture> = Vec::new();
    for f in it: files
        invariant
            it.seq() == all,
            r@.len() == it.index(),
            forall|i: int|
                0 <= i < r@.len() ==> is_file(
                    #[trigger] r@[i],
                    all[i].bytes@,
                    text::text_of(all[i].filename),
                    text::text_of(*title),
                    text::text_of(*note),
                    lang@,
                ),
    {
        r.push(
            FileCapture {
                bytes: f.bytes,
                filename: f.filename,
                title: copy_opt(title),
                note: copy_opt(note),
                origin: ORIGIN_WEB,
                lang: lang.to_owned(),
            },
        );
    }
    r
}

// ---------------------------------------------------------------------------
// Uploads
// ---------------------------------------------------------------------------

/// What an uploaded file is.
#[derive(Clone, Copy, PartialEq, Eq, Structural, Debug)]
pub enum UploadKind {
    Text,
    Pdf,
}

/// What an uploaded file is: what it is declared as, and where it is declared
/// as nothing what its name says.
pub open spec fn upload_kind(
    declared: Seq<char>,
    filename: Option<Seq<char>>,
) -> Option<UploadKind> {
    if declared.len() == 0 {
        if files::is_named(filename, "txt"@) {
            Some(UploadKind::Text)
        } else if files::is_named(filename, "pdf"@) {
            Some(UploadKind::Pdf)
        } else {
            None
        }
    } else if "text/plain"@.is_prefix_of(declared) {
        Some(UploadKind::Text)
    } else if "application/pdf"@.is_prefix_of(declared) {
        Some(UploadKind::Pdf)
    } else {
        None
    }
}

/// The words that refuse a file that is neither a text nor a PDF.
pub open spec fn kind_refusal(declared: Seq<char>) -> Seq<char> {
    if declared.len() == 0 {
        "that upload declares no type and is named neither `.txt` nor `.pdf` — only text/plain and application/pdf are accepted"@
    } else {
        "that file is `"@ + declared + "` — only text/plain and application/pdf are accepted"@
    }
}

/// What an uploaded file is. A part may carry no type at all, and that is no
/// pass: it moves the question to the name, which is the only other thing the
/// sender told us.
pub fn upload_kind_of(declared: &str, filename: Option<&str>) -> (r: Result<UploadKind, Error>)
    ensures
        match upload_kind(declared@, text::borrowed(filename)) {
            Some(kind) => r matches Ok(k) && k == kind,
            None => refuses(r, kind_refusal(declared@)),
        },
{
    if declared.is_empty() {
        if named_txt(filename) {
            return Ok(UploadKind::Text);
        }
        if named_pdf(filename) {
            return Ok(UploadKind::Pdf);
        }
        return refusal(
            "that upload declares no type and is named neither `.txt` nor `.pdf` — only text/plain and application/pdf are accepted".to_owned(),
        );
    }
    if opens_with(declared, "text/plain") {
        return Ok(UploadKind::Text);
    }
    if opens_with(declared, "application/pdf") {
        return Ok(UploadKind::Pdf);
    }
    let mut m = "that file is `".to_owned();
    m.append(declared);
    m.append("` — only text/plain and application/pdf are accepted");
    refusal(m)
}

/// What an upload is taken to be.
pub enum UploadPlan {
    Text(Capture),
    Pdf { bytes: Vec<u8>, filename: Option<String>, note: Option<String>, lang: String },
}

/// `c` is the text of an uploaded file.
pub open spec fn is_uploaded(
    c: Capture,
    body: Seq<char>,
    filename: Option<Seq<char>>,
    size: nat,
    note: Option<Seq<char>>,
    lang: Seq<char>,
) -> bool {
    &&& c.text@ == body
    &&& c.origin@ == ORIGIN_UPLOAD@
    &&& text::text_of(c.note) == note
    &&& text::text_of(c.lang) == Some(lang)
    &&& c.file matches Some(f) && text::text_of(f.name) == filename && f.size == size && f.mime@
        == "text/plain"@
    &&& c.channel is None
    &&& c.title is None
    &&& c.tz is None
    &&& c.intent is None
    &&& c.source_url is None
    &&& c.day is None
    &&& c.ask is None
}

/// What an upload is taken to be.
pub open spec fn is_upload(
    r: Result<UploadPlan, Error>,
    file: Option<FilePart>,
    note: Option<Seq<char>>,
    lang: Seq<char>,
) -> bool {
    match file {
        None => refuses(r, "no file in the upload"@),
        Some(f) => match upload_kind(f.declared@, text::text_of(f.filename)) {
            None => refuses(r, kind_refusal(f.declared@)),
            Some(UploadKind::Pdf) => {
                &&& r matches Ok(UploadPlan::Pdf { bytes, filename, note: n, lang: l })
                &&& bytes == f.bytes
                &&& filename == f.filename
                &&& text::text_of(n) == note
                &&& l@ == lang
            },
            Some(UploadKind::Text) => if f.bytes@.len() > MAX_BODY_BYTES {
                refuses(r, "that text file is over the 8 MB limit for a text capture"@)
            } else if !vstd::utf8::valid_utf8(f.bytes@) {
                refuses(r, "that file is not valid UTF-8 text"@)
            } else {
                r matches Ok(UploadPlan::Text(c)) && is_uploaded(
                    c,
                    vstd::utf8::decode_utf8(f.bytes@),
                    text::text_of(f.filename),
                    f.bytes@.len(),
                    note,
                    lang,
                )
            },
        },
    }
}

/// What an upload is taken to be: a text or a PDF, and nothing else. Widening
/// the door for a book does not widen it for a paste.
pub fn upload(file: Option<FilePart>, note: Option<String>, lang: &str) -> (r: Result<
    UploadPlan,
    Error,
>)
    ensures
        is_upload(r, file, text::text_of(note), lang@),
{
    let f = match file {
        Some(f) => f,
        None => {
            return refusal("no file in the upload".to_owned());
        },
    };
    match upload_kind_of(f.declared.as_str(), lend(&f.filename)) {
        Err(e) => Err(e),
        Ok(UploadKind::Pdf) => Ok(
            UploadPlan::Pdf {
                bytes: f.bytes,
                filename: f.filename,
                note,
                lang: lang.to_owned(),
            },
        ),
        Ok(UploadKind::Text) => {
            let size: usize = f.bytes.len();
            if size > MAX_BODY_BYTES {
                return refusal(
                    "that text file is over the 8 MB limit for a text capture".to_owned(),
                );
            }
            match from_utf8(f.bytes) {
                Some(body) => {
                    proof {
                        vstd::utf8::encode_utf8_decode_utf8(body@);
                    }
                    let mut c = Capture::new(body, ORIGIN_UPLOAD);
                    c.note = note;
                    c.lang = Some(lang.to_owned());
                    c.file = Some(FileNote { name: f.filename, size, mime: "text/plain" });
                    Ok(UploadPlan::Text(c))
                },
                None => refusal("that file is not valid UTF-8 text".to_owned()),
            }
        },
    }
}

/// A picture to be kept.
pub struct ImageCapture {
    pub bytes: Vec<u8>,
    pub filename: Option<String>,
    pub title_hint: Option<String>,
    pub note: Option<String>,
    pub lang: String,
}

/// The picture an upload holds.
pub fn upload_image(
    file: Option<FilePart>,
    title_hint: Option<String>,
    note: Option<String>,
    lang: &str,
) -> (r: Result<ImageCapture, Error>)
    ensures
        match file {
            None => refuses(r, "no image in the upload"@),
            Some(f) => r matches Ok(c) && c.bytes == f.bytes && c.filename == f.filename
                && c.title_hint == title_hint && c.note == note && c.lang@ == lang@,
        },
{
    match file {
        None => refusal("no image in the upload".to_owned()),
        Some(f) => Ok(
            ImageCapture {
                bytes: f.bytes,
                filename: f.filename,
                title_hint,
                note,
                lang: lang.to_owned(),
            },
        ),
    }
}

/// What a part of a form is read as.
#[derive(Clone, Copy, PartialEq, Eq, Structural, Debug)]
pub enum PartUse {
    File,
    Field,
    Ignored,
}

/// The words that refuse a second file where one is taken.
pub open spec fn second_refusal(file_field: Seq<char>) -> Seq<char> {
    "more than one `"@ + file_field + "` part — send one file per request"@
}

/// What a part of an upload that takes one file is read as: the file under its
/// name, the fields asked for under theirs, and nothing else. A second file is
/// refused rather than silently winning or losing.
pub fn upload_part(
    name: Option<&str>,
    file_field: &str,
    text_fields: &[String],
    held: bool,
) -> (r: Result<PartUse, Error>)
    ensures
        match name {
            None => r matches Ok(u) && u == PartUse::Ignored,
            Some(n) => if n@ == file_field@ {
                if held {
                    refuses(r, second_refusal(file_field@))
                } else {
                    r matches Ok(u) && u == PartUse::File
                }
            } else if text::texts(text_fields@).contains(n@) {
                r matches Ok(u) && u == PartUse::Field
            } else {
                r matches Ok(u) && u == PartUse::Ignored
            },
        },
{
    match name {
        None => Ok(PartUse::Ignored),
        Some(n) => if same(n, file_field) {
            if held {
                let mut m = "more than one `".to_owned();
                m.append(file_field);
                m.append("` part — send one file per request");
                refusal(m)
            } else {
                Ok(PartUse::File)
            }
        } else if any_same(text_fields, n) {
            Ok(PartUse::Field)
        } else {
            Ok(PartUse::Ignored)
        },
    }
}

/// What a part of a share is read as: a file where it carries a filename, and
/// a field where it does not. A part without a name is nothing.
pub fn share_part(name: Option<&str>, filename: Option<&str>) -> (r: PartUse)
    ensures
        r == (if name is None {
            PartUse::Ignored
        } else if filename is Some {
            PartUse::File
        } else {
            PartUse::Field
        }),
{
    match (name, filename) {
        (None, _) => PartUse::Ignored,
        (Some(_), Some(_)) => PartUse::File,
        (Some(_), None) => PartUse::Field,
    }
}

// ---------------------------------------------------------------------------
// What holds of every capture
// ---------------------------------------------------------------------------

/// What the fields about time ask for is honoured or refused, and never
/// dropped: a share that is taken although they say something is a text, and
/// they are kept with it.
pub proof fn a_time_field_is_never_dropped(
    r: Result<PartsPlan, Error>,
    q: CaptureQuery,
    fields: Seq<(String, String)>,
    files: nat,
    known: bool,
    lone: Option<Address>,
    read: Result<Address, Seq<char>>,
    lang: Seq<char>,
    asked: Option<AskNote>,
)
    requires
        is_parts_plan(r, q, fields, files, known, lone, read, lang, asked),
        r is Ok,
        ({
            let tz = either(text::text_of(q.tz), field(fields, "tz"@));
            let origin = either(text::text_of(q.origin), field(fields, "origin"@));
            let intent = either(text::text_of(q.intent), field(fields, "intent"@));
            time_fields(tz, origin, intent).len() > 0
        }),
    ensures
        r->Ok_0.first matches Some(CapturePlan::Store(c)) && {
            &&& text::text_of(c.tz) == given(either(text::text_of(q.tz), field(fields, "tz"@)))
            &&& (c.origin@ == ORIGIN_JOURNAL@ <==> given(
                either(text::text_of(q.origin), field(fields, "origin"@)),
            ) is Some)
            &&& (c.intent is Some <==> given(
                either(text::text_of(q.intent), field(fields, "intent"@)),
            ) is Some)
        },
{
    reveal_strlit("web");
    reveal_strlit("journal");
    assert(ORIGIN_WEB@.len() != ORIGIN_JOURNAL@.len());
}

/// A page is only ever fetched from an address that pages are read over.
pub proof fn only_the_web_is_fetched(
    r: Result<PartsPlan, Error>,
    q: CaptureQuery,
    fields: Seq<(String, String)>,
    files: nat,
    known: bool,
    lone: Option<Address>,
    read: Result<Address, Seq<char>>,
    lang: Seq<char>,
    asked: Option<AskNote>,
)
    requires
        is_parts_plan(r, q, fields, files, known, lone, read, lang, asked),
        r matches Ok(plan) && plan.first matches Some(p) && p is Fetch,
    ensures
        read matches Ok(a) && links::is_web(a),
{
}

/// The code of one capture is the code of a share that holds only it.
pub proof fn one_is_a_share_of_one(out: IngestOutcome)
    ensures
        code_of(out) == code_of_all(seq![out]),
{
    assert(seq![out][0] == out);
    if out.duplicate {
        assert forall|i: int| 0 <= i < seq![out].len() implies (#[trigger] seq![out][i]).duplicate by {
            assert(seq![out][i] == out);
        }
    }
}

/// A fragment is exempt from the floor, and a page that is fetched never is.
pub proof fn only_a_fragment_is_exempt(req: IngestRequest)
    ensures
        req.html is None ==> !is_exempt(req),
        req.scope is None ==> !is_exempt(req),
{
}

/// Every text that comes in is stamped with the language it will be read in,
/// whichever door it comes in by and whatever it turns out to be.
pub proof fn every_door_stamps_the_language(
    pasted: Result<IngestPlan, Error>,
    req: IngestRequest,
    read: Option<Result<Address, Seq<char>>>,
    min_chars: usize,
    plain: Result<CapturePlan, Error>,
    q: CaptureQuery,
    body: Seq<char>,
    word: Result<Address, Seq<char>>,
    share: Result<PartsPlan, Error>,
    fields: Seq<(String, String)>,
    files: nat,
    known: bool,
    lone: Option<Address>,
    link: Result<Address, Seq<char>>,
    upload: Result<UploadPlan, Error>,
    file: Option<FilePart>,
    note: Option<Seq<char>>,
    lang: Seq<char>,
    asked: Option<AskNote>,
)
    requires
        is_ingest(pasted, req, read, min_chars, lang),
        is_text_plan(plain, q, body, word, lang, asked),
        is_parts_plan(share, q, fields, files, known, lone, link, lang, asked),
        is_upload(upload, file, note, lang),
    ensures
        pasted matches Ok(p) ==> match p {
            IngestPlan::Store(c) => text::text_of(c.lang) == Some(lang),
            IngestPlan::Extract { html, base, floor, title, lang: l } => l@ == lang,
            IngestPlan::Fetch { url, title, lang: l } => l@ == lang,
        },
        plain matches Ok(p) ==> plan_lang(p) == Some(lang),
        share matches Ok(p) ==> (p.first matches Some(x) ==> plan_lang(x) == Some(lang)),
        upload matches Ok(p) ==> match p {
            UploadPlan::Text(c) => text::text_of(c.lang) == Some(lang),
            UploadPlan::Pdf { bytes, filename, note: n, lang: l } => l@ == lang,
        },
{
}

/// The language that what is captured will be read in.
pub open spec fn plan_lang(p: CapturePlan) -> Option<Seq<char>> {
    match p {
        CapturePlan::Store(c) => text::text_of(c.lang),
        CapturePlan::Fetch { url, title, note, lang } => Some(lang@),
    }
}

/// What is said of a text that is sent alone is kept with it, whether it is one
/// link, whose page is fetched, or anything else, which is kept itself.
pub proof fn what_is_said_of_a_text_is_kept(
    r: Result<CapturePlan, Error>,
    q: CaptureQuery,
    body: Seq<char>,
    read: Result<Address, Seq<char>>,
    lang: Seq<char>,
    asked: Option<AskNote>,
)
    requires
        is_text_plan(r, q, body, read, lang, asked),
    ensures
        r matches Ok(CapturePlan::Fetch { url, title, note, lang: l }) ==> {
            &&& text::text_of(title) == text::text_of(q.title)
            &&& text::text_of(note) == text::text_of(q.note)
            &&& l@ == lang
            &&& read matches Ok(a) && url@ == a.whole
            &&& lone_link(body, read) is Some
        },
        r matches Ok(CapturePlan::Store(c)) ==> {
            &&& text::text_of(c.title) == text::text_of(q.title)
            &&& text::text_of(c.note) == text::text_of(q.note)
            &&& c.lang matches Some(l) && l@ == lang
            &&& c.text@ == body
            &&& c.channel matches Some(door) && door@ == "web"@
            &&& c.origin@ == (if given(text::text_of(q.origin)) is Some {
                "journal"@
            } else {
                "web"@
            })
            &&& text::text_of(c.tz) == given(text::text_of(q.tz))
            &&& c.intent is Some <==> given(text::text_of(q.intent)) is Some
            &&& c.ask == rides(text::text_of(q.from_ask), asked)
            &&& c.source_url is None
            &&& c.day is None
            &&& c.file is None
            &&& lone_link(body, read) is None
        },
        r is Err <==> lone_link(body, read) is Some && (given(text::text_of(q.tz)) is Some
            || given(text::text_of(q.origin)) is Some || given(text::text_of(q.intent)) is Some),
{
}

/// A link says the same by either door: sent alone, or shared as the text of a
/// share, its page is fetched under the same title, with the same note and in
/// the same language.
pub proof fn a_link_says_the_same_by_either_door(
    plain: Result<CapturePlan, Error>,
    share: Result<PartsPlan, Error>,
    q: CaptureQuery,
    body: Seq<char>,
    read: Result<Address, Seq<char>>,
    fields: Seq<(String, String)>,
    files: nat,
    known: bool,
    again: Result<Address, Seq<char>>,
    lang: Seq<char>,
    asked: Option<AskNote>,
)
    requires
        is_text_plan(plain, q, body, read, lang, asked),
        is_parts_plan(
            share,
            q,
            fields,
            files,
            known,
            lone_link(body, read),
            again,
            lang,
            asked,
        ),
        lone_link(body, read) is Some,
        field(fields, "url"@) is None,
        field(fields, "title"@) is None,
        field(fields, "note"@) is None,
        plain is Ok,
        share is Ok,
    ensures
        ({
            &&& plain matches Ok(CapturePlan::Fetch { url, title, note, lang: l })
            &&& share matches Ok(plan)
            &&& plan.first matches Some(
                CapturePlan::Fetch { url: other, title: t, note: n, lang: m },
            )
            &&& text::text_of(title) == text::text_of(t)
            &&& text::text_of(note) == text::text_of(n)
            &&& text::text_of(title) == text::text_of(q.title)
            &&& text::text_of(note) == text::text_of(q.note)
            &&& l@ == m@
        }),
{
}

/// What is said of a share is kept with whatever it holds, page, text or file:
/// what the query says, and otherwise what the share's own field says.
pub proof fn what_is_said_of_a_share_is_kept(
    r: Result<PartsPlan, Error>,
    q: CaptureQuery,
    fields: Seq<(String, String)>,
    files: nat,
    known: bool,
    lone: Option<Address>,
    read: Result<Address, Seq<char>>,
    lang: Seq<char>,
    asked: Option<AskNote>,
    plan: PartsPlan,
)
    requires
        is_parts_plan(r, q, fields, files, known, lone, read, lang, asked),
        r == Ok::<PartsPlan, Error>(plan),
    ensures
        q.title is Some ==> text::text_of(plan.title) == text::text_of(q.title),
        q.title is None ==> text::text_of(plan.title) == field(fields, "title"@),
        q.note is Some ==> text::text_of(plan.note) == text::text_of(q.note),
        q.note is None ==> text::text_of(plan.note) == field(fields, "note"@),
        plan.first matches Some(CapturePlan::Fetch { url, title, note, lang: l }) ==> {
            &&& text::text_of(title) == text::text_of(plan.title)
            &&& text::text_of(note) == text::text_of(plan.note)
            &&& l@ == lang
            &&& read matches Ok(a) && url@ == a.whole
        },
        plan.first matches Some(CapturePlan::Store(c)) ==> {
            &&& text::text_of(c.title) == text::text_of(plan.title)
            &&& text::text_of(c.note) == text::text_of(plan.note)
            &&& c.lang matches Some(l) && l@ == lang
            &&& Some(c.text@) == field(fields, "text"@)
            &&& c.channel is None
            &&& c.ask == rides(text::text_of(q.from_ask), asked)
            &&& text::text_of(c.tz) == given(
                if q.tz is Some {
                    text::text_of(q.tz)
                } else {
                    field(fields, "tz"@)
                },
            )
            &&& c.origin@ == (if given(
                if q.origin is Some {
                    text::text_of(q.origin)
                } else {
                    field(fields, "origin"@)
                },
            ) is Some {
                "journal"@
            } else {
                "web"@
            })
            &&& c.intent is Some <==> given(
                if q.intent is Some {
                    text::text_of(q.intent)
                } else {
                    field(fields, "intent"@)
                },
            ) is Some
            &&& c.source_url is None
            &&& c.day is None
            &&& c.file is None
        },
        plan.first matches Some(p) ==> (p is Fetch <==> field(fields, "url"@) is Some || lone
            is Some),
        plan.first is None <==> field(fields, "url"@) is None && lone is None && field(
            fields,
            "text"@,
        ) is None,
        plan.first is None ==> files > 0,
{
}

/// A share is refused where it asks for a time that there is none of, where it
/// asks for one of a page or a file, where its address is none that pages are
/// read over, and where it holds nothing; and nowhere else.
pub proof fn a_share_is_refused_only_for_cause(
    r: Result<PartsPlan, Error>,
    q: CaptureQuery,
    fields: Seq<(String, String)>,
    files: nat,
    known: bool,
    lone: Option<Address>,
    read: Result<Address, Seq<char>>,
    lang: Seq<char>,
    asked: Option<AskNote>,
)
    requires
        is_parts_plan(r, q, fields, files, known, lone, read, lang, asked),
    ensures
        ({
            let tz = given(
                if q.tz is Some {
                    text::text_of(q.tz)
                } else {
                    field(fields, "tz"@)
                },
            );
            let origin = given(
                if q.origin is Some {
                    text::text_of(q.origin)
                } else {
                    field(fields, "origin"@)
                },
            );
            let intent = given(
                if q.intent is Some {
                    text::text_of(q.intent)
                } else {
                    field(fields, "intent"@)
                },
            );
            let linked = field(fields, "url"@) is Some || lone is Some;
            let worded = field(fields, "text"@) is Some;
            r is Err <==> {
                ||| tz is Some && !known
                ||| origin is Some && origin->0 != "journal"@
                ||| intent is Some && intent->0 != "remind"@
                ||| (linked || !worded) && (tz is Some || origin is Some || intent is Some)
                ||| linked && !(read matches Ok(a) && (a.scheme == "http"@ || a.scheme == "https"@))
                ||| !linked && !worded && files == 0
            }
        }),
        !(field(fields, "url"@) is Some || lone is Some) && field(fields, "text"@) is None && files
            == 0 && time_fields(
            either(text::text_of(q.tz), field(fields, "tz"@)),
            either(text::text_of(q.origin), field(fields, "origin"@)),
            either(text::text_of(q.intent), field(fields, "intent"@)),
        ).len() == 0 ==> refuses(
            r,
            "nothing to capture: send `text`, `url`, or at least one file part"@,
        ),
{
}

/// What is given is what stands there without the white space around it, and
/// blank is not given.
pub proof fn what_is_given_is_trimmed(s: Seq<char>)
    ensures
        given(Some(s)) is Some <==> !text::blank(s),
        given(Some(s)) matches Some(t) ==> t == text::trim(s) && t.len() > 0,
        given(None) is None,
{
    let ends = text::trimming_takes_white_space_off_the_ends(s);
    if text::blank(s) && ends.0 < ends.1 {
        assert(text::is_white(s[ends.0]));
    }
}

/// A zone has to be one, an origin can only be the journal, and an intent can
/// only be to be reminded: anything else is refused, naming what was sent, and
/// the first of them that is wrong is the one named.
pub proof fn a_wrong_time_field_is_named(
    tz: Option<Seq<char>>,
    known: bool,
    origin: Option<Seq<char>>,
    intent: Option<Seq<char>>,
)
    ensures
        time_refusal(tz, known, origin, intent) is None <==> (given(tz) is Some ==> known) && (
        given(origin) matches Some(o) ==> o == "journal"@) && (given(intent) matches Some(i) ==> i
            == "remind"@),
        !known ==> (given(tz) matches Some(z) ==> time_refusal(tz, known, origin, intent) == Some(
            "tz="@ + z + ": not an IANA zone name"@,
        )),
        given(tz) is None || known ==> (given(origin) matches Some(o) ==> o != "journal"@
            ==> time_refusal(tz, known, origin, intent) == Some(
            "origin="@ + o + ": only `journal` can be asked for"@,
        )),
        (given(tz) is None || known) && (given(origin) is None || given(origin) == Some(
            "journal"@,
        )) ==> (given(intent) matches Some(i) ==> i != "remind"@ ==> time_refusal(
            tz,
            known,
            origin,
            intent,
        ) == Some("intent="@ + i + ": only `remind` can be asked for"@)),
{
}

/// What a capture takes from the fields about time is what they ask for.
pub proof fn a_capture_takes_the_time_asked_for(
    t: CaptureTime,
    tz: Option<Seq<char>>,
    origin: Option<Seq<char>>,
    intent: Option<Seq<char>>,
    door: Seq<char>,
)
    requires
        is_time(t, tz, origin, intent, door),
    ensures
        text::text_of(t.tz) == given(tz),
        given(origin) is Some ==> t.origin@ == "journal"@,
        given(origin) is None ==> t.origin@ == door,
        t.channel@ == door,
        t.intent is Some <==> given(intent) is Some,
{
}

/// A page and a file are refused exactly where a field about time says
/// something, and the refusal names each of those that do, in one order.
pub proof fn a_page_takes_no_time_field(
    tz: Option<Seq<char>>,
    origin: Option<Seq<char>>,
    intent: Option<Seq<char>>,
)
    ensures
        fields_refusal(tz, origin, intent) is None <==> given(tz) is None && given(origin) is None
            && given(intent) is None,
        fields_refusal(tz, origin, intent) matches Some(words) ==> {
            let which = if given(tz) is Some && given(origin) is Some && given(intent) is Some {
                "tz, origin, intent"@
            } else if given(tz) is Some && given(origin) is Some {
                "tz, origin"@
            } else if given(tz) is Some && given(intent) is Some {
                "tz, intent"@
            } else if given(origin) is Some && given(intent) is Some {
                "origin, intent"@
            } else if given(tz) is Some {
                "tz"@
            } else if given(origin) is Some {
                "origin"@
            } else {
                "intent"@
            };
            words == which
                + " only applies to a text capture — a link or a file is read by the server, and its origin and any date in it come from what it turns out to be"@
        },
{
    reveal_strlit("tz");
    reveal_strlit("origin");
    reveal_strlit("intent");
    reveal_strlit(", ");
    reveal_strlit("tz, origin, intent");
    reveal_strlit("tz, origin");
    reveal_strlit("tz, intent");
    reveal_strlit("origin, intent");
    let (a, b, c) = ("tz"@, "origin"@, "intent"@);
    let sep = ", "@;
    text::joining_adds_at_the_end(seq![a], b, sep);
    text::joining_adds_at_the_end(seq![a, b], c, sep);
    text::joining_adds_at_the_end(seq![a], c, sep);
    text::joining_adds_at_the_end(seq![b], c, sep);
    text::joining_adds_at_the_end(seq![a], a, sep);
    assert(seq![a].push(b) =~= seq![a, b]);
    assert(seq![a, b].push(c) =~= seq![a, b, c]);
    assert(seq![a].push(c) =~= seq![a, c]);
    assert(seq![b].push(c) =~= seq![b, c]);
    assert("tz, origin"@ =~= a + sep + b);
    assert("tz, intent"@ =~= a + sep + c);
    assert("origin, intent"@ =~= b + sep + c);
    assert("tz, origin, intent"@ =~= a + sep + b + sep + c);
    let list = time_fields(tz, origin, intent);
    let e = Seq::<Seq<char>>::empty();
    if given(tz) is Some && given(origin) is Some && given(intent) is Some {
        assert(list =~= seq![a, b, c]);
    } else if given(tz) is Some && given(origin) is Some {
        assert(list =~= seq![a, b]);
    } else if given(tz) is Some && given(intent) is Some {
        assert(list =~= seq![a, c]);
    } else if given(origin) is Some && given(intent) is Some {
        assert(list =~= seq![b, c]);
    } else if given(tz) is Some {
        assert(list =~= seq![a]);
    } else if given(origin) is Some {
        assert(list =~= seq![b]);
    } else if given(intent) is Some {
        assert(list =~= seq![c]);
    } else {
        assert(list =~= e);
    }
}

/// A text is one link where, without the white space around it, there is no
/// white space in it and it reads as an address of the web; and it is then that
/// address.
pub proof fn a_lone_link_is_one_word_of_the_web(body: Seq<char>, read: Result<Address, Seq<char>>)
    ensures
        lone_link(body, read) matches Some(a) ==> read == Ok::<Address, Seq<char>>(a),
        lone_link(body, read) is Some <==> text::trim(body).len() > 0 && (forall|i: int|
            0 <= i < text::trim(body).len() ==> !text::is_white(#[trigger] text::trim(body)[i]))
            && (read matches Ok(a) && (a.scheme == "http"@ || a.scheme == "https"@)),
{
}

/// An address is refused where it reads as none, saying why, and where it is
/// not one that pages are read over, naming what it is.
pub proof fn an_address_is_refused_by_its_scheme(a: Address, why: Seq<char>)
    ensures
        link_refusal(Err(why)) == Some("url: "@ + why),
        a.scheme == "http"@ || a.scheme == "https"@ ==> link_refusal(Ok(a)) is None,
        a.scheme != "http"@ && a.scheme != "https"@ ==> link_refusal(Ok(a)) == Some(
            "url: `"@ + a.scheme + "` is not a scheme a page is read over"@,
        ),
{
}

/// A capture is answered with 200 where it was held already, with 202 where it
/// is still being read, and with 201 otherwise. Several are answered with 200
/// where all were held already, with 202 where any is still being read, and
/// with 201 otherwise.
pub proof fn a_capture_is_answered_by_what_became_of_it(
    out: IngestOutcome,
    outs: Seq<IngestOutcome>,
)
    ensures
        out.duplicate ==> code_of(out).number_spec() == 200,
        !out.duplicate && (out.status is Extracting || out.status is Describing) ==> code_of(
            out,
        ).number_spec() == 202,
        !out.duplicate && !(out.status is Extracting || out.status is Describing) ==> code_of(
            out,
        ).number_spec() == 201,
        code_of_all(outs).number_spec() == 200 <==> forall|i: int|
            0 <= i < outs.len() ==> (#[trigger] outs[i]).duplicate,
        code_of_all(outs).number_spec() == 202 <==> (exists|i: int|
            0 <= i < outs.len() && !(#[trigger] outs[i]).duplicate) && exists|i: int|
            0 <= i < outs.len() && ((#[trigger] outs[i]).status is Extracting || outs[i].status
                is Describing),
        code_of_all(outs).number_spec() == 201 || code_of_all(outs).number_spec() == 200
            || code_of_all(outs).number_spec() == 202,
        Code::Done.number_spec() == 204,
{
    if exists|i: int| 0 <= i < outs.len() && still_read((#[trigger] outs[i]).status) {
        let i = choose|i: int| 0 <= i < outs.len() && still_read((#[trigger] outs[i]).status);
        assert(outs[i].status is Extracting || outs[i].status is Describing);
    }
    if exists|i: int|
        0 <= i < outs.len() && ((#[trigger] outs[i]).status is Extracting || outs[i].status
            is Describing) {
        let i = choose|i: int|
            0 <= i < outs.len() && ((#[trigger] outs[i]).status is Extracting || outs[i].status
                is Describing);
        assert(still_read(outs[i].status));
    }
}

/// A request to keep something supplies exactly one of a text, a page and an
/// address. A text is kept as it is; a page is extracted, held to the floor
/// unless it is a fragment somebody selected; an address is fetched. Whatever
/// title it gives goes with it.
pub proof fn one_body_is_kept(
    r: Result<IngestPlan, Error>,
    req: IngestRequest,
    read: Option<Result<Address, Seq<char>>>,
    min_chars: usize,
    lang: Seq<char>,
)
    requires
        is_ingest(r, req, read, min_chars, lang),
    ensures
        req.text is Some && (req.html is Some || req.url is Some) ==> refuses(
            r,
            "supply exactly one of `text`, `html` or `url`"@,
        ),
        req.text is None && req.html is None && req.url is None ==> refuses(
            r,
            "supply exactly one of `text`, `html` or `url`"@,
        ),
        req.html is None && req.url is None ==> (req.text matches Some(t) ==> read is None ==> (
        r matches Ok(IngestPlan::Store(c)) && c.text@ == t@ && c.origin@ == "web"@
            && text::text_of(c.title) == text::text_of(req.title) && c.note is None && c.tz is None
            && c.intent is None && c.source_url is None && c.day is None && c.file is None && c.ask
            is None && c.channel is None && (c.lang matches Some(l) && l@ == lang))),
        req.text is None ==> (req.html matches Some(h) ==> !(read matches Some(x) && link_refusal(
            x,
        ) is Some) ==> ({
            &&& r matches Ok(IngestPlan::Extract { html, base, floor, title, lang: l })
            &&& html@ == h@
            &&& text::text_of(title) == text::text_of(req.title)
            &&& l@ == lang
            &&& req.scope matches Some(s) ==> s@ == "selection"@ ==> floor == 0
            &&& !(req.scope matches Some(s) && s@ == "selection"@) ==> floor == min_chars
            &&& read matches Some(Ok(a)) ==> (base matches Some(b) && b@ == a.whole)
            &&& read is None ==> base is None
        })),
        req.text is None && req.html is None && req.url is Some ==> (read matches Some(Ok(a)) ==> (
        a.scheme == "http"@ || a.scheme == "https"@) ==> ({
            &&& r matches Ok(IngestPlan::Fetch { url, title, lang: l })
            &&& url@ == a.whole
            &&& text::text_of(title) == text::text_of(req.title)
            &&& l@ == lang
        })),
        req.text is None && req.url is Some ==> (read matches Some(Err(why)) ==> refuses(
            r,
            "url: "@ + why,
        )),
        req.text is None && req.url is Some ==> (read matches Some(Ok(a)) ==> a.scheme != "http"@
            && a.scheme != "https"@ ==> refuses(
            r,
            "url: `"@ + a.scheme + "` is not a scheme a page is read over"@,
        )),
{
}

/// A body is read by the type it is declared with, whatever the case of it: as
/// text, as parts, as a file of a kind that may be so large; and anything else
/// is refused by name.
pub proof fn a_body_is_read_by_its_type(
    r: Result<Body, Error>,
    declared: Seq<char>,
    pdf: usize,
    image: usize,
)
    requires
        is_body_read(r, declared_kind(Some(declared)), pdf, image),
    ensures
        ({
            let kind = text::lowered(declared);
            &&& "text/plain"@.is_prefix_of(kind) ==> (r matches Ok(Body::Text))
            &&& "multipart/form-data"@.is_prefix_of(kind) ==> (r matches Ok(Body::Parts))
            &&& "application/pdf"@.is_prefix_of(kind) ==> (r matches Ok(
                Body::File { what, ceiling },
            ) && what@ == "PDF"@ && ceiling == pdf)
            &&& "image/"@.is_prefix_of(kind) ==> (r matches Ok(Body::File { what, ceiling })
                && what@ == "image"@ && ceiling == image)
            &&& !"text/plain"@.is_prefix_of(kind) && !"multipart/form-data"@.is_prefix_of(kind)
                && !"application/pdf"@.is_prefix_of(kind) && !"image/"@.is_prefix_of(kind)
                ==> refuses(
                r,
                "`"@ + kind
                    + "` is not a type this door reads — send text/plain, application/pdf, an image, or multipart/form-data"@,
            )
        }),
{
    let kind = text::lowered(declared);
    reveal_strlit("text/plain");
    reveal_strlit("multipart/form-data");
    reveal_strlit("application/pdf");
    reveal_strlit("image/");
    if "text/plain"@.is_prefix_of(kind) {
        assert(kind[0] == "text/plain"@[0]);
    }
    if "multipart/form-data"@.is_prefix_of(kind) {
        assert(kind[0] == "multipart/form-data"@[0]);
    }
    if "application/pdf"@.is_prefix_of(kind) {
        assert(kind[0] == "application/pdf"@[0]);
    }
    if "image/"@.is_prefix_of(kind) {
        assert(kind[0] == "image/"@[0]);
    }
}

/// No type is no type: a body that declares none is refused.
pub proof fn a_body_without_a_type_is_refused(r: Result<Body, Error>, pdf: usize, image: usize)
    requires
        is_body_read(r, declared_kind(None), pdf, image),
    ensures
        r is Err,
{
    reveal_strlit("text/plain");
    reveal_strlit("multipart/form-data");
    reveal_strlit("application/pdf");
    reveal_strlit("image/");
}

/// A text carries the question it answers where the one that was taken down is
/// the one it names, and no question otherwise.
pub proof fn only_the_question_named_rides_along(from_ask: Seq<char>, asked: AskNote)
    ensures
        asked.event_id@ == from_ask ==> rides(Some(from_ask), Some(asked)) == Some(asked),
        asked.event_id@ != from_ask ==> rides(Some(from_ask), Some(asked)) is None,
        rides(None, Some(asked)) is None,
        rides(Some(from_ask), None) is None,
{
}

/// A field is what was last said under its name, and no other name changes it.
pub proof fn a_field_is_what_was_last_said(
    fields: Seq<(String, String)>,
    name: String,
    said: String,
    other: Seq<char>,
)
    ensures
        field(Seq::empty(), other) is None,
        field(fields.push((name, said)), name@) == Some(said@),
        other != name@ ==> field(fields.push((name, said)), other) == field(fields, other),
{
    assert(fields.push((name, said)).drop_last() =~= fields);
}

/// An address that is given as one is the one that is shared; a text that is
/// one link is shared as that link; and nothing else is shared as an address.
pub proof fn what_is_shared_is_the_address_given(
    fields: Seq<(String, String)>,
    lone: Option<Address>,
)
    ensures
        field(fields, "url"@) is Some ==> shared(fields, lone) == field(fields, "url"@),
        field(fields, "url"@) is None ==> (lone matches Some(a) ==> shared(fields, lone) == Some(
            a.whole,
        )),
        field(fields, "url"@) is None && lone is None ==> shared(fields, lone) is None,
        field(fields, "text"@) is None ==> text_link(fields) is None,
        field(fields, "text"@) matches Some(t) ==> text_link(fields) == lone_link(
            t,
            links::url_read(text::trim(t)),
        ),
        shared(fields, text_link(fields)) matches Some(raw) ==> shared_read(fields)
            == links::url_read(raw),
        shared(fields, text_link(fields)) is None ==> shared_read(fields) is Err,
{
}

/// Every file of a share is kept, in its place and as it was sent, with what
/// was said of the share.
pub proof fn every_file_of_a_share_is_kept(
    r: Seq<FileCapture>,
    files: Seq<FilePart>,
    title: Option<Seq<char>>,
    note: Option<Seq<char>>,
    lang: Seq<char>,
    i: int,
)
    requires
        are_files(r, files, title, note, lang),
        0 <= i < files.len(),
    ensures
        r.len() == files.len(),
        r[i].bytes@ == files[i].bytes@,
        text::text_of(r[i].filename) == text::text_of(files[i].filename),
        text::text_of(r[i].title) == title,
        text::text_of(r[i].note) == note,
        r[i].origin@ == "web"@,
        r[i].lang@ == lang,
{
    let _ = r[i];
}

/// A file that is sent alone is kept as it was sent, with what was said of it.
pub proof fn a_file_is_kept_as_it_was_sent(
    c: FileCapture,
    bytes: Seq<u8>,
    filename: Option<Seq<char>>,
    title: Option<Seq<char>>,
    note: Option<Seq<char>>,
    lang: Seq<char>,
)
    requires
        is_file(c, bytes, filename, title, note, lang),
    ensures
        c.bytes@ == bytes,
        text::text_of(c.filename) == filename,
        text::text_of(c.title) == title,
        text::text_of(c.note) == note,
        c.origin@ == "web"@,
        c.lang@ == lang,
{
}

/// A file that is too large is refused in whole megabytes, of 1048576 bytes
/// each, and the refusal says what it is.
pub proof fn a_limit_is_said_in_megabytes(what: Seq<char>, ceiling: usize, mb: nat)
    requires
        mb * 1048576 <= ceiling < (mb + 1) * 1048576,
    ensures
        size_refusal(what, ceiling) == "that "@ + what + " is over the "@ + text::decimal(mb)
            + " MB limit for a "@ + what + " capture"@,
{
    assert(ceiling / MEGABYTE == mb) by (nonlinear_arith)
        requires
            mb * 1048576 <= ceiling < (mb + 1) * 1048576,
            MEGABYTE == 1048576,
    ;
}

/// What a text says of itself is kept with it.
pub proof fn a_text_is_kept_with_what_was_said(
    c: Capture,
    body: Seq<char>,
    time: CaptureTime,
    title: Option<Seq<char>>,
    note: Option<Seq<char>>,
    lang: Seq<char>,
    ask: Option<AskNote>,
    channel: Option<Seq<char>>,
)
    requires
        is_kept(c, body, time, title, note, lang, ask, channel),
    ensures
        c.text@ == body,
        c.origin@ == time.origin@,
        text::borrowed(c.channel) == channel,
        text::text_of(c.title) == title,
        text::text_of(c.note) == note,
        text::text_of(c.tz) == text::text_of(time.tz),
        c.lang matches Some(l) && l@ == lang,
        c.intent == time.intent,
        c.source_url is None,
        c.day is None,
        c.file is None,
        c.ask == ask,
{
}

/// An upload is what it is declared as: text or a PDF. One that is declared as
/// nothing is what its name ends in, and anything else is refused by what it
/// is declared as.
pub proof fn an_upload_is_what_it_is_declared_as(declared: Seq<char>, filename: Option<Seq<char>>)
    ensures
        "text/plain"@.is_prefix_of(declared) ==> upload_kind(declared, filename) == Some(
            UploadKind::Text,
        ),
        "application/pdf"@.is_prefix_of(declared) ==> upload_kind(declared, filename) == Some(
            UploadKind::Pdf,
        ),
        declared.len() > 0 && !"text/plain"@.is_prefix_of(declared)
            && !"application/pdf"@.is_prefix_of(declared) ==> upload_kind(declared, filename)
            is None && kind_refusal(declared) == "that file is `"@ + declared
            + "` — only text/plain and application/pdf are accepted"@,
        declared.len() == 0 && files::is_named(filename, "txt"@) ==> upload_kind(declared, filename)
            == Some(UploadKind::Text),
        declared.len() == 0 && !files::is_named(filename, "txt"@) && files::is_named(
            filename,
            "pdf"@,
        ) ==> upload_kind(declared, filename) == Some(UploadKind::Pdf),
        declared.len() == 0 && !files::is_named(filename, "txt"@) && !files::is_named(
            filename,
            "pdf"@,
        ) ==> upload_kind(declared, filename) is None && kind_refusal(declared)
            == "that upload declares no type and is named neither `.txt` nor `.pdf` — only text/plain and application/pdf are accepted"@,
{
    reveal_strlit("text/plain");
    reveal_strlit("application/pdf");
    if "text/plain"@.is_prefix_of(declared) {
        assert(declared[0] == "text/plain"@[0]);
    }
    if "application/pdf"@.is_prefix_of(declared) {
        assert(declared[0] == "application/pdf"@[0]);
    }
}

/// An uploaded text is kept as what its bytes spell, with its name, its size
/// and what was noted of it, where it is at most eight megabytes and spells
/// something; an uploaded PDF is handed on as it was sent.
pub proof fn an_upload_is_kept_as_it_was_sent(
    r: Result<UploadPlan, Error>,
    f: FilePart,
    note: Option<Seq<char>>,
    lang: Seq<char>,
)
    requires
        is_upload(r, Some(f), note, lang),
    ensures
        upload_kind(f.declared@, text::text_of(f.filename)) is None ==> refuses(
            r,
            kind_refusal(f.declared@),
        ),
        upload_kind(f.declared@, text::text_of(f.filename)) == Some(UploadKind::Text) ==> {
            &&& f.bytes@.len() > 8388608 ==> refuses(
                r,
                "that text file is over the 8 MB limit for a text capture"@,
            )
            &&& f.bytes@.len() <= 8388608 && !vstd::utf8::valid_utf8(f.bytes@) ==> refuses(
                r,
                "that file is not valid UTF-8 text"@,
            )
            &&& f.bytes@.len() <= 8388608 && vstd::utf8::valid_utf8(f.bytes@) ==> ({
                &&& r matches Ok(UploadPlan::Text(c))
                &&& c.text@ == vstd::utf8::decode_utf8(f.bytes@)
                &&& c.origin@ == "upload"@
                &&& text::text_of(c.note) == note
                &&& c.lang matches Some(l) && l@ == lang
                &&& c.file matches Some(file) && text::text_of(file.name) == text::text_of(
                    f.filename,
                ) && file.size == f.bytes@.len() && file.mime@ == "text/plain"@
                &&& c.title is None && c.tz is None && c.intent is None && c.day is None && c.ask
                    is None && c.source_url is None && c.channel is None
            })
        },
        upload_kind(f.declared@, text::text_of(f.filename)) == Some(UploadKind::Pdf) ==> ({
            &&& r matches Ok(UploadPlan::Pdf { bytes, filename, note: n, lang: l })
            &&& bytes@ == f.bytes@
            &&& text::text_of(filename) == text::text_of(f.filename)
            &&& text::text_of(n) == note
            &&& l@ == lang
        }),
{
}

/// An upload without a file is refused, and so is one with two.
pub proof fn an_upload_takes_one_file(
    r: Result<UploadPlan, Error>,
    note: Option<Seq<char>>,
    lang: Seq<char>,
    name: Seq<char>,
)
    requires
        is_upload(r, None, note, lang),
    ensures
        refuses(r, "no file in the upload"@),
        second_refusal(name) == "more than one `"@ + name + "` part — send one file per request"@,
{
}

/// A refusal is a refusal of what was asked for, in the words it is given.
pub proof fn a_refusal_says_why(r: Result<PartsPlan, Error>, words: Seq<char>)
    ensures
        refuses(r, words) <==> (r matches Err(Error::Validation(m)) && m@ == words),
{
}

// ---------------------------------------------------------------------------
// What holds of every call
// ---------------------------------------------------------------------------

/// A text that is sent alone is refused where a field about time is wrong, then
/// where it is over eight megabytes, then where its bytes spell nothing; and
/// where it is taken, what was said of it goes with it, whether its page is
/// fetched or it is kept itself.
pub proof fn a_text_is_taken_with_what_was_said(
    q: CaptureQuery,
    bytes: Vec<u8>,
    lang: &str,
    asked: Option<AskNote>,
    r: Result<CapturePlan, Error>,
)
    requires
        call_ensures(capture_text, (q, bytes, lang, asked), r),
    ensures
        r matches Ok(CapturePlan::Fetch { url, title, note, lang: l }) ==> text::text_of(title)
            == text::text_of(q.title) && text::text_of(note) == text::text_of(q.note) && l@
            == lang@,
        r matches Ok(CapturePlan::Store(c)) ==> text::text_of(c.title) == text::text_of(q.title)
            && text::text_of(c.note) == text::text_of(q.note) && (c.lang matches Some(l) && l@
            == lang@) && c.text@ == vstd::utf8::decode_utf8(bytes@),
        ({
            let wrong = time_refusal(
                text::text_of(q.tz),
                zone_given(text::text_of(q.tz)),
                text::text_of(q.origin),
                text::text_of(q.intent),
            );
            &&& wrong matches Some(words) ==> refuses(r, words)
            &&& wrong is None && bytes@.len() > 8388608 ==> refuses(
                r,
                "that text is over the 8 MB limit for a text capture"@,
            )
            &&& wrong is None && bytes@.len() <= 8388608 && !vstd::utf8::valid_utf8(bytes@)
                ==> refuses(r, "that body is not valid UTF-8 text"@)
            &&& wrong is None && bytes@.len() <= 8388608 && vstd::utf8::valid_utf8(bytes@) && given(
                text::text_of(q.tz),
            ) is None && given(text::text_of(q.origin)) is None && given(text::text_of(q.intent))
                is None ==> r is Ok
        }),
{
}

/// A file that is sent alone is refused where a field about time is wrong, then
/// where it is too large, then where a field about time says anything; and
/// where it is taken, it is taken whole, with what was said of it.
pub proof fn a_file_is_taken_with_what_was_said(
    q: CaptureQuery,
    what: &'static str,
    ceiling: usize,
    bytes: Vec<u8>,
    lang: &str,
    r: Result<FileCapture, Error>,
)
    requires
        call_ensures(capture_file, (q, what, ceiling, bytes, lang), r),
    ensures
        r matches Ok(c) ==> c.bytes@ == bytes@ && c.filename is None && text::text_of(c.title)
            == text::text_of(q.title) && text::text_of(c.note) == text::text_of(q.note) && c.lang@
            == lang@ && bytes@.len() <= ceiling,
        given(text::text_of(q.tz)) is None && given(text::text_of(q.origin)) is None && given(
            text::text_of(q.intent),
        ) is None ==> if bytes@.len() > ceiling {
            refuses(r, size_refusal(what@, ceiling))
        } else {
            r is Ok
        },
        given(text::text_of(q.tz)) is Some || given(text::text_of(q.origin)) is Some || given(
            text::text_of(q.intent),
        ) is Some ==> r is Err,
{
}

/// What became of some captures is answered one by one where it was one, and
/// together where it was more; none is refused.
pub proof fn what_became_of_captures_is_answered(
    outs: Vec<IngestOutcome>,
    r: Result<(Code, Captured), Error>,
)
    requires
        call_ensures(captured, (outs,), r),
    ensures
        outs@.len() == 0 <==> r is Err,
        outs@.len() == 0 ==> refuses(
            r,
            "nothing to capture: send `text`, `url`, or at least one file part"@,
        ),
        outs@.len() == 1 ==> (r matches Ok((code, said)) && code == code_of(outs@[0]) && (
        said matches Captured::One(one) && one == outs@[0])),
        outs@.len() > 1 ==> (r matches Ok((code, said)) && code == code_of_all(outs@) && (
        said matches Captured::Many(many) && many@ == outs@)),
{
}

/// A page that was extracted is kept as what came of it, under the title that
/// was given, or else its own, and with where it came from.
pub proof fn an_extracted_page_is_kept(
    markdown: String,
    page_title: Option<String>,
    title: Option<String>,
    base: Option<String>,
    lang: String,
    c: Capture,
)
    requires
        call_ensures(extracted, (markdown, page_title, title, base, lang), c),
    ensures
        c.text@ == markdown@,
        c.origin@ == "extension"@,
        title is Some ==> c.title == title,
        title is None ==> c.title == page_title,
        c.source_url == base,
        c.lang matches Some(l) && l@ == lang@,
        c.channel is None,
        c.note is None,
        c.tz is None,
        c.intent is None,
        c.day is None,
        c.file is None,
        c.ask is None,
{
}

/// A picture is taken whole, with what was said of it; an upload without one is
/// refused.
pub proof fn a_picture_is_taken_with_what_was_said(
    file: Option<FilePart>,
    title_hint: Option<String>,
    note: Option<String>,
    lang: &str,
    r: Result<ImageCapture, Error>,
)
    requires
        call_ensures(upload_image, (file, title_hint, note, lang), r),
    ensures
        file is None ==> refuses(r, "no image in the upload"@),
        file matches Some(f) ==> (r matches Ok(c) && c.bytes@ == f.bytes@ && c.filename
            == f.filename && c.title_hint == title_hint && c.note == note && c.lang@ == lang@),
{
}

/// A part of an upload is its file under the file's name, refused where there
/// is one already; a field under a name that is asked for; and nothing
/// otherwise.
pub proof fn a_part_is_what_its_name_says(
    name: Option<&str>,
    file_field: &str,
    text_fields: &[String],
    held: bool,
    r: Result<PartUse, Error>,
    filename: Option<&str>,
    shared_as: PartUse,
)
    requires
        call_ensures(upload_part, (name, file_field, text_fields, held), r),
        call_ensures(share_part, (name, filename), shared_as),
    ensures
        name is None ==> r == Ok::<PartUse, Error>(PartUse::Ignored),
        name matches Some(n) ==> n@ == file_field@ ==> if held {
            refuses(r, "more than one `"@ + file_field@ + "` part — send one file per request"@)
        } else {
            r == Ok::<PartUse, Error>(PartUse::File)
        },
        name matches Some(n) ==> n@ != file_field@ ==> (r matches Ok(u) && (u == PartUse::Field
            <==> exists|i: int|
            0 <= i < text_fields@.len() && (#[trigger] text_fields@[i])@ == n@) && u
            != PartUse::File),
        shared_as == PartUse::Ignored <==> name is None,
        name is Some ==> (shared_as == PartUse::File <==> filename is Some),
{
    if let Some(n) = name {
        let all = text::texts(text_fields@);
        if all.contains(n@) {
            let i = choose|i: int| 0 <= i < all.len() && all[i] == n@;
            assert(text_fields@[i]@ == n@);
        }
        if exists|i: int| 0 <= i < text_fields@.len() && (#[trigger] text_fields@[i])@ == n@ {
            let i = choose|i: int|
                0 <= i < text_fields@.len() && (#[trigger] text_fields@[i])@ == n@;
            assert(all[i] == n@);
        }
    }
}

/// What was held already is answered as that; what is new is answered as made,
/// or as still to be read.
pub proof fn what_is_new_is_answered_as_new(duplicate: bool, kept: Code, stored: Code)
    requires
        call_ensures(kept_code, (duplicate,), kept),
        call_ensures(stored_code, (duplicate,), stored),
    ensures
        duplicate ==> kept.number_spec() == 200 && stored.number_spec() == 200,
        !duplicate ==> kept.number_spec() == 201 && stored.number_spec() == 202,
{
}

/// A share is taken with what was said of it: what the query says, and
/// otherwise what its own field says, for a page as for a text.
pub proof fn a_share_is_taken_with_what_was_said(
    q: CaptureQuery,
    fields: &[(String, String)],
    files: usize,
    lang: &str,
    asked: Option<AskNote>,
    r: Result<PartsPlan, Error>,
)
    requires
        call_ensures(capture_parts, (q, fields, files, lang, asked), r),
    ensures
        r matches Ok(plan) ==> {
            let title = if q.title is Some {
                text::text_of(q.title)
            } else {
                field(fields@, "title"@)
            };
            let note = if q.note is Some {
                text::text_of(q.note)
            } else {
                field(fields@, "note"@)
            };
            &&& text::text_of(plan.title) == title
            &&& text::text_of(plan.note) == note
            &&& plan.first matches Some(CapturePlan::Fetch { url, title: t, note: n, lang: l })
                ==> text::text_of(t) == title && text::text_of(n) == note && l@ == lang@
            &&& plan.first matches Some(CapturePlan::Store(c)) ==> text::text_of(c.title) == title
                && text::text_of(c.note) == note && (c.lang matches Some(l) && l@ == lang@) && Some(
                c.text@,
            ) == field(fields@, "text"@)
        },
{
}

/// What is put in an upload is what comes of it.
pub proof fn an_upload_is_taken_with_its_note(
    file: Option<FilePart>,
    note: Option<String>,
    lang: &str,
    r: Result<UploadPlan, Error>,
)
    requires
        call_ensures(upload, (file, note, lang), r),
    ensures
        file is None ==> refuses(r, "no file in the upload"@),
        r matches Ok(UploadPlan::Text(c)) ==> (file matches Some(f) && c.text@
            == vstd::utf8::decode_utf8(f.bytes@) && text::text_of(c.note) == text::text_of(note) && (
        c.lang matches Some(l) && l@ == lang@)),
        r matches Ok(UploadPlan::Pdf { bytes, filename, note: n, lang: l }) ==> (file matches Some(f)
            && bytes@ == f.bytes@ && filename == f.filename && text::text_of(n) == text::text_of(
            note,
        ) && l@ == lang@),
{
}

/// What is lent is what was read, and nothing is nothing.
pub proof fn what_is_lent_is_what_was_read(link: Link, read: Result<Link, String>)
    ensures
        link_says(Some(link)) == Some(link@),
        link_says(None) is None,
        read_as_opt(None) is None,
        read_as_opt(Some(read)) == Some(links::read_as(read)),
{
}

} // verus!
