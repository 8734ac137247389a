//! A tag on every JSON read, and a reader's own tag honoured.
//!
//! The tag is a hash of the body. What is about to be sent cannot disagree
//! with a hash of it, as a version counter kept beside the data could.

use crate::text;
use crate::text::{opens_with, past, pieces_of, same, trimmed};
use sha2::{Digest, Sha256};
use vstd::prelude::*;

verus! {

/// Store it, and ask before using it: the reader keeps the body and spends one
/// round trip learning that it is current.
pub const REVALIDATE: &'static str = "private, no-cache";

/// The status of an answer.
pub const OK: u16 = 200;

/// The status of an answer that says nothing has changed.
pub const NOT_MODIFIED: u16 = 304;

/// An answer, as far as tagging it goes.
pub struct Reply {
    pub status: u16,
    pub content_type: Option<String>,
    pub etag: Option<String>,
    pub cache_control: Option<String>,
    pub body: Vec<u8>,
}

/// What SHA-256 makes of some bytes.
pub uninterp spec fn sha256(bytes: Seq<u8>) -> Seq<u8>;

/// `Sha256::digest` of the sha2 crate: the hash of some bytes, which is 32
/// bytes long.
#[verifier::external_body]
fn digest(bytes: &[u8]) -> (r: Vec<u8>)
    ensures
        r@ == sha256(bytes@),
        r@.len() == 32,
{
    Sha256::digest(bytes).to_vec()
}

/// A hexadecimal digit, in lower case.
pub open spec fn hex_digit(n: int) -> char {
    if n < 10 {
        text::digit(n as nat)
    } else if n == 10 {
        'a'
    } else if n == 11 {
        'b'
    } else if n == 12 {
        'c'
    } else if n == 13 {
        'd'
    } else if n == 14 {
        'e'
    } else {
        'f'
    }
}

/// Some bytes in hexadecimal, two digits to a byte.
pub open spec fn hex_text(bytes: Seq<u8>) -> Seq<char>
    decreases bytes.len(),
{
    if bytes.len() == 0 {
        Seq::empty()
    } else {
        hex_text(bytes.drop_last()) + seq![
            hex_digit(bytes.last() as int / 16),
            hex_digit(bytes.last() as int % 16),
        ]
    }
}

/// `hex::encode`: some bytes in hexadecimal, in lower case, two digits to a
/// byte.
#[verifier::external_body]
fn hexed(bytes: &[u8]) -> (r: String)
    ensures
        r@ == hex_text(bytes@),
{
    hex::encode(bytes)
}

/// Whether a header may carry a value: no control character stands in it but
/// the tab.
pub open spec fn header_safe(value: Seq<char>) -> bool {
    forall|i: int|
        0 <= i < value.len() ==> (' ' <= #[trigger] value[i] && value[i] != '\x7f' || value[i]
            == '\t')
}

/// `HeaderValue::from_str` of the http crate: whether a header may carry a
/// value. It is asked of the bytes of the value, and those of a character past
/// ASCII are all carried.
#[verifier::external_body]
fn carries(value: &str) -> (r: bool)
    ensures
        r == header_safe(value@),
{
    axum::http::HeaderValue::from_str(value).is_ok()
}

/// The tag that goes with a hash: the first half of it, in hexadecimal, in
/// quotes.
pub open spec fn tag_from(hash: Seq<u8>) -> Seq<char> {
    seq!['"'] + hex_text(hash.take(16)) + seq!['"']
}

/// The tag that goes with a hash.
pub fn quoted(hash: &[u8]) -> (r: String)
    requires
        hash@.len() >= 16,
    ensures
        r@ == tag_from(hash@),
{
    let mut half: Vec<u8> = Vec::new();
    let mut i: usize = 0;
    while i < 16
        invariant
            i <= 16 <= hash@.len(),
            half@ == hash@.take(i as int),
        decreases 16 - i,
    {
        half.push(hash[i]);
        assert(half@ =~= hash@.take(i + 1));
        i = i + 1;
    }
    let mut r = String::new();
    r.push('"');
    r.append(hexed(half.as_slice()).as_str());
    r.push('"');
    assert(r@ =~= tag_from(hash@));
    r
}

/// A strong tag over these bytes, quoted as the header wants it. Half a hash:
/// it tells versions of one resource apart for one reader.
pub fn tag_of(bytes: &[u8]) -> (r: String)
    ensures
        r@ == tag_from(sha256(bytes@)),
        sha256(bytes@).len() == 32,
        r@.len() == 34,
{
    let hash = digest(bytes);
    proof {
        a_tag_is_quoted(hash@);
    }
    quoted(hash.as_slice())
}

/// A tag without the mark that it is weak.
pub open spec fn strong(member: Seq<char>) -> Seq<char> {
    if "W/"@.is_prefix_of(member) {
        member.skip(2)
    } else {
        member
    }
}

/// Whether one member of the header names a tag: itself, or anything at all.
pub open spec fn names(member: Seq<char>, tag: Seq<char>) -> bool {
    text::trim(member) == "*"@ || strong(text::trim(member)) == tag
}

/// Whether the header names a tag.
pub open spec fn names_tag(header: Seq<char>, tag: Seq<char>) -> bool {
    exists|i: int|
        0 <= i < text::pieces(header, ',').len() && names(
            #[trigger] text::pieces(header, ',')[i],
            tag,
        )
}

/// Whether an `If-None-Match` value names this tag. It is a list, a member may
/// be weak, and `*` matches anything that exists; the comparison is the weak
/// one, so the mark is dropped before comparing rather than refused.
pub fn matches(if_none_match: &str, tag: &str) -> (r: bool)
    ensures
        r == names_tag(if_none_match@, tag@),
{
    proof {
        reveal_strlit("W/");
    }
    let members = pieces_of(if_none_match, ',');
    let ghost all = text::pieces(if_none_match@, ',');
    let mut i: usize = 0;
    while i < members.len()
        invariant
            i <= members@.len(),
            "W/"@.len() == 2,
            all == text::pieces(if_none_match@, ','),
            text::texts(members@) == all,
            forall|j: int| 0 <= j < i ==> !names(#[trigger] all[j], tag@),
        decreases members.len() - i,
    {
        assert(all[i as int] == members@[i as int]@);
        let m = trimmed(members[i].as_str());
        if same(m.as_str(), "*") {
            return true;
        }
        let bare = if opens_with(m.as_str(), "W/") {
            past(m.as_str(), 2)
        } else {
            m
        };
        if same(bare.as_str(), tag) {
            return true;
        }
        i = i + 1;
    }
    assert(text::texts(members@).len() == members@.len());
    false
}

/// An answer with the tag and the caching rule on it.
pub open spec fn is_stamped(r: Reply, before: Reply, tag: Seq<char>) -> bool {
    &&& r.status == before.status
    &&& r.content_type == before.content_type
    &&& r.body == before.body
    &&& text::text_of(r.cache_control) == Some(REVALIDATE@)
    &&& header_safe(tag) ==> text::text_of(r.etag) == Some(tag)
    &&& !header_safe(tag) ==> r.etag == before.etag
}

/// Put the tag and the caching rule on an answer.
pub fn stamp(res: &mut Reply, tag: &str)
    ensures
        is_stamped(*final(res), *old(res), tag@),
{
    if carries(tag) {
        res.etag = Some(tag.to_owned());
    }
    res.cache_control = Some(REVALIDATE.to_owned());
}

/// `r` says that nothing has changed: the tag again, the caching rule again,
/// and no body.
pub open spec fn is_unchanged(r: Reply, tag: Seq<char>) -> bool {
    &&& r.status == NOT_MODIFIED
    &&& r.content_type is None
    &&& r.body@.len() == 0
    &&& text::text_of(r.cache_control) == Some(REVALIDATE@)
    &&& text::text_of(r.etag) == (if header_safe(tag) {
        Some(tag)
    } else {
        None
    })
}

/// The answer for a tag that matched.
pub fn not_modified(tag: &str) -> (r: Reply)
    ensures
        is_unchanged(r, tag@),
{
    let mut r = Reply {
        status: NOT_MODIFIED,
        content_type: None,
        etag: None,
        cache_control: None,
        body: Vec::new(),
    };
    stamp(&mut r, tag);
    r
}

/// Whether an answer to a read is one to tag: a successful JSON answer that
/// has no tag and states no caching rule of its own.
pub open spec fn is_taggable(is_get: bool, r: Reply) -> bool {
    &&& is_get
    &&& r.status == OK
    &&& r.content_type matches Some(t) && "application/json"@.is_prefix_of(t@)
    &&& r.etag is None
    &&& r.cache_control is None
}

/// Whether an answer is one to tag, told without its body: an error is no
/// version of the resource, a stream has no whole body to hash, and an answer
/// that nobody may keep needs no tag.
pub fn taggable(is_get: bool, r: &Reply) -> (t: bool)
    ensures
        t == is_taggable(is_get, *r),
{
    if !is_get || r.status != OK || r.etag.is_some() || r.cache_control.is_some() {
        return false;
    }
    match &r.content_type {
        Some(t) => opens_with(t.as_str(), "application/json"),
        None => false,
    }
}

/// What a reader is sent: the answer as it is where it is not one to tag; that
/// nothing has changed where the reader holds just this; and else the answer,
/// tagged.
pub open spec fn is_sent(
    r: Reply,
    res: Reply,
    is_get: bool,
    asked: Option<Seq<char>>,
    tag: Seq<char>,
) -> bool {
    if !is_taggable(is_get, res) {
        r == res
    } else if asked is Some && names_tag(asked->0, tag) {
        is_unchanged(r, tag)
    } else {
        is_stamped(r, res, tag)
    }
}

/// What a reader is sent, given the tag of the answer.
pub fn answer(res: Reply, is_get: bool, asked: Option<&str>, tag: &str) -> (r: Reply)
    ensures
        is_sent(r, res, is_get, text::borrowed(asked), tag@),
{
    if !taggable(is_get, &res) {
        return res;
    }
    match asked {
        Some(a) => {
            if matches(a, tag) {
                return not_modified(tag);
            }
        },
        None => {},
    }
    let mut r = res;
    stamp(&mut r, tag);
    r
}

/// What a reader is sent. `asked` is the tags the reader says it holds.
pub fn layer(res: Reply, is_get: bool, asked: Option<&str>) -> (r: Reply)
    ensures
        is_sent(r, res, is_get, text::borrowed(asked), tag_from(sha256(res.body@))),
        is_taggable(is_get, res) ==> sha256(res.body@).len() == 32,
{
    if !taggable(is_get, &res) {
        return res;
    }
    let tag = tag_of(res.body.as_slice());
    answer(res, is_get, asked, tag.as_str())
}

// ---------------------------------------------------------------------------
// What holds of every tag
// ---------------------------------------------------------------------------

/// Hexadecimal is digits and the letters from a to f, two to a byte.
pub proof fn hex_is_plain(bytes: Seq<u8>)
    ensures
        hex_text(bytes).len() == 2 * bytes.len(),
        forall|i: int|
            0 <= i < hex_text(bytes).len() ==> ('0' <= #[trigger] hex_text(bytes)[i] <= '9' || 'a'
                <= hex_text(bytes)[i] <= 'f'),
    decreases bytes.len(),
{
    if bytes.len() > 0 {
        hex_is_plain(bytes.drop_last());
    }
}

/// A tag is quoted, may stand in a header, and holds no comma.
pub proof fn a_tag_is_quoted(hash: Seq<u8>)
    requires
        hash.len() >= 16,
    ensures
        tag_from(hash).len() == 34,
        tag_from(hash)[0] == '"',
        tag_from(hash).last() == '"',
        header_safe(tag_from(hash)),
        forall|i: int| 0 <= i < tag_from(hash).len() ==> #[trigger] tag_from(hash)[i] != ',',
{
    hex_is_plain(hash.take(16));
    let tag = tag_from(hash);
    assert forall|i: int| 0 <= i < tag.len() implies (' ' <= #[trigger] tag[i] <= '~') && tag[i]
        != ',' by {
        if 0 < i < 33 {
            assert(tag[i] == hex_text(hash.take(16))[i - 1]);
        }
    }
}

/// A text without a comma is one member of a list.
proof fn one_member(s: Seq<char>)
    requires
        forall|i: int| 0 <= i < s.len() ==> #[trigger] s[i] != ',',
    ensures
        text::pieces(s, ',') == seq![s],
{
    text::first_is_cut(s, ',', s.len() as int);
}

/// A reader that sends back the tag it was given is told that nothing changed,
/// whether it sends it as it was or marked as weak, and one that sends `*`
/// always is; one that sends another tag never is.
pub proof fn a_tag_names_itself(hash: Seq<u8>, other: Seq<u8>)
    requires
        hash.len() >= 16,
        other.len() >= 16,
    ensures
        names_tag(tag_from(hash), tag_from(hash)),
        names_tag("W/"@ + tag_from(hash), tag_from(hash)),
        names_tag("*"@, tag_from(hash)),
        names_tag(tag_from(other), tag_from(hash)) <==> tag_from(other) == tag_from(hash),
{
    reveal_strlit("W/");
    reveal_strlit("*");
    a_tag_is_quoted(hash);
    a_tag_is_quoted(other);
    let tag = tag_from(hash);
    let that = tag_from(other);
    one_member(tag);
    text::trim_leaves(tag);
    assert(strong(tag) == tag) by {
        if "W/"@.is_prefix_of(tag) {
            assert(tag.subrange(0, 2)[0] == tag[0]);
        }
    }
    assert(names(text::pieces(tag, ',')[0], tag));
    let weak = "W/"@ + tag;
    assert forall|i: int| 0 <= i < weak.len() implies #[trigger] weak[i] != ',' by {
        if i >= 2 {
            assert(weak[i] == tag[i - 2]);
        }
    }
    one_member(weak);
    assert(weak.last() == tag.last());
    text::trim_leaves(weak);
    assert("W/"@.is_prefix_of(weak)) by {
        assert(weak.subrange(0, 2) =~= "W/"@);
    }
    assert(weak.skip(2) =~= tag);
    assert(names(text::pieces(weak, ',')[0], tag));
    one_member("*"@);
    text::trim_leaves("*"@);
    assert(names(text::pieces("*"@, ',')[0], tag));
    one_member(that);
    text::trim_leaves(that);
    assert(strong(that) == that) by {
        if "W/"@.is_prefix_of(that) {
            assert(that.subrange(0, 2)[0] == that[0]);
        }
    }
    assert(that != "*"@) by {
        assert(that.len() == 34);
    }
    assert(names(text::pieces(that, ',')[0], tag) == (that == tag));
}

/// A read that says nothing changed carries no body, and one that says
/// something did carries all of it; either way the reader is given the tag to
/// ask with next time. `hash` is the digest of the body.
pub proof fn a_read_can_be_asked_again(
    r: Reply,
    res: Reply,
    asked: Option<Seq<char>>,
    hash: Seq<u8>,
)
    requires
        is_taggable(true, res),
        hash.len() >= 16,
        is_sent(r, res, true, asked, tag_from(hash)),
    ensures
        text::text_of(r.etag) == Some(tag_from(hash)),
        r.status == OK ==> r.body == res.body,
        r.status == NOT_MODIFIED ==> r.body@.len() == 0,
        r.status == OK || r.status == NOT_MODIFIED,
{
    a_tag_is_quoted(hash);
}

/// What a hexadecimal digit weighs.
pub open spec fn weighs(c: char) -> int {
    if '0' <= c <= '9' {
        c as int - 48
    } else if 'a' <= c <= 'f' {
        c as int - 87
    } else {
        -1
    }
}

/// Bytes written out in hexadecimal read back, two digits a byte and the
/// heavier ahead.
pub proof fn hex_reads_back(bytes: Seq<u8>, i: int)
    requires
        0 <= i < bytes.len(),
    ensures
        hex_text(bytes).len() == 2 * bytes.len(),
        16 * weighs(hex_text(bytes)[2 * i]) + weighs(hex_text(bytes)[2 * i + 1]) == bytes[i],
        0 <= weighs(hex_text(bytes)[2 * i]) < 16,
        0 <= weighs(hex_text(bytes)[2 * i + 1]) < 16,
    decreases bytes.len(),
{
    hex_is_plain(bytes);
    let less = bytes.drop_last();
    hex_is_plain(less);
    if i < less.len() {
        hex_reads_back(less, i);
        assert(hex_text(bytes)[2 * i] == hex_text(less)[2 * i]);
        assert(hex_text(bytes)[2 * i + 1] == hex_text(less)[2 * i + 1]);
    } else {
        let b = bytes.last() as int;
        assert(b == 16 * (b / 16) + b % 16);
        assert(hex_text(bytes)[2 * i] == hex_digit(b / 16));
        assert(hex_text(bytes)[2 * i + 1] == hex_digit(b % 16));
    }
}

/// A tag tells two hashes apart by their first sixteen bytes, and by nothing
/// else.
pub proof fn a_tag_tells_hashes_apart(a: Seq<u8>, b: Seq<u8>)
    requires
        a.len() >= 16,
        b.len() >= 16,
    ensures
        tag_from(a) == tag_from(b) <==> a.take(16) == b.take(16),
{
    if tag_from(a) == tag_from(b) {
        let x = a.take(16);
        let y = b.take(16);
        hex_is_plain(x);
        hex_is_plain(y);
        assert(tag_from(a).subrange(1, 33) =~= hex_text(x));
        assert(tag_from(b).subrange(1, 33) =~= hex_text(y));
        assert forall|i: int| 0 <= i < 16 implies x[i] == y[i] by {
            hex_reads_back(x, i);
            hex_reads_back(y, i);
        }
        assert(x =~= y);
    }
}

/// A header can carry a tab and any character from the space on but one.
pub proof fn what_a_header_can_carry(value: Seq<char>)
    ensures
        header_safe(value) <==> forall|i: int|
            0 <= i < value.len() ==> (#[trigger] value[i]) as int == 9 || (value[i] as int >= 32
                && value[i] as int != 127),
{
    if forall|i: int|
        0 <= i < value.len() ==> (#[trigger] value[i]) as int == 9 || (value[i] as int >= 32
            && value[i] as int != 127) {
        assert forall|i: int| 0 <= i < value.len() implies (' ' <= #[trigger] value[i] && value[i]
            != '\x7f' || value[i] == '\t') by {
            assert(value[i] as int == 9 || (value[i] as int >= 32 && value[i] as int != 127));
        }
    }
}

/// A tag is named by itself, by itself as a weak one, and by a star, with white
/// space around it or none; and by nothing else.
pub proof fn a_tag_is_named_three_ways(member: Seq<char>, tag: Seq<char>)
    requires
        !seq!['W', '/'].is_prefix_of(tag),
    ensures
        names(member, tag) <==> text::trim(member) == seq!['*'] || text::trim(member) == tag
            || text::trim(member) == seq!['W', '/'] + tag,
{
    reveal_strlit("W/");
    reveal_strlit("*");
    assert("W/"@ =~= seq!['W', '/']);
    assert("*"@ =~= seq!['*']);
    let t = text::trim(member);
    let weak = seq!['W', '/'];
    if weak.is_prefix_of(t) {
        assert(t =~= weak + t.skip(2));
    }
    if t == weak + tag {
        assert(weak.is_prefix_of(t)) by {
            assert(t.subrange(0, 2) =~= weak);
        }
        assert(t.skip(2) =~= tag);
    }
}

/// A list names a tag where one of its members does.
pub proof fn a_list_names_what_its_members_do(
    member: Seq<char>,
    rest: Seq<char>,
    tag: Seq<char>,
)
    requires
        forall|i: int| 0 <= i < member.len() ==> #[trigger] member[i] != ',',
    ensures
        names_tag(member, tag) <==> names(member, tag),
        names_tag(member + seq![','] + rest, tag) <==> names(member, tag) || names_tag(rest, tag),
{
    one_member(member);
    let s = member + seq![','] + rest;
    let k = member.len() as int;
    assert(s[k] == ',');
    assert forall|i: int| 0 <= i < k implies #[trigger] s[i] != ',' by {
        assert(s[i] == member[i]);
    }
    text::first_is_cut(s, ',', k);
    assert(s.take(k) =~= member);
    assert(s.skip(k + 1) =~= rest);
    let p = text::pieces(s, ',');
    let q = text::pieces(rest, ',');
    assert(p =~= seq![member] + q);
    if names(member, tag) {
        assert(names(p[0], tag));
        assert(names(text::pieces(member, ',')[0], tag));
    }
    if names_tag(rest, tag) {
        let i = choose|i: int| 0 <= i < q.len() && names(#[trigger] q[i], tag);
        assert(names(p[i + 1], tag));
    }
    if names_tag(s, tag) {
        let i = choose|i: int| 0 <= i < p.len() && names(#[trigger] p[i], tag);
        if i > 0 {
            assert(names(q[i - 1], tag));
        }
    }
}

/// A reply is tagged where it is a read that went well, is JSON, and says
/// nothing itself of how it may be kept.
pub proof fn what_is_tagged(is_get: bool, r: Reply)
    ensures
        is_taggable(is_get, r) <==> is_get && r.status == 200 && r.etag is None && r.cache_control
            is None && (r.content_type matches Some(t) && "application/json"@.is_prefix_of(t@)),
{
}

/// What cannot be tagged is sent as it is. What can be is sent with its tag,
/// to be asked for again each time, and in full unless whoever asks names that
/// tag; then nothing of it is sent but the tag.
pub proof fn what_is_sent(
    r: Reply,
    res: Reply,
    is_get: bool,
    asked: Option<Seq<char>>,
    tag: Seq<char>,
)
    requires
        is_sent(r, res, is_get, asked, tag),
        header_safe(tag),
    ensures
        !is_taggable(is_get, res) ==> r == res,
        is_taggable(is_get, res) ==> {
            &&& r.etag matches Some(t) && t@ == tag
            &&& r.cache_control matches Some(c) && c@ == "private, no-cache"@
        },
        is_taggable(is_get, res) && (asked matches Some(h) && names_tag(h, tag)) ==> r.status == 304
            && r.body@.len() == 0 && r.content_type is None,
        is_taggable(is_get, res) && !(asked matches Some(h) && names_tag(h, tag)) ==> r.status
            == res.status && r.body@ == res.body@ && r.content_type == res.content_type,
{
}

/// A read that is asked again with the tag it was answered with, and that has
/// not changed since, is answered with nothing but that tag.
pub proof fn a_read_asked_again_is_not_sent_again(
    res: Reply,
    first: Reply,
    again: Reply,
    tag: &str,
    second: Reply,
)
    requires
        call_ensures(layer, (res, true, None::<&str>), first),
        is_taggable(true, res),
        first.etag matches Some(t) && t@ == tag@,
        is_taggable(true, again),
        again.body@ == res.body@,
        call_ensures(layer, (again, true, Some(tag)), second),
    ensures
        first.status == 200,
        first.body@ == res.body@,
        first.content_type == res.content_type,
        second.status == 304,
        second.body@.len() == 0,
        second.etag matches Some(t) && t@ == tag@,
{
    let hash = sha256(res.body@);
    a_tag_is_quoted(hash);
    a_tag_names_itself(hash, hash);
}

/// A tag is written from the hash of the bytes alone: two bodies whose hashes
/// open alike have one tag.
pub proof fn a_tag_is_of_its_bytes(a: &[u8], b: &[u8], x: String, y: String)
    requires
        call_ensures(tag_of, (a,), x),
        call_ensures(tag_of, (b,), y),
    ensures
        a@ == b@ ==> x@ == y@,
        x@ == y@ <==> sha256(a@).take(16) == sha256(b@).take(16),
        x@.len() == 34,
{
    a_tag_tells_hashes_apart(sha256(a@), sha256(b@));
}

} // verus!
