//! One artifact, read in full: what it says, where it came from, what it was
//! written from and what keeps being retrieved beside it.

use crate::corpus_view;
use crate::corpus_view::{slice, CorpusLine, CorpusSlice};
use crate::records::{
    ArtifactStatus, Chunk, Corpus, CorpusSpan, Error, Moment, Provenance, ORPHANED_SOURCE,
};
use crate::text;
use crate::text::{
    any_same, chars_of, decimal_of, is_blank, same, same_but_for_case, signed_of, spell,
};
use vstd::prelude::*;

verus! {

// ---------------------------------------------------------------------------
// What an artifact is called
// ---------------------------------------------------------------------------

/// What a row that is a link and nothing else calls an artifact.
pub struct RowLabel {
    pub text: String,
    /// Whether `text` is a name somebody gave it, rather than the opening of
    /// its text standing in for one.
    pub named: bool,
}

/// The card an artifact is shown as in a list.
pub struct ArtifactView {
    pub id: String,
    /// Empty where the artifact has no name of its own.
    pub title: String,
    pub html: String,
}

/// The name a writer gave a text, or nothing where nobody did.
pub open spec fn own_title(provenance: Provenance, title: Option<String>) -> Seq<char> {
    if provenance.has_own_name() {
        text::or_empty(title)
    } else {
        Seq::empty()
    }
}

/// The name a writer gave this artifact's text, or nothing where nobody did.
pub fn title_of(c: &Chunk) -> (r: String)
    ensures
        r@ == own_title(c.provenance, c.title),
{
    if c.provenance.names_its_own_text() {
        match &c.title {
            Some(t) => t.clone(),
            None => String::new(),
        }
    } else {
        String::new()
    }
}

/// What a list of links calls an artifact: its own name, and where it has none
/// the opening of its text.
pub open spec fn called(c: Chunk) -> Seq<char> {
    let own = own_title(c.provenance, c.title);
    if own.len() > 0 {
        own
    } else {
        c.opening@
    }
}

/// `label` is what a list of links calls an artifact, and `named` says whether
/// that is a name somebody gave it.
pub open spec fn labels(label: Seq<char>, named: bool, c: Chunk) -> bool {
    &&& label == called(c)
    &&& named == (own_title(c.provenance, c.title).len() > 0)
}

/// What a list of links calls an artifact.
pub fn row_label(c: &Chunk) -> (r: RowLabel)
    ensures
        labels(r.text@, r.named, *c),
{
    let own = title_of(c);
    if own.as_str().is_empty() {
        RowLabel { text: c.opening.clone(), named: false }
    } else {
        RowLabel { text: own, named: true }
    }
}

/// `v` is the card of `c`.
pub open spec fn is_card(v: ArtifactView, c: Chunk) -> bool {
    &&& v.id@ == c.id@
    &&& v.title@ == own_title(c.provenance, c.title)
    &&& v.html@ == c.html@
}

/// The card of `c`.
pub fn artifact_view(c: &Chunk) -> (r: ArtifactView)
    ensures
        is_card(r, *c),
{
    ArtifactView { id: c.id.clone(), title: title_of(c), html: c.html.clone() }
}

/// `v` is the cards of `c`, in order.
pub open spec fn are_cards(v: Seq<ArtifactView>, c: Seq<Chunk>) -> bool {
    &&& v.len() == c.len()
    &&& forall|i: int| 0 <= i < v.len() ==> is_card(#[trigger] v[i], c[i])
}

// ---------------------------------------------------------------------------
// Citations
// ---------------------------------------------------------------------------

/// Whether a character is a decimal digit.
pub open spec fn is_digit(c: char) -> bool {
    '0' <= c <= '9'
}

/// How many digits a text opens with.
pub open spec fn digits_ahead(s: Seq<char>) -> nat
    decreases s.len(),
{
    if s.len() > 0 && is_digit(s[0]) {
        1 + digits_ahead(s.skip(1))
    } else {
        0
    }
}

/// What a digit stands for.
pub open spec fn digit_value(c: char) -> nat {
    (c as int - '0' as int) as nat
}

/// The number that digits spell.
pub open spec fn number(digits: Seq<char>) -> nat
    decreases digits.len(),
{
    if digits.len() == 0 {
        0
    } else {
        number(digits.drop_last()) * 10 + digit_value(digits.last())
    }
}

/// The link to excerpt `i`, under the digits it was cited by.
pub open spec fn citation(i: nat, digits: Seq<char>) -> Seq<char> {
    "<a class=\"cite\" href=\"#cite-"@ + text::decimal(i) + "\">["@ + digits + "]</a>"@
}

/// Whether what stands after a bracket is the number of one of `n` excerpts
/// and the closing bracket.
pub open spec fn cites(after: Seq<char>, n: nat) -> bool {
    let d = digits_ahead(after) as int;
    &&& d < after.len()
    &&& after[d] == ']'
    &&& 1 <= number(after.take(d)) <= n
}

/// A run of prose in which each bracket that names one of `n` excerpts is a
/// link to it, and every other bracket is the plain text it is.
pub open spec fn linked(s: Seq<char>, n: nat) -> Seq<char>
    decreases s.len(),
    via linked_shrinks
{
    let open = text::cut(s, '[');
    if open >= s.len() {
        s
    } else {
        let after = s.skip(open + 1);
        let d = digits_ahead(after) as int;
        if cites(after, n) {
            s.take(open) + citation(number(after.take(d)), after.take(d)) + linked(
                after.skip(d + 1),
                n,
            )
        } else {
            s.take(open + 1) + linked(after, n)
        }
    }
}

#[via_fn]
proof fn linked_shrinks(s: Seq<char>, n: nat) {
    text::cut_is_first(s, '[');
    let after = s.skip(text::cut(s, '[') + 1);
    digits_ahead_are(after);
}

/// The digits a text opens with are all digits, and what follows them is none.
pub proof fn digits_ahead_are(s: Seq<char>)
    ensures
        digits_ahead(s) <= s.len(),
        forall|i: int| 0 <= i < digits_ahead(s) ==> is_digit(#[trigger] s[i]),
        digits_ahead(s) < s.len() ==> !is_digit(s[digits_ahead(s) as int]),
    decreases s.len(),
{
    if s.len() > 0 && is_digit(s[0]) {
        let rest = s.skip(1);
        digits_ahead_are(rest);
        assert forall|i: int| 0 <= i < digits_ahead(s) implies is_digit(#[trigger] s[i]) by {
            if i > 0 {
                assert(rest[i - 1] == s[i]);
            }
        }
    }
}

/// The run of digits that a text opens with is what `digits_ahead` counts.
proof fn are_digits_ahead(s: Seq<char>, d: int)
    requires
        0 <= d <= s.len(),
        forall|i: int| 0 <= i < d ==> is_digit(#[trigger] s[i]),
        d < s.len() ==> !is_digit(s[d]),
    ensures
        digits_ahead(s) == d,
{
    digits_ahead_are(s);
    if digits_ahead(s) < d {
        assert(is_digit(s[digits_ahead(s) as int]));
    }
    if d < digits_ahead(s) {
        assert(is_digit(s[d]));
    }
}

/// The bracket scan, over one run of prose between tags.
///
/// The link goes to the number, never to the digits as written: `[01]` cites
/// excerpt one.
pub fn link_text(prose: &str, n: usize) -> (r: String)
    ensures
        r@ == linked(prose@, n as nat),
{
    let v = chars_of(prose);
    let len: usize = v.len();
    let mut out = String::new();
    let mut from: usize = 0;
    assert(v@.skip(0) =~= v@);
    assert(out@ + linked(v@.skip(0), n as nat) =~= linked(v@, n as nat));
    loop
        invariant
            from <= len == v@.len(),
            out@ + linked(v@.skip(from as int), n as nat) == linked(v@, n as nat),
            v@ == prose@,
        decreases len - from,
    {
        let ghost s = v@.skip(from as int);
        let ghost before = out@;
        let mut open: usize = from;
        while open < len && v[open] != '['
            invariant
                from <= open <= len == v@.len(),
                forall|j: int| from <= j < open ==> #[trigger] v@[j] != '[',
            decreases len - open,
        {
            open = open + 1;
        }
        proof {
            assert forall|j: int| 0 <= j < open - from implies #[trigger] s[j] != '[' by {
                assert(s[j] == v@[from + j]);
            }
            text::first_is_cut(s, '[', open - from);
        }
        if open == len {
            let rest = spell(v.as_slice(), from, len);
            assert(rest@ =~= s);
            out.append(rest.as_str());
            return out;
        }
        let ghost after = s.skip(open - from + 1);
        assert(after =~= v@.skip(open + 1));
        // The digits, read as far as they can still be one of the excerpts.
        let mut end: usize = open + 1;
        let mut value: u128 = 0;
        let mut big = false;
        assert(after.take(0) =~= Seq::empty());
        while end < len && '0' <= v[end] && v[end] <= '9'
            invariant
                open < end <= len == v@.len(),
                after == v@.skip(open + 1),
                forall|j: int| 0 <= j < end - open - 1 ==> is_digit(#[trigger] after[j]),
                !big ==> value == number(after.take(end - open - 1)) && value <= n,
                big ==> number(after.take(end - open - 1)) > n,
            decreases len - end,
        {
            let c = v[end];
            let d: u128 = (c as u32 - '0' as u32) as u128;
            proof {
                let was = after.take(end - open - 1);
                let now = after.take(end - open);
                assert(now.drop_last() =~= was);
                assert(now.last() == after[end - open - 1]);
                assert(after[end - open - 1] == v@[end as int]);
                assert(number(now) == number(was) * 10 + digit_value(c));
            }
            if !big {
                value = value * 10 + d;
                if value > n as u128 {
                    big = true;
                }
            }
            end = end + 1;
        }
        let ghost d = end - open - 1;
        proof {
            if end < len {
                assert(after[d] == v@[end as int]);
            }
            are_digits_ahead(after, d);
        }
        if end < len && v[end] == ']' && !big && value >= 1 {
            let ahead = spell(v.as_slice(), from, open);
            let digits = spell(v.as_slice(), open + 1, end);
            proof {
                assert(ahead@ =~= s.take(open - from));
                assert(digits@ =~= after.take(d));
                assert(after[d] == v@[end as int]);
                assert(cites(after, n as nat));
                assert(after.skip(d + 1) =~= v@.skip(end + 1));
            }
            out.append(ahead.as_str());
            out.append("<a class=\"cite\" href=\"#cite-");
            out.append(decimal_of(value as u64).as_str());
            out.append("\">[");
            out.append(digits.as_str());
            out.append("]</a>");
            proof {
                let link = citation(number(after.take(d)), after.take(d));
                assert(out@ =~= before + (s.take(open - from) + link));
                assert(linked(s, n as nat) == s.take(open - from) + link + linked(
                    after.skip(d + 1),
                    n as nat,
                ));
                assert(out@ + linked(v@.skip(end + 1), n as nat) =~= before + linked(s, n as nat));
            }
            from = end + 1;
        } else {
            let ahead = spell(v.as_slice(), from, open + 1);
            proof {
                assert(ahead@ =~= s.take(open - from + 1));
                assert(!cites(after, n as nat));
            }
            out.append(ahead.as_str());
            proof {
                assert(out@ + linked(v@.skip(open + 1), n as nat) =~= before + linked(s, n as nat));
            }
            from = open + 1;
        }
    }
}

/// What a tag is called: the letters after its bracket, and after the slash of
/// one that closes, in lower case.
pub open spec fn tag_name(tag: Seq<char>) -> Seq<char> {
    let inner = if closes(tag) {
        tag.skip(2)
    } else {
        tag.skip(1)
    };
    text::lowered(inner.take(letters_ahead(inner) as int))
}

/// Whether a tag closes what another opened.
pub open spec fn closes(tag: Seq<char>) -> bool {
    tag.len() > 1 && tag[1] == '/'
}

/// How many letters a text opens with.
pub open spec fn letters_ahead(s: Seq<char>) -> nat
    decreases s.len(),
{
    if s.len() > 0 && ('a' <= s[0] <= 'z' || 'A' <= s[0] <= 'Z') {
        1 + letters_ahead(s.skip(1))
    } else {
        0
    }
}

/// How deep in code a text stands after a tag.
pub open spec fn depth_after(depth: nat, tag: Seq<char>) -> nat {
    if tag_name(tag) != "code"@ && tag_name(tag) != "pre"@ {
        depth
    } else if !closes(tag) {
        depth + 1
    } else if depth > 0 {
        (depth - 1) as nat
    } else {
        0
    }
}

/// Markup in which the prose between tags is linked, and neither a tag nor
/// anything inside code is touched.
pub open spec fn linked_markup(s: Seq<char>, n: nat, depth: nat) -> Seq<char>
    decreases s.len(),
    via linked_markup_shrinks
{
    let lt = text::cut(s, '<');
    let prose = if depth > 0 {
        s.take(lt)
    } else {
        linked(s.take(lt), n)
    };
    if lt >= s.len() {
        prose
    } else {
        let rest = s.skip(lt);
        let gt = text::cut(rest, '>');
        if gt >= rest.len() {
            prose + rest
        } else {
            prose + rest.take(gt + 1) + linked_markup(
                rest.skip(gt + 1),
                n,
                depth_after(depth, rest.take(gt + 1)),
            )
        }
    }
}

#[via_fn]
proof fn linked_markup_shrinks(s: Seq<char>, n: nat, depth: nat) {
    text::cut_is_first(s, '<');
    text::cut_is_first(s.skip(text::cut(s, '<')), '>');
}

/// How deep in code a text stands after a tag.
fn step_depth(depth: usize, tag: &str) -> (r: usize)
    requires
        depth < usize::MAX,
        tag@.len() >= 1,
    ensures
        r == depth_after(depth as nat, tag@),
        r <= depth + 1,
{
    proof {
        reveal_strlit("code");
        reveal_strlit("pre");
        assert(text::lowered("code"@) =~= "code"@);
        assert(text::lowered("pre"@) =~= "pre"@);
    }
    let v = chars_of(tag);
    let len: usize = v.len();
    let closing = len > 1 && v[1] == '/';
    let from: usize = if closing {
        2
    } else {
        1
    };
    let ghost inner = v@.skip(from as int);
    let mut to: usize = from;
    assert(inner.skip(0) =~= inner);
    while to < len && (('a' <= v[to] && v[to] <= 'z') || ('A' <= v[to] && v[to] <= 'Z'))
        invariant
            from <= to <= len == v@.len(),
            inner == v@.skip(from as int),
            letters_ahead(inner) == (to - from) + letters_ahead(inner.skip(to - from)),
        decreases len - to,
    {
        assert(inner.skip(to - from)[0] == v@[to as int]);
        assert(inner.skip(to - from).skip(1) =~= inner.skip(to + 1 - from));
        to = to + 1;
    }
    proof {
        if to < len {
            assert(inner.skip(to - from)[0] == v@[to as int]);
        }
        assert(letters_ahead(inner) == to - from);
    }
    let name = spell(v.as_slice(), from, to);
    assert(name@ =~= inner.take(to - from));
    if !same_but_for_case(name.as_str(), "code") && !same_but_for_case(name.as_str(), "pre") {
        depth
    } else if !closing {
        depth + 1
    } else if depth > 0 {
        depth - 1
    } else {
        0
    }
}

/// Turns each `[n]` the answer cites into a link to that excerpt.
///
/// Bounded by `n`, the number of excerpts there are: a link to one that does
/// not exist leads nowhere while reading as a citation that is there. Tags are
/// left alone because an attribute is not prose, and code because `argv[1]` is
/// no citation: a link asserts that an excerpt supports what it wraps, and one
/// that nothing asserted is worse than none.
pub fn link_citations(html: &str, n: usize) -> (r: String)
    ensures
        r@ == linked_markup(html@, n as nat, 0),
{
    if n == 0 {
        proof {
            no_excerpt_no_link(html@, 0);
        }
        return html.to_owned();
    }
    let v = chars_of(html);
    let len: usize = v.len();
    let mut out = String::new();
    let mut from: usize = 0;
    let mut depth: usize = 0;
    assert(v@.skip(0) =~= v@);
    assert(out@ + linked_markup(v@.skip(0), n as nat, 0) =~= linked_markup(v@, n as nat, 0));
    loop
        invariant
            from <= len == v@.len(),
            depth <= from,
            v@ == html@,
            out@ + linked_markup(v@.skip(from as int), n as nat, depth as nat) == linked_markup(
                v@,
                n as nat,
                0,
            ),
        decreases len - from,
    {
        let ghost s = v@.skip(from as int);
        let ghost before = out@;
        let mut lt: usize = from;
        while lt < len && v[lt] != '<'
            invariant
                from <= lt <= len == v@.len(),
                forall|j: int| from <= j < lt ==> #[trigger] v@[j] != '<',
            decreases len - lt,
        {
            lt = lt + 1;
        }
        proof {
            assert forall|j: int| 0 <= j < lt - from implies #[trigger] s[j] != '<' by {
                assert(s[j] == v@[from + j]);
            }
            text::first_is_cut(s, '<', lt - from);
        }
        let plain = spell(v.as_slice(), from, lt);
        assert(plain@ =~= s.take(lt - from));
        let prose = if depth > 0 {
            plain
        } else {
            link_text(plain.as_str(), n)
        };
        out.append(prose.as_str());
        if lt == len {
            return out;
        }
        let ghost rest = s.skip(lt - from);
        assert(rest =~= v@.skip(lt as int));
        let mut gt: usize = lt;
        while gt < len && v[gt] != '>'
            invariant
                lt <= gt <= len == v@.len(),
                forall|j: int| lt <= j < gt ==> #[trigger] v@[j] != '>',
            decreases len - gt,
        {
            gt = gt + 1;
        }
        proof {
            assert forall|j: int| 0 <= j < gt - lt implies #[trigger] rest[j] != '>' by {
                assert(rest[j] == v@[lt + j]);
            }
            text::first_is_cut(rest, '>', gt - lt);
        }
        if gt == len {
            let tail = spell(v.as_slice(), lt, len);
            assert(tail@ =~= rest);
            out.append(tail.as_str());
            assert(out@ =~= before + linked_markup(s, n as nat, depth as nat));
            return out;
        }
        let tag = spell(v.as_slice(), lt, gt + 1);
        assert(tag@ =~= rest.take(gt - lt + 1));
        out.append(tag.as_str());
        let ghost was = depth as nat;
        depth = step_depth(depth, tag.as_str());
        proof {
            assert(rest.skip(gt - lt + 1) =~= v@.skip(gt + 1));
            assert(out@ + linked_markup(v@.skip(gt + 1), n as nat, depth as nat) =~= before
                + linked_markup(s, n as nat, was));
        }
        from = gt + 1;
    }
}

/// Without an excerpt nothing is linked: prose is left as it is.
pub proof fn no_excerpt_no_citation(s: Seq<char>)
    ensures
        linked(s, 0) == s,
    decreases s.len(),
{
    text::cut_is_first(s, '[');
    let open = text::cut(s, '[');
    if open < s.len() {
        let after = s.skip(open + 1);
        no_excerpt_no_citation(after);
        assert(s.take(open + 1) + after =~= s);
    }
}

/// Without an excerpt nothing is linked: markup is left as it is.
pub proof fn no_excerpt_no_link(s: Seq<char>, depth: nat)
    ensures
        linked_markup(s, 0, depth) == s,
    decreases s.len(),
{
    text::cut_is_first(s, '<');
    let lt = text::cut(s, '<');
    no_excerpt_no_citation(s.take(lt));
    if lt >= s.len() {
        assert(s.take(lt) =~= s);
    } else {
        let rest = s.skip(lt);
        text::cut_is_first(rest, '>');
        let gt = text::cut(rest, '>');
        if gt >= rest.len() {
            assert(s.take(lt) + rest =~= s);
        } else {
            no_excerpt_no_link(rest.skip(gt + 1), depth_after(depth, rest.take(gt + 1)));
            assert(s.take(lt) + rest.take(gt + 1) + rest.skip(gt + 1) =~= s);
        }
    }
}

/// Prose without a bracket is left as it is, however many excerpts there are.
pub proof fn no_bracket_no_citation(s: Seq<char>, n: nat)
    requires
        forall|i: int| 0 <= i < s.len() ==> #[trigger] s[i] != '[',
    ensures
        linked(s, n) == s,
{
    text::first_is_cut(s, '[', s.len() as int);
}

/// What stands inside code is left as it is, up to the next tag.
pub proof fn code_is_never_linked(s: Seq<char>, n: nat, depth: nat)
    requires
        depth > 0,
        forall|i: int| 0 <= i < s.len() ==> #[trigger] s[i] != '<',
    ensures
        linked_markup(s, n, depth) == s,
{
    text::first_is_cut(s, '<', s.len() as int);
    assert(s.take(s.len() as int) =~= s);
}

/// A tag is left as it is, whatever stands in it, and what follows it is
/// linked as if it stood alone.
pub proof fn a_tag_is_never_linked(tag: Seq<char>, rest: Seq<char>, n: nat, depth: nat)
    requires
        tag.len() >= 2,
        tag[0] == '<',
        tag.last() == '>',
        forall|i: int| 0 <= i < tag.len() - 1 ==> #[trigger] tag[i] != '>',
    ensures
        linked_markup(tag + rest, n, depth) == tag + linked_markup(
            rest,
            n,
            depth_after(depth, tag),
        ),
{
    let s = tag + rest;
    text::first_is_cut(s, '<', 0);
    assert(s.skip(0) =~= s);
    assert(s.take(0) =~= Seq::<char>::empty());
    no_bracket_no_citation(s.take(0), n);
    text::first_is_cut(s, '>', tag.len() - 1);
    assert(s.take(tag.len() as int) =~= tag);
    assert(s.skip(tag.len() as int) =~= rest);
    assert(s.take(0) + tag =~= tag);
}

/// What a reader sees of markup: everything but the tags. What opens like a tag
/// and never ends is seen as it is.
pub open spec fn shown(s: Seq<char>) -> Seq<char>
    decreases s.len(),
    via shown_shrinks
{
    let lt = text::cut(s, '<');
    if lt >= s.len() {
        s
    } else {
        let rest = s.skip(lt);
        let gt = text::cut(rest, '>');
        if gt >= rest.len() {
            s
        } else {
            s.take(lt) + shown(rest.skip(gt + 1))
        }
    }
}

#[via_fn]
proof fn shown_shrinks(s: Seq<char>) {
    text::cut_is_first(s, '<');
    text::cut_is_first(s.skip(text::cut(s, '<')), '>');
}

/// Plain text ahead of markup is seen as it is.
proof fn shown_after_plain(plain: Seq<char>, rest: Seq<char>)
    requires
        forall|i: int| 0 <= i < plain.len() ==> #[trigger] plain[i] != '<',
    ensures
        shown(plain + rest) == plain + shown(rest),
{
    let s = plain + rest;
    text::cut_is_first(rest, '<');
    let lt = text::cut(rest, '<');
    assert forall|i: int| 0 <= i < plain.len() + lt implies #[trigger] s[i] != '<' by {
        if i < plain.len() {
            assert(s[i] == plain[i]);
        } else {
            assert(s[i] == rest[i - plain.len()]);
        }
    }
    if lt < rest.len() {
        assert(s[plain.len() + lt] == rest[lt]);
    }
    text::first_is_cut(s, '<', plain.len() + lt);
    if lt < rest.len() {
        assert(s.skip(plain.len() + lt) =~= rest.skip(lt));
        assert(s.take(plain.len() + lt) =~= plain + rest.take(lt));
        let after = rest.skip(lt);
        let gt = text::cut(after, '>');
        if gt < after.len() {
            assert(shown(s) =~= plain + shown(rest));
        }
    }
}

/// A tag ahead of markup is not seen.
proof fn shown_after_tag(tag: Seq<char>, rest: Seq<char>)
    requires
        tag.len() >= 2,
        tag[0] == '<',
        tag.last() == '>',
        forall|i: int| 0 <= i < tag.len() - 1 ==> #[trigger] tag[i] != '>',
    ensures
        shown(tag + rest) == shown(rest),
{
    let s = tag + rest;
    text::first_is_cut(s, '<', 0);
    assert(s.skip(0) =~= s);
    assert(s.take(0) =~= Seq::<char>::empty());
    text::first_is_cut(s, '>', tag.len() - 1);
    assert(s.skip(tag.len() as int) =~= rest);
    assert(s.take(0) + shown(rest) =~= shown(rest));
}

/// The tag that opens the link to excerpt `i`.
pub open spec fn opening(i: nat) -> Seq<char> {
    "<a class=\"cite\" href=\"#cite-"@ + text::decimal(i) + "\">"@
}

/// The tag that opens a link is a tag, and holds no other.
proof fn opening_is_a_tag(i: nat)
    ensures
        opening(i).len() >= 2,
        opening(i)[0] == '<',
        opening(i)[1] == 'a',
        opening(i).last() == '>',
        forall|k: int|
            0 <= k < opening(i).len() - 1 ==> #[trigger] opening(i)[k] != '>' && (k > 0
                ==> opening(i)[k] != '<'),
{
    reveal_strlit("<a class=\"cite\" href=\"#cite-");
    reveal_strlit("\">");
    text::decimal_is_digits(i);
    let a = "<a class=\"cite\" href=\"#cite-"@;
    let d = text::decimal(i);
    assert forall|k: int| 0 <= k < opening(i).len() - 1 implies #[trigger] opening(i)[k] != '>'
        && (k > 0 ==> opening(i)[k] != '<') by {
        if k < a.len() {
            assert(opening(i)[k] == a[k]);
        } else if k < a.len() + d.len() {
            assert(opening(i)[k] == d[k - a.len()]);
        }
    }
}

/// A link is the tag that opens it, the citation as it was written, and the tag
/// that closes it.
proof fn citation_is_wrapped(i: nat, digits: Seq<char>)
    ensures
        citation(i, digits) == opening(i) + ("["@ + digits + "]"@) + "</a>"@,
{
    reveal_strlit("<a class=\"cite\" href=\"#cite-");
    reveal_strlit("\">");
    reveal_strlit("\">[");
    reveal_strlit("]</a>");
    reveal_strlit("[");
    reveal_strlit("]");
    reveal_strlit("</a>");
    assert("\">["@ =~= "\">"@ + "["@);
    assert("]</a>"@ =~= "]"@ + "</a>"@);
    assert(citation(i, digits) =~= opening(i) + ("["@ + digits + "]"@) + "</a>"@);
}

/// A link ahead of markup is seen as the citation it was written as.
proof fn shown_after_link(i: nat, digits: Seq<char>, rest: Seq<char>)
    requires
        forall|k: int| 0 <= k < digits.len() ==> is_digit(#[trigger] digits[k]),
    ensures
        shown(citation(i, digits) + rest) == seq!['['] + digits + seq![']'] + shown(rest),
{
    let cited = seq!['['] + digits + seq![']'];
    let close = "</a>"@;
    reveal_strlit("[");
    reveal_strlit("]");
    reveal_strlit("</a>");
    assert("["@ + digits + "]"@ =~= cited);
    citation_is_wrapped(i, digits);
    opening_is_a_tag(i);
    assert forall|k: int| 0 <= k < cited.len() implies #[trigger] cited[k] != '<' by {
        if 0 < k < cited.len() - 1 {
            assert(cited[k] == digits[k - 1]);
        }
    }
    shown_after_tag(close, rest);
    shown_after_plain(cited, close + rest);
    shown_after_tag(opening(i), cited + (close + rest));
    assert(citation(i, digits) + rest =~= opening(i) + (cited + (close + rest)));
}

/// Prose that cites: what stands ahead of the citation, the citation, and what
/// follows it.
proof fn prose_is_parted(s: Seq<char>, open: int, d: int)
    requires
        0 <= open < s.len(),
        s[open] == '[',
        0 <= d < s.skip(open + 1).len(),
        s.skip(open + 1)[d] == ']',
    ensures
        s == s.take(open) + (seq!['['] + s.skip(open + 1).take(d) + seq![']'] + s.skip(
            open + 1,
        ).skip(d + 1)),
{
    let after = s.skip(open + 1);
    assert(after =~= after.take(d) + seq![']'] + after.skip(d + 1));
    assert(s =~= s.take(open) + seq!['['] + after);
    assert(s =~= s.take(open) + (seq!['['] + after.take(d) + seq![']'] + after.skip(d + 1)));
}

/// Linking prose changes no word of it: without the tags of the links, it reads
/// as it was written.
#[verifier::spinoff_prover]
#[verifier::rlimit(40)]
pub proof fn linking_keeps_every_word(s: Seq<char>, n: nat, rest: Seq<char>)
    requires
        forall|i: int| 0 <= i < s.len() ==> #[trigger] s[i] != '<',
    ensures
        shown(linked(s, n) + rest) == s + shown(rest),
    decreases s.len(),
{
    text::cut_is_first(s, '[');
    let open = text::cut(s, '[');
    if open >= s.len() {
        shown_after_plain(s, rest);
    } else {
        let after = s.skip(open + 1);
        let d = digits_ahead(after) as int;
        digits_ahead_are(after);
        if cites(after, n) {
            let digits = after.take(d);
            let tail = after.skip(d + 1);
            let head = s.take(open);
            let link = citation(number(digits), digits);
            let cited = seq!['['] + digits + seq![']'];
            let last = linked(tail, n) + rest;
            assert forall|j: int| 0 <= j < tail.len() implies #[trigger] tail[j] != '<' by {
                assert(tail[j] == s[open + 1 + d + 1 + j]);
            }
            linking_keeps_every_word(tail, n, rest);
            assert forall|k: int| 0 <= k < digits.len() implies is_digit(#[trigger] digits[k]) by {
                assert(digits[k] == after[k]);
            }
            shown_after_link(number(digits), digits, last);
            shown_after_plain(head, link + last);
            assert(linked(s, n) == head + link + linked(tail, n));
            assert(linked(s, n) + rest =~= head + (link + last));
            prose_is_parted(s, open, d);
            assert(head + (cited + (tail + shown(rest))) =~= head + (cited + tail) + shown(rest));
        } else {
            let head = s.take(open + 1);
            assert forall|j: int| 0 <= j < after.len() implies #[trigger] after[j] != '<' by {
                assert(after[j] == s[open + 1 + j]);
            }
            linking_keeps_every_word(after, n, rest);
            shown_after_plain(head, linked(after, n) + rest);
            assert(linked(s, n) == head + linked(after, n));
            assert(linked(s, n) + rest =~= head + (linked(after, n) + rest));
            assert(head + (after + shown(rest)) =~= s + shown(rest));
        }
    }
}

/// Linking a page changes no word of it: what a reader sees is what the answer
/// said, whether or not it is linked.
pub proof fn a_linked_page_says_the_same(s: Seq<char>, n: nat, depth: nat)
    ensures
        shown(linked_markup(s, n, depth)) == shown(s),
    decreases s.len(),
{
    text::cut_is_first(s, '<');
    let lt = text::cut(s, '<');
    let plain = s.take(lt);
    assert forall|j: int| 0 <= j < plain.len() implies #[trigger] plain[j] != '<' by {
        assert(plain[j] == s[j]);
    }
    let prose = if depth > 0 {
        plain
    } else {
        linked(plain, n)
    };
    let none = Seq::<char>::empty();
    if lt >= s.len() {
        assert(plain =~= s);
        text::first_is_cut(none, '<', 0);
        linking_keeps_every_word(plain, n, none);
        assert(linked(plain, n) + none =~= linked(plain, n));
        assert(plain + shown(none) =~= plain);
    } else {
        let rest = s.skip(lt);
        assert(s =~= plain + rest);
        shown_after_plain(plain, rest);
        text::cut_is_first(rest, '>');
        let gt = text::cut(rest, '>');
        if gt >= rest.len() {
            linking_keeps_every_word(plain, n, rest);
        } else {
            let tag = rest.take(gt + 1);
            let more = rest.skip(gt + 1);
            let next = depth_after(depth, tag);
            let last = linked_markup(more, n, next);
            a_linked_page_says_the_same(more, n, next);
            assert(rest =~= tag + more);
            assert(tag[0] == s[lt]);
            assert forall|j: int| 0 <= j < tag.len() - 1 implies #[trigger] tag[j] != '>' by {
                assert(tag[j] == rest[j]);
            }
            shown_after_tag(tag, more);
            shown_after_tag(tag, last);
            linking_keeps_every_word(plain, n, tag + last);
            shown_after_plain(plain, tag + last);
            assert(linked_markup(s, n, depth) =~= prose + (tag + last));
        }
    }
}

/// Every link that linking puts into prose leads to an excerpt there is: where
/// a link opens, it is one to a number from one to `n`.
pub proof fn a_link_leads_to_an_excerpt(s: Seq<char>, n: nat, at: int)
    requires
        forall|i: int| 0 <= i < s.len() ==> #[trigger] s[i] != '<',
        0 <= at < linked(s, n).len() - 1,
        linked(s, n)[at] == '<',
        linked(s, n)[at + 1] == 'a',
    ensures
        exists|i: nat|
            1 <= i <= n && #[trigger] opening(i).is_prefix_of(linked(s, n).skip(at)),
    decreases s.len(),
{
    text::cut_is_first(s, '[');
    let open = text::cut(s, '[');
    let out = linked(s, n);
    if open >= s.len() {
        assert(out[at] == s[at]);
    } else {
        let after = s.skip(open + 1);
        let d = digits_ahead(after) as int;
        digits_ahead_are(after);
        assert forall|i: int| 0 <= i < after.len() implies #[trigger] after[i] != '<' by {
            assert(after[i] == s[open + 1 + i]);
        }
        if cites(after, n) {
            let digits = after.take(d);
            let tail = after.skip(d + 1);
            let i = number(digits);
            let head = s.take(open);
            let link = citation(i, digits);
            let cited = "["@ + digits + "]"@;
            assert forall|j: int| 0 <= j < tail.len() implies #[trigger] tail[j] != '<' by {
                assert(tail[j] == after[d + 1 + j]);
            }
            reveal_strlit("[");
            reveal_strlit("]");
            reveal_strlit("</a>");
            citation_is_wrapped(i, digits);
            opening_is_a_tag(i);
            if at < head.len() {
                assert(out[at] == head[at]);
                assert(head[at] == s[at]);
            } else if at < head.len() + link.len() {
                let k = at - head.len();
                assert(out[at] == link[k]);
                if k == 0 {
                    assert(out.skip(at).take(opening(i).len() as int) =~= opening(i));
                    assert(opening(i).is_prefix_of(out.skip(at)));
                } else if k < opening(i).len() {
                    assert(link[k] == opening(i)[k]);
                } else if k < opening(i).len() + cited.len() {
                    let c = k - opening(i).len();
                    assert(link[k] == cited[c]);
                    if 0 < c < cited.len() - 1 {
                        assert(cited[c] == digits[c - 1]);
                        assert(is_digit(after[c - 1]));
                    }
                } else {
                    let c = k - opening(i).len() - cited.len();
                    assert(link[k] == "</a>"@[c]);
                    assert(c == 0);
                    assert(link[k + 1] == "</a>"@[1]);
                    assert(out[at + 1] == link[k + 1]);
                }
            } else {
                let to = at - head.len() - link.len();
                assert(out[at] == linked(tail, n)[to]);
                assert(out[at + 1] == linked(tail, n)[to + 1]);
                a_link_leads_to_an_excerpt(tail, n, to);
                let j = choose|j: nat|
                    1 <= j <= n && #[trigger] opening(j).is_prefix_of(linked(tail, n).skip(to));
                assert(out.skip(at) =~= linked(tail, n).skip(to));
                assert(opening(j).is_prefix_of(out.skip(at)));
            }
        } else {
            let head = s.take(open + 1);
            if at < head.len() {
                assert(out[at] == head[at]);
                assert(head[at] == s[at]);
            } else {
                let to = at - head.len();
                assert(out[at] == linked(after, n)[to]);
                assert(out[at + 1] == linked(after, n)[to + 1]);
                a_link_leads_to_an_excerpt(after, n, to);
                let j = choose|j: nat|
                    1 <= j <= n && #[trigger] opening(j).is_prefix_of(linked(after, n).skip(to));
                assert(out.skip(at) =~= linked(after, n).skip(to));
                assert(opening(j).is_prefix_of(out.skip(at)));
            }
        }
    }
}

// ---------------------------------------------------------------------------
// The pane
// ---------------------------------------------------------------------------

/// Neighbours shown beside an artifact: a way out of the pane rather than a
/// second list of results.
pub const RELATED_LIMIT: usize = 5;

/// How many lines of context stand either side of an artifact's own.
pub const PANE_CONTEXT: usize = 3;

/// How much of a probe's question its line shows.
pub const PROBE_CHARS: usize = 64;

/// What the vector store keeps beside a vector.
pub struct VectorPayload {
    pub artifact_id: String,
    pub corpus_id: String,
    pub text: String,
    pub title: Option<String>,
    pub category: Option<String>,
    pub tags: Vec<String>,
    pub created_at: i64,
    pub provenance: Option<String>,
    /// The opening of `text`, as a row shows it.
    pub snippet: String,
}

impl Default for VectorPayload {
    fn default() -> (r: Self)
        ensures
            r.artifact_id@.len() == 0,
            r.corpus_id@.len() == 0,
            r.text@.len() == 0,
            r.title is None,
            r.category is None,
            r.tags@.len() == 0,
            r.created_at == 0,
            r.provenance is None,
            r.snippet@.len() == 0,
    {
        VectorPayload {
            artifact_id: String::new(),
            corpus_id: String::new(),
            text: String::new(),
            title: None,
            category: None,
            tags: Vec::new(),
            created_at: 0,
            provenance: None,
            snippet: String::new(),
        }
    }
}

/// A neighbour, as one line in the pane.
pub struct RelatedArtifact {
    pub id: String,
    pub title: String,
    pub snippet: String,
}

/// A link, as one line in the pane: not what this artifact resembles, but what
/// it has been needed alongside.
pub struct SeenTogether {
    pub id: String,
    pub title: String,
    pub snippet: String,
    /// The judge's line, or the question that bound the pair.
    pub why: Option<String>,
    pub corpus_title: String,
    /// Two documents needing each other is the finding; two passages of one
    /// document needing each other is not.
    pub cross_corpus: bool,
}

/// The artifact at the other end of a link.
pub struct LinkedArtifact {
    pub chunk: Chunk,
    /// The opening of its text, as a row shows it.
    pub snippet: String,
    /// The title of the source it was written from, where that is known.
    pub corpus_title: Option<String>,
}

/// A link, as the store keeps it.
pub struct LinkRow {
    /// The artifact at its other end, where there still is one.
    pub other: Option<LinkedArtifact>,
    /// The judge's line.
    pub reason: Option<String>,
    /// The questions that bound the pair.
    pub cues: Vec<String>,
    pub cross_corpus: bool,
}

/// What the base found when an artifact arrived.
#[derive(Clone, Copy, PartialEq, Eq, Structural, Debug)]
pub enum Tag {
    Novel,
    Known,
    Conflict,
}

/// What the base found when an artifact arrived, and beside what.
pub struct Integration {
    pub tag: Tag,
    /// What was nearest, under its short name.
    pub nearest: Option<String>,
    pub detail: Option<String>,
}

/// A question that an artifact is rehearsed with.
pub struct Probe {
    pub class: String,
    pub query: String,
    /// Where it last found the artifact: none where it was never asked, and
    /// no rank where it did not find it.
    pub last: Option<Option<i64>>,
}

/// An artifact beside one, of the same source.
pub struct Adjacent {
    pub id: String,
    pub ordinal: i64,
}

/// What is read to show an artifact. `L` is how it came to be, as that is
/// shown.
///
/// The layers over an artifact are none where they could not be read: how it
/// came to be, what is near it, what it is linked with, what stands beside it
/// in its source, and when it is due. They can only ever add to the pane.
pub struct PaneRows<L> {
    /// The artifact, where there is one.
    pub chunk: Option<Chunk>,
    /// The source it names, where that is still there.
    pub corpus: Option<Corpus>,
    pub lineage: Option<L>,
    /// How an artifact came to be of which nothing is known.
    pub no_lineage: L,
    /// The nearest artifacts, the nearest first.
    pub neighbours: Option<Vec<VectorPayload>>,
    /// Whether links are being learned at all.
    pub associating: bool,
    pub links: Option<Vec<LinkRow>>,
    /// Whether the text stops in the middle of a sentence.
    pub mid_sentence: bool,
    pub adjacent: Option<Vec<Adjacent>>,
    /// Its open reminder, where it has one.
    pub due: Option<Option<Moment>>,
    /// How far off the instant is at which that is effectively due, in words.
    pub due_in: Option<String>,
    pub integration: Option<Integration>,
    pub probes: Vec<Probe>,
    pub versions: Vec<(i64, String, String)>,
    pub condensed: Option<String>,
}

/// An artifact beside the source lines it claims.
pub struct ArtifactDetail<L> {
    pub id: String,
    /// The name a writer gave this text, or empty where nobody did.
    pub title: String,
    /// What a list of names calls this artifact.
    pub tab: String,
    pub html: String,
    pub category: Option<String>,
    pub tags: Vec<String>,
    pub flags: Vec<String>,
    pub flag_detail: Option<String>,
    /// The artifact this one was hidden in favour of.
    pub superseded_by: Option<String>,
    pub status: ArtifactStatus,
    pub last_verified_at: Option<i64>,
    pub caveats: Vec<String>,
    pub corpus_id: Option<String>,
    /// What is edited; `html` is what is read.
    pub text: String,
    pub lineage: L,
    /// Which of the two panes to show: one with a source, or one with what the
    /// artifact was written from.
    pub merged: bool,
    pub synthesized: bool,
    pub cues: Vec<String>,
    /// One of what it was written from is gone.
    pub orphaned_source: bool,
    /// Its source was never captured here.
    pub corpus_restored: bool,
    /// The search this was opened from.
    pub search_event: Option<String>,
    /// Where the source is, at the lines this was drawn from.
    pub source_at_lines: String,
    /// The next passage of the same source, when this one stops in the middle
    /// of a sentence.
    pub continues_at: Option<String>,
    pub segment_idx: Option<i64>,
    pub slice_label: String,
    pub slice_lines: Vec<CorpusLine>,
    /// Query terms to highlight.
    pub terms: String,
    pub related: Vec<RelatedArtifact>,
    pub seen_together: Vec<SeenTogether>,
    /// What the base found when this arrived, as a sentence.
    pub tag: Option<String>,
    /// The probes for this artifact, one line each.
    pub probes: Vec<String>,
    /// Earlier versions: number, when, and what takes the change back.
    pub versions: Vec<(i64, String, String)>,
    /// What puts the last version back.
    pub condensed: Option<String>,
    /// When its open reminder is effectively due.
    pub due_at: Option<i64>,
    /// How far off that is, in words.
    pub due_in: Option<String>,
}

impl<L> ArtifactDetail<L> {
    /// Whether a search may still return it.
    pub fn in_results(&self) -> (r: bool)
        ensures
            r == crate::records::in_results_spec(self.status, self.superseded_by is Some),
    {
        match self.status {
            ArtifactStatus::Active => self.superseded_by.is_none(),
            ArtifactStatus::Deprecated => false,
        }
    }
}

/// The page around the pane.
pub struct ArtifactDetailPage<L> {
    pub d: ArtifactDetail<L>,
}

impl<L> ArtifactDetailPage<L> {
    /// Which entry of the top row is current: one result, opened out of the
    /// list, is still the search half of the app.
    pub fn section(&self) -> (r: &'static str)
        ensures
            r@ == "search"@,
    {
        "search"
    }
}

/// What the list of neighbours calls one: the same rule as a row's, read off
/// what the vector store keeps.
pub open spec fn neighbour_named(p: VectorPayload) -> Seq<char> {
    match p.provenance {
        Some(w) => own_title(Provenance::named(w@), p.title),
        None => text::or_empty(p.title),
    }
}

/// What the list of neighbours calls one.
pub fn neighbour_title(p: &VectorPayload) -> (r: String)
    ensures
        r@ == neighbour_named(*p),
{
    let names_itself = match &p.provenance {
        Some(w) => Provenance::parse(w.as_str()).names_its_own_text(),
        None => true,
    };
    if names_itself {
        match &p.title {
            Some(t) => t.clone(),
            None => String::new(),
        }
    } else {
        String::new()
    }
}

/// `v` is the neighbours `p`, in order.
pub open spec fn are_related(v: Seq<RelatedArtifact>, p: Seq<VectorPayload>) -> bool {
    &&& v.len() == p.len()
    &&& forall|i: int|
        0 <= i < v.len() ==> {
            &&& (#[trigger] v[i]).id@ == p[i].artifact_id@
            &&& v[i].title@ == neighbour_named(p[i])
            &&& v[i].snippet@ == p[i].snippet@
        }
}

/// Why two artifacts are linked: the judge's line where there is one, and
/// otherwise the question that bound them.
pub open spec fn why_linked(l: LinkRow) -> Option<Seq<char>> {
    match l.reason {
        Some(r) => Some(r@),
        None => if l.cues@.len() > 0 {
            Some("when asking: "@ + l.cues@[0]@)
        } else {
            None
        },
    }
}

/// What the source of an artifact is called; one written from others belongs
/// to no source, which is worth saying.
pub open spec fn source_called(o: LinkedArtifact) -> Seq<char> {
    match o.chunk.corpus_id {
        Some(_) => match o.corpus_title {
            Some(t) => t@,
            None => "untitled"@,
        },
        None => "merged"@,
    }
}

/// `v` is the link `l`.
pub open spec fn is_seen(v: SeenTogether, l: LinkRow) -> bool {
    &&& l.other matches Some(o)
    &&& v.id@ == o.chunk.id@
    &&& v.title@ == own_title(o.chunk.provenance, o.chunk.title)
    &&& v.snippet@ == o.snippet@
    &&& text::text_of(v.why) == why_linked(l)
    &&& v.corpus_title@ == source_called(o)
    &&& v.cross_corpus == l.cross_corpus
}

/// The links that are shown: of the first few, those whose other end there
/// still is; and none where links are not being learned.
pub open spec fn shown_links(links: Seq<LinkRow>, associating: bool) -> Seq<LinkRow> {
    let first = if links.len() < RELATED_LIMIT {
        links
    } else {
        links.take(RELATED_LIMIT as int)
    };
    if associating {
        first.filter(|l: LinkRow| l.other is Some)
    } else {
        Seq::empty()
    }
}

/// `v` is the links `l`, in order.
pub open spec fn are_seen(v: Seq<SeenTogether>, l: Seq<LinkRow>) -> bool {
    &&& v.len() == l.len()
    &&& forall|i: int| 0 <= i < v.len() ==> is_seen(#[trigger] v[i], l[i])
}

/// Where the source of an artifact is, at the lines it names.
pub open spec fn source_address(
    corpus_id: Option<String>,
    span: Option<CorpusSpan>,
) -> Seq<char> {
    match corpus_id {
        Some(cid) => match span {
            Some(sp) => "/ui/corpora/"@ + cid@ + "?from="@ + text::signed(sp.start_line as int)
                + "&to="@ + text::signed(sp.end_line as int) + "#L"@ + text::signed(
                sp.start_line as int,
            ),
            None => "/ui/corpora/"@ + cid@,
        },
        None => Seq::empty(),
    }
}

/// The first of some artifacts that comes after a place.
pub open spec fn first_after(adjacent: Seq<Adjacent>, ordinal: i64) -> Option<Seq<char>>
    decreases adjacent.len(),
{
    if adjacent.len() == 0 {
        None
    } else if adjacent[0].ordinal > ordinal {
        Some(adjacent[0].id@)
    } else {
        first_after(adjacent.skip(1), ordinal)
    }
}

/// Where a text that stops in the middle of a sentence goes on.
pub open spec fn goes_on_at(
    corpus_id: Option<String>,
    mid_sentence: bool,
    adjacent: Seq<Adjacent>,
    ordinal: i64,
) -> Option<Seq<char>> {
    if corpus_id is Some && mid_sentence {
        first_after(adjacent, ordinal)
    } else {
        None
    }
}

/// What the base found when an artifact arrived, as a sentence.
pub open spec fn tag_sentence(i: Integration) -> Seq<char> {
    match i.tag {
        Tag::Novel => "When it arrived, nothing in the base was near it."@,
        Tag::Known => "When it arrived, the base already held something like it"@ + (
        match i.nearest {
            Some(n) => " ("@ + n@ + ")"@,
            None => Seq::empty(),
        }) + "."@,
        Tag::Conflict => "When it arrived, it disagreed with something the base held: "@
            + text::or_empty(i.detail),
    }
}

/// The line of a probe: its class, its question shortened, and where it last
/// found the artifact.
pub open spec fn probe_line(p: Probe) -> Seq<char> {
    let q = if p.query@.len() > PROBE_CHARS {
        p.query@.take(PROBE_CHARS as int) + "…"@
    } else {
        p.query@
    };
    p.class@ + " · “"@ + q + "” · "@ + (match p.last {
        Some(Some(rank)) => "rank "@ + text::signed(rank as int),
        Some(None) => "not found"@,
        None => "not yet rehearsed"@,
    })
}

/// `v` is the lines of the probes `p`, in order.
pub open spec fn are_probe_lines(v: Seq<String>, p: Seq<Probe>) -> bool {
    &&& v.len() == p.len()
    &&& forall|i: int| 0 <= i < v.len() ==> (#[trigger] v[i])@ == probe_line(p[i])
}

/// When an open reminder is effectively due: when it was put aside until, and
/// otherwise when it is due. One without a time has none.
pub open spec fn effective(m: Option<Moment>) -> Option<i64> {
    match m {
        Some(m) => match m.snoozed_until {
            Some(t) => Some(t),
            None => m.at,
        },
        None => None,
    }
}

/// When an open reminder is effectively due. The pane and the row beside it
/// say the same of one reminder.
pub fn due_instant(m: Option<&Moment>) -> (r: Option<i64>)
    ensures
        r == effective(
            match m {
                Some(x) => Some(*x),
                None => None,
            },
        ),
{
    match m {
        Some(m) => match m.snoozed_until {
            Some(t) => Some(t),
            None => m.at,
        },
        None => None,
    }
}

/// What is said of how far off a reminder is: nothing of none, and nothing of
/// one without a time.
pub open spec fn off_said(m: Option<Moment>, words: Option<String>) -> Option<String> {
    if effective(m) is Some {
        words
    } else {
        None
    }
}

/// What is said of how far off a reminder is.
pub fn how_far_off(m: Option<&Moment>, words: Option<String>) -> (r: Option<String>)
    ensures
        r == off_said(
            match m {
                Some(x) => Some(*x),
                None => None,
            },
            words,
        ),
{
    if due_instant(m).is_some() {
        words
    } else {
        None
    }
}

/// What the pane shows beside the text: the lines the artifact was drawn from
/// and a little around them, and nothing for one without a source.
pub open spec fn is_beside(
    label: Seq<char>,
    lines: Seq<CorpusLine>,
    corpus: Option<Corpus>,
    span: Option<CorpusSpan>,
) -> bool {
    match corpus {
        None => label.len() == 0 && lines.len() == 0,
        Some(c) => {
            let all = text::lines(c.raw_text@);
            match span {
                None => {
                    &&& corpus_view::is_run(
                        lines,
                        all,
                        1,
                        if all.len() < corpus_view::HEADLESS_PREVIEW_LINES {
                            all.len() as int
                        } else {
                            corpus_view::HEADLESS_PREVIEW_LINES as int
                        },
                        None,
                    )
                    &&& label == corpus_view::headless_label(c.origin@)
                },
                Some(s) => {
                    &&& corpus_view::is_run(
                        lines,
                        all,
                        corpus_view::slice_first(s, PANE_CONTEXT as int),
                        corpus_view::slice_last(s, PANE_CONTEXT as int, all.len() as int),
                        Some((s.start_line, s.end_line)),
                    )
                    &&& label == corpus_view::span_label(c.origin@, s)
                },
            }
        },
    }
}

/// The rows of a layer, none of them where it could not be read.
pub open spec fn layer<T>(rows: Option<Vec<T>>) -> Seq<T> {
    match rows {
        Some(v) => v@,
        None => Seq::empty(),
    }
}

/// The rows of a layer.
fn layer_of<T>(rows: Option<Vec<T>>) -> (r: Vec<T>)
    ensures
        r@ == layer(rows),
{
    match rows {
        Some(v) => v,
        None => Vec::new(),
    }
}

/// The reminder that is known of, none where that could not be read.
pub open spec fn due_known(due: Option<Option<Moment>>) -> Option<Moment> {
    match due {
        Some(m) => m,
        None => None,
    }
}

/// The source beside an artifact: the one it names, and none for an artifact
/// that was written from others.
pub open spec fn source_of(c: Chunk, corpus: Option<Corpus>) -> Option<Corpus> {
    if c.corpus_id is Some {
        corpus
    } else {
        None
    }
}

/// What a request for the pane is answered: that there is no such artifact, or
/// no such source as it names; and otherwise the pane, whichever of its layers
/// could be read.
pub open spec fn is_pane<L>(
    r: Result<ArtifactDetail<L>, Error>,
    rows: PaneRows<L>,
    terms: Seq<char>,
) -> bool {
    match rows.chunk {
        None => r matches Err(Error::NotFound),
        Some(c) => if c.corpus_id is Some && rows.corpus is None {
            r matches Err(Error::NotFound)
        } else {
            r matches Ok(d) && is_detail(d, c, rows, terms)
        },
    }
}

/// What the pane shows of the artifact `c`.
pub open spec fn is_detail<L>(
    d: ArtifactDetail<L>,
    c: Chunk,
    rows: PaneRows<L>,
    terms: Seq<char>,
) -> bool {
    let corpus = source_of(c, rows.corpus);
    &&& d.id == c.id
    &&& d.title@ == own_title(c.provenance, c.title)
    &&& d.tab@ == called(c)
    &&& d.html == c.html
    &&& d.category == c.category
    &&& d.tags == c.tags
    &&& d.flags == c.flags
    &&& d.flag_detail == c.flag_detail
    &&& d.superseded_by == c.superseded_by
    &&& d.status == c.status
    &&& d.last_verified_at == c.last_verified_at
    &&& d.caveats == c.caveats
    &&& d.corpus_id == c.corpus_id
    &&& d.text == c.text
    &&& d.lineage == (match rows.lineage {
        Some(l) => l,
        None => rows.no_lineage,
    })
    &&& d.merged == c.provenance.is_written()
    &&& d.synthesized == (c.provenance == Provenance::Synthesized)
    &&& d.cues == c.cues
    &&& d.orphaned_source == text::texts(c.flags@).contains(ORPHANED_SOURCE@)
    &&& d.corpus_restored == (corpus matches Some(s) && s.restored_at is Some)
    &&& d.search_event is None
    &&& d.source_at_lines@ == source_address(c.corpus_id, c.corpus_span)
    &&& text::text_of(d.continues_at) == goes_on_at(
        c.corpus_id,
        rows.mid_sentence,
        layer(rows.adjacent),
        c.ordinal,
    )
    &&& d.segment_idx == c.segment_idx
    &&& is_beside(d.slice_label@, d.slice_lines@, corpus, c.corpus_span)
    &&& d.terms@ == terms
    &&& are_related(d.related@, layer(rows.neighbours))
    &&& are_seen(d.seen_together@, shown_links(layer(rows.links), rows.associating))
    &&& match rows.integration {
        Some(i) => text::text_of(d.tag) == Some(tag_sentence(i)),
        None => d.tag is None,
    }
    &&& are_probe_lines(d.probes@, rows.probes@)
    &&& d.versions == rows.versions
    &&& d.condensed == rows.condensed
    &&& d.due_at == effective(due_known(rows.due))
    &&& d.due_in == off_said(due_known(rows.due), rows.due_in)
}

/// The neighbours, as lines in the pane.
fn related_of(neighbours: Vec<VectorPayload>) -> (r: Vec<RelatedArtifact>)
    ensures
        are_related(r@, neighbours@),
{
    let ghost all = neighbours@;
    let mut r: Vec<RelatedArtifact> = Vec::new();
    for p in it: neighbours
        invariant
            it.seq() == all,
            r@.len() == it.index(),
            forall|i: int|
                0 <= i < r@.len() ==> {
                    &&& (#[trigger] r@[i]).id@ == all[i].artifact_id@
                    &&& r@[i].title@ == neighbour_named(all[i])
                    &&& r@[i].snippet@ == all[i].snippet@
                },
    {
        let title = neighbour_title(&p);
        r.push(RelatedArtifact { title, snippet: p.snippet, id: p.artifact_id });
    }
    r
}

/// A link, as a line in the pane.
fn seen_of(l: &LinkRow, o: &LinkedArtifact) -> (r: SeenTogether)
    requires
        l.other == Some(*o),
    ensures
        is_seen(r, *l),
{
    let why = match &l.reason {
        Some(reason) => Some(reason.clone()),
        None => if l.cues.len() > 0 {
            let mut w = "when asking: ".to_owned();
            w.append(l.cues[0].as_str());
            Some(w)
        } else {
            None
        },
    };
    let corpus_title = match &o.chunk.corpus_id {
        Some(_) => match &o.corpus_title {
            Some(t) => t.clone(),
            None => "untitled".to_owned(),
        },
        None => "merged".to_owned(),
    };
    SeenTogether {
        title: title_of(&o.chunk),
        snippet: o.snippet.clone(),
        why,
        corpus_title,
        cross_corpus: l.cross_corpus,
        id: o.chunk.id.clone(),
    }
}

/// The links that are shown, as lines in the pane.
fn seen_together_of(links: &[LinkRow], associating: bool) -> (r: Vec<SeenTogether>)
    ensures
        are_seen(r@, shown_links(links@, associating)),
{
    let mut r: Vec<SeenTogether> = Vec::new();
    if !associating {
        return r;
    }
    let count: usize = if links.len() < RELATED_LIMIT {
        links.len()
    } else {
        RELATED_LIMIT
    };
    let ghost first = links@.take(count as int);
    let ghost p = |l: LinkRow| l.other is Some;
    proof {
        if links@.len() < RELATED_LIMIT {
            assert(first =~= links@);
        }
        reveal(Seq::filter);
        assert(first.take(0).filter(p) =~= Seq::empty());
    }
    let mut i: usize = 0;
    while i < count
        invariant
            i <= count <= links@.len(),
            first == links@.take(count as int),
            p == (|l: LinkRow| l.other is Some),
            are_seen(r@, first.take(i as int).filter(p)),
        decreases count - i,
    {
        reveal(Seq::filter);
        proof {
            assert(first.take(i + 1).drop_last() =~= first.take(i as int));
            assert(first.take(i + 1).last() == links@[i as int]);
        }
        match &links[i].other {
            Some(o) => {
                r.push(seen_of(&links[i], o));
            },
            None => {},
        }
        i = i + 1;
    }
    assert(first.take(count as int) =~= first);
    r
}

/// Where the source of an artifact is, at the lines it names. The fragment is
/// what scrolls there, and the query what marks them.
pub fn source_at_lines(corpus_id: &Option<String>, span: &Option<CorpusSpan>) -> (r: String)
    ensures
        r@ == source_address(*corpus_id, *span),
{
    match corpus_id {
        Some(cid) => {
            let mut r = "/ui/corpora/".to_owned();
            r.append(cid.as_str());
            match span {
                Some(sp) => {
                    r.append("?from=");
                    r.append(signed_of(sp.start_line).as_str());
                    r.append("&to=");
                    r.append(signed_of(sp.end_line).as_str());
                    r.append("#L");
                    r.append(signed_of(sp.start_line).as_str());
                },
                None => {},
            }
            r
        },
        None => String::new(),
    }
}

/// Where a text that stops in the middle of a sentence goes on.
fn continues_at(
    corpus_id: &Option<String>,
    mid_sentence: bool,
    adjacent: &[Adjacent],
    ordinal: i64,
) -> (r: Option<String>)
    ensures
        text::text_of(r) == goes_on_at(*corpus_id, mid_sentence, adjacent@, ordinal),
{
    if corpus_id.is_none() || !mid_sentence {
        return None;
    }
    let mut i: usize = 0;
    assert(adjacent@.skip(0) =~= adjacent@);
    while i < adjacent.len()
        invariant
            i <= adjacent@.len(),
            corpus_id is Some,
            mid_sentence,
            first_after(adjacent@.skip(i as int), ordinal) == first_after(adjacent@, ordinal),
        decreases adjacent.len() - i,
    {
        if adjacent[i].ordinal > ordinal {
            return Some(adjacent[i].id.clone());
        }
        assert(adjacent@.skip(i as int).skip(1) =~= adjacent@.skip(i + 1));
        i = i + 1;
    }
    None
}

/// What the base found when an artifact arrived, as a sentence.
pub fn tag_words(i: &Integration) -> (r: String)
    ensures
        r@ == tag_sentence(*i),
{
    match i.tag {
        Tag::Novel => "When it arrived, nothing in the base was near it.".to_owned(),
        Tag::Known => {
            let mut r = "When it arrived, the base already held something like it".to_owned();
            match &i.nearest {
                Some(n) => {
                    r.append(" (");
                    r.append(n.as_str());
                    r.append(")");
                },
                None => {},
            }
            r.append(".");
            assert(r@ =~= tag_sentence(*i));
            r
        },
        Tag::Conflict => {
            let mut r =
                "When it arrived, it disagreed with something the base held: ".to_owned();
            match &i.detail {
                Some(d) => {
                    r.append(d.as_str());
                },
                None => {},
            }
            assert(r@ =~= tag_sentence(*i));
            r
        },
    }
}

/// The line of a probe.
pub fn probe_words(p: &Probe) -> (r: String)
    ensures
        r@ == probe_line(*p),
{
    let q = chars_of(p.query.as_str());
    let mut r = p.class.clone();
    r.append(" · “");
    if q.len() > PROBE_CHARS {
        let short = spell(q.as_slice(), 0, PROBE_CHARS);
        assert(short@ =~= p.query@.take(PROBE_CHARS as int));
        r.append(short.as_str());
        r.append("…");
    } else {
        r.append(p.query.as_str());
    }
    r.append("” · ");
    match p.last {
        Some(Some(rank)) => {
            r.append("rank ");
            r.append(signed_of(rank).as_str());
        },
        Some(None) => {
            r.append("not found");
        },
        None => {
            r.append("not yet rehearsed");
        },
    }
    assert(r@ =~= probe_line(*p));
    r
}

/// The lines of the probes.
pub fn probes_of(probes: &[Probe]) -> (r: Vec<String>)
    ensures
        are_probe_lines(r@, probes@),
{
    let mut r: Vec<String> = Vec::new();
    let mut i: usize = 0;
    while i < probes.len()
        invariant
            i <= probes@.len(),
            r@.len() == i,
            forall|j: int| 0 <= j < i ==> (#[trigger] r@[j])@ == probe_line(probes@[j]),
        decreases probes.len() - i,
    {
        r.push(probe_words(&probes[i]));
        i = i + 1;
    }
    r
}

/// Everything the pane shows of an artifact.
pub fn build_artifact_detail<L>(rows: PaneRows<L>, terms: &str) -> (r: Result<
    ArtifactDetail<L>,
    Error,
>)
    requires
        rows.corpus matches Some(s) ==> text::lines(s.raw_text@).len() <= i64::MAX,
        rows.chunk matches Some(c) ==> (c.corpus_span matches Some(sp) ==> i64::MIN <= sp.start_line
            - PANE_CONTEXT && sp.end_line + PANE_CONTEXT <= i64::MAX),
    ensures
        is_pane(r, rows, terms@),
{
    let c = match rows.chunk {
        Some(c) => c,
        None => {
            return Err(Error::NotFound);
        },
    };
    let corpus = if c.corpus_id.is_some() {
        if rows.corpus.is_none() {
            return Err(Error::NotFound);
        }
        rows.corpus
    } else {
        None
    };
    let due = match rows.due {
        Some(m) => m,
        None => None,
    };
    let beside = match &corpus {
        Some(s) => match &c.corpus_span {
            Some(sp) => slice(s, Some(sp), PANE_CONTEXT),
            None => slice(s, None, PANE_CONTEXT),
        },
        None => CorpusSlice::default(),
    };
    let corpus_restored = match &corpus {
        Some(s) => s.restored_at.is_some(),
        None => false,
    };
    let title = title_of(&c);
    let label = row_label(&c);
    let tag = match &rows.integration {
        Some(i) => Some(tag_words(i)),
        None => None,
    };
    let source_at_lines = source_at_lines(&c.corpus_id, &c.corpus_span);
    let continues_at = continues_at(
        &c.corpus_id,
        rows.mid_sentence,
        layer_of(rows.adjacent).as_slice(),
        c.ordinal,
    );
    let detail = ArtifactDetail {
        tag,
        probes: probes_of(rows.probes.as_slice()),
        versions: rows.versions,
        condensed: rows.condensed,
        due_at: due_instant(due.as_ref()),
        due_in: how_far_off(due.as_ref(), rows.due_in),
        continues_at,
        related: related_of(layer_of(rows.neighbours)),
        seen_together: seen_together_of(layer_of(rows.links).as_slice(), rows.associating),
        orphaned_source: any_same(c.flags.as_slice(), ORPHANED_SOURCE),
        source_at_lines,
        lineage: match rows.lineage {
            Some(l) => l,
            None => rows.no_lineage,
        },
        id: c.id,
        title,
        tab: label.text,
        html: c.html,
        text: c.text,
        category: c.category,
        tags: c.tags,
        flags: c.flags,
        flag_detail: c.flag_detail,
        superseded_by: c.superseded_by,
        status: c.status,
        last_verified_at: c.last_verified_at,
        caveats: c.caveats,
        merged: c.provenance.is_model_written(),
        synthesized: c.provenance == Provenance::Synthesized,
        cues: c.cues,
        corpus_id: c.corpus_id,
        corpus_restored,
        segment_idx: c.segment_idx,
        slice_label: beside.label,
        slice_lines: beside.lines,
        terms: terms.to_owned(),
        search_event: None,
    };
    Ok(detail)
}

// ---------------------------------------------------------------------------
// What is done to it from there
// ---------------------------------------------------------------------------

/// The search that an open is counted under: the one the link names, where
/// searches are recorded, a search may still return the artifact, the search
/// is the reader's own and the open was taken down.
pub open spec fn counted_under(
    learning: bool,
    in_results: bool,
    event: Option<Seq<char>>,
    mine: bool,
    taken: bool,
) -> Option<Seq<char>> {
    if learning && in_results && mine && taken {
        event
    } else {
        None
    }
}

/// Whether an open is worth asking the store about: a search that will no
/// longer return the artifact may not be told that it did.
pub fn may_count(in_results: bool, learning: bool, event: Option<&str>) -> (r: bool)
    ensures
        r == (learning && in_results && event is Some),
{
    learning && in_results && event.is_some()
}

/// The search that an open is counted under. The name of it arrives on a link,
/// so it is whatever was sent: only the reader's own is believed.
pub fn search_event(
    in_results: bool,
    learning: bool,
    event: Option<&str>,
    mine: bool,
    taken: bool,
) -> (r: Option<String>)
    ensures
        text::text_of(r) == counted_under(
            learning,
            in_results,
            text::borrowed(event),
            mine,
            taken,
        ),
{
    if learning && in_results && mine && taken {
        match event {
            Some(e) => Some(e.to_owned()),
            None => None,
        }
    } else {
        None
    }
}

/// What an open is taken down as when it was one the search box offered.
pub const RECOMMENDED_OPEN: &'static str = "recommended_open";

/// What an open is taken down as.
pub enum Opened {
    /// One the search box offered, under a rung of the ladder and, where the
    /// rung has slots, in one of them. It teaches the profile nothing: counted
    /// as an ordinary open, the first lucky guess would grow into a habit.
    Recommended { kind: &'static str, rung: String, slot: Option<i64> },
    /// Any other, and the artifact it was reached through.
    Ordinary { via: Option<String> },
}

/// Whether the ladder has a rung of the name a link carries.
pub open spec fn on_ladder(ladder: Seq<String>, rung: Option<Seq<char>>) -> bool {
    rung matches Some(name) && text::texts(ladder).contains(name)
}

/// What an open is taken down as. Which rung it came from arrives on a link, so
/// it is held against the ladder: a link that carries any other word is an
/// ordinary open. The slot does not decide, since the floor of the ladder has
/// none.
pub fn opened(
    ladder: &[String],
    rung: Option<String>,
    slot: Option<i64>,
    via: Option<String>,
) -> (r: Opened)
    ensures
        if on_ladder(ladder@, text::text_of(rung)) {
            r matches Opened::Recommended { kind, rung: name, slot: at } && kind@
                == RECOMMENDED_OPEN@ && Some(name) == rung && at == slot
        } else {
            r == (Opened::Ordinary { via })
        },
{
    match rung {
        Some(name) => if any_same(ladder, name.as_str()) {
            Opened::Recommended { kind: RECOMMENDED_OPEN, rung: name, slot }
        } else {
            Opened::Ordinary { via }
        },
        None => Opened::Ordinary { via },
    }
}

/// What saving an edit answers with.
#[derive(Clone, Copy, PartialEq, Eq, Structural, Debug)]
pub enum EditShape {
    /// The whole pane.
    Pane,
    /// One card of a list.
    Card,
}

/// What saving an edit does. Two screens edit an artifact, and they are not
/// the same size.
pub fn put_artifact(body: &str, view: &str) -> (r: Result<EditShape, Error>)
    ensures
        if text::blank(body@) {
            r matches Err(Error::Validation(m)) && m@ == "chunk text is empty"@
        } else {
            r matches Ok(shape) && shape == (if view@ == "detail"@ {
                EditShape::Pane
            } else {
                EditShape::Card
            })
        },
{
    if is_blank(body) {
        return Err(Error::Validation("chunk text is empty".to_owned()));
    }
    if same(view, "detail") {
        Ok(EditShape::Pane)
    } else {
        Ok(EditShape::Card)
    }
}

/// Where deleting an artifact leads: nowhere, pressed in a list; to its source,
/// pressed in the pane; and where it has none, to the list of what there is.
pub open spec fn after_delete(in_list: bool, corpus_id: Option<Seq<char>>) -> Option<Seq<char>> {
    if in_list {
        None
    } else {
        match corpus_id {
            Some(cid) => Some("/ui/corpora/"@ + cid),
            None => Some("/ui/insights"@),
        }
    }
}

/// Where deleting an artifact leads.
pub fn delete_artifact(in_list: bool, corpus_id: Option<&str>) -> (r: Option<String>)
    ensures
        text::text_of(r) == after_delete(in_list, text::borrowed(corpus_id)),
{
    if in_list {
        return None;
    }
    match corpus_id {
        Some(cid) => {
            let mut r = "/ui/corpora/".to_owned();
            r.append(cid);
            Some(r)
        },
        None => Some("/ui/insights".to_owned()),
    }
}

/// Whether marking an artifact reviewed also accepts that a source of it is
/// gone: otherwise the next sweep would flag it again.
pub fn reviewed_accepts_loss(flags: &[String]) -> (r: bool)
    ensures
        r == text::texts(flags@).contains(ORPHANED_SOURCE@),
{
    any_same(flags, ORPHANED_SOURCE)
}

// ---------------------------------------------------------------------------
// What holds of every page that is linked
// ---------------------------------------------------------------------------

/// Letters ahead are counted up to the first character that is none.
proof fn are_letters_ahead(name: Seq<char>, rest: Seq<char>)
    requires
        forall|i: int|
            0 <= i < name.len() ==> 'a' <= #[trigger] name[i] <= 'z' || 'A' <= name[i] <= 'Z',
        rest.len() == 0 || !('a' <= rest[0] <= 'z' || 'A' <= rest[0] <= 'Z'),
    ensures
        letters_ahead(name + rest) == name.len(),
    decreases name.len(),
{
    let s = name + rest;
    if name.len() == 0 {
        assert(s =~= rest);
    } else {
        assert(s[0] == name[0]);
        assert(s.skip(1) =~= name.skip(1) + rest);
        assert forall|i: int| 0 <= i < name.skip(1).len() implies 'a' <= #[trigger] name.skip(1)[i]
            <= 'z' || 'A' <= name.skip(1)[i] <= 'Z' by {
            assert(name.skip(1)[i] == name[i + 1]);
        }
        are_letters_ahead(name.skip(1), rest);
    }
}

/// A tag is called by the letters it opens with, whatever their case and
/// whatever follows them, and it closes what it names where a slash stands
/// ahead of them.
pub proof fn a_tag_is_called_by_its_letters(name: Seq<char>, rest: Seq<char>)
    requires
        name.len() > 0,
        forall|i: int|
            0 <= i < name.len() ==> 'a' <= #[trigger] name[i] <= 'z' || 'A' <= name[i] <= 'Z',
        rest.len() == 0 || !('a' <= rest[0] <= 'z' || 'A' <= rest[0] <= 'Z'),
    ensures
        tag_name(seq!['<'] + name + rest) == text::lowered(name),
        tag_name(seq!['<', '/'] + name + rest) == text::lowered(name),
        !closes(seq!['<'] + name + rest),
        closes(seq!['<', '/'] + name + rest),
{
    let o = seq!['<'] + name + rest;
    let c = seq!['<', '/'] + name + rest;
    assert(o[1] == name[0]);
    assert(c[1] == '/');
    assert(o.skip(1) =~= name + rest);
    assert(c.skip(2) =~= name + rest);
    are_letters_ahead(name, rest);
    assert((name + rest).take(name.len() as int) =~= name);
}

/// Where a code or a pre opens, code is one deeper; where it closes, one less
/// deep, and never less than not at all. Both count alike, in either case and
/// whatever else the tag says.
pub proof fn code_opens_and_closes(depth: nat, name: Seq<char>, rest: Seq<char>)
    requires
        forall|i: int|
            0 <= i < name.len() ==> 'a' <= #[trigger] name[i] <= 'z' || 'A' <= name[i] <= 'Z',
        text::lowered(name) == seq!['c', 'o', 'd', 'e'] || text::lowered(name) == seq![
            'p',
            'r',
            'e',
        ],
        rest.len() == 0 || !('a' <= rest[0] <= 'z' || 'A' <= rest[0] <= 'Z'),
    ensures
        depth_after(depth, seq!['<'] + name + rest) == depth + 1,
        depth_after(depth + 1, seq!['<', '/'] + name + rest) == depth,
        depth_after(0, seq!['<', '/'] + name + rest) == 0,
{
    reveal_strlit("code");
    reveal_strlit("pre");
    assert("code"@ =~= seq!['c', 'o', 'd', 'e']);
    assert("pre"@ =~= seq!['p', 'r', 'e']);
    assert(text::lowered(name).len() == name.len());
    a_tag_is_called_by_its_letters(name, rest);
}

/// No other tag changes how deep in code the page is, opening or closing.
pub proof fn no_other_tag_is_code(depth: nat, name: Seq<char>, rest: Seq<char>)
    requires
        name.len() > 0,
        forall|i: int|
            0 <= i < name.len() ==> 'a' <= #[trigger] name[i] <= 'z' || 'A' <= name[i] <= 'Z',
        text::lowered(name) != seq!['c', 'o', 'd', 'e'],
        text::lowered(name) != seq!['p', 'r', 'e'],
        rest.len() == 0 || !('a' <= rest[0] <= 'z' || 'A' <= rest[0] <= 'Z'),
    ensures
        depth_after(depth, seq!['<'] + name + rest) == depth,
        depth_after(depth, seq!['<', '/'] + name + rest) == depth,
{
    reveal_strlit("code");
    reveal_strlit("pre");
    assert("code"@ =~= seq!['c', 'o', 'd', 'e']);
    assert("pre"@ =~= seq!['p', 'r', 'e']);
    a_tag_is_called_by_its_letters(name, rest);
}

/// What a code or a pre opens, its closing undoes.
pub proof fn code_ends_where_it_closes(depth: nat)
    ensures
        depth_after(depth, "<code>"@) == depth + 1,
        depth_after(depth, "<pre>"@) == depth + 1,
        depth_after(depth_after(depth, "<code>"@), "</code>"@) == depth,
        depth_after(depth_after(depth, "<pre>"@), "</pre>"@) == depth,
{
    let code = seq!['c', 'o', 'd', 'e'];
    let pre = seq!['p', 'r', 'e'];
    reveal_strlit("<code>");
    reveal_strlit("<pre>");
    reveal_strlit("</code>");
    reveal_strlit("</pre>");
    assert(text::lowered(code) =~= code);
    assert(text::lowered(pre) =~= pre);
    code_opens_and_closes(depth, code, seq!['>']);
    code_opens_and_closes(depth, pre, seq!['>']);
    assert("<code>"@ =~= seq!['<'] + code + seq!['>']);
    assert("<pre>"@ =~= seq!['<'] + pre + seq!['>']);
    assert("</code>"@ =~= seq!['<', '/'] + code + seq!['>']);
    assert("</pre>"@ =~= seq!['<', '/'] + pre + seq!['>']);
}

/// What stands between two tags is linked as prose is, unless it stands in
/// code, where it is left as it is. A bracket that opens no tag to its end is
/// left as it is too.
pub proof fn what_stands_between_tags(plain: Seq<char>, rest: Seq<char>, n: nat, depth: nat)
    requires
        forall|i: int| 0 <= i < plain.len() ==> #[trigger] plain[i] != '<',
        rest.len() == 0 || rest[0] == '<',
    ensures
        depth == 0 ==> linked_markup(plain + rest, n, depth) == linked(plain, n) + linked_markup(
            rest,
            n,
            depth,
        ),
        depth > 0 ==> linked_markup(plain + rest, n, depth) == plain + linked_markup(
            rest,
            n,
            depth,
        ),
        (forall|i: int| 0 <= i < rest.len() ==> #[trigger] rest[i] != '>') ==> linked_markup(
            rest,
            n,
            depth,
        ) == rest,
{
    let s = plain + rest;
    let at = plain.len() as int;
    assert forall|i: int| 0 <= i < at implies #[trigger] s[i] != '<' by {
        assert(s[i] == plain[i]);
    }
    if rest.len() > 0 {
        assert(s[at] == rest[0]);
    }
    text::first_is_cut(s, '<', at);
    text::first_is_cut(rest, '<', 0);
    assert(s.take(at) =~= plain);
    assert(s.skip(at) =~= rest);
    assert(rest.take(0) =~= Seq::<char>::empty());
    assert(rest.skip(0) =~= rest);
    text::first_is_cut(Seq::<char>::empty(), '[', 0);
    assert(linked(rest.take(0), n) =~= Seq::<char>::empty());
    let gt = text::cut(rest, '>');
    text::cut_is_first(rest, '>');
    if rest.len() == 0 {
        assert(linked_markup(rest, n, depth) =~= Seq::<char>::empty());
        assert(s =~= plain);
    } else if gt >= rest.len() {
        assert(linked_markup(rest, n, depth) =~= rest);
    } else {
        let tail = linked_markup(rest.skip(gt + 1), n, depth_after(depth, rest.take(gt + 1)));
        assert(linked_markup(rest, n, depth) =~= rest.take(gt + 1) + tail);
        if depth == 0 {
            assert(linked_markup(s, n, depth) =~= linked(plain, n) + (rest.take(gt + 1) + tail));
        } else {
            assert(linked_markup(s, n, depth) =~= plain + (rest.take(gt + 1) + tail));
        }
    }
}

/// A tag that is as its name says, at one depth and the next.
proof fn a_tag_is_passed(tag: Seq<char>, inner: Seq<char>, rest: Seq<char>, n: nat, depth: nat)
    requires
        tag == seq!['<'] + inner + seq!['>'],
        forall|i: int| 0 <= i < inner.len() ==> #[trigger] inner[i] != '>',
    ensures
        linked_markup(tag + rest, n, depth) == tag + linked_markup(
            rest,
            n,
            depth_after(depth, tag),
        ),
{
    assert forall|i: int| 0 <= i < tag.len() - 1 implies #[trigger] tag[i] != '>' by {
        if i > 0 {
            assert(tag[i] == inner[i - 1]);
        }
    }
    a_tag_is_never_linked(tag, rest, n, depth);
}

/// A run of code is left as it is, and what comes after it is linked again.
pub proof fn what_follows_code_is_linked(c: Seq<char>, rest: Seq<char>, n: nat, depth: nat)
    requires
        forall|i: int| 0 <= i < c.len() ==> #[trigger] c[i] != '<',
    ensures
        linked_markup("<code>"@ + c + "</code>"@ + rest, n, depth) == "<code>"@ + c + "</code>"@
            + linked_markup(rest, n, depth),
        linked_markup("<pre>"@ + c + "</pre>"@ + rest, n, depth) == "<pre>"@ + c + "</pre>"@
            + linked_markup(rest, n, depth),
{
    reveal_strlit("<code>");
    reveal_strlit("<pre>");
    reveal_strlit("</code>");
    reveal_strlit("</pre>");
    code_ends_where_it_closes(depth);
    assert("<code>"@ =~= seq!['<'] + seq!['c', 'o', 'd', 'e'] + seq!['>']);
    assert("<pre>"@ =~= seq!['<'] + seq!['p', 'r', 'e'] + seq!['>']);
    assert("</code>"@ =~= seq!['<'] + seq!['/', 'c', 'o', 'd', 'e'] + seq!['>']);
    assert("</pre>"@ =~= seq!['<'] + seq!['/', 'p', 'r', 'e'] + seq!['>']);
    {
        let after = "</code>"@ + rest;
        a_tag_is_passed("<code>"@, seq!['c', 'o', 'd', 'e'], c + after, n, depth);
        what_stands_between_tags(c, after, n, depth + 1);
        a_tag_is_passed("</code>"@, seq!['/', 'c', 'o', 'd', 'e'], rest, n, depth + 1);
        assert("<code>"@ + c + "</code>"@ + rest =~= "<code>"@ + (c + after));
        assert("<code>"@ + (c + ("</code>"@ + linked_markup(rest, n, depth))) =~= "<code>"@ + c
            + "</code>"@ + linked_markup(rest, n, depth));
    }
    {
        let after = "</pre>"@ + rest;
        a_tag_is_passed("<pre>"@, seq!['p', 'r', 'e'], c + after, n, depth);
        what_stands_between_tags(c, after, n, depth + 1);
        a_tag_is_passed("</pre>"@, seq!['/', 'p', 'r', 'e'], rest, n, depth + 1);
        assert("<pre>"@ + c + "</pre>"@ + rest =~= "<pre>"@ + (c + after));
        assert("<pre>"@ + (c + ("</pre>"@ + linked_markup(rest, n, depth))) =~= "<pre>"@ + c
            + "</pre>"@ + linked_markup(rest, n, depth));
    }
}

/// Code inside a pre is left as it is, and so is what stands between the end
/// of the code and the end of the pre; what comes after both is linked again.
pub proof fn what_follows_code_in_a_pre_is_linked(
    c: Seq<char>,
    d: Seq<char>,
    rest: Seq<char>,
    n: nat,
)
    requires
        forall|i: int| 0 <= i < c.len() ==> #[trigger] c[i] != '<',
        forall|i: int| 0 <= i < d.len() ==> #[trigger] d[i] != '<',
    ensures
        linked_markup("<pre>"@ + ("<code>"@ + c + "</code>"@ + (d + ("</pre>"@ + rest))), n, 0)
            == "<pre>"@ + ("<code>"@ + c + "</code>"@ + (d + ("</pre>"@ + linked_markup(
            rest,
            n,
            0,
        )))),
{
    reveal_strlit("<pre>");
    reveal_strlit("</pre>");
    code_ends_where_it_closes(0);
    assert("<pre>"@ =~= seq!['<'] + seq!['p', 'r', 'e'] + seq!['>']);
    assert("</pre>"@ =~= seq!['<'] + seq!['/', 'p', 'r', 'e'] + seq!['>']);
    let last = "</pre>"@ + rest;
    let inner = "<code>"@ + c + "</code>"@ + (d + last);
    a_tag_is_passed("<pre>"@, seq!['p', 'r', 'e'], inner, n, 0);
    what_follows_code_is_linked(c, d + last, n, 1);
    what_stands_between_tags(d, last, n, 1);
    a_tag_is_passed("</pre>"@, seq!['/', 'p', 'r', 'e'], rest, n, 1);
}

/// A run of digits stands for the number that it reads as.
pub proof fn a_citation_is_read_in_tens(digits: Seq<char>)
    requires
        forall|i: int| 0 <= i < digits.len() ==> 48 <= (#[trigger] digits[i]) as int <= 57,
    ensures
        number(digits) == text::reads(digits),
    decreases digits.len(),
{
    if digits.len() > 0 {
        let d = digits.drop_last();
        assert forall|i: int| 0 <= i < d.len() implies 48 <= (#[trigger] d[i]) as int <= 57 by {
            assert(d[i] == digits[i]);
        }
        a_citation_is_read_in_tens(d);
        assert(48 <= digits[digits.len() - 1] as int);
    }
}

/// Digits in brackets that name an excerpt become a link to it, said as they
/// were; what stands ahead of them is left as it is, and what follows is linked
/// in its turn.
pub proof fn a_citation_becomes_a_link(
    ahead: Seq<char>,
    digits: Seq<char>,
    rest: Seq<char>,
    n: nat,
)
    requires
        forall|i: int| 0 <= i < ahead.len() ==> #[trigger] ahead[i] != '[',
        forall|i: int| 0 <= i < digits.len() ==> 48 <= (#[trigger] digits[i]) as int <= 57,
        1 <= text::reads(digits) <= n,
    ensures
        linked(ahead + seq!['['] + digits + seq![']'] + rest, n) == ahead
            + "<a class=\"cite\" href=\"#cite-"@ + text::decimal(text::reads(digits) as nat)
            + "\">["@ + digits + "]</a>"@ + linked(rest, n),
{
    let s = ahead + seq!['['] + digits + seq![']'] + rest;
    let at = ahead.len() as int;
    let d = digits.len() as int;
    assert forall|i: int| 0 <= i < at implies #[trigger] s[i] != '[' by {
        assert(s[i] == ahead[i]);
    }
    assert(s[at] == '[');
    text::first_is_cut(s, '[', at);
    let after = s.skip(at + 1);
    assert(after =~= digits + seq![']'] + rest);
    assert(after.take(d) =~= digits);
    assert(after[d] == ']');
    assert forall|i: int| 0 <= i < d implies is_digit(#[trigger] after[i]) by {
        assert(after[i] == digits[i]);
    }
    are_digits_ahead(after, d);
    assert(after.skip(d + 1) =~= rest);
    assert(s.take(at) =~= ahead);
    a_citation_is_read_in_tens(digits);
    let i = number(digits);
    assert(linked(s, n) == ahead + citation(i, digits) + linked(rest, n));
    assert(linked(s, n) =~= ahead + "<a class=\"cite\" href=\"#cite-"@ + text::decimal(i)
        + "\">["@ + digits + "]</a>"@ + linked(rest, n));
}

/// A bracket that names no excerpt stays as it is, and what follows it is
/// linked in its turn.
pub proof fn what_cites_nothing_stays(ahead: Seq<char>, after: Seq<char>, n: nat)
    requires
        forall|i: int| 0 <= i < ahead.len() ==> #[trigger] ahead[i] != '[',
        forall|k: int|
            0 <= k < after.len() && #[trigger] after[k] == ']' && (forall|i: int|
                0 <= i < k ==> 48 <= (#[trigger] after[i]) as int <= 57) ==> !(1 <= text::reads(
                after.take(k),
            ) <= n),
    ensures
        linked(ahead + seq!['['] + after, n) == ahead + seq!['['] + linked(after, n),
{
    let s = ahead + seq!['['] + after;
    let at = ahead.len() as int;
    assert forall|i: int| 0 <= i < at implies #[trigger] s[i] != '[' by {
        assert(s[i] == ahead[i]);
    }
    assert(s[at] == '[');
    text::first_is_cut(s, '[', at);
    assert(s.skip(at + 1) =~= after);
    assert(s.take(at + 1) =~= ahead + seq!['[']);
    digits_ahead_are(after);
    let d = digits_ahead(after) as int;
    if cites(after, n) {
        assert(after[d] == ']');
        assert forall|i: int| 0 <= i < d implies 48 <= (#[trigger] after[i]) as int <= 57 by {
            assert(is_digit(after[i]));
        }
        assert forall|i: int| 0 <= i < after.take(d).len() implies 48 <= (#[trigger] after.take(
            d,
        )[i]) as int <= 57 by {
            assert(after.take(d)[i] == after[i]);
        }
        a_citation_is_read_in_tens(after.take(d));
    }
}

// ---------------------------------------------------------------------------
// What holds of every pane
// ---------------------------------------------------------------------------

/// A passage and a note are never shown under a name: not in the pane, not on
/// a card, not in a list of neighbours.
pub proof fn a_passage_has_no_name(c: Chunk, p: VectorPayload)
    requires
        c.provenance == Provenance::Passage || c.provenance == Provenance::Note,
        p.provenance matches Some(w) && (w@ == "passage"@ || w@ == "note"@),
    ensures
        own_title(c.provenance, c.title).len() == 0,
        neighbour_named(p).len() == 0,
        forall|label: Seq<char>, named: bool| #[trigger] labels(label, named, c) ==> !named,
{
    reveal_strlit("passage");
    reveal_strlit("note");
}

/// At most a few links are shown, and every one of them leads somewhere.
pub proof fn every_link_leads_somewhere(links: Seq<LinkRow>, associating: bool)
    ensures
        shown_links(links, associating).len() <= RELATED_LIMIT,
        forall|i: int|
            0 <= i < shown_links(links, associating).len() ==> (#[trigger] shown_links(
                links,
                associating,
            )[i]).other is Some,
{
    broadcast use vstd::seq_lib::group_filter_ensures;

    let first = if links.len() < RELATED_LIMIT {
        links
    } else {
        links.take(RELATED_LIMIT as int)
    };
    assert(first.filter(|l: LinkRow| l.other is Some).len() <= first.len());
}

/// A pane is refused exactly where there is no such artifact, or where it
/// names a source that is gone.
pub proof fn a_pane_needs_its_artifact_and_its_source<L>(
    r: Result<ArtifactDetail<L>, Error>,
    rows: PaneRows<L>,
    terms: Seq<char>,
)
    requires
        is_pane(r, rows, terms),
    ensures
        r is Err <==> match rows.chunk {
            Some(c) => c.corpus_id is Some && rows.corpus is None,
            None => true,
        },
        r is Err ==> r->Err_0 is NotFound,
{
}

/// A pane shows the artifact that was read, as it was read.
pub proof fn a_pane_shows_what_was_read<L>(
    d: ArtifactDetail<L>,
    rows: PaneRows<L>,
    c: Chunk,
    terms: Seq<char>,
)
    requires
        is_pane(Ok(d), rows, terms),
        rows.chunk == Some(c),
    ensures
        d.id@ == c.id@,
        d.html@ == c.html@,
        d.text@ == c.text@,
        d.category == c.category,
        d.tags@ == c.tags@,
        d.flags@ == c.flags@,
        d.flag_detail == c.flag_detail,
        d.superseded_by == c.superseded_by,
        d.status == c.status,
        d.last_verified_at == c.last_verified_at,
        d.caveats@ == c.caveats@,
        d.corpus_id == c.corpus_id,
        d.segment_idx == c.segment_idx,
        d.cues@ == c.cues@,
        d.terms@ == terms,
        d.versions == rows.versions,
        d.condensed == rows.condensed,
        rows.lineage matches Some(l) ==> d.lineage == l,
        rows.lineage is None ==> d.lineage == rows.no_lineage,
        d.merged <==> c.provenance is Merged || c.provenance is Synthesized,
        d.synthesized <==> c.provenance is Synthesized,
        d.orphaned_source <==> exists|i: int|
            0 <= i < c.flags@.len() && (#[trigger] c.flags@[i])@ == "orphaned_source"@,
        d.corpus_restored <==> c.corpus_id is Some && (rows.corpus matches Some(s)
            && s.restored_at is Some),
        d.search_event is None,
{
    let flags = text::texts(c.flags@);
    if d.orphaned_source {
        let i = choose|i: int| 0 <= i < flags.len() && flags[i] == "orphaned_source"@;
        assert(c.flags@[i]@ == "orphaned_source"@);
    }
    if exists|i: int| 0 <= i < c.flags@.len() && (#[trigger] c.flags@[i])@ == "orphaned_source"@ {
        let i = choose|i: int|
            0 <= i < c.flags@.len() && (#[trigger] c.flags@[i])@ == "orphaned_source"@;
        assert(flags[i] == "orphaned_source"@);
    }
}

/// An artifact is called what its writer called it, and by how it opens where
/// nobody called it anything or where it is of a kind that has no name.
pub proof fn an_artifact_is_called_its_name_or_its_opening<L>(
    d: ArtifactDetail<L>,
    rows: PaneRows<L>,
    c: Chunk,
    terms: Seq<char>,
)
    requires
        is_pane(Ok(d), rows, terms),
        rows.chunk == Some(c),
    ensures
        c.provenance is Passage || c.provenance is Note || c.title is None ==> d.title@.len() == 0
            && d.tab@ == c.opening@,
        !(c.provenance is Passage || c.provenance is Note) ==> (c.title matches Some(t) ==> d.title@
            == t@ && d.tab@ == (if t@.len() > 0 {
            t@
        } else {
            c.opening@
        })),
        forall|v: ArtifactView| #[trigger]
            is_card(v, c) ==> v.id@ == d.id@ && v.title@ == d.title@ && v.html@ == d.html@,
        forall|label: Seq<char>, named: bool| #[trigger]
            labels(label, named, c) ==> label == d.tab@ && (named <==> d.title@.len() > 0),
{
}

/// The way to the source names it, and the lines where there are any.
pub proof fn the_way_to_the_source_names_its_lines<L>(
    d: ArtifactDetail<L>,
    rows: PaneRows<L>,
    c: Chunk,
    terms: Seq<char>,
)
    requires
        is_pane(Ok(d), rows, terms),
        rows.chunk == Some(c),
    ensures
        c.corpus_id is None ==> d.source_at_lines@.len() == 0,
        c.corpus_id matches Some(id) ==> match c.corpus_span {
            None => d.source_at_lines@ == "/ui/corpora/"@ + id@,
            Some(s) => d.source_at_lines@ == "/ui/corpora/"@ + id@ + "?from="@ + text::signed(
                s.start_line as int,
            ) + "&to="@ + text::signed(s.end_line as int) + "#L"@ + text::signed(
                s.start_line as int,
            ),
        },
{
}

/// The first that follows is the first whose place is a later one.
proof fn first_after_is(adjacent: Seq<Adjacent>, ordinal: i64)
    ensures
        first_after(adjacent, ordinal) is None <==> forall|i: int|
            0 <= i < adjacent.len() ==> (#[trigger] adjacent[i]).ordinal <= ordinal,
        first_after(adjacent, ordinal) matches Some(id) ==> exists|i: int|
            0 <= i < adjacent.len() && (#[trigger] adjacent[i]).ordinal > ordinal && adjacent[i].id@
                == id && (forall|j: int| 0 <= j < i ==> (#[trigger] adjacent[j]).ordinal <= ordinal),
    decreases adjacent.len(),
{
    if adjacent.len() > 0 && adjacent[0].ordinal <= ordinal {
        let rest = adjacent.skip(1);
        first_after_is(rest, ordinal);
        if first_after(rest, ordinal) is None {
            assert forall|i: int| 0 <= i < adjacent.len() implies (#[trigger] adjacent[i]).ordinal
                <= ordinal by {
                if i > 0 {
                    assert(rest[i - 1] == adjacent[i]);
                }
            }
        } else {
            let i = choose|i: int|
                0 <= i < rest.len() && (#[trigger] rest[i]).ordinal > ordinal && rest[i].id@
                    == first_after(rest, ordinal)->0 && (forall|j: int|
                    0 <= j < i ==> (#[trigger] rest[j]).ordinal <= ordinal);
            assert(adjacent[i + 1] == rest[i]);
            assert forall|j: int| 0 <= j < i + 1 implies (#[trigger] adjacent[j]).ordinal
                <= ordinal by {
                if j > 0 {
                    assert(rest[j - 1] == adjacent[j]);
                }
            }
        }
    }
}

/// A text that stops in the middle of a sentence goes on at the first of its
/// source that comes after it; any other goes on nowhere.
pub proof fn a_text_goes_on_at_the_next<L>(
    d: ArtifactDetail<L>,
    rows: PaneRows<L>,
    c: Chunk,
    adjacent: Vec<Adjacent>,
    terms: Seq<char>,
)
    requires
        is_pane(Ok(d), rows, terms),
        rows.chunk == Some(c),
        rows.adjacent == Some(adjacent),
    ensures
        d.continues_at is Some <==> c.corpus_id is Some && rows.mid_sentence && exists|i: int|
            0 <= i < adjacent@.len() && (#[trigger] adjacent@[i]).ordinal > c.ordinal,
        d.continues_at matches Some(id) ==> exists|i: int|
            0 <= i < adjacent@.len() && (#[trigger] adjacent@[i]).ordinal > c.ordinal
                && adjacent@[i].id@ == id@ && (forall|j: int|
                0 <= j < i ==> (#[trigger] adjacent@[j]).ordinal <= c.ordinal),
{
    first_after_is(adjacent@, c.ordinal);
}

/// A layer that could not be read adds nothing to the pane.
pub proof fn a_layer_can_only_add<L>(
    d: ArtifactDetail<L>,
    rows: PaneRows<L>,
    terms: Seq<char>,
)
    requires
        is_pane(Ok(d), rows, terms),
    ensures
        rows.neighbours is None ==> d.related@.len() == 0,
        rows.links is None || !rows.associating ==> d.seen_together@.len() == 0,
        rows.adjacent is None ==> d.continues_at is None,
        rows.due is None ==> d.due_at is None && d.due_in is None,
        rows.integration is None ==> d.tag is None,
{
    reveal(Seq::filter);
    assert(layer::<Adjacent>(None) =~= Seq::empty());
    assert(layer::<VectorPayload>(None) =~= Seq::empty());
    assert(layer::<LinkRow>(None) =~= Seq::empty());
    if rows.links is None {
        assert(shown_links(layer(rows.links), rows.associating).len() == 0);
    }
}

/// Every neighbour is shown in its place, under the name it has; one that is a
/// passage or a note has none.
pub proof fn every_neighbour_is_shown<L>(
    d: ArtifactDetail<L>,
    rows: PaneRows<L>,
    near: Vec<VectorPayload>,
    terms: Seq<char>,
    i: int,
)
    requires
        is_pane(Ok(d), rows, terms),
        rows.neighbours == Some(near),
        0 <= i < near@.len(),
    ensures
        d.related@.len() == near@.len(),
        d.related@[i].id@ == near@[i].artifact_id@,
        d.related@[i].snippet@ == near@[i].snippet@,
        near@[i].title is None ==> d.related@[i].title@.len() == 0,
        near@[i].provenance matches Some(w) && (w@ == "passage"@ || w@ == "note"@)
            ==> d.related@[i].title@.len() == 0,
        !(near@[i].provenance matches Some(w) && (w@ == "passage"@ || w@ == "note"@)) ==> (
        near@[i].title matches Some(t) ==> d.related@[i].title@ == t@),
{
    reveal_strlit("passage");
    reveal_strlit("note");
    reveal_strlit("merged");
    reveal_strlit("synthesized");
    let _ = d.related@[i];
    assert("passage"@.len() != "note"@.len());
}

/// The links shown are those of the first five that lead somewhere, in their
/// order, and every one of these.
pub proof fn the_first_links_that_lead_somewhere_are_shown(links: Seq<LinkRow>)
    ensures
        links.len() <= 5 ==> shown_links(links, true) == links.filter(
            |l: LinkRow| l.other is Some,
        ),
        links.len() > 5 ==> shown_links(links, true) == links.take(5).filter(
            |l: LinkRow| l.other is Some,
        ),
        shown_links(links, false).len() == 0,
        forall|i: int|
            0 <= i < links.len() && i < 5 && (#[trigger] links[i]).other is Some ==> shown_links(
                links,
                true,
            ).contains(links[i]),
{
    broadcast use vstd::seq_lib::group_filter_ensures;

    let first = if links.len() < RELATED_LIMIT {
        links
    } else {
        links.take(RELATED_LIMIT as int)
    };
    if links.len() == 5 {
        assert(links.take(5) =~= links);
    }
    let p = |l: LinkRow| l.other is Some;
    assert forall|i: int|
        0 <= i < links.len() && i < 5 && (#[trigger] links[i]).other is Some implies shown_links(
        links,
        true,
    ).contains(links[i]) by {
        assert(first[i] == links[i]);
        assert(p(first[i]));
        assert(first.contains(first[i]));
        assert(first.filter(p).contains(first[i]));
    }
}

/// A link is shown with the judge's line, or else with the first question that
/// bound the pair, or else with no reason; its source is called by its title,
/// and one written from others is called that.
pub proof fn a_link_says_why(v: SeenTogether, l: LinkRow, o: LinkedArtifact)
    requires
        is_seen(v, l),
        l.other == Some(o),
    ensures
        v.id@ == o.chunk.id@,
        v.snippet@ == o.snippet@,
        v.cross_corpus == l.cross_corpus,
        o.chunk.title is None || o.chunk.provenance is Passage || o.chunk.provenance is Note
            ==> v.title@.len() == 0,
        !(o.chunk.provenance is Passage || o.chunk.provenance is Note) ==> (
        o.chunk.title matches Some(t) ==> v.title@ == t@),
        l.reason matches Some(r) ==> (v.why matches Some(w) && w@ == r@),
        l.reason is None && l.cues@.len() > 0 ==> (v.why matches Some(w) && w@ == "when asking: "@
            + l.cues@[0]@),
        l.reason is None && l.cues@.len() == 0 ==> v.why is None,
        o.chunk.corpus_id is None ==> v.corpus_title@ == "merged"@,
        o.chunk.corpus_id is Some && o.corpus_title is None ==> v.corpus_title@ == "untitled"@,
        o.chunk.corpus_id is Some ==> (o.corpus_title matches Some(t) ==> v.corpus_title@ == t@),
{
}

/// The pane shows each of the links that are to be shown, in its place.
pub proof fn every_shown_link_has_its_line<L>(
    d: ArtifactDetail<L>,
    rows: PaneRows<L>,
    links: Vec<LinkRow>,
    terms: Seq<char>,
    i: int,
)
    requires
        is_pane(Ok(d), rows, terms),
        rows.links == Some(links),
        0 <= i < shown_links(links@, rows.associating).len(),
    ensures
        d.seen_together@.len() == shown_links(links@, rows.associating).len(),
        is_seen(d.seen_together@[i], shown_links(links@, rows.associating)[i]),
{
    let _ = d.seen_together@[i];
}

/// What the base found when the artifact arrived is said in one sentence,
/// which names what was nearest, or what it disagreed with.
pub proof fn what_the_base_found_is_said<L>(
    d: ArtifactDetail<L>,
    rows: PaneRows<L>,
    found: Integration,
    terms: Seq<char>,
)
    requires
        is_pane(Ok(d), rows, terms),
        rows.integration == Some(found),
    ensures
        d.tag matches Some(said) && match found.tag {
            Tag::Novel => said@ == "When it arrived, nothing in the base was near it."@,
            Tag::Known => match found.nearest {
                Some(n) => said@ == "When it arrived, the base already held something like it ("@
                    + n@ + ")."@,
                None => said@ == "When it arrived, the base already held something like it."@,
            },
            Tag::Conflict => match found.detail {
                Some(t) => said@ == "When it arrived, it disagreed with something the base held: "@
                    + t@,
                None => said@ == "When it arrived, it disagreed with something the base held: "@,
            },
        },
{
    let plain = "When it arrived, the base already held something like it"@;
    reveal_strlit("When it arrived, the base already held something like it");
    reveal_strlit("When it arrived, the base already held something like it (");
    reveal_strlit("When it arrived, the base already held something like it.");
    reveal_strlit(" (");
    reveal_strlit(")");
    reveal_strlit(").");
    reveal_strlit(".");
    assert("When it arrived, the base already held something like it."@ =~= plain
        + Seq::<char>::empty() + "."@);
    if let Some(n) = found.nearest {
        assert("When it arrived, the base already held something like it ("@ + n@ + ")."@ =~= plain
            + (" ("@ + n@ + ")"@) + "."@);
    }
    assert("When it arrived, it disagreed with something the base held: "@
        + Seq::<char>::empty() =~= "When it arrived, it disagreed with something the base held: "@);
}

/// Every probe has its line: its class, its question cut at sixty-four
/// characters, and where it last found the artifact.
pub proof fn every_probe_has_its_line<L>(
    d: ArtifactDetail<L>,
    rows: PaneRows<L>,
    terms: Seq<char>,
    i: int,
)
    requires
        is_pane(Ok(d), rows, terms),
        0 <= i < rows.probes@.len(),
    ensures
        d.probes@.len() == rows.probes@.len(),
        ({
            let p = rows.probes@[i];
            let asked = if p.query@.len() > 64 {
                p.query@.take(64) + seq!['…']
            } else {
                p.query@
            };
            let head = p.class@ + " · “"@ + asked + "” · "@;
            match p.last {
                None => d.probes@[i]@ == head + "not yet rehearsed"@,
                Some(None) => d.probes@[i]@ == head + "not found"@,
                Some(Some(rank)) => d.probes@[i]@ == head + "rank "@ + text::signed(rank as int),
            }
        }),
{
    reveal_strlit("…");
    assert("…"@ =~= seq!['…']);
    let p = rows.probes@[i];
    assert(d.probes@[i]@ == probe_line(p));
    if let Some(Some(rank)) = p.last {
        let asked = if p.query@.len() > 64 {
            p.query@.take(64) + seq!['…']
        } else {
            p.query@
        };
        assert(p.class@ + " · “"@ + asked + "” · "@ + "rank "@ + text::signed(rank as int)
            =~= p.class@ + " · “"@ + asked + "” · "@ + ("rank "@ + text::signed(rank as int)));
    }
}

/// A reminder is due when it was put off to, or else at its own time, and how
/// far off that is is said exactly where it is known.
pub proof fn a_reminder_is_due_when_it_was_put_off_to<L>(
    d: ArtifactDetail<L>,
    rows: PaneRows<L>,
    m: Moment,
    terms: Seq<char>,
)
    requires
        is_pane(Ok(d), rows, terms),
        rows.due == Some(Some(m)),
    ensures
        m.snoozed_until is Some ==> d.due_at == m.snoozed_until && d.due_in == rows.due_in,
        m.snoozed_until is None ==> d.due_at == m.at,
        m.snoozed_until is None && m.at is Some ==> d.due_in == rows.due_in,
        m.snoozed_until is None && m.at is None ==> d.due_in is None,
{
}

/// Nothing is due where there is no reminder.
pub proof fn no_reminder_is_never_due<L>(
    d: ArtifactDetail<L>,
    rows: PaneRows<L>,
    terms: Seq<char>,
)
    requires
        is_pane(Ok(d), rows, terms),
        rows.due == Some(None::<Moment>),
    ensures
        d.due_at is None,
        d.due_in is None,
{
}

/// Beside an artifact stand the lines it claims and three on either side, as a
/// slice shows them; the opening of its source where it claims none; and
/// nothing where it has no source.
pub proof fn the_lines_beside_an_artifact<L>(
    d: ArtifactDetail<L>,
    rows: PaneRows<L>,
    c: Chunk,
    terms: Seq<char>,
    s: CorpusSlice,
)
    requires
        is_pane(Ok(d), rows, terms),
        rows.chunk == Some(c),
        s.lines == d.slice_lines,
        s.label == d.slice_label,
    ensures
        c.corpus_id is None ==> d.slice_label@.len() == 0 && d.slice_lines@.len() == 0,
        c.corpus_id is Some ==> (rows.corpus matches Some(source) && match c.corpus_span {
            Some(span) => corpus_view::is_slice(s, source, span, 3),
            None => corpus_view::is_opening(s, source),
        }),
{
}

/// An open is counted under the search that it came from, and only where
/// searches are learned from, that one may still return it, and it is the
/// reader's own and was taken.
pub proof fn an_open_is_counted_once_it_may_be(
    learning: bool,
    in_results: bool,
    event: Seq<char>,
    mine: bool,
    taken: bool,
)
    ensures
        counted_under(true, true, Some(event), true, true) == Some(event),
        counted_under(learning, in_results, Some(event), mine, taken) is Some <==> learning
            && in_results && mine && taken,
        counted_under(learning, in_results, None, mine, taken) is None,
{
}

/// A rung is on the ladder exactly where one of its names is that rung's.
pub proof fn a_rung_is_one_of_the_ladders(ladder: Seq<String>, rung: Seq<char>)
    ensures
        on_ladder(ladder, Some(rung)) <==> exists|i: int|
            0 <= i < ladder.len() && (#[trigger] ladder[i])@ == rung,
        !on_ladder(ladder, None),
{
    let names = text::texts(ladder);
    if on_ladder(ladder, Some(rung)) {
        let i = choose|i: int| 0 <= i < names.len() && names[i] == rung;
        assert(ladder[i]@ == rung);
    }
    if exists|i: int| 0 <= i < ladder.len() && (#[trigger] ladder[i])@ == rung {
        let i = choose|i: int| 0 <= i < ladder.len() && (#[trigger] ladder[i])@ == rung;
        assert(names[i] == rung);
    }
}

/// Deleting from a list stays on the list; from a pane it leads to the source,
/// and where there is none, to what was written from others.
pub proof fn a_delete_leads_to_the_source(corpus_id: Seq<char>)
    ensures
        after_delete(true, Some(corpus_id)) is None,
        after_delete(true, None) is None,
        after_delete(false, Some(corpus_id)) == Some("/ui/corpora/"@ + corpus_id),
        after_delete(false, None) == Some("/ui/insights"@),
{
}

// ---------------------------------------------------------------------------
// What holds of every call
// ---------------------------------------------------------------------------

/// A page that opens with code is linked as what follows the code is linked by
/// itself, and the code is left as it is.
pub proof fn a_page_is_linked_after_its_code(
    html: &str,
    n: usize,
    r: String,
    c: Seq<char>,
    rest: &str,
    tail: String,
)
    requires
        call_ensures(link_citations, (html, n), r),
        call_ensures(link_citations, (rest, n), tail),
        forall|i: int| 0 <= i < c.len() ==> #[trigger] c[i] != '<',
    ensures
        html@ == "<code>"@ + c + "</code>"@ + rest@ ==> r@ == "<code>"@ + c + "</code>"@ + tail@,
        html@ == "<pre>"@ + c + "</pre>"@ + rest@ ==> r@ == "<pre>"@ + c + "</pre>"@ + tail@,
{
    what_follows_code_is_linked(c, rest@, n as nat, 0);
}

/// An open that a rung of the ladder offered is taken down as that, with its
/// slot; any other is an ordinary one, with what it was reached through.
pub proof fn an_open_is_taken_down_as_what_it_was(
    ladder: &[String],
    rung: Option<String>,
    slot: Option<i64>,
    via: Option<String>,
    r: Opened,
)
    requires
        call_ensures(opened, (ladder, rung, slot, via), r),
    ensures
        rung is None ==> r == (Opened::Ordinary { via }),
        rung matches Some(name) ==> if exists|i: int|
            0 <= i < ladder@.len() && (#[trigger] ladder@[i])@ == name@ {
            r matches Opened::Recommended { kind, rung: said, slot: at } && kind@
                == "recommended_open"@ && said@ == name@ && at == slot
        } else {
            r == (Opened::Ordinary { via })
        },
{
    if let Some(name) = rung {
        a_rung_is_one_of_the_ladders(ladder@, name@);
    }
}

/// An edit that says nothing is refused; any other is answered with the pane
/// it was made in, and with a card everywhere else.
pub proof fn an_edit_is_answered_where_it_was_made(
    body: &str,
    view: &str,
    r: Result<EditShape, Error>,
)
    requires
        call_ensures(put_artifact, (body, view), r),
    ensures
        text::blank(body@) ==> (r matches Err(Error::Validation(m)) && m@
            == "chunk text is empty"@),
        !text::blank(body@) && view@ == "detail"@ ==> r == Ok::<EditShape, Error>(EditShape::Pane),
        !text::blank(body@) && view@ != "detail"@ ==> r == Ok::<EditShape, Error>(EditShape::Card),
{
}

/// An open is asked about only where it may be counted, and a review accepts a
/// loss exactly where one of what the artifact was written from is gone.
pub proof fn when_an_open_may_count(
    in_results: bool,
    learning: bool,
    event: Option<&str>,
    r: bool,
    flags: &[String],
    accepts: bool,
)
    requires
        call_ensures(may_count, (in_results, learning, event), r),
        call_ensures(reviewed_accepts_loss, (flags,), accepts),
    ensures
        r <==> learning && in_results && event is Some,
        accepts <==> exists|i: int|
            0 <= i < flags@.len() && (#[trigger] flags@[i])@ == "orphaned_source"@,
{
    let all = text::texts(flags@);
    if accepts {
        let i = choose|i: int| 0 <= i < all.len() && all[i] == "orphaned_source"@;
        assert(flags@[i]@ == "orphaned_source"@);
    }
    if exists|i: int| 0 <= i < flags@.len() && (#[trigger] flags@[i])@ == "orphaned_source"@ {
        let i = choose|i: int|
            0 <= i < flags@.len() && (#[trigger] flags@[i])@ == "orphaned_source"@;
        assert(all[i] == "orphaned_source"@);
    }
}

/// The pane that is built is of the artifact that was read, for the terms that
/// were asked for; and there is none without the artifact, or without a source
/// that it names.
pub proof fn a_pane_is_of_the_artifact_read<L>(
    rows: PaneRows<L>,
    terms: &str,
    r: Result<ArtifactDetail<L>, Error>,
)
    requires
        call_ensures(build_artifact_detail::<L>, (rows, terms), r),
    ensures
        r is Err <==> match rows.chunk {
            Some(c) => c.corpus_id is Some && rows.corpus is None,
            None => true,
        },
        r matches Ok(d) ==> (rows.chunk matches Some(c) && d.id@ == c.id@ && d.text@ == c.text@
            && d.html@ == c.html@ && d.terms@ == terms@ && d.corpus_id == c.corpus_id && d.status
            == c.status && d.superseded_by == c.superseded_by),
{
}

/// Every artifact of a list has its card, in its place: its own id, its own
/// name where it has one, and its own text.
pub proof fn every_artifact_has_its_card(v: Seq<ArtifactView>, c: Seq<Chunk>, i: int)
    requires
        are_cards(v, c),
        0 <= i < c.len(),
    ensures
        v.len() == c.len(),
        v[i].id@ == c[i].id@,
        v[i].html@ == c[i].html@,
        c[i].title is None || c[i].provenance is Passage || c[i].provenance is Note
            ==> v[i].title@.len() == 0,
        !(c[i].provenance is Passage || c[i].provenance is Note) ==> (c[i].title matches Some(t)
            ==> v[i].title@ == t@),
{
    let _ = v[i];
}

} // verus!
