//! Text as the rest of the library reads it: characters, lines, pieces,
//! whitespace and decimal numbers, each with the sequence it stands for.

use vstd::prelude::*;

verus! {

/// `String::push` appends one character and leaves what stood before it.
pub assume_specification[ String::push ](s: &mut String, c: char)
    ensures
        final(s)@ == old(s)@.push(c),
;

// ---------------------------------------------------------------------------
// What text is
// ---------------------------------------------------------------------------

/// What each of a run of strings spells.
pub open spec fn texts(v: Seq<String>) -> Seq<Seq<char>> {
    v.map_values(|s: String| s@)
}

/// What a string that may be absent spells.
pub open spec fn text_of(s: Option<String>) -> Option<Seq<char>> {
    match s {
        Some(t) => Some(t@),
        None => None,
    }
}

/// What a borrowed string that may be absent spells.
pub open spec fn borrowed(s: Option<&str>) -> Option<Seq<char>> {
    match s {
        Some(t) => Some(t@),
        None => None,
    }
}

/// What `s` spells, or nothing at all where it is absent.
pub open spec fn or_empty(s: Option<String>) -> Seq<char> {
    match s {
        Some(t) => t@,
        None => Seq::empty(),
    }
}

/// Where `c` first stands in `s`; the length of `s` where it does not.
pub open spec fn cut(s: Seq<char>, c: char) -> int
    decreases s.len(),
{
    if s.len() == 0 || s[0] == c {
        0
    } else {
        1 + cut(s.skip(1), c)
    }
}

/// A line without the carriage return that its line feed left behind.
pub open spec fn chop(line: Seq<char>) -> Seq<char> {
    if line.len() > 0 && line.last() == '\r' {
        line.drop_last()
    } else {
        line
    }
}

/// The lines of a text. A line ends at a line feed, with the carriage return
/// before it if there is one; a line feed at the very end opens no further
/// line.
pub open spec fn lines(s: Seq<char>) -> Seq<Seq<char>>
    decreases s.len(),
    via lines_shrink
{
    if s.len() == 0 {
        Seq::empty()
    } else if cut(s, '\n') < s.len() {
        seq![chop(s.take(cut(s, '\n')))] + lines(s.skip(cut(s, '\n') + 1))
    } else {
        seq![s]
    }
}

#[via_fn]
proof fn lines_shrink(s: Seq<char>) {
    cut_is_first(s, '\n');
}

/// What stands between one `c` and the next: always one piece more than there
/// are separators.
pub open spec fn pieces(s: Seq<char>, c: char) -> Seq<Seq<char>>
    decreases s.len(),
    via pieces_shrink
{
    if cut(s, c) < s.len() {
        seq![s.take(cut(s, c))] + pieces(s.skip(cut(s, c) + 1), c)
    } else {
        seq![s]
    }
}

#[via_fn]
proof fn pieces_shrink(s: Seq<char>, c: char) {
    cut_is_first(s, c);
}

/// The characters Unicode calls white space.
pub open spec fn is_white(c: char) -> bool {
    ||| '\u{9}' <= c <= '\u{d}'
    ||| c == ' '
    ||| c == '\u{85}'
    ||| c == '\u{a0}'
    ||| c == '\u{1680}'
    ||| '\u{2000}' <= c <= '\u{200a}'
    ||| c == '\u{2028}'
    ||| c == '\u{2029}'
    ||| c == '\u{202f}'
    ||| c == '\u{205f}'
    ||| c == '\u{3000}'
}

/// Nothing but white space, or nothing.
pub open spec fn blank(s: Seq<char>) -> bool {
    forall|i: int| 0 <= i < s.len() ==> is_white(#[trigger] s[i])
}

/// `s` without the white space it opens with.
pub open spec fn trim_start(s: Seq<char>) -> Seq<char>
    decreases s.len(),
{
    if s.len() > 0 && is_white(s[0]) {
        trim_start(s.skip(1))
    } else {
        s
    }
}

/// `s` without the white space it closes with.
pub open spec fn trim_end(s: Seq<char>) -> Seq<char>
    decreases s.len(),
{
    if s.len() > 0 && is_white(s.last()) {
        trim_end(s.drop_last())
    } else {
        s
    }
}

/// `s` without the white space on either side of it.
pub open spec fn trim(s: Seq<char>) -> Seq<char> {
    trim_end(trim_start(s))
}

/// The digit for `n`, which is less than ten.
pub open spec fn digit(n: nat) -> char {
    if n == 0 {
        '0'
    } else if n == 1 {
        '1'
    } else if n == 2 {
        '2'
    } else if n == 3 {
        '3'
    } else if n == 4 {
        '4'
    } else if n == 5 {
        '5'
    } else if n == 6 {
        '6'
    } else if n == 7 {
        '7'
    } else if n == 8 {
        '8'
    } else {
        '9'
    }
}

/// `n` in decimal, without leading zeros.
pub open spec fn decimal(n: nat) -> Seq<char>
    decreases n,
{
    if n < 10 {
        seq![digit(n)]
    } else {
        decimal(n / 10).push(digit(n % 10))
    }
}

/// `i` in decimal, with a sign where it is negative.
pub open spec fn signed(i: int) -> Seq<char> {
    if i < 0 {
        seq!['-'] + decimal((-i) as nat)
    } else {
        decimal(i as nat)
    }
}

/// `n` in decimal, on at least two places.
pub open spec fn two_places(n: nat) -> Seq<char> {
    if n < 10 {
        seq!['0'] + decimal(n)
    } else {
        decimal(n)
    }
}

/// `part` stands somewhere in `s`.
pub open spec fn holds(s: Seq<char>, part: Seq<char>) -> bool {
    exists|i: int| 0 <= i <= s.len() - part.len() && #[trigger] s.subrange(i, i + part.len()) == part
}

/// The pieces one after another, `sep` between them.
pub open spec fn join(v: Seq<Seq<char>>, sep: Seq<char>) -> Seq<char>
    decreases v.len(),
{
    if v.len() == 0 {
        Seq::empty()
    } else if v.len() == 1 {
        v[0]
    } else {
        join(v.drop_last(), sep) + sep + v.last()
    }
}

/// An ASCII letter in lower case; anything else as it is.
pub open spec fn lower(c: char) -> char {
    if 'A' <= c <= 'Z' {
        ((c as u8) + 32) as char
    } else {
        c
    }
}

/// `s` with its ASCII letters in lower case.
pub open spec fn lowered(s: Seq<char>) -> Seq<char> {
    s.map_values(|c: char| lower(c))
}

/// `a` comes no later than `b` in the order of their characters.
pub open spec fn at_most(a: Seq<char>, b: Seq<char>) -> bool
    decreases a.len(),
{
    if a.len() == 0 {
        true
    } else if b.len() == 0 {
        false
    } else if a[0] != b[0] {
        a[0] < b[0]
    } else {
        at_most(a.skip(1), b.skip(1))
    }
}

// ---------------------------------------------------------------------------
// Facts about it
// ---------------------------------------------------------------------------

/// `cut` is a position in the text or its end, nothing before it is `c`, and
/// where it is inside the text it is `c`.
pub proof fn cut_is_first(s: Seq<char>, c: char)
    ensures
        0 <= cut(s, c) <= s.len(),
        cut(s, c) < s.len() ==> s[cut(s, c)] == c,
        forall|i: int| 0 <= i < cut(s, c) ==> #[trigger] s[i] != c,
    decreases s.len(),
{
    if s.len() != 0 && s[0] != c {
        cut_is_first(s.skip(1), c);
        assert forall|i: int| 0 <= i < cut(s, c) implies #[trigger] s[i] != c by {
            if i > 0 {
                assert(s.skip(1)[i - 1] == s[i]);
            }
        }
    }
}

/// The first place where `c` stands is what `cut` names.
pub proof fn first_is_cut(s: Seq<char>, c: char, n: int)
    requires
        0 <= n <= s.len(),
        n < s.len() ==> s[n] == c,
        forall|i: int| 0 <= i < n ==> #[trigger] s[i] != c,
    ensures
        cut(s, c) == n,
{
    cut_is_first(s, c);
    if cut(s, c) < n {
        assert(s[cut(s, c)] != c);
    }
    if n < cut(s, c) {
        assert(s[n] == c);
    }
}

/// Adding to the end of a run adds to what it holds.
pub proof fn push_to_set<A>(s: Seq<A>, a: A)
    ensures
        s.push(a).to_set() == s.to_set().insert(a),
{
    let now = s.push(a);
    assert forall|p: A| #[trigger] now.to_set().contains(p) == s.to_set().insert(a).contains(p) by {
        if now.contains(p) {
            let i = choose|i: int| 0 <= i < now.len() && now[i] == p;
            if i < s.len() {
                assert(s[i] == p);
            }
        }
        if s.contains(p) {
            let i = choose|i: int| 0 <= i < s.len() && s[i] == p;
            assert(now[i] == p);
        }
        assert(now[s.len() as int] == a);
    }
    assert(now.to_set() =~= s.to_set().insert(a));
}

/// Trimming leaves nothing exactly where there was nothing but white space.
pub proof fn trim_of_blank(s: Seq<char>)
    ensures
        trim(s).len() == 0 <==> blank(s),
{
    trim_start_is(s);
    trim_end_is(trim_start(s));
    let t = trim_start(s);
    if blank(s) {
        assert(t.len() == 0);
    } else if t.len() > 0 {
        assert(!is_white(t[0]));
    }
}

/// What trimming the front does: it drops white space and stops at the first
/// character that is not.
pub proof fn trim_start_is(s: Seq<char>)
    ensures
        exists|k: int| 0 <= k <= s.len() && #[trigger] s.skip(k) == trim_start(s) && blank(s.take(k)),
        trim_start(s).len() > 0 ==> !is_white(trim_start(s)[0]),
        blank(s) <==> trim_start(s).len() == 0,
        trim_start(s).len() <= s.len(),
    decreases s.len(),
{
    if s.len() > 0 && is_white(s[0]) {
        trim_start_is(s.skip(1));
        let k = choose|k: int|
            0 <= k <= s.skip(1).len() && #[trigger] s.skip(1).skip(k) == trim_start(s.skip(1)) && blank(
                s.skip(1).take(k),
            );
        assert(s.skip(1).skip(k) =~= s.skip(k + 1));
        assert forall|i: int| 0 <= i < s.take(k + 1).len() implies is_white(
            #[trigger] s.take(k + 1)[i],
        ) by {
            if i > 0 {
                assert(s.skip(1).take(k)[i - 1] == s.take(k + 1)[i]);
            }
        }
        assert(s.skip(k + 1) == trim_start(s) && blank(s.take(k + 1)));
        if blank(s.skip(1)) {
            assert forall|i: int| 0 <= i < s.len() implies is_white(#[trigger] s[i]) by {
                if i > 0 {
                    assert(s.skip(1)[i - 1] == s[i]);
                }
            }
        }
        if blank(s) {
            assert forall|i: int| 0 <= i < s.skip(1).len() implies is_white(
                #[trigger] s.skip(1)[i],
            ) by {
                assert(s.skip(1)[i] == s[i + 1]);
            }
        }
    } else {
        assert(s.skip(0) =~= s);
        assert(blank(s.take(0)));
    }
}

/// What trimming the back does.
pub proof fn trim_end_is(s: Seq<char>)
    ensures
        exists|k: int| 0 <= k <= s.len() && #[trigger] s.take(k) == trim_end(s) && blank(s.skip(k)),
        trim_end(s).len() > 0 ==> !is_white(trim_end(s).last()),
        blank(s) <==> trim_end(s).len() == 0,
        trim_end(s).len() <= s.len(),
        trim_end(s).len() > 0 ==> trim_end(s)[0] == s[0],
    decreases s.len(),
{
    if s.len() > 0 && is_white(s.last()) {
        let d = s.drop_last();
        trim_end_is(d);
        let k = choose|k: int|
            0 <= k <= d.len() && #[trigger] d.take(k) == trim_end(d) && blank(d.skip(k));
        assert(d.take(k) =~= s.take(k));
        assert forall|i: int| 0 <= i < s.skip(k).len() implies is_white(#[trigger] s.skip(k)[i]) by {
            if k + i < d.len() {
                assert(d.skip(k)[i] == s.skip(k)[i]);
            }
        }
        assert(s.take(k) == trim_end(s) && blank(s.skip(k)));
        if blank(d) {
            assert forall|i: int| 0 <= i < s.len() implies is_white(#[trigger] s[i]) by {
                if i < d.len() {
                    assert(d[i] == s[i]);
                }
            }
        }
        if blank(s) {
            assert forall|i: int| 0 <= i < d.len() implies is_white(#[trigger] d[i]) by {
                assert(d[i] == s[i]);
            }
        }
    } else {
        assert(s.take(s.len() as int) =~= s);
        assert(blank(s.skip(s.len() as int)));
        if blank(s) && s.len() > 0 {
            assert(is_white(s[s.len() - 1]));
        }
    }
}

/// Text that opens and closes on something other than white space is left
/// alone by trimming.
pub proof fn trim_leaves(s: Seq<char>)
    requires
        s.len() > 0 ==> !is_white(s[0]) && !is_white(s.last()),
    ensures
        trim(s) == s,
{
}

/// Trimming twice is trimming once.
pub proof fn trim_twice(s: Seq<char>)
    ensures
        trim(trim(s)) == trim(s),
{
    trim_start_is(s);
    trim_end_is(trim_start(s));
    trim_leaves(trim(s));
}

/// A number written out is digits, and at least one.
pub proof fn decimal_is_digits(n: nat)
    ensures
        decimal(n).len() >= 1,
        forall|i: int| 0 <= i < decimal(n).len() ==> '0' <= #[trigger] decimal(n)[i] <= '9',
    decreases n,
{
    if n >= 10 {
        decimal_is_digits(n / 10);
    }
}

/// Every text comes no later than itself.
pub proof fn at_most_itself(a: Seq<char>)
    ensures
        at_most(a, a),
    decreases a.len(),
{
    if a.len() > 0 {
        at_most_itself(a.skip(1));
    }
}

/// Of two texts one comes no later than the other.
pub proof fn at_most_one_way(a: Seq<char>, b: Seq<char>)
    ensures
        at_most(a, b) || at_most(b, a),
    decreases a.len(),
{
    if a.len() > 0 && b.len() > 0 && a[0] == b[0] {
        at_most_one_way(a.skip(1), b.skip(1));
    }
}

/// The order of texts carries over a text between.
pub proof fn at_most_carries(a: Seq<char>, b: Seq<char>, c: Seq<char>)
    requires
        at_most(a, b),
        at_most(b, c),
    ensures
        at_most(a, c),
    decreases a.len(),
{
    if a.len() > 0 && b.len() > 0 && c.len() > 0 && a[0] == b[0] && b[0] == c[0] {
        at_most_carries(a.skip(1), b.skip(1), c.skip(1));
    }
}

// ---------------------------------------------------------------------------
// Reading and building it
// ---------------------------------------------------------------------------

/// The characters of `s`, in order.
pub fn chars_of(s: &str) -> (v: Vec<char>)
    ensures
        v@ == s@,
{
    let mut v: Vec<char> = Vec::new();
    for c in it: s.chars()
        invariant
            v@ == it.seq().take(it.index()),
            it.seq() == s@,
    {
        v.push(c);
    }
    v
}

/// The text that `v[from..to]` spells.
pub fn spell(v: &[char], from: usize, to: usize) -> (s: String)
    requires
        from <= to <= v@.len(),
    ensures
        s@ == v@.subrange(from as int, to as int),
{
    let mut s = String::new();
    let mut i: usize = from;
    while i < to
        invariant
            from <= i <= to <= v@.len(),
            s@ == v@.subrange(from as int, i as int),
        decreases to - i,
    {
        s.push(v[i]);
        i = i + 1;
    }
    s
}

/// Whether two strings spell the same thing.
pub fn same(a: &str, b: &str) -> (r: bool)
    ensures
        r == (a@ == b@),
{
    a.to_owned() == b.to_owned()
}

/// Whether two runs of strings spell the same things.
pub fn same_all(a: &[String], b: &[String]) -> (r: bool)
    ensures
        r == (texts(a@) == texts(b@)),
{
    if a.len() != b.len() {
        assert(texts(a@).len() != texts(b@).len());
        return false;
    }
    let mut i: usize = 0;
    while i < a.len()
        invariant
            i <= a@.len() == b@.len(),
            forall|j: int| 0 <= j < i ==> (#[trigger] a@[j])@ == b@[j]@,
        decreases a.len() - i,
    {
        if a[i] != b[i] {
            assert(texts(a@)[i as int] != texts(b@)[i as int]);
            return false;
        }
        i = i + 1;
    }
    assert(texts(a@) =~= texts(b@));
    true
}

/// Whether one of `v` spells `s`.
pub fn any_same(v: &[String], s: &str) -> (r: bool)
    ensures
        r == texts(v@).contains(s@),
{
    let mut i: usize = 0;
    while i < v.len()
        invariant
            i <= v@.len(),
            forall|j: int| 0 <= j < i ==> (#[trigger] v@[j])@ != s@,
        decreases v.len() - i,
    {
        if same(v[i].as_str(), s) {
            assert(texts(v@)[i as int] == s@);
            return true;
        }
        i = i + 1;
    }
    proof {
        if texts(v@).contains(s@) {
            let k = choose|k: int| 0 <= k < texts(v@).len() && texts(v@)[k] == s@;
            assert(v@[k]@ == s@);
        }
    }
    false
}

/// A copy of a run of strings.
pub fn copy_all(v: &[String]) -> (r: Vec<String>)
    ensures
        r@ == v@,
{
    let mut r: Vec<String> = Vec::new();
    let mut i: usize = 0;
    while i < v.len()
        invariant
            i <= v@.len(),
            r@ == v@.take(i as int),
        decreases v.len() - i,
    {
        r.push(v[i].clone());
        i = i + 1;
    }
    assert(v@.take(v@.len() as int) =~= v@);
    r
}

/// A copy of a string that may be absent.
pub fn copy_opt(s: &Option<String>) -> (r: Option<String>)
    ensures
        r == *s,
{
    match s {
        Some(t) => Some(t.clone()),
        None => None,
    }
}

/// Whether `c` is white space.
pub fn white(c: char) -> (r: bool)
    ensures
        r == is_white(c),
{
    ('\u{9}' <= c && c <= '\u{d}') || c == ' ' || c == '\u{85}' || c == '\u{a0}' || c == '\u{1680}'
        || ('\u{2000}' <= c && c <= '\u{200a}') || c == '\u{2028}' || c == '\u{2029}' || c
        == '\u{202f}' || c == '\u{205f}' || c == '\u{3000}'
}

/// Whether there is nothing in `s` but white space.
pub fn is_blank(s: &str) -> (r: bool)
    ensures
        r == blank(s@),
        r == (trim(s@).len() == 0),
{
    proof {
        trim_of_blank(s@);
    }
    let v = chars_of(s);
    let mut i: usize = 0;
    while i < v.len()
        invariant
            i <= v@.len(),
            v@ == s@,
            blank(s@) <==> trim(s@).len() == 0,
            forall|j: int| 0 <= j < i ==> is_white(#[trigger] v@[j]),
        decreases v.len() - i,
    {
        if !white(v[i]) {
            return false;
        }
        i = i + 1;
    }
    true
}

/// `s` without the white space on either side of it.
pub fn trimmed(s: &str) -> (r: String)
    ensures
        r@ == trim(s@),
{
    let v = chars_of(s);
    let mut from: usize = 0;
    assert(v@.skip(0) =~= v@);
    while from < v.len() && white(v[from])
        invariant
            from <= v@.len(),
            trim_start(v@.skip(from as int)) == trim_start(v@),
        decreases v.len() - from,
    {
        assert(v@.skip(from as int).skip(1) =~= v@.skip(from + 1));
        from = from + 1;
    }
    let mut to: usize = v.len();
    let ghost t = v@.skip(from as int);
    assert(t == trim_start(v@));
    assert(v@.subrange(from as int, to as int) =~= t);
    while from < to && white(v[to - 1])
        invariant
            from <= to <= v@.len(),
            trim_end(v@.subrange(from as int, to as int)) == trim_end(t),
        decreases to - from,
    {
        assert(v@.subrange(from as int, to as int).drop_last() =~= v@.subrange(
            from as int,
            to - 1,
        ));
        assert(v@.subrange(from as int, to as int).last() == v@[to - 1]);
        to = to - 1;
    }
    proof {
        let u = v@.subrange(from as int, to as int);
        if u.len() > 0 {
            assert(u.last() == v@[to - 1]);
        }
    }
    spell(v.as_slice(), from, to)
}

/// The lines of `s`.
pub fn lines_of(s: &str) -> (r: Vec<String>)
    ensures
        texts(r@) == lines(s@),
{
    let v = chars_of(s);
    let mut r: Vec<String> = Vec::new();
    let mut from: usize = 0;
    let mut i: usize = 0;
    assert(v@.skip(0) =~= v@);
    assert(texts(r@) + lines(v@.skip(0)) =~= lines(v@));
    while i < v.len()
        invariant
            from <= i <= v@.len(),
            texts(r@) + lines(v@.skip(from as int)) == lines(v@),
            forall|j: int| from <= j < i ==> #[trigger] v@[j] != '\n',
        decreases v.len() - i,
    {
        if v[i] == '\n' {
            let ghost rest = v@.skip(from as int);
            let mut end: usize = i;
            if from < end && v[end - 1] == '\r' {
                end = end - 1;
            }
            let line = spell(v.as_slice(), from, end);
            proof {
                first_is_cut(rest, '\n', i - from);
                assert(rest.take(i - from) =~= v@.subrange(from as int, i as int));
                assert(line@ =~= chop(rest.take(i - from)));
                assert(rest.skip(i - from + 1) =~= v@.skip(i + 1));
                assert(texts(r@.push(line)) =~= texts(r@).push(line@));
                assert(texts(r@).push(line@) + lines(v@.skip(i + 1)) =~= texts(r@) + (seq![line@]
                    + lines(v@.skip(i + 1))));
            }
            r.push(line);
            from = i + 1;
        }
        i = i + 1;
    }
    if from < v.len() {
        let ghost rest = v@.skip(from as int);
        let line = spell(v.as_slice(), from, v.len());
        proof {
            first_is_cut(rest, '\n', rest.len() as int);
            assert(line@ =~= rest);
            assert(texts(r@.push(line)) =~= texts(r@).push(line@));
            assert(texts(r@).push(line@) =~= texts(r@) + seq![rest]);
        }
        r.push(line);
    } else {
        assert(texts(r@) + Seq::<Seq<char>>::empty() =~= texts(r@));
    }
    r
}

/// What stands between one `c` in `s` and the next.
pub fn pieces_of(s: &str, c: char) -> (r: Vec<String>)
    ensures
        texts(r@) == pieces(s@, c),
{
    let v = chars_of(s);
    let mut r: Vec<String> = Vec::new();
    let mut from: usize = 0;
    let mut i: usize = 0;
    assert(v@.skip(0) =~= v@);
    assert(texts(r@) + pieces(v@.skip(0), c) =~= pieces(v@, c));
    while i < v.len()
        invariant
            from <= i <= v@.len(),
            texts(r@) + pieces(v@.skip(from as int), c) == pieces(v@, c),
            forall|j: int| from <= j < i ==> #[trigger] v@[j] != c,
        decreases v.len() - i,
    {
        if v[i] == c {
            let ghost rest = v@.skip(from as int);
            let piece = spell(v.as_slice(), from, i);
            proof {
                first_is_cut(rest, c, i - from);
                assert(rest.take(i - from) =~= piece@);
                assert(rest.skip(i - from + 1) =~= v@.skip(i + 1));
                assert(texts(r@.push(piece)) =~= texts(r@).push(piece@));
                assert(texts(r@).push(piece@) + pieces(v@.skip(i + 1), c) =~= texts(r@) + (
                seq![piece@] + pieces(v@.skip(i + 1), c)));
            }
            r.push(piece);
            from = i + 1;
        }
        i = i + 1;
    }
    let ghost rest = v@.skip(from as int);
    let piece = spell(v.as_slice(), from, v.len());
    proof {
        first_is_cut(rest, c, rest.len() as int);
        assert(piece@ =~= rest);
        assert(texts(r@.push(piece)) =~= texts(r@).push(piece@));
        assert(texts(r@).push(piece@) =~= texts(r@) + seq![rest]);
    }
    r.push(piece);
    r
}

/// Whether `s` opens with `p`.
pub fn opens_with(s: &str, p: &str) -> (r: bool)
    ensures
        r == p@.is_prefix_of(s@),
{
    let v = chars_of(s);
    let w = chars_of(p);
    if w.len() > v.len() {
        return false;
    }
    let mut i: usize = 0;
    while i < w.len()
        invariant
            i <= w@.len() <= v@.len(),
            v@ == s@,
            w@ == p@,
            forall|j: int| 0 <= j < i ==> #[trigger] v@[j] == w@[j],
        decreases w.len() - i,
    {
        if v[i] != w[i] {
            assert(v@.subrange(0, w@.len() as int)[i as int] != w@[i as int]);
            return false;
        }
        i = i + 1;
    }
    assert(v@.subrange(0, w@.len() as int) =~= w@);
    true
}

/// Whether `s` closes with `p`.
pub fn closes_with(s: &str, p: &str) -> (r: bool)
    ensures
        r == p@.is_suffix_of(s@),
{
    let v = chars_of(s);
    let w = chars_of(p);
    if w.len() > v.len() {
        return false;
    }
    let n: usize = v.len();
    let off: usize = n - w.len();
    let mut i: usize = 0;
    while i < w.len()
        invariant
            i <= w@.len() <= v@.len(),
            v@ == s@,
            w@ == p@,
            n == v@.len(),
            off == n - w@.len(),
            forall|j: int| 0 <= j < i ==> #[trigger] w@[j] == v@[off + j],
        decreases w.len() - i,
    {
        if v[off + i] != w[i] {
            assert(v@.subrange(off as int, v@.len() as int)[i as int] != w@[i as int]);
            return false;
        }
        i = i + 1;
    }
    assert(v@.subrange(off as int, v@.len() as int) =~= w@);
    true
}

/// Whether `p` stands somewhere in `s`.
pub fn has(s: &str, p: &str) -> (r: bool)
    ensures
        r == holds(s@, p@),
{
    let v = chars_of(s);
    let w = chars_of(p);
    if w.len() > v.len() {
        return false;
    }
    let n: usize = v.len();
    let last: usize = n - w.len();
    let mut at: usize = 0;
    loop
        invariant
            v@ == s@,
            w@ == p@,
            w@.len() <= v@.len() == n,
            last == n - w@.len(),
            at <= last,
            forall|k: int| 0 <= k < at ==> #[trigger] v@.subrange(k, k + w@.len()) != w@,
        decreases last - at,
    {
        let mut i: usize = 0;
        let mut equal = true;
        while i < w.len() && equal
            invariant
                i <= w@.len() <= v@.len() == n,
                at <= last == n - w@.len(),
                equal ==> forall|j: int| 0 <= j < i ==> #[trigger] w@[j] == v@[at + j],
                !equal ==> exists|j: int| 0 <= j < w@.len() && #[trigger] w@[j] != v@[at + j],
            decreases w.len() - i,
        {
            if v[at + i] != w[i] {
                equal = false;
            }
            i = i + 1;
        }
        if equal {
            assert(v@.subrange(at as int, at + w@.len()) =~= w@);
            return true;
        }
        proof {
            let j = choose|j: int| 0 <= j < w@.len() && #[trigger] w@[j] != v@[at + j];
            assert(v@.subrange(at as int, at + w@.len())[j] != w@[j]);
        }
        if at == last {
            return false;
        }
        at = at + 1;
    }
}

/// Whether `a` comes no later than `b` in the order of their characters.
pub fn no_later(a: &str, b: &str) -> (r: bool)
    ensures
        r == at_most(a@, b@),
{
    let v = chars_of(a);
    let w = chars_of(b);
    let mut i: usize = 0;
    assert(v@.skip(0) =~= v@);
    assert(w@.skip(0) =~= w@);
    while i < v.len() && i < w.len() && v[i] == w[i]
        invariant
            v@ == a@,
            w@ == b@,
            i <= v@.len(),
            i <= w@.len(),
            at_most(v@.skip(i as int), w@.skip(i as int)) == at_most(a@, b@),
        decreases v.len() - i,
    {
        assert(v@.skip(i as int).skip(1) =~= v@.skip(i + 1));
        assert(w@.skip(i as int).skip(1) =~= w@.skip(i + 1));
        i = i + 1;
    }
    if i == v.len() {
        true
    } else if i == w.len() {
        false
    } else {
        v[i] < w[i]
    }
}

/// `s` from its `n`th character on.
pub fn past(s: &str, n: usize) -> (r: String)
    requires
        n <= s@.len(),
    ensures
        r@ == s@.skip(n as int),
{
    let v = chars_of(s);
    let r = spell(v.as_slice(), n, v.len());
    assert(r@ =~= s@.skip(n as int));
    r
}

/// The pieces one after another, `sep` between them.
pub fn joined(v: &[String], sep: &str) -> (r: String)
    ensures
        r@ == join(texts(v@), sep@),
{
    let mut r = String::new();
    let mut i: usize = 0;
    assert(texts(v@).take(0) =~= Seq::<Seq<char>>::empty());
    while i < v.len()
        invariant
            i <= v@.len(),
            r@ == join(texts(v@).take(i as int), sep@),
        decreases v.len() - i,
    {
        let ghost now = texts(v@).take(i + 1);
        assert(now.drop_last() =~= texts(v@).take(i as int));
        if i > 0 {
            r.append(sep);
        }
        r.append(v[i].as_str());
        proof {
            if i == 0 {
                assert(r@ =~= now[0]);
            }
        }
        i = i + 1;
    }
    assert(texts(v@).take(v@.len() as int) =~= texts(v@));
    r
}

/// An ASCII letter in lower case; anything else as it is.
pub fn lower_of(c: char) -> (r: char)
    ensures
        r == lower(c),
{
    if 'A' <= c && c <= 'Z' {
        let code: u8 = c as u8;
        (code + 32) as char
    } else {
        c
    }
}

/// Whether two strings spell the same thing once ASCII case is set aside.
pub fn same_but_for_case(a: &str, b: &str) -> (r: bool)
    ensures
        r == (lowered(a@) == lowered(b@)),
{
    let v = chars_of(a);
    let w = chars_of(b);
    if v.len() != w.len() {
        assert(lowered(a@).len() != lowered(b@).len());
        return false;
    }
    let mut i: usize = 0;
    while i < v.len()
        invariant
            v@ == a@,
            w@ == b@,
            i <= v@.len() == w@.len(),
            forall|j: int| 0 <= j < i ==> lower(#[trigger] v@[j]) == lower(w@[j]),
        decreases v.len() - i,
    {
        if lower_of(v[i]) != lower_of(w[i]) {
            assert(lowered(a@)[i as int] != lowered(b@)[i as int]);
            return false;
        }
        i = i + 1;
    }
    assert(lowered(a@) =~= lowered(b@));
    true
}

/// The digit for `n`.
fn digit_of(n: u64) -> (c: char)
    requires
        n < 10,
    ensures
        c == digit(n as nat),
{
    if n == 0 {
        '0'
    } else if n == 1 {
        '1'
    } else if n == 2 {
        '2'
    } else if n == 3 {
        '3'
    } else if n == 4 {
        '4'
    } else if n == 5 {
        '5'
    } else if n == 6 {
        '6'
    } else if n == 7 {
        '7'
    } else if n == 8 {
        '8'
    } else {
        '9'
    }
}

/// `n` in decimal.
pub fn decimal_of(n: u64) -> (r: String)
    ensures
        r@ == decimal(n as nat),
    decreases n,
{
    if n < 10 {
        let mut r = String::new();
        r.push(digit_of(n));
        assert(r@ =~= decimal(n as nat));
        r
    } else {
        let mut r = decimal_of(n / 10);
        r.push(digit_of(n % 10));
        r
    }
}

/// `i` in decimal, with a sign where it is negative.
pub fn signed_of(i: i64) -> (r: String)
    ensures
        r@ == signed(i as int),
{
    if i >= 0 {
        decimal_of(i as u64)
    } else {
        let size: u64 = (-(i as i128)) as u64;
        let digits = decimal_of(size);
        let mut r = String::new();
        r.push('-');
        r.append(digits.as_str());
        assert(r@ =~= signed(i as int));
        r
    }
}

/// `n` in decimal, on at least two places.
pub fn two_places_of(n: u64) -> (r: String)
    ensures
        r@ == two_places(n as nat),
{
    if n < 10 {
        let mut r = String::new();
        r.push('0');
        r.append(decimal_of(n).as_str());
        assert(r@ =~= two_places(n as nat));
        r
    } else {
        decimal_of(n)
    }
}

// ---------------------------------------------------------------------------
// What holds of every text
// ---------------------------------------------------------------------------

/// A string that is there spells what it spells, and one that is not spells
/// nothing; a run of strings spells as many texts, each in its place.
pub proof fn a_string_spells_itself(s: String, v: Seq<String>, i: int)
    requires
        0 <= i < v.len(),
    ensures
        text_of(Some(s)) == Some(s@),
        text_of(None) is None,
        or_empty(Some(s)) == s@,
        or_empty(None).len() == 0,
        borrowed(None) is None,
        texts(v).len() == v.len(),
        texts(v)[i] == v[i]@,
{
}

/// The number that a run of decimal digits stands for.
pub open spec fn reads(digits: Seq<char>) -> int
    decreases digits.len(),
{
    if digits.len() == 0 {
        0
    } else {
        reads(digits.drop_last()) * 10 + (digits.last() as int - 48)
    }
}

/// A digit weighs ten times what the one after it does.
pub proof fn each_place_weighs_ten(digits: Seq<char>, c: char)
    ensures
        reads(Seq::empty()) == 0,
        reads(digits.push(c)) == 10 * reads(digits) + (c as int - 48),
{
    assert(digits.push(c).drop_last() =~= digits);
}

/// A number written out reads back as itself, and is written without a zero
/// ahead of it.
pub proof fn a_number_reads_back(n: nat)
    ensures
        reads(decimal(n)) == n,
        n > 0 ==> decimal(n)[0] != '0',
        forall|i: int| 0 <= i < decimal(n).len() ==> 48 <= (#[trigger] decimal(n)[i]) as int <= 57,
    decreases n,
{
    let d = decimal(n);
    if n < 10 {
        assert(d.drop_last() =~= Seq::<char>::empty());
        assert(reads(d.drop_last()) == 0);
    } else {
        a_number_reads_back(n / 10);
        decimal_is_digits(n / 10);
        each_place_weighs_ten(decimal(n / 10), digit(n % 10));
        assert(d[0] == decimal(n / 10)[0]);
        assert forall|i: int| 0 <= i < d.len() implies 48 <= (#[trigger] d[i]) as int <= 57 by {
            if i < d.len() - 1 {
                assert(d[i] == decimal(n / 10)[i]);
            }
        }
    }
}

/// A number with a sign reads back as itself: the sign stands exactly where the
/// number is less than nothing, and the digits after it are those of its size.
pub proof fn a_signed_number_reads_back(i: int)
    ensures
        i >= 0 ==> reads(signed(i)) == i && signed(i)[0] != '-',
        i < 0 ==> signed(i)[0] == '-' && reads(signed(i).skip(1)) == -i,
{
    if i >= 0 {
        a_number_reads_back(i as nat);
        decimal_is_digits(i as nat);
    } else {
        a_number_reads_back((-i) as nat);
        assert(signed(i).skip(1) =~= decimal((-i) as nat));
    }
}

/// A number of less than a hundred stands on exactly two places, and reads back
/// as itself.
pub proof fn two_places_read_back(n: nat)
    requires
        n < 100,
    ensures
        two_places(n).len() == 2,
        reads(two_places(n)) == n,
{
    a_number_reads_back(n);
    reveal_with_fuel(decimal, 3);
    reveal_with_fuel(reads, 4);
    if n < 10 {
        assert(two_places(n) =~= seq!['0', digit(n)]);
        assert(two_places(n).drop_last() =~= seq!['0']);
        assert(seq!['0'].drop_last() =~= Seq::<char>::empty());
        assert(decimal(n).drop_last() =~= Seq::<char>::empty());
    }
}

/// A line without its line feed opens the lines of what follows it, without the
/// carriage return that it may end with; a text without a line feed is one
/// line, and no text is no line.
pub proof fn a_line_ends_at_its_line_feed(line: Seq<char>, rest: Seq<char>)
    requires
        forall|i: int| 0 <= i < line.len() ==> #[trigger] line[i] != '\n',
    ensures
        lines(line + seq!['\n'] + rest) == seq![chop(line)] + lines(rest),
        line.len() > 0 ==> lines(line) == seq![line],
        lines(Seq::empty()).len() == 0,
        chop(line.push('\r')) == line,
        line.len() == 0 || line.last() != '\r' ==> chop(line) == line,
{
    let s = line + seq!['\n'] + rest;
    assert(s[line.len() as int] == '\n');
    assert forall|i: int| 0 <= i < line.len() implies #[trigger] s[i] != '\n' by {
        assert(s[i] == line[i]);
    }
    first_is_cut(s, '\n', line.len() as int);
    assert(s.take(line.len() as int) =~= line);
    assert(s.skip(line.len() as int + 1) =~= rest);
    first_is_cut(line, '\n', line.len() as int);
    assert(line.push('\r').drop_last() =~= line);
}

/// Putting the pieces of a text together again with what parted them gives the
/// text, and no piece holds what parts them.
pub proof fn pieces_come_together_again(s: Seq<char>, c: char)
    ensures
        pieces(s, c).len() >= 1,
        glued(pieces(s, c), c) == s,
        forall|i: int, j: int|
            0 <= i < pieces(s, c).len() && 0 <= j < pieces(s, c)[i].len() ==> #[trigger] pieces(
                s,
                c,
            )[i][j] != c,
    decreases s.len(),
{
    cut_is_first(s, c);
    let k = cut(s, c);
    let p = pieces(s, c);
    if k < s.len() {
        let rest = s.skip(k + 1);
        pieces_come_together_again(rest, c);
        let q = pieces(rest, c);
        assert(p =~= seq![s.take(k)] + q);
        assert(p.skip(1) =~= q);
        assert(glued(p, c) =~= s.take(k) + seq![c] + rest);
        assert(s =~= s.take(k) + seq![c] + rest);
        assert forall|i: int, j: int| 0 <= i < p.len() && 0 <= j < p[i].len() implies
            #[trigger] p[i][j] != c by {
            if i == 0 {
                assert(p[i][j] == s[j]);
            } else {
                assert(p[i] == q[i - 1]);
                assert(q[i - 1][j] != c);
            }
        }
    } else {
        assert(p =~= seq![s]);
        assert forall|i: int, j: int| 0 <= i < p.len() && 0 <= j < p[i].len() implies
            #[trigger] p[i][j] != c by {
            assert(p[i] == s);
        }
    }
}

/// Texts one after another, `c` between them.
pub open spec fn glued(v: Seq<Seq<char>>, c: char) -> Seq<char>
    decreases v.len(),
{
    if v.len() == 0 {
        Seq::empty()
    } else if v.len() == 1 {
        v[0]
    } else {
        v[0] + seq![c] + glued(v.skip(1), c)
    }
}

/// Joining puts each text after those ahead of it, with what stands between
/// them, and changes none of them.
pub proof fn joining_adds_at_the_end(v: Seq<Seq<char>>, one: Seq<char>, sep: Seq<char>)
    ensures
        join(Seq::empty(), sep).len() == 0,
        join(seq![one], sep) == one,
        v.len() > 0 ==> join(v.push(one), sep) == join(v, sep) + sep + one,
{
    assert(v.push(one).drop_last() =~= v);
}

/// Trimming takes white space off either end and nothing else: what it takes
/// off is white, what is left neither opens nor closes with white space, and
/// together they are the text.
pub proof fn trimming_takes_white_space_off_the_ends(s: Seq<char>) -> (ends: (int, int))
    ensures
        0 <= ends.0 <= ends.1 <= s.len(),
        trim(s) == s.subrange(ends.0, ends.1),
        forall|i: int| 0 <= i < ends.0 ==> is_white(#[trigger] s[i]),
        forall|i: int| ends.1 <= i < s.len() ==> is_white(#[trigger] s[i]),
        ends.0 < ends.1 ==> !is_white(s[ends.0]) && !is_white(s[ends.1 - 1]),
{
    trim_start_is(s);
    let from = choose|k: int|
        0 <= k <= s.len() && #[trigger] s.skip(k) == trim_start(s) && blank(s.take(k));
    let t = trim_start(s);
    trim_end_is(t);
    let len = choose|k: int| 0 <= k <= t.len() && #[trigger] t.take(k) == trim_end(t) && blank(t.skip(k));
    assert(trim(s) =~= s.subrange(from, from + len));
    assert forall|i: int| 0 <= i < from implies is_white(#[trigger] s[i]) by {
        assert(s.take(from)[i] == s[i]);
    }
    assert forall|i: int| from + len <= i < s.len() implies is_white(#[trigger] s[i]) by {
        assert(t.skip(len)[i - from - len] == s[i]);
    }
    if len > 0 {
        assert(trim(s)[0] == s[from]);
        assert(trim(s).last() == s[from + len - 1]);
        assert(t[0] == s[from]);
    }
    (from, from + len)
}

/// Of the ASCII characters, white space is the space and what stands from the
/// tab to the carriage return; a letter, a digit or a sign is none.
pub proof fn ascii_white_space(c: char)
    requires
        (c as int) < 128,
    ensures
        is_white(c) <==> c as int == 32 || 9 <= c as int <= 13,
{
}

/// Case is set aside letter by letter: a capital becomes the small letter 32
/// places on, and nothing else changes.
pub proof fn case_is_set_aside_letter_by_letter(s: Seq<char>, i: int)
    requires
        0 <= i < s.len(),
    ensures
        lowered(s).len() == s.len(),
        65 <= s[i] as int <= 90 ==> lowered(s)[i] as int == s[i] as int + 32,
        !(65 <= s[i] as int <= 90) ==> lowered(s)[i] == s[i],
{
}

/// The order of texts is decided where they first differ: by the characters
/// there, or by which of them ends there.
pub proof fn the_first_difference_decides(
    head: Seq<char>,
    x: char,
    y: char,
    a: Seq<char>,
    b: Seq<char>,
)
    ensures
        x != y ==> (at_most(head + seq![x] + a, head + seq![y] + b) <==> x < y),
        at_most(head, head + seq![x] + a),
        !at_most(head + seq![x] + a, head),
    decreases head.len(),
{
    let one = head + seq![x] + a;
    let two = head + seq![y] + b;
    if head.len() > 0 {
        the_first_difference_decides(head.skip(1), x, y, a, b);
        assert(one.skip(1) =~= head.skip(1) + seq![x] + a);
        assert(two.skip(1) =~= head.skip(1) + seq![y] + b);
    }
}

/// A text holds another exactly where it is that one with something before it
/// and something after it.
pub proof fn a_text_holds_what_stands_in_it(a: Seq<char>, part: Seq<char>, b: Seq<char>)
    ensures
        holds(a + part + b, part),
        holds(a, part) ==> exists|i: int|
            0 <= i <= a.len() - part.len() && a == a.take(i) + part + #[trigger] a.skip(
                i + part.len(),
            ),
{
    let s = a + part + b;
    assert(s.subrange(a.len() as int, (a.len() + part.len()) as int) =~= part);
    if holds(a, part) {
        let i = choose|i: int|
            0 <= i <= a.len() - part.len() && #[trigger] a.subrange(i, i + part.len()) == part;
        assert(a =~= a.take(i) + part + a.skip(i + part.len()));
    }
}

/// A text is blank exactly where it is white space all through.
pub proof fn blank_is_white_all_through(s: Seq<char>)
    ensures
        blank(s) <==> forall|i: int| 0 <= i < s.len() ==> is_white(#[trigger] s[i]),
{
}

} // verus!
