//! A value of a JSON document, and what is read out of one.

use crate::text;
use crate::text::{any_same, same};
use vstd::prelude::*;

verus! {

/// A number of a JSON document.
pub struct Number {
    /// How it is written out when it is shown.
    pub shown: String,
    /// Its value, where it is a whole number that is not negative.
    pub whole: Option<u64>,
}

/// A value of a JSON document.
pub enum Json {
    Null,
    Bool(bool),
    Number(Number),
    Text(String),
    Array(Vec<Json>),
    Object(Vec<(String, Json)>),
}

/// What an object's members hold under `key`.
pub open spec fn member(members: Seq<(String, Json)>, key: Seq<char>) -> Option<Json>
    decreases members.len(),
{
    if members.len() == 0 {
        None
    } else if members[0].0@ == key {
        Some(members[0].1)
    } else {
        member(members.skip(1), key)
    }
}

/// What a value holds under `key`: nothing, unless it is an object that has
/// that key.
pub open spec fn under(v: Json, key: Seq<char>) -> Option<Json> {
    match v {
        Json::Object(members) => member(members@, key),
        _ => None,
    }
}

/// What a value holds under `outer` and there under `inner`.
pub open spec fn under2(v: Json, outer: Seq<char>, inner: Seq<char>) -> Option<Json> {
    match under(v, outer) {
        Some(w) => under(w, inner),
        None => None,
    }
}

/// The text a value is, where it is one.
pub open spec fn as_text(v: Option<Json>) -> Option<Seq<char>> {
    match v {
        Some(Json::Text(t)) => Some(t@),
        _ => None,
    }
}

/// The number a value is, as it is shown, where it is one.
pub open spec fn as_shown(v: Option<Json>) -> Option<Seq<char>> {
    match v {
        Some(Json::Number(n)) => Some(n.shown@),
        _ => None,
    }
}

/// The whole number a value is, where it is one.
pub open spec fn as_whole(v: Option<Json>) -> Option<u64> {
    match v {
        Some(Json::Number(n)) => n.whole,
        _ => None,
    }
}

/// A borrowed value and the value it borrows.
pub open spec fn lent(r: Option<&Json>, v: Option<Json>) -> bool {
    match (r, v) {
        (Some(x), Some(y)) => *x == y,
        (None, None) => true,
        _ => false,
    }
}

impl Json {
    /// What this holds under `key`.
    pub fn get<'a>(&'a self, key: &str) -> (r: Option<&'a Json>)
        ensures
            lent(r, under(*self, key@)),
    {
        match self {
            Json::Object(members) => {
                let mut i: usize = 0;
                assert(members@.skip(0) =~= members@);
                while i < members.len()
                    invariant
                        i <= members@.len(),
                        member(members@.skip(i as int), key@) == member(members@, key@),
                        under(*self, key@) == member(members@, key@),
                    decreases members.len() - i,
                {
                    if same(members[i].0.as_str(), key) {
                        return Some(&members[i].1);
                    }
                    assert(members@.skip(i as int).skip(1) =~= members@.skip(i + 1));
                    i = i + 1;
                }
                None
            },
            _ => None,
        }
    }

    /// What this holds under `outer` and there under `inner`.
    pub fn get2<'a>(&'a self, outer: &str, inner: &str) -> (r: Option<&'a Json>)
        ensures
            lent(r, under2(*self, outer@, inner@)),
    {
        match self.get(outer) {
            Some(v) => v.get(inner),
            None => None,
        }
    }
}

/// The text `v` is, where it is one.
pub fn text_in(v: Option<&Json>) -> (r: Option<String>)
    ensures
        forall|w: Option<Json>| #[trigger] lent(v, w) ==> text::text_of(r) == as_text(w),
{
    match v {
        Some(Json::Text(t)) => Some(t.clone()),
        _ => None,
    }
}

/// The number `v` is, as it is shown, where it is one.
pub fn shown_in(v: Option<&Json>) -> (r: Option<String>)
    ensures
        forall|w: Option<Json>| #[trigger] lent(v, w) ==> text::text_of(r) == as_shown(w),
{
    match v {
        Some(Json::Number(n)) => Some(n.shown.clone()),
        _ => None,
    }
}

/// The whole number `v` is, where it is one.
pub fn whole_in(v: Option<&Json>) -> (r: Option<u64>)
    ensures
        forall|w: Option<Json>| #[trigger] lent(v, w) ==> r == as_whole(w),
{
    match v {
        Some(Json::Number(n)) => n.whole,
        _ => None,
    }
}

// ---------------------------------------------------------------------------
// The shape of a document
// ---------------------------------------------------------------------------

/// The path of `key` under `at`.
pub open spec fn step(at: Seq<char>, key: Seq<char>) -> Seq<char> {
    at + "."@ + key
}

/// Every key path of a value found at `at`, with the kind of value there.
pub open spec fn paths(v: Json, at: Seq<char>) -> Set<Seq<char>>
    decreases v,
{
    match v {
        Json::Object(members) => member_paths(members@, at),
        Json::Array(items) => {
            if items@.len() == 0 {
                set![at + "[] (empty)"@]
            } else {
                item_paths(items@, at + "[]"@)
            }
        },
        Json::Null => set![at + ": null"@],
        Json::Bool(_) => set![at + ": bool"@],
        Json::Number(_) => set![at + ": number"@],
        Json::Text(_) => set![at + ": string"@],
    }
}

/// The paths of an object's members, each under its key.
pub open spec fn member_paths(members: Seq<(String, Json)>, at: Seq<char>) -> Set<Seq<char>>
    decreases members,
{
    if members.len() == 0 {
        Set::empty()
    } else {
        member_paths(members.drop_last(), at).union(
            paths(members[members.len() - 1].1, step(at, members[members.len() - 1].0@)),
        )
    }
}

/// The paths of an array's items, all at one place: the items of a list differ
/// in which keys they carry.
pub open spec fn item_paths(items: Seq<Json>, at: Seq<char>) -> Set<Seq<char>>
    decreases items,
{
    if items.len() == 0 {
        Set::empty()
    } else {
        item_paths(items.drop_last(), at).union(paths(items[items.len() - 1], at))
    }
}

/// Puts `path` among `out`, unless it stands there already.
fn put(out: &mut Vec<String>, path: String)
    ensures
        text::texts(final(out)@).to_set() == text::texts(old(out)@).to_set().insert(path@),
        text::texts(old(out)@).no_duplicates() ==> text::texts(final(out)@).no_duplicates(),
{
    let ghost before = text::texts(out@);
    if any_same(out.as_slice(), path.as_str()) {
        assert(before.to_set() =~= before.to_set().insert(path@));
    } else {
        assert(text::texts(out@.push(path)) =~= before.push(path@));
        out.push(path);
        proof {
            let now = text::texts(out@);
            text::push_to_set(before, path@);
            if before.no_duplicates() {
                assert forall|i: int, j: int|
                    0 <= i < now.len() && 0 <= j < now.len() && i != j implies now[i] != now[j] by {
                    if i == before.len() {
                        assert(before.contains(before[j]));
                    }
                    if j == before.len() {
                        assert(before.contains(before[i]));
                    }
                }
            }
        }
    }
}

/// `a` and `b`, one after the other.
fn two(a: &str, b: &str) -> (r: String)
    ensures
        r@ == a@ + b@,
{
    let mut r = a.to_owned();
    r.append(b);
    r
}

/// Puts every key path of `v` among `out`, with the kind of value found there.
/// What stands in `out` already stays, and nothing comes to stand there twice.
pub fn shape(v: &Json, at: &str, out: &mut Vec<String>)
    ensures
        text::texts(final(out)@).to_set() == text::texts(old(out)@).to_set().union(paths(*v, at@)),
        text::texts(old(out)@).no_duplicates() ==> text::texts(final(out)@).no_duplicates(),
    decreases v,
{
    let ghost before = text::texts(out@).to_set();
    match v {
        Json::Object(members) => {
            let mut i: usize = 0;
            assert(members@.take(0) =~= Seq::empty());
            assert(before =~= before.union(member_paths(members@.take(0), at@)));
            while i < members.len()
                invariant
                    i <= members@.len(),
                    *v == Json::Object(*members),
                    text::texts(out@).to_set() == before.union(
                        member_paths(members@.take(i as int), at@),
                    ),
                    text::texts(old(out)@).no_duplicates() ==> text::texts(out@).no_duplicates(),
                decreases members.len() - i,
            {
                let mut here = two(at, ".");
                here.append(members[i].0.as_str());
                proof {
                    assert(decreases_to!(*v => (*v)->Object_0));
                    assert(decreases_to!(*members => members@));
                    assert(decreases_to!(members@ => members@[i as int]));
                    assert(decreases_to!(members@[i as int] => members@[i as int].1));
                }
                shape(&members[i].1, here.as_str(), out);
                proof {
                    let taken = members@.take(i + 1);
                    assert(taken.drop_last() =~= members@.take(i as int));
                    assert(taken[taken.len() - 1] == members@[i as int]);
                    assert(text::texts(out@).to_set() =~= before.union(member_paths(taken, at@)));
                }
                i = i + 1;
            }
            assert(members@.take(members@.len() as int) =~= members@);
        },
        Json::Array(items) => {
            if items.len() == 0 {
                put(out, two(at, "[] (empty)"));
                assert(text::texts(out@).to_set() =~= before.union(paths(*v, at@)));
            } else {
                let here = two(at, "[]");
                let mut i: usize = 0;
                assert(items@.take(0) =~= Seq::empty());
                assert(before =~= before.union(item_paths(items@.take(0), here@)));
                while i < items.len()
                    invariant
                        i <= items@.len(),
                        *v == Json::Array(*items),
                        text::texts(out@).to_set() == before.union(
                            item_paths(items@.take(i as int), here@),
                        ),
                        text::texts(old(out)@).no_duplicates() ==> text::texts(
                            out@,
                        ).no_duplicates(),
                    decreases items.len() - i,
                {
                    proof {
                        assert(decreases_to!(*v => (*v)->Array_0));
                        assert(decreases_to!(*items => items@));
                        assert(decreases_to!(items@ => items@[i as int]));
                    }
                    shape(&items[i], here.as_str(), out);
                    proof {
                        let taken = items@.take(i + 1);
                        assert(taken.drop_last() =~= items@.take(i as int));
                        assert(taken[taken.len() - 1] == items@[i as int]);
                        assert(text::texts(out@).to_set() =~= before.union(
                            item_paths(taken, here@),
                        ));
                    }
                    i = i + 1;
                }
                assert(items@.take(items@.len() as int) =~= items@);
            }
        },
        Json::Null => {
            put(out, two(at, ": null"));
            assert(text::texts(out@).to_set() =~= before.union(paths(*v, at@)));
        },
        Json::Bool(_) => {
            put(out, two(at, ": bool"));
            assert(text::texts(out@).to_set() =~= before.union(paths(*v, at@)));
        },
        Json::Number(_) => {
            put(out, two(at, ": number"));
            assert(text::texts(out@).to_set() =~= before.union(paths(*v, at@)));
        },
        Json::Text(_) => {
            put(out, two(at, ": string"));
            assert(text::texts(out@).to_set() =~= before.union(paths(*v, at@)));
        },
    }
}

// ---------------------------------------------------------------------------
// What holds of every value
// ---------------------------------------------------------------------------

/// A member is the first of its name, and there is none exactly where nothing
/// has that name.
proof fn member_is_the_first(members: Seq<(String, Json)>, key: Seq<char>)
    ensures
        member(members, key) is None <==> forall|i: int|
            0 <= i < members.len() ==> (#[trigger] members[i]).0@ != key,
        member(members, key) matches Some(v) ==> exists|i: int|
            0 <= i < members.len() && (#[trigger] members[i]).0@ == key && members[i].1 == v && (
            forall|j: int| 0 <= j < i ==> (#[trigger] members[j]).0@ != key),
    decreases members.len(),
{
    if members.len() > 0 && members[0].0@ != key {
        let rest = members.skip(1);
        member_is_the_first(rest, key);
        if member(rest, key) is Some {
            let v = member(rest, key)->0;
            let i = choose|i: int|
                0 <= i < rest.len() && (#[trigger] rest[i]).0@ == key && rest[i].1 == v && (forall|
                    j: int,
                |
                    0 <= j < i ==> (#[trigger] rest[j]).0@ != key);
            assert(members[i + 1] == rest[i]);
            assert forall|j: int| 0 <= j < i + 1 implies (#[trigger] members[j]).0@ != key by {
                if j > 0 {
                    assert(rest[j - 1] == members[j]);
                }
            }
        } else {
            assert forall|i: int| 0 <= i < members.len() implies (#[trigger] members[i]).0@
                != key by {
                if i > 0 {
                    assert(rest[i - 1] == members[i]);
                }
            }
        }
    }
}

/// Under a key of an object stands the first member of that name, and nothing
/// stands under a key of anything else; under two keys stands what the inner
/// names in what the outer names.
pub proof fn under_a_key_stands_its_member(v: Json, members: Vec<(String, Json)>, key: Seq<char>)
    ensures
        !(v is Object) ==> under(v, key) is None,
        under(Json::Object(members), key) is None <==> forall|i: int|
            0 <= i < members@.len() ==> (#[trigger] members@[i]).0@ != key,
        under(Json::Object(members), key) matches Some(w) ==> exists|i: int|
            0 <= i < members@.len() && (#[trigger] members@[i]).0@ == key && members@[i].1 == w && (
            forall|j: int| 0 <= j < i ==> (#[trigger] members@[j]).0@ != key),
        forall|outer: Seq<char>|
            under(v, outer) is None ==> (#[trigger] under2(v, outer, key)) is None,
        forall|outer: Seq<char>|
            under(v, outer) is Some ==> #[trigger] under2(v, outer, key) == under(
                under(v, outer)->0,
                key,
            ),
{
    member_is_the_first(members@, key);
}

/// A value is read as what it is: a text as a text, a number as it is written
/// out or as a whole number, and nothing as what it is not.
pub proof fn a_value_is_read_as_what_it_is(t: String, n: Number, v: Json)
    ensures
        as_text(Some(Json::Text(t))) == Some(t@),
        !(v is Text) ==> as_text(Some(v)) is None,
        as_text(None) is None,
        as_shown(Some(Json::Number(n))) == Some(n.shown@),
        !(v is Number) ==> as_shown(Some(v)) is None,
        as_shown(None) is None,
        as_whole(Some(Json::Number(n))) == n.whole,
        !(v is Number) ==> as_whole(Some(v)) is None,
        as_whole(None) is None,
{
}

/// The paths of an object's members are those of each of them.
proof fn member_paths_are(members: Seq<(String, Json)>, at: Seq<char>, path: Seq<char>)
    ensures
        member_paths(members, at).contains(path) <==> exists|i: int|
            0 <= i < members.len() && paths(
                (#[trigger] members[i]).1,
                at + "."@ + members[i].0@,
            ).contains(path),
    decreases members.len(),
{
    if members.len() > 0 {
        let less = members.drop_last();
        let n = members.len() - 1;
        member_paths_are(less, at, path);
        assert forall|i: int| 0 <= i < less.len() implies #[trigger] members[i] == less[i] by {}
        assert(step(at, members[n].0@) == at + "."@ + members[n].0@);
        if member_paths(less, at).contains(path) {
            let i = choose|i: int|
                0 <= i < less.len() && paths(
                    (#[trigger] less[i]).1,
                    at + "."@ + less[i].0@,
                ).contains(path);
            assert(members[i] == less[i]);
        }
        if exists|i: int|
            0 <= i < members.len() && paths(
                (#[trigger] members[i]).1,
                at + "."@ + members[i].0@,
            ).contains(path) {
            let i = choose|i: int|
                0 <= i < members.len() && paths(
                    (#[trigger] members[i]).1,
                    at + "."@ + members[i].0@,
                ).contains(path);
            if i < n {
                assert(less[i] == members[i]);
            }
        }
    }
}

/// The paths of an array's items are those of each of them.
proof fn item_paths_are(items: Seq<Json>, at: Seq<char>, path: Seq<char>)
    ensures
        item_paths(items, at).contains(path) <==> exists|i: int|
            0 <= i < items.len() && paths(#[trigger] items[i], at).contains(path),
    decreases items.len(),
{
    if items.len() > 0 {
        let less = items.drop_last();
        let n = items.len() - 1;
        item_paths_are(less, at, path);
        if item_paths(less, at).contains(path) {
            let i = choose|i: int|
                0 <= i < less.len() && paths(#[trigger] less[i], at).contains(path);
            assert(items[i] == less[i]);
        }
        if exists|i: int| 0 <= i < items.len() && paths(#[trigger] items[i], at).contains(path) {
            let i = choose|i: int|
                0 <= i < items.len() && paths(#[trigger] items[i], at).contains(path);
            if i < n {
                assert(less[i] == items[i]);
            }
        }
    }
}

/// The shape of a value is the paths to its leaves, each with what stands
/// there: a member is reached by a dot and its name, an item by a pair of
/// brackets, and an array without items says so.
pub proof fn a_shape_is_the_paths_to_its_leaves(
    members: Vec<(String, Json)>,
    items: Vec<Json>,
    b: bool,
    n: Number,
    t: String,
    at: Seq<char>,
    path: Seq<char>,
)
    ensures
        paths(Json::Null, at) == set![at + ": null"@],
        paths(Json::Bool(b), at) == set![at + ": bool"@],
        paths(Json::Number(n), at) == set![at + ": number"@],
        paths(Json::Text(t), at) == set![at + ": string"@],
        paths(Json::Object(members), at).contains(path) <==> exists|i: int|
            0 <= i < members@.len() && paths(
                (#[trigger] members@[i]).1,
                at + "."@ + members@[i].0@,
            ).contains(path),
        items@.len() == 0 ==> paths(Json::Array(items), at) == set![at + "[] (empty)"@],
        items@.len() > 0 ==> (paths(Json::Array(items), at).contains(path) <==> exists|i: int|
            0 <= i < items@.len() && paths(#[trigger] items@[i], at + "[]"@).contains(path)),
{
    member_paths_are(members@, at, path);
    item_paths_are(items@, at + "[]"@, path);
}

/// What is lent is what is there.
pub proof fn what_is_lent_is_what_is_there(x: &Json, y: Json)
    ensures
        lent(Some(x), Some(y)) <==> *x == y,
        lent(None, None),
        !lent(Some(x), None),
        !lent(None, Some(y)),
{
}

} // verus!
