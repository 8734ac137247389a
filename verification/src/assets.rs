//! The files the pages are drawn with.

use crate::text;
use crate::text::{closes_with, has, opens_with, same};
use vstd::prelude::*;

verus! {

/// Embedded, but not public: the browser packages are served elsewhere, to
/// those who have signed in.
pub const PRIVATE: &'static str = "extension/";

/// The files, by the paths they are stored under.
pub struct Assets {
    /// What moves whenever the files do: whoever embeds them works it out from
    /// their bytes.
    pub stamp: String,
    pub files: Vec<(String, Vec<u8>)>,
}

/// An answer that is a file, or is none.
pub enum Served {
    File { content_type: String, cache_control: &'static str, data: Vec<u8> },
    /// The path is not one a file can have.
    Refused,
    Missing,
}

/// What the file at a path holds.
pub open spec fn file_at(files: Seq<(String, Vec<u8>)>, path: Seq<char>) -> Option<Seq<u8>>
    decreases files.len(),
{
    if files.len() == 0 {
        None
    } else if files[0].0@ == path {
        Some(files[0].1@)
    } else {
        file_at(files.skip(1), path)
    }
}

impl Assets {
    /// What the file stored under a path holds.
    pub fn get(&self, path: &str) -> (r: Option<Vec<u8>>)
        ensures
            match r {
                Some(data) => file_at(self.files@, path@) == Some(data@),
                None => file_at(self.files@, path@) is None,
            },
    {
        let mut i: usize = 0;
        assert(self.files@.skip(0) =~= self.files@);
        while i < self.files.len()
            invariant
                i <= self.files@.len(),
                file_at(self.files@.skip(i as int), path@) == file_at(self.files@, path@),
            decreases self.files.len() - i,
        {
            if same(self.files[i].0.as_str(), path) {
                return Some(copy_bytes(self.files[i].1.as_slice()));
            }
            assert(self.files@.skip(i as int).skip(1) =~= self.files@.skip(i + 1));
            i = i + 1;
        }
        None
    }
}

/// A copy of some bytes.
fn copy_bytes(b: &[u8]) -> (r: Vec<u8>)
    ensures
        r@ == b@,
{
    let mut r: Vec<u8> = Vec::new();
    let mut i: usize = 0;
    while i < b.len()
        invariant
            i <= b@.len(),
            r@ == b@.take(i as int),
        decreases b.len() - i,
    {
        r.push(b[i]);
        assert(r@ =~= b@.take(i + 1));
        i = i + 1;
    }
    assert(b@.take(b@.len() as int) =~= b@);
    r
}

/// What the address of a file carries, so that a year-long cache stays safe:
/// the stamp that came with the files.
pub fn stamp(assets: &Assets) -> (r: &str)
    ensures
        r@ == assets.stamp@,
{
    assets.stamp.as_str()
}

/// Whether a path means the same on every system: it holds no backslash and no
/// colon, which some take for the ends of its parts.
pub open spec fn is_portable(path: Seq<char>) -> bool {
    forall|i: int| 0 <= i < path.len() ==> #[trigger] path[i] != '\\' && path[i] != ':'
}

/// The kind of content that goes with a path: its top level, and the whole of
/// it without parameters.
pub uninterp spec fn mime_guessed(path: Seq<char>) -> (Seq<char>, Seq<char>);

/// `mime_guess::from_path` and `first_or_octet_stream` of the mime_guess crate:
/// the kind of content that goes with a path. It goes by the extension, and
/// what that is of a path with a backslash or a colon in it is left unsaid,
/// since systems part such a path differently.
#[verifier::external_body]
fn guess(path: &str) -> (r: (String, String))
    ensures
        is_portable(path@) ==> mime_guessed(path@) == (r.0@, r.1@),
{
    let mime = mime_guess::from_path(path).first_or_octet_stream();
    (mime.type_().to_string(), mime.essence_str().to_string())
}

/// How a kind of content is declared: with its characters, where it is text.
pub open spec fn declared(top: Seq<char>, essence: Seq<char>) -> Seq<char> {
    if top == "text"@ {
        essence + "; charset=utf-8"@
    } else {
        essence
    }
}

/// How a kind of content is declared. Browsers need to be told the characters
/// of a text, or what is not ASCII renders as something else.
pub fn declare(top: &str, essence: String) -> (r: String)
    ensures
        r@ == declared(top@, essence@),
{
    if same(top, "text") {
        let mut r = essence;
        r.append("; charset=utf-8");
        r
    } else {
        essence
    }
}

/// How the content of the file at a path is declared, where the path means the
/// same on every system.
pub open spec fn type_of(path: Seq<char>) -> Option<Seq<char>> {
    if is_portable(path) {
        Some(declared(mime_guessed(path).0, mime_guessed(path).1))
    } else {
        None
    }
}

/// How the content of the file at a path is declared.
pub fn content_type(path: &str) -> (r: String)
    ensures
        type_of(path@) matches Some(kind) ==> r@ == kind,
{
    let (top, essence) = guess(path);
    declare(top.as_str(), essence)
}

/// How long a browser may keep the file at a path.
pub open spec fn kept_for(path: Seq<char>) -> Seq<char> {
    if ".webmanifest"@.is_suffix_of(path) {
        "public, max-age=3600"@
    } else {
        "public, max-age=31536000"@
    }
}

/// How long a browser may keep the file at a path: a year, but for the
/// manifest, which an installed app reads once and then holds.
pub fn cache_control(path: &str) -> (r: &'static str)
    ensures
        r@ == kept_for(path@),
{
    if closes_with(path, ".webmanifest") {
        "public, max-age=3600"
    } else {
        "public, max-age=31536000"
    }
}

/// `r` is the answer for a path, where `kind` is how its content is declared,
/// as far as that is known.
pub open spec fn is_served(
    r: Served,
    files: Seq<(String, Vec<u8>)>,
    path: Seq<char>,
    kind: Option<Seq<char>>,
) -> bool {
    if text::holds(path, ".."@) {
        r is Refused
    } else if PRIVATE@.is_prefix_of(path) {
        r is Missing
    } else {
        match file_at(files, path) {
            Some(held) => r matches Served::File { content_type, cache_control, data }
                && (kind matches Some(k) ==> content_type@ == k) && cache_control@ == kept_for(path)
                && data@ == held,
            None => r is Missing,
        }
    }
}

/// The answer for a path. A path that leads up is refused outright, and one
/// that leads to what is not public finds nothing.
pub fn serve(assets: &Assets, path: &str) -> (r: Served)
    ensures
        is_served(r, assets.files@, path@, type_of(path@)),
{
    if has(path, "..") {
        return Served::Refused;
    }
    if opens_with(path, PRIVATE) {
        return Served::Missing;
    }
    match assets.get(path) {
        Some(data) => Served::File {
            content_type: content_type(path),
            cache_control: cache_control(path),
            data,
        },
        None => Served::Missing,
    }
}

/// The service worker, from the root and never kept: one under the files could
/// not see the pages, and one kept for a year could not be replaced.
pub fn service_worker(assets: &Assets) -> (r: Served)
    ensures
        match file_at(assets.files@, "sw.js"@) {
            Some(held) => r matches Served::File { content_type, cache_control, data }
                && content_type@ == "text/javascript; charset=utf-8"@ && cache_control@
                == "no-cache"@ && data@ == held,
            None => r is Missing,
        },
{
    match assets.get("sw.js") {
        Some(data) => Served::File {
            content_type: "text/javascript; charset=utf-8".to_owned(),
            cache_control: "no-cache",
            data,
        },
        None => Served::Missing,
    }
}

/// Nothing under the private directory is ever served, whatever is stored
/// there, and no path that leads up is.
pub proof fn nothing_private_is_served(
    r: Served,
    files: Seq<(String, Vec<u8>)>,
    path: Seq<char>,
    kind: Option<Seq<char>>,
)
    requires
        is_served(r, files, path, kind),
        PRIVATE@.is_prefix_of(path) || text::holds(path, ".."@),
    ensures
        !(r is File),
{
}

/// What is at a path is the first file there, and nothing is there exactly
/// where no file has that path.
pub proof fn a_file_is_found_by_its_path(files: Seq<(String, Vec<u8>)>, path: Seq<char>)
    ensures
        file_at(files, path) is None <==> forall|i: int|
            0 <= i < files.len() ==> (#[trigger] files[i]).0@ != path,
        file_at(files, path) matches Some(held) ==> exists|i: int|
            0 <= i < files.len() && (#[trigger] files[i]).0@ == path && files[i].1@ == held && (
            forall|j: int| 0 <= j < i ==> (#[trigger] files[j]).0@ != path),
    decreases files.len(),
{
    if files.len() > 0 && files[0].0@ != path {
        let rest = files.skip(1);
        a_file_is_found_by_its_path(rest, path);
        if file_at(rest, path) is Some {
            let held = file_at(rest, path)->0;
            let i = choose|i: int|
                0 <= i < rest.len() && (#[trigger] rest[i]).0@ == path && rest[i].1@ == held && (
                forall|j: int| 0 <= j < i ==> (#[trigger] rest[j]).0@ != path);
            assert(files[i + 1] == rest[i]);
            assert forall|j: int| 0 <= j < i + 1 implies (#[trigger] files[j]).0@ != path by {
                if j > 0 {
                    assert(rest[j - 1] == files[j]);
                }
            }
        } else {
            assert forall|i: int| 0 <= i < files.len() implies (#[trigger] files[i]).0@ != path by {
                if i > 0 {
                    assert(rest[i - 1] == files[i]);
                }
            }
        }
    }
}

/// A text says which characters it is written in, and nothing else does.
pub proof fn a_text_says_its_charset(top: Seq<char>, essence: Seq<char>)
    ensures
        top == "text"@ ==> declared(top, essence) == essence + "; charset=utf-8"@,
        top != "text"@ ==> declared(top, essence) == essence,
{
}

/// What a file is declared as is what is guessed of its path, where that is
/// one that every machine reads alike.
pub proof fn a_file_is_declared_by_its_path(path: Seq<char>)
    ensures
        type_of(path) is Some <==> forall|i: int|
            0 <= i < path.len() ==> #[trigger] path[i] != '\\' && path[i] != ':',
        type_of(path) matches Some(kind) ==> kind == declared(
            mime_guessed(path).0,
            mime_guessed(path).1,
        ),
{
}

/// A manifest is kept for an hour, and any other file for a year.
pub proof fn a_manifest_is_kept_for_an_hour(head: Seq<char>, path: Seq<char>)
    ensures
        kept_for(head + ".webmanifest"@) == "public, max-age=3600"@,
        (forall|before: Seq<char>| path != #[trigger] (before + ".webmanifest"@)) ==> kept_for(path)
            == "public, max-age=31536000"@,
{
    let end = ".webmanifest"@;
    let whole = head + end;
    assert(whole.subrange(whole.len() - end.len(), whole.len() as int) =~= end);
    assert(end.is_suffix_of(whole));
    if end.is_suffix_of(path) {
        let before = path.take(path.len() - end.len());
        assert(path =~= before + end);
    }
}

/// A file is served as it is held, declared as its path says; a path that
/// climbs is refused, and what is private, or is not there, is missing.
pub proof fn a_file_is_served_as_it_is_held(
    r: Served,
    files: Seq<(String, Vec<u8>)>,
    path: Seq<char>,
    kind: Option<Seq<char>>,
)
    requires
        is_served(r, files, path, kind),
    ensures
        r is Refused <==> text::holds(path, ".."@),
        r is File <==> !text::holds(path, ".."@) && !"extension/"@.is_prefix_of(path) && file_at(
            files,
            path,
        ) is Some,
        r matches Served::File { content_type, cache_control, data } ==> {
            &&& file_at(files, path) == Some(data@)
            &&& cache_control@ == kept_for(path)
            &&& kind matches Some(k) ==> content_type@ == k
        },
{
}

/// The worker is served as it is held, as a script, and never kept.
pub proof fn the_worker_is_never_kept(assets: &Assets, r: Served, said: &str)
    requires
        call_ensures(service_worker, (assets,), r),
        call_ensures(stamp, (assets,), said),
    ensures
        file_at(assets.files@, "sw.js"@) is None <==> r is Missing,
        file_at(assets.files@, "sw.js"@) matches Some(held) ==> (r matches Served::File {
            content_type,
            cache_control,
            data,
        } && content_type@ == "text/javascript; charset=utf-8"@ && cache_control@ == "no-cache"@
            && data@ == held),
        said@ == assets.stamp@,
{
}

} // verus!
