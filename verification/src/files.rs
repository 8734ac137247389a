//! The names of files.

use crate::text;
use crate::text::{chars_of, same_but_for_case, spell};
use vstd::prelude::*;

verus! {

/// Where `c` last stands in `s`; minus one where it does not.
pub open spec fn last_of(s: Seq<char>, c: char) -> int
    decreases s.len(),
{
    if s.len() == 0 {
        -1
    } else if s.last() == c {
        s.len() - 1
    } else {
        last_of(s.drop_last(), c)
    }
}

/// The name of the file that a path leads to. A slash at the end and a dot
/// that means the same directory are passed over; a path that leads up, or
/// nowhere, leads to no file.
pub open spec fn file_name(path: Seq<char>) -> Option<Seq<char>>
    decreases path.len(),
    via file_name_shrinks
{
    let slash = last_of(path, '/');
    let name = path.skip(slash + 1);
    if name.len() == 0 || name == "."@ {
        if slash < 0 {
            None
        } else {
            file_name(path.take(slash))
        }
    } else if name == ".."@ {
        None
    } else {
        Some(name)
    }
}

#[via_fn]
proof fn file_name_shrinks(path: Seq<char>) {
    last_of_is(path, '/');
}

/// What the name of a file says it is: what stands after its last dot, unless
/// nothing stands before it.
pub open spec fn extension_of(name: Seq<char>) -> Option<Seq<char>> {
    let dot = last_of(name, '.');
    if dot <= 0 {
        None
    } else {
        Some(name.skip(dot + 1))
    }
}

/// What the name of the file that a path leads to says it is.
pub open spec fn extension(path: Seq<char>) -> Option<Seq<char>> {
    match file_name(path) {
        Some(name) => extension_of(name),
        None => None,
    }
}

/// Whether a file's name says that it is an `ext`, in whatever case.
pub open spec fn is_named(filename: Option<Seq<char>>, ext: Seq<char>) -> bool {
    match filename {
        Some(path) => match extension(path) {
            Some(e) => text::lowered(e) == text::lowered(ext),
            None => false,
        },
        None => false,
    }
}

/// Where a character last stands is a place in the text at which it stands,
/// and after which it does not.
pub proof fn last_of_is(s: Seq<char>, c: char)
    ensures
        -1 <= last_of(s, c) < s.len(),
        last_of(s, c) >= 0 ==> s[last_of(s, c)] == c,
        forall|i: int| last_of(s, c) < i < s.len() ==> #[trigger] s[i] != c,
    decreases s.len(),
{
    if s.len() > 0 && s.last() != c {
        let d = s.drop_last();
        last_of_is(d, c);
        assert forall|i: int| last_of(s, c) < i < s.len() implies #[trigger] s[i] != c by {
            if i < d.len() {
                assert(d[i] == s[i]);
            }
        }
    }
}

/// The last place where a character stands is what `last_of` names.
proof fn is_last_of(s: Seq<char>, c: char, n: int)
    requires
        -1 <= n < s.len(),
        n >= 0 ==> s[n] == c,
        forall|i: int| n < i < s.len() ==> #[trigger] s[i] != c,
    ensures
        last_of(s, c) == n,
{
    last_of_is(s, c);
    if last_of(s, c) < n {
        assert(s[n] != c);
    }
    if n < last_of(s, c) {
        assert(s[last_of(s, c)] != c);
    }
}

/// Where `c` last stands in `v[..to]`.
fn find_last(v: &[char], to: usize, c: char) -> (r: Option<usize>)
    requires
        to <= v@.len(),
    ensures
        match r {
            Some(i) => i < to && last_of(v@.take(to as int), c) == i,
            None => last_of(v@.take(to as int), c) == -1,
        },
{
    let ghost s = v@.take(to as int);
    let mut i: usize = to;
    while i > 0
        invariant
            i <= to <= v@.len(),
            s == v@.take(to as int),
            forall|j: int| i <= j < to ==> #[trigger] s[j] != c,
        decreases i,
    {
        if v[i - 1] == c {
            proof {
                is_last_of(s, c, i - 1);
            }
            return Some(i - 1);
        }
        assert(s[i - 1] == v@[i - 1]);
        i = i - 1;
    }
    proof {
        is_last_of(s, c, -1);
    }
    None
}

/// What the name of the file that a path leads to says it is.
pub fn extension_named(path: &str) -> (r: Option<String>)
    ensures
        text::text_of(r) == extension(path@),
{
    proof {
        reveal_strlit(".");
        reveal_strlit("..");
    }
    let v = chars_of(path);
    let mut to: usize = v.len();
    assert(v@.take(v@.len() as int) =~= v@);
    loop
        invariant
            to <= v@.len(),
            v@ == path@,
            "."@ == seq!['.'],
            ".."@ == seq!['.', '.'],
            file_name(v@.take(to as int)) == file_name(path@),
        decreases to,
    {
        let ghost s = v@.take(to as int);
        let slash = find_last(v.as_slice(), to, '/');
        let from: usize = match slash {
            Some(i) => i + 1,
            None => 0,
        };
        let ghost name = s.skip(last_of(s, '/') + 1);
        assert(name =~= v@.subrange(from as int, to as int));
        if from == to || (to - from == 1 && v[from] == '.') {
            proof {
                if from < to {
                    assert(name =~= seq!['.']);
                } else {
                    assert(name.len() == 0);
                }
            }
            match slash {
                Some(i) => {
                    assert(s.take(i as int) =~= v@.take(i as int));
                    to = i;
                },
                None => {
                    return None;
                },
            }
        } else if to - from == 2 && v[from] == '.' && v[from + 1] == '.' {
            assert(name =~= seq!['.', '.']);
            return None;
        } else {
            proof {
                if name == seq!['.'] {
                    assert(name.len() == 1 && name[0] == '.');
                }
                if name == seq!['.', '.'] {
                    assert(name.len() == 2 && name[0] == '.' && name[1] == '.');
                }
            }
            assert(file_name(s) == Some(name));
            let word = spell(v.as_slice(), from, to);
            let w = chars_of(word.as_str());
            assert(w@.take(w@.len() as int) =~= w@);
            return match find_last(w.as_slice(), w.len(), '.') {
                Some(dot) => if dot > 0 {
                    let e = spell(w.as_slice(), dot + 1, w.len());
                    assert(e@ =~= name.skip(dot + 1));
                    Some(e)
                } else {
                    None
                },
                None => None,
            };
        }
    }
}

/// Whether a file's name says that it is an `ext`.
pub fn named(filename: Option<&str>, ext: &str) -> (r: bool)
    ensures
        r == is_named(text::borrowed(filename), ext@),
{
    match filename {
        Some(path) => match extension_named(path) {
            Some(e) => same_but_for_case(e.as_str(), ext),
            None => false,
        },
        None => false,
    }
}

/// Whether an upload's filename claims to be a PDF.
pub fn named_pdf(filename: Option<&str>) -> (r: bool)
    ensures
        r == is_named(text::borrowed(filename), "pdf"@),
{
    named(filename, "pdf")
}

/// Whether an upload's filename claims to be a text file. Case is set aside: a
/// rule against shouting would be no rule about text.
pub fn named_txt(filename: Option<&str>) -> (r: bool)
    ensures
        r == is_named(text::borrowed(filename), "txt"@),
{
    named(filename, "txt")
}

// ---------------------------------------------------------------------------
// What holds of every name
// ---------------------------------------------------------------------------

/// A file is named by the last part of its path; a slash at the end, or a
/// single dot after it, names nothing more, and two dots name no file.
pub proof fn a_file_is_named_by_its_last_part(dir: Seq<char>, name: Seq<char>)
    requires
        name.len() > 0,
        forall|i: int| 0 <= i < name.len() ==> #[trigger] name[i] != '/',
    ensures
        name != seq!['.'] && name != seq!['.', '.'] ==> file_name(name) == Some(name) && file_name(
            dir + seq!['/'] + name,
        ) == Some(name),
        file_name(dir + seq!['/']) == file_name(dir),
        file_name(dir + seq!['/', '.']) == file_name(dir),
        file_name(dir + seq!['/', '.', '.']) is None,
        file_name(Seq::empty()) is None,
{
    reveal_strlit(".");
    reveal_strlit("..");
    assert("."@ =~= seq!['.']);
    assert(".."@ =~= seq!['.', '.']);
    let at = dir.len() as int;
    is_last_of(name, '/', -1);
    assert(name.skip(0) =~= name);
    let whole = dir + seq!['/'] + name;
    assert(whole[at] == '/');
    assert forall|i: int| at < i < whole.len() implies #[trigger] whole[i] != '/' by {
        assert(whole[i] == name[i - at - 1]);
    }
    is_last_of(whole, '/', at);
    assert(whole.skip(at + 1) =~= name);
    let a = dir + seq!['/'];
    is_last_of(a, '/', at);
    assert(a.skip(at + 1) =~= Seq::<char>::empty());
    assert(a.take(at) =~= dir);
    let b = dir + seq!['/', '.'];
    assert(b[at] == '/' && b[at + 1] == '.');
    is_last_of(b, '/', at);
    assert(b.skip(at + 1) =~= seq!['.']);
    assert(b.take(at) =~= dir);
    let c = dir + seq!['/', '.', '.'];
    assert(c[at] == '/' && c[at + 1] == '.' && c[at + 2] == '.');
    is_last_of(c, '/', at);
    assert(c.skip(at + 1) =~= seq!['.', '.']);
    assert(seq!['.', '.'].len() != seq!['.'].len());
    let e = Seq::<char>::empty();
    is_last_of(e, '/', -1);
    assert(e.skip(0) =~= e);
}

/// An extension is what follows the last dot of a name, and a name without a
/// dot, or with none but the one it opens with, has none.
pub proof fn an_extension_follows_the_last_dot(stem: Seq<char>, ext: Seq<char>)
    requires
        forall|i: int| 0 <= i < ext.len() ==> #[trigger] ext[i] != '.',
    ensures
        stem.len() > 0 ==> extension_of(stem + seq!['.'] + ext) == Some(ext),
        extension_of(ext) is None,
        extension_of(seq!['.'] + ext) is None,
{
    let at = stem.len() as int;
    let name = stem + seq!['.'] + ext;
    assert(name[at] == '.');
    assert forall|i: int| at < i < name.len() implies #[trigger] name[i] != '.' by {
        assert(name[i] == ext[i - at - 1]);
    }
    is_last_of(name, '.', at);
    assert(name.skip(at + 1) =~= ext);
    is_last_of(ext, '.', -1);
    let hidden = seq!['.'] + ext;
    assert(hidden[0] == '.');
    assert forall|i: int| 0 < i < hidden.len() implies #[trigger] hidden[i] != '.' by {
        assert(hidden[i] == ext[i - 1]);
    }
    is_last_of(hidden, '.', 0);
}

/// A file is named by an extension where its own name ends in it, in either
/// case; a path that names no file, and no path, is named by none.
pub proof fn a_file_is_named_in_either_case(path: Seq<char>, name: Seq<char>, ext: Seq<char>)
    ensures
        file_name(path) is None ==> extension(path) is None && !is_named(Some(path), ext),
        file_name(path) == Some(name) ==> extension(path) == extension_of(name),
        extension(path) is None ==> !is_named(Some(path), ext),
        extension(path) matches Some(e) ==> (is_named(Some(path), ext) <==> text::lowered(e)
            == text::lowered(ext)),
        !is_named(None, ext),
{
}

} // verus!
