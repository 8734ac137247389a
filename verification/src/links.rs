//! Addresses: what one names, and what may be followed.

use crate::text;
use crate::text::same;
use url::Url;
use vstd::prelude::*;

verus! {

/// An address, read.
pub struct Link {
    /// The whole of it, written out again.
    pub whole: String,
    pub scheme: String,
    pub path: String,
    pub query: Option<String>,
}

/// What an address, read, says.
pub struct Address {
    pub whole: Seq<char>,
    pub scheme: Seq<char>,
    pub path: Seq<char>,
    pub query: Option<Seq<char>>,
}

impl View for Link {
    type V = Address;

    open spec fn view(&self) -> Address {
        Address {
            whole: self.whole@,
            scheme: self.scheme@,
            path: self.path@,
            query: text::text_of(self.query),
        }
    }
}

/// What a text names as an address, or the words for why it is none.
pub uninterp spec fn url_read(raw: Seq<char>) -> Result<Address, Seq<char>>;

/// `Url::parse` of the url crate: the address a text names, or the words for
/// why it is none.
#[verifier::external_body]
fn parse_url(raw: &str) -> (r: Result<Link, String>)
    ensures
        match r {
            Ok(link) => url_read(raw@) == Ok::<Address, Seq<char>>(link@),
            Err(why) => url_read(raw@) == Err::<Address, Seq<char>>(why@),
        },
{
    let u = Url::parse(raw).map_err(|e| e.to_string())?;
    Ok(Link {
        whole: u.to_string(),
        scheme: u.scheme().to_string(),
        path: u.path().to_string(),
        query: u.query().map(|q| q.to_string()),
    })
}

/// What `r` says an address is.
pub open spec fn read_as(r: Result<Link, String>) -> Result<Address, Seq<char>> {
    match r {
        Ok(link) => Ok(link@),
        Err(why) => Err(why@),
    }
}

/// The address a text names, or the words for why it is none.
pub fn read_link(raw: &str) -> (r: Result<Link, String>)
    ensures
        read_as(r) == url_read(raw@),
{
    parse_url(raw)
}

/// Whether an address is one a page is read over.
pub open spec fn is_web(a: Address) -> bool {
    a.scheme == "http"@ || a.scheme == "https"@
}

impl Link {
    /// Whether this is an address a page is read over.
    pub fn web(&self) -> (r: bool)
        ensures
            r == is_web(self@),
    {
        same(self.scheme.as_str(), "http") || same(self.scheme.as_str(), "https")
    }
}

/// The path of an address and what it asks there, without where it leads.
pub open spec fn local_part(a: Address) -> Seq<char> {
    match a.query {
        Some(q) => a.path + "?"@ + q,
        None => a.path,
    }
}

/// Whether a text is a path on this server: it opens with one slash, and not
/// with the two that an address without a scheme opens with.
pub open spec fn is_here(path: Seq<char>) -> bool {
    path.len() > 0 && path[0] == '/' && !(path.len() > 1 && path[1] == '/')
}

/// Whether a text is a path on this server.
pub fn leads_here(path: &str) -> (r: bool)
    ensures
        r == is_here(path@),
{
    let v = text::chars_of(path);
    v.len() > 0 && v[0] == '/' && !(v.len() > 1 && v[1] == '/')
}

/// The way back that a page names: a path on this server as it stands, and of
/// a whole address the path and what it asks there, where that path is one on
/// this server.
pub open spec fn way_back(
    referer: Seq<char>,
    read: Result<Address, Seq<char>>,
) -> Option<Seq<char>> {
    if referer.len() > 0 && referer[0] == '/' {
        if is_here(referer) {
            Some(referer)
        } else {
            None
        }
    } else {
        match read {
            Ok(a) => if is_here(a.path) {
                Some(local_part(a))
            } else {
                None
            },
            Err(_) => None,
        }
    }
}

/// The way back that a page names, given what it names as an address.
pub fn way_back_of(referer: &str, read: &Result<Link, String>) -> (r: Option<String>)
    ensures
        text::text_of(r) == way_back(referer@, read_as(*read)),
{
    let v = text::chars_of(referer);
    if v.len() > 0 && v[0] == '/' {
        if leads_here(referer) {
            Some(referer.to_owned())
        } else {
            None
        }
    } else {
        match read {
            Ok(link) => {
                if !leads_here(link.path.as_str()) {
                    return None;
                }
                let mut r = link.path.clone();
                match &link.query {
                    Some(q) => {
                        r.append("?");
                        r.append(q.as_str());
                    },
                    None => {},
                }
                Some(r)
            },
            Err(_) => None,
        }
    }
}

/// The path and the query of a referer, and never its origin.
///
/// What a browser sends is a whole address, always, so a rule that took only
/// paths would lose every one of them. Keeping the path and the query alone
/// answers both: whatever origin wrote the header, what comes back is a path
/// on this server, and an address whose path is none gives nothing back.
pub fn same_origin_path(referer: &str) -> (r: Option<String>)
    ensures
        text::text_of(r) == way_back(referer@, url_read(referer@)),
        r matches Some(b) ==> is_here(b@),
{
    let read = read_link(referer);
    proof {
        the_way_back_is_here(referer@, url_read(referer@));
    }
    way_back_of(referer, &read)
}

/// Whatever a page names, and whatever that is as an address, what comes back
/// is a path on this server or nothing.
pub proof fn the_way_back_is_here(referer: Seq<char>, read: Result<Address, Seq<char>>)
    ensures
        way_back(referer, read) matches Some(b) ==> b.len() > 0 && b[0] == '/' && !(b.len() > 1
            && b[1] == '/'),
{
    reveal_strlit("?");
    match read {
        Ok(a) => {
            if is_here(a.path) {
                assert(local_part(a)[0] == a.path[0]);
                if a.path.len() > 1 {
                    assert(local_part(a)[1] == a.path[1]);
                } else if a.query is Some {
                    assert(local_part(a)[1] == "?"@[0]);
                }
            }
        },
        Err(_) => {},
    }
}

/// A referer that opens with a slash comes back as it is or not at all, and it
/// does not exactly where it opens with two.
pub proof fn a_path_comes_back_as_it_is(referer: Seq<char>, read: Result<Address, Seq<char>>)
    requires
        referer.len() > 0,
        referer[0] == '/',
    ensures
        way_back(referer, read) is None <==> referer.len() > 1 && referer[1] == '/',
        way_back(referer, read) matches Some(back) ==> back == referer,
{
}

/// Of a whole address nothing comes back but its path and what it asks there:
/// two addresses that differ only in where they lead come back as one, and
/// where their path is one on this server it does come back.
pub proof fn an_origin_never_comes_back(
    one: Seq<char>,
    other: Seq<char>,
    a: Address,
    b: Address,
)
    requires
        one.len() == 0 || one[0] != '/',
        other.len() == 0 || other[0] != '/',
        a.path == b.path,
        a.query == b.query,
    ensures
        way_back(one, Ok(a)) == way_back(other, Ok(b)),
        is_here(a.path) ==> way_back(one, Ok(a)) == Some(local_part(a)),
        !is_here(a.path) ==> way_back(one, Ok(a)) is None,
{
}

/// A page is read over two schemes, and no other.
pub proof fn the_web_is_two_schemes(a: Address)
    ensures
        is_web(a) <==> a.scheme == "http"@ || a.scheme == "https"@,
{
}

/// What is left of an address without its origin is its path, and its query
/// behind a question mark where it has one.
pub proof fn an_address_keeps_its_path_and_query(a: Address)
    ensures
        a.query is None ==> local_part(a) == a.path,
        a.query matches Some(q) ==> local_part(a) == a.path + seq!['?'] + q,
        is_here(a.path) <==> a.path.len() > 0 && a.path[0] == '/' && (a.path.len() == 1 || a.path[1]
            != '/'),
{
    reveal_strlit("?");
    assert("?"@ =~= seq!['?']);
}

/// What was read is what the address says, and what was not read says why.
pub proof fn what_was_read_is_what_it_says(link: Link, why: String)
    ensures
        read_as(Ok(link)) matches Ok(a) && a.whole == link.whole@ && a.scheme == link.scheme@
            && a.path == link.path@ && a.query == text::text_of(link.query),
        read_as(Err(why)) == Err::<Address, Seq<char>>(why@),
{
}

} // verus!
