//! Pairing the app in one scan: a page draws a picture, the app reads it and
//! is paired.

use crate::records::Error;
use crate::text;
use qrcode::render::svg;
use qrcode::{EcLevel, QrCode};
use vstd::prelude::*;

verus! {

/// The version this server says it is.
pub const VERSION: &'static str = "0.1.0";

/// The least side of the picture.
pub const PICTURE_SIDE: u32 = 256;

/// The page that pairs an app.
pub struct AppTemplate {
    pub origin: String,
    /// The address and its picture, only on the page that follows the press: a
    /// credential that appears whenever a page is opened is one nobody
    /// remembers asking for.
    pub code: Option<(String, String)>,
}

impl AppTemplate {
    /// Which entry of the top row is current.
    pub fn section(&self) -> (r: &'static str)
        ensures
            r@ == "settings"@,
    {
        "settings"
    }
}

// ---------------------------------------------------------------------------
// The address
// ---------------------------------------------------------------------------

/// Whether a byte stands for itself in an address.
pub open spec fn is_plain(b: u8) -> bool {
    ||| 'a' as u8 <= b <= 'z' as u8
    ||| 'A' as u8 <= b <= 'Z' as u8
    ||| '0' as u8 <= b <= '9' as u8
    ||| b == '-' as u8
    ||| b == '_' as u8
    ||| b == '.' as u8
    ||| b == '~' as u8
}

/// A hexadecimal digit, in upper case.
pub open spec fn upper_digit(n: int) -> char {
    if n < 10 {
        text::digit(n as nat)
    } else if n == 10 {
        'A'
    } else if n == 11 {
        'B'
    } else if n == 12 {
        'C'
    } else if n == 13 {
        'D'
    } else if n == 14 {
        'E'
    } else {
        'F'
    }
}

/// A byte as an address has it.
pub open spec fn escaped(b: u8) -> Seq<char> {
    if is_plain(b) {
        seq![b as char]
    } else {
        seq!['%', upper_digit(b as int / 16), upper_digit(b as int % 16)]
    }
}

/// Some bytes as an address has them.
pub open spec fn all_escaped(bytes: Seq<u8>) -> Seq<char>
    decreases bytes.len(),
{
    if bytes.len() == 0 {
        Seq::empty()
    } else {
        all_escaped(bytes.drop_last()) + escaped(bytes.last())
    }
}

/// A text as an address has it: its bytes in UTF-8.
pub open spec fn encoded(s: Seq<char>) -> Seq<char> {
    all_escaped(vstd::utf8::encode_utf8(s))
}

/// A hexadecimal digit, in upper case.
fn upper_digit_of(n: u8) -> (c: char)
    requires
        n < 16,
    ensures
        c == upper_digit(n as int),
{
    if n == 0 {
        '0'
    } else if n == 1 {
        '1'
    } else if n == 2 {
        '2'
    } else if n == 3 {
        '3'
    } else if n == 4 {
        '4'
    } else if n == 5 {
        '5'
    } else if n == 6 {
        '6'
    } else if n == 7 {
        '7'
    } else if n == 8 {
        '8'
    } else if n == 9 {
        '9'
    } else if n == 10 {
        'A'
    } else if n == 11 {
        'B'
    } else if n == 12 {
        'C'
    } else if n == 13 {
        'D'
    } else if n == 14 {
        'E'
    } else {
        'F'
    }
}

/// A text as an address has it.
pub fn urlencode(s: &str) -> (r: String)
    ensures
        r@ == encoded(s@),
{
    let bytes = s.as_bytes();
    let mut r = String::new();
    let mut i: usize = 0;
    assert(bytes@.take(0) =~= Seq::empty());
    while i < bytes.len()
        invariant
            i <= bytes@.len(),
            r@ == all_escaped(bytes@.take(i as int)),
        decreases bytes.len() - i,
    {
        let b: u8 = bytes[i];
        let ghost before = r@;
        proof {
            assert(bytes@.take(i + 1).drop_last() =~= bytes@.take(i as int));
            assert(bytes@.take(i + 1).last() == b);
        }
        if ('a' as u8 <= b && b <= 'z' as u8) || ('A' as u8 <= b && b <= 'Z' as u8) || ('0' as u8
            <= b && b <= '9' as u8) || b == '-' as u8 || b == '_' as u8 || b == '.' as u8 || b
            == '~' as u8 {
            r.push(b as char);
            assert(r@ =~= before + escaped(b));
        } else {
            r.push('%');
            r.push(upper_digit_of(b / 16));
            r.push(upper_digit_of(b % 16));
            assert(r@ =~= before + escaped(b));
        }
        i = i + 1;
    }
    assert(bytes@.take(bytes@.len() as int) =~= bytes@);
    r
}

/// The address the picture carries, but for the fingerprint.
pub open spec fn plain_uri(origin: Seq<char>, code: Seq<char>) -> Seq<char> {
    "engram://pair?o="@ + encoded(origin) + "&c="@ + encoded(code) + "&v="@ + encoded(VERSION@)
}

/// The address the picture carries: where the app will point, the grant, this
/// server's version, and the certificate's fingerprint where one is named.
pub open spec fn uri_of(
    origin: Seq<char>,
    code: Seq<char>,
    fingerprint: Option<Seq<char>>,
) -> Seq<char> {
    match fingerprint {
        Some(f) => plain_uri(origin, code) + "&f="@ + encoded(f),
        None => plain_uri(origin, code),
    }
}

/// The address the picture carries. The version is there so that the app can
/// say that the server is older than it expects rather than fail strangely.
pub fn pair_uri(origin: &str, code: &str, fingerprint: Option<&str>) -> (r: String)
    ensures
        r@ == uri_of(origin@, code@, text::borrowed(fingerprint)),
{
    let mut uri = "engram://pair?o=".to_owned();
    uri.append(urlencode(origin).as_str());
    uri.append("&c=");
    uri.append(urlencode(code).as_str());
    uri.append("&v=");
    uri.append(urlencode(VERSION).as_str());
    match fingerprint {
        Some(f) => {
            uri.append("&f=");
            uri.append(urlencode(f).as_str());
        },
        None => {},
    }
    uri
}

/// What stands for something else in an address is never left in it: encoding
/// leaves nothing but letters, digits, the four marks and the percent sign.
pub proof fn encoding_leaves_no_mark(bytes: Seq<u8>)
    ensures
        forall|i: int|
            0 <= i < all_escaped(bytes).len() ==> {
                let c = #[trigger] all_escaped(bytes)[i];
                c == '%' || ((c as int) < 128 && is_plain(c as u8))
            },
    decreases bytes.len(),
{
    if bytes.len() > 0 {
        encoding_leaves_no_mark(bytes.drop_last());
        let before = all_escaped(bytes.drop_last());
        let now = all_escaped(bytes);
        let b = bytes.last();
        assert forall|i: int| 0 <= i < now.len() implies {
            let c = #[trigger] now[i];
            c == '%' || ((c as int) < 128 && is_plain(c as u8))
        } by {
            if i < before.len() {
                assert(now[i] == before[i]);
            } else {
                assert(now[i] == escaped(b)[i - before.len()]);
            }
        }
    }
}

/// The first byte is written first.
proof fn first_escaped_first(bytes: Seq<u8>)
    requires
        bytes.len() > 0,
    ensures
        all_escaped(bytes) == escaped(bytes[0]) + all_escaped(bytes.skip(1)),
    decreases bytes.len(),
{
    let front = bytes.drop_last();
    if front.len() == 0 {
        assert(all_escaped(bytes.skip(1)) =~= Seq::empty());
        assert(all_escaped(front) =~= Seq::empty());
        assert(all_escaped(bytes) =~= escaped(bytes[0]) + all_escaped(bytes.skip(1)));
    } else {
        first_escaped_first(front);
        assert(bytes.skip(1).drop_last() =~= front.skip(1));
        assert(all_escaped(bytes) =~= escaped(bytes[0]) + all_escaped(bytes.skip(1)));
    }
}

/// A digit is told by how it is written.
proof fn upper_digit_tells(m: int, n: int)
    requires
        0 <= m < 16,
        0 <= n < 16,
        upper_digit(m) == upper_digit(n),
    ensures
        m == n,
{
}

/// Encoding loses nothing: what an app reads out of the address is what was put
/// into it, since no two texts are written alike.
pub proof fn encoding_loses_nothing(a: Seq<u8>, b: Seq<u8>)
    requires
        all_escaped(a) == all_escaped(b),
    ensures
        a == b,
    decreases a.len(),
{
    if a.len() == 0 {
        if b.len() > 0 {
            first_escaped_first(b);
            assert(all_escaped(b).len() > 0);
        }
    } else if b.len() == 0 {
        first_escaped_first(a);
        assert(all_escaped(a).len() > 0);
    } else {
        first_escaped_first(a);
        first_escaped_first(b);
        let x = escaped(a[0]);
        let y = escaped(b[0]);
        let whole = all_escaped(a);
        assert(whole[0] == x[0]);
        assert(whole[0] == y[0]);
        if is_plain(a[0]) {
            assert(x[0] != '%');
            assert(is_plain(b[0]));
            assert(a[0] == b[0]);
        } else {
            assert(!is_plain(b[0])) by {
                if is_plain(b[0]) {
                    assert(y[0] != '%');
                }
            }
            assert(whole[1] == x[1] && whole[1] == y[1]);
            assert(whole[2] == x[2] && whole[2] == y[2]);
            upper_digit_tells(a[0] as int / 16, b[0] as int / 16);
            upper_digit_tells(a[0] as int % 16, b[0] as int % 16);
            assert(a[0] == b[0]);
        }
        assert(all_escaped(a.skip(1)) =~= whole.skip(x.len() as int));
        assert(all_escaped(b.skip(1)) =~= whole.skip(y.len() as int));
        encoding_loses_nothing(a.skip(1), b.skip(1));
        assert(a =~= seq![a[0]] + a.skip(1));
        assert(b =~= seq![b[0]] + b.skip(1));
    }
}

// ---------------------------------------------------------------------------
// The picture
// ---------------------------------------------------------------------------

/// How much of a picture may be lost before it cannot be read.
#[derive(Clone, Copy, PartialEq, Eq, Structural, Debug)]
pub enum Correction {
    Low,
    Medium,
    Quartile,
    High,
}

/// The picture of a text, or the words for why there is none.
pub uninterp spec fn qr_drawn(
    written: Seq<char>,
    level: Correction,
    side: int,
    quiet: bool,
) -> Result<Seq<char>, Seq<char>>;

/// `QrCode::with_error_correction_level` and `Renderer::build` of the qrcode
/// crate: the picture of a text as SVG at a level of correction, its modules
/// sized for `side` pixels a side, with or without its quiet zone, or the words
/// for why there is none.
#[verifier::external_body]
fn draw(written: &str, level: Correction, side: u32, quiet: bool) -> (r: Result<String, String>)
    requires
        side <= 65536,
    ensures
        match r {
            Ok(picture) => qr_drawn(written@, level, side as int, quiet) == Ok::<
                Seq<char>,
                Seq<char>,
            >(picture@),
            Err(why) => qr_drawn(written@, level, side as int, quiet) == Err::<
                Seq<char>,
                Seq<char>,
            >(why@),
        },
{
    let level = match level {
        Correction::Low => EcLevel::L,
        Correction::Medium => EcLevel::M,
        Correction::Quartile => EcLevel::Q,
        Correction::High => EcLevel::H,
    };
    let code = QrCode::with_error_correction_level(written.as_bytes(), level);
    let code = code.map_err(|e| e.to_string())?;
    Ok(code.render::<svg::Color>().min_dimensions(side, side).quiet_zone(quiet).build())
}

/// The picture that a phone is shown: at the middle level of correction, and
/// with its quiet zone.
pub open spec fn picture_of(uri: Seq<char>) -> Result<Seq<char>, Seq<char>> {
    qr_drawn(uri, Correction::Medium, PICTURE_SIDE as int, true)
}

/// What is made of a picture, or of the words for why there is none.
pub open spec fn is_picture(
    r: Result<String, Error>,
    drawn: Result<Seq<char>, Seq<char>>,
) -> bool {
    match drawn {
        Ok(picture) => r matches Ok(p) && p@ == picture,
        Err(why) => r matches Err(Error::Internal(m)) && m@ == "qr: "@ + why,
    }
}

/// What is made of a picture, or of the words for why there is none.
pub fn pictured(drawn: Result<String, String>) -> (r: Result<String, Error>)
    ensures
        is_picture(
            r,
            match drawn {
                Ok(p) => Ok(p@),
                Err(w) => Err(w@),
            },
        ),
{
    match drawn {
        Ok(p) => Ok(p),
        Err(why) => {
            let mut m = "qr: ".to_owned();
            m.append(why.as_str());
            Err(Error::Internal(m))
        },
    }
}

/// The picture of an address as inline SVG. The middle level of correction: the
/// text is short and a screen is a clean surface.
pub fn qr_svg(uri: &str) -> (r: Result<String, Error>)
    ensures
        is_picture(r, picture_of(uri@)),
{
    pictured(draw(uri, Correction::Medium, PICTURE_SIDE, true))
}

/// The page, opened: no address, and nothing minted.
pub fn app_page(origin: Option<String>) -> (r: AppTemplate)
    ensures
        r.origin@ == text::or_empty(origin),
        r.code is None,
{
    let origin = match origin {
        Some(o) => o,
        None => String::new(),
    };
    AppTemplate { origin, code: None }
}

/// The page that follows the press: the address and its picture.
pub fn app_grant(origin: Option<String>, code: &str, fingerprint: Option<&str>) -> (r: Result<
    AppTemplate,
    Error,
>)
    ensures
        ({
            let uri = uri_of(text::or_empty(origin), code@, text::borrowed(fingerprint));
            match picture_of(uri) {
                Ok(picture) => {
                    &&& r matches Ok(t)
                    &&& t.origin@ == text::or_empty(origin)
                    &&& t.code matches Some(c)
                    &&& c.0@ == uri
                    &&& c.1@ == picture
                },
                Err(why) => r matches Err(Error::Internal(m)) && m@ == "qr: "@ + why,
            }
        }),
{
    let origin = match origin {
        Some(o) => o,
        None => String::new(),
    };
    let uri = pair_uri(origin.as_str(), code, fingerprint);
    match qr_svg(uri.as_str()) {
        Ok(svg) => Ok(AppTemplate { origin, code: Some((uri, svg)) }),
        Err(e) => Err(e),
    }
}

/// What a hexadecimal digit in capitals weighs.
pub open spec fn weighs(c: char) -> int {
    if '0' <= c <= '9' {
        c as int - 48
    } else if 'A' <= c <= 'F' {
        c as int - 55
    } else {
        -1
    }
}

/// A byte that may stand in an address stands there as itself: a letter, a
/// digit, or one of four marks. Any other is a percent sign and two digits
/// that weigh what it does.
pub proof fn a_byte_is_escaped_by_its_weight(bytes: Seq<u8>, b: u8)
    ensures
        all_escaped(Seq::empty()).len() == 0,
        all_escaped(bytes.push(b)) == all_escaped(bytes) + escaped(b),
        97 <= b <= 122 || 65 <= b <= 90 || 48 <= b <= 57 || b == 45 || b == 95 || b == 46 || b
            == 126 ==> escaped(b).len() == 1 && escaped(b)[0] as int == b,
        !(97 <= b <= 122 || 65 <= b <= 90 || 48 <= b <= 57 || b == 45 || b == 95 || b == 46 || b
            == 126) ==> escaped(b).len() == 3 && escaped(b)[0] == '%' && 16 * weighs(escaped(b)[1])
            + weighs(escaped(b)[2]) == b && 0 <= weighs(escaped(b)[1]) < 16 && 0 <= weighs(
            escaped(b)[2],
        ) < 16,
{
    assert(bytes.push(b).drop_last() =~= bytes);
    let n = b as int;
    assert(n == 16 * (n / 16) + n % 16);
}

/// The address that pairs a phone says where, with which code, and of which
/// version; and whose certificate to expect where that is known.
pub proof fn a_pairing_says_where_and_with_what(
    origin: Seq<char>,
    code: Seq<char>,
    fingerprint: Seq<char>,
)
    ensures
        uri_of(origin, code, None) == "engram://pair?o="@ + encoded(origin) + "&c="@ + encoded(code)
            + "&v="@ + encoded("0.1.0"@),
        uri_of(origin, code, Some(fingerprint)) == uri_of(origin, code, None) + "&f="@ + encoded(
            fingerprint,
        ),
        forall|s: Seq<char>| #[trigger] encoded(s) == all_escaped(vstd::utf8::encode_utf8(s)),
{
}

/// A picture is drawn with the middle correction, of 256 dots a side and with a
/// quiet border; where none can be drawn it is said why.
pub proof fn a_picture_is_drawn_or_it_is_said_why(
    r: Result<String, Error>,
    uri: Seq<char>,
    picture: Seq<char>,
    why: Seq<char>,
)
    requires
        is_picture(r, picture_of(uri)),
    ensures
        qr_drawn(uri, Correction::Medium, 256, true) == Ok::<Seq<char>, Seq<char>>(picture) ==> (
        r matches Ok(p) && p@ == picture),
        qr_drawn(uri, Correction::Medium, 256, true) == Err::<Seq<char>, Seq<char>>(why) ==> (
        r matches Err(Error::Internal(m)) && m@ == "qr: "@ + why),
{
}

/// The page shows where to pair with; a code, and the picture of it, only once
/// one was granted.
pub proof fn a_code_is_shown_once_it_was_granted(
    origin: Option<String>,
    plain: AppTemplate,
    code: &str,
    fingerprint: Option<&str>,
    granted: Result<AppTemplate, Error>,
)
    requires
        call_ensures(app_page, (origin,), plain),
        call_ensures(app_grant, (origin, code, fingerprint), granted),
    ensures
        plain.code is None,
        origin matches Some(o) ==> plain.origin@ == o@,
        origin is None ==> plain.origin@.len() == 0,
        granted matches Ok(t) ==> t.origin@ == plain.origin@ && (t.code matches Some((uri, _))
            && uri@ == uri_of(plain.origin@, code@, text::borrowed(fingerprint))),
        granted matches Ok(t) ==> (t.code matches Some((uri, picture)) && picture_of(uri@) == Ok::<
            Seq<char>,
            Seq<char>,
        >(picture@)),
        granted is Err <==> picture_of(
            uri_of(plain.origin@, code@, text::borrowed(fingerprint)),
        ) is Err,
{
}

} // verus!
