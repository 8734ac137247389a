//! Signing in and out.

use crate::records::Error;
use vstd::prelude::*;

verus! {

/// A page to be rendered.
pub struct HtmlTemplate<T>(pub T);

/// How people sign in here.
#[derive(Clone, Copy, PartialEq, Eq, Structural, Debug)]
pub enum AuthMode {
    /// With an identity provider.
    Oidc,
    /// With a name and a password.
    Local,
}

/// The page that asks who is there.
pub struct LoginTemplate {
    pub theme: &'static str,
    pub oidc: bool,
    pub error: Option<&'static str>,
}

/// What opening the sign-in page does.
pub enum LoginPage {
    /// Goes on to the identity provider.
    Authorize,
    Page(HtmlTemplate<LoginTemplate>),
}

/// What posting a name and a password does.
pub enum LoginSubmit {
    StartSession,
    /// Asks again, as unauthorized.
    Again(HtmlTemplate<LoginTemplate>),
}

/// What an identity provider sends back.
pub struct CallbackQuery {
    pub code: Option<String>,
    pub state: Option<String>,
    pub error: Option<String>,
}

/// What is exchanged for an identity.
pub struct Exchange {
    pub code: String,
    pub state: String,
}

/// An answer that leads on: where to, and with which cookie.
pub struct Onward {
    pub status: u16,
    pub location: &'static str,
    pub cookie: String,
}

/// The status of an answer that leads on.
pub const SEE_OTHER: u16 = 303;

/// The page, asking for a provider or for a password, with or without a reason
/// for asking again.
pub open spec fn is_login(t: LoginTemplate, oidc: bool, error: Option<Seq<char>>) -> bool {
    &&& t.theme@ == "light"@
    &&& t.oidc == oidc
    &&& match t.error {
        Some(e) => error == Some(e@),
        None => error is None,
    }
}

/// What opening the sign-in page does: with a provider, goes on to it once
/// asked to.
pub fn login_page(mode: AuthMode, configured: bool, go: bool) -> (r: Result<LoginPage, Error>)
    ensures
        match mode {
            AuthMode::Oidc => if !configured {
                r matches Err(Error::Validation(m)) && m@ == "oidc not configured"@
            } else if go {
                r matches Ok(LoginPage::Authorize)
            } else {
                r matches Ok(LoginPage::Page(p)) && is_login(p.0, true, None)
            },
            AuthMode::Local => r matches Ok(LoginPage::Page(p)) && is_login(p.0, false, None),
        },
{
    match mode {
        AuthMode::Oidc => {
            if !configured {
                return Err(Error::Validation("oidc not configured".to_owned()));
            }
            if go {
                return Ok(LoginPage::Authorize);
            }
            Ok(
                LoginPage::Page(
                    HtmlTemplate(LoginTemplate { theme: "light", oidc: true, error: None }),
                ),
            )
        },
        AuthMode::Local => Ok(
            LoginPage::Page(
                HtmlTemplate(LoginTemplate { theme: "light", oidc: false, error: None }),
            ),
        ),
    }
}

/// What posting a name and a password does. There is nothing to post them to
/// where people sign in with a provider.
pub fn login_submit(mode: AuthMode, configured: bool, known: bool) -> (r: Result<
    LoginSubmit,
    Error,
>)
    ensures
        if mode != AuthMode::Local || !configured {
            r matches Err(Error::NotFound)
        } else if known {
            r matches Ok(LoginSubmit::StartSession)
        } else {
            r matches Ok(LoginSubmit::Again(p)) && is_login(
                p.0,
                false,
                Some("Incorrect username or password."@),
            )
        },
{
    match mode {
        AuthMode::Oidc => Err(Error::NotFound),
        AuthMode::Local => {
            if !configured {
                return Err(Error::NotFound);
            }
            if known {
                return Ok(LoginSubmit::StartSession);
            }
            Ok(
                LoginSubmit::Again(
                    HtmlTemplate(
                        LoginTemplate {
                            theme: "light",
                            oidc: false,
                            error: Some("Incorrect username or password."),
                        },
                    ),
                ),
            )
        },
    }
}

/// What an answer of the identity provider is taken for.
pub fn callback(q: CallbackQuery, configured: bool) -> (r: Result<Exchange, Error>)
    ensures
        if q.error is Some {
            r matches Err(Error::Unauthorized)
        } else if q.code is None || q.state is None {
            r matches Err(Error::Validation(m)) && m@ == "callback is missing code or state"@
        } else if !configured {
            r matches Err(Error::NotFound)
        } else {
            r matches Ok(x) && Some(x.code) == q.code && Some(x.state) == q.state
        },
{
    if q.error.is_some() {
        return Err(Error::Unauthorized);
    }
    match (q.code, q.state) {
        (Some(code), Some(state)) => if configured {
            Ok(Exchange { code, state })
        } else {
            Err(Error::NotFound)
        },
        _ => Err(Error::Validation("callback is missing code or state".to_owned())),
    }
}

/// What an exchange comes to once what it answers was looked for. What is
/// pending is taken once, so an answer sent twice finds nothing.
pub fn expected<T>(pending: Option<T>) -> (r: Result<T, Error>)
    ensures
        match pending {
            Some(p) => r matches Ok(x) && x == p,
            None => r matches Err(Error::Unauthorized),
        },
{
    match pending {
        Some(p) => Ok(p),
        None => Err(Error::Unauthorized),
    }
}

/// A session has begun.
pub fn start_session(cookie: String) -> (r: Onward)
    ensures
        r.status == SEE_OTHER,
        r.location@ == "/ui/search"@,
        r.cookie == cookie,
{
    Onward { status: SEE_OTHER, location: "/ui/search", cookie }
}

/// A session has ended.
pub fn logout(cookie: String) -> (r: Onward)
    ensures
        r.status == SEE_OTHER,
        r.location@ == "/auth/login"@,
        r.cookie == cookie,
{
    Onward { status: SEE_OTHER, location: "/auth/login", cookie }
}

/// The page that asks who is there is light, asks for a provider or for a
/// password, and says why it asks again where it does.
pub proof fn the_page_says_why_it_asks_again(
    t: LoginTemplate,
    oidc: bool,
    error: Option<Seq<char>>,
)
    requires
        is_login(t, oidc, error),
    ensures
        t.theme@ == "light"@,
        t.oidc == oidc,
        error is None <==> t.error is None,
        error matches Some(why) ==> (t.error matches Some(said) && said@ == why),
        SEE_OTHER == 303,
{
}

/// Signing in goes on to the provider where there is one to go to and that was
/// asked for, and asks otherwise; without a provider that it needs, it cannot.
pub proof fn signing_in_asks_or_goes_on(
    configured: bool,
    go: bool,
    with: Result<LoginPage, Error>,
    without: Result<LoginPage, Error>,
)
    requires
        call_ensures(login_page, (AuthMode::Oidc, configured, go), with),
        call_ensures(login_page, (AuthMode::Local, configured, go), without),
    ensures
        !configured ==> (with matches Err(Error::Validation(m)) && m@ == "oidc not configured"@),
        configured && go ==> (with matches Ok(p) && p is Authorize),
        configured && !go ==> (with matches Ok(LoginPage::Page(p)) && is_login(p.0, true, None)),
        without matches Ok(LoginPage::Page(p)) && is_login(p.0, false, None),
{
}

/// A name and a password start a session where they are known, and are asked
/// for again where they are not; there is no such door where people sign in
/// otherwise.
pub proof fn a_password_starts_a_session(
    mode: AuthMode,
    configured: bool,
    known: bool,
    r: Result<LoginSubmit, Error>,
)
    requires
        call_ensures(login_submit, (mode, configured, known), r),
    ensures
        mode is Oidc || !configured ==> (r matches Err(e) && e is NotFound),
        mode is Local && configured && known ==> (r matches Ok(s) && s is StartSession),
        mode is Local && configured && !known ==> (r matches Ok(LoginSubmit::Again(p)) && is_login(
            p.0,
            false,
            Some("Incorrect username or password."@),
        )),
{
}

/// What a provider sends back is exchanged whole; a failure is not let in, half
/// of an answer is refused, and there is no such door without a provider.
pub proof fn what_a_provider_sends_back<T>(
    q: CallbackQuery,
    configured: bool,
    r: Result<Exchange, Error>,
    pending: Option<T>,
    awaited: Result<T, Error>,
)
    requires
        call_ensures(callback, (q, configured), r),
        call_ensures(expected::<T>, (pending,), awaited),
    ensures
        q.error is Some ==> (r matches Err(e) && e is Unauthorized),
        q.error is None && (q.code is None || q.state is None) ==> (r matches Err(
            Error::Validation(m),
        ) && m@ == "callback is missing code or state"@),
        q.error is None && q.code is Some && q.state is Some && !configured ==> (r matches Err(e)
            && e is NotFound),
        q.error is None && configured ==> (q.code matches Some(c) ==> (q.state matches Some(s) ==> (
        r matches Ok(x) && x.code@ == c@ && x.state@ == s@))),
        pending matches Some(p) ==> awaited == Ok::<T, Error>(p),
        pending is None ==> (awaited matches Err(e) && e is Unauthorized),
{
}

/// A session leads on to the search, and its end to the sign-in page; either
/// carries its cookie.
pub proof fn a_session_leads_on(cookie: String, begun: Onward, ended: Onward)
    requires
        call_ensures(start_session, (cookie,), begun),
        call_ensures(logout, (cookie,), ended),
    ensures
        begun.status == 303,
        begun.location@ == "/ui/search"@,
        begun.cookie@ == cookie@,
        ended.status == 303,
        ended.location@ == "/auth/login"@,
        ended.cookie@ == cookie@,
{
}

} // verus!
