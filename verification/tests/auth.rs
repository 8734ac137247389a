use engram::auth_routes::{
    callback, expected, login_page, login_submit, logout, start_session, AuthMode, CallbackQuery,
    LoginPage, LoginSubmit,
};
use engram::records::Error;

fn answered(code: Option<&str>, state: Option<&str>, error: Option<&str>) -> CallbackQuery {
    CallbackQuery {
        code: code.map(str::to_string),
        state: state.map(str::to_string),
        error: error.map(str::to_string),
    }
}

#[test]
fn the_login_page_is_reachable_without_credentials() {
    match login_page(AuthMode::Local, true, false) {
        Ok(LoginPage::Page(p)) => {
            assert!(!p.0.oidc);
            assert_eq!(p.0.error, None);
            assert_eq!(p.0.theme, "light");
        }
        _ => panic!("a page"),
    }
}

#[test]
fn a_provider_is_gone_on_to_only_when_asked() {
    assert!(matches!(login_page(AuthMode::Oidc, true, true), Ok(LoginPage::Authorize)));
    assert!(matches!(login_page(AuthMode::Oidc, true, false), Ok(LoginPage::Page(p)) if p.0.oidc));
    assert!(matches!(
        login_page(AuthMode::Oidc, false, true),
        Err(Error::Validation(m)) if m == "oidc not configured"
    ));
}

#[test]
fn correct_local_credentials_set_a_session_cookie() {
    assert!(matches!(login_submit(AuthMode::Local, true, true), Ok(LoginSubmit::StartSession)));
    let on = start_session("sid=1".into());
    assert_eq!((on.status, on.location, on.cookie.as_str()), (303, "/ui/search", "sid=1"));
}

#[test]
fn wrong_credentials_do_not_set_a_cookie() {
    match login_submit(AuthMode::Local, true, false) {
        Ok(LoginSubmit::Again(p)) => {
            assert_eq!(p.0.error, Some("Incorrect username or password."))
        }
        _ => panic!("the page again"),
    }
}

#[test]
fn the_local_login_form_is_refused_in_oidc_mode() {
    assert!(matches!(login_submit(AuthMode::Oidc, true, true), Err(Error::NotFound)));
    assert!(matches!(login_submit(AuthMode::Local, false, true), Err(Error::NotFound)));
}

#[test]
fn logout_clears_the_cookie() {
    let on = logout("sid=; Max-Age=0".into());
    assert_eq!((on.status, on.location), (303, "/auth/login"));
    assert_eq!(on.cookie, "sid=; Max-Age=0");
}

#[test]
fn an_answer_of_the_provider_has_a_code_and_a_state() {
    assert!(matches!(
        callback(answered(Some("c"), Some("s"), Some("denied")), true),
        Err(Error::Unauthorized)
    ));
    assert!(matches!(
        callback(answered(Some("c"), None, None), true),
        Err(Error::Validation(m)) if m == "callback is missing code or state"
    ));
    assert!(matches!(
        callback(answered(Some("c"), Some("s"), None), false),
        Err(Error::NotFound)
    ));
    let x = callback(answered(Some("c"), Some("s"), None), true);
    assert!(matches!(x, Ok(e) if e.code == "c" && e.state == "s"));
}

#[test]
fn an_answer_nobody_waits_for_is_refused() {
    assert!(matches!(expected::<u8>(None), Err(Error::Unauthorized)));
    assert!(matches!(expected(Some(7)), Ok(7)));
}
