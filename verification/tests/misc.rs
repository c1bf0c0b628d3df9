use mailkeep::error::FrontendError;
use mailkeep::session::{authenticated_user, is_admin_session, SessionUser};
use mailkeep::settings::{settings_redirect, Section, SettingsContext, SettingsRedirect};
use mailkeep::text::{last_word_str, trim_str};

#[test]
fn frontend_error_message() {
    assert_eq!(FrontendError::DioxusError("boom".into()).message(), "Dioxus error: boom");
}

#[test]
fn sessions() {
    let u = SessionUser { username: "amy".into(), permissions: vec!["Admin".into()] };
    assert_eq!(authenticated_user(Some(&u)), Ok(&u));
    let anon = SessionUser { username: String::new(), permissions: vec![] };
    assert_eq!(authenticated_user(Some(&anon)), Err("Not authenticated"));
    assert_eq!(authenticated_user(None), Err("Not authenticated"));
    assert!(is_admin_session(Some(&u)));
    assert!(!is_admin_session(Some(&anon)));
}

#[test]
fn settings_context_and_sections() {
    let c = SettingsContext::from_permissions(&vec!["SuperAdmin".into()], "U_1".into());
    assert!(c.is_admin && c.is_super_admin);
    let c = SettingsContext::from_permissions(&vec!["Admin".into()], "U_2".into());
    assert!(c.is_admin && !c.is_super_admin);
    assert!(!SettingsContext::unknown().is_admin);
    assert_eq!(settings_redirect(Some(None)), SettingsRedirect::Landing);
    assert_eq!(settings_redirect(Some(Some(false))), SettingsRedirect::Home);
    assert_eq!(settings_redirect(Some(Some(true))), SettingsRedirect::Stay);
    assert_eq!(settings_redirect(None), SettingsRedirect::Stay);
    assert_eq!(Section::from_hash("#anything"), Section::Users);
    assert_eq!(Section::Users.as_hash(), "#users");
}

#[test]
fn text_helpers_match_std() {
    for s in ["", "  a b  ", "\tx\n", "no-space", " \u{3000}wide\u{a0}"] {
        assert_eq!(trim_str(s), s.trim());
        assert_eq!(last_word_str(s), s.split_whitespace().last().unwrap_or(""));
    }
}
