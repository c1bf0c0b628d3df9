use mailkeep::forms::{
    check_initial_password, check_initial_password_form, check_new_password, check_profile_name, check_register_admin,
    confirm_status, default_port, initial_login_error, landing_form, login_decision, login_outcome,
    port_after_encryption_change, validate_login, validate_registration, LandingForm, LoginDecision, LoginOutcome,
    ProfileEvent, ProfileForm, ProfileRequest, RegisterFormError,
};

#[test]
fn landing_picks_the_form() {
    assert_eq!(landing_form(true, Some(Ok(false))), LandingForm::ChangeInitialPassword);
    assert_eq!(landing_form(false, Some(Ok(false))), LandingForm::RegisterAdmin);
    assert_eq!(landing_form(false, Some(Ok(true))), LandingForm::Login);
    assert_eq!(landing_form(false, None), LandingForm::Login);
    assert_eq!(landing_form(false, Some(Err(()))), LandingForm::Login);
    assert_eq!(initial_login_error(Some(1)), Some("Sign-in failed. Please try again."));
    assert_eq!(initial_login_error(None), None);
}

#[test]
fn login_checks_and_outcomes() {
    assert_eq!(validate_login("", "x"), Err("Please enter your username and password."));
    assert_eq!(validate_login("u", ""), Err("Please enter your username and password."));
    assert_eq!(validate_login("u", "p"), Ok(()));
    assert_eq!(login_decision(false, false), Err("Invalid username or password"));
    assert_eq!(login_decision(true, true), Ok(LoginDecision::MustChangePassword));
    assert_eq!(login_decision(true, false), Ok(LoginDecision::SignIn));
    assert_eq!(login_outcome(Ok(None)), LoginOutcome::GoHome);
    assert_eq!(login_outcome(Ok(Some("U_1".into()))), LoginOutcome::ChangePassword("U_1".into()));
    assert_eq!(login_outcome(Err("bad".into())), LoginOutcome::ShowError("bad".into()));
}

#[test]
fn registration_checks_in_order() {
    let strong = "Str0ng!Password";
    assert_eq!(validate_registration(" ", "N", strong, strong, "e"), Err(RegisterFormError::UsernameRequired));
    assert_eq!(validate_registration("u", "", strong, strong, "e"), Err(RegisterFormError::FullNameRequired));
    assert_eq!(validate_registration("u", "N", "weak", "weak", "e"), Err(RegisterFormError::WeakPassword));
    assert_eq!(validate_registration("u", "N", strong, "other", "e"), Err(RegisterFormError::PasswordMismatch));
    assert_eq!(validate_registration("u", "N", strong, strong, "  "), Err(RegisterFormError::EmailRequired));
    assert_eq!(validate_registration("u", "N", strong, strong, "e@x"), Ok(()));
    assert_eq!(RegisterFormError::WeakPassword.message(), "Password does not meet all of the requirements listed below.");
    assert_eq!(check_register_admin(0), Ok(()));
    assert_eq!(check_register_admin(1), Err("Admin already exists"));
    assert_eq!(confirm_status("a", ""), None);
    assert_eq!(confirm_status("a", "a"), Some(true));
    assert_eq!(confirm_status("a", "b"), Some(false));
}

#[test]
fn password_change_checks() {
    assert_eq!(check_initial_password_form("a", "b"), Err("Passwords do not match."));
    assert_eq!(check_initial_password_form("a", "a"), Ok(()));
    assert_eq!(check_initial_password("  "), Err("Password must not be empty"));
    assert_eq!(check_initial_password("x"), Ok(()));
    assert_eq!(check_new_password(""), Err("New password must not be empty"));
    assert_eq!(check_profile_name("  Ann "), Ok("Ann".to_string()));
    assert_eq!(check_profile_name(" "), Err("Full name must not be empty"));
}

#[test]
fn port_follows_encryption_until_edited() {
    assert_eq!(default_port("StartTls"), "143");
    assert_eq!(default_port("Tls"), "993");
    assert_eq!(port_after_encryption_change(false, "StartTls", "993"), "143");
    assert_eq!(port_after_encryption_change(true, "StartTls", "1993"), "1993");
}

#[test]
fn profile_page_flow() {
    let mut p = ProfileForm::new();
    assert_eq!(p.step(ProfileEvent::Loaded("Ann".into(), "ann@x".into())), None);
    assert_eq!(p.step(ProfileEvent::EditName("Ann Lee".into())), None);
    assert_eq!(p.step(ProfileEvent::Save), Some(ProfileRequest::UpdateProfile("Ann Lee".into(), "ann@x".into())));
    assert!(p.saving);
    assert_eq!(p.step(ProfileEvent::Save), None, "no second request while saving");
    p.step(ProfileEvent::SaveDone(Ok(())));
    assert!(p.saved && !p.saving);
    p.step(ProfileEvent::OpenPasswordDialog);
    p.step(ProfileEvent::EditCurrentPassword("old".into()));
    p.step(ProfileEvent::EditNewPassword("new".into()));
    p.step(ProfileEvent::EditConfirmPassword("nex".into()));
    assert!(!p.passwords_agree());
    assert_eq!(p.step(ProfileEvent::SubmitPassword), None);
    p.step(ProfileEvent::EditConfirmPassword("new".into()));
    assert_eq!(p.step(ProfileEvent::SubmitPassword), Some(ProfileRequest::ChangePassword("old".into(), "new".into())));
    p.step(ProfileEvent::PasswordDone(Err("Current password is incorrect".into())));
    assert_eq!(p.password_error.as_deref(), Some("Current password is incorrect"));
    assert!(p.password_dialog_open);
    p.step(ProfileEvent::SubmitPassword);
    p.step(ProfileEvent::PasswordDone(Ok(())));
    assert!(!p.password_dialog_open);
    assert!(p.new_password.is_empty() && p.current_password.is_empty() && p.confirm_password.is_empty());
}
