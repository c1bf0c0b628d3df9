//! The checks and outcomes of the sign-in, registration, password and
//! connection forms.

use vstd::prelude::*;

use crate::password::{password_is_valid, password_valid_spec};
use crate::text::{is_blank, opt_chars, str_eq, trim, trim_str};

verus! {

// ---------------------------------------------------------------------------
// Landing page
// ---------------------------------------------------------------------------

/// Which form the landing page shows.
#[derive(Clone, Copy, Debug, PartialEq, Eq)]
pub enum LandingForm {
    /// The user signed in with a password that must be replaced first.
    ChangeInitialPassword,
    /// No user exists yet: create the administrator.
    RegisterAdmin,
    Login,
}

/// The form of the landing page. `has_users` is the answer of the user
/// count query: `None` while it is pending, `Some(Err(()))` when it failed.
pub fn landing_form(must_change_password: bool, has_users: Option<Result<bool, ()>>) -> (r: LandingForm)
    ensures
        r == (if must_change_password {
            LandingForm::ChangeInitialPassword
        } else if has_users == Some(Ok::<bool, ()>(false)) {
            LandingForm::RegisterAdmin
        } else {
            LandingForm::Login
        }),
{
    if must_change_password {
        LandingForm::ChangeInitialPassword
    } else {
        match has_users {
            Some(Ok(false)) => LandingForm::RegisterAdmin,
            _ => LandingForm::Login,
        }
    }
}

/// The error the login form opens with after a failed single sign-on.
pub fn initial_login_error(login_failed: Option<u8>) -> (r: Option<&'static str>)
    ensures
        login_failed is None ==> r is None,
        login_failed is Some ==> (r matches Some(m) && m@ == "Sign-in failed. Please try again."@),
{
    match login_failed {
        Some(_) => Some("Sign-in failed. Please try again."),
        None => None,
    }
}

// ---------------------------------------------------------------------------
// Login
// ---------------------------------------------------------------------------

/// The login form submits only with both fields filled.
pub fn validate_login(username: &str, password: &str) -> (r: Result<(), &'static str>)
    ensures
        (username@.len() == 0 || password@.len() == 0) ==> (r matches Err(m) && m@
            == "Please enter your username and password."@),
        (username@.len() > 0 && password@.len() > 0) ==> r is Ok,
{
    if username.unicode_len() == 0 || password.unicode_len() == 0 {
        return Err("Please enter your username and password.");
    }
    Ok(())
}

/// What the server decides about a login, given the user the credentials
/// belong to (`None` when they are invalid) and whether that user must
/// replace the password first.
#[derive(Clone, Copy, Debug, PartialEq, Eq)]
pub enum LoginDecision {
    /// Start the session.
    SignIn,
    /// Do not start the session; hand out the user's token for the password
    /// change form.
    MustChangePassword,
}

pub fn login_decision(credentials_valid: bool, change_password_on_login: bool) -> (r: Result<LoginDecision, &'static str>)
    ensures
        !credentials_valid ==> (r matches Err(m) && m@ == "Invalid username or password"@),
        credentials_valid && change_password_on_login ==> r == Ok::<LoginDecision, &'static str>(
            LoginDecision::MustChangePassword,
        ),
        credentials_valid && !change_password_on_login ==> r == Ok::<LoginDecision, &'static str>(
            LoginDecision::SignIn,
        ),
{
    if !credentials_valid {
        return Err("Invalid username or password");
    }
    if change_password_on_login {
        Ok(LoginDecision::MustChangePassword)
    } else {
        Ok(LoginDecision::SignIn)
    }
}

/// What the login form does with the server's answer.
#[derive(Clone, Debug, PartialEq)]
pub enum LoginOutcome {
    GoHome,
    /// Show the password change form for the user with this token.
    ChangePassword(String),
    ShowError(String),
}

pub fn login_outcome(reply: Result<Option<String>, String>) -> (r: LoginOutcome)
    ensures
        match reply {
            Ok(None) => r == LoginOutcome::GoHome,
            Ok(Some(t)) => r == LoginOutcome::ChangePassword(t),
            Err(m) => r == LoginOutcome::ShowError(m),
        },
{
    match reply {
        Ok(None) => LoginOutcome::GoHome,
        Ok(Some(t)) => LoginOutcome::ChangePassword(t),
        Err(m) => LoginOutcome::ShowError(m),
    }
}

// ---------------------------------------------------------------------------
// Administrator registration
// ---------------------------------------------------------------------------

/// Why the registration form refuses to submit.
#[derive(Clone, Copy, Debug, PartialEq, Eq)]
pub enum RegisterFormError {
    UsernameRequired,
    FullNameRequired,
    WeakPassword,
    PasswordMismatch,
    EmailRequired,
}

pub open spec fn register_error_message(e: RegisterFormError) -> Seq<char> {
    match e {
        RegisterFormError::UsernameRequired => "Username is required."@,
        RegisterFormError::FullNameRequired => "Full name is required."@,
        RegisterFormError::WeakPassword => "Password does not meet all of the requirements listed below."@,
        RegisterFormError::PasswordMismatch => "Passwords do not match."@,
        RegisterFormError::EmailRequired => "Email address is required."@,
    }
}

impl RegisterFormError {
    pub fn message(&self) -> (r: &'static str)
        ensures
            r@ == register_error_message(*self),
    {
        match self {
            RegisterFormError::UsernameRequired => "Username is required.",
            RegisterFormError::FullNameRequired => "Full name is required.",
            RegisterFormError::WeakPassword => "Password does not meet all of the requirements listed below.",
            RegisterFormError::PasswordMismatch => "Passwords do not match.",
            RegisterFormError::EmailRequired => "Email address is required.",
        }
    }
}

/// The first check of the registration form that fails, in order.
pub open spec fn register_error(
    username: Seq<char>,
    full_name: Seq<char>,
    password: &str,
    confirm: Seq<char>,
    email: Seq<char>,
) -> Option<RegisterFormError> {
    if trim(username).len() == 0 {
        Some(RegisterFormError::UsernameRequired)
    } else if trim(full_name).len() == 0 {
        Some(RegisterFormError::FullNameRequired)
    } else if !password_valid_spec(password) {
        Some(RegisterFormError::WeakPassword)
    } else if password@ != confirm {
        Some(RegisterFormError::PasswordMismatch)
    } else if trim(email).len() == 0 {
        Some(RegisterFormError::EmailRequired)
    } else {
        None
    }
}

/// Checks the administrator registration form; on success the fields are
/// sent as typed.
pub fn validate_registration(
    username: &str,
    full_name: &str,
    password: &str,
    confirm: &str,
    email: &str,
) -> (r: Result<(), RegisterFormError>)
    ensures
        r == (match register_error(username@, full_name@, password, confirm@, email@) {
            Some(e) => Err(e),
            None => Ok(()),
        }),
{
    if is_blank(username) {
        return Err(RegisterFormError::UsernameRequired);
    }
    if is_blank(full_name) {
        return Err(RegisterFormError::FullNameRequired);
    }
    if !password_is_valid(password) {
        return Err(RegisterFormError::WeakPassword);
    }
    if !str_eq(password, confirm) {
        return Err(RegisterFormError::PasswordMismatch);
    }
    if is_blank(email) {
        return Err(RegisterFormError::EmailRequired);
    }
    Ok(())
}

/// The administrator can only be registered while no user exists.
pub fn check_register_admin(existing_users: usize) -> (r: Result<(), &'static str>)
    ensures
        existing_users == 0 ==> r is Ok,
        existing_users > 0 ==> (r matches Err(m) && m@ == "Admin already exists"@),
{
    if existing_users > 0 {
        return Err("Admin already exists");
    }
    Ok(())
}

/// The confirmation line under the repeated password: `None` until
/// something is typed, then whether both fields agree.
pub fn confirm_status(password: &str, confirm: &str) -> (r: Option<bool>)
    ensures
        confirm@.len() == 0 ==> r is None,
        confirm@.len() > 0 ==> r == Some(password@ == confirm@),
{
    if confirm.unicode_len() == 0 {
        None
    } else {
        Some(str_eq(password, confirm))
    }
}

// ---------------------------------------------------------------------------
// Password changes
// ---------------------------------------------------------------------------

/// The initial password change form: both fields must agree.
pub fn check_initial_password_form(new_password: &str, confirm: &str) -> (r: Result<(), &'static str>)
    ensures
        new_password@ == confirm@ ==> r is Ok,
        new_password@ != confirm@ ==> (r matches Err(m) && m@ == "Passwords do not match."@),
{
    if !str_eq(new_password, confirm) {
        return Err("Passwords do not match.");
    }
    Ok(())
}

/// The server's check of a replacement for a password that must be changed.
pub fn check_initial_password(new_password: &str) -> (r: Result<(), &'static str>)
    ensures
        trim(new_password@).len() == 0 ==> (r matches Err(m) && m@ == "Password must not be empty"@),
        trim(new_password@).len() > 0 ==> r is Ok,
{
    if is_blank(new_password) {
        return Err("Password must not be empty");
    }
    Ok(())
}

/// The server's check of a new password chosen on the profile page.
pub fn check_new_password(new_password: &str) -> (r: Result<(), &'static str>)
    ensures
        trim(new_password@).len() == 0 ==> (r matches Err(m) && m@ == "New password must not be empty"@),
        trim(new_password@).len() > 0 ==> r is Ok,
{
    if is_blank(new_password) {
        return Err("New password must not be empty");
    }
    Ok(())
}

/// The server's check of a profile update; gives the trimmed full name.
pub fn check_profile_name(full_name: &str) -> (r: Result<String, &'static str>)
    ensures
        trim(full_name@).len() == 0 ==> (r matches Err(m) && m@ == "Full name must not be empty"@),
        trim(full_name@).len() > 0 ==> (r matches Ok(n) && n@ == trim(full_name@)),
{
    let n = trim_str(full_name);
    if n.as_str().unicode_len() == 0 {
        return Err("Full name must not be empty");
    }
    Ok(n)
}

// ---------------------------------------------------------------------------
// Connection form
// ---------------------------------------------------------------------------

pub open spec fn default_port_spec(tls: Seq<char>) -> Seq<char> {
    if tls == "StartTls"@ {
        "143"@
    } else {
        "993"@
    }
}

/// The IMAP port for an encryption choice: 143 for STARTTLS, else 993.
pub fn default_port(tls: &str) -> (r: &'static str)
    ensures
        r@ == default_port_spec(tls@),
{
    if str_eq(tls, "StartTls") {
        "143"
    } else {
        "993"
    }
}

/// The port field after the encryption choice changed: it follows the
/// choice until the user has edited it.
pub fn port_after_encryption_change(port_touched: bool, tls: &str, port: &str) -> (r: String)
    ensures
        !port_touched ==> r@ == default_port_spec(tls@),
        port_touched ==> r@ == port@,
{
    if !port_touched {
        String::from_str(default_port(tls))
    } else {
        String::from_str(port)
    }
}

// ---------------------------------------------------------------------------
// Profile page
// ---------------------------------------------------------------------------

/// The profile card and its change-password dialog.
#[derive(Clone, Debug, PartialEq)]
pub struct ProfileForm {
    pub full_name: String,
    pub email: String,
    pub saving: bool,
    pub saved: bool,
    pub error: Option<String>,
    pub password_dialog_open: bool,
    pub current_password: String,
    pub new_password: String,
    pub confirm_password: String,
    pub password_saving: bool,
    pub password_error: Option<String>,
}

pub struct ProfileView {
    pub full_name: Seq<char>,
    pub email: Seq<char>,
    pub saving: bool,
    pub saved: bool,
    pub error: Option<Seq<char>>,
    pub password_dialog_open: bool,
    pub current_password: Seq<char>,
    pub new_password: Seq<char>,
    pub confirm_password: Seq<char>,
    pub password_saving: bool,
    pub password_error: Option<Seq<char>>,
}

impl View for ProfileForm {
    type V = ProfileView;

    open spec fn view(&self) -> ProfileView {
        ProfileView {
            full_name: self.full_name@,
            email: self.email@,
            saving: self.saving,
            saved: self.saved,
            error: opt_chars(self.error),
            password_dialog_open: self.password_dialog_open,
            current_password: self.current_password@,
            new_password: self.new_password@,
            confirm_password: self.confirm_password@,
            password_saving: self.password_saving,
            password_error: opt_chars(self.password_error),
        }
    }
}

/// Something that happens on the profile page.
#[derive(Debug)]
pub enum ProfileEvent {
    /// The stored name and address arrived.
    Loaded(String, String),
    EditName(String),
    EditEmail(String),
    Save,
    /// The server answered the profile update.
    SaveDone(Result<(), String>),
    OpenPasswordDialog,
    /// The dialog's cancel button (disabled while saving).
    CancelPasswordDialog,
    /// Escape pressed in the dialog.
    EscapePasswordDialog,
    EditCurrentPassword(String),
    EditNewPassword(String),
    EditConfirmPassword(String),
    SubmitPassword,
    /// The server answered the password change.
    PasswordDone(Result<(), String>),
}

pub enum ProfileEventView {
    Loaded(Seq<char>, Seq<char>),
    EditName(Seq<char>),
    EditEmail(Seq<char>),
    Save,
    SaveDone(Result<(), Seq<char>>),
    OpenPasswordDialog,
    CancelPasswordDialog,
    EscapePasswordDialog,
    EditCurrentPassword(Seq<char>),
    EditNewPassword(Seq<char>),
    EditConfirmPassword(Seq<char>),
    SubmitPassword,
    PasswordDone(Result<(), Seq<char>>),
}

pub open spec fn reply_view(r: Result<(), String>) -> Result<(), Seq<char>> {
    match r {
        Ok(()) => Ok(()),
        Err(m) => Err(m@),
    }
}

impl View for ProfileEvent {
    type V = ProfileEventView;

    open spec fn view(&self) -> ProfileEventView {
        match self {
            ProfileEvent::Loaded(n, e) => ProfileEventView::Loaded(n@, e@),
            ProfileEvent::EditName(v) => ProfileEventView::EditName(v@),
            ProfileEvent::EditEmail(v) => ProfileEventView::EditEmail(v@),
            ProfileEvent::Save => ProfileEventView::Save,
            ProfileEvent::SaveDone(r) => ProfileEventView::SaveDone(reply_view(*r)),
            ProfileEvent::OpenPasswordDialog => ProfileEventView::OpenPasswordDialog,
            ProfileEvent::CancelPasswordDialog => ProfileEventView::CancelPasswordDialog,
            ProfileEvent::EscapePasswordDialog => ProfileEventView::EscapePasswordDialog,
            ProfileEvent::EditCurrentPassword(v) => ProfileEventView::EditCurrentPassword(v@),
            ProfileEvent::EditNewPassword(v) => ProfileEventView::EditNewPassword(v@),
            ProfileEvent::EditConfirmPassword(v) => ProfileEventView::EditConfirmPassword(v@),
            ProfileEvent::SubmitPassword => ProfileEventView::SubmitPassword,
            ProfileEvent::PasswordDone(r) => ProfileEventView::PasswordDone(reply_view(*r)),
        }
    }
}

/// A request the page must send to the server.
#[derive(Clone, Debug, PartialEq)]
pub enum ProfileRequest {
    UpdateProfile(String, String),
    ChangePassword(String, String),
}

pub enum ProfileRequestView {
    UpdateProfile(Seq<char>, Seq<char>),
    ChangePassword(Seq<char>, Seq<char>),
}

pub open spec fn request_view(r: Option<ProfileRequest>) -> Option<ProfileRequestView> {
    match r {
        Some(ProfileRequest::UpdateProfile(n, e)) => Some(ProfileRequestView::UpdateProfile(n@, e@)),
        Some(ProfileRequest::ChangePassword(c, n)) => Some(ProfileRequestView::ChangePassword(c@, n@)),
        None => None,
    }
}

/// The repeated password agrees, or has not been typed yet.
pub open spec fn passwords_agree(s: ProfileView) -> bool {
    s.confirm_password.len() == 0 || s.new_password == s.confirm_password
}

/// The dialog's submit button is enabled.
pub open spec fn can_submit_password(s: ProfileView) -> bool {
    !s.password_saving && passwords_agree(s) && s.new_password.len() > 0
}

/// The dialog closed and its fields forgotten.
pub open spec fn close_dialog(s: ProfileView) -> ProfileView {
    ProfileView {
        password_dialog_open: false,
        current_password: Seq::empty(),
        new_password: Seq::empty(),
        confirm_password: Seq::empty(),
        password_error: None,
        ..s
    }
}

pub open spec fn profile_step(s: ProfileView, e: ProfileEventView) -> (ProfileView, Option<ProfileRequestView>) {
    match e {
        ProfileEventView::Loaded(n, m) => (ProfileView { full_name: n, email: m, ..s }, None),
        ProfileEventView::EditName(v) => (ProfileView { saved: false, full_name: v, ..s }, None),
        ProfileEventView::EditEmail(v) => (ProfileView { saved: false, email: v, ..s }, None),
        ProfileEventView::Save => if s.saving {
            (s, None)
        } else {
            (
                ProfileView { saving: true, saved: false, error: None, ..s },
                Some(ProfileRequestView::UpdateProfile(s.full_name, s.email)),
            )
        },
        ProfileEventView::SaveDone(r) => match r {
            Ok(()) => (ProfileView { saved: true, saving: false, ..s }, None),
            Err(m) => (ProfileView { error: Some(m), saving: false, ..s }, None),
        },
        ProfileEventView::OpenPasswordDialog => (ProfileView { password_dialog_open: true, ..s }, None),
        ProfileEventView::CancelPasswordDialog => if s.password_saving {
            (s, None)
        } else {
            (close_dialog(s), None)
        },
        ProfileEventView::EscapePasswordDialog => (close_dialog(s), None),
        ProfileEventView::EditCurrentPassword(v) => (ProfileView { current_password: v, ..s }, None),
        ProfileEventView::EditNewPassword(v) => (ProfileView { new_password: v, ..s }, None),
        ProfileEventView::EditConfirmPassword(v) => (ProfileView { confirm_password: v, ..s }, None),
        ProfileEventView::SubmitPassword => if !can_submit_password(s) {
            (s, None)
        } else {
            (
                ProfileView { password_saving: true, password_error: None, ..s },
                Some(ProfileRequestView::ChangePassword(s.current_password, s.new_password)),
            )
        },
        ProfileEventView::PasswordDone(r) => match r {
            Ok(()) => (ProfileView { password_saving: false, ..close_dialog(s) }, None),
            Err(m) => (ProfileView { password_error: Some(m), password_saving: false, ..s }, None),
        },
    }
}

impl ProfileForm {
    /// The page before the stored profile arrived.
    pub fn new() -> (r: ProfileForm)
        ensures
            r@.full_name.len() == 0 && r@.email.len() == 0,
            !r.saving && !r.saved && r.error is None,
            !r.password_dialog_open && !r.password_saving && r.password_error is None,
            r@.current_password.len() == 0 && r@.new_password.len() == 0 && r@.confirm_password.len() == 0,
    {
        ProfileForm {
            full_name: String::new(),
            email: String::new(),
            saving: false,
            saved: false,
            error: None,
            password_dialog_open: false,
            current_password: String::new(),
            new_password: String::new(),
            confirm_password: String::new(),
            password_saving: false,
            password_error: None,
        }
    }

    /// Whether the repeated password agrees (or is still empty).
    pub fn passwords_agree(&self) -> (r: bool)
        ensures
            r == passwords_agree(self@),
    {
        self.confirm_password.as_str().unicode_len() == 0 || str_eq(
            self.new_password.as_str(),
            self.confirm_password.as_str(),
        )
    }

    /// Whether the dialog's submit button is enabled.
    pub fn can_submit_password(&self) -> (r: bool)
        ensures
            r == can_submit_password(self@),
    {
        !self.password_saving && self.passwords_agree() && self.new_password.as_str().unicode_len() > 0
    }

    fn close_dialog(&mut self)
        ensures
            final(self)@ == close_dialog(old(self)@),
    {
        self.password_dialog_open = false;
        self.current_password = String::new();
        self.new_password = String::new();
        self.confirm_password = String::new();
        self.password_error = None;
    }

    /// Applies an event; gives the request to send, if any.
    pub fn step(&mut self, event: ProfileEvent) -> (req: Option<ProfileRequest>)
        ensures
            (final(self)@, request_view(req)) == profile_step(old(self)@, event@),
    {
        match event {
            ProfileEvent::Loaded(n, m) => {
                self.full_name = n;
                self.email = m;
                None
            },
            ProfileEvent::EditName(v) => {
                self.saved = false;
                self.full_name = v;
                None
            },
            ProfileEvent::EditEmail(v) => {
                self.saved = false;
                self.email = v;
                None
            },
            ProfileEvent::Save => {
                if self.saving {
                    return None;
                }
                self.saving = true;
                self.saved = false;
                self.error = None;
                Some(ProfileRequest::UpdateProfile(self.full_name.clone(), self.email.clone()))
            },
            ProfileEvent::SaveDone(r) => {
                match r {
                    Ok(()) => self.saved = true,
                    Err(m) => self.error = Some(m),
                }
                self.saving = false;
                None
            },
            ProfileEvent::OpenPasswordDialog => {
                self.password_dialog_open = true;
                None
            },
            ProfileEvent::CancelPasswordDialog => {
                if !self.password_saving {
                    self.close_dialog();
                }
                None
            },
            ProfileEvent::EscapePasswordDialog => {
                self.close_dialog();
                None
            },
            ProfileEvent::EditCurrentPassword(v) => {
                self.current_password = v;
                None
            },
            ProfileEvent::EditNewPassword(v) => {
                self.new_password = v;
                None
            },
            ProfileEvent::EditConfirmPassword(v) => {
                self.confirm_password = v;
                None
            },
            ProfileEvent::SubmitPassword => {
                if !self.can_submit_password() {
                    return None;
                }
                self.password_saving = true;
                self.password_error = None;
                Some(ProfileRequest::ChangePassword(self.current_password.clone(), self.new_password.clone()))
            },
            ProfileEvent::PasswordDone(r) => {
                match r {
                    Ok(()) => self.close_dialog(),
                    Err(m) => self.password_error = Some(m),
                }
                self.password_saving = false;
                None
            },
        }
    }
}

/// A password change is never sent while another one is in flight, nor with
/// an empty or unconfirmed new password.
pub proof fn lemma_password_request_guarded(s: ProfileView, e: ProfileEventView)
    ensures
        profile_step(s, e).1 matches Some(ProfileRequestView::ChangePassword(c, n)) ==> !s.password_saving
            && n.len() > 0 && n == s.new_password && c == s.current_password && (s.confirm_password.len() == 0
            || s.confirm_password == n),
{
}

/// A successful password change closes the dialog and forgets every typed
/// password.
pub proof fn lemma_password_done_forgets(s: ProfileView)
    ensures
        ({
            let t = profile_step(s, ProfileEventView::PasswordDone(Ok(()))).0;
            !t.password_dialog_open && t.current_password.len() == 0 && t.new_password.len() == 0
                && t.confirm_password.len() == 0 && !t.password_saving
        }),
{
}

} // verus!
