//! Server configuration: where the web server listens, and the single
//! sign-on settings.

use vstd::prelude::*;

use crate::text::opt_chars;

verus! {

/// Where the web server listens, and the address it is reached at.
#[derive(Clone, Debug, PartialEq)]
pub struct FrontendConfig {
    pub listen_ip: String,
    pub listen_port: u16,
    pub base_url: String,
}

impl Default for FrontendConfig {
    fn default() -> (r: FrontendConfig)
        ensures
            r.listen_ip@ == "0.0.0.0"@,
            r.listen_port == 8080,
            r.base_url@ == "http://0.0.0.0:8080"@,
    {
        FrontendConfig {
            listen_ip: String::from_str("0.0.0.0"),
            listen_port: 8080,
            base_url: String::from_str("http://0.0.0.0:8080"),
        }
    }
}

/// Single sign-on (OpenID Connect) settings. The discovery URL, the client
/// id and the client secret are all needed to sign in with it; the button
/// label is cosmetic.
#[derive(Clone, Debug, PartialEq)]
pub struct OidcConfig {
    pub discovery_url: Option<String>,
    pub client_id: Option<String>,
    pub client_secret: Option<String>,
    pub button_label: Option<String>,
}

/// Label of the sign-on button when none is configured.
pub const DEFAULT_BUTTON_LABEL: &'static str = "Sign in with SSO";

/// The setting that names each required field.
pub const DISCOVERY_URL_VAR: &'static str = "BOOKBOSS__OIDC__DISCOVERY_URL";

pub const CLIENT_ID_VAR: &'static str = "BOOKBOSS__OIDC__CLIENT_ID";

pub const CLIENT_SECRET_VAR: &'static str = "BOOKBOSS__OIDC__CLIENT_SECRET";

/// A required field holds a non-empty value.
pub open spec fn filled(o: Option<String>) -> bool {
    match o {
        Some(s) => s@.len() > 0,
        None => false,
    }
}

fn is_filled(o: &Option<String>) -> (r: bool)
    ensures
        r == filled(*o),
{
    match o {
        Some(s) => s.as_str().unicode_len() > 0,
        None => false,
    }
}

impl Default for OidcConfig {
    fn default() -> (r: OidcConfig)
        ensures
            r.discovery_url is None && r.client_id is None && r.client_secret is None && r.button_label is None,
    {
        OidcConfig { discovery_url: None, client_id: None, client_secret: None, button_label: None }
    }
}

impl OidcConfig {
    /// Some required field is present: sign-on was meant to be on, perhaps
    /// only partly configured.
    pub open spec fn is_set_spec(&self) -> bool {
        self.discovery_url is Some || self.client_id is Some || self.client_secret is Some
    }

    /// Sign-on is fully configured.
    pub open spec fn sso_available_spec(&self) -> bool {
        self.is_set_spec() && filled(self.discovery_url) && filled(self.client_id) && filled(self.client_secret)
    }

    pub fn is_set(&self) -> (r: bool)
        ensures
            r == self.is_set_spec(),
    {
        self.discovery_url.is_some() || self.client_id.is_some() || self.client_secret.is_some()
    }

    /// The configured button label, else the default one.
    pub fn button_label(&self) -> (r: &str)
        ensures
            r@ == match self.button_label {
                Some(l) => l@,
                None => DEFAULT_BUTTON_LABEL@,
            },
    {
        match &self.button_label {
            Some(l) => l.as_str(),
            None => DEFAULT_BUTTON_LABEL,
        }
    }

    /// The settings of the required fields that are missing or empty, in
    /// the order discovery URL, client id, client secret. Empty when sign-on
    /// is not meant to be on at all.
    pub fn missing_fields(&self) -> (r: Vec<&'static str>)
        ensures
            !self.is_set_spec() ==> r@.len() == 0,
            self.is_set_spec() ==> r@.map_values(|v: &'static str| v@) == (if filled(self.discovery_url) {
                Seq::<Seq<char>>::empty()
            } else {
                seq![DISCOVERY_URL_VAR@]
            }) + (if filled(self.client_id) {
                Seq::<Seq<char>>::empty()
            } else {
                seq![CLIENT_ID_VAR@]
            }) + (if filled(self.client_secret) {
                Seq::<Seq<char>>::empty()
            } else {
                seq![CLIENT_SECRET_VAR@]
            }),
    {
        let mut r: Vec<&'static str> = Vec::new();
        if !self.is_set() {
            return r;
        }
        if !is_filled(&self.discovery_url) {
            r.push(DISCOVERY_URL_VAR);
        }
        if !is_filled(&self.client_id) {
            r.push(CLIENT_ID_VAR);
        }
        if !is_filled(&self.client_secret) {
            r.push(CLIENT_SECRET_VAR);
        }
        assert(r@.map_values(|v: &'static str| v@) =~= (if filled(self.discovery_url) {
            Seq::<Seq<char>>::empty()
        } else {
            seq![DISCOVERY_URL_VAR@]
        }) + (if filled(self.client_id) {
            Seq::<Seq<char>>::empty()
        } else {
            seq![CLIENT_ID_VAR@]
        }) + (if filled(self.client_secret) {
            Seq::<Seq<char>>::empty()
        } else {
            seq![CLIENT_SECRET_VAR@]
        }));
        r
    }

    /// Whether sign-on is fully configured and can be offered.
    pub fn is_sso_available(&self) -> (r: bool)
        ensures
            r == self.sso_available_spec(),
    {
        if !self.is_set() {
            return false;
        }
        let missing = self.missing_fields();
        assert(missing@.map_values(|v: &'static str| v@).len() == missing@.len());
        missing.len() == 0
    }
}

/// The sign-on button label to offer on the login page, or `None` when
/// single sign-on is not configured (or not fully).
pub fn sso_button_label(config: Option<&OidcConfig>) -> (r: Option<String>)
    ensures
        match config {
            None => r is None,
            Some(c) => if c.sso_available_spec() {
                opt_chars(r) == Some(
                    match c.button_label {
                        Some(l) => l@,
                        None => DEFAULT_BUTTON_LABEL@,
                    },
                )
            } else {
                r is None
            },
        },
{
    match config {
        None => None,
        Some(c) => if c.is_sso_available() {
            Some(String::from_str(c.button_label()))
        } else {
            None
        },
    }
}

/// Sign-on is offered only when it was meant to be on, and the button label
/// alone never turns it on.
pub proof fn lemma_sso_needs_required_fields(c: OidcConfig)
    ensures
        c.sso_available_spec() ==> c.is_set_spec(),
        c.discovery_url is None && c.client_id is None && c.client_secret is None ==> !c.sso_available_spec(),
{
}

} // verus!
