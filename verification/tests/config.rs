use mailkeep::config::{sso_button_label, FrontendConfig, OidcConfig};

#[test]
fn oidc_config_unavailable_when_empty() {
    let config = OidcConfig::default();
    assert!(!config.is_set());
    assert!(!config.is_sso_available());
}

#[test]
fn oidc_config_available_when_all_required_present() {
    let config = OidcConfig {
        discovery_url: Some("https://idp.example.com/.well-known/openid-configuration".into()),
        client_id: Some("bookboss".into()),
        client_secret: Some("secret".into()),
        button_label: None,
    };
    assert!(config.is_set());
    assert!(config.is_sso_available());
}

#[test]
fn oidc_config_unavailable_when_partial() {
    let config = OidcConfig {
        discovery_url: Some("https://idp.example.com/.well-known/openid-configuration".into()),
        client_id: None,
        client_secret: None,
        button_label: None,
    };
    assert!(config.is_set());
    assert!(!config.is_sso_available());
}

#[test]
fn oidc_config_button_label_default() {
    let config = OidcConfig::default();
    assert_eq!(config.button_label(), "Sign in with SSO");
}

#[test]
fn oidc_config_button_label_custom() {
    let config = OidcConfig { button_label: Some("Login with Authentik".into()), ..Default::default() };
    assert_eq!(config.button_label(), "Login with Authentik");
}

#[test]
fn oidc_config_button_label_alone_does_not_enable_sso() {
    let config = OidcConfig { button_label: Some("Custom".into()), ..Default::default() };
    assert!(!config.is_set());
    assert!(!config.is_sso_available());
}

#[test]
fn empty_values_count_as_missing() {
    let config = OidcConfig {
        discovery_url: Some("https://idp.example.com".into()),
        client_id: Some(String::new()),
        client_secret: Some("secret".into()),
        button_label: None,
    };
    assert!(!config.is_sso_available());
    assert_eq!(config.missing_fields(), vec!["BOOKBOSS__OIDC__CLIENT_ID"]);
}

#[test]
fn sso_label_offered_only_when_available() {
    assert_eq!(sso_button_label(None), None);
    let partial = OidcConfig { client_id: Some("x".into()), ..Default::default() };
    assert_eq!(sso_button_label(Some(&partial)), None);
    let full = OidcConfig {
        discovery_url: Some("u".into()),
        client_id: Some("i".into()),
        client_secret: Some("s".into()),
        button_label: Some("Go".into()),
    };
    assert_eq!(sso_button_label(Some(&full)), Some("Go".to_string()));
}

#[test]
fn frontend_config_defaults() {
    let c = FrontendConfig::default();
    assert_eq!(c.listen_ip, "0.0.0.0");
    assert_eq!(c.listen_port, 8080);
    assert_eq!(c.base_url, "http://0.0.0.0:8080");
}
