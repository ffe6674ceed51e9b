use zendesk_cli::cli::{
    body_source, check_reply_body, check_something_to_set, choose_view, clear_token_message,
    config_show, mask, parse_statuses, reply_confirmation, reply_visibility, saved_config_message,
    stored_token_message, token_subdomain, view_limit, writes_config_file, BodySource,
};
use zendesk_cli::config::{Config, Environment, FileConfig, Overrides, TokenSource};
use zendesk_cli::error::ZdError;

#[test]
fn reply_requires_exactly_one_visibility() {
    assert!(matches!(reply_visibility(true, false), Ok(true)));
    assert!(matches!(reply_visibility(false, true), Ok(false)));
    let e = reply_visibility(false, false).unwrap_err();
    assert!(e.message().contains("exactly one visibility"));
    assert!(matches!(reply_visibility(true, true), Err(ZdError::NoVisibility)));
}

#[test]
fn empty_reply_body_is_refused() {
    assert!(check_reply_body("hi").is_ok());
    let e = check_reply_body(" \n\t").unwrap_err();
    assert_eq!(e.message(), "reply body is empty");
}

#[test]
fn body_source_order() {
    assert_eq!(body_source(true, true, true).unwrap(), BodySource::Inline);
    assert_eq!(body_source(false, true, true).unwrap(), BodySource::File);
    assert_eq!(body_source(false, false, true).unwrap(), BodySource::Stdin);
    assert_eq!(
        body_source(false, false, false).unwrap_err().message(),
        "provide the reply body with --body, --file, or --stdin"
    );
}

#[test]
fn reply_confirmation_text() {
    assert_eq!(reply_confirmation(true, 77), "Posted public reply to ticket #77.");
    assert_eq!(reply_confirmation(false, 77), "Posted internal note to ticket #77.");
}

#[test]
fn view_choice() {
    assert_eq!(choose_view(Some(1), Some(2)).unwrap(), 1);
    assert_eq!(choose_view(None, Some(2)).unwrap(), 2);
    let e = choose_view(None, None).unwrap_err();
    assert!(e.message().contains("no view ID given and no default view set"));
}

#[test]
fn statuses_are_validated() {
    assert_eq!(parse_statuses("open,pending").unwrap(), vec!["open".to_string(), "pending".to_string()]);
    assert_eq!(parse_statuses(" Open , hold").unwrap(), vec!["Open".to_string(), "hold".to_string()]);
    let e = parse_statuses("bogus").unwrap_err();
    assert_eq!(e.message(), "invalid status 'bogus' (expected one of: new, open, pending, hold, solved, closed)");
    assert!(matches!(parse_statuses("open,,closed"), Err(ZdError::InvalidStatus(s)) if s.is_empty()));
}

#[test]
fn masking() {
    assert_eq!(mask("abc"), "****");
    assert_eq!(mask("abcd"), "****");
    assert_eq!(mask("secret-token"), "****oken");
}

#[test]
fn config_show_text() {
    let c = Config {
        subdomain: "acme".into(),
        email: "e@x.com".into(),
        api_token: "secret-token".into(),
        default_view: None,
        base_url_override: None,
    };
    assert_eq!(
        config_show(&c, TokenSource::Keychain),
        "subdomain   : acme\nemail       : e@x.com\napi_token   : ****oken  (from OS keychain)\nbase_url    : https://acme.zendesk.com/api/v2\n"
    );
    assert!(config_show(&c, TokenSource::LegacyFile).contains("\nwarning: token is stored in plaintext"));
}

#[test]
fn config_set_decisions() {
    assert_eq!(
        check_something_to_set(false, false, false, false).unwrap_err().message(),
        "nothing to set; pass --subdomain, --email, --default-view, and/or --api-token"
    );
    assert!(check_something_to_set(false, false, true, false).is_ok());
    assert!(writes_config_file(false, false, false, true));
    assert!(!writes_config_file(false, false, false, false));
    let env = Environment { subdomain: Some("envsub".into()), email: None, api_token: None, base_url: None };
    assert_eq!(token_subdomain(&Some("given".into()), &Overrides::default(), &env, &FileConfig::default()).unwrap(), "given");
    assert_eq!(token_subdomain(&None, &Overrides::default(), &env, &FileConfig::default()).unwrap(), "envsub");
}

#[test]
fn config_messages() {
    assert_eq!(stored_token_message("acme"), "Stored API token in the OS keychain (subdomain 'acme').");
    assert_eq!(saved_config_message("/tmp/c.toml"), "Saved subdomain/email to /tmp/c.toml");
    assert_eq!(clear_token_message(true, "acme"), "Removed API token from the keychain for subdomain 'acme'.");
    assert_eq!(clear_token_message(false, "acme"), "No API token was stored in the keychain for subdomain 'acme'.");
}

#[test]
fn all_pages_only_with_all_flag() {
    assert_eq!(view_limit(true), None);
    assert_eq!(view_limit(false), Some(100));
}
