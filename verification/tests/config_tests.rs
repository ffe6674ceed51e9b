use zendesk_cli::config::{
    merge_nonsecret, pick, resolve_subdomain, resolve_with_source, Config, Environment, FileConfig,
    Overrides, TokenSource,
};
use zendesk_cli::error::{Setting, ZdError};

fn cfg(subdomain: &str, base_url_override: Option<&str>) -> Config {
    Config {
        subdomain: subdomain.into(),
        email: "e@x.com".into(),
        api_token: "tok".into(),
        default_view: None,
        base_url_override: base_url_override.map(str::to_string),
    }
}

fn no_env() -> Environment {
    Environment { subdomain: None, email: None, api_token: None, base_url: None }
}

#[test]
fn base_url_derived_from_subdomain() {
    assert_eq!(cfg("acme", None).base_url(), "https://acme.zendesk.com/api/v2");
}

#[test]
fn base_url_override_wins() {
    assert_eq!(
        cfg("acme", Some("http://localhost:1234/api/v2")).base_url(),
        "http://localhost:1234/api/v2"
    );
}

#[test]
fn basic_auth_user_appends_token_scheme() {
    assert_eq!(cfg("acme", None).basic_auth_user(), "e@x.com/token");
}

#[test]
fn pick_prefers_flag_over_env_and_file() {
    // The environment variable is unset.
    assert_eq!(pick(&Some("flag".into()), None, Some("file".into())), Some("flag".into()));
}

#[test]
fn pick_uses_env_over_file() {
    assert_eq!(pick(&None, Some("envval".into()), Some("file".into())), Some("envval".into()));
}

#[test]
fn pick_ignores_empty_env() {
    assert_eq!(pick(&None, Some("".into()), Some("file".into())), Some("file".into()));
}

#[test]
fn pick_falls_back_to_file() {
    assert_eq!(pick(&None, None, Some("file".into())), Some("file".into()));
}

#[test]
fn token_source_labels() {
    assert_eq!(TokenSource::Flag.label(), "--api-token flag");
    assert_eq!(TokenSource::Env.label(), "ZENDESK_API_TOKEN env var");
    assert_eq!(TokenSource::Keychain.label(), "OS keychain");
    assert_eq!(TokenSource::LegacyFile.label(), "config file (legacy, insecure)");
}

#[test]
fn flag_token_wins_over_env_token() {
    let o = Overrides { subdomain: Some("acme".into()), email: None, api_token: Some("flagtok".into()) };
    let env = Environment {
        subdomain: None,
        email: Some("a@b.c".into()),
        api_token: Some("envtok".into()),
        base_url: Some("".into()),
    };
    let (c, s) = resolve_with_source(&o, &env, FileConfig::default()).unwrap();
    assert_eq!(s, TokenSource::Flag);
    assert_eq!(c.api_token, "flagtok");
    assert_eq!(c.subdomain, "acme");
    assert_eq!(c.email, "a@b.c");
    assert_eq!(c.base_url_override, None);
}

#[test]
fn env_token_wins_over_file_token() {
    let env = Environment {
        subdomain: Some("acme".into()),
        email: Some("a@b.c".into()),
        api_token: Some("envtok".into()),
        base_url: Some("http://localhost:9/api/v2".into()),
    };
    let file = FileConfig {
        subdomain: Some("other".into()),
        email: None,
        api_token: Some("filetok".into()),
        default_view: Some(7),
    };
    let (c, s) = resolve_with_source(&Overrides::default(), &env, file).unwrap();
    assert_eq!(s, TokenSource::Env);
    assert_eq!(c.api_token, "envtok");
    assert_eq!(c.subdomain, "acme");
    assert_eq!(c.default_view, Some(7));
    assert_eq!(c.base_url(), "http://localhost:9/api/v2");
}

#[test]
fn missing_subdomain_is_reported_first() {
    let r = resolve_with_source(&Overrides::default(), &no_env(), FileConfig::default());
    match r {
        Err(ZdError::MissingSetting(Setting::Subdomain)) => {}
        other => panic!("unexpected {:?}", other.map(|p| p.1)),
    }
    let e = ZdError::MissingSetting(Setting::Subdomain);
    assert!(e.message().starts_with("missing subdomain. Set it via --subdomain, the ZENDESK_SUBDOMAIN env var"));
}

#[test]
fn missing_email_is_reported() {
    let env = Environment { subdomain: Some("acme".into()), email: Some("".into()), api_token: None, base_url: None };
    match resolve_with_source(&Overrides::default(), &env, FileConfig::default()) {
        Err(ZdError::MissingSetting(Setting::Email)) => {}
        other => panic!("unexpected {:?}", other.map(|p| p.1)),
    }
    assert!(ZdError::MissingSetting(Setting::Email).message().starts_with("missing email. Set it via --email"));
}

#[test]
fn resolve_subdomain_precedence_and_error() {
    let file = FileConfig { subdomain: Some("filesub".into()), email: None, api_token: None, default_view: None };
    assert_eq!(resolve_subdomain(&Overrides::default(), &no_env(), &file).unwrap(), "filesub");
    let env = Environment { subdomain: Some("envsub".into()), ..no_env() };
    assert_eq!(resolve_subdomain(&Overrides::default(), &env, &file).unwrap(), "envsub");
    match resolve_subdomain(&Overrides::default(), &no_env(), &FileConfig::default()) {
        Err(e @ ZdError::NoSubdomainForToken) => {
            assert!(e.message().starts_with("a subdomain is required to store the token"))
        }
        _ => panic!("expected NoSubdomainForToken"),
    }
}

#[test]
fn merge_keeps_unset_fields_and_clears_legacy_token() {
    let current = FileConfig {
        subdomain: Some("old".into()),
        email: Some("old@x.com".into()),
        api_token: Some("plain".into()),
        default_view: Some(1),
    };
    let merged = merge_nonsecret(current, Some("new".into()), None, Some(99), true);
    assert_eq!(merged.subdomain.as_deref(), Some("new"));
    assert_eq!(merged.email.as_deref(), Some("old@x.com"));
    assert_eq!(merged.default_view, Some(99));
    assert_eq!(merged.api_token, None);

    let current = FileConfig { subdomain: None, email: None, api_token: Some("plain".into()), default_view: None };
    let merged = merge_nonsecret(current, None, Some("e@x.com".into()), None, false);
    assert_eq!(merged.api_token.as_deref(), Some("plain"));
    assert_eq!(merged.email.as_deref(), Some("e@x.com"));
}

#[test]
fn saved_subdomain_reads_back() {
    let merged = merge_nonsecret(FileConfig::default(), Some("acme".into()), Some("a@b.c".into()), Some(5), false);
    assert_eq!(resolve_subdomain(&Overrides::default(), &no_env(), &merged).unwrap(), "acme");
    assert_eq!(zendesk_cli::config::default_view(&merged), Some(5));
}

#[test]
fn config_location_is_the_tools_own() {
    let l = zendesk_cli::config::config_location();
    assert_eq!(l.qualifier, "");
    assert_eq!(l.organization, "");
    assert_eq!(l.application, "zendesk-cli");
    assert_eq!(l.file_name, "config.toml");
    if let Ok(file) = zendesk_cli::config::config_path() {
        let path = file.into_path();
        assert_eq!(path.file_name().and_then(|n| n.to_str()), Some("config.toml"));
    }
}
