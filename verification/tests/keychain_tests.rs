use zendesk_cli::error::{KeychainAction, ZdError};
use zendesk_cli::keychain::{
    credential_key, removal_outcome, store_outcome, stored_token, StoreFailure, SERVICE,
};

#[test]
fn credential_is_keyed_by_subdomain() {
    let k = credential_key("acme");
    assert_eq!(k.service, "zendesk-cli");
    assert_eq!(k.user, "acme");
    assert_eq!(credential_key("other").user, "other");
}

#[test]
fn lookup_outcomes() {
    assert_eq!(stored_token("acme", Ok("tok".to_string())).unwrap(), Some("tok".to_string()));
    assert_eq!(stored_token("acme", Err(StoreFailure::NoEntry)).unwrap(), None);
    let failure = StoreFailure::Other(keyring::Error::Invalid("user".into(), "bad".into()));
    match stored_token("acme", Err(failure)) {
        Err(e @ ZdError::Keychain { action: KeychainAction::Read, .. }) => {
            assert_eq!(e.message(), "reading API token from the OS keychain")
        }
        _ => panic!("expected a read failure"),
    }
}

#[test]
fn removal_outcomes() {
    assert!(removal_outcome("acme", Ok(())).unwrap());
    assert!(!removal_outcome("acme", Err(StoreFailure::NoEntry)).unwrap());
    let failure = StoreFailure::Other(keyring::Error::TooLong("user".into(), 3));
    match removal_outcome("acme", Err(failure)) {
        Err(e @ ZdError::Keychain { action: KeychainAction::Delete, .. }) => {
            assert_eq!(e.message(), "deleting API token from the OS keychain")
        }
        _ => panic!("expected a delete failure"),
    }
}

#[test]
fn keychain_context_names_subdomain_when_opening() {
    let e = ZdError::Keychain {
        action: KeychainAction::Open,
        subdomain: "acme".into(),
        cause: keyring::Error::NoEntry,
    };
    assert_eq!(e.message(), "opening keychain entry for subdomain 'acme'");
    assert_eq!(SERVICE, "zendesk-cli");
}

#[test]
fn store_outcomes() {
    assert!(store_outcome("acme", Ok(())).is_ok());
    match store_outcome("acme", Err(keyring::Error::NoEntry)) {
        Err(e @ ZdError::Keychain { action: KeychainAction::Store, .. }) => {
            assert_eq!(e.message(), "storing API token in the OS keychain");
        }
        _ => panic!("expected a store failure"),
    }
}
