//! The API token in the OS credential store (macOS Keychain, Windows
//! Credential Manager, Linux keyutils), keyed by Zendesk subdomain so that
//! credentials for several instances coexist. Only the token lives here; the
//! non-secret subdomain and email stay in the config file.
use vstd::prelude::*;
use vstd::string::*;
use crate::credential::{self, KeychainAnswer, OpenEntry};
use crate::error::{KeychainAction, ZdError};

verus! {

/// Service name shown in the credential store.
pub const SERVICE: &'static str = "zendesk-cli";

/// How a credential-store operation failed: no credential, or another failure.
pub enum StoreFailure {
    NoEntry,
    Other(keyring::Error),
}

/// The credential that holds a token: the service name and the user name
/// under which the credential store keeps it.
#[derive(Debug)]
pub struct CredentialKey {
    pub service: String,
    pub user: String,
}

/// The key of a subdomain's token: service `zendesk-cli`, user the subdomain,
/// so that credentials for several Zendesk instances coexist.
pub open spec fn is_key_for(k: CredentialKey, subdomain: Seq<char>) -> bool {
    k.service@ == "zendesk-cli"@ && k.user@ == subdomain
}

/// The key under which the token for `subdomain` is kept.
pub fn credential_key(subdomain: &str) -> (k: CredentialKey)
    ensures
        is_key_for(k, subdomain@),
{
    CredentialKey { service: SERVICE.to_owned(), user: subdomain.to_owned() }
}

fn keychain_error(action: KeychainAction, subdomain: &str, cause: keyring::Error) -> (e: ZdError)
    ensures
        e matches ZdError::Keychain { action: a, subdomain: s, cause: _ } && a == action && s@ == subdomain@,
{
    ZdError::Keychain { action, subdomain: subdomain.to_owned(), cause }
}

/// The credential-store entry for `subdomain`'s token.
fn entry(subdomain: &str) -> (r: Result<OpenEntry, ZdError>)
    ensures
        r matches Ok(e) ==> is_key_for(e.key(), subdomain@),
        r matches Err(e) ==> e matches ZdError::Keychain { action: a, subdomain: s, cause: _ }
            && a == KeychainAction::Open && s@ == subdomain@,
{
    match credential::open_entry(credential_key(subdomain)) {
        Ok(e) => Ok(e),
        Err(cause) => Err(keychain_error(KeychainAction::Open, subdomain, cause)),
    }
}

/// True if `e` is a keychain failure of `action` for `subdomain`.
pub open spec fn is_keychain_failure(e: ZdError, action: KeychainAction, subdomain: Seq<char>) -> bool {
    e matches ZdError::Keychain { action: a, subdomain: s, cause: _ } && (a == action || a
        == KeychainAction::Open) && s@ == subdomain
}

/// What a write of `subdomain`'s token came to: done, or a failure to store.
pub fn store_outcome(subdomain: &str, outcome: Result<(), keyring::Error>) -> (r: Result<(), ZdError>)
    ensures
        match outcome {
            Ok(()) => r == Ok::<(), ZdError>(()),
            Err(_) => r matches Err(e) && e matches ZdError::Keychain { action: a, subdomain: s, cause: _ }
                && a == KeychainAction::Store && s@ == subdomain@,
        },
{
    match outcome {
        Ok(()) => Ok(()),
        Err(cause) => Err(keychain_error(KeychainAction::Store, subdomain, cause)),
    }
}

/// Store (or overwrite) the API token for a subdomain: the token is written
/// under service `zendesk-cli` with the subdomain as user, and the outcome is
/// read from that very write.
pub fn store_token(subdomain: &str, token: &str) -> (r: Result<(), ZdError>)
    ensures
        r matches Err(e) ==> is_keychain_failure(e, KeychainAction::Store, subdomain@),
{
    let e = entry(subdomain)?;
    credential::set_password(e, token.to_owned()).finish(subdomain, token)
}

/// What a read of `subdomain`'s credential means: a stored token, none
/// stored, or a failure.
pub fn stored_token(subdomain: &str, outcome: Result<String, StoreFailure>) -> (r: Result<Option<String>, ZdError>)
    ensures
        match outcome {
            Ok(t) => r == Ok::<Option<String>, ZdError>(Some(t)),
            Err(StoreFailure::NoEntry) => r == Ok::<Option<String>, ZdError>(None),
            Err(StoreFailure::Other(_)) => r matches Err(e) && is_keychain_failure(e, KeychainAction::Read, subdomain@),
        },
{
    match outcome {
        Ok(t) => Ok(Some(t)),
        Err(StoreFailure::NoEntry) => Ok(None),
        Err(StoreFailure::Other(cause)) => Err(keychain_error(KeychainAction::Read, subdomain, cause)),
    }
}

/// Fetch the API token for a subdomain, if one is stored, from the credential
/// under service `zendesk-cli` with the subdomain as user.
pub fn get_token(subdomain: &str) -> (r: Result<Option<String>, ZdError>)
    ensures
        r matches Err(e) ==> is_keychain_failure(e, KeychainAction::Read, subdomain@),
{
    let e = entry(subdomain)?;
    credential::get_password(e).finish(subdomain)
}

/// Read the credential for a subdomain (service `zendesk-cli`, the subdomain
/// as user): the keychain's answer, with or without a token, or a failure.
pub fn read_token(subdomain: &str) -> (r: Result<KeychainAnswer, ZdError>)
    ensures
        r matches Ok(a) ==> is_key_for(a.key(), subdomain@),
        r matches Err(e) ==> is_keychain_failure(e, KeychainAction::Read, subdomain@),
{
    let e = entry(subdomain)?;
    credential::get_password(e).answer(subdomain)
}

/// What a removal of `subdomain`'s credential means: `true` if a token was
/// removed, `false` if none was stored.
pub fn removal_outcome(subdomain: &str, outcome: Result<(), StoreFailure>) -> (r: Result<bool, ZdError>)
    ensures
        match outcome {
            Ok(()) => r == Ok::<bool, ZdError>(true),
            Err(StoreFailure::NoEntry) => r == Ok::<bool, ZdError>(false),
            Err(StoreFailure::Other(_)) => r matches Err(e) && is_keychain_failure(e, KeychainAction::Delete, subdomain@),
        },
{
    match outcome {
        Ok(()) => Ok(true),
        Err(StoreFailure::NoEntry) => Ok(false),
        Err(StoreFailure::Other(cause)) => Err(keychain_error(KeychainAction::Delete, subdomain, cause)),
    }
}

/// Delete the stored token for a subdomain (the credential under service
/// `zendesk-cli` with the subdomain as user). Returns `true` if one was removed.
pub fn delete_token(subdomain: &str) -> (r: Result<bool, ZdError>)
    ensures
        r matches Err(e) ==> is_keychain_failure(e, KeychainAction::Delete, subdomain@),
{
    let e = entry(subdomain)?;
    credential::delete_credential(e).finish(subdomain)
}

} // verus!
