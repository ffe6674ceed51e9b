//! The OS credential store as this tool uses it. An opened entry and each
//! attempt on it keep the key they were made for; an attempt's outcome is
//! read only through `finish`, which requires the attempt to be the one the
//! caller means: the right key and, for a write, the right password.
use vstd::prelude::*;
use vstd::string::*;
use crate::error::ZdError;
use crate::keychain::{
    is_key_for, is_keychain_failure, removal_outcome, store_outcome, stored_token, CredentialKey,
    StoreFailure,
};
use crate::error::KeychainAction;

verus! {

#[verifier::external_type_specification]
#[verifier::external_body]
pub struct ExKeyringEntry(keyring::Entry);

#[verifier::external_type_specification]
#[verifier::external_body]
pub struct ExKeyringError(keyring::Error);

/// An opened credential-store entry, with the key it was opened for.
pub struct OpenEntry {
    key: CredentialKey,
    entry: keyring::Entry,
}

impl OpenEntry {
    /// The key this entry was opened for.
    pub closed spec fn key(self) -> CredentialKey {
        self.key
    }
}

/// A write of a password to the credential under a key, and how it went.
pub struct StoreAttempt {
    key: CredentialKey,
    password: String,
    outcome: Result<(), keyring::Error>,
}

impl StoreAttempt {
    pub closed spec fn key(self) -> CredentialKey {
        self.key
    }

    pub closed spec fn password(self) -> String {
        self.password
    }

    pub closed spec fn outcome(self) -> Result<(), keyring::Error> {
        self.outcome
    }

    /// What writing `token` under `subdomain`'s key came to.
    pub fn finish(self, subdomain: &str, token: &str) -> (r: Result<(), ZdError>)
        requires
            is_key_for(self.key(), subdomain@),
            self.password()@ == token@,
        ensures
            match self.outcome() {
                Ok(()) => r == Ok::<(), ZdError>(()),
                Err(_) => r matches Err(e) && e matches ZdError::Keychain {
                    action: a,
                    subdomain: s,
                    cause: _,
                } && a == KeychainAction::Store && s@ == subdomain@,
            },
    {
        store_outcome(subdomain, self.outcome)
    }
}

/// A read of the credential under a key, and what came back.
pub struct LookupAttempt {
    key: CredentialKey,
    outcome: Result<String, StoreFailure>,
}

impl LookupAttempt {
    pub closed spec fn key(self) -> CredentialKey {
        self.key
    }

    pub closed spec fn outcome(self) -> Result<String, StoreFailure> {
        self.outcome
    }

    /// What the read of `subdomain`'s credential came to.
    pub fn finish(self, subdomain: &str) -> (r: Result<Option<String>, ZdError>)
        requires
            is_key_for(self.key(), subdomain@),
        ensures
            match self.outcome() {
                Ok(t) => r == Ok::<Option<String>, ZdError>(Some(t)),
                Err(StoreFailure::NoEntry) => r == Ok::<Option<String>, ZdError>(None),
                Err(StoreFailure::Other(_)) => r matches Err(e) && is_keychain_failure(
                    e,
                    KeychainAction::Read,
                    subdomain@,
                ),
            },
    {
        stored_token(subdomain, self.outcome)
    }

    /// The keychain's answer for `subdomain`'s credential: the token or none,
    /// kept with the key that was read; or a failure to read.
    pub fn answer(self, subdomain: &str) -> (r: Result<KeychainAnswer, ZdError>)
        requires
            is_key_for(self.key(), subdomain@),
        ensures
            match self.outcome() {
                Ok(t) => r matches Ok(a) && a.key() == self.key() && a.token() == Some(t),
                Err(StoreFailure::NoEntry) => r matches Ok(a) && a.key() == self.key() && a.token() is None,
                Err(StoreFailure::Other(_)) => r matches Err(e) && is_keychain_failure(
                    e,
                    KeychainAction::Read,
                    subdomain@,
                ),
            },
    {
        let LookupAttempt { key, outcome } = self;
        match stored_token(subdomain, outcome) {
            Ok(token) => Ok(KeychainAnswer { key, token }),
            Err(e) => Err(e),
        }
    }
}

/// What the keychain holds for a key: a token, or none. Only a read of the
/// credential store produces one.
#[derive(Debug)]
pub struct KeychainAnswer {
    key: CredentialKey,
    token: Option<String>,
}

impl KeychainAnswer {
    /// The key that was read.
    pub closed spec fn key(self) -> CredentialKey {
        self.key
    }

    /// The token found under the key, if any.
    pub closed spec fn token(self) -> Option<String> {
        self.token
    }

    /// The token found, or this answer back when there was none.
    pub fn token_or_none(self) -> (r: Result<String, KeychainAnswer>)
        ensures
            match self.token() {
                Some(t) => r == Ok::<String, KeychainAnswer>(t),
                None => r == Err::<String, KeychainAnswer>(self),
            },
    {
        match self.token {
            Some(t) => Ok(t),
            None => Err(self),
        }
    }
}

/// A removal of the credential under a key, and how it went.
pub struct RemovalAttempt {
    key: CredentialKey,
    outcome: Result<(), StoreFailure>,
}

impl RemovalAttempt {
    pub closed spec fn key(self) -> CredentialKey {
        self.key
    }

    pub closed spec fn outcome(self) -> Result<(), StoreFailure> {
        self.outcome
    }

    /// What the removal of `subdomain`'s credential came to.
    pub fn finish(self, subdomain: &str) -> (r: Result<bool, ZdError>)
        requires
            is_key_for(self.key(), subdomain@),
        ensures
            match self.outcome() {
                Ok(()) => r == Ok::<bool, ZdError>(true),
                Err(StoreFailure::NoEntry) => r == Ok::<bool, ZdError>(false),
                Err(StoreFailure::Other(_)) => r matches Err(e) && is_keychain_failure(
                    e,
                    KeychainAction::Delete,
                    subdomain@,
                ),
            },
    {
        removal_outcome(subdomain, self.outcome)
    }
}

/// `keyring::Entry::new(service, user)` with the key's service and user: the
/// entry for that credential in the platform's default store, kept with its
/// key. Whether it succeeds depends on the platform; nothing is claimed of
/// the outcome beyond the key it was opened for.
#[verifier::external_body]
pub fn open_entry(key: CredentialKey) -> (r: Result<OpenEntry, keyring::Error>)
    ensures
        r matches Ok(e) ==> e.key() == key,
{
    match keyring::Entry::new(key.service.as_str(), key.user.as_str()) {
        Ok(entry) => Ok(OpenEntry { key, entry }),
        Err(e) => Err(e),
    }
}

/// `keyring::Entry::set_password`: stores `password` in the entry; the
/// attempt records the entry's key and the password written. The outcome
/// depends on the credential store; nothing is claimed of it.
#[verifier::external_body]
pub fn set_password(entry: OpenEntry, password: String) -> (r: StoreAttempt)
    ensures
        r.key() == entry.key(),
        r.password() == password,
{
    let OpenEntry { key, entry } = entry;
    let outcome = entry.set_password(password.as_str());
    StoreAttempt { key, password, outcome }
}

/// `keyring::Entry::get_password`: the stored password, with the crate's
/// `NoEntry` error told apart from the others; the attempt records the
/// entry's key. What comes back depends on the credential store; nothing is
/// claimed of it.
#[verifier::external_body]
pub fn get_password(entry: OpenEntry) -> (r: LookupAttempt)
    ensures
        r.key() == entry.key(),
{
    let OpenEntry { key, entry } = entry;
    let outcome = match entry.get_password() {
        Ok(password) => Ok(password),
        Err(keyring::Error::NoEntry) => Err(StoreFailure::NoEntry),
        Err(other) => Err(StoreFailure::Other(other)),
    };
    LookupAttempt { key, outcome }
}

/// `keyring::Entry::delete_credential`: removes the stored credential, with
/// the crate's `NoEntry` error told apart from the others; the attempt records
/// the entry's key. The outcome depends on the credential store; nothing is
/// claimed of it.
#[verifier::external_body]
pub fn delete_credential(entry: OpenEntry) -> (r: RemovalAttempt)
    ensures
        r.key() == entry.key(),
{
    let OpenEntry { key, entry } = entry;
    let outcome = match entry.delete_credential() {
        Ok(()) => Ok(()),
        Err(keyring::Error::NoEntry) => Err(StoreFailure::NoEntry),
        Err(other) => Err(StoreFailure::Other(other)),
    };
    RemovalAttempt { key, outcome }
}

} // verus!
