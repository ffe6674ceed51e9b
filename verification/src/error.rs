//! The errors the tool reports, with their messages.
use vstd::prelude::*;
use vstd::string::*;

verus! {

/// A setting that can come from a flag, the environment, or the config file.
#[derive(Debug, Clone, Copy, PartialEq, Eq, Structural)]
pub enum Setting {
    Subdomain,
    Email,
}

/// What the tool was doing with the OS keychain when it failed.
#[derive(Debug, Clone, Copy, PartialEq, Eq, Structural)]
pub enum KeychainAction {
    Open,
    Store,
    Read,
    Delete,
}

/// The failures the tool reports.
#[derive(Debug)]
pub enum ZdError {
    /// A required setting was given nowhere.
    MissingSetting(Setting),
    /// No API token was found in any source; it carries the keychain's
    /// answer, which held no token.
    MissingToken(crate::credential::KeychainAnswer),
    /// Storing or clearing a token needs a subdomain, and none was given.
    NoSubdomainForToken,
    /// The platform has no config directory.
    NoConfigDir,
    /// The OS keychain refused an operation.
    Keychain { action: KeychainAction, subdomain: String, cause: keyring::Error },
    /// Zendesk answered with an error status; the text says which.
    Api(String),
    /// A reply named neither or both of `--public` and `--internal`.
    NoVisibility,
    /// The reply body is empty or only whitespace.
    EmptyBody,
    /// No reply body was given.
    NoBodySource,
    /// `config set` was given nothing to set.
    NothingToSet,
    /// `view tickets` had no view ID and no default view is set.
    NoView,
    /// A `--status` value that Zendesk does not know.
    InvalidStatus(String),
}

pub open spec fn setting_text(s: Setting) -> Seq<char> {
    match s {
        Setting::Subdomain => "missing subdomain. Set it via --subdomain, the ZENDESK_SUBDOMAIN env var, or run `zd config set`. See `zd config path` for the config file location."@,
        Setting::Email => "missing email. Set it via --email, the ZENDESK_EMAIL env var, or run `zd config set`. See `zd config path` for the config file location."@,
    }
}

/// What the tool was doing with the keychain, as said in its message.
pub open spec fn keychain_context(action: KeychainAction, subdomain: Seq<char>) -> Seq<char> {
    match action {
        KeychainAction::Open => "opening keychain entry for subdomain '"@ + subdomain + "'"@,
        KeychainAction::Store => "storing API token in the OS keychain"@,
        KeychainAction::Read => "reading API token from the OS keychain"@,
        KeychainAction::Delete => "deleting API token from the OS keychain"@,
    }
}

/// The message of an error; for a keychain failure, the context that the
/// keychain's own description follows.
pub open spec fn error_text(e: ZdError) -> Seq<char> {
    match e {
        ZdError::MissingSetting(s) => setting_text(s),
        ZdError::MissingToken(_) => "missing api_token. Store it securely with `zd config set --api-token <TOKEN>` (saved to the OS keychain), or set the ZENDESK_API_TOKEN env var."@,
        ZdError::NoSubdomainForToken => "a subdomain is required to store the token (the keychain entry is keyed by it). Pass --subdomain, set ZENDESK_SUBDOMAIN, or include it in `zd config set`."@,
        ZdError::NoConfigDir => "could not determine a config directory for this platform"@,
        ZdError::Keychain { action, subdomain, cause } => keychain_context(action, subdomain@),
        ZdError::Api(text) => text@,
        ZdError::NoVisibility => "choose exactly one visibility: --public (customer-facing) or --internal (agent-only)"@,
        ZdError::EmptyBody => "reply body is empty"@,
        ZdError::NoBodySource => "provide the reply body with --body, --file, or --stdin"@,
        ZdError::NothingToSet => "nothing to set; pass --subdomain, --email, --default-view, and/or --api-token"@,
        ZdError::NoView => "no view ID given and no default view set; pass a view ID or URL, or run `zd config set --default-view <ID>`"@,
        ZdError::InvalidStatus(s) => "invalid status '"@ + s@ + "' (expected one of: new, open, pending, hold, solved, closed)"@,
    }
}

impl ZdError {
    /// The message of this error (for a keychain failure, its context).
    pub fn message(&self) -> (r: String)
        ensures
            r@ == error_text(*self),
    {
        match self {
            ZdError::MissingSetting(Setting::Subdomain) => crate::text::owned(
                "missing subdomain. Set it via --subdomain, the ZENDESK_SUBDOMAIN env var, or run `zd config set`. See `zd config path` for the config file location.",
            ),
            ZdError::MissingSetting(Setting::Email) => crate::text::owned(
                "missing email. Set it via --email, the ZENDESK_EMAIL env var, or run `zd config set`. See `zd config path` for the config file location.",
            ),
            ZdError::MissingToken(_) => crate::text::owned(
                "missing api_token. Store it securely with `zd config set --api-token <TOKEN>` (saved to the OS keychain), or set the ZENDESK_API_TOKEN env var.",
            ),
            ZdError::NoSubdomainForToken => crate::text::owned(
                "a subdomain is required to store the token (the keychain entry is keyed by it). Pass --subdomain, set ZENDESK_SUBDOMAIN, or include it in `zd config set`.",
            ),
            ZdError::NoConfigDir => crate::text::owned(
                "could not determine a config directory for this platform",
            ),
            ZdError::Keychain { action, subdomain, cause: _ } => match action {
                KeychainAction::Open => {
                    let mut r = crate::text::owned("opening keychain entry for subdomain '");
                    r.append(subdomain.as_str());
                    r.append("'");
                    r
                },
                KeychainAction::Store => crate::text::owned("storing API token in the OS keychain"),
                KeychainAction::Read => crate::text::owned("reading API token from the OS keychain"),
                KeychainAction::Delete => crate::text::owned("deleting API token from the OS keychain"),
            },
            ZdError::Api(text) => text.clone(),
            ZdError::NoVisibility => crate::text::owned(
                "choose exactly one visibility: --public (customer-facing) or --internal (agent-only)",
            ),
            ZdError::EmptyBody => crate::text::owned("reply body is empty"),
            ZdError::NoBodySource => crate::text::owned(
                "provide the reply body with --body, --file, or --stdin",
            ),
            ZdError::NothingToSet => crate::text::owned(
                "nothing to set; pass --subdomain, --email, --default-view, and/or --api-token",
            ),
            ZdError::NoView => crate::text::owned(
                "no view ID given and no default view set; pass a view ID or URL, or run `zd config set --default-view <ID>`",
            ),
            ZdError::InvalidStatus(s) => {
                let mut r = crate::text::owned("invalid status '");
                r.append(s.as_str());
                r.append("' (expected one of: new, open, pending, hold, solved, closed)");
                r
            },
        }
    }
}

} // verus!
