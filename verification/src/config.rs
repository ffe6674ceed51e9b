//! Credential resolution.
//!
//! Settings are resolved in this order (highest priority first):
//!   1. command-line flags (`--subdomain`, `--email`, `--api-token`);
//!   2. environment variables (`ZENDESK_SUBDOMAIN`, `ZENDESK_EMAIL`,
//!      `ZENDESK_API_TOKEN`), where an empty value counts as unset;
//!   3. the config file.
//!
//! The API token lives in the OS keychain (see [`crate::keychain`]), not in the
//! plaintext config file; a token left in an old config file is still honoured
//! as the last resort. Zendesk's API-token basic auth uses `{email}/token` as
//! the username and the token as the password.
use vstd::prelude::*;
use vstd::string::*;
use crate::error::{KeychainAction, Setting, ZdError};
use crate::credential::KeychainAnswer;
use crate::keychain;
use crate::platform::{self, ConfigFile, FoundDirs};

verus! {

/// Where the config file lives: the `directories` project
/// (qualifier, organization, application) and the file's name in its config
/// directory.
pub struct ConfigLocation {
    pub qualifier: String,
    pub organization: String,
    pub application: String,
    pub file_name: String,
}

/// The tool's config location: project `zendesk-cli` with empty qualifier and
/// organization, file `config.toml`.
pub open spec fn is_config_location(l: ConfigLocation) -> bool {
    &&& l.qualifier@ == ""@
    &&& l.organization@ == ""@
    &&& l.application@ == "zendesk-cli"@
    &&& l.file_name@ == "config.toml"@
}

/// The tool's config location.
pub fn config_location() -> (l: ConfigLocation)
    ensures
        is_config_location(l),
{
    ConfigLocation {
        qualifier: crate::text::owned(""),
        organization: crate::text::owned(""),
        application: crate::text::owned("zendesk-cli"),
        file_name: crate::text::owned("config.toml"),
    }
}

/// The config file inside directories found for the tool's config location:
/// the location's file name, `config.toml`, joined to the config directory.
fn config_file_in(found: FoundDirs) -> (r: ConfigFile)
    requires
        is_config_location(found.location()),
    ensures
        r.location() == found.location(),
        r.file_name()@ == "config.toml"@,
{
    let name = found.file_name();
    platform::path_join(platform::project_config_dir(found), name)
}

/// The config file, `config.toml` in the platform's config directory for
/// `zendesk-cli` (which need not exist). Whether the platform has such a
/// directory depends on the environment.
pub fn config_path() -> (r: Result<ConfigFile, ZdError>)
    ensures
        r is Err ==> r == Err::<ConfigFile, ZdError>(ZdError::NoConfigDir),
        r matches Ok(f) ==> is_config_location(f.location()) && f.file_name()@ == "config.toml"@,
{
    match platform::project_dirs(config_location()) {
        Some(found) => Ok(config_file_in(found)),
        None => Err(ZdError::NoConfigDir),
    }
}

/// Where the resolved API token came from.
#[derive(Debug, Clone, Copy, PartialEq, Eq, Structural)]
pub enum TokenSource {
    Flag,
    Env,
    Keychain,
    LegacyFile,
}

pub open spec fn token_source_label(s: TokenSource) -> Seq<char> {
    match s {
        TokenSource::Flag => "--api-token flag"@,
        TokenSource::Env => "ZENDESK_API_TOKEN env var"@,
        TokenSource::Keychain => "OS keychain"@,
        TokenSource::LegacyFile => "config file (legacy, insecure)"@,
    }
}

impl TokenSource {
    /// How the source is named to the user.
    pub fn label(self) -> (r: &'static str)
        ensures
            r@ == token_source_label(self),
    {
        match self {
            TokenSource::Flag => "--api-token flag",
            TokenSource::Env => "ZENDESK_API_TOKEN env var",
            TokenSource::Keychain => "OS keychain",
            TokenSource::LegacyFile => "config file (legacy, insecure)",
        }
    }
}

/// Resolved, ready-to-use credentials.
#[derive(Debug, Clone)]
pub struct Config {
    pub subdomain: String,
    pub email: String,
    pub api_token: String,
    /// Default view (agent filter) for `zd view tickets` with no argument.
    pub default_view: Option<i64>,
    /// Overrides the derived API base URL (from `ZENDESK_BASE_URL`).
    pub base_url_override: Option<String>,
}

/// The base URL that a config derives: the override, or the subdomain's API root.
pub open spec fn base_url_of(c: Config) -> Seq<char> {
    match c.base_url_override {
        Some(u) => u@,
        None => "https://"@ + c.subdomain@ + ".zendesk.com/api/v2"@,
    }
}

impl Config {
    /// The base API URL, e.g. `https://acme.zendesk.com/api/v2`.
    pub fn base_url(&self) -> (r: String)
        ensures
            r@ == base_url_of(*self),
    {
        match &self.base_url_override {
            Some(u) => u.clone(),
            None => {
                let mut r = crate::text::owned("https://");
                r.append(self.subdomain.as_str());
                r.append(".zendesk.com/api/v2");
                r
            },
        }
    }

    /// Basic-auth username per Zendesk's API-token scheme.
    pub fn basic_auth_user(&self) -> (r: String)
        ensures
            r@ == self.email@ + "/token"@,
    {
        let mut r = self.email.clone();
        r.append("/token");
        r
    }
}

/// The config file's content; every field is optional, so a partial file is valid.
#[derive(Debug)]
pub struct FileConfig {
    pub subdomain: Option<String>,
    pub email: Option<String>,
    pub api_token: Option<String>,
    pub default_view: Option<i64>,
}

impl Default for FileConfig {
    fn default() -> (r: FileConfig)
        ensures
            r.subdomain is None,
            r.email is None,
            r.api_token is None,
            r.default_view is None,
    {
        FileConfig { subdomain: None, email: None, api_token: None, default_view: None }
    }
}

/// Settings given on the command line.
#[derive(Debug, Clone)]
pub struct Overrides {
    pub subdomain: Option<String>,
    pub email: Option<String>,
    pub api_token: Option<String>,
}

impl Default for Overrides {
    fn default() -> (r: Overrides)
        ensures
            r.subdomain is None,
            r.email is None,
            r.api_token is None,
    {
        Overrides { subdomain: None, email: None, api_token: None }
    }
}

/// The values of the environment variables the tool reads, as found
/// (`None` when unset).
#[derive(Debug)]
pub struct Environment {
    /// `ZENDESK_SUBDOMAIN`
    pub subdomain: Option<String>,
    /// `ZENDESK_EMAIL`
    pub email: Option<String>,
    /// `ZENDESK_API_TOKEN`
    pub api_token: Option<String>,
    /// `ZENDESK_BASE_URL`
    pub base_url: Option<String>,
}

/// An environment value counts only when set and not empty.
pub open spec fn env_value(v: Option<String>) -> Option<String> {
    match v {
        Some(s) => if s@.len() > 0 {
            Some(s)
        } else {
            None
        },
        None => None,
    }
}

/// The resolution order for one setting: flag, then environment (ignoring an
/// empty value), then config file.
pub open spec fn pick_spec(flag: Option<String>, env: Option<String>, from_file: Option<String>) -> Option<String> {
    if flag is Some {
        flag
    } else if env_value(env) is Some {
        env_value(env)
    } else {
        from_file
    }
}

fn clone_opt(o: &Option<String>) -> (r: Option<String>)
    ensures
        r == *o,
{
    match o {
        Some(s) => Some(s.clone()),
        None => None,
    }
}

fn nonempty(v: Option<String>) -> (r: Option<String>)
    ensures
        r == env_value(v),
{
    match v {
        Some(s) => if s.as_str().is_empty() {
            None
        } else {
            Some(s)
        },
        None => None,
    }
}

/// Resolve one string setting by precedence: flag, then environment value
/// (ignoring an empty one), then config file.
pub fn pick(flag: &Option<String>, env: Option<String>, from_file: Option<String>) -> (r: Option<String>)
    ensures
        r == pick_spec(*flag, env, from_file),
{
    if flag.is_some() {
        return clone_opt(flag);
    }
    let e = nonempty(env);
    if e.is_some() {
        e
    } else {
        from_file
    }
}

/// The config that the resolved settings and token make.
pub open spec fn config_of(
    subdomain: String,
    email: String,
    api_token: String,
    file: FileConfig,
    env: Environment,
) -> Config {
    Config {
        subdomain,
        email,
        api_token,
        default_view: file.default_view,
        base_url_override: env_value(env.base_url),
    }
}

/// What may come of resolving settings: the documented precedence. A flag
/// token wins, then a non-empty environment token; only after both are absent
/// is the keychain consulted, and what it holds is outside this crate's
/// knowledge, so then either its token, or the config file's legacy token, or
/// a failure follows.
pub open spec fn resolution(
    o: Overrides,
    env: Environment,
    file: FileConfig,
    r: Result<(Config, TokenSource), ZdError>,
) -> bool {
    let sub = pick_spec(o.subdomain, env.subdomain, file.subdomain);
    let email = pick_spec(o.email, env.email, file.email);
    if sub is None {
        r == Err::<(Config, TokenSource), ZdError>(ZdError::MissingSetting(Setting::Subdomain))
    } else if email is None {
        r == Err::<(Config, TokenSource), ZdError>(ZdError::MissingSetting(Setting::Email))
    } else if o.api_token is Some {
        r == Ok::<(Config, TokenSource), ZdError>(
            (config_of(sub.unwrap(), email.unwrap(), o.api_token.unwrap(), file, env), TokenSource::Flag),
        )
    } else if env_value(env.api_token) is Some {
        r == Ok::<(Config, TokenSource), ZdError>(
            (config_of(sub.unwrap(), email.unwrap(), env_value(env.api_token).unwrap(), file, env), TokenSource::Env),
        )
    } else {
        match r {
            Ok((c, source)) => {
                &&& c == config_of(sub.unwrap(), email.unwrap(), c.api_token, file, env)
                &&& (source == TokenSource::Keychain || (source == TokenSource::LegacyFile
                    && file.api_token == Some(c.api_token)))
            },
            Err(e) => {
                ||| (e matches ZdError::MissingToken(a) && keychain::is_key_for(a.key(), sub.unwrap()@)
                    && a.token() is None && file.api_token is None)
                ||| keychain::is_keychain_failure(e, KeychainAction::Read, sub.unwrap()@)
            },
        }
    }
}

/// The end of resolution once the keychain has answered `stored`: its token
/// if it holds one, else the legacy file token, else no token at all.
pub open spec fn completion(
    subdomain: String,
    email: String,
    stored: Result<KeychainAnswer, ZdError>,
    file: FileConfig,
    env: Environment,
) -> Result<(Config, TokenSource), ZdError> {
    match stored {
        Err(e) => Err(e),
        Ok(a) => match a.token() {
            Some(t) => Ok((config_of(subdomain, email, t, file, env), TokenSource::Keychain)),
            None => match file.api_token {
                Some(t) => Ok((config_of(subdomain, email, t, file, env), TokenSource::LegacyFile)),
                None => Err(ZdError::MissingToken(a)),
            },
        },
    }
}

/// The end of resolution once the keychain has answered `stored` for
/// `subdomain`'s credential.
pub fn finish_with_stored(
    subdomain: String,
    email: String,
    stored: Result<KeychainAnswer, ZdError>,
    file: FileConfig,
    env: &Environment,
) -> (r: Result<(Config, TokenSource), ZdError>)
    requires
        stored matches Ok(a) ==> keychain::is_key_for(a.key(), subdomain@),
    ensures
        r == completion(subdomain, email, stored, file, *env),
{
    let base_url_override = nonempty(clone_opt(&env.base_url));
    let (api_token, source) = match stored {
        Err(e) => return Err(e),
        Ok(a) => match a.token_or_none() {
            Ok(t) => (t, TokenSource::Keychain),
            Err(a) => match file.api_token {
                Some(t) => (t, TokenSource::LegacyFile),
                None => return Err(ZdError::MissingToken(a)),
            },
        },
    };
    Ok((Config { subdomain, email, api_token, default_view: file.default_view, base_url_override }, source))
}

/// Resolve a full [`Config`] from flags, environment, keychain and file, and
/// report where the token came from. Token priority: `--api-token` flag, then
/// `ZENDESK_API_TOKEN`, then the OS keychain (keyed by subdomain), then the
/// legacy config file.
pub fn resolve_with_source(overrides: &Overrides, env: &Environment, file: FileConfig) -> (r: Result<
    (Config, TokenSource),
    ZdError,
>)
    ensures
        resolution(*overrides, *env, file, r),
{
    let FileConfig { subdomain: file_sub, email: file_email, api_token: file_token, default_view } = file;
    let subdomain = match pick(&overrides.subdomain, clone_opt(&env.subdomain), file_sub) {
        Some(s) => s,
        None => return Err(ZdError::MissingSetting(Setting::Subdomain)),
    };
    let email = match pick(&overrides.email, clone_opt(&env.email), file_email) {
        Some(e) => e,
        None => return Err(ZdError::MissingSetting(Setting::Email)),
    };
    let rest = FileConfig { subdomain: None, email: None, api_token: file_token, default_view };
    if let Some(t) = &overrides.api_token {
        let base_url_override = nonempty(clone_opt(&env.base_url));
        return Ok((
            Config { subdomain, email, api_token: t.clone(), default_view, base_url_override },
            TokenSource::Flag,
        ));
    }
    if let Some(t) = nonempty(clone_opt(&env.api_token)) {
        let base_url_override = nonempty(clone_opt(&env.base_url));
        return Ok((
            Config { subdomain, email, api_token: t, default_view, base_url_override },
            TokenSource::Env,
        ));
    }
    let stored = keychain::read_token(subdomain.as_str());
    finish_with_stored(subdomain, email, stored, rest, env)
}

/// Resolve a full [`Config`] from flags, environment, keychain and file.
pub fn resolve(overrides: &Overrides, env: &Environment, file: FileConfig) -> (r: Result<Config, ZdError>)
    ensures
        match r {
            Ok(c) => exists|s: TokenSource| resolution(*overrides, *env, file, Ok((c, s))),
            Err(e) => resolution(*overrides, *env, file, Err(e)),
        },
{
    match resolve_with_source(overrides, env, file) {
        Ok((c, s)) => Ok(c),
        Err(e) => Err(e),
    }
}

/// The subdomain from flag, environment or file, with no token needed; used
/// to know which keychain entry to write or clear.
pub fn resolve_subdomain(overrides: &Overrides, env: &Environment, file: &FileConfig) -> (r: Result<String, ZdError>)
    ensures
        match pick_spec(overrides.subdomain, env.subdomain, file.subdomain) {
            Some(s) => r == Ok::<String, ZdError>(s),
            None => r == Err::<String, ZdError>(ZdError::NoSubdomainForToken),
        },
{
    match pick(&overrides.subdomain, clone_opt(&env.subdomain), clone_opt(&file.subdomain)) {
        Some(s) => Ok(s),
        None => Err(ZdError::NoSubdomainForToken),
    }
}

/// The configured default view, read from the config file alone (no keychain access).
pub fn default_view(file: &FileConfig) -> (r: Option<i64>)
    ensures
        r == file.default_view,
{
    file.default_view
}

/// The config file after `config set`: given non-secret fields replace the
/// stored ones, and a legacy plaintext token is dropped when asked. The token
/// itself is never written here.
pub open spec fn merged_spec(
    current: FileConfig,
    subdomain: Option<String>,
    email: Option<String>,
    default_view: Option<i64>,
    clear_legacy_token: bool,
) -> FileConfig {
    FileConfig {
        subdomain: if subdomain is Some { subdomain } else { current.subdomain },
        email: if email is Some { email } else { current.email },
        api_token: if clear_legacy_token { None } else { current.api_token },
        default_view: if default_view is Some { default_view } else { current.default_view },
    }
}

/// Merge non-secret fields into the config file's content.
pub fn merge_nonsecret(
    current: FileConfig,
    subdomain: Option<String>,
    email: Option<String>,
    default_view: Option<i64>,
    clear_legacy_token: bool,
) -> (r: FileConfig)
    ensures
        r == merged_spec(current, subdomain, email, default_view, clear_legacy_token),
{
    let mut next = current;
    if subdomain.is_some() {
        next.subdomain = subdomain;
    }
    if email.is_some() {
        next.email = email;
    }
    if default_view.is_some() {
        next.default_view = default_view;
    }
    if clear_legacy_token {
        next.api_token = None;
    }
    next
}

// ---------------------------------------------------------------------------
// Laws
// ---------------------------------------------------------------------------

/// Saving never writes a token: after a merge the file's token is the old one,
/// or none when the legacy token is cleared.
pub proof fn law_merge_never_writes_a_token(
    current: FileConfig,
    subdomain: Option<String>,
    email: Option<String>,
    default_view: Option<i64>,
    clear_legacy_token: bool,
)
    ensures
        merged_spec(current, subdomain, email, default_view, clear_legacy_token).api_token == if clear_legacy_token {
            None
        } else {
            current.api_token
        },
{
}

/// What `config set` saves is what later resolution reads back, when no flag
/// or environment value overrides it.
pub proof fn law_saved_settings_read_back(
    current: FileConfig,
    subdomain: String,
    email: String,
    default_view: i64,
    clear_legacy_token: bool,
    no_flags: Overrides,
    empty_env: Environment,
)
    requires
        no_flags.subdomain is None,
        no_flags.email is None,
        env_value(empty_env.subdomain) is None,
        env_value(empty_env.email) is None,
    ensures
        ({
            let saved = merged_spec(current, Some(subdomain), Some(email), Some(default_view), clear_legacy_token);
            &&& pick_spec(no_flags.subdomain, empty_env.subdomain, saved.subdomain) == Some(subdomain)
            &&& pick_spec(no_flags.email, empty_env.email, saved.email) == Some(email)
            &&& saved.default_view == Some(default_view)
        }),
{
}

/// A flag always wins, whatever the environment and the file hold; a
/// non-empty environment value beats the file; an empty one is ignored.
pub proof fn law_pick_precedence(flag: String, env: Option<String>, from_file: Option<String>, env_set: String)
    ensures
        pick_spec(Some(flag), env, from_file) == Some(flag),
        env_set@.len() > 0 ==> pick_spec(None, Some(env_set), from_file) == Some(env_set),
        env_set@.len() == 0 ==> pick_spec(None, Some(env_set), from_file) == from_file,
        pick_spec(None, None, from_file) == from_file,
{
}


/// `config set` keeps every field it is not given: a field given `None`
/// keeps the saved value, a field given a value takes it.
pub proof fn law_merge_keeps_fields_not_given(
    current: FileConfig,
    subdomain: Option<String>,
    email: Option<String>,
    default_view: Option<i64>,
    clear_legacy_token: bool,
)
    ensures
        ({
            let m = merged_spec(current, subdomain, email, default_view, clear_legacy_token);
            &&& subdomain is None ==> m.subdomain == current.subdomain
            &&& email is None ==> m.email == current.email
            &&& default_view is None ==> m.default_view == current.default_view
            &&& subdomain is Some ==> m.subdomain == subdomain
            &&& email is Some ==> m.email == email
            &&& default_view is Some ==> m.default_view == default_view
        }),
{
}

/// A token that the keychain holds for the subdomain is the one used, with
/// the keychain as its source, whatever the config file holds.
pub proof fn law_keychain_token_is_used(
    subdomain: String,
    email: String,
    answer: KeychainAnswer,
    t: String,
    file: FileConfig,
    env: Environment,
)
    requires
        answer.token() == Some(t),
    ensures
        completion(subdomain, email, Ok(answer), file, env) == Ok::<(Config, TokenSource), ZdError>(
            (
                Config {
                    subdomain,
                    email,
                    api_token: t,
                    default_view: file.default_view,
                    base_url_override: env_value(env.base_url),
                },
                TokenSource::Keychain,
            ),
        ),
{
}

/// "Missing token" is reported only after the keychain was read for the
/// resolved subdomain and held nothing, with no flag, environment or file
/// token either.
pub proof fn law_missing_token_only_after_empty_keychain(
    o: Overrides,
    env: Environment,
    file: FileConfig,
    r: Result<(Config, TokenSource), ZdError>,
)
    requires
        resolution(o, env, file, r),
        r matches Err(ZdError::MissingToken(_)),
    ensures
        r matches Err(ZdError::MissingToken(a)) && a.token() is None && keychain::is_key_for(
            a.key(),
            pick_spec(o.subdomain, env.subdomain, file.subdomain).unwrap()@,
        ),
        o.api_token is None,
        env_value(env.api_token) is None,
        file.api_token is None,
{
}

} // verus!
