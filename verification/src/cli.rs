//! The decisions behind each command: which reply visibility was chosen, where
//! a reply body comes from, which view to list, which statuses to keep, and
//! the texts the commands print.
use vstd::prelude::*;
use vstd::string::*;
use crate::client::{comment_payload_text, eq_ignore_ascii_case, eq_ignore_case};
use crate::config::{pick_spec, token_source_label, Environment, FileConfig, Overrides, TokenSource};
use crate::error::ZdError;
use crate::text::{chars_of, decimal, push_decimal, string_of_range, trim, trim_bounds};

verus! {

// ---------------------------------------------------------------------------
// Replies
// ---------------------------------------------------------------------------

/// The visibility a reply gets: exactly one of `--public` and `--internal`
/// must be given, so a customer-facing reply is never sent by accident.
pub open spec fn visibility_spec(public: bool, internal: bool) -> Result<bool, ZdError> {
    if public && !internal {
        Ok(true)
    } else if !public && internal {
        Ok(false)
    } else {
        Err(ZdError::NoVisibility)
    }
}

/// Whether a reply is public; an error unless exactly one visibility is given.
pub fn reply_visibility(public: bool, internal: bool) -> (r: Result<bool, ZdError>)
    ensures
        r == visibility_spec(public, internal),
{
    match (public, internal) {
        (true, false) => Ok(true),
        (false, true) => Ok(false),
        _ => Err(ZdError::NoVisibility),
    }
}

/// A reply body must hold more than whitespace.
pub fn check_reply_body(body: &str) -> (r: Result<(), ZdError>)
    ensures
        r is Ok <==> trim(body@).len() > 0,
        r is Err ==> r == Err::<(), ZdError>(ZdError::EmptyBody),
{
    let v = chars_of(body);
    let (a, b) = trim_bounds(&v, 0, v.len());
    assert(v@.subrange(0, v@.len() as int) =~= v@);
    if a < b {
        Ok(())
    } else {
        Err(ZdError::EmptyBody)
    }
}

/// Where a reply body is read from.
#[derive(Debug, Clone, Copy, PartialEq, Eq, Structural)]
pub enum BodySource {
    /// The `--body` text.
    Inline,
    /// The file named by `--file`.
    File,
    /// Standard input.
    Stdin,
}

/// The source of a reply body, in the order `--body`, `--file`, `--stdin`.
pub fn body_source(body_given: bool, file_given: bool, stdin: bool) -> (r: Result<BodySource, ZdError>)
    ensures
        r == (if body_given {
            Ok::<BodySource, ZdError>(BodySource::Inline)
        } else if file_given {
            Ok(BodySource::File)
        } else if stdin {
            Ok(BodySource::Stdin)
        } else {
            Err(ZdError::NoBodySource)
        }),
{
    if body_given {
        Ok(BodySource::Inline)
    } else if file_given {
        Ok(BodySource::File)
    } else if stdin {
        Ok(BodySource::Stdin)
    } else {
        Err(ZdError::NoBodySource)
    }
}

/// The confirmation printed after a reply is posted.
pub fn reply_confirmation(public: bool, ticket_id: i64) -> (r: String)
    ensures
        r@ == "Posted "@ + (if public { "public reply"@ } else { "internal note"@ }) + " to ticket #"@
            + decimal(ticket_id as int) + "."@,
{
    let mut r = crate::text::owned("Posted ");
    r.append(if public { "public reply" } else { "internal note" });
    r.append(" to ticket #");
    push_decimal(&mut r, ticket_id);
    r.append(".");
    r
}

/// A reply goes out public only when `--public` alone was given, and the body
/// sent to Zendesk carries exactly that visibility.
pub proof fn law_public_only_with_public_flag(public: bool, internal: bool, body: Seq<char>)
    ensures
        visibility_spec(public, internal) == Ok::<bool, ZdError>(true) <==> (public && !internal),
        visibility_spec(public, internal) is Ok <==> public != internal,
        visibility_spec(public, internal) matches Ok(v) ==> comment_payload_text(body, v)
            == comment_payload_text(body, public),
{
}

// ---------------------------------------------------------------------------
// Views and statuses
// ---------------------------------------------------------------------------

/// The view to list: the one given, else the configured default.
pub fn choose_view(given: Option<i64>, default_view: Option<i64>) -> (r: Result<i64, ZdError>)
    ensures
        r == (match given {
            Some(v) => Ok::<i64, ZdError>(v),
            None => match default_view {
                Some(v) => Ok(v),
                None => Err(ZdError::NoView),
            },
        }),
{
    match given {
        Some(v) => Ok(v),
        None => match default_view {
            Some(v) => Ok(v),
            None => Err(ZdError::NoView),
        },
    }
}

/// How many of a view's tickets to gather: every page with `--all`, else
/// the first hundred.
pub fn view_limit(all: bool) -> (r: Option<usize>)
    ensures
        r == (if all { None } else { Some(100usize) }),
{
    if all {
        None
    } else {
        Some(100)
    }
}

/// A ticket status that Zendesk knows, in any ASCII case.
pub open spec fn known_status(s: Seq<char>) -> bool {
    ||| eq_ignore_ascii_case(s, "new"@)
    ||| eq_ignore_ascii_case(s, "open"@)
    ||| eq_ignore_ascii_case(s, "pending"@)
    ||| eq_ignore_ascii_case(s, "hold"@)
    ||| eq_ignore_ascii_case(s, "solved"@)
    ||| eq_ignore_ascii_case(s, "closed"@)
}

fn is_known_status(v: &Vec<char>) -> (r: bool)
    ensures
        r == known_status(v@),
{
    eq_ignore_case(v, &chars_of("new")) || eq_ignore_case(v, &chars_of("open")) || eq_ignore_case(
        v,
        &chars_of("pending"),
    ) || eq_ignore_case(v, &chars_of("hold")) || eq_ignore_case(v, &chars_of("solved"))
        || eq_ignore_case(v, &chars_of("closed"))
}

/// Index of the first comma in `s`, or -1.
pub open spec fn comma_index(s: Seq<char>) -> int
    decreases s.len(),
{
    if s.len() == 0 {
        -1
    } else if s[0] == ',' {
        0
    } else {
        let k = comma_index(s.drop_first());
        if k < 0 {
            -1
        } else {
            k + 1
        }
    }
}

pub proof fn lemma_comma_index(s: Seq<char>, k: int)
    requires
        -1 <= k < s.len(),
        forall|m: int| 0 <= m < s.len() && (k < 0 || m < k) ==> #[trigger] s[m] != ',',
        k >= 0 ==> s[k] == ',',
    ensures
        comma_index(s) == k,
    decreases s.len(),
{
    if s.len() > 0 && k != 0 {
        let t = s.drop_first();
        assert(s[0] != ',');
        assert forall|m: int| 0 <= m < t.len() && (k - 1 < 0 || m < k - 1) implies #[trigger] t[m] != ',' by {
            assert(t[m] == s[m + 1]);
        }
        lemma_comma_index(t, if k > 0 { k - 1 } else { -1 });
    }
}

/// The status filter that a comma-separated list denotes: each item trimmed,
/// or the first item that is not a known status.
pub open spec fn statuses_of(s: Seq<char>) -> Result<Seq<Seq<char>>, Seq<char>>
    decreases s.len(),
{
    let k = comma_index(s);
    let item = trim(if k < 0 { s } else { s.take(k) });
    if !known_status(item) {
        Err(item)
    } else if k < 0 || k >= s.len() {
        Ok(seq![item])
    } else {
        match statuses_of(s.skip(k + 1)) {
            Ok(rest) => Ok(seq![item] + rest),
            Err(bad) => Err(bad),
        }
    }
}

/// Parse a `--status` value such as `open,pending`.
pub fn parse_statuses(input: &str) -> (r: Result<Vec<String>, ZdError>)
    ensures
        match statuses_of(input@) {
            Ok(items) => r matches Ok(v) && v@.map_values(|s: String| s@) == items,
            Err(bad) => r matches Err(ZdError::InvalidStatus(b)) && b@ == bad,
        },
{
    let v = chars_of(input);
    let mut out: Vec<String> = Vec::new();
    let mut pos: usize = 0;
    let ghost whole = v@;
    assert(v@.subrange(0, v@.len() as int) =~= whole);
    loop
        invariant
            0 <= pos <= v.len(),
            v@ == whole,
            whole == input@,
            match statuses_of(whole) {
                Ok(items) => match statuses_of(v@.subrange(pos as int, v.len() as int)) {
                    Ok(rest) => items == out@.map_values(|s: String| s@) + rest,
                    Err(_) => false,
                },
                Err(bad) => statuses_of(v@.subrange(pos as int, v.len() as int)) == Err::<
                    Seq<Seq<char>>,
                    Seq<char>,
                >(bad),
            },
        decreases v.len() - pos,
    {
        let ghost s = v@.subrange(pos as int, v.len() as int);
        let mut j = pos;
        while j < v.len() && v[j] != ','
            invariant
                pos <= j <= v.len(),
                forall|m: int| pos <= m < j ==> #[trigger] v@[m] != ',',
            decreases v.len() - j,
        {
            j += 1;
        }
        let ghost k: int = if j == v.len() { -1 } else { j - pos };
        proof {
            assert forall|m: int| 0 <= m < s.len() && (k < 0 || m < k) implies #[trigger] s[m] != ',' by {
                assert(s[m] == v@[pos + m]);
            }
            lemma_comma_index(s, k);
            if k < 0 {
                assert(v@.subrange(pos as int, j as int) =~= s);
            } else {
                assert(v@.subrange(pos as int, j as int) =~= s.take(k));
            }
        }
        let (a, b) = trim_bounds(&v, pos, j);
        let item = string_of_range(&v, a, b);
        let iv = chars_of(item.as_str());
        if !is_known_status(&iv) {
            return Err(ZdError::InvalidStatus(item));
        }
        let ghost before = out@.map_values(|s: String| s@);
        out.push(item);
        assert(out@.map_values(|s: String| s@) =~= before.push(iv@));
        if j == v.len() {
            proof {
                if let Ok(items) = statuses_of(whole) {
                    assert(items =~= out@.map_values(|s: String| s@));
                }
            }
            return Ok(out);
        }
        proof {
            assert(s.skip(k + 1) =~= v@.subrange(j + 1, v.len() as int));
        }
        pos = j + 1;
    }
}

// ---------------------------------------------------------------------------
// Config commands
// ---------------------------------------------------------------------------

/// The masked form of a token: `****` and, for tokens longer than four
/// characters, their last four.
pub open spec fn masked(token: Seq<char>) -> Seq<char> {
    if token.len() <= 4 {
        "****"@
    } else {
        "****"@ + token.skip(token.len() - 4)
    }
}

/// The token as shown by `config show`.
pub fn mask(token: &str) -> (r: String)
    ensures
        r@ == masked(token@),
{
    let v = chars_of(token);
    let n = v.len();
    if n <= 4 {
        crate::text::owned("****")
    } else {
        let mut r = crate::text::owned("****");
        let tail = string_of_range(&v, n - 4, n);
        r.append(tail.as_str());
        assert(v@.subrange(n - 4, n as int) =~= token@.skip(token@.len() - 4));
        r
    }
}

/// A masked token shows at most its last four characters.
pub proof fn law_mask_hides_all_but_four(token: Seq<char>)
    ensures
        masked(token).len() == if token.len() <= 4 { 4nat } else { 8nat },
        masked(token).take(4) == "****"@,
        token.len() > 4 ==> masked(token).skip(4) == token.skip(token.len() - 4),
{
    reveal_strlit("****");
    assert(masked(token).take(4) =~= "****"@);
    if token.len() > 4 {
        assert(masked(token).skip(4) =~= token.skip(token.len() - 4));
    }
}

/// The human-readable `config show` text.
pub open spec fn config_show_text(
    subdomain: Seq<char>,
    email: Seq<char>,
    token: Seq<char>,
    source: TokenSource,
    base_url: Seq<char>,
) -> Seq<char> {
    "subdomain   : "@ + subdomain + "\n"@ + "email       : "@ + email + "\n"@ + "api_token   : "@
        + masked(token) + "  (from "@ + token_source_label(source) + ")\n"@ + "base_url    : "@
        + base_url + "\n"@ + if source == TokenSource::LegacyFile {
        "\nwarning: token is stored in plaintext in the config file. Run `zd config set --api-token <TOKEN>` to migrate it to the keychain.\n"@
    } else {
        ""@
    }
}

/// The human-readable `config show` text; the token is masked.
pub fn config_show(config: &crate::config::Config, source: TokenSource) -> (r: String)
    ensures
        r@ == config_show_text(
            config.subdomain@,
            config.email@,
            config.api_token@,
            source,
            crate::config::base_url_of(*config),
        ),
{
    proof {
        reveal_strlit("");
    }
    let mut r = crate::text::owned("subdomain   : ");
    r.append(config.subdomain.as_str());
    r.append("\n");
    r.append("email       : ");
    r.append(config.email.as_str());
    r.append("\n");
    r.append("api_token   : ");
    r.append(mask(config.api_token.as_str()).as_str());
    r.append("  (from ");
    r.append(source.label());
    r.append(")\n");
    r.append("base_url    : ");
    r.append(config.base_url().as_str());
    r.append("\n");
    if source == TokenSource::LegacyFile {
        r.append(
            "\nwarning: token is stored in plaintext in the config file. Run `zd config set --api-token <TOKEN>` to migrate it to the keychain.\n",
        );
    }
    r
}

/// `config set` needs at least one thing to set.
pub fn check_something_to_set(
    subdomain_given: bool,
    email_given: bool,
    default_view_given: bool,
    token_given: bool,
) -> (r: Result<(), ZdError>)
    ensures
        r is Ok <==> (subdomain_given || email_given || default_view_given || token_given),
        r is Err ==> r == Err::<(), ZdError>(ZdError::NothingToSet),
{
    if subdomain_given || email_given || default_view_given || token_given {
        Ok(())
    } else {
        Err(ZdError::NothingToSet)
    }
}

/// The subdomain whose keychain entry a new token goes to: the one given to
/// `config set`, else the one resolved from flag, environment or file.
pub fn token_subdomain(
    given: &Option<String>,
    overrides: &Overrides,
    env: &Environment,
    file: &FileConfig,
) -> (r: Result<String, ZdError>)
    ensures
        match given {
            Some(s) => r == Ok::<String, ZdError>(*s),
            None => match pick_spec(overrides.subdomain, env.subdomain, file.subdomain) {
                Some(s) => r == Ok::<String, ZdError>(s),
                None => r == Err::<String, ZdError>(ZdError::NoSubdomainForToken),
            },
        },
{
    match given {
        Some(s) => Ok(s.clone()),
        None => crate::config::resolve_subdomain(overrides, env, file),
    }
}

/// Whether `config set` writes the config file: when a non-secret field is
/// given, or a legacy plaintext token is to be cleared.
pub fn writes_config_file(
    subdomain_given: bool,
    email_given: bool,
    default_view_given: bool,
    clear_legacy_token: bool,
) -> (r: bool)
    ensures
        r == (subdomain_given || email_given || default_view_given || clear_legacy_token),
{
    subdomain_given || email_given || default_view_given || clear_legacy_token
}

/// The message after a token is stored.
pub fn stored_token_message(subdomain: &str) -> (r: String)
    ensures
        r@ == "Stored API token in the OS keychain (subdomain '"@ + subdomain@ + "')."@,
{
    let mut r = crate::text::owned("Stored API token in the OS keychain (subdomain '");
    r.append(subdomain);
    r.append("').");
    r
}

/// The message after the config file is written to `path`.
pub fn saved_config_message(path: &str) -> (r: String)
    ensures
        r@ == "Saved subdomain/email to "@ + path@,
{
    crate::text::cat("Saved subdomain/email to ", path)
}

/// The message after `config clear-token`.
pub fn clear_token_message(removed: bool, subdomain: &str) -> (r: String)
    ensures
        r@ == if removed {
            "Removed API token from the keychain for subdomain '"@ + subdomain@ + "'."@
        } else {
            "No API token was stored in the keychain for subdomain '"@ + subdomain@ + "'."@
        },
{
    let mut r = if removed {
        crate::text::owned("Removed API token from the keychain for subdomain '")
    } else {
        crate::text::owned("No API token was stored in the keychain for subdomain '")
    };
    r.append(subdomain);
    r.append("'.");
    r
}


/// The characters of `s` are ASCII letters when `s` matches, ignoring ASCII
/// case, a word of lower-case ASCII letters.
proof fn lemma_matches_lower_word(s: Seq<char>, word: Seq<char>)
    requires
        eq_ignore_ascii_case(s, word),
        forall|i: int| 0 <= i < word.len() ==> 'a' <= #[trigger] word[i] && word[i] <= 'z',
    ensures
        forall|i: int| 0 <= i < s.len() ==> ('a' <= #[trigger] s[i] && s[i] <= 'z') || ('A' <= s[i]
            && s[i] <= 'Z'),
{
    assert forall|i: int| 0 <= i < s.len() implies ('a' <= #[trigger] s[i] && s[i] <= 'z') || ('A'
        <= s[i] && s[i] <= 'Z') by {
        let c = s[i];
        let w = word[i];
        assert('a' <= w && w <= 'z');
        assert(crate::client::ascii_fold(c) == crate::client::ascii_fold(w));
        assert(crate::client::ascii_fold(w) == w as u32);
        if !('A' <= c && c <= 'Z') {
            assert(c as u32 == w as u32);
            vstd::utf8::char_u32_cast(c, c as u32);
            vstd::utf8::char_u32_cast(w, w as u32);
            assert(c == w);
        }
    }
}

/// Each of Zendesk's ticket statuses, `new`, `open`, `pending`, `hold`,
/// `solved` and `closed`, in any ASCII case, is a valid filter of itself alone.
pub proof fn law_zendesk_statuses_accepted(s: Seq<char>)
    requires
        eq_ignore_ascii_case(s, "new"@) || eq_ignore_ascii_case(s, "open"@) || eq_ignore_ascii_case(
            s,
            "pending"@,
        ) || eq_ignore_ascii_case(s, "hold"@) || eq_ignore_ascii_case(s, "solved"@)
            || eq_ignore_ascii_case(s, "closed"@),
    ensures
        statuses_of(s) == Ok::<Seq<Seq<char>>, Seq<char>>(seq![s]),
{
    reveal_strlit("new");
    reveal_strlit("open");
    reveal_strlit("pending");
    reveal_strlit("hold");
    reveal_strlit("solved");
    reveal_strlit("closed");
    if eq_ignore_ascii_case(s, "new"@) {
        lemma_matches_lower_word(s, "new"@);
    } else if eq_ignore_ascii_case(s, "open"@) {
        lemma_matches_lower_word(s, "open"@);
    } else if eq_ignore_ascii_case(s, "pending"@) {
        lemma_matches_lower_word(s, "pending"@);
    } else if eq_ignore_ascii_case(s, "hold"@) {
        lemma_matches_lower_word(s, "hold"@);
    } else if eq_ignore_ascii_case(s, "solved"@) {
        lemma_matches_lower_word(s, "solved"@);
    } else {
        lemma_matches_lower_word(s, "closed"@);
    }
    assert(s.len() > 0);
    lemma_comma_index(s, -1);
    crate::idref::lemma_trim_noop(s);
    assert(known_status(s));
}

} // verus!
