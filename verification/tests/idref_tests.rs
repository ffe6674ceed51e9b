use zendesk_cli::idref::parse_id;

#[test]
fn bare_number() {
    assert_eq!(parse_id("1162117").unwrap(), 1162117);
    assert_eq!(parse_id("  42 ").unwrap(), 42);
}

#[test]
fn ticket_url() {
    assert_eq!(parse_id("https://privacy.zendesk.com/agent/tickets/1162117").unwrap(), 1162117);
}

#[test]
fn view_url() {
    assert_eq!(
        parse_id("https://privacy.zendesk.com/agent/filters/1500014631401").unwrap(),
        1500014631401
    );
}

#[test]
fn url_with_subpath_and_query() {
    assert_eq!(
        parse_id("https://privacy.zendesk.com/agent/tickets/1162117/events?foo=bar").unwrap(),
        1162117
    );
}

#[test]
fn rejects_garbage() {
    assert!(parse_id("not-a-ticket").is_err());
}

#[test]
fn garbage_message_names_the_input() {
    assert_eq!(
        parse_id("not-a-ticket").unwrap_err(),
        "'not-a-ticket' is not a numeric ID or a recognizable Zendesk URL \
         (e.g. https://<subdomain>.zendesk.com/agent/tickets/12345)"
    );
}

#[test]
fn signs_and_limits_follow_i64_parsing() {
    assert_eq!(parse_id("+7").unwrap(), 7);
    assert_eq!(parse_id("-7").unwrap(), -7);
    assert_eq!(parse_id("9223372036854775807").unwrap(), i64::MAX);
    assert_eq!(parse_id("-9223372036854775808").unwrap(), i64::MIN);
    assert!(parse_id("9223372036854775808").is_err());
    assert!(parse_id("+").is_err());
    assert!(parse_id("").is_err());
    assert!(parse_id("   ").is_err());
}

#[test]
fn trailing_slash_fragment_and_inner_number() {
    assert_eq!(parse_id("https://acme.zendesk.com/agent/tickets/55/").unwrap(), 55);
    assert_eq!(parse_id("https://acme.zendesk.com/agent/tickets/55#top").unwrap(), 55);
    // The query string is dropped before looking for the number.
    assert!(parse_id("https://acme.zendesk.com/agent/tickets?id=9").is_err());
    // The last numeric segment wins.
    assert_eq!(parse_id("/agent/9/tickets/12").unwrap(), 12);
    assert_eq!(parse_id("\t/agent/tickets/3\n").unwrap(), 3);
}
