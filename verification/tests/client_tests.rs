use zendesk_cli::client::{
    api_error, auth_header, comment_payload, comments_path, get_url, is_success, list_tickets_path,
    request_url, search_path, search_result, status_matches, take_page, ticket_path, url_encode,
    view_tickets_path, views_path, whoami_path, CollectState, CollectStep, MAX_PAGES,
    ticket_listing, view_listing,
};
use zendesk_cli::config::Config;
use zendesk_cli::error::ZdError;
use zendesk_cli::models::{Ticket, TicketsResponse};

fn ticket(id: i64, status: Option<&str>) -> Ticket {
    Ticket {
        id,
        subject: None,
        description: None,
        status: status.map(str::to_string),
        priority: None,
        requester_id: None,
        assignee_id: None,
        tags: vec![],
        created_at: None,
        updated_at: None,
        url: None,
    }
}

fn ids(ts: &[Ticket]) -> Vec<i64> {
    ts.iter().map(|t| t.id).collect()
}

#[test]
fn empty_filter_matches_everything() {
    assert!(status_matches(&ticket(1, None), &[]));
    assert!(status_matches(&ticket(1, Some("open")), &[]));
}

#[test]
fn filter_ignores_ascii_case() {
    let f = vec!["OPEN".to_string(), "pending".to_string()];
    assert!(status_matches(&ticket(1, Some("open")), &f));
    assert!(status_matches(&ticket(1, Some("Pending")), &f));
    assert!(!status_matches(&ticket(1, Some("closed")), &f));
    assert!(!status_matches(&ticket(1, None), &f));
}

#[test]
fn view_page_filters_by_status_and_keeps_total() {
    // The view has three tickets, one closed; only open ones are kept.
    let state = CollectState::new(None, vec!["open".to_string()]);
    let page = TicketsResponse {
        tickets: vec![ticket(1, Some("open")), ticket(2, Some("closed")), ticket(3, Some("open"))],
        next_page: None,
        count: Some(3),
    };
    match take_page(state, page) {
        CollectStep::Done(list) => {
            assert_eq!(list.total, Some(3));
            assert_eq!(ids(&list.tickets), vec![1, 3]);
        }
        CollectStep::Fetch { .. } => panic!("there is no next page"),
    }
}

#[test]
fn pagination_follows_next_page_until_limit() {
    let state = CollectState::new(Some(3), vec![]);
    let page1 = TicketsResponse {
        tickets: vec![ticket(1, None), ticket(2, None)],
        next_page: Some("https://acme.zendesk.com/api/v2/views/9/tickets.json?page=2".to_string()),
        count: Some(10),
    };
    let state = match take_page(state, page1) {
        CollectStep::Fetch { state, url } => {
            assert_eq!(url, "https://acme.zendesk.com/api/v2/views/9/tickets.json?page=2");
            assert_eq!(state.pages, 1);
            state
        }
        CollectStep::Done(_) => panic!("limit not reached yet"),
    };
    let page2 = TicketsResponse {
        tickets: vec![ticket(3, None), ticket(4, None)],
        next_page: Some("next".to_string()),
        count: Some(99),
    };
    match take_page(state, page2) {
        CollectStep::Done(list) => {
            assert_eq!(ids(&list.tickets), vec![1, 2, 3]);
            assert_eq!(list.total, Some(10), "the first reported count stays");
        }
        CollectStep::Fetch { .. } => panic!("limit reached"),
    }
}

#[test]
fn pagination_stops_at_page_cap() {
    let mut state = CollectState::new(None, vec![]);
    state.pages = MAX_PAGES - 1;
    let page = TicketsResponse { tickets: vec![ticket(1, None)], next_page: Some("more".into()), count: None };
    match take_page(state, page) {
        CollectStep::Done(list) => assert_eq!(ids(&list.tickets), vec![1]),
        CollectStep::Fetch { .. } => panic!("page cap reached"),
    }
}

#[test]
fn search_filters_then_truncates() {
    let results = vec![ticket(1, Some("open")), ticket(2, Some("solved")), ticket(3, Some("open")), ticket(4, Some("open"))];
    let list = search_result(results, Some(4), &["open".to_string()], 2);
    assert_eq!(ids(&list.tickets), vec![1, 3]);
    assert_eq!(list.total, Some(4));
}

#[test]
fn url_encoding_of_query_values() {
    assert_eq!(url_encode("type:ticket status:open"), "type%3Aticket%20status%3Aopen");
    assert_eq!(url_encode("a-b_c.d~E9"), "a-b_c.d~E9");
    assert_eq!(url_encode("é"), "%C3%A9");
    assert_eq!(url_encode(""), "");
}

#[test]
fn request_paths() {
    assert_eq!(ticket_path(123), "/tickets/123.json");
    assert_eq!(comments_path(55), "/tickets/55/comments.json");
    assert_eq!(list_tickets_path(), "/tickets.json?sort_by=created_at&sort_order=desc&per_page=100");
    assert_eq!(view_tickets_path(999), "/views/999/tickets.json?per_page=100");
    assert_eq!(views_path(), "/views.json?active=true");
    assert_eq!(whoami_path(), "/users/me.json");
    assert_eq!(
        search_path("status:open priority:high"),
        "/search.json?query=type%3Aticket%20status%3Aopen%20priority%3Ahigh&per_page=100"
    );
}

#[test]
fn absolute_next_page_links_are_used_as_given() {
    let base = "https://acme.zendesk.com/api/v2";
    assert_eq!(get_url(base, "/tickets.json"), "https://acme.zendesk.com/api/v2/tickets.json");
    assert_eq!(get_url(base, "https://acme.zendesk.com/api/v2/x?page=2"), "https://acme.zendesk.com/api/v2/x?page=2");
    assert_eq!(request_url(base, "/users/me.json"), "https://acme.zendesk.com/api/v2/users/me.json");
}

#[test]
fn auth_header_is_basic_base64_of_email_token_scheme() {
    let c = Config {
        subdomain: "acme".into(),
        email: "agent@acme.com".into(),
        api_token: "test-token".into(),
        default_view: None,
        base_url_override: None,
    };
    // base64("agent@acme.com/token:test-token")
    assert_eq!(auth_header(&c), "Basic YWdlbnRAYWNtZS5jb20vdG9rZW46dGVzdC10b2tlbg==");
}

#[test]
fn comment_payload_carries_visibility() {
    assert_eq!(
        comment_payload("looking into it", false),
        r#"{"ticket":{"comment":{"body":"looking into it","public":false}}}"#
    );
    assert_eq!(
        comment_payload("\u{1}\t/é\\", true),
        r#"{"ticket":{"comment":{"body":"\u0001\t/é\\","public":true}}}"#
    );
    assert_eq!(
        comment_payload("say \"hi\"\n", true),
        r#"{"ticket":{"comment":{"body":"say \"hi\"\n","public":true}}}"#
    );
}

#[test]
fn api_errors_carry_hints() {
    assert!(is_success(200) && is_success(299) && !is_success(404) && !is_success(199));
    let e = api_error("404 Not Found", 404, "{\"error\":\"RecordNotFound\"}");
    assert_eq!(
        e.message(),
        "Zendesk API error 404 Not Found (ticket or resource not found): {\"error\":\"RecordNotFound\"}"
    );
    match api_error("401 Unauthorized", 401, "") {
        ZdError::Api(t) => assert!(t.contains("username must be `email/token`")),
        _ => panic!(),
    }
    assert_eq!(api_error("500 Internal Server Error", 500, "x").message(), "Zendesk API error 500 Internal Server Error: x");
}

#[test]
fn listings_start_fresh_on_their_first_page() {
    let (state, url) = view_listing(999, None, vec!["open".to_string()]);
    assert_eq!(url, "/views/999/tickets.json?per_page=100");
    assert_eq!(state.limit, None);
    assert_eq!(state.pages, 0);
    assert!(state.collected.is_empty());
    let (state, url) = ticket_listing(25, vec![]);
    assert_eq!(url, "/tickets.json?sort_by=created_at&sort_order=desc&per_page=100");
    assert_eq!(state.limit, Some(25));
}
