use zendesk_cli::models::{Comment, Ticket, User, View};
use zendesk_cli::output::{
    comments_human, ticket_human, tickets_table, truncate, user_human, views_table, Format,
};

fn full_ticket() -> Ticket {
    Ticket {
        id: 123,
        subject: Some("Printer on fire".into()),
        description: Some("  first line\r\nsecond line\n\n".into()),
        status: Some("open".into()),
        priority: None,
        requester_id: Some(7),
        assignee_id: None,
        tags: vec!["urgent".into(), "hw".into()],
        created_at: Some("2024-01-01T00:00:00Z".into()),
        updated_at: None,
        url: None,
    }
}

#[test]
fn format_follows_json_flag() {
    assert_eq!(Format::from_json_flag(true), Format::Json);
    assert_eq!(Format::from_json_flag(false), Format::Human);
}

#[test]
fn ticket_human_text() {
    assert_eq!(
        ticket_human(&full_ticket()),
        "Ticket #123\n  Subject : Printer on fire\n  Status  : open\n  Priority: -\n  Requester: 7\n  Tags    : urgent, hw\n  Created : 2024-01-01T00:00:00Z\n\n  Description:\n    first line\n    second line\n"
    );
}

#[test]
fn blank_description_is_not_shown() {
    let mut t = full_ticket();
    t.description = Some(" \n ".into());
    t.tags = vec![];
    t.subject = None;
    t.requester_id = None;
    t.created_at = None;
    assert_eq!(ticket_human(&t), "Ticket #123\n  Status  : open\n  Priority: -\n");
}

#[test]
fn tickets_table_text() {
    assert_eq!(tickets_table(&[]), "(no tickets)\n");
    let mut t = full_ticket();
    t.subject = Some("x".repeat(70));
    let out = tickets_table(&[t]);
    let expected = format!(
        "ID        STATUS      PRIORITY  SUBJECT\n123       open        -         {}…\n",
        "x".repeat(59)
    );
    assert_eq!(out, expected);
}

#[test]
fn views_table_text() {
    assert_eq!(views_table(&[]), "(no views)\n");
    let v = View { id: 1500014631401, title: Some("My queue".into()), active: true };
    let w = View { id: 2, title: None, active: false };
    assert_eq!(views_table(&[v, w]), "ID                TITLE\n1500014631401     My queue\n2                 -\n");
}

#[test]
fn comments_labelled_public_and_internal() {
    let cs = vec![
        Comment { id: 1, author_id: Some(9), body: Some("customer-facing".into()), html_body: None, public: true, created_at: Some("t1".into()) },
        Comment { id: 2, author_id: None, body: Some("internal note\nline two".into()), html_body: None, public: false, created_at: None },
    ];
    assert_eq!(
        comments_human(55, &cs),
        "Ticket #55 — 2 comment(s)\n\n[PUBLIC ] #1  author=9  t1\n    customer-facing\n\n[INTERNAL] #2  author=?  \n    internal note\n    line two\n\n"
    );
}

#[test]
fn user_text() {
    let u = User { id: 7, name: Some("Ada".into()), email: Some("ada@acme.com".into()), role: None };
    assert_eq!(user_human(&u), "Authenticated as:\n  id   : 7\n  name : Ada\n  email: ada@acme.com\n  role : -\n");
}

#[test]
fn truncate_counts_characters() {
    assert_eq!(truncate("hello", 5), "hello");
    assert_eq!(truncate("hello!", 5), "hell…");
    assert_eq!(truncate("ééééé", 3), "éé…");
    assert_eq!(truncate("ab", 0), "…");
}

#[test]
fn lone_carriage_return_stays_in_last_line() {
    let cs = vec![Comment { id: 3, author_id: Some(1), body: Some("a\r\nx\r".into()), html_body: None, public: true, created_at: None }];
    assert_eq!(comments_human(9, &cs), "Ticket #9 — 1 comment(s)\n\n[PUBLIC ] #3  author=1  \n    a\n    x\r\n\n");
}
