//! The subset of the Zendesk Ticketing API's records that this tool reads or
//! writes. Zendesk returns many more fields; only these are kept.
use vstd::prelude::*;

verus! {

/// A Zendesk ticket.
#[derive(Debug, Clone)]
pub struct Ticket {
    pub id: i64,
    pub subject: Option<String>,
    pub description: Option<String>,
    pub status: Option<String>,
    pub priority: Option<String>,
    pub requester_id: Option<i64>,
    pub assignee_id: Option<i64>,
    pub tags: Vec<String>,
    pub created_at: Option<String>,
    pub updated_at: Option<String>,
    pub url: Option<String>,
}

/// The body of `GET /tickets/{id}.json`.
#[derive(Debug)]
pub struct TicketResponse {
    pub ticket: Ticket,
}

/// One page of a list endpoint that returns tickets.
#[derive(Debug)]
pub struct TicketsResponse {
    pub tickets: Vec<Ticket>,
    /// Full URL of the next page, or `None` on the last page.
    pub next_page: Option<String>,
    /// Total number of tickets matching, across all pages.
    pub count: Option<i64>,
}

/// The body of `GET /search.json`: results come under `results`.
#[derive(Debug)]
pub struct SearchResponse {
    pub results: Vec<Ticket>,
    pub next_page: Option<String>,
    pub count: Option<i64>,
}

/// A comment on a ticket; in Zendesk a "reply" is a comment.
///
/// - `public == true`  => a public reply visible to the requester (the customer).
/// - `public == false` => an internal note visible only to agents.
#[derive(Debug, Clone)]
pub struct Comment {
    pub id: i64,
    pub author_id: Option<i64>,
    pub body: Option<String>,
    pub html_body: Option<String>,
    pub public: bool,
    pub created_at: Option<String>,
}

/// The body of `GET /tickets/{id}/comments.json`.
#[derive(Debug)]
pub struct CommentsResponse {
    pub comments: Vec<Comment>,
    pub next_page: Option<String>,
}

/// A Zendesk user.
#[derive(Debug, Clone)]
pub struct User {
    pub id: i64,
    pub name: Option<String>,
    pub email: Option<String>,
    pub role: Option<String>,
}

/// The body of `GET /users/me.json`.
#[derive(Debug)]
pub struct UserResponse {
    pub user: User,
}

/// A Zendesk view (an "agent filter" in the agent UI); its ID is the trailing
/// segment of `.../agent/filters/{id}`.
#[derive(Debug, Clone)]
pub struct View {
    pub id: i64,
    pub title: Option<String>,
    pub active: bool,
}

/// The body of `GET /views.json`.
#[derive(Debug)]
pub struct ViewsResponse {
    pub views: Vec<View>,
    pub next_page: Option<String>,
}

} // verus!
