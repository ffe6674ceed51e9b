//! The decisions and texts behind the Zendesk HTTP client: which statuses a
//! filter keeps, how pages of tickets are gathered, and what each request
//! carries. The requests themselves are made around this crate.
use vstd::prelude::*;
use vstd::string::*;
use crate::config::Config;
use crate::models::{Ticket, TicketsResponse};
use crate::text::{decimal, digit_char, digit_to_char, push_char, push_decimal};
use vstd::utf8::encode_utf8;
use base64::Engine;

verus! {

/// A page-spanning ticket result plus the view's or query's total count.
pub struct TicketList {
    pub tickets: Vec<Ticket>,
    /// Total tickets matching (across all pages), if the API reported it.
    pub total: Option<i64>,
}

// ---------------------------------------------------------------------------
// Status filter
// ---------------------------------------------------------------------------

/// The code of `c` with ASCII upper case letters mapped to lower case.
pub open spec fn ascii_fold(c: char) -> u32 {
    if 'A' <= c && c <= 'Z' {
        (c as u32 + 32) as u32
    } else {
        c as u32
    }
}

/// `str::eq_ignore_ascii_case`.
pub open spec fn eq_ignore_ascii_case(a: Seq<char>, b: Seq<char>) -> bool {
    a.len() == b.len() && forall|i: int| 0 <= i < a.len() ==> #[trigger] ascii_fold(a[i]) == ascii_fold(b[i])
}

/// True if the ticket's status matches any of `statuses`, ignoring ASCII case;
/// an empty filter matches every ticket.
pub open spec fn status_matches_spec(ticket: Ticket, statuses: Seq<String>) -> bool {
    statuses.len() == 0 || match ticket.status {
        Some(s) => exists|i: int| 0 <= i < statuses.len() && eq_ignore_ascii_case(#[trigger] statuses[i]@, s@),
        None => false,
    }
}

fn fold_code(c: char) -> (r: u32)
    ensures
        r == ascii_fold(c),
{
    if 'A' <= c && c <= 'Z' {
        c as u32 + 32
    } else {
        c as u32
    }
}

pub fn eq_ignore_case(a: &Vec<char>, b: &Vec<char>) -> (r: bool)
    ensures
        r == eq_ignore_ascii_case(a@, b@),
{
    if a.len() != b.len() {
        return false;
    }
    let mut i: usize = 0;
    while i < a.len()
        invariant
            0 <= i <= a.len() == b.len(),
            forall|k: int| 0 <= k < i ==> #[trigger] ascii_fold(a@[k]) == ascii_fold(b@[k]),
        decreases a.len() - i,
    {
        if fold_code(a[i]) != fold_code(b[i]) {
            return false;
        }
        i += 1;
    }
    true
}

/// True if the ticket's status matches any of `statuses` (case-insensitive).
/// An empty filter matches everything.
pub fn status_matches(ticket: &Ticket, statuses: &[String]) -> (r: bool)
    ensures
        r == status_matches_spec(*ticket, statuses@),
{
    if statuses.len() == 0 {
        return true;
    }
    match &ticket.status {
        None => false,
        Some(s) => {
            let sv = crate::text::chars_of(s.as_str());
            let mut i: usize = 0;
            while i < statuses.len()
                invariant
                    0 <= i <= statuses@.len(),
                    sv@ == s@,
                    ticket.status == Some(*s),
                    statuses@.len() > 0,
                    forall|k: int| 0 <= k < i ==> !eq_ignore_ascii_case(#[trigger] statuses@[k]@, s@),
                decreases statuses.len() - i,
            {
                let w = crate::text::chars_of(statuses[i].as_str());
                if eq_ignore_case(&w, &sv) {
                    assert(eq_ignore_ascii_case(statuses@[i as int]@, s@));
                    return true;
                }
                i += 1;
            }
            false
        },
    }
}

/// The tickets of `tickets` that the status filter keeps, in order.
pub open spec fn matching(tickets: Seq<Ticket>, statuses: Seq<String>) -> Seq<Ticket>
    decreases tickets.len(),
{
    if tickets.len() == 0 {
        Seq::empty()
    } else {
        let rest = matching(tickets.drop_last(), statuses);
        if status_matches_spec(tickets.last(), statuses) {
            rest.push(tickets.last())
        } else {
            rest
        }
    }
}

/// The filter keeps exactly the tickets whose status matches, in their
/// order; an empty filter keeps every ticket.
pub proof fn law_filter_keeps_only_matches(tickets: Seq<Ticket>, statuses: Seq<String>)
    ensures
        matching(tickets, statuses).len() <= tickets.len(),
        forall|i: int| 0 <= i < matching(tickets, statuses).len() ==> status_matches_spec(
            #[trigger] matching(tickets, statuses)[i],
            statuses,
        ),
        statuses.len() == 0 ==> matching(tickets, statuses) == tickets,
    decreases tickets.len(),
{
    if tickets.len() > 0 {
        law_filter_keeps_only_matches(tickets.drop_last(), statuses);
        let rest = matching(tickets.drop_last(), statuses);
        assert forall|i: int| 0 <= i < matching(tickets, statuses).len() implies status_matches_spec(
            #[trigger] matching(tickets, statuses)[i],
            statuses,
        ) by {
            if i < rest.len() {
                assert(matching(tickets, statuses)[i] == rest[i]);
            }
        }
        if statuses.len() == 0 {
            assert(tickets.drop_last().push(tickets.last()) =~= tickets);
        }
    } else {
        assert(matching(tickets, statuses) =~= tickets);
    }
}

/// Appends to `out` the tickets of `tickets` that the status filter keeps.
pub fn keep_matching(out: &mut Vec<Ticket>, tickets: Vec<Ticket>, statuses: &[String])
    ensures
        final(out)@ == old(out)@ + matching(tickets@, statuses@),
{
    let ghost all = tickets@;
    let ghost start = out@;
    for t in it: tickets.into_iter()
        invariant
            it.seq() == all,
            out@ == start + matching(all.take(it.index() as int), statuses@),
    {
        let ghost i = it.index();
        proof {
            assert(all.take(i + 1).drop_last() =~= all.take(i as int));
            assert(all.take(i + 1).last() == t);
        }
        if status_matches(&t, statuses) {
            out.push(t);
        }
        assert(out@ =~= start + matching(all.take(i + 1), statuses@));
    }
    assert(all.take(all.len() as int) =~= all);
}

// ---------------------------------------------------------------------------
// Gathering tickets across pages
// ---------------------------------------------------------------------------

/// Safety cap on pages so a runaway `next_page` chain cannot loop forever.
pub const MAX_PAGES: usize = 100;

/// Progress while gathering tickets across pages.
pub struct CollectState {
    /// Stop once this many matching tickets are gathered; `None` means all pages.
    pub limit: Option<usize>,
    pub statuses: Vec<String>,
    pub collected: Vec<Ticket>,
    pub total: Option<i64>,
    pub pages: usize,
}

/// What to do after a page arrives: fetch the next page, or finish.
pub enum CollectStep {
    Fetch { state: CollectState, url: String },
    Done(TicketList),
}

impl CollectState {
    /// The state before the first page.
    pub fn new(limit: Option<usize>, statuses: Vec<String>) -> (s: CollectState)
        ensures
            s.limit == limit,
            s.statuses == statuses,
            s.collected@ == Seq::<Ticket>::empty(),
            s.total is None,
            s.pages == 0,
    {
        CollectState { limit, statuses, collected: Vec::new(), total: None, pages: 0 }
    }
}

/// The start of a ticket listing: a fresh gathering state and the first page
/// to fetch.
pub open spec fn listing_start(
    start: (CollectState, String),
    first: Seq<char>,
    limit: Option<usize>,
    statuses: Vec<String>,
) -> bool {
    &&& start.0.limit == limit
    &&& start.0.statuses == statuses
    &&& start.0.collected@ == Seq::<Ticket>::empty()
    &&& start.0.total is None
    &&& start.0.pages == 0
    &&& start.1@ == first
}

/// Recent tickets, newest first: gathering starts from the first page of
/// `/tickets.json`, stopping at `limit` matching tickets.
pub fn ticket_listing(limit: usize, statuses: Vec<String>) -> (r: (CollectState, String))
    ensures
        listing_start(r, "/tickets.json?sort_by=created_at&sort_order=desc&per_page=100"@, Some(limit), statuses),
{
    (CollectState::new(Some(limit), statuses), list_tickets_path())
}

/// A view's tickets are gathered exactly as any ticket listing, starting from
/// `/views/{view_id}/tickets.json?per_page=100`: `None` walks every page (up
/// to the page cap), `Some(l)` stops at `l` matching tickets, and `statuses`
/// filters them.
pub fn view_listing(view_id: i64, limit: Option<usize>, statuses: Vec<String>) -> (r: (CollectState, String))
    ensures
        listing_start(
            r,
            "/views/"@ + decimal(view_id as int) + "/tickets.json?per_page=100"@,
            limit,
            statuses,
        ),
{
    (CollectState::new(limit, statuses), view_tickets_path(view_id))
}

/// Tickets gathered once `page` is taken in.
pub open spec fn gathered(state: CollectState, page: TicketsResponse) -> Seq<Ticket> {
    state.collected@ + matching(page.tickets@, state.statuses@)
}

/// The total once `page` is taken in: the first count reported stays.
pub open spec fn total_after(state: CollectState, page: TicketsResponse) -> Option<i64> {
    if state.total is None {
        page.count
    } else {
        state.total
    }
}

/// True when a limit is set and `n` tickets reach it.
pub open spec fn limit_reached(limit: Option<usize>, n: nat) -> bool {
    match limit {
        Some(l) => n >= l,
        None => false,
    }
}

/// The page-by-page decision: take in the matching tickets of `page`; stop
/// when `limit` of them are gathered (keeping exactly `limit`), or when there
/// is no next page or `MAX_PAGES` pages have been read; else fetch `next_page`.
pub fn take_page(state: CollectState, page: TicketsResponse) -> (step: CollectStep)
    requires
        state.pages < MAX_PAGES,
    ensures
        ({
            let all = gathered(state, page);
            let total = total_after(state, page);
            let pages = state.pages + 1;
            match step {
                CollectStep::Done(list) => {
                    &&& list.total == total
                    &&& if limit_reached(state.limit, all.len()) {
                        list.tickets@ == all.take(state.limit.unwrap() as int)
                    } else {
                        &&& list.tickets@ == all
                        &&& (page.next_page is None || pages >= MAX_PAGES)
                    }
                },
                CollectStep::Fetch { state: next, url } => {
                    &&& !limit_reached(state.limit, all.len())
                    &&& page.next_page == Some(url)
                    &&& pages < MAX_PAGES
                    &&& next.collected@ == all
                    &&& next.total == total
                    &&& next.pages == pages
                    &&& next.limit == state.limit
                    &&& next.statuses == state.statuses
                },
            }
        }),
{
    let CollectState { limit, statuses, mut collected, total, pages } = state;
    let TicketsResponse { tickets, next_page, count } = page;
    let total = if total.is_none() { count } else { total };
    keep_matching(&mut collected, tickets, statuses.as_slice());
    let pages = pages + 1;
    if let Some(l) = limit {
        if collected.len() >= l {
            collected.truncate(l);
            return CollectStep::Done(TicketList { tickets: collected, total });
        }
    }
    match next_page {
        Some(next) => {
            if pages < MAX_PAGES {
                CollectStep::Fetch {
                    state: CollectState { limit, statuses, collected, total, pages },
                    url: next,
                }
            } else {
                CollectStep::Done(TicketList { tickets: collected, total })
            }
        },
        None => CollectStep::Done(TicketList { tickets: collected, total }),
    }
}

/// The result of a search: the matching tickets among `results`, at most
/// `limit` of them, with the reported count.
pub fn search_result(results: Vec<Ticket>, count: Option<i64>, statuses: &[String], limit: usize) -> (list: TicketList)
    ensures
        list.tickets@ == {
            let m = matching(results@, statuses@);
            if m.len() > limit { m.take(limit as int) } else { m }
        },
        list.total == count,
{
    let mut tickets: Vec<Ticket> = Vec::new();
    keep_matching(&mut tickets, results, statuses);
    tickets.truncate(limit);
    TicketList { tickets, total: count }
}

// ---------------------------------------------------------------------------
// Percent-encoding of query values
// ---------------------------------------------------------------------------

/// Bytes that stand for themselves in a query value.
pub open spec fn is_unreserved(b: u8) -> bool {
    (65 <= b <= 90) || (97 <= b <= 122) || (48 <= b <= 57) || b == 45 || b == 95 || b == 46
        || b == 126
}

/// The upper-case hexadecimal digit of `0 <= n < 16`.
pub open spec fn hex_upper(n: int) -> char {
    if n < 10 {
        digit_char(n)
    } else if n == 10 {
        'A'
    } else if n == 11 {
        'B'
    } else if n == 12 {
        'C'
    } else if n == 13 {
        'D'
    } else if n == 14 {
        'E'
    } else {
        'F'
    }
}

/// One byte, encoded: itself when unreserved, else `%XX` in upper-case hex.
pub open spec fn encode_byte(b: u8) -> Seq<char> {
    if is_unreserved(b) {
        seq![b as char]
    } else {
        seq!['%', hex_upper(b as int / 16), hex_upper(b as int % 16)]
    }
}

/// Percent-encoding of a byte string.
pub open spec fn percent_encode(bytes: Seq<u8>) -> Seq<char>
    decreases bytes.len(),
{
    if bytes.len() == 0 {
        Seq::empty()
    } else {
        encode_byte(bytes[0]) + percent_encode(bytes.drop_first())
    }
}

pub proof fn lemma_percent_encode_append(x: Seq<u8>, y: Seq<u8>)
    ensures
        percent_encode(x + y) == percent_encode(x) + percent_encode(y),
    decreases x.len(),
{
    if x.len() == 0 {
        assert(x + y =~= y);
        assert(percent_encode(x) + percent_encode(y) =~= percent_encode(y));
    } else {
        assert((x + y).drop_first() =~= x.drop_first() + y);
        lemma_percent_encode_append(x.drop_first(), y);
        assert((x + y)[0] == x[0]);
        assert(percent_encode(x + y) =~= percent_encode(x) + percent_encode(y));
    }
}

fn hex_char(n: u8) -> (c: char)
    requires
        n < 16,
    ensures
        c == hex_upper(n as int),
{
    if n < 10 {
        digit_to_char(n as u64)
    } else if n == 10 {
        'A'
    } else if n == 11 {
        'B'
    } else if n == 12 {
        'C'
    } else if n == 13 {
        'D'
    } else if n == 14 {
        'E'
    } else {
        'F'
    }
}

/// Percent-encoding of a query value's UTF-8 bytes: ASCII letters, digits and
/// `-_.~` stay, every other byte becomes `%XX`.
pub fn url_encode(input: &str) -> (r: String)
    ensures
        r@ == percent_encode(encode_utf8(input@)),
{
    let bytes = input.as_bytes();
    let mut out = String::new();
    let mut i: usize = 0;
    while i < bytes.len()
        invariant
            0 <= i <= bytes@.len(),
            bytes@ == encode_utf8(input@),
            out@ == percent_encode(bytes@.take(i as int)),
        decreases bytes.len() - i,
    {
        let b = bytes[i];
        if (65 <= b && b <= 90) || (97 <= b && b <= 122) || (48 <= b && b <= 57) || b == 45 || b == 95
            || b == 46 || b == 126 {
            push_char(&mut out, b as char);
        } else {
            push_char(&mut out, '%');
            push_char(&mut out, hex_char(b / 16));
            push_char(&mut out, hex_char(b % 16));
        }
        proof {
            let pre = bytes@.take(i as int);
            assert(bytes@.take(i + 1) =~= pre + seq![b]);
            lemma_percent_encode_append(pre, seq![b]);
            assert(seq![b].drop_first() =~= Seq::<u8>::empty());
            assert(percent_encode(seq![b].drop_first()) =~= Seq::<char>::empty());
            assert(percent_encode(seq![b]) =~= encode_byte(b));
        }
        i += 1;
    }
    assert(bytes@.take(bytes@.len() as int) =~= bytes@);
    out
}

/// The value of a hexadecimal digit (either case); 0 for other characters.
pub open spec fn hex_value(c: char) -> int {
    if '0' <= c && c <= '9' {
        c as int - '0' as int
    } else if 'A' <= c && c <= 'F' {
        c as int - 'A' as int + 10
    } else if 'a' <= c && c <= 'f' {
        c as int - 'a' as int + 10
    } else {
        0
    }
}

/// Percent-decoding: `%XX` becomes the byte `XX`, any other character the byte
/// of its code.
pub open spec fn percent_decode(s: Seq<char>) -> Seq<u8>
    decreases s.len(),
{
    if s.len() == 0 {
        Seq::empty()
    } else if s[0] == '%' && s.len() >= 3 {
        seq![(hex_value(s[1]) * 16 + hex_value(s[2])) as u8] + percent_decode(s.skip(3))
    } else {
        seq![s[0] as u8] + percent_decode(s.drop_first())
    }
}

proof fn lemma_hex_roundtrip(n: int)
    requires
        0 <= n < 16,
    ensures
        hex_value(hex_upper(n)) == n,
{
}

/// Percent-decoding undoes the encoding: the server reads back exactly the
/// bytes of the query value.
pub proof fn law_percent_decode_inverts_encode(bytes: Seq<u8>)
    ensures
        percent_decode(percent_encode(bytes)) == bytes,
    decreases bytes.len(),
{
    if bytes.len() > 0 {
        let b = bytes[0];
        let rest = bytes.drop_first();
        law_percent_decode_inverts_encode(rest);
        let e = percent_encode(bytes);
        assert(e == encode_byte(b) + percent_encode(rest));
        if is_unreserved(b) {
            assert(e[0] == b as char);
            assert(e.drop_first() =~= percent_encode(rest));
            assert((b as char) as int == b as int);
            assert((b as char) as u8 == b);
        } else {
            lemma_hex_roundtrip(b as int / 16);
            lemma_hex_roundtrip(b as int % 16);
            assert(e[0] == '%');
            assert(e[1] == hex_upper(b as int / 16));
            assert(e[2] == hex_upper(b as int % 16));
            assert(e.skip(3) =~= percent_encode(rest));
        }
        assert(percent_decode(e) =~= bytes);
    }
}

// ---------------------------------------------------------------------------
// Requests
// ---------------------------------------------------------------------------

/// `GET /tickets/{id}.json`
pub fn ticket_path(id: i64) -> (r: String)
    ensures
        r@ == "/tickets/"@ + decimal(id as int) + ".json"@,
{
    let mut r = crate::text::owned("/tickets/");
    push_decimal(&mut r, id);
    r.append(".json");
    r
}

/// `GET /tickets/{id}/comments.json`: the ticket's replies, public and internal.
pub fn comments_path(id: i64) -> (r: String)
    ensures
        r@ == "/tickets/"@ + decimal(id as int) + "/comments.json"@,
{
    let mut r = crate::text::owned("/tickets/");
    push_decimal(&mut r, id);
    r.append("/comments.json");
    r
}

/// Recent tickets, newest first, a hundred per page.
pub fn list_tickets_path() -> (r: String)
    ensures
        r@ == "/tickets.json?sort_by=created_at&sort_order=desc&per_page=100"@,
{
    crate::text::owned("/tickets.json?sort_by=created_at&sort_order=desc&per_page=100")
}

/// Tickets in a view (agent filter), a hundred per page.
pub fn view_tickets_path(view_id: i64) -> (r: String)
    ensures
        r@ == "/views/"@ + decimal(view_id as int) + "/tickets.json?per_page=100"@,
{
    let mut r = crate::text::owned("/views/");
    push_decimal(&mut r, view_id);
    r.append("/tickets.json?per_page=100");
    r
}

/// The search for tickets matching `query` in Zendesk search syntax;
/// `type:ticket` is added to the query.
pub fn search_path(query: &str) -> (r: String)
    ensures
        r@ == "/search.json?query="@ + percent_encode(encode_utf8("type:ticket "@ + query@))
            + "&per_page=100"@,
{
    let full = crate::text::cat("type:ticket ", query);
    let mut r = crate::text::owned("/search.json?query=");
    r.append(url_encode(full.as_str()).as_str());
    r.append("&per_page=100");
    r
}

/// The active views (agent filters).
pub fn views_path() -> (r: String)
    ensures
        r@ == "/views.json?active=true"@,
{
    crate::text::owned("/views.json?active=true")
}

/// The authenticated user, to verify credentials.
pub fn whoami_path() -> (r: String)
    ensures
        r@ == "/users/me.json"@,
{
    crate::text::owned("/users/me.json")
}

/// The URL of a relative API path.
pub fn request_url(base_url: &str, path: &str) -> (r: String)
    ensures
        r@ == base_url@ + path@,
{
    crate::text::cat(base_url, path)
}

pub open spec fn starts_with_http(s: Seq<char>) -> bool {
    s.len() >= 4 && s.take(4) == "http"@
}

/// The URL of a GET: an absolute URL (a `next_page` link) is used as it is,
/// a relative path is joined to the base URL.
pub fn get_url(base_url: &str, path_or_url: &str) -> (r: String)
    ensures
        r@ == if starts_with_http(path_or_url@) {
            path_or_url@
        } else {
            base_url@ + path_or_url@
        },
{
    let v = crate::text::chars_of(path_or_url);
    proof {
        reveal_strlit("http");
    }
    if v.len() >= 4 && v[0] == 'h' && v[1] == 't' && v[2] == 't' && v[3] == 'p' {
        assert(v@.take(4) =~= "http"@);
        crate::text::owned(path_or_url)
    } else {
        assert(v@.len() >= 4 ==> v@.take(4)[0] == v@[0] && v@.take(4)[1] == v@[1] && v@.take(4)[2]
            == v@[2] && v@.take(4)[3] == v@[3]);
        crate::text::cat(base_url, path_or_url)
    }
}

/// The character of a 6-bit value in the standard base64 alphabet
/// (`A-Z`, `a-z`, `0-9`, `+`, `/`).
pub open spec fn base64_digit(n: int) -> char {
    if n < 26 {
        ('A' as int + n) as char
    } else if n < 52 {
        ('a' as int + (n - 26)) as char
    } else if n < 62 {
        ('0' as int + (n - 52)) as char
    } else if n == 62 {
        '+'
    } else {
        '/'
    }
}

/// The standard-alphabet, padded base64 text of a byte string: each group of
/// three bytes becomes four characters, and a last group of one or two bytes
/// becomes two or three characters followed by `=` padding to four.
pub open spec fn base64_standard(b: Seq<u8>) -> Seq<char>
    decreases b.len(),
{
    if b.len() == 0 {
        Seq::empty()
    } else if b.len() == 1 {
        seq![base64_digit(b[0] as int / 4), base64_digit((b[0] as int % 4) * 16), '=', '=']
    } else if b.len() == 2 {
        seq![
            base64_digit(b[0] as int / 4),
            base64_digit((b[0] as int % 4) * 16 + b[1] as int / 16),
            base64_digit((b[1] as int % 16) * 4),
            '=',
        ]
    } else {
        seq![
            base64_digit(b[0] as int / 4),
            base64_digit((b[0] as int % 4) * 16 + b[1] as int / 16),
            base64_digit((b[1] as int % 16) * 4 + b[2] as int / 64),
            base64_digit(b[2] as int % 64),
        ] + base64_standard(b.skip(3))
    }
}

/// `base64::engine::general_purpose::STANDARD.encode`: the base64 text of the
/// bytes, as [`base64_standard`] spells it out.
#[verifier::external_body]
fn base64_encode(bytes: &[u8]) -> (r: String)
    ensures
        r@ == base64_standard(bytes@),
{
    base64::engine::general_purpose::STANDARD.encode(bytes)
}

/// The `Authorization` header of API-token basic auth: `Basic ` and the base64
/// of `{email}/token:{api_token}`.
pub fn auth_header(config: &Config) -> (r: String)
    ensures
        r@ == "Basic "@ + base64_standard(
            encode_utf8(config.email@ + "/token"@ + ":"@ + config.api_token@),
        ),
{
    let mut creds = config.basic_auth_user();
    creds.append(":");
    creds.append(config.api_token.as_str());
    let encoded = base64_encode(creds.as_str().as_bytes());
    let mut r = crate::text::owned("Basic ");
    r.append(encoded.as_str());
    r
}

/// True for the 2xx status codes.
pub fn is_success(code: u16) -> (r: bool)
    ensures
        r == (200 <= code <= 299),
{
    200 <= code && code <= 299
}

/// The hint that follows an error status in its message.
pub open spec fn status_hint(code: u16) -> Seq<char> {
    if code == 401 {
        " (check email + API token; username must be `email/token`)"@
    } else if code == 403 {
        " (token or user lacks permission for this action)"@
    } else if code == 404 {
        " (ticket or resource not found)"@
    } else if code == 429 {
        " (rate limited; retry later)"@
    } else {
        ""@
    }
}

fn hint_for(code: u16) -> (r: &'static str)
    ensures
        r@ == status_hint(code),
{
    if code == 401 {
        " (check email + API token; username must be `email/token`)"
    } else if code == 403 {
        " (token or user lacks permission for this action)"
    } else if code == 404 {
        " (ticket or resource not found)"
    } else if code == 429 {
        " (rate limited; retry later)"
    } else {
        ""
    }
}

/// The readable error for a Zendesk error response: the status as shown
/// (e.g. `404 Not Found`), a hint for the common codes, and the body.
pub fn api_error(status: &str, code: u16, body: &str) -> (e: crate::error::ZdError)
    ensures
        e matches crate::error::ZdError::Api(text) && text@ == "Zendesk API error "@ + status@
            + status_hint(code) + ": "@ + body@,
{
    let mut text = crate::text::owned("Zendesk API error ");
    text.append(status);
    text.append(hint_for(code));
    text.append(": ");
    text.append(body);
    crate::error::ZdError::Api(text)
}

/// A lower-case hexadecimal digit of `0 <= n < 16`.
pub open spec fn hex_lower(n: int) -> char {
    if n < 10 {
        digit_char(n)
    } else {
        ('a' as int + (n - 10)) as char
    }
}

/// One character inside a JSON string as `serde_json` writes it: `"` and `\`
/// escaped with a backslash, backspace, tab, line feed, form feed and carriage
/// return as `\b \t \n \f \r`, other control characters below U+0020 as
/// `\u00xx`, every other character as itself.
pub open spec fn json_escape_char(c: char) -> Seq<char> {
    if c == '"' {
        seq!['\\', '"']
    } else if c == '\\' {
        seq!['\\', '\\']
    } else if c == '\u{8}' {
        seq!['\\', 'b']
    } else if c == '\t' {
        seq!['\\', 't']
    } else if c == '\n' {
        seq!['\\', 'n']
    } else if c == '\u{c}' {
        seq!['\\', 'f']
    } else if c == '\r' {
        seq!['\\', 'r']
    } else if (c as int) < 32 {
        seq!['\\', 'u', '0', '0', hex_lower(c as int / 16), hex_lower(c as int % 16)]
    } else {
        seq![c]
    }
}

/// The escaped characters of a JSON string's content.
pub open spec fn json_escaped(s: Seq<char>) -> Seq<char>
    decreases s.len(),
{
    if s.len() == 0 {
        Seq::empty()
    } else {
        json_escape_char(s[0]) + json_escaped(s.drop_first())
    }
}

/// The JSON text of a string, as `serde_json::to_string` writes it: quoted,
/// with escapes.
pub open spec fn json_string(s: Seq<char>) -> Seq<char> {
    seq!['"'] + json_escaped(s) + seq!['"']
}

/// `serde_json::to_string` on a string slice, as [`json_string`] spells it out.
/// Serializing a string cannot fail (the crate writes to an in-memory buffer).
#[verifier::external_body]
fn json_quote(s: &str) -> (r: String)
    ensures
        r@ == json_string(s@),
{
    serde_json::to_string(s).unwrap_or_default()
}

/// The JSON body that adds a comment to a ticket.
pub open spec fn comment_payload_text(body: Seq<char>, public: bool) -> Seq<char> {
    "{\"ticket\":{\"comment\":{\"body\":"@ + json_string(body) + ",\"public\":"@ + (if public {
        "true"@
    } else {
        "false"@
    }) + "}}}"@
}

/// The body of `PUT /tickets/{id}.json` that adds a comment: `public = true`
/// posts a public reply to the requester, `public = false` an internal note.
pub fn comment_payload(body: &str, public: bool) -> (r: String)
    ensures
        r@ == comment_payload_text(body@, public),
{
    let mut r = crate::text::owned("{\"ticket\":{\"comment\":{\"body\":");
    r.append(json_quote(body).as_str());
    r.append(",\"public\":");
    r.append(if public { "true" } else { "false" });
    r.append("}}}");
    r
}


/// A character that may stand in an encoded query value without ending or
/// splitting it: an ASCII letter or digit, `-`, `_`, `.`, `~`, or the `%` of
/// an escape.
pub open spec fn is_query_safe(c: char) -> bool {
    ('A' <= c && c <= 'Z') || ('a' <= c && c <= 'z') || ('0' <= c && c <= '9') || c == '-' || c
        == '_' || c == '.' || c == '~' || c == '%'
}

/// Exactly the bytes `A-Z a-z 0-9 - _ . ~` stand for themselves; every
/// other byte is written as `%` and two upper-case hexadecimal digits.
pub proof fn law_which_bytes_are_escaped(b: u8)
    ensures
        ((65 <= b <= 90) || (97 <= b <= 122) || (48 <= b <= 57) || b == 45 || b == 95 || b == 46
            || b == 126) ==> percent_encode(seq![b]) == seq![b as char],
        !((65 <= b <= 90) || (97 <= b <= 122) || (48 <= b <= 57) || b == 45 || b == 95 || b == 46
            || b == 126) ==> percent_encode(seq![b]) == seq![
            '%',
            hex_upper(b as int / 16),
            hex_upper(b as int % 16),
        ],
        percent_encode(seq![b]).len() == 1 <==> ((65 <= b <= 90) || (97 <= b <= 122) || (48 <= b
            <= 57) || b == 45 || b == 95 || b == 46 || b == 126),
{
    assert(seq![b].drop_first() =~= Seq::<u8>::empty());
    assert(percent_encode(seq![b].drop_first()) =~= Seq::<char>::empty());
    assert(percent_encode(seq![b]) =~= encode_byte(b));
}

/// An encoded query value holds only safe characters: never `&`, `=`, `+`,
/// `#`, a space or another reserved character.
pub proof fn law_encoded_text_is_query_safe(bytes: Seq<u8>)
    ensures
        forall|i: int| 0 <= i < percent_encode(bytes).len() ==> is_query_safe(#[trigger] percent_encode(bytes)[i]),
    decreases bytes.len(),
{
    if bytes.len() > 0 {
        let b = bytes[0];
        law_encoded_text_is_query_safe(bytes.drop_first());
        let head = encode_byte(b);
        let rest = percent_encode(bytes.drop_first());
        assert(percent_encode(bytes) == head + rest);
        assert forall|i: int| 0 <= i < head.len() implies is_query_safe(#[trigger] head[i]) by {
            if is_unreserved(b) {
                assert(head[i] == b as char);
                assert((b as char) as int == b as int);
            } else {
                let hi = b as int / 16;
                let lo = b as int % 16;
                assert(0 <= hi < 16 && 0 <= lo < 16);
            }
        }
        assert forall|i: int| 0 <= i < percent_encode(bytes).len() implies is_query_safe(
            #[trigger] percent_encode(bytes)[i],
        ) by {
            if i < head.len() {
                assert(percent_encode(bytes)[i] == head[i]);
            } else {
                assert(percent_encode(bytes)[i] == rest[i - head.len()]);
            }
        }
    }
}

} // verus!
