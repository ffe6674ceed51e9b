//! Output formatting. Every command supports `--json` for machine-readable
//! output and a compact human-readable default; this module writes the
//! human-readable text, which is then printed as it stands.
use vstd::prelude::*;
use vstd::string::*;
use crate::models::{Comment, Ticket, User};
use crate::text::{
    chars_of, decimal, nat_digits, opt_chars, push_char, push_count, push_decimal, trim,
    trim_bounds,
};

verus! {

/// The output mode of a command.
#[derive(Debug, Clone, Copy, PartialEq, Eq, Structural)]
pub enum Format {
    Human,
    Json,
}

impl Format {
    /// `--json` selects JSON output; otherwise output is for humans.
    pub fn from_json_flag(json: bool) -> (f: Format)
        ensures
            f == (if json { Format::Json } else { Format::Human }),
    {
        if json {
            Format::Json
        } else {
            Format::Human
        }
    }
}

// ---------------------------------------------------------------------------
// Text pieces
// ---------------------------------------------------------------------------

/// `n` spaces.
pub open spec fn spaces(n: nat) -> Seq<char> {
    Seq::new(n, |i: int| ' ')
}

/// `s` left-aligned in a field of `width` characters, as `{:<width}` writes it.
pub open spec fn pad_right(s: Seq<char>, width: nat) -> Seq<char> {
    if s.len() >= width {
        s
    } else {
        s + spaces((width - s.len()) as nat)
    }
}

/// Appends `s` left-aligned in a field of `width` characters.
pub fn push_padded(out: &mut String, s: &str, width: usize)
    ensures
        final(out)@ == old(out)@ + pad_right(s@, width as nat),
{
    let n = s.unicode_len();
    out.append(s);
    let mut k = n;
    while k < width
        invariant
            n == s@.len(),
            n <= k <= width || (k == n && n >= width),
            out@ == old(out)@ + s@ + spaces((k - n) as nat),
        decreases width - k,
    {
        push_char(out, ' ');
        k += 1;
        assert(spaces((k - n) as nat) =~= spaces((k - 1 - n) as nat).push(' '));
    }
    assert(pad_right(s@, width as nat) =~= s@ + spaces((k - n) as nat));
}

/// The value of an optional string, or `default` when absent.
pub open spec fn or_default(o: Option<String>, default: Seq<char>) -> Seq<char> {
    match o {
        Some(s) => s@,
        None => default,
    }
}

fn str_or<'a>(o: &'a Option<String>, default: &'a str) -> (r: &'a str)
    ensures
        r@ == or_default(*o, default@),
{
    match o {
        Some(s) => s.as_str(),
        None => default,
    }
}

/// The strings of `items` joined by `sep`.
pub open spec fn join(items: Seq<Seq<char>>, sep: Seq<char>) -> Seq<char>
    decreases items.len(),
{
    if items.len() == 0 {
        Seq::empty()
    } else if items.len() == 1 {
        items[0]
    } else {
        join(items.drop_last(), sep) + sep + items.last()
    }
}

pub open spec fn string_views(v: Seq<String>) -> Seq<Seq<char>> {
    v.map_values(|s: String| s@)
}

/// Appends the strings of `items` joined by `sep`.
pub fn push_joined(out: &mut String, items: &Vec<String>, sep: &str)
    ensures
        final(out)@ == old(out)@ + join(string_views(items@), sep@),
{
    let ghost all = string_views(items@);
    let mut i: usize = 0;
    while i < items.len()
        invariant
            0 <= i <= items.len(),
            all == string_views(items@),
            out@ == old(out)@ + join(all.take(i as int), sep@),
        decreases items.len() - i,
    {
        proof {
            assert(all.take(i + 1).drop_last() =~= all.take(i as int));
            assert(all.take(i + 1).last() == items@[i as int]@);
        }
        if i > 0 {
            out.append(sep);
        } else {
            assert(all.take(0) =~= Seq::<Seq<char>>::empty());
        }
        out.append(items[i].as_str());
        i += 1;
    }
    assert(all.take(items.len() as int) =~= all);
}

/// Index of the first line feed in `s`, or -1.
pub open spec fn newline_index(s: Seq<char>) -> int
    decreases s.len(),
{
    if s.len() == 0 {
        -1
    } else if s[0] == '\n' {
        0
    } else {
        let k = newline_index(s.drop_first());
        if k < 0 {
            -1
        } else {
            k + 1
        }
    }
}

pub proof fn lemma_newline_index_bounds(s: Seq<char>)
    ensures
        -1 <= newline_index(s) < s.len(),
        newline_index(s) >= 0 ==> s[newline_index(s)] == '\n',
        forall|m: int| 0 <= m < s.len() && (newline_index(s) < 0 || m < newline_index(s)) ==> s[m] != '\n',
    decreases s.len(),
{
    if s.len() > 0 && s[0] != '\n' {
        let t = s.drop_first();
        lemma_newline_index_bounds(t);
        assert forall|m: int| 0 <= m < s.len() && (newline_index(s) < 0 || m < newline_index(s)) implies s[m] != '\n' by {
            if m > 0 {
                assert(s[m] == t[m - 1]);
            }
        }
    }
}

/// A line with the carriage return of a `\r\n` ending removed.
pub open spec fn strip_cr(line: Seq<char>) -> Seq<char> {
    if line.len() > 0 && line.last() == '\r' {
        line.drop_last()
    } else {
        line
    }
}

/// Each line of `s` indented by four spaces and ended with a line feed. Lines
/// are split as `str::lines` splits them: at each `\n`, with the `\r` of a
/// `\r\n` ending removed; a final line without `\n` is kept as it is, and a
/// `\r` not followed by `\n` stays in its line.
pub open spec fn indented_lines(s: Seq<char>) -> Seq<char>
    decreases s.len(),
{
    if s.len() == 0 {
        Seq::empty()
    } else {
        let k = newline_index(s);
        proof {
            lemma_newline_index_bounds(s);
        }
        if k < 0 {
            "    "@ + s + "\n"@
        } else {
            "    "@ + strip_cr(s.take(k)) + "\n"@ + indented_lines(s.skip(k + 1))
        }
    }
}

proof fn lemma_newline_index_at(s: Seq<char>, k: int)
    requires
        -1 <= k < s.len(),
        forall|m: int| 0 <= m < s.len() && (k < 0 || m < k) ==> #[trigger] s[m] != '\n',
        k >= 0 ==> s[k] == '\n',
    ensures
        newline_index(s) == k,
    decreases s.len(),
{
    if s.len() > 0 && k != 0 {
        let t = s.drop_first();
        assert(s[0] != '\n');
        assert forall|m: int| 0 <= m < t.len() && (k - 1 < 0 || m < k - 1) implies #[trigger] t[m] != '\n' by {
            assert(t[m] == s[m + 1]);
        }
        if k > 0 {
            lemma_newline_index_at(t, k - 1);
        } else {
            lemma_newline_index_at(t, -1);
        }
    }
}

/// Appends the line `v[lo..hi]`; when a `\n` ended it, without the `\r`
/// of a `\r\n` ending.
fn push_line_range(out: &mut String, v: &Vec<char>, lo: usize, hi: usize, ended_by_newline: bool)
    requires
        lo <= hi <= v.len(),
    ensures
        final(out)@ == old(out)@ + if ended_by_newline {
            strip_cr(v@.subrange(lo as int, hi as int))
        } else {
            v@.subrange(lo as int, hi as int)
        },
{
    let end = if ended_by_newline && hi > lo && v[hi - 1] == '\r' { hi - 1 } else { hi };
    let piece = crate::text::string_of_range(v, lo, end);
    out.append(piece.as_str());
    assert(ended_by_newline ==> strip_cr(v@.subrange(lo as int, hi as int)) =~= v@.subrange(
        lo as int,
        end as int,
    ));
}

/// Appends the lines of `v[lo..hi]`, each indented by four spaces.
pub fn push_indented_lines(out: &mut String, v: &Vec<char>, lo: usize, hi: usize)
    requires
        lo <= hi <= v.len(),
    ensures
        final(out)@ == old(out)@ + indented_lines(v@.subrange(lo as int, hi as int)),
{
    let mut pos = lo;
    loop
        invariant
            lo <= pos <= hi <= v.len(),
            old(out)@ + indented_lines(v@.subrange(lo as int, hi as int)) == out@ + indented_lines(
                v@.subrange(pos as int, hi as int),
            ),
        decreases hi - pos,
    {
        let ghost s = v@.subrange(pos as int, hi as int);
        if pos == hi {
            assert(out@ + indented_lines(s) =~= out@);
            return;
        }
        let mut j = pos;
        while j < hi && v[j] != '\n'
            invariant
                pos <= j <= hi <= v.len(),
                forall|m: int| pos <= m < j ==> #[trigger] v@[m] != '\n',
            decreases hi - j,
        {
            j += 1;
        }
        let ghost k: int = if j == hi { -1 } else { j - pos };
        proof {
            assert forall|m: int| 0 <= m < s.len() && (k < 0 || m < k) implies #[trigger] s[m] != '\n' by {
                assert(s[m] == v@[pos + m]);
            }
            lemma_newline_index_at(s, k);
        }
        let ghost before = out@;
        out.append("    ");
        push_line_range(out, v, pos, j, j < hi);
        out.append("\n");
        if j == hi {
            assert(s.take(j - pos) =~= s);
            assert(v@.subrange(pos as int, j as int) =~= s);
            assert(out@ =~= before + indented_lines(s));
            assert(indented_lines(v@.subrange(hi as int, hi as int)) =~= Seq::<char>::empty());
            assert(out@ + indented_lines(v@.subrange(hi as int, hi as int)) =~= out@);
            pos = hi;
        } else {
            assert(v@.subrange(pos as int, j as int) =~= s.take(k));
            assert(s.skip(k + 1) =~= v@.subrange(j + 1, hi as int));
            assert(before + indented_lines(s) =~= out@ + indented_lines(v@.subrange(j + 1, hi as int)));
            pos = j + 1;
        }
    }
}

/// Keeps the first `max` characters of `s`: longer text is cut to `max - 1`
/// characters and ended with `…`.
pub open spec fn truncated(s: Seq<char>, max: nat) -> Seq<char> {
    if s.len() <= max {
        s
    } else {
        s.take(if max == 0 { 0 } else { max - 1 }) + seq!['…']
    }
}

/// Keeps the first `max` characters of `s`, marking a cut with `…`.
pub fn truncate(s: &str, max: usize) -> (r: String)
    ensures
        r@ == truncated(s@, max as nat),
{
    let v = chars_of(s);
    if v.len() <= max {
        crate::text::owned(s)
    } else {
        let keep = if max == 0 { 0 } else { max - 1 };
        let mut out = crate::text::string_of_range(&v, 0, keep);
        push_char(&mut out, '…');
        out
    }
}

/// A cut text is never longer than the limit, and starts as the original does.
pub proof fn law_truncated_fits(s: Seq<char>, max: nat)
    requires
        max >= 1,
    ensures
        truncated(s, max).len() <= max,
        s.len() <= max ==> truncated(s, max) == s,
        s.len() > max ==> truncated(s, max).take(max - 1) == s.take(max - 1),
{
    if s.len() > max {
        assert(truncated(s, max).take(max - 1) =~= s.take(max - 1));
    }
}

// ---------------------------------------------------------------------------
// Records
// ---------------------------------------------------------------------------

/// The description as shown: trimmed, and absent when empty.
pub open spec fn shown_description(t: Ticket) -> Option<Seq<char>> {
    match t.description {
        Some(d) => if trim(d@).len() > 0 {
            Some(trim(d@))
        } else {
            None
        },
        None => None,
    }
}

/// A line shown only when the value is present.
pub open spec fn opt_line(label: Seq<char>, value: Option<Seq<char>>) -> Seq<char> {
    match value {
        Some(v) => label + v + "\n"@,
        None => Seq::empty(),
    }
}

pub open spec fn opt_decimal(value: Option<i64>) -> Option<Seq<char>> {
    match value {
        Some(n) => Some(decimal(n as int)),
        None => None,
    }
}

/// The human-readable view of one ticket.
pub open spec fn ticket_text(t: Ticket) -> Seq<char> {
    "Ticket #"@ + decimal(t.id as int) + "\n"@
        + opt_line("  Subject : "@, opt_chars(t.subject))
        + "  Status  : "@ + or_default(t.status, "-"@) + "\n"@
        + "  Priority: "@ + or_default(t.priority, "-"@) + "\n"@
        + opt_line("  Requester: "@, opt_decimal(t.requester_id))
        + opt_line("  Assignee : "@, opt_decimal(t.assignee_id))
        + (if t.tags@.len() > 0 {
            "  Tags    : "@ + join(string_views(t.tags@), ", "@) + "\n"@
        } else {
            Seq::empty()
        })
        + opt_line("  Created : "@, opt_chars(t.created_at))
        + opt_line("  Updated : "@, opt_chars(t.updated_at))
        + match shown_description(t) {
            Some(d) => "\n  Description:\n"@ + indented_lines(d),
            None => Seq::empty(),
        }
}

fn push_opt_line(out: &mut String, label: &str, value: &Option<String>)
    ensures
        final(out)@ == old(out)@ + opt_line(label@, opt_chars(*value)),
{
    if let Some(v) = value {
        out.append(label);
        out.append(v.as_str());
        out.append("\n");
    }
}

fn push_opt_decimal_line(out: &mut String, label: &str, value: Option<i64>)
    ensures
        final(out)@ == old(out)@ + opt_line(label@, opt_decimal(value)),
{
    if let Some(n) = value {
        out.append(label);
        push_decimal(out, n);
        out.append("\n");
    }
}

/// The human-readable view of one ticket.
pub fn ticket_human(t: &Ticket) -> (r: String)
    ensures
        r@ == ticket_text(*t),
{
    let mut out = crate::text::owned("Ticket #");
    push_decimal(&mut out, t.id);
    out.append("\n");
    let ghost a = out@;
    push_opt_line(&mut out, "  Subject : ", &t.subject);
    out.append("  Status  : ");
    out.append(str_or(&t.status, "-"));
    out.append("\n");
    out.append("  Priority: ");
    out.append(str_or(&t.priority, "-"));
    out.append("\n");
    push_opt_decimal_line(&mut out, "  Requester: ", t.requester_id);
    push_opt_decimal_line(&mut out, "  Assignee : ", t.assignee_id);
    let ghost b = out@;
    if t.tags.len() > 0 {
        out.append("  Tags    : ");
        push_joined(&mut out, &t.tags, ", ");
        out.append("\n");
    }
    let ghost c = out@;
    push_opt_line(&mut out, "  Created : ", &t.created_at);
    push_opt_line(&mut out, "  Updated : ", &t.updated_at);
    let ghost d = out@;
    if let Some(desc) = &t.description {
        let v = chars_of(desc.as_str());
        let (lo, hi) = trim_bounds(&v, 0, v.len());
        assert(v@.subrange(0, v@.len() as int) =~= v@);
        if lo < hi {
            out.append("\n  Description:\n");
            push_indented_lines(&mut out, &v, lo, hi);
        }
    }
    assert(out@ =~= ticket_text(*t));
    out
}

/// One row of the tickets table.
pub open spec fn ticket_row(t: Ticket) -> Seq<char> {
    pad_right(decimal(t.id as int), 8) + "  "@ + pad_right(or_default(t.status, "-"@), 10) + "  "@
        + pad_right(or_default(t.priority, "-"@), 8) + "  "@ + truncated(or_default(t.subject, ""@), 60)
        + "\n"@
}

pub open spec fn ticket_rows(ts: Seq<Ticket>) -> Seq<char>
    decreases ts.len(),
{
    if ts.len() == 0 {
        Seq::empty()
    } else {
        ticket_rows(ts.drop_last()) + ticket_row(ts.last())
    }
}

/// The human-readable table of tickets.
pub open spec fn tickets_text(ts: Seq<Ticket>) -> Seq<char> {
    if ts.len() == 0 {
        "(no tickets)\n"@
    } else {
        "ID        STATUS      PRIORITY  SUBJECT\n"@ + ticket_rows(ts)
    }
}

/// The human-readable table of tickets.
pub fn tickets_table(tickets: &[Ticket]) -> (r: String)
    ensures
        r@ == tickets_text(tickets@),
{
    proof {
        reveal_strlit("(no tickets)\n");
        reveal_strlit("ID        STATUS      PRIORITY  SUBJECT\n");
    }
    if tickets.len() == 0 {
        return crate::text::owned("(no tickets)\n");
    }
    let mut out = crate::text::owned("ID        STATUS      PRIORITY  SUBJECT\n");
    let ghost head = out@;
    let mut i: usize = 0;
    while i < tickets.len()
        invariant
            0 <= i <= tickets@.len(),
            out@ == head + ticket_rows(tickets@.take(i as int)),
        decreases tickets.len() - i,
    {
        let t = &tickets[i];
        let ghost before = out@;
        let id = crate::text::decimal_string(t.id);
        push_padded(&mut out, id.as_str(), 8);
        out.append("  ");
        push_padded(&mut out, str_or(&t.status, "-"), 10);
        out.append("  ");
        push_padded(&mut out, str_or(&t.priority, "-"), 8);
        out.append("  ");
        let subject = truncate(str_or(&t.subject, ""), 60);
        out.append(subject.as_str());
        out.append("\n");
        proof {
            assert(tickets@.take(i + 1).drop_last() =~= tickets@.take(i as int));
            assert(out@ =~= before + ticket_row(tickets@[i as int]));
        }
        i += 1;
    }
    assert(tickets@.take(tickets@.len() as int) =~= tickets@);
    out
}

pub open spec fn view_rows(vs: Seq<crate::models::View>) -> Seq<char>
    decreases vs.len(),
{
    if vs.len() == 0 {
        Seq::empty()
    } else {
        view_rows(vs.drop_last()) + pad_right(decimal(vs.last().id as int), 16) + "  "@
            + or_default(vs.last().title, "-"@) + "\n"@
    }
}

/// The human-readable table of views.
pub open spec fn views_text(vs: Seq<crate::models::View>) -> Seq<char> {
    if vs.len() == 0 {
        "(no views)\n"@
    } else {
        "ID                TITLE\n"@ + view_rows(vs)
    }
}

/// The human-readable table of views.
pub fn views_table(views: &[crate::models::View]) -> (r: String)
    ensures
        r@ == views_text(views@),
{
    proof {
        reveal_strlit("(no views)\n");
        reveal_strlit("ID                TITLE\n");
    }
    if views.len() == 0 {
        return crate::text::owned("(no views)\n");
    }
    let mut out = crate::text::owned("ID                TITLE\n");
    let ghost head = out@;
    let mut i: usize = 0;
    while i < views.len()
        invariant
            0 <= i <= views@.len(),
            out@ == head + view_rows(views@.take(i as int)),
        decreases views.len() - i,
    {
        let v = &views[i];
        let ghost before = out@;
        let id = crate::text::decimal_string(v.id);
        push_padded(&mut out, id.as_str(), 16);
        out.append("  ");
        out.append(str_or(&v.title, "-"));
        out.append("\n");
        proof {
            assert(views@.take(i + 1).drop_last() =~= views@.take(i as int));
        }
        assert(out@ =~= head + view_rows(views@.take(i + 1)));
        i += 1;
    }
    assert(views@.take(views@.len() as int) =~= views@);
    out
}

/// One comment as shown: a header line with its visibility, id, author and
/// time, its body's lines indented, and a blank line.
pub open spec fn comment_text(c: Comment) -> Seq<char> {
    "["@ + (if c.public { "PUBLIC "@ } else { "INTERNAL"@ }) + "] #"@ + decimal(c.id as int)
        + "  author="@ + match c.author_id {
        Some(a) => decimal(a as int),
        None => "?"@,
    } + "  "@ + or_default(c.created_at, ""@) + "\n"@ + match c.body {
        Some(b) => indented_lines(b@),
        None => Seq::empty(),
    } + "\n"@
}

pub open spec fn comments_body(cs: Seq<Comment>) -> Seq<char>
    decreases cs.len(),
{
    if cs.len() == 0 {
        Seq::empty()
    } else {
        comments_body(cs.drop_last()) + comment_text(cs.last())
    }
}

/// The human-readable list of a ticket's comments, each labelled PUBLIC or INTERNAL.
pub open spec fn comments_text(ticket_id: i64, cs: Seq<Comment>) -> Seq<char> {
    "Ticket #"@ + decimal(ticket_id as int) + " — "@ + nat_digits(cs.len()) + " comment(s)\n\n"@
        + comments_body(cs)
}

fn push_comment(out: &mut String, c: &Comment)
    ensures
        final(out)@ == old(out)@ + comment_text(*c),
{
    let ghost before = out@;
    out.append("[");
    out.append(if c.public { "PUBLIC " } else { "INTERNAL" });
    out.append("] #");
    push_decimal(out, c.id);
    out.append("  author=");
    match c.author_id {
        Some(a) => push_decimal(out, a),
        None => out.append("?"),
    }
    out.append("  ");
    out.append(str_or(&c.created_at, ""));
    out.append("\n");
    if let Some(body) = &c.body {
        let v = chars_of(body.as_str());
        push_indented_lines(out, &v, 0, v.len());
        assert(v@.subrange(0, v@.len() as int) =~= body@);
    }
    out.append("\n");
    assert(out@ =~= before + comment_text(*c));
}

/// The human-readable list of a ticket's comments, each labelled PUBLIC or INTERNAL.
pub fn comments_human(ticket_id: i64, comments: &[Comment]) -> (r: String)
    ensures
        r@ == comments_text(ticket_id, comments@),
{
    let mut out = crate::text::owned("Ticket #");
    push_decimal(&mut out, ticket_id);
    out.append(" — ");
    push_count(&mut out, comments.len());
    out.append(" comment(s)\n\n");
    let ghost head = out@;
    let mut i: usize = 0;
    while i < comments.len()
        invariant
            0 <= i <= comments@.len(),
            out@ == head + comments_body(comments@.take(i as int)),
        decreases comments.len() - i,
    {
        let ghost before = out@;
        push_comment(&mut out, &comments[i]);
        proof {
            assert(comments@.take(i + 1).drop_last() =~= comments@.take(i as int));
        }
        i += 1;
    }
    assert(comments@.take(comments@.len() as int) =~= comments@);
    out
}

/// The human-readable identity of the authenticated user.
pub open spec fn user_text(u: User) -> Seq<char> {
    "Authenticated as:\n"@ + "  id   : "@ + decimal(u.id as int) + "\n"@ + "  name : "@ + or_default(
        u.name,
        "-"@,
    ) + "\n"@ + "  email: "@ + or_default(u.email, "-"@) + "\n"@ + "  role : "@ + or_default(
        u.role,
        "-"@,
    ) + "\n"@
}

/// The human-readable identity of the authenticated user.
pub fn user_human(u: &User) -> (r: String)
    ensures
        r@ == user_text(*u),
{
    let mut out = crate::text::owned("Authenticated as:\n");
    out.append("  id   : ");
    push_decimal(&mut out, u.id);
    out.append("\n");
    out.append("  name : ");
    out.append(str_or(&u.name, "-"));
    out.append("\n");
    out.append("  email: ");
    out.append(str_or(&u.email, "-"));
    out.append("\n");
    out.append("  role : ");
    out.append(str_or(&u.role, "-"));
    out.append("\n");
    out
}


/// Two tickets that differ only in their assignee.
pub open spec fn same_but_assignee(t: Ticket, u: Ticket) -> bool {
    &&& t.id == u.id
    &&& t.subject == u.subject
    &&& t.description == u.description
    &&& t.status == u.status
    &&& t.priority == u.priority
    &&& t.requester_id == u.requester_id
    &&& t.tags == u.tags
    &&& t.created_at == u.created_at
    &&& t.updated_at == u.updated_at
    &&& t.url == u.url
}

/// Two tickets that differ only in their requester.
pub open spec fn same_but_requester(t: Ticket, u: Ticket) -> bool {
    &&& t.id == u.id
    &&& t.subject == u.subject
    &&& t.description == u.description
    &&& t.status == u.status
    &&& t.priority == u.priority
    &&& t.assignee_id == u.assignee_id
    &&& t.tags == u.tags
    &&& t.created_at == u.created_at
    &&& t.updated_at == u.updated_at
    &&& t.url == u.url
}

/// A ticket with an assignee shows exactly one more line than the same ticket
/// without one: `  Assignee : ` and the assignee's ID.
pub proof fn law_assignee_line(t: Ticket, u: Ticket, a: i64)
    requires
        same_but_assignee(t, u),
        t.assignee_id == Some(a),
        u.assignee_id is None,
    ensures
        exists|p: Seq<char>, q: Seq<char>|
            ticket_text(t) == p + ("  Assignee : "@ + decimal(a as int) + "\n"@) + q && ticket_text(u)
                == p + q,
{
    let p = "Ticket #"@ + decimal(t.id as int) + "\n"@ + opt_line("  Subject : "@, opt_chars(t.subject))
        + "  Status  : "@ + or_default(t.status, "-"@) + "\n"@ + "  Priority: "@ + or_default(
        t.priority,
        "-"@,
    ) + "\n"@ + opt_line("  Requester: "@, opt_decimal(t.requester_id));
    let q = (if t.tags@.len() > 0 {
        "  Tags    : "@ + join(string_views(t.tags@), ", "@) + "\n"@
    } else {
        Seq::empty()
    }) + opt_line("  Created : "@, opt_chars(t.created_at)) + opt_line(
        "  Updated : "@,
        opt_chars(t.updated_at),
    ) + match shown_description(t) {
        Some(d) => "\n  Description:\n"@ + indented_lines(d),
        None => Seq::empty(),
    };
    assert(shown_description(t) == shown_description(u));
    assert(ticket_text(t) =~= p + ("  Assignee : "@ + decimal(a as int) + "\n"@) + q);
    assert(opt_line("  Assignee : "@, opt_decimal(u.assignee_id)) =~= Seq::<char>::empty());
    assert(ticket_text(u) =~= p + q);
}

/// A ticket with a requester shows exactly one more line than the same
/// ticket without one: `  Requester: ` and the requester's ID.
#[verifier::rlimit(50)]
pub proof fn law_requester_line(t: Ticket, u: Ticket, r: i64)
    requires
        same_but_requester(t, u),
        t.requester_id == Some(r),
        u.requester_id is None,
    ensures
        exists|p: Seq<char>, q: Seq<char>|
            ticket_text(t) == p + ("  Requester: "@ + decimal(r as int) + "\n"@) + q && ticket_text(u)
                == p + q,
{
    let p = "Ticket #"@ + decimal(t.id as int) + "\n"@ + opt_line("  Subject : "@, opt_chars(t.subject))
        + "  Status  : "@ + or_default(t.status, "-"@) + "\n"@ + "  Priority: "@ + or_default(
        t.priority,
        "-"@,
    ) + "\n"@;
    let q = opt_line("  Assignee : "@, opt_decimal(t.assignee_id)) + (if t.tags@.len() > 0 {
        "  Tags    : "@ + join(string_views(t.tags@), ", "@) + "\n"@
    } else {
        Seq::empty()
    }) + opt_line("  Created : "@, opt_chars(t.created_at)) + opt_line(
        "  Updated : "@,
        opt_chars(t.updated_at),
    ) + match shown_description(t) {
        Some(d) => "\n  Description:\n"@ + indented_lines(d),
        None => Seq::empty(),
    };
    assert(shown_description(t) == shown_description(u));
    assert(ticket_text(t) =~= p + ("  Requester: "@ + decimal(r as int) + "\n"@) + q);
    assert(opt_line("  Requester: "@, opt_decimal(u.requester_id)) =~= Seq::<char>::empty());
    assert(ticket_text(u) =~= p + q);
}

} // verus!
