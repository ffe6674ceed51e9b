//! Resource IDs given either as a bare number or as a Zendesk URL.
//!
//! The agent interface uses URLs like:
//!   - ticket:  `https://acme.zendesk.com/agent/tickets/1162117`
//!   - view:    `https://acme.zendesk.com/agent/filters/1500014631401`
//!   - user:    `https://acme.zendesk.com/agent/users/12345`
//!
//! The ID is the last numeric path segment of such a URL; bare numeric input
//! is accepted as-is, so `1162117` and the full URL are interchangeable.
use vstd::prelude::*;
use vstd::string::*;
use crate::text::{
    all_digits, chars_of, decimal, digits_value, is_digit, is_ws, lemma_digits_value_prefix,
    lemma_nat_digits, lemma_trim_end_at, lemma_trim_start_at, nat_digits, string_of_range, trim,
    trim_bounds, trim_end, trim_start,
};

verus! {

// ---------------------------------------------------------------------------
// Specification
// ---------------------------------------------------------------------------

/// The integer that `s` spells in `i64`'s `FromStr` grammar: an optional
/// `+` or `-` followed by one or more ASCII digits, nothing else.
pub open spec fn int_text_value(s: Seq<char>) -> Option<int> {
    if s.len() == 0 {
        None
    } else if s[0] == '+' || s[0] == '-' {
        let d = s.drop_first();
        if d.len() > 0 && all_digits(d) {
            Some(if s[0] == '-' { -digits_value(d) } else { digits_value(d) })
        } else {
            None
        }
    } else if all_digits(s) {
        Some(digits_value(s))
    } else {
        None
    }
}

/// What `s.parse::<i64>()` gives: the value, when the text is well formed and
/// the value fits in an `i64`.
pub open spec fn parse_i64(s: Seq<char>) -> Option<i64> {
    match int_text_value(s) {
        Some(v) => if i64::MIN <= v <= i64::MAX {
            Some(v as i64)
        } else {
            None
        },
        None => None,
    }
}

pub open spec fn is_query_start(c: char) -> bool {
    c == '?' || c == '#'
}

/// Index of the first `?` or `#` in `s`, or its length when there is none.
pub open spec fn query_cut(s: Seq<char>) -> nat
    decreases s.len(),
{
    if s.len() == 0 {
        0
    } else if is_query_start(s[0]) {
        0
    } else {
        1 + query_cut(s.drop_first())
    }
}

/// `s` without any query string or fragment.
pub open spec fn path_part(s: Seq<char>) -> Seq<char> {
    s.take(query_cut(s) as int)
}

/// Index of the last `/` in `p`, or -1 when there is none.
pub open spec fn last_slash(p: Seq<char>) -> int
    decreases p.len(),
{
    if p.len() == 0 {
        -1
    } else if p.last() == '/' {
        p.len() - 1
    } else {
        last_slash(p.drop_last())
    }
}

pub proof fn lemma_last_slash_bounds(p: Seq<char>)
    ensures
        -1 <= last_slash(p) < p.len(),
        last_slash(p) >= 0 ==> p[last_slash(p)] == '/',
    decreases p.len(),
{
    if p.len() > 0 && p.last() != '/' {
        lemma_last_slash_bounds(p.drop_last());
    }
}

/// The value of the last `/`-separated segment of `p` that parses as an
/// `i64`, searching from the end.
pub open spec fn last_numeric_segment(p: Seq<char>) -> Option<i64>
    decreases p.len(),
{
    let k = last_slash(p);
    proof {
        lemma_last_slash_bounds(p);
    }
    let seg = p.subrange(k + 1, p.len() as int);
    if parse_i64(seg) is Some {
        parse_i64(seg)
    } else if k < 0 {
        None
    } else {
        last_numeric_segment(p.take(k))
    }
}

/// The ID that `input` denotes: after trimming whitespace, the number itself,
/// or else the last numeric path segment once any query or fragment is dropped.
pub open spec fn id_of(input: Seq<char>) -> Option<i64> {
    let t = trim(input);
    if parse_i64(t) is Some {
        parse_i64(t)
    } else {
        last_numeric_segment(path_part(t))
    }
}

/// The error text for input that denotes no ID.
pub open spec fn not_an_id_message(input: Seq<char>) -> Seq<char> {
    "'"@ + input
        + "' is not a numeric ID or a recognizable Zendesk URL (e.g. https://<subdomain>.zendesk.com/agent/tickets/12345)"@
}

// ---------------------------------------------------------------------------
// Implementation
// ---------------------------------------------------------------------------

const I64_MAGNITUDE_LIMIT: u128 = 9223372036854775808u128;

/// `s.parse::<i64>()` on the characters `v[lo..hi]`.
pub fn parse_i64_range(v: &Vec<char>, lo: usize, hi: usize) -> (r: Option<i64>)
    requires
        lo <= hi <= v.len(),
    ensures
        r == parse_i64(v@.subrange(lo as int, hi as int)),
{
    let ghost s = v@.subrange(lo as int, hi as int);
    if lo == hi {
        return None;
    }
    let negative = v[lo] == '-';
    let signed = v[lo] == '+' || negative;
    let start = if signed { lo + 1 } else { lo };
    let ghost d = v@.subrange(start as int, hi as int);
    assert(signed ==> d =~= s.drop_first());
    assert(!signed ==> d =~= s);
    if start == hi {
        return None;
    }
    let mut acc: u128 = 0;
    let mut k = start;
    while k < hi
        invariant
            lo <= start <= k <= hi <= v.len(),
            start < hi,
            s == v@.subrange(lo as int, hi as int),
            d == v@.subrange(start as int, hi as int),
            signed ==> d == s.drop_first(),
            !signed ==> d == s,
            signed == (s[0] == '+' || s[0] == '-'),
            negative == (s[0] == '-'),
            all_digits(v@.subrange(start as int, k as int)),
            acc == digits_value(v@.subrange(start as int, k as int)),
            acc <= I64_MAGNITUDE_LIMIT,
        decreases hi - k,
    {
        let c = v[k];
        if !('0' <= c && c <= '9') {
            assert(!is_digit(d[k - start]));
            return None;
        }
        let ghost prev = v@.subrange(start as int, k as int);
        let digit = (c as u32 - '0' as u32) as u128;
        acc = acc * 10 + digit;
        k += 1;
        let ghost cur = v@.subrange(start as int, k as int);
        assert(cur.drop_last() =~= prev);
        assert(all_digits(cur)) by {
            assert forall|i: int| 0 <= i < cur.len() implies is_digit(#[trigger] cur[i]) by {
                if i < prev.len() {
                    assert(cur[i] == prev[i]);
                }
            }
        }
        if acc > I64_MAGNITUDE_LIMIT {
            proof {
                if all_digits(d) {
                    lemma_digits_value_prefix(d, k - start);
                    assert(d.take(k - start) =~= cur);
                }
            }
            return None;
        }
    }
    assert(v@.subrange(start as int, k as int) =~= d);
    if negative {
        let mag = acc as i128;
        Some((0i128 - mag) as i64)
    } else if acc <= 9223372036854775807u128 {
        Some(acc as i64)
    } else {
        None
    }
}

/// Index of the first `?` or `#` in `v`, or `v.len()`.
fn find_query_cut(v: &Vec<char>) -> (cut: usize)
    ensures
        cut == query_cut(v@),
        cut <= v.len(),
{
    let mut i: usize = 0;
    while i < v.len() && v[i] != '?' && v[i] != '#'
        invariant
            0 <= i <= v.len(),
            forall|k: int| 0 <= k < i ==> !is_query_start(#[trigger] v@[k]),
        decreases v.len() - i,
    {
        i += 1;
    }
    proof {
        lemma_query_cut_at(v@, i as int);
    }
    i
}

proof fn lemma_query_cut_at(s: Seq<char>, i: int)
    requires
        0 <= i <= s.len(),
        forall|k: int| 0 <= k < i ==> !is_query_start(#[trigger] s[k]),
        i == s.len() || is_query_start(s[i]),
    ensures
        query_cut(s) == i,
    decreases i,
{
    if i > 0 {
        let t = s.drop_first();
        assert forall|k: int| 0 <= k < i - 1 implies !is_query_start(#[trigger] t[k]) by {
            assert(t[k] == s[k + 1]);
        }
        lemma_query_cut_at(t, i - 1);
    }
}

proof fn lemma_last_slash_at(p: Seq<char>, k: int)
    requires
        -1 <= k < p.len(),
        forall|m: int| k < m < p.len() ==> #[trigger] p[m] != '/',
        k == -1 || p[k] == '/',
    ensures
        last_slash(p) == k,
    decreases p.len(),
{
    if p.len() > 0 && p.len() - 1 != k {
        let t = p.drop_last();
        assert forall|m: int| k < m < t.len() implies #[trigger] t[m] != '/' by {
            assert(t[m] == p[m]);
        }
        lemma_last_slash_at(t, k);
    }
}

/// The last numeric `/`-separated segment of `v[lo..hi]`.
fn last_numeric_segment_range(v: &Vec<char>, lo: usize, hi: usize) -> (r: Option<i64>)
    requires
        lo <= hi <= v.len(),
    ensures
        r == last_numeric_segment(v@.subrange(lo as int, hi as int)),
{
    let mut end = hi;
    loop
        invariant
            lo <= end <= hi <= v.len(),
            last_numeric_segment(v@.subrange(lo as int, hi as int)) == last_numeric_segment(
                v@.subrange(lo as int, end as int),
            ),
        decreases end,
    {
        let ghost p = v@.subrange(lo as int, end as int);
        let mut j = end;
        while j > lo && v[j - 1] != '/'
            invariant
                lo <= j <= end <= v.len(),
                forall|m: int| j <= m < end ==> #[trigger] v@[m] != '/',
            decreases j,
        {
            j -= 1;
        }
        proof {
            let k = j - lo - 1;
            assert forall|m: int| k < m < p.len() implies #[trigger] p[m] != '/' by {
                assert(p[m] == v@[lo + m]);
            }
            lemma_last_slash_at(p, k);
            assert(p.subrange(k + 1, p.len() as int) =~= v@.subrange(j as int, end as int));
        }
        let r = parse_i64_range(v, j, end);
        if r.is_some() {
            return r;
        }
        if j == lo {
            return None;
        }
        proof {
            assert(p.take(j - lo - 1) =~= v@.subrange(lo as int, j - 1));
        }
        end = j - 1;
    }
}

/// Accept a numeric ID or a Zendesk URL and return the ID.
pub fn parse_id(input: &str) -> (r: Result<i64, String>)
    ensures
        match id_of(input@) {
            Some(n) => r == Ok::<i64, String>(n),
            None => r is Err && r->Err_0@ == not_an_id_message(input@),
        },
{
    let v = chars_of(input);
    let (a, b) = trim_bounds(&v, 0, v.len());
    assert(v@.subrange(0, v@.len() as int) =~= v@);
    if let Some(n) = parse_i64_range(&v, a, b) {
        return Ok(n);
    }
    let t = string_of_range(&v, a, b);
    let tv = chars_of(t.as_str());
    let cut = find_query_cut(&tv);
    assert(tv@.subrange(0, cut as int) =~= path_part(tv@));
    if let Some(n) = last_numeric_segment_range(&tv, 0, cut) {
        return Ok(n);
    }
    let mut msg = String::new();
    msg.append("'");
    msg.append(input);
    msg.append(
        "' is not a numeric ID or a recognizable Zendesk URL (e.g. https://<subdomain>.zendesk.com/agent/tickets/12345)",
    );
    Err(msg)
}

// ---------------------------------------------------------------------------
// Laws: IDs and URLs are interchangeable.
// ---------------------------------------------------------------------------

/// The decimal text of every `i64` parses back to it.
pub proof fn law_decimal_parses_back(n: i64)
    ensures
        parse_i64(decimal(n as int)) == Some(n),
{
    let m: nat = if n < 0 { (-n) as nat } else { n as nat };
    lemma_nat_digits(m);
    let d = nat_digits(m);
    let s = decimal(n as int);
    if n < 0 {
        assert(s.drop_first() =~= d);
        assert(s[0] == '-');
    } else {
        assert(s =~= d);
        assert(is_digit(s[0]));
    }
}

/// A text with no whitespace at either end is unchanged by trimming.
pub proof fn lemma_trim_noop(s: Seq<char>)
    requires
        s.len() == 0 || (!is_ws(s[0]) && !is_ws(s.last())),
    ensures
        trim(s) == s,
{
    lemma_trim_start_at(s, 0);
    assert(s.skip(0) =~= s);
    lemma_trim_end_at(s, s.len() as int);
    assert(s.take(s.len() as int) =~= s);
}

/// A bare number is its own ID: `id_of` of the decimal text of `n` is `n`.
pub proof fn law_bare_number_is_its_id(n: i64)
    ensures
        id_of(decimal(n as int)) == Some(n),
{
    let s = decimal(n as int);
    let m: nat = if n < 0 { (-n) as nat } else { n as nat };
    lemma_nat_digits(m);
    let d = nat_digits(m);
    if n < 0 {
        assert(s.last() == d.last());
    } else {
        assert(s == d);
    }
    assert(is_digit(d[0]));
    assert(is_digit(d.last()));
    lemma_trim_noop(s);
    law_decimal_parses_back(n);
}

pub open spec fn all_ws(s: Seq<char>) -> bool {
    forall|i: int| 0 <= i < s.len() ==> is_ws(#[trigger] s[i])
}

proof fn lemma_trim_start_skips_ws(p: Seq<char>, s: Seq<char>)
    requires
        all_ws(p),
    ensures
        trim_start(p + s) == trim_start(s),
    decreases p.len(),
{
    if p.len() > 0 {
        assert((p + s)[0] == p[0]);
        assert((p + s).drop_first() =~= p.drop_first() + s);
        lemma_trim_start_skips_ws(p.drop_first(), s);
    } else {
        assert(p + s =~= s);
    }
}

proof fn lemma_trim_end_skips_ws(s: Seq<char>, q: Seq<char>)
    requires
        all_ws(q),
    ensures
        trim_end(s + q) == trim_end(s),
    decreases q.len(),
{
    if q.len() > 0 {
        assert((s + q).last() == q.last());
        assert((s + q).drop_last() =~= s + q.drop_last());
        lemma_trim_end_skips_ws(s, q.drop_last());
    } else {
        assert(s + q =~= s);
    }
}

proof fn lemma_trim_ignores_trailing_ws(s: Seq<char>, q: Seq<char>)
    requires
        all_ws(q),
    ensures
        trim(s + q) == trim(s),
    decreases s.len(),
{
    if s.len() == 0 {
        assert(s + q =~= q);
        lemma_trim_start_at(q, q.len() as int);
        lemma_trim_start_at(s, 0);
    } else if is_ws(s[0]) {
        assert((s + q)[0] == s[0]);
        assert((s + q).drop_first() =~= s.drop_first() + q);
        lemma_trim_ignores_trailing_ws(s.drop_first(), q);
    } else {
        assert((s + q)[0] == s[0]);
        lemma_trim_end_skips_ws(s, q);
    }
}

/// Whitespace around the input never changes the ID it denotes.
pub proof fn law_surrounding_whitespace_is_ignored(pad: Seq<char>, s: Seq<char>, tail: Seq<char>)
    requires
        all_ws(pad),
        all_ws(tail),
    ensures
        id_of(pad + s + tail) == id_of(s),
{
    lemma_trim_start_skips_ws(pad, s + tail);
    assert(pad + s + tail =~= pad + (s + tail));
    lemma_trim_ignores_trailing_ws(s, tail);
}

/// Text that holds a `/` is never a bare number.
proof fn lemma_slash_is_not_a_number(t: Seq<char>, i: int)
    requires
        0 <= i < t.len(),
        t[i] == '/',
    ensures
        parse_i64(t) is None,
{
    if t[0] == '+' || t[0] == '-' {
        assert(i > 0);
        assert(!is_digit(t.drop_first()[i - 1]));
    } else {
        assert(!is_digit(t[i]));
    }
}

pub open spec fn has_no_query_start(s: Seq<char>) -> bool {
    forall|i: int| 0 <= i < s.len() ==> !is_query_start(#[trigger] s[i])
}

/// A query string or fragment: empty, or starting with `?` or `#`.
pub open spec fn is_query_suffix(q: Seq<char>) -> bool {
    q.len() == 0 || is_query_start(q[0])
}

pub open spec fn no_outer_ws(s: Seq<char>) -> bool {
    s.len() > 0 && !is_ws(s[0]) && !is_ws(s.last())
}

proof fn lemma_path_of_url(path: Seq<char>, query: Seq<char>)
    requires
        has_no_query_start(path),
        is_query_suffix(query),
    ensures
        path_part(path + query) == path,
{
    let u = path + query;
    assert forall|k: int| 0 <= k < path.len() implies !is_query_start(#[trigger] u[k]) by {
        assert(u[k] == path[k]);
    }
    if query.len() > 0 {
        assert(u[path.len() as int] == query[0]);
    }
    lemma_query_cut_at(u, path.len() as int);
    assert(u.take(path.len() as int) =~= path);
}

proof fn lemma_id_segment(prefix: Seq<char>, n: i64)
    ensures
        last_numeric_segment(prefix + "/"@ + decimal(n as int)) == Some(n),
{
    let dec = decimal(n as int);
    let p = prefix + "/"@ + dec;
    reveal_strlit("/");
    law_decimal_parses_back(n);
    let k = prefix.len() as int;
    let m: nat = if n < 0 { (-n) as nat } else { n as nat };
    lemma_nat_digits(m);
    assert forall|j: int| k < j < p.len() implies #[trigger] p[j] != '/' by {
        assert(p[j] == dec[j - k - 1]);
        if n < 0 {
            if j - k - 1 > 0 {
                assert(dec[j - k - 1] == nat_digits(m)[j - k - 2]);
                assert(is_digit(nat_digits(m)[j - k - 2]));
            }
        } else {
            assert(is_digit(nat_digits(m)[j - k - 1]));
        }
    }
    assert(p[k] == '/');
    lemma_last_slash_at(p, k);
    assert(p.subrange(k + 1, p.len() as int) =~= dec);
}

/// A Zendesk URL whose path ends in an ID denotes that ID, whatever query
/// string or fragment follows, e.g. `https://acme.zendesk.com/agent/tickets/123?x=1`.
pub proof fn law_url_ends_in_id(prefix: Seq<char>, n: i64, query: Seq<char>)
    requires
        has_no_query_start(prefix),
        is_query_suffix(query),
        no_outer_ws(prefix + "/"@ + decimal(n as int) + query),
    ensures
        id_of(prefix + "/"@ + decimal(n as int) + query) == Some(n),
{
    reveal_strlit("/");
    let dec = decimal(n as int);
    let path = prefix + "/"@ + dec;
    let u = path + query;
    lemma_trim_noop(u);
    assert(u[prefix.len() as int] == '/');
    lemma_slash_is_not_a_number(u, prefix.len() as int);
    let m: nat = if n < 0 { (-n) as nat } else { n as nat };
    lemma_nat_digits(m);
    assert forall|j: int| 0 <= j < path.len() implies !is_query_start(#[trigger] path[j]) by {
        if j < prefix.len() {
            assert(path[j] == prefix[j]);
        } else if j > prefix.len() {
            let i = j - prefix.len() - 1;
            assert(path[j] == dec[i]);
            if n < 0 && i > 0 {
                assert(is_digit(nat_digits(m)[i - 1]));
            } else if n >= 0 {
                assert(is_digit(nat_digits(m)[i]));
            }
        }
    }
    lemma_path_of_url(path, query);
    lemma_id_segment(prefix, n);
}

/// A Zendesk URL with a non-numeric sub-path after the ID, such as
/// `https://acme.zendesk.com/agent/tickets/123/events?foo=bar`, still denotes the ID.
pub proof fn law_url_subpath_after_id(prefix: Seq<char>, n: i64, sub: Seq<char>, query: Seq<char>)
    requires
        has_no_query_start(prefix),
        has_no_query_start(sub),
        !sub.contains('/'),
        parse_i64(sub) is None,
        is_query_suffix(query),
        no_outer_ws(prefix + "/"@ + decimal(n as int) + "/"@ + sub + query),
    ensures
        id_of(prefix + "/"@ + decimal(n as int) + "/"@ + sub + query) == Some(n),
{
    reveal_strlit("/");
    let dec = decimal(n as int);
    let head = prefix + "/"@ + dec;
    let path = head + "/"@ + sub;
    let u = path + query;
    assert(u =~= prefix + "/"@ + decimal(n as int) + "/"@ + sub + query);
    lemma_trim_noop(u);
    assert(u[prefix.len() as int] == '/');
    lemma_slash_is_not_a_number(u, prefix.len() as int);
    let m: nat = if n < 0 { (-n) as nat } else { n as nat };
    lemma_nat_digits(m);
    assert forall|j: int| 0 <= j < path.len() implies !is_query_start(#[trigger] path[j]) by {
        if j < prefix.len() {
            assert(path[j] == prefix[j]);
        } else if prefix.len() < j < head.len() {
            let i = j - prefix.len() - 1;
            assert(path[j] == dec[i]);
            if n < 0 && i > 0 {
                assert(is_digit(nat_digits(m)[i - 1]));
            } else if n >= 0 {
                assert(is_digit(nat_digits(m)[i]));
            }
        } else if j > head.len() {
            assert(path[j] == sub[j - head.len() - 1]);
        }
    }
    lemma_path_of_url(path, query);
    let k = head.len() as int;
    assert forall|j: int| k < j < path.len() implies #[trigger] path[j] != '/' by {
        assert(path[j] == sub[j - k - 1]);
        if path[j] == '/' {
            assert(sub.contains('/'));
        }
    }
    lemma_last_slash_at(path, k);
    assert(path.subrange(k + 1, path.len() as int) =~= sub);
    assert(path.take(k) =~= head);
    lemma_id_segment(prefix, n);
}

} // verus!
