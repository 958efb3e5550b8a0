//! Selection and conservative canonicalisation of linked external article URLs.

use vstd::prelude::*;
use vstd::relations::*;

use crate::order::{lex_order, sort_chars, views, lemma_lex_total_ordering};
use crate::text::{
    alnum, ascii_lower, chars_eq, chars_of, decimal, decimal_exec, digit, ends_with,
    ends_with_exec, extend_chars, find_any_exec, find_any_from, find_char, find_char_exec,
    find_seq_exec, find_seq_from, is_alnum, is_ascii_control, is_ascii_whitespace, is_digit, join,
    join_exec, lemma_find_char, lower_seq, lower_vec, opt_view, rfind_char, rfind_char_exec, slice_chars,
    split_on, split_on_exec, split_state, starts_with, starts_with_exec, string_of, digit_char,
    lemma_find_any_from, lemma_find_seq_from, lemma_rfind_char, lemma_find_char_from, find_char_from, is_upper,
};
use crate::json::{str_eq, string_literal, member_text, object_text, string_literal_exec, member_text_exec,
    object_text_exec};
use crate::social_sources::tagged_uuid;
use crate::ids::{uuid_text, uuid_string};

verus! {

/// A selected external URL together with its conservative canonical form.
#[derive(Debug, Clone, PartialEq, Eq)]
pub struct SelectedArticleUrl {
    /// Original expanded URL retained as evidence.
    pub original_url: String,
    /// Canonical URL used as the account-scoped deduplication key.
    pub normalized_url: String,
}

// ---------------------------------------------------------------------------
// Specification.
// ---------------------------------------------------------------------------

pub open spec fn scheme_separator() -> Seq<char> {
    seq![':', '/', '/']
}

pub open spec fn authority_delimiters() -> Seq<char> {
    seq!['/', '?', '#']
}

pub open spec fn http_scheme() -> Seq<char> {
    seq!['h', 't', 't', 'p']
}

pub open spec fn https_scheme() -> Seq<char> {
    seq!['h', 't', 't', 'p', 's']
}

/// A character that disqualifies a URL (ASCII whitespace or control).
pub open spec fn is_rejected_char(c: char) -> bool {
    is_ascii_whitespace(c) || is_ascii_control(c)
}

/// The value of a run of ASCII decimal digits.
pub open spec fn digits_value(s: Seq<char>) -> nat
    decreases s.len(),
{
    if s.len() == 0 {
        0
    } else {
        digits_value(s.drop_last()) * 10 + ((s.last() as u32) - 48) as nat
    }
}

pub open spec fn all_digits(s: Seq<char>) -> bool {
    forall|i: int| 0 <= i < s.len() ==> is_digit(#[trigger] s[i])
}

/// `u16::from_str`: an optional `+` followed by at least one decimal digit, in range.
pub open spec fn parse_u16(s: Seq<char>) -> Option<u16> {
    parse_digits_u16(strip_plus(s))
}

/// Drops one leading `+`.
pub open spec fn strip_plus(s: Seq<char>) -> Seq<char> {
    if s.len() > 0 && s[0] == '+' {
        s.drop_first()
    } else {
        s
    }
}

pub open spec fn parse_digits_u16(d: Seq<char>) -> Option<u16> {
    if d.len() > 0 && all_digits(d) && digits_value(d) <= 65535 {
        Some(digits_value(d) as u16)
    } else {
        None
    }
}

/// Hosts are made only of ASCII letters, digits, `.` and `-`.
pub open spec fn valid_host(h: Seq<char>) -> bool {
    h.len() > 0 && forall|i: int|
        0 <= i < h.len() ==> is_alnum(#[trigger] h[i]) || h[i] == '.' || h[i] == '-'
}

/// Splits an authority into its lowercase host and optional port.
pub open spec fn split_host_and_port(a: Seq<char>) -> Option<(Seq<char>, Option<u16>)> {
    match rfind_char(a, ':') {
        Some(c) => if c + 1 >= a.len() {
            None
        } else {
            match parse_u16(a.skip(c + 1)) {
                None => None,
                Some(p) => if valid_host(a.take(c)) {
                    Some((lower_seq(a.take(c)), Some(p)))
                } else {
                    None
                },
            }
        },
        None => if valid_host(a) {
            Some((lower_seq(a), None))
        } else {
            None
        },
    }
}

pub open spec fn x_com() -> Seq<char> {
    seq!['x', '.', 'c', 'o', 'm']
}

pub open spec fn twitter_com() -> Seq<char> {
    seq!['t', 'w', 'i', 't', 't', 'e', 'r', '.', 'c', 'o', 'm']
}

pub open spec fn t_co() -> Seq<char> {
    seq!['t', '.', 'c', 'o']
}

/// `host` is `domain` or a subdomain of it.
pub open spec fn is_domain_or_subdomain(host: Seq<char>, domain: Seq<char>) -> bool {
    host == domain || (ends_with(host, domain) && host.len() > domain.len() && host[host.len()
        - domain.len() - 1] == '.')
}

/// Hosts that belong to X itself and are never treated as external articles.
pub open spec fn is_x_host(host: Seq<char>) -> bool {
    is_domain_or_subdomain(host, x_com()) || is_domain_or_subdomain(host, twitter_com())
        || is_domain_or_subdomain(host, t_co())
}

/// The key part of one `key=value` query component.
pub open spec fn query_key(component: Seq<char>) -> Seq<char> {
    match find_char(component, '=') {
        Some(i) => component.take(i),
        None => component,
    }
}

pub open spec fn utm_prefix() -> Seq<char> {
    seq!['u', 't', 'm', '_']
}

pub open spec fn fbclid() -> Seq<char> {
    seq!['f', 'b', 'c', 'l', 'i', 'd']
}

pub open spec fn gclid() -> Seq<char> {
    seq!['g', 'c', 'l', 'i', 'd']
}

/// Query keys that only carry click tracking.
pub open spec fn is_tracking_key(key: Seq<char>) -> bool {
    let k = lower_seq(key);
    starts_with(k, utm_prefix()) || k == fbclid() || k == gclid()
}

pub open spec fn retained_component(component: Seq<char>) -> bool {
    component.len() > 0 && !is_tracking_key(query_key(component))
}

pub open spec fn retained_filter() -> spec_fn(Seq<char>) -> bool {
    |component: Seq<char>| retained_component(component)
}

/// Non-empty, non-tracking components, sorted and joined with `&`; absent when none remain.
pub open spec fn canonical_query(query: Option<Seq<char>>) -> Option<Seq<char>> {
    match query {
        None => None,
        Some(q) => {
            let kept = split_on(q, '&').filter(retained_filter());
            if kept.len() == 0 {
                None
            } else {
                Some(join(kept.sort_by(lex_order()), seq!['&']))
            }
        },
    }
}

/// Whether `port` is the scheme's default port.
pub open spec fn is_default_port(scheme: Seq<char>, port: Option<u16>) -> bool {
    (scheme == http_scheme() && port == Some(80u16)) || (scheme == https_scheme() && port == Some(
        443u16,
    ))
}

/// Reassembles an accepted URL from its lowercase scheme, host, optional port, and the raw
/// path, query, and fragment that follow the authority.
pub open spec fn finish_url(scheme: Seq<char>, host: Seq<char>, port: Option<u16>, pq: Seq<char>) -> Seq<char> {
    let wf = match find_char(pq, '#') {
        Some(h) => pq.take(h),
        None => pq,
    };
    let path0 = match find_char(wf, '?') {
        Some(q) => wf.take(q),
        None => wf,
    };
    let query = match find_char(wf, '?') {
        Some(q) => Some(wf.skip(q + 1)),
        None => None,
    };
    let path = if path0.len() == 0 {
        seq!['/']
    } else {
        path0
    };
    scheme + scheme_separator() + render_authority(scheme, host, port) + path + query_suffix(
        canonical_query(query),
    )
}

/// The host with its port unless the port is absent or the scheme's default.
pub open spec fn render_authority(scheme: Seq<char>, host: Seq<char>, port: Option<u16>) -> Seq<char> {
    match port {
        Some(p) => if is_default_port(scheme, port) {
            host
        } else {
            host + seq![':'] + decimal(p as nat)
        },
        None => host,
    }
}

/// `?` and the canonical query, or nothing.
pub open spec fn query_suffix(query: Option<Seq<char>>) -> Seq<char> {
    match query {
        Some(q) => seq!['?'] + q,
        None => Seq::empty(),
    }
}

/// The canonical form of an external HTTP(S) URL, or `None` when the URL is rejected:
/// empty or containing whitespace/control characters, not `http`/`https`, with an empty,
/// user-info, bracketed, or malformed authority, or pointing at an X host. The scheme and
/// host are lowercased, a default port is dropped, the fragment is removed, an empty path
/// becomes `/`, and tracking query parameters are dropped with the rest sorted.
pub open spec fn normalize_external_url(raw: Seq<char>) -> Option<Seq<char>> {
    if raw.len() == 0 || exists|i: int| 0 <= i < raw.len() && is_rejected_char(#[trigger] raw[i]) {
        None
    } else {
        match find_seq_from(raw, scheme_separator(), 0) {
            None => None,
            Some(k) => {
                let scheme = lower_seq(raw.take(k));
                let rest = raw.skip(k + 3);
                if scheme != http_scheme() && scheme != https_scheme() {
                    None
                } else {
                    let aend = match find_any_from(rest, authority_delimiters(), 0) {
                        Some(j) => j,
                        None => rest.len() as int,
                    };
                    let authority = rest.take(aend);
                    if authority.len() == 0 || authority.contains('@') || authority[0] == '[' {
                        None
                    } else {
                        match split_host_and_port(authority) {
                            None => None,
                            Some(hp) => {
                                let host = hp.0;
                                let port = hp.1;
                                if is_x_host(host) {
                                    None
                                } else {
                                    Some(finish_url(scheme, host, port, rest.skip(aend)))
                                }
                            },
                        }
                    }
                }
            },
        }
    }
}

/// The pairs `(original, normalized)` selected from a prefix of the input: accepted URLs in
/// input order, keeping only the first URL for each normalized form.
pub open spec fn select_urls(urls: Seq<Seq<char>>) -> Seq<(Seq<char>, Seq<char>)>
    decreases urls.len(),
{
    if urls.len() == 0 {
        Seq::empty()
    } else {
        let prev = select_urls(urls.drop_last());
        match normalize_external_url(urls.last()) {
            None => prev,
            Some(n) => if exists|k: int| 0 <= k < prev.len() && (#[trigger] prev[k]).1 == n {
                prev
            } else {
                prev.push((urls.last(), n))
            },
        }
    }
}

pub open spec fn selected_view(v: Seq<SelectedArticleUrl>) -> Seq<(Seq<char>, Seq<char>)> {
    Seq::new(v.len(), |i: int| (v[i].original_url@, v[i].normalized_url@))
}

pub open spec fn strings_view(v: Seq<String>) -> Seq<Seq<char>> {
    Seq::new(v.len(), |i: int| v[i]@)
}

// ---------------------------------------------------------------------------
// Implementation.
// ---------------------------------------------------------------------------

/// Appending a digit multiplies the value so far by ten and adds the digit.
pub proof fn lemma_digits_value_step(s: Seq<char>, c: char)
    ensures
        digits_value(s.push(c)) == digits_value(s) * 10 + ((c as u32) - 48) as nat,
{
    assert(s.push(c).drop_last() =~= s);
}

/// Appending a digit never lowers the value.
pub proof fn lemma_digits_value_grows(s: Seq<char>, c: char)
    requires
        is_digit(c),
    ensures
        digits_value(s.push(c)) >= digits_value(s),
{
    lemma_digits_value_step(s, c);
}

/// Parses a decimal `u16` as `str::parse::<u16>` does.
pub fn parse_u16_exec(s: &Vec<char>) -> (r: Option<u16>)
    ensures
        r == parse_u16(s@),
{
    let start: usize = if s.len() > 0 && s[0] == '+' {
        1
    } else {
        0
    };
    let ghost d = strip_plus(s@);
    assert(d =~= s@.skip(start as int));
    if start >= s.len() {
        return None;
    }
    let mut value: u32 = 0;
    let mut overflow = false;
    let mut i: usize = start;
    while i < s.len()
        invariant
            start <= i <= s.len(),
            d == strip_plus(s@),
            d =~= s@.skip(start as int),
            all_digits(s@.subrange(start as int, i as int)),
            !overflow ==> value == digits_value(s@.subrange(start as int, i as int)),
            !overflow ==> value <= 65535,
            overflow ==> digits_value(s@.subrange(start as int, i as int)) > 65535,
        decreases s.len() - i,
    {
        let c = s[i];
        if !digit(c) {
            assert(d[i - start] == c);
            assert(!is_digit(d[i - start]));
            assert(!all_digits(d));
            return None;
        }
        proof {
            assert(s@.subrange(start as int, i + 1) =~= s@.subrange(start as int, i as int).push(c));
            lemma_digits_value_step(s@.subrange(start as int, i as int), c);
        }
        if !overflow {
            let next = value * 10 + ((c as u32) - 48);
            if next > 65535 {
                overflow = true;
            } else {
                value = next;
            }
        }
        i += 1;
    }
    assert(s@.subrange(start as int, s.len() as int) =~= d);
    if overflow {
        None
    } else {
        Some(value as u16)
    }
}

fn valid_host_exec(h: &Vec<char>) -> (r: bool)
    ensures
        r == valid_host(h@),
{
    if h.len() == 0 {
        return false;
    }
    let mut i: usize = 0;
    while i < h.len()
        invariant
            i <= h.len(),
            forall|j: int| 0 <= j < i ==> is_alnum(#[trigger] h@[j]) || h@[j] == '.' || h@[j] == '-',
        decreases h.len() - i,
    {
        let c = h[i];
        if !(alnum(c) || c == '.' || c == '-') {
            return false;
        }
        i += 1;
    }
    true
}

/// Splits an authority into its lowercase host and optional port.
pub fn split_host_and_port_exec(a: &Vec<char>) -> (r: Option<(Vec<char>, Option<u16>)>)
    ensures
        match r {
            Some(hp) => split_host_and_port(a@) == Some((hp.0@, hp.1)),
            None => split_host_and_port(a@) is None,
        },
{
    match rfind_char_exec(a, ':') {
        Some(c) => {
            if c + 1 >= a.len() {
                return None;
            }
            let raw_port = slice_chars(a, c + 1, a.len());
            assert(raw_port@ =~= a@.skip(c + 1));
            match parse_u16_exec(&raw_port) {
                None => None,
                Some(p) => {
                    let host = slice_chars(a, 0, c);
                    assert(host@ =~= a@.take(c as int));
                    if valid_host_exec(&host) {
                        Some((lower_vec(&host), Some(p)))
                    } else {
                        None
                    }
                },
            }
        },
        None => {
            if valid_host_exec(a) {
                Some((lower_vec(a), None))
            } else {
                None
            }
        },
    }
}

fn is_domain_or_subdomain_exec(host: &Vec<char>, domain: &Vec<char>) -> (r: bool)
    ensures
        r == is_domain_or_subdomain(host@, domain@),
{
    if chars_eq(host, domain) {
        return true;
    }
    ends_with_exec(host, domain) && host.len() > domain.len() && host[host.len() - domain.len()
        - 1] == '.'
}

/// Whether the host is X's own (`x.com`, `twitter.com`, `t.co`, or a subdomain).
pub fn is_x_host_exec(host: &Vec<char>) -> (r: bool)
    ensures
        r == is_x_host(host@),
        r == x_domain_name(host@),
{
    proof {
        lemma_x_hosts_are_x_domain_names(host@);
    }
    let x = vec!['x', '.', 'c', 'o', 'm'];
    let twitter = vec!['t', 'w', 'i', 't', 't', 'e', 'r', '.', 'c', 'o', 'm'];
    let tco = vec!['t', '.', 'c', 'o'];
    assert(x@ =~= x_com());
    assert(twitter@ =~= twitter_com());
    assert(tco@ =~= t_co());
    is_domain_or_subdomain_exec(host, &x) || is_domain_or_subdomain_exec(host, &twitter)
        || is_domain_or_subdomain_exec(host, &tco)
}

/// Whether a query key only carries click tracking.
pub fn is_tracking_key_exec(key: &Vec<char>) -> (r: bool)
    ensures
        r == is_tracking_key(key@),
{
    let k = lower_vec(key);
    let utm = vec!['u', 't', 'm', '_'];
    let fb = vec!['f', 'b', 'c', 'l', 'i', 'd'];
    let gc = vec!['g', 'c', 'l', 'i', 'd'];
    assert(utm@ =~= utm_prefix());
    assert(fb@ =~= fbclid());
    assert(gc@ =~= gclid());
    starts_with_exec(&k, &utm) || chars_eq(&k, &fb) || chars_eq(&k, &gc)
}

fn retained_component_exec(component: &Vec<char>) -> (r: bool)
    ensures
        r == retained_component(component@),
{
    if component.len() == 0 {
        return false;
    }
    let key = match find_char_exec(component, '=') {
        Some(i) => slice_chars(component, 0, i),
        None => component.clone(),
    };
    proof {
        match find_char(component@, '=') {
            Some(i) => assert(key@ =~= component@.take(i)),
            None => {},
        }
    }
    !is_tracking_key_exec(&key)
}

/// The canonical query string of an optional raw query.
pub fn canonical_query_exec(query: Option<Vec<char>>) -> (r: Option<Vec<char>>)
    ensures
        match r {
            Some(q) => canonical_query(opt_view(query)) == Some(q@),
            None => canonical_query(opt_view(query)) is None,
        },
{
    let q = match query {
        None => return None,
        Some(q) => q,
    };
    let parts = split_on_exec(&q, '&');
    let ghost all = views(parts@);
    let mut kept: Vec<Vec<char>> = Vec::new();
    let mut i: usize = 0;
    while i < parts.len()
        invariant
            i <= parts.len(),
            all == views(parts@),
            views(kept@) == all.take(i as int).filter(retained_filter()),
        decreases parts.len() - i,
    {
        let part = parts[i].clone();
        assert(part@ == all[i as int]);
        proof {
            assert(all.take(i + 1) =~= all.take(i as int).push(all[i as int]));
            all.take(i as int).lemma_filter_push(all[i as int], retained_filter());
        }
        let keep = retained_component_exec(&part);
        let ghost before = views(kept@);
        if keep {
            kept.push(part);
            assert(views(kept@) =~= before.push(all[i as int]));
        }
        i += 1;
    }
    assert(all.take(parts.len() as int) =~= all);
    if kept.len() == 0 {
        return None;
    }
    let sorted = sort_chars(kept);
    let amp = vec!['&'];
    assert(amp@ =~= seq!['&']);
    Some(join_exec(&sorted, &amp))
}

/// The canonical form of one expanded URL, or `None` when it is not a selectable external link.
pub fn normalize_external_url_exec(raw: &Vec<char>) -> (r: Option<Vec<char>>)
    ensures
        match r {
            Some(n) => normalize_external_url(raw@) == Some(n@),
            None => normalize_external_url(raw@) is None,
        },
{
    if raw.len() == 0 {
        return None;
    }
    let mut i: usize = 0;
    while i < raw.len()
        invariant
            i <= raw.len(),
            forall|j: int| 0 <= j < i ==> !is_rejected_char(#[trigger] raw@[j]),
        decreases raw.len() - i,
    {
        let c = raw[i];
        if c == ' ' || c == '\t' || c == '\n' || c == '\x0C' || c == '\r' || (c as u32) <= 0x1f
            || (c as u32) == 0x7f {
            assert(is_rejected_char(raw@[i as int]));
            return None;
        }
        i += 1;
    }
    let sep = vec![':', '/', '/'];
    assert(sep@ =~= scheme_separator());
    let k = match find_seq_exec(raw, &sep) {
        None => return None,
        Some(k) => k,
    };
    let scheme_raw = slice_chars(raw, 0, k);
    assert(scheme_raw@ =~= raw@.take(k as int));
    let scheme = lower_vec(&scheme_raw);
    let rest = slice_chars(raw, k + 3, raw.len());
    assert(rest@ =~= raw@.skip(k + 3));
    let http = vec!['h', 't', 't', 'p'];
    let https = vec!['h', 't', 't', 'p', 's'];
    assert(http@ =~= http_scheme());
    assert(https@ =~= https_scheme());
    let is_http = chars_eq(&scheme, &http);
    let is_https = chars_eq(&scheme, &https);
    if !is_http && !is_https {
        return None;
    }
    let delims = vec!['/', '?', '#'];
    assert(delims@ =~= authority_delimiters());
    let aend = match find_any_exec(&rest, &delims) {
        Some(j) => j,
        None => rest.len(),
    };
    let authority = slice_chars(&rest, 0, aend);
    assert(authority@ =~= rest@.take(aend as int));
    if authority.len() == 0 || authority[0] == '[' {
        return None;
    }
    if find_char_exec(&authority, '@').is_some() {
        proof {
            lemma_find_char(authority@, '@');
        }
        return None;
    }
    proof {
        lemma_find_char(authority@, '@');
        assert(!authority@.contains('@'));
    }
    let (host, port) = match split_host_and_port_exec(&authority) {
        None => return None,
        Some(hp) => hp,
    };
    if is_x_host_exec(&host) {
        return None;
    }
    let pq = slice_chars(&rest, aend, rest.len());
    assert(pq@ =~= rest@.skip(aend as int));
    Some(finish_url_exec(scheme, is_http, is_https, &host, port, &pq))
}

fn render_authority_exec(is_http: bool, is_https: bool, host: &Vec<char>, port: Option<u16>) -> (r: Vec<char>)
    requires
        is_http ==> !is_https,
    ensures
        forall|scheme: Seq<char>|
            is_http == (scheme == http_scheme()) && is_https == (scheme == https_scheme())
                ==> r@ == render_authority(scheme, host@, port),
{
    let mut out = host.clone();
    let default_port = (is_http && port == Some(80u16)) || (is_https && port == Some(443u16));
    match port {
        Some(p) => {
            if !default_port {
                out.push(':');
                let digits = decimal_exec(p as u64);
                extend_chars(&mut out, &digits);
                assert(out@ =~= host@ + seq![':'] + decimal(p as nat));
            }
        },
        None => {},
    }
    out
}

fn finish_url_exec(
    scheme: Vec<char>,
    is_http: bool,
    is_https: bool,
    host: &Vec<char>,
    port: Option<u16>,
    pq: &Vec<char>,
) -> (out: Vec<char>)
    requires
        is_http == (scheme@ == http_scheme()),
        is_https == (scheme@ == https_scheme()),
    ensures
        out@ == finish_url(scheme@, host@, port, pq@),
{
    let sep = vec![':', '/', '/'];
    assert(sep@ =~= scheme_separator());
    let wf = match find_char_exec(pq, '#') {
        Some(h) => slice_chars(pq, 0, h),
        None => pq.clone(),
    };
    proof {
        match find_char(pq@, '#') {
            Some(h) => assert(wf@ =~= pq@.take(h)),
            None => {},
        }
    }
    let (path0, query) = match find_char_exec(&wf, '?') {
        Some(q) => (slice_chars(&wf, 0, q), Some(slice_chars(&wf, q + 1, wf.len()))),
        None => (wf.clone(), None),
    };
    proof {
        match find_char(wf@, '?') {
            Some(q) => {
                assert(path0@ =~= wf@.take(q));
                assert(query.unwrap()@ =~= wf@.skip(q + 1));
            },
            None => {},
        }
    }
    let path = if path0.len() == 0 {
        vec!['/']
    } else {
        path0
    };
    let ghost qv = opt_view(query);
    let cq = canonical_query_exec(query);
    assert(http_scheme().len() != https_scheme().len());
    let authority = render_authority_exec(is_http, is_https, host, port);
    let ghost scheme_s0 = scheme@;
    let mut out = scheme;
    extend_chars(&mut out, &sep);
    extend_chars(&mut out, &authority);
    extend_chars(&mut out, &path);
    match cq {
        Some(q) => {
            out.push('?');
            extend_chars(&mut out, &q);
        },
        None => {},
    }
    proof {
        assert(out@ =~= scheme_s0 + scheme_separator() + render_authority(scheme_s0, host@, port)
            + path@ + query_suffix(canonical_query(qv)));
    }
    out
}

/// Selects unique external HTTP(S) links from already expanded provider entities.
pub fn select_external_expanded_urls(urls: &[String]) -> (selected: Vec<SelectedArticleUrl>)
    ensures
        selected_view(selected@) == select_urls(strings_view(urls@)),
{
    let ghost input = strings_view(urls@);
    let mut selected: Vec<SelectedArticleUrl> = Vec::new();
    let mut i: usize = 0;
    while i < urls.len()
        invariant
            i <= urls.len(),
            input == strings_view(urls@),
            selected_view(selected@) == select_urls(input.take(i as int)),
        decreases urls.len() - i,
    {
        assert(input.take(i + 1).drop_last() =~= input.take(i as int));
        assert(input.take(i + 1).last() == urls@[i as int]@);
        let original = chars_of(urls[i].as_str());
        match normalize_external_url_exec(&original) {
            None => {},
            Some(normalized) => {
                let ghost prev = selected_view(selected@);
                let mut seen = false;
                let mut k: usize = 0;
                while k < selected.len()
                    invariant
                        k <= selected.len(),
                        prev == selected_view(selected@),
                        seen == exists|m: int| 0 <= m < k && (#[trigger] prev[m]).1 == normalized@,
                    decreases selected.len() - k,
                {
                    let existing = chars_of(selected[k].normalized_url.as_str());
                    let same = chars_eq(&existing, &normalized);
                    if same {
                        seen = true;
                    }
                    proof {
                        assert(prev[k as int].1 == existing@);
                        if same {
                            assert(prev[k as int].1 == normalized@);
                        }
                    }
                    k += 1;
                }
                if !seen {
                    let entry = SelectedArticleUrl {
                        original_url: urls[i].clone(),
                        normalized_url: string_of(&normalized),
                    };
                    selected.push(entry);
                    assert(selected_view(selected@) =~= prev.push(
                        (input.take(i + 1).last(), normalized@),
                    ));
                }
            },
        }
        i += 1;
    }
    assert(input.take(urls.len() as int) =~= input);
    selected
}

/// Every selected URL is the canonical form of its original, and no two selected URLs share
/// a canonical form.
pub proof fn lemma_selected_urls_are_canonical_and_unique(urls: Seq<Seq<char>>)
    ensures
        forall|i: int|
            0 <= i < select_urls(urls).len() ==> normalize_external_url(
                (#[trigger] select_urls(urls)[i]).0,
            ) == Some(select_urls(urls)[i].1) && urls.contains(select_urls(urls)[i].0),
        forall|i: int, j: int|
            0 <= i < j < select_urls(urls).len() ==> (#[trigger] select_urls(urls)[i]).1
                != (#[trigger] select_urls(urls)[j]).1,
    decreases urls.len(),
{
    if urls.len() > 0 {
        let prev = urls.drop_last();
        lemma_selected_urls_are_canonical_and_unique(prev);
        assert forall|i: int| 0 <= i < select_urls(prev).len() implies urls.contains(
            (#[trigger] select_urls(prev)[i]).0,
        ) by {
            let k = choose|k: int| 0 <= k < prev.len() && prev[k] == select_urls(prev)[i].0;
            assert(urls[k] == prev[k]);
        }
        assert(urls[urls.len() - 1] == urls.last());
    }
}


// ---------------------------------------------------------------------------
// Normal forms are fixed points.
// ---------------------------------------------------------------------------

/// No character of `s` disqualifies a URL or starts a fragment.
pub open spec fn clean_text(s: Seq<char>) -> bool {
    forall|i: int| 0 <= i < s.len() ==> !is_rejected_char(#[trigger] s[i]) && s[i] != '#'
}

/// A clean query component: no `&` either.
pub open spec fn clean_component(s: Seq<char>) -> bool {
    clean_text(s) && forall|i: int| 0 <= i < s.len() ==> #[trigger] s[i] != '&'
}

proof fn lemma_split_state_clean(s: Seq<char>)
    requires
        clean_text(s),
    ensures
        forall|k: int| 0 <= k < split_state(s, '&').0.len() ==> clean_component(#[trigger] split_state(s, '&').0[k]),
        clean_component(split_state(s, '&').1),
    decreases s.len(),
{
    if s.len() > 0 {
        let init = s.drop_last();
        assert(clean_text(init)) by {
            assert forall|i: int| 0 <= i < init.len() implies !is_rejected_char(#[trigger] init[i]) && init[i] != '#' by {
                assert(init[i] == s[i]);
            }
        }
        lemma_split_state_clean(init);
        let (done, cur) = split_state(init, '&');
        if s.last() == '&' {
            assert forall|k: int| 0 <= k < split_state(s, '&').0.len() implies clean_component(#[trigger] split_state(s, '&').0[k]) by {
                if k < done.len() {
                    assert(split_state(s, '&').0[k] == done[k]);
                }
            }
            assert(split_state(s, '&').1 =~= Seq::<char>::empty());
        } else {
            let c2 = cur.push(s.last());
            assert(split_state(s, '&').1 == c2);
            assert(s[s.len() - 1] == s.last());
            assert forall|i: int| 0 <= i < c2.len() implies !is_rejected_char(#[trigger] c2[i]) && c2[i] != '#' && c2[i] != '&' by {
                if i < cur.len() {
                    assert(c2[i] == cur[i]);
                }
            }
        }
    }
}

/// The components of a clean query are clean.
proof fn lemma_split_clean(s: Seq<char>)
    requires
        clean_text(s),
    ensures
        forall|k: int| 0 <= k < split_on(s, '&').len() ==> clean_component(#[trigger] split_on(s, '&')[k]),
{
    lemma_split_state_clean(s);
    assert forall|k: int| 0 <= k < split_on(s, '&').len() implies clean_component(#[trigger] split_on(s, '&')[k]) by {
        if k < split_state(s, '&').0.len() {
            assert(split_on(s, '&')[k] == split_state(s, '&').0[k]);
        }
    }
}

/// Joining clean components with `&` gives a clean text.
proof fn lemma_join_clean(parts: Seq<Seq<char>>)
    requires
        forall|k: int| 0 <= k < parts.len() ==> clean_component(#[trigger] parts[k]),
    ensures
        clean_text(join(parts, seq!['&'])),
    decreases parts.len(),
{
    if parts.len() == 1 {
        assert(clean_component(parts[0]));
    } else if parts.len() > 1 {
        let init = parts.drop_last();
        assert forall|k: int| 0 <= k < init.len() implies clean_component(#[trigger] init[k]) by {
            assert(init[k] == parts[k]);
        }
        lemma_join_clean(init);
        assert(clean_component(parts[parts.len() - 1]));
        let j = join(parts, seq!['&']);
        let a = join(init, seq!['&']);
        assert(j == a + seq!['&'] + parts.last());
        assert forall|i: int| 0 <= i < j.len() implies !is_rejected_char(#[trigger] j[i]) && j[i] != '#' by {
            if i < a.len() {
                assert(j[i] == a[i]);
            } else if i == a.len() {
            } else {
                assert(j[i] == parts.last()[i - a.len() - 1]);
            }
        }
    }
}

/// Appending text without the separator extends the current component.
proof fn lemma_split_state_append(x: Seq<char>, b: Seq<char>)
    requires
        forall|i: int| 0 <= i < b.len() ==> #[trigger] b[i] != '&',
    ensures
        split_state(x + b, '&') == (split_state(x, '&').0, split_state(x, '&').1 + b),
    decreases b.len(),
{
    if b.len() == 0 {
        assert(x + b =~= x);
        assert(split_state(x, '&').1 + b =~= split_state(x, '&').1);
    } else {
        let bi = b.drop_last();
        assert forall|i: int| 0 <= i < bi.len() implies #[trigger] bi[i] != '&' by {
            assert(bi[i] == b[i]);
        }
        lemma_split_state_append(x, bi);
        assert((x + b).drop_last() =~= x + bi);
        assert((x + b).last() == b.last());
        assert(b[b.len() - 1] == b.last());
        assert(split_state(x, '&').1 + b =~= (split_state(x, '&').1 + bi).push(b.last()));
    }
}

/// Splitting components joined with `&` gives them back.
proof fn lemma_split_join(parts: Seq<Seq<char>>)
    requires
        parts.len() > 0,
        forall|k: int, i: int| 0 <= k < parts.len() && 0 <= i < parts[k].len() ==> #[trigger] parts[k][i] != '&',
    ensures
        split_state(join(parts, seq!['&']), '&') == (parts.drop_last(), parts.last()),
        split_on(join(parts, seq!['&']), '&') == parts,
    decreases parts.len(),
{
    if parts.len() == 1 {
        assert(forall|i: int| 0 <= i < parts[0].len() ==> #[trigger] parts[0][i] != '&');
        lemma_split_state_append(Seq::empty(), parts[0]);
        assert(Seq::<char>::empty() + parts[0] =~= parts[0]);
        assert(split_state(Seq::<char>::empty(), '&') == (Seq::<Seq<char>>::empty(), Seq::<char>::empty()));
        assert(Seq::<char>::empty() + parts[0] =~= parts[0]);
        assert(parts.drop_last() =~= Seq::<Seq<char>>::empty());
        assert(parts =~= seq![parts[0]]);
    } else {
        let init = parts.drop_last();
        assert forall|k: int, i: int| 0 <= k < init.len() && 0 <= i < init[k].len() implies #[trigger] init[k][i] != '&' by {
            assert(init[k] == parts[k]);
        }
        lemma_split_join(init);
        let a = join(init, seq!['&']);
        let last = parts.last();
        assert(forall|i: int| 0 <= i < last.len() ==> #[trigger] last[i] != '&') by {
            assert(last == parts[parts.len() - 1]);
        }
        assert(join(parts, seq!['&']) =~= a.push('&') + last);
        lemma_split_state_append(a.push('&'), last);
        assert(a.push('&').drop_last() =~= a);
        assert(split_state(a.push('&'), '&') == (split_on(a, '&'), Seq::<char>::empty()));
        assert(Seq::<char>::empty() + last =~= last);
        assert(init.push(last) =~= parts);
    }
}

/// Keeping every member of a list whose members all pass keeps the list.
proof fn lemma_filter_keeps_all(s: Seq<Seq<char>>)
    requires
        forall|k: int| 0 <= k < s.len() ==> retained_component(#[trigger] s[k]),
    ensures
        s.filter(retained_filter()) == s,
    decreases s.len(),
{
    reveal(Seq::filter);
    if s.len() > 0 {
        let init = s.drop_last();
        assert forall|k: int| 0 <= k < init.len() implies retained_component(#[trigger] init[k]) by {
            assert(init[k] == s[k]);
        }
        lemma_filter_keeps_all(init);
        assert(retained_component(s[s.len() - 1]));
        assert(retained_filter()(s.last()));
        assert(init.push(s.last()) =~= s);
    }
}

/// The members of a filtered list come from the list and pass the filter.
proof fn lemma_filter_members(s: Seq<Seq<char>>)
    ensures
        forall|k: int| 0 <= k < s.filter(retained_filter()).len() ==> {
            &&& retained_component(#[trigger] s.filter(retained_filter())[k])
            &&& s.contains(s.filter(retained_filter())[k])
        },
    decreases s.len(),
{
    reveal(Seq::filter);
    if s.len() > 0 {
        let init = s.drop_last();
        lemma_filter_members(init);
        let f = s.filter(retained_filter());
        let fi = init.filter(retained_filter());
        assert forall|k: int| 0 <= k < f.len() implies retained_component(#[trigger] f[k]) && s.contains(f[k]) by {
            if k < fi.len() {
                assert(f[k] == fi[k]);
                let j = choose|j: int| 0 <= j < init.len() && init[j] == fi[k];
                assert(s[j] == init[j]);
            } else {
                assert(f[k] == s.last());
                assert(s[s.len() - 1] == s.last());
            }
        }
    }
}

/// Sorting keeps a list's members.
proof fn lemma_sorted_members(s: Seq<Seq<char>>)
    ensures
        forall|k: int| 0 <= k < s.sort_by(lex_order()).len() ==> s.contains(#[trigger] s.sort_by(lex_order())[k]),
        s.sort_by(lex_order()).len() == s.len(),
        sorted_by(s.sort_by(lex_order()), lex_order()),
        s.sort_by(lex_order()).to_multiset() == s.to_multiset(),
{
    broadcast use vstd::seq_lib::group_to_multiset_ensures;
    lemma_lex_total_ordering();
    s.lemma_sort_by_ensures(lex_order());
    let t = s.sort_by(lex_order());
    assert(t.len() == t.to_multiset().len());
    assert forall|k: int| 0 <= k < t.len() implies s.contains(#[trigger] t[k]) by {
        assert(t.to_multiset().count(t[k]) > 0);
        assert(s.to_multiset().count(t[k]) > 0);
    }
}

/// The canonical query of a clean query is clean and is its own canonical form.
proof fn lemma_canonical_query_fixed(query: Option<Seq<char>>)
    requires
        query matches Some(q) ==> clean_text(q),
    ensures
        canonical_query(query) matches Some(c) ==> clean_text(c) && canonical_query(Some(c)) == Some(c),
{
    broadcast use vstd::seq_lib::group_to_multiset_ensures;
    if let Some(q) = query {
        let kept = split_on(q, '&').filter(retained_filter());
        if kept.len() > 0 {
            lemma_split_clean(q);
            lemma_filter_members(split_on(q, '&'));
            lemma_sorted_members(kept);
            let sorted = kept.sort_by(lex_order());
            assert forall|k: int| 0 <= k < sorted.len() implies clean_component(#[trigger] sorted[k]) && retained_component(sorted[k]) by {
                assert(kept.contains(sorted[k]));
                let j = choose|j: int| 0 <= j < kept.len() && kept[j] == sorted[k];
                assert(retained_component(kept[j]));
                assert(split_on(q, '&').contains(kept[j]));
                let m = choose|m: int| 0 <= m < split_on(q, '&').len() && split_on(q, '&')[m] == kept[j];
                assert(clean_component(split_on(q, '&')[m]));
            }
            let c = join(sorted, seq!['&']);
            lemma_join_clean(sorted);
            assert forall|k: int, i: int| 0 <= k < sorted.len() && 0 <= i < sorted[k].len() implies #[trigger] sorted[k][i] != '&' by {
                assert(clean_component(sorted[k]));
            }
            lemma_split_join(sorted);
            lemma_filter_keeps_all(sorted);
            lemma_sorted_members(sorted);
            lemma_lex_total_ordering();
            vstd::seq_lib::lemma_sorted_unique(sorted.sort_by(lex_order()), sorted, lex_order());
            assert(canonical_query(Some(c)) == Some(join(sorted.sort_by(lex_order()), seq!['&'])));
        }
    }
}

proof fn lemma_first_any(s: Seq<char>, set: Seq<char>, idx: int)
    requires
        0 <= idx < s.len(),
        set.contains(s[idx]),
        forall|j: int| 0 <= j < idx ==> !set.contains(#[trigger] s[j]),
    ensures
        find_any_from(s, set, 0) == Some(idx),
{
    lemma_find_any_from(s, set, 0);
}

proof fn lemma_first_char(s: Seq<char>, c: char, idx: int)
    requires
        0 <= idx < s.len(),
        s[idx] == c,
        forall|j: int| 0 <= j < idx ==> #[trigger] s[j] != c,
    ensures
        find_char(s, c) == Some(idx),
{
    lemma_find_char(s, c);
}

proof fn lemma_no_char(s: Seq<char>, c: char)
    requires
        forall|j: int| 0 <= j < s.len() ==> #[trigger] s[j] != c,
    ensures
        find_char(s, c) is None,
{
    lemma_find_char(s, c);
}

proof fn lemma_last_char(s: Seq<char>, c: char, idx: int)
    requires
        0 <= idx < s.len(),
        s[idx] == c,
        forall|j: int| idx < j < s.len() ==> #[trigger] s[j] != c,
    ensures
        rfind_char(s, c) == Some(idx),
{
    lemma_rfind_char(s, c);
}

proof fn lemma_no_last_char(s: Seq<char>, c: char)
    requires
        forall|j: int| 0 <= j < s.len() ==> #[trigger] s[j] != c,
    ensures
        rfind_char(s, c) is None,
{
    lemma_rfind_char(s, c);
}

/// `u16` written in decimal: digits only, and it reads back as the number.
proof fn lemma_decimal_digits(n: nat)
    ensures
        decimal(n).len() > 0,
        all_digits(decimal(n)),
        digits_value(decimal(n)) == n,
    decreases n,
{
    if n < 10 {
        let d = decimal(n);
        assert(d == seq![digit_char(n)]);
        assert(d.drop_last() =~= Seq::<char>::empty());
        assert((digit_char(n) as u32) == n + 48);
        assert(d.last() == digit_char(n));
        assert(digits_value(d.drop_last()) == 0);
        assert(digits_value(d) == digits_value(d.drop_last()) * 10 + ((d.last() as u32) - 48) as nat);
    } else {
        lemma_decimal_digits(n / 10);
        let d = decimal(n);
        assert(d.drop_last() =~= decimal(n / 10));
        assert((digit_char(n % 10) as u32) == n % 10 + 48);
        assert(d.last() == digit_char(n % 10));
        assert(digits_value(d) == digits_value(d.drop_last()) * 10 + ((d.last() as u32) - 48) as nat);
        assert(digits_value(d) == (n / 10) * 10 + n % 10);
        assert forall|i: int| 0 <= i < d.len() implies is_digit(#[trigger] d[i]) by {
            if i < d.len() - 1 {
                assert(d[i] == decimal(n / 10)[i]);
            }
        }
    }
}

proof fn lemma_decimal_parses(p: u16)
    ensures
        parse_u16(decimal(p as nat)) == Some(p),
        forall|i: int| 0 <= i < decimal(p as nat).len() ==> is_digit(#[trigger] decimal(p as nat)[i]),
{
    lemma_decimal_digits(p as nat);
    let d = decimal(p as nat);
    assert(is_digit(d[0]));
    assert(strip_plus(d) == d);
}

/// A lowercased valid host is a valid host that lowercasing keeps.
proof fn lemma_lower_host(h: Seq<char>)
    requires
        valid_host(h),
    ensures
        valid_host(lower_seq(h)),
        lower_seq(lower_seq(h)) == lower_seq(h),
        forall|i: int| 0 <= i < lower_seq(h).len() ==> !is_upper(#[trigger] lower_seq(h)[i]),
{
    let l = lower_seq(h);
    assert forall|i: int| 0 <= i < l.len() implies (is_alnum(#[trigger] l[i]) || l[i] == '.' || l[i] == '-') && !is_upper(l[i]) by {
        assert(is_alnum(h[i]) || h[i] == '.' || h[i] == '-');
        if is_upper(h[i]) {
            assert((((h[i] as u32) + 32) as char) as u32 == (h[i] as u32) + 32);
        }
    }
    assert(lower_seq(l) =~= l);
}

/// An authority as the canonical form writes it: a lowercase valid host and,
/// unless absent or the default, `:` and the port in decimal.
proof fn lemma_rendered_authority(scheme: Seq<char>, host: Seq<char>, port: Option<u16>)
    requires
        valid_host(host),
        lower_seq(host) == host,
    ensures
        ({
            let a = render_authority(scheme, host, port);
            &&& a.len() > 0
            &&& a[0] == host[0]
            &&& forall|j: int| 0 <= j < a.len() ==> (is_alnum(#[trigger] a[j]) || a[j] == '.' || a[j] == '-' || a[j] == ':')
            &&& split_host_and_port(a) == Some((host, match port {
                    Some(p) => if is_default_port(scheme, port) { None } else { Some(p) },
                    None => None,
                }))
            &&& render_authority(scheme, host, match port {
                    Some(p) => if is_default_port(scheme, port) { None } else { Some(p) },
                    None => None,
                }) == a
        }),
{
    let a = render_authority(scheme, host, port);
    assert(forall|j: int| 0 <= j < host.len() ==> #[trigger] host[j] != ':');
    match port {
        Some(p) => {
            if is_default_port(scheme, port) {
                lemma_no_last_char(host, ':');
            } else {
                let d = decimal(p as nat);
                lemma_decimal_parses(p);
                lemma_decimal_digits(p as nat);
                assert(a == host + seq![':'] + d);
                assert forall|j: int| 0 <= j < a.len() implies (is_alnum(#[trigger] a[j]) || a[j] == '.' || a[j] == '-' || a[j] == ':') by {
                    if j < host.len() {
                        assert(a[j] == host[j]);
                    } else if j > host.len() {
                        assert(a[j] == d[j - host.len() - 1]);
                    }
                }
                assert forall|j: int| host.len() < j < a.len() implies #[trigger] a[j] != ':' by {
                    assert(a[j] == d[j - host.len() - 1]);
                }
                lemma_last_char(a, ':', host.len() as int);
                assert(a.skip(host.len() as int + 1) =~= d);
                assert(a.take(host.len() as int) =~= host);
            }
        },
        None => {
            lemma_no_last_char(host, ':');
        },
    }
}

/// How `normalize_external_url` reads a text, stated step by step.
proof fn lemma_normalize_reads(n: Seq<char>, sl: int, scheme: Seq<char>, auth: Seq<char>, host: Seq<char>,
    port: Option<u16>, pq: Seq<char>)
    requires
        n.len() > 0,
        forall|i: int| 0 <= i < n.len() ==> !is_rejected_char(#[trigger] n[i]),
        find_seq_from(n, scheme_separator(), 0) == Some(sl),
        lower_seq(n.take(sl)) == scheme,
        scheme == http_scheme() || scheme == https_scheme(),
        find_any_from(n.skip(sl + 3), authority_delimiters(), 0) == Some(auth.len() as int),
        n.skip(sl + 3).take(auth.len() as int) == auth,
        auth.len() > 0,
        !auth.contains('@'),
        auth[0] != '[',
        split_host_and_port(auth) == Some((host, port)),
        !is_x_host(host),
        n.skip(sl + 3).skip(auth.len() as int) == pq,
        finish_url(scheme, host, port, pq) == n,
    ensures
        normalize_external_url(n) == Some(n),
{
}

/// No character of an assembled normal form disqualifies it.
proof fn lemma_assembled_clean(scheme: Seq<char>, auth: Seq<char>, path: Seq<char>, cq: Option<Seq<char>>)
    requires
        scheme == http_scheme() || scheme == https_scheme(),
        forall|j: int| 0 <= j < auth.len() ==> (is_alnum(#[trigger] auth[j]) || auth[j] == '.' || auth[j] == '-' || auth[j] == ':'),
        forall|i: int| 0 <= i < path.len() ==> !is_rejected_char(#[trigger] path[i]),
        cq matches Some(c) ==> clean_text(c),
    ensures
        forall|i: int| 0 <= i < (scheme + scheme_separator() + auth + path + query_suffix(cq)).len()
            ==> !is_rejected_char(#[trigger] (scheme + scheme_separator() + auth + path + query_suffix(cq))[i]),
{
    let qs = query_suffix(cq);
    let n = scheme + scheme_separator() + auth + path + qs;
    let sl = scheme.len() as int;
    assert forall|i: int| 0 <= i < n.len() implies !is_rejected_char(#[trigger] n[i]) by {
        if i < sl {
            assert(n[i] == scheme[i]);
        } else if i < sl + 3 {
            assert(n[i] == scheme_separator()[i - sl]);
        } else if i < sl + 3 + auth.len() {
            assert(n[i] == auth[i - sl - 3]);
        } else if i < sl + 3 + auth.len() + path.len() {
            assert(n[i] == path[i - sl - 3 - auth.len()]);
        } else {
            let c = cq->Some_0;
            assert(qs == seq!['?'] + c);
            if i > sl + 3 + auth.len() + path.len() {
                assert(n[i] == c[i - sl - 4 - auth.len() - path.len()]);
            } else {
                assert(n[i] == '?');
            }
        }
    }
}

proof fn lemma_find_seq_at(s: Seq<char>, needle: Seq<char>, lo: int, k: int)
    requires
        0 <= lo <= k,
        k + needle.len() <= s.len(),
        s.subrange(k, k + needle.len()) == needle,
        forall|j: int| lo <= j < k ==> #[trigger] s.subrange(j, j + needle.len()) != needle,
    ensures
        find_seq_from(s, needle, lo) == Some(k),
    decreases k - lo,
{
    if lo < k {
        lemma_find_seq_at(s, needle, lo + 1, k);
    }
}

/// The scheme of an assembled normal form reads back.
proof fn lemma_assembled_scheme(scheme: Seq<char>, tail: Seq<char>)
    requires
        scheme == http_scheme() || scheme == https_scheme(),
    ensures
        find_seq_from(scheme + scheme_separator() + tail, scheme_separator(), 0) == Some(scheme.len() as int),
        lower_seq((scheme + scheme_separator() + tail).take(scheme.len() as int)) == scheme,
        (scheme + scheme_separator() + tail).skip(scheme.len() as int + 3) == tail,
{
    let n = scheme + scheme_separator() + tail;
    let sl = scheme.len() as int;
    assert(n.subrange(sl, sl + 3) =~= scheme_separator());
    assert forall|j: int| 0 <= j < sl implies #[trigger] n.subrange(j, j + 3) != scheme_separator() by {
        assert(n.subrange(j, j + 3)[0] == n[j]);
        assert(n[j] == scheme[j]);
        assert(scheme[j] != ':');
    }
    lemma_find_seq_at(n, scheme_separator(), 0, sl);
    assert(n.take(sl) =~= scheme);
    assert(lower_seq(http_scheme()) =~= http_scheme());
    assert(lower_seq(https_scheme()) =~= https_scheme());
    assert(n.skip(sl + 3) =~= tail);
}

/// The path and query of an assembled normal form read back.
proof fn lemma_assembled_path(scheme: Seq<char>, host: Seq<char>, port: Option<u16>, path: Seq<char>, cq: Option<Seq<char>>)
    requires
        path.len() > 0,
        forall|i: int| 0 <= i < path.len() ==> #[trigger] path[i] != '#' && path[i] != '?',
        cq matches Some(c) ==> clean_text(c) && canonical_query(Some(c)) == Some(c),
    ensures
        finish_url(scheme, host, port, path + query_suffix(cq))
            == scheme + scheme_separator() + render_authority(scheme, host, port) + path + query_suffix(cq),
{
    let pq = path + query_suffix(cq);
    assert forall|j: int| 0 <= j < pq.len() implies #[trigger] pq[j] != '#' by {
        if j < path.len() {
            assert(pq[j] == path[j]);
        } else {
            let c = cq->Some_0;
            if j > path.len() {
                assert(pq[j] == c[j - path.len() - 1]);
            }
        }
    }
    lemma_no_char(pq, '#');
    match cq {
        Some(c) => {
            assert(pq[path.len() as int] == '?');
            assert forall|j: int| 0 <= j < path.len() implies #[trigger] pq[j] != '?' by {
                assert(pq[j] == path[j]);
            }
            lemma_first_char(pq, '?', path.len() as int);
            assert(pq.take(path.len() as int) =~= path);
            assert(pq.skip(path.len() as int + 1) =~= c);
        },
        None => {
            assert(pq =~= path);
            lemma_no_char(pq, '?');
        },
    }
}

/// The text a normal form is assembled from reads back as itself.
#[verifier::spinoff_prover]
#[verifier::rlimit(60)]
proof fn lemma_assembled_is_fixed(scheme: Seq<char>, host: Seq<char>, port: Option<u16>, path: Seq<char>, query: Option<Seq<char>>)
    requires
        scheme == http_scheme() || scheme == https_scheme(),
        valid_host(host),
        lower_seq(host) == host,
        !is_x_host(host),
        path.len() > 0,
        path[0] == '/',
        forall|i: int| 0 <= i < path.len() ==> !is_rejected_char(#[trigger] path[i]) && path[i] != '#' && path[i] != '?',
        query matches Some(q) ==> clean_text(q),
    ensures
        ({
            let n = scheme + scheme_separator() + render_authority(scheme, host, port) + path
                + query_suffix(canonical_query(query));
            normalize_external_url(n) == Some(n)
        }),
{
    let auth = render_authority(scheme, host, port);
    let cq = canonical_query(query);
    let qs = query_suffix(cq);
    let tail = auth + path + qs;
    let n = scheme + scheme_separator() + tail;
    assert(n == scheme + scheme_separator() + auth + path + qs);
    lemma_canonical_query_fixed(query);
    lemma_rendered_authority(scheme, host, port);
    let port2 = match port {
        Some(p) => if is_default_port(scheme, port) { None } else { Some(p) },
        None => None,
    };
    lemma_assembled_clean(scheme, auth, path, cq);
    lemma_assembled_scheme(scheme, tail);
    assert(tail[auth.len() as int] == '/');
    assert forall|j: int| 0 <= j < auth.len() implies !authority_delimiters().contains(#[trigger] tail[j]) by {
        assert(tail[j] == auth[j]);
    }
    lemma_first_any(tail, authority_delimiters(), auth.len() as int);
    assert(tail.take(auth.len() as int) =~= auth);
    assert(tail.skip(auth.len() as int) =~= path + qs);
    assert(!auth.contains('@'));
    lemma_assembled_path(scheme, host, port2, path, cq);
    lemma_normalize_reads(n, scheme.len() as int, scheme, auth, host, port2, path + qs);
}

/// The parts an accepted URL's normal form is assembled from: its scheme, a
/// lowercase valid host that is not X's, the port, a clean path that starts
/// with `/`, and the raw query.
proof fn lemma_normal_form_parts(raw: Seq<char>) -> (parts: (Seq<char>, Seq<char>, Option<u16>, Seq<char>, Option<Seq<char>>))
    requires
        normalize_external_url(raw) is Some,
    ensures
        parts.0 == http_scheme() || parts.0 == https_scheme(),
        valid_host(parts.1),
        lower_seq(parts.1) == parts.1,
        !is_x_host(parts.1),
        parts.3.len() > 0,
        parts.3[0] == '/',
        forall|i: int| 0 <= i < parts.3.len() ==> !is_rejected_char(#[trigger] parts.3[i]) && parts.3[i] != '#' && parts.3[i] != '?',
        parts.4 matches Some(q) ==> clean_text(q),
        normalize_external_url(raw) == Some(parts.0 + scheme_separator() + render_authority(parts.0, parts.1, parts.2)
            + parts.3 + query_suffix(canonical_query(parts.4))),
{
    let k = find_seq_from(raw, scheme_separator(), 0)->Some_0;
    lemma_find_seq_from(raw, scheme_separator(), 0);
    let scheme = lower_seq(raw.take(k));
    let rest = raw.skip(k + 3);
    lemma_find_any_from(rest, authority_delimiters(), 0);
    let aend = match find_any_from(rest, authority_delimiters(), 0) {
        Some(j) => j,
        None => rest.len() as int,
    };
    let authority = rest.take(aend);
    let hp = split_host_and_port(authority)->Some_0;
    let host = hp.0;
    let port = hp.1;
    let h0 = match rfind_char(authority, ':') {
        Some(c) => authority.take(c),
        None => authority,
    };
    assert(valid_host(h0) && host == lower_seq(h0));
    lemma_lower_host(h0);
    let pq = rest.skip(aend);
    lemma_find_char(pq, '#');
    let wf = match find_char(pq, '#') {
        Some(h) => pq.take(h),
        None => pq,
    };
    lemma_find_char(wf, '?');
    let path0 = match find_char(wf, '?') {
        Some(q) => wf.take(q),
        None => wf,
    };
    let query = match find_char(wf, '?') {
        Some(q) => Some(wf.skip(q + 1)),
        None => None,
    };
    let path = if path0.len() == 0 { seq!['/'] } else { path0 };
    assert(normalize_external_url(raw) == Some(scheme + scheme_separator() + render_authority(scheme, host, port)
        + path + query_suffix(canonical_query(query))));
    assert(forall|i: int| 0 <= i < raw.len() ==> !is_rejected_char(#[trigger] raw[i]));
    assert forall|i: int| 0 <= i < wf.len() implies !is_rejected_char(#[trigger] wf[i]) && wf[i] != '#' by {
        assert(wf[i] == pq[i]);
        assert(pq[i] == rest[aend + i]);
        assert(rest[aend + i] == raw[k + 3 + aend + i]);
    }
    if let Some(q) = query {
        let qi = find_char(wf, '?')->Some_0;
        assert forall|i: int| 0 <= i < q.len() implies !is_rejected_char(#[trigger] q[i]) && q[i] != '#' by {
            assert(q[i] == wf[qi + 1 + i]);
        }
    }
    assert forall|i: int| 0 <= i < path.len() implies !is_rejected_char(#[trigger] path[i]) && path[i] != '#' && path[i] != '?' by {
        if path0.len() > 0 {
            assert(path[i] == wf[i]);
        }
    }
    if path0.len() > 0 {
        assert(wf[0] == pq[0]);
        assert(aend < rest.len());
        assert(pq[0] == rest[aend]);
        assert(authority_delimiters().contains(rest[aend]));
    }
    (scheme, host, port, path, query)
}

/// A canonical URL is its own canonical form: normalizing the normal form of
/// an accepted URL gives that normal form back.
pub proof fn lemma_normal_form_is_fixed(raw: Seq<char>)
    requires
        normalize_external_url(raw) is Some,
    ensures
        normalize_external_url(normalize_external_url(raw)->Some_0) == normalize_external_url(raw),
{
    let parts = lemma_normal_form_parts(raw);
    lemma_assembled_is_fixed(parts.0, parts.1, parts.2, parts.3, parts.4);
}

/// Names that belong to X: `x.com`, `twitter.com`, `t.co`, and every name that
/// ends in `.x.com`, `.twitter.com` or `.t.co`.
pub open spec fn x_domain_name(h: Seq<char>) -> bool {
    ||| h == "x.com"@
    ||| h == "twitter.com"@
    ||| h == "t.co"@
    ||| ends_with(h, ".x.com"@)
    ||| ends_with(h, ".twitter.com"@)
    ||| ends_with(h, ".t.co"@)
}

proof fn lemma_subdomain_suffix(h: Seq<char>, d: Seq<char>, dotted: Seq<char>)
    requires
        dotted == seq!['.'] + d,
    ensures
        is_domain_or_subdomain(h, d) <==> (h == d || ends_with(h, dotted)),
{
    assert(dotted.len() == d.len() + 1);
    assert(dotted[0] == '.');
    assert(dotted.drop_first() =~= d);
    if h.len() > d.len() {
        let a = h.skip(h.len() - d.len());
        let b = h.skip(h.len() - d.len() - 1);
        assert(b =~= seq![h[h.len() - d.len() - 1]] + a);
        assert(b.drop_first() =~= a);
        assert(b[0] == h[h.len() - d.len() - 1]);
        assert(ends_with(h, dotted) == (b == dotted));
        assert(ends_with(h, d) == (a == d));
        if b == dotted {
            assert(a == d);
        }
        if a == d && h[h.len() - d.len() - 1] == '.' {
            assert(b =~= dotted);
        }
    } else {
        assert(!ends_with(h, dotted));
    }
}

/// X's hosts are exactly the X domain names.
pub proof fn lemma_x_hosts_are_x_domain_names(host: Seq<char>)
    ensures
        is_x_host(host) <==> x_domain_name(host),
{
    reveal_strlit("x.com");
    reveal_strlit("twitter.com");
    reveal_strlit("t.co");
    reveal_strlit(".x.com");
    reveal_strlit(".twitter.com");
    reveal_strlit(".t.co");
    assert("x.com"@ =~= x_com());
    assert("twitter.com"@ =~= twitter_com());
    assert("t.co"@ =~= t_co());
    assert(".x.com"@ =~= seq!['.'] + x_com());
    assert(".twitter.com"@ =~= seq!['.'] + twitter_com());
    assert(".t.co"@ =~= seq!['.'] + t_co());
    lemma_subdomain_suffix(host, x_com(), ".x.com"@);
    lemma_subdomain_suffix(host, twitter_com(), ".twitter.com"@);
    lemma_subdomain_suffix(host, t_co(), ".t.co"@);
}

/// The host of an assembled normal form is the text between `://` and the
/// first `/` or `:`.
proof fn lemma_assembled_host(scheme0: Seq<char>, host0: Seq<char>, port: Option<u16>, path: Seq<char>,
    qs: Seq<char>, scheme: Seq<char>, h: Seq<char>, c: char)
    requires
        scheme0 == http_scheme() || scheme0 == https_scheme(),
        scheme == http_scheme() || scheme == https_scheme(),
        valid_host(host0),
        path.len() > 0,
        path[0] == '/',
        c == '/' || c == ':',
        forall|i: int| 0 <= i < h.len() ==> #[trigger] h[i] != '/' && h[i] != ':',
        starts_with(scheme0 + scheme_separator() + render_authority(scheme0, host0, port) + path + qs,
            scheme + scheme_separator() + h + seq![c]),
    ensures
        h == host0,
{
    let auth = render_authority(scheme0, host0, port);
    let n = scheme0 + scheme_separator() + auth + path + qs;
    let p = scheme + scheme_separator() + h + seq![c];
    assert(n.take(p.len() as int) == p);
    assert forall|j: int| 0 <= j < p.len() implies #[trigger] n[j] == p[j] by {
        assert(n.take(p.len() as int)[j] == n[j]);
    }
    if scheme0 != scheme {
        assert(n[4] != p[4]);
    }
    let l: int = scheme.len() as int + 3;
    assert forall|j: int| 0 <= j < host0.len() implies #[trigger] n[l + j] == host0[j] by {
        assert(n[l + j] == auth[j]);
    }
    assert(n[l + host0.len() as int] == '/' || n[l + host0.len() as int] == ':') by {
        if auth.len() == host0.len() {
            assert(n[l + host0.len() as int] == path[0]);
        } else {
            assert(n[l + host0.len() as int] == auth[host0.len() as int]);
        }
    }
    assert(is_alnum(host0[0]) || host0[0] == '.' || host0[0] == '-');
    if h.len() < host0.len() {
        assert(p[l + h.len() as int] == c);
        assert(n[l + h.len() as int] == host0[h.len() as int]);
        assert(is_alnum(host0[h.len() as int]) || host0[h.len() as int] == '.' || host0[h.len() as int] == '-');
    } else if h.len() > host0.len() {
        assert(p[l + host0.len() as int] == h[host0.len() as int]);
    } else {
        assert forall|j: int| 0 <= j < h.len() implies #[trigger] h[j] == host0[j] by {
            assert(p[l + j] == h[j]);
        }
        assert(h =~= host0);
    }
}

/// No accepted URL points at X: the normal form of an accepted URL never
/// starts with `http://` or `https://`, then `x.com`, `twitter.com`, `t.co` or
/// a subdomain of one of them, then the end of the host (`/` or `:`).
pub proof fn lemma_normal_form_avoids_x_domains(raw: Seq<char>, scheme: Seq<char>, host: Seq<char>)
    requires
        normalize_external_url(raw) is Some,
        scheme == "http"@ || scheme == "https"@,
        x_domain_name(host),
        forall|i: int| 0 <= i < host.len() ==> #[trigger] host[i] != '/' && host[i] != ':',
    ensures
        !starts_with(normalize_external_url(raw)->Some_0, scheme + "://"@ + host + "/"@),
        !starts_with(normalize_external_url(raw)->Some_0, scheme + "://"@ + host + ":"@),
{
    reveal_strlit("http");
    reveal_strlit("https");
    reveal_strlit("://");
    reveal_strlit("/");
    reveal_strlit(":");
    assert("http"@ =~= http_scheme());
    assert("https"@ =~= https_scheme());
    assert("://"@ =~= scheme_separator());
    assert("/"@ =~= seq!['/']);
    assert(":"@ =~= seq![':']);
    let parts = lemma_normal_form_parts(raw);
    lemma_x_hosts_are_x_domain_names(parts.1);
    lemma_x_hosts_are_x_domain_names(host);
    let cq = query_suffix(canonical_query(parts.4));
    if starts_with(normalize_external_url(raw)->Some_0, scheme + "://"@ + host + "/"@) {
        lemma_assembled_host(parts.0, parts.1, parts.2, parts.3, cq, scheme, host, '/');
    }
    if starts_with(normalize_external_url(raw)->Some_0, scheme + "://"@ + host + ":"@) {
        lemma_assembled_host(parts.0, parts.1, parts.2, parts.3, cq, scheme, host, ':');
    }
}

/// No selected article link points at X: no selected canonical URL starts with
/// `http://` or `https://`, then `x.com`, `twitter.com`, `t.co` or a subdomain
/// of one of them, then the end of the host (`/` or `:`).
pub proof fn lemma_selected_urls_avoid_x_domains(urls: Seq<Seq<char>>, scheme: Seq<char>, host: Seq<char>)
    requires
        scheme == "http"@ || scheme == "https"@,
        x_domain_name(host),
        forall|i: int| 0 <= i < host.len() ==> #[trigger] host[i] != '/' && host[i] != ':',
    ensures
        forall|k: int| 0 <= k < select_urls(urls).len() ==> {
            &&& !starts_with((#[trigger] select_urls(urls)[k]).1, scheme + "://"@ + host + "/"@)
            &&& !starts_with(select_urls(urls)[k].1, scheme + "://"@ + host + ":"@)
        },
{
    lemma_selected_urls_are_canonical_and_unique(urls);
    assert forall|k: int| 0 <= k < select_urls(urls).len() implies {
        &&& !starts_with((#[trigger] select_urls(urls)[k]).1, scheme + "://"@ + host + "/"@)
        &&& !starts_with(select_urls(urls)[k].1, scheme + "://"@ + host + ":"@)
    } by {
        lemma_normal_form_avoids_x_domains(select_urls(urls)[k].0, scheme, host);
    }
}

/// Each text paired with itself.
pub open spec fn self_pairs(ns: Seq<Seq<char>>) -> Seq<(Seq<char>, Seq<char>)> {
    Seq::new(ns.len(), |i: int| (ns[i], ns[i]))
}

proof fn lemma_select_fixed_points(ns: Seq<Seq<char>>)
    requires
        forall|i: int| 0 <= i < ns.len() ==> normalize_external_url(#[trigger] ns[i]) == Some(ns[i]),
        forall|i: int, j: int| 0 <= i < j < ns.len() ==> #[trigger] ns[i] != #[trigger] ns[j],
    ensures
        select_urls(ns) == self_pairs(ns),
    decreases ns.len(),
{
    if ns.len() > 0 {
        let init = ns.drop_last();
        assert forall|i: int| 0 <= i < init.len() implies normalize_external_url(#[trigger] init[i]) == Some(init[i]) by {
            assert(init[i] == ns[i]);
        }
        assert forall|i: int, j: int| 0 <= i < j < init.len() implies #[trigger] init[i] != #[trigger] init[j] by {
            assert(init[i] == ns[i] && init[j] == ns[j]);
        }
        lemma_select_fixed_points(init);
        let prev = select_urls(init);
        assert(normalize_external_url(ns[ns.len() - 1]) == Some(ns.last()));
        assert(!(exists|k: int| 0 <= k < prev.len() && (#[trigger] prev[k]).1 == ns.last())) by {
            if exists|k: int| 0 <= k < prev.len() && (#[trigger] prev[k]).1 == ns.last() {
                let k = choose|k: int| 0 <= k < prev.len() && (#[trigger] prev[k]).1 == ns.last();
                assert(prev[k].1 == init[k]);
                assert(init[k] == ns[k]);
                assert(ns[k] != ns[ns.len() - 1]);
            }
        }
        assert(select_urls(ns) =~= self_pairs(ns));
    }
}

/// Selecting again from the selected canonical forms selects each of them,
/// in order, as its own canonical form.
pub proof fn lemma_reselect_is_identity(urls: Seq<Seq<char>>)
    ensures
        ({
            let ns = Seq::new(select_urls(urls).len(), |i: int| select_urls(urls)[i].1);
            select_urls(ns) == self_pairs(ns)
        }),
{
    let sel = select_urls(urls);
    let ns = Seq::new(sel.len(), |i: int| sel[i].1);
    lemma_selected_urls_are_canonical_and_unique(urls);
    assert forall|i: int| 0 <= i < ns.len() implies normalize_external_url(#[trigger] ns[i]) == Some(ns[i]) by {
        assert(normalize_external_url(sel[i].0) == Some(sel[i].1));
        lemma_normal_form_is_fixed(sel[i].0);
    }
    assert forall|i: int, j: int| 0 <= i < j < ns.len() implies #[trigger] ns[i] != #[trigger] ns[j] by {
        assert(sel[i].1 != sel[j].1);
    }
    lemma_select_fixed_points(ns);
}

// ---------------------------------------------------------------------------
// Capture requests and Extractor outcomes.
// ---------------------------------------------------------------------------

/// Linked-article capture or outcome projection failure.
#[derive(Debug, Clone, Copy, PartialEq, Eq, Structural)]
pub enum ArticleCaptureError {
    /// The inbound event is not a validated Extractor document result for this capture.
    InvalidOutcome,
    /// The source does not belong to the account or is not available.
    SourceUnavailable,
    /// A database query failed.
    Query,
}

fn tagged(prefix: &str, id: u128) -> (r: String)
    ensures
        r@ == tagged_uuid(prefix@, id),
{
    let mut out = chars_of(prefix);
    extend_chars(&mut out, &uuid_string(id));
    string_of(&out)
}

/// The correlation identity of a capture: `article_capture:` and the capture.
pub fn capture_correlation_id(capture_id: u128) -> (r: String)
    ensures
        r@ == tagged_uuid("article_capture:"@, capture_id),
{
    tagged("article_capture:", capture_id)
}

/// The capture command a newly created capture publishes, members by key;
/// `requested_at` is the command's wire timestamp text.
pub open spec fn capture_command_text(
    command_id: u128,
    capture_id: u128,
    owner_id: u128,
    correlation_id: Seq<char>,
    requested_at: Seq<char>,
    normalized_url: Seq<char>,
) -> Seq<char> {
    object_text(seq![
        member_text("command_id"@, string_literal(uuid_text(command_id))),
        member_text("command_type"@, string_literal("content.capture.requested.v1"@)),
        member_text("correlation_id"@, string_literal(correlation_id)),
        member_text("idempotency_key"@, string_literal(uuid_text(capture_id))),
        member_text("operation_id"@, string_literal(uuid_text(capture_id))),
        member_text("payload"@, object_text(seq![member_text("url"@, string_literal(normalized_url))])),
        member_text("requested_at"@, string_literal(requested_at)),
        member_text("tenant_id"@, string_literal(tagged_uuid("user:"@, owner_id))),
    ])
}

fn uuid_str(id: u128) -> (r: String)
    ensures
        r@ == uuid_text(id),
{
    string_of(&uuid_string(id))
}

/// Builds the capture command of a newly created capture.
pub fn capture_command(
    command_id: u128,
    capture_id: u128,
    owner_id: u128,
    correlation_id: &str,
    requested_at: &str,
    normalized_url: &str,
) -> (r: String)
    ensures
        r@ == capture_command_text(command_id, capture_id, owner_id, correlation_id@, requested_at@, normalized_url@),
{
    let capture = uuid_str(capture_id);
    let mut payload_members: Vec<Vec<char>> = Vec::new();
    payload_members.push(member_text_exec("url", &string_literal_exec(normalized_url)));
    assert(views(payload_members@) =~= seq![member_text("url"@, string_literal(normalized_url@))]);
    let payload = object_text_exec(&payload_members);
    let mut members: Vec<Vec<char>> = Vec::new();
    members.push(member_text_exec("command_id", &string_literal_exec(uuid_str(command_id).as_str())));
    members.push(member_text_exec("command_type", &string_literal_exec("content.capture.requested.v1")));
    members.push(member_text_exec("correlation_id", &string_literal_exec(correlation_id)));
    members.push(member_text_exec("idempotency_key", &string_literal_exec(capture.as_str())));
    members.push(member_text_exec("operation_id", &string_literal_exec(capture.as_str())));
    members.push(member_text_exec("payload", &payload));
    members.push(member_text_exec("requested_at", &string_literal_exec(requested_at)));
    members.push(member_text_exec("tenant_id", &string_literal_exec(tagged("user:", owner_id).as_str())));
    assert(views(members@) =~= seq![
        member_text("command_id"@, string_literal(uuid_text(command_id))),
        member_text("command_type"@, string_literal("content.capture.requested.v1"@)),
        member_text("correlation_id"@, string_literal(correlation_id@)),
        member_text("idempotency_key"@, string_literal(uuid_text(capture_id))),
        member_text("operation_id"@, string_literal(uuid_text(capture_id))),
        member_text("payload"@, object_text(seq![member_text("url"@, string_literal(normalized_url@))])),
        member_text("requested_at"@, string_literal(requested_at@)),
        member_text("tenant_id"@, string_literal(tagged_uuid("user:"@, owner_id))),
    ]);
    string_of(&object_text_exec(&members))
}

/// One result an Extractor operation report lists.
pub struct ReportResult {
    pub result_kind: String,
    pub target_kind: String,
    /// The target's UUID, when it is one.
    pub target_uuid: Option<u128>,
    /// The service owning the result's blob, when it has one.
    pub blob_owner: Option<String>,
}

/// The first `content.document` result at or after `i`.
pub open spec fn first_document_from(results: Seq<ReportResult>, i: int) -> Option<int>
    decreases results.len() - i,
{
    if i < 0 || i >= results.len() {
        None
    } else if results[i].result_kind@ == "content.document"@ {
        Some(i)
    } else {
        first_document_from(results, i + 1)
    }
}

/// The document a report names: its first `content.document` result must
/// target a document by UUID and carry an Extractor-owned blob.
pub open spec fn report_document(results: Seq<ReportResult>) -> Option<(int, u128)> {
    match first_document_from(results, 0) {
        None => None,
        Some(i) => {
            let r = results[i];
            if r.target_kind@ == "document"@ && r.target_uuid is Some
                && (r.blob_owner matches Some(owner) && owner@ == "ratatoskr-extractor"@) {
                Some((i, r.target_uuid->0))
            } else {
                None
            }
        },
    }
}

/// Finds the document result of a report: its position and document identity.
pub fn select_document_result(results: &Vec<ReportResult>) -> (r: Result<(usize, u128), ArticleCaptureError>)
    ensures
        match report_document(results@) {
            Some((i, doc)) => r == Ok::<(usize, u128), ArticleCaptureError>((i as usize, doc)),
            None => r == Err::<(usize, u128), ArticleCaptureError>(ArticleCaptureError::InvalidOutcome),
        },
{
    let mut i: usize = 0;
    while i < results.len()
        invariant
            i <= results.len(),
            first_document_from(results@, 0) == first_document_from(results@, i as int),
        decreases results.len() - i,
    {
        if str_eq(results[i].result_kind.as_str(), "content.document") {
            let r = &results[i];
            let owner_ok = match &r.blob_owner {
                Some(owner) => str_eq(owner.as_str(), "ratatoskr-extractor"),
                None => false,
            };
            if str_eq(r.target_kind.as_str(), "document") && owner_ok {
                match r.target_uuid {
                    Some(doc) => return Ok((i, doc)),
                    None => return Err(ArticleCaptureError::InvalidOutcome),
                }
            }
            return Err(ArticleCaptureError::InvalidOutcome);
        }
        i += 1;
    }
    Err(ArticleCaptureError::InvalidOutcome)
}

/// Whether an Extractor event may be consumed: it comes from the Extractor,
/// reports success, and carries a tenant.
pub fn check_extractor_report(producer: &str, succeeded: bool, tenant_id: Option<&str>) -> (r: Result<(), ArticleCaptureError>)
    ensures
        r is Ok <==> (producer@ == "ratatoskr-extractor"@ && succeeded && tenant_id is Some),
        r is Err ==> r == Err::<(), ArticleCaptureError>(ArticleCaptureError::InvalidOutcome),
{
    if !str_eq(producer, "ratatoskr-extractor") || !succeeded || tenant_id.is_none() {
        Err(ArticleCaptureError::InvalidOutcome)
    } else {
        Ok(())
    }
}

/// Whether an outcome is for a capture: the operation is the capture and
/// the tenant is its owner.
pub open spec fn outcome_belongs_to(operation_id: Seq<char>, tenant_id: Seq<char>, capture_id: u128, owner_id: u128) -> bool {
    operation_id == uuid_text(capture_id) && tenant_id == tagged_uuid("user:"@, owner_id)
}

/// Checks an outcome against the capture its correlation identity names.
pub fn check_outcome_capture(operation_id: &str, tenant_id: &str, capture: Option<(u128, u128)>) -> (r: Result<u128, ArticleCaptureError>)
    ensures
        match capture {
            Some((capture_id, owner_id)) => if outcome_belongs_to(operation_id@, tenant_id@, capture_id, owner_id) {
                r == Ok::<u128, ArticleCaptureError>(capture_id)
            } else {
                r == Err::<u128, ArticleCaptureError>(ArticleCaptureError::InvalidOutcome)
            },
            None => r == Err::<u128, ArticleCaptureError>(ArticleCaptureError::InvalidOutcome),
        },
{
    match capture {
        None => Err(ArticleCaptureError::InvalidOutcome),
        Some((capture_id, owner_id)) => {
            let capture_text = uuid_str(capture_id);
            let owner_text = tagged("user:", owner_id);
            if str_eq(operation_id, capture_text.as_str()) && str_eq(tenant_id, owner_text.as_str()) {
                Ok(capture_id)
            } else {
                Err(ArticleCaptureError::InvalidOutcome)
            }
        },
    }
}

/// A completed capture updates exactly one requested capture.
pub fn capture_completed(rows_affected: u64) -> (r: Result<(), ArticleCaptureError>)
    ensures
        r == if rows_affected == 1 { Ok::<(), ArticleCaptureError>(()) } else { Err(ArticleCaptureError::InvalidOutcome) },
{
    if rows_affected == 1 { Ok(()) } else { Err(ArticleCaptureError::InvalidOutcome) }
}

impl ArticleCaptureError {
    /// The error's display text.
    pub fn message(&self) -> (r: &'static str)
        ensures
            r@ == match *self {
                ArticleCaptureError::InvalidOutcome => "the extractor outcome is invalid for this article capture"@,
                ArticleCaptureError::SourceUnavailable => "the social source is unavailable for this account"@,
                ArticleCaptureError::Query => "the article capture query failed"@,
            },
    {
        match self {
            ArticleCaptureError::InvalidOutcome => "the extractor outcome is invalid for this article capture",
            ArticleCaptureError::SourceUnavailable => "the social source is unavailable for this account",
            ArticleCaptureError::Query => "the article capture query failed",
        }
    }
}

} // verus!
