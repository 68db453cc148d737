//! The decisions the HTTP server takes on each request and at startup:
//! which internal endpoint a path reaches and who may reach it, which
//! PHP files the sandbox lets run, what goes to the security scan, how
//! long a request waits for a worker, how a PHP reply becomes a
//! response, and which headers every response carries.  Sockets, the
//! worker processes and the clock stay with the caller.
use vstd::prelude::*;
use vstd::utf8::encode_utf8;

use crate::admin::{forbidden, member, member_chars, num_member, object, object_chars, plain, quoted_text, resp_view, AdminResponse};
use crate::paths::join;
use crate::text::{
    chars_of, contains, contains_chars, decimal, decimal_chars, decode_utf8_lossy, ends_with,
    ends_with_chars, eq_ignore_ascii_case,
    eq_ignore_ascii_case_chars, find_char, lowercase, opt_str, push_all,
    pair_views, parse_unsigned, parse_unsigned_chars, push_str, split_chars, split_on, starts_with,
    starts_with_chars, str_eq, string_of, sub_chars, to_lowercase_chars, trim_end, trim_end_chars, trim_start, trim_start_chars,
    trim_ws, trim_ws_chars, utf8_lossy, views, CharClass,
};
use crate::compat::SERVER_VERSION;
use crate::compression::{compressible, is_compressible_content_type};
use crate::config::{str_views, CorsConfig, WorkerPoolRouteConfig};
use crate::features::{confine_spec, confine_to_root, is_sendfile_header, matches_pool_route, opt_view, route_matches};
use crate::paths::{canonical_path, canonicalize, join_path_chars, path_is_file, path_starts_with};
use crate::http_helpers::{
    cors_origin_allowed, detect_content_type, detected_type, last_dot_piece, mime_for_ext,
    mime_table, mime_type_for_extension, origin_allowed,
};
use crate::store::{xxh3, xxh3_of};

verus! {

// ───────────────────────────── paths ─────────────────────────────

/// The path of a request URI without its query: what comes before the
/// first `?`.
pub open spec fn clean_path_of(uri: Seq<char>) -> Seq<char> {
    split_on(uri, '?')[0]
}

/// The characters of `s` before the first `c`, or all of them.
fn before_char(s: &[char], c: char) -> (r: Vec<char>)
    ensures
        r@ == split_on(s@, c)[0],
{
    proof {
        crate::text::lemma_first_occurrence(s@, seq![c]);
    }
    match find_char(s, c) {
        Some(i) => {
            let r = sub_chars(s, 0, i);
            assert(r@ =~= s@.take(i as int));
            r
        },
        None => sub_chars(s, 0, s.len()),
    }
}

/// The request path without its query string.
pub fn clean_path(uri: &str) -> (r: String)
    ensures
        r@ == clean_path_of(uri@),
{
    let u = chars_of(uri);
    let p = before_char(u.as_slice(), '?');
    string_of(p.as_slice())
}

// ───────────────────────────── internal endpoints ─────────────────────────────

/// Where a request under `/_/` goes.
#[derive(Debug, Clone, Copy, PartialEq, Eq, Structural)]
pub enum InternalRoute {
    /// The dashboard page, served without a token.
    Dashboard,
    /// A token is configured and the request does not carry it.
    Unauthorized,
    /// Prometheus metrics.
    Metrics,
    /// The status document.
    Status,
    /// Empties the response cache.
    CacheClear,
    /// Lists the blocked IP addresses.
    SecurityBlocked,
    /// Unblocks one IP address.
    SecurityUnblock,
    /// The shared table's endpoints.
    Table,
    /// Anything else.
    NotFound,
}

/// The `Authorization` header carries `Bearer ` and then the token.
pub open spec fn bearer_ok(auth: Option<Seq<char>>, token: Seq<char>) -> bool {
    match auth {
        Some(v) => starts_with(v, "Bearer "@) && v.skip("Bearer "@.len() as int) == token,
        None => false,
    }
}

/// The route of an internal path: the dashboard first, then the token
/// check, then the endpoints that are enabled.
pub open spec fn internal_route_of(
    path: Seq<char>,
    method: Seq<char>,
    auth: Option<Seq<char>>,
    token: Option<Seq<char>>,
    dashboard_enabled: bool,
    statistics_enabled: bool,
    table_enabled: bool,
) -> InternalRoute {
    if path == "/_/dashboard"@ && dashboard_enabled {
        InternalRoute::Dashboard
    } else if token is Some && !bearer_ok(auth, token->0) {
        InternalRoute::Unauthorized
    } else if path == "/_/metrics"@ && statistics_enabled {
        InternalRoute::Metrics
    } else if path == "/_/status"@ && statistics_enabled {
        InternalRoute::Status
    } else if path == "/_/cache/clear"@ {
        InternalRoute::CacheClear
    } else if path == "/_/security/blocked"@ && method == "GET"@ {
        InternalRoute::SecurityBlocked
    } else if path == "/_/security/unblock"@ && method == "POST"@ {
        InternalRoute::SecurityUnblock
    } else if table_enabled && starts_with(path, "/_/table"@) {
        InternalRoute::Table
    } else {
        InternalRoute::NotFound
    }
}

/// Whether `auth` carries `Bearer ` followed by `token`.
pub fn bearer_authorized(auth: Option<&str>, token: &str) -> (r: bool)
    ensures
        r == bearer_ok(opt_str(auth), token@),
{
    match auth {
        None => false,
        Some(v) => {
            let c = chars_of(v);
            let p = chars_of("Bearer ");
            if !starts_with_chars(c.as_slice(), p.as_slice()) {
                return false;
            }
            let rest = sub_chars(c.as_slice(), p.len(), c.len());
            let t = chars_of(token);
            assert(rest@ =~= v@.skip("Bearer "@.len() as int));
            crate::text::chars_eq(rest.as_slice(), t.as_slice())
        },
    }
}

/// The route of an internal request (`path` starts with `/_/`).
pub fn internal_route(
    path: &str,
    method: &str,
    auth: Option<&str>,
    token: Option<&str>,
    dashboard_enabled: bool,
    statistics_enabled: bool,
    table_enabled: bool,
) -> (r: InternalRoute)
    ensures
        r == internal_route_of(
            path@,
            method@,
            opt_str(auth),
            opt_str(token),
            dashboard_enabled,
            statistics_enabled,
            table_enabled,
        ),
{
    if dashboard_enabled && str_eq(path, "/_/dashboard") {
        return InternalRoute::Dashboard;
    }
    if let Some(t) = token {
        if !bearer_authorized(auth, t) {
            return InternalRoute::Unauthorized;
        }
    }
    if statistics_enabled && str_eq(path, "/_/metrics") {
        InternalRoute::Metrics
    } else if statistics_enabled && str_eq(path, "/_/status") {
        InternalRoute::Status
    } else if str_eq(path, "/_/cache/clear") {
        InternalRoute::CacheClear
    } else if str_eq(path, "/_/security/blocked") && str_eq(method, "GET") {
        InternalRoute::SecurityBlocked
    } else if str_eq(path, "/_/security/unblock") && str_eq(method, "POST") {
        InternalRoute::SecurityUnblock
    } else {
        let p = chars_of(path);
        let t = chars_of("/_/table");
        if table_enabled && starts_with_chars(p.as_slice(), t.as_slice()) {
            InternalRoute::Table
        } else {
            InternalRoute::NotFound
        }
    }
}

// ───────────────────────────── internal endpoint bodies ─────────────────────────────

/// The body of `/_/cache/clear`.
pub open spec fn cache_cleared_body(n: nat) -> Seq<char> {
    "{\"cleared\": "@ + decimal(n) + "}"@
}

/// Reports how many responses were dropped from the cache.
pub fn cache_cleared_json(n: usize) -> (r: String)
    ensures
        r@ == cache_cleared_body(n as nat),
{
    let mut v: Vec<char> = Vec::new();
    push_str(&mut v, "{\"cleared\": ");
    let d = decimal_chars(n as u64);
    push_all(&mut v, d.as_slice());
    push_str(&mut v, "}");
    string_of(v.as_slice())
}

/// One blocked address: its text and the seconds until it is released
/// (`null` when it is blocked for good).
pub open spec fn blocked_item(ip: Seq<char>, secs: Option<u64>) -> Seq<char> {
    object(seq![member("ip"@, quoted_text(ip)), member("expires_in_secs"@, expires_text(secs))])
}

/// Seconds left, or `null`.
pub open spec fn expires_text(secs: Option<u64>) -> Seq<char> {
    match secs {
        Some(s) => decimal(s as nat),
        None => "null"@,
    }
}

/// The items of a list of blocked addresses.
pub open spec fn blocked_items(es: Seq<(String, Option<u64>)>) -> Seq<Seq<char>> {
    es.map_values(|e: (String, Option<u64>)| blocked_item(e.0@, e.1))
}

/// The body of `/_/security/blocked`.
pub open spec fn blocked_body(es: Seq<(String, Option<u64>)>) -> Seq<char> {
    object(
        seq![
            member("blocked"@, seq!['['] + join(blocked_items(es), ',') + seq![']']),
            member("count"@, decimal(es.len())),
        ],
    )
}

fn blocked_item_chars(ip: &str, secs: Option<u64>) -> (r: Vec<char>)
    ensures
        r@ == blocked_item(ip@, secs),
{
    let mut q: Vec<char> = Vec::new();
    q.push('"');
    push_str(&mut q, ip);
    q.push('"');
    assert(q@ =~= quoted_text(ip@));
    let a = member_chars("ip", q.as_slice());
    let b = match secs {
        Some(n) => num_member("expires_in_secs", n),
        None => {
            let z = chars_of("null");
            member_chars("expires_in_secs", z.as_slice())
        },
    };
    assert(b@ == member("expires_in_secs"@, expires_text(secs)));
    let mut ms: Vec<Vec<char>> = Vec::new();
    ms.push(a);
    ms.push(b);
    assert(views(ms@) =~= seq![member("ip"@, quoted_text(ip@)), b@]);
    let r = object_chars(&ms);
    r
}

/// Lists the blocked addresses, each with the seconds left.
pub fn blocked_list_json(entries: &[(String, Option<u64>)]) -> (r: String)
    ensures
        r@ == blocked_body(entries@),
{
    let mut items: Vec<Vec<char>> = Vec::new();
    let mut i: usize = 0;
    while i < entries.len()
        invariant
            i <= entries@.len(),
            views(items@) == blocked_items(entries@.take(i as int)),
        decreases entries@.len() - i,
    {
        let it = blocked_item_chars(entries[i].0.as_str(), entries[i].1);
        let ghost before = views(items@);
        items.push(it);
        proof {
            assert(views(items@) =~= before.push(it@));
            assert(entries@.take(i + 1) =~= entries@.take(i as int).push(entries@[i as int]));
            assert(blocked_items(entries@.take(i + 1)) =~= blocked_items(entries@.take(i as int)).push(
                blocked_item(entries@[i as int].0@, entries@[i as int].1),
            ));
        }
        i = i + 1;
    }
    assert(entries@.take(entries@.len() as int) =~= entries@);
    let j = crate::paths::join_chars(&items, ',');
    let mut list: Vec<char> = Vec::new();
    list.push('[');
    push_all(&mut list, j.as_slice());
    list.push(']');
    assert(list@ =~= seq!['['] + join(blocked_items(entries@), ',') + seq![']']);
    let a = member_chars("blocked", list.as_slice());
    let b = num_member("count", entries.len() as u64);
    let mut ms: Vec<Vec<char>> = Vec::new();
    ms.push(a);
    ms.push(b);
    assert(views(ms@) =~= seq![a@, b@]);
    let o = object_chars(&ms);
    string_of(o.as_slice())
}

/// Index of the first `x` in `ps`, or -1.
pub open spec fn first_index(ps: Seq<Seq<char>>, x: Seq<char>) -> int
    decreases ps.len(),
{
    if ps.len() == 0 {
        -1
    } else {
        let j = first_index(ps.drop_last(), x);
        if j >= 0 {
            j
        } else if ps.last() == x {
            ps.len() - 1
        } else {
            -1
        }
    }
}

proof fn lemma_first_index_none(ps: Seq<Seq<char>>, x: Seq<char>)
    requires
        forall|j: int| 0 <= j < ps.len() ==> ps[j] != x,
    ensures
        first_index(ps, x) == -1,
    decreases ps.len(),
{
    if ps.len() > 0 {
        lemma_first_index_none(ps.drop_last(), x);
    }
}

proof fn lemma_first_index_at(ps: Seq<Seq<char>>, x: Seq<char>, i: int)
    requires
        0 <= i < ps.len(),
        ps[i] == x,
        forall|j: int| 0 <= j < i ==> ps[j] != x,
    ensures
        first_index(ps, x) == i,
    decreases ps.len(),
{
    if ps.len() == i + 1 {
        lemma_first_index_none(ps.drop_last(), x);
    } else {
        lemma_first_index_at(ps.drop_last(), x, i);
    }
}

/// The address named in an unblock request body such as
/// `{"ip":"1.2.3.4"}`: the body split at `"`, the second piece after the
/// first piece that is `ip`, trimmed; empty when there is none.
pub open spec fn unblock_ip_of(body: Seq<char>) -> Seq<char> {
    let parts = split_on(body, '"');
    let k = first_index(parts, "ip"@);
    if k >= 0 && k + 2 < parts.len() {
        trim_ws(parts[k + 2])
    } else {
        Seq::empty()
    }
}

/// The address text of an unblock request body (decoded leniently).
pub fn unblock_ip_text(body: &[u8]) -> (r: String)
    ensures
        r@ == unblock_ip_of(utf8_lossy(body@)),
{
    let text = decode_utf8_lossy(body);
    let parts = split_chars(text.as_slice(), '"');
    let ip = chars_of("ip");
    let mut i: usize = 0;
    while i < parts.len()
        invariant
            i <= parts@.len(),
            views(parts@) == split_on(text@, '"'),
            forall|j: int| 0 <= j < i ==> views(parts@)[j] != ip@,
            ip@ == "ip"@,
            text@ == utf8_lossy(body@),
        decreases parts@.len() - i,
    {
        assert(views(parts@)[i as int] == parts@[i as int]@);
        let same = crate::text::chars_eq(parts[i].as_slice(), ip.as_slice());
        assert(same == (views(parts@)[i as int] == "ip"@));
        if same {
            proof {
                lemma_first_index_at(views(parts@), "ip"@, i as int);
            }
            if parts.len() - i > 2 {
                assert(views(parts@)[i + 2] == parts@[i + 2]@);
                let t = trim_ws_chars(parts[i + 2].as_slice());
                return string_of(t.as_slice());
            }
            return String::new();
        }
        i = i + 1;
    }
    proof {
        lemma_first_index_none(views(parts@), "ip"@);
    }
    String::new()
}

/// The body answering an unblock request for `ip`.
pub open spec fn unblock_body(ip: Seq<char>, found: bool) -> Seq<char> {
    if found {
        "{\"unblocked\":true,\"ip\":\""@ + ip + "\"}"@
    } else {
        "{\"unblocked\":false,\"ip\":\""@ + ip + "\",\"note\":\"IP was not blocked\"}"@
    }
}

/// Answers an unblock request: whether `ip` was blocked.
pub fn unblock_json(ip: &str, found: bool) -> (r: String)
    ensures
        r@ == unblock_body(ip@, found),
{
    let mut v: Vec<char> = Vec::new();
    if found {
        push_str(&mut v, "{\"unblocked\":true,\"ip\":\"");
        push_str(&mut v, ip);
        push_str(&mut v, "\"}");
    } else {
        push_str(&mut v, "{\"unblocked\":false,\"ip\":\"");
        push_str(&mut v, ip);
        push_str(&mut v, "\",\"note\":\"IP was not blocked\"}");
    }
    string_of(v.as_slice())
}

// ───────────────────────────── virtual hosts ─────────────────────────────

/// The virtual host key of a `Host` header: what comes before the first
/// `:`, in lower case.
pub open spec fn host_key(host: Seq<char>) -> Seq<char> {
    lowercase(split_on(host, ':')[0])
}

/// The virtual host key of a `Host` header.
pub fn host_domain(host: &str) -> (r: String)
    ensures
        r@ == host_key(host@),
{
    let h = chars_of(host);
    let d = before_char(h.as_slice(), ':');
    let l = to_lowercase_chars(d.as_slice());
    string_of(l.as_slice())
}

// ───────────────────────────── security scan and sandbox ─────────────────────────────

/// At most this many bytes of a raw body are handed to the scan.
pub const BODY_SCAN_LIMIT: usize = 8192;

/// The raw body as the scan sees it, when there are no form fields to
/// scan instead: its first `BODY_SCAN_LIMIT` bytes, decoded leniently.
pub open spec fn body_scan_text(body: Seq<u8>, post: Seq<(Seq<char>, Seq<char>)>) -> Seq<char> {
    if body.len() > 0 && post.len() == 0 {
        utf8_lossy(body.take(if body.len() < BODY_SCAN_LIMIT { body.len() as int } else { BODY_SCAN_LIMIT as int }))
    } else {
        Seq::empty()
    }
}

/// The parameters handed to the input scan: the query parameters, the
/// form fields, and the raw body under the name `_body` when it is not
/// empty.
pub open spec fn scan_list(
    query: Seq<(Seq<char>, Seq<char>)>,
    post: Seq<(Seq<char>, Seq<char>)>,
    body: Seq<u8>,
) -> Seq<(Seq<char>, Seq<char>)> {
    let raw = body_scan_text(body, post);
    query + post + if raw.len() > 0 {
        seq![("_body"@, raw)]
    } else {
        Seq::empty()
    }
}

fn push_pairs(out: &mut Vec<(String, String)>, ps: &Vec<(String, String)>)
    ensures
        pair_views(final(out)@) == pair_views(old(out)@) + pair_views(ps@),
{
    let ghost start = pair_views(out@);
    let mut i: usize = 0;
    while i < ps.len()
        invariant
            i <= ps@.len(),
            pair_views(out@) == start + pair_views(ps@.take(i as int)),
        decreases ps@.len() - i,
    {
        let k = ps[i].0.clone();
        let v = ps[i].1.clone();
        let ghost before = pair_views(out@);
        out.push((k, v));
        proof {
            assert(pair_views(out@) =~= before.push((ps@[i as int].0@, ps@[i as int].1@)));
            assert(ps@.take(i + 1) =~= ps@.take(i as int).push(ps@[i as int]));
            assert(pair_views(out@) =~= start + pair_views(ps@.take(i + 1)));
        }
        i = i + 1;
    }
    assert(ps@.take(ps@.len() as int) =~= ps@);
}

/// Collects what the input scan inspects.
pub fn scan_params(
    query: &Vec<(String, String)>,
    post: &Vec<(String, String)>,
    body: &[u8],
) -> (r: Vec<(String, String)>)
    ensures
        pair_views(r@) == scan_list(pair_views(query@), pair_views(post@), body@),
{
    let mut r: Vec<(String, String)> = Vec::new();
    assert(pair_views(r@) =~= Seq::<(Seq<char>, Seq<char>)>::empty());
    push_pairs(&mut r, query);
    push_pairs(&mut r, post);
    let ghost qp = pair_views(r@);
    if body.len() > 0 && post.len() == 0 {
        let n = if body.len() < BODY_SCAN_LIMIT { body.len() } else { BODY_SCAN_LIMIT };
        let head = crate::text::sub_bytes(body, 0, n);
        assert(head@ =~= body@.take(n as int));
        let raw = decode_utf8_lossy(head.as_slice());
        if raw.len() > 0 {
            r.push((String::from_str("_body"), string_of(raw.as_slice())));
            assert(pair_views(r@) =~= qp + seq![("_body"@, raw@)]);
        } else {
            assert(pair_views(r@) =~= qp + Seq::<(Seq<char>, Seq<char>)>::empty());
        }
    } else {
        assert(pair_views(r@) =~= qp + Seq::<(Seq<char>, Seq<char>)>::empty());
    }
    r
}

/// Whether the sandbox lets a PHP file run.
#[derive(Debug, Clone, Copy, PartialEq, Eq, Structural)]
pub enum ExecutionVerdict {
    Allowed,
    /// A whitelist is set and the file is not on it.
    NotWhitelisted,
    /// The file lies in this data directory (its index in the list).
    InDataDirectory(usize),
}

/// The refusal of a PHP file that the execution rules deny: none when
/// the file may run; otherwise a `403` naming the rule.
pub fn execution_denial(v: &ExecutionVerdict) -> (r: Option<AdminResponse>)
    ensures
        match v {
            ExecutionVerdict::Allowed => r is None,
            ExecutionVerdict::NotWhitelisted => r matches Some(x) && resp_view(x) == plain(
                403,
                "text/plain"@,
                encode_utf8("403 Forbidden: "@ + "file not in execution whitelist"@),
            ),
            ExecutionVerdict::InDataDirectory(_) => r matches Some(x) && resp_view(x) == plain(
                403,
                "text/plain"@,
                encode_utf8("403 Forbidden: "@ + "execution denied in data directory"@),
            ),
        },
{
    match v {
        ExecutionVerdict::Allowed => None,
        ExecutionVerdict::NotWhitelisted => Some(forbidden("file not in execution whitelist")),
        ExecutionVerdict::InDataDirectory(_) => Some(forbidden("execution denied in data directory")),
    }
}

/// The refusal, if any, of a request for a PHP file, in the order the
/// server checks: the execution rules first, then the security verdict
/// (`blocked` holds its reason when it blocks the request).
pub fn php_gate(exec: &ExecutionVerdict, blocked: Option<&str>) -> (r: Option<AdminResponse>)
    ensures
        !(exec is Allowed) ==> (r matches Some(x) && execution_denial_spec(*exec) == Some(resp_view(x))),
        exec is Allowed ==> match blocked {
            Some(reason) => r matches Some(x) && resp_view(x) == plain(
                403,
                "text/plain"@,
                encode_utf8("403 Forbidden: "@ + reason@),
            ),
            None => r is None,
        },
{
    match execution_denial(exec) {
        Some(d) => Some(d),
        None => match blocked {
            Some(reason) => Some(forbidden(reason)),
            None => None,
        },
    }
}

/// Where a request goes first, by its cleaned path: the internal
/// endpoints under `/_/`, then ACME challenges, then the application.
pub enum FrontStage {
    Internal,
    AcmeChallenge,
    App,
}

/// The first stage a request with cleaned path `clean` reaches.
pub fn front_stage(clean: &str) -> (r: FrontStage)
    ensures
        starts_with(clean@, "/_/"@) ==> r is Internal,
        !starts_with(clean@, "/_/"@) && starts_with(clean@, "/.well-known/acme-challenge/"@) ==> r is AcmeChallenge,
        !starts_with(clean@, "/_/"@) && !starts_with(clean@, "/.well-known/acme-challenge/"@) ==> r is App,
{
    let c = chars_of(clean);
    let internal = chars_of("/_/");
    let acme = chars_of("/.well-known/acme-challenge/");
    if starts_with_chars(c.as_slice(), internal.as_slice()) {
        FrontStage::Internal
    } else if starts_with_chars(c.as_slice(), acme.as_slice()) {
        FrontStage::AcmeChallenge
    } else {
        FrontStage::App
    }
}

/// The refusal of a PHP file the execution rules deny, as a response
/// view (none when the file may run).
pub open spec fn execution_denial_spec(v: ExecutionVerdict) -> Option<(u16, Seq<char>, Seq<u8>, Seq<(Seq<char>, Seq<char>)>)> {
    match v {
        ExecutionVerdict::Allowed => None,
        ExecutionVerdict::NotWhitelisted => Some(plain(
            403,
            "text/plain"@,
            encode_utf8("403 Forbidden: "@ + "file not in execution whitelist"@),
        )),
        ExecutionVerdict::InDataDirectory(_) => Some(plain(
            403,
            "text/plain"@,
            encode_utf8("403 Forbidden: "@ + "execution denied in data directory"@),
        )),
    }
}

/// The data directory `d` covers `path`: `path` starts with `d` without
/// its trailing slashes.
pub open spec fn in_data_dir(d: Seq<char>, path: Seq<char>) -> bool {
    starts_with(path, trim_end(d, CharClass::Exactly('/')))
}

/// Index of the first data directory that covers `path`, or -1.
pub open spec fn data_dir_index(ds: Seq<Seq<char>>, path: Seq<char>) -> int
    decreases ds.len(),
{
    if ds.len() == 0 {
        -1
    } else {
        let j = data_dir_index(ds.drop_last(), path);
        if j >= 0 {
            j
        } else if in_data_dir(ds.last(), path) {
            ds.len() - 1
        } else {
            -1
        }
    }
}

proof fn lemma_data_dir_none(ds: Seq<Seq<char>>, path: Seq<char>)
    requires
        forall|j: int| 0 <= j < ds.len() ==> !in_data_dir(ds[j], path),
    ensures
        data_dir_index(ds, path) == -1,
    decreases ds.len(),
{
    if ds.len() > 0 {
        lemma_data_dir_none(ds.drop_last(), path);
    }
}

proof fn lemma_data_dir_at(ds: Seq<Seq<char>>, path: Seq<char>, i: int)
    requires
        0 <= i < ds.len(),
        in_data_dir(ds[i], path),
        forall|j: int| 0 <= j < i ==> !in_data_dir(ds[j], path),
    ensures
        data_dir_index(ds, path) == i,
    decreases ds.len(),
{
    if ds.len() == i + 1 {
        lemma_data_dir_none(ds.drop_last(), path);
    } else {
        lemma_data_dir_at(ds.drop_last(), path, i);
    }
}

/// Whether the sandbox lets the file at `path` run: it must be on the
/// whitelist unless that is empty, and in no data directory; the first
/// data directory that holds it is named.
pub open spec fn execution_verdict_of(
    whitelist: Seq<Seq<char>>,
    data_dirs: Seq<Seq<char>>,
    path: Seq<char>,
) -> ExecutionVerdict {
    if whitelist.len() > 0 && !whitelist.contains(path) {
        ExecutionVerdict::NotWhitelisted
    } else if data_dir_index(data_dirs, path) >= 0 {
        ExecutionVerdict::InDataDirectory(data_dir_index(data_dirs, path) as usize)
    } else {
        ExecutionVerdict::Allowed
    }
}

/// Decides whether the PHP file at `path` (relative to the document
/// root) may run.
pub fn execution_verdict(whitelist: &Vec<String>, data_dirs: &Vec<String>, path: &str) -> (r: ExecutionVerdict)
    ensures
        r == execution_verdict_of(str_views(whitelist@), str_views(data_dirs@), path@),
{
    if whitelist.len() > 0 {
        let mut found = false;
        let mut i: usize = 0;
        while i < whitelist.len()
            invariant
                i <= whitelist@.len(),
                found == (exists|j: int| 0 <= j < i && whitelist@[j]@ == path@),
            decreases whitelist@.len() - i,
        {
            if str_eq(whitelist[i].as_str(), path) {
                found = true;
            }
            i = i + 1;
        }
        proof {
            if found {
                let j = choose|j: int| 0 <= j < whitelist@.len() && whitelist@[j]@ == path@;
                assert(str_views(whitelist@)[j] == path@);
            } else {
                assert forall|j: int| 0 <= j < str_views(whitelist@).len() implies str_views(whitelist@)[j] != path@ by {
                    assert(str_views(whitelist@)[j] == whitelist@[j]@);
                }
            }
        }
        if !found {
            return ExecutionVerdict::NotWhitelisted;
        }
    }
    let p = chars_of(path);
    let slash = CharClass::Exactly('/');
    let mut k: usize = 0;
    while k < data_dirs.len()
        invariant
            k <= data_dirs@.len(),
            p@ == path@,
            slash == CharClass::Exactly('/'),
            !(str_views(whitelist@).len() > 0 && !str_views(whitelist@).contains(path@)),
            forall|j: int| 0 <= j < k ==> !in_data_dir(str_views(data_dirs@)[j], path@),
        decreases data_dirs@.len() - k,
    {
        let d = chars_of(data_dirs[k].as_str());
        let n = trim_end_chars(d.as_slice(), &slash);
        assert(str_views(data_dirs@)[k as int] == d@);
        if starts_with_chars(p.as_slice(), n.as_slice()) {
            proof {
                lemma_data_dir_at(str_views(data_dirs@), path@, k as int);
            }
            return ExecutionVerdict::InDataDirectory(k);
        }
        k = k + 1;
    }
    proof {
        lemma_data_dir_none(str_views(data_dirs@), path@);
    }
    ExecutionVerdict::Allowed
}

// ───────────────────────────── worker dispatch ─────────────────────────────

/// How long, in seconds, a request waits for a free worker: the
/// configured wait when there is one, else the request timeout, else a
/// minute.
pub open spec fn wait_secs(max_wait_time: u64, request_timeout: u64) -> u64 {
    if max_wait_time > 0 {
        max_wait_time
    } else if request_timeout == 0 {
        60
    } else {
        request_timeout
    }
}

/// Seconds a request waits for a free worker.
pub fn worker_wait_secs(max_wait_time: u64, request_timeout: u64) -> (r: u64)
    ensures
        r == wait_secs(max_wait_time, request_timeout),
{
    if max_wait_time > 0 {
        max_wait_time
    } else if request_timeout == 0 {
        60
    } else {
        request_timeout
    }
}

/// The port the server reports to PHP: what follows the last `:` of the
/// listen address when it is a port number, else 8080.
pub open spec fn listen_port_of(listen: Seq<char>) -> u16 {
    let parts = split_on(listen, ':');
    match parse_unsigned(parts.last(), 65535) {
        Some(n) => n as u16,
        None => 8080,
    }
}

/// The port of a listen address such as `0.0.0.0:8080`.
pub fn listen_port(listen: &str) -> (r: u16)
    ensures
        r == listen_port_of(listen@),
{
    let l = chars_of(listen);
    let parts = split_chars(l.as_slice(), ':');
    proof {
        crate::text::lemma_split_nonempty(l@, ':');
    }
    let n = parts.len();
    assert(views(parts@)[n - 1] == parts@[n - 1]@);
    match parse_unsigned_chars(parts[n - 1].as_slice(), 65535) {
        Some(v) => v as u16,
        None => 8080,
    }
}

/// The PHP code that serves a request: the superglobals, the session
/// start when sessions start on their own, the bootstrap, and the
/// `include` of the script with its single quotes escaped.
pub open spec fn entry_code(
    superglobals: Seq<char>,
    session_auto_start: bool,
    bootstrap: Seq<char>,
    script: Seq<char>,
) -> Seq<char> {
    superglobals + (if session_auto_start {
        "session_start(); "@
    } else {
        Seq::empty()
    }) + bootstrap + "include '"@ + quote_escaped(script) + "';"@
}

/// `s` with each `'` preceded by a backslash.
pub open spec fn quote_escaped(s: Seq<char>) -> Seq<char>
    decreases s.len(),
{
    if s.len() == 0 {
        Seq::empty()
    } else {
        quote_escaped(s.drop_last()) + if s.last() == '\'' {
            seq!['\\', '\'']
        } else {
            seq![s.last()]
        }
    }
}

fn quote_escape_chars(s: &[char]) -> (r: Vec<char>)
    ensures
        r@ == quote_escaped(s@),
{
    let mut r: Vec<char> = Vec::new();
    let mut i: usize = 0;
    while i < s.len()
        invariant
            i <= s@.len(),
            r@ == quote_escaped(s@.take(i as int)),
        decreases s@.len() - i,
    {
        assert(s@.take(i + 1).drop_last() =~= s@.take(i as int));
        if s[i] == '\'' {
            r.push('\\');
            r.push('\'');
        } else {
            r.push(s[i]);
        }
        i = i + 1;
        assert(r@ =~= quote_escaped(s@.take(i as int)));
    }
    assert(s@.take(s@.len() as int) =~= s@);
    r
}

/// Builds the PHP code that serves a request.
pub fn php_entry_code(superglobals: &str, session_auto_start: bool, bootstrap: &str, script: &str) -> (r: String)
    ensures
        r@ == entry_code(superglobals@, session_auto_start, bootstrap@, script@),
{
    let mut v: Vec<char> = Vec::new();
    push_str(&mut v, superglobals);
    if session_auto_start {
        push_str(&mut v, "session_start(); ");
    }
    push_str(&mut v, bootstrap);
    push_str(&mut v, "include '");
    let sc = chars_of(script);
    let e = quote_escape_chars(sc.as_slice());
    push_all(&mut v, e.as_slice());
    push_str(&mut v, "';");
    assert(v@ =~= entry_code(superglobals@, session_auto_start, bootstrap@, script@));
    string_of(v.as_slice())
}

/// The key under which GET requests for one path are coalesced, when
/// the cache is on; other requests are not coalesced.
pub open spec fn coalesce_key_of(method: Seq<char>, path: Seq<char>, cache_enabled: bool) -> Option<Seq<char>> {
    if method == "GET"@ && cache_enabled {
        Some("GET:"@ + path)
    } else {
        None
    }
}

/// The coalescing key of a request.
pub fn coalesce_key(method: &str, path: &str, cache_enabled: bool) -> (r: Option<String>)
    ensures
        opt_string(r) == coalesce_key_of(method@, path@, cache_enabled),
{
    if str_eq(method, "GET") && cache_enabled {
        let mut v: Vec<char> = Vec::new();
        push_str(&mut v, "GET:");
        push_str(&mut v, path);
        Some(string_of(v.as_slice()))
    } else {
        None
    }
}

/// The characters of an optional string.
pub open spec fn opt_string(o: Option<String>) -> Option<Seq<char>> {
    match o {
        Some(s) => Some(s@),
        None => None,
    }
}

/// The content length a native worker is told: -1 for an empty body,
/// else the length as a 32-bit signed number.
pub open spec fn content_length_of(len: usize) -> i32 {
    if len == 0 {
        -1i32
    } else {
        len as i32
    }
}

/// The content length field of a native worker request.
pub fn content_length_field(len: usize) -> (r: i32)
    ensures
        r == content_length_of(len),
{
    if len == 0 {
        -1
    } else {
        len as i32
    }
}

/// A native worker that set no status answered 200.
pub fn native_status(status: u16) -> (r: u16)
    ensures
        r == (if status == 0 { 200 } else { status }),
{
    if status == 0 {
        200
    } else {
        status
    }
}

// ───────────────────────────── responses ─────────────────────────────

/// The value of the first header named `name`, ignoring ASCII case.
pub open spec fn header_value(hs: Seq<(Seq<char>, Seq<char>)>, name: Seq<char>) -> Option<Seq<char>>
    decreases hs.len(),
{
    if hs.len() == 0 {
        None
    } else {
        match header_value(hs.drop_last(), name) {
            Some(v) => Some(v),
            None => if eq_ignore_ascii_case(hs.last().0, name) {
                Some(hs.last().1)
            } else {
                None
            },
        }
    }
}

/// The content type of a PHP reply: its own `Content-Type` header, else
/// what its body looks like.
pub open spec fn reply_content_type(hs: Seq<(Seq<char>, Seq<char>)>, body: Seq<u8>) -> Seq<char> {
    match header_value(hs, "Content-Type"@) {
        Some(v) => v,
        None => detected_type(body),
    }
}

/// A header is looked up by name in any ASCII letter case, and the first
/// header with that name wins; there is none when no header has it.
pub proof fn lemma_header_value_first(hs: Seq<(Seq<char>, Seq<char>)>, name: Seq<char>)
    ensures
        match header_value(hs, name) {
            Some(v) => exists|i: int|
                0 <= i < hs.len() && eq_ignore_ascii_case(#[trigger] hs[i].0, name) && hs[i].1 == v && forall|j: int|
                    0 <= j < i ==> !eq_ignore_ascii_case(#[trigger] hs[j].0, name),
            None => forall|i: int| 0 <= i < hs.len() ==> !eq_ignore_ascii_case(#[trigger] hs[i].0, name),
        },
    decreases hs.len(),
{
    if hs.len() > 0 {
        let p = hs.drop_last();
        lemma_header_value_first(p, name);
        let last = hs.len() - 1;
        match header_value(p, name) {
            Some(v) => {
                let i = choose|i: int|
                    0 <= i < p.len() && eq_ignore_ascii_case(#[trigger] p[i].0, name) && p[i].1 == v && forall|j: int|
                        0 <= j < i ==> !eq_ignore_ascii_case(#[trigger] p[j].0, name);
                assert(hs[i] == p[i]);
                assert forall|j: int| 0 <= j < i implies !eq_ignore_ascii_case(#[trigger] hs[j].0, name) by {
                    assert(hs[j] == p[j]);
                }
            },
            None => {
                assert forall|j: int| 0 <= j < last implies !eq_ignore_ascii_case(#[trigger] hs[j].0, name) by {
                    assert(hs[j] == p[j]);
                }
            },
        }
    }
}

/// The content type of a PHP reply.
pub fn response_content_type(headers: &Vec<(String, String)>, body: &[u8]) -> (r: String)
    ensures
        r@ == reply_content_type(pair_views(headers@), body@),
        (forall|i: int| 0 <= i < headers@.len() ==> !eq_ignore_ascii_case(#[trigger] pair_views(headers@)[i].0, "Content-Type"@))
            ==> r@ == detected_type(body@),
        forall|i: int|
            0 <= i < headers@.len() && eq_ignore_ascii_case(#[trigger] pair_views(headers@)[i].0, "Content-Type"@)
                && (forall|j: int| 0 <= j < i ==> !eq_ignore_ascii_case(#[trigger] pair_views(headers@)[j].0, "Content-Type"@))
                ==> r@ == pair_views(headers@)[i].1,
{
    let r = response_content_type_in(headers, body);
    proof {
        lemma_header_value_first(pair_views(headers@), "Content-Type"@);
    }
    r
}

fn response_content_type_in(headers: &Vec<(String, String)>, body: &[u8]) -> (r: String)
    ensures
        r@ == reply_content_type(pair_views(headers@), body@),
{
    let name = chars_of("Content-Type");
    let mut i: usize = 0;
    while i < headers.len()
        invariant
            i <= headers@.len(),
            name@ == "Content-Type"@,
            header_value(pair_views(headers@).take(i as int), "Content-Type"@) is None,
        decreases headers@.len() - i,
    {
        let k = chars_of(headers[i].0.as_str());
        let ghost t = pair_views(headers@).take(i + 1);
        assert(t.drop_last() =~= pair_views(headers@).take(i as int));
        assert(t.last() == (headers@[i as int].0@, headers@[i as int].1@));
        if eq_ignore_ascii_case_chars(k.as_slice(), name.as_slice()) {
            proof {
                lemma_header_value_prefix(pair_views(headers@), "Content-Type"@, i + 1);
            }
            return headers[i].1.clone();
        }
        i = i + 1;
    }
    assert(pair_views(headers@).take(headers@.len() as int) =~= pair_views(headers@));
    let d = detect_content_type(body);
    String::from_str(d)
}

/// A header found in a prefix is the one found in the whole list.
proof fn lemma_header_value_prefix(hs: Seq<(Seq<char>, Seq<char>)>, name: Seq<char>, n: int)
    requires
        0 <= n <= hs.len(),
        header_value(hs.take(n), name) is Some,
    ensures
        header_value(hs, name) == header_value(hs.take(n), name),
    decreases hs.len() - n,
{
    if n < hs.len() {
        assert(hs.take(n + 1).drop_last() =~= hs.take(n));
        lemma_header_value_prefix(hs, name, n + 1);
    } else {
        assert(hs.take(n) =~= hs);
    }
}

/// A header that the response builder writes itself.
pub open spec fn is_entity_header(name: Seq<char>) -> bool {
    eq_ignore_ascii_case(name, "Content-Type"@) || eq_ignore_ascii_case(name, "Content-Length"@)
}

/// The headers of a PHP reply that are passed on: all but its
/// `Content-Type` and `Content-Length`.
pub open spec fn passed_headers(hs: Seq<(Seq<char>, Seq<char>)>) -> Seq<(Seq<char>, Seq<char>)> {
    hs.filter(|h: (Seq<char>, Seq<char>)| !is_entity_header(h.0))
}

/// The headers of a PHP reply that are passed on.
pub fn forwarded_headers(headers: &Vec<(String, String)>) -> (r: Vec<(String, String)>)
    ensures
        pair_views(r@) == passed_headers(pair_views(headers@)),
{
    let ct = chars_of("Content-Type");
    let cl = chars_of("Content-Length");
    let mut r: Vec<(String, String)> = Vec::new();
    let mut i: usize = 0;
    while i < headers.len()
        invariant
            i <= headers@.len(),
            ct@ == "Content-Type"@,
            cl@ == "Content-Length"@,
            pair_views(r@) == passed_headers(pair_views(headers@).take(i as int)),
        decreases headers@.len() - i,
    {
        let k = chars_of(headers[i].0.as_str());
        let ghost t = pair_views(headers@).take(i + 1);
        assert(t.drop_last() =~= pair_views(headers@).take(i as int));
        let ghost before = pair_views(r@);
        let drop = eq_ignore_ascii_case_chars(k.as_slice(), ct.as_slice()) || eq_ignore_ascii_case_chars(
            k.as_slice(),
            cl.as_slice(),
        );
        if !drop {
            r.push((headers[i].0.clone(), headers[i].1.clone()));
            assert(pair_views(r@) =~= before.push(t.last()));
        }
        proof {
            let f = |h: (Seq<char>, Seq<char>)| !is_entity_header(h.0);
            assert(t =~= pair_views(headers@).take(i as int).push(t.last()));
            pair_views(headers@).take(i as int).lemma_filter_push(t.last(), f);
        }
        i = i + 1;
    }
    assert(pair_views(headers@).take(headers@.len() as int) =~= pair_views(headers@));
    r
}

/// The status a response goes out with: codes from 100 to 999 as they
/// are, anything else as 500.
pub open spec fn sent_status(status: u16) -> u16 {
    if 100 <= status <= 999 {
        status
    } else {
        500
    }
}

/// The status a response goes out with.
pub fn response_status(status: u16) -> (r: u16)
    ensures
        r == sent_status(status),
        100 <= status <= 999 ==> r == status,
        status < 100 || status > 999 ==> r == 500,
{
    if 100 <= status && status <= 999 {
        status
    } else {
        500
    }
}

/// The headers every response carries, before those of the reply.
pub open spec fn base_headers(content_type: Seq<char>, len: nat) -> Seq<(Seq<char>, Seq<char>)> {
    seq![
        ("Content-Type"@, content_type),
        ("Content-Length"@, decimal(len)),
        ("Server"@, "Turbine/"@ + SERVER_VERSION@),
        ("X-Content-Type-Options"@, "nosniff"@),
        ("X-Frame-Options"@, "SAMEORIGIN"@),
        ("X-XSS-Protection"@, "0"@),
        ("Referrer-Policy"@, "strict-origin-when-cross-origin"@),
        ("Permissions-Policy"@, "camera=(), microphone=(), geolocation=()"@),
    ]
}

fn pair(k: &str, v: &str) -> (r: (String, String))
    ensures
        r.0@ == k@,
        r.1@ == v@,
{
    (String::from_str(k), String::from_str(v))
}

/// The headers of a response with this content type and body length,
/// followed by `extra`.
pub fn response_headers(content_type: &str, len: usize, extra: &Vec<(String, String)>) -> (r: Vec<(String, String)>)
    ensures
        pair_views(r@) == base_headers(content_type@, len as nat) + pair_views(extra@),
{
    let mut r: Vec<(String, String)> = Vec::new();
    r.push(pair("Content-Type", content_type));
    let d = decimal_chars(len as u64);
    r.push((String::from_str("Content-Length"), string_of(d.as_slice())));
    let mut server: Vec<char> = Vec::new();
    push_str(&mut server, "Turbine/");
    push_str(&mut server, SERVER_VERSION);
    r.push((String::from_str("Server"), string_of(server.as_slice())));
    r.push(pair("X-Content-Type-Options", "nosniff"));
    r.push(pair("X-Frame-Options", "SAMEORIGIN"));
    r.push(pair("X-XSS-Protection", "0"));
    r.push(pair("Referrer-Policy", "strict-origin-when-cross-origin"));
    r.push(pair("Permissions-Policy", "camera=(), microphone=(), geolocation=()"));
    assert(pair_views(r@) =~= base_headers(content_type@, len as nat));
    push_pairs(&mut r, extra);
    r
}

/// The header that pins browsers to HTTPS, sent on every TLS response.
pub open spec fn hsts_header() -> (Seq<char>, Seq<char>) {
    ("Strict-Transport-Security"@, "max-age=63072000; includeSubDomains; preload"@)
}

/// The HSTS header.
pub fn hsts() -> (r: (String, String))
    ensures
        (r.0@, r.1@) == hsts_header(),
{
    pair("Strict-Transport-Security", "max-age=63072000; includeSubDomains; preload")
}

// ───────────────────────────── CORS ─────────────────────────────

/// `ps` joined with `sep` between consecutive elements.
pub open spec fn join_with(ps: Seq<Seq<char>>, sep: Seq<char>) -> Seq<char>
    decreases ps.len(),
{
    if ps.len() == 0 {
        Seq::empty()
    } else if ps.len() == 1 {
        ps[0]
    } else {
        join_with(ps.drop_last(), sep) + sep + ps.last()
    }
}

fn join_strings(ps: &Vec<String>, sep: &str) -> (r: String)
    ensures
        r@ == join_with(str_views(ps@), sep@),
{
    let mut v: Vec<char> = Vec::new();
    let mut i: usize = 0;
    while i < ps.len()
        invariant
            i <= ps@.len(),
            v@ == join_with(str_views(ps@).take(i as int), sep@),
        decreases ps@.len() - i,
    {
        let ghost t = str_views(ps@).take(i + 1);
        assert(t.drop_last() =~= str_views(ps@).take(i as int));
        assert(t.last() == ps@[i as int]@);
        if i > 0 {
            push_str(&mut v, sep);
        }
        push_str(&mut v, ps[i].as_str());
        proof {
            if i == 0 {
                assert(t =~= seq![ps@[0]@]);
                assert(v@ =~= ps@[0]@);
            } else {
                assert(v@ =~= join_with(str_views(ps@).take(i as int), sep@) + sep@ + ps@[i as int]@);
            }
        }
        i = i + 1;
    }
    assert(str_views(ps@).take(ps@.len() as int) =~= str_views(ps@));
    string_of(v.as_slice())
}

/// The CORS headers of a response to an allowed `origin`: the allowed
/// origin (`*` when any origin is allowed without credentials, else the
/// request's own), the credentials flag when on, the methods, the
/// headers, the exposed headers when there are any, and the preflight
/// max-age when it is set.
pub open spec fn cors_headers_of(cors: CorsConfig, origin: Seq<char>) -> Seq<(Seq<char>, Seq<char>)> {
    let star = str_views(cors.allow_origins@).contains("*"@) && !cors.allow_credentials;
    seq![("Access-Control-Allow-Origin"@, if star { "*"@ } else { origin })]
        + (if cors.allow_credentials {
        seq![("Access-Control-Allow-Credentials"@, "true"@)]
    } else {
        Seq::empty()
    }) + seq![
        ("Access-Control-Allow-Methods"@, join_with(str_views(cors.allow_methods@), ", "@)),
        ("Access-Control-Allow-Headers"@, join_with(str_views(cors.allow_headers@), ", "@)),
    ] + (if cors.expose_headers@.len() > 0 {
        seq![("Access-Control-Expose-Headers"@, join_with(str_views(cors.expose_headers@), ", "@))]
    } else {
        Seq::empty()
    }) + (if cors.max_age > 0 {
        seq![("Access-Control-Max-Age"@, decimal(cors.max_age as nat))]
    } else {
        Seq::empty()
    })
}

fn has_star(v: &Vec<String>) -> (r: bool)
    ensures
        r == str_views(v@).contains("*"@),
{
    let mut i: usize = 0;
    while i < v.len()
        invariant
            i <= v@.len(),
            forall|j: int| 0 <= j < i ==> v@[j]@ != "*"@,
        decreases v@.len() - i,
    {
        if str_eq(v[i].as_str(), "*") {
            assert(str_views(v@)[i as int] == "*"@);
            return true;
        }
        i = i + 1;
    }
    assert forall|j: int| 0 <= j < str_views(v@).len() implies str_views(v@)[j] != "*"@ by {
        assert(str_views(v@)[j] == v@[j]@);
    }
    false
}

/// The CORS headers for a response to an allowed origin.
pub fn cors_headers(cors: &CorsConfig, origin: &str) -> (r: Vec<(String, String)>)
    ensures
        pair_views(r@) == cors_headers_of(*cors, origin@),
{
    let mut r: Vec<(String, String)> = Vec::new();
    let star = has_star(&cors.allow_origins) && !cors.allow_credentials;
    if star {
        r.push(pair("Access-Control-Allow-Origin", "*"));
    } else {
        r.push(pair("Access-Control-Allow-Origin", origin));
    }
    let ghost a = pair_views(r@);
    if cors.allow_credentials {
        r.push(pair("Access-Control-Allow-Credentials", "true"));
    }
    let ghost b = pair_views(r@);
    let m = join_strings(&cors.allow_methods, ", ");
    r.push((String::from_str("Access-Control-Allow-Methods"), m));
    let h = join_strings(&cors.allow_headers, ", ");
    r.push((String::from_str("Access-Control-Allow-Headers"), h));
    let ghost c = pair_views(r@);
    if cors.expose_headers.len() > 0 {
        let e = join_strings(&cors.expose_headers, ", ");
        r.push((String::from_str("Access-Control-Expose-Headers"), e));
    }
    let ghost d = pair_views(r@);
    if cors.max_age > 0 {
        let n = decimal_chars(cors.max_age);
        r.push((String::from_str("Access-Control-Max-Age"), string_of(n.as_slice())));
    }
    proof {
        let o = seq![("Access-Control-Allow-Origin"@, if star { "*"@ } else { origin@ })];
        assert(a =~= o);
        let cr = if cors.allow_credentials {
            seq![("Access-Control-Allow-Credentials"@, "true"@)]
        } else {
            Seq::<(Seq<char>, Seq<char>)>::empty()
        };
        assert(b =~= o + cr);
        let mh = seq![
            ("Access-Control-Allow-Methods"@, join_with(str_views(cors.allow_methods@), ", "@)),
            ("Access-Control-Allow-Headers"@, join_with(str_views(cors.allow_headers@), ", "@)),
        ];
        assert(c =~= o + cr + mh);
        let ex = if cors.expose_headers@.len() > 0 {
            seq![("Access-Control-Expose-Headers"@, join_with(str_views(cors.expose_headers@), ", "@))]
        } else {
            Seq::<(Seq<char>, Seq<char>)>::empty()
        };
        assert(d =~= o + cr + mh + ex);
        let ma = if cors.max_age > 0 {
            seq![("Access-Control-Max-Age"@, decimal(cors.max_age as nat))]
        } else {
            Seq::<(Seq<char>, Seq<char>)>::empty()
        };
        assert(pair_views(r@) =~= o + cr + mh + ex + ma);
    }
    r
}

/// A preflight (`OPTIONS` with an `Origin`) from an allowed origin is
/// answered at once with 204 and the CORS headers.
pub open spec fn preflight_answered(cors: CorsConfig, is_options: bool, origin: Option<Seq<char>>) -> bool {
    cors.enabled && is_options && match origin {
        Some(o) => origin_allowed(str_views(cors.allow_origins@), o),
        None => false,
    }
}

/// Whether a request is a preflight that is answered at once.
pub fn is_answered_preflight(cors: &CorsConfig, is_options: bool, origin: Option<&str>) -> (r: bool)
    ensures
        r == preflight_answered(*cors, is_options, opt_str(origin)),
{
    match origin {
        Some(o) => cors.enabled && is_options && cors_origin_allowed(cors, o),
        None => false,
    }
}

// ───────────────────────────── compression ─────────────────────────────

/// A response is compressed when compression is on, the client accepts
/// some encoding, the response is not encoded yet, its type compresses
/// well and its body is at least `min_size` bytes.
pub open spec fn compress_wanted(
    enabled: bool,
    accept_encoding: Seq<char>,
    already_encoded: bool,
    content_type: Seq<char>,
    len: nat,
    min_size: nat,
) -> bool {
    enabled && accept_encoding.len() > 0 && !already_encoded && compressible(content_type) && len >= min_size
}

/// Whether a response is handed to the compressor.
pub fn should_compress(
    enabled: bool,
    accept_encoding: &str,
    already_encoded: bool,
    content_type: &str,
    len: usize,
    min_size: usize,
) -> (r: bool)
    ensures
        r == compress_wanted(enabled, accept_encoding@, already_encoded, content_type@, len as nat, min_size as nat),
        !enabled ==> !r,
        accept_encoding@.len() == 0 ==> !r,
        already_encoded ==> !r,
        len < min_size ==> !r,
        enabled && accept_encoding@.len() > 0 && !already_encoded && len >= min_size ==> (r <==> compressible(
            content_type@,
        )),
{
    let a = chars_of(accept_encoding);
    enabled && a.len() > 0 && !already_encoded && is_compressible_content_type(content_type) && len >= min_size
}

// ───────────────────────────── access log ─────────────────────────────

/// One access log line: `IP - - [unix time] "METHOD PATH" STATUS 12ms`.
pub open spec fn access_line(
    ip: Seq<char>,
    now_secs: nat,
    method: Seq<char>,
    path: Seq<char>,
    status: nat,
    elapsed_ms: nat,
) -> Seq<char> {
    ip + " - - ["@ + decimal(now_secs) + "] \""@ + method + " "@ + path + "\" "@ + decimal(status) + " "@
        + decimal(elapsed_ms) + "ms\n"@
}

/// Formats an access log line.
pub fn access_log_line(ip: &str, now_secs: u64, method: &str, path: &str, status: u16, elapsed_ms: u64) -> (r: String)
    ensures
        r@ == access_line(ip@, now_secs as nat, method@, path@, status as nat, elapsed_ms as nat),
{
    let mut v: Vec<char> = Vec::new();
    push_str(&mut v, ip);
    push_str(&mut v, " - - [");
    let n = decimal_chars(now_secs);
    push_all(&mut v, n.as_slice());
    push_str(&mut v, "] \"");
    push_str(&mut v, method);
    push_str(&mut v, " ");
    push_str(&mut v, path);
    push_str(&mut v, "\" ");
    let st = decimal_chars(status as u64);
    push_all(&mut v, st.as_slice());
    push_str(&mut v, " ");
    let e = decimal_chars(elapsed_ms);
    push_all(&mut v, e.as_slice());
    push_str(&mut v, "ms\n");
    assert(v@ =~= access_line(ip@, now_secs as nat, method@, path@, status as nat, elapsed_ms as nat));
    string_of(v.as_slice())
}

// ───────────────────────────── static files ─────────────────────────────

/// The file a request may be answered with from the document root,
/// relative to it: none for PHP scripts, the root itself, an empty path
/// or one holding `..`.
pub open spec fn static_candidate_of(uri: Seq<char>) -> Option<Seq<char>> {
    let clean = clean_path_of(uri);
    let rel = trim_start(clean, CharClass::Exactly('/'));
    if ends_with(clean, ".php"@) || clean == "/"@ {
        None
    } else if rel.len() == 0 || contains(rel, ".."@) {
        None
    } else {
        Some(rel)
    }
}

/// The relative path of a static file a request may be served from.
pub fn static_candidate(uri: &str) -> (r: Option<String>)
    ensures
        opt_string(r) == static_candidate_of(uri@),
{
    let u = chars_of(uri);
    let clean = before_char(u.as_slice(), '?');
    let php = chars_of(".php");
    let root = chars_of("/");
    if ends_with_chars(clean.as_slice(), php.as_slice()) || crate::text::chars_eq(clean.as_slice(), root.as_slice()) {
        return None;
    }
    let rel = trim_start_chars(clean.as_slice(), &CharClass::Exactly('/'));
    let dots = chars_of("..");
    if rel.len() == 0 || contains_chars(rel.as_slice(), dots.as_slice()) {
        return None;
    }
    Some(string_of(rel.as_slice()))
}

/// The file a static request is served from: `rel` under
/// `document_root`, canonicalized on disk, kept when it lies under the
/// canonical document root and names a regular file.  Which canonical
/// paths the disk gives, and whether a path is a file, is up to the file
/// system; the path handed to it is `document_root` joined with `rel`,
/// and a path returned is canonical and lies under a canonical root.
pub fn static_file_path(document_root: &str, rel: &str) -> (r: Option<String>)
    ensures
        exists|res: Option<Seq<char>>, rc: Option<Seq<char>>|
            #![trigger confine_spec(res, rc)]
            (res matches Some(x) ==> canonical_path(x)) && (rc matches Some(y) ==> canonical_path(y))
                && (r is Some ==> opt_view(r) == confine_spec(res, rc)) && (confine_spec(res, rc) is None
                ==> r is None),
        r matches Some(p) ==> canonical_path(p@),
        r matches Some(p) ==> exists|rt: Seq<char>| canonical_path(rt) && path_starts_with(p@, rt),
{
    let dr = chars_of(document_root);
    let rc = chars_of(rel);
    let target = join_path_chars(dr.as_slice(), rc.as_slice());
    let resolved = match canonicalize(target.as_slice()) {
        Some(v) => Some(string_of(v.as_slice())),
        None => None,
    };
    let root = match canonicalize(dr.as_slice()) {
        Some(v) => Some(string_of(v.as_slice())),
        None => None,
    };
    let ghost a = opt_view(resolved);
    let ghost b = opt_view(root);
    let confined = confine_to_root(resolved, root);
    assert(opt_view(confined) == confine_spec(a, b));
    proof {
        if confined is Some {
            let rt = b->0;
            assert(canonical_path(rt) && path_starts_with(confined->0@, rt));
        }
    }
    match confined {
        Some(p) => {
            let pc = chars_of(p.as_str());
            if path_is_file(pc.as_slice()) {
                Some(p)
            } else {
                None
            }
        },
        None => None,
    }
}

/// A hexadecimal digit, in lower case.
pub open spec fn hex_char(d: nat) -> char {
    if d < 10 {
        (d + 48) as char
    } else {
        (d + 87) as char
    }
}

/// `n` in lower-case hexadecimal without leading zeros (`{:x}`).
pub open spec fn hex(n: nat) -> Seq<char>
    decreases n,
{
    if n < 16 {
        seq![hex_char(n)]
    } else {
        hex(n / 16).push(hex_char(n % 16))
    }
}

fn hex_chars(n: u64) -> (r: Vec<char>)
    ensures
        r@ == hex(n as nat),
    decreases n,
{
    let d = (n % 16) as u8;
    let c: char = if d < 10 {
        (d + 48) as char
    } else {
        (d + 87) as char
    };
    if n < 16 {
        let mut r: Vec<char> = Vec::new();
        r.push(c);
        r
    } else {
        let mut r = hex_chars(n / 16);
        r.push(c);
        r
    }
}

/// The entity tag of a file with content hash `h`: the hash in
/// hexadecimal, quoted.
pub open spec fn etag_text(h: u64) -> Seq<char> {
    seq!['"'] + hex(h as nat) + seq!['"']
}

/// The client's `If-None-Match` names this entity tag, as given or
/// trimmed.
pub open spec fn etag_matches_spec(client: Seq<char>, etag: Seq<char>) -> bool {
    client == etag || trim_ws(client) == etag
}

/// How long a static file may be cached: a year for assets, else an
/// hour.
pub open spec fn static_cache_control_of(rel: Seq<char>) -> Seq<char> {
    if contains(rel, "/assets/"@) {
        "public, max-age=31536000, immutable"@
    } else {
        "public, max-age=3600"@
    }
}

/// A static file reply.
pub struct StaticReply {
    pub status: u16,
    pub content_type: String,
    pub body: Vec<u8>,
    pub headers: Vec<(String, String)>,
}

/// The reply for the static file `rel` with content `body`: 304 with no
/// body when the client already holds this entity tag, else 200 with the
/// body; the entity tag is the quoted hash of the content.
pub open spec fn static_reply_of(rel: Seq<char>, body: Seq<u8>, client: Option<Seq<char>>) -> (
    u16,
    Seq<char>,
    Seq<u8>,
    Seq<(Seq<char>, Seq<char>)>,
) {
    let ct = mime_for_ext(lowercase(last_dot_piece(rel)));
    let etag = etag_text(xxh3_of(body));
    let fresh = match client {
        Some(c) => etag_matches_spec(c, etag),
        None => false,
    };
    if fresh {
        (304, ct, Seq::empty(), seq![("ETag"@, etag)])
    } else {
        (200, ct, body, seq![("Cache-Control"@, static_cache_control_of(rel)), ("ETag"@, etag)])
    }
}

/// Answers a request for the static file `rel` whose content is `body`.
pub fn static_reply(rel: &str, body: Vec<u8>, if_none_match: Option<&str>) -> (r: StaticReply)
    ensures
        (r.status, r.content_type@, r.body@, pair_views(r.headers@)) == static_reply_of(
            rel@,
            body@,
            opt_str(if_none_match),
        ),
        r.status == 200 || r.status == 304,
        if_none_match is None ==> r.status == 200,
        r.status == 200 ==> r.body@ == body@,
        r.status == 304 ==> r.body@.len() == 0,
        mime_table(lowercase(last_dot_piece(rel@)), r.content_type@),
        r.status == 200 && contains(rel@, "/assets/"@) ==> pair_views(r.headers@)[0] == (
            "Cache-Control"@,
            "public, max-age=31536000, immutable"@,
        ),
        r.status == 200 && !contains(rel@, "/assets/"@) ==> pair_views(r.headers@)[0] == (
            "Cache-Control"@,
            "public, max-age=3600"@,
        ),
{
    proof {
        crate::http_helpers::lemma_mime_table(lowercase(last_dot_piece(rel@)));
    }
    let ct = mime_type_for_extension(rel);
    let h = xxh3(body.as_slice());
    let hx = hex_chars(h);
    let mut e: Vec<char> = Vec::new();
    e.push('"');
    push_all(&mut e, hx.as_slice());
    e.push('"');
    assert(e@ =~= etag_text(xxh3_of(body@)));
    let etag = string_of(e.as_slice());
    let fresh = match if_none_match {
        Some(c) => {
            let cc = chars_of(c);
            let t = trim_ws_chars(cc.as_slice());
            crate::text::chars_eq(cc.as_slice(), e.as_slice()) || crate::text::chars_eq(t.as_slice(), e.as_slice())
        },
        None => false,
    };
    if fresh {
        let mut hs: Vec<(String, String)> = Vec::new();
        hs.push((String::from_str("ETag"), etag));
        assert(pair_views(hs@) =~= seq![("ETag"@, etag_text(xxh3_of(body@)))]);
        StaticReply { status: 304, content_type: String::from_str(ct), body: Vec::new(), headers: hs }
    } else {
        let rc = chars_of(rel);
        let assets = chars_of("/assets/");
        let cc = if contains_chars(rc.as_slice(), assets.as_slice()) {
            "public, max-age=31536000, immutable"
        } else {
            "public, max-age=3600"
        };
        let mut hs: Vec<(String, String)> = Vec::new();
        hs.push(pair("Cache-Control", cc));
        hs.push((String::from_str("ETag"), etag));
        assert(pair_views(hs@) =~= seq![
            ("Cache-Control"@, static_cache_control_of(rel@)),
            ("ETag"@, etag_text(xxh3_of(body@))),
        ]);
        StaticReply { status: 200, content_type: String::from_str(ct), body, headers: hs }
    }
}

// ───────────────────────────── worker pools ─────────────────────────────

/// Which worker pool serves a request.
#[derive(Debug, Clone, Copy, PartialEq, Eq, Structural)]
pub enum PoolChoice {
    /// The named pool at this index of the configured routes.
    Named(usize),
    /// The default pool.
    Default,
}

/// Index of the first route whose pattern matches `path`, or -1.
pub open spec fn route_index(patterns: Seq<Seq<char>>, path: Seq<char>) -> int
    decreases patterns.len(),
{
    if patterns.len() == 0 {
        -1
    } else {
        let j = route_index(patterns.drop_last(), path);
        if j >= 0 {
            j
        } else if route_matches(patterns.last(), path) {
            patterns.len() - 1
        } else {
            -1
        }
    }
}

proof fn lemma_route_none(ps: Seq<Seq<char>>, path: Seq<char>)
    requires
        forall|j: int| 0 <= j < ps.len() ==> !route_matches(ps[j], path),
    ensures
        route_index(ps, path) == -1,
    decreases ps.len(),
{
    if ps.len() > 0 {
        lemma_route_none(ps.drop_last(), path);
    }
}

proof fn lemma_route_at(ps: Seq<Seq<char>>, path: Seq<char>, i: int)
    requires
        0 <= i < ps.len(),
        route_matches(ps[i], path),
        forall|j: int| 0 <= j < i ==> !route_matches(ps[j], path),
    ensures
        route_index(ps, path) == i,
    decreases ps.len(),
{
    if ps.len() == i + 1 {
        lemma_route_none(ps.drop_last(), path);
    } else {
        lemma_route_at(ps.drop_last(), path, i);
    }
}

/// The patterns of the pool routes.
pub open spec fn route_patterns(rs: Seq<WorkerPoolRouteConfig>) -> Seq<Seq<char>> {
    rs.map_values(|r: WorkerPoolRouteConfig| r.match_path@)
}

/// The pool of a request path: the first named pool whose route
/// matches, else the default pool when there is one.
pub open spec fn pool_for_path_of(patterns: Seq<Seq<char>>, path: Seq<char>, has_default: bool) -> Option<PoolChoice> {
    let i = route_index(patterns, path);
    if i >= 0 {
        Some(PoolChoice::Named(i as usize))
    } else if has_default {
        Some(PoolChoice::Default)
    } else {
        None
    }
}

/// Finds the worker pool of a request path.
pub fn pool_for_path(routes: &Vec<WorkerPoolRouteConfig>, path: &str, has_default: bool) -> (r: Option<PoolChoice>)
    ensures
        r == pool_for_path_of(route_patterns(routes@), path@, has_default),
{
    let mut i: usize = 0;
    while i < routes.len()
        invariant
            i <= routes@.len(),
            forall|j: int| 0 <= j < i ==> !route_matches(route_patterns(routes@)[j], path@),
        decreases routes@.len() - i,
    {
        assert(route_patterns(routes@)[i as int] == routes@[i as int].match_path@);
        if matches_pool_route(routes[i].match_path.as_str(), path) {
            proof {
                lemma_route_at(route_patterns(routes@), path@, i as int);
            }
            return Some(PoolChoice::Named(i));
        }
        i = i + 1;
    }
    proof {
        lemma_route_none(route_patterns(routes@), path@);
    }
    if has_default {
        Some(PoolChoice::Default)
    } else {
        None
    }
}

// ───────────────────────────── X-Sendfile ─────────────────────────────

/// The headers of a reply once the file it named is served: all but
/// the sendfile headers.
pub open spec fn without_sendfile(hs: Seq<(Seq<char>, Seq<char>)>) -> Seq<(Seq<char>, Seq<char>)> {
    hs.filter(|h: (Seq<char>, Seq<char>)| !is_sendfile_header(h.0))
}

/// A reply whose sendfile header named a file that could be read: the
/// file is served with status 200 and its own content type, and the
/// sendfile headers are dropped.
pub struct SendfileReply {
    pub status: u16,
    pub content_type: String,
    pub body: Vec<u8>,
    pub headers: Vec<(String, String)>,
}

/// Replaces a reply by the file its sendfile header named.
pub fn serve_sendfile_reply(headers: &Vec<(String, String)>, file_type: String, file_body: Vec<u8>) -> (r: SendfileReply)
    ensures
        r.status == 200,
        r.content_type@ == file_type@,
        r.body@ == file_body@,
        pair_views(r.headers@) == without_sendfile(pair_views(headers@)),
{
    let xa = chars_of("X-Accel-Redirect");
    let xs = chars_of("X-Sendfile");
    let mut kept: Vec<(String, String)> = Vec::new();
    let mut i: usize = 0;
    while i < headers.len()
        invariant
            i <= headers@.len(),
            xa@ == "X-Accel-Redirect"@,
            xs@ == "X-Sendfile"@,
            pair_views(kept@) == without_sendfile(pair_views(headers@).take(i as int)),
        decreases headers@.len() - i,
    {
        let k = chars_of(headers[i].0.as_str());
        let ghost t = pair_views(headers@).take(i + 1);
        assert(t.drop_last() =~= pair_views(headers@).take(i as int));
        let ghost before = pair_views(kept@);
        let drop = eq_ignore_ascii_case_chars(k.as_slice(), xa.as_slice()) || eq_ignore_ascii_case_chars(
            k.as_slice(),
            xs.as_slice(),
        );
        if !drop {
            kept.push((headers[i].0.clone(), headers[i].1.clone()));
            assert(pair_views(kept@) =~= before.push(t.last()));
        }
        proof {
            let f = |h: (Seq<char>, Seq<char>)| !is_sendfile_header(h.0);
            assert(t =~= pair_views(headers@).take(i as int).push(t.last()));
            pair_views(headers@).take(i as int).lemma_filter_push(t.last(), f);
        }
        i = i + 1;
    }
    assert(pair_views(headers@).take(headers@.len() as int) =~= pair_views(headers@));
    SendfileReply { status: 200, content_type: file_type, body: file_body, headers: kept }
}

// ───────────────────────────── guarantees ─────────────────────────────

/// With a token configured, no internal endpoint but the dashboard page
/// is reached without it: the request is refused as unauthorized.
pub proof fn lemma_token_required(
    path: Seq<char>,
    method: Seq<char>,
    auth: Option<Seq<char>>,
    token: Seq<char>,
    dashboard_enabled: bool,
    statistics_enabled: bool,
    table_enabled: bool,
)
    requires
        !bearer_ok(auth, token),
        !(path == "/_/dashboard"@ && dashboard_enabled),
    ensures
        internal_route_of(path, method, auth, Some(token), dashboard_enabled, statistics_enabled, table_enabled)
            == InternalRoute::Unauthorized,
{
}

/// A static file is only ever looked for under the document root: its
/// path is relative, not empty, and holds no `..`.
pub proof fn lemma_static_candidate_confined(uri: Seq<char>)
    ensures
        static_candidate_of(uri) matches Some(rel) ==> rel.len() > 0 && rel[0] != '/' && !contains(rel, ".."@),
{
    crate::text::lemma_trim_start_first(clean_path_of(uri), CharClass::Exactly('/'));
}

proof fn lemma_data_dir_found(ds: Seq<Seq<char>>, path: Seq<char>, i: int)
    requires
        0 <= i < ds.len(),
        in_data_dir(ds[i], path),
    ensures
        data_dir_index(ds, path) >= 0,
    decreases ds.len(),
{
    if i < ds.len() - 1 {
        lemma_data_dir_found(ds.drop_last(), path, i);
    }
}

/// No PHP file inside a data directory is ever allowed to run, and with
/// a whitelist only the files on it may run.
pub proof fn lemma_sandbox_denies(whitelist: Seq<Seq<char>>, data_dirs: Seq<Seq<char>>, path: Seq<char>, i: int)
    ensures
        0 <= i < data_dirs.len() && in_data_dir(data_dirs[i], path) ==> execution_verdict_of(
            whitelist,
            data_dirs,
            path,
        ) != ExecutionVerdict::Allowed,
        whitelist.len() > 0 && !whitelist.contains(path) ==> execution_verdict_of(whitelist, data_dirs, path)
            == ExecutionVerdict::NotWhitelisted,
{
    if 0 <= i < data_dirs.len() && in_data_dir(data_dirs[i], path) {
        lemma_data_dir_found(data_dirs, path, i);
    }
}

} // verus!
