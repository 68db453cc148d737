//! Internal HTTP endpoints under `/_/`: the shared table, the task queue,
//! the WebSocket hub and async I/O.
//!
//! Routing is by method and the path below the endpoint's prefix; the
//! parameters come from the query string; the answers are small JSON
//! documents.  Reading request bodies, waiting for jobs and touching the
//! file system are left to the caller, which hands the outcomes in.
use vstd::prelude::*;
use vstd::utf8::encode_utf8;

use crate::async_io::{AsyncIoError, AsyncIoStats};
use crate::http_helpers::{query_param, query_value};
use crate::paths::{join, join_chars};
use crate::shared_table::{expired, SharedTable, TableError, deadline_of, incr_outcome};
use crate::task_queue::{push_outcome, Job, QueueError, QueueStats, TaskQueue};
use crate::text::{
    all_digits, chars_eq, chars_of, decimal, decimal_chars, decimal_value, parse_unsigned,
    parse_unsigned_chars, push_all, split_on, starts_with, starts_with_chars, string_of, sub_chars,
    trim_start, trim_start_chars, utf8_of, views, CharClass,
};
use crate::websocket::WsStats;

verus! {

// ───────────────────────────── responses ─────────────────────────────

/// An answer of an internal endpoint.
pub struct AdminResponse {
    pub status: u16,
    pub content_type: String,
    pub body: Vec<u8>,
    /// Extra headers.
    pub headers: Vec<(String, String)>,
}

/// Status, content type, body and extra headers of a response.
pub open spec fn resp_view(r: AdminResponse) -> (u16, Seq<char>, Seq<u8>, Seq<(Seq<char>, Seq<char>)>) {
    (r.status, r.content_type@, r.body@, crate::text::pair_views(r.headers@))
}

/// A response without extra headers.
pub open spec fn plain(status: u16, ct: Seq<char>, body: Seq<u8>) -> (u16, Seq<char>, Seq<u8>, Seq<(Seq<char>, Seq<char>)>) {
    (status, ct, body, Seq::<(Seq<char>, Seq<char>)>::empty())
}

/// A JSON response with this text.
pub open spec fn json_of(status: u16, text: Seq<char>) -> (u16, Seq<char>, Seq<u8>, Seq<(Seq<char>, Seq<char>)>) {
    plain(status, "application/json"@, encode_utf8(text))
}

/// One JSON member: the quoted key, a colon, the value as written.
pub open spec fn member(k: Seq<char>, v: Seq<char>) -> Seq<char> {
    seq!['"'] + k + seq!['"', ':'] + v
}

/// A JSON object of members.
pub open spec fn object(ms: Seq<Seq<char>>) -> Seq<char> {
    seq!['{'] + join(ms, ',') + seq!['}']
}

/// A JSON string of text needing no escapes.
pub open spec fn quoted_text(s: Seq<char>) -> Seq<char> {
    seq!['"'] + s + seq!['"']
}

/// `true` or `false`.
pub open spec fn bool_text(b: bool) -> Seq<char> {
    if b {
        "true"@
    } else {
        "false"@
    }
}

/// A signed decimal.
pub open spec fn signed_decimal(v: int) -> Seq<char> {
    if v < 0 {
        seq!['-'] + decimal((-v) as nat)
    } else {
        decimal(v as nat)
    }
}

fn respond(status: u16, ct: &str, body: Vec<u8>) -> (r: AdminResponse)
    ensures
        resp_view(r) == plain(status, ct@, body@),
{
    let r = AdminResponse { status, content_type: ct.to_owned(), body, headers: Vec::new() };
    assert(crate::text::pair_views(r.headers@) =~= Seq::<(Seq<char>, Seq<char>)>::empty());
    r
}

fn json_text(status: u16, text: &[char]) -> (r: AdminResponse)
    ensures
        resp_view(r) == json_of(status, text@),
{
    respond(status, "application/json", utf8_of(text))
}

/// A JSON response with a fixed body.
pub fn json_err(status: u16, body: &str) -> (r: AdminResponse)
    ensures
        resp_view(r) == json_of(status, body@),
{
    let t = chars_of(body);
    json_text(status, t.as_slice())
}

/// `403 Forbidden` with its reason, as plain text: `403 Forbidden: `
/// followed by the reason.
pub fn forbidden(reason: &str) -> (r: AdminResponse)
    ensures
        resp_view(r) == plain(403, "text/plain"@, encode_utf8("403 Forbidden: "@ + reason@)),
{
    let mut t = chars_of("403 Forbidden: ");
    let rc = chars_of(reason);
    crate::text::push_all(&mut t, rc.as_slice());
    respond(403, "text/plain", utf8_of(t.as_slice()))
}

/// `401`, for an internal request without the dashboard token.
pub fn unauthorized() -> (r: AdminResponse)
    ensures
        resp_view(r) == json_of(401, "{\"error\": \"Unauthorized\"}"@),
{
    json_err(401, "{\"error\": \"Unauthorized\"}")
}

/// `404 Not found`, as plain text.
pub fn not_found() -> (r: AdminResponse)
    ensures
        resp_view(r) == plain(404, "text/plain"@, encode_utf8("Not found"@)),
{
    let t = chars_of("Not found");
    respond(404, "text/plain", utf8_of(t.as_slice()))
}

pub(crate) fn member_chars(k: &str, v: &[char]) -> (r: Vec<char>)
    ensures
        r@ == member(k@, v@),
{
    let mut r: Vec<char> = vec!['"'];
    let kc = chars_of(k);
    push_all(&mut r, kc.as_slice());
    r.push('"');
    r.push(':');
    push_all(&mut r, v);
    assert(r@ =~= member(k@, v@));
    r
}

pub(crate) fn object_chars(ms: &Vec<Vec<char>>) -> (r: Vec<char>)
    ensures
        r@ == object(views(ms@)),
{
    let mut r: Vec<char> = vec!['{'];
    let j = join_chars(ms, ',');
    push_all(&mut r, j.as_slice());
    r.push('}');
    assert(r@ =~= object(views(ms@)));
    r
}

pub(crate) fn num_member(k: &str, n: u64) -> (r: Vec<char>)
    ensures
        r@ == member(k@, decimal(n as nat)),
{
    let d = decimal_chars(n);
    member_chars(k, d.as_slice())
}

pub(crate) fn bool_member(k: &str, b: bool) -> (r: Vec<char>)
    ensures
        r@ == member(k@, bool_text(b)),
{
    let v = if b { chars_of("true") } else { chars_of("false") };
    member_chars(k, v.as_slice())
}

fn str_member(k: &str, s: &[char]) -> (r: Vec<char>)
    ensures
        r@ == member(k@, quoted_text(s@)),
{
    let mut v: Vec<char> = vec!['"'];
    push_all(&mut v, s);
    v.push('"');
    assert(v@ =~= quoted_text(s@));
    member_chars(k, v.as_slice())
}

fn signed_chars(v: i64) -> (r: Vec<char>)
    ensures
        r@ == signed_decimal(v as int),
{
    if v < 0 {
        let m: u64 = if v == i64::MIN { 9223372036854775808u64 } else { (-v) as u64 };
        let mut r: Vec<char> = vec!['-'];
        let d = decimal_chars(m);
        push_all(&mut r, d.as_slice());
        assert(r@ =~= signed_decimal(v as int));
        r
    } else {
        decimal_chars(v as u64)
    }
}

fn json1(status: u16, m: Vec<char>) -> (r: AdminResponse)
    ensures
        resp_view(r) == json_of(status, object(seq![m@])),
{
    let ms: Vec<Vec<char>> = vec![m];
    assert(views(ms@) =~= seq![ms@[0]@]);
    let t = object_chars(&ms);
    json_text(status, t.as_slice())
}

fn json2(status: u16, a: Vec<char>, b: Vec<char>) -> (r: AdminResponse)
    ensures
        resp_view(r) == json_of(status, object(seq![a@, b@])),
{
    let ms: Vec<Vec<char>> = vec![a, b];
    assert(views(ms@) =~= seq![ms@[0]@, ms@[1]@]);
    let t = object_chars(&ms);
    json_text(status, t.as_slice())
}

// ───────────────────────────── parameters ─────────────────────────────

/// The part of `path` after `prefix`; empty when `path` does not start
/// with it.
pub open spec fn below(path: Seq<char>, prefix: Seq<char>) -> Seq<char> {
    if starts_with(path, prefix) {
        path.skip(prefix.len() as int)
    } else {
        seq![]
    }
}

/// The path below an endpoint's prefix.
pub fn sub_path(clean_path: &str, prefix: &str) -> (r: String)
    ensures
        r@ == below(clean_path@, prefix@),
{
    let p = chars_of(clean_path);
    let x = chars_of(prefix);
    if starts_with_chars(p.as_slice(), x.as_slice()) {
        let s = sub_chars(p.as_slice(), x.len(), p.len());
        assert(s@ =~= p@.skip(x@.len() as int));
        string_of(s.as_slice())
    } else {
        String::new()
    }
}

/// `str::parse::<i64>`: an optional sign, then one or more ASCII digits,
/// within the range of `i64`.
pub open spec fn parse_i64_spec(s: Seq<char>) -> Option<int> {
    if s.len() > 0 && s[0] == '-' {
        let d = s.drop_first();
        if d.len() > 0 && all_digits(d) && decimal_value(d) <= 9223372036854775808 {
            Some(-(decimal_value(d) as int))
        } else {
            None
        }
    } else {
        match parse_unsigned(s, 9223372036854775807) {
            Some(v) => Some(v as int),
            None => None,
        }
    }
}

/// Parses a signed 64-bit decimal.
pub fn parse_i64(s: &str) -> (r: Option<i64>)
    ensures
        match r {
            Some(v) => parse_i64_spec(s@) == Some(v as int),
            None => parse_i64_spec(s@) is None,
        },
{
    let c = chars_of(s);
    if c.len() > 0 && c[0] == '-' {
        let d = sub_chars(c.as_slice(), 1, c.len());
        assert(d@ =~= s@.drop_first());
        if d.len() == 0 {
            return None;
        }
        match parse_unsigned_chars(d.as_slice(), 9223372036854775808u64) {
            Some(v) => {
                assert(d@.len() > 0 && d@[0] != '+' ==> parse_unsigned(d@, 9223372036854775808) == Some(v as nat));
                if d[0] == '+' {
                    return None;
                }
                let r: i64 = if v == 9223372036854775808u64 { i64::MIN } else { -(v as i64) };
                Some(r)
            },
            None => None,
        }
    } else {
        match parse_unsigned_chars(c.as_slice(), 9223372036854775807u64) {
            Some(v) => Some(v as i64),
            None => None,
        }
    }
}

/// An unsigned query parameter: its value when it parses, else `dflt`.
pub open spec fn u64_param(qs: Seq<char>, name: Seq<char>, dflt: u64) -> u64 {
    match query_value(split_on(qs, '&'), name) {
        Some(v) => match parse_unsigned(v, u64::MAX as nat) {
            Some(n) => n as u64,
            None => dflt,
        },
        None => dflt,
    }
}

/// Reads an unsigned query parameter, `dflt` when absent or unparsable.
pub fn u64_query(qs: &str, name: &str, dflt: u64) -> (r: u64)
    ensures
        r == u64_param(qs@, name@, dflt),
{
    match query_param(qs, name) {
        Some(v) => {
            let c = chars_of(v.as_str());
            match parse_unsigned_chars(c.as_slice(), u64::MAX) {
                Some(n) => n,
                None => dflt,
            }
        },
        None => dflt,
    }
}

// ───────────────────────────── shared table ─────────────────────────────

/// Endpoints of the shared table.
#[derive(PartialEq, Eq, Structural, Clone, Copy, Debug)]
pub enum TableRoute {
    Size,
    Exists,
    Get,
    Incr,
    Put,
    Clear,
    Del,
    Unknown,
}

/// `""`, `"/"` or `"/"` followed by `name`.
pub open spec fn root_or(sub: Seq<char>, name: Seq<char>) -> bool {
    sub.len() == 0 || sub == seq!['/'] || sub == seq!['/'] + name
}

/// The endpoint a method and sub-path select.
pub open spec fn table_route_of(method: Seq<char>, sub: Seq<char>) -> TableRoute {
    if method == "GET"@ && sub == "/size"@ {
        TableRoute::Size
    } else if method == "GET"@ && sub == "/exists"@ {
        TableRoute::Exists
    } else if method == "GET"@ && root_or(sub, "get"@) {
        TableRoute::Get
    } else if method == "POST"@ && sub == "/incr"@ {
        TableRoute::Incr
    } else if method == "POST"@ && root_or(sub, "set"@) {
        TableRoute::Put
    } else if method == "DELETE"@ && sub == "/clear"@ {
        TableRoute::Clear
    } else if method == "DELETE"@ && root_or(sub, "del"@) {
        TableRoute::Del
    } else {
        TableRoute::Unknown
    }
}

fn str_is(a: &str, b: &str) -> (r: bool)
    ensures
        r == (a@ == b@),
{
    let x = chars_of(a);
    let y = chars_of(b);
    chars_eq(x.as_slice(), y.as_slice())
}

fn root_or_exec(sub: &str, name: &str) -> (r: bool)
    ensures
        r == root_or(sub@, name@),
{
    let s = chars_of(sub);
    if s.len() == 0 {
        return true;
    }
    let mut one: Vec<char> = vec!['/'];
    assert(one@ =~= seq!['/']);
    if chars_eq(s.as_slice(), one.as_slice()) {
        return true;
    }
    let n = chars_of(name);
    push_all(&mut one, n.as_slice());
    chars_eq(s.as_slice(), one.as_slice())
}

/// The shared-table endpoint for a method and sub-path.
pub fn table_route(method: &str, sub: &str) -> (r: TableRoute)
    ensures
        r == table_route_of(method@, sub@),
{
    let get = str_is(method, "GET");
    let post = str_is(method, "POST");
    let del = str_is(method, "DELETE");
    if get && str_is(sub, "/size") {
        TableRoute::Size
    } else if get && str_is(sub, "/exists") {
        TableRoute::Exists
    } else if get && root_or_exec(sub, "get") {
        TableRoute::Get
    } else if post && str_is(sub, "/incr") {
        TableRoute::Incr
    } else if post && root_or_exec(sub, "set") {
        TableRoute::Put
    } else if del && str_is(sub, "/clear") {
        TableRoute::Clear
    } else if del && root_or_exec(sub, "del") {
        TableRoute::Del
    } else {
        TableRoute::Unknown
    }
}

/// The parameters of a shared-table request: `key`, `ttl_ms` (0 when
/// absent) and `delta` (1 when absent).
pub struct TableParams {
    pub key: Option<String>,
    pub ttl_ms: u64,
    pub delta: i64,
}

/// The `delta` parameter: its value when it parses as `i64`, else 1.
pub open spec fn delta_param(qs: Seq<char>) -> int {
    match query_value(split_on(qs, '&'), "delta"@) {
        Some(v) => match parse_i64_spec(v) {
            Some(d) => d,
            None => 1,
        },
        None => 1,
    }
}

/// Reads the parameters of a shared-table request.
pub fn table_params(qs: &str) -> (r: TableParams)
    ensures
        crate::features::opt_view(r.key) == query_value(split_on(qs@, '&'), "key"@),
        r.ttl_ms == u64_param(qs@, "ttl_ms"@, 0),
        r.delta as int == delta_param(qs@),
{
    let key = query_param(qs, "key");
    let ttl_ms = u64_query(qs, "ttl_ms", 0);
    let delta = match query_param(qs, "delta") {
        Some(v) => match parse_i64(v.as_str()) {
            Some(d) => d,
            None => 1,
        },
        None => 1,
    };
    TableParams { key, ttl_ms, delta }
}

/// Whether the request's body is needed: a `set` with a key.
pub fn table_needs_body(route: TableRoute, params: &TableParams) -> (r: bool)
    ensures
        r == (route == TableRoute::Put && params.key is Some),
{
    route == TableRoute::Put && params.key.is_some()
}

/// `{"error":"missing key"}`, 400.
pub open spec fn missing_key() -> (u16, Seq<char>, Seq<u8>, Seq<(Seq<char>, Seq<char>)>) {
    json_of(400, "{\"error\":\"missing key\"}"@)
}

/// `{"error":"table full","max_entries":N}`, 507.
pub open spec fn table_full(n: usize) -> (u16, Seq<char>, Seq<u8>, Seq<(Seq<char>, Seq<char>)>) {
    json_of(507, object(seq![member("error"@, quoted_text("table full"@)), member("max_entries"@, decimal(n as nat))]))
}

fn table_full_resp(n: usize) -> (r: AdminResponse)
    ensures
        resp_view(r) == table_full(n),
{
    let e = chars_of("table full");
    json2(507, str_member("error", e.as_slice()), num_member("max_entries", n as u64))
}

/// The answer to an increment's result.
pub open spec fn incr_answer(r: Result<i64, TableError>) -> (u16, Seq<char>, Seq<u8>, Seq<(Seq<char>, Seq<char>)>) {
    match r {
        Ok(v) => json_of(200, object(seq![member("value"@, signed_decimal(v as int))])),
        Err(TableError::Full(n)) => table_full(n),
        Err(TableError::NotACounter(_)) => json_of(409, "{\"error\":\"key exists but is not a counter\"}"@),
    }
}

/// What a shared-table request does at time `now` to table contents `m`
/// (bounded to `cap`, with `ev` evictions), ending in `m2`, answering
/// `resp`.
pub open spec fn table_outcome(
    m: Map<Seq<char>, (Seq<u8>, Option<u128>)>,
    cap: usize,
    ev: u64,
    route: TableRoute,
    key: Option<Seq<char>>,
    ttl_ms: u64,
    delta: i64,
    body: Seq<u8>,
    now: u128,
    m2: Map<Seq<char>, (Seq<u8>, Option<u128>)>,
    resp: (u16, Seq<char>, Seq<u8>, Seq<(Seq<char>, Seq<char>)>),
) -> bool {
    match route {
        TableRoute::Size => m2 == m && resp == json_of(
            200,
            object(seq![member("size"@, decimal(m.len())), member("evictions"@, decimal(ev as nat))]),
        ),
        TableRoute::Clear => m2 == Map::<Seq<char>, (Seq<u8>, Option<u128>)>::empty() && resp
            == json_of(200, object(seq![member("cleared"@, decimal(m.len()))])),
        TableRoute::Unknown => m2 == m && resp == plain(404, "text/plain"@, encode_utf8("Not found"@)),
        _ => match key {
            None => m2 == m && resp == missing_key(),
            Some(k) => keyed_outcome(m, cap, route, k, ttl_ms, delta, body, now, m2, resp),
        },
    }
}

/// What a shared-table request with key `k` does.
pub open spec fn keyed_outcome(
    m: Map<Seq<char>, (Seq<u8>, Option<u128>)>,
    cap: usize,
    route: TableRoute,
    k: Seq<char>,
    ttl_ms: u64,
    delta: i64,
    body: Seq<u8>,
    now: u128,
    m2: Map<Seq<char>, (Seq<u8>, Option<u128>)>,
    resp: (u16, Seq<char>, Seq<u8>, Seq<(Seq<char>, Seq<char>)>),
) -> bool {
    let live = m.contains_key(k) && !expired(m[k].1, now);
    let dropped = if live {
        m
    } else {
        m.remove(k)
    };
    let code: u16 = if live {
        200
    } else {
        404
    };
    let ttl = if ttl_ms > 0 {
        Some(ttl_ms)
    } else {
        None
    };
    if route == TableRoute::Exists {
        m2 == dropped && resp == json_of(code, object(seq![member("exists"@, bool_text(live))]))
    } else if route == TableRoute::Get {
        m2 == dropped && resp == (if live {
            plain(200, "application/octet-stream"@, m[k].0)
        } else {
            plain(404, "text/plain"@, Seq::<u8>::empty())
        })
    } else if route == TableRoute::Del {
        m2 == m.remove(k) && resp == json_of(200, object(seq![member("deleted"@, bool_text(live))]))
    } else if route == TableRoute::Put {
        if !m.contains_key(k) && m.len() >= cap {
            m2 == m && resp == table_full(cap)
        } else {
            m2 == m.insert(k, (body, deadline_of(ttl, now))) && resp == plain(
                204,
                "text/plain"@,
                Seq::<u8>::empty(),
            )
        }
    } else {
        exists|r: Result<i64, TableError>|
            #[trigger] incr_outcome(m, cap, k, delta, now, m2, r) && resp == incr_answer(r)
    }
}

/// Answers a shared-table request at time `now` (the table's clock),
/// with `body` as the value of a `set`.
pub fn table_response(
    table: &mut SharedTable,
    route: TableRoute,
    params: &TableParams,
    body: Vec<u8>,
    now: u128,
) -> (r: AdminResponse)
    requires
        now <= crate::clock::max_duration_nanos(),
    ensures
        final(table).capacity() == old(table).capacity(),
        final(table).evicted() == old(table).evicted(),
        table_outcome(
            old(table)@,
            old(table).capacity(),
            old(table).evicted(),
            route,
            crate::features::opt_view(params.key),
            params.ttl_ms,
            params.delta,
            body@,
            now,
            final(table)@,
            resp_view(r),
        ),
{
    match route {
        TableRoute::Size => {
            let n = table.size();
            let e = table.evictions();
            json2(200, num_member("size", n as u64), num_member("evictions", e))
        },
        TableRoute::Clear => {
            let n = table.clear();
            json1(200, num_member("cleared", n as u64))
        },
        TableRoute::Unknown => not_found(),
        _ => {
            let k = match &params.key {
                Some(k) => k,
                None => {
                    return json_err(400, "{\"error\":\"missing key\"}");
                },
            };
            match route {
                TableRoute::Exists => {
                    let live = table.get_at(k.as_str(), now).is_some();
                    json1(if live { 200 } else { 404 }, bool_member("exists", live))
                },
                TableRoute::Get => match table.get_at(k.as_str(), now) {
                    Some(v) => respond(200, "application/octet-stream", v),
                    None => respond(404, "text/plain", Vec::new()),
                },
                TableRoute::Del => {
                    let removed = table.del_at(k.as_str(), now);
                    json1(200, bool_member("deleted", removed))
                },
                TableRoute::Put => {
                    let ttl = if params.ttl_ms > 0 { Some(params.ttl_ms) } else { None };
                    match table.set_at(k.clone(), body, ttl, now) {
                        Ok(()) => respond(204, "text/plain", Vec::new()),
                        Err(TableError::Full(n)) => table_full_resp(n),
                        Err(TableError::NotACounter(_)) => json_err(500, "{\"error\":\"internal\"}"),
                    }
                },
                _ => {
                    let r = table.incr_at(k.as_str(), params.delta, now);
                    let resp = match &r {
                        Ok(v) => {
                            let d = signed_chars(*v);
                            json1(200, member_chars("value", d.as_slice()))
                        },
                        Err(TableError::Full(n)) => table_full_resp(*n),
                        Err(TableError::NotACounter(_)) => json_err(
                            409,
                            "{\"error\":\"key exists but is not a counter\"}",
                        ),
                    };
                    assert(incr_outcome(old(table)@, old(table).capacity(), k@, params.delta, now, table@, r));
                    resp
                },
            }
        },
    }
}

// ───────────────────────────── task queue ─────────────────────────────

/// Endpoints of the task queue.
#[derive(PartialEq, Eq, Structural, Clone, Copy, Debug)]
pub enum TaskRoute {
    Stats,
    Size,
    Push,
    Pop,
    Clear,
    Unknown,
}

/// The endpoint a method and sub-path select.
pub open spec fn task_route_of(method: Seq<char>, sub: Seq<char>) -> TaskRoute {
    if method == "GET"@ && sub == "/stats"@ {
        TaskRoute::Stats
    } else if method == "GET"@ && sub == "/size"@ {
        TaskRoute::Size
    } else if method == "POST"@ && root_or(sub, "push"@) {
        TaskRoute::Push
    } else if (method == "POST"@ || method == "GET"@) && sub == "/pop"@ {
        TaskRoute::Pop
    } else if method == "DELETE"@ && sub == "/clear"@ {
        TaskRoute::Clear
    } else {
        TaskRoute::Unknown
    }
}

/// The task-queue endpoint for a method and sub-path.
pub fn task_route(method: &str, sub: &str) -> (r: TaskRoute)
    ensures
        r == task_route_of(method@, sub@),
{
    let get = str_is(method, "GET");
    let post = str_is(method, "POST");
    if get && str_is(sub, "/stats") {
        TaskRoute::Stats
    } else if get && str_is(sub, "/size") {
        TaskRoute::Size
    } else if post && root_or_exec(sub, "push") {
        TaskRoute::Push
    } else if (post || get) && str_is(sub, "/pop") {
        TaskRoute::Pop
    } else if str_is(method, "DELETE") && str_is(sub, "/clear") {
        TaskRoute::Clear
    } else {
        TaskRoute::Unknown
    }
}

/// How long a `pop` may wait: the `wait_ms` parameter (0 when absent),
/// at most `max_wait_ms`.
pub fn task_wait_ms(qs: &str, max_wait_ms: u64) -> (r: u64)
    ensures
        r == (if u64_param(qs@, "wait_ms"@, 0) < max_wait_ms {
            u64_param(qs@, "wait_ms"@, 0)
        } else {
            max_wait_ms
        }),
{
    let w = u64_query(qs, "wait_ms", 0);
    if w < max_wait_ms {
        w
    } else {
        max_wait_ms
    }
}

/// `{"error":"missing channel"}`, 400.
pub open spec fn missing_channel() -> (u16, Seq<char>, Seq<u8>, Seq<(Seq<char>, Seq<char>)>) {
    json_of(400, "{\"error\":\"missing channel\"}"@)
}

/// The stats document of the task queue.
pub fn task_stats_response(s: QueueStats) -> (r: AdminResponse)
    ensures
        resp_view(r) == json_of(
            200,
            object(
                seq![
                    member("channels"@, decimal(s.channels as nat)),
                    member("pushed"@, decimal(s.pushed as nat)),
                    member("popped"@, decimal(s.popped as nat)),
                    member("rejected"@, decimal(s.rejected as nat)),
                ],
            ),
        ),
{
    let ms: Vec<Vec<char>> = vec![
        num_member("channels", s.channels as u64),
        num_member("pushed", s.pushed),
        num_member("popped", s.popped),
        num_member("rejected", s.rejected),
    ];
    assert(views(ms@) =~= seq![ms@[0]@, ms@[1]@, ms@[2]@, ms@[3]@]);
    let t = object_chars(&ms);
    json_text(200, t.as_slice())
}

/// The answer to a `size` request.
pub fn task_size_response(q: &TaskQueue, channel: Option<&str>) -> (r: AdminResponse)
    ensures
        match channel {
            None => resp_view(r) == missing_channel(),
            Some(c) => resp_view(r) == json_of(
                200,
                object(seq![member("size"@, decimal(if q@.contains_key(c@) { q@[c@].0.len() } else { 0 }))]),
            ),
        },
{
    match channel {
        None => json_err(400, "{\"error\":\"missing channel\"}"),
        Some(c) => {
            let n = q.size(c);
            json1(200, num_member("size", n as u64))
        },
    }
}

/// The answer to a push's result.
pub open spec fn push_answer(res: Result<u64, QueueError>) -> (u16, Seq<char>, Seq<u8>, Seq<(Seq<char>, Seq<char>)>) {
    match res {
        Ok(id) => json_of(200, object(seq![member("id"@, decimal(id as nat))])),
        Err(QueueError::Full(_, n)) => json_of(
            507,
            object(seq![member("error"@, quoted_text("channel full"@)), member("capacity"@, decimal(n as nat))]),
        ),
        Err(QueueError::TooManyChannels(n)) => json_of(
            507,
            object(seq![member("error"@, quoted_text("too many channels"@)), member("max"@, decimal(n as nat))]),
        ),
    }
}

/// The answer to a `push` of `payload` onto `channel` at time `now`.
pub fn task_push_response(q: &mut TaskQueue, channel: &str, payload: Vec<u8>, now: u128) -> (r: AdminResponse)
    ensures
        final(q).max_channels() == old(q).max_channels(),
        final(q).channel_capacity() == old(q).channel_capacity(),
        exists|res: Result<u64, QueueError>|
            #[trigger] push_outcome(*old(q), channel@, payload@, now, *final(q), res) && resp_view(r) == push_answer(res),
{
    let ghost pv = payload@;
    let res = q.push_at(channel, payload, now);
    let r = match &res {
        Ok(id) => json1(200, num_member("id", *id)),
        Err(QueueError::Full(_, n)) => {
            let e = chars_of("channel full");
            json2(507, str_member("error", e.as_slice()), num_member("capacity", *n as u64))
        },
        Err(QueueError::TooManyChannels(n)) => {
            let e = chars_of("too many channels");
            json2(507, str_member("error", e.as_slice()), num_member("max", *n as u64))
        },
    };
    assert(push_outcome(*old(q), channel@, pv, now, *q, res));
    r
}

/// The answer to a `pop` that produced `job` (or nothing within the wait).
pub fn task_pop_response(job: Option<Job>) -> (r: AdminResponse)
    ensures
        match job {
            Some(j) => resp_view(r) == (
                200u16,
                "application/octet-stream"@,
                j.payload@,
                seq![("X-Task-Id"@, decimal(j.id as nat))],
            ),
            None => resp_view(r) == plain(204, "text/plain"@, Seq::<u8>::empty()),
        },
{
    match job {
        Some(j) => {
            let id = decimal_chars(j.id);
            let headers: Vec<(String, String)> = vec![("X-Task-Id".to_owned(), string_of(id.as_slice()))];
            let r = AdminResponse {
                status: 200,
                content_type: "application/octet-stream".to_owned(),
                body: j.payload,
                headers,
            };
            assert(crate::text::pair_views(r.headers@) =~= seq![("X-Task-Id"@, decimal(j.id as nat))]);
            r
        },
        None => respond(204, "text/plain", Vec::new()),
    }
}

/// The answer to a `clear` of `channel`.
pub fn task_clear_response(q: &mut TaskQueue, channel: Option<&str>) -> (r: AdminResponse)
    ensures
        final(q).max_channels() == old(q).max_channels(),
        final(q).channel_capacity() == old(q).channel_capacity(),
        match channel {
            None => resp_view(r) == missing_channel() && final(q)@ == old(q)@,
            Some(c) => if old(q)@.contains_key(c@) {
                &&& resp_view(r) == json_of(200, object(seq![member("cleared"@, decimal(old(q)@[c@].0.len()))]))
                &&& final(q)@ == old(q)@.insert(c@, (Seq::<(u64, Seq<u8>, u128)>::empty(), old(q)@[c@].1))
            } else {
                resp_view(r) == json_of(200, object(seq![member("cleared"@, decimal(0))])) && final(q)@ == old(q)@
            },
        },
{
    match channel {
        None => json_err(400, "{\"error\":\"missing channel\"}"),
        Some(c) => {
            let n = q.clear(c);
            json1(200, num_member("cleared", n as u64))
        },
    }
}

// ───────────────────────────── WebSocket hub ─────────────────────────────

/// Endpoints of the WebSocket hub.
pub enum WsRoute {
    Stats,
    Subscribers,
    Publish,
    /// An upgrade to subscribe to this channel.
    Subscribe(String),
    /// `GET /_/ws//…` names no channel.
    MissingChannel,
    /// `publish`, `stats` and `subscribers` are not channels.
    Reserved,
    Unknown,
}

/// The channel a subscribe path names: the sub-path without leading
/// slashes.
pub open spec fn ws_channel_of(sub: Seq<char>) -> Seq<char> {
    trim_start(sub, CharClass::Exactly('/'))
}

/// The endpoint a method and sub-path select.
pub open spec fn ws_route_ok(method: Seq<char>, sub: Seq<char>, r: WsRoute) -> bool {
    if method == "GET"@ && sub == "/stats"@ {
        r is Stats
    } else if method == "GET"@ && sub == "/subscribers"@ {
        r is Subscribers
    } else if method == "POST"@ && sub == "/publish"@ {
        r is Publish
    } else if method == "GET"@ && sub.len() > 0 && sub != seq!['/'] {
        let c = ws_channel_of(sub);
        if c.len() == 0 {
            r is MissingChannel
        } else if c == "publish"@ || c == "stats"@ || c == "subscribers"@ {
            r is Reserved
        } else {
            r matches WsRoute::Subscribe(name) && name@ == c
        }
    } else {
        r is Unknown
    }
}

/// The WebSocket endpoint for a method and sub-path.
pub fn ws_route(method: &str, sub: &str) -> (r: WsRoute)
    ensures
        ws_route_ok(method@, sub@, r),
{
    let get = str_is(method, "GET");
    if get && str_is(sub, "/stats") {
        return WsRoute::Stats;
    }
    if get && str_is(sub, "/subscribers") {
        return WsRoute::Subscribers;
    }
    if str_is(method, "POST") && str_is(sub, "/publish") {
        return WsRoute::Publish;
    }
    let s = chars_of(sub);
    let slash: Vec<char> = vec!['/'];
    assert(slash@ =~= seq!['/']);
    if get && s.len() > 0 && !chars_eq(s.as_slice(), slash.as_slice()) {
        let c = trim_start_chars(s.as_slice(), &CharClass::Exactly('/'));
        if c.len() == 0 {
            return WsRoute::MissingChannel;
        }
        let cs = string_of(c.as_slice());
        if str_is(cs.as_str(), "publish") || str_is(cs.as_str(), "stats") || str_is(cs.as_str(), "subscribers") {
            return WsRoute::Reserved;
        }
        return WsRoute::Subscribe(cs);
    }
    WsRoute::Unknown
}

/// The stats document of the hub.
pub fn ws_stats_response(s: WsStats) -> (r: AdminResponse)
    ensures
        resp_view(r) == json_of(
            200,
            object(
                seq![
                    member("channels"@, decimal(s.channels as nat)),
                    member("published"@, decimal(s.published as nat)),
                    member("subscribed"@, decimal(s.subscribed as nat)),
                    member("rejected"@, decimal(s.rejected as nat)),
                ],
            ),
        ),
{
    let ms: Vec<Vec<char>> = vec![
        num_member("channels", s.channels as u64),
        num_member("published", s.published),
        num_member("subscribed", s.subscribed),
        num_member("rejected", s.rejected),
    ];
    assert(views(ms@) =~= seq![ms@[0]@, ms@[1]@, ms@[2]@, ms@[3]@]);
    let t = object_chars(&ms);
    json_text(200, t.as_slice())
}

/// The answer to a subscriber count.
pub fn ws_subscribers_response(n: usize) -> (r: AdminResponse)
    ensures
        resp_view(r) == json_of(200, object(seq![member("subscribers"@, decimal(n as nat))])),
{
    json1(200, num_member("subscribers", n as u64))
}

/// The answer to a publish that reached `delivered` subscribers, or hit
/// the channel cap (`None`).
pub fn ws_publish_response(delivered: Option<usize>) -> (r: AdminResponse)
    ensures
        match delivered {
            Some(n) => resp_view(r) == json_of(200, object(seq![member("delivered"@, decimal(n as nat))])),
            None => resp_view(r) == json_of(507, "{\"error\":\"ws channel cap reached\"}"@),
        },
{
    match delivered {
        Some(n) => json1(200, num_member("delivered", n as u64)),
        None => json_err(507, "{\"error\":\"ws channel cap reached\"}"),
    }
}

// ───────────────────────────── async I/O ─────────────────────────────

/// Endpoints of the async I/O primitives.
#[derive(PartialEq, Eq, Structural, Clone, Copy, Debug)]
pub enum AsyncRoute {
    Stats,
    Read,
    Write,
    Timer,
    Unknown,
}

/// The endpoint a method and sub-path select.
pub open spec fn async_route_of(method: Seq<char>, sub: Seq<char>) -> AsyncRoute {
    if method == "GET"@ && sub == "/stats"@ {
        AsyncRoute::Stats
    } else if method == "POST"@ && sub == "/read"@ {
        AsyncRoute::Read
    } else if method == "POST"@ && sub == "/write"@ {
        AsyncRoute::Write
    } else if method == "POST"@ && sub == "/timer"@ {
        AsyncRoute::Timer
    } else {
        AsyncRoute::Unknown
    }
}

/// The async I/O endpoint for a method and sub-path.
pub fn async_route(method: &str, sub: &str) -> (r: AsyncRoute)
    ensures
        r == async_route_of(method@, sub@),
{
    let post = str_is(method, "POST");
    if str_is(method, "GET") && str_is(sub, "/stats") {
        AsyncRoute::Stats
    } else if post && str_is(sub, "/read") {
        AsyncRoute::Read
    } else if post && str_is(sub, "/write") {
        AsyncRoute::Write
    } else if post && str_is(sub, "/timer") {
        AsyncRoute::Timer
    } else {
        AsyncRoute::Unknown
    }
}

/// The stats document of the async I/O primitives.
pub fn async_stats_response(s: AsyncIoStats) -> (r: AdminResponse)
    ensures
        resp_view(r) == json_of(
            200,
            object(
                seq![
                    member("reads"@, decimal(s.reads as nat)),
                    member("writes"@, decimal(s.writes as nat)),
                    member("timers_scheduled"@, decimal(s.timers_scheduled as nat)),
                    member("timers_fired"@, decimal(s.timers_fired as nat)),
                    member("allowed_roots"@, decimal(s.allowed_roots as nat)),
                ],
            ),
        ),
{
    let ms: Vec<Vec<char>> = vec![
        num_member("reads", s.reads),
        num_member("writes", s.writes),
        num_member("timers_scheduled", s.timers_scheduled),
        num_member("timers_fired", s.timers_fired),
        num_member("allowed_roots", s.allowed_roots as u64),
    ];
    assert(views(ms@) =~= seq![ms@[0]@, ms@[1]@, ms@[2]@, ms@[3]@, ms@[4]@]);
    let t = object_chars(&ms);
    json_text(200, t.as_slice())
}

/// The answer to an async I/O error.
pub open spec fn async_error(e: AsyncIoError) -> (u16, Seq<char>, Seq<u8>, Seq<(Seq<char>, Seq<char>)>) {
    match e {
        AsyncIoError::PathNotAllowed => json_of(403, "{\"error\":\"path not allowed\"}"@),
        AsyncIoError::TooLarge(n) => json_of(
            413,
            object(seq![member("error"@, quoted_text("payload too large"@)), member("max"@, decimal(n as nat))]),
        ),
        AsyncIoError::Io(kind) => json_of(
            502,
            object(seq![member("error"@, quoted_text("io"@)), member("kind"@, quoted_text(kind@))]),
        ),
        AsyncIoError::TimerWithoutQueue => json_of(409, "{\"error\":\"timer requires [task_queue] enabled\"}"@),
        AsyncIoError::DelayTooLong(n) => json_of(
            400,
            object(seq![member("error"@, quoted_text("delay too long"@)), member("max_ms"@, decimal(n as nat))]),
        ),
    }
}

/// Maps an async I/O error to its answer.
pub fn map_async_err(e: AsyncIoError) -> (r: AdminResponse)
    ensures
        resp_view(r) == async_error(e),
{
    match e {
        AsyncIoError::PathNotAllowed => json_err(403, "{\"error\":\"path not allowed\"}"),
        AsyncIoError::TooLarge(n) => {
            let m = chars_of("payload too large");
            json2(413, str_member("error", m.as_slice()), num_member("max", n as u64))
        },
        AsyncIoError::Io(kind) => {
            let m = chars_of("io");
            let k = chars_of(kind.as_str());
            json2(502, str_member("error", m.as_slice()), str_member("kind", k.as_slice()))
        },
        AsyncIoError::TimerWithoutQueue => json_err(409, "{\"error\":\"timer requires [task_queue] enabled\"}"),
        AsyncIoError::DelayTooLong(n) => {
            let m = chars_of("delay too long");
            json2(400, str_member("error", m.as_slice()), num_member("max_ms", n))
        },
    }
}

/// The answer to a read: the bytes; an empty 404 when the file is not
/// there; otherwise the error's answer.
pub fn async_read_response(r: Result<Vec<u8>, AsyncIoError>) -> (resp: AdminResponse)
    ensures
        match r {
            Ok(b) => resp_view(resp) == plain(200, "application/octet-stream"@, b@),
            Err(AsyncIoError::Io(kind)) => if kind@ == "NotFound"@ {
                resp_view(resp) == plain(404, "text/plain"@, Seq::<u8>::empty())
            } else {
                resp_view(resp) == async_error(AsyncIoError::Io(kind))
            },
            Err(e) => resp_view(resp) == async_error(e),
        },
{
    match r {
        Ok(b) => respond(200, "application/octet-stream", b),
        Err(AsyncIoError::Io(kind)) => {
            if str_is(kind.as_str(), "NotFound") {
                respond(404, "text/plain", Vec::new())
            } else {
                map_async_err(AsyncIoError::Io(kind))
            }
        },
        Err(e) => map_async_err(e),
    }
}

/// The answer to a write of `n` bytes, or its error.
pub fn async_write_response(r: Result<usize, AsyncIoError>) -> (resp: AdminResponse)
    ensures
        match r {
            Ok(n) => resp_view(resp) == json_of(200, object(seq![member("bytes"@, decimal(n as nat))])),
            Err(e) => resp_view(resp) == async_error(e),
        },
{
    match r {
        Ok(n) => json1(200, num_member("bytes", n as u64)),
        Err(e) => map_async_err(e),
    }
}

/// The answer to a timer request.
pub fn async_timer_response(r: Result<(), AsyncIoError>) -> (resp: AdminResponse)
    ensures
        match r {
            Ok(()) => resp_view(resp) == json_of(202, "{\"scheduled\":true}"@),
            Err(e) => resp_view(resp) == async_error(e),
        },
{
    match r {
        Ok(()) => json_err(202, "{\"scheduled\":true}"),
        Err(e) => map_async_err(e),
    }
}

/// Whether a write appends: its `append` parameter is `1` or `true`.
pub fn append_flag(qs: &str) -> (r: bool)
    ensures
        r == (query_value(split_on(qs@, '&'), "append"@) matches Some(v) && (v == "1"@ || v == "true"@)),
{
    match query_param(qs, "append") {
        Some(v) => str_is(v.as_str(), "1") || str_is(v.as_str(), "true"),
        None => false,
    }
}

/// The path a read names in its body: the UTF-8 text, trimmed; `None`
/// when the body is not UTF-8 (answered `{"error":"non-utf8 path"}`).
pub fn read_path_of(body: &[u8]) -> (r: Option<String>)
    ensures
        match r {
            Some(p) => vstd::utf8::valid_utf8(body@) && p@ == crate::text::trim_ws(vstd::utf8::decode_utf8(body@)),
            None => !vstd::utf8::valid_utf8(body@),
        },
{
    match crate::text::decode_utf8_strict(body) {
        Some(c) => {
            let t = crate::text::trim_ws_chars(c.as_slice());
            Some(string_of(t.as_slice()))
        },
        None => None,
    }
}

// ───────────────────────────── request bodies ─────────────────────────────

/// The answer when a request body cannot be read: 413 when it is too
/// large, 400 otherwise.
pub fn body_error_response(too_large: bool) -> (r: AdminResponse)
    ensures
        resp_view(r) == (if too_large {
            json_of(413, "{\"error\":\"payload too large\"}"@)
        } else {
            json_of(400, "{\"error\":\"invalid request\"}"@)
        }),
{
    if too_large {
        json_err(413, "{\"error\":\"payload too large\"}")
    } else {
        json_err(400, "{\"error\":\"invalid request\"}")
    }
}

} // verus!
