//! `RuntimeConfig::check`: the errors and warnings a configuration earns.
//!
//! Whether a configured file or directory exists is a fact about the
//! disk, gathered once into [`FsFacts`]; everything else is decided by
//! [`RuntimeConfig::check_with`] from the configuration and those facts.
use vstd::prelude::*;

use crate::config::{str_views, RuntimeConfig, VirtualHostConfig, WorkerPoolRouteConfig};
use crate::paths::path_exists_chars;
use crate::text::{
    chars_eq, chars_of, decimal, decimal_chars, lowercase, push_all, starts_with, starts_with_chars,
    string_of, to_lowercase_chars, views,
};

verus! {

/// Whether `path` exists on disk; the file system answers.
fn path_exists(path: &str) -> (r: bool) {
    let p = chars_of(path);
    path_exists_chars(p.as_slice())
}

/// What the disk says about one virtual host's paths.
pub struct VhostFacts {
    /// The root directory exists.
    pub root_exists: bool,
    /// The TLS certificate file exists (when one is set).
    pub cert_exists: bool,
    /// The TLS key file exists (when one is set).
    pub key_exists: bool,
}

/// What the disk says about the paths a configuration names.
pub struct FsFacts {
    /// `[server.tls] cert_file` exists (when set).
    pub tls_cert_exists: bool,
    /// `[server.tls] key_file` exists (when set).
    pub tls_key_exists: bool,
    /// One entry per virtual host, in order.
    pub vhosts: Vec<VhostFacts>,
}

/// A list holding `m` when `c` holds, and nothing otherwise.
pub open spec fn opt_msg(c: bool, m: Seq<char>) -> Seq<Seq<char>> {
    if c {
        seq![m]
    } else {
        seq![]
    }
}

/// `[[virtual_hosts]][i]` / `[[worker_pools]][i]` prefixes.
pub open spec fn indexed(section: Seq<char>, i: int) -> Seq<char> {
    section + decimal(i as nat) + "]"@
}

/// Errors that do not come from worker pools or virtual hosts.
pub open spec fn fixed_errors(c: RuntimeConfig, f: FsFacts) -> Seq<Seq<char>> {
    let mode = c.server.worker_mode@;
    let exec = c.sandbox.execution_mode@;
    let tls = c.server.tls;
    opt_msg(
        !(mode == "process"@ || mode == "thread"@),
        "[server] worker_mode = \""@ + mode + "\" — must be \"process\" or \"thread\""@,
    ) + opt_msg(
        !(exec == "framework"@ || exec == "strict"@),
        "[sandbox] execution_mode = \""@ + exec + "\" — must be \"framework\" or \"strict\""@,
    ) + opt_msg(tls.enabled && tls.cert_file is None, "[server.tls] enabled = true but cert_file is missing"@)
        + opt_msg(tls.enabled && tls.key_file is None, "[server.tls] enabled = true but key_file is missing"@)
        + opt_msg(
        exec == "strict"@ && c.sandbox.execution_whitelist@.len() == 0,
        "[sandbox] execution_mode = \"strict\" but execution_whitelist is empty — ALL PHP requests will be blocked"@,
    ) + match tls.cert_file {
        Some(p) => opt_msg(!f.tls_cert_exists, "[server.tls] cert_file = \""@ + p@ + "\" — file not found"@),
        None => seq![],
    } + match tls.key_file {
        Some(p) => opt_msg(!f.tls_key_exists, "[server.tls] key_file = \""@ + p@ + "\" — file not found"@),
        None => seq![],
    }
}

/// Warning: no workers and no timeout.
pub open spec fn warn_blocking(c: RuntimeConfig) -> Seq<Seq<char>> {
    opt_msg(
        c.server.workers == 0 && c.server.request_timeout == 0,
        "[server] workers = 0 + request_timeout = 0 — a slow request will block ALL subsequent requests"@,
    )
}

/// Warning: security enabled with every guard off.
pub open spec fn warn_guards(c: RuntimeConfig) -> Seq<Seq<char>> {
    opt_msg(
        c.security.enabled && !c.security.sql_guard && !c.security.code_injection_guard
            && !c.security.behaviour_guard,
        "[security] enabled = true but all guards are disabled — security layer has no effect"@,
    )
}

/// Warning: cache enabled with a zero TTL.
pub open spec fn warn_ttl(c: RuntimeConfig) -> Seq<Seq<char>> {
    opt_msg(
        c.cache.enabled && c.cache.ttl_seconds == 0,
        "[cache] enabled = true but ttl_seconds = 0 — responses will be cached and immediately expire"@,
    )
}

/// Warning: more than 64 workers.
pub open spec fn warn_many_workers(c: RuntimeConfig) -> Seq<Seq<char>> {
    opt_msg(
        c.server.workers > 64,
        "[server] workers = "@ + decimal(c.server.workers as nat)
            + " — very high worker count, ensure sufficient memory and file descriptors"@,
    )
}

/// Warning: persistent workers that never recycle.
pub open spec fn warn_recycle(c: RuntimeConfig) -> Seq<Seq<char>> {
    opt_msg(
        c.server.persistent_workers == Some(true) && c.server.worker_max_requests == 0,
        "[server] persistent_workers = true but worker_max_requests = 0 — workers will never recycle, throughput will degrade over time"@,
    )
}

/// Warning: compression level outside 1–9.
pub open spec fn warn_level(c: RuntimeConfig) -> Seq<Seq<char>> {
    opt_msg(
        c.compression.level < 1 || c.compression.level > 9,
        "[compression] level = "@ + decimal(c.compression.level as nat) + " — should be 1–9"@,
    )
}

/// Warning: unknown SameSite value.
pub open spec fn warn_samesite(c: RuntimeConfig) -> Seq<Seq<char>> {
    let same = c.session.cookie_samesite@;
    opt_msg(
        !(same == "Lax"@ || same == "Strict"@ || same == "None"@),
        "[session] cookie_samesite = \""@ + same + "\" — should be Lax, Strict, or None"@,
    )
}

/// Warning: CORS enabled with no origins.
pub open spec fn warn_cors(c: RuntimeConfig) -> Seq<Seq<char>> {
    opt_msg(
        c.cors.enabled && c.cors.allow_origins@.len() == 0,
        "[cors] enabled = true but allow_origins is empty — no origins will be allowed"@,
    )
}

/// Warning: ACME and manual TLS both on.
pub open spec fn warn_acme_tls(c: RuntimeConfig) -> Seq<Seq<char>> {
    opt_msg(
        c.acme.enabled && c.server.tls.enabled,
        "[acme] enabled = true and [server.tls] enabled = true — ACME auto-TLS and manual TLS are both active, ACME may overwrite your certificate"@,
    )
}

/// Warning: ACME domains listed although virtual hosts exist.
pub open spec fn warn_acme_domains(c: RuntimeConfig) -> Seq<Seq<char>> {
    opt_msg(
        c.acme.enabled && c.acme.domains@.len() != 0 && c.virtual_hosts@.len() != 0,
        "[acme] domains is set but [[virtual_hosts]] are configured — vhost domains are auto-collected into ACME, 'domains' is redundant"@,
    )
}

/// Warnings that do not come from worker pools or virtual hosts.
pub open spec fn fixed_warnings(c: RuntimeConfig) -> Seq<Seq<char>> {
    warn_blocking(c) + warn_guards(c) + warn_ttl(c) + warn_many_workers(c) + warn_recycle(c)
        + warn_level(c) + warn_samesite(c) + warn_cors(c) + warn_acme_tls(c) + warn_acme_domains(c)
}

/// Error for a worker pool whose minimum exceeds its maximum.
pub open spec fn pool_errors(pools: Seq<WorkerPoolRouteConfig>) -> Seq<Seq<char>>
    decreases pools.len(),
{
    if pools.len() == 0 {
        seq![]
    } else {
        let i = pools.len() - 1;
        let p = pools.last();
        pool_errors(pools.drop_last()) + opt_msg(
            p.min_workers > p.max_workers,
            indexed("[[worker_pools]]["@, i) + " min_workers ("@ + decimal(p.min_workers as nat)
                + ") > max_workers ("@ + decimal(p.max_workers as nat) + ") — invalid"@,
        )
    }
}

/// Warning for a worker pool with an empty path pattern.
pub open spec fn pool_warnings(pools: Seq<WorkerPoolRouteConfig>) -> Seq<Seq<char>>
    decreases pools.len(),
{
    if pools.len() == 0 {
        seq![]
    } else {
        let i = pools.len() - 1;
        pool_warnings(pools.drop_last()) + opt_msg(
            pools.last().match_path@.len() == 0,
            indexed("[[worker_pools]]["@, i) + " match_path is empty — pool will never match any request"@,
        )
    }
}

/// Errors for the aliases `al` of virtual host `i`, given the names seen
/// so far; also the names seen afterwards.
pub open spec fn alias_scan(al: Seq<Seq<char>>, i: int, seen: Seq<Seq<char>>) -> (Seq<Seq<char>>, Seq<Seq<char>>)
    decreases al.len(),
{
    if al.len() == 0 {
        (seq![], seen)
    } else {
        let (errs, seen1) = alias_scan(al.drop_last(), i, seen);
        let a = al.last();
        let l = lowercase(a);
        if seen1.contains(l) {
            (
                errs.push(indexed("[[virtual_hosts]]["@, i) + " duplicate alias \""@ + a
                    + "\" (already defined as domain or alias)"@),
                seen1,
            )
        } else {
            (errs, seen1.push(l))
        }
    }
}

/// Domain errors of virtual host `i`, given the names seen; also the
/// names seen afterwards.
pub open spec fn vh_domain(v: VirtualHostConfig, i: int, seen: Seq<Seq<char>>) -> (Seq<Seq<char>>, Seq<Seq<char>>) {
    let pre = indexed("[[virtual_hosts]]["@, i);
    let d = v.domain@;
    if d.len() == 0 {
        (seq![pre + " domain is empty"@], seen)
    } else if seen.contains(lowercase(d)) {
        (seq![pre + " duplicate domain \""@ + d + "\""@], seen)
    } else {
        (seq![], seen.push(lowercase(d)))
    }
}

/// Root directory errors of virtual host `i`.
pub open spec fn vh_root(v: VirtualHostConfig, i: int, f: VhostFacts) -> Seq<Seq<char>> {
    let pre = indexed("[[virtual_hosts]]["@, i);
    if v.root@.len() == 0 {
        seq![pre + " root is empty for domain \""@ + v.domain@ + "\""@]
    } else if !f.root_exists {
        seq![pre + " root = \""@ + v.root@ + "\" — directory not found for domain \""@ + v.domain@ + "\""@]
    } else {
        seq![]
    }
}

/// TLS file errors of virtual host `i`.
pub open spec fn vh_tls(v: VirtualHostConfig, i: int, f: VhostFacts) -> Seq<Seq<char>> {
    let pre = indexed("[[virtual_hosts]]["@, i);
    let d = v.domain@;
    (match v.tls_cert {
        Some(p) => opt_msg(!f.cert_exists, pre + " tls_cert = \""@ + p@ + "\" — file not found for domain \""@ + d + "\""@),
        None => seq![],
    }) + (match v.tls_key {
        Some(p) => opt_msg(!f.key_exists, pre + " tls_key = \""@ + p@ + "\" — file not found for domain \""@ + d + "\""@),
        None => seq![],
    }) + opt_msg(
        (v.tls_cert is Some) != (v.tls_key is Some),
        pre + " domain \""@ + d + "\" — tls_cert and tls_key must both be set or both omitted"@,
    )
}

/// Errors for the virtual hosts `vh` (facts `fx`); also the names seen.
pub open spec fn vhost_scan(vh: Seq<VirtualHostConfig>, fx: Seq<VhostFacts>) -> (Seq<Seq<char>>, Seq<Seq<char>>)
    decreases vh.len(),
{
    if vh.len() == 0 {
        (seq![], seq![])
    } else {
        let (errs, seen) = vhost_scan(vh.drop_last(), fx);
        let i = vh.len() - 1;
        let v = vh.last();
        let (e1, seen1) = vh_domain(v, i, seen);
        let (e3, seen2) = alias_scan(str_views(v.aliases@), i, seen1);
        (errs + e1 + vh_root(v, i, fx[i]) + e3 + vh_tls(v, i, fx[i]), seen2)
    }
}

/// The errors and warnings of `c` given what the disk says (`f`).
pub open spec fn check_spec(c: RuntimeConfig, f: FsFacts) -> (Seq<Seq<char>>, Seq<Seq<char>>) {
    let errors = fixed_errors(c, f) + pool_errors(c.worker_pools@) + vhost_scan(c.virtual_hosts@, f.vhosts@).0;
    let warnings = fixed_warnings(c) + pool_warnings(c.worker_pools@) + opt_msg(
        c.virtual_hosts@.len() != 0 && starts_with(c.server.listen@, "127.0.0.1"@),
        "[virtual_hosts] configured but server listens on 127.0.0.1 — external domains won't be reachable"@,
    );
    (errors, warnings)
}

/// The worker-count warning of `c`.
pub open spec fn many_workers_msg(c: RuntimeConfig) -> Seq<char> {
    "[server] workers = "@ + decimal(c.server.workers as nat)
        + " — very high worker count, ensure sufficient memory and file descriptors"@
}

/// The compression-level warning of `c`.
pub open spec fn level_msg(c: RuntimeConfig) -> Seq<char> {
    "[compression] level = "@ + decimal(c.compression.level as nat) + " — should be 1–9"@
}

/// More than 64 workers brings the worker-count warning, and a
/// compression level outside 1–9 the level warning, whatever the disk
/// says; below those bounds neither warning is among the fixed ones.
pub proof fn lemma_check_warnings(c: RuntimeConfig, f: FsFacts)
    ensures
        c.server.workers > 64 ==> check_spec(c, f).1.contains(many_workers_msg(c)),
        c.server.workers <= 64 ==> warn_many_workers(c).len() == 0,
        (c.compression.level < 1 || c.compression.level > 9) ==> check_spec(c, f).1.contains(level_msg(c)),
        1 <= c.compression.level <= 9 ==> warn_level(c).len() == 0,
{
    let a = warn_blocking(c) + warn_guards(c) + warn_ttl(c);
    let s1 = a + warn_many_workers(c);
    let s2 = s1 + warn_recycle(c);
    let s3 = s2 + warn_level(c);
    let s4 = s3 + warn_samesite(c);
    let s5 = s4 + warn_cors(c);
    let s6 = s5 + warn_acme_tls(c);
    let fx = s6 + warn_acme_domains(c);
    assert(fx == fixed_warnings(c));
    let w = check_spec(c, f).1;
    let t1 = fx + pool_warnings(c.worker_pools@);
    assert(w == t1 + opt_msg(
        c.virtual_hosts@.len() != 0 && starts_with(c.server.listen@, "127.0.0.1"@),
        "[virtual_hosts] configured but server listens on 127.0.0.1 — external domains won't be reachable"@,
    ));
    if c.server.workers > 64 {
        let i = a.len() as int;
        assert(s1[i] == many_workers_msg(c));
        assert(s2[i] == s1[i]);
        assert(s3[i] == s1[i]);
        assert(s4[i] == s1[i]);
        assert(s5[i] == s1[i]);
        assert(s6[i] == s1[i]);
        assert(fx[i] == s1[i]);
        assert(t1[i] == s1[i]);
        assert(w[i] == many_workers_msg(c));
    }
    if c.compression.level < 1 || c.compression.level > 9 {
        let i = s2.len() as int;
        assert(s3[i] == level_msg(c));
        assert(s4[i] == s3[i]);
        assert(s5[i] == s3[i]);
        assert(s6[i] == s3[i]);
        assert(fx[i] == s3[i]);
        assert(t1[i] == s3[i]);
        assert(w[i] == level_msg(c));
    }
}

/// `f` has one entry per virtual host of `c`.
pub open spec fn facts_fit(c: RuntimeConfig, f: FsFacts) -> bool {
    f.vhosts@.len() == c.virtual_hosts@.len()
}

// ── message assembly ──

fn put(m: &mut Vec<char>, s: &str)
    ensures
        final(m)@ == old(m)@ + s@,
{
    let v = chars_of(s);
    push_all(m, v.as_slice());
}

fn put_string(m: &mut Vec<char>, s: &String)
    ensures
        final(m)@ == old(m)@ + s@,
{
    put(m, s.as_str());
}

fn put_num(m: &mut Vec<char>, n: u64)
    ensures
        final(m)@ == old(m)@ + decimal(n as nat),
{
    let v = decimal_chars(n);
    push_all(m, v.as_slice());
}

fn finish(m: &Vec<char>) -> (r: String)
    ensures
        r@ == m@,
{
    string_of(m.as_slice())
}

fn str_eq(a: &String, b: &str) -> (r: bool)
    ensures
        r == (a@ == b@),
{
    let x = chars_of(a.as_str());
    let y = chars_of(b);
    chars_eq(x.as_slice(), y.as_slice())
}

fn seen_contains(seen: &Vec<Vec<char>>, x: &[char]) -> (r: bool)
    ensures
        r == views(seen@).contains(x@),
{
    let mut i: usize = 0;
    while i < seen.len()
        invariant
            i <= seen@.len(),
            forall|j: int| 0 <= j < i ==> views(seen@)[j] != x@,
        decreases seen.len() - i,
    {
        if chars_eq(seen[i].as_slice(), x) {
            assert(views(seen@)[i as int] == x@);
            return true;
        }
        i = i + 1;
    }
    false
}

fn indexed_prefix(section: &str, i: usize) -> (r: Vec<char>)
    ensures
        r@ == indexed(section@, i as int),
{
    let mut m = chars_of(section);
    put_num(&mut m, i as u64);
    put(&mut m, "]");
    m
}

impl RuntimeConfig {
    /// Errors and warnings of this configuration, as `check` reports them,
    /// given what the disk says about its paths.
    pub fn check_with(&self, facts: &FsFacts) -> (r: (Vec<String>, Vec<String>))
        requires
            facts_fit(*self, *facts),
        ensures
            (str_views(r.0@), str_views(r.1@)) == check_spec(*self, *facts),
    {
        let mut errors: Vec<String> = Vec::new();
        let mut warnings: Vec<String> = Vec::new();
        self.fixed_errors_into(facts, &mut errors);
        self.fixed_warnings_into(&mut warnings);
        self.pool_messages_into(&mut errors, &mut warnings);
        self.vhost_errors_into(facts, &mut errors);
        if self.virtual_hosts.len() != 0 {
            let listen = chars_of(self.server.listen.as_str());
            let lh = chars_of("127.0.0.1");
            if starts_with_chars(listen.as_slice(), lh.as_slice()) {
                warnings.push("[virtual_hosts] configured but server listens on 127.0.0.1 — external domains won't be reachable".to_string());
            }
        }
        proof {
            let w = fixed_warnings(*self) + pool_warnings(self.worker_pools@);
            assert(str_views(warnings@) =~= w + opt_msg(
                self.virtual_hosts@.len() != 0 && starts_with(self.server.listen@, "127.0.0.1"@),
                "[virtual_hosts] configured but server listens on 127.0.0.1 — external domains won't be reachable"@,
            ));
        }
        (errors, warnings)
    }

    fn fixed_errors_into(&self, facts: &FsFacts, errors: &mut Vec<String>)
        requires
            old(errors)@.len() == 0,
        ensures
            str_views(final(errors)@) == fixed_errors(*self, *facts),
    {
        let ghost c = *self;
        let mode = &self.server.worker_mode;
        if !(str_eq(mode, "process") || str_eq(mode, "thread")) {
            let mut m = chars_of("[server] worker_mode = \"");
            put_string(&mut m, mode);
            put(&mut m, "\" — must be \"process\" or \"thread\"");
            errors.push(finish(&m));
        }
        let ghost e1 = str_views(errors@);
        let exec = &self.sandbox.execution_mode;
        if !(str_eq(exec, "framework") || str_eq(exec, "strict")) {
            let mut m = chars_of("[sandbox] execution_mode = \"");
            put_string(&mut m, exec);
            put(&mut m, "\" — must be \"framework\" or \"strict\"");
            errors.push(finish(&m));
        }
        let ghost e2 = str_views(errors@);
        if self.server.tls.enabled && self.server.tls.cert_file.is_none() {
            errors.push("[server.tls] enabled = true but cert_file is missing".to_string());
        }
        let ghost e3 = str_views(errors@);
        if self.server.tls.enabled && self.server.tls.key_file.is_none() {
            errors.push("[server.tls] enabled = true but key_file is missing".to_string());
        }
        let ghost e4 = str_views(errors@);
        if str_eq(exec, "strict") && self.sandbox.execution_whitelist.len() == 0 {
            errors.push("[sandbox] execution_mode = \"strict\" but execution_whitelist is empty — ALL PHP requests will be blocked".to_string());
        }
        let ghost e5 = str_views(errors@);
        match &self.server.tls.cert_file {
            Some(p) => {
                if !facts.tls_cert_exists {
                    let mut m = chars_of("[server.tls] cert_file = \"");
                    put_string(&mut m, p);
                    put(&mut m, "\" — file not found");
                    errors.push(finish(&m));
                }
            },
            None => {},
        }
        let ghost e6 = str_views(errors@);
        match &self.server.tls.key_file {
            Some(p) => {
                if !facts.tls_key_exists {
                    let mut m = chars_of("[server.tls] key_file = \"");
                    put_string(&mut m, p);
                    put(&mut m, "\" — file not found");
                    errors.push(finish(&m));
                }
            },
            None => {},
        }
        proof {
            let mode = c.server.worker_mode@;
            let exec = c.sandbox.execution_mode@;
            let tls = c.server.tls;
            assert(e1 =~= opt_msg(
                !(mode == "process"@ || mode == "thread"@),
                "[server] worker_mode = \""@ + mode + "\" — must be \"process\" or \"thread\""@,
            ));
            assert(e2 =~= e1 + opt_msg(
                !(exec == "framework"@ || exec == "strict"@),
                "[sandbox] execution_mode = \""@ + exec + "\" — must be \"framework\" or \"strict\""@,
            ));
            assert(e3 =~= e2 + opt_msg(tls.enabled && tls.cert_file is None, "[server.tls] enabled = true but cert_file is missing"@));
            assert(e4 =~= e3 + opt_msg(tls.enabled && tls.key_file is None, "[server.tls] enabled = true but key_file is missing"@));
            assert(e5 =~= e4 + opt_msg(
                exec == "strict"@ && c.sandbox.execution_whitelist@.len() == 0,
                "[sandbox] execution_mode = \"strict\" but execution_whitelist is empty — ALL PHP requests will be blocked"@,
            ));
            assert(e6 =~= e5 + match tls.cert_file {
                Some(p) => opt_msg(!facts.tls_cert_exists, "[server.tls] cert_file = \""@ + p@ + "\" — file not found"@),
                None => seq![],
            });
            assert(str_views(errors@) =~= e6 + match tls.key_file {
                Some(p) => opt_msg(!facts.tls_key_exists, "[server.tls] key_file = \""@ + p@ + "\" — file not found"@),
                None => seq![],
            });
        }
    }
}


fn vh_domain_into(v: &VirtualHostConfig, i: usize, seen: &mut Vec<Vec<char>>, errors: &mut Vec<String>)
    ensures
        str_views(final(errors)@) == str_views(old(errors)@) + vh_domain(*v, i as int, views(old(seen)@)).0,
        views(final(seen)@) == vh_domain(*v, i as int, views(old(seen)@)).1,
{
    let ghost e0 = str_views(errors@);
    if v.domain.as_str().is_empty() {
        let mut m = indexed_prefix("[[virtual_hosts]][", i);
        put(&mut m, " domain is empty");
        errors.push(finish(&m));
        assert(str_views(errors@) =~= e0 + vh_domain(*v, i as int, views(seen@)).0);
    } else {
        let dc = chars_of(v.domain.as_str());
        let lower = to_lowercase_chars(dc.as_slice());
        if seen_contains(seen, lower.as_slice()) {
            let mut m = indexed_prefix("[[virtual_hosts]][", i);
            put(&mut m, " duplicate domain \"");
            put_string(&mut m, &v.domain);
            put(&mut m, "\"");
            errors.push(finish(&m));
            assert(str_views(errors@) =~= e0 + vh_domain(*v, i as int, views(seen@)).0);
        } else {
            let ghost sb = seen@;
            seen.push(lower);
            assert(views(seen@) =~= views(sb).push(lowercase(v.domain@)));
            assert(str_views(errors@) =~= e0 + vh_domain(*v, i as int, views(sb)).0);
        }
    }
}

fn vh_root_into(v: &VirtualHostConfig, i: usize, f: &VhostFacts, errors: &mut Vec<String>)
    ensures
        str_views(final(errors)@) == str_views(old(errors)@) + vh_root(*v, i as int, *f),
{
    let ghost e0 = str_views(errors@);
    if v.root.as_str().is_empty() {
        let mut m = indexed_prefix("[[virtual_hosts]][", i);
        put(&mut m, " root is empty for domain \"");
        put_string(&mut m, &v.domain);
        put(&mut m, "\"");
        errors.push(finish(&m));
    } else if !f.root_exists {
        let mut m = indexed_prefix("[[virtual_hosts]][", i);
        put(&mut m, " root = \"");
        put_string(&mut m, &v.root);
        put(&mut m, "\" — directory not found for domain \"");
        put_string(&mut m, &v.domain);
        put(&mut m, "\"");
        errors.push(finish(&m));
    }
    assert(str_views(errors@) =~= e0 + vh_root(*v, i as int, *f));
}

fn vh_tls_into(v: &VirtualHostConfig, i: usize, f: &VhostFacts, errors: &mut Vec<String>)
    ensures
        str_views(final(errors)@) == str_views(old(errors)@) + vh_tls(*v, i as int, *f),
{
    let ghost vv = *v;
    let ghost e0 = str_views(errors@);
    let ghost pre = indexed("[[virtual_hosts]]["@, i as int);
    let ghost d = v.domain@;
    match &v.tls_cert {
        Some(p) => {
            if !f.cert_exists {
                let mut m = indexed_prefix("[[virtual_hosts]][", i);
                put(&mut m, " tls_cert = \"");
                put_string(&mut m, p);
                put(&mut m, "\" — file not found for domain \"");
                put_string(&mut m, &v.domain);
                put(&mut m, "\"");
                errors.push(finish(&m));
            }
        },
        None => {},
    }
    let ghost e4 = str_views(errors@);
    assert(e4 =~= e0 + match vv.tls_cert {
        Some(p) => opt_msg(!f.cert_exists, pre + " tls_cert = \""@ + p@ + "\" — file not found for domain \""@ + d + "\""@),
        None => seq![],
    });
    match &v.tls_key {
        Some(p) => {
            if !f.key_exists {
                let mut m = indexed_prefix("[[virtual_hosts]][", i);
                put(&mut m, " tls_key = \"");
                put_string(&mut m, p);
                put(&mut m, "\" — file not found for domain \"");
                put_string(&mut m, &v.domain);
                put(&mut m, "\"");
                errors.push(finish(&m));
            }
        },
        None => {},
    }
    let ghost e5 = str_views(errors@);
    assert(e5 =~= e4 + match vv.tls_key {
        Some(p) => opt_msg(!f.key_exists, pre + " tls_key = \""@ + p@ + "\" — file not found for domain \""@ + d + "\""@),
        None => seq![],
    });
    if v.tls_cert.is_some() != v.tls_key.is_some() {
        let mut m = indexed_prefix("[[virtual_hosts]][", i);
        put(&mut m, " domain \"");
        put_string(&mut m, &v.domain);
        put(&mut m, "\" — tls_cert and tls_key must both be set or both omitted");
        errors.push(finish(&m));
    }
    assert(str_views(errors@) =~= e0 + vh_tls(*v, i as int, *f));
}

impl RuntimeConfig {
    fn fixed_warnings_into(&self, warnings: &mut Vec<String>)
        requires
            old(warnings)@.len() == 0,
        ensures
            str_views(final(warnings)@) == fixed_warnings(*self),
    {
        let ghost c = *self;
        let s = &self.server;
        if s.workers == 0 && s.request_timeout == 0 {
            warnings.push("[server] workers = 0 + request_timeout = 0 — a slow request will block ALL subsequent requests".to_string());
        }
        assert(str_views(warnings@) =~= warn_blocking(c));
        let ghost w1 = str_views(warnings@);
        if self.security.enabled && !self.security.sql_guard && !self.security.code_injection_guard
            && !self.security.behaviour_guard {
            warnings.push("[security] enabled = true but all guards are disabled — security layer has no effect".to_string());
        }
        assert(str_views(warnings@) =~= w1 + warn_guards(c));
        let ghost w2 = str_views(warnings@);
        if self.cache.enabled && self.cache.ttl_seconds == 0 {
            warnings.push("[cache] enabled = true but ttl_seconds = 0 — responses will be cached and immediately expire".to_string());
        }
        assert(str_views(warnings@) =~= w2 + warn_ttl(c));
        self.warn_numbers_into(warnings);
        let ghost w5 = str_views(warnings@);
        self.warn_samesite_into(warnings);
        let ghost w7 = str_views(warnings@);
        if self.cors.enabled && self.cors.allow_origins.len() == 0 {
            warnings.push("[cors] enabled = true but allow_origins is empty — no origins will be allowed".to_string());
        }
        assert(str_views(warnings@) =~= w7 + warn_cors(c));
        let ghost w8 = str_views(warnings@);
        if self.acme.enabled && s.tls.enabled {
            warnings.push("[acme] enabled = true and [server.tls] enabled = true — ACME auto-TLS and manual TLS are both active, ACME may overwrite your certificate".to_string());
        }
        assert(str_views(warnings@) =~= w8 + warn_acme_tls(c));
        let ghost w9 = str_views(warnings@);
        if self.acme.enabled && self.acme.domains.len() != 0 && self.virtual_hosts.len() != 0 {
            warnings.push("[acme] domains is set but [[virtual_hosts]] are configured — vhost domains are auto-collected into ACME, 'domains' is redundant".to_string());
        }
        assert(str_views(warnings@) =~= w9 + warn_acme_domains(c));
        assert(str_views(warnings@) =~= fixed_warnings(c));
    }

    fn warn_numbers_into(&self, warnings: &mut Vec<String>)
        ensures
            str_views(final(warnings)@) == str_views(old(warnings)@) + warn_many_workers(*self)
                + warn_recycle(*self) + warn_level(*self),
    {
        let ghost w0 = str_views(warnings@);
        let s = &self.server;
        if s.workers > 64 {
            let mut m = chars_of("[server] workers = ");
            put_num(&mut m, s.workers as u64);
            put(&mut m, " — very high worker count, ensure sufficient memory and file descriptors");
            warnings.push(finish(&m));
        }
        assert(str_views(warnings@) =~= w0 + warn_many_workers(*self));
        let ghost w4 = str_views(warnings@);
        if s.persistent_workers == Some(true) && s.worker_max_requests == 0 {
            warnings.push("[server] persistent_workers = true but worker_max_requests = 0 — workers will never recycle, throughput will degrade over time".to_string());
        }
        assert(str_views(warnings@) =~= w4 + warn_recycle(*self));
        let ghost w5 = str_views(warnings@);
        if self.compression.level < 1 || self.compression.level > 9 {
            let mut m = chars_of("[compression] level = ");
            put_num(&mut m, self.compression.level as u64);
            put(&mut m, " — should be 1–9");
            warnings.push(finish(&m));
        }
        assert(str_views(warnings@) =~= w5 + warn_level(*self));
    }

    fn warn_samesite_into(&self, warnings: &mut Vec<String>)
        ensures
            str_views(final(warnings)@) == str_views(old(warnings)@) + warn_samesite(*self),
    {
        let ghost w0 = str_views(warnings@);
        let same = &self.session.cookie_samesite;
        if !(str_eq(same, "Lax") || str_eq(same, "Strict") || str_eq(same, "None")) {
            let mut m = chars_of("[session] cookie_samesite = \"");
            put_string(&mut m, same);
            put(&mut m, "\" — should be Lax, Strict, or None");
            warnings.push(finish(&m));
        }
        assert(str_views(warnings@) =~= w0 + warn_samesite(*self));
    }

    fn pool_messages_into(&self, errors: &mut Vec<String>, warnings: &mut Vec<String>)
        ensures
            str_views(final(errors)@) == str_views(old(errors)@) + pool_errors(self.worker_pools@),
            str_views(final(warnings)@) == str_views(old(warnings)@) + pool_warnings(self.worker_pools@),
    {
        let pools = &self.worker_pools;
        let mut i: usize = 0;
        assert(pools@.take(0) =~= Seq::<WorkerPoolRouteConfig>::empty());
        while i < pools.len()
            invariant
                i <= pools@.len(),
                pools == &self.worker_pools,
                str_views(errors@) == str_views(old(errors)@) + pool_errors(pools@.take(i as int)),
                str_views(warnings@) == str_views(old(warnings)@) + pool_warnings(pools@.take(i as int)),
            decreases pools.len() - i,
        {
            let p = &pools[i];
            let ghost t = pools@.take(i + 1);
            assert(t.drop_last() =~= pools@.take(i as int));
            assert(t.last() == *p);
            let ghost e0 = str_views(errors@);
            let ghost w0 = str_views(warnings@);
            if p.match_path.as_str().is_empty() {
                let mut m = indexed_prefix("[[worker_pools]][", i);
                put(&mut m, " match_path is empty — pool will never match any request");
                warnings.push(finish(&m));
            }
            if p.min_workers > p.max_workers {
                let mut m = indexed_prefix("[[worker_pools]][", i);
                put(&mut m, " min_workers (");
                put_num(&mut m, p.min_workers as u64);
                put(&mut m, ") > max_workers (");
                put_num(&mut m, p.max_workers as u64);
                put(&mut m, ") — invalid");
                errors.push(finish(&m));
            }
            proof {
                assert(str_views(errors@) =~= e0 + opt_msg(
                    p.min_workers > p.max_workers,
                    indexed("[[worker_pools]]["@, i as int) + " min_workers ("@ + decimal(p.min_workers as nat)
                        + ") > max_workers ("@ + decimal(p.max_workers as nat) + ") — invalid"@,
                ));
                assert(str_views(warnings@) =~= w0 + opt_msg(
                    p.match_path@.len() == 0,
                    indexed("[[worker_pools]]["@, i as int) + " match_path is empty — pool will never match any request"@,
                ));
            }
            i = i + 1;
        }
        assert(pools@.take(pools@.len() as int) =~= pools@);
    }

    fn vhost_errors_into(&self, facts: &FsFacts, errors: &mut Vec<String>)
        requires
            facts_fit(*self, *facts),
        ensures
            str_views(final(errors)@) == str_views(old(errors)@) + vhost_scan(self.virtual_hosts@, facts.vhosts@).0,
    {
        let vh = &self.virtual_hosts;
        let mut seen: Vec<Vec<char>> = Vec::new();
        let mut i: usize = 0;
        assert(vh@.take(0) =~= Seq::<VirtualHostConfig>::empty());
        assert(views(seen@) =~= Seq::<Seq<char>>::empty());
        while i < vh.len()
            invariant
                i <= vh@.len(),
                vh == &self.virtual_hosts,
                facts_fit(*self, *facts),
                str_views(errors@) == str_views(old(errors)@) + vhost_scan(vh@.take(i as int), facts.vhosts@).0,
                views(seen@) == vhost_scan(vh@.take(i as int), facts.vhosts@).1,
            decreases vh.len() - i,
        {
            let v = &vh[i];
            let f = &facts.vhosts[i];
            let ghost t = vh@.take(i + 1);
            assert(t.drop_last() =~= vh@.take(i as int));
            assert(t.last() == *v);
            let ghost e0 = str_views(errors@);
            let ghost s0 = views(seen@);
            vh_domain_into(v, i, &mut seen, errors);
            let ghost e1 = str_views(errors@);
            vh_root_into(v, i, f, errors);
            let ghost e2 = str_views(errors@);
            self.alias_errors_into(i, &v.aliases, &mut seen, errors);
            let ghost e3 = str_views(errors@);
            vh_tls_into(v, i, f, errors);
            proof {
                let (pe1, ps1) = vh_domain(*v, i as int, s0);
                let (pe3, ps2) = alias_scan(str_views(v.aliases@), i as int, ps1);
                assert(facts.vhosts@[i as int] == *f);
                assert(str_views(errors@) =~= e0 + pe1 + vh_root(*v, i as int, *f) + pe3 + vh_tls(*v, i as int, *f));
            }
            i = i + 1;
        }
        assert(vh@.take(vh@.len() as int) =~= vh@);
    }

    fn alias_errors_into(&self, i: usize, aliases: &Vec<String>, seen: &mut Vec<Vec<char>>, errors: &mut Vec<String>)
        ensures
            str_views(final(errors)@) == str_views(old(errors)@) + alias_scan(str_views(aliases@), i as int, views(old(seen)@)).0,
            views(final(seen)@) == alias_scan(str_views(aliases@), i as int, views(old(seen)@)).1,
    {
        let mut k: usize = 0;
        let ghost al = str_views(aliases@);
        assert(al.take(0) =~= Seq::<Seq<char>>::empty());
        while k < aliases.len()
            invariant
                k <= aliases@.len(),
                al == str_views(aliases@),
                str_views(errors@) == str_views(old(errors)@) + alias_scan(al.take(k as int), i as int, views(old(seen)@)).0,
                views(seen@) == alias_scan(al.take(k as int), i as int, views(old(seen)@)).1,
            decreases aliases.len() - k,
        {
            let a = &aliases[k];
            let ghost t = al.take(k + 1);
            assert(t.drop_last() =~= al.take(k as int));
            assert(t.last() == a@);
            let ac = chars_of(a.as_str());
            let lower = to_lowercase_chars(ac.as_slice());
            let ghost e0 = str_views(errors@);
            if seen_contains(seen, lower.as_slice()) {
                let mut m = indexed_prefix("[[virtual_hosts]][", i);
                put(&mut m, " duplicate alias \"");
                put_string(&mut m, a);
                put(&mut m, "\" (already defined as domain or alias)");
                errors.push(finish(&m));
                assert(str_views(errors@) =~= e0.push(indexed("[[virtual_hosts]]["@, i as int) + " duplicate alias \""@ + a@
                    + "\" (already defined as domain or alias)"@));
            } else {
                let ghost sb = seen@;
                seen.push(lower);
                assert(views(seen@) =~= views(sb).push(lowercase(a@)));
            }
            k = k + 1;
        }
        assert(al.take(aliases@.len() as int) =~= al);
    }

    /// The messages to log about this configuration: the errors, then the
    /// warnings, as `check` reports them.
    pub fn validate(&self) -> (r: Vec<String>)
        ensures
            exists|f: FsFacts| facts_fit(*self, f) && str_views(r@) == check_spec(*self, f).0 + check_spec(*self, f).1,
    {
        let (mut errors, mut warnings) = self.check();
        let ghost e = str_views(errors@);
        let ghost w = str_views(warnings@);
        errors.append(&mut warnings);
        assert(str_views(errors@) =~= e + w);
        errors
    }

    /// Errors (problems that keep Turbine from running correctly) and
    /// warnings (settings that may behave unexpectedly), in the order the
    /// checks run.  Whether a configured path exists is read from disk.
    pub fn check(&self) -> (r: (Vec<String>, Vec<String>))
        ensures
            exists|f: FsFacts| facts_fit(*self, f) && (str_views(r.0@), str_views(r.1@)) == check_spec(*self, f),
    {
        let tls_cert_exists = match &self.server.tls.cert_file {
            Some(p) => path_exists(p.as_str()),
            None => false,
        };
        let tls_key_exists = match &self.server.tls.key_file {
            Some(p) => path_exists(p.as_str()),
            None => false,
        };
        let mut vhosts: Vec<VhostFacts> = Vec::new();
        let mut i: usize = 0;
        while i < self.virtual_hosts.len()
            invariant
                i <= self.virtual_hosts@.len(),
                vhosts@.len() == i,
            decreases self.virtual_hosts.len() - i,
        {
            let v = &self.virtual_hosts[i];
            let root_exists = if v.root.as_str().is_empty() { false } else { path_exists(v.root.as_str()) };
            let cert_exists = match &v.tls_cert {
                Some(p) => path_exists(p.as_str()),
                None => false,
            };
            let key_exists = match &v.tls_key {
                Some(p) => path_exists(p.as_str()),
                None => false,
            };
            vhosts.push(VhostFacts { root_exists, cert_exists, key_exists });
            i = i + 1;
        }
        let facts = FsFacts { tls_cert_exists, tls_key_exists, vhosts };
        let r = self.check_with(&facts);
        r
    }
}

} // verus!
