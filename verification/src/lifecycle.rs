//! Decisions of the server's startup and of its background loops:
//! command-line overrides, the sandbox whitelist, the domains that get
//! certificates, and the steps of auto-scaling, draining and hot
//! reload.  Spawning, sleeping and the clock are the caller's part; each
//! step here takes what the caller observed and says what to do.
use vstd::prelude::*;

use crate::compat::copy_pairs;
use crate::config::{str_views, RuntimeConfig, VirtualHostConfig};
use crate::engine::PhpIniOverrides;
use crate::features::opt_view;
use crate::paths::{join, join_chars, join_path, join_path_chars};
use crate::text::{
    chars_eq, chars_of, lowercase, pair_views, str_eq, string_of, to_lowercase_chars, views,
};

verus! {

// ───────────────────────────── command-line overrides ─────────────────────────────

/// What the command line may override.
pub struct CliOverrides {
    pub listen: Option<String>,
    pub workers: Option<usize>,
    pub tls_cert: Option<String>,
    pub tls_key: Option<String>,
    pub request_timeout: Option<u64>,
    pub access_log: Option<String>,
}

/// The configuration with the command-line overrides applied: each
/// given value replaces its setting, and a certificate or a key turns
/// TLS on.
pub open spec fn overridden(c: RuntimeConfig, o: CliOverrides) -> RuntimeConfig {
    RuntimeConfig {
        server: crate::config::ServerConfig {
            listen: match o.listen {
                Some(l) => l,
                None => c.server.listen,
            },
            workers: match o.workers {
                Some(w) => w,
                None => c.server.workers,
            },
            request_timeout: match o.request_timeout {
                Some(t) => t,
                None => c.server.request_timeout,
            },
            tls: crate::config::TlsConfig {
                enabled: c.server.tls.enabled || o.tls_cert is Some || o.tls_key is Some,
                cert_file: if o.tls_cert is Some {
                    o.tls_cert
                } else {
                    c.server.tls.cert_file
                },
                key_file: if o.tls_key is Some {
                    o.tls_key
                } else {
                    c.server.tls.key_file
                },
            },
            ..c.server
        },
        logging: crate::config::LoggingConfig {
            access_log: if o.access_log is Some {
                o.access_log
            } else {
                c.logging.access_log
            },
            ..c.logging
        },
        ..c
    }
}

/// Applies the command-line overrides.
pub fn apply_cli_overrides(config: &mut RuntimeConfig, o: CliOverrides)
    ensures
        *final(config) == overridden(*old(config), o),
{
    let ghost o0 = o;
    let CliOverrides { listen, workers, tls_cert, tls_key, request_timeout, access_log } = o;
    if let Some(l) = listen {
        config.server.listen = l;
    }
    if let Some(w) = workers {
        config.server.workers = w;
    }
    if let Some(c) = tls_cert {
        config.server.tls.cert_file = Some(c);
        config.server.tls.enabled = true;
    }
    if let Some(k) = tls_key {
        config.server.tls.key_file = Some(k);
        config.server.tls.enabled = true;
    }
    if let Some(t) = request_timeout {
        config.server.request_timeout = t;
    }
    if let Some(p) = access_log {
        config.logging.access_log = Some(p);
    }
}

// ───────────────────────────── sandbox ─────────────────────────────

/// The files PHP may run from: in strict mode the configured whitelist,
/// or the entry point alone when none is configured; in any other mode
/// the configured whitelist, which may be empty (every file may run).
pub open spec fn whitelist_for(mode: Seq<char>, configured: Seq<Seq<char>>, entry_point: Seq<char>) -> Seq<Seq<char>> {
    if mode == "strict"@ && configured.len() == 0 {
        seq![entry_point]
    } else {
        configured
    }
}

fn copy_strings(v: &Vec<String>) -> (r: Vec<String>)
    ensures
        str_views(r@) == str_views(v@),
{
    let mut r: Vec<String> = Vec::new();
    let mut i: usize = 0;
    while i < v.len()
        invariant
            i <= v@.len(),
            str_views(r@) == str_views(v@).take(i as int),
        decreases v@.len() - i,
    {
        let ghost before = str_views(r@);
        r.push(v[i].clone());
        assert(str_views(r@) =~= before.push(v@[i as int]@));
        i = i + 1;
        assert(str_views(r@) =~= str_views(v@).take(i as int));
    }
    assert(str_views(v@).take(v@.len() as int) =~= str_views(v@));
    r
}

/// The execution whitelist of the sandbox.
pub fn execution_whitelist_for(mode: &str, configured: &Vec<String>, entry_point: &str) -> (r: Vec<String>)
    ensures
        str_views(r@) == whitelist_for(mode@, str_views(configured@), entry_point@),
{
    if str_eq(mode, "strict") && configured.len() == 0 {
        let mut r: Vec<String> = Vec::new();
        r.push(String::from_str(entry_point));
        assert(str_views(r@) =~= seq![entry_point@]);
        r
    } else {
        copy_strings(configured)
    }
}

// ───────────────────────────── certificates ─────────────────────────────

/// `ds` names `x` already, ignoring case.
pub open spec fn has_domain(ds: Seq<Seq<char>>, x: Seq<char>) -> bool {
    exists|i: int| 0 <= i < ds.len() && lowercase(ds[i]) == lowercase(x)
}

/// `ds` with `x` added unless it names it already.
pub open spec fn add_domain(ds: Seq<Seq<char>>, x: Seq<char>) -> Seq<Seq<char>> {
    if has_domain(ds, x) {
        ds
    } else {
        ds.push(x)
    }
}

/// `ds` with each of `xs` added in turn.
pub open spec fn add_domains(ds: Seq<Seq<char>>, xs: Seq<Seq<char>>) -> Seq<Seq<char>>
    decreases xs.len(),
{
    if xs.len() == 0 {
        ds
    } else {
        add_domain(add_domains(ds, xs.drop_last()), xs.last())
    }
}

/// The names of a virtual host: its domain, then its aliases.
pub open spec fn vhost_names(v: VirtualHostConfig) -> Seq<Seq<char>> {
    seq![v.domain@] + str_views(v.aliases@)
}

/// The ACME domains with the names of the virtual hosts added, those
/// with a certificate of their own left out.
pub open spec fn acme_with_vhosts(ds: Seq<Seq<char>>, vs: Seq<VirtualHostConfig>) -> Seq<Seq<char>>
    decreases vs.len(),
{
    if vs.len() == 0 {
        ds
    } else {
        let prev = acme_with_vhosts(ds, vs.drop_last());
        if vs.last().tls_cert is Some {
            prev
        } else {
            add_domains(prev, vhost_names(vs.last()))
        }
    }
}

/// The domains ACME provisions: when ACME is on, the configured ones
/// and the names of the virtual hosts.
pub open spec fn acme_domains_of(enabled: bool, ds: Seq<Seq<char>>, vs: Seq<VirtualHostConfig>) -> Seq<Seq<char>> {
    if enabled {
        acme_with_vhosts(ds, vs)
    } else {
        ds
    }
}

fn has_domain_exec(ds: &Vec<String>, x: &str) -> (r: bool)
    ensures
        r == has_domain(str_views(ds@), x@),
{
    let xc = chars_of(x);
    let xl = to_lowercase_chars(xc.as_slice());
    let mut i: usize = 0;
    while i < ds.len()
        invariant
            i <= ds@.len(),
            xl@ == lowercase(x@),
            forall|j: int| 0 <= j < i ==> lowercase(ds@[j]@) != lowercase(x@),
        decreases ds@.len() - i,
    {
        let dc = chars_of(ds[i].as_str());
        let dl = to_lowercase_chars(dc.as_slice());
        if chars_eq(dl.as_slice(), xl.as_slice()) {
            assert(str_views(ds@)[i as int] == ds@[i as int]@);
            return true;
        }
        i = i + 1;
    }
    assert forall|j: int| 0 <= j < str_views(ds@).len() implies lowercase(str_views(ds@)[j]) != lowercase(x@) by {
        assert(str_views(ds@)[j] == ds@[j]@);
    }
    false
}

fn add_domain_exec(ds: &mut Vec<String>, x: &str)
    ensures
        str_views(final(ds)@) == add_domain(str_views(old(ds)@), x@),
{
    if !has_domain_exec(ds, x) {
        let ghost before = str_views(ds@);
        ds.push(String::from_str(x));
        assert(str_views(ds@) =~= before.push(x@));
    }
}

fn add_vhost_names(ds: &mut Vec<String>, v: &VirtualHostConfig)
    ensures
        str_views(final(ds)@) == add_domains(str_views(old(ds)@), vhost_names(*v)),
{
    let ghost start = str_views(ds@);
    let ghost names = vhost_names(*v);
    add_domain_exec(ds, v.domain.as_str());
    assert(names.take(1).drop_last() =~= Seq::<Seq<char>>::empty());
    assert(names.take(1).last() == v.domain@);
    assert(add_domains(start, Seq::<Seq<char>>::empty()) == start);
    assert(add_domains(start, names.take(1)) == add_domain(start, v.domain@));
    let mut j: usize = 0;
    while j < v.aliases.len()
        invariant
            j <= v.aliases@.len(),
            names == vhost_names(*v),
            str_views(ds@) == add_domains(start, names.take(j + 1)),
        decreases v.aliases@.len() - j,
    {
        add_domain_exec(ds, v.aliases[j].as_str());
        proof {
            let t = names.take(j + 2);
            assert(t.drop_last() =~= names.take(j + 1));
            assert(t.last() == v.aliases@[j as int]@);
        }
        j = j + 1;
    }
    assert(names.take(v.aliases@.len() as int + 1) =~= names);
}

/// The domains ACME provisions certificates for.
pub fn acme_domains(enabled: bool, domains: &Vec<String>, vhosts: &Vec<VirtualHostConfig>) -> (r: Vec<String>)
    ensures
        str_views(r@) == acme_domains_of(enabled, str_views(domains@), vhosts@),
{
    let mut ds = copy_strings(domains);
    if !enabled {
        return ds;
    }
    let mut i: usize = 0;
    assert(vhosts@.take(0) =~= Seq::<VirtualHostConfig>::empty());
    while i < vhosts.len()
        invariant
            i <= vhosts@.len(),
            str_views(ds@) == acme_with_vhosts(str_views(domains@), vhosts@.take(i as int)),
        decreases vhosts@.len() - i,
    {
        let ghost t = vhosts@.take(i + 1);
        assert(t.drop_last() =~= vhosts@.take(i as int));
        assert(t.last() == vhosts@[i as int]);
        if vhosts[i].tls_cert.is_none() {
            add_vhost_names(&mut ds, &vhosts[i]);
        }
        i = i + 1;
    }
    assert(vhosts@.take(vhosts@.len() as int) =~= vhosts@);
    ds
}

/// A certificate for a server name: the name, the certificate file and
/// the key file.
pub open spec fn triple_views(v: Seq<(String, String, String)>) -> Seq<(Seq<char>, Seq<char>, Seq<char>)> {
    v.map_values(|t: (String, String, String)| (t.0@, t.1@, t.2@))
}

/// The certificates a virtual host brings: when it has both a
/// certificate and a key, one for its domain and one for each alias,
/// all in lower case.
pub open spec fn vhost_certs(v: VirtualHostConfig) -> Seq<(Seq<char>, Seq<char>, Seq<char>)> {
    match (v.tls_cert, v.tls_key) {
        (Some(c), Some(k)) => seq![(lowercase(v.domain@), c@, k@)] + str_views(v.aliases@).map_values(
            |a: Seq<char>| (lowercase(a), c@, k@),
        ),
        _ => Seq::empty(),
    }
}

/// The certificates of all virtual hosts, in order.
pub open spec fn sni_certs_of(vs: Seq<VirtualHostConfig>) -> Seq<(Seq<char>, Seq<char>, Seq<char>)>
    decreases vs.len(),
{
    if vs.len() == 0 {
        Seq::empty()
    } else {
        sni_certs_of(vs.drop_last()) + vhost_certs(vs.last())
    }
}

fn lower_string(s: &str) -> (r: String)
    ensures
        r@ == lowercase(s@),
{
    let c = chars_of(s);
    let l = to_lowercase_chars(c.as_slice());
    crate::text::string_of(l.as_slice())
}

/// The per-name certificates the TLS acceptor selects by SNI.
pub fn sni_certificates(vhosts: &Vec<VirtualHostConfig>) -> (r: Vec<(String, String, String)>)
    ensures
        triple_views(r@) == sni_certs_of(vhosts@),
{
    let mut r: Vec<(String, String, String)> = Vec::new();
    let mut i: usize = 0;
    assert(vhosts@.take(0) =~= Seq::<VirtualHostConfig>::empty());
    assert(triple_views(r@) =~= Seq::<(Seq<char>, Seq<char>, Seq<char>)>::empty());
    while i < vhosts.len()
        invariant
            i <= vhosts@.len(),
            triple_views(r@) == sni_certs_of(vhosts@.take(i as int)),
        decreases vhosts@.len() - i,
    {
        let ghost t = vhosts@.take(i + 1);
        assert(t.drop_last() =~= vhosts@.take(i as int));
        assert(t.last() == vhosts@[i as int]);
        let v = &vhosts[i];
        let ghost start = triple_views(r@);
        match (&v.tls_cert, &v.tls_key) {
            (Some(c), Some(k)) => {
                r.push((lower_string(v.domain.as_str()), c.clone(), k.clone()));
                let ghost mapped = str_views(v.aliases@).map_values(|a: Seq<char>| (lowercase(a), c@, k@));
                assert(triple_views(r@) =~= start + seq![(lowercase(v.domain@), c@, k@)] + mapped.take(0));
                let mut j: usize = 0;
                while j < v.aliases.len()
                    invariant
                        j <= v.aliases@.len(),
                        mapped == str_views(v.aliases@).map_values(|a: Seq<char>| (lowercase(a), c@, k@)),
                        triple_views(r@) == start + seq![(lowercase(v.domain@), c@, k@)] + mapped.take(j as int),
                    decreases v.aliases@.len() - j,
                {
                    let ghost before = triple_views(r@);
                    r.push((lower_string(v.aliases[j].as_str()), c.clone(), k.clone()));
                    proof {
                        assert(mapped.take(j + 1) =~= mapped.take(j as int).push(mapped[j as int]));
                        assert(str_views(v.aliases@)[j as int] == v.aliases@[j as int]@);
                        assert(triple_views(r@) =~= before.push(mapped[j as int]));
                    }
                    j = j + 1;
                }
                assert(mapped.take(v.aliases@.len() as int) =~= mapped);
            },
            _ => {
                assert(triple_views(r@) =~= start + vhost_certs(*v));
            },
        }
        i = i + 1;
    }
    assert(vhosts@.take(vhosts@.len() as int) =~= vhosts@);
    r
}

// ───────────────────────────── background loops ─────────────────────────────

/// What one tick of the auto-scaler does.
#[derive(Debug, Clone, Copy, PartialEq, Eq, Structural)]
pub enum ScaleAction {
    /// Every worker is busy and the pool may grow: add one.
    Up,
    /// Workers have idled past the threshold: remove one.
    Down,
    /// Workers just became idle: note the time.
    StartIdleClock,
    /// Workers idle, not long enough yet.
    Wait,
    /// Nothing to do: forget when idling began.
    ResetIdleClock,
}

/// One auto-scaler tick: grow when no worker is idle and the pool is
/// below its maximum; shrink when some are idle above the minimum and
/// have been for the threshold.
pub open spec fn scale_action(
    alive: usize,
    idle: usize,
    min_workers: usize,
    max_workers: usize,
    idle_for_nanos: Option<u128>,
    threshold_secs: u64,
) -> ScaleAction {
    if idle == 0 && alive < max_workers {
        ScaleAction::Up
    } else if idle > 0 && alive > min_workers {
        match idle_for_nanos {
            Some(e) => if e >= threshold_secs * 1_000_000_000 {
                ScaleAction::Down
            } else {
                ScaleAction::Wait
            },
            None => ScaleAction::StartIdleClock,
        }
    } else {
        ScaleAction::ResetIdleClock
    }
}

/// Decides one auto-scaler tick.
pub fn autoscale_decision(
    alive: usize,
    idle: usize,
    min_workers: usize,
    max_workers: usize,
    idle_for_nanos: Option<u128>,
    threshold_secs: u64,
) -> (r: ScaleAction)
    ensures
        r == scale_action(alive, idle, min_workers, max_workers, idle_for_nanos, threshold_secs),
{
    if idle == 0 && alive < max_workers {
        ScaleAction::Up
    } else if idle > 0 && alive > min_workers {
        match idle_for_nanos {
            Some(e) => {
                let limit: u128 = (threshold_secs as u128) * 1_000_000_000;
                if e >= limit {
                    ScaleAction::Down
                } else {
                    ScaleAction::Wait
                }
            },
            None => ScaleAction::StartIdleClock,
        }
    } else {
        ScaleAction::ResetIdleClock
    }
}

/// One step of draining at shutdown.
#[derive(Debug, Clone, Copy, PartialEq, Eq, Structural)]
pub enum DrainStep {
    /// Nothing is in flight any more.
    Drained,
    /// The drain took longer than allowed.
    TimedOut,
    /// Wait and look again.
    Wait,
}

/// A drain step: done when nothing is in flight, given up when the time
/// spent exceeds the timeout, else wait.
pub open spec fn drain_step_of(in_flight: usize, elapsed_nanos: u128, timeout_secs: u64) -> DrainStep {
    if in_flight == 0 {
        DrainStep::Drained
    } else if elapsed_nanos > timeout_secs * 1_000_000_000 {
        DrainStep::TimedOut
    } else {
        DrainStep::Wait
    }
}

/// Decides one drain step.
pub fn drain_step(in_flight: usize, elapsed_nanos: u128, timeout_secs: u64) -> (r: DrainStep)
    ensures
        r == drain_step_of(in_flight, elapsed_nanos, timeout_secs),
{
    if in_flight == 0 {
        DrainStep::Drained
    } else if elapsed_nanos > (timeout_secs as u128) * 1_000_000_000 {
        DrainStep::TimedOut
    } else {
        DrainStep::Wait
    }
}

/// A file event restarts the workers when one of its paths has a
/// watched extension and the last restart is at least the debounce
/// interval ago.
pub open spec fn reload_wanted(
    exts: Seq<Option<Seq<char>>>,
    watched: Seq<Seq<char>>,
    since_last_nanos: u128,
    debounce_ms: u64,
) -> bool {
    (exists|i: int| 0 <= i < exts.len() && #[trigger] watched_ext(exts[i], watched)) && since_last_nanos
        >= debounce_ms * 1_000_000
}

/// A path extension that is watched.
pub open spec fn watched_ext(e: Option<Seq<char>>, watched: Seq<Seq<char>>) -> bool {
    match e {
        Some(x) => watched.contains(x),
        None => false,
    }
}

/// The extensions of an event's paths, as their views.
pub open spec fn ext_views(v: Seq<Option<String>>) -> Seq<Option<Seq<char>>> {
    v.map_values(|o: Option<String>| opt_view(o))
}

fn watched_has(watched: &Vec<String>, e: &str) -> (r: bool)
    ensures
        r == str_views(watched@).contains(e@),
{
    let mut i: usize = 0;
    while i < watched.len()
        invariant
            i <= watched@.len(),
            forall|j: int| 0 <= j < i ==> watched@[j]@ != e@,
        decreases watched@.len() - i,
    {
        if str_eq(watched[i].as_str(), e) {
            assert(str_views(watched@)[i as int] == e@);
            return true;
        }
        i = i + 1;
    }
    assert forall|j: int| 0 <= j < str_views(watched@).len() implies str_views(watched@)[j] != e@ by {
        assert(str_views(watched@)[j] == watched@[j]@);
    }
    false
}

/// Whether a file event restarts the workers.
pub fn watch_reload(exts: &Vec<Option<String>>, watched: &Vec<String>, since_last_nanos: u128, debounce_ms: u64) -> (r: bool)
    ensures
        r == reload_wanted(ext_views(exts@), str_views(watched@), since_last_nanos, debounce_ms),
{
    let mut hit = false;
    let mut i: usize = 0;
    while i < exts.len()
        invariant
            i <= exts@.len(),
            hit == (exists|j: int| 0 <= j < i && #[trigger] watched_ext(ext_views(exts@)[j], str_views(watched@))),
        decreases exts@.len() - i,
    {
        assert(ext_views(exts@)[i as int] == opt_view(exts@[i as int]));
        let h = match &exts[i] {
            Some(e) => watched_has(watched, e.as_str()),
            None => false,
        };
        assert(h == watched_ext(ext_views(exts@)[i as int], str_views(watched@)));
        hit = hit || h;
        i = i + 1;
    }
    let limit: u128 = (debounce_ms as u128) * 1_000_000;
    hit && since_last_nanos >= limit
}

/// The URL scheme the server answers on.
pub fn scheme(tls: bool) -> (r: &'static str)
    ensures
        r@ == (if tls { "https"@ } else { "http"@ }),
{
    if tls {
        "https"
    } else {
        "http"
    }
}

// ───────────────────────────── open_basedir ─────────────────────────────

/// `a` sorts strictly before `b`: character by character, a proper
/// prefix first (the order of `str`, as UTF-8 keeps code point order).
pub open spec fn lex_lt(a: Seq<char>, b: Seq<char>) -> bool
    decreases a.len(),
{
    if a.len() == 0 {
        b.len() > 0
    } else if b.len() == 0 {
        false
    } else if a[0] < b[0] {
        true
    } else if a[0] > b[0] {
        false
    } else {
        lex_lt(a.drop_first(), b.drop_first())
    }
}

proof fn lemma_lex_irreflexive(a: Seq<char>)
    ensures
        !lex_lt(a, a),
    decreases a.len(),
{
    if a.len() > 0 {
        lemma_lex_irreflexive(a.drop_first());
    }
}

proof fn lemma_lex_transitive(a: Seq<char>, b: Seq<char>, c: Seq<char>)
    requires
        lex_lt(a, b),
        lex_lt(b, c),
    ensures
        lex_lt(a, c),
    decreases a.len(),
{
    if a.len() > 0 && b.len() > 0 && c.len() > 0 {
        if a[0] == b[0] && b[0] == c[0] {
            lemma_lex_transitive(a.drop_first(), b.drop_first(), c.drop_first());
        }
    }
}

proof fn lemma_lex_total(a: Seq<char>, b: Seq<char>)
    ensures
        lex_lt(a, b) || a == b || lex_lt(b, a),
    decreases a.len(),
{
    if a.len() > 0 && b.len() > 0 {
        if a[0] == b[0] {
            lemma_lex_total(a.drop_first(), b.drop_first());
            if a.drop_first() == b.drop_first() {
                assert(a =~= seq![a[0]] + a.drop_first());
                assert(b =~= seq![b[0]] + b.drop_first());
            }
        }
    } else if a.len() == 0 && b.len() == 0 {
        assert(a =~= b);
    }
}

proof fn lemma_lex_asymmetric(a: Seq<char>, b: Seq<char>)
    requires
        lex_lt(a, b),
    ensures
        !lex_lt(b, a),
{
    if lex_lt(b, a) {
        lemma_lex_transitive(a, b, a);
        lemma_lex_irreflexive(a);
    }
}

fn str_lt(a: &str, b: &str) -> (r: bool)
    ensures
        r == lex_lt(a@, b@),
{
    let x = chars_of(a);
    let y = chars_of(b);
    let mut i: usize = 0;
    assert(x@.skip(0) =~= x@);
    assert(y@.skip(0) =~= y@);
    while i < x.len() && i < y.len()
        invariant
            i <= x@.len(),
            i <= y@.len(),
            x@ == a@,
            y@ == b@,
            lex_lt(x@, y@) == lex_lt(x@.skip(i as int), y@.skip(i as int)),
        decreases x@.len() - i,
    {
        let ghost xs = x@.skip(i as int);
        let ghost ys = y@.skip(i as int);
        assert(xs[0] == x@[i as int]);
        assert(ys[0] == y@[i as int]);
        if x[i] < y[i] {
            return true;
        }
        if x[i] > y[i] {
            return false;
        }
        assert(xs.drop_first() =~= x@.skip(i + 1));
        assert(ys.drop_first() =~= y@.skip(i + 1));
        i = i + 1;
    }
    y.len() > i
}

/// The strings of `s` are in strictly increasing order.
pub open spec fn strictly_sorted(s: Seq<Seq<char>>) -> bool {
    forall|i: int, j: int| 0 <= i < j < s.len() ==> lex_lt(s[i], s[j])
}

/// Sorts `v` and drops repeated strings: the result is strictly
/// increasing and holds exactly the strings of `v`.
pub fn sorted_unique(v: &Vec<String>) -> (r: Vec<String>)
    ensures
        strictly_sorted(str_views(r@)),
        str_views(r@).to_set() == str_views(v@).to_set(),
{
    let mut r: Vec<String> = Vec::new();
    let mut i: usize = 0;
    while i < v.len()
        invariant
            i <= v@.len(),
            strictly_sorted(str_views(r@)),
            str_views(r@).to_set() == str_views(v@).take(i as int).to_set(),
        decreases v@.len() - i,
    {
        let x = v[i].as_str();
        let ghost before = str_views(r@);
        let mut k: usize = 0;
        while k < r.len() && str_lt(r[k].as_str(), x)
            invariant
                k <= r@.len(),
                before == str_views(r@),
                x@ == v@[i as int]@,
                forall|j: int| 0 <= j < k ==> lex_lt(before[j], x@),
            decreases r@.len() - k,
        {
            assert(before[k as int] == r@[k as int]@);
            k = k + 1;
        }
        let dup = k < r.len() && str_eq(r[k].as_str(), x);
        proof {
            assert(str_views(v@).take(i + 1) =~= str_views(v@).take(i as int).push(x@));
        }
        if !dup {
            r.insert(k, String::from_str(x));
            proof {
                let after = str_views(r@);
                assert(after =~= before.insert(k as int, x@));
                if k < before.len() {
                    assert(before[k as int] == r@[k as int + 1]@);
                    lemma_lex_total(before[k as int], x@);
                }
                assert forall|a: int, b: int| 0 <= a < b < after.len() implies lex_lt(after[a], after[b]) by {
                    if b < k {
                        assert(after[a] == before[a] && after[b] == before[b]);
                    } else if b == k {
                        assert(after[a] == before[a]);
                    } else if a == k {
                        assert(after[b] == before[b - 1]);
                        if b - 1 > k {
                            lemma_lex_transitive(x@, before[k as int], before[b - 1]);
                        }
                    } else if a < k {
                        assert(after[a] == before[a] && after[b] == before[b - 1]);
                    } else {
                        assert(after[a] == before[a - 1] && after[b] == before[b - 1]);
                    }
                }
                assert forall|y: Seq<char>| after.to_set().contains(y) <==> before.to_set().insert(x@).contains(y) by {
                    if after.contains(y) {
                        let j = choose|j: int| 0 <= j < after.len() && after[j] == y;
                        if j < k {
                            assert(before[j] == y);
                        } else if j > k {
                            assert(before[j - 1] == y);
                        }
                    }
                    if before.contains(y) {
                        let j = choose|j: int| 0 <= j < before.len() && before[j] == y;
                        if j < k {
                            assert(after[j] == y);
                        } else {
                            assert(after[j + 1] == y);
                        }
                    }
                    if y == x@ {
                        assert(after[k as int] == y);
                    }
                }
                assert(after.to_set() =~= before.to_set().insert(x@));
                str_views(v@).take(i as int).lemma_push_to_set_commute(x@);
            }
        } else {
            proof {
                assert(before[k as int] == x@);
                assert(before.to_set().insert(x@) =~= before.to_set());
                str_views(v@).take(i as int).lemma_push_to_set_commute(x@);
            }
        }
        i = i + 1;
    }
    assert(str_views(v@).take(v@.len() as int) =~= str_views(v@));
    r
}

/// The strings of a finite set in increasing order.
pub open spec fn sorted_list(s: Set<Seq<char>>) -> Seq<Seq<char>> {
    choose|l: Seq<Seq<char>>| strictly_sorted(l) && l.to_set() == s
}

proof fn lemma_sorted_head_least(a: Seq<Seq<char>>, y: Seq<char>)
    requires
        strictly_sorted(a),
        a.len() > 0,
        a.to_set().contains(y),
    ensures
        y == a[0] || lex_lt(a[0], y),
{
    let j = choose|j: int| 0 <= j < a.len() && a[j] == y;
    if j > 0 {
        assert(lex_lt(a[0], a[j]));
    }
}

proof fn lemma_sorted_rest_set(a: Seq<Seq<char>>)
    requires
        strictly_sorted(a),
        a.len() > 0,
    ensures
        strictly_sorted(a.drop_first()),
        a.drop_first().to_set() == a.to_set().remove(a[0]),
{
    let r = a.drop_first();
    assert forall|i: int, j: int| 0 <= i < j < r.len() implies lex_lt(r[i], r[j]) by {
        assert(r[i] == a[i + 1] && r[j] == a[j + 1]);
    }
    assert forall|y: Seq<char>| r.to_set().contains(y) <==> a.to_set().remove(a[0]).contains(y) by {
        if r.contains(y) {
            let j = choose|j: int| 0 <= j < r.len() && r[j] == y;
            assert(a[j + 1] == y);
            assert(lex_lt(a[0], a[j + 1]));
            lemma_lex_irreflexive(a[0]);
        }
        if a.contains(y) && y != a[0] {
            let j = choose|j: int| 0 <= j < a.len() && a[j] == y;
            assert(j != 0);
            assert(r[j - 1] == y);
        }
    }
    assert(r.to_set() =~= a.to_set().remove(a[0]));
}

/// Two increasing lists of the same strings are the same list.
proof fn lemma_sorted_same_set(a: Seq<Seq<char>>, b: Seq<Seq<char>>)
    requires
        strictly_sorted(a),
        strictly_sorted(b),
        a.to_set() == b.to_set(),
    ensures
        a == b,
    decreases a.len(),
{
    if a.len() == 0 {
        if b.len() > 0 {
            assert(b.to_set().contains(b[0]));
        }
        assert(a =~= b);
    } else if b.len() == 0 {
        assert(a.to_set().contains(a[0]));
    } else {
        assert(a.to_set().contains(a[0]));
        assert(b.to_set().contains(b[0]));
        lemma_sorted_head_least(a, b[0]);
        lemma_sorted_head_least(b, a[0]);
        if a[0] != b[0] {
            lemma_lex_asymmetric(a[0], b[0]);
        }
        lemma_sorted_rest_set(a);
        lemma_sorted_rest_set(b);
        lemma_sorted_same_set(a.drop_first(), b.drop_first());
        assert(a =~= seq![a[0]] + a.drop_first());
        assert(b =~= seq![b[0]] + b.drop_first());
    }
}

/// A path is absolute when it starts with `/` (`Path::is_absolute` on
/// Unix).
pub open spec fn is_absolute(p: Seq<char>) -> bool {
    p.len() > 0 && p[0] == '/'
}

/// The directories PHP may touch: the application root, the upload and
/// session directories, OPcache's directory, `/dev/fd` (for the worker
/// pipes), the system temporary directory, the data directories under
/// the root, and the virtual host roots (relative ones under the root).
pub open spec fn basedir_candidates(
    app_root: Seq<char>,
    upload_tmp_dir: Seq<char>,
    session_save_path: Seq<char>,
    sys_tmp: Seq<char>,
    data_dirs: Seq<Seq<char>>,
    vhost_roots: Seq<Seq<char>>,
) -> Seq<Seq<char>> {
    seq![app_root, upload_tmp_dir, session_save_path, "/tmp/turbine-opcache"@, "/dev/fd"@, sys_tmp]
        + data_dirs.map_values(|d: Seq<char>| join_path(app_root, d)) + vhost_roots.map_values(
        |r: Seq<char>| join_path(app_root, r),
    )
}

fn push_joined_all(out: &mut Vec<String>, base: &str, ps: &Vec<String>)
    ensures
        str_views(final(out)@) == str_views(old(out)@) + str_views(ps@).map_values(|d: Seq<char>| join_path(base@, d)),
{
    let ghost start = str_views(out@);
    let b = chars_of(base);
    let mut i: usize = 0;
    while i < ps.len()
        invariant
            i <= ps@.len(),
            b@ == base@,
            str_views(out@) == start + str_views(ps@).take(i as int).map_values(|d: Seq<char>| join_path(base@, d)),
        decreases ps@.len() - i,
    {
        let p = chars_of(ps[i].as_str());
        let j = if p.len() > 0 && p[0] == '/' {
            p
        } else {
            join_path_chars(b.as_slice(), p.as_slice())
        };
        let ghost before = str_views(out@);
        out.push(string_of(j.as_slice()));
        proof {
            assert(str_views(out@) =~= before.push(join_path(base@, ps@[i as int]@)));
            assert(str_views(ps@).take(i + 1) =~= str_views(ps@).take(i as int).push(ps@[i as int]@));
            assert(str_views(ps@).take(i + 1).map_values(|d: Seq<char>| join_path(base@, d)) =~= str_views(ps@).take(
                i as int,
            ).map_values(|d: Seq<char>| join_path(base@, d)).push(join_path(base@, ps@[i as int]@)));
        }
        i = i + 1;
    }
    assert(str_views(ps@).take(ps@.len() as int) =~= str_views(ps@));
}

/// The directories PHP may touch, in the order they are gathered.
pub fn open_basedir_paths(
    app_root: &str,
    upload_tmp_dir: &str,
    session_save_path: &str,
    sys_tmp: &str,
    data_dirs: &Vec<String>,
    vhost_roots: &Vec<String>,
) -> (r: Vec<String>)
    ensures
        str_views(r@) == basedir_candidates(
            app_root@,
            upload_tmp_dir@,
            session_save_path@,
            sys_tmp@,
            str_views(data_dirs@),
            str_views(vhost_roots@),
        ),
{
    let mut r: Vec<String> = Vec::new();
    r.push(String::from_str(app_root));
    r.push(String::from_str(upload_tmp_dir));
    r.push(String::from_str(session_save_path));
    r.push(String::from_str("/tmp/turbine-opcache"));
    r.push(String::from_str("/dev/fd"));
    r.push(String::from_str(sys_tmp));
    assert(str_views(r@) =~= seq![
        app_root@,
        upload_tmp_dir@,
        session_save_path@,
        "/tmp/turbine-opcache"@,
        "/dev/fd"@,
        sys_tmp@,
    ]);
    push_joined_all(&mut r, app_root, data_dirs);
    push_joined_all(&mut r, app_root, vhost_roots);
    r
}

/// The `open_basedir` setting: when enforced, the directories sorted,
/// each once, joined with `:`; else empty.
pub open spec fn open_basedir_of(enforce: bool, dirs: Seq<Seq<char>>) -> Seq<char> {
    if enforce {
        join(sorted_list(dirs.to_set()), ':')
    } else {
        Seq::empty()
    }
}

/// Builds the `open_basedir` setting from the directories PHP may touch.
pub fn open_basedir(enforce: bool, dirs: &Vec<String>) -> (r: String)
    ensures
        r@ == open_basedir_of(enforce, str_views(dirs@)),
{
    if !enforce {
        return String::new();
    }
    let s = sorted_unique(dirs);
    proof {
        let l = sorted_list(str_views(dirs@).to_set());
        assert(strictly_sorted(str_views(s@)) && str_views(s@).to_set() == str_views(dirs@).to_set());
        lemma_sorted_same_set(l, str_views(s@));
    }
    let mut parts: Vec<Vec<char>> = Vec::new();
    let mut i: usize = 0;
    while i < s.len()
        invariant
            i <= s@.len(),
            views(parts@) == str_views(s@).take(i as int),
        decreases s@.len() - i,
    {
        let ghost before = views(parts@);
        parts.push(chars_of(s[i].as_str()));
        assert(views(parts@) =~= before.push(s@[i as int]@));
        i = i + 1;
        assert(str_views(s@).take(i as int) =~= str_views(s@).take(i - 1).push(s@[i - 1]@));
    }
    assert(str_views(s@).take(s@.len() as int) =~= str_views(s@));
    let j = join_chars(&parts, ':');
    string_of(j.as_slice())
}

// ───────────────────────────── PHP settings ─────────────────────────────

/// The php.ini overrides PHP starts with: the `[php]` limits, the
/// `[session]` cookie settings (the cookie is secure when asked for or
/// when TLS is on), the sandbox's restrictions with its disabled
/// functions joined by commas, the given `open_basedir` and preload
/// script, the extra directives and the extensions; timestamps are not
/// validated unless configured.
pub open spec fn ini_overrides_fit(o: PhpIniOverrides, c: RuntimeConfig, open_basedir: Seq<char>, preload: Seq<char>) -> bool {
    &&& o.memory_limit@ == c.php.memory_limit@
    &&& o.max_execution_time == c.php.max_execution_time
    &&& o.upload_max_filesize@ == c.php.upload_max_filesize@
    &&& o.post_max_size@ == c.php.post_max_size@
    &&& o.opcache_memory == c.php.opcache_memory
    &&& o.jit_buffer_size@ == c.php.jit_buffer_size@
    &&& o.session_save_path@ == c.session.save_path@
    &&& o.session_cookie_name@ == c.session.cookie_name@
    &&& o.session_cookie_lifetime == c.session.cookie_lifetime
    &&& o.session_cookie_httponly == c.session.cookie_httponly
    &&& o.session_cookie_secure == (c.session.cookie_secure || c.server.tls.enabled)
    &&& o.session_cookie_samesite@ == c.session.cookie_samesite@
    &&& o.session_gc_maxlifetime == c.session.gc_maxlifetime
    &&& o.open_basedir@ == open_basedir
    &&& o.disabled_functions@ == join(str_views(c.sandbox.disabled_functions@), ',')
    &&& o.block_url_include == c.sandbox.block_url_include
    &&& o.block_url_fopen == c.sandbox.block_url_fopen
    &&& o.preload_script@ == preload
    &&& pair_views(o.extra_ini@) == pair_views(c.php.ini@)
    &&& str_views(o.extensions@) == str_views(c.php.extensions@)
    &&& str_views(o.zend_extensions@) == str_views(c.php.zend_extensions@)
    &&& o.opcache_validate_timestamps == match c.php.opcache_validate_timestamps {
        Some(b) => b,
        None => false,
    }
}

fn copy_str(s: &String) -> (r: String)
    ensures
        r@ == s@,
{
    String::from_str(s.as_str())
}

fn join_commas(v: &Vec<String>) -> (r: String)
    ensures
        r@ == join(str_views(v@), ','),
{
    let mut parts: Vec<Vec<char>> = Vec::new();
    let mut i: usize = 0;
    while i < v.len()
        invariant
            i <= v@.len(),
            views(parts@) == str_views(v@).take(i as int),
        decreases v@.len() - i,
    {
        let ghost before = views(parts@);
        parts.push(chars_of(v[i].as_str()));
        assert(views(parts@) =~= before.push(v@[i as int]@));
        i = i + 1;
        assert(str_views(v@).take(i as int) =~= str_views(v@).take(i - 1).push(v@[i - 1]@));
    }
    assert(str_views(v@).take(v@.len() as int) =~= str_views(v@));
    let j = join_chars(&parts, ',');
    string_of(j.as_slice())
}

/// The php.ini overrides for a configuration.
pub fn php_ini_overrides(c: &RuntimeConfig, open_basedir: String, preload_script: String) -> (r: PhpIniOverrides)
    ensures
        ini_overrides_fit(r, *c, open_basedir@, preload_script@),
{
    PhpIniOverrides {
        memory_limit: copy_str(&c.php.memory_limit),
        max_execution_time: c.php.max_execution_time,
        upload_max_filesize: copy_str(&c.php.upload_max_filesize),
        post_max_size: copy_str(&c.php.post_max_size),
        opcache_memory: c.php.opcache_memory,
        jit_buffer_size: copy_str(&c.php.jit_buffer_size),
        session_save_path: copy_str(&c.session.save_path),
        session_cookie_name: copy_str(&c.session.cookie_name),
        session_cookie_lifetime: c.session.cookie_lifetime,
        session_cookie_httponly: c.session.cookie_httponly,
        session_cookie_secure: c.session.cookie_secure || c.server.tls.enabled,
        session_cookie_samesite: copy_str(&c.session.cookie_samesite),
        session_gc_maxlifetime: c.session.gc_maxlifetime,
        open_basedir,
        disabled_functions: join_commas(&c.sandbox.disabled_functions),
        block_url_include: c.sandbox.block_url_include,
        block_url_fopen: c.sandbox.block_url_fopen,
        preload_script,
        extra_ini: copy_pairs(&c.php.ini),
        extensions: copy_strings(&c.php.extensions),
        zend_extensions: copy_strings(&c.php.zend_extensions),
        opcache_validate_timestamps: match c.php.opcache_validate_timestamps {
            Some(b) => b,
            None => false,
        },
    }
}

/// Where an OPcache preload script is looked for under the application
/// root, in order.
pub open spec fn preload_candidates_of(app_root: Seq<char>) -> Seq<Seq<char>> {
    seq![
        join_path(app_root, "vendor/preload.php"@),
        join_path(app_root, "preload.php"@),
        join_path(app_root, "config/preload.php"@),
    ]
}

/// The places an OPcache preload script is looked for.
pub fn preload_candidates(app_root: &str) -> (r: Vec<String>)
    ensures
        str_views(r@) == preload_candidates_of(app_root@),
{
    let a = chars_of(app_root);
    let p1 = chars_of("vendor/preload.php");
    let p2 = chars_of("preload.php");
    let p3 = chars_of("config/preload.php");
    let mut r: Vec<String> = Vec::new();
    let j1 = join_path_chars(a.as_slice(), p1.as_slice());
    r.push(string_of(j1.as_slice()));
    let j2 = join_path_chars(a.as_slice(), p2.as_slice());
    r.push(string_of(j2.as_slice()));
    let j3 = join_path_chars(a.as_slice(), p3.as_slice());
    r.push(string_of(j3.as_slice()));
    assert(str_views(r@) =~= preload_candidates_of(app_root@));
    r
}

/// Index of the first candidate that exists, or -1.
pub open spec fn first_existing(exists: Seq<bool>) -> int
    decreases exists.len(),
{
    if exists.len() == 0 {
        -1
    } else {
        let j = first_existing(exists.drop_last());
        if j >= 0 {
            j
        } else if exists.last() {
            exists.len() - 1
        } else {
            -1
        }
    }
}

proof fn lemma_first_existing_none(e: Seq<bool>)
    requires
        forall|j: int| 0 <= j < e.len() ==> !e[j],
    ensures
        first_existing(e) == -1,
    decreases e.len(),
{
    if e.len() > 0 {
        lemma_first_existing_none(e.drop_last());
    }
}

proof fn lemma_first_existing_at(e: Seq<bool>, i: int)
    requires
        0 <= i < e.len(),
        e[i],
        forall|j: int| 0 <= j < i ==> !e[j],
    ensures
        first_existing(e) == i,
    decreases e.len(),
{
    if e.len() == i + 1 {
        lemma_first_existing_none(e.drop_last());
    } else {
        lemma_first_existing_at(e.drop_last(), i);
    }
}

/// The preload script: the configured path, unless it is `auto` or
/// absent; then the first candidate that exists, or none (empty).
pub open spec fn preload_of(configured: Option<Seq<char>>, candidates: Seq<Seq<char>>, exists: Seq<bool>) -> Seq<char> {
    match configured {
        Some(p) if p != "auto"@ => p,
        _ => {
            let i = first_existing(exists);
            if 0 <= i < candidates.len() {
                candidates[i]
            } else {
                Seq::empty()
            }
        },
    }
}

/// Chooses the OPcache preload script; `exists` tells, for each
/// candidate, whether the file is there.
pub fn choose_preload(configured: Option<&str>, candidates: &Vec<String>, exists: &Vec<bool>) -> (r: String)
    ensures
        r@ == preload_of(crate::text::opt_str(configured), str_views(candidates@), exists@),
{
    if let Some(p) = configured {
        if !str_eq(p, "auto") {
            return String::from_str(p);
        }
    }
    let mut i: usize = 0;
    while i < exists.len()
        invariant
            i <= exists@.len(),
            forall|j: int| 0 <= j < i ==> !exists@[j],
            match crate::text::opt_str(configured) {
                Some(p) => p == "auto"@,
                None => true,
            },
        decreases exists@.len() - i,
    {
        if exists[i] {
            proof {
                lemma_first_existing_at(exists@, i as int);
            }
            if i < candidates.len() {
                assert(str_views(candidates@)[i as int] == candidates@[i as int]@);
                return String::from_str(candidates[i].as_str());
            }
            return String::new();
        }
        i = i + 1;
    }
    proof {
        lemma_first_existing_none(exists@);
    }
    String::new()
}

} // verus!
