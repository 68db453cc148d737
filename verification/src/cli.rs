//! The command line: `turbine serve`, `turbine status`,
//! `turbine cache:clear`, and the configuration commands.
use vstd::prelude::*;

use crate::config::{str_views, RuntimeConfig, VirtualHostConfig};
use crate::server::join_with;
use crate::text::{chars_of, decimal, decimal_chars, find_chars, first_occurrence, push_all, push_str, string_of, sub_chars};

verus! {

/// The parsed command line.
pub struct Cli {
    /// The subcommand; `serve` when none is given.
    pub command: Option<Command>,
}

/// A subcommand.
pub enum Command {
    /// Start the HTTP server.
    Serve {
        /// Listen address override (such as `127.0.0.1:8080`).
        listen: Option<String>,
        /// Worker count override.
        workers: Option<usize>,
        /// Path of `turbine.toml`.
        config: Option<String>,
        /// Application root (default: the current directory).
        root: Option<String>,
        /// PEM certificate chain (enables TLS).
        tls_cert: Option<String>,
        /// PEM private key (enables TLS).
        tls_key: Option<String>,
        /// Request timeout in seconds (0: none).
        request_timeout: Option<u64>,
        /// Access log file.
        access_log: Option<String>,
    },
    /// Show the status of a running server.
    Status { address: String },
    /// Clear the response cache of a running server.
    CacheClear { address: String },
    /// Show the configuration.
    Config,
    /// Show PHP engine information.
    Info,
    /// Write a new `turbine.toml`.
    Init,
    /// Validate `turbine.toml`.
    Check { config: Option<String> },
}

/// The address the status and cache commands talk to by default.
pub const DEFAULT_ADMIN_ADDRESS: &'static str = "127.0.0.1:8080";

// ───────────────────────────── talking to a running server ─────────────────────────────

/// The request `turbine status` sends to `address`.
pub open spec fn status_request_of(address: Seq<char>) -> Seq<char> {
    "GET /_/status HTTP/1.1\r\nHost: "@ + address + "\r\nConnection: close\r\n\r\n"@
}

/// The request `turbine cache:clear` sends to `address`.
pub open spec fn cache_clear_request_of(address: Seq<char>) -> Seq<char> {
    "POST /_/cache/clear HTTP/1.1\r\nHost: "@ + address + "\r\nConnection: close\r\n\r\n"@
}

/// The status request for a server.
pub fn status_request(address: &str) -> (r: String)
    ensures
        r@ == status_request_of(address@),
{
    let mut v: Vec<char> = Vec::new();
    push_str(&mut v, "GET /_/status HTTP/1.1\r\nHost: ");
    push_str(&mut v, address);
    push_str(&mut v, "\r\nConnection: close\r\n\r\n");
    string_of(v.as_slice())
}

/// The cache-clear request for a server.
pub fn cache_clear_request(address: &str) -> (r: String)
    ensures
        r@ == cache_clear_request_of(address@),
{
    let mut v: Vec<char> = Vec::new();
    push_str(&mut v, "POST /_/cache/clear HTTP/1.1\r\nHost: ");
    push_str(&mut v, address);
    push_str(&mut v, "\r\nConnection: close\r\n\r\n");
    string_of(v.as_slice())
}

/// The body of a raw HTTP response: what follows the first blank line;
/// none when there is no blank line.
pub open spec fn response_body_of(response: Seq<char>) -> Option<Seq<char>> {
    let i = first_occurrence(response, "\r\n\r\n"@);
    if i < 0 {
        None
    } else {
        Some(response.skip(i + "\r\n\r\n"@.len()))
    }
}

/// The body of a raw HTTP response.
pub fn response_body(response: &str) -> (r: Option<String>)
    ensures
        match r {
            Some(b) => response_body_of(response@) == Some(b@),
            None => response_body_of(response@) is None,
        },
{
    let c = chars_of(response);
    let sep = chars_of("\r\n\r\n");
    proof {
        crate::text::lemma_first_occurrence(c@, sep@);
    }
    match find_chars(c.as_slice(), sep.as_slice()) {
        Some(i) => {
            let n = c.len();
            assert(i + sep@.len() <= n);
            let from: usize = i + sep.len();
            let rest = sub_chars(c.as_slice(), from, n);
            assert(rest@ =~= response@.skip(i + "\r\n\r\n"@.len()));
            Some(string_of(rest.as_slice()))
        },
        None => None,
    }
}

// ───────────────────────────── turbine check ─────────────────────────────

/// What `turbine check` prints and whether it fails.
pub struct CheckReport {
    /// The text for standard output.
    pub out: String,
    /// The text for standard error.
    pub err: String,
    /// The command exits with status 1.
    pub failed: bool,
}

/// A line of output.
pub open spec fn line(s: Seq<char>) -> Seq<char> {
    s + "\n"@
}

/// `true` or `false`.
pub open spec fn flag(b: bool) -> Seq<char> {
    if b {
        "true"@
    } else {
        "false"@
    }
}

/// A virtual host's line: its domain, its root, and its aliases if any.
pub open spec fn vhost_line(v: VirtualHostConfig) -> Seq<char> {
    line(
        "    "@ + v.domain@ + " → "@ + v.root@ + if v.aliases@.len() == 0 {
            Seq::empty()
        } else {
            " (+ "@ + join_with(str_views(v.aliases@), ", "@) + ")"@
        },
    )
}

/// The lines of all virtual hosts.
pub open spec fn vhost_lines(vs: Seq<VirtualHostConfig>) -> Seq<char>
    decreases vs.len(),
{
    if vs.len() == 0 {
        Seq::empty()
    } else {
        vhost_lines(vs.drop_last()) + vhost_line(vs.last())
    }
}

/// The settings part of the report.
pub open spec fn settings_text(c: RuntimeConfig) -> Seq<char> {
    line("\x1b[1mSettings:\x1b[0m"@) + line("  workers          = "@ + decimal(c.server.workers as nat))
        + line("  worker_mode      = "@ + c.server.worker_mode@) + line(
        "  persistent       = "@ + flag(
            match c.server.persistent_workers {
                Some(b) => b,
                None => false,
            },
        ),
    ) + line("  listen           = "@ + c.server.listen@) + line(
        "  request_timeout  = "@ + decimal(c.server.request_timeout as nat) + "s"@,
    ) + line("  max_requests     = "@ + decimal(c.server.worker_max_requests as nat)) + (match c.server.tokio_worker_threads {
        Some(t) => line("  tokio_threads    = "@ + decimal(t as nat)),
        None => Seq::empty(),
    }) + line("  security         = "@ + flag(c.security.enabled)) + line(
        "  compression      = "@ + flag(c.compression.enabled),
    ) + line("  cache            = "@ + flag(c.cache.enabled)) + line(
        "  tls              = "@ + flag(c.server.tls.enabled),
    ) + (if c.virtual_hosts@.len() > 0 {
        line("  virtual_hosts    = "@ + decimal(c.virtual_hosts@.len())) + vhost_lines(c.virtual_hosts@)
    } else {
        Seq::empty()
    }) + line(""@)
}

/// The bulleted lines of a list of messages in a colour.
pub open spec fn bullets(colour: Seq<char>, ms: Seq<Seq<char>>) -> Seq<char>
    decreases ms.len(),
{
    if ms.len() == 0 {
        Seq::empty()
    } else {
        bullets(colour, ms.drop_last()) + line("  \x1b["@ + colour + "m•\x1b[0m "@ + ms.last())
    }
}

/// The findings part of the report: the errors, then the warnings.
pub open spec fn findings_text(errors: Seq<Seq<char>>, warnings: Seq<Seq<char>>) -> Seq<char> {
    (if errors.len() > 0 {
        line("\x1b[31m✗ "@ + decimal(errors.len()) + " error(s):\x1b[0m"@) + bullets("31"@, errors) + line(""@)
    } else {
        Seq::empty()
    }) + (if warnings.len() > 0 {
        line("\x1b[33m⚠ "@ + decimal(warnings.len()) + " warning(s):\x1b[0m"@) + bullets("33"@, warnings)
            + line(""@)
    } else {
        Seq::empty()
    })
}

/// The report of `turbine check` on the file `path`: what goes to
/// standard output and to standard error, and whether it fails (it
/// fails exactly when there are errors).
pub open spec fn check_report_of(
    path: Seq<char>,
    c: RuntimeConfig,
    errors: Seq<Seq<char>>,
    warnings: Seq<Seq<char>>,
) -> (Seq<char>, Seq<char>, bool) {
    let head = line("\x1b[1mTurbine Configuration Check\x1b[0m"@) + line("  File: "@ + path) + line(""@);
    let body = head + settings_text(c) + findings_text(errors, warnings);
    if errors.len() > 0 {
        (body, line("\x1b[31m✗ Configuration has errors that must be fixed.\x1b[0m"@), true)
    } else if warnings.len() > 0 {
        (body + line("\x1b[33m⚠ Configuration is valid but has warnings.\x1b[0m"@), Seq::empty(), false)
    } else {
        (body + line("\x1b[32m✓ Configuration is valid. No errors or warnings.\x1b[0m"@), Seq::empty(), false)
    }
}

fn push_num(v: &mut Vec<char>, n: u64)
    ensures
        final(v)@ == old(v)@ + decimal(n as nat),
{
    let d = decimal_chars(n);
    push_all(v, d.as_slice());
}

fn push_flag(v: &mut Vec<char>, b: bool)
    ensures
        final(v)@ == old(v)@ + flag(b),
{
    if b {
        push_str(v, "true");
    } else {
        push_str(v, "false");
    }
}

fn push_joined(v: &mut Vec<char>, ps: &Vec<String>, sep: &str)
    ensures
        final(v)@ == old(v)@ + join_with(str_views(ps@), sep@),
{
    let ghost start = v@;
    let mut i: usize = 0;
    while i < ps.len()
        invariant
            i <= ps@.len(),
            v@ == start + join_with(str_views(ps@).take(i as int), sep@),
        decreases ps@.len() - i,
    {
        let ghost t = str_views(ps@).take(i + 1);
        assert(t.drop_last() =~= str_views(ps@).take(i as int));
        assert(t.last() == ps@[i as int]@);
        if i > 0 {
            push_str(v, sep);
        }
        push_str(v, ps[i].as_str());
        proof {
            if i == 0 {
                assert(t =~= seq![ps@[0]@]);
                assert(v@ =~= start + ps@[0]@);
            } else {
                assert(v@ =~= start + (join_with(str_views(ps@).take(i as int), sep@) + sep@ + ps@[i as int]@));
            }
        }
        i = i + 1;
    }
    assert(str_views(ps@).take(ps@.len() as int) =~= str_views(ps@));
}

fn push_vhosts(v: &mut Vec<char>, vs: &Vec<VirtualHostConfig>)
    ensures
        final(v)@ == old(v)@ + vhost_lines(vs@),
{
    let ghost start = v@;
    let mut i: usize = 0;
    assert(vs@.take(0) =~= Seq::<VirtualHostConfig>::empty());
    while i < vs.len()
        invariant
            i <= vs@.len(),
            v@ == start + vhost_lines(vs@.take(i as int)),
        decreases vs@.len() - i,
    {
        let ghost t = vs@.take(i + 1);
        assert(t.drop_last() =~= vs@.take(i as int));
        assert(t.last() == vs@[i as int]);
        let ghost before = v@;
        let h = &vs[i];
        push_str(v, "    ");
        push_str(v, h.domain.as_str());
        push_str(v, " → ");
        push_str(v, h.root.as_str());
        if h.aliases.len() > 0 {
            push_str(v, " (+ ");
            push_joined(v, &h.aliases, ", ");
            push_str(v, ")");
        }
        push_str(v, "\n");
        assert(v@ =~= before + vhost_line(*h));
        i = i + 1;
    }
    assert(vs@.take(vs@.len() as int) =~= vs@);
}

fn push_bullets(v: &mut Vec<char>, colour: &str, ms: &Vec<String>)
    ensures
        final(v)@ == old(v)@ + bullets(colour@, str_views(ms@)),
{
    let ghost start = v@;
    let mut i: usize = 0;
    assert(str_views(ms@).take(0) =~= Seq::<Seq<char>>::empty());
    while i < ms.len()
        invariant
            i <= ms@.len(),
            v@ == start + bullets(colour@, str_views(ms@).take(i as int)),
        decreases ms@.len() - i,
    {
        let ghost t = str_views(ms@).take(i + 1);
        assert(t.drop_last() =~= str_views(ms@).take(i as int));
        assert(t.last() == ms@[i as int]@);
        let ghost before = v@;
        push_str(v, "  \x1b[");
        push_str(v, colour);
        push_str(v, "m•\x1b[0m ");
        push_str(v, ms[i].as_str());
        push_str(v, "\n");
        assert(v@ =~= before + line("  \x1b["@ + colour@ + "m•\x1b[0m "@ + ms@[i as int]@));
        i = i + 1;
    }
    assert(str_views(ms@).take(ms@.len() as int) =~= str_views(ms@));
}

fn text_line(s: &str) -> (r: Vec<char>)
    ensures
        r@ == line(s@),
{
    let mut v: Vec<char> = Vec::new();
    push_str(&mut v, s);
    push_str(&mut v, "\n");
    v
}

fn num_line(label: &str, n: u64) -> (r: Vec<char>)
    ensures
        r@ == line(label@ + decimal(n as nat)),
{
    let mut v: Vec<char> = Vec::new();
    push_str(&mut v, label);
    push_num(&mut v, n);
    push_str(&mut v, "\n");
    assert(v@ =~= line(label@ + decimal(n as nat)));
    v
}

fn str_line(label: &str, s: &str) -> (r: Vec<char>)
    ensures
        r@ == line(label@ + s@),
{
    let mut v: Vec<char> = Vec::new();
    push_str(&mut v, label);
    push_str(&mut v, s);
    push_str(&mut v, "\n");
    assert(v@ =~= line(label@ + s@));
    v
}

fn flag_line(label: &str, b: bool) -> (r: Vec<char>)
    ensures
        r@ == line(label@ + flag(b)),
{
    let mut v: Vec<char> = Vec::new();
    push_str(&mut v, label);
    push_flag(&mut v, b);
    push_str(&mut v, "\n");
    assert(v@ =~= line(label@ + flag(b)));
    v
}

fn settings_chars(c: &RuntimeConfig) -> (r: Vec<char>)
    ensures
        r@ == settings_text(*c),
{
    let mut v = text_line("\x1b[1mSettings:\x1b[0m");
    let p1 = num_line("  workers          = ", c.server.workers as u64);
    push_all(&mut v, p1.as_slice());
    let p2 = str_line("  worker_mode      = ", c.server.worker_mode.as_str());
    push_all(&mut v, p2.as_slice());
    let p = match c.server.persistent_workers {
        Some(b) => b,
        None => false,
    };
    let p3 = flag_line("  persistent       = ", p);
    push_all(&mut v, p3.as_slice());
    let p4 = str_line("  listen           = ", c.server.listen.as_str());
    push_all(&mut v, p4.as_slice());
    let mut p5: Vec<char> = Vec::new();
    push_str(&mut p5, "  request_timeout  = ");
    push_num(&mut p5, c.server.request_timeout);
    push_str(&mut p5, "s");
    push_str(&mut p5, "\n");
    assert(p5@ =~= line("  request_timeout  = "@ + decimal(c.server.request_timeout as nat) + "s"@));
    push_all(&mut v, p5.as_slice());
    let p6 = num_line("  max_requests     = ", c.server.worker_max_requests);
    push_all(&mut v, p6.as_slice());
    let p7 = match c.server.tokio_worker_threads {
        Some(t) => num_line("  tokio_threads    = ", t as u64),
        None => Vec::new(),
    };
    push_all(&mut v, p7.as_slice());
    let p8 = flag_line("  security         = ", c.security.enabled);
    push_all(&mut v, p8.as_slice());
    let p9 = flag_line("  compression      = ", c.compression.enabled);
    push_all(&mut v, p9.as_slice());
    let p10 = flag_line("  cache            = ", c.cache.enabled);
    push_all(&mut v, p10.as_slice());
    let p11 = flag_line("  tls              = ", c.server.tls.enabled);
    push_all(&mut v, p11.as_slice());
    let p12 = if c.virtual_hosts.len() > 0 {
        let mut w = num_line("  virtual_hosts    = ", c.virtual_hosts.len() as u64);
        push_vhosts(&mut w, &c.virtual_hosts);
        w
    } else {
        Vec::new()
    };
    push_all(&mut v, p12.as_slice());
    let p13 = text_line("");
    push_all(&mut v, p13.as_slice());
    v
}

/// Builds the report of `turbine check` for the file `path`, its
/// configuration and what checking it found.
pub fn check_report(path: &str, c: &RuntimeConfig, errors: &Vec<String>, warnings: &Vec<String>) -> (r: CheckReport)
    ensures
        (r.out@, r.err@, r.failed) == check_report_of(path@, *c, str_views(errors@), str_views(warnings@)),
{
    let mut v = text_line("\x1b[1mTurbine Configuration Check\x1b[0m");
    let h2 = str_line("  File: ", path);
    push_all(&mut v, h2.as_slice());
    let h3 = text_line("");
    push_all(&mut v, h3.as_slice());
    let st = settings_chars(c);
    push_all(&mut v, st.as_slice());
    let f = findings_chars(errors, warnings);
    push_all(&mut v, f.as_slice());
    let mut err: Vec<char> = Vec::new();
    let failed = errors.len() > 0;
    if failed {
        err = text_line("\x1b[31m✗ Configuration has errors that must be fixed.\x1b[0m");
    } else if warnings.len() > 0 {
        let t = text_line("\x1b[33m⚠ Configuration is valid but has warnings.\x1b[0m");
        push_all(&mut v, t.as_slice());
    } else {
        let t = text_line("\x1b[32m✓ Configuration is valid. No errors or warnings.\x1b[0m");
        push_all(&mut v, t.as_slice());
    }
    CheckReport { out: string_of(v.as_slice()), err: string_of(err.as_slice()), failed }
}

fn findings_chars(errors: &Vec<String>, warnings: &Vec<String>) -> (r: Vec<char>)
    ensures
        r@ == findings_text(str_views(errors@), str_views(warnings@)),
{
    let e = if errors.len() > 0 {
        let mut w: Vec<char> = Vec::new();
        push_str(&mut w, "\x1b[31m✗ ");
        push_num(&mut w, errors.len() as u64);
        push_str(&mut w, " error(s):\x1b[0m");
        push_str(&mut w, "\n");
        assert(w@ =~= line("\x1b[31m✗ "@ + decimal(errors@.len()) + " error(s):\x1b[0m"@));
        push_bullets(&mut w, "31", errors);
        let t = text_line("");
        push_all(&mut w, t.as_slice());
        w
    } else {
        Vec::new()
    };
    let w = if warnings.len() > 0 {
        let mut w: Vec<char> = Vec::new();
        push_str(&mut w, "\x1b[33m⚠ ");
        push_num(&mut w, warnings.len() as u64);
        push_str(&mut w, " warning(s):\x1b[0m");
        push_str(&mut w, "\n");
        assert(w@ =~= line("\x1b[33m⚠ "@ + decimal(warnings@.len()) + " warning(s):\x1b[0m"@));
        push_bullets(&mut w, "33", warnings);
        let t = text_line("");
        push_all(&mut w, t.as_slice());
        w
    } else {
        Vec::new()
    };
    let mut r = e;
    push_all(&mut r, w.as_slice());
    r
}

} // verus!
