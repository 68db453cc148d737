//! The PHP engine's configuration and state: the `php.ini` the embedded
//! engine runs with, its errors, and its response shape.
//!
//! The ini turns OPcache on (shared memory plus a file cache, function
//! JIT), fixes `output_buffering=0` (output capture depends on it: a
//! `[php.ini]` override of it is ignored), sets limits and session
//! cookies, applies the hardening switches, and loads the configured
//! extensions.  Whether OPcache ships as a shared object, whether the
//! preload script exists and which user runs PHP are facts of the host,
//! handed in by the caller.
use vstd::prelude::*;

use crate::config::str_views;
use crate::text::{ascii_lower_seq, chars_of, decimal, decimal_chars, eq_ignore_ascii_case, eq_ignore_ascii_case_chars, pair_views, push_all, string_of};

verus! {

/// A PHP response: body, headers and status.
pub struct PhpResponse {
    pub body: Vec<u8>,
    pub headers: Vec<(String, String)>,
    pub status_code: u16,
}

/// Errors of the PHP engine.
#[derive(Debug)]
pub enum EngineError {
    InitFailed,
    RequestStartupFailed,
    EvalFailed { code: String },
    AlreadyInitialized,
    NotInitialized,
    NullByteInCode,
    RequestLifecycle,
}

impl EngineError {
    /// The error's message.
    pub fn message(&self) -> (r: String)
        ensures
            r@ == error_message(*self),
    {
        match self {
            EngineError::InitFailed => "PHP embed SAPI initialization failed".to_string(),
            EngineError::RequestStartupFailed => "PHP request startup failed".to_string(),
            EngineError::EvalFailed { code } => {
                let mut m = chars_of("PHP eval failed for: ");
                let c = chars_of(code.as_str());
                push_all(&mut m, c.as_slice());
                string_of(m.as_slice())
            },
            EngineError::AlreadyInitialized => "PHP engine already initialized".to_string(),
            EngineError::NotInitialized => "PHP engine not initialized".to_string(),
            EngineError::NullByteInCode => "PHP code contains null byte".to_string(),
            EngineError::RequestLifecycle => "PHP request lifecycle error".to_string(),
        }
    }
}

/// The message of an engine error.
pub open spec fn error_message(e: EngineError) -> Seq<char> {
    match e {
        EngineError::InitFailed => "PHP embed SAPI initialization failed"@,
        EngineError::RequestStartupFailed => "PHP request startup failed"@,
        EngineError::EvalFailed { code } => "PHP eval failed for: "@ + code@,
        EngineError::AlreadyInitialized => "PHP engine already initialized"@,
        EngineError::NotInitialized => "PHP engine not initialized"@,
        EngineError::NullByteInCode => "PHP code contains null byte"@,
        EngineError::RequestLifecycle => "PHP request lifecycle error"@,
    }
}

/// Whether a request context is active in the embedded engine: the engine
/// starts with one, ends it before starting the next.
pub struct PhpEngine {
    request_active: bool,
}

impl PhpEngine {
    /// Whether a request context is active.
    pub closed spec fn active(&self) -> bool {
        self.request_active
    }

    /// An engine just initialized: the embed SAPI starts with a request.
    pub fn started() -> (r: PhpEngine)
        ensures
            r.active(),
    {
        PhpEngine { request_active: true }
    }

    /// Whether a request context is active.
    pub fn is_request_active(&self) -> (r: bool)
        ensures
            r == self.active(),
    {
        self.request_active
    }

    /// Whether the current request must be shut down before a new one
    /// starts; the engine then has none.
    pub fn end_request(&mut self) -> (r: bool)
        ensures
            r == old(self).active(),
            !final(self).active(),
    {
        let was = self.request_active;
        self.request_active = false;
        was
    }

    /// Records that a new request started.
    pub fn begin_request(&mut self)
        ensures
            final(self).active(),
    {
        self.request_active = true;
    }
}

/// Settings of the generated `php.ini`.
pub struct PhpIniOverrides {
    pub memory_limit: String,
    pub max_execution_time: u64,
    pub upload_max_filesize: String,
    pub post_max_size: String,
    pub opcache_memory: usize,
    pub jit_buffer_size: String,
    pub session_save_path: String,
    pub session_cookie_name: String,
    pub session_cookie_lifetime: u64,
    pub session_cookie_httponly: bool,
    pub session_cookie_secure: bool,
    pub session_cookie_samesite: String,
    pub session_gc_maxlifetime: u64,
    /// `open_basedir` restriction; empty disables it.
    pub open_basedir: String,
    /// Comma-separated PHP functions to disable.
    pub disabled_functions: String,
    /// Sets `allow_url_include=Off`.
    pub block_url_include: bool,
    /// Sets `allow_url_fopen=Off`.
    pub block_url_fopen: bool,
    /// OPcache preload script; empty disables preloading.
    pub preload_script: String,
    /// Further directives, in order.
    pub extra_ini: Vec<(String, String)>,
    /// PHP extensions to load.
    pub extensions: Vec<String>,
    /// Zend extensions to load.
    pub zend_extensions: Vec<String>,
    /// OPcache checks file timestamps.
    pub opcache_validate_timestamps: bool,
}

impl Default for PhpIniOverrides {
    /// 256M memory, 30 s, 64M uploads and posts, 128 MB OPcache, 64M JIT,
    /// file sessions under `/tmp/turbine-sessions` named `PHPSESSID`
    /// (http-only, lax, 1440 s), URL include and fopen blocked.
    fn default() -> (r: Self)
        ensures
            r.memory_limit@ == "256M"@,
            r.max_execution_time == 30,
            r.upload_max_filesize@ == "64M"@,
            r.post_max_size@ == "64M"@,
            r.opcache_memory == 128,
            r.jit_buffer_size@ == "64M"@,
            r.session_save_path@ == "/tmp/turbine-sessions"@,
            r.session_cookie_name@ == "PHPSESSID"@,
            r.session_cookie_lifetime == 0,
            r.session_cookie_httponly,
            !r.session_cookie_secure,
            r.session_cookie_samesite@ == "Lax"@,
            r.session_gc_maxlifetime == 1440,
            r.open_basedir@.len() == 0,
            r.disabled_functions@.len() == 0,
            r.block_url_include,
            r.block_url_fopen,
            r.preload_script@.len() == 0,
            r.extra_ini@.len() == 0,
            r.extensions@.len() == 0,
            r.zend_extensions@.len() == 0,
            !r.opcache_validate_timestamps,
    {
        PhpIniOverrides {
            memory_limit: "256M".to_string(),
            max_execution_time: 30,
            upload_max_filesize: "64M".to_string(),
            post_max_size: "64M".to_string(),
            opcache_memory: 128,
            jit_buffer_size: "64M".to_string(),
            session_save_path: "/tmp/turbine-sessions".to_string(),
            session_cookie_name: "PHPSESSID".to_string(),
            session_cookie_lifetime: 0,
            session_cookie_httponly: true,
            session_cookie_secure: false,
            session_cookie_samesite: "Lax".to_string(),
            session_gc_maxlifetime: 1440,
            open_basedir: String::new(),
            disabled_functions: String::new(),
            block_url_include: true,
            block_url_fopen: true,
            preload_script: String::new(),
            extra_ini: Vec::new(),
            extensions: Vec::new(),
            zend_extensions: Vec::new(),
            opcache_validate_timestamps: false,
        }
    }
}

/// The fixed OPcache lines up to the memory size.
pub const INI_OPCACHE_HEAD: &'static str = "opcache.enable=1\nopcache.enable_cli=1\nopcache.memory_consumption=";

/// The fixed OPcache lines up to the timestamp switch.
pub const INI_OPCACHE_MID: &'static str = "\nopcache.interned_strings_buffer=16\nopcache.max_accelerated_files=10000\nopcache.validate_timestamps=";

/// The fixed OPcache lines up to the JIT buffer size.
pub const INI_OPCACHE_TAIL: &'static str = "\nopcache.revalidate_freq=0\nopcache.save_comments=1\nopcache.file_cache=/tmp/turbine-opcache\nopcache.protect_memory=0\nopcache.jit=function\nopcache.jit_buffer_size=";

/// The fixed lines of output handling, up to the memory limit.
pub const INI_OUTPUT: &'static str = "output_buffering=0\ndisplay_errors=0\nlog_errors=1\nmemory_limit=";

/// `1` or `0`.
pub open spec fn flag(b: bool) -> Seq<char> {
    if b {
        "1"@
    } else {
        "0"@
    }
}

/// `lead`, `v`, newline.
pub open spec fn line(lead: Seq<char>, v: Seq<char>) -> Seq<char> {
    lead + v + "\n"@
}

/// The lines of a list of values, each with `lead` in front.
pub open spec fn list_lines(lead: Seq<char>, vs: Seq<Seq<char>>) -> Seq<char>
    decreases vs.len(),
{
    if vs.len() == 0 {
        seq![]
    } else {
        list_lines(lead, vs.drop_last()) + line(lead, vs.last())
    }
}

/// The lines of further directives, `output_buffering` (in any ASCII
/// letter case) left out.
pub open spec fn extra_lines(kvs: Seq<(Seq<char>, Seq<char>)>) -> Seq<char>
    decreases kvs.len(),
{
    if kvs.len() == 0 {
        seq![]
    } else {
        let rest = extra_lines(kvs.drop_last());
        let kv = kvs.last();
        if eq_ignore_ascii_case(kv.0, "output_buffering"@) {
            rest
        } else {
            rest + kv.0 + seq!['='] + kv.1 + "\n"@
        }
    }
}

/// The OPcache section: the shared object when there is one, the fixed
/// settings, and preloading when the script is set and exists (with the
/// user PHP runs as).
pub open spec fn opcache_section(o: PhpIniOverrides, opcache_so: Option<Seq<char>>, preload_user: Option<Seq<char>>) -> Seq<char> {
    (match opcache_so {
        Some(p) => line("zend_extension="@, p),
        None => seq![],
    }) + INI_OPCACHE_HEAD@ + decimal(o.opcache_memory as nat) + INI_OPCACHE_MID@ + flag(
        o.opcache_validate_timestamps,
    ) + INI_OPCACHE_TAIL@ + o.jit_buffer_size@ + "\n"@ + (if o.preload_script@.len() > 0
        && preload_user is Some {
        line("opcache.preload="@, o.preload_script@) + line("opcache.preload_user="@, preload_user->0)
    } else {
        seq![]
    })
}

/// The limits and session section.
pub open spec fn limits_section(o: PhpIniOverrides) -> Seq<char> {
    INI_OUTPUT@ + o.memory_limit@ + "\n"@ + line("max_execution_time="@, decimal(o.max_execution_time as nat))
        + line("upload_max_filesize="@, o.upload_max_filesize@) + line("post_max_size="@, o.post_max_size@)
        + "session.save_handler=files\n"@ + line("session.save_path="@, o.session_save_path@) + line(
        "session.name="@,
        o.session_cookie_name@,
    ) + line("session.cookie_lifetime="@, decimal(o.session_cookie_lifetime as nat)) + line(
        "session.cookie_httponly="@,
        flag(o.session_cookie_httponly),
    ) + line("session.cookie_secure="@, flag(o.session_cookie_secure)) + line(
        "session.cookie_samesite="@,
        o.session_cookie_samesite@,
    ) + line("session.gc_maxlifetime="@, decimal(o.session_gc_maxlifetime as nat))
        + "session.use_strict_mode=1\n"@ + "session.use_only_cookies=1\n"@
}

/// The hardening and extension section.
pub open spec fn hardening_section(o: PhpIniOverrides) -> Seq<char> {
    (if o.open_basedir@.len() > 0 {
        line("open_basedir="@, o.open_basedir@)
    } else {
        seq![]
    }) + (if o.disabled_functions@.len() > 0 {
        line("disable_functions="@, o.disabled_functions@)
    } else {
        seq![]
    }) + (if o.block_url_include {
        "allow_url_include=Off\n"@
    } else {
        seq![]
    }) + (if o.block_url_fopen {
        "allow_url_fopen=Off\n"@
    } else {
        seq![]
    }) + list_lines("extension="@, str_views(o.extensions@)) + list_lines(
        "zend_extension="@,
        str_views(o.zend_extensions@),
    ) + extra_lines(pair_views(o.extra_ini@))
}

/// The whole `php.ini`.
pub open spec fn ini_text(o: PhpIniOverrides, opcache_so: Option<Seq<char>>, preload_user: Option<Seq<char>>) -> Seq<char> {
    opcache_section(o, opcache_so, preload_user) + limits_section(o) + hardening_section(o)
}

fn push_lit(v: &mut Vec<char>, lit: &str)
    ensures
        final(v)@ == old(v)@ + lit@,
{
    let l = chars_of(lit);
    push_all(v, l.as_slice());
}

fn push_line(v: &mut Vec<char>, lead: &str, value: &str)
    ensures
        final(v)@ == old(v)@ + line(lead@, value@),
{
    push_lit(v, lead);
    push_lit(v, value);
    push_lit(v, "\n");
}

fn push_num_line(v: &mut Vec<char>, lead: &str, n: u64)
    ensures
        final(v)@ == old(v)@ + line(lead@, decimal(n as nat)),
{
    push_lit(v, lead);
    let d = decimal_chars(n);
    push_all(v, d.as_slice());
    push_lit(v, "\n");
}

fn push_flag_line(v: &mut Vec<char>, lead: &str, b: bool)
    ensures
        final(v)@ == old(v)@ + line(lead@, flag(b)),
{
    push_lit(v, lead);
    if b {
        push_lit(v, "1");
    } else {
        push_lit(v, "0");
    }
    push_lit(v, "\n");
}

fn push_list(v: &mut Vec<char>, lead: &str, vs: &Vec<String>)
    ensures
        final(v)@ == old(v)@ + list_lines(lead@, str_views(vs@)),
{
    let ghost xs = str_views(vs@);
    let mut i: usize = 0;
    assert(xs.take(0) =~= Seq::<Seq<char>>::empty());
    assert(old(v)@ + list_lines(lead@, xs.take(0)) =~= old(v)@);
    while i < vs.len()
        invariant
            i <= vs@.len(),
            xs == str_views(vs@),
            v@ == old(v)@ + list_lines(lead@, xs.take(i as int)),
        decreases vs.len() - i,
    {
        assert(xs.take(i + 1).drop_last() =~= xs.take(i as int));
        assert(xs.take(i + 1).last() == vs@[i as int]@);
        push_line(v, lead, vs[i].as_str());
        i = i + 1;
        assert(v@ =~= old(v)@ + list_lines(lead@, xs.take(i as int)));
    }
    assert(xs.take(xs.len() as int) =~= xs);
}

fn push_extra(v: &mut Vec<char>, kvs: &Vec<(String, String)>)
    ensures
        final(v)@ == old(v)@ + extra_lines(pair_views(kvs@)),
{
    let ghost ps = pair_views(kvs@);
    let ob = chars_of("output_buffering");
    let mut i: usize = 0;
    assert(ps.take(0) =~= Seq::<(Seq<char>, Seq<char>)>::empty());
    assert(old(v)@ + extra_lines(ps.take(0)) =~= old(v)@);
    while i < kvs.len()
        invariant
            i <= kvs@.len(),
            ps == pair_views(kvs@),
            ob@ == "output_buffering"@,
            v@ == old(v)@ + extra_lines(ps.take(i as int)),
        decreases kvs.len() - i,
    {
        assert(ps.take(i + 1).drop_last() =~= ps.take(i as int));
        assert(ps.take(i + 1).last() == (kvs@[i as int].0@, kvs@[i as int].1@));
        let k = chars_of(kvs[i].0.as_str());
        if !eq_ignore_ascii_case_chars(k.as_slice(), ob.as_slice()) {
            push_all(v, k.as_slice());
            v.push('=');
            push_lit(v, kvs[i].1.as_str());
            push_lit(v, "\n");
        }
        i = i + 1;
        assert(v@ =~= old(v)@ + extra_lines(ps.take(i as int)));
    }
    assert(ps.take(ps.len() as int) =~= ps);
}

fn push_opcache(v: &mut Vec<char>, o: &PhpIniOverrides, opcache_so: Option<&str>, preload_user: Option<&str>)
    ensures
        final(v)@ == old(v)@ + opcache_section(
            *o,
            match opcache_so {
                Some(p) => Some(p@),
                None => None,
            },
            match preload_user {
                Some(u) => Some(u@),
                None => None,
            },
        ),
{
    match opcache_so {
        Some(p) => push_line(v, "zend_extension=", p),
        None => {},
    }
    push_lit(v, INI_OPCACHE_HEAD);
    let d = decimal_chars(o.opcache_memory as u64);
    push_all(v, d.as_slice());
    push_lit(v, INI_OPCACHE_MID);
    if o.opcache_validate_timestamps {
        push_lit(v, "1");
    } else {
        push_lit(v, "0");
    }
    push_lit(v, INI_OPCACHE_TAIL);
    push_lit(v, o.jit_buffer_size.as_str());
    push_lit(v, "\n");
    match preload_user {
        Some(u) => {
            if !o.preload_script.as_str().is_empty() {
                push_line(v, "opcache.preload=", o.preload_script.as_str());
                push_line(v, "opcache.preload_user=", u);
            }
        },
        None => {},
    }
    proof {
        let so = match opcache_so { Some(p) => Some(p@), None => None::<Seq<char>> };
        let pu = match preload_user { Some(u) => Some(u@), None => None::<Seq<char>> };
        assert(v@ =~= old(v)@ + opcache_section(*o, so, pu));
    }
}

#[verifier::rlimit(40)]
fn push_limits(v: &mut Vec<char>, o: &PhpIniOverrides)
    ensures
        final(v)@ == old(v)@ + limits_section(*o),
{
    push_lit(v, INI_OUTPUT);
    push_lit(v, o.memory_limit.as_str());
    push_lit(v, "\n");
    push_num_line(v, "max_execution_time=", o.max_execution_time);
    push_line(v, "upload_max_filesize=", o.upload_max_filesize.as_str());
    push_line(v, "post_max_size=", o.post_max_size.as_str());
    push_lit(v, "session.save_handler=files\n");
    push_line(v, "session.save_path=", o.session_save_path.as_str());
    push_line(v, "session.name=", o.session_cookie_name.as_str());
    push_num_line(v, "session.cookie_lifetime=", o.session_cookie_lifetime);
    push_flag_line(v, "session.cookie_httponly=", o.session_cookie_httponly);
    push_flag_line(v, "session.cookie_secure=", o.session_cookie_secure);
    push_line(v, "session.cookie_samesite=", o.session_cookie_samesite.as_str());
    push_num_line(v, "session.gc_maxlifetime=", o.session_gc_maxlifetime);
    push_lit(v, "session.use_strict_mode=1\n");
    push_lit(v, "session.use_only_cookies=1\n");
    assert(v@ =~= old(v)@ + limits_section(*o));
}

#[verifier::rlimit(40)]
fn push_hardening(v: &mut Vec<char>, o: &PhpIniOverrides)
    ensures
        final(v)@ == old(v)@ + hardening_section(*o),
{
    if !o.open_basedir.as_str().is_empty() {
        push_line(v, "open_basedir=", o.open_basedir.as_str());
    }
    if !o.disabled_functions.as_str().is_empty() {
        push_line(v, "disable_functions=", o.disabled_functions.as_str());
    }
    if o.block_url_include {
        push_lit(v, "allow_url_include=Off\n");
    }
    if o.block_url_fopen {
        push_lit(v, "allow_url_fopen=Off\n");
    }
    push_list(v, "extension=", &o.extensions);
    push_list(v, "zend_extension=", &o.zend_extensions);
    push_extra(v, &o.extra_ini);
    assert(v@ =~= old(v)@ + hardening_section(*o));
}

/// The text of the `php.ini`: OPcache (through `opcache_so` when OPcache
/// is a shared object there; preloading when the script exists, run as
/// `preload_user`), limits and sessions, hardening, extensions and further
/// directives.
pub fn php_ini_text(o: &PhpIniOverrides, opcache_so: Option<&str>, preload_user: Option<&str>) -> (r: String)
    ensures
        r@ == ini_text(
            *o,
            match opcache_so {
                Some(p) => Some(p@),
                None => None,
            },
            match preload_user {
                Some(u) => Some(u@),
                None => None,
            },
        ),
{
    let mut v: Vec<char> = Vec::new();
    push_opcache(&mut v, o, opcache_so, preload_user);
    push_limits(&mut v, o);
    push_hardening(&mut v, o);
    proof {
        let so = match opcache_so { Some(p) => Some(p@), None => None::<Seq<char>> };
        let pu = match preload_user { Some(u) => Some(u@), None => None::<Seq<char>> };
        assert(v@ =~= ini_text(*o, so, pu));
    }
    string_of(v.as_slice())
}

/// The ini always keeps output unbuffered: `output_buffering` directives
/// among the further ones are dropped, whatever their letter case.
pub proof fn lemma_extra_lines_drop_output_buffering(kvs: Seq<(Seq<char>, Seq<char>)>, v: Seq<char>)
    ensures
        extra_lines(kvs.push(("output_buffering"@, v))) == extra_lines(kvs),
        extra_lines(kvs.push(("OUTPUT_BUFFERING"@, v))) == extra_lines(kvs),
{
    assert(kvs.push(("output_buffering"@, v)).drop_last() =~= kvs);
    assert(kvs.push(("OUTPUT_BUFFERING"@, v)).drop_last() =~= kvs);
    reveal_strlit("output_buffering");
    reveal_strlit("OUTPUT_BUFFERING");
    assert(ascii_lower_seq("OUTPUT_BUFFERING"@) =~= ascii_lower_seq("output_buffering"@));
}


} // verus!
