//! HTTP helpers: CORS origin matching, PHP size strings, query-string
//! lookup and content-type detection.
use vstd::prelude::*;

use crate::config::{str_views, CorsConfig};
use crate::text::{
    chars_eq, chars_of, contains, contains_bytes, lowercase, parse_unsigned, parse_unsigned_chars,
    split_chars, split_on, split_once_chars, split_once_spec, string_of, sub_chars,
    to_lowercase_chars, trim_ws, trim_ws_chars, views,
};

verus! {

/// Whether `origin` is allowed: some allowed origin is `*` or equals it.
pub open spec fn origin_allowed(allow: Seq<Seq<char>>, origin: Seq<char>) -> bool {
    exists|i: int| 0 <= i < allow.len() && (allow[i] == "*"@ || allow[i] == origin)
}

/// Check if a request origin is allowed by the CORS config.
pub fn cors_origin_allowed(cors: &CorsConfig, origin: &str) -> (r: bool)
    ensures
        r == origin_allowed(str_views(cors.allow_origins@), origin@),
{
    let o = chars_of(origin);
    let star = chars_of("*");
    let mut i: usize = 0;
    while i < cors.allow_origins.len()
        invariant
            i <= cors.allow_origins@.len(),
            o@ == origin@,
            star@ == "*"@,
            forall|j: int|
                0 <= j < i ==> !(#[trigger] str_views(cors.allow_origins@)[j] == "*"@ || str_views(
                    cors.allow_origins@,
                )[j] == origin@),
        decreases cors.allow_origins.len() - i,
    {
        let a = chars_of(cors.allow_origins[i].as_str());
        assert(str_views(cors.allow_origins@)[i as int] == a@);
        if chars_eq(a.as_slice(), star.as_slice()) || chars_eq(a.as_slice(), o.as_slice()) {
            return true;
        }
        i = i + 1;
    }
    false
}

/// A size multiplier suffix: `K`, `M` or `G` in either case.
pub open spec fn size_suffix(c: char) -> nat {
    if c == 'K' || c == 'k' {
        1024
    } else if c == 'M' || c == 'm' {
        1024 * 1024
    } else if c == 'G' || c == 'g' {
        1024 * 1024 * 1024
    } else {
        1
    }
}

/// What `parse_php_size` returns for `s`: `None` for empty, "0", or
/// unparseable input and on overflow; otherwise the number (optionally
/// followed by a K/M/G suffix) in bytes.
pub open spec fn php_size(s: Seq<char>) -> Option<nat> {
    let t = trim_ws(s);
    if t.len() == 0 || t == "0"@ {
        None
    } else {
        let mult = size_suffix(t.last());
        let num = if mult == 1 { t } else { t.drop_last() };
        match parse_unsigned(trim_ws(num), usize::MAX as nat) {
            Some(n) => if n * mult <= usize::MAX { Some(n * mult) } else { None },
            None => None,
        }
    }
}

/// Parse PHP-style size strings like `"64M"`, `"2G"`, `"128K"`, `"1024"`
/// into bytes.  Returns `None` for `"0"`, empty, or unparseable input
/// (= no limit).
pub fn parse_php_size(s: &str) -> (r: Option<usize>)
    ensures
        match r {
            Some(n) => php_size(s@) == Some(n as nat),
            None => php_size(s@) is None,
        },
{
    let sc = chars_of(s);
    let t = trim_ws_chars(sc.as_slice());
    let zero = chars_of("0");
    if t.len() == 0 || chars_eq(t.as_slice(), zero.as_slice()) {
        return None;
    }
    let last = t[t.len() - 1];
    let mult: usize = if last == 'K' || last == 'k' {
        1024
    } else if last == 'M' || last == 'm' {
        1024 * 1024
    } else if last == 'G' || last == 'g' {
        1024 * 1024 * 1024
    } else {
        1
    };
    assert(mult == size_suffix(t@.last()));
    let num = if mult == 1 {
        sub_chars(t.as_slice(), 0, t.len())
    } else {
        sub_chars(t.as_slice(), 0, t.len() - 1)
    };
    assert(num@ =~= (if mult == 1 { t@ } else { t@.drop_last() }));
    let nt = trim_ws_chars(num.as_slice());
    match parse_unsigned_chars(nt.as_slice(), usize::MAX as u64) {
        Some(n) => {
            let n = n as usize;
            match n.checked_mul(mult) {
                Some(v) => Some(v),
                None => None,
            }
        },
        None => None,
    }
}

/// The value of `name` in the pieces of a query string: the text after
/// the first `=` of the first piece whose key is `name` (`None` when that
/// piece has no `=`, or no piece has that key).
pub open spec fn query_value(pieces: Seq<Seq<char>>, name: Seq<char>) -> Option<Seq<char>>
    decreases pieces.len(),
{
    if pieces.len() == 0 {
        None
    } else {
        let p = pieces[0];
        let key = match split_once_spec(p, '=') {
            Some((k, _)) => k,
            None => p,
        };
        if key == name {
            match split_once_spec(p, '=') {
                Some((_, v)) => Some(v),
                None => None,
            }
        } else {
            query_value(pieces.drop_first(), name)
        }
    }
}

/// Extract the first raw value of `name` from a `k=v&k=v`-style query
/// string.  No percent-decoding is performed.
pub fn query_param(qs: &str, name: &str) -> (r: Option<String>)
    ensures
        match r {
            Some(v) => query_value(split_on(qs@, '&'), name@) == Some(v@),
            None => query_value(split_on(qs@, '&'), name@) is None,
        },
{
    let q = chars_of(qs);
    let n = chars_of(name);
    let pieces = split_chars(q.as_slice(), '&');
    let ghost all = views(pieces@);
    let mut i: usize = 0;
    assert(all.skip(0) =~= all);
    while i < pieces.len()
        invariant
            i <= pieces@.len(),
            all == views(pieces@),
            all == split_on(qs@, '&'),
            n@ == name@,
            query_value(all.skip(i as int), name@) == query_value(all, name@),
        decreases pieces.len() - i,
    {
        let p = &pieces[i];
        assert(all[i as int] == p@);
        assert(all.skip(i as int)[0] == p@);
        assert(all.skip(i as int).drop_first() =~= all.skip(i + 1));
        match split_once_chars(p.as_slice(), '=') {
            Some((k, v)) => {
                if chars_eq(k.as_slice(), n.as_slice()) {
                    return Some(string_of(v.as_slice()));
                }
            },
            None => {
                if chars_eq(p.as_slice(), n.as_slice()) {
                    return None;
                }
            },
        }
        i = i + 1;
    }
    None
}

/// The JSON, HTML and plain-text content types.
pub const JSON_TYPE: &'static str = "application/json";
pub const HTML_TYPE: &'static str = "text/html; charset=utf-8";
pub const TEXT_TYPE: &'static str = "text/plain; charset=utf-8";

/// `<html>`, `<HTML>`, `<!DOCTYPE`, `<!doctype` as bytes.
pub open spec fn html_markers() -> Seq<Seq<u8>> {
    seq![
        seq![60u8, 104u8, 116u8, 109u8, 108u8, 62u8],
        seq![60u8, 72u8, 84u8, 77u8, 76u8, 62u8],
        seq![60u8, 33u8, 68u8, 79u8, 67u8, 84u8, 89u8, 80u8, 69u8],
        seq![60u8, 33u8, 100u8, 111u8, 99u8, 116u8, 121u8, 112u8, 101u8],
    ]
}

/// The content type guessed from the first 256 bytes of PHP output: JSON
/// when they start with `{` or `[`, HTML when they hold an `<html>` or
/// `<!DOCTYPE` tag (in upper or lower case), plain text otherwise.
pub open spec fn detected_type(output: Seq<u8>) -> Seq<char> {
    let prefix = output.take(if output.len() < 256 { output.len() as int } else { 256 });
    if prefix.len() > 0 && (prefix[0] == 123u8 || prefix[0] == 91u8) {
        JSON_TYPE@
    } else if exists|k: int| 0 <= k < 4 && contains(prefix, #[trigger] html_markers()[k]) {
        HTML_TYPE@
    } else {
        TEXT_TYPE@
    }
}

/// The first 256 bytes of PHP output (all of it when shorter).
pub open spec fn head_256(output: Seq<u8>) -> Seq<u8> {
    output.take(if output.len() < 256 { output.len() as int } else { 256 })
}

/// What the detected type is for: output starting with `{` or `[` is
/// JSON; otherwise output whose first 256 bytes hold `<html>`, `<HTML>`,
/// `<!DOCTYPE` or `<!doctype` is HTML, and anything else plain text.
pub proof fn lemma_detected_type(output: Seq<u8>)
    ensures
        ({
            let p = head_256(output);
            let json_start = p.len() > 0 && (p[0] == 0x7Bu8 || p[0] == 0x5Bu8);
            let html = contains(p, seq![0x3Cu8, 0x68u8, 0x74u8, 0x6Du8, 0x6Cu8, 0x3Eu8])
                || contains(p, seq![0x3Cu8, 0x48u8, 0x54u8, 0x4Du8, 0x4Cu8, 0x3Eu8])
                || contains(p, seq![0x3Cu8, 0x21u8, 0x44u8, 0x4Fu8, 0x43u8, 0x54u8, 0x59u8, 0x50u8, 0x45u8])
                || contains(p, seq![0x3Cu8, 0x21u8, 0x64u8, 0x6Fu8, 0x63u8, 0x74u8, 0x79u8, 0x70u8, 0x65u8]);
            &&& json_start ==> detected_type(output) == "application/json"@
            &&& !json_start && html ==> detected_type(output) == "text/html; charset=utf-8"@
            &&& !json_start && !html ==> detected_type(output) == "text/plain; charset=utf-8"@
        }),
{
    let p = head_256(output);
    let ms = html_markers();
    let m0 = seq![0x3Cu8, 0x68u8, 0x74u8, 0x6Du8, 0x6Cu8, 0x3Eu8];
    let m1 = seq![0x3Cu8, 0x48u8, 0x54u8, 0x4Du8, 0x4Cu8, 0x3Eu8];
    let m2 = seq![0x3Cu8, 0x21u8, 0x44u8, 0x4Fu8, 0x43u8, 0x54u8, 0x59u8, 0x50u8, 0x45u8];
    let m3 = seq![0x3Cu8, 0x21u8, 0x64u8, 0x6Fu8, 0x63u8, 0x74u8, 0x79u8, 0x70u8, 0x65u8];
    assert(ms[0] == m0 && ms[1] == m1 && ms[2] == m2 && ms[3] == m3);
    if contains(p, m0) {
        assert(contains(p, ms[0]));
    }
    if contains(p, m1) {
        assert(contains(p, ms[1]));
    }
    if contains(p, m2) {
        assert(contains(p, ms[2]));
    }
    if contains(p, m3) {
        assert(contains(p, ms[3]));
    }
    if exists|k: int| 0 <= k < 4 && contains(p, #[trigger] ms[k]) {
        let k = choose|k: int| 0 <= k < 4 && contains(p, #[trigger] ms[k]);
        assert(k == 0 || k == 1 || k == 2 || k == 3);
    }
}

/// Bytes past the first 256 do not change the detected type.
pub proof fn lemma_detected_type_head_only(output: Seq<u8>, more: Seq<u8>)
    requires
        output.len() >= 256,
    ensures
        detected_type(output + more) == detected_type(output),
{
    assert((output + more).take(256) =~= output.take(256));
}

/// Detect content type from the first 256 bytes of PHP output.
pub fn detect_content_type(output: &[u8]) -> (r: &'static str)
    ensures
        r@ == detected_type(output@),
        head_256(output@).len() > 0 && (head_256(output@)[0] == 0x7Bu8 || head_256(output@)[0] == 0x5Bu8)
            ==> r@ == "application/json"@,
        !(head_256(output@).len() > 0 && (head_256(output@)[0] == 0x7Bu8 || head_256(output@)[0] == 0x5Bu8))
            && contains(head_256(output@), seq![0x3Cu8, 0x68u8, 0x74u8, 0x6Du8, 0x6Cu8, 0x3Eu8])
            ==> r@ == "text/html; charset=utf-8"@,
{
    proof {
        lemma_detected_type(output@);
    }
    let n: usize = if output.len() < 256 { output.len() } else { 256 };
    let mut prefix: Vec<u8> = Vec::new();
    let mut i: usize = 0;
    while i < n
        invariant
            i <= n <= output@.len(),
            prefix@ =~= output@.take(i as int),
        decreases n - i,
    {
        prefix.push(output[i]);
        i = i + 1;
    }
    if prefix.len() > 0 && (prefix[0] == 123u8 || prefix[0] == 91u8) {
        return JSON_TYPE;
    }
    let m0: Vec<u8> = vec![60u8, 104u8, 116u8, 109u8, 108u8, 62u8];
    let m1: Vec<u8> = vec![60u8, 72u8, 84u8, 77u8, 76u8, 62u8];
    let m2: Vec<u8> = vec![60u8, 33u8, 68u8, 79u8, 67u8, 84u8, 89u8, 80u8, 69u8];
    let m3: Vec<u8> = vec![60u8, 33u8, 100u8, 111u8, 99u8, 116u8, 121u8, 112u8, 101u8];
    let c0 = contains_bytes(prefix.as_slice(), m0.as_slice());
    let c1 = contains_bytes(prefix.as_slice(), m1.as_slice());
    let c2 = contains_bytes(prefix.as_slice(), m2.as_slice());
    let c3 = contains_bytes(prefix.as_slice(), m3.as_slice());
    proof {
        let ms = html_markers();
        assert(ms[0] == m0@ && ms[1] == m1@ && ms[2] == m2@ && ms[3] == m3@);
        if exists|k: int| 0 <= k < 4 && contains(prefix@, #[trigger] ms[k]) {
            let k = choose|k: int| 0 <= k < 4 && contains(prefix@, #[trigger] ms[k]);
            assert(k == 0 || k == 1 || k == 2 || k == 3);
        }
    }
    if c0 || c1 || c2 || c3 {
        HTML_TYPE
    } else {
        TEXT_TYPE
    }
}

/// The extension of a path as `mime_type_for_extension` sees it: the text
/// after the last `.`, or the whole path when there is none.
pub open spec fn last_dot_piece(path: Seq<char>) -> Seq<char> {
    split_on(path, '.').last()
}

/// The MIME type of a (lower-case) extension.
pub open spec fn mime_for_ext(e: Seq<char>) -> Seq<char> {
    if e == "css"@ {
        "text/css; charset=utf-8"@
    } else if e == "js"@ || e == "mjs"@ {
        "application/javascript; charset=utf-8"@
    } else if e == "json"@ || e == "map"@ {
        "application/json"@
    } else if e == "html"@ || e == "htm"@ {
        "text/html; charset=utf-8"@
    } else if e == "xml"@ {
        "application/xml"@
    } else if e == "txt"@ {
        "text/plain; charset=utf-8"@
    } else if e == "svg"@ {
        "image/svg+xml"@
    } else if e == "png"@ {
        "image/png"@
    } else if e == "jpg"@ || e == "jpeg"@ {
        "image/jpeg"@
    } else if e == "gif"@ {
        "image/gif"@
    } else if e == "webp"@ {
        "image/webp"@
    } else if e == "ico"@ {
        "image/x-icon"@
    } else if e == "woff"@ {
        "font/woff"@
    } else if e == "woff2"@ {
        "font/woff2"@
    } else if e == "ttf"@ {
        "font/ttf"@
    } else if e == "otf"@ {
        "font/otf"@
    } else if e == "eot"@ {
        "application/vnd.ms-fontobject"@
    } else if e == "webmanifest"@ {
        "application/manifest+json"@
    } else if e == "pdf"@ {
        "application/pdf"@
    } else if e == "zip"@ {
        "application/zip"@
    } else if e == "mp4"@ {
        "video/mp4"@
    } else if e == "mp3"@ {
        "audio/mpeg"@
    } else {
        "application/octet-stream"@
    }
}

/// The MIME table for static files, extension by extension: each listed
/// (lower-case) extension has its type, and any other extension is
/// served as `application/octet-stream`.
pub open spec fn mime_table(e: Seq<char>, m: Seq<char>) -> bool {
    &&& (e == "css"@ ==> m == "text/css; charset=utf-8"@)
    &&& (e == "js"@ ==> m == "application/javascript; charset=utf-8"@)
    &&& (e == "mjs"@ ==> m == "application/javascript; charset=utf-8"@)
    &&& (e == "json"@ ==> m == "application/json"@)
    &&& (e == "map"@ ==> m == "application/json"@)
    &&& (e == "html"@ ==> m == "text/html; charset=utf-8"@)
    &&& (e == "htm"@ ==> m == "text/html; charset=utf-8"@)
    &&& (e == "xml"@ ==> m == "application/xml"@)
    &&& (e == "txt"@ ==> m == "text/plain; charset=utf-8"@)
    &&& (e == "svg"@ ==> m == "image/svg+xml"@)
    &&& (e == "png"@ ==> m == "image/png"@)
    &&& (e == "jpg"@ ==> m == "image/jpeg"@)
    &&& (e == "jpeg"@ ==> m == "image/jpeg"@)
    &&& (e == "gif"@ ==> m == "image/gif"@)
    &&& (e == "webp"@ ==> m == "image/webp"@)
    &&& (e == "ico"@ ==> m == "image/x-icon"@)
    &&& (e == "woff"@ ==> m == "font/woff"@)
    &&& (e == "woff2"@ ==> m == "font/woff2"@)
    &&& (e == "ttf"@ ==> m == "font/ttf"@)
    &&& (e == "otf"@ ==> m == "font/otf"@)
    &&& (e == "eot"@ ==> m == "application/vnd.ms-fontobject"@)
    &&& (e == "webmanifest"@ ==> m == "application/manifest+json"@)
    &&& (e == "pdf"@ ==> m == "application/pdf"@)
    &&& (e == "zip"@ ==> m == "application/zip"@)
    &&& (e == "mp4"@ ==> m == "video/mp4"@)
    &&& (e == "mp3"@ ==> m == "audio/mpeg"@)
    &&& (e != "css"@ && e != "js"@ && e != "mjs"@ && e != "json"@ && e != "map"@ && e != "html"@ && e != "htm"@ && e != "xml"@ && e != "txt"@ && e != "svg"@ && e != "png"@ && e != "jpg"@ && e != "jpeg"@ && e != "gif"@ && e != "webp"@ && e != "ico"@ && e != "woff"@ && e != "woff2"@ && e != "ttf"@ && e != "otf"@ && e != "eot"@ && e != "webmanifest"@ && e != "pdf"@ && e != "zip"@ && e != "mp4"@ && e != "mp3"@) ==> m == "application/octet-stream"@
}

/// The MIME type of an extension follows the table.
pub proof fn lemma_mime_table(e: Seq<char>)
    ensures
        mime_table(e, mime_for_ext(e)),
{
    assert(e == "css"@ ==> mime_for_ext(e) == "text/css; charset=utf-8"@) by {
        reveal_strlit("css");
    }
    assert(e == "js"@ ==> mime_for_ext(e) == "application/javascript; charset=utf-8"@) by {
        reveal_strlit("js");
        reveal_strlit("css");
        assert("js"@.len() != "css"@.len());
        assert("js"@ != "css"@);
    }
    assert(e == "mjs"@ ==> mime_for_ext(e) == "application/javascript; charset=utf-8"@) by {
        reveal_strlit("mjs");
        reveal_strlit("css");
        assert("mjs"@[0] != "css"@[0]);
        assert("mjs"@ != "css"@);
        reveal_strlit("js");
        assert("mjs"@.len() != "js"@.len());
        assert("mjs"@ != "js"@);
    }
    assert(e == "json"@ ==> mime_for_ext(e) == "application/json"@) by {
        reveal_strlit("json");
        reveal_strlit("css");
        assert("json"@.len() != "css"@.len());
        assert("json"@ != "css"@);
        reveal_strlit("js");
        assert("json"@.len() != "js"@.len());
        assert("json"@ != "js"@);
        reveal_strlit("mjs");
        assert("json"@.len() != "mjs"@.len());
        assert("json"@ != "mjs"@);
    }
    assert(e == "map"@ ==> mime_for_ext(e) == "application/json"@) by {
        reveal_strlit("map");
        reveal_strlit("css");
        assert("map"@[0] != "css"@[0]);
        assert("map"@ != "css"@);
        reveal_strlit("js");
        assert("map"@.len() != "js"@.len());
        assert("map"@ != "js"@);
        reveal_strlit("mjs");
        assert("map"@[1] != "mjs"@[1]);
        assert("map"@ != "mjs"@);
        reveal_strlit("json");
        assert("map"@.len() != "json"@.len());
        assert("map"@ != "json"@);
    }
    assert(e == "html"@ ==> mime_for_ext(e) == "text/html; charset=utf-8"@) by {
        reveal_strlit("html");
        reveal_strlit("css");
        assert("html"@.len() != "css"@.len());
        assert("html"@ != "css"@);
        reveal_strlit("js");
        assert("html"@.len() != "js"@.len());
        assert("html"@ != "js"@);
        reveal_strlit("mjs");
        assert("html"@.len() != "mjs"@.len());
        assert("html"@ != "mjs"@);
        reveal_strlit("json");
        assert("html"@[0] != "json"@[0]);
        assert("html"@ != "json"@);
        reveal_strlit("map");
        assert("html"@.len() != "map"@.len());
        assert("html"@ != "map"@);
    }
    assert(e == "htm"@ ==> mime_for_ext(e) == "text/html; charset=utf-8"@) by {
        reveal_strlit("htm");
        reveal_strlit("css");
        assert("htm"@[0] != "css"@[0]);
        assert("htm"@ != "css"@);
        reveal_strlit("js");
        assert("htm"@.len() != "js"@.len());
        assert("htm"@ != "js"@);
        reveal_strlit("mjs");
        assert("htm"@[0] != "mjs"@[0]);
        assert("htm"@ != "mjs"@);
        reveal_strlit("json");
        assert("htm"@.len() != "json"@.len());
        assert("htm"@ != "json"@);
        reveal_strlit("map");
        assert("htm"@[0] != "map"@[0]);
        assert("htm"@ != "map"@);
        reveal_strlit("html");
        assert("htm"@.len() != "html"@.len());
        assert("htm"@ != "html"@);
    }
    assert(e == "xml"@ ==> mime_for_ext(e) == "application/xml"@) by {
        reveal_strlit("xml");
        reveal_strlit("css");
        assert("xml"@[0] != "css"@[0]);
        assert("xml"@ != "css"@);
        reveal_strlit("js");
        assert("xml"@.len() != "js"@.len());
        assert("xml"@ != "js"@);
        reveal_strlit("mjs");
        assert("xml"@[0] != "mjs"@[0]);
        assert("xml"@ != "mjs"@);
        reveal_strlit("json");
        assert("xml"@.len() != "json"@.len());
        assert("xml"@ != "json"@);
        reveal_strlit("map");
        assert("xml"@[0] != "map"@[0]);
        assert("xml"@ != "map"@);
        reveal_strlit("html");
        assert("xml"@.len() != "html"@.len());
        assert("xml"@ != "html"@);
        reveal_strlit("htm");
        assert("xml"@[0] != "htm"@[0]);
        assert("xml"@ != "htm"@);
    }
    assert(e == "txt"@ ==> mime_for_ext(e) == "text/plain; charset=utf-8"@) by {
        reveal_strlit("txt");
        reveal_strlit("css");
        assert("txt"@[0] != "css"@[0]);
        assert("txt"@ != "css"@);
        reveal_strlit("js");
        assert("txt"@.len() != "js"@.len());
        assert("txt"@ != "js"@);
        reveal_strlit("mjs");
        assert("txt"@[0] != "mjs"@[0]);
        assert("txt"@ != "mjs"@);
        reveal_strlit("json");
        assert("txt"@.len() != "json"@.len());
        assert("txt"@ != "json"@);
        reveal_strlit("map");
        assert("txt"@[0] != "map"@[0]);
        assert("txt"@ != "map"@);
        reveal_strlit("html");
        assert("txt"@.len() != "html"@.len());
        assert("txt"@ != "html"@);
        reveal_strlit("htm");
        assert("txt"@[0] != "htm"@[0]);
        assert("txt"@ != "htm"@);
        reveal_strlit("xml");
        assert("txt"@[0] != "xml"@[0]);
        assert("txt"@ != "xml"@);
    }
    assert(e == "svg"@ ==> mime_for_ext(e) == "image/svg+xml"@) by {
        reveal_strlit("svg");
        reveal_strlit("css");
        assert("svg"@[0] != "css"@[0]);
        assert("svg"@ != "css"@);
        reveal_strlit("js");
        assert("svg"@.len() != "js"@.len());
        assert("svg"@ != "js"@);
        reveal_strlit("mjs");
        assert("svg"@[0] != "mjs"@[0]);
        assert("svg"@ != "mjs"@);
        reveal_strlit("json");
        assert("svg"@.len() != "json"@.len());
        assert("svg"@ != "json"@);
        reveal_strlit("map");
        assert("svg"@[0] != "map"@[0]);
        assert("svg"@ != "map"@);
        reveal_strlit("html");
        assert("svg"@.len() != "html"@.len());
        assert("svg"@ != "html"@);
        reveal_strlit("htm");
        assert("svg"@[0] != "htm"@[0]);
        assert("svg"@ != "htm"@);
        reveal_strlit("xml");
        assert("svg"@[0] != "xml"@[0]);
        assert("svg"@ != "xml"@);
        reveal_strlit("txt");
        assert("svg"@[0] != "txt"@[0]);
        assert("svg"@ != "txt"@);
    }
    assert(e == "png"@ ==> mime_for_ext(e) == "image/png"@) by {
        reveal_strlit("png");
        reveal_strlit("css");
        assert("png"@[0] != "css"@[0]);
        assert("png"@ != "css"@);
        reveal_strlit("js");
        assert("png"@.len() != "js"@.len());
        assert("png"@ != "js"@);
        reveal_strlit("mjs");
        assert("png"@[0] != "mjs"@[0]);
        assert("png"@ != "mjs"@);
        reveal_strlit("json");
        assert("png"@.len() != "json"@.len());
        assert("png"@ != "json"@);
        reveal_strlit("map");
        assert("png"@[0] != "map"@[0]);
        assert("png"@ != "map"@);
        reveal_strlit("html");
        assert("png"@.len() != "html"@.len());
        assert("png"@ != "html"@);
        reveal_strlit("htm");
        assert("png"@[0] != "htm"@[0]);
        assert("png"@ != "htm"@);
        reveal_strlit("xml");
        assert("png"@[0] != "xml"@[0]);
        assert("png"@ != "xml"@);
        reveal_strlit("txt");
        assert("png"@[0] != "txt"@[0]);
        assert("png"@ != "txt"@);
        reveal_strlit("svg");
        assert("png"@[0] != "svg"@[0]);
        assert("png"@ != "svg"@);
    }
    assert(e == "jpg"@ ==> mime_for_ext(e) == "image/jpeg"@) by {
        reveal_strlit("jpg");
        reveal_strlit("css");
        assert("jpg"@[0] != "css"@[0]);
        assert("jpg"@ != "css"@);
        reveal_strlit("js");
        assert("jpg"@.len() != "js"@.len());
        assert("jpg"@ != "js"@);
        reveal_strlit("mjs");
        assert("jpg"@[0] != "mjs"@[0]);
        assert("jpg"@ != "mjs"@);
        reveal_strlit("json");
        assert("jpg"@.len() != "json"@.len());
        assert("jpg"@ != "json"@);
        reveal_strlit("map");
        assert("jpg"@[0] != "map"@[0]);
        assert("jpg"@ != "map"@);
        reveal_strlit("html");
        assert("jpg"@.len() != "html"@.len());
        assert("jpg"@ != "html"@);
        reveal_strlit("htm");
        assert("jpg"@[0] != "htm"@[0]);
        assert("jpg"@ != "htm"@);
        reveal_strlit("xml");
        assert("jpg"@[0] != "xml"@[0]);
        assert("jpg"@ != "xml"@);
        reveal_strlit("txt");
        assert("jpg"@[0] != "txt"@[0]);
        assert("jpg"@ != "txt"@);
        reveal_strlit("svg");
        assert("jpg"@[0] != "svg"@[0]);
        assert("jpg"@ != "svg"@);
        reveal_strlit("png");
        assert("jpg"@[0] != "png"@[0]);
        assert("jpg"@ != "png"@);
    }
    assert(e == "jpeg"@ ==> mime_for_ext(e) == "image/jpeg"@) by {
        reveal_strlit("jpeg");
        reveal_strlit("css");
        assert("jpeg"@.len() != "css"@.len());
        assert("jpeg"@ != "css"@);
        reveal_strlit("js");
        assert("jpeg"@.len() != "js"@.len());
        assert("jpeg"@ != "js"@);
        reveal_strlit("mjs");
        assert("jpeg"@.len() != "mjs"@.len());
        assert("jpeg"@ != "mjs"@);
        reveal_strlit("json");
        assert("jpeg"@[1] != "json"@[1]);
        assert("jpeg"@ != "json"@);
        reveal_strlit("map");
        assert("jpeg"@.len() != "map"@.len());
        assert("jpeg"@ != "map"@);
        reveal_strlit("html");
        assert("jpeg"@[0] != "html"@[0]);
        assert("jpeg"@ != "html"@);
        reveal_strlit("htm");
        assert("jpeg"@.len() != "htm"@.len());
        assert("jpeg"@ != "htm"@);
        reveal_strlit("xml");
        assert("jpeg"@.len() != "xml"@.len());
        assert("jpeg"@ != "xml"@);
        reveal_strlit("txt");
        assert("jpeg"@.len() != "txt"@.len());
        assert("jpeg"@ != "txt"@);
        reveal_strlit("svg");
        assert("jpeg"@.len() != "svg"@.len());
        assert("jpeg"@ != "svg"@);
        reveal_strlit("png");
        assert("jpeg"@.len() != "png"@.len());
        assert("jpeg"@ != "png"@);
        reveal_strlit("jpg");
        assert("jpeg"@.len() != "jpg"@.len());
        assert("jpeg"@ != "jpg"@);
    }
    assert(e == "gif"@ ==> mime_for_ext(e) == "image/gif"@) by {
        reveal_strlit("gif");
        reveal_strlit("css");
        assert("gif"@[0] != "css"@[0]);
        assert("gif"@ != "css"@);
        reveal_strlit("js");
        assert("gif"@.len() != "js"@.len());
        assert("gif"@ != "js"@);
        reveal_strlit("mjs");
        assert("gif"@[0] != "mjs"@[0]);
        assert("gif"@ != "mjs"@);
        reveal_strlit("json");
        assert("gif"@.len() != "json"@.len());
        assert("gif"@ != "json"@);
        reveal_strlit("map");
        assert("gif"@[0] != "map"@[0]);
        assert("gif"@ != "map"@);
        reveal_strlit("html");
        assert("gif"@.len() != "html"@.len());
        assert("gif"@ != "html"@);
        reveal_strlit("htm");
        assert("gif"@[0] != "htm"@[0]);
        assert("gif"@ != "htm"@);
        reveal_strlit("xml");
        assert("gif"@[0] != "xml"@[0]);
        assert("gif"@ != "xml"@);
        reveal_strlit("txt");
        assert("gif"@[0] != "txt"@[0]);
        assert("gif"@ != "txt"@);
        reveal_strlit("svg");
        assert("gif"@[0] != "svg"@[0]);
        assert("gif"@ != "svg"@);
        reveal_strlit("png");
        assert("gif"@[0] != "png"@[0]);
        assert("gif"@ != "png"@);
        reveal_strlit("jpg");
        assert("gif"@[0] != "jpg"@[0]);
        assert("gif"@ != "jpg"@);
        reveal_strlit("jpeg");
        assert("gif"@.len() != "jpeg"@.len());
        assert("gif"@ != "jpeg"@);
    }
    assert(e == "webp"@ ==> mime_for_ext(e) == "image/webp"@) by {
        reveal_strlit("webp");
        reveal_strlit("css");
        assert("webp"@.len() != "css"@.len());
        assert("webp"@ != "css"@);
        reveal_strlit("js");
        assert("webp"@.len() != "js"@.len());
        assert("webp"@ != "js"@);
        reveal_strlit("mjs");
        assert("webp"@.len() != "mjs"@.len());
        assert("webp"@ != "mjs"@);
        reveal_strlit("json");
        assert("webp"@[0] != "json"@[0]);
        assert("webp"@ != "json"@);
        reveal_strlit("map");
        assert("webp"@.len() != "map"@.len());
        assert("webp"@ != "map"@);
        reveal_strlit("html");
        assert("webp"@[0] != "html"@[0]);
        assert("webp"@ != "html"@);
        reveal_strlit("htm");
        assert("webp"@.len() != "htm"@.len());
        assert("webp"@ != "htm"@);
        reveal_strlit("xml");
        assert("webp"@.len() != "xml"@.len());
        assert("webp"@ != "xml"@);
        reveal_strlit("txt");
        assert("webp"@.len() != "txt"@.len());
        assert("webp"@ != "txt"@);
        reveal_strlit("svg");
        assert("webp"@.len() != "svg"@.len());
        assert("webp"@ != "svg"@);
        reveal_strlit("png");
        assert("webp"@.len() != "png"@.len());
        assert("webp"@ != "png"@);
        reveal_strlit("jpg");
        assert("webp"@.len() != "jpg"@.len());
        assert("webp"@ != "jpg"@);
        reveal_strlit("jpeg");
        assert("webp"@[0] != "jpeg"@[0]);
        assert("webp"@ != "jpeg"@);
        reveal_strlit("gif");
        assert("webp"@.len() != "gif"@.len());
        assert("webp"@ != "gif"@);
    }
    assert(e == "ico"@ ==> mime_for_ext(e) == "image/x-icon"@) by {
        reveal_strlit("ico");
        reveal_strlit("css");
        assert("ico"@[0] != "css"@[0]);
        assert("ico"@ != "css"@);
        reveal_strlit("js");
        assert("ico"@.len() != "js"@.len());
        assert("ico"@ != "js"@);
        reveal_strlit("mjs");
        assert("ico"@[0] != "mjs"@[0]);
        assert("ico"@ != "mjs"@);
        reveal_strlit("json");
        assert("ico"@.len() != "json"@.len());
        assert("ico"@ != "json"@);
        reveal_strlit("map");
        assert("ico"@[0] != "map"@[0]);
        assert("ico"@ != "map"@);
        reveal_strlit("html");
        assert("ico"@.len() != "html"@.len());
        assert("ico"@ != "html"@);
        reveal_strlit("htm");
        assert("ico"@[0] != "htm"@[0]);
        assert("ico"@ != "htm"@);
        reveal_strlit("xml");
        assert("ico"@[0] != "xml"@[0]);
        assert("ico"@ != "xml"@);
        reveal_strlit("txt");
        assert("ico"@[0] != "txt"@[0]);
        assert("ico"@ != "txt"@);
        reveal_strlit("svg");
        assert("ico"@[0] != "svg"@[0]);
        assert("ico"@ != "svg"@);
        reveal_strlit("png");
        assert("ico"@[0] != "png"@[0]);
        assert("ico"@ != "png"@);
        reveal_strlit("jpg");
        assert("ico"@[0] != "jpg"@[0]);
        assert("ico"@ != "jpg"@);
        reveal_strlit("jpeg");
        assert("ico"@.len() != "jpeg"@.len());
        assert("ico"@ != "jpeg"@);
        reveal_strlit("gif");
        assert("ico"@[0] != "gif"@[0]);
        assert("ico"@ != "gif"@);
        reveal_strlit("webp");
        assert("ico"@.len() != "webp"@.len());
        assert("ico"@ != "webp"@);
    }
    assert(e == "woff"@ ==> mime_for_ext(e) == "font/woff"@) by {
        reveal_strlit("woff");
        reveal_strlit("css");
        assert("woff"@.len() != "css"@.len());
        assert("woff"@ != "css"@);
        reveal_strlit("js");
        assert("woff"@.len() != "js"@.len());
        assert("woff"@ != "js"@);
        reveal_strlit("mjs");
        assert("woff"@.len() != "mjs"@.len());
        assert("woff"@ != "mjs"@);
        reveal_strlit("json");
        assert("woff"@[0] != "json"@[0]);
        assert("woff"@ != "json"@);
        reveal_strlit("map");
        assert("woff"@.len() != "map"@.len());
        assert("woff"@ != "map"@);
        reveal_strlit("html");
        assert("woff"@[0] != "html"@[0]);
        assert("woff"@ != "html"@);
        reveal_strlit("htm");
        assert("woff"@.len() != "htm"@.len());
        assert("woff"@ != "htm"@);
        reveal_strlit("xml");
        assert("woff"@.len() != "xml"@.len());
        assert("woff"@ != "xml"@);
        reveal_strlit("txt");
        assert("woff"@.len() != "txt"@.len());
        assert("woff"@ != "txt"@);
        reveal_strlit("svg");
        assert("woff"@.len() != "svg"@.len());
        assert("woff"@ != "svg"@);
        reveal_strlit("png");
        assert("woff"@.len() != "png"@.len());
        assert("woff"@ != "png"@);
        reveal_strlit("jpg");
        assert("woff"@.len() != "jpg"@.len());
        assert("woff"@ != "jpg"@);
        reveal_strlit("jpeg");
        assert("woff"@[0] != "jpeg"@[0]);
        assert("woff"@ != "jpeg"@);
        reveal_strlit("gif");
        assert("woff"@.len() != "gif"@.len());
        assert("woff"@ != "gif"@);
        reveal_strlit("webp");
        assert("woff"@[1] != "webp"@[1]);
        assert("woff"@ != "webp"@);
        reveal_strlit("ico");
        assert("woff"@.len() != "ico"@.len());
        assert("woff"@ != "ico"@);
    }
    assert(e == "woff2"@ ==> mime_for_ext(e) == "font/woff2"@) by {
        reveal_strlit("woff2");
        reveal_strlit("css");
        assert("woff2"@.len() != "css"@.len());
        assert("woff2"@ != "css"@);
        reveal_strlit("js");
        assert("woff2"@.len() != "js"@.len());
        assert("woff2"@ != "js"@);
        reveal_strlit("mjs");
        assert("woff2"@.len() != "mjs"@.len());
        assert("woff2"@ != "mjs"@);
        reveal_strlit("json");
        assert("woff2"@.len() != "json"@.len());
        assert("woff2"@ != "json"@);
        reveal_strlit("map");
        assert("woff2"@.len() != "map"@.len());
        assert("woff2"@ != "map"@);
        reveal_strlit("html");
        assert("woff2"@.len() != "html"@.len());
        assert("woff2"@ != "html"@);
        reveal_strlit("htm");
        assert("woff2"@.len() != "htm"@.len());
        assert("woff2"@ != "htm"@);
        reveal_strlit("xml");
        assert("woff2"@.len() != "xml"@.len());
        assert("woff2"@ != "xml"@);
        reveal_strlit("txt");
        assert("woff2"@.len() != "txt"@.len());
        assert("woff2"@ != "txt"@);
        reveal_strlit("svg");
        assert("woff2"@.len() != "svg"@.len());
        assert("woff2"@ != "svg"@);
        reveal_strlit("png");
        assert("woff2"@.len() != "png"@.len());
        assert("woff2"@ != "png"@);
        reveal_strlit("jpg");
        assert("woff2"@.len() != "jpg"@.len());
        assert("woff2"@ != "jpg"@);
        reveal_strlit("jpeg");
        assert("woff2"@.len() != "jpeg"@.len());
        assert("woff2"@ != "jpeg"@);
        reveal_strlit("gif");
        assert("woff2"@.len() != "gif"@.len());
        assert("woff2"@ != "gif"@);
        reveal_strlit("webp");
        assert("woff2"@.len() != "webp"@.len());
        assert("woff2"@ != "webp"@);
        reveal_strlit("ico");
        assert("woff2"@.len() != "ico"@.len());
        assert("woff2"@ != "ico"@);
        reveal_strlit("woff");
        assert("woff2"@.len() != "woff"@.len());
        assert("woff2"@ != "woff"@);
    }
    assert(e == "ttf"@ ==> mime_for_ext(e) == "font/ttf"@) by {
        reveal_strlit("ttf");
        reveal_strlit("css");
        assert("ttf"@[0] != "css"@[0]);
        assert("ttf"@ != "css"@);
        reveal_strlit("js");
        assert("ttf"@.len() != "js"@.len());
        assert("ttf"@ != "js"@);
        reveal_strlit("mjs");
        assert("ttf"@[0] != "mjs"@[0]);
        assert("ttf"@ != "mjs"@);
        reveal_strlit("json");
        assert("ttf"@.len() != "json"@.len());
        assert("ttf"@ != "json"@);
        reveal_strlit("map");
        assert("ttf"@[0] != "map"@[0]);
        assert("ttf"@ != "map"@);
        reveal_strlit("html");
        assert("ttf"@.len() != "html"@.len());
        assert("ttf"@ != "html"@);
        reveal_strlit("htm");
        assert("ttf"@[0] != "htm"@[0]);
        assert("ttf"@ != "htm"@);
        reveal_strlit("xml");
        assert("ttf"@[0] != "xml"@[0]);
        assert("ttf"@ != "xml"@);
        reveal_strlit("txt");
        assert("ttf"@[1] != "txt"@[1]);
        assert("ttf"@ != "txt"@);
        reveal_strlit("svg");
        assert("ttf"@[0] != "svg"@[0]);
        assert("ttf"@ != "svg"@);
        reveal_strlit("png");
        assert("ttf"@[0] != "png"@[0]);
        assert("ttf"@ != "png"@);
        reveal_strlit("jpg");
        assert("ttf"@[0] != "jpg"@[0]);
        assert("ttf"@ != "jpg"@);
        reveal_strlit("jpeg");
        assert("ttf"@.len() != "jpeg"@.len());
        assert("ttf"@ != "jpeg"@);
        reveal_strlit("gif");
        assert("ttf"@[0] != "gif"@[0]);
        assert("ttf"@ != "gif"@);
        reveal_strlit("webp");
        assert("ttf"@.len() != "webp"@.len());
        assert("ttf"@ != "webp"@);
        reveal_strlit("ico");
        assert("ttf"@[0] != "ico"@[0]);
        assert("ttf"@ != "ico"@);
        reveal_strlit("woff");
        assert("ttf"@.len() != "woff"@.len());
        assert("ttf"@ != "woff"@);
        reveal_strlit("woff2");
        assert("ttf"@.len() != "woff2"@.len());
        assert("ttf"@ != "woff2"@);
    }
    assert(e == "otf"@ ==> mime_for_ext(e) == "font/otf"@) by {
        reveal_strlit("otf");
        reveal_strlit("css");
        assert("otf"@[0] != "css"@[0]);
        assert("otf"@ != "css"@);
        reveal_strlit("js");
        assert("otf"@.len() != "js"@.len());
        assert("otf"@ != "js"@);
        reveal_strlit("mjs");
        assert("otf"@[0] != "mjs"@[0]);
        assert("otf"@ != "mjs"@);
        reveal_strlit("json");
        assert("otf"@.len() != "json"@.len());
        assert("otf"@ != "json"@);
        reveal_strlit("map");
        assert("otf"@[0] != "map"@[0]);
        assert("otf"@ != "map"@);
        reveal_strlit("html");
        assert("otf"@.len() != "html"@.len());
        assert("otf"@ != "html"@);
        reveal_strlit("htm");
        assert("otf"@[0] != "htm"@[0]);
        assert("otf"@ != "htm"@);
        reveal_strlit("xml");
        assert("otf"@[0] != "xml"@[0]);
        assert("otf"@ != "xml"@);
        reveal_strlit("txt");
        assert("otf"@[0] != "txt"@[0]);
        assert("otf"@ != "txt"@);
        reveal_strlit("svg");
        assert("otf"@[0] != "svg"@[0]);
        assert("otf"@ != "svg"@);
        reveal_strlit("png");
        assert("otf"@[0] != "png"@[0]);
        assert("otf"@ != "png"@);
        reveal_strlit("jpg");
        assert("otf"@[0] != "jpg"@[0]);
        assert("otf"@ != "jpg"@);
        reveal_strlit("jpeg");
        assert("otf"@.len() != "jpeg"@.len());
        assert("otf"@ != "jpeg"@);
        reveal_strlit("gif");
        assert("otf"@[0] != "gif"@[0]);
        assert("otf"@ != "gif"@);
        reveal_strlit("webp");
        assert("otf"@.len() != "webp"@.len());
        assert("otf"@ != "webp"@);
        reveal_strlit("ico");
        assert("otf"@[0] != "ico"@[0]);
        assert("otf"@ != "ico"@);
        reveal_strlit("woff");
        assert("otf"@.len() != "woff"@.len());
        assert("otf"@ != "woff"@);
        reveal_strlit("woff2");
        assert("otf"@.len() != "woff2"@.len());
        assert("otf"@ != "woff2"@);
        reveal_strlit("ttf");
        assert("otf"@[0] != "ttf"@[0]);
        assert("otf"@ != "ttf"@);
    }
    assert(e == "eot"@ ==> mime_for_ext(e) == "application/vnd.ms-fontobject"@) by {
        reveal_strlit("eot");
        reveal_strlit("css");
        assert("eot"@[0] != "css"@[0]);
        assert("eot"@ != "css"@);
        reveal_strlit("js");
        assert("eot"@.len() != "js"@.len());
        assert("eot"@ != "js"@);
        reveal_strlit("mjs");
        assert("eot"@[0] != "mjs"@[0]);
        assert("eot"@ != "mjs"@);
        reveal_strlit("json");
        assert("eot"@.len() != "json"@.len());
        assert("eot"@ != "json"@);
        reveal_strlit("map");
        assert("eot"@[0] != "map"@[0]);
        assert("eot"@ != "map"@);
        reveal_strlit("html");
        assert("eot"@.len() != "html"@.len());
        assert("eot"@ != "html"@);
        reveal_strlit("htm");
        assert("eot"@[0] != "htm"@[0]);
        assert("eot"@ != "htm"@);
        reveal_strlit("xml");
        assert("eot"@[0] != "xml"@[0]);
        assert("eot"@ != "xml"@);
        reveal_strlit("txt");
        assert("eot"@[0] != "txt"@[0]);
        assert("eot"@ != "txt"@);
        reveal_strlit("svg");
        assert("eot"@[0] != "svg"@[0]);
        assert("eot"@ != "svg"@);
        reveal_strlit("png");
        assert("eot"@[0] != "png"@[0]);
        assert("eot"@ != "png"@);
        reveal_strlit("jpg");
        assert("eot"@[0] != "jpg"@[0]);
        assert("eot"@ != "jpg"@);
        reveal_strlit("jpeg");
        assert("eot"@.len() != "jpeg"@.len());
        assert("eot"@ != "jpeg"@);
        reveal_strlit("gif");
        assert("eot"@[0] != "gif"@[0]);
        assert("eot"@ != "gif"@);
        reveal_strlit("webp");
        assert("eot"@.len() != "webp"@.len());
        assert("eot"@ != "webp"@);
        reveal_strlit("ico");
        assert("eot"@[0] != "ico"@[0]);
        assert("eot"@ != "ico"@);
        reveal_strlit("woff");
        assert("eot"@.len() != "woff"@.len());
        assert("eot"@ != "woff"@);
        reveal_strlit("woff2");
        assert("eot"@.len() != "woff2"@.len());
        assert("eot"@ != "woff2"@);
        reveal_strlit("ttf");
        assert("eot"@[0] != "ttf"@[0]);
        assert("eot"@ != "ttf"@);
        reveal_strlit("otf");
        assert("eot"@[0] != "otf"@[0]);
        assert("eot"@ != "otf"@);
    }
    assert(e == "webmanifest"@ ==> mime_for_ext(e) == "application/manifest+json"@) by {
        reveal_strlit("webmanifest");
        reveal_strlit("css");
        assert("webmanifest"@.len() != "css"@.len());
        assert("webmanifest"@ != "css"@);
        reveal_strlit("js");
        assert("webmanifest"@.len() != "js"@.len());
        assert("webmanifest"@ != "js"@);
        reveal_strlit("mjs");
        assert("webmanifest"@.len() != "mjs"@.len());
        assert("webmanifest"@ != "mjs"@);
        reveal_strlit("json");
        assert("webmanifest"@.len() != "json"@.len());
        assert("webmanifest"@ != "json"@);
        reveal_strlit("map");
        assert("webmanifest"@.len() != "map"@.len());
        assert("webmanifest"@ != "map"@);
        reveal_strlit("html");
        assert("webmanifest"@.len() != "html"@.len());
        assert("webmanifest"@ != "html"@);
        reveal_strlit("htm");
        assert("webmanifest"@.len() != "htm"@.len());
        assert("webmanifest"@ != "htm"@);
        reveal_strlit("xml");
        assert("webmanifest"@.len() != "xml"@.len());
        assert("webmanifest"@ != "xml"@);
        reveal_strlit("txt");
        assert("webmanifest"@.len() != "txt"@.len());
        assert("webmanifest"@ != "txt"@);
        reveal_strlit("svg");
        assert("webmanifest"@.len() != "svg"@.len());
        assert("webmanifest"@ != "svg"@);
        reveal_strlit("png");
        assert("webmanifest"@.len() != "png"@.len());
        assert("webmanifest"@ != "png"@);
        reveal_strlit("jpg");
        assert("webmanifest"@.len() != "jpg"@.len());
        assert("webmanifest"@ != "jpg"@);
        reveal_strlit("jpeg");
        assert("webmanifest"@.len() != "jpeg"@.len());
        assert("webmanifest"@ != "jpeg"@);
        reveal_strlit("gif");
        assert("webmanifest"@.len() != "gif"@.len());
        assert("webmanifest"@ != "gif"@);
        reveal_strlit("webp");
        assert("webmanifest"@.len() != "webp"@.len());
        assert("webmanifest"@ != "webp"@);
        reveal_strlit("ico");
        assert("webmanifest"@.len() != "ico"@.len());
        assert("webmanifest"@ != "ico"@);
        reveal_strlit("woff");
        assert("webmanifest"@.len() != "woff"@.len());
        assert("webmanifest"@ != "woff"@);
        reveal_strlit("woff2");
        assert("webmanifest"@.len() != "woff2"@.len());
        assert("webmanifest"@ != "woff2"@);
        reveal_strlit("ttf");
        assert("webmanifest"@.len() != "ttf"@.len());
        assert("webmanifest"@ != "ttf"@);
        reveal_strlit("otf");
        assert("webmanifest"@.len() != "otf"@.len());
        assert("webmanifest"@ != "otf"@);
        reveal_strlit("eot");
        assert("webmanifest"@.len() != "eot"@.len());
        assert("webmanifest"@ != "eot"@);
    }
    assert(e == "pdf"@ ==> mime_for_ext(e) == "application/pdf"@) by {
        reveal_strlit("pdf");
        reveal_strlit("css");
        assert("pdf"@[0] != "css"@[0]);
        assert("pdf"@ != "css"@);
        reveal_strlit("js");
        assert("pdf"@.len() != "js"@.len());
        assert("pdf"@ != "js"@);
        reveal_strlit("mjs");
        assert("pdf"@[0] != "mjs"@[0]);
        assert("pdf"@ != "mjs"@);
        reveal_strlit("json");
        assert("pdf"@.len() != "json"@.len());
        assert("pdf"@ != "json"@);
        reveal_strlit("map");
        assert("pdf"@[0] != "map"@[0]);
        assert("pdf"@ != "map"@);
        reveal_strlit("html");
        assert("pdf"@.len() != "html"@.len());
        assert("pdf"@ != "html"@);
        reveal_strlit("htm");
        assert("pdf"@[0] != "htm"@[0]);
        assert("pdf"@ != "htm"@);
        reveal_strlit("xml");
        assert("pdf"@[0] != "xml"@[0]);
        assert("pdf"@ != "xml"@);
        reveal_strlit("txt");
        assert("pdf"@[0] != "txt"@[0]);
        assert("pdf"@ != "txt"@);
        reveal_strlit("svg");
        assert("pdf"@[0] != "svg"@[0]);
        assert("pdf"@ != "svg"@);
        reveal_strlit("png");
        assert("pdf"@[1] != "png"@[1]);
        assert("pdf"@ != "png"@);
        reveal_strlit("jpg");
        assert("pdf"@[0] != "jpg"@[0]);
        assert("pdf"@ != "jpg"@);
        reveal_strlit("jpeg");
        assert("pdf"@.len() != "jpeg"@.len());
        assert("pdf"@ != "jpeg"@);
        reveal_strlit("gif");
        assert("pdf"@[0] != "gif"@[0]);
        assert("pdf"@ != "gif"@);
        reveal_strlit("webp");
        assert("pdf"@.len() != "webp"@.len());
        assert("pdf"@ != "webp"@);
        reveal_strlit("ico");
        assert("pdf"@[0] != "ico"@[0]);
        assert("pdf"@ != "ico"@);
        reveal_strlit("woff");
        assert("pdf"@.len() != "woff"@.len());
        assert("pdf"@ != "woff"@);
        reveal_strlit("woff2");
        assert("pdf"@.len() != "woff2"@.len());
        assert("pdf"@ != "woff2"@);
        reveal_strlit("ttf");
        assert("pdf"@[0] != "ttf"@[0]);
        assert("pdf"@ != "ttf"@);
        reveal_strlit("otf");
        assert("pdf"@[0] != "otf"@[0]);
        assert("pdf"@ != "otf"@);
        reveal_strlit("eot");
        assert("pdf"@[0] != "eot"@[0]);
        assert("pdf"@ != "eot"@);
        reveal_strlit("webmanifest");
        assert("pdf"@.len() != "webmanifest"@.len());
        assert("pdf"@ != "webmanifest"@);
    }
    assert(e == "zip"@ ==> mime_for_ext(e) == "application/zip"@) by {
        reveal_strlit("zip");
        reveal_strlit("css");
        assert("zip"@[0] != "css"@[0]);
        assert("zip"@ != "css"@);
        reveal_strlit("js");
        assert("zip"@.len() != "js"@.len());
        assert("zip"@ != "js"@);
        reveal_strlit("mjs");
        assert("zip"@[0] != "mjs"@[0]);
        assert("zip"@ != "mjs"@);
        reveal_strlit("json");
        assert("zip"@.len() != "json"@.len());
        assert("zip"@ != "json"@);
        reveal_strlit("map");
        assert("zip"@[0] != "map"@[0]);
        assert("zip"@ != "map"@);
        reveal_strlit("html");
        assert("zip"@.len() != "html"@.len());
        assert("zip"@ != "html"@);
        reveal_strlit("htm");
        assert("zip"@[0] != "htm"@[0]);
        assert("zip"@ != "htm"@);
        reveal_strlit("xml");
        assert("zip"@[0] != "xml"@[0]);
        assert("zip"@ != "xml"@);
        reveal_strlit("txt");
        assert("zip"@[0] != "txt"@[0]);
        assert("zip"@ != "txt"@);
        reveal_strlit("svg");
        assert("zip"@[0] != "svg"@[0]);
        assert("zip"@ != "svg"@);
        reveal_strlit("png");
        assert("zip"@[0] != "png"@[0]);
        assert("zip"@ != "png"@);
        reveal_strlit("jpg");
        assert("zip"@[0] != "jpg"@[0]);
        assert("zip"@ != "jpg"@);
        reveal_strlit("jpeg");
        assert("zip"@.len() != "jpeg"@.len());
        assert("zip"@ != "jpeg"@);
        reveal_strlit("gif");
        assert("zip"@[0] != "gif"@[0]);
        assert("zip"@ != "gif"@);
        reveal_strlit("webp");
        assert("zip"@.len() != "webp"@.len());
        assert("zip"@ != "webp"@);
        reveal_strlit("ico");
        assert("zip"@[0] != "ico"@[0]);
        assert("zip"@ != "ico"@);
        reveal_strlit("woff");
        assert("zip"@.len() != "woff"@.len());
        assert("zip"@ != "woff"@);
        reveal_strlit("woff2");
        assert("zip"@.len() != "woff2"@.len());
        assert("zip"@ != "woff2"@);
        reveal_strlit("ttf");
        assert("zip"@[0] != "ttf"@[0]);
        assert("zip"@ != "ttf"@);
        reveal_strlit("otf");
        assert("zip"@[0] != "otf"@[0]);
        assert("zip"@ != "otf"@);
        reveal_strlit("eot");
        assert("zip"@[0] != "eot"@[0]);
        assert("zip"@ != "eot"@);
        reveal_strlit("webmanifest");
        assert("zip"@.len() != "webmanifest"@.len());
        assert("zip"@ != "webmanifest"@);
        reveal_strlit("pdf");
        assert("zip"@[0] != "pdf"@[0]);
        assert("zip"@ != "pdf"@);
    }
    assert(e == "mp4"@ ==> mime_for_ext(e) == "video/mp4"@) by {
        reveal_strlit("mp4");
        reveal_strlit("css");
        assert("mp4"@[0] != "css"@[0]);
        assert("mp4"@ != "css"@);
        reveal_strlit("js");
        assert("mp4"@.len() != "js"@.len());
        assert("mp4"@ != "js"@);
        reveal_strlit("mjs");
        assert("mp4"@[1] != "mjs"@[1]);
        assert("mp4"@ != "mjs"@);
        reveal_strlit("json");
        assert("mp4"@.len() != "json"@.len());
        assert("mp4"@ != "json"@);
        reveal_strlit("map");
        assert("mp4"@[1] != "map"@[1]);
        assert("mp4"@ != "map"@);
        reveal_strlit("html");
        assert("mp4"@.len() != "html"@.len());
        assert("mp4"@ != "html"@);
        reveal_strlit("htm");
        assert("mp4"@[0] != "htm"@[0]);
        assert("mp4"@ != "htm"@);
        reveal_strlit("xml");
        assert("mp4"@[0] != "xml"@[0]);
        assert("mp4"@ != "xml"@);
        reveal_strlit("txt");
        assert("mp4"@[0] != "txt"@[0]);
        assert("mp4"@ != "txt"@);
        reveal_strlit("svg");
        assert("mp4"@[0] != "svg"@[0]);
        assert("mp4"@ != "svg"@);
        reveal_strlit("png");
        assert("mp4"@[0] != "png"@[0]);
        assert("mp4"@ != "png"@);
        reveal_strlit("jpg");
        assert("mp4"@[0] != "jpg"@[0]);
        assert("mp4"@ != "jpg"@);
        reveal_strlit("jpeg");
        assert("mp4"@.len() != "jpeg"@.len());
        assert("mp4"@ != "jpeg"@);
        reveal_strlit("gif");
        assert("mp4"@[0] != "gif"@[0]);
        assert("mp4"@ != "gif"@);
        reveal_strlit("webp");
        assert("mp4"@.len() != "webp"@.len());
        assert("mp4"@ != "webp"@);
        reveal_strlit("ico");
        assert("mp4"@[0] != "ico"@[0]);
        assert("mp4"@ != "ico"@);
        reveal_strlit("woff");
        assert("mp4"@.len() != "woff"@.len());
        assert("mp4"@ != "woff"@);
        reveal_strlit("woff2");
        assert("mp4"@.len() != "woff2"@.len());
        assert("mp4"@ != "woff2"@);
        reveal_strlit("ttf");
        assert("mp4"@[0] != "ttf"@[0]);
        assert("mp4"@ != "ttf"@);
        reveal_strlit("otf");
        assert("mp4"@[0] != "otf"@[0]);
        assert("mp4"@ != "otf"@);
        reveal_strlit("eot");
        assert("mp4"@[0] != "eot"@[0]);
        assert("mp4"@ != "eot"@);
        reveal_strlit("webmanifest");
        assert("mp4"@.len() != "webmanifest"@.len());
        assert("mp4"@ != "webmanifest"@);
        reveal_strlit("pdf");
        assert("mp4"@[0] != "pdf"@[0]);
        assert("mp4"@ != "pdf"@);
        reveal_strlit("zip");
        assert("mp4"@[0] != "zip"@[0]);
        assert("mp4"@ != "zip"@);
    }
    assert(e == "mp3"@ ==> mime_for_ext(e) == "audio/mpeg"@) by {
        reveal_strlit("mp3");
        reveal_strlit("css");
        assert("mp3"@[0] != "css"@[0]);
        assert("mp3"@ != "css"@);
        reveal_strlit("js");
        assert("mp3"@.len() != "js"@.len());
        assert("mp3"@ != "js"@);
        reveal_strlit("mjs");
        assert("mp3"@[1] != "mjs"@[1]);
        assert("mp3"@ != "mjs"@);
        reveal_strlit("json");
        assert("mp3"@.len() != "json"@.len());
        assert("mp3"@ != "json"@);
        reveal_strlit("map");
        assert("mp3"@[1] != "map"@[1]);
        assert("mp3"@ != "map"@);
        reveal_strlit("html");
        assert("mp3"@.len() != "html"@.len());
        assert("mp3"@ != "html"@);
        reveal_strlit("htm");
        assert("mp3"@[0] != "htm"@[0]);
        assert("mp3"@ != "htm"@);
        reveal_strlit("xml");
        assert("mp3"@[0] != "xml"@[0]);
        assert("mp3"@ != "xml"@);
        reveal_strlit("txt");
        assert("mp3"@[0] != "txt"@[0]);
        assert("mp3"@ != "txt"@);
        reveal_strlit("svg");
        assert("mp3"@[0] != "svg"@[0]);
        assert("mp3"@ != "svg"@);
        reveal_strlit("png");
        assert("mp3"@[0] != "png"@[0]);
        assert("mp3"@ != "png"@);
        reveal_strlit("jpg");
        assert("mp3"@[0] != "jpg"@[0]);
        assert("mp3"@ != "jpg"@);
        reveal_strlit("jpeg");
        assert("mp3"@.len() != "jpeg"@.len());
        assert("mp3"@ != "jpeg"@);
        reveal_strlit("gif");
        assert("mp3"@[0] != "gif"@[0]);
        assert("mp3"@ != "gif"@);
        reveal_strlit("webp");
        assert("mp3"@.len() != "webp"@.len());
        assert("mp3"@ != "webp"@);
        reveal_strlit("ico");
        assert("mp3"@[0] != "ico"@[0]);
        assert("mp3"@ != "ico"@);
        reveal_strlit("woff");
        assert("mp3"@.len() != "woff"@.len());
        assert("mp3"@ != "woff"@);
        reveal_strlit("woff2");
        assert("mp3"@.len() != "woff2"@.len());
        assert("mp3"@ != "woff2"@);
        reveal_strlit("ttf");
        assert("mp3"@[0] != "ttf"@[0]);
        assert("mp3"@ != "ttf"@);
        reveal_strlit("otf");
        assert("mp3"@[0] != "otf"@[0]);
        assert("mp3"@ != "otf"@);
        reveal_strlit("eot");
        assert("mp3"@[0] != "eot"@[0]);
        assert("mp3"@ != "eot"@);
        reveal_strlit("webmanifest");
        assert("mp3"@.len() != "webmanifest"@.len());
        assert("mp3"@ != "webmanifest"@);
        reveal_strlit("pdf");
        assert("mp3"@[0] != "pdf"@[0]);
        assert("mp3"@ != "pdf"@);
        reveal_strlit("zip");
        assert("mp3"@[0] != "zip"@[0]);
        assert("mp3"@ != "zip"@);
        reveal_strlit("mp4");
        assert("mp3"@[2] != "mp4"@[2]);
        assert("mp3"@ != "mp4"@);
    }
}

fn is(e: &[char], lit: &str) -> (r: bool)
    ensures
        r == (e@ == lit@),
{
    let l = chars_of(lit);
    chars_eq(e, l.as_slice())
}

/// Map file extension to MIME type for static file serving.
pub fn mime_type_for_extension(path: &str) -> (r: &'static str)
    ensures
        r@ == mime_for_ext(lowercase(last_dot_piece(path@))),
        mime_table(lowercase(last_dot_piece(path@)), r@),
{
    proof {
        lemma_mime_table(lowercase(last_dot_piece(path@)));
    }
    let p = chars_of(path);
    let pieces = split_chars(p.as_slice(), '.');
    proof { crate::text::lemma_split_nonempty(path@, '.'); }
    let last = &pieces[pieces.len() - 1];
    assert(last@ == last_dot_piece(path@)) by {
        assert(views(pieces@)[pieces@.len() - 1] == pieces@[pieces@.len() - 1]@);
    }
    let e = to_lowercase_chars(last.as_slice());
    let e = e.as_slice();
    if is(e, "css") {
        "text/css; charset=utf-8"
    } else if is(e, "js") || is(e, "mjs") {
        "application/javascript; charset=utf-8"
    } else if is(e, "json") || is(e, "map") {
        "application/json"
    } else if is(e, "html") || is(e, "htm") {
        "text/html; charset=utf-8"
    } else if is(e, "xml") {
        "application/xml"
    } else if is(e, "txt") {
        "text/plain; charset=utf-8"
    } else if is(e, "svg") {
        "image/svg+xml"
    } else if is(e, "png") {
        "image/png"
    } else if is(e, "jpg") || is(e, "jpeg") {
        "image/jpeg"
    } else if is(e, "gif") {
        "image/gif"
    } else if is(e, "webp") {
        "image/webp"
    } else if is(e, "ico") {
        "image/x-icon"
    } else if is(e, "woff") {
        "font/woff"
    } else if is(e, "woff2") {
        "font/woff2"
    } else if is(e, "ttf") {
        "font/ttf"
    } else if is(e, "otf") {
        "font/otf"
    } else if is(e, "eot") {
        "application/vnd.ms-fontobject"
    } else if is(e, "webmanifest") {
        "application/manifest+json"
    } else if is(e, "pdf") {
        "application/pdf"
    } else if is(e, "zip") {
        "application/zip"
    } else if is(e, "mp4") {
        "video/mp4"
    } else if is(e, "mp3") {
        "audio/mpeg"
    } else {
        "application/octet-stream"
    }
}

} // verus!
