//! HTTP compression helpers (gzip / brotli / zstd).
//!
//! Negotiation honours the server's preference order and picks the first
//! encoding the client advertises via `Accept-Encoding`.  All three
//! codecs degrade gracefully: if compression fails the input bytes
//! are returned.
use std::io::Write;

use vstd::prelude::*;

use crate::config::str_views;
use crate::text::{chars_eq, chars_of, contains, contains_chars, lowercase, to_lowercase_chars};

verus! {

/// Content types worth compressing: text, JSON, JavaScript, XML, SVG and
/// web manifests.
pub open spec fn compressible(ct: Seq<char>) -> bool {
    contains(ct, "text/"@) || contains(ct, "application/json"@) || contains(ct, "application/javascript"@)
        || contains(ct, "application/xml"@) || contains(ct, "image/svg+xml"@) || contains(
        ct,
        "application/manifest+json"@,
    )
}

fn has(s: &[char], lit: &str) -> (r: bool)
    ensures
        r == contains(s@, lit@),
{
    let l = chars_of(lit);
    contains_chars(s, l.as_slice())
}

/// Which content types are compressed: text of any kind, JSON,
/// JavaScript, XML, SVG and web manifests, with or without parameters;
/// a type that names none of them is not.
pub proof fn lemma_compressible_types(ct: Seq<char>)
    ensures
        contains(ct, "text/"@) ==> compressible(ct),
        contains(ct, "application/json"@) ==> compressible(ct),
        contains(ct, "application/javascript"@) ==> compressible(ct),
        contains(ct, "application/xml"@) ==> compressible(ct),
        contains(ct, "image/svg+xml"@) ==> compressible(ct),
        contains(ct, "application/manifest+json"@) ==> compressible(ct),
        !contains(ct, "text/"@) && !contains(ct, "application/json"@) && !contains(
            ct,
            "application/javascript"@,
        ) && !contains(ct, "application/xml"@) && !contains(ct, "image/svg+xml"@) && !contains(
            ct,
            "application/manifest+json"@,
        ) ==> !compressible(ct),
{
}

/// Parameters after a compressible type (`; charset=...`) keep it
/// compressible.
pub proof fn lemma_compressible_with_parameters(ct: Seq<char>, params: Seq<char>)
    requires
        compressible(ct),
    ensures
        compressible(ct + params),
{
    let lits = seq![
        "text/"@,
        "application/json"@,
        "application/javascript"@,
        "application/xml"@,
        "image/svg+xml"@,
        "application/manifest+json"@,
    ];
    assert(exists|k: int| 0 <= k < 6 && contains(ct, #[trigger] lits[k]));
    let k = choose|k: int| 0 <= k < 6 && contains(ct, #[trigger] lits[k]);
    crate::text::lemma_contains_extend(ct, params, lits[k]);
    assert(contains(ct + params, lits[k]));
}

/// Whether a response of this content type is worth compressing.
pub fn is_compressible_content_type(content_type: &str) -> (r: bool)
    ensures
        r == compressible(content_type@),
        contains(content_type@, "text/"@) ==> r,
        contains(content_type@, "application/json"@) ==> r,
        contains(content_type@, "application/javascript"@) ==> r,
        contains(content_type@, "application/xml"@) ==> r,
        contains(content_type@, "image/svg+xml"@) ==> r,
        contains(content_type@, "application/manifest+json"@) ==> r,
        r ==> contains(content_type@, "text/"@) || contains(content_type@, "application/json"@) || contains(
            content_type@,
            "application/javascript"@,
        ) || contains(content_type@, "application/xml"@) || contains(content_type@, "image/svg+xml"@)
            || contains(content_type@, "application/manifest+json"@),
{
    proof {
        lemma_compressible_types(content_type@);
    }
    let c = chars_of(content_type);
    let c = c.as_slice();
    has(c, "text/") || has(c, "application/json") || has(c, "application/javascript") || has(
        c,
        "application/xml",
    ) || has(c, "image/svg+xml") || has(c, "application/manifest+json")
}

/// What a gzip encoder (`flate2`, `GzEncoder` with default header) makes
/// of `data` at compression level `level`: the stream, or none when the
/// encoder reports an error.
pub uninterp spec fn gzip_result(data: Seq<u8>, level: u32) -> Option<Seq<u8>>;

/// What the brotli encoder makes of `data` at quality `quality` with
/// otherwise default parameters: the stream, or none on an error.
pub uninterp spec fn brotli_result(data: Seq<u8>, quality: u32) -> Option<Seq<u8>>;

/// What `zstd::bulk::compress` makes of `data` at level `level`: the
/// frame, or none on an error.
pub uninterp spec fn zstd_result(data: Seq<u8>, level: u32) -> Option<Seq<u8>>;

/// `flate2::write::GzEncoder` with `Compression::new(level)`: writes
/// `data` and finishes; `None` when the encoder reports an I/O error.
/// Levels above 10 trip a debug assertion in flate2's default backend.
#[verifier::external_body]
fn gzip_encode(data: &[u8], level: u32) -> (r: Option<Vec<u8>>)
    requires
        level <= 10,
    ensures
        match r {
            Some(o) => gzip_result(data@, level) == Some(o@),
            None => gzip_result(data@, level) is None,
        },
{
    let mut encoder = flate2::write::GzEncoder::new(Vec::new(), flate2::Compression::new(level));
    if encoder.write_all(data).is_err() {
        return None;
    }
    encoder.finish().ok()
}

/// `brotli::BrotliCompress` with `quality` and default parameters
/// otherwise; `None` when the encoder reports an I/O error.
#[verifier::external_body]
fn brotli_encode(data: &[u8], quality: u32) -> (r: Option<Vec<u8>>)
    requires
        quality <= 11,
    ensures
        match r {
            Some(o) => brotli_result(data@, quality) == Some(o@),
            None => brotli_result(data@, quality) is None,
        },
{
    let mut output = Vec::new();
    let params = brotli::enc::BrotliEncoderParams { quality: quality as i32, ..Default::default() };
    match brotli::BrotliCompress(&mut &data[..], &mut output, &params) {
        Ok(_) => Some(output),
        Err(_) => None,
    }
}

/// `zstd::bulk::compress` at `level`; `None` when it reports an error.
#[verifier::external_body]
fn zstd_encode(data: &[u8], level: u32) -> (r: Option<Vec<u8>>)
    requires
        level <= 19,
    ensures
        match r {
            Some(o) => zstd_result(data@, level) == Some(o@),
            None => zstd_result(data@, level) is None,
        },
{
    zstd::bulk::compress(data, level as i32).ok()
}

/// The level flate2's default backend works at for a requested `level`:
/// levels past 10 act as 10, and levels that do not fit a byte as 1.
pub open spec fn gzip_level(level: u32) -> u32 {
    if level <= 10 {
        level
    } else if level <= 255 {
        10
    } else {
        1
    }
}

/// The brotli quality for a requested level: at most 11.
pub open spec fn brotli_quality(level: u32) -> u32 {
    if level < 11 { level } else { 11 }
}

/// The zstd level for a requested level: at most 19.
pub open spec fn zstd_level(level: u32) -> u32 {
    if level < 19 { level } else { 19 }
}

/// The encoder's output, or `data` itself when the encoder failed.
pub open spec fn or_input(res: Option<Seq<u8>>, data: Seq<u8>) -> Seq<u8> {
    match res {
        Some(o) => o,
        None => data,
    }
}

fn copy_bytes(data: &[u8]) -> (r: Vec<u8>)
    ensures
        r@ == data@,
{
    let r = crate::text::sub_bytes(data, 0, data.len());
    assert(r@ =~= data@);
    r
}

/// Gzip-compresses `data` at the level flate2's backend uses for `level`
/// (`gzip_level`); the input itself when the encoder fails.
pub fn gzip_compress(data: &[u8], level: u32) -> (r: Vec<u8>)
    ensures
        r@ == or_input(gzip_result(data@, gzip_level(level)), data@),
{
    let l = if level <= 10 {
        level
    } else if level <= 255 {
        10
    } else {
        1
    };
    match gzip_encode(data, l) {
        Some(o) => o,
        None => copy_bytes(data),
    }
}

/// Brotli-compresses `data` at quality `min(level, 11)`; the input
/// itself when the encoder fails.
pub fn brotli_compress(data: &[u8], level: u32) -> (r: Vec<u8>)
    ensures
        r@ == or_input(brotli_result(data@, brotli_quality(level)), data@),
{
    let quality = if level < 11 { level } else { 11 };
    match brotli_encode(data, quality) {
        Some(o) => o,
        None => copy_bytes(data),
    }
}

/// Zstd-compresses `data` at level `min(level, 19)`; the input itself
/// when the encoder fails.
pub fn zstd_compress(data: &[u8], level: u32) -> (r: Vec<u8>)
    ensures
        r@ == or_input(zstd_result(data@, zstd_level(level)), data@),
{
    let l = if level < 19 { level } else { 19 };
    match zstd_encode(data, l) {
        Some(o) => o,
        None => copy_bytes(data),
    }
}

/// The first preferred algorithm that the client accepts: `br`, `zstd`
/// or `gzip` whose name occurs in the lower-cased `Accept-Encoding`.
pub open spec fn negotiated(prefs: Seq<Seq<char>>, ae: Seq<char>) -> Option<Seq<char>>
    decreases prefs.len(),
{
    if prefs.len() == 0 {
        None
    } else {
        let p = prefs[0];
        if (p == "br"@ || p == "zstd"@ || p == "gzip"@) && contains(ae, p) {
            Some(p)
        } else {
            negotiated(prefs.drop_first(), ae)
        }
    }
}

/// The server's preference order decides: the encoding chosen is the
/// first of the server's preferences that is `br`, `zstd` or `gzip` and
/// that the client names; none is chosen when no preference is both.
pub proof fn lemma_negotiated_first(prefs: Seq<Seq<char>>, ae: Seq<char>)
    ensures
        match negotiated(prefs, ae) {
            Some(e) => exists|i: int|
                0 <= i < prefs.len() && #[trigger] prefs[i] == e && (e == "br"@ || e == "zstd"@ || e == "gzip"@)
                    && contains(ae, e) && forall|j: int|
                    0 <= j < i ==> !((#[trigger] prefs[j] == "br"@ || prefs[j] == "zstd"@ || prefs[j] == "gzip"@)
                        && contains(ae, prefs[j])),
            None => forall|i: int|
                0 <= i < prefs.len() ==> !((#[trigger] prefs[i] == "br"@ || prefs[i] == "zstd"@ || prefs[i] == "gzip"@)
                    && contains(ae, prefs[i])),
        },
    decreases prefs.len(),
{
    if prefs.len() > 0 {
        let p = prefs[0];
        if !((p == "br"@ || p == "zstd"@ || p == "gzip"@) && contains(ae, p)) {
            let t = prefs.drop_first();
            lemma_negotiated_first(t, ae);
            match negotiated(t, ae) {
                Some(e) => {
                    let i = choose|i: int|
                        0 <= i < t.len() && #[trigger] t[i] == e && (e == "br"@ || e == "zstd"@ || e == "gzip"@)
                            && contains(ae, e) && forall|j: int|
                            0 <= j < i ==> !((#[trigger] t[j] == "br"@ || t[j] == "zstd"@ || t[j] == "gzip"@)
                                && contains(ae, t[j]));
                    assert(prefs[i + 1] == t[i]);
                    assert forall|j: int| 0 <= j < i + 1 implies !((#[trigger] prefs[j] == "br"@ || prefs[j] == "zstd"@
                        || prefs[j] == "gzip"@) && contains(ae, prefs[j])) by {
                        if j > 0 {
                            assert(prefs[j] == t[j - 1]);
                        }
                    }
                },
                None => {
                    assert forall|i: int| 0 <= i < prefs.len() implies !((#[trigger] prefs[i] == "br"@ || prefs[i]
                        == "zstd"@ || prefs[i] == "gzip"@) && contains(ae, prefs[i])) by {
                        if i > 0 {
                            assert(prefs[i] == t[i - 1]);
                        }
                    }
                },
            }
        }
    }
}

/// The encoding to use, by the server's preference order and the
/// client's `Accept-Encoding`.
pub fn choose_encoding(accept_encoding: &str, server_prefs: &[String]) -> (r: Option<&'static str>)
    ensures
        match r {
            Some(e) => negotiated(str_views(server_prefs@), lowercase(accept_encoding@)) == Some(e@),
            None => negotiated(str_views(server_prefs@), lowercase(accept_encoding@)) is None,
        },
        r matches Some(e) ==> exists|i: int|
            0 <= i < server_prefs@.len() && #[trigger] server_prefs@[i]@ == e@ && contains(lowercase(accept_encoding@), e@)
                && forall|j: int|
                0 <= j < i ==> !((#[trigger] server_prefs@[j]@ == "br"@ || server_prefs@[j]@ == "zstd"@
                    || server_prefs@[j]@ == "gzip"@) && contains(lowercase(accept_encoding@), server_prefs@[j]@)),
        r is None ==> forall|i: int|
            0 <= i < server_prefs@.len() ==> !((#[trigger] server_prefs@[i]@ == "br"@ || server_prefs@[i]@ == "zstd"@
                || server_prefs@[i]@ == "gzip"@) && contains(lowercase(accept_encoding@), server_prefs@[i]@)),
{
    let r = choose_encoding_in(accept_encoding, server_prefs);
    proof {
        let ps = str_views(server_prefs@);
        lemma_negotiated_first(ps, lowercase(accept_encoding@));
        assert forall|i: int| 0 <= i < server_prefs@.len() implies #[trigger] server_prefs@[i]@ == ps[i] by {}
    }
    r
}

fn choose_encoding_in(accept_encoding: &str, server_prefs: &[String]) -> (r: Option<&'static str>)
    ensures
        match r {
            Some(e) => negotiated(str_views(server_prefs@), lowercase(accept_encoding@)) == Some(e@),
            None => negotiated(str_views(server_prefs@), lowercase(accept_encoding@)) is None,
        },
{
    let a = chars_of(accept_encoding);
    let ae = to_lowercase_chars(a.as_slice());
    let br = chars_of("br");
    let zs = chars_of("zstd");
    let gz = chars_of("gzip");
    let ghost ps = str_views(server_prefs@);
    let mut i: usize = 0;
    assert(ps.skip(0) =~= ps);
    while i < server_prefs.len()
        invariant
            i <= server_prefs@.len(),
            ps == str_views(server_prefs@),
            ae@ == lowercase(accept_encoding@),
            br@ == "br"@,
            zs@ == "zstd"@,
            gz@ == "gzip"@,
            negotiated(ps.skip(i as int), ae@) == negotiated(ps, ae@),
        decreases server_prefs.len() - i,
    {
        let p = chars_of(server_prefs[i].as_str());
        assert(ps.skip(i as int)[0] == p@);
        assert(ps.skip(i as int).drop_first() =~= ps.skip(i + 1));
        if chars_eq(p.as_slice(), br.as_slice()) && contains_chars(ae.as_slice(), br.as_slice()) {
            return Some("br");
        }
        if chars_eq(p.as_slice(), zs.as_slice()) && contains_chars(ae.as_slice(), zs.as_slice()) {
            return Some("zstd");
        }
        if chars_eq(p.as_slice(), gz.as_slice()) && contains_chars(ae.as_slice(), gz.as_slice()) {
            return Some("gzip");
        }
        i = i + 1;
    }
    None
}

/// Negotiate the best compression algorithm based on the client's
/// `Accept-Encoding` and the server's preferred order.  Returns
/// `(encoding_name, compressed_data)` on a hit, `None` if no shared
/// algorithm is supported.
pub fn negotiate_compression(
    accept_encoding: &str,
    server_prefs: &[String],
    data: &[u8],
    level: u32,
) -> (r: Option<(&'static str, Vec<u8>)>)
    ensures
        match r {
            Some((e, out)) => {
                &&& negotiated(str_views(server_prefs@), lowercase(accept_encoding@)) == Some(e@)
                &&& e@ == "br"@ ==> out@ == or_input(brotli_result(data@, brotli_quality(level)), data@)
                &&& e@ == "zstd"@ ==> out@ == or_input(zstd_result(data@, zstd_level(level)), data@)
                &&& e@ == "gzip"@ ==> out@ == or_input(gzip_result(data@, gzip_level(level)), data@)
            },
            None => negotiated(str_views(server_prefs@), lowercase(accept_encoding@)) is None,
        },
{
    match choose_encoding(accept_encoding, server_prefs) {
        Some(e) => {
            proof {
                lemma_negotiated_names(str_views(server_prefs@), lowercase(accept_encoding@));
                reveal_strlit("br");
                reveal_strlit("zstd");
                reveal_strlit("gzip");
            }
            let ec = chars_of(e);
            let br = chars_of("br");
            let zs = chars_of("zstd");
            if chars_eq(ec.as_slice(), br.as_slice()) {
                let out = brotli_compress(data, level);
                assert(e@.len() != "gzip"@.len());
                Some((e, out))
            } else if chars_eq(ec.as_slice(), zs.as_slice()) {
                let out = zstd_compress(data, level);
                assert(e@[0] != "gzip"@[0]);
                Some((e, out))
            } else {
                let out = gzip_compress(data, level);
                Some((e, out))
            }
        },
        None => None,
    }
}

/// A negotiated encoding is one of the three supported names.
pub proof fn lemma_negotiated_names(prefs: Seq<Seq<char>>, ae: Seq<char>)
    ensures
        negotiated(prefs, ae) matches Some(e) ==> (e == "br"@ || e == "zstd"@ || e == "gzip"@),
    decreases prefs.len(),
{
    if prefs.len() > 0 {
        lemma_negotiated_names(prefs.drop_first(), ae);
    }
}

} // verus!
