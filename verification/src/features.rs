//! Response features for PHP applications:
//! - Early Hints (103): `Link` headers collected for the final response
//! - X-Sendfile / X-Accel-Redirect: the server serves a file PHP names
//! - Structured logging: `__TURBINE_LOG__` markers in PHP output
//! - Route matching for dedicated worker pools
use vstd::prelude::*;
use vstd::utf8::{decode_utf8, encode_utf8, valid_utf8};

use crate::paths::{
    canonical_path, canonicalize, extension, join_path, join_path_chars, path_starts_with, path_starts_with_chars,
};
use crate::text::{
    chars_eq, chars_of, contains, contains_chars, decode_utf8_strict, eq_ignore_ascii_case,
    eq_ignore_ascii_case_chars, lines_chars, lines_spec, pair_views, push_all, split_chars, split_on,
    split_once_chars, split_once_spec, starts_with, starts_with_chars, string_of, sub_chars, trim,
    trim_chars, trim_end, trim_end_chars, trim_start, trim_start_chars, trim_ws, trim_ws_chars, utf8_of,
    views, CharClass,
};

verus! {

// ── Early Hints (103) ──

/// Marker used by PHP envelope code to signal Early Hints.
pub const TURBINE_EARLY_HINT_MARKER: &'static str = "__TURBINE_EARLY_HINT__\t";

/// The values of the `Link` headers (any case), in order.
pub open spec fn link_values(hs: Seq<(Seq<char>, Seq<char>)>) -> Seq<Seq<char>>
    decreases hs.len(),
{
    if hs.len() == 0 {
        seq![]
    } else {
        let r = link_values(hs.drop_last());
        if eq_ignore_ascii_case(hs.last().0, "Link"@) {
            r.push(hs.last().1)
        } else {
            r
        }
    }
}

/// Extract Early Hints (Link headers) from response headers and return them.
pub fn extract_early_hints(headers: &[(String, String)]) -> (r: Vec<String>)
    ensures
        crate::config::str_views(r@) == link_values(pair_views(headers@)),
{
    let link = chars_of("Link");
    let mut r: Vec<String> = Vec::new();
    let mut i: usize = 0;
    let ghost hs = pair_views(headers@);
    assert(hs.take(0) =~= Seq::<(Seq<char>, Seq<char>)>::empty());
    assert(crate::config::str_views(r@) =~= Seq::<Seq<char>>::empty());
    while i < headers.len()
        invariant
            i <= headers@.len(),
            hs == pair_views(headers@),
            link@ == "Link"@,
            crate::config::str_views(r@) == link_values(hs.take(i as int)),
        decreases headers.len() - i,
    {
        let ghost t = hs.take(i + 1);
        assert(t.drop_last() =~= hs.take(i as int));
        assert(t.last() == (headers@[i as int].0@, headers@[i as int].1@));
        let k = chars_of(headers[i].0.as_str());
        if eq_ignore_ascii_case_chars(k.as_slice(), link.as_slice()) {
            let ghost before = r@;
            let v = headers[i].1.clone();
            r.push(v);
            assert(crate::config::str_views(r@) =~= crate::config::str_views(before).push(headers@[i as int].1@));
        }
        i = i + 1;
    }
    assert(hs.take(hs.len() as int) =~= hs);
    r
}

/// The values of the early-hint marker lines, in order.
pub open spec fn hint_values(lines: Seq<Seq<char>>) -> Seq<Seq<char>>
    decreases lines.len(),
{
    if lines.len() == 0 {
        seq![]
    } else {
        let r = hint_values(lines.drop_last());
        let l = lines.last();
        if starts_with(l, TURBINE_EARLY_HINT_MARKER@) {
            r.push(l.skip(TURBINE_EARLY_HINT_MARKER@.len() as int))
        } else {
            r
        }
    }
}

/// Parse early hint markers from the envelope metadata: the text after the
/// marker on each line that starts with it.
pub fn parse_early_hint_markers(meta_lines: &str) -> (r: Vec<String>)
    ensures
        crate::config::str_views(r@) == hint_values(lines_spec(meta_lines@)),
{
    let m = chars_of(meta_lines);
    let lines = lines_chars(m.as_slice());
    let mk = chars_of(TURBINE_EARLY_HINT_MARKER);
    let ghost ls = views(lines@);
    let mut r: Vec<String> = Vec::new();
    let mut i: usize = 0;
    assert(ls.take(0) =~= Seq::<Seq<char>>::empty());
    assert(crate::config::str_views(r@) =~= Seq::<Seq<char>>::empty());
    while i < lines.len()
        invariant
            i <= lines@.len(),
            ls == views(lines@),
            mk@ == TURBINE_EARLY_HINT_MARKER@,
            crate::config::str_views(r@) == hint_values(ls.take(i as int)),
        decreases lines.len() - i,
    {
        let l = &lines[i];
        let ghost t = ls.take(i + 1);
        assert(t.drop_last() =~= ls.take(i as int));
        assert(t.last() == l@);
        if starts_with_chars(l.as_slice(), mk.as_slice()) {
            let rest = sub_chars(l.as_slice(), mk.len(), l.len());
            assert(rest@ =~= l@.skip(mk@.len() as int));
            let ghost before = r@;
            r.push(string_of(rest.as_slice()));
            assert(crate::config::str_views(r@) =~= crate::config::str_views(before).push(rest@));
        }
        i = i + 1;
    }
    assert(ls.take(ls.len() as int) =~= ls);
    r
}

// ── X-Sendfile / X-Accel-Redirect ──

/// `X-Accel-Redirect` or `X-Sendfile`, in any case.
pub open spec fn is_sendfile_header(k: Seq<char>) -> bool {
    eq_ignore_ascii_case(k, "X-Accel-Redirect"@) || eq_ignore_ascii_case(k, "X-Sendfile"@)
}

/// The value of the first sendfile header.
pub open spec fn first_sendfile(hs: Seq<(Seq<char>, Seq<char>)>) -> Option<Seq<char>>
    decreases hs.len(),
{
    if hs.len() == 0 {
        None
    } else if is_sendfile_header(hs[0].0) {
        Some(hs[0].1)
    } else {
        first_sendfile(hs.drop_first())
    }
}

/// The sendfile target is the value of the first header named
/// `X-Sendfile` or `X-Accel-Redirect` (in any ASCII letter case), and
/// there is none when no header has either name.
pub proof fn lemma_first_sendfile(hs: Seq<(Seq<char>, Seq<char>)>)
    ensures
        match first_sendfile(hs) {
            Some(v) => exists|i: int|
                0 <= i < hs.len() && (eq_ignore_ascii_case(#[trigger] hs[i].0, "X-Sendfile"@) || eq_ignore_ascii_case(
                    hs[i].0,
                    "X-Accel-Redirect"@,
                )) && hs[i].1 == v && forall|j: int|
                    0 <= j < i ==> !eq_ignore_ascii_case(#[trigger] hs[j].0, "X-Sendfile"@) && !eq_ignore_ascii_case(
                        hs[j].0,
                        "X-Accel-Redirect"@,
                    ),
            None => forall|i: int|
                0 <= i < hs.len() ==> !eq_ignore_ascii_case(#[trigger] hs[i].0, "X-Sendfile"@) && !eq_ignore_ascii_case(
                    hs[i].0,
                    "X-Accel-Redirect"@,
                ),
        },
    decreases hs.len(),
{
    if hs.len() > 0 && !is_sendfile_header(hs[0].0) {
        let t = hs.drop_first();
        lemma_first_sendfile(t);
        match first_sendfile(t) {
            Some(v) => {
                let i = choose|i: int|
                    0 <= i < t.len() && (eq_ignore_ascii_case(#[trigger] t[i].0, "X-Sendfile"@) || eq_ignore_ascii_case(
                        t[i].0,
                        "X-Accel-Redirect"@,
                    )) && t[i].1 == v && forall|j: int|
                        0 <= j < i ==> !eq_ignore_ascii_case(#[trigger] t[j].0, "X-Sendfile"@) && !eq_ignore_ascii_case(
                            t[j].0,
                            "X-Accel-Redirect"@,
                        );
                assert(hs[i + 1] == t[i]);
                assert forall|j: int| 0 <= j < i + 1 implies !eq_ignore_ascii_case(#[trigger] hs[j].0, "X-Sendfile"@)
                    && !eq_ignore_ascii_case(hs[j].0, "X-Accel-Redirect"@) by {
                    if j > 0 {
                        assert(hs[j] == t[j - 1]);
                    }
                }
            },
            None => {
                assert forall|i: int| 0 <= i < hs.len() implies !eq_ignore_ascii_case(#[trigger] hs[i].0, "X-Sendfile"@)
                    && !eq_ignore_ascii_case(hs[i].0, "X-Accel-Redirect"@) by {
                    if i > 0 {
                        assert(hs[i] == t[i - 1]);
                    }
                }
            },
        }
    }
}

/// Check response headers for X-Sendfile or X-Accel-Redirect and return
/// the file path of the first one.
pub fn check_x_sendfile(headers: &[(String, String)]) -> (r: Option<String>)
    ensures
        match r {
            Some(p) => first_sendfile(pair_views(headers@)) == Some(p@),
            None => first_sendfile(pair_views(headers@)) is None,
        },
        r is None ==> forall|i: int|
            0 <= i < headers@.len() ==> !eq_ignore_ascii_case(#[trigger] pair_views(headers@)[i].0, "X-Sendfile"@)
                && !eq_ignore_ascii_case(pair_views(headers@)[i].0, "X-Accel-Redirect"@),
        r matches Some(p) ==> exists|i: int|
            0 <= i < headers@.len() && (eq_ignore_ascii_case(#[trigger] pair_views(headers@)[i].0, "X-Sendfile"@)
                || eq_ignore_ascii_case(pair_views(headers@)[i].0, "X-Accel-Redirect"@)) && pair_views(headers@)[i].1
                == p@,
{
    proof {
        lemma_first_sendfile(pair_views(headers@));
    }
    let a = chars_of("X-Accel-Redirect");
    let s = chars_of("X-Sendfile");
    let ghost hs = pair_views(headers@);
    let mut i: usize = 0;
    assert(hs.skip(0) =~= hs);
    while i < headers.len()
        invariant
            i <= headers@.len(),
            hs == pair_views(headers@),
            a@ == "X-Accel-Redirect"@,
            s@ == "X-Sendfile"@,
            first_sendfile(hs.skip(i as int)) == first_sendfile(hs),
        decreases headers.len() - i,
    {
        assert(hs.skip(i as int)[0] == (headers@[i as int].0@, headers@[i as int].1@));
        assert(hs.skip(i as int).drop_first() =~= hs.skip(i + 1));
        let k = chars_of(headers[i].0.as_str());
        if eq_ignore_ascii_case_chars(k.as_slice(), a.as_slice()) || eq_ignore_ascii_case_chars(k.as_slice(), s.as_slice()) {
            return Some(headers[i].1.clone());
        }
        i = i + 1;
    }
    None
}

/// Where a sendfile path points before resolution: a leading `/` is
/// dropped (all of them) and the rest joined to the sendfile root.
pub open spec fn sendfile_target(file_path: Seq<char>, root: Seq<char>) -> Seq<char> {
    if file_path.len() > 0 && file_path[0] == '/' {
        join_path(root, trim_start(file_path, CharClass::Exactly('/')))
    } else {
        join_path(root, file_path)
    }
}

/// The unresolved target of a sendfile path under `sendfile_root`.
pub fn sendfile_target_path(file_path: &str, sendfile_root: &str) -> (r: String)
    ensures
        r@ == sendfile_target(file_path@, sendfile_root@),
{
    let f = chars_of(file_path);
    let root = chars_of(sendfile_root);
    let t = if f.len() > 0 && f[0] == '/' {
        let rel = trim_start_chars(f.as_slice(), &CharClass::Exactly('/'));
        join_path_chars(root.as_slice(), rel.as_slice())
    } else {
        join_path_chars(root.as_slice(), f.as_slice())
    };
    string_of(t.as_slice())
}

/// A resolved sendfile path is served only when it lies under the
/// resolved root (component-wise prefix).
pub open spec fn confine_spec(resolved: Option<Seq<char>>, root: Option<Seq<char>>) -> Option<Seq<char>> {
    match (resolved, root) {
        (Some(p), Some(r)) => if path_starts_with(p, r) { Some(p) } else { None },
        _ => None,
    }
}

/// The view of an optional string.
pub open spec fn opt_view(o: Option<String>) -> Option<Seq<char>> {
    match o {
        Some(s) => Some(s@),
        None => None,
    }
}

/// Keeps a resolved path only when it lies under the resolved root.
pub fn confine_to_root(resolved: Option<String>, root: Option<String>) -> (r: Option<String>)
    ensures
        match r {
            Some(p) => confine_spec(opt_view(resolved), opt_view(root)) == Some(p@),
            None => confine_spec(opt_view(resolved), opt_view(root)) is None,
        },
{
    match (resolved, root) {
        (Some(p), Some(rt)) => {
            let pc = chars_of(p.as_str());
            let rc = chars_of(rt.as_str());
            if path_starts_with_chars(pc.as_slice(), rc.as_slice()) {
                Some(p)
            } else {
                None
            }
        },
        _ => None,
    }
}

/// Resolve the X-Sendfile path, ensuring it's within the allowed root.
/// The target and the root are canonicalized on disk; the target is
/// returned only when it lies under the root.  Which canonical paths the
/// disk gives is up to the file system; a path returned is canonical and
/// lies under a canonical root.
pub fn resolve_sendfile_path(file_path: &str, sendfile_root: &str) -> (r: Option<String>)
    ensures
        exists|res: Option<Seq<char>>, rc: Option<Seq<char>>|
            #![trigger confine_spec(res, rc)]
            (res matches Some(x) ==> canonical_path(x)) && (rc matches Some(y) ==> canonical_path(y))
                && opt_view(r) == confine_spec(res, rc),
        r matches Some(p) ==> canonical_path(p@),
        r matches Some(p) ==> exists|rt: Seq<char>| canonical_path(rt) && path_starts_with(p@, rt),
{
    let target = sendfile_target_path(file_path, sendfile_root);
    let tc = chars_of(target.as_str());
    let resolved = match canonicalize(tc.as_slice()) {
        Some(v) => Some(string_of(v.as_slice())),
        None => None,
    };
    let rc = chars_of(sendfile_root);
    let root = match canonicalize(rc.as_slice()) {
        Some(v) => Some(string_of(v.as_slice())),
        None => None,
    };
    let ghost a = opt_view(resolved);
    let ghost b = opt_view(root);
    let r = confine_to_root(resolved, root);
    assert(opt_view(r) == confine_spec(a, b));
    proof {
        if r is Some {
            let rt = b->0;
            assert(canonical_path(rt) && path_starts_with(r->0@, rt));
        }
    }
    r
}

/// The MIME type served for a sendfile path, by its (case-sensitive)
/// extension.
pub open spec fn sendfile_mime(ext: Seq<char>) -> Seq<char> {
    if ext == "pdf"@ {
        "application/pdf"@
    } else if ext == "zip"@ {
        "application/zip"@
    } else if ext == "gz"@ || ext == "tgz"@ {
        "application/gzip"@
    } else if ext == "tar"@ {
        "application/x-tar"@
    } else if ext == "csv"@ {
        "text/csv"@
    } else if ext == "xlsx"@ {
        "application/vnd.openxmlformats-officedocument.spreadsheetml.sheet"@
    } else if ext == "docx"@ {
        "application/vnd.openxmlformats-officedocument.wordprocessingml.document"@
    } else if ext == "png"@ {
        "image/png"@
    } else if ext == "jpg"@ || ext == "jpeg"@ {
        "image/jpeg"@
    } else if ext == "gif"@ {
        "image/gif"@
    } else if ext == "webp"@ {
        "image/webp"@
    } else if ext == "svg"@ {
        "image/svg+xml"@
    } else if ext == "mp4"@ {
        "video/mp4"@
    } else if ext == "mp3"@ {
        "audio/mpeg"@
    } else if ext == "txt"@ {
        "text/plain"@
    } else if ext == "html"@ || ext == "htm"@ {
        "text/html"@
    } else if ext == "json"@ {
        "application/json"@
    } else if ext == "xml"@ {
        "application/xml"@
    } else {
        "application/octet-stream"@
    }
}

/// The MIME table for files served through X-Sendfile, extension by
/// extension (case-sensitive): each listed extension has its type, and
/// any other is served as `application/octet-stream`.
pub open spec fn sendfile_table(e: Seq<char>, m: Seq<char>) -> bool {
    &&& (e == "pdf"@ ==> m == "application/pdf"@)
    &&& (e == "zip"@ ==> m == "application/zip"@)
    &&& (e == "gz"@ ==> m == "application/gzip"@)
    &&& (e == "tgz"@ ==> m == "application/gzip"@)
    &&& (e == "tar"@ ==> m == "application/x-tar"@)
    &&& (e == "csv"@ ==> m == "text/csv"@)
    &&& (e == "xlsx"@ ==> m == "application/vnd.openxmlformats-officedocument.spreadsheetml.sheet"@)
    &&& (e == "docx"@ ==> m == "application/vnd.openxmlformats-officedocument.wordprocessingml.document"@)
    &&& (e == "png"@ ==> m == "image/png"@)
    &&& (e == "jpg"@ ==> m == "image/jpeg"@)
    &&& (e == "jpeg"@ ==> m == "image/jpeg"@)
    &&& (e == "gif"@ ==> m == "image/gif"@)
    &&& (e == "webp"@ ==> m == "image/webp"@)
    &&& (e == "svg"@ ==> m == "image/svg+xml"@)
    &&& (e == "mp4"@ ==> m == "video/mp4"@)
    &&& (e == "mp3"@ ==> m == "audio/mpeg"@)
    &&& (e == "txt"@ ==> m == "text/plain"@)
    &&& (e == "html"@ ==> m == "text/html"@)
    &&& (e == "htm"@ ==> m == "text/html"@)
    &&& (e == "json"@ ==> m == "application/json"@)
    &&& (e == "xml"@ ==> m == "application/xml"@)
    &&& (e != "pdf"@ && e != "zip"@ && e != "gz"@ && e != "tgz"@ && e != "tar"@ && e != "csv"@ && e != "xlsx"@ && e != "docx"@ && e != "png"@ && e != "jpg"@ && e != "jpeg"@ && e != "gif"@ && e != "webp"@ && e != "svg"@ && e != "mp4"@ && e != "mp3"@ && e != "txt"@ && e != "html"@ && e != "htm"@ && e != "json"@ && e != "xml"@) ==> m == "application/octet-stream"@
}

/// The X-Sendfile MIME type of an extension follows the table.
pub proof fn lemma_sendfile_table(e: Seq<char>)
    ensures
        sendfile_table(e, sendfile_mime(e)),
{
    assert(e == "pdf"@ ==> sendfile_mime(e) == "application/pdf"@) by {
        reveal_strlit("pdf");
    }
    assert(e == "zip"@ ==> sendfile_mime(e) == "application/zip"@) by {
        reveal_strlit("zip");
        reveal_strlit("pdf");
        assert("zip"@[0] != "pdf"@[0]);
        assert("zip"@ != "pdf"@);
    }
    assert(e == "gz"@ ==> sendfile_mime(e) == "application/gzip"@) by {
        reveal_strlit("gz");
        reveal_strlit("pdf");
        assert("gz"@.len() != "pdf"@.len());
        assert("gz"@ != "pdf"@);
        reveal_strlit("zip");
        assert("gz"@.len() != "zip"@.len());
        assert("gz"@ != "zip"@);
    }
    assert(e == "tgz"@ ==> sendfile_mime(e) == "application/gzip"@) by {
        reveal_strlit("tgz");
        reveal_strlit("pdf");
        assert("tgz"@[0] != "pdf"@[0]);
        assert("tgz"@ != "pdf"@);
        reveal_strlit("zip");
        assert("tgz"@[0] != "zip"@[0]);
        assert("tgz"@ != "zip"@);
        reveal_strlit("gz");
        assert("tgz"@.len() != "gz"@.len());
        assert("tgz"@ != "gz"@);
    }
    assert(e == "tar"@ ==> sendfile_mime(e) == "application/x-tar"@) by {
        reveal_strlit("tar");
        reveal_strlit("pdf");
        assert("tar"@[0] != "pdf"@[0]);
        assert("tar"@ != "pdf"@);
        reveal_strlit("zip");
        assert("tar"@[0] != "zip"@[0]);
        assert("tar"@ != "zip"@);
        reveal_strlit("gz");
        assert("tar"@.len() != "gz"@.len());
        assert("tar"@ != "gz"@);
        reveal_strlit("tgz");
        assert("tar"@[1] != "tgz"@[1]);
        assert("tar"@ != "tgz"@);
    }
    assert(e == "csv"@ ==> sendfile_mime(e) == "text/csv"@) by {
        reveal_strlit("csv");
        reveal_strlit("pdf");
        assert("csv"@[0] != "pdf"@[0]);
        assert("csv"@ != "pdf"@);
        reveal_strlit("zip");
        assert("csv"@[0] != "zip"@[0]);
        assert("csv"@ != "zip"@);
        reveal_strlit("gz");
        assert("csv"@.len() != "gz"@.len());
        assert("csv"@ != "gz"@);
        reveal_strlit("tgz");
        assert("csv"@[0] != "tgz"@[0]);
        assert("csv"@ != "tgz"@);
        reveal_strlit("tar");
        assert("csv"@[0] != "tar"@[0]);
        assert("csv"@ != "tar"@);
    }
    assert(e == "xlsx"@ ==> sendfile_mime(e) == "application/vnd.openxmlformats-officedocument.spreadsheetml.sheet"@) by {
        reveal_strlit("xlsx");
        reveal_strlit("pdf");
        assert("xlsx"@.len() != "pdf"@.len());
        assert("xlsx"@ != "pdf"@);
        reveal_strlit("zip");
        assert("xlsx"@.len() != "zip"@.len());
        assert("xlsx"@ != "zip"@);
        reveal_strlit("gz");
        assert("xlsx"@.len() != "gz"@.len());
        assert("xlsx"@ != "gz"@);
        reveal_strlit("tgz");
        assert("xlsx"@.len() != "tgz"@.len());
        assert("xlsx"@ != "tgz"@);
        reveal_strlit("tar");
        assert("xlsx"@.len() != "tar"@.len());
        assert("xlsx"@ != "tar"@);
        reveal_strlit("csv");
        assert("xlsx"@.len() != "csv"@.len());
        assert("xlsx"@ != "csv"@);
    }
    assert(e == "docx"@ ==> sendfile_mime(e) == "application/vnd.openxmlformats-officedocument.wordprocessingml.document"@) by {
        reveal_strlit("docx");
        reveal_strlit("pdf");
        assert("docx"@.len() != "pdf"@.len());
        assert("docx"@ != "pdf"@);
        reveal_strlit("zip");
        assert("docx"@.len() != "zip"@.len());
        assert("docx"@ != "zip"@);
        reveal_strlit("gz");
        assert("docx"@.len() != "gz"@.len());
        assert("docx"@ != "gz"@);
        reveal_strlit("tgz");
        assert("docx"@.len() != "tgz"@.len());
        assert("docx"@ != "tgz"@);
        reveal_strlit("tar");
        assert("docx"@.len() != "tar"@.len());
        assert("docx"@ != "tar"@);
        reveal_strlit("csv");
        assert("docx"@.len() != "csv"@.len());
        assert("docx"@ != "csv"@);
        reveal_strlit("xlsx");
        assert("docx"@[0] != "xlsx"@[0]);
        assert("docx"@ != "xlsx"@);
    }
    assert(e == "png"@ ==> sendfile_mime(e) == "image/png"@) by {
        reveal_strlit("png");
        reveal_strlit("pdf");
        assert("png"@[1] != "pdf"@[1]);
        assert("png"@ != "pdf"@);
        reveal_strlit("zip");
        assert("png"@[0] != "zip"@[0]);
        assert("png"@ != "zip"@);
        reveal_strlit("gz");
        assert("png"@.len() != "gz"@.len());
        assert("png"@ != "gz"@);
        reveal_strlit("tgz");
        assert("png"@[0] != "tgz"@[0]);
        assert("png"@ != "tgz"@);
        reveal_strlit("tar");
        assert("png"@[0] != "tar"@[0]);
        assert("png"@ != "tar"@);
        reveal_strlit("csv");
        assert("png"@[0] != "csv"@[0]);
        assert("png"@ != "csv"@);
        reveal_strlit("xlsx");
        assert("png"@.len() != "xlsx"@.len());
        assert("png"@ != "xlsx"@);
        reveal_strlit("docx");
        assert("png"@.len() != "docx"@.len());
        assert("png"@ != "docx"@);
    }
    assert(e == "jpg"@ ==> sendfile_mime(e) == "image/jpeg"@) by {
        reveal_strlit("jpg");
        reveal_strlit("pdf");
        assert("jpg"@[0] != "pdf"@[0]);
        assert("jpg"@ != "pdf"@);
        reveal_strlit("zip");
        assert("jpg"@[0] != "zip"@[0]);
        assert("jpg"@ != "zip"@);
        reveal_strlit("gz");
        assert("jpg"@.len() != "gz"@.len());
        assert("jpg"@ != "gz"@);
        reveal_strlit("tgz");
        assert("jpg"@[0] != "tgz"@[0]);
        assert("jpg"@ != "tgz"@);
        reveal_strlit("tar");
        assert("jpg"@[0] != "tar"@[0]);
        assert("jpg"@ != "tar"@);
        reveal_strlit("csv");
        assert("jpg"@[0] != "csv"@[0]);
        assert("jpg"@ != "csv"@);
        reveal_strlit("xlsx");
        assert("jpg"@.len() != "xlsx"@.len());
        assert("jpg"@ != "xlsx"@);
        reveal_strlit("docx");
        assert("jpg"@.len() != "docx"@.len());
        assert("jpg"@ != "docx"@);
        reveal_strlit("png");
        assert("jpg"@[0] != "png"@[0]);
        assert("jpg"@ != "png"@);
    }
    assert(e == "jpeg"@ ==> sendfile_mime(e) == "image/jpeg"@) by {
        reveal_strlit("jpeg");
        reveal_strlit("pdf");
        assert("jpeg"@.len() != "pdf"@.len());
        assert("jpeg"@ != "pdf"@);
        reveal_strlit("zip");
        assert("jpeg"@.len() != "zip"@.len());
        assert("jpeg"@ != "zip"@);
        reveal_strlit("gz");
        assert("jpeg"@.len() != "gz"@.len());
        assert("jpeg"@ != "gz"@);
        reveal_strlit("tgz");
        assert("jpeg"@.len() != "tgz"@.len());
        assert("jpeg"@ != "tgz"@);
        reveal_strlit("tar");
        assert("jpeg"@.len() != "tar"@.len());
        assert("jpeg"@ != "tar"@);
        reveal_strlit("csv");
        assert("jpeg"@.len() != "csv"@.len());
        assert("jpeg"@ != "csv"@);
        reveal_strlit("xlsx");
        assert("jpeg"@[0] != "xlsx"@[0]);
        assert("jpeg"@ != "xlsx"@);
        reveal_strlit("docx");
        assert("jpeg"@[0] != "docx"@[0]);
        assert("jpeg"@ != "docx"@);
        reveal_strlit("png");
        assert("jpeg"@.len() != "png"@.len());
        assert("jpeg"@ != "png"@);
        reveal_strlit("jpg");
        assert("jpeg"@.len() != "jpg"@.len());
        assert("jpeg"@ != "jpg"@);
    }
    assert(e == "gif"@ ==> sendfile_mime(e) == "image/gif"@) by {
        reveal_strlit("gif");
        reveal_strlit("pdf");
        assert("gif"@[0] != "pdf"@[0]);
        assert("gif"@ != "pdf"@);
        reveal_strlit("zip");
        assert("gif"@[0] != "zip"@[0]);
        assert("gif"@ != "zip"@);
        reveal_strlit("gz");
        assert("gif"@.len() != "gz"@.len());
        assert("gif"@ != "gz"@);
        reveal_strlit("tgz");
        assert("gif"@[0] != "tgz"@[0]);
        assert("gif"@ != "tgz"@);
        reveal_strlit("tar");
        assert("gif"@[0] != "tar"@[0]);
        assert("gif"@ != "tar"@);
        reveal_strlit("csv");
        assert("gif"@[0] != "csv"@[0]);
        assert("gif"@ != "csv"@);
        reveal_strlit("xlsx");
        assert("gif"@.len() != "xlsx"@.len());
        assert("gif"@ != "xlsx"@);
        reveal_strlit("docx");
        assert("gif"@.len() != "docx"@.len());
        assert("gif"@ != "docx"@);
        reveal_strlit("png");
        assert("gif"@[0] != "png"@[0]);
        assert("gif"@ != "png"@);
        reveal_strlit("jpg");
        assert("gif"@[0] != "jpg"@[0]);
        assert("gif"@ != "jpg"@);
        reveal_strlit("jpeg");
        assert("gif"@.len() != "jpeg"@.len());
        assert("gif"@ != "jpeg"@);
    }
    assert(e == "webp"@ ==> sendfile_mime(e) == "image/webp"@) by {
        reveal_strlit("webp");
        reveal_strlit("pdf");
        assert("webp"@.len() != "pdf"@.len());
        assert("webp"@ != "pdf"@);
        reveal_strlit("zip");
        assert("webp"@.len() != "zip"@.len());
        assert("webp"@ != "zip"@);
        reveal_strlit("gz");
        assert("webp"@.len() != "gz"@.len());
        assert("webp"@ != "gz"@);
        reveal_strlit("tgz");
        assert("webp"@.len() != "tgz"@.len());
        assert("webp"@ != "tgz"@);
        reveal_strlit("tar");
        assert("webp"@.len() != "tar"@.len());
        assert("webp"@ != "tar"@);
        reveal_strlit("csv");
        assert("webp"@.len() != "csv"@.len());
        assert("webp"@ != "csv"@);
        reveal_strlit("xlsx");
        assert("webp"@[0] != "xlsx"@[0]);
        assert("webp"@ != "xlsx"@);
        reveal_strlit("docx");
        assert("webp"@[0] != "docx"@[0]);
        assert("webp"@ != "docx"@);
        reveal_strlit("png");
        assert("webp"@.len() != "png"@.len());
        assert("webp"@ != "png"@);
        reveal_strlit("jpg");
        assert("webp"@.len() != "jpg"@.len());
        assert("webp"@ != "jpg"@);
        reveal_strlit("jpeg");
        assert("webp"@[0] != "jpeg"@[0]);
        assert("webp"@ != "jpeg"@);
        reveal_strlit("gif");
        assert("webp"@.len() != "gif"@.len());
        assert("webp"@ != "gif"@);
    }
    assert(e == "svg"@ ==> sendfile_mime(e) == "image/svg+xml"@) by {
        reveal_strlit("svg");
        reveal_strlit("pdf");
        assert("svg"@[0] != "pdf"@[0]);
        assert("svg"@ != "pdf"@);
        reveal_strlit("zip");
        assert("svg"@[0] != "zip"@[0]);
        assert("svg"@ != "zip"@);
        reveal_strlit("gz");
        assert("svg"@.len() != "gz"@.len());
        assert("svg"@ != "gz"@);
        reveal_strlit("tgz");
        assert("svg"@[0] != "tgz"@[0]);
        assert("svg"@ != "tgz"@);
        reveal_strlit("tar");
        assert("svg"@[0] != "tar"@[0]);
        assert("svg"@ != "tar"@);
        reveal_strlit("csv");
        assert("svg"@[0] != "csv"@[0]);
        assert("svg"@ != "csv"@);
        reveal_strlit("xlsx");
        assert("svg"@.len() != "xlsx"@.len());
        assert("svg"@ != "xlsx"@);
        reveal_strlit("docx");
        assert("svg"@.len() != "docx"@.len());
        assert("svg"@ != "docx"@);
        reveal_strlit("png");
        assert("svg"@[0] != "png"@[0]);
        assert("svg"@ != "png"@);
        reveal_strlit("jpg");
        assert("svg"@[0] != "jpg"@[0]);
        assert("svg"@ != "jpg"@);
        reveal_strlit("jpeg");
        assert("svg"@.len() != "jpeg"@.len());
        assert("svg"@ != "jpeg"@);
        reveal_strlit("gif");
        assert("svg"@[0] != "gif"@[0]);
        assert("svg"@ != "gif"@);
        reveal_strlit("webp");
        assert("svg"@.len() != "webp"@.len());
        assert("svg"@ != "webp"@);
    }
    assert(e == "mp4"@ ==> sendfile_mime(e) == "video/mp4"@) by {
        reveal_strlit("mp4");
        reveal_strlit("pdf");
        assert("mp4"@[0] != "pdf"@[0]);
        assert("mp4"@ != "pdf"@);
        reveal_strlit("zip");
        assert("mp4"@[0] != "zip"@[0]);
        assert("mp4"@ != "zip"@);
        reveal_strlit("gz");
        assert("mp4"@.len() != "gz"@.len());
        assert("mp4"@ != "gz"@);
        reveal_strlit("tgz");
        assert("mp4"@[0] != "tgz"@[0]);
        assert("mp4"@ != "tgz"@);
        reveal_strlit("tar");
        assert("mp4"@[0] != "tar"@[0]);
        assert("mp4"@ != "tar"@);
        reveal_strlit("csv");
        assert("mp4"@[0] != "csv"@[0]);
        assert("mp4"@ != "csv"@);
        reveal_strlit("xlsx");
        assert("mp4"@.len() != "xlsx"@.len());
        assert("mp4"@ != "xlsx"@);
        reveal_strlit("docx");
        assert("mp4"@.len() != "docx"@.len());
        assert("mp4"@ != "docx"@);
        reveal_strlit("png");
        assert("mp4"@[0] != "png"@[0]);
        assert("mp4"@ != "png"@);
        reveal_strlit("jpg");
        assert("mp4"@[0] != "jpg"@[0]);
        assert("mp4"@ != "jpg"@);
        reveal_strlit("jpeg");
        assert("mp4"@.len() != "jpeg"@.len());
        assert("mp4"@ != "jpeg"@);
        reveal_strlit("gif");
        assert("mp4"@[0] != "gif"@[0]);
        assert("mp4"@ != "gif"@);
        reveal_strlit("webp");
        assert("mp4"@.len() != "webp"@.len());
        assert("mp4"@ != "webp"@);
        reveal_strlit("svg");
        assert("mp4"@[0] != "svg"@[0]);
        assert("mp4"@ != "svg"@);
    }
    assert(e == "mp3"@ ==> sendfile_mime(e) == "audio/mpeg"@) by {
        reveal_strlit("mp3");
        reveal_strlit("pdf");
        assert("mp3"@[0] != "pdf"@[0]);
        assert("mp3"@ != "pdf"@);
        reveal_strlit("zip");
        assert("mp3"@[0] != "zip"@[0]);
        assert("mp3"@ != "zip"@);
        reveal_strlit("gz");
        assert("mp3"@.len() != "gz"@.len());
        assert("mp3"@ != "gz"@);
        reveal_strlit("tgz");
        assert("mp3"@[0] != "tgz"@[0]);
        assert("mp3"@ != "tgz"@);
        reveal_strlit("tar");
        assert("mp3"@[0] != "tar"@[0]);
        assert("mp3"@ != "tar"@);
        reveal_strlit("csv");
        assert("mp3"@[0] != "csv"@[0]);
        assert("mp3"@ != "csv"@);
        reveal_strlit("xlsx");
        assert("mp3"@.len() != "xlsx"@.len());
        assert("mp3"@ != "xlsx"@);
        reveal_strlit("docx");
        assert("mp3"@.len() != "docx"@.len());
        assert("mp3"@ != "docx"@);
        reveal_strlit("png");
        assert("mp3"@[0] != "png"@[0]);
        assert("mp3"@ != "png"@);
        reveal_strlit("jpg");
        assert("mp3"@[0] != "jpg"@[0]);
        assert("mp3"@ != "jpg"@);
        reveal_strlit("jpeg");
        assert("mp3"@.len() != "jpeg"@.len());
        assert("mp3"@ != "jpeg"@);
        reveal_strlit("gif");
        assert("mp3"@[0] != "gif"@[0]);
        assert("mp3"@ != "gif"@);
        reveal_strlit("webp");
        assert("mp3"@.len() != "webp"@.len());
        assert("mp3"@ != "webp"@);
        reveal_strlit("svg");
        assert("mp3"@[0] != "svg"@[0]);
        assert("mp3"@ != "svg"@);
        reveal_strlit("mp4");
        assert("mp3"@[2] != "mp4"@[2]);
        assert("mp3"@ != "mp4"@);
    }
    assert(e == "txt"@ ==> sendfile_mime(e) == "text/plain"@) by {
        reveal_strlit("txt");
        reveal_strlit("pdf");
        assert("txt"@[0] != "pdf"@[0]);
        assert("txt"@ != "pdf"@);
        reveal_strlit("zip");
        assert("txt"@[0] != "zip"@[0]);
        assert("txt"@ != "zip"@);
        reveal_strlit("gz");
        assert("txt"@.len() != "gz"@.len());
        assert("txt"@ != "gz"@);
        reveal_strlit("tgz");
        assert("txt"@[1] != "tgz"@[1]);
        assert("txt"@ != "tgz"@);
        reveal_strlit("tar");
        assert("txt"@[1] != "tar"@[1]);
        assert("txt"@ != "tar"@);
        reveal_strlit("csv");
        assert("txt"@[0] != "csv"@[0]);
        assert("txt"@ != "csv"@);
        reveal_strlit("xlsx");
        assert("txt"@.len() != "xlsx"@.len());
        assert("txt"@ != "xlsx"@);
        reveal_strlit("docx");
        assert("txt"@.len() != "docx"@.len());
        assert("txt"@ != "docx"@);
        reveal_strlit("png");
        assert("txt"@[0] != "png"@[0]);
        assert("txt"@ != "png"@);
        reveal_strlit("jpg");
        assert("txt"@[0] != "jpg"@[0]);
        assert("txt"@ != "jpg"@);
        reveal_strlit("jpeg");
        assert("txt"@.len() != "jpeg"@.len());
        assert("txt"@ != "jpeg"@);
        reveal_strlit("gif");
        assert("txt"@[0] != "gif"@[0]);
        assert("txt"@ != "gif"@);
        reveal_strlit("webp");
        assert("txt"@.len() != "webp"@.len());
        assert("txt"@ != "webp"@);
        reveal_strlit("svg");
        assert("txt"@[0] != "svg"@[0]);
        assert("txt"@ != "svg"@);
        reveal_strlit("mp4");
        assert("txt"@[0] != "mp4"@[0]);
        assert("txt"@ != "mp4"@);
        reveal_strlit("mp3");
        assert("txt"@[0] != "mp3"@[0]);
        assert("txt"@ != "mp3"@);
    }
    assert(e == "html"@ ==> sendfile_mime(e) == "text/html"@) by {
        reveal_strlit("html");
        reveal_strlit("pdf");
        assert("html"@.len() != "pdf"@.len());
        assert("html"@ != "pdf"@);
        reveal_strlit("zip");
        assert("html"@.len() != "zip"@.len());
        assert("html"@ != "zip"@);
        reveal_strlit("gz");
        assert("html"@.len() != "gz"@.len());
        assert("html"@ != "gz"@);
        reveal_strlit("tgz");
        assert("html"@.len() != "tgz"@.len());
        assert("html"@ != "tgz"@);
        reveal_strlit("tar");
        assert("html"@.len() != "tar"@.len());
        assert("html"@ != "tar"@);
        reveal_strlit("csv");
        assert("html"@.len() != "csv"@.len());
        assert("html"@ != "csv"@);
        reveal_strlit("xlsx");
        assert("html"@[0] != "xlsx"@[0]);
        assert("html"@ != "xlsx"@);
        reveal_strlit("docx");
        assert("html"@[0] != "docx"@[0]);
        assert("html"@ != "docx"@);
        reveal_strlit("png");
        assert("html"@.len() != "png"@.len());
        assert("html"@ != "png"@);
        reveal_strlit("jpg");
        assert("html"@.len() != "jpg"@.len());
        assert("html"@ != "jpg"@);
        reveal_strlit("jpeg");
        assert("html"@[0] != "jpeg"@[0]);
        assert("html"@ != "jpeg"@);
        reveal_strlit("gif");
        assert("html"@.len() != "gif"@.len());
        assert("html"@ != "gif"@);
        reveal_strlit("webp");
        assert("html"@[0] != "webp"@[0]);
        assert("html"@ != "webp"@);
        reveal_strlit("svg");
        assert("html"@.len() != "svg"@.len());
        assert("html"@ != "svg"@);
        reveal_strlit("mp4");
        assert("html"@.len() != "mp4"@.len());
        assert("html"@ != "mp4"@);
        reveal_strlit("mp3");
        assert("html"@.len() != "mp3"@.len());
        assert("html"@ != "mp3"@);
        reveal_strlit("txt");
        assert("html"@.len() != "txt"@.len());
        assert("html"@ != "txt"@);
    }
    assert(e == "htm"@ ==> sendfile_mime(e) == "text/html"@) by {
        reveal_strlit("htm");
        reveal_strlit("pdf");
        assert("htm"@[0] != "pdf"@[0]);
        assert("htm"@ != "pdf"@);
        reveal_strlit("zip");
        assert("htm"@[0] != "zip"@[0]);
        assert("htm"@ != "zip"@);
        reveal_strlit("gz");
        assert("htm"@.len() != "gz"@.len());
        assert("htm"@ != "gz"@);
        reveal_strlit("tgz");
        assert("htm"@[0] != "tgz"@[0]);
        assert("htm"@ != "tgz"@);
        reveal_strlit("tar");
        assert("htm"@[0] != "tar"@[0]);
        assert("htm"@ != "tar"@);
        reveal_strlit("csv");
        assert("htm"@[0] != "csv"@[0]);
        assert("htm"@ != "csv"@);
        reveal_strlit("xlsx");
        assert("htm"@.len() != "xlsx"@.len());
        assert("htm"@ != "xlsx"@);
        reveal_strlit("docx");
        assert("htm"@.len() != "docx"@.len());
        assert("htm"@ != "docx"@);
        reveal_strlit("png");
        assert("htm"@[0] != "png"@[0]);
        assert("htm"@ != "png"@);
        reveal_strlit("jpg");
        assert("htm"@[0] != "jpg"@[0]);
        assert("htm"@ != "jpg"@);
        reveal_strlit("jpeg");
        assert("htm"@.len() != "jpeg"@.len());
        assert("htm"@ != "jpeg"@);
        reveal_strlit("gif");
        assert("htm"@[0] != "gif"@[0]);
        assert("htm"@ != "gif"@);
        reveal_strlit("webp");
        assert("htm"@.len() != "webp"@.len());
        assert("htm"@ != "webp"@);
        reveal_strlit("svg");
        assert("htm"@[0] != "svg"@[0]);
        assert("htm"@ != "svg"@);
        reveal_strlit("mp4");
        assert("htm"@[0] != "mp4"@[0]);
        assert("htm"@ != "mp4"@);
        reveal_strlit("mp3");
        assert("htm"@[0] != "mp3"@[0]);
        assert("htm"@ != "mp3"@);
        reveal_strlit("txt");
        assert("htm"@[0] != "txt"@[0]);
        assert("htm"@ != "txt"@);
        reveal_strlit("html");
        assert("htm"@.len() != "html"@.len());
        assert("htm"@ != "html"@);
    }
    assert(e == "json"@ ==> sendfile_mime(e) == "application/json"@) by {
        reveal_strlit("json");
        reveal_strlit("pdf");
        assert("json"@.len() != "pdf"@.len());
        assert("json"@ != "pdf"@);
        reveal_strlit("zip");
        assert("json"@.len() != "zip"@.len());
        assert("json"@ != "zip"@);
        reveal_strlit("gz");
        assert("json"@.len() != "gz"@.len());
        assert("json"@ != "gz"@);
        reveal_strlit("tgz");
        assert("json"@.len() != "tgz"@.len());
        assert("json"@ != "tgz"@);
        reveal_strlit("tar");
        assert("json"@.len() != "tar"@.len());
        assert("json"@ != "tar"@);
        reveal_strlit("csv");
        assert("json"@.len() != "csv"@.len());
        assert("json"@ != "csv"@);
        reveal_strlit("xlsx");
        assert("json"@[0] != "xlsx"@[0]);
        assert("json"@ != "xlsx"@);
        reveal_strlit("docx");
        assert("json"@[0] != "docx"@[0]);
        assert("json"@ != "docx"@);
        reveal_strlit("png");
        assert("json"@.len() != "png"@.len());
        assert("json"@ != "png"@);
        reveal_strlit("jpg");
        assert("json"@.len() != "jpg"@.len());
        assert("json"@ != "jpg"@);
        reveal_strlit("jpeg");
        assert("json"@[1] != "jpeg"@[1]);
        assert("json"@ != "jpeg"@);
        reveal_strlit("gif");
        assert("json"@.len() != "gif"@.len());
        assert("json"@ != "gif"@);
        reveal_strlit("webp");
        assert("json"@[0] != "webp"@[0]);
        assert("json"@ != "webp"@);
        reveal_strlit("svg");
        assert("json"@.len() != "svg"@.len());
        assert("json"@ != "svg"@);
        reveal_strlit("mp4");
        assert("json"@.len() != "mp4"@.len());
        assert("json"@ != "mp4"@);
        reveal_strlit("mp3");
        assert("json"@.len() != "mp3"@.len());
        assert("json"@ != "mp3"@);
        reveal_strlit("txt");
        assert("json"@.len() != "txt"@.len());
        assert("json"@ != "txt"@);
        reveal_strlit("html");
        assert("json"@[0] != "html"@[0]);
        assert("json"@ != "html"@);
        reveal_strlit("htm");
        assert("json"@.len() != "htm"@.len());
        assert("json"@ != "htm"@);
    }
    assert(e == "xml"@ ==> sendfile_mime(e) == "application/xml"@) by {
        reveal_strlit("xml");
        reveal_strlit("pdf");
        assert("xml"@[0] != "pdf"@[0]);
        assert("xml"@ != "pdf"@);
        reveal_strlit("zip");
        assert("xml"@[0] != "zip"@[0]);
        assert("xml"@ != "zip"@);
        reveal_strlit("gz");
        assert("xml"@.len() != "gz"@.len());
        assert("xml"@ != "gz"@);
        reveal_strlit("tgz");
        assert("xml"@[0] != "tgz"@[0]);
        assert("xml"@ != "tgz"@);
        reveal_strlit("tar");
        assert("xml"@[0] != "tar"@[0]);
        assert("xml"@ != "tar"@);
        reveal_strlit("csv");
        assert("xml"@[0] != "csv"@[0]);
        assert("xml"@ != "csv"@);
        reveal_strlit("xlsx");
        assert("xml"@.len() != "xlsx"@.len());
        assert("xml"@ != "xlsx"@);
        reveal_strlit("docx");
        assert("xml"@.len() != "docx"@.len());
        assert("xml"@ != "docx"@);
        reveal_strlit("png");
        assert("xml"@[0] != "png"@[0]);
        assert("xml"@ != "png"@);
        reveal_strlit("jpg");
        assert("xml"@[0] != "jpg"@[0]);
        assert("xml"@ != "jpg"@);
        reveal_strlit("jpeg");
        assert("xml"@.len() != "jpeg"@.len());
        assert("xml"@ != "jpeg"@);
        reveal_strlit("gif");
        assert("xml"@[0] != "gif"@[0]);
        assert("xml"@ != "gif"@);
        reveal_strlit("webp");
        assert("xml"@.len() != "webp"@.len());
        assert("xml"@ != "webp"@);
        reveal_strlit("svg");
        assert("xml"@[0] != "svg"@[0]);
        assert("xml"@ != "svg"@);
        reveal_strlit("mp4");
        assert("xml"@[0] != "mp4"@[0]);
        assert("xml"@ != "mp4"@);
        reveal_strlit("mp3");
        assert("xml"@[0] != "mp3"@[0]);
        assert("xml"@ != "mp3"@);
        reveal_strlit("txt");
        assert("xml"@[0] != "txt"@[0]);
        assert("xml"@ != "txt"@);
        reveal_strlit("html");
        assert("xml"@.len() != "html"@.len());
        assert("xml"@ != "html"@);
        reveal_strlit("htm");
        assert("xml"@[0] != "htm"@[0]);
        assert("xml"@ != "htm"@);
        reveal_strlit("json");
        assert("xml"@.len() != "json"@.len());
        assert("xml"@ != "json"@);
    }
}

fn is(e: &[char], lit: &str) -> (r: bool)
    ensures
        r == (e@ == lit@),
{
    let l = chars_of(lit);
    chars_eq(e, l.as_slice())
}

/// The extension of `path` (`Path::extension`), or empty when it has none.
pub fn extension_chars(path: &[char]) -> (r: Vec<char>)
    ensures
        r@ == match extension(path@) {
            Some(e) => e,
            None => Seq::<char>::empty(),
        },
{
    let comps = crate::paths::components_chars(path);
    if comps.len() == 0 {
        return Vec::new();
    }
    let f = &comps[comps.len() - 1];
    assert(f@ == crate::paths::components(path@).last()) by {
        assert(views(comps@)[comps@.len() - 1] == comps@[comps@.len() - 1]@);
    }
    if is(f.as_slice(), "..") {
        return Vec::new();
    }
    let parts = split_chars(f.as_slice(), '.');
    if parts.len() < 2 || (parts.len() == 2 && parts[0].len() == 0) {
        proof {
            assert(views(parts@)[0] == parts@[0]@);
        }
        return Vec::new();
    }
    let last = &parts[parts.len() - 1];
    assert(views(parts@)[parts@.len() - 1] == parts@[parts@.len() - 1]@);
    assert(views(parts@)[0] == parts@[0]@);
    sub_chars(last.as_slice(), 0, last.len())
}

/// MIME type for a file served through X-Sendfile.
pub fn mime_for_sendfile(path: &str) -> (r: String)
    ensures
        r@ == sendfile_mime(match extension(path@) {
            Some(e) => e,
            None => Seq::<char>::empty(),
        }),
        sendfile_table(
            match extension(path@) {
                Some(e) => e,
                None => Seq::<char>::empty(),
            },
            r@,
        ),
{
    proof {
        lemma_sendfile_table(match extension(path@) {
            Some(e) => e,
            None => Seq::<char>::empty(),
        });
    }
    let p = chars_of(path);
    let e = extension_chars(p.as_slice());
    let e = e.as_slice();
    let m = if is(e, "pdf") {
        "application/pdf"
    } else if is(e, "zip") {
        "application/zip"
    } else if is(e, "gz") || is(e, "tgz") {
        "application/gzip"
    } else if is(e, "tar") {
        "application/x-tar"
    } else if is(e, "csv") {
        "text/csv"
    } else if is(e, "xlsx") {
        "application/vnd.openxmlformats-officedocument.spreadsheetml.sheet"
    } else if is(e, "docx") {
        "application/vnd.openxmlformats-officedocument.wordprocessingml.document"
    } else if is(e, "png") {
        "image/png"
    } else if is(e, "jpg") || is(e, "jpeg") {
        "image/jpeg"
    } else if is(e, "gif") {
        "image/gif"
    } else if is(e, "webp") {
        "image/webp"
    } else if is(e, "svg") {
        "image/svg+xml"
    } else if is(e, "mp4") {
        "video/mp4"
    } else if is(e, "mp3") {
        "audio/mpeg"
    } else if is(e, "txt") {
        "text/plain"
    } else if is(e, "html") || is(e, "htm") {
        "text/html"
    } else if is(e, "json") {
        "application/json"
    } else if is(e, "xml") {
        "application/xml"
    } else {
        "application/octet-stream"
    };
    m.to_string()
}

/// PHP helper code that defines the `turbine_log()` function.
pub const PHP_LOG_FUNCTION: &'static str = r#"if (!function_exists('turbine_log')) {
    function turbine_log(string $message, string $level = 'info', array $context = []): void {
        $entry = ['level' => $level, 'msg' => $message];
        foreach ($context as $k => $v) {
            $entry[$k] = is_scalar($v) ? (string)$v : json_encode($v);
        }
        echo "\x5f\x5fTURBINE_LOG__\t" . json_encode($entry, JSON_UNESCAPED_SLASHES) . "\n";
    }
}
"#;

/// PHP helpers for the shared-table API (`turbine_table_*()`), which
/// round-trip through the internal HTTP endpoints under `/_/table`.
pub const PHP_TABLE_FUNCTIONS: &'static str = r#"if (!function_exists('turbine_table_request')) {
    function turbine_table_request(string $method, string $path, ?string $body = null): array {
        static $base = null, $token = null;
        if ($base === null) {
            $base  = getenv('TURBINE_TABLE_URL')
                  ?: ('http://127.0.0.1:' . ($_SERVER['SERVER_PORT'] ?? '8080'));
            $token = getenv('TURBINE_TOKEN') ?: '';
        }
        $url = rtrim($base, '/') . $path;
        $headers = ['Expect:', 'Content-Type: application/octet-stream'];
        if ($token !== '') $headers[] = 'Authorization: Bearer ' . $token;

        $ch = curl_init($url);
        curl_setopt_array($ch, [
            CURLOPT_CUSTOMREQUEST  => $method,
            CURLOPT_RETURNTRANSFER => true,
            CURLOPT_TIMEOUT_MS     => 2000,
            CURLOPT_CONNECTTIMEOUT_MS => 500,
            CURLOPT_HTTPHEADER     => $headers,
            CURLOPT_TCP_KEEPALIVE  => 1,
        ]);
        if ($body !== null) curl_setopt($ch, CURLOPT_POSTFIELDS, $body);
        $resp = curl_exec($ch);
        $code = curl_getinfo($ch, CURLINFO_RESPONSE_CODE);
        curl_close($ch);
        return [(int)$code, $resp === false ? '' : (string)$resp];
    }
}

if (!function_exists('turbine_table_get')) {
    function turbine_table_get(string $key): ?string {
        [$code, $body] = turbine_table_request('GET', '/_/table/get?key=' . rawurlencode($key));
        return $code === 200 ? $body : null;
    }
}

if (!function_exists('turbine_table_set')) {
    function turbine_table_set(string $key, string $value, int $ttl_ms = 0): bool {
        $q = '/_/table/set?key=' . rawurlencode($key);
        if ($ttl_ms > 0) $q .= '&ttl_ms=' . $ttl_ms;
        [$code] = turbine_table_request('POST', $q, $value);
        return $code === 204;
    }
}

if (!function_exists('turbine_table_del')) {
    function turbine_table_del(string $key): bool {
        [$code, $body] = turbine_table_request('DELETE', '/_/table/del?key=' . rawurlencode($key));
        return $code === 200 && str_contains($body, '"deleted":true');
    }
}

if (!function_exists('turbine_table_exists')) {
    function turbine_table_exists(string $key): bool {
        [$code] = turbine_table_request('GET', '/_/table/exists?key=' . rawurlencode($key));
        return $code === 200;
    }
}

if (!function_exists('turbine_table_incr')) {
    function turbine_table_incr(string $key, int $delta = 1): ?int {
        $q = '/_/table/incr?key=' . rawurlencode($key) . '&delta=' . $delta;
        [$code, $body] = turbine_table_request('POST', $q);
        if ($code !== 200) return null;
        return preg_match('/"value":(-?\d+)/', $body, $m) ? (int)$m[1] : null;
    }
}

if (!function_exists('turbine_table_size')) {
    function turbine_table_size(): int {
        [$code, $body] = turbine_table_request('GET', '/_/table/size');
        if ($code !== 200) return 0;
        return preg_match('/"size":(\d+)/', $body, $m) ? (int)$m[1] : 0;
    }
}
"#;

/// PHP helpers for the task queue (`turbine_task_*()`); they share the
/// transport of the shared-table helpers.
pub const PHP_TASK_FUNCTIONS: &'static str = r#"if (!function_exists('turbine_task_request')) {
    function turbine_task_request(string $method, string $path, ?string $body = null, int $timeout_ms = 2000): array {
        static $base = null, $token = null;
        if ($base === null) {
            $base  = getenv('TURBINE_TABLE_URL')
                  ?: ('http://127.0.0.1:' . ($_SERVER['SERVER_PORT'] ?? '8080'));
            $token = getenv('TURBINE_TOKEN') ?: '';
        }
        $url = rtrim($base, '/') . $path;
        $headers = ['Expect:', 'Content-Type: application/octet-stream'];
        if ($token !== '') $headers[] = 'Authorization: Bearer ' . $token;
        $ch = curl_init($url);
        curl_setopt_array($ch, [
            CURLOPT_CUSTOMREQUEST     => $method,
            CURLOPT_RETURNTRANSFER    => true,
            CURLOPT_HEADER            => true,
            CURLOPT_TIMEOUT_MS        => $timeout_ms,
            CURLOPT_CONNECTTIMEOUT_MS => 1000,
            CURLOPT_HTTPHEADER        => $headers,
            CURLOPT_TCP_KEEPALIVE     => 1,
        ]);
        if ($body !== null) curl_setopt($ch, CURLOPT_POSTFIELDS, $body);
        $resp = curl_exec($ch);
        $code = curl_getinfo($ch, CURLINFO_RESPONSE_CODE);
        $hlen = curl_getinfo($ch, CURLINFO_HEADER_SIZE);
        curl_close($ch);
        if ($resp === false) return [0, '', ''];
        return [(int)$code, substr((string)$resp, (int)$hlen), substr((string)$resp, 0, (int)$hlen)];
    }
}

if (!function_exists('turbine_task_push')) {
    function turbine_task_push(string $channel, string $payload): ?int {
        $q = '/_/task/push?channel=' . rawurlencode($channel);
        [$code, $body] = turbine_task_request('POST', $q, $payload);
        if ($code !== 200) return null;
        return preg_match('/"id":(\d+)/', $body, $m) ? (int)$m[1] : null;
    }
}

if (!function_exists('turbine_task_pop')) {
    function turbine_task_pop(string $channel, int $wait_ms = 0): ?array {
        $q = '/_/task/pop?channel=' . rawurlencode($channel) . '&wait_ms=' . $wait_ms;
        [$code, $body, $headers] = turbine_task_request('POST', $q, null, $wait_ms + 2000);
        if ($code !== 200) return null;
        $id = 0;
        foreach (explode("\r\n", $headers) as $h) {
            if (stripos($h, 'X-Task-Id:') === 0) {
                $id = (int)trim(substr($h, 10));
                break;
            }
        }
        return ['id' => $id, 'payload' => $body];
    }
}

if (!function_exists('turbine_task_size')) {
    function turbine_task_size(string $channel): int {
        $q = '/_/task/size?channel=' . rawurlencode($channel);
        [$code, $body] = turbine_task_request('GET', $q);
        if ($code !== 200) return 0;
        return preg_match('/"size":(\d+)/', $body, $m) ? (int)$m[1] : 0;
    }
}

if (!function_exists('turbine_task_stats')) {
    function turbine_task_stats(): array {
        [$code, $body] = turbine_task_request('GET', '/_/task/stats');
        if ($code !== 200) return [];
        return (array)(json_decode($body, true) ?: []);
    }
}
"#;

/// PHP helpers for the WebSocket hub (`turbine_ws_publish()`,
/// `turbine_ws_subscribers()`).
pub const PHP_WS_FUNCTIONS: &'static str = r#"if (!function_exists('turbine_ws_publish')) {
    function turbine_ws_publish(string $channel, string $payload): ?int {
        static $base = null, $token = null;
        if ($base === null) {
            $base  = getenv('TURBINE_TABLE_URL')
                  ?: ('http://127.0.0.1:' . ($_SERVER['SERVER_PORT'] ?? '8080'));
            $token = getenv('TURBINE_TOKEN') ?: '';
        }
        $url = rtrim($base, '/') . '/_/ws/publish?channel=' . rawurlencode($channel);
        $headers = ['Expect:', 'Content-Type: application/octet-stream'];
        if ($token !== '') $headers[] = 'Authorization: Bearer ' . $token;
        $ch = curl_init($url);
        curl_setopt_array($ch, [
            CURLOPT_CUSTOMREQUEST     => 'POST',
            CURLOPT_POSTFIELDS        => $payload,
            CURLOPT_RETURNTRANSFER    => true,
            CURLOPT_TIMEOUT_MS        => 2000,
            CURLOPT_CONNECTTIMEOUT_MS => 500,
            CURLOPT_HTTPHEADER        => $headers,
            CURLOPT_TCP_KEEPALIVE     => 1,
        ]);
        $resp = curl_exec($ch);
        $code = curl_getinfo($ch, CURLINFO_RESPONSE_CODE);
        curl_close($ch);
        if ($resp === false || $code !== 200) return null;
        return preg_match('/"delivered":(\d+)/', (string)$resp, $m) ? (int)$m[1] : 0;
    }
}

if (!function_exists('turbine_ws_subscribers')) {
    function turbine_ws_subscribers(string $channel): int {
        static $base = null, $token = null;
        if ($base === null) {
            $base  = getenv('TURBINE_TABLE_URL')
                  ?: ('http://127.0.0.1:' . ($_SERVER['SERVER_PORT'] ?? '8080'));
            $token = getenv('TURBINE_TOKEN') ?: '';
        }
        $url = rtrim($base, '/') . '/_/ws/subscribers?channel=' . rawurlencode($channel);
        $headers = ['Expect:'];
        if ($token !== '') $headers[] = 'Authorization: Bearer ' . $token;
        $ch = curl_init($url);
        curl_setopt_array($ch, [
            CURLOPT_RETURNTRANSFER    => true,
            CURLOPT_TIMEOUT_MS        => 2000,
            CURLOPT_CONNECTTIMEOUT_MS => 500,
            CURLOPT_HTTPHEADER        => $headers,
        ]);
        $resp = curl_exec($ch);
        curl_close($ch);
        if ($resp === false) return 0;
        return preg_match('/"subscribers":(\d+)/', (string)$resp, $m) ? (int)$m[1] : 0;
    }
}
"#;

// ── Structured logging ──

/// Marker for structured log messages from PHP.
pub const TURBINE_LOG_MARKER: &'static str = "__TURBINE_LOG__\t";

/// A structured log entry from PHP.
pub struct PhpLogEntry {
    pub level: String,
    pub message: String,
    pub context: Vec<(String, String)>,
}

/// A log entry as plain sequences.
pub struct LogEntryView {
    pub level: Seq<char>,
    pub message: Seq<char>,
    pub context: Seq<(Seq<char>, Seq<char>)>,
}

impl View for PhpLogEntry {
    type V = LogEntryView;

    open spec fn view(&self) -> LogEntryView {
        LogEntryView { level: self.level@, message: self.message@, context: pair_views(self.context@) }
    }
}

/// The fields of a flat JSON object body from index `i` on, split at
/// commas outside double quotes (a quote preceded by a backslash does not
/// count); `start` is where the current field began, `inq` whether a
/// quoted string is open.  A trailing empty field is dropped.
pub open spec fn json_fields_from(s: Seq<char>, i: int, start: int, inq: bool) -> Seq<Seq<char>>
    decreases s.len() - i,
{
    if i >= s.len() {
        if start < s.len() {
            seq![s.subrange(start, s.len() as int)]
        } else {
            seq![]
        }
    } else if s[i] == '"' && (i == 0 || s[i - 1] != '\\') {
        json_fields_from(s, i + 1, start, !inq)
    } else if s[i] == ',' && !inq {
        seq![s.subrange(start, i)] + json_fields_from(s, i + 1, i + 1, inq)
    } else {
        json_fields_from(s, i + 1, start, inq)
    }
}

/// The comma-separated fields of a flat JSON object body.
pub open spec fn json_fields(s: Seq<char>) -> Seq<Seq<char>> {
    json_fields_from(s, 0, 0, false)
}

/// Split JSON fields, respecting quoted strings.
pub fn split_json_fields(s: &str) -> (r: Vec<String>)
    ensures
        crate::config::str_views(r@) == json_fields(s@),
{
    let c = chars_of(s);
    let mut r: Vec<String> = Vec::new();
    let mut start: usize = 0;
    let mut inq = false;
    let mut i: usize = 0;
    assert(crate::config::str_views(r@) =~= Seq::<Seq<char>>::empty());
    while i < c.len()
        invariant
            start <= i <= c@.len(),
            c@ == s@,
            crate::config::str_views(r@) + json_fields_from(s@, i as int, start as int, inq) == json_fields(s@),
        decreases c.len() - i,
    {
        if c[i] == '"' && (i == 0 || c[i - 1] != '\\') {
            inq = !inq;
        } else if c[i] == ',' && !inq {
            let piece = sub_chars(c.as_slice(), start, i);
            let ghost before = r@;
            r.push(string_of(piece.as_slice()));
            assert(crate::config::str_views(r@) =~= crate::config::str_views(before).push(piece@));
            assert(crate::config::str_views(r@) + json_fields_from(s@, i + 1, i + 1, inq)
                =~= crate::config::str_views(before) + json_fields_from(s@, i as int, start as int, inq));
            start = i + 1;
        }
        i = i + 1;
    }
    if start < c.len() {
        let piece = sub_chars(c.as_slice(), start, c.len());
        let ghost before = r@;
        r.push(string_of(piece.as_slice()));
        assert(crate::config::str_views(r@) =~= crate::config::str_views(before).push(piece@));
    } else {
        assert(crate::config::str_views(r@) + json_fields_from(s@, i as int, start as int, inq) =~= crate::config::str_views(r@));
    }
    r
}

/// A field's key or value: trimmed of whitespace, then of double quotes.
pub open spec fn unquote(s: Seq<char>) -> Seq<char> {
    trim(trim_ws(s), CharClass::Exactly('"'))
}

/// Level, message and context read from the fields, starting from level
/// "info" and an empty message: `level` sets the level, `msg` or
/// `message` the message, any other key adds context; fields without a
/// `:` are skipped.
pub open spec fn log_fold(fields: Seq<Seq<char>>) -> LogEntryView
    decreases fields.len(),
{
    if fields.len() == 0 {
        LogEntryView { level: "info"@, message: seq![], context: seq![] }
    } else {
        let e = log_fold(fields.drop_last());
        match split_once_spec(fields.last(), ':') {
            Some((k, v)) => {
                let key = unquote(k);
                let value = unquote(v);
                if key == "level"@ {
                    LogEntryView { level: value, ..e }
                } else if key == "msg"@ || key == "message"@ {
                    LogEntryView { message: value, ..e }
                } else {
                    LogEntryView { context: e.context.push((key, value)), ..e }
                }
            },
            None => e,
        }
    }
}

/// What `parse_log_json` returns: the entry read from the fields of the
/// object (outer whitespace, then leading `{` and trailing `}` removed),
/// or `None` when it has no message.
pub open spec fn log_json_spec(json: Seq<char>) -> Option<LogEntryView> {
    let body = trim_end(trim_start(trim_ws(json), CharClass::Exactly('{')), CharClass::Exactly('}'));
    let e = log_fold(json_fields(body));
    if e.message.len() == 0 {
        None
    } else {
        Some(e)
    }
}

/// Minimal parsing of a flat JSON log object: level, msg and context.
pub fn parse_log_json(json_str: &str) -> (r: Option<PhpLogEntry>)
    ensures
        match r {
            Some(e) => log_json_spec(json_str@) == Some(e@),
            None => log_json_spec(json_str@) is None,
        },
{
    let j = chars_of(json_str);
    let t = trim_ws_chars(j.as_slice());
    let t = trim_start_chars(t.as_slice(), &CharClass::Exactly('{'));
    let t = trim_end_chars(t.as_slice(), &CharClass::Exactly('}'));
    let ts = string_of(t.as_slice());
    let fields = split_json_fields(ts.as_str());
    let level_key = chars_of("level");
    let msg_key = chars_of("msg");
    let message_key = chars_of("message");
    let mut level = "info".to_string();
    let mut message = String::new();
    let mut context: Vec<(String, String)> = Vec::new();
    let ghost fs = crate::config::str_views(fields@);
    let mut i: usize = 0;
    assert(fs.take(0) =~= Seq::<Seq<char>>::empty());
    assert(pair_views(context@) =~= Seq::<(Seq<char>, Seq<char>)>::empty());
    while i < fields.len()
        invariant
            i <= fields@.len(),
            fs == crate::config::str_views(fields@),
            level_key@ == "level"@,
            msg_key@ == "msg"@,
            message_key@ == "message"@,
            log_fold(fs.take(i as int)) == (LogEntryView { level: level@, message: message@, context: pair_views(context@) }),
        decreases fields.len() - i,
    {
        let ghost t = fs.take(i + 1);
        assert(t.drop_last() =~= fs.take(i as int));
        assert(t.last() == fields@[i as int]@);
        let f = chars_of(fields[i].as_str());
        match split_once_chars(f.as_slice(), ':') {
            Some((k, v)) => {
                let k1 = trim_ws_chars(k.as_slice());
                let key = trim_chars(k1.as_slice(), &CharClass::Exactly('"'));
                let v1 = trim_ws_chars(v.as_slice());
                let value = trim_chars(v1.as_slice(), &CharClass::Exactly('"'));
                if chars_eq(key.as_slice(), level_key.as_slice()) {
                    level = string_of(value.as_slice());
                } else if chars_eq(key.as_slice(), msg_key.as_slice()) || chars_eq(key.as_slice(), message_key.as_slice()) {
                    message = string_of(value.as_slice());
                } else {
                    let ghost before = context@;
                    context.push((string_of(key.as_slice()), string_of(value.as_slice())));
                    assert(pair_views(context@) =~= pair_views(before).push((key@, value@)));
                }
            },
            None => {},
        }
        i = i + 1;
    }
    assert(fs.take(fs.len() as int) =~= fs);
    if message.as_str().is_empty() {
        return None;
    }
    Some(PhpLogEntry { level, message, context })
}

/// One step of log extraction over the body's lines: marker lines yield
/// entries (when they parse), other lines are kept, joined by newlines,
/// with leading empty lines dropped.
pub open spec fn log_scan(lines: Seq<Seq<char>>) -> (Seq<char>, Seq<LogEntryView>)
    decreases lines.len(),
{
    if lines.len() == 0 {
        (seq![], seq![])
    } else {
        let (cleaned, entries) = log_scan(lines.drop_last());
        let line = lines.last();
        if starts_with(line, TURBINE_LOG_MARKER@) {
            match log_json_spec(trim_ws(line.skip(TURBINE_LOG_MARKER@.len() as int))) {
                Some(e) => (cleaned, entries.push(e)),
                None => (cleaned, entries),
            }
        } else if cleaned.len() > 0 || line.len() > 0 {
            (if cleaned.len() > 0 { cleaned.push('\n') } else { cleaned } + line, entries)
        } else {
            (cleaned, entries)
        }
    }
}

/// What `extract_structured_logs` returns: the body unchanged with no
/// entries when it is not UTF-8 or holds no marker; otherwise the kept
/// lines (UTF-8) and the entries.
pub open spec fn structured_logs_spec(body: Seq<u8>) -> (Seq<u8>, Seq<LogEntryView>) {
    if !valid_utf8(body) || !contains(decode_utf8(body), TURBINE_LOG_MARKER@) {
        (body, seq![])
    } else {
        let (cleaned, entries) = log_scan(split_on(decode_utf8(body), '\n'));
        (encode_utf8(cleaned), entries)
    }
}

/// The views of a list of log entries.
pub open spec fn entry_views(v: Seq<PhpLogEntry>) -> Seq<LogEntryView> {
    v.map_values(|e: PhpLogEntry| e@)
}

/// Extract and process structured log markers from the response body.
/// Returns the cleaned body (with markers removed) and the extracted log entries.
pub fn extract_structured_logs(body: &[u8]) -> (r: (Vec<u8>, Vec<PhpLogEntry>))
    ensures
        (r.0@, entry_views(r.1@)) == structured_logs_spec(body@),
{
    let text = match decode_utf8_strict(body) {
        Some(t) => t,
        None => {
            let b = crate::text::sub_bytes(body, 0, body.len());
            assert(b@ =~= body@);
            let e: Vec<PhpLogEntry> = Vec::new();
            assert(entry_views(e@) =~= Seq::<LogEntryView>::empty());
            return (b, e);
        },
    };
    let marker = chars_of(TURBINE_LOG_MARKER);
    if !contains_chars(text.as_slice(), marker.as_slice()) {
        let b = crate::text::sub_bytes(body, 0, body.len());
        assert(b@ =~= body@);
        let e: Vec<PhpLogEntry> = Vec::new();
        assert(entry_views(e@) =~= Seq::<LogEntryView>::empty());
        return (b, e);
    }
    let lines = split_chars(text.as_slice(), '\n');
    let ghost ls = views(lines@);
    let mut cleaned: Vec<char> = Vec::new();
    let mut entries: Vec<PhpLogEntry> = Vec::new();
    let mut i: usize = 0;
    assert(ls.take(0) =~= Seq::<Seq<char>>::empty());
    assert(entry_views(entries@) =~= Seq::<LogEntryView>::empty());
    while i < lines.len()
        invariant
            i <= lines@.len(),
            ls == views(lines@),
            marker@ == TURBINE_LOG_MARKER@,
            (cleaned@, entry_views(entries@)) == log_scan(ls.take(i as int)),
        decreases lines.len() - i,
    {
        let line = &lines[i];
        let ghost t = ls.take(i + 1);
        assert(t.drop_last() =~= ls.take(i as int));
        assert(t.last() == line@);
        if starts_with_chars(line.as_slice(), marker.as_slice()) {
            let rest = sub_chars(line.as_slice(), marker.len(), line.len());
            assert(rest@ =~= line@.skip(marker@.len() as int));
            let js = trim_ws_chars(rest.as_slice());
            let jss = string_of(js.as_slice());
            match parse_log_json(jss.as_str()) {
                Some(e) => {
                    let ghost before = entries@;
                    entries.push(e);
                    assert(entry_views(entries@) =~= entry_views(before).push(e@));
                },
                None => {},
            }
        } else if cleaned.len() > 0 || line.len() > 0 {
            if cleaned.len() > 0 {
                cleaned.push('\n');
            }
            push_all(&mut cleaned, line.as_slice());
        }
        i = i + 1;
    }
    assert(ls.take(ls.len() as int) =~= ls);
    let out = utf8_of(cleaned.as_slice());
    (out, entries)
}

/// The lines that do not start with the log marker, in order.
pub open spec fn plain_lines(lines: Seq<Seq<char>>) -> Seq<Seq<char>>
    decreases lines.len(),
{
    if lines.len() == 0 {
        seq![]
    } else if starts_with(lines.last(), TURBINE_LOG_MARKER@) {
        plain_lines(lines.drop_last())
    } else {
        plain_lines(lines.drop_last()).push(lines.last())
    }
}

/// Scanning lines keeps exactly the lines without the marker (what it
/// keeps of all the lines is what it keeps of those lines alone, which
/// yield no entry), and every entry it yields has a message.
pub proof fn lemma_log_scan_plain(lines: Seq<Seq<char>>)
    ensures
        log_scan(lines).0 == log_scan(plain_lines(lines)).0,
        log_scan(plain_lines(lines)).1.len() == 0,
        forall|i: int| 0 <= i < log_scan(lines).1.len() ==> (#[trigger] log_scan(lines).1[i]).message.len() > 0,
    decreases lines.len(),
{
    if lines.len() > 0 {
        let prev = lines.drop_last();
        lemma_log_scan_plain(prev);
        let l = lines.last();
        if !starts_with(l, TURBINE_LOG_MARKER@) {
            let p = plain_lines(lines);
            assert(p.drop_last() =~= plain_lines(prev));
            assert(p.last() == l);
        }
    }
}

/// Structured log extraction: a body that is not UTF-8 or holds no marker
/// comes back unchanged with no entries; otherwise the body kept is the
/// text kept of the lines without the marker, in order, and every entry
/// has a non-empty message (its level is "info" unless the object sets
/// one).
pub proof fn lemma_structured_logs(body: Seq<u8>)
    ensures
        ({
            let (cleaned, entries) = structured_logs_spec(body);
            &&& (!valid_utf8(body) || !contains(decode_utf8(body), TURBINE_LOG_MARKER@)) ==> cleaned
                == body && entries.len() == 0
            &&& (valid_utf8(body) && contains(decode_utf8(body), TURBINE_LOG_MARKER@)) ==> cleaned
                == encode_utf8(log_scan(plain_lines(split_on(decode_utf8(body), '\n'))).0)
            &&& forall|i: int| 0 <= i < entries.len() ==> (#[trigger] entries[i]).message.len() > 0
        }),
{
    if valid_utf8(body) && contains(decode_utf8(body), TURBINE_LOG_MARKER@) {
        lemma_log_scan_plain(split_on(decode_utf8(body), '\n'));
    }
}

/// How severe a PHP log entry is.
pub enum LogSeverity {
    Debug,
    Info,
    Warn,
    Error,
    /// A level the server does not know; logged at info with the level.
    Other,
}

/// The severity of a PHP log level: `debug`/`-4`, `info`/`0`,
/// `warn`/`warning`/`4`, `error`/`8`, or other.
pub open spec fn severity_of(level: Seq<char>) -> LogSeverity {
    if level == "debug"@ || level == "-4"@ {
        LogSeverity::Debug
    } else if level == "info"@ || level == "0"@ {
        LogSeverity::Info
    } else if level == "warn"@ || level == "warning"@ || level == "4"@ {
        LogSeverity::Warn
    } else if level == "error"@ || level == "8"@ {
        LogSeverity::Error
    } else {
        LogSeverity::Other
    }
}

/// The context of an entry as `key=value` pairs joined by spaces.
pub open spec fn context_line(ctx: Seq<(Seq<char>, Seq<char>)>) -> Seq<char>
    decreases ctx.len(),
{
    if ctx.len() == 0 {
        seq![]
    } else if ctx.len() == 1 {
        ctx[0].0 + seq!['='] + ctx[0].1
    } else {
        context_line(ctx.drop_last()) + seq![' '] + ctx.last().0 + seq!['='] + ctx.last().1
    }
}

/// What to emit for a PHP log entry: its severity and its context line.
/// The caller writes them to the log with the entry's message (and, for
/// unknown levels, the level).
pub fn emit_log_entry(entry: &PhpLogEntry) -> (r: (LogSeverity, String))
    ensures
        r.0 == severity_of(entry.level@),
        r.1@ == context_line(entry@.context),
{
    let l = chars_of(entry.level.as_str());
    let l = l.as_slice();
    let sev = if is(l, "debug") || is(l, "-4") {
        LogSeverity::Debug
    } else if is(l, "info") || is(l, "0") {
        LogSeverity::Info
    } else if is(l, "warn") || is(l, "warning") || is(l, "4") {
        LogSeverity::Warn
    } else if is(l, "error") || is(l, "8") {
        LogSeverity::Error
    } else {
        LogSeverity::Other
    };
    let ghost ctx = pair_views(entry.context@);
    let mut line: Vec<char> = Vec::new();
    let mut i: usize = 0;
    assert(ctx.take(0) =~= Seq::<(Seq<char>, Seq<char>)>::empty());
    while i < entry.context.len()
        invariant
            i <= entry.context@.len(),
            ctx == pair_views(entry.context@),
            line@ == context_line(ctx.take(i as int)),
        decreases entry.context.len() - i,
    {
        let ghost t = ctx.take(i + 1);
        assert(t.drop_last() =~= ctx.take(i as int));
        let k = chars_of(entry.context[i].0.as_str());
        let v = chars_of(entry.context[i].1.as_str());
        assert(t.last() == (k@, v@));
        let ghost before = line@;
        if i > 0 {
            line.push(' ');
        }
        push_all(&mut line, k.as_slice());
        line.push('=');
        push_all(&mut line, v.as_slice());
        proof {
            if i == 0 {
                assert(t =~= seq![(k@, v@)]);
                assert(line@ =~= k@ + seq!['='] + v@);
            } else {
                assert(line@ =~= before + seq![' '] + k@ + seq!['='] + v@);
            }
        }
        i = i + 1;
    }
    assert(ctx.take(ctx.len() as int) =~= ctx);
    (sev, string_of(line.as_slice()))
}

/// PHP helper code that defines the turbine_log() function.
pub fn php_turbine_log_function() -> (r: &'static str)
    ensures
        r@ == PHP_LOG_FUNCTION@,
{
    PHP_LOG_FUNCTION
}

/// PHP helper code for the shared-table API.
pub fn php_turbine_table_functions() -> (r: &'static str)
    ensures
        r@ == PHP_TABLE_FUNCTIONS@,
{
    PHP_TABLE_FUNCTIONS
}

/// PHP helpers for the in-process task queue.
pub fn php_turbine_task_functions() -> (r: &'static str)
    ensures
        r@ == PHP_TASK_FUNCTIONS@,
{
    PHP_TASK_FUNCTIONS
}

/// PHP helpers for the WebSocket hub.
pub fn php_turbine_ws_functions() -> (r: &'static str)
    ensures
        r@ == PHP_WS_FUNCTIONS@,
{
    PHP_WS_FUNCTIONS
}

// ── Worker pool route matching ──

/// A pattern ending in `*` matches paths starting with the rest of it;
/// any other pattern matches only itself.
pub open spec fn route_matches(pattern: Seq<char>, path: Seq<char>) -> bool {
    if pattern.len() > 0 && pattern.last() == '*' {
        starts_with(path, pattern.drop_last())
    } else {
        path == pattern
    }
}

/// Match a request path against a route pattern (supports trailing *).
pub fn matches_pool_route(pattern: &str, path: &str) -> (r: bool)
    ensures
        r == route_matches(pattern@, path@),
{
    let pt = chars_of(pattern);
    let p = chars_of(path);
    if pt.len() > 0 && pt[pt.len() - 1] == '*' {
        let prefix = sub_chars(pt.as_slice(), 0, pt.len() - 1);
        assert(prefix@ =~= pt@.drop_last());
        starts_with_chars(p.as_slice(), prefix.as_slice())
    } else {
        chars_eq(p.as_slice(), pt.as_slice())
    }
}

} // verus!
