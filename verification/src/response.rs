//! PHP response envelopes and cache-control inspection.
//!
//! The PHP worker emits a wire format like:
//!
//! ```text
//! __TURBINE_STATUS__\t200
//! __TURBINE_HEADER__\tContent-Type\ttext/html
//! __TURBINE_BODY__
//! <actual body bytes>
//! ```
//!
//! [`parse_turbine_response_envelope`] turns that back into a
//! `(status, headers, body)` triple.
use vstd::prelude::*;
use vstd::utf8::{decode_utf8, valid_utf8};

use crate::text::{
    ascii_bytes_of, ascii_seq, chars_of, contains, contains_chars, decode_utf8_strict,
    eq_ignore_ascii_case, eq_ignore_ascii_case_chars, find_bytes, first_occurrence, lines_chars,
    lines_spec, pair_views, parse_unsigned, parse_unsigned_chars, split_once_chars, split_once_spec,
    starts_with, starts_with_chars, string_of, sub_bytes, sub_chars, trim_ws, trim_ws_chars, views,
};

verus! {

/// Envelope markers emitted by the PHP SAPI layer.
pub const TURBINE_STATUS_MARKER: &'static str = "__TURBINE_STATUS__\t";
pub const TURBINE_HEADER_MARKER: &'static str = "__TURBINE_HEADER__\t";
pub const TURBINE_BODY_MARKER: &'static str = "__TURBINE_BODY__\n";

/// A header says the response must not be stored in a shared cache:
/// `Cache-Control` (any case) holding `no-store`, `no-cache` or `private`.
pub open spec fn prevents_caching(h: (Seq<char>, Seq<char>)) -> bool {
    eq_ignore_ascii_case(h.0, "Cache-Control"@) && (contains(h.1, "no-store"@) || contains(
        h.1,
        "no-cache"@,
    ) || contains(h.1, "private"@))
}

/// Which headers keep a response out of the shared cache: a header named
/// `Cache-Control` in any ASCII letter case whose value holds `no-store`,
/// `no-cache` or `private`; no other header does.
pub proof fn lemma_prevents_caching(h: (Seq<char>, Seq<char>))
    ensures
        eq_ignore_ascii_case(h.0, "Cache-Control"@) && contains(h.1, "no-store"@) ==> prevents_caching(h),
        eq_ignore_ascii_case(h.0, "Cache-Control"@) && contains(h.1, "no-cache"@) ==> prevents_caching(h),
        eq_ignore_ascii_case(h.0, "Cache-Control"@) && contains(h.1, "private"@) ==> prevents_caching(h),
        !eq_ignore_ascii_case(h.0, "Cache-Control"@) ==> !prevents_caching(h),
        !contains(h.1, "no-store"@) && !contains(h.1, "no-cache"@) && !contains(h.1, "private"@)
            ==> !prevents_caching(h),
{
}

/// Returns true when the PHP response headers indicate the response must not
/// be stored in a shared cache (Cache-Control: no-store / no-cache / private).
pub fn response_prevents_caching(headers: &[(String, String)]) -> (r: bool)
    ensures
        r == exists|i: int| 0 <= i < headers@.len() && prevents_caching(#[trigger] pair_views(headers@)[i]),
        forall|i: int|
            0 <= i < headers@.len() && eq_ignore_ascii_case(#[trigger] pair_views(headers@)[i].0, "Cache-Control"@)
                && (contains(pair_views(headers@)[i].1, "no-store"@) || contains(pair_views(headers@)[i].1, "no-cache"@)
                || contains(pair_views(headers@)[i].1, "private"@)) ==> r,
        r ==> exists|i: int|
            0 <= i < headers@.len() && eq_ignore_ascii_case(#[trigger] pair_views(headers@)[i].0, "Cache-Control"@)
                && (contains(pair_views(headers@)[i].1, "no-store"@) || contains(pair_views(headers@)[i].1, "no-cache"@)
                || contains(pair_views(headers@)[i].1, "private"@)),
{
    let cc = chars_of("Cache-Control");
    let ns = chars_of("no-store");
    let nc = chars_of("no-cache");
    let pr = chars_of("private");
    let mut i: usize = 0;
    while i < headers.len()
        invariant
            i <= headers@.len(),
            cc@ == "Cache-Control"@,
            ns@ == "no-store"@,
            nc@ == "no-cache"@,
            pr@ == "private"@,
            forall|j: int| 0 <= j < i ==> !prevents_caching(#[trigger] pair_views(headers@)[j]),
        decreases headers.len() - i,
    {
        let k = chars_of(headers[i].0.as_str());
        let v = chars_of(headers[i].1.as_str());
        assert(pair_views(headers@)[i as int] == (k@, v@));
        if eq_ignore_ascii_case_chars(k.as_slice(), cc.as_slice()) && (contains_chars(v.as_slice(), ns.as_slice())
            || contains_chars(v.as_slice(), nc.as_slice()) || contains_chars(v.as_slice(), pr.as_slice())) {
            return true;
        }
        i = i + 1;
    }
    false
}

/// Status and headers read from the envelope's metadata lines: a status
/// line sets the status (200 when its number does not parse as `u16`), a
/// header line with a tab after the name adds `(name, value)`, both
/// trimmed; other lines are ignored.
pub open spec fn envelope_fold(lines: Seq<Seq<char>>) -> (u16, Seq<(Seq<char>, Seq<char>)>)
    decreases lines.len(),
{
    if lines.len() == 0 {
        (200u16, seq![])
    } else {
        let (st, hs) = envelope_fold(lines.drop_last());
        let l = lines.last();
        if starts_with(l, TURBINE_STATUS_MARKER@) {
            (
                match parse_unsigned(trim_ws(l.skip(TURBINE_STATUS_MARKER@.len() as int)), 65535) {
                    Some(n) => n as u16,
                    None => 200u16,
                },
                hs,
            )
        } else if starts_with(l, TURBINE_HEADER_MARKER@) {
            match split_once_spec(l.skip(TURBINE_HEADER_MARKER@.len() as int), '\t') {
                Some((n, v)) => (st, hs.push((trim_ws(n), trim_ws(v)))),
                None => (st, hs),
            }
        } else {
            (st, hs)
        }
    }
}

/// What `parse_turbine_response_envelope` returns: `None` unless the
/// status marker occurs, a body marker follows it, and the metadata in
/// between is valid UTF-8; otherwise the status, headers and the bytes
/// after the body marker.
pub open spec fn envelope_spec(body: Seq<u8>) -> Option<(u16, Seq<(Seq<char>, Seq<char>)>, Seq<u8>)> {
    let s = first_occurrence(body, ascii_seq(TURBINE_STATUS_MARKER@));
    if s < 0 {
        None
    } else {
        let env = body.skip(s);
        let b = first_occurrence(env, ascii_seq(TURBINE_BODY_MARKER@));
        if b < 0 {
            None
        } else {
            let meta = env.take(b);
            if !valid_utf8(meta) {
                None
            } else {
                let (st, hs) = envelope_fold(lines_spec(decode_utf8(meta)));
                Some((st, hs, env.skip(b + ascii_seq(TURBINE_BODY_MARKER@).len())))
            }
        }
    }
}

/// Parse a worker-emitted `__TURBINE_*__` envelope back into
/// `(status_code, headers, body)`.  Returns `None` when the status
/// marker is missing (e.g. the PHP script died before emitting
/// anything).
pub fn parse_turbine_response_envelope(body: &[u8]) -> (r: Option<(u16, Vec<(String, String)>, Vec<u8>)>)
    ensures
        match r {
            Some((st, hs, payload)) => envelope_spec(body@) == Some((st, pair_views(hs@), payload@)),
            None => envelope_spec(body@) is None,
        },
{
    let sm = ascii_bytes_of(TURBINE_STATUS_MARKER);
    let bm = ascii_bytes_of(TURBINE_BODY_MARKER);
    let start = match find_bytes(body, sm.as_slice()) {
        Some(i) => i,
        None => return None,
    };
    proof { crate::text::lemma_first_occurrence(body@, sm@); }
    let env = sub_bytes(body, start, body.len());
    assert(env@ =~= body@.skip(start as int));
    let bpos = match find_bytes(env.as_slice(), bm.as_slice()) {
        Some(i) => i,
        None => return None,
    };
    proof { crate::text::lemma_first_occurrence(env@, bm@); }
    let meta_bytes = sub_bytes(env.as_slice(), 0, bpos);
    assert(meta_bytes@ =~= env@.take(bpos as int));
    let meta = match decode_utf8_strict(meta_bytes.as_slice()) {
        Some(m) => m,
        None => return None,
    };
    let payload = sub_bytes(env.as_slice(), bpos + bm.len(), env.len());
    assert(payload@ =~= env@.skip(bpos + bm@.len()));
    let lines = lines_chars(meta.as_slice());
    let sp = chars_of(TURBINE_STATUS_MARKER);
    let hp = chars_of(TURBINE_HEADER_MARKER);
    let mut status: u16 = 200;
    let mut headers: Vec<(String, String)> = Vec::new();
    let ghost ls = views(lines@);
    let mut i: usize = 0;
    assert(ls.take(0) =~= Seq::<Seq<char>>::empty());
    assert(pair_views(headers@) =~= Seq::<(Seq<char>, Seq<char>)>::empty());
    while i < lines.len()
        invariant
            i <= lines@.len(),
            ls == views(lines@),
            sp@ == TURBINE_STATUS_MARKER@,
            hp@ == TURBINE_HEADER_MARKER@,
            (status, pair_views(headers@)) == envelope_fold(ls.take(i as int)),
        decreases lines.len() - i,
    {
        let l = &lines[i];
        let ghost t = ls.take(i + 1);
        assert(t.drop_last() =~= ls.take(i as int));
        assert(t.last() == l@);
        if starts_with_chars(l.as_slice(), sp.as_slice()) {
            let rest = sub_chars(l.as_slice(), sp.len(), l.len());
            assert(rest@ =~= l@.skip(sp@.len() as int));
            let num = trim_ws_chars(rest.as_slice());
            status = match parse_unsigned_chars(num.as_slice(), 65535) {
                Some(n) => n as u16,
                None => 200,
            };
        } else if starts_with_chars(l.as_slice(), hp.as_slice()) {
            let rest = sub_chars(l.as_slice(), hp.len(), l.len());
            assert(rest@ =~= l@.skip(hp@.len() as int));
            match split_once_chars(rest.as_slice(), '\t') {
                Some((n, v)) => {
                    let n = trim_ws_chars(n.as_slice());
                    let v = trim_ws_chars(v.as_slice());
                    let ghost before = headers@;
                    headers.push((string_of(n.as_slice()), string_of(v.as_slice())));
                    assert(pair_views(headers@) =~= pair_views(before).push((n@, v@)));
                },
                None => {},
            }
        }
        i = i + 1;
    }
    assert(ls.take(ls.len() as int) =~= ls);
    Some((status, headers, payload))
}

} // verus!
