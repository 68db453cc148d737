//! A PHP application packed into the binary as a tar.gz archive.
//!
//! Without the `embed` build the archive is empty and nothing is
//! embedded.  Unpacking an archive reads its POSIX tar headers: each
//! entry is a 512-byte header (name, octal size, type flag) followed by
//! its data padded to 512 bytes, and two zero blocks end the archive.
//! Writing the files, and refusing those that would land outside the
//! target directory, is the caller's part.
use std::io::Read;

use vstd::prelude::*;

use crate::text::{
    decode_utf8_lossy, trim, trim_chars, trim_ws, trim_ws_chars, utf8_lossy, CharClass,
};

verus! {

/// The archive this build embeds: none (only the `embed` build packs
/// an application in).
pub open spec fn embedded() -> Seq<u8> {
    Seq::empty()
}

/// The embedded archive.
pub fn embedded_archive() -> (r: &'static [u8])
    ensures
        r@ == embedded(),
{
    let r: &'static [u8] = &[];
    assert(r@ =~= embedded());
    r
}

/// Whether an application is embedded in the binary.
pub fn has_embedded_app() -> (r: bool)
    ensures
        r == (embedded().len() > 0),
{
    let a = embedded_archive();
    a.len() > 0
}

/// What gunzipping a byte string gives: the decompressed bytes, or none
/// when it is not valid gzip.
pub uninterp spec fn gunzipped(data: Seq<u8>) -> Option<Seq<u8>>;

/// `flate2::read::GzDecoder` read to the end: the decompressed bytes, or
/// `None` when the data is not a valid gzip stream.
#[verifier::external_body]
fn gunzip(data: &[u8]) -> (r: Option<Vec<u8>>)
    ensures
        match r {
            Some(v) => gunzipped(data@) == Some(v@),
            None => gunzipped(data@) is None,
        },
{
    let mut out = Vec::new();
    match flate2::read::GzDecoder::new(data).read_to_end(&mut out) {
        Ok(_) => Some(out),
        Err(_) => None,
    }
}

/// What an entry is.
#[derive(Debug, Clone, Copy, PartialEq, Eq, Structural)]
pub enum TarKind {
    /// A directory (type `5` or `/`).
    Directory,
    /// A regular file (type `0` or NUL).
    File,
    /// Anything else, such as a link: skipped.
    Other,
}

/// An entry of an archive.
pub struct TarEntry {
    /// The name, decoded leniently.
    pub name: String,
    pub kind: TarKind,
    /// Offset of the entry's data in the archive.
    pub data_start: usize,
    /// Size of the entry's data.
    pub size: usize,
    /// All of the data lies inside the archive.
    pub complete: bool,
}

/// An entry as the archive view holds it.
pub open spec fn entry_view(e: TarEntry) -> (Seq<char>, TarKind, nat, nat, bool) {
    (e.name@, e.kind, e.data_start as nat, e.size as nat, e.complete)
}

/// The kind of a type flag.
pub open spec fn kind_of(flag: u8) -> TarKind {
    if flag == 53 || flag == 47 {
        TarKind::Directory
    } else if flag == 48 || flag == 0 {
        TarKind::File
    } else {
        TarKind::Other
    }
}

/// A block of zero bytes.
pub open spec fn zero_block(h: Seq<u8>) -> bool {
    forall|i: int| 0 <= i < h.len() ==> h[i] == 0
}

/// Length of the name in a header: up to the first NUL of its first
/// 100 bytes.
pub open spec fn name_len(h: Seq<u8>) -> int
    decreases 100 - 0,
{
    name_len_from(h, 0)
}

/// The first NUL at or after `i` in the first 100 bytes, or 100.
pub open spec fn name_len_from(h: Seq<u8>, i: int) -> int
    decreases 100 - i,
{
    if i >= 100 {
        100
    } else if h[i] == 0 {
        i
    } else {
        name_len_from(h, i + 1)
    }
}

/// The name of a header's entry.
pub open spec fn entry_name(h: Seq<u8>) -> Seq<char> {
    utf8_lossy(h.take(name_len(h)))
}

/// An octal digit.
pub open spec fn is_octal(c: char) -> bool {
    '0' <= c <= '7'
}

/// The value of octal digits.
pub open spec fn octal_value(d: Seq<char>) -> nat
    decreases d.len(),
{
    if d.len() == 0 {
        0
    } else {
        octal_value(d.drop_last()) * 8 + ((d.last() as u32) - 48) as nat
    }
}

/// Every character is an octal digit.
pub open spec fn all_octal(d: Seq<char>) -> bool {
    forall|i: int| 0 <= i < d.len() ==> is_octal(#[trigger] d[i])
}

/// What `usize::from_str_radix(s, 8)` accepts: an optional `+`, then one
/// or more octal digits whose value does not exceed `max`.
pub open spec fn parse_octal(s: Seq<char>, max: nat) -> Option<nat> {
    let d = if s.len() > 0 && s[0] == '+' {
        s.drop_first()
    } else {
        s
    };
    if d.len() > 0 && all_octal(d) && octal_value(d) <= max {
        Some(octal_value(d))
    } else {
        None
    }
}

/// The size field of a header (bytes 124 to 136): decoded leniently,
/// trimmed of whitespace and then of NULs, read as octal; 0 when it is
/// not a number.
pub open spec fn entry_size(h: Seq<u8>) -> nat {
    let t = trim(trim_ws(utf8_lossy(h.subrange(124, 136))), CharClass::Exactly('\0'));
    match parse_octal(t, usize::MAX as nat) {
        Some(n) => n,
        None => 0,
    }
}

/// `n` rounded up to a multiple of 512.
pub open spec fn padded(n: nat) -> nat {
    ((n + 511) / 512 * 512) as nat
}

/// The entries of `a` from the header at `pos` on: none once fewer than
/// 512 bytes remain or a zero block is reached; entries with an empty
/// name or the name `.` are skipped.
pub open spec fn tar_walk(a: Seq<u8>, pos: nat) -> Seq<(Seq<char>, TarKind, nat, nat, bool)>
    decreases a.len() - pos,
{
    if pos + 512 > a.len() {
        Seq::empty()
    } else {
        let h = a.subrange(pos as int, pos as int + 512);
        if zero_block(h) {
            Seq::empty()
        } else {
            let size = entry_size(h);
            let next = pos + 512 + padded(size);
            let rest = tar_walk(a, if next > a.len() { a.len() } else { next });
            let name = entry_name(h);
            if name.len() == 0 || name == "."@ {
                rest
            } else {
                seq![(name, kind_of(h[156]), (pos + 512) as nat, size, pos + 512 + size <= a.len())] + rest
            }
        }
    }
}

fn parse_octal_chars(s: &[char], max: u64) -> (r: Option<u64>)
    ensures
        match r {
            Some(v) => parse_octal(s@, max as nat) == Some(v as nat),
            None => parse_octal(s@, max as nat) is None,
        },
{
    let start: usize = if s.len() > 0 && s[0] == '+' { 1 } else { 0 };
    let ghost d = if s@.len() > 0 && s@[0] == '+' { s@.drop_first() } else { s@ };
    assert(d =~= s@.skip(start as int));
    if start >= s.len() {
        return None;
    }
    let mut v: u64 = 0;
    let mut i: usize = start;
    while i < s.len()
        invariant
            start <= i <= s@.len(),
            d =~= s@.skip(start as int),
            d == (if s@.len() > 0 && s@[0] == '+' { s@.drop_first() } else { s@ }),
            all_octal(s@.subrange(start as int, i as int)),
            v as nat == octal_value(s@.subrange(start as int, i as int)),
            v <= max,
        decreases s.len() - i,
    {
        let c = s[i];
        let ghost pre = s@.subrange(start as int, i as int);
        let ghost next = s@.subrange(start as int, i + 1);
        assert(next.drop_last() =~= pre);
        assert(next.last() == c);
        assert(d[i - start] == c);
        if !('0' <= c && c <= '7') {
            assert(!is_octal(d[i - start]));
            return None;
        }
        let dv = (c as u32 - '0' as u32) as u64;
        if dv > max || v > (max - dv) / 8 {
            proof {
                if dv <= max {
                    let q = (max - dv) / 8;
                    assert(v * 8 + dv > max) by (nonlinear_arith)
                        requires v > q, q == (max - dv) / 8, dv <= max;
                }
                assert(d.take(i - start + 1) =~= next);
                assert(octal_value(next) == octal_value(pre) * 8 + ((c as u32) - 48) as nat);
                lemma_octal_prefix_grows(d, (i - start) as int);
            }
            return None;
        }
        proof {
            let q = (max - dv) / 8;
            assert(v * 8 + dv <= max) by (nonlinear_arith)
                requires v <= q, q == (max - dv) / 8, dv <= max;
        }
        v = v * 8 + dv;
        i = i + 1;
    }
    assert(s@.subrange(start as int, s@.len() as int) =~= d);
    Some(v)
}

/// Octal values of digit strings never shrink when extended.
proof fn lemma_octal_prefix_grows(d: Seq<char>, k: int)
    requires
        0 <= k < d.len(),
    ensures
        all_octal(d) ==> octal_value(d) >= octal_value(d.take(k + 1)),
    decreases d.len(),
{
    if all_octal(d) && d.len() > k + 1 {
        let e = d.drop_last();
        assert(all_octal(e));
        lemma_octal_prefix_grows(e, k);
        assert(e.take(k + 1) =~= d.take(k + 1));
    } else if d.len() == k + 1 {
        assert(d.take(k + 1) =~= d);
    }
}

fn is_zero_block(a: &[u8], pos: usize) -> (r: bool)
    requires
        pos + 512 <= a@.len(),
    ensures
        r == zero_block(a@.subrange(pos as int, pos + 512)),
{
    let n = a.len();
    let ghost h = a@.subrange(pos as int, pos + 512);
    let mut i: usize = 0;
    while i < 512
        invariant
            i <= 512,
            pos + 512 <= a@.len(),
            n == a@.len(),
            h == a@.subrange(pos as int, pos + 512),
            forall|j: int| 0 <= j < i ==> h[j] == 0,
        decreases 512 - i,
    {
        assert(h[i as int] == a@[pos + i]);
        if a[pos + i] != 0 {
            return false;
        }
        i = i + 1;
    }
    true
}

fn header_name_len(a: &[u8], pos: usize) -> (r: usize)
    requires
        pos + 512 <= a@.len(),
    ensures
        r as int == name_len(a@.subrange(pos as int, pos + 512)),
        r <= 100,
{
    let n = a.len();
    let ghost h = a@.subrange(pos as int, pos + 512);
    let mut i: usize = 0;
    while i < 100
        invariant
            i <= 100,
            pos + 512 <= a@.len(),
            n == a@.len(),
            h == a@.subrange(pos as int, pos + 512),
            name_len(h) == name_len_from(h, i as int),
        decreases 100 - i,
    {
        assert(h[i as int] == a@[pos + i]);
        if a[pos + i] == 0 {
            return i;
        }
        i = i + 1;
    }
    100
}

fn header_size(a: &[u8], pos: usize) -> (r: u64)
    requires
        pos + 512 <= a@.len(),
    ensures
        r as nat == entry_size(a@.subrange(pos as int, pos + 512)),
        r <= usize::MAX,
{
    let n = a.len();
    let ghost h = a@.subrange(pos as int, pos + 512);
    let field = crate::text::sub_bytes(a, pos + 124, pos + 136);
    assert(field@ =~= h.subrange(124, 136));
    let text = decode_utf8_lossy(field.as_slice());
    let t1 = trim_ws_chars(text.as_slice());
    let t2 = trim_chars(t1.as_slice(), &CharClass::Exactly('\0'));
    match parse_octal_chars(t2.as_slice(), usize::MAX as u64) {
        Some(n) => n,
        None => 0,
    }
}

/// The entries of a tar archive, in order.
pub fn tar_entries(a: &[u8]) -> (r: Vec<TarEntry>)
    ensures
        r@.map_values(|e: TarEntry| entry_view(e)) == tar_walk(a@, 0),
{
    let mut r: Vec<TarEntry> = Vec::new();
    let mut pos: usize = 0;
    let n = a.len();
    let dot = crate::text::chars_of(".");
    let mut done = false;
    while !done && n >= 512 && pos <= n - 512
        invariant
            n == a@.len(),
            pos <= n,
            dot@ == "."@,
            r@.map_values(|e: TarEntry| entry_view(e)) + (if done {
                Seq::empty()
            } else {
                tar_walk(a@, pos as nat)
            }) == tar_walk(a@, 0),
        decreases n - pos + (if done { 0int } else { 1int }),
    {
        let ghost h = a@.subrange(pos as int, pos + 512);
        if is_zero_block(a, pos) {
            done = true;
            continue;
        }
        let nl = header_name_len(a, pos);
        let name_bytes = crate::text::sub_bytes(a, pos, pos + nl);
        assert(name_bytes@ =~= h.take(nl as int));
        let name = decode_utf8_lossy(name_bytes.as_slice());
        let size = header_size(a, pos);
        let flag = a[pos + 156];
        assert(flag == h[156]);
        let start: usize = pos + 512;
        let pad: u128 = ((size as u128) + 511) / 512 * 512;
        let next: u128 = (start as u128) + pad;
        let next_pos: usize = if next > n as u128 {
            n
        } else {
            next as usize
        };
        let ghost rest = tar_walk(a@, next_pos as nat);
        assert(padded(size as nat) == pad);
        let skip = name.len() == 0 || crate::text::chars_eq(name.as_slice(), dot.as_slice());
        if !skip {
            let kind = if flag == 53 || flag == 47 {
                TarKind::Directory
            } else if flag == 48 || flag == 0 {
                TarKind::File
            } else {
                TarKind::Other
            };
            let complete = (start as u128) + (size as u128) <= n as u128;
            let ghost before = r@.map_values(|e: TarEntry| entry_view(e));
            r.push(
                TarEntry {
                    name: crate::text::string_of(name.as_slice()),
                    kind,
                    data_start: start,
                    size: size as usize,
                    complete,
                },
            );
            assert(r@.map_values(|e: TarEntry| entry_view(e)) =~= before.push(
                (entry_name(h), kind_of(h[156]), (pos + 512) as nat, entry_size(h), pos + 512 + entry_size(h) <= n),
            ));
        }
        pos = next_pos;
    }
    proof {
        if !done {
            assert(tar_walk(a@, pos as nat) =~= Seq::empty());
        }
    }
    assert(r@.map_values(|e: TarEntry| entry_view(e)) =~= tar_walk(a@, 0));
    r
}

/// The entries of a gzipped tar archive; `None` when it does not
/// decompress.
pub fn archive_entries(data: &[u8]) -> (r: Option<(Vec<u8>, Vec<TarEntry>)>)
    ensures
        match r {
            Some((raw, es)) => gunzipped(data@) == Some(raw@) && es@.map_values(|e: TarEntry| entry_view(e))
                == tar_walk(raw@, 0),
            None => gunzipped(data@) is None,
        },
{
    match gunzip(data) {
        Some(raw) => {
            let es = tar_entries(raw.as_slice());
            Some((raw, es))
        },
        None => None,
    }
}

} // verus!
