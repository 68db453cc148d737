//! PHP compatibility layer.
//!
//! Full HTTP request parsing (headers, body, cookies, query string), the
//! PHP code that populates `$_GET`/`$_POST`/`$_COOKIE`/`$_FILES`/
//! `$_SERVER`/`$_REQUEST`, front-controller routing (`public/`), composer
//! autoload detection and `.env` loading.
use vstd::prelude::*;
use vstd::utf8::encode_utf8;

use crate::paths::{join_path, join_path_chars, path_exists_chars, path_is_file};
use crate::text::{
    ascii_bytes_of, ascii_lower_byte, ascii_lower_bytes, ascii_seq, contains_bytes, ends_with, occurs_at,
    ends_with_chars, trim_end, trim_end_chars, trim_start, trim_start_chars, CharClass, chars_of, decimal, decimal_chars, to_uppercase_chars, uppercase, contains, contains_chars, decode_utf8_lossy, find_chars, lines_chars, lines_spec,
    lowercase, parse_unsigned, parse_unsigned_chars, push_all, split_chars, split_on, split_once_chars,
    split_once_spec, split_ws_chars, starts_with, starts_with_chars, str_eq, string_of, sub_chars,
    to_lowercase_chars, trim_ws, trim_ws_chars, utf8_lossy, utf8_of, views, ws_tokens, first_occurrence,
};

verus! {

// ───────────────────────────── PHP string literals ─────────────────────────────

/// How one character is written inside a PHP single-quoted literal.
pub open spec fn escape_char(c: char) -> Seq<char> {
    if c == '\\' {
        seq!['\\', '\\']
    } else if c == '\'' {
        seq!['\\', '\'']
    } else {
        seq![c]
    }
}

/// `s` with every backslash and single quote escaped by a backslash.
pub open spec fn php_escaped(s: Seq<char>) -> Seq<char>
    decreases s.len(),
{
    if s.len() == 0 {
        seq![]
    } else {
        php_escaped(s.drop_last()) + escape_char(s.last())
    }
}

/// The value PHP gives the body `t` of a single-quoted literal: `\\`
/// stands for `\`, `\'` for `'`, any other backslash stands for itself.
/// `None` when `t` cannot be the body of one literal: it holds a quote
/// that is not escaped, or ends in a backslash that would escape the
/// closing quote.
pub open spec fn php_literal_value(t: Seq<char>) -> Option<Seq<char>>
    decreases t.len(),
{
    if t.len() == 0 {
        Some(seq![])
    } else if t[0] == '\'' {
        None
    } else if t[0] == '\\' {
        if t.len() < 2 {
            None
        } else {
            let c = t[1];
            let unit = if c == '\\' || c == '\'' {
                seq![c]
            } else {
                seq!['\\', c]
            };
            match php_literal_value(t.skip(2)) {
                Some(rest) => Some(unit + rest),
                None => None,
            }
        }
    } else {
        match php_literal_value(t.drop_first()) {
            Some(rest) => Some(seq![t[0]] + rest),
            None => None,
        }
    }
}

proof fn lemma_escaped_front(c: char, rest: Seq<char>)
    ensures
        php_escaped(seq![c] + rest) == escape_char(c) + php_escaped(rest),
    decreases rest.len(),
{
    if rest.len() == 0 {
        assert((seq![c] + rest).drop_last() =~= Seq::<char>::empty());
        assert(php_escaped(Seq::<char>::empty()) == Seq::<char>::empty());
        assert(escape_char(c) + php_escaped(rest) =~= escape_char(c));
        assert(php_escaped(seq![c] + rest) =~= Seq::<char>::empty() + escape_char(c));
    } else {
        lemma_escaped_front(c, rest.drop_last());
        assert((seq![c] + rest).drop_last() =~= seq![c] + rest.drop_last());
        assert((seq![c] + rest).last() == rest.last());
        assert(php_escaped(seq![c] + rest) =~= escape_char(c) + php_escaped(rest.drop_last())
            + escape_char(rest.last()));
    }
}

/// An escaped string is the body of a single PHP single-quoted literal,
/// and PHP reads back exactly the string escaped: nothing in `s` can
/// end the literal early.
pub proof fn lemma_php_escape_roundtrip(s: Seq<char>)
    ensures
        php_literal_value(php_escaped(s)) == Some(s),
    decreases s.len(),
{
    if s.len() > 0 {
        let c = s[0];
        let rest = s.drop_first();
        assert(s =~= seq![c] + rest);
        lemma_escaped_front(c, rest);
        lemma_php_escape_roundtrip(rest);
        let e = php_escaped(s);
        assert(e == escape_char(c) + php_escaped(rest));
        if c == '\\' || c == '\'' {
            assert(e.skip(2) =~= php_escaped(rest));
        } else {
            assert(e.drop_first() =~= php_escaped(rest));
        }
        assert(seq![c] + rest =~= s);
    }
}

/// Escapes a string for inclusion in a PHP single-quoted literal.
pub fn escape_php(s: &str) -> (r: String)
    ensures
        r@ == php_escaped(s@),
{
    let cs = chars_of(s);
    let r = escape_php_chars(cs.as_slice());
    string_of(r.as_slice())
}

/// Escapes characters for inclusion in a PHP single-quoted literal.
pub fn escape_php_chars(s: &[char]) -> (r: Vec<char>)
    ensures
        r@ == php_escaped(s@),
{
    let mut r: Vec<char> = Vec::new();
    let mut i: usize = 0;
    while i < s.len()
        invariant
            i <= s@.len(),
            r@ == php_escaped(s@.take(i as int)),
        decreases s.len() - i,
    {
        let c = s[i];
        if c == '\\' {
            r.push('\\');
            r.push('\\');
        } else if c == '\'' {
            r.push('\\');
            r.push('\'');
        } else {
            r.push(c);
        }
        assert(s@.take(i + 1).drop_last() =~= s@.take(i as int));
        i = i + 1;
        assert(r@ =~= php_escaped(s@.take(i as int)));
    }
    assert(s@.take(s@.len() as int) =~= s@);
    r
}

/// Appends `lit` to `v`.
fn push_lit(v: &mut Vec<char>, lit: &str)
    ensures
        final(v)@ == old(v)@ + lit@,
{
    let l = chars_of(lit);
    push_all(v, l.as_slice());
}

/// Appends the escaped form of `s` to `v`.
fn push_escaped(v: &mut Vec<char>, s: &[char])
    ensures
        final(v)@ == old(v)@ + php_escaped(s@),
{
    let e = escape_php_chars(s);
    push_all(v, e.as_slice());
}

// ───────────────────────────── URL decoding ─────────────────────────────

/// The value of an ASCII hexadecimal digit.
pub open spec fn hex_value(b: u8) -> Option<u8> {
    if 48 <= b <= 57 {
        Some((b - 48) as u8)
    } else if 97 <= b <= 102 {
        Some((b - 97 + 10) as u8)
    } else if 65 <= b <= 70 {
        Some((b - 65 + 10) as u8)
    } else {
        None
    }
}

/// The value of an ASCII hexadecimal digit.
pub fn hex_digit(b: u8) -> (r: Option<u8>)
    ensures
        r == hex_value(b),
{
    if 48 <= b && b <= 57 {
        Some(b - 48)
    } else if 97 <= b && b <= 102 {
        Some(b - 97 + 10)
    } else if 65 <= b && b <= 70 {
        Some(b - 65 + 10)
    } else {
        None
    }
}

/// Percent-decoding of bytes: `+` is a space, `%` and two hex digits is
/// the byte they spell (only where both digits follow), anything else is
/// kept.
pub open spec fn percent_decoded(b: Seq<u8>) -> Seq<u8>
    decreases b.len(),
{
    if b.len() == 0 {
        seq![]
    } else if b[0] == 43 {
        seq![32u8] + percent_decoded(b.drop_first())
    } else if b[0] == 37 && 2 < b.len() && hex_value(b[1]) is Some && hex_value(b[2]) is Some {
        seq![(hex_value(b[1])->0 * 16 + hex_value(b[2])->0) as u8] + percent_decoded(b.skip(3))
    } else {
        seq![b[0]] + percent_decoded(b.drop_first())
    }
}

/// Hexadecimal digits: `0`–`9`, `a`–`f` and `A`–`F` with their values;
/// no other byte is one.
pub proof fn lemma_hex_digits(b: u8)
    ensures
        48 <= b <= 57 ==> hex_value(b) == Some((b - 48) as u8),
        97 <= b <= 102 ==> hex_value(b) == Some((b - 87) as u8),
        65 <= b <= 70 ==> hex_value(b) == Some((b - 55) as u8),
        !(48 <= b <= 57 || 97 <= b <= 102 || 65 <= b <= 70) ==> hex_value(b) is None,
{
}

/// Percent-decoding, read left to right: plain bytes stay as they are; a
/// `+` becomes a space; `%` followed by two hexadecimal digits becomes
/// the byte they spell; a `%` not followed by two digits stays a `%`.
pub proof fn lemma_percent_decoding(pre: Seq<u8>, rest: Seq<u8>, a: u8, b: u8)
    requires
        forall|i: int| 0 <= i < pre.len() ==> pre[i] != 37 && pre[i] != 43,
    ensures
        percent_decoded(pre) == pre,
        percent_decoded(pre + seq![43u8] + rest) == pre + seq![32u8] + percent_decoded(rest),
        hex_value(a) is Some && hex_value(b) is Some ==> percent_decoded(pre + seq![37u8, a, b] + rest) == pre
            + seq![(hex_value(a)->0 * 16 + hex_value(b)->0) as u8] + percent_decoded(rest),
        hex_value(a) is None ==> percent_decoded(pre + seq![37u8, a] + rest) == pre + seq![37u8] + percent_decoded(
            seq![a] + rest,
        ),
    decreases pre.len(),
{
    lemma_percent_decode_plain(pre);
    if pre.len() == 0 {
        assert(pre + seq![43u8] + rest =~= seq![43u8] + rest);
        assert((seq![43u8] + rest).drop_first() =~= rest);
        assert(pre + seq![32u8] + percent_decoded(rest) =~= seq![32u8] + percent_decoded(rest));
        assert(pre + seq![37u8, a, b] + rest =~= seq![37u8, a, b] + rest);
        assert((seq![37u8, a, b] + rest).skip(3) =~= rest);
        assert(pre + seq![37u8, a] + rest =~= seq![37u8, a] + rest);
        assert((seq![37u8, a] + rest).drop_first() =~= seq![a] + rest);
        let d = (seq![37u8, a, b] + rest);
        assert(d[1] == a && d[2] == b);
        let e = seq![37u8, a] + rest;
        assert(e[1] == a);
        assert(pre + seq![(hex_value(a)->0 * 16 + hex_value(b)->0) as u8] + percent_decoded(rest)
            =~= seq![(hex_value(a)->0 * 16 + hex_value(b)->0) as u8] + percent_decoded(rest));
        assert(pre + seq![37u8] + percent_decoded(seq![a] + rest) =~= seq![37u8] + percent_decoded(seq![a] + rest));
    } else {
        let p2 = pre.drop_first();
        lemma_percent_decoding(p2, rest, a, b);
        let x = pre[0];
        assert(pre + seq![43u8] + rest =~= seq![x] + (p2 + seq![43u8] + rest));
        assert((seq![x] + (p2 + seq![43u8] + rest)).drop_first() =~= p2 + seq![43u8] + rest);
        assert(pre + seq![32u8] + percent_decoded(rest) =~= seq![x] + (p2 + seq![32u8] + percent_decoded(rest)));
        assert(pre + seq![37u8, a, b] + rest =~= seq![x] + (p2 + seq![37u8, a, b] + rest));
        assert((seq![x] + (p2 + seq![37u8, a, b] + rest)).drop_first() =~= p2 + seq![37u8, a, b] + rest);
        assert(pre + seq![(hex_value(a)->0 * 16 + hex_value(b)->0) as u8] + percent_decoded(rest) =~= seq![x] + (p2
            + seq![(hex_value(a)->0 * 16 + hex_value(b)->0) as u8] + percent_decoded(rest)));
        assert(pre + seq![37u8, a] + rest =~= seq![x] + (p2 + seq![37u8, a] + rest));
        assert((seq![x] + (p2 + seq![37u8, a] + rest)).drop_first() =~= p2 + seq![37u8, a] + rest);
        assert(pre + seq![37u8] + percent_decoded(seq![a] + rest) =~= seq![x] + (p2 + seq![37u8] + percent_decoded(
            seq![a] + rest,
        )));
    }
}

/// URL-decoding of a string: its UTF-8 bytes percent-decoded, then read
/// back as UTF-8 with invalid sequences replaced.
pub open spec fn url_decoded(s: Seq<char>) -> Seq<char> {
    utf8_lossy(percent_decoded(encode_utf8(s)))
}

/// Percent-decodes bytes.
pub fn percent_decode(b: &[u8]) -> (r: Vec<u8>)
    ensures
        r@ == percent_decoded(b@),
{
    let mut out: Vec<u8> = Vec::new();
    let mut i: usize = 0;
    assert(b@.skip(0) =~= b@);
    assert(out@ + percent_decoded(b@) =~= percent_decoded(b@));
    while i < b.len()
        invariant
            i <= b@.len(),
            out@ + percent_decoded(b@.skip(i as int)) == percent_decoded(b@),
        decreases b.len() - i,
    {
        let ghost rest = b@.skip(i as int);
        if b[i] == 43 {
            out.push(32);
            assert(rest.drop_first() =~= b@.skip(i + 1));
            assert(out@ + percent_decoded(b@.skip(i + 1)) =~= percent_decoded(b@));
            i = i + 1;
        } else if b[i] == 37 && b.len() - i > 2 {
            match (hex_digit(b[i + 1]), hex_digit(b[i + 2])) {
                (Some(hi), Some(lo)) => {
                    out.push(hi * 16 + lo);
                    assert(rest.skip(3) =~= b@.skip(i + 3));
                    assert(out@ + percent_decoded(b@.skip(i + 3)) =~= percent_decoded(b@));
                    i = i + 3;
                },
                _ => {
                    out.push(37);
                    assert(rest.drop_first() =~= b@.skip(i + 1));
                    assert(out@ + percent_decoded(b@.skip(i + 1)) =~= percent_decoded(b@));
                    i = i + 1;
                },
            }
        } else {
            out.push(b[i]);
            assert(rest.drop_first() =~= b@.skip(i + 1));
            assert(out@ + percent_decoded(b@.skip(i + 1)) =~= percent_decoded(b@));
            i = i + 1;
        }
    }
    assert(out@ + percent_decoded(b@.skip(i as int)) =~= out@);
    out
}

/// URL-decodes characters.
pub fn url_decode_chars(s: &[char]) -> (r: Vec<char>)
    ensures
        r@ == url_decoded(s@),
{
    let bytes = utf8_of(s);
    let d = percent_decode(bytes.as_slice());
    decode_utf8_lossy(d.as_slice())
}

/// URL-decodes a string.
pub fn url_decode(input: &str) -> (r: String)
    ensures
        r@ == url_decoded(input@),
{
    let c = chars_of(input);
    let d = url_decode_chars(c.as_slice());
    string_of(d.as_slice())
}

/// Decoding leaves bytes without `%` and `+` as they are.
pub proof fn lemma_percent_decode_plain(b: Seq<u8>)
    requires
        forall|i: int| 0 <= i < b.len() ==> b[i] != 37 && b[i] != 43,
    ensures
        percent_decoded(b) == b,
    decreases b.len(),
{
    if b.len() > 0 {
        lemma_percent_decode_plain(b.drop_first());
        assert(seq![b[0]] + b.drop_first() =~= b);
    }
}

// ───────────────────────────── string maps ─────────────────────────────

/// Index of the first entry with key `k`, or -1.
pub open spec fn key_index(m: Seq<(Seq<char>, Seq<char>)>, k: Seq<char>) -> int
    decreases m.len(),
{
    if m.len() == 0 {
        -1
    } else {
        let j = key_index(m.drop_last(), k);
        if j >= 0 {
            j
        } else if m.last().0 == k {
            m.len() - 1
        } else {
            -1
        }
    }
}

/// The value under `k`.
pub open spec fn assoc_get(m: Seq<(Seq<char>, Seq<char>)>, k: Seq<char>) -> Option<Seq<char>> {
    let i = key_index(m, k);
    if i >= 0 {
        Some(m[i].1)
    } else {
        None
    }
}

/// `m` with `k` mapped to `v`: the entry of `k` replaced in place, or a
/// new entry at the end.
pub open spec fn assoc_insert(m: Seq<(Seq<char>, Seq<char>)>, k: Seq<char>, v: Seq<char>) -> Seq<
    (Seq<char>, Seq<char>),
> {
    let i = key_index(m, k);
    if i >= 0 {
        m.update(i, (k, v))
    } else {
        m.push((k, v))
    }
}

/// No key occurs twice.
pub open spec fn unique_keys(m: Seq<(Seq<char>, Seq<char>)>) -> bool {
    forall|i: int, j: int| 0 <= i < j < m.len() ==> m[i].0 != m[j].0
}

proof fn lemma_key_index(m: Seq<(Seq<char>, Seq<char>)>, k: Seq<char>)
    ensures
        -1 <= key_index(m, k) < m.len(),
        key_index(m, k) >= 0 ==> m[key_index(m, k)].0 == k,
        key_index(m, k) >= 0 ==> forall|j: int| 0 <= j < key_index(m, k) ==> m[j].0 != k,
        key_index(m, k) < 0 ==> forall|j: int| 0 <= j < m.len() ==> m[j].0 != k,
    decreases m.len(),
{
    if m.len() > 0 {
        let d = m.drop_last();
        lemma_key_index(d, k);
        assert forall|j: int| 0 <= j < d.len() implies d[j] == m[j] by {}
    }
}

proof fn lemma_key_index_is(m: Seq<(Seq<char>, Seq<char>)>, k: Seq<char>, i: int)
    requires
        -1 <= i < m.len(),
        i >= 0 ==> m[i].0 == k,
        forall|j: int| 0 <= j < m.len() && (i < 0 || j < i) ==> m[j].0 != k,
    ensures
        key_index(m, k) == i,
{
    lemma_key_index(m, k);
}

/// A map reads back what was last written under a key and is unchanged
/// under every other key.
pub proof fn lemma_assoc_insert_get(
    m: Seq<(Seq<char>, Seq<char>)>,
    k: Seq<char>,
    v: Seq<char>,
    k2: Seq<char>,
)
    ensures
        assoc_get(assoc_insert(m, k, v), k) == Some(v),
        k2 != k ==> assoc_get(assoc_insert(m, k, v), k2) == assoc_get(m, k2),
{
    lemma_key_index(m, k);
    lemma_key_index(m, k2);
    let m2 = assoc_insert(m, k, v);
    let i = key_index(m, k);
    if i >= 0 {
        lemma_key_index_is(m2, k, i);
        if k2 != k {
            lemma_key_index_is(m2, k2, key_index(m, k2));
        }
    } else {
        lemma_key_index_is(m2, k, m.len() as int);
        if k2 != k {
            lemma_key_index_is(m2, k2, key_index(m, k2));
        }
    }
}

/// Writing keeps keys unique.
pub proof fn lemma_assoc_insert_unique(m: Seq<(Seq<char>, Seq<char>)>, k: Seq<char>, v: Seq<char>)
    requires
        unique_keys(m),
    ensures
        unique_keys(assoc_insert(m, k, v)),
{
    lemma_key_index(m, k);
}

/// A map from strings to strings, in the order keys were first written.
pub struct StrMap {
    entries: Vec<(String, String)>,
}

impl View for StrMap {
    type V = Seq<(Seq<char>, Seq<char>)>;

    closed spec fn view(&self) -> Seq<(Seq<char>, Seq<char>)> {
        crate::text::pair_views(self.entries@)
    }
}

impl StrMap {
    /// The empty map.
    pub fn new() -> (r: StrMap)
        ensures
            r@ == Seq::<(Seq<char>, Seq<char>)>::empty(),
    {
        let r = StrMap { entries: Vec::new() };
        assert(r@ =~= Seq::<(Seq<char>, Seq<char>)>::empty());
        r
    }

    /// Number of keys.
    pub fn len(&self) -> (r: usize)
        ensures
            r == self@.len(),
    {
        self.entries.len()
    }

    /// Whether the map holds no key.
    pub fn is_empty(&self) -> (r: bool)
        ensures
            r == (self@.len() == 0),
    {
        self.entries.len() == 0
    }

    /// The entries, in order.
    pub fn entries(&self) -> (r: &Vec<(String, String)>)
        ensures
            crate::text::pair_views(r@) == self@,
    {
        &self.entries
    }

    fn position(&self, k: &str) -> (r: Option<usize>)
        ensures
            self@.len() == self.entries@.len(),
            match r {
                Some(i) => key_index(self@, k@) == i && i < self.entries@.len(),
                None => key_index(self@, k@) < 0,
            },
    {
        let mut i: usize = 0;
        while i < self.entries.len()
            invariant
                i <= self.entries@.len(),
                self@ == crate::text::pair_views(self.entries@),
                forall|j: int| 0 <= j < i ==> self@[j].0 != k@,
            decreases self.entries.len() - i,
        {
            assert(self@[i as int].0 == self.entries@[i as int].0@);
            if str_eq(self.entries[i].0.as_str(), k) {
                proof {
                    lemma_key_index_is(self@, k@, i as int);
                }
                return Some(i);
            }
            i = i + 1;
        }
        proof {
            lemma_key_index_is(self@, k@, -1);
        }
        None
    }

    /// The value under `k`.
    pub fn get(&self, k: &str) -> (r: Option<&String>)
        ensures
            match r {
                Some(v) => assoc_get(self@, k@) == Some(v@),
                None => assoc_get(self@, k@) is None,
            },
    {
        match self.position(k) {
            Some(i) => {
                assert(self@[i as int].1 == self.entries@[i as int].1@);
                Some(&self.entries[i].1)
            },
            None => None,
        }
    }

    /// Maps `k` to `v`, replacing an earlier value.
    pub fn insert(&mut self, k: String, v: String)
        ensures
            final(self)@ == assoc_insert(old(self)@, k@, v@),
    {
        match self.position(k.as_str()) {
            Some(i) => {
                self.entries.set(i, (k, v));
                assert(self@ =~= assoc_insert(old(self)@, k@, v@));
            },
            None => {
                self.entries.push((k, v));
                assert(self@ =~= assoc_insert(old(self)@, k@, v@));
            },
        }
    }
}

// ───────────────────────────── form data and cookies ─────────────────────────────

/// The pairs of URL-encoded form data split at `&`: each piece split at
/// its first `=` (no `=` means an empty value), pieces with an empty key
/// dropped, keys and values URL-decoded.
pub open spec fn form_pairs(pieces: Seq<Seq<char>>) -> Seq<(Seq<char>, Seq<char>)>
    decreases pieces.len(),
{
    if pieces.len() == 0 {
        seq![]
    } else {
        let rest = form_pairs(pieces.drop_last());
        let p = pieces.last();
        let kv = match split_once_spec(p, '=') {
            Some(kv) => kv,
            None => (p, Seq::<char>::empty()),
        };
        if kv.0.len() == 0 {
            rest
        } else {
            rest.push((url_decoded(kv.0), url_decoded(kv.1)))
        }
    }
}

/// The pairs of URL-encoded form data `s`, in order.
pub open spec fn urlencoded(s: Seq<char>) -> Seq<(Seq<char>, Seq<char>)> {
    if s.len() == 0 {
        seq![]
    } else {
        form_pairs(split_on(s, '&'))
    }
}

/// Pair `e` is what a piece of URL-encoded form data says: the text
/// before its first `=` (or the whole piece when it has none) and the
/// text after it, each URL-decoded, the name not empty.
pub open spec fn form_pair_from(piece: Seq<char>, e: (Seq<char>, Seq<char>)) -> bool {
    match split_once_spec(piece, '=') {
        Some((k, v)) => k.len() > 0 && e.0 == url_decoded(k) && e.1 == url_decoded(v),
        None => piece.len() > 0 && e.0 == url_decoded(piece) && e.1 == url_decoded(Seq::<char>::empty()),
    }
}

/// URL-encoded form data is read piece by piece, in order: the `i`-th
/// pair is what some piece says (names and values URL-decoded), later
/// pairs come from later pieces, and a piece with a non-empty name always
/// yields a pair.
pub proof fn lemma_form_pairs(ps: Seq<Seq<char>>)
    ensures
        form_pairs(ps).len() <= ps.len(),
        forall|i: int|
            0 <= i < form_pairs(ps).len() ==> exists|j: int|
                i <= j < ps.len() && form_pair_from(ps[j], #[trigger] form_pairs(ps)[i]),
        (forall|j: int|
            0 <= j < ps.len() ==> (#[trigger] split_once_spec(ps[j], '=') matches Some((k, v)) && k.len() > 0) || (
            split_once_spec(ps[j], '=') is None && ps[j].len() > 0)) ==> form_pairs(ps).len() == ps.len(),
    decreases ps.len(),
{
    if ps.len() > 0 {
        let prev = ps.drop_last();
        lemma_form_pairs(prev);
        let r = form_pairs(ps);
        let rest = form_pairs(prev);
        let last = ps.len() - 1;
        assert forall|i: int| 0 <= i < r.len() implies exists|j: int| i <= j < ps.len() && form_pair_from(ps[j], #[trigger] r[i]) by {
            if i < rest.len() {
                assert(r[i] == rest[i]);
                let j = choose|j: int| i <= j < prev.len() && form_pair_from(prev[j], #[trigger] rest[i]);
                assert(prev[j] == ps[j]);
            } else {
                assert(form_pair_from(ps[last], r[i]));
            }
        }
        if forall|j: int|
            0 <= j < ps.len() ==> (#[trigger] split_once_spec(ps[j], '=') matches Some((k, v)) && k.len() > 0) || (
            split_once_spec(ps[j], '=') is None && ps[j].len() > 0) {
            assert forall|j: int|
                0 <= j < prev.len() implies (#[trigger] split_once_spec(prev[j], '=') matches Some((k, v)) && k.len() > 0)
                || (split_once_spec(prev[j], '=') is None && prev[j].len() > 0) by {
                assert(prev[j] == ps[j]);
                assert(split_once_spec(ps[j], '=') matches Some((k, v)) && k.len() > 0 || (split_once_spec(ps[j], '=') is None
                    && ps[j].len() > 0));
            }
            assert(split_once_spec(ps[last], '=') matches Some((k, v)) && k.len() > 0 || (split_once_spec(ps[last], '=') is None
                && ps[last].len() > 0));
        }
    }
}

/// Parses URL-encoded form data.
pub fn parse_urlencoded(s: &str) -> (r: Vec<(String, String)>)
    ensures
        crate::text::pair_views(r@) == urlencoded(s@),
        s@.len() == 0 ==> r@.len() == 0,
        forall|i: int|
            0 <= i < r@.len() ==> exists|j: int|
                i <= j < split_on(s@, '&').len() && form_pair_from(
                    split_on(s@, '&')[j],
                    #[trigger] crate::text::pair_views(r@)[i],
                ),
{
    let c = chars_of(s);
    let r = parse_urlencoded_chars(c.as_slice());
    proof {
        lemma_form_pairs(split_on(s@, '&'));
        assert(crate::text::pair_views(r@).len() == r@.len());
        if s@.len() > 0 {
            assert(crate::text::pair_views(r@) == form_pairs(split_on(s@, '&')));
        }
    }
    r
}

/// Parses URL-encoded form data given as characters.
pub fn parse_urlencoded_chars(s: &[char]) -> (r: Vec<(String, String)>)
    ensures
        crate::text::pair_views(r@) == urlencoded(s@),
{
    let mut r: Vec<(String, String)> = Vec::new();
    if s.len() == 0 {
        assert(crate::text::pair_views(r@) =~= Seq::<(Seq<char>, Seq<char>)>::empty());
        return r;
    }
    let pieces = split_chars(s, '&');
    let ghost ps = views(pieces@);
    let mut i: usize = 0;
    while i < pieces.len()
        invariant
            i <= pieces@.len(),
            ps == views(pieces@),
            ps == split_on(s@, '&'),
            crate::text::pair_views(r@) == form_pairs(ps.take(i as int)),
        decreases pieces.len() - i,
    {
        let p = pieces[i].as_slice();
        let ghost before = r@;
        assert(ps.take(i + 1).drop_last() =~= ps.take(i as int));
        assert(ps.take(i + 1).last() == p@);
        let (k, v) = match split_once_chars(p, '=') {
            Some((k, v)) => (k, v),
            None => (sub_all(p), Vec::new()),
        };
        if k.len() > 0 {
            let kd = url_decode_chars(k.as_slice());
            let vd = url_decode_chars(v.as_slice());
            r.push((string_of(kd.as_slice()), string_of(vd.as_slice())));
            assert(crate::text::pair_views(r@) =~= crate::text::pair_views(before).push((kd@, vd@)));
        }
        i = i + 1;
    }
    assert(ps.take(ps.len() as int) =~= ps);
    r
}

fn sub_all(p: &[char]) -> (r: Vec<char>)
    ensures
        r@ == p@,
{
    let r = crate::text::sub_chars(p, 0, p.len());
    assert(r@ =~= p@);
    r
}

/// The cookies of the pieces of a `Cookie` header split at `;`: each
/// piece trimmed and split at its first `=` (pieces without `=` are
/// skipped), key and value trimmed and URL-decoded; a later cookie of the
/// same name replaces the value of an earlier one.
pub open spec fn cookie_pairs(pieces: Seq<Seq<char>>) -> Seq<(Seq<char>, Seq<char>)>
    decreases pieces.len(),
{
    if pieces.len() == 0 {
        seq![]
    } else {
        let rest = cookie_pairs(pieces.drop_last());
        match split_once_spec(trim_ws(pieces.last()), '=') {
            Some((k, v)) => assoc_insert(rest, url_decoded(trim_ws(k)), url_decoded(trim_ws(v))),
            None => rest,
        }
    }
}

/// The cookies of a `Cookie` header.
pub open spec fn cookies_of(header: Seq<char>) -> Seq<(Seq<char>, Seq<char>)> {
    cookie_pairs(split_on(header, ';'))
}

/// Cookie `e` is what a piece of a `Cookie` header says: the text before
/// its first `=` and the text after it, each trimmed and URL-decoded.
pub open spec fn cookie_from(piece: Seq<char>, e: (Seq<char>, Seq<char>)) -> bool {
    match split_once_spec(trim_ws(piece), '=') {
        Some((k, v)) => e.0 == url_decoded(trim_ws(k)) && e.1 == url_decoded(trim_ws(v)),
        None => false,
    }
}

proof fn lemma_cookie_pairs_from(ps: Seq<Seq<char>>)
    ensures
        forall|i: int|
            0 <= i < cookie_pairs(ps).len() ==> exists|j: int| 0 <= j < ps.len() && cookie_from(ps[j], #[trigger] cookie_pairs(ps)[i]),
    decreases ps.len(),
{
    if ps.len() > 0 {
        let prev = ps.drop_last();
        lemma_cookie_pairs_from(prev);
        let rest = cookie_pairs(prev);
        let r = cookie_pairs(ps);
        let last = ps.len() - 1;
        match split_once_spec(trim_ws(ps.last()), '=') {
            Some((k, v)) => {
                let kk = url_decoded(trim_ws(k));
                let vv = url_decoded(trim_ws(v));
                lemma_key_index(rest, kk);
                assert(cookie_from(ps[last], (kk, vv)));
                assert forall|i: int| 0 <= i < r.len() implies exists|j: int| 0 <= j < ps.len() && cookie_from(ps[j], #[trigger] r[i]) by {
                    if r[i] == (kk, vv) {
                        assert(cookie_from(ps[last], r[i]));
                    } else {
                        assert(i < rest.len() && r[i] == rest[i]);
                        let j = choose|j: int| 0 <= j < prev.len() && cookie_from(prev[j], #[trigger] rest[i]);
                        assert(prev[j] == ps[j]);
                        assert(cookie_from(ps[j], r[i]));
                    }
                }
            },
            None => {
                assert forall|i: int| 0 <= i < r.len() implies exists|j: int| 0 <= j < ps.len() && cookie_from(ps[j], #[trigger] r[i]) by {
                    let j = choose|j: int| 0 <= j < prev.len() && cookie_from(prev[j], #[trigger] rest[i]);
                    assert(prev[j] == ps[j]);
                }
            },
        }
    }
}

/// The name a cookie piece gives, trimmed and URL-decoded, if it has an
/// `=`.
pub open spec fn cookie_name_of(piece: Seq<char>) -> Option<Seq<char>> {
    match split_once_spec(trim_ws(piece), '=') {
        Some((k, v)) => Some(url_decoded(trim_ws(k))),
        None => None,
    }
}

/// A cookie is read back with the value of the last piece that names
/// it: for a piece `k=v` that no later piece overrides, the parsed
/// cookies map the decoded `k` to the decoded `v`.
pub proof fn lemma_cookie_last_writer(ps: Seq<Seq<char>>, j: int)
    requires
        0 <= j < ps.len(),
        cookie_name_of(ps[j]) is Some,
        forall|l: int| j < l < ps.len() ==> #[trigger] cookie_name_of(ps[l]) != cookie_name_of(ps[j]),
    ensures
        split_once_spec(trim_ws(ps[j]), '=') matches Some((k, v)) && assoc_get(
            cookie_pairs(ps),
            url_decoded(trim_ws(k)),
        ) == Some(url_decoded(trim_ws(v))),
    decreases ps.len(),
{
    let (k, v) = split_once_spec(trim_ws(ps[j]), '=')->0;
    let kk = url_decoded(trim_ws(k));
    let prev = ps.drop_last();
    let last = ps.len() - 1;
    if j == last {
        lemma_assoc_insert_get(cookie_pairs(prev), kk, url_decoded(trim_ws(v)), kk);
    } else {
        assert(prev[j] == ps[j]);
        assert forall|l: int| j < l < prev.len() implies #[trigger] cookie_name_of(prev[l]) != cookie_name_of(prev[j]) by {
            assert(prev[l] == ps[l]);
            assert(cookie_name_of(ps[l]) != cookie_name_of(ps[j]));
        }
        lemma_cookie_last_writer(prev, j);
        assert(cookie_name_of(ps[last]) != cookie_name_of(ps[j]));
        match split_once_spec(trim_ws(ps.last()), '=') {
            Some((k2, v2)) => {
                lemma_assoc_insert_get(cookie_pairs(prev), url_decoded(trim_ws(k2)), url_decoded(trim_ws(v2)), kk);
            },
            None => {},
        }
    }
}

/// What a `Cookie` header parses to: every cookie is what some piece of
/// the header says, its name and value trimmed and URL-decoded (so
/// `c=three%20four` gives `three four`); and each piece with an `=` that
/// no later piece overrides is read back under its decoded name.
pub proof fn lemma_cookies_decoded(header: Seq<char>)
    ensures
        forall|i: int|
            0 <= i < cookies_of(header).len() ==> exists|j: int|
                0 <= j < split_on(header, ';').len() && cookie_from(split_on(header, ';')[j], #[trigger] cookies_of(header)[i]),
        forall|j: int|
            #![trigger split_on(header, ';')[j]]
            0 <= j < split_on(header, ';').len() && cookie_name_of(split_on(header, ';')[j]) is Some && (forall|l: int|
                j < l < split_on(header, ';').len() ==> #[trigger] cookie_name_of(split_on(header, ';')[l])
                    != cookie_name_of(split_on(header, ';')[j])) ==> (split_once_spec(
                trim_ws(split_on(header, ';')[j]),
                '=',
            ) matches Some((k, v)) && assoc_get(cookies_of(header), url_decoded(trim_ws(k))) == Some(
                url_decoded(trim_ws(v)),
            )),
{
    let ps = split_on(header, ';');
    lemma_cookie_pairs_from(ps);
    assert forall|j: int|
        #![trigger ps[j]]
        0 <= j < ps.len() && cookie_name_of(ps[j]) is Some && (forall|l: int|
            j < l < ps.len() ==> #[trigger] cookie_name_of(ps[l]) != cookie_name_of(ps[j])) implies (split_once_spec(
        trim_ws(ps[j]),
        '=',
    ) matches Some((k, v)) && assoc_get(cookies_of(header), url_decoded(trim_ws(k))) == Some(url_decoded(trim_ws(v)))) by {
        lemma_cookie_last_writer(ps, j);
    }
}

/// Parses a `Cookie` header value into a map.
pub fn parse_cookie_header(header: &str) -> (r: StrMap)
    ensures
        r@ == cookies_of(header@),
        forall|i: int|
            0 <= i < r@.len() ==> exists|j: int|
                0 <= j < split_on(header@, ';').len() && cookie_from(split_on(header@, ';')[j], #[trigger] r@[i]),
        forall|j: int|
            #![trigger split_on(header@, ';')[j]]
            0 <= j < split_on(header@, ';').len() && cookie_name_of(split_on(header@, ';')[j]) is Some && (forall|l: int|
                j < l < split_on(header@, ';').len() ==> #[trigger] cookie_name_of(split_on(header@, ';')[l])
                    != cookie_name_of(split_on(header@, ';')[j])) ==> (split_once_spec(
                trim_ws(split_on(header@, ';')[j]),
                '=',
            ) matches Some((k, v)) && assoc_get(r@, url_decoded(trim_ws(k))) == Some(url_decoded(trim_ws(v)))),
{
    proof {
        lemma_cookies_decoded(header@);
    }
    let c = chars_of(header);
    parse_cookie_chars(c.as_slice())
}

fn parse_cookie_chars(h: &[char]) -> (r: StrMap)
    ensures
        r@ == cookies_of(h@),
{
    let mut m = StrMap::new();
    let pieces = split_chars(h, ';');
    let ghost ps = views(pieces@);
    let mut i: usize = 0;
    while i < pieces.len()
        invariant
            i <= pieces@.len(),
            ps == views(pieces@),
            ps == split_on(h@, ';'),
            m@ == cookie_pairs(ps.take(i as int)),
        decreases pieces.len() - i,
    {
        assert(ps.take(i + 1).drop_last() =~= ps.take(i as int));
        assert(ps.take(i + 1).last() == pieces@[i as int]@);
        let t = trim_ws_chars(pieces[i].as_slice());
        match split_once_chars(t.as_slice(), '=') {
            Some((k, v)) => {
                let kt = trim_ws_chars(k.as_slice());
                let vt = trim_ws_chars(v.as_slice());
                let kd = url_decode_chars(kt.as_slice());
                let vd = url_decode_chars(vt.as_slice());
                m.insert(string_of(kd.as_slice()), string_of(vd.as_slice()));
            },
            None => {},
        }
        i = i + 1;
    }
    assert(ps.take(ps.len() as int) =~= ps);
    m
}

// ───────────────────────────── requests ─────────────────────────────

/// A file uploaded through `multipart/form-data`.
pub struct UploadedFile {
    pub field_name: String,
    pub file_name: String,
    pub content_type: String,
    pub data: Vec<u8>,
    pub tmp_path: String,
}

/// A full HTTP request: request line, headers, cookies and body.
pub struct FullHttpRequest {
    pub method: String,
    pub path: String,
    pub query_string: String,
    pub http_version: String,
    /// Header names are lower case.
    pub headers: StrMap,
    pub cookies: StrMap,
    pub body: Vec<u8>,
    pub content_type: Option<String>,
    pub content_length: Option<usize>,
    /// Files parsed from a `multipart/form-data` body.
    pub files: Vec<UploadedFile>,
    /// Text fields parsed from a `multipart/form-data` body.
    pub multipart_post_params: Vec<(String, String)>,
}

/// The blank line that ends the head of a request.
pub open spec fn head_end() -> Seq<char> {
    seq!['\r', '\n', '\r', '\n']
}

/// The bytes of the blank line that ends a request head.
pub open spec fn head_end_bytes() -> Seq<u8> {
    ascii_seq(head_end())
}

/// Where the first blank line of a raw request starts (-1 when there is
/// none).
pub open spec fn head_len(raw: Seq<u8>) -> int {
    first_occurrence(raw, head_end_bytes())
}

/// The head of a raw request: the lossy UTF-8 reading of the bytes before
/// the first blank line; `None` when there is no blank line.
pub open spec fn request_head(raw: Seq<u8>) -> Option<Seq<char>> {
    if head_len(raw) < 0 {
        None
    } else {
        Some(utf8_lossy(raw.take(head_len(raw))))
    }
}

/// The headers of the header lines: each line split at its first `:`
/// (lines without one are skipped), the name trimmed and lower-cased, the
/// value trimmed; a later header of the same name replaces the earlier.
pub open spec fn header_fold(lines: Seq<Seq<char>>) -> Seq<(Seq<char>, Seq<char>)>
    decreases lines.len(),
{
    if lines.len() == 0 {
        seq![]
    } else {
        let rest = header_fold(lines.drop_last());
        match split_once_spec(lines.last(), ':') {
            Some((k, v)) => assoc_insert(rest, lowercase(trim_ws(k)), trim_ws(v)),
            None => rest,
        }
    }
}

/// The request line's tokens of a head.
pub open spec fn request_tokens(head: Seq<char>) -> Seq<Seq<char>> {
    let ls = lines_spec(head);
    if ls.len() == 0 {
        seq![]
    } else {
        ws_tokens(ls[0])
    }
}

/// A raw request parses: it has a head whose first line has at least a
/// method and a URI.
pub open spec fn parses(raw: Seq<u8>) -> bool {
    request_head(raw) matches Some(h) && lines_spec(h).len() > 0 && request_tokens(h).len() >= 2
}

/// The cookies a header map carries.
pub open spec fn cookies_in(headers: Seq<(Seq<char>, Seq<char>)>) -> Seq<(Seq<char>, Seq<char>)> {
    match assoc_get(headers, "cookie"@) {
        Some(c) => cookies_of(c),
        None => seq![],
    }
}

/// The declared content length of a header map.
pub open spec fn content_length_in(headers: Seq<(Seq<char>, Seq<char>)>) -> Option<nat> {
    match assoc_get(headers, "content-length"@) {
        Some(v) => parse_unsigned(v, usize::MAX as nat),
        None => None,
    }
}

/// What `FullHttpRequest::parse` makes of a raw request that parses.
pub open spec fn parsed_request(q: FullHttpRequest, raw: Seq<u8>) -> bool {
    let h = request_head(raw)->0;
    let ls = lines_spec(h);
    let t = request_tokens(h);
    let uri = t[1];
    let headers = header_fold(ls.drop_first());
    &&& q.method@ == t[0]
    &&& match split_once_spec(uri, '?') {
        Some((p, qs)) => q.path@ == p && q.query_string@ == qs,
        None => q.path@ == uri && q.query_string@ == Seq::<char>::empty(),
    }
    &&& q.http_version@ == (if t.len() > 2 { t[2] } else { "HTTP/1.1"@ })
    &&& q.headers@ == headers
    &&& q.cookies@ == cookies_in(headers)
    &&& q.body@ == raw.skip(head_len(raw) + 4)
    &&& match q.content_type {
        Some(ct) => assoc_get(headers, "content-type"@) == Some(ct@),
        None => assoc_get(headers, "content-type"@) is None,
    }
    &&& match q.content_length {
        Some(n) => content_length_in(headers) == Some(n as nat),
        None => content_length_in(headers) is None,
    }
    &&& q.files@.len() == 0
    &&& q.multipart_post_params@.len() == 0
}

/// Copies a string.
fn copy_string(s: &String) -> (r: String)
    ensures
        r@ == s@,
{
    s.clone()
}

/// Copies a list of string pairs.
pub(crate) fn copy_pairs(v: &Vec<(String, String)>) -> (r: Vec<(String, String)>)
    ensures
        crate::text::pair_views(r@) == crate::text::pair_views(v@),
{
    let mut r: Vec<(String, String)> = Vec::new();
    let mut i: usize = 0;
    while i < v.len()
        invariant
            i <= v@.len(),
            crate::text::pair_views(r@) == crate::text::pair_views(v@).take(i as int),
        decreases v.len() - i,
    {
        let ghost before = r@;
        let a = copy_string(&v[i].0);
        let b = copy_string(&v[i].1);
        r.push((a, b));
        assert(crate::text::pair_views(r@) =~= crate::text::pair_views(before).push((v@[i as int].0@, v@[i as int].1@)));
        i = i + 1;
        assert(crate::text::pair_views(r@) =~= crate::text::pair_views(v@).take(i as int));
    }
    assert(crate::text::pair_views(v@).take(v@.len() as int) =~= crate::text::pair_views(v@));
    r
}

fn header_map(lines: &Vec<Vec<char>>) -> (r: StrMap)
    requires
        lines@.len() > 0,
    ensures
        r@ == header_fold(views(lines@).drop_first()),
{
    let ghost ls = views(lines@).drop_first();
    let mut m = StrMap::new();
    let mut i: usize = 1;
    assert(ls.take(0) =~= Seq::<Seq<char>>::empty());
    while i < lines.len()
        invariant
            1 <= i <= lines@.len(),
            ls == views(lines@).drop_first(),
            m@ == header_fold(ls.take(i - 1)),
        decreases lines.len() - i,
    {
        assert(ls.take(i as int).drop_last() =~= ls.take(i - 1));
        assert(ls.take(i as int).last() == lines@[i as int]@);
        match split_once_chars(lines[i].as_slice(), ':') {
            Some((k, v)) => {
                let kt = trim_ws_chars(k.as_slice());
                let kl = to_lowercase_chars(kt.as_slice());
                let vt = trim_ws_chars(v.as_slice());
                m.insert(string_of(kl.as_slice()), string_of(vt.as_slice()));
            },
            None => {},
        }
        i = i + 1;
    }
    assert(ls.take(ls.len() as int) =~= ls);
    m
}

impl FullHttpRequest {
    /// Parses a raw HTTP request: the bytes before the first blank line
    /// (`\r\n\r\n`), read as UTF-8 with invalid sequences replaced, give
    /// the request line, the headers (names lower case) and the cookies;
    /// the bytes after it are the body.  `None` without a blank line or
    /// without a method and a URI.
    pub fn parse(raw: &[u8]) -> (r: Option<FullHttpRequest>)
        ensures
            r is Some <==> parses(raw@),
            r matches Some(q) ==> parsed_request(q, raw@),
    {
        let sep = ascii_bytes_of("\r\n\r\n");
        proof {
            reveal_strlit("\r\n\r\n");
            assert(sep@ =~= head_end_bytes());
            assert(sep@.len() == 4);
        }
        let pos = match crate::text::find_bytes(raw, sep.as_slice()) {
            Some(i) => i,
            None => {
                return None;
            },
        };
        proof {
            crate::text::lemma_first_occurrence(raw@, sep@);
            assert(pos as int == first_occurrence(raw@, sep@));
            assert(pos + 4 <= raw@.len());
        }
        let head_raw = crate::text::sub_bytes(raw, 0, pos);
        assert(head_raw@ =~= raw@.take(pos as int));
        let head = decode_utf8_lossy(head_raw.as_slice());
        assert(request_head(raw@) == Some(head@));
        let n = raw.len();
        let body = crate::text::sub_bytes(raw, pos + 4, n);
        assert(body@ =~= raw@.skip(head_len(raw@) + 4));
        let lines = lines_chars(head.as_slice());
        if lines.len() == 0 {
            return None;
        }
        let parts = split_ws_chars(lines[0].as_slice());
        assert(views(parts@) == request_tokens(head@));
        if parts.len() < 2 {
            return None;
        }
        let method = string_of(parts[0].as_slice());
        let uri = parts[1].as_slice();
        let http_version = if parts.len() > 2 {
            string_of(parts[2].as_slice())
        } else {
            "HTTP/1.1".to_string()
        };
        let (path, query_string) = match split_once_chars(uri, '?') {
            Some((p, q)) => (string_of(p.as_slice()), string_of(q.as_slice())),
            None => (string_of(uri), String::new()),
        };
        let headers = header_map(&lines);
        let content_type = match headers.get("content-type") {
            Some(v) => Some(copy_string(v)),
            None => None,
        };
        let content_length = match headers.get("content-length") {
            Some(v) => {
                let vc = chars_of(v.as_str());
                match parse_unsigned_chars(vc.as_slice(), usize::MAX as u64) {
                    Some(n) => Some(n as usize),
                    None => None,
                }
            },
            None => None,
        };
        let cookies = match headers.get("cookie") {
            Some(c) => parse_cookie_header(c.as_str()),
            None => StrMap::new(),
        };
        let q = FullHttpRequest {
            method,
            path,
            query_string,
            http_version,
            headers,
            cookies,
            body,
            content_type,
            content_length,
            files: Vec::new(),
            multipart_post_params: Vec::new(),
        };
        Some(q)
    }

    /// The `$_GET` parameters: the URL-encoded pairs of the query string.
    pub fn get_params(&self) -> (r: Vec<(String, String)>)
        ensures
            crate::text::pair_views(r@) == urlencoded(self.query_string@),
    {
        parse_urlencoded(self.query_string.as_str())
    }

    /// Whether the body is JSON: the content type names
    /// `application/json`.
    pub fn is_json(&self) -> (r: bool)
        ensures
            r == (self.content_type matches Some(ct) && contains(ct@, "application/json"@)),
    {
        match &self.content_type {
            Some(ct) => {
                let c = chars_of(ct.as_str());
                let j = chars_of("application/json");
                contains_chars(c.as_slice(), j.as_slice())
            },
            None => false,
        }
    }

    /// The `$_POST` parameters: none unless the method is POST, PUT or
    /// PATCH; the multipart text fields when there are any; else the
    /// URL-encoded pairs of a form body.
    pub fn post_params(&self) -> (r: Vec<(String, String)>)
        ensures
            crate::text::pair_views(r@) == post_pairs(*self),
    {
        let m = self.method.as_str();
        if !str_eq(m, "POST") && !str_eq(m, "PUT") && !str_eq(m, "PATCH") {
            let r: Vec<(String, String)> = Vec::new();
            assert(crate::text::pair_views(r@) =~= Seq::<(Seq<char>, Seq<char>)>::empty());
            return r;
        }
        if self.multipart_post_params.len() > 0 {
            return copy_pairs(&self.multipart_post_params);
        }
        match &self.content_type {
            Some(ct) => {
                let c = chars_of(ct.as_str());
                let f = chars_of("application/x-www-form-urlencoded");
                if starts_with_chars(c.as_slice(), f.as_slice()) {
                    let b = decode_utf8_lossy(self.body.as_slice());
                    return parse_urlencoded_chars(b.as_slice());
                }
            },
            None => {},
        }
        let r: Vec<(String, String)> = Vec::new();
        assert(crate::text::pair_views(r@) =~= Seq::<(Seq<char>, Seq<char>)>::empty());
        r
    }
}

/// The `$_POST` pairs of a request.
pub open spec fn post_pairs(q: FullHttpRequest) -> Seq<(Seq<char>, Seq<char>)> {
    let m = q.method@;
    if m != "POST"@ && m != "PUT"@ && m != "PATCH"@ {
        seq![]
    } else if q.multipart_post_params@.len() > 0 {
        crate::text::pair_views(q.multipart_post_params@)
    } else if q.content_type matches Some(ct) && starts_with(ct@, "application/x-www-form-urlencoded"@) {
        urlencoded(utf8_lossy(q.body@))
    } else {
        seq![]
    }
}

// ───────────────────────────── PHP superglobals ─────────────────────────────

/// The version the server reports in `SERVER_SOFTWARE`.
pub const SERVER_VERSION: &'static str = "0.1.0";

/// PHP code that serves the raw body through `php://input`.
pub const PHP_INPUT_STREAM: &'static str = "if (!class_exists('TurbineInputStream')) { class TurbineInputStream { private $pos = 0; private $data; public function stream_open($path, $mode, $options, &$opened_path) { $this->data = $GLOBALS['__turbine_raw_body'] ?? ''; return true; } public function stream_read($count) { $chunk = substr($this->data, $this->pos, $count); $this->pos += strlen($chunk); return $chunk; } public function stream_eof() { return $this->pos >= strlen($this->data); } public function stream_stat() { return ['size' => strlen($this->data)]; } public function stream_seek($offset, $whence) { if ($whence === SEEK_SET) { $this->pos = $offset; } elseif ($whence === SEEK_CUR) { $this->pos += $offset; } elseif ($whence === SEEK_END) { $this->pos = strlen($this->data) + $offset; } return true; } public function stream_tell() { return $this->pos; } } stream_wrapper_unregister('php'); stream_wrapper_register('php', 'TurbineInputStream'); } ";

/// `lead`, the escaped `value`, and the closing `'; `.
pub open spec fn quoted(lead: Seq<char>, value: Seq<char>) -> Seq<char> {
    lead + php_escaped(value) + "'; "@
}

/// The request URI: the path, then `?` and the query string if any.
pub open spec fn request_uri(path: Seq<char>, qs: Seq<char>) -> Seq<char> {
    if qs.len() == 0 {
        path
    } else {
        path + seq!['?'] + qs
    }
}

/// The `$_SERVER` entries that do not come from headers (first half).
pub open spec fn server_head(q: FullHttpRequest, root: Seq<char>, script: Seq<char>) -> Seq<char> {
    quoted("$_SERVER['REQUEST_METHOD'] = '"@, q.method@) + quoted(
        "$_SERVER['REQUEST_URI'] = '"@,
        request_uri(q.path@, q.query_string@),
    ) + quoted("$_SERVER['QUERY_STRING'] = '"@, q.query_string@) + quoted(
        "$_SERVER['SCRIPT_NAME'] = '/"@,
        script,
    ) + quoted("$_SERVER['SCRIPT_FILENAME'] = '"@, join_path(root, script)) + quoted(
        "$_SERVER['DOCUMENT_ROOT'] = '"@,
        root,
    )
}

/// The `$_SERVER` entries that do not come from headers (second half).
pub open spec fn server_tail(q: FullHttpRequest, ip: Seq<char>, port: u16, tls: bool) -> Seq<char> {
    "$_SERVER['SERVER_SOFTWARE'] = 'Turbine/"@ + SERVER_VERSION@ + "'; "@
        + "$_SERVER['SERVER_PROTOCOL'] = 'HTTP/1.1'; "@ + "$_SERVER['SERVER_PORT'] = '"@ + decimal(
        port as nat,
    ) + "'; "@ + "$_SERVER['SERVER_NAME'] = 'localhost'; "@ + (if tls {
        "$_SERVER['HTTPS'] = 'on'; "@ + "$_SERVER['REQUEST_SCHEME'] = 'https'; "@
    } else {
        "$_SERVER['REQUEST_SCHEME'] = 'http'; "@
    }) + quoted("$_SERVER['REMOTE_ADDR'] = '"@, ip) + "$_SERVER['REMOTE_PORT'] = '0'; "@ + quoted(
        "$_SERVER['PATH_INFO'] = '"@,
        q.path@,
    )
}

/// `$_SERVER` key of a header: `HTTP_` and the name upper-cased with
/// dashes turned into underscores.
pub open spec fn http_key(name: Seq<char>) -> Seq<char> {
    "HTTP_"@ + uppercase(name.map_values(|c: char| if c == '-' { '_' } else { c }))
}

/// The `$_SERVER` entries of the headers, in map order.
pub open spec fn header_entries(h: Seq<(Seq<char>, Seq<char>)>) -> Seq<char>
    decreases h.len(),
{
    if h.len() == 0 {
        seq![]
    } else {
        header_entries(h.drop_last()) + "$_SERVER['"@ + php_escaped(http_key(h.last().0))
            + "'] = '"@ + php_escaped(h.last().1) + "'; "@
    }
}

/// `CONTENT_TYPE` and `CONTENT_LENGTH`, where known.
pub open spec fn content_entries(q: FullHttpRequest) -> Seq<char> {
    (match q.content_type {
        Some(ct) => quoted("$_SERVER['CONTENT_TYPE'] = '"@, ct@),
        None => seq![],
    }) + (match q.content_length {
        Some(n) => "$_SERVER['CONTENT_LENGTH'] = '"@ + decimal(n as nat) + "'; "@,
        None => seq![],
    })
}

/// The items of a PHP array literal of string pairs.
pub open spec fn array_items(p: Seq<(Seq<char>, Seq<char>)>) -> Seq<char>
    decreases p.len(),
{
    if p.len() == 0 {
        seq![]
    } else {
        array_items(p.drop_last()) + "'"@ + php_escaped(p.last().0) + "' => '"@ + php_escaped(
            p.last().1,
        ) + "', "@
    }
}

/// An assignment of the pairs `p` to a superglobal: `empty` when there
/// are none, else `open`, the items and `]; `.
pub open spec fn array_assign(empty: Seq<char>, open: Seq<char>, p: Seq<(Seq<char>, Seq<char>)>) -> Seq<char> {
    if p.len() == 0 {
        empty
    } else {
        open + array_items(p) + "]; "@
    }
}

/// The `$_FILES` entry of an uploaded file.
pub open spec fn file_item(f: UploadedFile) -> Seq<char> {
    "'"@ + php_escaped(f.field_name@) + "' => ['name' => '"@ + php_escaped(f.file_name@)
        + "', 'type' => '"@ + php_escaped(f.content_type@) + "', 'tmp_name' => '"@ + php_escaped(
        f.tmp_path@,
    ) + "', 'error' => 0, 'size' => "@ + decimal(f.data@.len()) + "], "@
}

/// The `$_FILES` entries.
pub open spec fn file_items(fs: Seq<UploadedFile>) -> Seq<char>
    decreases fs.len(),
{
    if fs.len() == 0 {
        seq![]
    } else {
        file_items(fs.drop_last()) + file_item(fs.last())
    }
}

/// The registry of uploaded temporary files.
pub open spec fn tmp_items(fs: Seq<UploadedFile>) -> Seq<char>
    decreases fs.len(),
{
    if fs.len() == 0 {
        seq![]
    } else {
        tmp_items(fs.drop_last()) + "'"@ + php_escaped(fs.last().tmp_path@) + "' => true, "@
    }
}

/// `$_FILES` and the registry of uploaded files.
pub open spec fn files_part(fs: Seq<UploadedFile>) -> Seq<char> {
    if fs.len() == 0 {
        "$_FILES = []; "@
    } else {
        "$_FILES = ["@ + file_items(fs) + "]; "@ + "$GLOBALS['__turbine_uploaded_files'] = ["@
            + tmp_items(fs) + "]; "@
    }
}

/// The raw body and the `php://input` stream that serves it, for a
/// non-empty body.
pub open spec fn body_part(body: Seq<u8>) -> Seq<char> {
    if body.len() == 0 {
        seq![]
    } else {
        quoted("$GLOBALS['__turbine_raw_body'] = '"@, utf8_lossy(body)) + PHP_INPUT_STREAM@
    }
}

/// The PHP code that populates the superglobals for request `q`.
pub open spec fn superglobals(
    q: FullHttpRequest,
    root: Seq<char>,
    script: Seq<char>,
    ip: Seq<char>,
    port: u16,
    tls: bool,
) -> Seq<char> {
    server_head(q, root, script) + server_tail(q, ip, port, tls) + header_entries(q.headers@)
        + content_entries(q) + array_assign("$_GET = []; "@, "$_GET = ["@, urlencoded(q.query_string@))
        + array_assign("$_POST = []; "@, "$_POST = ["@, post_pairs(q)) + array_assign(
        "$_COOKIE = []; "@,
        "$_COOKIE = ["@,
        q.cookies@,
    ) + "$_REQUEST = array_merge($_GET, $_POST, $_COOKIE); "@ + files_part(q.files@) + body_part(
        q.body@,
    )
}

/// A text that occurs in `x` occurs in `x + b`.
proof fn lemma_contains_then(x: Seq<char>, b: Seq<char>, p: Seq<char>)
    requires
        contains(x, p),
    ensures
        contains(x + b, p),
{
    let i = choose|i: int| occurs_at(x, p, i);
    assert((x + b).subrange(i, i + p.len()) =~= x.subrange(i, i + p.len()));
    assert(occurs_at(x + b, p, i));
}

/// A text that occurs in `x` occurs in `a + x`.
proof fn lemma_contains_after(a: Seq<char>, x: Seq<char>, p: Seq<char>)
    requires
        contains(x, p),
    ensures
        contains(a + x, p),
{
    let i = choose|i: int| occurs_at(x, p, i);
    assert((a + x).subrange(a.len() + i, a.len() + i + p.len()) =~= x.subrange(i, i + p.len()));
    assert(occurs_at(a + x, p, a.len() + i));
}

/// A text occurs in itself followed by anything.
proof fn lemma_contains_start(p: Seq<char>, b: Seq<char>)
    ensures
        contains(p + b, p),
{
    assert((p + b).subrange(0, p.len() as int) =~= p);
    assert(occurs_at(p + b, p, 0));
}

/// The superglobals of a request with a body set the raw body that
/// `php://input` serves.
pub proof fn lemma_superglobals_raw_body(
    q: FullHttpRequest,
    root: Seq<char>,
    script: Seq<char>,
    ip: Seq<char>,
    port: u16,
    tls: bool,
)
    requires
        q.body@.len() > 0,
    ensures
        contains(superglobals(q, root, script, ip, port, tls), "$GLOBALS['__turbine_raw_body'] = '"@),
{
    let lead = "$GLOBALS['__turbine_raw_body'] = '"@;
    let bp = body_part(q.body@);
    assert(bp == lead + php_escaped(utf8_lossy(q.body@)) + "'; "@ + PHP_INPUT_STREAM@);
    lemma_contains_start(lead, php_escaped(utf8_lossy(q.body@)));
    lemma_contains_then(lead + php_escaped(utf8_lossy(q.body@)), "'; "@, lead);
    lemma_contains_then(lead + php_escaped(utf8_lossy(q.body@)) + "'; "@, PHP_INPUT_STREAM@, lead);
    let all = superglobals(q, root, script, ip, port, tls);
    let front = server_head(q, root, script) + server_tail(q, ip, port, tls) + header_entries(q.headers@)
        + content_entries(q) + array_assign("$_GET = []; "@, "$_GET = ["@, urlencoded(q.query_string@))
        + array_assign("$_POST = []; "@, "$_POST = ["@, post_pairs(q)) + array_assign(
        "$_COOKIE = []; "@,
        "$_COOKIE = ["@,
        q.cookies@,
    ) + "$_REQUEST = array_merge($_GET, $_POST, $_COOKIE); "@ + files_part(q.files@);
    assert(all == front + bp);
    lemma_contains_after(front, bp, lead);
}

/// The superglobals of a TLS request set `$_SERVER['HTTPS']` to `on`.
pub proof fn lemma_superglobals_https(
    q: FullHttpRequest,
    root: Seq<char>,
    script: Seq<char>,
    ip: Seq<char>,
    port: u16,
)
    ensures
        contains(superglobals(q, root, script, ip, port, true), "$_SERVER['HTTPS'] = 'on'; "@),
{
    let https = "$_SERVER['HTTPS'] = 'on'; "@;
    let tail = server_tail(q, ip, port, true);
    let pre = "$_SERVER['SERVER_SOFTWARE'] = 'Turbine/"@ + SERVER_VERSION@ + "'; "@
        + "$_SERVER['SERVER_PROTOCOL'] = 'HTTP/1.1'; "@ + "$_SERVER['SERVER_PORT'] = '"@ + decimal(
        port as nat,
    ) + "'; "@ + "$_SERVER['SERVER_NAME'] = 'localhost'; "@;
    let mid = https + "$_SERVER['REQUEST_SCHEME'] = 'https'; "@;
    let t1 = pre + mid;
    let t2 = t1 + quoted("$_SERVER['REMOTE_ADDR'] = '"@, ip);
    let t3 = t2 + "$_SERVER['REMOTE_PORT'] = '0'; "@;
    assert(tail == t3 + quoted("$_SERVER['PATH_INFO'] = '"@, q.path@));
    lemma_contains_start(https, "$_SERVER['REQUEST_SCHEME'] = 'https'; "@);
    lemma_contains_after(pre, mid, https);
    lemma_contains_then(t1, quoted("$_SERVER['REMOTE_ADDR'] = '"@, ip), https);
    lemma_contains_then(t2, "$_SERVER['REMOTE_PORT'] = '0'; "@, https);
    lemma_contains_then(t3, quoted("$_SERVER['PATH_INFO'] = '"@, q.path@), https);
    let head = server_head(q, root, script);
    lemma_contains_after(head, tail, https);
    let u1 = head + tail;
    let u2 = u1 + header_entries(q.headers@);
    lemma_contains_then(u1, header_entries(q.headers@), https);
    let u3 = u2 + content_entries(q);
    lemma_contains_then(u2, content_entries(q), https);
    let g = array_assign("$_GET = []; "@, "$_GET = ["@, urlencoded(q.query_string@));
    let u4 = u3 + g;
    lemma_contains_then(u3, g, https);
    let po = array_assign("$_POST = []; "@, "$_POST = ["@, post_pairs(q));
    let u5 = u4 + po;
    lemma_contains_then(u4, po, https);
    let co = array_assign("$_COOKIE = []; "@, "$_COOKIE = ["@, q.cookies@);
    let u6 = u5 + co;
    lemma_contains_then(u5, co, https);
    let rq = "$_REQUEST = array_merge($_GET, $_POST, $_COOKIE); "@;
    let u7 = u6 + rq;
    lemma_contains_then(u6, rq, https);
    let u8 = u7 + files_part(q.files@);
    lemma_contains_then(u7, files_part(q.files@), https);
    lemma_contains_then(u8, body_part(q.body@), https);
    assert(superglobals(q, root, script, ip, port, true) == u8 + body_part(q.body@));
}

fn push_quoted(v: &mut Vec<char>, lead: &str, value: &[char])
    ensures
        final(v)@ == old(v)@ + quoted(lead@, value@),
{
    push_lit(v, lead);
    push_escaped(v, value);
    push_lit(v, "'; ");
}

fn push_decimal(v: &mut Vec<char>, n: u64)
    ensures
        final(v)@ == old(v)@ + decimal(n as nat),
{
    let d = decimal_chars(n);
    push_all(v, d.as_slice());
}

fn push_array_items(v: &mut Vec<char>, p: &Vec<(String, String)>)
    ensures
        final(v)@ == old(v)@ + array_items(crate::text::pair_views(p@)),
{
    let ghost ps = crate::text::pair_views(p@);
    let mut i: usize = 0;
    assert(ps.take(0) =~= Seq::<(Seq<char>, Seq<char>)>::empty());
    assert(old(v)@ + array_items(ps.take(0)) =~= old(v)@);
    while i < p.len()
        invariant
            i <= p@.len(),
            ps == crate::text::pair_views(p@),
            v@ == old(v)@ + array_items(ps.take(i as int)),
        decreases p.len() - i,
    {
        assert(ps.take(i + 1).drop_last() =~= ps.take(i as int));
        assert(ps.take(i + 1).last() == (p@[i as int].0@, p@[i as int].1@));
        let k = chars_of(p[i].0.as_str());
        let val = chars_of(p[i].1.as_str());
        push_lit(v, "'");
        push_escaped(v, k.as_slice());
        push_lit(v, "' => '");
        push_escaped(v, val.as_slice());
        push_lit(v, "', ");
        i = i + 1;
        assert(v@ =~= old(v)@ + array_items(ps.take(i as int)));
    }
    assert(ps.take(ps.len() as int) =~= ps);
}

fn push_array_assign(v: &mut Vec<char>, empty: &str, open: &str, p: &Vec<(String, String)>)
    ensures
        final(v)@ == old(v)@ + array_assign(empty@, open@, crate::text::pair_views(p@)),
{
    if p.len() == 0 {
        push_lit(v, empty);
    } else {
        push_lit(v, open);
        push_array_items(v, p);
        push_lit(v, "]; ");
        assert(v@ =~= old(v)@ + array_assign(empty@, open@, crate::text::pair_views(p@)));
    }
}

fn push_server_head(v: &mut Vec<char>, q: &FullHttpRequest, root: &[char], script: &[char])
    ensures
        final(v)@ == old(v)@ + server_head(*q, root@, script@),
{
    let m = chars_of(q.method.as_str());
    let p = chars_of(q.path.as_str());
    let qs = chars_of(q.query_string.as_str());
    push_quoted(v, "$_SERVER['REQUEST_METHOD'] = '", m.as_slice());
    let mut uri = p.clone();
    if qs.len() > 0 {
        uri.push('?');
        push_all(&mut uri, qs.as_slice());
    }
    assert(uri@ =~= request_uri(q.path@, q.query_string@));
    push_quoted(v, "$_SERVER['REQUEST_URI'] = '", uri.as_slice());
    push_quoted(v, "$_SERVER['QUERY_STRING'] = '", qs.as_slice());
    push_quoted(v, "$_SERVER['SCRIPT_NAME'] = '/", script);
    let full = join_path_chars(root, script);
    push_quoted(v, "$_SERVER['SCRIPT_FILENAME'] = '", full.as_slice());
    push_quoted(v, "$_SERVER['DOCUMENT_ROOT'] = '", root);
    assert(v@ =~= old(v)@ + server_head(*q, root@, script@));
}

fn push_server_tail(v: &mut Vec<char>, q: &FullHttpRequest, ip: &[char], port: u16, tls: bool)
    ensures
        final(v)@ == old(v)@ + server_tail(*q, ip@, port, tls),
{
    push_lit(v, "$_SERVER['SERVER_SOFTWARE'] = 'Turbine/");
    push_lit(v, SERVER_VERSION);
    push_lit(v, "'; ");
    push_lit(v, "$_SERVER['SERVER_PROTOCOL'] = 'HTTP/1.1'; ");
    push_lit(v, "$_SERVER['SERVER_PORT'] = '");
    push_decimal(v, port as u64);
    push_lit(v, "'; ");
    push_lit(v, "$_SERVER['SERVER_NAME'] = 'localhost'; ");
    if tls {
        push_lit(v, "$_SERVER['HTTPS'] = 'on'; ");
        push_lit(v, "$_SERVER['REQUEST_SCHEME'] = 'https'; ");
    } else {
        push_lit(v, "$_SERVER['REQUEST_SCHEME'] = 'http'; ");
    }
    push_quoted(v, "$_SERVER['REMOTE_ADDR'] = '", ip);
    push_lit(v, "$_SERVER['REMOTE_PORT'] = '0'; ");
    let p = chars_of(q.path.as_str());
    push_quoted(v, "$_SERVER['PATH_INFO'] = '", p.as_slice());
    assert(v@ =~= old(v)@ + server_tail(*q, ip@, port, tls));
}

fn push_header_entries(v: &mut Vec<char>, h: &Vec<(String, String)>)
    ensures
        final(v)@ == old(v)@ + header_entries(crate::text::pair_views(h@)),
{
    let ghost hs = crate::text::pair_views(h@);
    let mut i: usize = 0;
    assert(hs.take(0) =~= Seq::<(Seq<char>, Seq<char>)>::empty());
    assert(old(v)@ + header_entries(hs.take(0)) =~= old(v)@);
    while i < h.len()
        invariant
            i <= h@.len(),
            hs == crate::text::pair_views(h@),
            v@ == old(v)@ + header_entries(hs.take(i as int)),
        decreases h.len() - i,
    {
        assert(hs.take(i + 1).drop_last() =~= hs.take(i as int));
        assert(hs.take(i + 1).last() == (h@[i as int].0@, h@[i as int].1@));
        let k = chars_of(h[i].0.as_str());
        let mut d: Vec<char> = Vec::new();
        let mut j: usize = 0;
        while j < k.len()
            invariant
                j <= k@.len(),
                d@ == k@.take(j as int).map_values(|c: char| if c == '-' { '_' } else { c }),
            decreases k.len() - j,
        {
            let c = k[j];
            d.push(if c == '-' { '_' } else { c });
            j = j + 1;
            assert(d@ =~= k@.take(j as int).map_values(|c: char| if c == '-' { '_' } else { c }));
        }
        assert(k@.take(k@.len() as int) =~= k@);
        let u = to_uppercase_chars(d.as_slice());
        let mut key = chars_of("HTTP_");
        push_all(&mut key, u.as_slice());
        let val = chars_of(h[i].1.as_str());
        push_lit(v, "$_SERVER['");
        push_escaped(v, key.as_slice());
        push_lit(v, "'] = '");
        push_escaped(v, val.as_slice());
        push_lit(v, "'; ");
        i = i + 1;
        assert(v@ =~= old(v)@ + header_entries(hs.take(i as int)));
    }
    assert(hs.take(hs.len() as int) =~= hs);
}

fn push_content_entries(v: &mut Vec<char>, q: &FullHttpRequest)
    ensures
        final(v)@ == old(v)@ + content_entries(*q),
{
    match &q.content_type {
        Some(ct) => {
            let c = chars_of(ct.as_str());
            push_quoted(v, "$_SERVER['CONTENT_TYPE'] = '", c.as_slice());
        },
        None => {},
    }
    let ghost mid = v@;
    match q.content_length {
        Some(n) => {
            push_lit(v, "$_SERVER['CONTENT_LENGTH'] = '");
            push_decimal(v, n as u64);
            push_lit(v, "'; ");
        },
        None => {},
    }
    assert(v@ =~= old(v)@ + content_entries(*q));
}

fn push_files(v: &mut Vec<char>, fs: &Vec<UploadedFile>)
    ensures
        final(v)@ == old(v)@ + files_part(fs@),
{
    if fs.len() == 0 {
        push_lit(v, "$_FILES = []; ");
        return;
    }
    push_lit(v, "$_FILES = [");
    let ghost start = v@;
    let mut i: usize = 0;
    assert(fs@.take(0) =~= Seq::<UploadedFile>::empty());
    assert(start + file_items(fs@.take(0)) =~= start);
    while i < fs.len()
        invariant
            i <= fs@.len(),
            v@ == start + file_items(fs@.take(i as int)),
        decreases fs.len() - i,
    {
        assert(fs@.take(i + 1).drop_last() =~= fs@.take(i as int));
        let f = &fs[i];
        let a = chars_of(f.field_name.as_str());
        let b = chars_of(f.file_name.as_str());
        let c = chars_of(f.content_type.as_str());
        let d = chars_of(f.tmp_path.as_str());
        let ghost before = v@;
        push_lit(v, "'");
        push_escaped(v, a.as_slice());
        push_lit(v, "' => ['name' => '");
        push_escaped(v, b.as_slice());
        push_lit(v, "', 'type' => '");
        push_escaped(v, c.as_slice());
        push_lit(v, "', 'tmp_name' => '");
        push_escaped(v, d.as_slice());
        push_lit(v, "', 'error' => 0, 'size' => ");
        push_decimal(v, f.data.len() as u64);
        push_lit(v, "], ");
        assert(v@ =~= before + file_item(fs@[i as int]));
        i = i + 1;
        assert(v@ =~= start + file_items(fs@.take(i as int)));
    }
    assert(fs@.take(fs@.len() as int) =~= fs@);
    push_lit(v, "]; ");
    push_lit(v, "$GLOBALS['__turbine_uploaded_files'] = [");
    let ghost start2 = v@;
    let mut i: usize = 0;
    assert(start2 + tmp_items(fs@.take(0)) =~= start2);
    while i < fs.len()
        invariant
            i <= fs@.len(),
            v@ == start2 + tmp_items(fs@.take(i as int)),
        decreases fs.len() - i,
    {
        assert(fs@.take(i + 1).drop_last() =~= fs@.take(i as int));
        let d = chars_of(fs[i].tmp_path.as_str());
        push_lit(v, "'");
        push_escaped(v, d.as_slice());
        push_lit(v, "' => true, ");
        i = i + 1;
        assert(v@ =~= start2 + tmp_items(fs@.take(i as int)));
    }
    push_lit(v, "]; ");
    assert(v@ =~= old(v)@ + files_part(fs@));
}

fn push_body(v: &mut Vec<char>, body: &Vec<u8>)
    ensures
        final(v)@ == old(v)@ + body_part(body@),
{
    if body.len() > 0 {
        let b = decode_utf8_lossy(body.as_slice());
        push_quoted(v, "$GLOBALS['__turbine_raw_body'] = '", b.as_slice());
        push_lit(v, PHP_INPUT_STREAM);
        assert(v@ =~= old(v)@ + body_part(body@));
    } else {
        assert(v@ =~= old(v)@ + body_part(body@));
    }
}

impl FullHttpRequest {
    /// The PHP code that populates `$_SERVER`, `$_GET`, `$_POST`,
    /// `$_COOKIE`, `$_REQUEST` and `$_FILES` for this request, and serves a
    /// non-empty body through `php://input`.
    pub fn php_superglobals_code(
        &self,
        app_root: &str,
        script_path: &str,
        client_ip: &str,
        server_port: u16,
        is_tls: bool,
    ) -> (r: String)
        ensures
            r@ == superglobals(*self, app_root@, script_path@, client_ip@, server_port, is_tls),
    {
        let root = chars_of(app_root);
        let script = chars_of(script_path);
        let ip = chars_of(client_ip);
        let mut code: Vec<char> = Vec::new();
        push_server_head(&mut code, self, root.as_slice(), script.as_slice());
        push_server_tail(&mut code, self, ip.as_slice(), server_port, is_tls);
        push_header_entries(&mut code, self.headers.entries());
        push_content_entries(&mut code, self);
        let g = self.get_params();
        push_array_assign(&mut code, "$_GET = []; ", "$_GET = [", &g);
        let p = self.post_params();
        push_array_assign(&mut code, "$_POST = []; ", "$_POST = [", &p);
        push_array_assign(&mut code, "$_COOKIE = []; ", "$_COOKIE = [", self.cookies.entries());
        push_lit(&mut code, "$_REQUEST = array_merge($_GET, $_POST, $_COOKIE); ");
        push_files(&mut code, &self.files);
        push_body(&mut code, &self.body);
        assert(code@ =~= superglobals(*self, app_root@, script_path@, client_ip@, server_port, is_tls));
        string_of(code.as_slice())
    }
}

// ───────────────────────────── application structure ─────────────────────────────

/// PHP code that loads a `.env` file, before the directory it lives in.
pub const ENV_LOADER_HEAD: &'static str = "if (file_exists('";

/// PHP code that loads a `.env` file, between the two mentions of its
/// directory.
pub const ENV_LOADER_MID: &'static str = "/.env')) { $__env_lines = file('";

/// PHP code that loads a `.env` file, after the second mention of its
/// directory.
pub const ENV_LOADER_TAIL: &'static str = "/.env', FILE_IGNORE_NEW_LINES | FILE_SKIP_EMPTY_LINES); foreach ($__env_lines as $__line) { if (str_starts_with(trim($__line), '#')) continue; if (!str_contains($__line, '=')) continue; [$__key, $__val] = explode('=', $__line, 2); $__key = trim($__key); $__val = trim($__val, \" \\t\\n\\r\\0\\x0B\\\"\\'\"); $_ENV[$__key] = $__val; $_SERVER[$__key] = $__val; if (function_exists('putenv')) putenv(\"$__key=$__val\"); } unset($__env_lines, $__line, $__key, $__val); } ";

/// How an application is laid out and where requests enter it.
pub struct AppStructure {
    /// The directory the application was detected in; its `.env` is
    /// loaded from there.
    pub app_root: String,
    pub document_root: String,
    pub entry_point: String,
    /// When true, unresolved paths fall back to the entry point (front
    /// controller pattern); when false, paths map directly to files.
    pub front_controller: bool,
    pub has_composer: bool,
    pub has_env: bool,
    pub autoload_path: Option<String>,
}

/// Detects the structure of an application from which of its files exist.
pub struct AppDetector;

/// The structure detected in `root`, given whether `vendor/autoload.php`,
/// `.env`, `public/index.php` and `index.php` exist there.
pub open spec fn detected(
    root: Seq<char>,
    composer: bool,
    env: bool,
    public_index: bool,
    root_index: bool,
    s: AppStructure,
) -> bool {
    let autoload = join_path(join_path(root, "vendor"@), "autoload.php"@);
    &&& s.app_root@ == root
    &&& if public_index || root_index {
        &&& s.document_root@ == (if public_index { join_path(root, "public"@) } else { root })
        &&& s.entry_point@ == "index.php"@
        &&& s.front_controller == (public_index || composer)
        &&& s.has_composer == composer
        &&& s.has_env == env
        &&& match s.autoload_path {
            Some(a) => composer && a@ == autoload,
            None => !composer,
        }
    } else {
        &&& s.document_root@ == root
        &&& s.entry_point@ == "index.php"@
        &&& !s.front_controller
        &&& !s.has_composer
        &&& !s.has_env
        &&& s.autoload_path is None
    }
}

fn join_lit(base: &[char], lit: &str) -> (r: Vec<char>)
    ensures
        r@ == join_path(base@, lit@),
{
    let l = chars_of(lit);
    join_path_chars(base, l.as_slice())
}

impl AppDetector {
    /// The structure of the application in `app_root`, given which of its
    /// files exist: `public/index.php` makes a front controller served
    /// from `public/`; a root `index.php` is a front controller when a
    /// composer autoloader is present; without either, a plain directory.
    pub fn detect_given(
        app_root: &str,
        has_composer: bool,
        has_env: bool,
        public_index: bool,
        root_index: bool,
    ) -> (r: AppStructure)
        ensures
            detected(app_root@, has_composer, has_env, public_index, root_index, r),
    {
        let root = chars_of(app_root);
        let autoload_path = if has_composer {
            let v = join_lit(root.as_slice(), "vendor");
            let a = join_lit(v.as_slice(), "autoload.php");
            Some(string_of(a.as_slice()))
        } else {
            None
        };
        if public_index {
            let d = join_lit(root.as_slice(), "public");
            return AppStructure {
                app_root: string_of(root.as_slice()),
                document_root: string_of(d.as_slice()),
                entry_point: "index.php".to_string(),
                front_controller: true,
                has_composer,
                has_env,
                autoload_path,
            };
        }
        if root_index {
            return AppStructure {
                app_root: string_of(root.as_slice()),
                document_root: string_of(root.as_slice()),
                entry_point: "index.php".to_string(),
                front_controller: has_composer,
                has_composer,
                has_env,
                autoload_path,
            };
        }
        AppStructure {
            app_root: string_of(root.as_slice()),
            document_root: string_of(root.as_slice()),
            entry_point: "index.php".to_string(),
            front_controller: false,
            has_composer: false,
            has_env: false,
            autoload_path: None,
        }
    }

    /// Detects the structure of the application in `app_root` by looking
    /// at which of `vendor/autoload.php`, `.env`, `public/index.php` and
    /// `index.php` exist.  What exists is up to the file system; the result
    /// is what `detect_given` makes of some answer.
    pub fn detect(app_root: &str) -> (r: AppStructure)
        ensures
            exists|c: bool, e: bool, p: bool, i: bool| detected(app_root@, c, e, p, i, r),
    {
        let root = chars_of(app_root);
        let v = join_lit(root.as_slice(), "vendor");
        let a = join_lit(v.as_slice(), "autoload.php");
        let has_composer = path_exists_chars(a.as_slice());
        let e = join_lit(root.as_slice(), ".env");
        let has_env = path_exists_chars(e.as_slice());
        let pd = join_lit(root.as_slice(), "public");
        let pi = join_lit(pd.as_slice(), "index.php");
        let public_index = path_exists_chars(pi.as_slice());
        let root_index = if public_index {
            false
        } else {
            let ri = join_lit(root.as_slice(), "index.php");
            path_exists_chars(ri.as_slice())
        };
        AppDetector::detect_given(app_root, has_composer, has_env, public_index, root_index)
    }
}

/// The part of a URI before its first `?`.
pub open spec fn before_query(uri: Seq<char>) -> Seq<char> {
    match split_once_spec(uri, '?') {
        Some((a, _b)) => a,
        None => uri,
    }
}

/// The URI path with the query and leading slashes removed.
pub open spec fn relative_of(uri: Seq<char>) -> Seq<char> {
    trim_start(before_query(uri), CharClass::Exactly('/'))
}

/// The directory index a URI can name: the relative path without
/// trailing slashes, then `/index.php`.
pub open spec fn dir_index_of(uri: Seq<char>) -> Seq<char> {
    trim_end(relative_of(uri), CharClass::Exactly('/')) + "/index.php"@
}

/// The script a URI resolves to, given whether its relative path names a
/// file and whether its directory index does: that file; else that
/// index; else the entry point (for a front controller, for `/` and for
/// an empty path) or the relative path itself.
pub open spec fn resolved(s: AppStructure, uri: Seq<char>, target_file: bool, index_file: bool) -> Seq<char> {
    let clean = before_query(uri);
    let rel = relative_of(uri);
    let trimmed = trim_end(rel, CharClass::Exactly('/'));
    if rel.len() > 0 && target_file {
        rel
    } else if trimmed.len() > 0 && index_file {
        dir_index_of(uri)
    } else if s.front_controller || clean == seq!['/'] || rel.len() == 0 {
        s.entry_point@
    } else {
        rel
    }
}

/// The bootstrap code of a structure: `chdir` to the document root, the
/// loader of the application's `.env` (in the directory it was detected
/// in) when there is one, and the composer autoloader.
pub open spec fn bootstrap_code(s: AppStructure) -> Seq<char> {
    let d = php_escaped(s.app_root@);
    "chdir('"@ + php_escaped(s.document_root@) + "'); "@ + (if s.has_env {
        ENV_LOADER_HEAD@ + d + ENV_LOADER_MID@ + d + ENV_LOADER_TAIL@
    } else {
        seq![]
    }) + (match s.autoload_path {
        Some(a) => "require_once '"@ + php_escaped(a@) + "'; "@,
        None => seq![],
    })
}

/// What detection finds: the entry point is `index.php`; with
/// `public/index.php` the document root is `public/` behind a front
/// controller; otherwise the root itself, a front controller exactly when
/// composer is used beside a root `index.php`; composer and `.env` are
/// reported only when there is an index, and the autoloader path exactly
/// when composer is.
pub proof fn lemma_detected_layout(
    root: Seq<char>,
    composer: bool,
    env: bool,
    public_index: bool,
    root_index: bool,
    s: AppStructure,
)
    requires
        detected(root, composer, env, public_index, root_index, s),
    ensures
        s.entry_point@ == "index.php"@,
        public_index ==> s.document_root@ == join_path(root, "public"@) && s.front_controller,
        !public_index ==> s.document_root@ == root,
        !public_index && root_index ==> s.front_controller == composer,
        public_index || root_index ==> s.has_composer == composer && s.has_env == env,
        !public_index && !root_index ==> !s.front_controller && !s.has_composer && !s.has_env,
        s.autoload_path is Some <==> s.has_composer,
{
}

/// The bootstrap code starts by changing to the (escaped) document root;
/// with a `.env` file it holds the loader for the app root's `.env`; with
/// an autoloader it ends by requiring it.
pub proof fn lemma_bootstrap_layout(s: AppStructure)
    ensures
        starts_with(bootstrap_code(s), "chdir('"@ + php_escaped(s.document_root@) + "'); "@),
        s.has_env ==> contains(
            bootstrap_code(s),
            ENV_LOADER_HEAD@ + php_escaped(s.app_root@) + ENV_LOADER_MID@ + php_escaped(s.app_root@)
                + ENV_LOADER_TAIL@,
        ),
        s.autoload_path matches Some(a) ==> ends_with(
            bootstrap_code(s),
            "require_once '"@ + php_escaped(a@) + "'; "@,
        ),
        s.autoload_path is None && !s.has_env ==> bootstrap_code(s) == "chdir('"@ + php_escaped(
            s.document_root@,
        ) + "'); "@,
{
    let head = "chdir('"@ + php_escaped(s.document_root@) + "'); "@;
    let d = php_escaped(s.app_root@);
    let loader = ENV_LOADER_HEAD@ + d + ENV_LOADER_MID@ + d + ENV_LOADER_TAIL@;
    let envp: Seq<char> = if s.has_env { loader } else { seq![] };
    let tail: Seq<char> = match s.autoload_path {
        Some(a) => "require_once '"@ + php_escaped(a@) + "'; "@,
        None => seq![],
    };
    let code = bootstrap_code(s);
    assert(code == head + envp + tail);
    assert(code.subrange(0, head.len() as int) =~= head);
    if s.has_env {
        assert(code.subrange(head.len() as int, (head.len() + loader.len()) as int) =~= loader);
        assert(occurs_at(code, loader, head.len() as int));
    }
    if s.autoload_path is Some {
        assert(code.subrange(code.len() - tail.len(), code.len() as int) =~= tail);
    }
    if s.autoload_path is None && !s.has_env {
        assert(code =~= head);
    }
}

impl AppStructure {
    /// The PHP bootstrap code for this structure: `chdir` to the document
    /// root, the `.env` loader (into `$_ENV`, `$_SERVER` and `putenv`) and
    /// the composer autoloader.
    pub fn php_bootstrap_code(&self) -> (r: String)
        ensures
            r@ == bootstrap_code(*self),
    {
        let root = chars_of(self.document_root.as_str());
        let mut code: Vec<char> = Vec::new();
        push_lit(&mut code, "chdir('");
        push_escaped(&mut code, root.as_slice());
        push_lit(&mut code, "'); ");
        let ghost after_chdir = code@;
        if self.has_env {
            let dir = chars_of(self.app_root.as_str());
            push_lit(&mut code, ENV_LOADER_HEAD);
            push_escaped(&mut code, dir.as_slice());
            push_lit(&mut code, ENV_LOADER_MID);
            push_escaped(&mut code, dir.as_slice());
            push_lit(&mut code, ENV_LOADER_TAIL);
        }
        let ghost after_env = code@;
        match &self.autoload_path {
            Some(a) => {
                let ac = chars_of(a.as_str());
                push_lit(&mut code, "require_once '");
                push_escaped(&mut code, ac.as_slice());
                push_lit(&mut code, "'; ");
            },
            None => {},
        }
        assert(code@ =~= bootstrap_code(*self));
        string_of(code.as_slice())
    }

    /// The script for `uri_path`, given whether its relative path names a
    /// file under the document root and whether its directory index
    /// (`<path>/index.php`) does.
    pub fn resolve_path_given(&self, uri_path: &str, target_file: bool, index_file: bool) -> (r: String)
        ensures
            r@ == resolved(*self, uri_path@, target_file, index_file),
    {
        let u = chars_of(uri_path);
        let clean = match split_once_chars(u.as_slice(), '?') {
            Some((a, _b)) => a,
            None => u.clone(),
        };
        assert(clean@ == before_query(uri_path@));
        let rel = trim_start_chars(clean.as_slice(), &CharClass::Exactly('/'));
        assert(rel@ == relative_of(uri_path@));
        let trimmed = trim_end_chars(rel.as_slice(), &CharClass::Exactly('/'));
        if rel.len() > 0 && target_file {
            return string_of(rel.as_slice());
        }
        if trimmed.len() > 0 && index_file {
            let mut d = trimmed.clone();
            assert(d@ == trimmed@);
            push_lit(&mut d, "/index.php");
            assert(d@ == dir_index_of(uri_path@));
            return string_of(d.as_slice());
        }
        let slash: Vec<char> = vec!['/'];
        assert(slash@ =~= seq!['/']);
        if self.front_controller || crate::text::chars_eq(clean.as_slice(), slash.as_slice())
            || rel.len() == 0 {
            copy_string(&self.entry_point)
        } else {
            string_of(rel.as_slice())
        }
    }

    /// Resolves the PHP script for a URI: an existing file named by the
    /// path, else an existing directory index, else the entry point (front
    /// controller, `/` or empty path) or the path itself.  Which files
    /// exist is up to the file system; the result is what
    /// `resolve_path_given` makes of some answer.
    pub fn resolve_path(&self, uri_path: &str) -> (r: String)
        ensures
            exists|a: bool, b: bool| r@ == resolved(*self, uri_path@, a, b),
    {
        let u = chars_of(uri_path);
        let clean = match split_once_chars(u.as_slice(), '?') {
            Some((a, _b)) => a,
            None => u.clone(),
        };
        let rel = trim_start_chars(clean.as_slice(), &CharClass::Exactly('/'));
        let root = chars_of(self.document_root.as_str());
        let target_file = if rel.len() > 0 {
            let t = join_path_chars(root.as_slice(), rel.as_slice());
            path_is_file(t.as_slice())
        } else {
            false
        };
        let trimmed = trim_end_chars(rel.as_slice(), &CharClass::Exactly('/'));
        let index_file = if !target_file && trimmed.len() > 0 {
            let mut d = trimmed.clone();
            push_lit(&mut d, "/index.php");
            let t = join_path_chars(root.as_slice(), d.as_slice());
            path_is_file(t.as_slice())
        } else {
            false
        };
        self.resolve_path_given(uri_path, target_file, index_file)
    }
}

// ───────────────────────────── uploads ─────────────────────────────

/// Upload hardening: file extensions refused, and whether file content is
/// scanned for PHP code.
pub struct UploadSecurityConfig {
    pub blocked_extensions: Vec<String>,
    pub scan_content: bool,
}

impl Default for UploadSecurityConfig {
    /// Blocks the PHP extensions (`.php`, `.phtml`, `.phar`, `.php7`,
    /// `.php8`, `.inc`, `.phps`, `.pht`, `.pgif`) and scans content.
    fn default() -> (r: Self)
        ensures
            crate::config::str_views(r.blocked_extensions@) == seq![
                ".php"@,
                ".phtml"@,
                ".phar"@,
                ".php7"@,
                ".php8"@,
                ".inc"@,
                ".phps"@,
                ".pht"@,
                ".pgif"@,
            ],
            r.scan_content,
    {
        let v: Vec<String> = vec![
            ".php".to_string(),
            ".phtml".to_string(),
            ".phar".to_string(),
            ".php7".to_string(),
            ".php8".to_string(),
            ".inc".to_string(),
            ".phps".to_string(),
            ".pht".to_string(),
            ".pgif".to_string(),
        ];
        let r = UploadSecurityConfig { blocked_extensions: v, scan_content: true };
        assert(crate::config::str_views(r.blocked_extensions@) =~= seq![
            ".php"@,
            ".phtml"@,
            ".phar"@,
            ".php7"@,
            ".php8"@,
            ".inc"@,
            ".phps"@,
            ".pht"@,
            ".pgif"@,
        ]);
        r
    }
}

/// A file name is refused by the extension `ext`: the lower-cased name
/// ends with the lower-cased extension, or holds it followed by a dot
/// (a double extension such as `shell.php.jpg`).
pub open spec fn blocked_by(name: Seq<char>, ext: Seq<char>) -> bool {
    ends_with(lowercase(name), lowercase(ext)) || contains(lowercase(name), lowercase(ext) + seq!['.'])
}

/// A file name is refused by one of the extensions.
pub open spec fn extension_blocked(name: Seq<char>, exts: Seq<Seq<char>>) -> bool {
    exists|i: int| 0 <= i < exts.len() && blocked_by(name, #[trigger] exts[i])
}

/// Which file names are refused: a name that, in lower case, ends with a
/// blocked extension (`shell.php`) or holds one followed by a dot
/// (`avatar.php.jpg`) is refused; a name that does neither for every
/// blocked extension is not.
pub proof fn lemma_extension_blocking(name: Seq<char>, exts: Seq<Seq<char>>)
    ensures
        forall|i: int|
            0 <= i < exts.len() && ends_with(lowercase(name), lowercase(#[trigger] exts[i])) ==> extension_blocked(
                name,
                exts,
            ),
        forall|i: int|
            0 <= i < exts.len() && contains(lowercase(name), lowercase(#[trigger] exts[i]) + seq!['.'])
                ==> extension_blocked(name, exts),
        (forall|i: int|
            0 <= i < exts.len() ==> !ends_with(lowercase(name), lowercase(#[trigger] exts[i])) && !contains(
                lowercase(name),
                lowercase(exts[i]) + seq!['.'],
            )) ==> !extension_blocked(name, exts),
{
    assert forall|i: int|
        0 <= i < exts.len() && ends_with(lowercase(name), lowercase(#[trigger] exts[i])) implies extension_blocked(
        name,
        exts,
    ) by {
        assert(blocked_by(name, exts[i]));
    }
    assert forall|i: int|
        0 <= i < exts.len() && contains(lowercase(name), lowercase(#[trigger] exts[i]) + seq!['.'])
            implies extension_blocked(name, exts) by {
        assert(blocked_by(name, exts[i]));
    }
}

/// Whether a file name is refused by one of the blocked extensions.
pub fn is_extension_blocked(file_name: &str, blocked: &Vec<String>) -> (r: bool)
    ensures
        r == extension_blocked(file_name@, crate::config::str_views(blocked@)),
        forall|i: int|
            0 <= i < blocked@.len() && (ends_with(lowercase(file_name@), lowercase(#[trigger] blocked@[i]@))
                || contains(lowercase(file_name@), lowercase(blocked@[i]@) + seq!['.'])) ==> r,
        r ==> exists|i: int|
            0 <= i < blocked@.len() && (ends_with(lowercase(file_name@), lowercase(#[trigger] blocked@[i]@))
                || contains(lowercase(file_name@), lowercase(blocked@[i]@) + seq!['.'])),
{
    proof {
        let exts = crate::config::str_views(blocked@);
        lemma_extension_blocking(file_name@, exts);
        assert forall|i: int| 0 <= i < blocked@.len() implies #[trigger] blocked@[i]@ == exts[i] by {}
    }
    let n = chars_of(file_name);
    let lower = to_lowercase_chars(n.as_slice());
    let ghost exts = crate::config::str_views(blocked@);
    let mut i: usize = 0;
    while i < blocked.len()
        invariant
            i <= blocked@.len(),
            exts == crate::config::str_views(blocked@),
            lower@ == lowercase(file_name@),
            forall|j: int| 0 <= j < i ==> !blocked_by(file_name@, #[trigger] exts[j]),
        decreases blocked.len() - i,
    {
        let e = chars_of(blocked[i].as_str());
        let el = to_lowercase_chars(e.as_slice());
        if ends_with_chars(lower.as_slice(), el.as_slice()) {
            assert(blocked_by(file_name@, exts[i as int]));
            return true;
        }
        let mut with_dot = el.clone();
        with_dot.push('.');
        assert(with_dot@ =~= lowercase(exts[i as int]) + seq!['.']);
        if contains_chars(lower.as_slice(), with_dot.as_slice()) {
            assert(blocked_by(file_name@, exts[i as int]));
            return true;
        }
        i = i + 1;
    }
    false
}

/// The byte patterns that mark PHP code in an upload.
pub open spec fn php_signatures() -> Seq<Seq<u8>> {
    seq![
        ascii_seq("<?php"@),
        ascii_seq("<?="@),
        ascii_seq("<script language=\"php\">"@),
        ascii_seq("<script language='php'>"@),
    ]
}

/// Content carries PHP code: its ASCII-lower-cased bytes hold one of the
/// signatures.
pub open spec fn has_php_code(data: Seq<u8>) -> bool {
    exists|i: int|
        0 <= i < php_signatures().len() && contains(
            data.map_values(|b: u8| ascii_lower_byte(b)),
            #[trigger] php_signatures()[i],
        )
}

/// Which uploads carry PHP code: those whose bytes, ASCII letters taken
/// in lower case, hold `<?php`, `<?=`, `<script language="php">` or
/// `<script language='php'>`; no other content does.
pub proof fn lemma_php_code_signatures(data: Seq<u8>)
    ensures
        contains(data.map_values(|b: u8| ascii_lower_byte(b)), seq![60u8, 63u8, 112u8, 104u8, 112u8]) ==> has_php_code(data),
        contains(data.map_values(|b: u8| ascii_lower_byte(b)), seq![60u8, 63u8, 61u8]) ==> has_php_code(data),
        contains(data.map_values(|b: u8| ascii_lower_byte(b)), seq![60u8, 115u8, 99u8, 114u8, 105u8, 112u8, 116u8, 32u8, 108u8, 97u8, 110u8, 103u8, 117u8, 97u8, 103u8, 101u8, 61u8, 34u8, 112u8, 104u8, 112u8, 34u8, 62u8]) ==> has_php_code(data),
        contains(data.map_values(|b: u8| ascii_lower_byte(b)), seq![60u8, 115u8, 99u8, 114u8, 105u8, 112u8, 116u8, 32u8, 108u8, 97u8, 110u8, 103u8, 117u8, 97u8, 103u8, 101u8, 61u8, 39u8, 112u8, 104u8, 112u8, 39u8, 62u8]) ==> has_php_code(data),
        !contains(data.map_values(|b: u8| ascii_lower_byte(b)), seq![60u8, 63u8, 112u8, 104u8, 112u8]) && !contains(data.map_values(|b: u8| ascii_lower_byte(b)), seq![60u8, 63u8, 61u8]) && !contains(data.map_values(|b: u8| ascii_lower_byte(b)), seq![60u8, 115u8, 99u8, 114u8, 105u8, 112u8, 116u8, 32u8, 108u8, 97u8, 110u8, 103u8, 117u8, 97u8, 103u8, 101u8, 61u8, 34u8, 112u8, 104u8, 112u8, 34u8, 62u8]) && !contains(data.map_values(|b: u8| ascii_lower_byte(b)), seq![60u8, 115u8, 99u8, 114u8, 105u8, 112u8, 116u8, 32u8, 108u8, 97u8, 110u8, 103u8, 117u8, 97u8, 103u8, 101u8, 61u8, 39u8, 112u8, 104u8, 112u8, 39u8, 62u8]) ==> !has_php_code(data),
{
    assert(php_signatures()[0] =~= seq![60u8, 63u8, 112u8, 104u8, 112u8]) by {
        reveal_strlit("<?php");
    }
    assert(php_signatures()[1] =~= seq![60u8, 63u8, 61u8]) by {
        reveal_strlit("<?=");
    }
    assert(php_signatures()[2] =~= seq![60u8, 115u8, 99u8, 114u8, 105u8, 112u8, 116u8, 32u8, 108u8, 97u8, 110u8, 103u8, 117u8, 97u8, 103u8, 101u8, 61u8, 34u8, 112u8, 104u8, 112u8, 34u8, 62u8]) by {
        reveal_strlit("<script language=\"php\">");
    }
    assert(php_signatures()[3] =~= seq![60u8, 115u8, 99u8, 114u8, 105u8, 112u8, 116u8, 32u8, 108u8, 97u8, 110u8, 103u8, 117u8, 97u8, 103u8, 101u8, 61u8, 39u8, 112u8, 104u8, 112u8, 39u8, 62u8]) by {
        reveal_strlit("<script language='php'>");
    }
    let lower = data.map_values(|b: u8| ascii_lower_byte(b));
    if exists|i: int| 0 <= i < php_signatures().len() && contains(lower, #[trigger] php_signatures()[i]) {
        let i = choose|i: int| 0 <= i < php_signatures().len() && contains(lower, #[trigger] php_signatures()[i]);
        assert(i == 0 || i == 1 || i == 2 || i == 3);
    }
}

/// Letter case does not hide PHP code: content and its ASCII lower-cased
/// form are judged alike.
pub proof fn lemma_php_code_case_blind(data: Seq<u8>)
    ensures
        has_php_code(data.map_values(|b: u8| ascii_lower_byte(b))) == has_php_code(data),
{
    let l1 = data.map_values(|b: u8| ascii_lower_byte(b));
    let l2 = l1.map_values(|b: u8| ascii_lower_byte(b));
    assert(l2 =~= l1);
}

/// Whether uploaded content carries PHP code (`<?php`, `<?=` or a PHP
/// `<script>` tag, in any letter case).
pub fn contains_php_code(data: &[u8]) -> (r: bool)
    ensures
        r == has_php_code(data@),
        contains(data@.map_values(|b: u8| ascii_lower_byte(b)), seq![60u8, 63u8, 112u8, 104u8, 112u8]) ==> r,
        contains(data@.map_values(|b: u8| ascii_lower_byte(b)), seq![60u8, 63u8, 61u8]) ==> r,
{
    proof {
        lemma_php_code_signatures(data@);
    }
    let lower = ascii_lower_bytes(data);
    let s0 = ascii_bytes_of("<?php");
    let s1 = ascii_bytes_of("<?=");
    let s2 = ascii_bytes_of("<script language=\"php\">");
    let s3 = ascii_bytes_of("<script language='php'>");
    let b0 = contains_bytes(lower.as_slice(), s0.as_slice());
    let b1 = contains_bytes(lower.as_slice(), s1.as_slice());
    let b2 = contains_bytes(lower.as_slice(), s2.as_slice());
    let b3 = contains_bytes(lower.as_slice(), s3.as_slice());
    let ghost sigs = php_signatures();
    assert(sigs[0] == s0@ && sigs[1] == s1@ && sigs[2] == s2@ && sigs[3] == s3@);
    if b0 || b1 || b2 || b3 {
        if b0 { assert(contains(lower@, sigs[0])); }
        if b1 { assert(contains(lower@, sigs[1])); }
        if b2 { assert(contains(lower@, sigs[2])); }
        if b3 { assert(contains(lower@, sigs[3])); }
        true
    } else {
        assert forall|i: int| 0 <= i < sigs.len() implies !contains(lower@, #[trigger] sigs[i]) by {
            if i == 0 {} else if i == 1 {} else if i == 2 {} else {}
        }
        false
    }
}

/// What to do with one part of a `multipart/form-data` body.
pub enum UploadPlan {
    /// A text field: its value goes to `$_POST`.
    TextField { name: String, value: String },
    /// A file part with an empty file name: ignored.
    Skip,
    /// A file whose name carries a blocked extension: refused.
    BlockedExtension,
    /// A file whose content carries PHP code: refused.
    BlockedContent,
    /// A file to store at `tmp_path` with this content type.
    Store { tmp_path: String, content_type: String },
}

/// Where the `index`-th stored upload of process `pid` goes.
pub open spec fn upload_tmp_path(dir: Seq<char>, pid: u32, index: nat) -> Seq<char> {
    dir + "/turbine_upload_"@ + decimal(pid as nat) + seq!['_'] + decimal(index)
}

/// The plan for one part.
pub open spec fn upload_plan(
    file_name: Option<Seq<char>>,
    content_type: Seq<char>,
    data: Seq<u8>,
    blocked: Seq<Seq<char>>,
    scan: bool,
    dir: Seq<char>,
    pid: u32,
    stored: nat,
    field_name: Seq<char>,
    r: UploadPlan,
) -> bool {
    match file_name {
        None => r matches UploadPlan::TextField { name, value } && name@ == field_name && value@
            == utf8_lossy(data),
        Some(f) => if f.len() == 0 {
            r is Skip
        } else if extension_blocked(f, blocked) {
            r is BlockedExtension
        } else if scan && has_php_code(data) {
            r is BlockedContent
        } else {
            r matches UploadPlan::Store { tmp_path, content_type: ct } && tmp_path@ == upload_tmp_path(
                dir,
                pid,
                stored,
            ) && ct@ == (if content_type.len() == 0 {
                "application/octet-stream"@
            } else {
                content_type
            })
        },
    }
}

/// Decides what becomes of one part of a `multipart/form-data` body: text
/// fields go to `$_POST`; files with an empty name are skipped; files with
/// a blocked extension, or (when scanning) with PHP code in them, are
/// refused; others are stored as the `stored`-th upload of process `pid`
/// in `tmp_dir`, typed `application/octet-stream` when untyped.
pub fn plan_upload(
    field_name: &str,
    file_name: Option<&str>,
    content_type: &str,
    data: &[u8],
    security: &UploadSecurityConfig,
    tmp_dir: &str,
    pid: u32,
    stored: usize,
) -> (r: UploadPlan)
    ensures
        upload_plan(
            match file_name {
                Some(f) => Some(f@),
                None => None,
            },
            content_type@,
            data@,
            crate::config::str_views(security.blocked_extensions@),
            security.scan_content,
            tmp_dir@,
            pid,
            stored as nat,
            field_name@,
            r,
        ),
{
    match file_name {
        None => {
            let v = decode_utf8_lossy(data);
            UploadPlan::TextField { name: field_name.to_owned(), value: string_of(v.as_slice()) }
        },
        Some(f) => {
            if f.is_empty() {
                return UploadPlan::Skip;
            }
            if is_extension_blocked(f, &security.blocked_extensions) {
                return UploadPlan::BlockedExtension;
            }
            if security.scan_content && contains_php_code(data) {
                return UploadPlan::BlockedContent;
            }
            let mut p = chars_of(tmp_dir);
            push_lit(&mut p, "/turbine_upload_");
            push_decimal(&mut p, pid as u64);
            p.push('_');
            push_decimal(&mut p, stored as u64);
            assert(p@ =~= upload_tmp_path(tmp_dir@, pid, stored as nat));
            let ct = if content_type.is_empty() {
                "application/octet-stream".to_string()
            } else {
                content_type.to_owned()
            };
            UploadPlan::Store { tmp_path: string_of(p.as_slice()), content_type: ct }
        },
    }
}

} // verus!
