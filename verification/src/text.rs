//! Sequence and string primitives shared by the request-handling code.
//!
//! Strings are handled as sequences of `char` (their view) and byte
//! buffers as sequences of `u8`.  The spec functions here state what the
//! usual `str` operations (prefix, suffix, search, split, trim) mean, and
//! the executable functions compute them with proofs.
use vstd::prelude::*;
use vstd::utf8::{decode_utf8, encode_utf8, is_ascii_chars, valid_utf8};

verus! {

// ───────────────────────────── specifications ─────────────────────────────

/// `p` is a prefix of `s`.
pub open spec fn starts_with<T>(s: Seq<T>, p: Seq<T>) -> bool {
    p.len() <= s.len() && s.subrange(0, p.len() as int) == p
}

/// `p` is a suffix of `s`.
pub open spec fn ends_with<T>(s: Seq<T>, p: Seq<T>) -> bool {
    p.len() <= s.len() && s.subrange(s.len() - p.len(), s.len() as int) == p
}

/// `p` occurs in `s` starting at index `i`.
pub open spec fn occurs_at<T>(s: Seq<T>, p: Seq<T>, i: int) -> bool {
    0 <= i && i + p.len() <= s.len() && s.subrange(i, i + p.len()) == p
}

/// `p` occurs somewhere in `s`.
pub open spec fn contains<T>(s: Seq<T>, p: Seq<T>) -> bool {
    exists|i: int| occurs_at(s, p, i)
}

/// `i` is the first index at which `p` occurs in `s`.
pub open spec fn is_first_occurrence<T>(s: Seq<T>, p: Seq<T>, i: int) -> bool {
    occurs_at(s, p, i) && forall|j: int| 0 <= j < i ==> !occurs_at(s, p, j)
}

/// Index of the first occurrence of `p` in `s`, or -1 when there is none.
pub open spec fn first_occurrence<T>(s: Seq<T>, p: Seq<T>) -> int {
    if contains(s, p) {
        choose|i: int| is_first_occurrence(s, p, i)
    } else {
        -1
    }
}

pub proof fn lemma_first_exists<T>(s: Seq<T>, p: Seq<T>, k: int)
    requires
        occurs_at(s, p, k),
    ensures
        exists|i: int| is_first_occurrence(s, p, i),
    decreases k,
{
    if exists|j: int| 0 <= j < k && occurs_at(s, p, j) {
        let j = choose|j: int| 0 <= j < k && occurs_at(s, p, j);
        lemma_first_exists(s, p, j);
    } else {
        assert(is_first_occurrence(s, p, k));
    }
}

/// What occurs in `s` occurs in `s` followed by anything.
pub proof fn lemma_contains_extend<T>(s: Seq<T>, t: Seq<T>, p: Seq<T>)
    requires
        contains(s, p),
    ensures
        contains(s + t, p),
{
    let i = choose|i: int| occurs_at(s, p, i);
    assert((s + t).subrange(i, i + p.len()) =~= s.subrange(i, i + p.len()));
    assert(occurs_at(s + t, p, i));
}

/// The first occurrence is characterised by `is_first_occurrence`.
pub proof fn lemma_first_occurrence<T>(s: Seq<T>, p: Seq<T>)
    ensures
        first_occurrence(s, p) == -1 <==> !contains(s, p),
        first_occurrence(s, p) != -1 ==> is_first_occurrence(s, p, first_occurrence(s, p)),
        first_occurrence(s, p) != -1 ==> 0 <= first_occurrence(s, p) <= s.len() - p.len(),
{
    if contains(s, p) {
        let k = choose|i: int| occurs_at(s, p, i);
        lemma_first_exists(s, p, k);
    }
}

/// Any first occurrence is the one `first_occurrence` names.
pub proof fn lemma_first_occurrence_is<T>(s: Seq<T>, p: Seq<T>, i: int)
    requires
        is_first_occurrence(s, p, i),
    ensures
        first_occurrence(s, p) == i,
{
    lemma_first_occurrence(s, p);
    let f = first_occurrence(s, p);
    if f < i {
        assert(!occurs_at(s, p, f));
    } else if f > i {
        assert(!occurs_at(s, p, i));
    }
}


// ───────────────────────────── searching ─────────────────────────────

/// Whether `p` occurs in `s` at index `i`.
pub fn chars_match_at(s: &[char], p: &[char], i: usize) -> (r: bool)
    ensures
        r == occurs_at(s@, p@, i as int),
{
    if i > s.len() || p.len() > s.len() - i {
        return false;
    }
    let mut k: usize = 0;
    while k < p.len()
        invariant
            i + p@.len() <= s.len(),
            k <= p@.len(),
            forall|j: int| 0 <= j < k ==> s@[i + j] == p@[j],
        decreases p.len() - k,
    {
        if s[i + k] != p[k] {
            assert(s@.subrange(i as int, i + p@.len())[k as int] != p@[k as int]);
            return false;
        }
        k = k + 1;
    }
    assert(s@.subrange(i as int, i + p@.len()) =~= p@);
    true
}

/// Whether `p` occurs in `s` at index `i` (bytes).
pub fn bytes_match_at(s: &[u8], p: &[u8], i: usize) -> (r: bool)
    ensures
        r == occurs_at(s@, p@, i as int),
{
    if i > s.len() || p.len() > s.len() - i {
        return false;
    }
    let mut k: usize = 0;
    while k < p.len()
        invariant
            i + p@.len() <= s.len(),
            k <= p@.len(),
            forall|j: int| 0 <= j < k ==> s@[i + j] == p@[j],
        decreases p.len() - k,
    {
        if s[i + k] != p[k] {
            assert(s@.subrange(i as int, i + p@.len())[k as int] != p@[k as int]);
            return false;
        }
        k = k + 1;
    }
    assert(s@.subrange(i as int, i + p@.len()) =~= p@);
    true
}

/// Index of the first occurrence of `p` in `s`.
pub fn find_chars(s: &[char], p: &[char]) -> (r: Option<usize>)
    ensures
        match r {
            Some(i) => i as int == first_occurrence(s@, p@),
            None => first_occurrence(s@, p@) == -1,
        },
{
    proof { lemma_first_occurrence(s@, p@); }
    if p.len() > s.len() {
        return None;
    }
    let n = s.len() - p.len();
    let mut i: usize = 0;
    while i < n
        invariant
            i <= n,
            n == s@.len() - p@.len(),
            forall|j: int| 0 <= j < i ==> !occurs_at(s@, p@, j),
        decreases n - i,
    {
        if chars_match_at(s, p, i) {
            proof { lemma_first_occurrence_is(s@, p@, i as int); }
            return Some(i);
        }
        i = i + 1;
    }
    if chars_match_at(s, p, n) {
        proof { lemma_first_occurrence_is(s@, p@, n as int); }
        return Some(n);
    }
    None
}

/// Index of the first occurrence of `p` in `s` (bytes).
pub fn find_bytes(s: &[u8], p: &[u8]) -> (r: Option<usize>)
    ensures
        match r {
            Some(i) => i as int == first_occurrence(s@, p@),
            None => first_occurrence(s@, p@) == -1,
        },
{
    proof { lemma_first_occurrence(s@, p@); }
    if p.len() > s.len() {
        return None;
    }
    let n = s.len() - p.len();
    let mut i: usize = 0;
    while i < n
        invariant
            i <= n,
            n == s@.len() - p@.len(),
            forall|j: int| 0 <= j < i ==> !occurs_at(s@, p@, j),
        decreases n - i,
    {
        if bytes_match_at(s, p, i) {
            proof { lemma_first_occurrence_is(s@, p@, i as int); }
            return Some(i);
        }
        i = i + 1;
    }
    if bytes_match_at(s, p, n) {
        proof { lemma_first_occurrence_is(s@, p@, n as int); }
        return Some(n);
    }
    None
}

/// Whether `p` occurs in `s`.
pub fn contains_chars(s: &[char], p: &[char]) -> (r: bool)
    ensures
        r == contains(s@, p@),
{
    proof { lemma_first_occurrence(s@, p@); }
    find_chars(s, p).is_some()
}

/// Whether `p` occurs in `s` (bytes).
pub fn contains_bytes(s: &[u8], p: &[u8]) -> (r: bool)
    ensures
        r == contains(s@, p@),
{
    proof { lemma_first_occurrence(s@, p@); }
    find_bytes(s, p).is_some()
}

/// Whether `s` starts with `p`.
pub fn starts_with_chars(s: &[char], p: &[char]) -> (r: bool)
    ensures
        r == starts_with(s@, p@),
{
    chars_match_at(s, p, 0)
}

/// Whether `s` starts with `p` (bytes).
pub fn starts_with_bytes(s: &[u8], p: &[u8]) -> (r: bool)
    ensures
        r == starts_with(s@, p@),
{
    bytes_match_at(s, p, 0)
}

/// Whether `s` ends with `p`.
pub fn ends_with_chars(s: &[char], p: &[char]) -> (r: bool)
    ensures
        r == ends_with(s@, p@),
{
    if p.len() > s.len() {
        return false;
    }
    chars_match_at(s, p, s.len() - p.len())
}

/// The characters of an optional string slice.
pub open spec fn opt_str(o: Option<&str>) -> Option<Seq<char>> {
    match o {
        Some(s) => Some(s@),
        None => None,
    }
}

/// Appends the characters of `s` to `v`.
pub fn push_str(v: &mut Vec<char>, s: &str)
    ensures
        final(v)@ == old(v)@ + s@,
{
    let c = chars_of(s);
    push_all(v, c.as_slice());
}

/// Whether two strings have the same characters.
pub fn str_eq(a: &str, b: &str) -> (r: bool)
    ensures
        r == (a@ == b@),
{
    let x = chars_of(a);
    let y = chars_of(b);
    chars_eq(x.as_slice(), y.as_slice())
}

/// Whether the two sequences are equal.
pub fn chars_eq(a: &[char], b: &[char]) -> (r: bool)
    ensures
        r == (a@ == b@),
{
    if a.len() != b.len() {
        return false;
    }
    let r = chars_match_at(a, b, 0);
    proof {
        if r {
            assert(a@.subrange(0, a@.len() as int) =~= a@);
        } else {
            assert(a@ != b@ ==> true);
            if a@ == b@ {
                assert(a@.subrange(0, b@.len() as int) =~= b@);
            }
        }
    }
    r
}

/// The elements of `s` in `[from, to)`, copied.
pub fn sub_chars(s: &[char], from: usize, to: usize) -> (r: Vec<char>)
    requires
        from <= to <= s@.len(),
    ensures
        r@ == s@.subrange(from as int, to as int),
{
    let mut r: Vec<char> = Vec::new();
    let mut i = from;
    while i < to
        invariant
            from <= i <= to <= s@.len(),
            r@ == s@.subrange(from as int, i as int),
        decreases to - i,
    {
        r.push(s[i]);
        i = i + 1;
        assert(r@ =~= s@.subrange(from as int, i as int));
    }
    r
}

/// The bytes of `s` in `[from, to)`, copied.
pub fn sub_bytes(s: &[u8], from: usize, to: usize) -> (r: Vec<u8>)
    requires
        from <= to <= s@.len(),
    ensures
        r@ == s@.subrange(from as int, to as int),
{
    let mut r: Vec<u8> = Vec::new();
    let mut i = from;
    while i < to
        invariant
            from <= i <= to <= s@.len(),
            r@ == s@.subrange(from as int, i as int),
        decreases to - i,
    {
        r.push(s[i]);
        i = i + 1;
        assert(r@ =~= s@.subrange(from as int, i as int));
    }
    r
}

/// Appends all of `b` to `a`.
pub fn push_all(a: &mut Vec<char>, b: &[char])
    ensures
        final(a)@ == old(a)@ + b@,
{
    let mut i: usize = 0;
    while i < b.len()
        invariant
            i <= b@.len(),
            a@ == old(a)@ + b@.subrange(0, i as int),
        decreases b.len() - i,
    {
        a.push(b[i]);
        i = i + 1;
        assert(a@ =~= old(a)@ + b@.subrange(0, i as int));
    }
    assert(b@.subrange(0, b@.len() as int) =~= b@);
}


// ───────────────────────────── single elements ─────────────────────────────

pub proof fn lemma_single_occurs<T>(x: Seq<T>, c: T, j: int)
    ensures
        occurs_at(x, seq![c], j) <==> (0 <= j < x.len() && x[j] == c),
{
    if 0 <= j < x.len() {
        if x[j] == c {
            assert(x.subrange(j, j + 1) =~= seq![c]);
        } else {
            assert(x.subrange(j, j + 1)[0] != seq![c][0]);
        }
    }
}

/// The first occurrence of the element `c` in `x` is at `i`, where
/// `x[..i]` holds no `c` and `x[i] == c`.
pub proof fn lemma_first_single<T>(x: Seq<T>, c: T, i: int)
    requires
        0 <= i < x.len(),
        x[i] == c,
        forall|j: int| 0 <= j < i ==> x[j] != c,
    ensures
        first_occurrence(x, seq![c]) == i,
{
    lemma_single_occurs(x, c, i);
    assert forall|j: int| 0 <= j < i implies !occurs_at(x, seq![c], j) by {
        lemma_single_occurs(x, c, j);
    }
    lemma_first_occurrence_is(x, seq![c], i);
}

/// No occurrence of the element `c` in `x`.
pub proof fn lemma_no_single<T>(x: Seq<T>, c: T)
    requires
        forall|j: int| 0 <= j < x.len() ==> x[j] != c,
    ensures
        first_occurrence(x, seq![c]) == -1,
{
    assert forall|j: int| !occurs_at(x, seq![c], j) by {
        lemma_single_occurs(x, c, j);
    }
    lemma_first_occurrence(x, seq![c]);
}

/// Index of the first `c` in `s`.
pub fn find_char(s: &[char], c: char) -> (r: Option<usize>)
    ensures
        match r {
            Some(i) => i as int == first_occurrence(s@, seq![c]) && i < s.len() && s@[i as int] == c,
            None => first_occurrence(s@, seq![c]) == -1,
        },
{
    let mut i: usize = 0;
    while i < s.len()
        invariant
            i <= s@.len(),
            forall|j: int| 0 <= j < i ==> s@[j] != c,
        decreases s.len() - i,
    {
        if s[i] == c {
            proof { lemma_first_single(s@, c, i as int); }
            return Some(i);
        }
        i = i + 1;
    }
    proof { lemma_no_single(s@, c); }
    None
}

// ───────────────────────────── splitting ─────────────────────────────

/// `s` split at every `sep`, as `str::split` with a `char` pattern does.
pub open spec fn split_on<T>(s: Seq<T>, sep: T) -> Seq<Seq<T>>
    decreases s.len(),
{
    let i = first_occurrence(s, seq![sep]);
    if i < 0 {
        seq![s]
    } else {
        proof { lemma_first_occurrence(s, seq![sep]); }
        seq![s.take(i)] + split_on(s.skip(i + 1), sep)
    }
}

/// The views of a sequence of character vectors.
pub open spec fn views(v: Seq<Vec<char>>) -> Seq<Seq<char>> {
    v.map_values(|x: Vec<char>| x@)
}

/// `s` split at every `sep`.
pub fn split_chars(s: &[char], sep: char) -> (r: Vec<Vec<char>>)
    ensures
        views(r@) == split_on(s@, sep),
{
    let mut r: Vec<Vec<char>> = Vec::new();
    let mut start: usize = 0;
    let mut i: usize = 0;
    assert(s@.skip(0) =~= s@);
    assert(views(r@) =~= Seq::<Seq<char>>::empty());
    while i < s.len()
        invariant
            start <= i <= s@.len(),
            forall|j: int| start <= j < i ==> s@[j] != sep,
            views(r@) + split_on(s@.skip(start as int), sep) == split_on(s@, sep),
        decreases s.len() - i,
    {
        if s[i] == sep {
            let ghost rest = s@.skip(start as int);
            proof {
                lemma_first_single(rest, sep, i - start);
                assert(rest.take(i - start) =~= s@.subrange(start as int, i as int));
                assert(rest.skip(i - start + 1) =~= s@.skip(i + 1));
            }
            let piece = sub_chars(s, start, i);
            let ghost before = r@;
            r.push(piece);
            proof {
                assert(views(r@) =~= views(before).push(piece@));
                assert(views(r@) + split_on(s@.skip(i + 1), sep) =~= views(before) + split_on(rest, sep));
            }
            start = i + 1;
        }
        i = i + 1;
    }
    let ghost rest = s@.skip(start as int);
    proof {
        lemma_no_single(rest, sep);
        assert(rest =~= s@.subrange(start as int, s@.len() as int));
    }
    let piece = sub_chars(s, start, s.len());
    let ghost before = r@;
    r.push(piece);
    proof {
        assert(views(r@) =~= views(before).push(piece@));
        assert(views(r@) =~= views(before) + split_on(rest, sep));
    }
    r
}

/// The pieces before and after the first `sep`, as `str::split_once`.
pub open spec fn split_once_spec<T>(s: Seq<T>, sep: T) -> Option<(Seq<T>, Seq<T>)> {
    let i = first_occurrence(s, seq![sep]);
    if i < 0 {
        None
    } else {
        Some((s.take(i), s.skip(i + 1)))
    }
}

/// The pieces before and after the first `sep`.
pub fn split_once_chars(s: &[char], sep: char) -> (r: Option<(Vec<char>, Vec<char>)>)
    ensures
        match r {
            Some((a, b)) => split_once_spec(s@, sep) == Some((a@, b@)),
            None => split_once_spec(s@, sep) is None,
        },
{
    match find_char(s, sep) {
        Some(i) => {
            let a = sub_chars(s, 0, i);
            let b = sub_chars(s, i + 1, s.len());
            assert(a@ =~= s@.take(i as int));
            assert(b@ =~= s@.skip(i + 1));
            Some((a, b))
        },
        None => None,
    }
}

/// Lines of `s` as `str::lines` yields them: split at `\n`, one
/// trailing `\r` dropped from each terminated line, and no final empty
/// line.
pub open spec fn lines_spec(s: Seq<char>) -> Seq<Seq<char>> {
    let parts = split_on(s, '\n');
    let n = parts.len();
    let body = Seq::new((n - 1) as nat, |i: int| strip_cr(parts[i]));
    if parts[n - 1].len() == 0 {
        body
    } else {
        body.push(parts[n - 1])
    }
}

/// `x` without one trailing carriage return.
pub open spec fn strip_cr(x: Seq<char>) -> Seq<char> {
    if x.len() > 0 && x.last() == '\r' {
        x.drop_last()
    } else {
        x
    }
}

pub proof fn lemma_split_nonempty<T>(s: Seq<T>, sep: T)
    ensures
        split_on(s, sep).len() >= 1,
    decreases s.len(),
{
    let i = first_occurrence(s, seq![sep]);
    if i >= 0 {
        lemma_first_occurrence(s, seq![sep]);
        lemma_split_nonempty(s.skip(i + 1), sep);
    }
}

/// The lines of `s`.
pub fn lines_chars(s: &[char]) -> (r: Vec<Vec<char>>)
    ensures
        views(r@) == lines_spec(s@),
{
    let parts = split_chars(s, '\n');
    proof { lemma_split_nonempty(s@, '\n'); }
    let n = parts.len();
    let mut r: Vec<Vec<char>> = Vec::new();
    let mut i: usize = 0;
    while i + 1 < n
        invariant
            n == parts@.len(),
            n >= 1,
            i <= n - 1,
            views(parts@) == split_on(s@, '\n'),
            views(r@) =~= Seq::new(i as nat, |k: int| strip_cr(split_on(s@, '\n')[k])),
        decreases n - i,
    {
        let p = &parts[i];
        let ghost pv = split_on(s@, '\n')[i as int];
        assert(p@ == pv) by { assert(views(parts@)[i as int] == parts@[i as int]@); }
        let q = if p.len() > 0 && p[p.len() - 1] == '\r' {
            sub_chars(p.as_slice(), 0, p.len() - 1)
        } else {
            sub_chars(p.as_slice(), 0, p.len())
        };
        proof {
            if pv.len() > 0 && pv.last() == '\r' {
                assert(q@ =~= pv.drop_last());
            } else {
                assert(q@ =~= pv);
            }
        }
        let ghost before = r@;
        r.push(q);
        assert(views(r@) =~= views(before).push(q@));
        i = i + 1;
    }
    let last = &parts[n - 1];
    assert(last@ == split_on(s@, '\n')[n - 1]) by { assert(views(parts@)[n - 1] == parts@[n - 1]@); }
    if last.len() > 0 {
        let q = sub_chars(last.as_slice(), 0, last.len());
        let ghost before = r@;
        r.push(q);
        assert(q@ =~= last@);
        assert(views(r@) =~= views(before).push(q@));
    }
    r
}


// ───────────────────────────── character classes ─────────────────────────────

/// `char::is_whitespace`: the Unicode `White_Space` property.
pub open spec fn is_ws(c: char) -> bool {
    let u = c as u32;
    (9 <= u <= 13) || u == 32 || u == 0x85 || u == 0xA0 || u == 0x1680 || (0x2000 <= u <= 0x200A)
        || u == 0x2028 || u == 0x2029 || u == 0x202F || u == 0x205F || u == 0x3000
}

/// Whether `c` is Unicode whitespace.
pub fn char_is_ws(c: char) -> (r: bool)
    ensures
        r == is_ws(c),
{
    let u = c as u32;
    (9 <= u && u <= 13) || u == 32 || u == 0x85 || u == 0xA0 || u == 0x1680 || (0x2000 <= u && u
        <= 0x200A) || u == 0x2028 || u == 0x2029 || u == 0x202F || u == 0x205F || u == 0x3000
}

/// A class of characters that trimming removes.
pub enum CharClass {
    /// Unicode whitespace.
    Whitespace,
    /// Exactly this character.
    Exactly(char),
    /// Anything but Unicode whitespace.
    NotWhitespace,
}

/// Membership in a character class.
pub open spec fn in_class(cls: CharClass, c: char) -> bool {
    match cls {
        CharClass::Whitespace => is_ws(c),
        CharClass::Exactly(x) => c == x,
        CharClass::NotWhitespace => !is_ws(c),
    }
}

/// Whether `c` belongs to `cls`.
pub fn char_in_class(cls: &CharClass, c: char) -> (r: bool)
    ensures
        r == in_class(*cls, c),
{
    match cls {
        CharClass::Whitespace => char_is_ws(c),
        CharClass::Exactly(x) => c == *x,
        CharClass::NotWhitespace => !char_is_ws(c),
    }
}

/// Number of leading characters of `s` in `cls`.
pub open spec fn leading(s: Seq<char>, cls: CharClass) -> nat
    decreases s.len(),
{
    if s.len() > 0 && in_class(cls, s[0]) {
        1 + leading(s.drop_first(), cls)
    } else {
        0
    }
}

/// Number of trailing characters of `s` in `cls`.
pub open spec fn trailing(s: Seq<char>, cls: CharClass) -> nat
    decreases s.len(),
{
    if s.len() > 0 && in_class(cls, s.last()) {
        1 + trailing(s.drop_last(), cls)
    } else {
        0
    }
}

pub proof fn lemma_leading_bound(s: Seq<char>, cls: CharClass)
    ensures
        leading(s, cls) <= s.len(),
        trailing(s, cls) <= s.len(),
    decreases s.len(),
{
    if s.len() > 0 {
        lemma_leading_bound(s.drop_first(), cls);
        lemma_leading_bound(s.drop_last(), cls);
    }
}

/// After trimming, the first remaining character is outside the class.
pub proof fn lemma_trim_start_first(s: Seq<char>, cls: CharClass)
    ensures
        trim_start(s, cls).len() > 0 ==> !in_class(cls, trim_start(s, cls)[0]),
    decreases s.len(),
{
    lemma_leading_bound(s, cls);
    if s.len() > 0 && in_class(cls, s[0]) {
        lemma_trim_start_first(s.drop_first(), cls);
        lemma_leading_bound(s.drop_first(), cls);
        assert(trim_start(s, cls) =~= trim_start(s.drop_first(), cls));
    }
}

/// `s` without its leading characters in `cls` (`trim_start_matches`).
pub open spec fn trim_start(s: Seq<char>, cls: CharClass) -> Seq<char> {
    s.skip(leading(s, cls) as int)
}

/// `s` without its trailing characters in `cls` (`trim_end_matches`).
pub open spec fn trim_end(s: Seq<char>, cls: CharClass) -> Seq<char> {
    s.take(s.len() - trailing(s, cls))
}

/// `s` without leading and trailing characters in `cls` (`trim_matches`).
pub open spec fn trim(s: Seq<char>, cls: CharClass) -> Seq<char> {
    trim_end(trim_start(s, cls), cls)
}

/// `str::trim`.
pub open spec fn trim_ws(s: Seq<char>) -> Seq<char> {
    trim(s, CharClass::Whitespace)
}

/// Number of leading characters in `cls`.
pub fn leading_count(s: &[char], cls: &CharClass) -> (n: usize)
    ensures
        n == leading(s@, *cls),
        n <= s@.len(),
{
    let mut i: usize = 0;
    proof { assert(s@.skip(0) =~= s@); }
    while i < s.len() && char_in_class(cls, s[i])
        invariant
            i <= s@.len(),
            leading(s@, *cls) == i + leading(s@.skip(i as int), *cls),
        decreases s.len() - i,
    {
        proof {
            assert(s@.skip(i as int).drop_first() =~= s@.skip(i + 1));
        }
        i = i + 1;
    }
    i
}

/// Number of trailing characters in `cls`.
pub fn trailing_count(s: &[char], cls: &CharClass) -> (n: usize)
    ensures
        n == trailing(s@, *cls),
        n <= s@.len(),
{
    let mut k: usize = 0;
    proof { assert(s@.take(s@.len() as int) =~= s@); }
    while k < s.len() && char_in_class(cls, s[s.len() - 1 - k])
        invariant
            k <= s@.len(),
            trailing(s@, *cls) == k + trailing(s@.take(s@.len() - k), *cls),
        decreases s.len() - k,
    {
        proof {
            let t = s@.take(s@.len() - k);
            assert(t.last() == s@[s@.len() - 1 - k]);
            assert(t.drop_last() =~= s@.take(s@.len() - (k + 1)));
        }
        k = k + 1;
    }
    k
}

/// `s` trimmed of leading and trailing characters in `cls`.
pub fn trim_chars(s: &[char], cls: &CharClass) -> (r: Vec<char>)
    ensures
        r@ == trim(s@, *cls),
{
    let a = leading_count(s, cls);
    let front = sub_chars(s, a, s.len());
    assert(front@ =~= trim_start(s@, *cls));
    let b = trailing_count(front.as_slice(), cls);
    sub_chars(front.as_slice(), 0, front.len() - b)
}

/// `s` trimmed of leading characters in `cls`.
pub fn trim_start_chars(s: &[char], cls: &CharClass) -> (r: Vec<char>)
    ensures
        r@ == trim_start(s@, *cls),
{
    let a = leading_count(s, cls);
    sub_chars(s, a, s.len())
}

/// `s` trimmed of trailing characters in `cls`.
pub fn trim_end_chars(s: &[char], cls: &CharClass) -> (r: Vec<char>)
    ensures
        r@ == trim_end(s@, *cls),
{
    let b = trailing_count(s, cls);
    sub_chars(s, 0, s.len() - b)
}

/// `s` trimmed of whitespace.
pub fn trim_ws_chars(s: &[char]) -> (r: Vec<char>)
    ensures
        r@ == trim_ws(s@),
{
    trim_chars(s, &CharClass::Whitespace)
}

// ───────────────────────────── ASCII case ─────────────────────────────

/// `char::to_ascii_lowercase`.
pub open spec fn ascii_lower(c: char) -> char {
    if 'A' <= c <= 'Z' {
        ((c as u32) + 32) as char
    } else {
        c
    }
}

/// `str::to_ascii_lowercase`, characterwise.
pub open spec fn ascii_lower_seq(s: Seq<char>) -> Seq<char> {
    s.map_values(|c: char| ascii_lower(c))
}

/// `str::eq_ignore_ascii_case`.
pub open spec fn eq_ignore_ascii_case(a: Seq<char>, b: Seq<char>) -> bool {
    ascii_lower_seq(a) == ascii_lower_seq(b)
}

/// `u8::to_ascii_lowercase`.
pub open spec fn ascii_lower_byte(b: u8) -> u8 {
    if 65 <= b <= 90 {
        (b + 32) as u8
    } else {
        b
    }
}

/// Lower-case ASCII form of `c`.
pub fn char_ascii_lower(c: char) -> (r: char)
    ensures
        r == ascii_lower(c),
{
    if 'A' <= c && c <= 'Z' {
        let b = ((c as u32) + 32) as u8;
        b as char
    } else {
        c
    }
}

/// Lower-case ASCII form of `s`.
pub fn ascii_lower_chars(s: &[char]) -> (r: Vec<char>)
    ensures
        r@ == ascii_lower_seq(s@),
{
    let mut r: Vec<char> = Vec::new();
    let mut i: usize = 0;
    while i < s.len()
        invariant
            i <= s@.len(),
            r@ =~= ascii_lower_seq(s@.take(i as int)),
        decreases s.len() - i,
    {
        r.push(char_ascii_lower(s[i]));
        i = i + 1;
        assert(r@ =~= ascii_lower_seq(s@.take(i as int)));
    }
    assert(s@.take(s@.len() as int) =~= s@);
    r
}

/// Whether `a` and `b` are equal ignoring ASCII case.
pub fn eq_ignore_ascii_case_chars(a: &[char], b: &[char]) -> (r: bool)
    ensures
        r == eq_ignore_ascii_case(a@, b@),
{
    let la = ascii_lower_chars(a);
    let lb = ascii_lower_chars(b);
    chars_eq(la.as_slice(), lb.as_slice())
}

/// Lower-case ASCII form of a byte.
pub fn byte_ascii_lower(b: u8) -> (r: u8)
    ensures
        r == ascii_lower_byte(b),
{
    if 65 <= b && b <= 90 {
        b + 32
    } else {
        b
    }
}

/// Lower-case ASCII form of a byte buffer.
pub fn ascii_lower_bytes(s: &[u8]) -> (r: Vec<u8>)
    ensures
        r@ == s@.map_values(|b: u8| ascii_lower_byte(b)),
{
    let mut r: Vec<u8> = Vec::new();
    let mut i: usize = 0;
    while i < s.len()
        invariant
            i <= s@.len(),
            r@ =~= s@.take(i as int).map_values(|b: u8| ascii_lower_byte(b)),
        decreases s.len() - i,
    {
        r.push(byte_ascii_lower(s[i]));
        i = i + 1;
        assert(r@ =~= s@.take(i as int).map_values(|b: u8| ascii_lower_byte(b)));
    }
    assert(s@.take(s@.len() as int) =~= s@);
    r
}


// ───────────────────────────── conversions ─────────────────────────────

/// The characters of `s` (`str::chars`, collected).
#[verifier::external_body]
pub(crate) fn chars_of(s: &str) -> (r: Vec<char>)
    ensures
        r@ == s@,
{
    s.chars().collect()
}

/// The string made of the characters `v` (`String: FromIterator<&char>`).
#[verifier::external_body]
pub(crate) fn string_of(v: &[char]) -> (r: String)
    ensures
        r@ == v@,
{
    v.iter().collect()
}

/// The UTF-8 encoding of `v` (`String::into_bytes`).
#[verifier::external_body]
pub(crate) fn utf8_of(v: &[char]) -> (r: Vec<u8>)
    ensures
        r@ == encode_utf8(v@),
{
    v.iter().collect::<String>().into_bytes()
}

/// Decodes UTF-8 (`std::str::from_utf8`): `None` exactly when the bytes
/// are not valid UTF-8.
#[verifier::external_body]
pub(crate) fn decode_utf8_strict(b: &[u8]) -> (r: Option<Vec<char>>)
    ensures
        r is Some <==> valid_utf8(b@),
        r matches Some(v) ==> v@ == decode_utf8(b@),
{
    std::str::from_utf8(b).ok().map(|t| t.chars().collect())
}

/// What `String::from_utf8_lossy` makes of a byte buffer.
pub uninterp spec fn utf8_lossy(b: Seq<u8>) -> Seq<char>;

/// Decodes UTF-8, replacing invalid sequences with U+FFFD
/// (`String::from_utf8_lossy`).  Valid input decodes exactly.
#[verifier::external_body]
pub(crate) fn decode_utf8_lossy(b: &[u8]) -> (r: Vec<char>)
    ensures
        r@ == utf8_lossy(b@),
        valid_utf8(b@) ==> r@ == decode_utf8(b@),
{
    String::from_utf8_lossy(b).chars().collect()
}

/// What `str::to_lowercase` makes of a string (Unicode lower case).
pub uninterp spec fn lowercase(s: Seq<char>) -> Seq<char>;

/// Unicode lower case (`str::to_lowercase`); on ASCII it is ASCII lower
/// case.
#[verifier::external_body]
pub(crate) fn to_lowercase_chars(s: &[char]) -> (r: Vec<char>)
    ensures
        r@ == lowercase(s@),
        is_ascii_chars(s@) ==> r@ == ascii_lower_seq(s@),
{
    s.iter().collect::<String>().to_lowercase().chars().collect()
}

/// `char::to_ascii_uppercase`.
pub open spec fn ascii_upper(c: char) -> char {
    if 'a' <= c <= 'z' {
        ((c as u32) - 32) as char
    } else {
        c
    }
}

/// What `str::to_uppercase` makes of a string (Unicode upper case).
pub uninterp spec fn uppercase(s: Seq<char>) -> Seq<char>;

/// Unicode upper case (`str::to_uppercase`); on ASCII it is ASCII upper
/// case.
#[verifier::external_body]
pub(crate) fn to_uppercase_chars(s: &[char]) -> (r: Vec<char>)
    ensures
        r@ == uppercase(s@),
        is_ascii_chars(s@) ==> r@ == s@.map_values(|c: char| ascii_upper(c)),
{
    s.iter().collect::<String>().to_uppercase().chars().collect()
}

// ───────────────────────────── decimal numbers ─────────────────────────────

/// `c` is an ASCII digit.
pub open spec fn is_digit(c: char) -> bool {
    '0' <= c <= '9'
}

/// The value of an ASCII digit.
pub open spec fn digit_value(c: char) -> nat {
    ((c as u32) - ('0' as u32)) as nat
}

/// The value of a string of decimal digits.
pub open spec fn decimal_value(d: Seq<char>) -> nat
    decreases d.len(),
{
    if d.len() == 0 {
        0
    } else {
        decimal_value(d.drop_last()) * 10 + digit_value(d.last())
    }
}

/// All characters of `d` are ASCII digits.
pub open spec fn all_digits(d: Seq<char>) -> bool {
    forall|i: int| 0 <= i < d.len() ==> is_digit(#[trigger] d[i])
}

/// What `str::parse` of an unsigned integer type whose largest value is
/// `max` returns: an optional `+`, then one or more ASCII digits whose
/// value does not exceed `max`.
pub open spec fn parse_unsigned(s: Seq<char>, max: nat) -> Option<nat> {
    let d = if s.len() > 0 && s[0] == '+' { s.drop_first() } else { s };
    if d.len() > 0 && all_digits(d) && decimal_value(d) <= max {
        Some(decimal_value(d))
    } else {
        None
    }
}

/// Parses an unsigned decimal number no larger than `max`.
pub fn parse_unsigned_chars(s: &[char], max: u64) -> (r: Option<u64>)
    ensures
        match r {
            Some(v) => parse_unsigned(s@, max as nat) == Some(v as nat),
            None => parse_unsigned(s@, max as nat) is None,
        },
{
    let start: usize = if s.len() > 0 && s[0] == '+' { 1 } else { 0 };
    let ghost d = if s@.len() > 0 && s@[0] == '+' { s@.drop_first() } else { s@ };
    assert(d =~= s@.skip(start as int));
    if start >= s.len() {
        return None;
    }
    let mut v: u64 = 0;
    let mut i: usize = start;
    while i < s.len()
        invariant
            start <= i <= s@.len(),
            d =~= s@.skip(start as int),
            d == (if s@.len() > 0 && s@[0] == '+' { s@.drop_first() } else { s@ }),
            all_digits(s@.subrange(start as int, i as int)),
            v as nat == decimal_value(s@.subrange(start as int, i as int)),
            v <= max,
        decreases s.len() - i,
    {
        let c = s[i];
        let ghost pre = s@.subrange(start as int, i as int);
        let ghost next = s@.subrange(start as int, i + 1);
        assert(next.drop_last() =~= pre);
        assert(next.last() == c);
        if !('0' <= c && c <= '9') {
            assert(!is_digit(d[i - start]));
            return None;
        }
        let dv = (c as u32 - '0' as u32) as u64;
        if dv > max || v > (max - dv) / 10 {
            proof {
                if dv <= max {
                    let q = (max - dv) / 10;
                    assert(v * 10 + dv > max) by (nonlinear_arith)
                        requires v > q, q == (max - dv) / 10, dv <= max;
                }
                assert(d.take(i - start + 1) =~= next);
                lemma_decimal_prefix_grows(d, (i - start) as int);
            }
            return None;
        }
        proof {
            let q = (max - dv) / 10;
            assert(v * 10 + dv <= max) by (nonlinear_arith)
                requires v <= q, q == (max - dv) / 10, dv <= max;
        }
        v = v * 10 + dv;
        i = i + 1;
    }
    assert(s@.subrange(start as int, s@.len() as int) =~= d);
    Some(v)
}

/// Decimal values of digit strings never shrink when extended.
pub proof fn lemma_decimal_prefix_grows(d: Seq<char>, k: int)
    requires
        0 <= k < d.len(),
    ensures
        all_digits(d) ==> decimal_value(d) >= decimal_value(d.take(k + 1)),
    decreases d.len(),
{
    if all_digits(d) && d.len() > k + 1 {
        let e = d.drop_last();
        assert(all_digits(e));
        lemma_decimal_prefix_grows(e, k);
        assert(e.take(k + 1) =~= d.take(k + 1));
    } else if d.len() == k + 1 {
        assert(d.take(k + 1) =~= d);
    }
}

/// The decimal form of `n` (`u64::to_string`).
pub open spec fn decimal(n: nat) -> Seq<char>
    decreases n,
{
    if n < 10 {
        seq![(n + 48) as char]
    } else {
        decimal(n / 10).push(((n % 10) + 48) as char)
    }
}

/// The decimal form of `n`.
pub fn decimal_chars(n: u64) -> (r: Vec<char>)
    ensures
        r@ == decimal(n as nat),
    decreases n,
{
    if n < 10 {
        let c = ((n as u8) + 48) as char;
        let mut r: Vec<char> = Vec::new();
        r.push(c);
        assert(r@ =~= decimal(n as nat));
        r
    } else {
        let mut r = decimal_chars(n / 10);
        let c = (((n % 10) as u8) + 48) as char;
        r.push(c);
        r
    }
}


// ───────────────────────────── whitespace tokens ─────────────────────────────

/// The whitespace-separated tokens of `s` (`str::split_whitespace`).
pub open spec fn ws_tokens(s: Seq<char>) -> Seq<Seq<char>>
    decreases s.len(),
{
    let t = trim_start(s, CharClass::Whitespace);
    if t.len() == 0 {
        seq![]
    } else {
        let k = leading(t, CharClass::NotWhitespace);
        proof {
            lemma_leading_bound(s, CharClass::Whitespace);
            lemma_leading_bound(t, CharClass::NotWhitespace);
            lemma_trim_start_first(s, CharClass::Whitespace);
        }
        seq![t.take(k as int)] + ws_tokens(t.skip(k as int))
    }
}

/// The whitespace-separated tokens of `s`.
pub fn split_ws_chars(s: &[char]) -> (r: Vec<Vec<char>>)
    ensures
        views(r@) == ws_tokens(s@),
{
    let mut r: Vec<Vec<char>> = Vec::new();
    let mut cur = sub_chars(s, 0, s.len());
    assert(cur@ =~= s@);
    assert(views(r@) =~= Seq::<Seq<char>>::empty());
    loop
        invariant
            views(r@) + ws_tokens(cur@) == ws_tokens(s@),
        decreases cur@.len(),
    {
        let t = trim_start_chars(cur.as_slice(), &CharClass::Whitespace);
        if t.len() == 0 {
            assert(ws_tokens(cur@) =~= Seq::<Seq<char>>::empty());
            assert(views(r@) + ws_tokens(cur@) =~= views(r@));
            return r;
        }
        proof {
            lemma_leading_bound(cur@, CharClass::Whitespace);
        }
        let k = leading_count(t.as_slice(), &CharClass::NotWhitespace);
        proof {
            lemma_trim_start_first(cur@, CharClass::Whitespace);
        }
        let tok = sub_chars(t.as_slice(), 0, k);
        let rest = sub_chars(t.as_slice(), k, t.len());
        let ghost before = r@;
        r.push(tok);
        proof {
            assert(tok@ =~= t@.take(k as int));
            assert(rest@ =~= t@.skip(k as int));
            assert(views(r@) =~= views(before).push(tok@));
            assert(views(r@) + ws_tokens(rest@) =~= views(before) + ws_tokens(cur@));
        }
        cur = rest;
    }
}


// ───────────────────────────── ASCII bytes ─────────────────────────────

/// The bytes of an ASCII string.
pub open spec fn ascii_seq(s: Seq<char>) -> Seq<u8> {
    s.map_values(|c: char| c as u8)
}

/// The bytes of an ASCII string (each character cast to a byte).
pub fn ascii_bytes_of(s: &str) -> (r: Vec<u8>)
    ensures
        r@ == ascii_seq(s@),
{
    let v = chars_of(s);
    let mut r: Vec<u8> = Vec::new();
    let mut i: usize = 0;
    while i < v.len()
        invariant
            i <= v@.len(),
            v@ == s@,
            r@ =~= ascii_seq(v@.take(i as int)),
        decreases v.len() - i,
    {
        r.push(v[i] as u8);
        i = i + 1;
        assert(r@ =~= ascii_seq(v@.take(i as int)));
    }
    assert(v@.take(v@.len() as int) =~= v@);
    r
}

/// The views of a list of string pairs.
pub open spec fn pair_views(v: Seq<(String, String)>) -> Seq<(Seq<char>, Seq<char>)> {
    v.map_values(|p: (String, String)| (p.0@, p.1@))
}

} // verus!
