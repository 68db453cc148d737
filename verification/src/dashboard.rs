//! The HTML dashboard of `/_/dashboard`: its template with the listen
//! address and whether a token is required filled in.
use vstd::prelude::*;

use crate::text::{chars_of, find_chars, first_occurrence, lemma_first_occurrence, push_all, string_of, sub_chars};

verus! {

/// `s` with every occurrence of `pat`, left to right and not
/// overlapping, replaced by `rep` (`str::replace`).
pub open spec fn replace_all(s: Seq<char>, pat: Seq<char>, rep: Seq<char>) -> Seq<char>
    recommends
        pat.len() > 0,
    decreases s.len(),
{
    let i = first_occurrence(s, pat);
    if pat.len() == 0 || i < 0 {
        s
    } else {
        proof {
            lemma_first_occurrence(s, pat);
        }
        s.take(i) + rep + replace_all(s.skip(i + pat.len()), pat, rep)
    }
}

/// Replaces every occurrence of a non-empty `pat` in `s` by `rep`.
pub fn replace_all_chars(s: &[char], pat: &[char], rep: &[char]) -> (r: Vec<char>)
    requires
        pat@.len() > 0,
    ensures
        r@ == replace_all(s@, pat@, rep@),
    decreases s@.len(),
{
    match find_chars(s, pat) {
        Some(i) => {
            proof {
                lemma_first_occurrence(s@, pat@);
            }
            let slen = s.len();
            assert(i + pat@.len() <= slen);
            let end: usize = i + pat.len();
            let mut r = sub_chars(s, 0, i);
            push_all(&mut r, rep);
            let rest = sub_chars(s, end, slen);
            let tail = replace_all_chars(rest.as_slice(), pat, rep);
            push_all(&mut r, tail.as_slice());
            assert(s@.take(i as int) =~= s@.subrange(0, i as int));
            assert(rest@ =~= s@.skip(i + pat@.len()));
            r
        },
        None => sub_chars(s, 0, s.len()),
    }
}

/// The placeholder of the listen address.
pub const LISTEN_PLACEHOLDER: &'static str = "%%LISTEN%%";

/// The placeholder of whether a token is required.
pub const AUTH_PLACEHOLDER: &'static str = "%%AUTH_REQUIRED%%";

/// The dashboard page: the template with `%%LISTEN%%` replaced by the
/// listen address and `%%AUTH_REQUIRED%%` by `true` or `false`.
pub open spec fn dashboard_page(template: Seq<char>, listen: Seq<char>, auth_required: bool) -> Seq<char> {
    replace_all(
        replace_all(template, LISTEN_PLACEHOLDER@, listen),
        AUTH_PLACEHOLDER@,
        if auth_required {
            "true"@
        } else {
            "false"@
        },
    )
}

/// Fills in the dashboard template.
pub fn dashboard_html(template: &str, listen: &str, auth_required: bool) -> (r: String)
    ensures
        r@ == dashboard_page(template@, listen@, auth_required),
{
    let t = chars_of(template);
    let l = chars_of(listen);
    let lp = chars_of(LISTEN_PLACEHOLDER);
    let ap = chars_of(AUTH_PLACEHOLDER);
    proof {
        reveal_strlit("%%LISTEN%%");
        reveal_strlit("%%AUTH_REQUIRED%%");
    }
    let a = replace_all_chars(t.as_slice(), lp.as_slice(), l.as_slice());
    let v = if auth_required { chars_of("true") } else { chars_of("false") };
    let b = replace_all_chars(a.as_slice(), ap.as_slice(), v.as_slice());
    string_of(b.as_slice())
}

} // verus!
