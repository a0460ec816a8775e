//! Page text as handed to the reflow engine by the extraction stage, and the
//! reading of extraction errors.
use vstd::prelude::*;
use crate::text::{char_vec, spec_all_ws, string_of_range};
use crate::reflow_helper::{spec_unify_breaks, unify_line_breaks};

verus! {

/// `s` without its trailing line feeds.
pub open spec fn spec_strip_trailing_lf(s: Seq<char>) -> Seq<char>
    decreases s.len(),
{
    if s.len() > 0 && s.last() == '\n' {
        spec_strip_trailing_lf(s.drop_last())
    } else {
        s
    }
}

/// A page's text with line breaks unified: a blank page becomes one blank
/// line; otherwise the text keeps its content, loses its trailing line feeds,
/// and ends with one blank line.
pub open spec fn spec_normalize_page(s: Seq<char>) -> Seq<char> {
    let u = spec_unify_breaks(s);
    if spec_all_ws(u) {
        seq!['\n', '\n']
    } else {
        spec_strip_trailing_lf(u) + seq!['\n', '\n']
    }
}

pub fn normalize_page_text(s: &str) -> (r: String)
    ensures
        r@ == spec_normalize_page(s@),
{
    let u = unify_line_breaks(s);
    let (_, b) = crate::text::trim_bounds(&u);
    proof {
        crate::text::lemma_trim_end_len(u@);
    }
    if b == 0 {
        let mut r = String::new();
        crate::text::push_char(&mut r, '\n');
        crate::text::push_char(&mut r, '\n');
        assert(r@ =~= seq!['\n', '\n']);
        return r;
    }
    let mut k: usize = u.len();
    assert(u@.take(k as int) =~= u@);
    while k > 0 && u[k - 1] == '\n'
        invariant
            k <= u.len(),
            spec_strip_trailing_lf(u@) == spec_strip_trailing_lf(u@.take(k as int)),
        decreases k,
    {
        assert(u@.take(k as int).drop_last() =~= u@.take(k - 1));
        k -= 1;
    }
    proof {
        if k > 0 {
            assert(u@.take(k as int).last() == u@[k - 1]);
        }
        assert(u@.subrange(0, k as int) =~= u@.take(k as int));
    }
    let mut r = string_of_range(&u, 0, k);
    crate::text::push_char(&mut r, '\n');
    crate::text::push_char(&mut r, '\n');
    assert(r@ =~= spec_strip_trailing_lf(u@) + seq!['\n', '\n']);
    r
}

/// `pat` occurs in `s`.
pub open spec fn spec_contains(s: Seq<char>, pat: Seq<char>) -> bool {
    exists|i: int| 0 <= i && i + pat.len() <= s.len() && #[trigger] s.subrange(i, i + pat.len()) == pat
}

fn contains_chars(s: &[char], pat: &[char]) -> (r: bool)
    ensures
        r == spec_contains(s@, pat@),
{
    if pat.len() > s.len() {
        return false;
    }
    let mut i: usize = 0;
    while i <= s.len() - pat.len()
        invariant
            pat.len() <= s.len(),
            i <= s.len() - pat.len() + 1,
            forall|j: int| 0 <= j < i ==> #[trigger] s@.subrange(j, j + pat.len()) != pat@,
        decreases s.len() - pat.len() + 1 - i,
    {
        let mut k: usize = 0;
        while k < pat.len() && s[i + k] == pat[k]
            invariant
                k <= pat.len(),
                i + pat.len() <= s.len(),
                forall|t: int| 0 <= t < k ==> s@[i + t] == pat@[t],
            decreases pat.len() - k,
        {
            k += 1;
        }
        if k == pat.len() {
            assert(s@.subrange(i as int, i + pat.len()) =~= pat@);
            return true;
        }
        assert(s@.subrange(i as int, i + pat.len())[k as int] != pat@[k as int]);
        i += 1;
    }
    false
}

/// The load error reads as a missing file ("No such file", "cannot find the
/// file", or "os error 2").
pub open spec fn spec_not_found_message(msg: Seq<char>) -> bool {
    spec_contains(msg, "No such file"@) || spec_contains(msg, "cannot find the file"@)
        || spec_contains(msg, "os error 2"@)
}

pub fn is_not_found_message(msg: &str) -> (r: bool)
    ensures
        r == spec_not_found_message(msg@),
{
    let m = char_vec(msg);
    contains_chars(&m, &char_vec("No such file")) || contains_chars(&m, &char_vec("cannot find the file"))
        || contains_chars(&m, &char_vec("os error 2"))
}

} // verus!
