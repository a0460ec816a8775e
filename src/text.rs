//! Character-sequence basics: whitespace, trimming, and conversion between
//! strings and character vectors.
use vstd::prelude::*;
use vstd::string::StrSliceExecFns;

verus! {

/// Unicode `White_Space` characters, as `char::is_whitespace` defines them.
pub open spec fn spec_ws(c: char) -> bool {
    let u = c as u32;
    (0x09 <= u && u <= 0x0D) || u == 0x20 || u == 0x85 || u == 0xA0 || u == 0x1680
        || (0x2000 <= u && u <= 0x200A) || u == 0x2028 || u == 0x2029 || u == 0x202F
        || u == 0x205F || u == 0x3000
}

pub fn is_whitespace(c: char) -> (r: bool)
    ensures
        r == spec_ws(c),
{
    let u = c as u32;
    (0x09 <= u && u <= 0x0D) || u == 0x20 || u == 0x85 || u == 0xA0 || u == 0x1680
        || (0x2000 <= u && u <= 0x200A) || u == 0x2028 || u == 0x2029 || u == 0x202F
        || u == 0x205F || u == 0x3000
}

/// Every character is whitespace (true of the empty sequence).
pub open spec fn spec_all_ws(s: Seq<char>) -> bool {
    forall|i: int| 0 <= i < s.len() ==> spec_ws(#[trigger] s[i])
}

/// Length of `s` once trailing whitespace is removed.
pub open spec fn spec_trim_end_len(s: Seq<char>) -> nat
    decreases s.len(),
{
    if s.len() > 0 && spec_ws(s.last()) {
        spec_trim_end_len(s.drop_last())
    } else {
        s.len()
    }
}

pub open spec fn spec_trim_end(s: Seq<char>) -> Seq<char> {
    s.take(spec_trim_end_len(s) as int)
}

/// `s` without leading whitespace.
pub open spec fn spec_trim_start(s: Seq<char>) -> Seq<char>
    decreases s.len(),
{
    if s.len() > 0 && spec_ws(s[0]) {
        spec_trim_start(s.drop_first())
    } else {
        s
    }
}

pub open spec fn spec_trim(s: Seq<char>) -> Seq<char> {
    spec_trim_start(spec_trim_end(s))
}

/// The last character that is not whitespace.
pub open spec fn spec_last_non_ws(s: Seq<char>) -> Option<char> {
    if spec_trim_end_len(s) > 0 {
        Some(s[spec_trim_end_len(s) - 1])
    } else {
        None
    }
}

pub proof fn lemma_trim_end_len(s: Seq<char>)
    ensures
        spec_trim_end_len(s) <= s.len(),
        forall|j: int| spec_trim_end_len(s) <= j < s.len() ==> spec_ws(#[trigger] s[j]),
        spec_trim_end_len(s) > 0 ==> !spec_ws(s[spec_trim_end_len(s) - 1]),
        spec_trim_end_len(s) == 0 <==> spec_all_ws(s),
    decreases s.len(),
{
    if s.len() > 0 && spec_ws(s.last()) {
        lemma_trim_end_len(s.drop_last());
        assert forall|j: int| spec_trim_end_len(s) <= j < s.len() implies spec_ws(#[trigger] s[j]) by {
            if j < s.len() - 1 {
                assert(s.drop_last()[j] == s[j]);
            }
        }
        if spec_all_ws(s.drop_last()) {
            assert forall|i: int| 0 <= i < s.len() implies spec_ws(#[trigger] s[i]) by {
                if i < s.len() - 1 {
                    assert(s.drop_last()[i] == s[i]);
                }
            }
        }
        if spec_all_ws(s) {
            assert forall|i: int| 0 <= i < s.drop_last().len() implies spec_ws(#[trigger] s.drop_last()[i]) by {
                assert(s.drop_last()[i] == s[i]);
            }
        }
    } else if s.len() > 0 {
        assert(!spec_ws(s[s.len() - 1]));
    }
}

/// The prefix `s[..k]` has the same trimmed length as `s` once everything
/// from `k` on is whitespace.
pub proof fn lemma_trim_end_len_take(s: Seq<char>, k: int)
    requires
        0 <= k <= s.len(),
        forall|j: int| k <= j < s.len() ==> spec_ws(#[trigger] s[j]),
    ensures
        spec_trim_end_len(s) == spec_trim_end_len(s.take(k)),
    decreases s.len() - k,
{
    if k == s.len() {
        assert(s.take(k) =~= s);
    } else {
        lemma_trim_end_len_take(s, k + 1);
        assert(s.take(k + 1).drop_last() =~= s.take(k));
        assert(s.take(k + 1).last() == s[k]);
    }
}

/// Index of the last non-whitespace character of `v[..end]`.
pub fn last_non_ws_before(v: &[char], end: usize) -> (r: Option<usize>)
    requires
        end <= v.len(),
    ensures
        spec_trim_end_len(v@.take(end as int)) == match r {
            Some(i) => i + 1,
            None => 0,
        },
        r matches Some(i) ==> i < end,
{
    let ghost w = v@.take(end as int);
    let mut k: usize = end;
    while k > 0 && is_whitespace(v[k - 1])
        invariant
            k <= end <= v.len(),
            w == v@.take(end as int),
            forall|j: int| k <= j < end ==> spec_ws(#[trigger] w[j]),
        decreases k,
    {
        k -= 1;
    }
    proof {
        lemma_trim_end_len_take(w, k as int);
        assert(w.take(k as int) =~= v@.take(k as int));
        if k > 0 {
            assert(v@.take(k as int).last() == v@[k - 1]);
            assert(spec_trim_end_len(v@.take(k as int)) == k);
        } else {
            assert(spec_trim_end_len(v@.take(0)) == 0);
        }
    }
    if k == 0 {
        None
    } else {
        Some(k - 1)
    }
}

/// Index of the last non-whitespace character.
pub fn last_non_ws_index(v: &[char]) -> (r: Option<usize>)
    ensures
        spec_trim_end_len(v@) == match r {
            Some(i) => i + 1,
            None => 0,
        },
        r matches Some(i) ==> i < v.len(),
{
    assert(v@.take(v.len() as int) =~= v@);
    last_non_ws_before(v, v.len())
}

/// Relies on `String::push`: appends one character at the end.
#[verifier::external_body]
pub(crate) fn push_char(s: &mut String, c: char)
    ensures
        final(s)@ == old(s)@.push(c),
{
    s.push(c);
}

/// The characters of `s`, in order.
pub fn char_vec(s: &str) -> (v: Vec<char>)
    ensures
        v@ == s@,
{
    let mut v: Vec<char> = Vec::new();
    for c in it: s.chars()
        invariant
            v@ == it.seq().take(it.index() as int),
    {
        v.push(c);
    }
    v
}

/// A string holding the characters `v[from..to]`.
pub fn string_of_range(v: &[char], from: usize, to: usize) -> (s: String)
    requires
        from <= to <= v.len(),
    ensures
        s@ == v@.subrange(from as int, to as int),
{
    let mut s = String::new();
    let mut i: usize = from;
    while i < to
        invariant
            from <= i <= to <= v.len(),
            s@ == v@.subrange(from as int, i as int),
        decreases to - i,
    {
        push_char(&mut s, v[i]);
        i += 1;
        assert(s@ =~= v@.subrange(from as int, i as int));
    }
    s
}

pub fn string_of(v: &[char]) -> (s: String)
    ensures
        s@ == v@,
{
    let s = string_of_range(v, 0, v.len());
    assert(v@.subrange(0, v.len() as int) =~= v@);
    s
}

/// Appends the characters of `t` to `s`.
pub fn push_all(s: &mut String, t: &str)
    ensures
        final(s)@ == old(s)@ + t@,
{
    let v = char_vec(t);
    let mut i: usize = 0;
    while i < v.len()
        invariant
            i <= v.len(),
            v@ == t@,
            s@ == old(s)@ + t@.take(i as int),
        decreases v.len() - i,
    {
        push_char(s, v[i]);
        i += 1;
        assert(s@ =~= old(s)@ + t@.take(i as int));
    }
    assert(t@.take(v.len() as int) =~= t@);
}

/// `s` without trailing whitespace.
pub fn trim_end_str(s: &str) -> (r: &str)
    ensures
        r@ == spec_trim_end(s@),
{
    let v = char_vec(s);
    let k = match last_non_ws_index(&v) {
        Some(i) => i + 1,
        None => 0,
    };
    proof { lemma_trim_end_len(s@); }
    s.substring_char(0, k)
}

/// True when `s` holds nothing but whitespace.
pub fn is_blank(s: &str) -> (r: bool)
    ensures
        r == spec_all_ws(s@),
{
    let v = char_vec(s);
    proof { lemma_trim_end_len(s@); }
    last_non_ws_index(&v).is_none()
}


/// `s` with leading whitespace removed.
pub proof fn lemma_trim_start_skip(s: Seq<char>, k: int)
    requires
        0 <= k <= s.len(),
        forall|j: int| 0 <= j < k ==> spec_ws(#[trigger] s[j]),
    ensures
        spec_trim_start(s) == spec_trim_start(s.skip(k)),
    decreases k,
{
    if k == 0 {
        assert(s.skip(0) =~= s);
    } else {
        assert(spec_ws(s[0]));
        let t = s.drop_first();
        assert forall|j: int| 0 <= j < k - 1 implies spec_ws(#[trigger] t[j]) by {
            assert(t[j] == s[j + 1]);
        }
        lemma_trim_start_skip(t, k - 1);
        assert(t.skip(k - 1) =~= s.skip(k));
    }
}

/// Bounds `[a, b)` of `v` once surrounding whitespace is trimmed.
pub fn trim_bounds(v: &[char]) -> (r: (usize, usize))
    ensures
        r.0 <= r.1 <= v.len(),
        r.1 == spec_trim_end_len(v@),
        spec_trim(v@) == v@.subrange(r.0 as int, r.1 as int),
        r.0 < r.1 ==> !spec_ws(v@[r.0 as int]),
        forall|j: int| 0 <= j < r.0 ==> spec_ws(#[trigger] v@[j]),
{
    let b = match last_non_ws_index(v) {
        Some(i) => i + 1,
        None => 0,
    };
    proof { lemma_trim_end_len(v@); }
    let mut a: usize = 0;
    while a < b && is_whitespace(v[a])
        invariant
            a <= b <= v.len(),
            b == spec_trim_end_len(v@),
            forall|j: int| 0 <= j < a ==> spec_ws(#[trigger] v@[j]),
        decreases b - a,
    {
        a += 1;
    }
    proof {
        let t = spec_trim_end(v@);
        assert(t =~= v@.take(b as int));
        assert forall|j: int| 0 <= j < a implies spec_ws(#[trigger] t[j]) by {}
        lemma_trim_start_skip(t, a as int);
        assert(t.skip(a as int) =~= v@.subrange(a as int, b as int));
        let u = t.skip(a as int);
        if a < b {
            assert(u[0] == v@[a as int]);
        }
    }
    (a, b)
}

/// `s` without surrounding whitespace.
pub fn trim_str(s: &str) -> (r: &str)
    ensures
        r@ == spec_trim(s@),
{
    let v = char_vec(s);
    let (a, b) = trim_bounds(&v);
    s.substring_char(a, b)
}


/// An indent character: half-width or full-width space.
pub open spec fn spec_indent(c: char) -> bool {
    c == ' ' || c == '\u{3000}'
}

/// `s` without its leading run of half-width and full-width spaces.
pub open spec fn spec_trim_indent(s: Seq<char>) -> Seq<char>
    decreases s.len(),
{
    if s.len() > 0 && spec_indent(s[0]) {
        spec_trim_indent(s.drop_first())
    } else {
        s
    }
}

proof fn lemma_trim_indent_skip(s: Seq<char>, k: int)
    requires
        0 <= k <= s.len(),
        forall|j: int| 0 <= j < k ==> spec_indent(#[trigger] s[j]),
    ensures
        spec_trim_indent(s) == spec_trim_indent(s.skip(k)),
    decreases k,
{
    if k == 0 {
        assert(s.skip(0) =~= s);
    } else {
        let t = s.drop_first();
        assert(spec_indent(s[0]));
        assert forall|j: int| 0 <= j < k - 1 implies spec_indent(#[trigger] t[j]) by {
            assert(t[j] == s[j + 1]);
        }
        lemma_trim_indent_skip(t, k - 1);
        assert(t.skip(k - 1) =~= s.skip(k));
    }
}

/// `s` without its leading half-width and full-width spaces.
pub fn trim_indent(s: &str) -> (r: &str)
    ensures
        r@ == spec_trim_indent(s@),
{
    let v = char_vec(s);
    let mut k: usize = 0;
    while k < v.len() && (v[k] == ' ' || v[k] == '\u{3000}')
        invariant
            k <= v.len(),
            v@ == s@,
            forall|j: int| 0 <= j < k ==> spec_indent(#[trigger] v@[j]),
        decreases v.len() - k,
    {
        k += 1;
    }
    proof {
        lemma_trim_indent_skip(s@, k as int);
    }
    s.substring_char(k, v.len())
}

} // verus!
