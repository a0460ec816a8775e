//! CJK character classification and the sentence / bracket boundary checks
//! that the reflow engine consults.
use vstd::prelude::*;
use vstd::string::StrSliceExecFns;
use crate::text::{
    char_vec, is_whitespace, last_non_ws_before, last_non_ws_index, spec_all_ws, spec_trim,
    spec_trim_end_len, spec_ws, trim_bounds,
};
use crate::punct_sets::{
    is_bracket_closer, is_colon_like, is_dialog_closer, is_strong_sentence_end, matching_closer,
    spec_bracket_closer, spec_colon_like, spec_dialog_closer,
    spec_matching_bracket, spec_strong_end,
};

verus! {

/// CJK Unified Ideographs, Extension A, and Compatibility Ideographs.
pub open spec fn spec_cjk(c: char) -> bool {
    let u = c as u32;
    (0x3400 <= u && u <= 0x4DBF) || (0x4E00 <= u && u <= 0x9FFF) || (0xF900 <= u && u <= 0xFAFF)
}

pub fn is_cjk_bmp(ch: char) -> (r: bool)
    ensures
        r == spec_cjk(ch),
{
    let u = ch as u32;
    (0x3400 <= u && u <= 0x4DBF) || (0x4E00 <= u && u <= 0x9FFF) || (0xF900 <= u && u <= 0xFAFF)
}

/// ASCII digits and the full-width digit block.
pub open spec fn spec_digit(c: char) -> bool {
    ('0' <= c && c <= '9') || ('０' <= c && c <= '９')
}

pub fn is_digit_ascii_or_fullwidth(ch: char) -> (r: bool)
    ensures
        r == spec_digit(ch),
{
    ('0' <= ch && ch <= '9') || ('０' <= ch && ch <= '９')
}

pub open spec fn spec_ascii_letter(c: char) -> bool {
    ('A' <= c && c <= 'Z') || ('a' <= c && c <= 'z')
}

pub open spec fn spec_ascii_alnum(c: char) -> bool {
    spec_ascii_letter(c) || ('0' <= c && c <= '9')
}

/// Every character is ASCII (true of the empty string).
pub open spec fn spec_all_ascii(s: Seq<char>) -> bool {
    forall|i: int| 0 <= i < s.len() ==> #[trigger] s[i] <= '\u{7f}'
}

pub fn is_all_ascii(s: &str) -> (r: bool)
    ensures
        r == spec_all_ascii(s@),
{
    let v = char_vec(s);
    let mut i: usize = 0;
    while i < v.len()
        invariant
            i <= v.len(),
            v@ == s@,
            forall|j: int| 0 <= j < i ==> #[trigger] v@[j] <= '\u{7f}',
        decreases v.len() - i,
    {
        if v[i] > '\u{7f}' {
            return false;
        }
        i += 1;
    }
    true
}

/// True iff `s` has a non-whitespace character and every character is CJK,
/// or whitespace where `allow_whitespace` holds.
pub open spec fn spec_all_cjk(s: Seq<char>, allow_whitespace: bool) -> bool {
    &&& !spec_all_ws(s)
    &&& forall|i: int|
        0 <= i < s.len() ==> if spec_ws(#[trigger] s[i]) {
            allow_whitespace
        } else {
            spec_cjk(s[i])
        }
}

pub fn is_all_cjk(s: &str, allow_whitespace: bool) -> (r: bool)
    ensures
        r == spec_all_cjk(s@, allow_whitespace),
{
    let v = char_vec(s);
    let mut seen = false;
    let mut i: usize = 0;
    while i < v.len()
        invariant
            i <= v.len(),
            v@ == s@,
            seen == exists|j: int| 0 <= j < i && !spec_ws(#[trigger] v@[j]),
            forall|j: int|
                0 <= j < i ==> if spec_ws(#[trigger] v@[j]) {
                    allow_whitespace
                } else {
                    spec_cjk(v@[j])
                },
        decreases v.len() - i,
    {
        let ch = v[i];
        if is_whitespace(ch) {
            if !allow_whitespace {
                return false;
            }
        } else {
            seen = true;
            if !is_cjk_bmp(ch) {
                return false;
            }
        }
        i += 1;
    }
    seen
}

pub fn is_all_cjk_ignoring_ws(s: &str) -> (r: bool)
    ensures
        r == spec_all_cjk(s@, true),
{
    is_all_cjk(s, true)
}

pub fn is_all_cjk_no_ws(s: &str) -> (r: bool)
    ensures
        r == spec_all_cjk(s@, false),
{
    is_all_cjk(s, false)
}

/// Characters a mixed CJK/ASCII label may hold: neutral ASCII punctuation
/// (space, hyphen, slash, colon, period), ASCII alphanumerics, full-width
/// digits and CJK ideographs.
pub open spec fn spec_mixed_allowed(c: char) -> bool {
    c == ' ' || c == '-' || c == '/' || c == ':' || c == '.' || spec_ascii_alnum(c)
        || ('０' <= c && c <= '９') || spec_cjk(c)
}

pub open spec fn spec_ascii_side(c: char) -> bool {
    spec_ascii_alnum(c) || ('０' <= c && c <= '９')
}

/// Both a CJK ideograph and an ASCII alphanumeric (or full-width digit), and
/// nothing outside the tolerated set.
pub open spec fn spec_mixed_cjk_ascii(s: Seq<char>) -> bool {
    &&& forall|i: int| 0 <= i < s.len() ==> spec_mixed_allowed(#[trigger] s[i])
    &&& exists|i: int| 0 <= i < s.len() && spec_cjk(#[trigger] s[i])
    &&& exists|i: int| 0 <= i < s.len() && spec_ascii_side(#[trigger] s[i])
}

pub fn is_mixed_cjk_ascii(s: &str) -> (r: bool)
    ensures
        r == spec_mixed_cjk_ascii(s@),
{
    let v = char_vec(s);
    let mut has_cjk = false;
    let mut has_ascii = false;
    let mut i: usize = 0;
    while i < v.len()
        invariant
            i <= v.len(),
            v@ == s@,
            forall|j: int| 0 <= j < i ==> spec_mixed_allowed(#[trigger] v@[j]),
            has_cjk == exists|j: int| 0 <= j < i && spec_cjk(#[trigger] v@[j]),
            has_ascii == exists|j: int| 0 <= j < i && spec_ascii_side(#[trigger] v@[j]),
        decreases v.len() - i,
    {
        let ch = v[i];
        let neutral = ch == ' ' || ch == '-' || ch == '/' || ch == ':' || ch == '.';
        if !neutral {
            let u = ch as u32;
            if u <= 0x7F {
                if ('A' <= ch && ch <= 'Z') || ('a' <= ch && ch <= 'z') || ('0' <= ch && ch <= '9') {
                    has_ascii = true;
                } else {
                    return false;
                }
            } else if '０' <= ch && ch <= '９' {
                has_ascii = true;
            } else if is_cjk_bmp(ch) {
                has_cjk = true;
            } else {
                return false;
            }
        }
        i += 1;
    }
    has_cjk && has_ascii
}

pub open spec fn spec_cjk_count(s: Seq<char>) -> nat
    decreases s.len(),
{
    if s.len() == 0 {
        0
    } else {
        spec_cjk_count(s.drop_last()) + if spec_cjk(s.last()) { 1nat } else { 0nat }
    }
}

pub open spec fn spec_letter_count(s: Seq<char>) -> nat
    decreases s.len(),
{
    if s.len() == 0 {
        0
    } else {
        spec_letter_count(s.drop_last()) + if spec_ascii_letter(s.last()) { 1nat } else { 0nat }
    }
}

/// At least one CJK ideograph, and no fewer of them than ASCII letters
/// (digits, whitespace and punctuation are neutral).
pub open spec fn spec_mostly_cjk(s: Seq<char>) -> bool {
    spec_cjk_count(s) > 0 && spec_cjk_count(s) >= spec_letter_count(s)
}

pub fn is_mostly_cjk(s: &str) -> (r: bool)
    ensures
        r == spec_mostly_cjk(s@),
{
    let v = char_vec(s);
    let mut cjk: usize = 0;
    let mut ascii: usize = 0;
    let mut i: usize = 0;
    while i < v.len()
        invariant
            i <= v.len(),
            v@ == s@,
            cjk == spec_cjk_count(v@.take(i as int)),
            ascii == spec_letter_count(v@.take(i as int)),
            cjk <= i,
            ascii <= i,
        decreases v.len() - i,
    {
        let ch = v[i];
        proof {
            assert(v@.take(i + 1).drop_last() =~= v@.take(i as int));
        }
        if is_cjk_bmp(ch) {
            cjk += 1;
        } else if ('A' <= ch && ch <= 'Z') || ('a' <= ch && ch <= 'z') {
            ascii += 1;
        }
        i += 1;
    }
    assert(v@.take(v.len() as int) =~= v@);
    cjk > 0 && cjk >= ascii
}

pub fn contains_any_cjk_str(s: &str) -> (r: bool)
    ensures
        r == exists|i: int| 0 <= i < s@.len() && spec_cjk(#[trigger] s@[i]),
{
    let v = char_vec(s);
    let mut i: usize = 0;
    while i < v.len()
        invariant
            i <= v.len(),
            v@ == s@,
            forall|j: int| 0 <= j < i ==> !spec_cjk(#[trigger] v@[j]),
        decreases v.len() - i,
    {
        if is_cjk_bmp(v[i]) {
            return true;
        }
        i += 1;
    }
    false
}

/// `s` without its leading half-width spaces; a leading full-width space
/// (the CJK paragraph indent) stays.
pub open spec fn spec_strip_halfwidth_indent(s: Seq<char>) -> Seq<char>
    decreases s.len(),
{
    if s.len() > 0 && s[0] == ' ' {
        spec_strip_halfwidth_indent(s.drop_first())
    } else {
        s
    }
}

proof fn lemma_strip_halfwidth_skip(s: Seq<char>, k: int)
    requires
        0 <= k <= s.len(),
        forall|j: int| 0 <= j < k ==> #[trigger] s[j] == ' ',
    ensures
        spec_strip_halfwidth_indent(s) == spec_strip_halfwidth_indent(s.skip(k)),
    decreases k,
{
    if k == 0 {
        assert(s.skip(0) =~= s);
    } else {
        let t = s.drop_first();
        assert forall|j: int| 0 <= j < k - 1 implies #[trigger] t[j] == ' ' by {
            assert(t[j] == s[j + 1]);
        }
        lemma_strip_halfwidth_skip(t, k - 1);
        assert(t.skip(k - 1) =~= s.skip(k));
    }
}

pub fn strip_halfwidth_indent_keep_fullwidth(s: &str) -> (r: &str)
    ensures
        r@ == spec_strip_halfwidth_indent(s@),
{
    let v = char_vec(s);
    let mut k: usize = 0;
    while k < v.len() && v[k] == ' '
        invariant
            k <= v.len(),
            v@ == s@,
            forall|j: int| 0 <= j < k ==> #[trigger] v@[j] == ' ',
        decreases v.len() - k,
    {
        k += 1;
    }
    proof {
        lemma_strip_halfwidth_skip(s@, k as int);
    }
    s.substring_char(k, v.len())
}

/// `s` without its last character (unchanged when empty).
pub fn strip_last_char(s: &str) -> (r: &str)
    ensures
        r@ == if s@.len() == 0 { s@ } else { s@.drop_last() },
{
    let n = s.unicode_len();
    if n == 0 {
        s
    } else {
        s.substring_char(0, n - 1)
    }
}


// ----- sentence boundary -----

/// The text, trailing whitespace aside, ends in `…` or in two or more ASCII periods.
pub open spec fn spec_ends_with_ellipsis(s: Seq<char>) -> bool {
    let n = spec_trim_end_len(s) as int;
    (n >= 1 && s[n - 1] == '…') || (n >= 2 && s[n - 1] == '.' && s[n - 2] == '.')
}

/// Only whitespace follows index `i`.
pub open spec fn spec_at_line_end(s: Seq<char>, i: int) -> bool {
    forall|j: int| i < j < s.len() ==> spec_ws(#[trigger] s[j])
}

/// Only whitespace and quote or bracket closers follow index `i`.
pub open spec fn spec_at_end_allowing_closers(s: Seq<char>, i: int) -> bool {
    forall|j: int|
        i < j < s.len() ==> spec_ws(#[trigger] s[j]) || spec_dialog_closer(s[j])
            || spec_bracket_closer(s[j])
}

/// An ASCII `.` or `:` at index `i` is an OCR stand-in for CJK punctuation at
/// the end of the line: only whitespace after it, a CJK ideograph right
/// before it, in mostly-CJK text.
pub open spec fn spec_ocr_punct_at_line_end(s: Seq<char>, i: int) -> bool {
    i > 0 && spec_at_line_end(s, i) && spec_cjk(s[i - 1]) && spec_mostly_cjk(s)
}

/// An ASCII `.` at index `i` stands for a full stop before closing quotes or
/// brackets: only whitespace and closers after it, a CJK ideograph right
/// before it, in mostly-CJK text.
pub open spec fn spec_ocr_punct_before_closers(s: Seq<char>, i: int) -> bool {
    i > 0 && spec_at_end_allowing_closers(s, i) && spec_cjk(s[i - 1]) && spec_mostly_cjk(s)
}

/// Sentence boundary at the end of `s` (trailing whitespace aside), where a
/// lone non-whitespace character counts only as a strong terminator or an
/// ellipsis:
/// a strong terminator; an OCR `.`/`:` after an ideograph in mostly-CJK text;
/// a quote or bracket closer right after a strong terminator or such an OCR
/// `.`; a colon in mostly-CJK text; or an ellipsis.
pub open spec fn spec_sentence_boundary(s: Seq<char>) -> bool {
    let n = spec_trim_end_len(s) as int;
    if n == 0 {
        false
    } else {
        let li = n - 1;
        let last = s[li];
        let m = spec_trim_end_len(s.take(li)) as int;
        if m == 0 {
            spec_strong_end(last) || spec_ends_with_ellipsis(s)
        } else {
            let pi = m - 1;
            let prev = s[pi];
            spec_strong_end(last)
            || ((last == '.' || last == ':') && spec_ocr_punct_at_line_end(s, li))
            || ((spec_dialog_closer(last) || spec_bracket_closer(last))
                && (spec_strong_end(prev) || (prev == '.' && spec_ocr_punct_before_closers(s, pi))))
            || (spec_colon_like(last) && spec_mostly_cjk(s))
            || spec_ends_with_ellipsis(s)
        }
    }
}

pub fn ends_with_ellipsis_chars(v: &[char]) -> (r: bool)
    ensures
        r == spec_ends_with_ellipsis(v@),
{
    match last_non_ws_index(v) {
        Some(i) => v[i] == '…' || (i >= 1 && v[i] == '.' && v[i - 1] == '.'),
        None => false,
    }
}

fn is_at_line_end_ignoring_whitespace(v: &[char], index: usize) -> (r: bool)
    ensures
        r == spec_at_line_end(v@, index as int),
{
    if index >= v.len() {
        return true;
    }
    let mut j: usize = index + 1;
    while j < v.len()
        invariant
            index < j <= v.len(),
            forall|t: int| index < t < j ==> spec_ws(#[trigger] v@[t]),
        decreases v.len() - j,
    {
        if !is_whitespace(v[j]) {
            return false;
        }
        j += 1;
    }
    true
}

fn is_at_end_allowing_closers(v: &[char], index: usize) -> (r: bool)
    ensures
        r == spec_at_end_allowing_closers(v@, index as int),
{
    if index >= v.len() {
        return true;
    }
    let mut j: usize = index + 1;
    while j < v.len()
        invariant
            index < j <= v.len(),
            forall|t: int|
                index < t < j ==> spec_ws(#[trigger] v@[t]) || spec_dialog_closer(v@[t])
                    || spec_bracket_closer(v@[t]),
        decreases v.len() - j,
    {
        let c = v[j];
        if !(is_whitespace(c) || is_dialog_closer(c) || is_bracket_closer(c)) {
            return false;
        }
        j += 1;
    }
    true
}

fn is_ocr_cjk_ascii_punct_at_line_end(v: &[char], punct_index: usize, mostly: bool) -> (r: bool)
    requires
        punct_index < v.len(),
        mostly == spec_mostly_cjk(v@),
    ensures
        r == spec_ocr_punct_at_line_end(v@, punct_index as int),
{
    punct_index > 0 && is_at_line_end_ignoring_whitespace(v, punct_index) && is_cjk_bmp(
        v[punct_index - 1],
    ) && mostly
}

fn is_ocr_cjk_ascii_punct_before_closers(v: &[char], punct_index: usize, mostly: bool) -> (r: bool)
    requires
        punct_index < v.len(),
        mostly == spec_mostly_cjk(v@),
    ensures
        r == spec_ocr_punct_before_closers(v@, punct_index as int),
{
    punct_index > 0 && is_at_end_allowing_closers(v, punct_index) && is_cjk_bmp(
        v[punct_index - 1],
    ) && mostly
}

pub fn ends_with_sentence_boundary(s: &str) -> (r: bool)
    ensures
        r == spec_sentence_boundary(s@),
{
    let v = char_vec(s);
    let li = match last_non_ws_index(&v) {
        Some(i) => i,
        None => return false,
    };
    let last = v[li];
    let pi = match last_non_ws_before(&v, li) {
        Some(p) => p,
        None => return is_strong_sentence_end(last) || ends_with_ellipsis_chars(&v),
    };
    let prev = v[pi];
    if is_strong_sentence_end(last) {
        return true;
    }
    let mostly = is_mostly_cjk(s);
    if (last == '.' || last == ':') && is_ocr_cjk_ascii_punct_at_line_end(&v, li, mostly) {
        return true;
    }
    if is_dialog_closer(last) || is_bracket_closer(last) {
        if is_strong_sentence_end(prev) {
            return true;
        }
        if prev == '.' && is_ocr_cjk_ascii_punct_before_closers(&v, pi, mostly) {
            return true;
        }
    }
    if is_colon_like(last) && mostly {
        return true;
    }
    ends_with_ellipsis_chars(&v)
}

// ----- bracket boundary -----

/// Nesting depth of `open`/`close` after reading `s`.
pub open spec fn spec_depth(s: Seq<char>, open: char, close: char) -> int
    decreases s.len(),
{
    if s.len() == 0 {
        0
    } else {
        spec_depth(s.drop_last(), open, close) + if s.last() == open {
            1int
        } else if s.last() == close {
            -1int
        } else {
            0int
        }
    }
}

/// No prefix closes more than it opened, and the whole is balanced.
pub open spec fn spec_type_balanced(s: Seq<char>, open: char, close: char) -> bool {
    &&& forall|k: int| 0 <= k <= s.len() ==> spec_depth(#[trigger] s.take(k), open, close) >= 0
    &&& spec_depth(s, open, close) == 0
}

/// The trimmed text opens with a bracket and ends with its matching closer,
/// the interior is mostly CJK, and that bracket type is balanced throughout.
pub open spec fn spec_cjk_bracket_boundary(s: Seq<char>) -> bool {
    let t = spec_trim(s);
    &&& t.len() >= 2
    &&& spec_matching_bracket(t[0], t.last())
    &&& spec_mostly_cjk(t.subrange(1, t.len() - 1))
    &&& spec_type_balanced(t, t[0], t.last())
}

fn is_bracket_type_balanced_str(s: &str, open: char, close: char) -> (r: bool)
    ensures
        r == spec_type_balanced(s@, open, close),
{
    let v = char_vec(s);
    let mut depth: usize = 0;
    let mut i: usize = 0;
    assert(spec_depth(v@.take(0), open, close) == 0);
    while i < v.len()
        invariant
            i <= v.len(),
            v@ == s@,
            depth <= i,
            depth == spec_depth(v@.take(i as int), open, close),
            forall|k: int| 0 <= k <= i ==> spec_depth(#[trigger] v@.take(k), open, close) >= 0,
        decreases v.len() - i,
    {
        let ch = v[i];
        proof {
            assert(v@.take(i + 1).drop_last() =~= v@.take(i as int));
        }
        if ch == open {
            depth += 1;
        } else if ch == close {
            if depth == 0 {
                assert(spec_depth(v@.take(i + 1), open, close) < 0);
                return false;
            }
            depth -= 1;
        }
        i += 1;
    }
    assert(v@.take(v.len() as int) =~= v@);
    depth == 0
}

pub fn ends_with_cjk_bracket_boundary(s: &str) -> (r: bool)
    ensures
        r == spec_cjk_bracket_boundary(s@),
{
    let v = char_vec(s);
    let (a, b) = trim_bounds(&v);
    if b - a < 2 {
        return false;
    }
    let t = s.substring_char(a, b);
    let open = v[a];
    let close = v[b - 1];
    assert(t@[0] == open && t@.last() == close);
    let closer = matching_closer(open);
    match closer {
        Some(c) => {
            if c != close {
                return false;
            }
        },
        None => return false,
    }
    let inner = s.substring_char(a + 1, b - 1);
    assert(inner@ =~= t@.subrange(1, t@.len() - 1));
    if !is_mostly_cjk(inner) {
        return false;
    }
    is_bracket_type_balanced_str(t, open, close)
}

} // verus!
