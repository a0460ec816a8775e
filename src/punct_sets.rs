//! Punctuation, bracket and quote sets, and the structure-safety checks built
//! on them (unclosed brackets, sentence and bracket boundaries).
use vstd::prelude::*;
pub use crate::cjk_text::{ends_with_cjk_bracket_boundary, ends_with_sentence_boundary};
use crate::text::{
    char_vec, last_non_ws_before, last_non_ws_index, spec_last_non_ws, spec_trim_end_len, spec_trim_indent, spec_ws, trim_indent,
};
use smallvec::SmallVec;

verus! {

// ----- character sets -----

/// Clause or sentence terminators, and closers that may end a logical unit.
pub open spec fn spec_clause_or_end(c: char) -> bool {
    c == '。' || c == '！' || c == '？' || c == '；' || c == '：' || c == '…' || c == '—'
        || c == '”' || c == '」' || c == '’' || c == '』' || c == '）' || c == '】' || c == '》'
        || c == '〗' || c == '〔' || c == '〕' || c == '〉' || c == '⟩' || c == '］' || c == '｝'
        || c == '＞' || c == '.' || c == '?' || c == '!'
}

pub fn is_clause_or_end_punct(ch: char) -> (r: bool)
    ensures
        r == spec_clause_or_end(ch),
{
    ch == '。' || ch == '！' || ch == '？' || ch == '；' || ch == '：' || ch == '…' || ch == '—'
        || ch == '”' || ch == '」' || ch == '’' || ch == '』' || ch == '）' || ch == '】'
        || ch == '》' || ch == '〗' || ch == '〔' || ch == '〕' || ch == '〉' || ch == '⟩'
        || ch == '］' || ch == '｝' || ch == '＞' || ch == '.' || ch == '?' || ch == '!'
}

pub open spec fn spec_dialog_opener(c: char) -> bool {
    c == '“' || c == '‘' || c == '「' || c == '『' || c == '﹁' || c == '﹃'
}

pub open spec fn spec_dialog_closer(c: char) -> bool {
    c == '”' || c == '’' || c == '」' || c == '』' || c == '﹂' || c == '﹄' || c == '〞' || c == '〟'
}

pub fn is_dialog_opener(ch: char) -> (r: bool)
    ensures
        r == spec_dialog_opener(ch),
{
    ch == '“' || ch == '‘' || ch == '「' || ch == '『' || ch == '﹁' || ch == '﹃'
}

pub fn is_dialog_closer(ch: char) -> (r: bool)
    ensures
        r == spec_dialog_closer(ch),
{
    ch == '”' || ch == '’' || ch == '」' || ch == '』' || ch == '﹂' || ch == '﹄' || ch == '〞'
        || ch == '〟'
}

/// The closer that matches a bracket opener, if `open` is one.
pub open spec fn spec_closer_of(open: char) -> Option<char> {
    if open == '（' { Some('）') }
    else if open == '(' { Some(')') }
    else if open == '［' { Some('］') }
    else if open == '[' { Some(']') }
    else if open == '｛' { Some('｝') }
    else if open == '{' { Some('}') }
    else if open == '＜' { Some('＞') }
    else if open == '<' { Some('>') }
    else if open == '⟨' { Some('⟩') }
    else if open == '〈' { Some('〉') }
    else if open == '【' { Some('】') }
    else if open == '《' { Some('》') }
    else if open == '〔' { Some('〕') }
    else if open == '〖' { Some('〗') }
    else { None }
}

pub open spec fn spec_bracket_opener(c: char) -> bool {
    spec_closer_of(c) is Some
}

pub open spec fn spec_bracket_closer(c: char) -> bool {
    c == '）' || c == ')' || c == '］' || c == ']' || c == '｝' || c == '}' || c == '＞' || c == '>'
        || c == '⟩' || c == '〉' || c == '】' || c == '》' || c == '〕' || c == '〗'
}

pub open spec fn spec_matching_bracket(open: char, close: char) -> bool {
    spec_closer_of(open) == Some(close)
}

pub fn matching_closer(open: char) -> (r: Option<char>)
    ensures
        r == spec_closer_of(open),
{
    match open {
        '（' => Some('）'),
        '(' => Some(')'),
        '［' => Some('］'),
        '[' => Some(']'),
        '｛' => Some('｝'),
        '{' => Some('}'),
        '＜' => Some('＞'),
        '<' => Some('>'),
        '⟨' => Some('⟩'),
        '〈' => Some('〉'),
        '【' => Some('】'),
        '《' => Some('》'),
        '〔' => Some('〕'),
        '〖' => Some('〗'),
        _ => None,
    }
}

pub fn is_bracket_opener(ch: char) -> (r: bool)
    ensures
        r == spec_bracket_opener(ch),
{
    matching_closer(ch).is_some()
}

pub fn is_bracket_closer(ch: char) -> (r: bool)
    ensures
        r == spec_bracket_closer(ch),
{
    ch == '）' || ch == ')' || ch == '］' || ch == ']' || ch == '｝' || ch == '}' || ch == '＞'
        || ch == '>' || ch == '⟩' || ch == '〉' || ch == '】' || ch == '》' || ch == '〕'
        || ch == '〗'
}

pub fn is_matching_bracket(open: char, close: char) -> (r: bool)
    ensures
        r == spec_matching_bracket(open, close),
{
    match matching_closer(open) {
        Some(c) => c == close,
        None => false,
    }
}

pub open spec fn spec_allowed_postfix_closer(c: char) -> bool {
    c == '）' || c == ')'
}

pub fn is_allowed_postfix_closer(ch: char) -> (r: bool)
    ensures
        r == spec_allowed_postfix_closer(ch),
{
    ch == '）' || ch == ')'
}

pub open spec fn spec_strong_end(c: char) -> bool {
    c == '。' || c == '！' || c == '？' || c == '!' || c == '?'
}

pub fn is_strong_sentence_end(ch: char) -> (r: bool)
    ensures
        r == spec_strong_end(ch),
{
    ch == '。' || ch == '！' || ch == '？' || ch == '!' || ch == '?'
}

pub open spec fn spec_comma_like(c: char) -> bool {
    c == '，' || c == ',' || c == '、'
}

pub fn is_comma_like(ch: char) -> (r: bool)
    ensures
        r == spec_comma_like(ch),
{
    ch == '，' || ch == ',' || ch == '、'
}

pub open spec fn spec_colon_like(c: char) -> bool {
    c == '：' || c == ':'
}

pub fn is_colon_like(ch: char) -> (r: bool)
    ensures
        r == spec_colon_like(ch),
{
    ch == '：' || ch == ':'
}


// ----- bracket stack -----

/// A stack of open brackets, held in a `SmallVec` with room for four inline.
#[verifier::external_body]
pub struct BracketStack {
    items: SmallVec<[char; 4]>,
}

/// The characters held by a bracket stack, bottom first.
pub uninterp spec fn stack_items(s: BracketStack) -> Seq<char>;

/// Relies on `SmallVec::new`: an empty vector.
#[verifier::external_body]
fn stack_new() -> (r: BracketStack)
    ensures
        stack_items(r) == Seq::<char>::empty(),
{
    BracketStack { items: SmallVec::new() }
}

/// Relies on `SmallVec::push`: appends at the end. It panics only when the
/// grown capacity (the next power of two) overflows or its byte size exceeds
/// `isize::MAX`; below `usize::MAX / 16` items of `char` neither happens.
#[verifier::external_body]
fn stack_push(s: &mut BracketStack, c: char)
    requires
        stack_items(*old(s)).len() < MAX_BRACKET_DEPTH,
    ensures
        stack_items(*final(s)) == stack_items(*old(s)).push(c),
{
    s.items.push(c);
}

/// Relies on `SmallVec::pop`: removes and returns the last item, `None` when empty.
#[verifier::external_body]
fn stack_pop(s: &mut BracketStack) -> (r: Option<char>)
    ensures
        stack_items(*old(s)).len() == 0 ==> r is None && stack_items(*final(s)) == stack_items(*old(s)),
        stack_items(*old(s)).len() > 0 ==> r == Some(stack_items(*old(s)).last())
            && stack_items(*final(s)) == stack_items(*old(s)).drop_last(),
{
    s.items.pop()
}

/// Relies on `SmallVec::len`: the number of items.
#[verifier::external_body]
fn stack_len(s: &BracketStack) -> (r: usize)
    ensures
        r == stack_items(*s).len(),
{
    s.items.len()
}

/// Nesting deeper than this counts as unclosed; on a 64-bit machine it is
/// 2^60, a depth no text in memory can reach.
pub const MAX_BRACKET_DEPTH: usize = usize::MAX / 16;

/// Scan for general brackets: the open stack, and whether a stray closer, a
/// mismatched closer or an absurd nesting depth was met.
pub open spec fn spec_bracket_scan(s: Seq<char>) -> (Seq<char>, bool)
    decreases s.len(),
{
    if s.len() == 0 {
        (Seq::empty(), false)
    } else {
        let (st, broken) = spec_bracket_scan(s.drop_last());
        let c = s.last();
        if broken {
            (st, true)
        } else if spec_bracket_opener(c) {
            if st.len() >= MAX_BRACKET_DEPTH { (st, true) } else { (st.push(c), false) }
        } else if spec_bracket_closer(c) {
            if st.len() == 0 {
                (st, true)
            } else if spec_matching_bracket(st.last(), c) {
                (st.drop_last(), false)
            } else {
                (st.drop_last(), true)
            }
        } else {
            (st, false)
        }
    }
}

/// Pessimistic: a stray or mismatched closer counts as unclosed, as does any
/// opener still waiting for its closer.
pub open spec fn spec_unclosed_bracket(s: Seq<char>) -> bool {
    let (st, broken) = spec_bracket_scan(s);
    broken || st.len() > 0
}

pub fn has_unclosed_bracket(s: &str) -> (r: bool)
    ensures
        r == spec_unclosed_bracket(s@),
{
    let v = crate::text::char_vec(s);
    let mut stack = stack_new();
    let mut i: usize = 0;
    while i < v.len()
        invariant
            i <= v.len(),
            v@ == s@,
            spec_bracket_scan(v@.take(i as int)) == (stack_items(stack), false),
        decreases v.len() - i,
    {
        let ch = v[i];
        proof {
            assert(v@.take(i + 1).drop_last() =~= v@.take(i as int));
        }
        if is_bracket_opener(ch) {
            if stack_len(&stack) >= MAX_BRACKET_DEPTH {
                proof { lemma_scan_stays_broken(v@, i as int + 1); }
                return true;
            }
            stack_push(&mut stack, ch);
        } else if is_bracket_closer(ch) {
            match stack_pop(&mut stack) {
                Some(open) => {
                    if !is_matching_bracket(open, ch) {
                        proof { lemma_scan_stays_broken(v@, i as int + 1); }
                        return true;
                    }
                },
                None => {
                    proof { lemma_scan_stays_broken(v@, i as int + 1); }
                    return true;
                },
            }
        }
        i += 1;
    }
    assert(v@.take(v.len() as int) =~= v@);
    stack_len(&stack) > 0
}

/// Once broken, a scan stays broken.
proof fn lemma_scan_stays_broken(s: Seq<char>, k: int)
    requires
        0 <= k <= s.len(),
        spec_bracket_scan(s.take(k)).1,
    ensures
        spec_bracket_scan(s).1,
    decreases s.len() - k,
{
    if k < s.len() {
        assert(s.take(k + 1).drop_last() =~= s.take(k));
        lemma_scan_stays_broken(s, k + 1);
    } else {
        assert(s.take(k) =~= s);
    }
}


// ----- last characters -----

/// Index (in characters) of the last non-whitespace character.
pub fn find_last_non_whitespace_char_index(s: &str) -> (r: Option<usize>)
    ensures
        spec_trim_end_len(s@) == match r {
            Some(i) => i + 1,
            None => 0,
        },
{
    let v = char_vec(s);
    last_non_ws_index(&v)
}

/// Index (in characters) of the last non-whitespace character strictly
/// before `end_exclusive`.
pub fn find_prev_non_whitespace_char_index(s: &str, end_exclusive: usize) -> (r: Option<usize>)
    ensures
        ({
            let end = if end_exclusive <= s@.len() { end_exclusive as int } else { s@.len() as int };
            spec_trim_end_len(s@.take(end)) == match r {
                Some(i) => i + 1,
                None => 0,
            }
        }),
{
    let v = char_vec(s);
    let end = if end_exclusive <= v.len() { end_exclusive } else { v.len() };
    last_non_ws_before(&v, end)
}

pub fn last_non_whitespace(s: &str) -> (r: Option<char>)
    ensures
        r == spec_last_non_ws(s@),
{
    let v = char_vec(s);
    match last_non_ws_index(&v) {
        Some(i) => Some(v[i]),
        None => None,
    }
}

/// The last non-whitespace character with its index (in characters).
pub fn last_non_whitespace_idx(s: &str) -> (r: Option<(usize, char)>)
    ensures
        spec_trim_end_len(s@) == match r {
            Some((i, _)) => i + 1,
            None => 0,
        },
        r matches Some((i, c)) ==> i < s@.len() && c == s@[i as int],
{
    let v = char_vec(s);
    match last_non_ws_index(&v) {
        Some(i) => Some((i, v[i])),
        None => None,
    }
}

/// The last two non-whitespace characters with their indexes (in characters).
pub open spec fn spec_last_two_idx(s: Seq<char>) -> Option<((int, char), (int, char))> {
    let n = spec_trim_end_len(s) as int;
    if n == 0 {
        None
    } else {
        let m = spec_trim_end_len(s.take(n - 1)) as int;
        if m == 0 {
            None
        } else {
            Some(((n - 1, s[n - 1]), (m - 1, s[m - 1])))
        }
    }
}

pub fn last_two_non_whitespace_idx(s: &str) -> (r: Option<((usize, char), (usize, char))>)
    ensures
        match r {
            Some(((li, l), (pi, p))) => spec_last_two_idx(s@) == Some(((li as int, l), (pi as int, p))),
            None => spec_last_two_idx(s@) is None,
        },
{
    let v = char_vec(s);
    match last_non_ws_index(&v) {
        Some(li) => match last_non_ws_before(&v, li) {
            Some(pi) => Some(((li, v[li]), (pi, v[pi]))),
            None => None,
        },
        None => None,
    }
}

/// The last two non-whitespace characters, last first.
pub fn last_two_non_whitespace(s: &str) -> (r: Option<(char, char)>)
    ensures
        match r {
            Some((l, p)) => spec_last_two_idx(s@) matches Some(((_, l2), (_, p2))) && l == l2 && p == p2,
            None => spec_last_two_idx(s@) is None,
        },
{
    match last_two_non_whitespace_idx(s) {
        Some(((_, l), (_, p))) => Some((l, p)),
        None => None,
    }
}

pub fn ends_with_allowed_postfix_closer(s: &str) -> (r: bool)
    ensures
        r == (spec_last_non_ws(s@) matches Some(c) && spec_allowed_postfix_closer(c)),
{
    match last_non_whitespace(s) {
        Some(c) => is_allowed_postfix_closer(c),
        None => false,
    }
}

pub fn ends_with_colon_like(s: &str) -> (r: bool)
    ensures
        r == (spec_last_non_ws(s@) matches Some(c) && spec_colon_like(c)),
{
    match last_non_whitespace(s) {
        Some(c) => is_colon_like(c),
        None => false,
    }
}

pub fn ends_with_ellipsis(s: &str) -> (r: bool)
    ensures
        r == crate::cjk_text::spec_ends_with_ellipsis(s@),
{
    let v = char_vec(s);
    crate::cjk_text::ends_with_ellipsis_chars(&v)
}

pub fn contains_any_comma_like(s: &str) -> (r: bool)
    ensures
        r == exists|i: int| 0 <= i < s@.len() && spec_comma_like(#[trigger] s@[i]),
{
    let v = char_vec(s);
    let mut i: usize = 0;
    while i < v.len()
        invariant
            i <= v.len(),
            v@ == s@,
            forall|j: int| 0 <= j < i ==> !spec_comma_like(#[trigger] v@[j]),
        decreases v.len() - i,
    {
        if is_comma_like(v[i]) {
            return true;
        }
        i += 1;
    }
    false
}

// ----- dividers and dialogue -----

/// Glyphs that make up a visual divider line.
pub open spec fn spec_divider_glyph(c: char) -> bool {
    ('\u{2500}' <= c && c <= '\u{257F}') || c == '-' || c == '=' || c == '_' || c == '~'
        || c == '～' || c == '*' || c == '＊' || c == '★' || c == '☆'
}

pub open spec fn spec_non_ws_count(s: Seq<char>) -> nat
    decreases s.len(),
{
    if s.len() == 0 {
        0
    } else {
        spec_non_ws_count(s.drop_last()) + if spec_ws(s.last()) { 0nat } else { 1nat }
    }
}

/// Every non-whitespace character is a divider glyph, and there are at least three.
pub open spec fn spec_visual_divider(s: Seq<char>) -> bool {
    &&& forall|i: int| 0 <= i < s.len() && !spec_ws(#[trigger] s[i]) ==> spec_divider_glyph(s[i])
    &&& spec_non_ws_count(s) >= 3
}

pub fn is_visual_divider_line(s: &str) -> (r: bool)
    ensures
        r == spec_visual_divider(s@),
{
    let v = char_vec(s);
    let mut total: usize = 0;
    let mut i: usize = 0;
    while i < v.len()
        invariant
            i <= v.len(),
            v@ == s@,
            total == spec_non_ws_count(v@.take(i as int)),
            total <= i,
            forall|j: int| 0 <= j < i && !spec_ws(#[trigger] v@[j]) ==> spec_divider_glyph(v@[j]),
        decreases v.len() - i,
    {
        let ch = v[i];
        proof {
            assert(v@.take(i + 1).drop_last() =~= v@.take(i as int));
        }
        if !crate::text::is_whitespace(ch) {
            total += 1;
            let glyph = ('\u{2500}' <= ch && ch <= '\u{257F}') || ch == '-' || ch == '=' || ch == '_'
                || ch == '~' || ch == '～' || ch == '*' || ch == '＊' || ch == '★' || ch == '☆';
            if !glyph {
                return false;
            }
        }
        i += 1;
    }
    assert(v@.take(v.len() as int) =~= v@);
    total >= 3
}

/// The first character after any indent is a dialogue opener.
pub open spec fn spec_begins_with_opener(s: Seq<char>) -> bool {
    let t = spec_trim_indent(s);
    t.len() > 0 && spec_dialog_opener(t[0])
}

pub fn begins_with_dialog_opener(s: &str) -> (r: bool)
    ensures
        r == spec_begins_with_opener(s@),
{
    let t = trim_indent(s);
    let v = char_vec(t);
    v.len() > 0 && is_dialog_opener(v[0])
}

} // verus!
