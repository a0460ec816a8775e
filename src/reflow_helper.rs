//! The paragraph-reflow engine: line classification, repeated-content
//! collapsing, dialogue nesting state, and the merge state machine.
use vstd::prelude::*;
use vstd::string::StrSliceExecFns;
use crate::text::{
    char_vec, is_blank, push_all, spec_all_ws, spec_last_non_ws, spec_trim, spec_trim_end,
    spec_trim_indent, spec_ws, string_of, trim_end_str, trim_indent, trim_str,
};
use crate::cjk_text::{
    is_all_cjk_ignoring_ws, is_mostly_cjk, spec_all_cjk, spec_cjk_bracket_boundary,
    spec_mixed_cjk_ascii, spec_mostly_cjk, spec_sentence_boundary,
    spec_strip_halfwidth_indent, strip_halfwidth_indent_keep_fullwidth, strip_last_char,
};
use crate::punct_sets::{
    is_bracket_closer, is_clause_or_end_punct, is_comma_like, is_matching_bracket,
    last_non_whitespace, spec_bracket_closer, spec_clause_or_end, spec_colon_like, spec_comma_like, spec_dialog_closer, spec_dialog_opener,
    spec_matching_bracket, spec_unclosed_bracket, spec_visual_divider,
};
pub use crate::punct_sets::{has_unclosed_bracket, is_dialog_closer, is_dialog_opener};
pub use crate::cjk_text::{
    ends_with_cjk_bracket_boundary, ends_with_sentence_boundary, is_all_ascii, is_all_cjk_no_ws,
    is_cjk_bmp, is_mixed_cjk_ascii,
};

verus! {

// ----- line classification -----

/// A visual divider line (box drawing, dashes, equals signs, stars, ...).
pub fn is_box_drawing_line(s: &str) -> (r: bool)
    ensures
        r == spec_visual_divider(s@),
{
    crate::punct_sets::is_visual_divider_line(s)
}

/// The line begins, after any indent, with a dialogue opener.
pub fn is_dialog_start(s: &str) -> (r: bool)
    ensures
        r == crate::punct_sets::spec_begins_with_opener(s@),
{
    crate::punct_sets::begins_with_dialog_opener(s)
}

/// A page marker written by the extraction stage: `=== ` at the start and
/// `===` at the end.
pub open spec fn spec_page_marker(s: Seq<char>) -> bool {
    &&& s.len() >= 4
    &&& s[0] == '=' && s[1] == '=' && s[2] == '=' && s[3] == ' '
    &&& s[s.len() - 1] == '=' && s[s.len() - 2] == '=' && s[s.len() - 3] == '='
}

pub fn is_page_marker(s: &str) -> (r: bool)
    ensures
        r == spec_page_marker(s@),
{
    let v = char_vec(s);
    let n = v.len();
    n >= 4 && v[0] == '=' && v[1] == '=' && v[2] == '=' && v[3] == ' ' && v[n - 1] == '='
        && v[n - 2] == '=' && v[n - 3] == '='
}

/// Separators between a metadata key and its value: full-width colon, ASCII
/// colon, ideographic space.
pub open spec fn spec_metadata_sep(c: char) -> bool {
    c == '：' || c == ':' || c == '\u{3000}'
}

/// The known metadata key labels (title, author, translator, publisher,
/// copyright, editor, price, ebook and cataloguing fields, ISBN, ...).
pub open spec fn spec_metadata_key(k: Seq<char>) -> bool {
    (k.len() == 2 && k[0] == '書' && k[1] == '名')
        || (k.len() == 2 && k[0] == '书' && k[1] == '名')
        || (k.len() == 2 && k[0] == '作' && k[1] == '者')
        || (k.len() == 2 && k[0] == '譯' && k[1] == '者')
        || (k.len() == 2 && k[0] == '译' && k[1] == '者')
        || (k.len() == 2 && k[0] == '校' && k[1] == '訂')
        || (k.len() == 2 && k[0] == '校' && k[1] == '订')
        || (k.len() == 3 && k[0] == '出' && k[1] == '版' && k[2] == '社')
        || (k.len() == 4 && k[0] == '出' && k[1] == '版' && k[2] == '時' && k[3] == '間')
        || (k.len() == 4 && k[0] == '出' && k[1] == '版' && k[2] == '时' && k[3] == '间')
        || (k.len() == 4 && k[0] == '出' && k[1] == '版' && k[2] == '日' && k[3] == '期')
        || (k.len() == 2 && k[0] == '版' && k[1] == '權')
        || (k.len() == 2 && k[0] == '版' && k[1] == '权')
        || (k.len() == 3 && k[0] == '版' && k[1] == '權' && k[2] == '頁')
        || (k.len() == 3 && k[0] == '版' && k[1] == '权' && k[2] == '页')
        || (k.len() == 4 && k[0] == '版' && k[1] == '權' && k[2] == '信' && k[3] == '息')
        || (k.len() == 4 && k[0] == '版' && k[1] == '权' && k[2] == '信' && k[3] == '息')
        || (k.len() == 4 && k[0] == '責' && k[1] == '任' && k[2] == '編' && k[3] == '輯')
        || (k.len() == 4 && k[0] == '责' && k[1] == '任' && k[2] == '编' && k[3] == '辑')
        || (k.len() == 2 && k[0] == '編' && k[1] == '輯')
        || (k.len() == 2 && k[0] == '编' && k[1] == '辑')
        || (k.len() == 2 && k[0] == '責' && k[1] == '編')
        || (k.len() == 2 && k[0] == '责' && k[1] == '编')
        || (k.len() == 2 && k[0] == '定' && k[1] == '價')
        || (k.len() == 2 && k[0] == '定' && k[1] == '价')
        || (k.len() == 2 && k[0] == '前' && k[1] == '言')
        || (k.len() == 2 && k[0] == '序' && k[1] == '章')
        || (k.len() == 2 && k[0] == '終' && k[1] == '章')
        || (k.len() == 2 && k[0] == '终' && k[1] == '章')
        || (k.len() == 2 && k[0] == '尾' && k[1] == '聲')
        || (k.len() == 2 && k[0] == '尾' && k[1] == '声')
        || (k.len() == 2 && k[0] == '後' && k[1] == '記')
        || (k.len() == 2 && k[0] == '后' && k[1] == '记')
        || (k.len() == 3 && k[0] == '品' && k[1] == '牌' && k[2] == '方')
        || (k.len() == 3 && k[0] == '出' && k[1] == '品' && k[2] == '方')
        || (k.len() == 3 && k[0] == '授' && k[1] == '權' && k[2] == '方')
        || (k.len() == 3 && k[0] == '授' && k[1] == '权' && k[2] == '方')
        || (k.len() == 4 && k[0] == '電' && k[1] == '子' && k[2] == '版' && k[3] == '權')
        || (k.len() == 4 && k[0] == '数' && k[1] == '字' && k[2] == '版' && k[3] == '权')
        || (k.len() == 2 && k[0] == '掃' && k[1] == '描')
        || (k.len() == 2 && k[0] == '扫' && k[1] == '描')
        || (k.len() == 3 && k[0] == 'O' && k[1] == 'C' && k[2] == 'R')
        || (k.len() == 3 && k[0] == 'C' && k[1] == 'I' && k[2] == 'P')
        || (k.len() == 4 && k[0] == '在' && k[1] == '版' && k[2] == '編' && k[3] == '目')
        || (k.len() == 4 && k[0] == '在' && k[1] == '版' && k[2] == '编' && k[3] == '目')
        || (k.len() == 3 && k[0] == '分' && k[1] == '類' && k[2] == '號')
        || (k.len() == 3 && k[0] == '分' && k[1] == '类' && k[2] == '号')
        || (k.len() == 3 && k[0] == '主' && k[1] == '題' && k[2] == '詞')
        || (k.len() == 3 && k[0] == '主' && k[1] == '题' && k[2] == '词')
        || (k.len() == 3 && k[0] == '發' && k[1] == '行' && k[2] == '日')
        || (k.len() == 3 && k[0] == '发' && k[1] == '行' && k[2] == '日')
        || (k.len() == 2 && k[0] == '初' && k[1] == '版')
        || (k.len() == 4 && k[0] == 'I' && k[1] == 'S' && k[2] == 'B' && k[3] == 'N')
}

fn is_metadata_key(k: &[char]) -> (r: bool)
    ensures
        r == spec_metadata_key(k@),
{
    (k.len() == 2 && k[0] == '書' && k[1] == '名')
        || (k.len() == 2 && k[0] == '书' && k[1] == '名')
        || (k.len() == 2 && k[0] == '作' && k[1] == '者')
        || (k.len() == 2 && k[0] == '譯' && k[1] == '者')
        || (k.len() == 2 && k[0] == '译' && k[1] == '者')
        || (k.len() == 2 && k[0] == '校' && k[1] == '訂')
        || (k.len() == 2 && k[0] == '校' && k[1] == '订')
        || (k.len() == 3 && k[0] == '出' && k[1] == '版' && k[2] == '社')
        || (k.len() == 4 && k[0] == '出' && k[1] == '版' && k[2] == '時' && k[3] == '間')
        || (k.len() == 4 && k[0] == '出' && k[1] == '版' && k[2] == '时' && k[3] == '间')
        || (k.len() == 4 && k[0] == '出' && k[1] == '版' && k[2] == '日' && k[3] == '期')
        || (k.len() == 2 && k[0] == '版' && k[1] == '權')
        || (k.len() == 2 && k[0] == '版' && k[1] == '权')
        || (k.len() == 3 && k[0] == '版' && k[1] == '權' && k[2] == '頁')
        || (k.len() == 3 && k[0] == '版' && k[1] == '权' && k[2] == '页')
        || (k.len() == 4 && k[0] == '版' && k[1] == '權' && k[2] == '信' && k[3] == '息')
        || (k.len() == 4 && k[0] == '版' && k[1] == '权' && k[2] == '信' && k[3] == '息')
        || (k.len() == 4 && k[0] == '責' && k[1] == '任' && k[2] == '編' && k[3] == '輯')
        || (k.len() == 4 && k[0] == '责' && k[1] == '任' && k[2] == '编' && k[3] == '辑')
        || (k.len() == 2 && k[0] == '編' && k[1] == '輯')
        || (k.len() == 2 && k[0] == '编' && k[1] == '辑')
        || (k.len() == 2 && k[0] == '責' && k[1] == '編')
        || (k.len() == 2 && k[0] == '责' && k[1] == '编')
        || (k.len() == 2 && k[0] == '定' && k[1] == '價')
        || (k.len() == 2 && k[0] == '定' && k[1] == '价')
        || (k.len() == 2 && k[0] == '前' && k[1] == '言')
        || (k.len() == 2 && k[0] == '序' && k[1] == '章')
        || (k.len() == 2 && k[0] == '終' && k[1] == '章')
        || (k.len() == 2 && k[0] == '终' && k[1] == '章')
        || (k.len() == 2 && k[0] == '尾' && k[1] == '聲')
        || (k.len() == 2 && k[0] == '尾' && k[1] == '声')
        || (k.len() == 2 && k[0] == '後' && k[1] == '記')
        || (k.len() == 2 && k[0] == '后' && k[1] == '记')
        || (k.len() == 3 && k[0] == '品' && k[1] == '牌' && k[2] == '方')
        || (k.len() == 3 && k[0] == '出' && k[1] == '品' && k[2] == '方')
        || (k.len() == 3 && k[0] == '授' && k[1] == '權' && k[2] == '方')
        || (k.len() == 3 && k[0] == '授' && k[1] == '权' && k[2] == '方')
        || (k.len() == 4 && k[0] == '電' && k[1] == '子' && k[2] == '版' && k[3] == '權')
        || (k.len() == 4 && k[0] == '数' && k[1] == '字' && k[2] == '版' && k[3] == '权')
        || (k.len() == 2 && k[0] == '掃' && k[1] == '描')
        || (k.len() == 2 && k[0] == '扫' && k[1] == '描')
        || (k.len() == 3 && k[0] == 'O' && k[1] == 'C' && k[2] == 'R')
        || (k.len() == 3 && k[0] == 'C' && k[1] == 'I' && k[2] == 'P')
        || (k.len() == 4 && k[0] == '在' && k[1] == '版' && k[2] == '編' && k[3] == '目')
        || (k.len() == 4 && k[0] == '在' && k[1] == '版' && k[2] == '编' && k[3] == '目')
        || (k.len() == 3 && k[0] == '分' && k[1] == '類' && k[2] == '號')
        || (k.len() == 3 && k[0] == '分' && k[1] == '类' && k[2] == '号')
        || (k.len() == 3 && k[0] == '主' && k[1] == '題' && k[2] == '詞')
        || (k.len() == 3 && k[0] == '主' && k[1] == '题' && k[2] == '词')
        || (k.len() == 3 && k[0] == '發' && k[1] == '行' && k[2] == '日')
        || (k.len() == 3 && k[0] == '发' && k[1] == '行' && k[2] == '日')
        || (k.len() == 2 && k[0] == '初' && k[1] == '版')
        || (k.len() == 4 && k[0] == 'I' && k[1] == 'S' && k[2] == 'B' && k[3] == 'N')
}

/// Starts with a heading keyword (preface, prologue, finale, epilogue, afterword).
pub open spec fn spec_heading_keyword_prefix(s: Seq<char>) -> bool {
    (s.len() >= 2 && s[0] == '前' && s[1] == '言')
        || (s.len() >= 2 && s[0] == '序' && s[1] == '章')
        || (s.len() >= 2 && s[0] == '终' && s[1] == '章')
        || (s.len() >= 2 && s[0] == '尾' && s[1] == '声')
        || (s.len() >= 2 && s[0] == '后' && s[1] == '记')
        || (s.len() >= 2 && s[0] == '尾' && s[1] == '聲')
        || (s.len() >= 2 && s[0] == '後' && s[1] == '記')
}

fn starts_with_heading_keyword(s: &[char]) -> (r: bool)
    ensures
        r == spec_heading_keyword_prefix(s@),
{
    (s.len() >= 2 && s[0] == '前' && s[1] == '言')
        || (s.len() >= 2 && s[0] == '序' && s[1] == '章')
        || (s.len() >= 2 && s[0] == '终' && s[1] == '章')
        || (s.len() >= 2 && s[0] == '尾' && s[1] == '声')
        || (s.len() >= 2 && s[0] == '后' && s[1] == '记')
        || (s.len() >= 2 && s[0] == '尾' && s[1] == '聲')
        || (s.len() >= 2 && s[0] == '後' && s[1] == '記')
}

/// A compact key/value line: at most 30 characters once trimmed; its first
/// separator stands at a position from 1 to 10; the trimmed text before it is
/// a known key; and the first non-whitespace character after it exists and
/// is not a dialogue opener.
pub open spec fn spec_metadata(line: Seq<char>) -> bool {
    let s = spec_trim(line);
    &&& s.len() > 0
    &&& s.len() <= 30
    &&& exists|k: int|
        #![trigger spec_metadata_sep(s[k])]
        1 <= k <= 10 && k < s.len() && spec_metadata_sep(s[k])
            && (forall|j: int| 0 <= j < k ==> !spec_metadata_sep(#[trigger] s[j]))
            && spec_metadata_key(spec_trim(s.take(k)))
            && spec_trim(s.skip(k + 1)).len() > 0
            && !spec_dialog_opener(spec_trim(s.skip(k + 1))[0])
}

pub fn is_metadata_line(line: &str) -> (r: bool)
    ensures
        r == spec_metadata(line@),
{
    let s = trim_str(line);
    let v = char_vec(s);
    let n = v.len();
    if n == 0 || n > 30 {
        return false;
    }
    let mut k: usize = 0;
    while k < n && !(v[k] == '：' || v[k] == ':' || v[k] == '\u{3000}')
        invariant
            k <= n == v.len(),
            v@ == s@,
            forall|j: int| 0 <= j < k ==> !spec_metadata_sep(#[trigger] v@[j]),
        decreases n - k,
    {
        k += 1;
    }
    if k == n || k == 0 || k > 10 {
        proof {
            assert forall|k2: int|
                1 <= k2 <= 10 && k2 < s@.len() && spec_metadata_sep(s@[k2]) implies
                !(forall|j: int| 0 <= j < k2 ==> !spec_metadata_sep(#[trigger] s@[j])) by {
                if k2 > k {
                    assert(spec_metadata_sep(s@[k as int]));
                }
            }
        }
        return false;
    }
    let key_str = s.substring_char(0, k);
    let key = trim_str(key_str);
    let kv = char_vec(key);
    let rest = trim_str(s.substring_char(k + 1, n));
    let rv = char_vec(rest);
    let ok = is_metadata_key(&kv) && rv.len() > 0 && !crate::punct_sets::is_dialog_opener(rv[0]);
    proof {
        assert(s@.skip(k + 1) =~= s@.subrange(k + 1, n as int));
        assert forall|k2: int|
            1 <= k2 <= 10 && k2 < s@.len() && spec_metadata_sep(s@[k2])
                && (forall|j: int| 0 <= j < k2 ==> !spec_metadata_sep(#[trigger] s@[j])) implies k2 == k by {
            if k2 > k {
                assert(spec_metadata_sep(s@[k as int]));
            }
        }
        if ok {
            assert(spec_metadata_sep(s@[k as int]));
        }
    }
    ok
}

/// Characters that mark a line as a sentence rather than a title.
pub open spec fn spec_heading_reject(c: char) -> bool {
    c == '，' || c == ',' || c == '。' || c == '！' || c == '？' || c == '；'
}

pub open spec fn spec_chapter_marker(c: char) -> bool {
    c == '章' || c == '节' || c == '部' || c == '卷' || c == '節' || c == '回'
}

fn is_chapter_marker(c: char) -> (r: bool)
    ensures
        r == spec_chapter_marker(c),
{
    c == '章' || c == '节' || c == '部' || c == '卷' || c == '節' || c == '回'
}

pub open spec fn spec_cjk_numeral(c: char) -> bool {
    c == '一' || c == '二' || c == '三' || c == '四' || c == '五' || c == '六' || c == '七'
        || c == '八' || c == '九' || c == '十'
}

/// The marker is followed by 分 or 合 (a sub-volume or an omnibus).
pub open spec fn spec_invalid_after(s: Seq<char>, j: int) -> bool {
    j + 1 < s.len() && (s[j + 1] == '分' || s[j + 1] == '合')
}

/// A chapter marker at `j`, within six characters after a 第 at `i` that
/// stands among the first eleven characters, and either followed by 分/合 or
/// with at most 20 characters after it.
pub open spec fn spec_marker_hit(s: Seq<char>, i: int, j: int) -> bool {
    &&& 0 <= i <= 10
    &&& i < j <= i + 6
    &&& j < s.len()
    &&& s[i] == '第'
    &&& spec_chapter_marker(s[j])
    &&& (spec_invalid_after(s, j) || s.len() - (j + 1) <= 20)
}

/// The first hit (by 第 position, then marker position) decides: a 第…章
/// heading unless 分/合 follows the marker.
pub open spec fn spec_chapter_pattern(s: Seq<char>) -> bool {
    exists|i: int, j: int|
        #![trigger spec_marker_hit(s, i, j)]
        spec_marker_hit(s, i, j) && !spec_invalid_after(s, j) && (forall|i2: int, j2: int|
            #![trigger spec_marker_hit(s, i2, j2)]
            spec_marker_hit(s, i2, j2) ==> (i < i2 || (i == i2 && j <= j2)))
}

/// Strong title heading: non-empty once trimmed, at most 50 characters, no
/// sentence punctuation; and a heading keyword prefix, or 番外 with at most 15
/// characters after it, or 卷/章 followed by a CJK numeral within 17
/// characters, or the 第…章 pattern.
pub open spec fn spec_title_heading(line: Seq<char>) -> bool {
    let s = spec_trim(line);
    &&& s.len() > 0
    &&& s.len() <= 50
    &&& forall|i: int| 0 <= i < s.len() ==> !spec_heading_reject(#[trigger] s[i])
    &&& {
        ||| spec_heading_keyword_prefix(s)
        ||| (s.len() >= 2 && s[0] == '番' && s[1] == '外' && s.len() - 2 <= 15)
        ||| (s.len() >= 2 && (s[0] == '卷' || s[0] == '章') && spec_cjk_numeral(s[1]) && s.len() <= 17)
        ||| spec_chapter_pattern(s)
    }
}

fn chapter_pattern(v: &[char]) -> (r: bool)
    ensures
        r == spec_chapter_pattern(v@),
{
    let n = v.len();
    let mut i: usize = 0;
    while i < n && i <= 10
        invariant
            i <= n == v.len(),
            forall|i2: int, j2: int| 0 <= i2 < i ==> !#[trigger] spec_marker_hit(v@, i2, j2),
        decreases n - i,
    {
        if v[i] == '第' {
            let mut j: usize = i + 1;
            while j < n && j <= i + 6
                invariant
                    i < j <= n == v.len(),
                    i <= 10,
                    v@[i as int] == '第',
                    forall|i2: int, j2: int| 0 <= i2 < i ==> !#[trigger] spec_marker_hit(v@, i2, j2),
                    forall|j2: int| j2 < j ==> !#[trigger] spec_marker_hit(v@, i as int, j2),
                decreases n - j,
            {
                if is_chapter_marker(v[j]) {
                    let invalid = j + 1 < n && (v[j + 1] == '分' || v[j + 1] == '合');
                    if invalid {
                        assert(spec_marker_hit(v@, i as int, j as int));
                        return false;
                    }
                    if n - (j + 1) <= 20 {
                        assert(spec_marker_hit(v@, i as int, j as int));
                        return true;
                    }
                }
                j += 1;
            }
        }
        i += 1;
    }
    false
}

pub fn is_title_heading_line(s: &str) -> (r: bool)
    ensures
        r == spec_title_heading(s@),
{
    let t = trim_str(s);
    let v = char_vec(t);
    let n = v.len();
    if n == 0 || n > 50 {
        return false;
    }
    let mut i: usize = 0;
    while i < n
        invariant
            i <= n == v.len(),
            v@ == spec_trim(s@),
            forall|j: int| 0 <= j < i ==> !spec_heading_reject(#[trigger] v@[j]),
        decreases n - i,
    {
        let c = v[i];
        if c == '，' || c == ',' || c == '。' || c == '！' || c == '？' || c == '；' {
            assert(spec_heading_reject(spec_trim(s@)[i as int]));
            return false;
        }
        i += 1;
    }
    if starts_with_heading_keyword(&v) {
        return true;
    }
    if n >= 2 && v[0] == '番' && v[1] == '外' && n - 2 <= 15 {
        return true;
    }
    if n >= 2 && (v[0] == '卷' || v[0] == '章') && n <= 17 {
        let c = v[1];
        if c == '一' || c == '二' || c == '三' || c == '四' || c == '五' || c == '六' || c == '七'
            || c == '八' || c == '九' || c == '十' {
            return true;
        }
    }
    chapter_pattern(&v)
}

/// Closing brackets that may trail a chapter marker, as in 第十章】.
pub open spec fn spec_chapter_trail(c: char) -> bool {
    c == '】' || c == '》' || c == '〗' || c == '〕' || c == '〉' || c == '」' || c == '』'
        || c == '）' || c == '］' || c == '＞' || c == '⟩'
}

/// `s` without its trailing run of chapter trail brackets.
pub open spec fn spec_strip_trail(s: Seq<char>) -> Seq<char>
    decreases s.len(),
{
    if s.len() > 0 && spec_chapter_trail(s.last()) {
        spec_strip_trail(s.drop_last())
    } else {
        s
    }
}

/// At most 15 characters once trimmed, and the last character before any
/// trailing closing brackets is a chapter marker.
pub open spec fn spec_chapter_ending(line: Seq<char>) -> bool {
    let s = spec_trim(line);
    let t = spec_strip_trail(s);
    &&& s.len() > 0
    &&& s.len() <= 15
    &&& t.len() > 0
    &&& spec_chapter_marker(t.last())
}

pub fn is_chapter_ending_line(s: &str) -> (r: bool)
    ensures
        r == spec_chapter_ending(s@),
{
    let t = trim_str(s);
    let v = char_vec(t);
    let n = v.len();
    if n == 0 || n > 15 {
        return false;
    }
    let mut k: usize = n;
    assert(v@.take(n as int) =~= v@);
    while k > 0 && (v[k - 1] == '】' || v[k - 1] == '》' || v[k - 1] == '〗' || v[k - 1] == '〕'
        || v[k - 1] == '〉' || v[k - 1] == '」' || v[k - 1] == '』' || v[k - 1] == '）'
        || v[k - 1] == '］' || v[k - 1] == '＞' || v[k - 1] == '⟩')
        invariant
            k <= n == v.len(),
            spec_strip_trail(v@) == spec_strip_trail(v@.take(k as int)),
        decreases k,
    {
        proof {
            assert(v@.take(k as int).drop_last() =~= v@.take(k - 1));
        }
        k -= 1;
    }
    proof {
        assert(v@.take(n as int) =~= v@);
        if k > 0 {
            assert(v@.take(k as int).last() == v@[k - 1]);
        }
    }
    k > 0 && is_chapter_marker(v[k - 1])
}

/// Length limit of a short heading: 16 for ASCII or mixed CJK/ASCII lines, else 8.
pub open spec fn spec_heading_max_len(s: Seq<char>) -> int {
    if crate::cjk_text::spec_all_ascii(s) || spec_mixed_cjk_ascii(s) {
        16
    } else {
        8
    }
}

/// A short label: all ASCII digits, or holding a non-ASCII character, or
/// pure ASCII with a letter.
pub open spec fn spec_short_label(s: Seq<char>) -> bool {
    ||| forall|i: int| 0 <= i < s.len() ==> '0' <= #[trigger] s[i] && s[i] <= '9'
    ||| exists|i: int| 0 <= i < s.len() && #[trigger] s[i] > '\u{7f}'
    ||| (crate::cjk_text::spec_all_ascii(s) && exists|i: int|
        0 <= i < s.len() && crate::cjk_text::spec_ascii_letter(#[trigger] s[i]))
}

/// Short heading-like line (judged on the trimmed text): not a page marker
/// and no unclosed bracket; wrapped in one matching bracket pair around a
/// mostly-CJK interior; or a pure-CJK label ending in a colon; otherwise no
/// terminator at the end, no comma anywhere, within the length limit, no
/// clause punctuation at all, and a short label.
pub open spec fn spec_heading_like(line: Seq<char>) -> bool {
    let s = spec_trim(line);
    let n = s.len() as int;
    let max = spec_heading_max_len(s);
    if n == 0 || spec_page_marker(s) || spec_unclosed_bracket(s) {
        false
    } else if n >= 2 && spec_matching_bracket(s[0], s[n - 1]) && spec_mostly_cjk(
        s.subrange(1, n - 1),
    ) {
        true
    } else if spec_colon_like(s[n - 1]) && n < max && spec_all_cjk(s.drop_last(), false) {
        true
    } else if spec_clause_or_end(s[n - 1]) {
        false
    } else if exists|i: int| 0 <= i < n && spec_comma_like(#[trigger] s[i]) {
        false
    } else if n <= max {
        (forall|i: int| 0 <= i < n ==> !spec_clause_or_end(#[trigger] s[i])) && spec_short_label(s)
    } else {
        false
    }
}

fn short_label(v: &[char]) -> (r: bool)
    ensures
        r == spec_short_label(v@),
{
    let mut has_non_ascii = false;
    let mut has_letter = false;
    let mut all_digits = true;
    let mut i: usize = 0;
    while i < v.len()
        invariant
            i <= v.len(),
            has_non_ascii == exists|j: int| 0 <= j < i && #[trigger] v@[j] > '\u{7f}',
            has_letter == exists|j: int|
                0 <= j < i && crate::cjk_text::spec_ascii_letter(#[trigger] v@[j]),
            all_digits == forall|j: int| 0 <= j < i ==> '0' <= #[trigger] v@[j] && v@[j] <= '9',
        decreases v.len() - i,
    {
        let ch = v[i];
        if ch > '\u{7f}' {
            has_non_ascii = true;
        }
        if !('0' <= ch && ch <= '9') {
            all_digits = false;
        }
        if ('A' <= ch && ch <= 'Z') || ('a' <= ch && ch <= 'z') {
            has_letter = true;
        }
        i += 1;
    }
    all_digits || has_non_ascii || (!has_non_ascii && has_letter)
}

fn contains_clause_or_end(v: &[char]) -> (r: bool)
    ensures
        r == exists|i: int| 0 <= i < v@.len() && spec_clause_or_end(#[trigger] v@[i]),
{
    let mut i: usize = 0;
    while i < v.len()
        invariant
            i <= v.len(),
            forall|j: int| 0 <= j < i ==> !spec_clause_or_end(#[trigger] v@[j]),
        decreases v.len() - i,
    {
        if is_clause_or_end_punct(v[i]) {
            return true;
        }
        i += 1;
    }
    false
}

pub fn is_heading_like(line: &str) -> (r: bool)
    ensures
        r == spec_heading_like(line@),
{
    let s = trim_str(line);
    let v = char_vec(s);
    let n = v.len();
    if n == 0 || is_page_marker(s) || has_unclosed_bracket(s) {
        return false;
    }
    if n >= 2 && is_matching_bracket(v[0], v[n - 1]) {
        let inner = s.substring_char(1, n - 1);
        if is_mostly_cjk(inner) {
            return true;
        }
    }
    let max: usize = if is_all_ascii(s) || is_mixed_cjk_ascii(s) { 16 } else { 8 };
    let last = v[n - 1];
    if (last == '：' || last == ':') && n < max {
        let body = strip_last_char(s);
        if is_all_cjk_no_ws(body) {
            return true;
        }
    }
    if is_clause_or_end_punct(last) {
        return false;
    }
    if crate::punct_sets::contains_any_comma_like(s) {
        return false;
    }
    if n <= max {
        !contains_clause_or_end(&v) && short_label(&v)
    } else {
        false
    }
}

// ----- repeated-content collapsing -----

/// The whitespace-separated words of `s`, in order.
pub open spec fn spec_words(s: Seq<char>) -> Seq<Seq<char>>
    decreases s.len(),
{
    if s.len() == 0 {
        Seq::empty()
    } else {
        let w = spec_words(s.drop_last());
        let c = s.last();
        if spec_ws(c) {
            w
        } else if s.len() >= 2 && !spec_ws(s[s.len() - 2]) {
            w.drop_last().push(w.last().push(c))
        } else {
            w.push(seq![c])
        }
    }
}

pub open spec fn spec_views(v: Seq<String>) -> Seq<Seq<char>> {
    v.map_values(|w: String| w@)
}

/// `parts` joined with `sep` between neighbours.
pub open spec fn spec_join(parts: Seq<Seq<char>>, sep: Seq<char>) -> Seq<char>
    decreases parts.len(),
{
    if parts.len() == 0 {
        Seq::empty()
    } else if parts.len() == 1 {
        parts[0]
    } else {
        spec_join(parts.drop_last(), sep) + sep + parts.last()
    }
}

/// Splits `s` at whitespace into its words.
pub fn split_words(s: &str) -> (r: Vec<String>)
    ensures
        spec_views(r@) == spec_words(s@),
{
    let v = char_vec(s);
    let mut words: Vec<String> = Vec::new();
    let mut cur = String::new();
    let mut in_word = false;
    let mut i: usize = 0;
    while i < v.len()
        invariant
            i <= v.len(),
            v@ == s@,
            in_word == (i > 0 && !spec_ws(v@[i - 1])),
            !in_word ==> spec_views(words@) == spec_words(v@.take(i as int)),
            in_word ==> spec_views(words@).push(cur@) == spec_words(v@.take(i as int)),
        decreases v.len() - i,
    {
        let c = v[i];
        let ghost prev = v@.take(i as int);
        proof {
            assert(v@.take(i + 1).drop_last() =~= prev);
            assert(v@.take(i + 1).last() == c);
        }
        if crate::text::is_whitespace(c) {
            if in_word {
                let ghost old_words = words@;
                let ghost old_cur = cur@;
                words.push(cur);
                cur = String::new();
                proof {
                    assert(spec_views(words@) =~= spec_views(old_words).push(old_cur));
                }
            }
            in_word = false;
        } else {
            if in_word {
                crate::text::push_char(&mut cur, c);
                proof {
                    assert(v@.take(i + 1)[i - 1] == v@[i - 1]);
                }
            } else {
                cur = String::new();
                crate::text::push_char(&mut cur, c);
                assert(cur@ =~= seq![c]);
            }
            in_word = true;
        }
        i += 1;
    }
    if in_word {
        let ghost old_words = words@;
        let ghost old_cur = cur@;
        words.push(cur);
        assert(spec_views(words@) =~= spec_views(old_words).push(old_cur));
    }
    assert(v@.take(v.len() as int) =~= v@);
    words
}

/// End of the run of blocks `p[pos..pos + len]` equal to `p[start..start + len]`.
pub open spec fn spec_run_end(p: Seq<Seq<char>>, start: int, len: int, pos: int) -> int
    decreases p.len() - pos,
{
    if 1 <= len && 0 <= start && start + len <= p.len() && start <= pos && pos + len <= p.len()
        && p.subrange(pos, pos + len) == p.subrange(start, start + len) {
        spec_run_end(p, start, len, pos + len)
    } else {
        pos
    }
}

/// First phrase (by start, then length from 1 to 8, from `(start, len)` on)
/// that repeats at least three times in a row.
pub open spec fn spec_first_phrase(p: Seq<Seq<char>>, start: int, len: int) -> Option<(int, int)>
    decreases p.len() - start, 9 - len,
{
    if start < 0 || start >= p.len() || len < 1 {
        None
    } else if len > 8 || start + len > p.len() {
        spec_first_phrase(p, start + 1, 1)
    } else if spec_run_end(p, start, len, start + len) >= start + 3 * len {
        Some((start, len))
    } else {
        spec_first_phrase(p, start, len + 1)
    }
}

/// The first phrase of 1 to 8 words that repeats three or more times in a
/// row is kept once; everything else stays.
pub open spec fn spec_collapse_words(p: Seq<Seq<char>>) -> Seq<Seq<char>> {
    match spec_first_phrase(p, 0, 1) {
        Some((st, ln)) => p.take(st) + p.subrange(st, st + ln) + p.skip(
            spec_run_end(p, st, ln, st + ln),
        ),
        None => p,
    }
}

fn push_clone(out: &mut Vec<String>, parts: &[String], i: usize)
    requires
        i < parts.len(),
    ensures
        spec_views(final(out)@) == spec_views(old(out)@).push(parts@[i as int]@),
{
    let w = parts[i].clone();
    let ghost before = out@;
    out.push(w);
    assert(spec_views(out@) =~= spec_views(before).push(parts@[i as int]@));
}

fn blocks_equal(parts: &[String], a: usize, b: usize, len: usize) -> (r: bool)
    requires
        a + len <= parts.len(),
        b + len <= parts.len(),
    ensures
        r == (spec_views(parts@).subrange(a as int, a + len) == spec_views(parts@).subrange(
            b as int,
            b + len,
        )),
{
    let ghost p = spec_views(parts@);
    let ghost pa = p.subrange(a as int, a + len);
    let ghost pb = p.subrange(b as int, b + len);
    let mut k: usize = 0;
    while k < len
        invariant
            k <= len,
            a + len <= parts.len(),
            b + len <= parts.len(),
            p == spec_views(parts@),
            pa == p.subrange(a as int, a + len),
            pb == p.subrange(b as int, b + len),
            forall|j: int| 0 <= j < k ==> #[trigger] pa[j] == pb[j],
        decreases len - k,
    {
        if parts[a + k] != parts[b + k] {
            proof {
                assert(p.subrange(a as int, a + len)[k as int] != p.subrange(b as int, b + len)[k as int]);
            }
            return false;
        }
        k += 1;
    }
    proof {
        assert(p.subrange(a as int, a + len) =~= p.subrange(b as int, b + len));
    }
    true
}

fn run_end(parts: &[String], start: usize, len: usize) -> (r: usize)
    requires
        1 <= len,
        start + len <= parts.len(),
    ensures
        r == spec_run_end(spec_views(parts@), start as int, len as int, start + len),
        start + len <= r <= parts.len(),
{
    let ghost p = spec_views(parts@);
    let mut pos: usize = start + len;
    while len <= parts.len() - pos && blocks_equal(parts, start, pos, len)
        invariant
            1 <= len,
            start + len <= pos <= parts.len(),
            p == spec_views(parts@),
            p.len() == parts.len(),
            spec_run_end(p, start as int, len as int, start + len) == spec_run_end(
                p,
                start as int,
                len as int,
                pos as int,
            ),
        decreases parts.len() - pos,
    {
        pos = pos + len;
    }
    pos
}

pub fn collapse_repeated_word_sequences(parts: &[String]) -> (r: Vec<String>)
    ensures
        spec_views(r@) == spec_collapse_words(spec_views(parts@)),
{
    let ghost p = spec_views(parts@);
    let n = parts.len();
    let mut start: usize = 0;
    while start < n
        invariant
            start <= n == parts.len() == p.len(),
            p == spec_views(parts@),
            spec_first_phrase(p, 0, 1) == spec_first_phrase(p, start as int, 1),
        decreases n - start,
    {
        let mut len: usize = 1;
        while len <= 8 && len <= n - start
            invariant
                start < n == parts.len() == p.len(),
                1 <= len <= 9,
                p == spec_views(parts@),
                spec_first_phrase(p, 0, 1) == spec_first_phrase(p, start as int, len as int),
            decreases 9 - len,
        {
            let end = run_end(parts, start, len);
            if end - start >= 3 * len {
                let mut result: Vec<String> = Vec::new();
                let mut i: usize = 0;
                while i < start + len
                    invariant
                        i <= start + len <= n == parts.len(),
                        p == spec_views(parts@),
                        spec_views(result@) == p.take(i as int),
                    decreases start + len - i,
                {
                    push_clone(&mut result, parts, i);
                    proof {
                        assert(spec_views(result@) =~= p.take(i + 1));
                    }
                    i += 1;
                }
                let mut t: usize = end;
                while t < n
                    invariant
                        end <= t <= n == parts.len(),
                        p == spec_views(parts@),
                        spec_views(result@) == p.take((start + len) as int) + p.subrange(
                            end as int,
                            t as int,
                        ),
                    decreases n - t,
                {
                    push_clone(&mut result, parts, t);
                    proof {
                        assert(spec_views(result@) =~= p.take((start + len) as int) + p.subrange(
                            end as int,
                            t + 1,
                        ));
                    }
                    t += 1;
                }
                proof {
                    assert(p.take((start + len) as int) =~= p.take(start as int) + p.subrange(
                        start as int,
                        start + len,
                    ));
                    assert(p.subrange(end as int, n as int) =~= p.skip(end as int));
                }
                return result;
            }
            len += 1;
        }
        start += 1;
    }
    let mut result: Vec<String> = Vec::new();
    let mut i: usize = 0;
    while i < n
        invariant
            i <= n == parts.len(),
            p == spec_views(parts@),
            spec_views(result@) == p.take(i as int),
        decreases n - i,
    {
        push_clone(&mut result, parts, i);
        proof {
            assert(spec_views(result@) =~= p.take(i + 1));
        }
        i += 1;
    }
    assert(p.take(n as int) =~= p);
    result
}

/// `s` repeats with period `u`.
pub open spec fn spec_periodic(s: Seq<char>, u: int) -> bool {
    forall|i: int| u <= i < s.len() ==> #[trigger] s[i] == s[i - u]
}

/// Shortest unit length, from `u` up to 10 and at most a third of the
/// length, that divides the length and repeats through `s`; 0 if none.
pub open spec fn spec_first_unit(s: Seq<char>, u: int) -> int
    decreases 11 - u,
{
    if u < 1 || u > 10 || u > (s.len() as int) / 3 {
        0
    } else if (s.len() as int) % u == 0 && spec_periodic(s, u) {
        u
    } else {
        spec_first_unit(s, u + 1)
    }
}

/// A token of 4 to 200 characters made of three or more copies of a unit of
/// 4 to 10 characters becomes one copy of the shortest such unit.
pub open spec fn spec_collapse_token(s: Seq<char>) -> Seq<char> {
    if 4 <= s.len() <= 200 && spec_first_unit(s, 4) > 0 {
        s.take(spec_first_unit(s, 4))
    } else {
        s
    }
}

fn periodic(v: &[char], u: usize) -> (r: bool)
    requires
        1 <= u,
    ensures
        r == spec_periodic(v@, u as int),
{
    let mut i: usize = u;
    while i < v.len()
        invariant
            1 <= u <= i,
            forall|j: int| u <= j < i ==> #[trigger] v@[j] == v@[j - u],
        decreases v.len() - i,
    {
        if v[i] != v[i - u] {
            return false;
        }
        i += 1;
    }
    true
}

pub fn collapse_repeated_token(token: &str) -> (r: String)
    ensures
        r@ == spec_collapse_token(token@),
{
    let v = char_vec(token);
    let length = v.len();
    if length < 4 || length > 200 {
        return string_of(&v);
    }
    let mut u: usize = 4;
    while u <= 10 && u <= length / 3
        invariant
            4 <= u <= 11,
            v@ == token@,
            length == v.len(),
            4 <= length <= 200,
            spec_first_unit(v@, 4) == spec_first_unit(v@, u as int),
        decreases 11 - u,
    {
        if length % u == 0 && periodic(&v, u) {
            return string_of_range_prefix(&v, u);
        }
        u += 1;
    }
    string_of(&v)
}

fn string_of_range_prefix(v: &[char], k: usize) -> (r: String)
    requires
        k <= v.len(),
    ensures
        r@ == v@.take(k as int),
{
    let r = crate::text::string_of_range(v, 0, k);
    assert(v@.subrange(0, k as int) =~= v@.take(k as int));
    r
}

/// Joins `parts` with `sep` between neighbours.
pub fn join_strings(parts: &[String], sep: &str) -> (r: String)
    ensures
        r@ == spec_join(spec_views(parts@), sep@),
{
    let ghost p = spec_views(parts@);
    let mut out = String::new();
    let mut i: usize = 0;
    while i < parts.len()
        invariant
            i <= parts.len(),
            p == spec_views(parts@),
            out@ == spec_join(p.take(i as int), sep@),
        decreases parts.len() - i,
    {
        proof {
            assert(p.take(i + 1).drop_last() =~= p.take(i as int));
        }
        if i > 0 {
            push_all(&mut out, sep);
        }
        push_all(&mut out, parts[i].as_str());
        proof {
            if i == 0 {
                assert(out@ =~= p.take(1)[0]);
            } else {
                assert(out@ =~= spec_join(p.take(i as int), sep@) + sep@ + p.take(i + 1).last());
            }
        }
        i += 1;
    }
    assert(p.take(parts.len() as int) =~= p);
    out
}

/// Repeated-content collapsing of a line: a blank line stays as it is;
/// otherwise its words are phrase-collapsed, each word token-collapsed, and
/// the result joined with single spaces.
pub open spec fn spec_collapse_segments(line: Seq<char>) -> Seq<char> {
    if spec_all_ws(line) {
        line
    } else {
        spec_join(
            spec_collapse_words(spec_words(spec_trim(line))).map_values(
                |w: Seq<char>| spec_collapse_token(w),
            ),
            seq![' '],
        )
    }
}

pub fn collapse_repeated_segments(line: &str) -> (r: String)
    ensures
        r@ == spec_collapse_segments(line@),
{
    if is_blank(line) {
        return string_of(&char_vec(line));
    }
    let trimmed = trim_str(line);
    let parts = split_words(trimmed);
    let phrase = collapse_repeated_word_sequences(&parts);
    let ghost ph = spec_views(phrase@);
    let mut tokens: Vec<String> = Vec::new();
    let mut i: usize = 0;
    while i < phrase.len()
        invariant
            i <= phrase.len(),
            ph == spec_views(phrase@),
            spec_views(tokens@) == ph.take(i as int).map_values(|w: Seq<char>| spec_collapse_token(w)),
        decreases phrase.len() - i,
    {
        let t = collapse_repeated_token(phrase[i].as_str());
        let ghost before = tokens@;
        tokens.push(t);
        proof {
            assert(spec_views(tokens@) =~= spec_views(before).push(t@));
            assert(ph.take(i + 1).map_values(|w: Seq<char>| spec_collapse_token(w)) =~= ph.take(
                i as int,
            ).map_values(|w: Seq<char>| spec_collapse_token(w)).push(spec_collapse_token(ph[i as int])));
        }
        i += 1;
    }
    assert(ph.take(phrase.len() as int) =~= ph);
    proof {
        reveal_strlit(" ");
        assert(" "@ =~= seq![' ']);
    }
    join_strings(&tokens, " ")
}

// ----- dialogue nesting -----

/// Open-quote counters for one paragraph buffer, one per quote family:
/// “” ‘’ 「」 『』 ﹁﹂ ﹃﹄. A closer never takes a counter below zero.
#[derive(Clone, Copy, Debug, PartialEq, Eq, Structural)]
pub struct DialogState {
    pub double_quote: u64,
    pub single_quote: u64,
    pub corner: u64,
    pub corner_bold: u64,
    pub corner_top: u64,
    pub corner_wide: u64,
}

pub open spec fn inc(n: u64) -> u64 {
    if n < u64::MAX { (n + 1) as u64 } else { n }
}

pub open spec fn dec(n: u64) -> u64 {
    if n > 0 { (n - 1) as u64 } else { 0 }
}

impl DialogState {
    pub open spec fn zero() -> DialogState {
        DialogState { double_quote: 0, single_quote: 0, corner: 0, corner_bold: 0, corner_top: 0, corner_wide: 0 }
    }

    pub open spec fn after_char(self, c: char) -> DialogState {
        if c == '“' {
            DialogState { double_quote: inc(self.double_quote), ..self }
        } else if c == '”' {
            DialogState { double_quote: dec(self.double_quote), ..self }
        } else if c == '‘' {
            DialogState { single_quote: inc(self.single_quote), ..self }
        } else if c == '’' {
            DialogState { single_quote: dec(self.single_quote), ..self }
        } else if c == '「' {
            DialogState { corner: inc(self.corner), ..self }
        } else if c == '」' {
            DialogState { corner: dec(self.corner), ..self }
        } else if c == '『' {
            DialogState { corner_bold: inc(self.corner_bold), ..self }
        } else if c == '』' {
            DialogState { corner_bold: dec(self.corner_bold), ..self }
        } else if c == '﹁' {
            DialogState { corner_top: inc(self.corner_top), ..self }
        } else if c == '﹂' {
            DialogState { corner_top: dec(self.corner_top), ..self }
        } else if c == '﹃' {
            DialogState { corner_wide: inc(self.corner_wide), ..self }
        } else if c == '﹄' {
            DialogState { corner_wide: dec(self.corner_wide), ..self }
        } else {
            self
        }
    }

    /// The counters after reading `s`.
    pub open spec fn after(self, s: Seq<char>) -> DialogState
        decreases s.len(),
    {
        if s.len() == 0 {
            self
        } else {
            self.after(s.drop_last()).after_char(s.last())
        }
    }

    pub open spec fn spec_unclosed(self) -> bool {
        self.double_quote > 0 || self.single_quote > 0 || self.corner > 0 || self.corner_bold > 0 || self.corner_top > 0 || self.corner_wide > 0
    }

    pub fn new() -> (r: DialogState)
        ensures
            r == DialogState::zero(),
    {
        DialogState { double_quote: 0, single_quote: 0, corner: 0, corner_bold: 0, corner_top: 0, corner_wide: 0 }
    }

    pub fn reset(&mut self)
        ensures
            *final(self) == DialogState::zero(),
    {
        *self = DialogState::new();
    }

    pub fn update(&mut self, s: &str)
        ensures
            *final(self) == old(self).after(s@),
    {
        let v = char_vec(s);
        let ghost start = *self;
        let mut i: usize = 0;
        while i < v.len()
            invariant
                i <= v.len(),
                v@ == s@,
                start == *old(self),
                *self == start.after(v@.take(i as int)),
            decreases v.len() - i,
        {
            proof {
                assert(v@.take(i + 1).drop_last() =~= v@.take(i as int));
            }
            match v[i] {
                '“' => {
                    if self.double_quote < u64::MAX {
                        self.double_quote = self.double_quote + 1;
                    }
                },
                '”' => {
                    if self.double_quote > 0 {
                        self.double_quote = self.double_quote - 1;
                    }
                },
                '‘' => {
                    if self.single_quote < u64::MAX {
                        self.single_quote = self.single_quote + 1;
                    }
                },
                '’' => {
                    if self.single_quote > 0 {
                        self.single_quote = self.single_quote - 1;
                    }
                },
                '「' => {
                    if self.corner < u64::MAX {
                        self.corner = self.corner + 1;
                    }
                },
                '」' => {
                    if self.corner > 0 {
                        self.corner = self.corner - 1;
                    }
                },
                '『' => {
                    if self.corner_bold < u64::MAX {
                        self.corner_bold = self.corner_bold + 1;
                    }
                },
                '』' => {
                    if self.corner_bold > 0 {
                        self.corner_bold = self.corner_bold - 1;
                    }
                },
                '﹁' => {
                    if self.corner_top < u64::MAX {
                        self.corner_top = self.corner_top + 1;
                    }
                },
                '﹂' => {
                    if self.corner_top > 0 {
                        self.corner_top = self.corner_top - 1;
                    }
                },
                '﹃' => {
                    if self.corner_wide < u64::MAX {
                        self.corner_wide = self.corner_wide + 1;
                    }
                },
                '﹄' => {
                    if self.corner_wide > 0 {
                        self.corner_wide = self.corner_wide - 1;
                    }
                },
                _ => {},
            }
            i += 1;
        }
        assert(v@.take(v.len() as int) =~= v@);
    }

    pub fn is_unclosed(&self) -> (r: bool)
        ensures
            r == self.spec_unclosed(),
    {
        self.double_quote > 0 || self.single_quote > 0 || self.corner > 0 || self.corner_bold > 0 || self.corner_top > 0 || self.corner_wide > 0
    }
}

// ----- the reflow state machine -----

/// The driver's state: finished segments, the paragraph being assembled, and
/// its dialogue nesting.
pub struct Flow {
    pub segments: Seq<Seq<char>>,
    pub buffer: Seq<char>,
    pub dialog: DialogState,
}

pub open spec fn spec_initial() -> Flow {
    Flow { segments: Seq::empty(), buffer: Seq::empty(), dialog: DialogState::zero() }
}

/// A non-empty buffer becomes a segment; the buffer and nesting are reset.
pub open spec fn spec_flush(f: Flow) -> Flow {
    if f.buffer.len() > 0 {
        Flow { segments: f.segments.push(f.buffer), buffer: Seq::empty(), dialog: DialogState::zero() }
    } else {
        f
    }
}

pub open spec fn spec_emit(f: Flow, line: Seq<char>) -> Flow {
    Flow { segments: f.segments.push(line), ..f }
}

/// A new buffer holding `line`.
pub open spec fn spec_start(f: Flow, line: Seq<char>) -> Flow {
    Flow { segments: f.segments, buffer: line, dialog: DialogState::zero().after(line) }
}

/// `line` joined to the buffer with no separator.
pub open spec fn spec_append(f: Flow, line: Seq<char>) -> Flow {
    Flow { segments: f.segments, buffer: f.buffer + line, dialog: f.dialog.after(line) }
}

/// The visual form of a raw line: trailing whitespace and half-width indent removed.
pub open spec fn spec_line_visual(raw: Seq<char>) -> Seq<char> {
    spec_strip_halfwidth_indent(spec_trim_end(raw))
}

pub open spec fn spec_ends_strong(s: Seq<char>) -> bool {
    spec_last_non_ws(s) matches Some(c) && crate::punct_sets::spec_strong_end(c)
}

/// Inside an open quotation or an unclosed bracket.
pub open spec fn spec_open_context(f: Flow) -> bool {
    f.dialog.spec_unclosed() || spec_unclosed_bracket(f.buffer)
}

/// A blank line: suppressed, when gaps are not kept, after a buffer that does
/// not end in a strong terminator or that is still open; a paragraph break
/// otherwise.
pub open spec fn spec_blank(f: Flow, keep_gaps: bool) -> Flow {
    if !keep_gaps && f.buffer.len() > 0 && (!spec_ends_strong(f.buffer) || spec_open_context(f)) {
        f
    } else {
        spec_flush(f)
    }
}

/// A short heading candidate that reads like the rest of a sentence.
pub open spec fn spec_looks_continuation(hp: Seq<char>) -> bool {
    spec_all_cjk(hp, true) || (spec_last_non_ws(hp) matches Some(c) && (spec_colon_like(c)
        || spec_dialog_closer(c) || spec_bracket_closer(c)))
}

/// The buffer goes on through a short heading candidate: an unclosed bracket,
/// a trailing comma, or a continuation-like candidate after a buffer with no
/// terminator at its end.
pub open spec fn spec_heading_continues(buffer: Seq<char>, hp: Seq<char>) -> bool {
    spec_unclosed_bracket(buffer) || (spec_last_non_ws(buffer) matches Some(c) && (
    spec_comma_like(c) || (spec_looks_continuation(hp) && !spec_clause_or_end(c))))
}

/// Narration ended: the buffer's last character is not a comma, a colon or an ideograph.
pub open spec fn spec_narration_ended(buffer: Seq<char>) -> bool {
    match spec_last_non_ws(buffer) {
        Some(c) => !spec_comma_like(c) && !spec_colon_like(c) && !crate::cjk_text::spec_cjk(c),
        None => true,
    }
}

pub open spec fn spec_ends_dialog_closer(line: Seq<char>) -> bool {
    spec_last_non_ws(line) matches Some(c) && spec_dialog_closer(c)
}

/// The character before the line's last one (whitespace aside) is a clause
/// or sentence terminator.
pub open spec fn spec_closer_after_terminator(line: Seq<char>) -> bool {
    crate::punct_sets::spec_last_two_idx(line) matches Some((_, (_, p))) && spec_clause_or_end(p)
}

/// A line that ends a quotation: appended, then flushed when the nesting is
/// closed, a terminator precedes the closer, and the buffer had no unclosed
/// bracket of its own.
pub open spec fn spec_close_dialog(f: Flow, line: Seq<char>) -> Flow {
    let g = spec_append(f, line);
    if !g.dialog.spec_unclosed() && spec_closer_after_terminator(line) && !spec_unclosed_bracket(
        f.buffer,
    ) {
        spec_flush(g)
    } else {
        g
    }
}

/// An ordinary (or continuing) line against the buffer.
pub open spec fn spec_merge(f: Flow, line: Seq<char>) -> Flow {
    if f.buffer.len() == 0 {
        spec_start(f, line)
    } else if spec_ends_strong(line) && !spec_open_context(f) {
        spec_flush(spec_append(f, line))
    } else if crate::punct_sets::spec_begins_with_opener(line) && spec_narration_ended(f.buffer) {
        spec_start(spec_flush(f), line)
    } else if spec_ends_dialog_closer(line) {
        spec_close_dialog(f, line)
    } else if !f.dialog.spec_unclosed() && (spec_sentence_boundary(f.buffer)
        || spec_cjk_bracket_boundary(f.buffer) || spec_chapter_ending(f.buffer)) {
        spec_start(spec_flush(f), line)
    } else {
        spec_append(f, line)
    }
}

/// A non-blank, non-divider line after repeated-content collapsing.
pub open spec fn spec_text_line(f: Flow, line: Seq<char>) -> Flow {
    let hp = spec_trim_indent(line);
    if spec_page_marker(hp) || spec_metadata(line) || spec_title_heading(hp) {
        spec_emit(spec_flush(f), line)
    } else if spec_heading_like(line) && (f.buffer.len() == 0 || !spec_heading_continues(
        f.buffer,
        hp,
    )) {
        spec_emit(spec_flush(f), line)
    } else {
        spec_merge(f, line)
    }
}

/// One raw line through the state machine.
pub open spec fn spec_step(f: Flow, raw: Seq<char>, keep_gaps: bool) -> Flow {
    let visual = spec_line_visual(raw);
    if spec_visual_divider(spec_trim_indent(visual)) {
        spec_emit(spec_flush(f), visual)
    } else if spec_all_ws(visual) {
        spec_blank(f, keep_gaps)
    } else {
        spec_text_line(f, spec_collapse_segments(visual))
    }
}

pub open spec fn spec_run(lines: Seq<Seq<char>>, keep_gaps: bool) -> Flow
    decreases lines.len(),
{
    if lines.len() == 0 {
        spec_initial()
    } else {
        spec_step(spec_run(lines.drop_last(), keep_gaps), lines.last(), keep_gaps)
    }
}

/// The segments made from `lines`, the last buffer flushed.
pub open spec fn spec_reflow_segments(lines: Seq<Seq<char>>, keep_gaps: bool) -> Seq<Seq<char>> {
    spec_flush(spec_run(lines, keep_gaps)).segments
}

/// The driver's state, held in executable form.
pub struct ReflowState {
    pub segments: Vec<String>,
    pub buffer: String,
    pub dialog: DialogState,
}

impl View for ReflowState {
    type V = Flow;

    open spec fn view(&self) -> Flow {
        Flow { segments: spec_views(self.segments@), buffer: self.buffer@, dialog: self.dialog }
    }
}

fn push_segment(segments: &mut Vec<String>, seg: String)
    ensures
        spec_views(final(segments)@) == spec_views(old(segments)@).push(seg@),
{
    let ghost before = segments@;
    segments.push(seg);
    assert(spec_views(segments@) =~= spec_views(before).push(seg@));
}

impl ReflowState {
    pub fn new() -> (r: ReflowState)
        ensures
            r@ == spec_initial(),
    {
        let r = ReflowState { segments: Vec::new(), buffer: String::new(), dialog: DialogState::new() };
        assert(spec_views(r.segments@) =~= Seq::<Seq<char>>::empty());
        r
    }

    pub fn flush(&mut self)
        ensures
            final(self)@ == spec_flush(old(self)@),
    {
        if self.buffer.as_str().unicode_len() > 0 {
            let b = self.buffer.clone();
            push_segment(&mut self.segments, b);
            self.buffer = String::new();
            self.dialog.reset();
        }
    }

    fn emit(&mut self, line: &str)
        ensures
            final(self)@ == spec_emit(old(self)@, line@),
    {
        let l = string_of(&char_vec(line));
        push_segment(&mut self.segments, l);
    }

    fn start(&mut self, line: &str)
        ensures
            final(self)@ == spec_start(old(self)@, line@),
    {
        self.buffer = string_of(&char_vec(line));
        self.dialog.reset();
        self.dialog.update(line);
    }

    fn append(&mut self, line: &str)
        ensures
            final(self)@ == spec_append(old(self)@, line@),
    {
        push_all(&mut self.buffer, line);
        self.dialog.update(line);
    }

    fn open_context(&self) -> (r: bool)
        ensures
            r == spec_open_context(self@),
    {
        self.dialog.is_unclosed() || has_unclosed_bracket(self.buffer.as_str())
    }

    fn blank(&mut self, keep_gaps: bool)
        ensures
            final(self)@ == spec_blank(old(self)@, keep_gaps),
    {
        if !keep_gaps && self.buffer.as_str().unicode_len() > 0 {
            let strong = match last_non_whitespace(self.buffer.as_str()) {
                Some(c) => crate::punct_sets::is_strong_sentence_end(c),
                None => false,
            };
            if !strong || self.open_context() {
                return;
            }
        }
        self.flush();
    }

    fn merge(&mut self, line: &str)
        ensures
            final(self)@ == spec_merge(old(self)@, line@),
    {
        let buf = self.buffer.as_str();
        if buf.unicode_len() == 0 {
            self.start(line);
            return;
        }
        let line_last = last_non_whitespace(line);
        let line_strong = match line_last {
            Some(c) => crate::punct_sets::is_strong_sentence_end(c),
            None => false,
        };
        if line_strong && !self.open_context() {
            self.append(line);
            self.flush();
            return;
        }
        let narration_ended = match last_non_whitespace(buf) {
            Some(c) => !is_comma_like(c) && !crate::punct_sets::is_colon_like(c)
                && !crate::cjk_text::is_cjk_bmp(c),
            None => true,
        };
        if crate::punct_sets::begins_with_dialog_opener(line) && narration_ended {
            self.flush();
            self.start(line);
            return;
        }
        let ends_closer = match line_last {
            Some(c) => is_dialog_closer(c),
            None => false,
        };
        if ends_closer {
            let had_unclosed_bracket = has_unclosed_bracket(self.buffer.as_str());
            let after_terminator = match crate::punct_sets::last_two_non_whitespace(line) {
                Some((_, p)) => is_clause_or_end_punct(p),
                None => false,
            };
            self.append(line);
            if !self.dialog.is_unclosed() && after_terminator && !had_unclosed_bracket {
                self.flush();
            }
            return;
        }
        if !self.dialog.is_unclosed() {
            let b = self.buffer.as_str();
            if ends_with_sentence_boundary(b) || ends_with_cjk_bracket_boundary(b)
                || is_chapter_ending_line(b) {
                self.flush();
                self.start(line);
                return;
            }
        }
        self.append(line);
    }

    fn heading_continues(&self, hp: &str) -> (r: bool)
        ensures
            r == spec_heading_continues(self.buffer@, hp@),
    {
        if has_unclosed_bracket(self.buffer.as_str()) {
            return true;
        }
        match last_non_whitespace(self.buffer.as_str()) {
            Some(c) => {
                if is_comma_like(c) {
                    return true;
                }
                let looks = is_all_cjk_ignoring_ws(hp) || match last_non_whitespace(hp) {
                    Some(h) => crate::punct_sets::is_colon_like(h) || is_dialog_closer(h)
                        || is_bracket_closer(h),
                    None => false,
                };
                looks && !is_clause_or_end_punct(c)
            },
            None => false,
        }
    }

    fn text_line(&mut self, line: &str)
        ensures
            final(self)@ == spec_text_line(old(self)@, line@),
    {
        let hp = trim_indent(line);
        if is_page_marker(hp) || is_metadata_line(line) || is_title_heading_line(hp) {
            self.flush();
            self.emit(line);
            return;
        }
        if is_heading_like(line) {
            if self.buffer.as_str().unicode_len() == 0 || !self.heading_continues(hp) {
                self.flush();
                self.emit(line);
                return;
            }
        }
        self.merge(line);
    }

    /// Feeds one raw line to the state machine.
    pub fn step(&mut self, raw: &str, keep_gaps: bool)
        ensures
            final(self)@ == spec_step(old(self)@, raw@, keep_gaps),
    {
        let visual = strip_halfwidth_indent_keep_fullwidth(trim_end_str(raw));
        let probe = trim_indent(visual);
        if crate::punct_sets::is_visual_divider_line(probe) {
            self.flush();
            self.emit(visual);
            return;
        }
        if is_blank(visual) {
            self.blank(keep_gaps);
            return;
        }
        let line = collapse_repeated_segments(visual);
        self.text_line(line.as_str());
    }
}

/// Runs the state machine over `lines` and returns the finished segments.
pub fn reflow_lines(lines: &[String], keep_gaps: bool) -> (r: Vec<String>)
    ensures
        spec_views(r@) == spec_reflow_segments(spec_views(lines@), keep_gaps),
{
    let ghost ls = spec_views(lines@);
    let mut st = ReflowState::new();
    let mut i: usize = 0;
    while i < lines.len()
        invariant
            i <= lines.len(),
            ls == spec_views(lines@),
            st@ == spec_run(ls.take(i as int), keep_gaps),
        decreases lines.len() - i,
    {
        proof {
            assert(ls.take(i + 1).drop_last() =~= ls.take(i as int));
        }
        st.step(lines[i].as_str(), keep_gaps);
        i += 1;
    }
    assert(ls.take(lines.len() as int) =~= ls);
    st.flush();
    st.segments
}

/// Line breaks unified: each CR LF pair and each lone CR become LF.
pub open spec fn spec_unify_breaks(s: Seq<char>) -> Seq<char>
    decreases s.len(),
{
    if s.len() == 0 {
        s
    } else if s[0] == '\r' && s.len() >= 2 && s[1] == '\n' {
        seq!['\n'] + spec_unify_breaks(s.skip(2))
    } else if s[0] == '\r' {
        seq!['\n'] + spec_unify_breaks(s.drop_first())
    } else {
        seq![s[0]] + spec_unify_breaks(s.drop_first())
    }
}

/// The pieces of `s` between LF characters (one more than there are LFs).
pub open spec fn spec_split_lines(s: Seq<char>) -> Seq<Seq<char>>
    decreases s.len(),
{
    if s.len() == 0 {
        seq![Seq::empty()]
    } else {
        let w = spec_split_lines(s.drop_last());
        if s.last() == '\n' {
            w.push(Seq::empty())
        } else {
            w.drop_last().push(w.last().push(s.last()))
        }
    }
}

pub proof fn lemma_split_lines_nonempty(s: Seq<char>)
    ensures
        spec_split_lines(s).len() >= 1,
    decreases s.len(),
{
    if s.len() > 0 {
        lemma_split_lines_nonempty(s.drop_last());
    }
}

/// Output of the engine: whitespace-only text unchanged; otherwise the
/// segments of its lines, joined by one line break (compact) or a blank line.
pub open spec fn spec_reflow(text: Seq<char>, keep_gaps: bool, compact: bool) -> Seq<char> {
    if spec_all_ws(text) {
        text
    } else {
        spec_join(
            spec_reflow_segments(spec_split_lines(spec_unify_breaks(text)), keep_gaps),
            if compact { seq!['\n'] } else { seq!['\n', '\n'] },
        )
    }
}

pub fn unify_line_breaks(text: &str) -> (r: Vec<char>)
    ensures
        r@ == spec_unify_breaks(text@),
{
    let v = char_vec(text);
    let mut out: Vec<char> = Vec::new();
    let mut i: usize = 0;
    assert(v@.skip(0) =~= v@);
    assert(out@ + spec_unify_breaks(v@) =~= spec_unify_breaks(v@));
    while i < v.len()
        invariant
            i <= v.len(),
            v@ == text@,
            out@ + spec_unify_breaks(v@.skip(i as int)) == spec_unify_breaks(v@),
        decreases v.len() - i,
    {
        let ghost rest = v@.skip(i as int);
        if v[i] == '\r' {
            out.push('\n');
            if i + 1 < v.len() && v[i + 1] == '\n' {
                proof {
                    assert(rest.skip(2) =~= v@.skip(i + 2));
                    assert(out@ + spec_unify_breaks(v@.skip(i + 2)) =~= spec_unify_breaks(v@));
                }
                i += 2;
            } else {
                proof {
                    assert(rest.drop_first() =~= v@.skip(i + 1));
                    assert(out@ + spec_unify_breaks(v@.skip(i + 1)) =~= spec_unify_breaks(v@));
                }
                i += 1;
            }
        } else {
            out.push(v[i]);
            proof {
                assert(rest.drop_first() =~= v@.skip(i + 1));
                assert(out@ + spec_unify_breaks(v@.skip(i + 1)) =~= spec_unify_breaks(v@));
            }
            i += 1;
        }
    }
    assert(v@.skip(v.len() as int) =~= Seq::<char>::empty());
    assert(out@ =~= out@ + Seq::<char>::empty());
    out
}

pub fn split_lines(v: &[char]) -> (r: Vec<String>)
    ensures
        spec_views(r@) == spec_split_lines(v@),
{
    let mut lines: Vec<String> = Vec::new();
    let mut cur = String::new();
    let mut i: usize = 0;
    assert(spec_views(lines@).push(cur@) =~= spec_split_lines(v@.take(0)));
    while i < v.len()
        invariant
            i <= v.len(),
            spec_views(lines@).push(cur@) == spec_split_lines(v@.take(i as int)),
        decreases v.len() - i,
    {
        let c = v[i];
        proof {
            assert(v@.take(i + 1).drop_last() =~= v@.take(i as int));
            lemma_split_lines_nonempty(v@.take(i as int));
        }
        if c == '\n' {
            let ghost before = lines@;
            let ghost old_cur = cur@;
            lines.push(cur);
            cur = String::new();
            proof {
                assert(spec_views(lines@) =~= spec_views(before).push(old_cur));
                assert(spec_views(lines@).push(cur@) =~= spec_split_lines(v@.take(i + 1)));
            }
        } else {
            let ghost old_cur = cur@;
            crate::text::push_char(&mut cur, c);
            proof {
                let w = spec_split_lines(v@.take(i as int));
                assert(w.last() == old_cur);
                assert(w.drop_last() =~= spec_views(lines@));
                assert(spec_views(lines@).push(cur@) =~= spec_split_lines(v@.take(i + 1)));
            }
        }
        i += 1;
    }
    let ghost before = lines@;
    let ghost old_cur = cur@;
    lines.push(cur);
    assert(spec_views(lines@) =~= spec_views(before).push(old_cur));
    assert(v@.take(v.len() as int) =~= v@);
    lines
}

/// Reflows CJK paragraphs: merges artificial line breaks while keeping
/// paragraphs, headings, metadata, dividers, page markers and dialogue
/// intact. `add_pdf_page_header` keeps blank page-gap lines as breaks;
/// `compact` separates paragraphs by one line break instead of a blank line.
pub fn reflow_cjk_paragraphs(text: &str, add_pdf_page_header: bool, compact: bool) -> (r: String)
    ensures
        r@ == spec_reflow(text@, add_pdf_page_header, compact),
{
    if is_blank(text) {
        return string_of(&char_vec(text));
    }
    let unified = unify_line_breaks(text);
    let lines = split_lines(&unified);
    let segments = reflow_lines(&lines, add_pdf_page_header);
    let sep = if compact { "\n" } else { "\n\n" };
    proof {
        reveal_strlit("\n");
        reveal_strlit("\n\n");
        assert("\n"@ =~= seq!['\n']);
        assert("\n\n"@ =~= seq!['\n', '\n']);
    }
    join_strings(&segments, sep)
}

} // verus!
