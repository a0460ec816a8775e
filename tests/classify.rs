use cjk_reflow::cjk_text::{
    ends_with_cjk_bracket_boundary, ends_with_sentence_boundary, is_all_cjk, is_mixed_cjk_ascii,
    is_mostly_cjk, strip_halfwidth_indent_keep_fullwidth, strip_last_char,
};
use cjk_reflow::punct_sets::{
    begins_with_dialog_opener, ends_with_ellipsis, find_prev_non_whitespace_char_index,
    has_unclosed_bracket, is_visual_divider_line, last_non_whitespace, last_two_non_whitespace,
};
use cjk_reflow::pdf_extract_helper::{is_not_found_message, normalize_page_text};
use cjk_reflow::reflow_helper::{
    is_chapter_ending_line, is_heading_like, is_metadata_line, is_page_marker, is_title_heading_line,
    split_words, DialogState,
};
use cjk_reflow::{is_all_ascii_digits, is_cjk_bmp};

#[test]
fn cjk_ranges() {
    assert!(is_cjk_bmp('汉'));
    assert!(is_cjk_bmp('\u{3400}'));
    assert!(is_cjk_bmp('\u{FAFF}'));
    assert!(!is_cjk_bmp('。'));
    assert!(!is_cjk_bmp('a'));
}

#[test]
fn mostly_cjk_counts() {
    assert!(is_mostly_cjk("中文abc中"));
    assert!(!is_mostly_cjk("中abc"));
    assert!(!is_mostly_cjk("123 ..."));
    assert!(is_mostly_cjk("第12章"));
}

#[test]
fn mixed_labels() {
    assert!(is_mixed_cjk_ascii("ISBN 978-7-5 书号"));
    assert!(!is_mixed_cjk_ascii("书号#1"));
    assert!(!is_mixed_cjk_ascii("书号"));
    assert!(is_mixed_cjk_ascii("第１章"));
}

#[test]
fn all_cjk_with_and_without_whitespace() {
    assert!(is_all_cjk("中 文", true));
    assert!(!is_all_cjk("中 文", false));
    assert!(!is_all_cjk("   ", true));
    assert!(!is_all_cjk("中a", true));
}

#[test]
fn ascii_digits() {
    assert!(is_all_ascii_digits("007"));
    assert!(!is_all_ascii_digits(""));
    assert!(!is_all_ascii_digits("１"));
}

#[test]
fn indent_and_last_char() {
    assert_eq!(strip_halfwidth_indent_keep_fullwidth("  　正文"), "　正文");
    assert_eq!(strip_last_char("物品："), "物品");
    assert_eq!(strip_last_char(""), "");
}

#[test]
fn sentence_boundaries() {
    assert!(ends_with_sentence_boundary("他走了。  "));
    assert!(ends_with_sentence_boundary("他说：“走吧！”"));
    assert!(ends_with_sentence_boundary("他走了."));
    assert!(ends_with_sentence_boundary("他走了.」"));
    assert!(ends_with_sentence_boundary("他说："));
    assert!(ends_with_sentence_boundary("于是……"));
    assert!(ends_with_sentence_boundary("wait..."));
    assert!(!ends_with_sentence_boundary("（亦作肥）"));
    assert!(!ends_with_sentence_boundary("abc."));
    assert!(!ends_with_sentence_boundary("   "));
    assert!(ends_with_sentence_boundary("!"));
    assert!(ends_with_sentence_boundary("  …"));
    assert!(ends_with_sentence_boundary("……"));
    assert!(!ends_with_sentence_boundary("中"));
}

#[test]
fn bracket_boundaries() {
    assert!(ends_with_cjk_bracket_boundary("（完）"));
    assert!(ends_with_cjk_bracket_boundary(" 【番外】 "));
    assert!(!ends_with_cjk_bracket_boundary("(test)"));
    assert!(!ends_with_cjk_bracket_boundary("（一）二）"));
    assert!(!ends_with_cjk_bracket_boundary("（）"));
}

#[test]
fn unclosed_brackets_are_pessimistic() {
    assert!(has_unclosed_bracket("（未完"));
    assert!(has_unclosed_bracket("多了）"));
    assert!(has_unclosed_bracket("（错】"));
    assert!(!has_unclosed_bracket("（好）《书》"));
    assert!(!has_unclosed_bracket("没有括号"));
    assert!(has_unclosed_bracket("（a（b（c（d（e）"));
}

#[test]
fn last_characters() {
    assert_eq!(last_non_whitespace("ab c  "), Some('c'));
    assert_eq!(last_non_whitespace("  "), None);
    assert_eq!(last_two_non_whitespace("a b "), Some(('b', 'a')));
    assert_eq!(last_two_non_whitespace("a"), None);
    assert_eq!(find_prev_non_whitespace_char_index("ab  c", 4), Some(1));
    assert!(ends_with_ellipsis("等等…  "));
    assert!(!ends_with_ellipsis("等等."));
}

#[test]
fn dividers_and_openers() {
    assert!(is_visual_divider_line("──────────"));
    assert!(is_visual_divider_line(" * * * "));
    assert!(!is_visual_divider_line("--"));
    assert!(!is_visual_divider_line("---a"));
    assert!(begins_with_dialog_opener("　　「你好」"));
    assert!(!begins_with_dialog_opener("你好"));
}

#[test]
fn page_markers() {
    assert!(is_page_marker("=== [3/20] ==="));
    assert!(!is_page_marker("==="));
    assert!(!is_page_marker("== [3/20] ==="));
}

#[test]
fn metadata_lines() {
    assert!(is_metadata_line("書名：三體"));
    assert!(is_metadata_line("作者: 東野圭吾"));
    assert!(is_metadata_line("ISBN：978-7-5366-9293-0"));
    assert!(!is_metadata_line("作者：「你好」"));
    assert!(!is_metadata_line("作者："));
    assert!(!is_metadata_line("他说：你好"));
    assert!(!is_metadata_line("：三體"));
}

#[test]
fn title_headings() {
    assert!(is_title_heading_line("第一章 楔子"));
    assert!(is_title_heading_line("前言"));
    assert!(is_title_heading_line("卷三 风起"));
    assert!(is_title_heading_line("番外 一"));
    assert!(!is_title_heading_line("第一卷分卷"));
    assert!(!is_title_heading_line("第一章，开始"));
    assert!(is_title_heading_line("他说第三章的事情"));
    assert!(!is_title_heading_line("他们说了很多很多话以后第三章"));
}

#[test]
fn short_headings() {
    assert!(is_heading_like("（第一章）"));
    assert!(is_heading_like("物品准备："));
    assert!(is_heading_like("楔子"));
    assert!(is_heading_like("007"));
    assert!(is_heading_like("Chapter One"));
    assert!(!is_heading_like("他说，好"));
    assert!(!is_heading_like("天黑了。"));
    assert!(!is_heading_like("（未完"));
    assert!(!is_heading_like("=== [1/2] ==="));
    assert!(!is_heading_like("这是一个很长很长的句子"));
}

#[test]
fn chapter_endings() {
    assert!(is_chapter_ending_line("第十章"));
    assert!(is_chapter_ending_line("第十章】》"));
    assert!(!is_chapter_ending_line("第十章完"));
    assert!(!is_chapter_ending_line(""));
}

#[test]
fn words_split_on_whitespace() {
    assert_eq!(split_words("  a  bc\td "), vec!["a", "bc", "d"]);
    assert!(split_words("   ").is_empty());
}

#[test]
fn dialog_counters_clamp_at_zero() {
    let mut d = DialogState::new();
    d.update("」」");
    assert!(!d.is_unclosed());
    d.update("「『");
    assert!(d.is_unclosed());
    d.update("』」");
    assert!(!d.is_unclosed());
    d.update("“");
    d.reset();
    assert!(!d.is_unclosed());
}

#[test]
fn page_text_normalization() {
    assert_eq!(normalize_page_text("  \r\n "), "\n\n");
    assert_eq!(normalize_page_text("  第一页\r\n内容\n\n"), "  第一页\n内容\n\n");
}

#[test]
fn not_found_messages() {
    assert!(is_not_found_message("IO error: No such file or directory (os error 2)"));
    assert!(!is_not_found_message("invalid xref"));
}
