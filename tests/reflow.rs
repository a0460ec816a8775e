use cjk_reflow::reflow_cjk_paragraphs;
use cjk_reflow::reflow_helper::{
    collapse_repeated_segments, collapse_repeated_token, reflow_lines, ReflowState,
};

fn segments(text: &str, keep_gaps: bool) -> Vec<String> {
    reflow_cjk_paragraphs(text, keep_gaps, false)
        .split("\n\n")
        .map(|s| s.to_string())
        .collect()
}

#[test]
fn test_reflow_drawing_box() {
    let input = "\
物品准备：
购物帐单（三叔笔记复印）：
名字 数量
──────────────
洛阳铲头 5 个

──────────────
攀山绳 200 米
──────────────
林德大号开山刀 2 把
（加厚的）
──────────────
";
    let output = reflow_cjk_paragraphs(input, false, false);
    println!("===== INPUT =====");
    println!("{}", input.replace('\n', "\\n\n"));
    println!("===== REFLOWED =====");
    println!("{}", output.replace('\n', "\\n\n"));
    assert!(!output.is_empty());
}

#[test]
fn drawing_box_keeps_dividers_standalone() {
    let input = "名字 数量\n──────────────\n洛阳铲头 5 个\n──────────────\n攀山绳 200 米";
    let out = reflow_cjk_paragraphs(input, false, true);
    let lines: Vec<&str> = out.split('\n').collect();
    assert_eq!(lines, vec!["名字 数量", "──────────────", "洛阳铲头 5 个", "──────────────", "攀山绳 200 米"]);
}

#[test]
fn whitespace_only_input_is_unchanged() {
    for text in ["", "   ", "\n\n", " \t\r\n　"] {
        assert_eq!(reflow_cjk_paragraphs(text, false, false), text);
        assert_eq!(reflow_cjk_paragraphs(text, true, true), text);
    }
}

#[test]
fn divider_between_text_lines_gives_three_segments() {
    for keep in [false, true] {
        let segs = segments("他走了很远的路\n──────────\n天色渐渐暗了下来", keep);
        assert_eq!(segs, vec!["他走了很远的路", "──────────", "天色渐渐暗了下来"]);
    }
}

#[test]
fn page_marker_is_never_merged() {
    let segs = segments("他走了很远的路\n=== [3/20] ===\n天色渐渐暗了下来", false);
    assert_eq!(segs, vec!["他走了很远的路", "=== [3/20] ===", "天色渐渐暗了下来"]);
}

#[test]
fn colon_then_dialogue_merges_and_flushes() {
    let mut st = ReflowState::new();
    st.buffer = "他說：".to_string();
    st.step("「你好。」", false);
    assert_eq!(st.segments, vec!["他說：「你好。」".to_string()]);
    assert_eq!(st.buffer, "");
    assert!(!st.dialog.is_unclosed());
}

#[test]
fn short_colon_label_alone_is_a_heading() {
    let segs = segments("他說：\n「你好。」", false);
    assert_eq!(segs, vec!["他說：", "「你好。」"]);
}

#[test]
fn chapter_heading_then_new_paragraph() {
    let segs = segments("第一章 楔子\n很久很久以前……", false);
    assert_eq!(segs, vec!["第一章 楔子", "很久很久以前……"]);
}

#[test]
fn repeated_phrase_collapses_to_one() {
    assert_eq!(collapse_repeated_segments("购物帐单 购物帐单 购物帐单 购物帐单"), "购物帐单");
    let out = reflow_cjk_paragraphs("购物帐单 购物帐单 购物帐单 购物帐单", false, false);
    assert_eq!(out, "购物帐单");
}

#[test]
fn metadata_line_interrupts_a_sentence() {
    let segs = segments("他们沿着山路一直往前走\n書名：三體\n作者：劉慈欣", false);
    assert_eq!(segs, vec!["他们沿着山路一直往前走", "書名：三體", "作者：劉慈欣"]);
}

#[test]
fn soft_wrapped_lines_are_joined() {
    let segs = segments("他们沿着弯弯的山路一直\n往前走了很久。\n天黑了。", false);
    assert_eq!(segs, vec!["他们沿着弯弯的山路一直往前走了很久。", "天黑了。"]);
}

#[test]
fn blank_line_suppressed_mid_sentence_without_gaps() {
    assert_eq!(segments("他们沿着弯弯的山路一直\n\n往前走了很久很久", false), vec!["他们沿着弯弯的山路一直往前走了很久很久"]);
    assert_eq!(segments("他们沿着弯弯的山路一直\n\n往前走了很久很久", true), vec!["他们沿着弯弯的山路一直", "往前走了很久很久"]);
}

#[test]
fn blank_line_after_strong_end_breaks() {
    assert_eq!(segments("天黑了。\n\n第二天", false), vec!["天黑了。", "第二天"]);
}

#[test]
fn compact_mode_uses_single_newline() {
    assert_eq!(reflow_cjk_paragraphs("天黑了。\n\n第二天", false, true), "天黑了。\n第二天");
}

#[test]
fn crlf_and_cr_are_unified() {
    assert_eq!(reflow_cjk_paragraphs("天黑了。\r\n\r\n第二天\r", false, true), "天黑了。\n第二天");
}

#[test]
fn reflowed_output_round_trips_with_gaps_kept() {
    let text = "第一章 楔子\n\n很久很久以前，有一座山。\n\n山上有座庙";
    let once = reflow_cjk_paragraphs(text, true, false);
    let twice = reflow_cjk_paragraphs(&once, true, false);
    assert_eq!(once, twice);
    assert_eq!(once, text);
}

#[test]
fn reflow_lines_flushes_the_last_buffer() {
    let lines = vec!["天色渐渐地暗了下来了".to_string(), "远处传来了几声狗叫".to_string()];
    assert_eq!(reflow_lines(&lines, false), vec!["天色渐渐地暗了下来了远处传来了几声狗叫".to_string()]);
}

#[test]
fn dialogue_after_narration_starts_new_segment() {
    let segs = segments("他停下了脚步\n「你是谁」他问", false);
    assert_eq!(segs, vec!["他停下了脚步", "「你是谁」他问"]);
}

#[test]
fn dialogue_after_ideograph_continues() {
    let segs = segments("他停下了脚步回头问道\n“你是谁”", false);
    assert_eq!(segs, vec!["他停下了脚步回头问道“你是谁”"]);
}

#[test]
fn open_quote_spans_lines() {
    let segs = segments("「我们明天。\n再见吧」\n好的", false);
    assert_eq!(segs, vec!["「我们明天。再见吧」", "好的"]);
}

#[test]
fn heading_after_comma_is_continuation() {
    let segs = segments("他说，\n好的", false);
    assert_eq!(segs, vec!["他说，好的"]);
}

#[test]
fn bracket_boundary_ends_paragraph() {
    let segs = segments("（完）\n下一个故事开始了", false);
    assert_eq!(segs, vec!["（完）", "下一个故事开始了"]);
}

#[test]
fn indent_is_dropped_when_lines_join() {
    let segs = segments("   他们沿着弯弯的山路走\n　　天黑了下来很久很久", false);
    assert_eq!(segs, vec!["他们沿着弯弯的山路走天黑了下来很久很久"]);
}

#[test]
fn token_collapse_examples() {
    assert_eq!(collapse_repeated_token("abcdabcdabcd"), "abcd");
    assert_eq!(collapse_repeated_token("第一季大结局第一季大结局第一季大结局"), "第一季大结局");
    assert_eq!(collapse_repeated_token("哈哈哈哈哈哈"), "哈哈哈哈哈哈");
    assert_eq!(collapse_repeated_token("abcdabcd"), "abcdabcd");
}

#[test]
fn phrase_collapse_keeps_prefix_and_tail() {
    assert_eq!(collapse_repeated_segments("前 甲 乙 甲 乙 甲 乙 后"), "前 甲 乙 后");
    assert_eq!(collapse_repeated_segments("  甲   乙  "), "甲 乙");
    assert_eq!(collapse_repeated_segments("   "), "   ");
}
