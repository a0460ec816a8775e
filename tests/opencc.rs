use cjk_reflow::{config_set, OpenCC};
use std::collections::HashSet;

#[test]
fn test_zho_check() {
    let opencc = OpenCC::new(Option::from(""));
    let text = "春眠不觉晓，处处闻啼鸟";
    let text_code = opencc.zho_check(text);
    let expected = 2;
    assert_eq!(text_code, expected);
}

#[test]
fn test_get_supported_list() {
    let configs = OpenCC::supported_configs();
    let expected: HashSet<&str> = config_set().into_iter().collect();
    let actual: HashSet<&str> = configs.into_iter().collect();
    assert_eq!(actual, expected);
}

#[test]
fn supported_list_has_sixteen_configs() {
    let configs = OpenCC::supported_configs();
    assert_eq!(configs.len(), 16);
    assert_eq!(configs[0], "s2t");
    assert!(configs.contains(&"jp2t"));
}

#[test]
fn invalid_config_falls_back_with_message() {
    let cc = OpenCC::new(Some("x2y"));
    assert_eq!(cc.get_config(), "s2t");
    assert_eq!(cc.get_last_error(), "Invalid config 'x2y', reverted to 's2t'");
}

#[test]
fn missing_config_defaults_without_error() {
    let cc = OpenCC::new(None);
    assert_eq!(cc.get_config(), "s2t");
    assert_eq!(cc.get_last_error(), "");
}

#[test]
fn apply_config_switches_and_clears_error() {
    let mut cc = OpenCC::new(Some("bad"));
    assert!(!cc.get_last_error().is_empty());
    cc.apply_config("t2s");
    assert_eq!(cc.get_config(), "t2s");
    assert_eq!(cc.get_last_error(), "");
    cc.apply_config("nope");
    assert_eq!(cc.get_config(), "s2t");
    assert_eq!(cc.get_last_error(), "Invalid config 'nope', reverted to 's2t'");
}

#[test]
fn valid_config_check() {
    assert!(OpenCC::is_valid_config("s2twp"));
    assert!(OpenCC::is_valid_config("hk2t"));
    assert!(!OpenCC::is_valid_config("S2T"));
    assert!(!OpenCC::is_valid_config(""));
}

#[test]
fn convert_simplified_to_traditional() {
    let cc = OpenCC::new(Some("s2t"));
    assert_eq!(cc.convert("汉字转换测试", false), "漢字轉換測試");
}

#[test]
fn zho_check_traditional_and_neither() {
    let cc = OpenCC::new(None);
    assert_eq!(cc.zho_check("漢字"), 1);
    assert_eq!(cc.zho_check("hello"), 0);
    assert_eq!(cc.zho_check(""), 0);
}
