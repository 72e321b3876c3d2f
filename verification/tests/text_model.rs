use nextchat::text::{
    chars_of, decimal_chars, find_exec, is_blank_str, lines_exec, lower_chars,
    signed_decimal_chars, strip_prefix_exec, trimmed,
};

fn s(v: &[char]) -> String {
    v.iter().collect()
}

#[test]
fn trim_removes_unicode_whitespace_at_both_ends() {
    assert_eq!(s(&trimmed(" \t hi there \n")), "hi there");
    assert_eq!(s(&trimmed("\u{3000}x\u{a0}")), "x");
    assert_eq!(s(&trimmed("   ")), "");
    assert_eq!(s(&trimmed("")), "");
}

#[test]
fn blank_means_only_whitespace() {
    assert!(is_blank_str(" \r\n\t"));
    assert!(is_blank_str(""));
    assert!(!is_blank_str(" a "));
}

#[test]
fn ascii_lowercase_leaves_other_characters() {
    let c = chars_of("OpenAI-Ä");
    assert_eq!(s(&lower_chars(&c)), "openai-Ä");
}

#[test]
fn find_gives_first_match_in_characters() {
    let t = chars_of("ab<think>cd<think>");
    let p = chars_of("<think>");
    assert_eq!(find_exec(&t, &p), Some(2));
    let e = chars_of("");
    assert_eq!(find_exec(&t, &e), Some(0));
    let none = chars_of("zz");
    assert_eq!(find_exec(&t, &none), None);
}

#[test]
fn strip_prefix_only_at_the_start() {
    let t = chars_of("data: {}");
    let p = chars_of("data: ");
    assert_eq!(strip_prefix_exec(&t, &p).map(|v| s(&v)), Some("{}".to_string()));
    let u = chars_of(" data: {}");
    assert!(strip_prefix_exec(&u, &p).is_none());
}

#[test]
fn lines_split_like_str_lines() {
    let cases = ["a\r\nb\n\nc\r", "x\n", "", "\n", "one", "a\n\r\nb"];
    for case in cases {
        let got: Vec<String> = lines_exec(&chars_of(case)).iter().map(|l| s(l)).collect();
        let want: Vec<String> = case.lines().map(|l| l.to_string()).collect();
        assert_eq!(got, want, "case {:?}", case);
    }
}

#[test]
fn decimal_rendering_matches_display() {
    for n in [0u64, 7, 10, 32123, 65535, u64::MAX] {
        assert_eq!(s(&decimal_chars(n)), n.to_string());
    }
    for n in [0i64, -5, 1_700_000_000, i64::MIN, i64::MAX] {
        assert_eq!(s(&signed_decimal_chars(n)), n.to_string());
    }
}
