use runc_shim::text::{decimal_string, signed_decimal_string, lines_exec, str_contains, trim_str, words_exec};

fn s(v: &[char]) -> String {
    v.iter().collect()
}

#[test]
fn decimal_numbers() {
    assert_eq!(decimal_string(0), "0");
    assert_eq!(decimal_string(9), "9");
    assert_eq!(decimal_string(10), "10");
    assert_eq!(decimal_string(1234567890), "1234567890");
    assert_eq!(decimal_string(u64::MAX), u64::MAX.to_string());
}

#[test]
fn trimming_and_searching() {
    assert_eq!(trim_str("  a b \t\n"), "a b");
    assert_eq!(trim_str("\u{3000}x\u{a0}"), "x");
    assert_eq!(trim_str("   "), "");
    assert!(str_contains("container does not exist", "does not exist"));
    assert!(!str_contains("does not", "does not exist"));
    assert!(str_contains("abc", ""));
}

#[test]
fn lines_and_words() {
    let text = "a\r\nb\n\nc\r";
    let lines: Vec<String> = lines_exec(text).iter().map(|l| s(l)).collect();
    let expected: Vec<String> = text.lines().map(|l| l.to_string()).collect();
    assert_eq!(lines, expected);
    assert!(lines_exec("").is_empty());
    let chars: Vec<char> = "  35 25\t0:31  / /sys ".chars().collect();
    let words: Vec<String> = words_exec(&chars).iter().map(|w| s(w)).collect();
    assert_eq!(words, vec!["35", "25", "0:31", "/", "/sys"]);
}

#[test]
fn signed_decimal_numbers() {
    assert_eq!(signed_decimal_string(0), "0");
    assert_eq!(signed_decimal_string(-1), "-1");
    assert_eq!(signed_decimal_string(i32::MIN), i32::MIN.to_string());
    assert_eq!(signed_decimal_string(i32::MAX), i32::MAX.to_string());
}
