use talky::text::{has_char, html_escape, i64_to_decimal, push_json_string, str_eq, u64_to_decimal};

#[test]
fn html_escape_replaces_markup_characters() {
    assert_eq!(
        html_escape("<a href=\"x\">Tom & Jerry</a>"),
        "&lt;a href=\"x\"&gt;Tom &amp; Jerry&lt;/a&gt;"
    );
    assert_eq!(html_escape(""), "");
    assert_eq!(html_escape("plain"), "plain");
}

#[test]
fn html_escaped_text_has_no_tag_delimiters() {
    let escaped = html_escape("<<script>>alert(1)<</script>>");
    assert!(!escaped.contains('<'));
    assert!(!escaped.contains('>'));
}

#[test]
fn decimal_rendering_of_integers() {
    assert_eq!(u64_to_decimal(0), "0");
    assert_eq!(u64_to_decimal(1234567890), "1234567890");
    assert_eq!(u64_to_decimal(u64::MAX), "18446744073709551615");
    assert_eq!(i64_to_decimal(-42), "-42");
    assert_eq!(i64_to_decimal(7), "7");
    assert_eq!(i64_to_decimal(i64::MIN), "-9223372036854775808");
}

#[test]
fn json_string_literals_match_serde_json() {
    let input = "a\"b\\c\nd\t\u{1}é";
    let mut out = String::from("x=");
    push_json_string(&mut out, input);
    let expected = format!("x={}", serde_json::to_string(input).unwrap());
    assert_eq!(out, expected);
    assert_eq!(out, "x=\"a\\\"b\\\\c\\nd\\t\\u0001é\"");
}

#[test]
fn string_comparisons() {
    assert!(str_eq("abc", "abc"));
    assert!(!str_eq("abc", "abd"));
    assert!(!str_eq("abc", "ab"));
    assert!(has_char("a-b", '-'));
    assert!(!has_char("ab", '-'));
}
