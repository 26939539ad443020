use teleecho::text::{chars_of, decimal_string, replace_last_line};

#[test]
fn characters_of_a_text() {
    assert_eq!(chars_of(""), Vec::<char>::new());
    assert_eq!(chars_of("aé\n"), vec!['a', 'é', '\n']);
}

#[test]
fn decimal_notation() {
    assert_eq!(decimal_string(0), "0");
    assert_eq!(decimal_string(9), "9");
    assert_eq!(decimal_string(10), "10");
    assert_eq!(decimal_string(1234567890), "1234567890");
    assert_eq!(decimal_string(u64::MAX), "18446744073709551615");
}

#[test]
fn last_line_is_replaced() {
    assert_eq!(replace_last_line("x\ny", "z"), "x\nz");
    assert_eq!(replace_last_line("x", "z"), "z");
    assert_eq!(replace_last_line("", "z"), "z");
    assert_eq!(replace_last_line("a\nb\nc", "d"), "a\nb\nd");
    assert_eq!(replace_last_line("a\n", "d"), "a\nd");
    assert_eq!(replace_last_line("\n", ""), "\n");
    assert_eq!(replace_last_line("ä\nö", "ü"), "ä\nü");
}

#[test]
fn replacing_agrees_with_split_and_join() {
    for old in ["", "a", "a\nb", "a\n\nb", "\n", "a\nb\n", "\n\n\nx"] {
        let mut parts: Vec<&str> = old.split('\n').collect();
        parts.pop();
        parts.push("new");
        assert_eq!(replace_last_line(old, "new"), parts.join("\n"));
    }
}
