use events_to_lua::text::{decimal_string, str_eq, strip_newline};

fn stripped(line: &str) -> String {
    let mut s = line.to_string();
    strip_newline(&mut s);
    s
}

#[test]
fn strip_newline_takes_one_line_ending_off() {
    assert_eq!(stripped("level.json\n"), "level.json");
    assert_eq!(stripped("level.json\r\n"), "level.json");
    assert_eq!(stripped("level.json\r"), "level.json");
    assert_eq!(stripped("level.json"), "level.json");
    assert_eq!(stripped("level.json\n\n"), "level.json\n");
    assert_eq!(stripped("level.json\n\r"), "level.json\n");
    assert_eq!(stripped("a\r\r\n"), "a\r");
    assert_eq!(stripped("\n"), "");
    assert_eq!(stripped("\r\n"), "");
    assert_eq!(stripped(""), "");
    assert_eq!(stripped("\u{e9}t\u{e9}\n"), "\u{e9}t\u{e9}");
}

#[test]
fn decimal_string_writes_numerals() {
    assert_eq!(decimal_string(0), "0");
    assert_eq!(decimal_string(7), "7");
    assert_eq!(decimal_string(10), "10");
    assert_eq!(decimal_string(109), "109");
    assert_eq!(decimal_string(1234567890), "1234567890");
    assert_eq!(decimal_string(usize::MAX), usize::MAX.to_string());
}

#[test]
fn str_eq_compares_characters() {
    assert!(str_eq("", ""));
    assert!(str_eq("menu", "menu"));
    assert!(!str_eq("menu", "menus"));
    assert!(!str_eq("menu", "mend"));
    assert!(!str_eq("", "a"));
    assert!(str_eq("\u{e9}", "\u{e9}"));
    assert!(!str_eq("\u{e9}", "e"));
}
