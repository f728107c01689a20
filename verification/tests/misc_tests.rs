use wydy::url_check::is_url;
use wydy::config::{config_dir, parse_address, DEFAULT_PORT};
use wydy::number::{format_i32, parse_i32, parse_u16, parse_u8};
use wydy::text::{chars_of, is_whitespace, split_words, string_of, trim_chars};
use wydy::ui::Text;
use wydy::{log_level, LogLevel};

#[test]
fn numbers_parse_like_std() {
    for s in ["0", "7", "+7", "255", "256", "-0", "", "+", "1 ", "007", "x"] {
        assert_eq!(parse_u8(s), s.parse::<u8>().ok(), "{:?}", s);
    }
    for s in ["65535", "65536", "9654", "-1"] {
        assert_eq!(parse_u16(s), s.parse::<u16>().ok(), "{:?}", s);
    }
    for s in ["-2147483648", "2147483647", "2147483648", "-2147483649", "-", "-0", "+-1", "12a"] {
        assert_eq!(parse_i32(s), s.parse::<i32>().ok(), "{:?}", s);
    }
}

#[test]
fn numbers_format_like_std() {
    for n in [0, 9, 10, -10, 123456, i32::MIN, i32::MAX] {
        assert_eq!(format_i32(n), n.to_string());
    }
}

#[test]
fn whitespace_is_unicode_white_space() {
    for c in ['\t', '\n', '\u{b}', '\u{c}', '\r', ' ', '\u{85}', '\u{a0}', '\u{1680}', '\u{2000}', '\u{200a}', '\u{2028}', '\u{2029}', '\u{202f}', '\u{205f}', '\u{3000}', 'a', '\u{200b}', '_', '\u{180e}'] {
        assert_eq!(is_whitespace(c), c.is_whitespace(), "{:?}", c);
    }
}

#[test]
fn trim_and_words_like_std() {
    for s in ["", "  ", " a  b\tc\n", "x", "\u{3000}y\u{2028}"] {
        assert_eq!(string_of(&trim_chars(&chars_of(s))), s.trim());
        let words: Vec<String> = split_words(&chars_of(s)).iter().map(|w| string_of(w)).collect();
        let expected: Vec<String> = s.split_whitespace().map(|w| w.to_string()).collect();
        assert_eq!(words, expected);
    }
}

#[test]
fn config_dir_choices() {
    assert_eq!(config_dir(Some("/xdg"), "/home/u", true), "/xdg/wydy");
    assert_eq!(config_dir(None, "/home/u", true), "/home/u/.config/wydy");
    assert_eq!(config_dir(None, "/home/u", false), "/home/u/.wydy");
}

#[test]
fn daemon_addresses() {
    assert_eq!(parse_address("127.0.0.1:9000"), ("127.0.0.1".to_string(), 9000));
    assert_eq!(parse_address("localhost"), ("localhost".to_string(), DEFAULT_PORT));
    assert_eq!(parse_address("h:port"), ("h".to_string(), DEFAULT_PORT));
    assert_eq!(parse_address("h:80:90"), ("h".to_string(), 80));
    assert_eq!(parse_address(":1"), ("".to_string(), 1));
    assert_eq!(parse_address("h:"), ("h".to_string(), DEFAULT_PORT));
}

#[test]
fn log_levels() {
    assert_eq!(log_level(0), LogLevel::Off);
    assert_eq!(log_level(1), LogLevel::Error);
    assert_eq!(log_level(2), LogLevel::Warn);
    assert_eq!(log_level(3), LogLevel::Info);
    assert_eq!(log_level(4), LogLevel::Debug);
    assert_eq!(log_level(5), LogLevel::Trace);
    assert_eq!(log_level(6), LogLevel::Off);
}

#[test]
fn text_line_editing() {
    let mut t = Text::new(String::new());
    assert_eq!(t.draw(), None);
    t.pop();
    assert_eq!(t.text(), "");
    t.push_str("héllo");
    assert_eq!(t.text(), "héllo");
    t.pop();
    assert_eq!(t.text(), "héll");
    assert_eq!(t.width(50), 5 * 21);
    assert_eq!(t.width(3), 5 * 6);
    assert_eq!(t.draw(), Some((10, 25, 105, 50)));
}

#[test]
fn wide_text_is_right_aligned() {
    let t = Text::new("x".repeat(40));
    assert_eq!(t.width(50), 840);
    assert_eq!(t.draw(), Some((600 - 840 - 10, 25, 840, 50)));
}

#[test]
fn text_change_replaces_everything() {
    let mut t = Text::new("abc".to_string());
    t.change_text("xy".to_string());
    assert_eq!(t.text(), "xy");
    assert_eq!(t.width(50), 42);
}

#[test]
fn is_url_finds_class_dot_class_anywhere() {
    assert!(is_url("www.rust-lang.org"));
    assert!(is_url("https://a.b"));
    assert!(is_url("see x.y/"));
    assert!(is_url("a.%"));
    assert!(!is_url("a.-"));
    assert!(!is_url("A.B"));
    assert!(!is_url("no dots here"));
    assert!(!is_url("a."));
    assert!(!is_url(""));
}
