use netru::text::{
    escape_single_quotes, is_whitespace, join_strings, parse_u16, rsplit_once, split_char,
    split_once, str_equal, strip_str, trim_start_matches, trim_str, u16_to_string,
};

#[test]
fn whitespace_agrees_with_std() {
    for u in 0u32..=0x10ffff {
        if let Some(c) = char::from_u32(u) {
            assert_eq!(is_whitespace(c), c.is_whitespace(), "{:x}", u);
        }
    }
}

#[test]
fn trim_agrees_with_std() {
    let cases = [
        "",
        "   ",
        " a ",
        "\t'manual'\n",
        "\u{3000}x\u{2009}",
        "a b",
        "\u{85}\u{a0}y\u{1680}",
        "no-trim",
    ];
    for s in cases {
        assert_eq!(trim_str(s), s.trim());
    }
}

#[test]
fn strip_str_removes_one_quote_each_side() {
    assert_eq!(strip_str("'abc'"), "abc");
    assert_eq!(strip_str("'abc"), "abc");
    assert_eq!(strip_str("abc'"), "abc");
    assert_eq!(strip_str("abc"), "abc");
    assert_eq!(strip_str("'"), "");
    assert_eq!(strip_str("''"), "");
    assert_eq!(strip_str("''x''"), "'x'");
    assert_eq!(strip_str(""), "");
}

#[test]
fn parse_u16_agrees_with_std() {
    let cases = [
        "", "+", "-", "+5", "-5", "0", "007", "65535", "65536", "99999999999", "12a", " 1",
        "1 ", "++1", "+0", "8080", "٣",
    ];
    for s in cases {
        assert_eq!(parse_u16(s), s.parse::<u16>().ok(), "{:?}", s);
    }
}

#[test]
fn u16_text_agrees_with_std() {
    for n in 0..=u16::MAX {
        let t = u16_to_string(n);
        assert_eq!(t, n.to_string());
        assert_eq!(parse_u16(&t), Some(n));
    }
}

#[test]
fn splits_agree_with_std() {
    let cases = ["", ",", "a,b", "a,,b,", "host:80", "::1:80", "no-sep", "a b:c"];
    for s in cases {
        let ours: Vec<&str> = split_char(s, ',');
        let theirs: Vec<&str> = s.split(',').collect();
        assert_eq!(ours, theirs);
        assert_eq!(split_once(s, ':'), s.split_once(':'));
        assert_eq!(rsplit_once(s, ':'), s.rsplit_once(':'));
    }
}

#[test]
fn join_and_escape() {
    let parts = vec!["a".to_string(), "".to_string(), "c".to_string()];
    assert_eq!(join_strings(&parts, ", "), "a, , c");
    assert_eq!(join_strings(&Vec::new(), ","), "");
    assert_eq!(escape_single_quotes("it's 'x'"), "it\\'s \\'x\\'");
    assert_eq!(escape_single_quotes("plain"), "plain");
}

#[test]
fn trim_start_matches_agrees_with_std() {
    let cases = ["http://http://x", "http://", "xhttp://", "", "socks5://h:1"];
    for s in cases {
        assert_eq!(trim_start_matches(s, "http://"), s.trim_start_matches("http://"));
        assert_eq!(trim_start_matches(s, ""), s.trim_start_matches(""));
    }
}

#[test]
fn str_equal_compares_text() {
    assert!(str_equal("KDE", "KDE"));
    assert!(!str_equal("KDE", "kde"));
    assert!(!str_equal("KDE", "KDE "));
    assert!(str_equal("", ""));
}
