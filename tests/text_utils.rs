use rushell::text::{join_strings, lines_of, parse_usize, split_text, trim_text};

fn strings(v: &[&str]) -> Vec<String> {
    v.iter().map(|s| s.to_string()).collect()
}

#[test]
fn numbers() {
    assert_eq!(parse_usize("42"), Some(42));
    assert_eq!(parse_usize("+7"), Some(7));
    assert_eq!(parse_usize("007"), Some(7));
    assert_eq!(parse_usize("18446744073709551615"), Some(usize::MAX));
    assert_eq!(parse_usize("18446744073709551616"), None);
    assert_eq!(parse_usize(""), None);
    assert_eq!(parse_usize("+"), None);
    assert_eq!(parse_usize("1a"), None);
    assert_eq!(parse_usize("-1"), None);
}

#[test]
fn numbers_agree_with_std() {
    for s in ["0", "12", "+3", "x", " 1", "99999999999999999999"] {
        assert_eq!(parse_usize(s), s.parse::<usize>().ok(), "{s:?}");
    }
}

#[test]
fn splitting() {
    assert_eq!(split_text("a:b:c", ':'), strings(&["a", "b", "c"]));
    assert_eq!(split_text(":", ':'), strings(&["", ""]));
    assert_eq!(split_text("", ':'), strings(&[""]));
}

#[test]
fn lines_like_std() {
    for s in ["", "a", "a\n", "a\r\nb", "a\n\nb\n", "x\r", "\n"] {
        let expected: Vec<String> = s.lines().map(|l| l.to_string()).collect();
        assert_eq!(lines_of(s), expected, "{s:?}");
    }
}

#[test]
fn joining() {
    assert_eq!(join_strings(&strings(&["a", "b"]), "  "), "a  b");
    assert_eq!(join_strings(&strings(&[]), "  "), "");
    assert_eq!(join_strings(&strings(&["x"]), ", "), "x");
}

#[test]
fn trimming_like_std() {
    for s in ["", "  ", " a b ", "\tx\n", "\u{3000}y\u{a0}", "\u{200b}z", "no"] {
        assert_eq!(trim_text(s), s.trim(), "{s:?}");
    }
}
