use todo_app::text::{is_blank, is_whitespace, trim};

#[test]
fn whitespace_is_what_std_calls_whitespace() {
    let mut code: u32 = 0;
    while code <= 0x10FFFF {
        if let Some(c) = char::from_u32(code) {
            assert_eq!(is_whitespace(c), c.is_whitespace(), "U+{:04X}", code);
        }
        code += 1;
    }
}

#[test]
fn whitespace_named_characters() {
    for c in [' ', '\t', '\n', '\u{0B}', '\u{0C}', '\r', '\u{85}', '\u{A0}', '\u{1680}'] {
        assert!(is_whitespace(c), "U+{:04X}", c as u32);
    }
    for c in ['\u{2000}', '\u{200A}', '\u{2028}', '\u{2029}', '\u{202F}', '\u{205F}', '\u{3000}'] {
        assert!(is_whitespace(c), "U+{:04X}", c as u32);
    }
    for c in ['a', '0', '_', '\u{08}', '\u{0E}', '\u{1F}', '\u{180E}', '\u{200B}', '\u{FEFF}'] {
        assert!(!is_whitespace(c), "U+{:04X}", c as u32);
    }
}

#[test]
fn empty_text_is_blank() {
    assert!(is_blank(""));
}

#[test]
fn whitespace_only_is_blank() {
    assert!(is_blank(" "));
    assert!(is_blank(" \t\r\n"));
    assert!(is_blank("\u{3000}\u{A0}"));
}

#[test]
fn text_with_a_letter_is_not_blank() {
    assert!(!is_blank("a"));
    assert!(!is_blank("  a  "));
    assert!(!is_blank("\t\u{200B}\t"));
}

#[test]
fn trim_removes_both_ends() {
    assert_eq!(trim("  buy milk \n"), "buy milk");
}

#[test]
fn trim_keeps_inner_whitespace() {
    assert_eq!(trim("\ta \t b\t"), "a \t b");
}

#[test]
fn trim_of_blank_is_empty() {
    assert_eq!(trim(""), "");
    assert_eq!(trim("   "), "");
    assert_eq!(trim("\n\u{2003}\n"), "");
}

#[test]
fn trim_of_clean_text_is_the_text() {
    assert_eq!(trim("milk"), "milk");
    assert_eq!(trim("x"), "x");
}

#[test]
fn trim_one_sided() {
    assert_eq!(trim("  left"), "left");
    assert_eq!(trim("right  "), "right");
}

#[test]
fn trim_counts_characters_not_bytes() {
    assert_eq!(trim("\u{3000}été \u{2028}"), "été");
    assert_eq!(trim(" ✓ "), "✓");
    assert_eq!(trim("\u{A0}日本語\u{A0}"), "日本語");
}

#[test]
fn trim_twice_is_trim_once() {
    for s in ["", " a ", "  a b  ", "\t\n", "x", " \u{3000}y z\u{85}"] {
        let once = trim(s);
        assert_eq!(trim(&once), once);
    }
}

#[test]
fn trim_agrees_with_std() {
    let samples = [
        "",
        " ",
        "a",
        " a",
        "a ",
        " a ",
        "  a  b  ",
        "\t\ttabs\t\t",
        "\r\nline\r\n",
        "\u{1680}ogham\u{1680}",
        "\u{200B}zero width\u{200B}",
        "\u{FEFF}bom",
        " \u{180E} ",
        "mañana ",
        " 🙂 ",
    ];
    for s in samples {
        assert_eq!(trim(s), s.trim(), "{:?}", s);
        assert_eq!(is_blank(s), s.trim().is_empty(), "{:?}", s);
    }
}

#[test]
fn blank_exactly_when_trim_is_empty() {
    for s in ["", "  ", " a ", "\n", "\u{2009}", "b"] {
        assert_eq!(is_blank(s), trim(s).is_empty(), "{:?}", s);
    }
}

#[test]
fn trimmed_text_has_clean_ends() {
    for s in [" a ", "\t x y \n", "\u{3000}z", "w\u{2028}", "  \u{200B} "] {
        let t = trim(s);
        assert!(!t.is_empty());
        assert!(!is_whitespace(t.chars().next().unwrap()));
        assert!(!is_whitespace(t.chars().last().unwrap()));
    }
}
