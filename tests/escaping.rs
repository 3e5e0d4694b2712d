use sqlib::escaping::{escape, unescape};

#[test]
fn escape_separators_and_backslash() {
    let unescaped = "hello world/|\\";
    assert_eq!(escape(unescaped), "hello\\sworld\\/\\p\\\\");
}

#[test]
fn unescape_separators_and_backslash() {
    let escaped = "hello\\sworld\\/\\p\\\\";
    assert_eq!(unescape(escaped), "hello world/|\\");
}

#[test]
fn escape_control_characters() {
    let s = "\u{7}\u{8}\t\n\u{b}\u{c}\r";
    assert_eq!(escape(s), "\\a\\b\\t\\n\\v\\f\\r");
    assert_eq!(unescape("\\a\\b\\t\\n\\v\\f\\r"), s);
}

#[test]
fn escape_leaves_ordinary_text() {
    assert_eq!(escape("Lobby_1-ä"), "Lobby_1-ä");
    assert_eq!(escape(""), "");
    assert_eq!(unescape(""), "");
}

#[test]
fn unescape_of_escape_gives_text_back() {
    let samples = [
        "",
        "plain",
        "a b|c/d\\e",
        "\\s is not a space",
        "\\\\n",
        "tab\there\nnew line\r\u{7}\u{8}\u{b}\u{c}",
        "ends with \\",
    ];
    for s in samples.iter() {
        assert_eq!(unescape(&escape(s)), *s);
    }
}

#[test]
fn escape_of_well_formed_wire_form_gives_it_back() {
    let samples = ["hello\\sworld", "\\\\s", "a\\pb\\/c\\n", ""];
    for t in samples.iter() {
        assert_eq!(escape(&unescape(t)), *t);
    }
}

#[test]
fn unescape_reads_tokens_left_to_right() {
    // an escaped backslash followed by the letter s
    assert_eq!(unescape("\\\\s"), "\\s");
    // a backslash before a letter that is no token stays
    assert_eq!(unescape("\\x"), "\\x");
    assert_eq!(unescape("end\\"), "end\\");
}
