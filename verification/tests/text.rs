use prometheus_mqtt_transport::text::{
    char_is_ascii_whitespace, char_is_whitespace, chars_of, equals_str, fields_of, join_from,
    join_strings, lines_of, position_of, same_text, starts_with, string_of, subvec, trim_of,
};

const SAMPLES: [&str; 22] = [
    "",
    "\n",
    "\r\n",
    "a",
    "a\n",
    "a\r\n",
    "a\r",
    "a\n\nb",
    "a\r\r\nb\r",
    "\r",
    "  # HELP up  Target   is up \t\n",
    "up 1\nup{a=\"b\"} 2\n\n\n",
    "\u{a0}x\u{2003}y\u{3000}",
    "\t\x0b\x0c mixed \x0b\x0c\r",
    "one two\tthree\nfour\rfive\x0csix",
    "   ",
    "\n\n\n",
    "no newline at end",
    "é\u{85}ü\u{1680}",
    "a\u{2028}b\u{2029}c",
    "x\u{200b}y \u{feff}",
    "tail \u{205f}\u{202f}",
];

fn text(v: &Vec<char>) -> String {
    v.iter().collect()
}

#[test]
fn chars_round_trip() {
    for s in SAMPLES {
        let v = chars_of(s);
        assert_eq!(v, s.chars().collect::<Vec<char>>());
        assert_eq!(string_of(&v), s);
    }
}

#[test]
fn whitespace_is_unicode_white_space() {
    for n in 0..=0x10ffffu32 {
        if let Some(c) = char::from_u32(n) {
            assert_eq!(char_is_whitespace(c), c.is_whitespace(), "U+{:04X}", n);
            assert_eq!(char_is_ascii_whitespace(c), c.is_ascii_whitespace(), "U+{:04X}", n);
        }
    }
}

#[test]
fn lines_are_split_at_line_feeds() {
    for s in SAMPLES {
        let got: Vec<String> = lines_of(&chars_of(s)).iter().map(text).collect();
        let want: Vec<String> = s.lines().map(|l| l.to_string()).collect();
        assert_eq!(got, want, "{:?}", s);
    }
    let got: Vec<String> = lines_of(&chars_of("a\r\nb\n\nc\r")).iter().map(text).collect();
    assert_eq!(got, vec!["a", "b", "", "c\r"]);
}

#[test]
fn trim_removes_whitespace_at_both_ends() {
    for s in SAMPLES {
        assert_eq!(text(&trim_of(&chars_of(s))), s.trim(), "{:?}", s);
    }
    assert_eq!(text(&trim_of(&chars_of(" \u{a0}a b\t\n"))), "a b");
}

#[test]
fn fields_are_runs_between_ascii_whitespace() {
    for s in SAMPLES {
        let got: Vec<String> = fields_of(&chars_of(s)).iter().map(text).collect();
        let want: Vec<String> = s.split_ascii_whitespace().map(|l| l.to_string()).collect();
        assert_eq!(got, want, "{:?}", s);
    }
    let got: Vec<String> = fields_of(&chars_of("# HELP  up\tTarget \u{a0}is up ")).iter().map(text).collect();
    assert_eq!(got, vec!["#", "HELP", "up", "Target", "\u{a0}is", "up"]);
}

#[test]
fn position_is_the_first_occurrence() {
    assert_eq!(position_of(&chars_of("a{b{c"), '{'), 1);
    assert_eq!(position_of(&chars_of("abc"), '{'), 3);
    assert_eq!(position_of(&chars_of(""), '{'), 0);
    assert_eq!(position_of(&chars_of("{"), '{'), 0);
}

#[test]
fn subvec_takes_a_range() {
    let v = chars_of("hello");
    assert_eq!(text(&subvec(&v, 1, 3)), "el");
    assert_eq!(text(&subvec(&v, 0, 5)), "hello");
    assert_eq!(text(&subvec(&v, 5, 5)), "");
}

#[test]
fn comparisons() {
    assert!(equals_str(&chars_of("HELP"), "HELP"));
    assert!(!equals_str(&chars_of("HELP"), "HELPx"));
    assert!(!equals_str(&chars_of("HELQ"), "HELP"));
    assert!(equals_str(&chars_of(""), ""));
    assert!(same_text("histogram", "histogram"));
    assert!(!same_text("histogram", "summary"));
    assert!(starts_with("ssl://broker", "ssl://"));
    assert!(!starts_with("tcp://broker", "ssl://"));
    assert!(!starts_with("ssl:/", "ssl://"));
    assert!(starts_with("anything", ""));
}

#[test]
fn joins() {
    let parts: Vec<String> = vec!["a".to_string(), "".to_string(), "c".to_string()];
    assert_eq!(join_strings(&parts, "\n"), "a\n\nc");
    assert_eq!(join_strings(&vec![], ","), "");
    assert_eq!(join_strings(&vec!["x".to_string()], ","), "x");
    assert_eq!(join_strings(&vec!["".to_string()], ","), "");
    let fields: Vec<Vec<char>> = vec![chars_of("#"), chars_of("HELP"), chars_of("up"), chars_of("is"), chars_of("up")];
    assert_eq!(join_from(&fields, 3, " "), "is up");
    assert_eq!(join_from(&fields, 4, " "), "up");
    assert_eq!(join_from(&fields, 5, " "), "");
    assert_eq!(join_from(&fields, 0, ", "), "#, HELP, up, is, up");
}
