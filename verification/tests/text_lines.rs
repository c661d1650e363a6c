use whack_a_mole::text::{line_count, parse_mole_names};

#[test]
fn names_one_per_line() {
    assert_eq!(parse_mole_names("Ada\nBo\nCy\n"), vec!["Ada", "Bo", "Cy"]);
    assert_eq!(parse_mole_names("Ada\nBo\nCy"), vec!["Ada", "Bo", "Cy"]);
}

#[test]
fn crlf_line_endings() {
    assert_eq!(parse_mole_names("Ada\r\nBo\r\n"), vec!["Ada", "Bo"]);
    // a '\r' without '\n' after it stays in the line
    assert_eq!(parse_mole_names("Ada\r"), vec!["Ada\r"]);
    assert_eq!(parse_mole_names("A\rb\n"), vec!["A\rb"]);
}

#[test]
fn empty_lines_and_texts() {
    assert!(parse_mole_names("").is_empty());
    assert_eq!(parse_mole_names("\n"), vec![""]);
    assert_eq!(parse_mole_names("a\n\nb"), vec!["a", "", "b"]);
    assert_eq!(parse_mole_names("ünï\ncødé"), vec!["ünï", "cødé"]);
}

#[test]
fn line_counts_match_str_lines() {
    for text in ["", "\n", "a", "a\n", "a\r\nb", "a\n\n\nb\r", "x\ny\nz\n", "é\n\u{1F600}"] {
        assert_eq!(line_count(text), text.lines().count(), "{text:?}");
        let parsed = parse_mole_names(text);
        let expected: Vec<&str> = text.lines().collect();
        assert_eq!(parsed, expected, "{text:?}");
    }
}

#[test]
fn lines_round_trip() {
    let names = vec!["Ada", "", "Bo Peep", "Cy"];
    let mut text = String::new();
    for n in &names {
        text.push_str(n);
        text.push('\n');
    }
    assert_eq!(parse_mole_names(&text), names);
}
