use nix_snow::document::{copy_lines, lines, text_of};

const TEXTS: [&str; 9] = ["", "\n", "a", "a\n", "\na", "a\nb", "a\n\nb\n", "\n\n", " x \r\n y "];

#[test]
fn lines_are_what_stands_between_line_feeds() {
    assert_eq!(lines(""), vec![String::new()]);
    assert_eq!(lines("a\nb"), vec!["a".to_string(), "b".to_string()]);
    assert_eq!(lines("a\n\nb\n"), vec!["a", "", "b", ""]);
    for text in TEXTS {
        let expected: Vec<String> = text.split('\n').map(|line| line.to_string()).collect();
        assert_eq!(lines(text), expected, "{:?}", text);
    }
}

#[test]
fn text_puts_a_line_feed_between_lines() {
    assert_eq!(text_of(&Vec::new()), "");
    assert_eq!(text_of(&vec!["a".to_string()]), "a");
    assert_eq!(text_of(&vec!["a".to_string(), String::new(), "b".to_string()]), "a\n\nb");
}

#[test]
fn joining_the_lines_of_a_text_gives_the_text() {
    for text in TEXTS {
        assert_eq!(text_of(&lines(text)), text);
    }
}

#[test]
fn splitting_a_joined_document_gives_the_document() {
    let doc = vec!["# SNOW BEGIN".to_string(), String::new(), "  fd".to_string()];
    assert_eq!(lines(&text_of(&doc)), doc);
}

#[test]
fn copy_lines_appends_the_range() {
    let doc: Vec<String> = vec!["a".into(), "b".into(), "c".into()];
    let mut out: Vec<String> = vec!["x".into()];
    copy_lines(&mut out, &doc, 1, 3);
    copy_lines(&mut out, &doc, 2, 2);
    assert_eq!(out, vec!["x", "b", "c"]);
}
