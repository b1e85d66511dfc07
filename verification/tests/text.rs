use nix_snow::order::{insert_sorted, line_before};
use nix_snow::text::{
    chars_of, count_leading, is_whitespace, names_match, range_contains, same_range, same_run,
    text_from,
    trim_bounds,
};

fn chars(s: &str) -> Vec<char> {
    s.chars().collect()
}

const SAMPLES: [&str; 16] = [
    "",
    " ",
    "\t\n\r ",
    "fd",
    "  fd",
    "fd  ",
    " \t fd bat \u{a0}\u{2003}",
    "\u{3000}élan\u{3000}",
    "# SNOW BEGIN",
    "  # SNOW BEGIN",
    "# SNOW END",
    "a",
    "B",
    "ab",
    "é",
    "\u{10000}z",
];

#[test]
fn whitespace_is_what_the_standard_library_calls_so() {
    for code in 0..=0x10FFFFu32 {
        if let Some(c) = char::from_u32(code) {
            assert_eq!(is_whitespace(c), c.is_whitespace(), "U+{:04X}", code);
        }
    }
}

#[test]
fn chars_of_gives_the_characters_in_order() {
    assert_eq!(chars_of(""), Vec::<char>::new());
    assert_eq!(chars_of("aé\u{10000}"), vec!['a', 'é', '\u{10000}']);
}

#[test]
fn trim_bounds_agree_with_trim() {
    for sample in SAMPLES {
        let v = chars(sample);
        let (lo, hi) = trim_bounds(&v);
        let kept: String = v[lo..hi].iter().collect();
        assert_eq!(kept, sample.trim(), "{:?}", sample);
        let leading = sample.chars().count() - sample.trim_start().chars().count();
        assert_eq!(count_leading(&v), leading, "{:?}", sample);
    }
    assert_eq!(trim_bounds(&chars("  fd ")), (2, 4));
    assert_eq!(trim_bounds(&chars("   ")), (3, 3));
    assert_eq!(trim_bounds(&chars("")), (0, 0));
}

#[test]
fn range_contains_agrees_with_contains() {
    for hay in SAMPLES {
        for needle in SAMPLES {
            let h = chars(hay);
            assert_eq!(
                range_contains(&h, 0, h.len(), &chars(needle)),
                hay.contains(needle),
                "{:?} in {:?}",
                needle,
                hay
            );
        }
    }
    let h = chars("xxabxx");
    assert!(range_contains(&h, 2, 4, &chars("ab")));
    assert!(!range_contains(&h, 3, 6, &chars("ab")));
    assert!(!range_contains(&h, 2, 3, &chars("ab")));
    assert!(range_contains(&h, 3, 3, &chars("")));
}

#[test]
fn runs_and_ranges_are_compared_by_content() {
    let a = chars("xabcx");
    let b = chars("abcabd");
    assert!(same_run(&a, 1, &b, 0, 3));
    assert!(!same_run(&a, 1, &b, 3, 3));
    assert!(same_run(&a, 5, &b, 6, 0));
    assert!(same_range(&a, 1, 3, &b, 3, 5));
    assert!(!same_range(&a, 1, 3, &b, 3, 6));
    assert!(!same_range(&a, 1, 4, &b, 3, 6));
}

#[test]
fn names_match_once_trimmed() {
    let name = chars("  fd ");
    assert!(names_match("\tfd", &name, 2, 4));
    assert!(names_match("fd", &name, 2, 4));
    assert!(!names_match("f d", &name, 2, 4));
    assert!(!names_match("fdx", &name, 2, 4));
    assert!(names_match("   ", &name, 0, 0));
}

#[test]
fn line_order_is_the_order_of_strings() {
    for a in SAMPLES {
        for b in SAMPLES {
            assert_eq!(line_before(a, b), a <= b, "{:?} <= {:?}", a, b);
        }
    }
    assert!(line_before("  bat", "# SNOW BEGIN"));
    assert!(!line_before("# SNOW BEGIN", "  bat"));
    assert!(line_before("B", "a"));
    assert!(line_before("ab", "abc"));
    assert!(line_before("", ""));
}

#[test]
fn insert_sorted_agrees_with_sort() {
    let mut sorted: Vec<String> = Vec::new();
    for sample in SAMPLES.iter().rev() {
        insert_sorted(&mut sorted, sample.to_string());
    }
    insert_sorted(&mut sorted, "fd".to_string());
    let mut unsorted = vec!["b".to_string(), "a".to_string(), "c".to_string()];
    insert_sorted(&mut unsorted, "b".to_string());
    assert_eq!(unsorted, vec!["b", "a", "b", "c"]);
    let mut expected: Vec<String> = SAMPLES.iter().map(|s| s.to_string()).collect();
    expected.push("fd".to_string());
    expected.sort();
    assert_eq!(sorted, expected);
}

#[test]
fn text_from_gives_the_characters_of_the_range() {
    let v = chars("  fdé ");
    assert_eq!(text_from(&v, 2, 5), "fdé");
    assert_eq!(text_from(&v, 0, 0), "");
    assert_eq!(text_from(&v, 0, 6), "  fdé ");
}
