use nix_snow::error::Failure;
use nix_snow::picker::{picker_arguments, picker_input, preview_command, selection};

#[test]
fn picker_reads_one_candidate_on_each_line() {
    let candidates = vec!["fd".to_string(), "fdupes".to_string(), "fdm".to_string()];
    assert_eq!(picker_input(&candidates), "fd\nfdupes\nfdm");
    assert_eq!(picker_input(&vec!["fd".to_string()]), "fd");
}

#[test]
fn preview_looks_the_description_up_in_the_kept_output() {
    assert_eq!(
        preview_command("/tmp/out.json", "legacyPackages.x86_64-linux."),
        r#"cat /tmp/out.json | jq -rcs '.[0]["legacyPackages.x86_64-linux.{}"]["description"]'"#
    );
}

#[test]
fn selection_is_the_output_without_trailing_whitespace() {
    assert_eq!(selection("fd\n").unwrap().as_str(), "fd");
    assert_eq!(selection(" fd bat \r\n").unwrap().as_str(), " fd bat");
}

#[test]
fn output_without_a_name_is_a_cancelled_selection() {
    assert_eq!(selection(""), Err(Failure::SelectionCancelled));
    assert_eq!(selection(" \n"), Err(Failure::SelectionCancelled));
}

#[test]
fn picker_shows_the_preview_in_a_wrapped_window() {
    assert_eq!(picker_arguments("cat x"), vec!["--preview-window=wrap:45", "--preview", "cat x"]);
}
