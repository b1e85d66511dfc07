use nix_snow::error::Failure;

#[test]
fn only_missing_markers_let_the_run_go_on() {
    let all = [
        Failure::NotFound,
        Failure::BackendUnavailable,
        Failure::SelectionCancelled,
        Failure::PickerUnavailable,
        Failure::AlreadyPresent,
        Failure::NotPresent,
        Failure::MarkersMissing,
        Failure::InvalidConfig,
        Failure::RebuildFailed,
    ];
    for failure in all {
        let soft = failure == Failure::MarkersMissing;
        assert_eq!(failure.is_fatal(), !soft);
        assert_eq!(failure.exit_status(), if soft { 0 } else { 1 });
    }
}
