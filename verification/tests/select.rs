use cargo_dev_install::tui_select::choice_prompt;
use cargo_dev_install::tui_select::invalid_text;
use cargo_dev_install::tui_select::menu_text;
use cargo_dev_install::tui_select::parse_selection;
use cargo_dev_install::tui_select::select_bin;
use cargo_dev_install::InstallError;

#[test]
fn select_bin_returns_single_entry() {
    let bins = vec!["demo".to_string()];
    let (selected, output) = select_bin(&bins, "");
    assert_eq!(selected.expect("select bin"), "demo");
    assert!(output.is_empty());
}

#[test]
fn select_bin_prompts_and_selects_choice() {
    let bins = vec!["alpha".to_string(), "beta".to_string()];
    let (selected, output) = select_bin(&bins, "2\n");
    assert_eq!(selected.expect("select bin"), "beta");
    assert!(output.contains("Select a binary:"));
    assert!(output.contains("1) alpha"));
    assert!(output.contains("2) beta"));
}

#[test]
fn select_bin_reprompts_on_invalid_input() {
    let bins = vec!["alpha".to_string(), "beta".to_string()];
    let (selected, output) = select_bin(&bins, "foo\n1\n");
    assert_eq!(selected.expect("select bin"), "alpha");
    assert!(output.contains("Invalid selection"));
}

#[test]
fn select_bin_errors_on_empty_list() {
    let bins = Vec::<String>::new();
    let (selected, output) = select_bin(&bins, "");
    assert!(matches!(selected, Err(InstallError::NoTargets)));
    assert!(output.is_empty());
}

#[test]
fn select_bin_fails_on_end_of_input() {
    let bins = vec!["alpha".to_string(), "beta".to_string()];
    let (selected, output) = select_bin(&bins, "");
    assert!(matches!(selected, Err(InstallError::SelectionFailed)));
    assert!(output.contains("Enter choice (1-2): "));
}

#[test]
fn select_bin_rejects_out_of_range_numbers() {
    let bins = vec!["alpha".to_string(), "beta".to_string()];
    let (selected, output) = select_bin(&bins, "0\n3\n2\n");
    assert_eq!(selected.expect("select bin"), "beta");
    assert_eq!(output.matches("Invalid selection").count(), 2);
}

#[test]
fn select_bin_writes_exact_transcript_for_direct_choice() {
    let bins = vec!["alpha".to_string(), "beta".to_string()];
    let (selected, output) = select_bin(&bins, "2\n");
    assert_eq!(selected.expect("select bin"), "beta");
    assert_eq!(output, "Select a binary:\n  1) alpha\n  2) beta\nEnter choice (1-2): ");
}

#[test]
fn select_bin_accepts_surrounding_whitespace() {
    let bins = vec!["alpha".to_string(), "beta".to_string()];
    let (selected, _) = select_bin(&bins, "  1 \n");
    assert_eq!(selected.expect("select bin"), "alpha");
}

#[test]
fn menu_text_numbers_from_one() {
    let bins = vec!["alpha".to_string(), "beta".to_string()];
    assert_eq!(menu_text(&bins), "Select a binary:\n  1) alpha\n  2) beta\n");
}

#[test]
fn choice_prompt_names_the_range() {
    assert_eq!(choice_prompt(2), "Enter choice (1-2): ");
    assert_eq!(choice_prompt(12), "Enter choice (1-12): ");
}

#[test]
fn parse_selection_trims_and_bounds_checks() {
    assert_eq!(parse_selection(2, "1\n"), Some(0));
    assert_eq!(parse_selection(2, " 2 "), Some(1));
    assert_eq!(parse_selection(2, "0"), None);
    assert_eq!(parse_selection(2, "3"), None);
    assert_eq!(parse_selection(2, "foo"), None);
    assert_eq!(parse_selection(2, ""), None);
}

#[test]
fn invalid_text_matches_the_reprompt_message() {
    assert_eq!(invalid_text(), "Invalid selection. Try again.\n");
}
