use wg_toggle::dispatch::{dispatch, load_selection, parse_command, Command, Plan};
use wg_toggle::status::status_output;

fn names(items: &[&str]) -> Vec<String> {
    items.iter().map(|s| s.to_string()).collect()
}

#[test]
fn arguments_select_commands() {
    assert_eq!(parse_command(Some("next")), Command::Next);
    assert_eq!(parse_command(Some("previous")), Command::Previous);
    assert_eq!(parse_command(Some("--status")), Command::Status);
    assert_eq!(parse_command(Some("status")), Command::Toggle);
    assert_eq!(parse_command(Some("")), Command::Toggle);
    assert_eq!(parse_command(None), Command::Toggle);
}

#[test]
fn no_configurations_report_no_vpns_for_every_command() {
    let sentinel = "{\"text\": \"No VPNs\", \"class\": \"inactive\"}".to_string();
    for arg in [None, Some("next"), Some("previous"), Some("--status"), Some("other")] {
        let plan = dispatch(parse_command(arg), &[], Some("home".to_string()));
        assert_eq!(plan, Plan::Report { payload: sentinel.clone() });
        let plan = dispatch(parse_command(arg), &[], None);
        assert_eq!(plan, Plan::Report { payload: sentinel.clone() });
    }
}

#[test]
fn next_without_stored_selection_starts_from_the_first() {
    let list = names(&["alpha", "beta"]);
    let plan = dispatch(parse_command(Some("next")), &list, None);
    assert_eq!(plan, Plan::Show { name: "beta".to_string(), save: true });
    assert_eq!(status_output("beta", false), "{\"text\": \"🚫  beta\", \"class\": \"inactive\"}");
}

#[test]
fn previous_rotates_back_from_stored_selection() {
    let list = names(&["alpha", "beta", "gamma"]);
    let plan = dispatch(Command::Previous, &list, Some("beta".to_string()));
    assert_eq!(plan, Plan::Show { name: "alpha".to_string(), save: true });
}

#[test]
fn status_shows_the_stored_selection() {
    let list = names(&["alpha", "beta"]);
    let plan = dispatch(Command::Status, &list, Some("beta".to_string()));
    assert_eq!(plan, Plan::Show { name: "beta".to_string(), save: false });
}

#[test]
fn toggle_acts_on_the_selection_even_if_stale() {
    let list = names(&["alpha", "beta"]);
    let plan = dispatch(Command::Toggle, &list, Some("gone".to_string()));
    assert_eq!(plan, Plan::Toggle { name: "gone".to_string() });
    let plan = dispatch(Command::Toggle, &list, None);
    assert_eq!(plan, Plan::Toggle { name: "alpha".to_string() });
}

#[test]
fn stale_selection_rotates_from_the_front() {
    let list = names(&["a", "b", "c"]);
    let plan = dispatch(Command::Next, &list, Some("x".to_string()));
    assert_eq!(plan, Plan::Show { name: "b".to_string(), save: true });
}

#[test]
fn selection_falls_back_to_default() {
    assert_eq!(load_selection(None, "alpha"), "alpha");
    assert_eq!(load_selection(Some("beta".to_string()), "alpha"), "beta");
}
