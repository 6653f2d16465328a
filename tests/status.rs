use wg_toggle::status::{
    is_active, no_vpns, render_status, render_toggle, status_output, toggle,
    toggle_connection, ActivationState, Request,
};

#[test]
fn toggle_flips_the_reported_state() {
    let (request, state) = toggle(false);
    assert_eq!(request, Request::Activate);
    assert_eq!(state, ActivationState::Active);
    let (request, state) = toggle(state == ActivationState::Active);
    assert_eq!(request, Request::Deactivate);
    assert_eq!(state, ActivationState::Inactive);
}

#[test]
fn toggle_style_payload_is_the_bare_name() {
    assert_eq!(
        render_toggle("home", ActivationState::Active),
        "{\"text\": \"home\", \"class\": \"active\"}"
    );
    assert_eq!(
        render_toggle("home", ActivationState::Inactive),
        "{\"text\": \"home\", \"class\": \"inactive\"}"
    );
}

#[test]
fn status_style_payload_for_inactive() {
    assert_eq!(
        render_status("home", ActivationState::Inactive),
        "{\"text\": \"🚫  home\", \"class\": \"inactive\"}"
    );
}

#[test]
fn status_style_payload_for_active() {
    assert_eq!(
        render_status("home", ActivationState::Active),
        "{\"text\": \"🛡️  home\", \"class\": \"active\"}"
    );
}

#[test]
fn toggling_reports_the_state_asked_for() {
    let (request, payload) = toggle_connection("work", true);
    assert_eq!(request, Request::Deactivate);
    assert_eq!(payload, "{\"text\": \"work\", \"class\": \"inactive\"}");
    let (request, payload) = toggle_connection("work", false);
    assert_eq!(request, Request::Activate);
    assert_eq!(payload, "{\"text\": \"work\", \"class\": \"active\"}");
}

#[test]
fn status_output_follows_activity() {
    assert_eq!(status_output("home", true), "{\"text\": \"🛡️  home\", \"class\": \"active\"}");
    assert_eq!(status_output("home", false), "{\"text\": \"🚫  home\", \"class\": \"inactive\"}");
}

#[test]
fn sentinel_payload() {
    assert_eq!(no_vpns(), "{\"text\": \"No VPNs\", \"class\": \"inactive\"}");
}

#[test]
fn activity_is_exact_name_membership() {
    let listing = "home2\nwork\n";
    assert!(is_active(listing, "work"));
    assert!(is_active(listing, "home2"));
    assert!(!is_active(listing, "home"));
    assert!(!is_active(listing, "wor"));
    assert!(!is_active(listing, "home2\nwork"));
    assert!(!is_active("", "home"));
    assert!(is_active("a\r\nb", "a"));
}

#[test]
fn payload_label_is_json_escaped() {
    assert_eq!(
        render_toggle("a\"b", ActivationState::Active),
        "{\"text\": \"a\\\"b\", \"class\": \"active\"}"
    );
    let (_, payload) = toggle_connection("c:\\vpn", true);
    assert_eq!(payload, "{\"text\": \"c:\\\\vpn\", \"class\": \"inactive\"}");
    assert_eq!(
        status_output("x\ty", false),
        "{\"text\": \"🚫  x\\u0009y\", \"class\": \"inactive\"}"
    );
}
