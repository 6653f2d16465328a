use vstd::prelude::*;
use vstd::string::*;
use crate::listing::{lines_of, split_lines};
use crate::rotation::names_of;
use crate::json::{escape_json, json_escaped};
use crate::text::text_eq;

verus! {

/// Whether a tunnel configuration is up.
#[derive(Clone, Copy, Debug, PartialEq, Eq, Structural)]
pub enum ActivationState {
    Active,
    Inactive,
}

/// What the network service is asked to do with a configuration.
#[derive(Clone, Copy, Debug, PartialEq, Eq, Structural)]
pub enum Request {
    Activate,
    Deactivate,
}

/// Whether `conn` is up, given the names of the active connections, one per
/// line: it is when one of those lines is exactly its name.
pub fn is_active(active_listing: &str, conn: &str) -> (r: bool)
    ensures
        r == lines_of(active_listing@).contains(conn@),
{
    let lines = split_lines(active_listing);
    let ghost all = names_of(lines@);
    let mut i: usize = 0;
    while i < lines.len()
        invariant
            all == names_of(lines@),
            all == lines_of(active_listing@),
            i <= all.len(),
            forall|j: int| 0 <= j < i ==> #[trigger] all[j] != conn@,
        decreases all.len() - i,
    {
        if text_eq(lines[i].as_str(), conn) {
            assert(all[i as int] == conn@);
            return true;
        }
        i = i + 1;
    }
    false
}

/// The activation state that `active` reports.
pub open spec fn state_of(active: bool) -> ActivationState {
    if active {
        ActivationState::Active
    } else {
        ActivationState::Inactive
    }
}

/// The request that toggling a configuration makes, and the state it then
/// reports: the one it asked for, unconfirmed.
pub open spec fn toggled(active: bool) -> (Request, ActivationState) {
    if active {
        (Request::Deactivate, ActivationState::Inactive)
    } else {
        (Request::Activate, ActivationState::Active)
    }
}

/// The class tag of a payload.
pub open spec fn class_of(state: ActivationState) -> Seq<char> {
    match state {
        ActivationState::Active => "active"@,
        ActivationState::Inactive => "inactive"@,
    }
}

/// The label of a passive status report: the name behind a shield when the
/// configuration is up, behind a no-entry sign when it is down.
pub open spec fn status_label(name: Seq<char>, state: ActivationState) -> Seq<char> {
    match state {
        ActivationState::Active => "\u{1F6E1}\u{FE0F}  "@ + name,
        ActivationState::Inactive => "\u{1F6AB}  "@ + name,
    }
}

/// The one-line JSON status payload with a label and a class tag; the label
/// is escaped so that any text reads back as itself.
pub open spec fn payload(label: Seq<char>, class: Seq<char>) -> Seq<char> {
    "{\"text\": \""@ + json_escaped(label) + "\", \"class\": \""@ + class + "\"}"@
}

/// The label shown when there is no configuration at all.
pub open spec fn no_vpns_label() -> Seq<char> {
    "No VPNs"@
}

/// What toggling a configuration asks for and reports, given whether it is
/// up now.
pub fn toggle(active: bool) -> (r: (Request, ActivationState))
    ensures
        r == toggled(active),
{
    if active {
        (Request::Deactivate, ActivationState::Inactive)
    } else {
        (Request::Activate, ActivationState::Active)
    }
}

/// The class tag of a payload.
fn class_text(state: ActivationState) -> (r: &'static str)
    ensures
        r@ == class_of(state),
{
    match state {
        ActivationState::Active => "active",
        ActivationState::Inactive => "inactive",
    }
}

/// The payload with the given label and class tag.
fn render_payload(label: &str, class: &str) -> (r: String)
    ensures
        r@ == payload(label@, class@),
{
    let mut r = "{\"text\": \"".to_owned();
    let text = escape_json(label);
    r.append(text.as_str());
    r.append("\", \"class\": \"");
    r.append(class);
    r.append("\"}");
    r
}

/// The payload shown right after a toggle or a rotation: the bare name.
pub fn render_toggle(name: &str, state: ActivationState) -> (r: String)
    ensures
        r@ == payload(name@, class_of(state)),
{
    render_payload(name, class_text(state))
}

/// The payload of a passive status report, with the state's glyph before
/// the name.
pub fn render_status(name: &str, state: ActivationState) -> (r: String)
    ensures
        r@ == payload(status_label(name@, state), class_of(state)),
{
    let mut label = match state {
        ActivationState::Active => "\u{1F6E1}\u{FE0F}  ".to_owned(),
        ActivationState::Inactive => "\u{1F6AB}  ".to_owned(),
    };
    label.append(name);
    render_payload(label.as_str(), class_text(state))
}

/// The payload shown when no tunnel configuration exists.
pub fn no_vpns() -> (r: String)
    ensures
        r@ == payload(no_vpns_label(), class_of(ActivationState::Inactive)),
{
    render_payload("No VPNs", "inactive")
}

/// Toggles `conn`, which is up when `active` holds: the request to make and
/// the payload that reports the state asked for.
pub fn toggle_connection(conn: &str, active: bool) -> (r: (Request, String))
    ensures
        r.0 == toggled(active).0,
        r.1@ == payload(conn@, class_of(toggled(active).1)),
{
    let (request, state) = toggle(active);
    (request, render_toggle(conn, state))
}

/// The status payload of `conn`, which is up when `active` holds.
pub fn status_output(conn: &str, active: bool) -> (r: String)
    ensures
        r@ == payload(status_label(conn@, state_of(active)), class_of(state_of(active))),
{
    let state = if active {
        ActivationState::Active
    } else {
        ActivationState::Inactive
    };
    render_status(conn, state)
}

/// A toggle asks for the state opposite to the one reported, and says it
/// reached it: toggling an inactive configuration activates it, and toggling
/// it again, now reported active, deactivates it, back where it started.
pub proof fn lemma_toggle_twice(active: bool)
    ensures
        toggled(active).1 == state_of(!active),
        toggled(false) == (Request::Activate, ActivationState::Active),
        toggled(true) == (Request::Deactivate, ActivationState::Inactive),
        toggled(toggled(active).1 == ActivationState::Active).1 == state_of(active),
        toggled(toggled(active).1 == ActivationState::Active).0 != toggled(active).0,
{
}

} // verus!
