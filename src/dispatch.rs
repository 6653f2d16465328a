use vstd::prelude::*;
use crate::rotation::{names_of, rotate_current, rotated};
use crate::status::{no_vpns, no_vpns_label, payload, class_of, ActivationState};
use crate::text::text_eq;

verus! {

/// What one invocation was asked to do.
#[derive(Clone, Copy, Debug, PartialEq, Eq, Structural)]
pub enum Command {
    /// Toggle the current selection.
    Toggle,
    /// Select the next configuration.
    Next,
    /// Select the previous configuration.
    Previous,
    /// Report the current selection without changing anything.
    Status,
}

/// What the rest of one invocation does once the configurations and the
/// stored selection are known.
#[derive(Clone, Debug, PartialEq, Eq)]
pub enum Plan {
    /// Print this payload; nothing else happens.
    Report { payload: String },
    /// Toggle this configuration and print the toggle-style payload.
    Toggle { name: String },
    /// Store this configuration as the selection when `save` holds, then
    /// print its status-style payload.
    Show { name: String, save: bool },
}

/// The command that an argument asks for; anything unrecognised toggles.
pub open spec fn command_of(arg: Option<Seq<char>>) -> Command {
    match arg {
        Some(a) => if a == "next"@ {
            Command::Next
        } else if a == "previous"@ {
            Command::Previous
        } else if a == "--status"@ {
            Command::Status
        } else {
            Command::Toggle
        },
        None => Command::Toggle,
    }
}

/// The current selection: the stored one, else the first configuration.
pub open spec fn selection(stored: Option<Seq<char>>, list: Seq<Seq<char>>) -> Seq<char> {
    match stored {
        Some(s) => s,
        None => list[0],
    }
}

/// The view of an optional string.
pub open spec fn opt_view(s: Option<String>) -> Option<Seq<char>> {
    match s {
        Some(t) => Some(t@),
        None => None,
    }
}

/// The configuration that `command` acts on or shows, and whether it is
/// stored as the new selection, given the stored selection `stored`.
pub open spec fn planned(command: Command, list: Seq<Seq<char>>, stored: Option<Seq<char>>) -> (
    Seq<char>,
    bool,
) {
    let current = selection(stored, list);
    match command {
        Command::Toggle => (current, false),
        Command::Next => (rotated(current, list, false), true),
        Command::Previous => (rotated(current, list, true), true),
        Command::Status => (current, false),
    }
}

/// The command that the single optional argument asks for.
pub fn parse_command(arg: Option<&str>) -> (r: Command)
    ensures
        r == command_of(
            match arg {
                Some(a) => Some(a@),
                None => None,
            },
        ),
{
    match arg {
        Some(a) => if text_eq(a, "next") {
            Command::Next
        } else if text_eq(a, "previous") {
            Command::Previous
        } else if text_eq(a, "--status") {
            Command::Status
        } else {
            Command::Toggle
        },
        None => Command::Toggle,
    }
}

/// The current selection: the stored name, or `default` when none could be
/// read.
pub fn load_selection(stored: Option<String>, default: &str) -> (r: String)
    ensures
        r@ == match opt_view(stored) {
            Some(s) => s,
            None => default@,
        },
{
    match stored {
        Some(s) => s,
        None => default.to_owned(),
    }
}

/// Decides what an invocation does. With no configuration it only reports
/// that, whatever the command. Otherwise it starts from the stored selection
/// (the first configuration when none is stored): a toggle acts on it, a
/// status report shows it, and a rotation moves it one step and stores the
/// result.
pub fn dispatch(command: Command, list: &[String], stored: Option<String>) -> (r: Plan)
    ensures
        list@.len() == 0 ==> (r matches Plan::Report { payload: p } && p@ == payload(
            no_vpns_label(),
            class_of(ActivationState::Inactive),
        )),
        list@.len() > 0 ==> ({
            let (name, save) = planned(command, names_of(list@), opt_view(stored));
            match command {
                Command::Toggle => r matches Plan::Toggle { name: n } && n@ == name,
                _ => r matches Plan::Show { name: n, save: s } && n@ == name && s == save,
            }
        }),
{
    if list.len() == 0 {
        return Plan::Report { payload: no_vpns() };
    }
    let current = load_selection(stored, list[0].as_str());
    match command {
        Command::Toggle => Plan::Toggle { name: current },
        Command::Next => Plan::Show { name: rotate_current(current.as_str(), list, false), save: true },
        Command::Previous => Plan::Show { name: rotate_current(current.as_str(), list, true), save: true },
        Command::Status => Plan::Show { name: current, save: false },
    }
}

} // verus!
