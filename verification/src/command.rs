//! Control commands: which actions there are, and what goes over the wire.

use vstd::prelude::*;
use vstd::string::StringExecFns;
use crate::model::PrintCommand;
use crate::text::{decimal, decimal_text, text_eq};

verus! {

/// Whether `action` is one of the four actions that a printer takes.
pub open spec fn is_supported_action(action: Seq<char>) -> bool {
    action == "pause"@ || action == "resume"@ || action == "stop"@ || action == "get_status"@
}

/// An action that a printer takes.
#[derive(Clone, Copy, Debug, PartialEq, Eq, Structural)]
pub enum Action {
    Pause,
    Resume,
    Stop,
    GetStatus,
}

impl Action {
    /// The name of the action on the wire.
    pub open spec fn name_of(self) -> Seq<char> {
        match self {
            Action::Pause => "pause"@,
            Action::Resume => "resume"@,
            Action::Stop => "stop"@,
            Action::GetStatus => "get_status"@,
        }
    }

    /// The name of the action on the wire.
    pub fn name(&self) -> (r: &'static str)
        ensures
            r@ == self.name_of(),
            is_supported_action(r@),
    {
        match self {
            Action::Pause => "pause",
            Action::Resume => "resume",
            Action::Stop => "stop",
            Action::GetStatus => "get_status",
        }
    }

    /// The action of that name, if a printer takes one.
    pub fn parse(name: &str) -> (r: Option<Action>)
        ensures
            match r {
                Some(action) => action.name_of() == name@,
                None => !is_supported_action(name@),
            },
    {
        if text_eq(name, "pause") {
            Some(Action::Pause)
        } else if text_eq(name, "resume") {
            Some(Action::Resume)
        } else if text_eq(name, "stop") {
            Some(Action::Stop)
        } else if text_eq(name, "get_status") {
            Some(Action::GetStatus)
        } else {
            None
        }
    }
}

/// The topic on which the printer with `serial` reports.
pub open spec fn report_topic_of(serial: Seq<char>) -> Seq<char> {
    "device/"@ + serial + "/report"@
}

/// The topic on which the printer with `serial` takes requests.
pub open spec fn request_topic_of(serial: Seq<char>) -> Seq<char> {
    "device/"@ + serial + "/request"@
}

/// The payload of a command: a `print` object with the command's name and,
/// as the sequence id, the decimal numeral of `sequence`.
pub open spec fn payload_of(action: Seq<char>, sequence: i64) -> Seq<char> {
    "{\"print\":{\"command\":\""@ + action + "\",\"sequence_id\":\""@ + decimal(sequence as int)
        + "\"}}"@
}

/// The message of the error for an unsupported action.
pub open spec fn unsupported_message_of(action: Seq<char>) -> Seq<char> {
    "Unsupported command: "@ + action
}

/// Why a command was not taken.
#[derive(Debug, PartialEq, Eq)]
pub enum CommandError {
    /// The action is none of the four that a printer takes.
    Unsupported(String),
}

impl View for CommandError {
    type V = Seq<char>;

    /// The action that was refused.
    open spec fn view(&self) -> Seq<char> {
        match self {
            CommandError::Unsupported(action) => action@,
        }
    }
}

impl CommandError {
    /// What the error says.
    pub fn message(&self) -> (r: String)
        ensures
            r@ == unsupported_message_of(self@),
    {
        match self {
            CommandError::Unsupported(action) => {
                let mut r = String::from_str("Unsupported command: ");
                r.append(action.as_str());
                r
            },
        }
    }
}

impl PrintCommand {
    /// The command for `action`, whatever it is.
    pub fn new(action: &str) -> (r: PrintCommand)
        ensures
            r@ == action@,
    {
        PrintCommand { action: String::from_str(action) }
    }

    /// The command that pauses a print.
    pub fn pause() -> (r: PrintCommand)
        ensures
            r@ == "pause"@,
            is_supported_action(r@),
    {
        PrintCommand { action: String::from_str("pause") }
    }

    /// The command that resumes a paused print.
    pub fn resume() -> (r: PrintCommand)
        ensures
            r@ == "resume"@,
            is_supported_action(r@),
    {
        PrintCommand { action: String::from_str("resume") }
    }

    /// The command that stops a print.
    pub fn stop() -> (r: PrintCommand)
        ensures
            r@ == "stop"@,
            is_supported_action(r@),
    {
        PrintCommand { action: String::from_str("stop") }
    }

    /// The command that asks for the full status.
    pub fn get_status() -> (r: PrintCommand)
        ensures
            r@ == "get_status"@,
            is_supported_action(r@),
    {
        PrintCommand { action: String::from_str("get_status") }
    }

    /// Whether a printer takes this command.
    pub fn is_supported(&self) -> (r: bool)
        ensures
            r == is_supported_action(self@),
    {
        supported_action(self.action.as_str())
    }
}

/// Whether `action` is one of the four actions that a printer takes.
pub fn supported_action(action: &str) -> (r: bool)
    ensures
        r == is_supported_action(action@),
{
    text_eq(action, "pause") || text_eq(action, "resume") || text_eq(action, "stop") || text_eq(
        action,
        "get_status",
    )
}

/// The topic on which the printer with `serial` reports.
pub fn report_topic(serial: &str) -> (r: String)
    ensures
        r@ == report_topic_of(serial@),
{
    let mut r = String::from_str("device/");
    r.append(serial);
    r.append("/report");
    r
}

/// The topic on which the printer with `serial` takes requests.
pub fn request_topic(serial: &str) -> (r: String)
    ensures
        r@ == request_topic_of(serial@),
{
    let mut r = String::from_str("device/");
    r.append(serial);
    r.append("/request");
    r
}

/// The payload of `action` with the sequence id `sequence`.
pub fn payload(action: Action, sequence: i64) -> (r: String)
    ensures
        r@ == payload_of(action.name_of(), sequence),
{
    let mut r = String::from_str("{\"print\":{\"command\":\"");
    r.append(action.name());
    r.append("\",\"sequence_id\":\"");
    let numeral = decimal_text(sequence);
    r.append(numeral.as_str());
    r.append("\"}}");
    r
}

/// The payload of a command with the sequence id `sequence`, or the error
/// for an action that no printer takes.
pub fn command_payload(action: &str, sequence: i64) -> (r: Result<String, CommandError>)
    ensures
        match r {
            Ok(text) => is_supported_action(action@) && text@ == payload_of(action@, sequence),
            Err(e) => !is_supported_action(action@) && e@ == action@,
        },
{
    match Action::parse(action) {
        Some(known) => Ok(payload(known, sequence)),
        None => Err(CommandError::Unsupported(String::from_str(action))),
    }
}

} // verus!
