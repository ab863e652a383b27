//! Actions, carried to the device that they are for.
use vstd::prelude::*;
use vstd::string::*;

use crate::action::{Action, Nad};
use crate::nad::{handle_nad, NadNext};
use crate::text::{join2, join3};
use crate::tv::{app_call, handle_app, handle_ircc, ircc_envelope, TvRequest};

verus! {

/// The work that an action makes.
pub enum Work {
    /// Commands to the amplifier, of which this is the first.
    Amplifier(NadNext),
    /// A request to the television.
    Television(TvRequest),
}

/// Turns an action into work for the device that it is for.
pub fn dispatch(action: &Action) -> (work: Work)
    ensures
        match *action {
            Action::Nad(Nad::VolumeUp) => work matches Work::Amplifier(next) && next.sends(
                "Main.Volume+\r"@,
                None,
            ) && next.job() is Volume,
            Action::Nad(Nad::VolumeDown) => work matches Work::Amplifier(next) && next.sends(
                "Main.Volume-\r"@,
                None,
            ) && next.job() is Volume,
            Action::Nad(Nad::Mute) => work matches Work::Amplifier(next) && next.sends(
                "Main.Mute?\r"@,
                Some("Main.Mute="@),
            ) && next.job() is Query,
            Action::Ircc(_, code) => work matches Work::Television(request) && request.path@
                == "/sony/ircc"@ && request.body@ == ircc_envelope(code@) && request.header_texts()
                == seq![
                ("SOAPACTION"@, "\"urn:schemas-sony-com:service:IRCC:1#X_SendIRCC\""@),
                ("Content-Type"@, "text/xml; charset=UTF-8"@),
            ],
            Action::App(_, uri) => work matches Work::Television(request) && request.path@
                == "/sony/appControl"@ && request.body@ == app_call(uri@) && request.header_texts()
                == seq![("Content-Type"@, "application/json"@)],
        },
{
    match action {
        Action::Nad(command) => Work::Amplifier(handle_nad(*command)),
        Action::Ircc(_, code) => Work::Television(handle_ircc(code)),
        Action::App(_, uri) => Work::Television(handle_app(uri)),
    }
}

/// What is to be logged of an action that has been carried out, and whether it has succeeded.
pub fn dispatched(action: &Action, quiet: bool, result: Result<(), String>) -> (outcome: (
    Option<String>,
    bool,
))
    ensures
        match result {
            Ok(_) => outcome.1 && if quiet {
                outcome.0 is None
            } else {
                outcome.0 matches Some(msg) && msg@ == "OK "@ + action.spec_label()
            },
            Err(e) => !outcome.1 && (outcome.0 matches Some(msg) && msg@ == "ERROR "@
                + action.spec_label() + ": "@ + e@),
        },
{
    match result {
        Ok(_) => {
            let msg = if quiet {
                None
            } else {
                Some(join2("OK ", action.label().as_str()))
            };
            (msg, true)
        },
        Err(e) => {
            let mut msg = join3("ERROR ", action.label().as_str(), ": ");
            msg.append(e.as_str());
            (Some(msg), false)
        },
    }
}

} // verus!
