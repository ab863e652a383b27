//! The remote control: where BlueZ keeps it, how its connection is restored, and what its
//! signals make the bridge do.
use vstd::prelude::*;
use vstd::string::*;
use vstd::utf8::*;

use crate::action::{key_action, key_binding, Action};
use crate::outside::{ascii_upper, to_upper, unicode_upper};
use crate::text::{hex4, join2, push_hex4, same_text};

verus! {

/// The pause before the next attempt to subscribe, in nanoseconds.
pub const SUBSCRIBE_PAUSE: u64 = 10_000_000_000;

/// The time between two looks at whether the remote control is connected, in nanoseconds.
pub const WATCHDOG_PERIOD: u64 = 30_000_000_000;

// Paths.

/// `s` with underscores in place of its colons.
pub open spec fn colons_replaced(s: Seq<char>) -> Seq<char> {
    s.map_values(
        |c: char|
            if c == ':' {
                '_'
            } else {
                c
            },
    )
}

fn replace_colons(s: &str) -> (out: String)
    ensures
        out@ == colons_replaced(s@),
{
    let mut out = String::new();
    for c in it: s.chars()
        invariant
            it.seq() == s@,
            out@ == colons_replaced(s@.take(it.index())),
    {
        assert(s@.take(it.index() + 1) =~= s@.take(it.index()).push(c));
        if c == ':' {
            out.push('_');
        } else {
            out.push(c);
        }
    }
    assert(s@.take(s@.len() as int) =~= s@);
    out
}

/// The object path of the device that BlueZ calls `name`.
pub fn device_path(name: &str) -> (path: String)
    ensures
        path@ == "/org/bluez/hci0/dev_"@ + name@,
{
    join2("/org/bluez/hci0/dev_", name)
}

/// The object path of the device with the address `mac`.
pub fn dev_path(mac: &str) -> (path: String)
    ensures
        path@ == "/org/bluez/hci0/dev_"@ + unicode_upper(colons_replaced(mac@)),
        is_ascii_chars(mac@) ==> path@ == "/org/bluez/hci0/dev_"@ + ascii_upper(
            colons_replaced(mac@),
        ),
{
    let name = replace_colons(mac);
    device_path(to_upper(name.as_str()).as_str())
}

/// The object path of the characteristic on which the device at `dev_path` reports its keys.
pub fn char_path(dev_path: &str) -> (path: String)
    ensures
        path@ == dev_path@ + "/service0080/char008c"@,
{
    join2(dev_path, "/service0080/char008c")
}

/// The paths of a device and of its characteristic differ.
pub proof fn paths_differ(dev_path: Seq<char>)
    ensures
        dev_path + "/service0080/char008c"@ != dev_path,
{
    reveal_strlit("/service0080/char008c");
    assert((dev_path + "/service0080/char008c"@).len() > dev_path.len());
}

// Connecting.

/// What is known of the connection to the remote control.
#[derive(Clone, Copy, Debug)]
pub struct Remote {
    pub connected: bool,
    /// Whether the connection is being restored.
    pub reconnecting: bool,
}

/// Why a call to BlueZ has failed.
pub struct CallFailure {
    /// The name of the D-Bus error, where the call was answered with one.
    pub name: Option<String>,
    /// The error in words.
    pub text: String,
}

/// What is to be done next to restore the connection.
#[derive(Clone, Copy, Debug, PartialEq, Eq, Structural)]
pub enum ReconnectStep {
    /// Call `Connect` of the device.
    Connect,
    /// Call `StartNotify` of the characteristic.
    Subscribe,
    /// Wait, then begin again.
    Pause,
    /// Nothing: the connection is restored.
    Over,
}

/// A message for the log, and what is to be done after it.
pub struct ReconnectTurn {
    pub log: Option<String>,
    pub step: ReconnectStep,
}

impl ReconnectTurn {
    /// The turn logs `msg`.
    pub open spec fn says(self, msg: Seq<char>) -> bool {
        self.log matches Some(log) && log@ == msg
    }
}

/// Whether `StartNotify` has left the bridge subscribed: it has succeeded, or it is under way.
pub open spec fn subscribed(result: Result<(), CallFailure>) -> bool {
    match result {
        Ok(_) => true,
        Err(failure) => failure.name matches Some(name) && name@
            == "org.bluez.Error.InProgress"@,
    }
}

impl Remote {
    /// A remote control of which nothing is known.
    pub fn new() -> (remote: Remote)
        ensures
            !remote.connected,
            !remote.reconnecting,
    {
        Remote { connected: false, reconnecting: false }
    }

    /// Whether to begin restoring the connection: only where that is not going on.
    pub fn spawn_reconnect(&mut self) -> (begin: bool)
        ensures
            begin == !old(self).reconnecting,
            final(self).reconnecting,
            final(self).connected == old(self).connected,
    {
        let begin = !self.reconnecting;
        self.reconnecting = true;
        begin
    }

    /// Ends the restoring, or tries again after a pause, after `StartNotify` has been called.
    pub fn subscribe_called(&mut self, result: Result<(), CallFailure>) -> (turn: ReconnectTurn)
        ensures
            subscribed(result) ==> final(self).connected && !final(self).reconnecting && turn.step
                is Over && turn.says("Connected and subscribed."@),
            !subscribed(result) ==> *final(self) == *old(self) && turn.step is Pause && (result
                matches Err(failure) && turn.says(
                "Subscribe failed, retrying in 10s: "@ + failure.text@,
            )),
    {
        let failure = match result {
            Ok(_) => None,
            Err(failure) => {
                let under_way = match &failure.name {
                    Some(name) => same_text(name.as_str(), "org.bluez.Error.InProgress"),
                    None => false,
                };
                if under_way {
                    None
                } else {
                    Some(failure)
                }
            },
        };
        match failure {
            None => {
                self.connected = true;
                self.reconnecting = false;
                ReconnectTurn {
                    log: Some("Connected and subscribed.".to_string()),
                    step: ReconnectStep::Over,
                }
            },
            Some(failure) => ReconnectTurn {
                log: Some(join2("Subscribe failed, retrying in 10s: ", failure.text.as_str())),
                step: ReconnectStep::Pause,
            },
        }
    }
}

/// Begins an attempt to restore the connection.
pub fn reconnect() -> (turn: ReconnectTurn)
    ensures
        turn.says("Connecting to remote..."@),
        turn.step is Connect,
{
    ReconnectTurn {
        log: Some("Connecting to remote...".to_string()),
        step: ReconnectStep::Connect,
    }
}

/// Goes on after `Connect` has been called. It fails where the remote control is connected
/// already; what decides is whether `StartNotify` succeeds.
pub fn connect_called(result: Result<(), CallFailure>) -> (turn: ReconnectTurn)
    ensures
        turn.step is Subscribe,
        match result {
            Ok(_) => turn.log is None,
            Err(failure) => turn.says("Connect: "@ + failure.text@),
        },
{
    let log = match result {
        Ok(_) => None,
        Err(failure) => Some(join2("Connect: ", failure.text.as_str())),
    };
    ReconnectTurn { log, step: ReconnectStep::Subscribe }
}

// Signals.

/// Something for the bridge to do.
pub enum Effect {
    /// Log this message.
    Log(String),
    /// End the hold that is going on, if any.
    StopHold,
    /// Begin to restore the connection to the remote control.
    Reconnect,
    /// Carry out this action once.
    Dispatch(Action),
    /// Begin to repeat this action.
    StartHold(Action),
}

/// An effect as a mathematical value.
pub enum EffectModel {
    Log(Seq<char>),
    StopHold,
    Reconnect,
    Dispatch(Action),
    StartHold(Action),
}

impl View for Effect {
    type V = EffectModel;

    open spec fn view(&self) -> EffectModel {
        match *self {
            Effect::Log(msg) => EffectModel::Log(msg@),
            Effect::StopHold => EffectModel::StopHold,
            Effect::Reconnect => EffectModel::Reconnect,
            Effect::Dispatch(action) => EffectModel::Dispatch(action),
            Effect::StartHold(action) => EffectModel::StartHold(action),
        }
    }
}

/// The effects `effects` as mathematical values.
pub open spec fn models(effects: Seq<Effect>) -> Seq<EffectModel> {
    effects.map_values(|e: Effect| e@)
}

/// Which key is down.
#[derive(Clone, Copy, Debug)]
pub struct KeyState {
    /// The code of the key that is down.
    pub last_code: Option<u16>,
    /// Whether a hold has been begun for it, and not been stopped.
    pub holding: bool,
}

/// Whether the key with this code repeats while it is held down.
pub open spec fn key_repeats(code: u16) -> bool {
    key_binding(code) matches Some(action) && action.spec_repeatable()
}

/// What the press of the key with this code does, where no key was down or another one.
pub open spec fn press_effects(code: u16) -> Seq<EffectModel> {
    let seen = seq![EffectModel::StopHold, EffectModel::Log("RX code=0x"@ + hex4(code))];
    match key_binding(code) {
        Some(action) => if action.spec_repeatable() {
            seen + seq![EffectModel::Dispatch(action), EffectModel::StartHold(action)]
        } else {
            seen + seq![EffectModel::Dispatch(action)]
        },
        None => seen + seq![
            EffectModel::Log("Unknown code 0x"@ + hex4(code) + ", ignoring"@),
        ],
    }
}

/// What it does that the remote control has come or gone, where its connection was or was not
/// being restored.
pub open spec fn connection_effects(connected: bool, reconnecting: bool) -> Seq<EffectModel> {
    if connected {
        seq![EffectModel::Log("Device Connected=true"@)]
    } else if reconnecting {
        seq![EffectModel::Log("Device Connected=false"@), EffectModel::StopHold]
    } else {
        seq![
            EffectModel::Log("Device Connected=false"@),
            EffectModel::StopHold,
            EffectModel::Reconnect,
        ]
    }
}

impl KeyState {
    /// Zero is no key, and a hold is on exactly while a key is down that repeats.
    pub open spec fn wf(self) -> bool {
        &&& self.last_code != Some(0u16)
        &&& self.holding <==> (self.last_code matches Some(code) && key_repeats(code))
    }

    /// No key is down.
    pub fn new() -> (keys: KeyState)
        ensures
            keys.wf(),
            keys.last_code is None,
            !keys.holding,
    {
        KeyState { last_code: None, holding: false }
    }

    /// Notes that the hold ends. Where one was on, its key is still noted as being down: the
    /// caller clears or replaces the code next.
    pub fn stop_hold(&mut self)
        ensures
            !final(self).holding,
            final(self).last_code == old(self).last_code,
            old(self).wf() && !old(self).holding ==> final(self).wf(),
    {
        self.holding = false;
    }

    /// Takes in a report of the remote control: the code of the key that is down, or zero.
    pub fn reported(&mut self, code: u16) -> (effects: Vec<Effect>)
        requires
            old(self).wf(),
        ensures
            final(self).wf(),
            final(self).last_code == (if code == 0 {
                None
            } else {
                Some(code)
            }),
            models(effects@) == (if code == 0 {
                seq![EffectModel::StopHold]
            } else if old(self).last_code == Some(code) {
                seq![]
            } else {
                press_effects(code)
            }),
            old(self).last_code == Some(code) ==> *final(self) == *old(self),
    {
        let mut effects: Vec<Effect> = Vec::new();
        if code == 0 {
            self.stop_hold();
            self.last_code = None;
            effects.push(Effect::StopHold);
            assert(models(effects@) =~= seq![EffectModel::StopHold]);
            return effects;
        }
        if let Some(last) = self.last_code {
            if last == code {
                assert(models(effects@) =~= seq![]);
                return effects;
            }
        }
        self.stop_hold();
        self.last_code = Some(code);
        effects.push(Effect::StopHold);
        let mut msg = "RX code=0x".to_string();
        push_hex4(&mut msg, code);
        effects.push(Effect::Log(msg));
        match key_action(code) {
            Some(action) => {
                effects.push(Effect::Dispatch(action));
                if action.repeatable() {
                    effects.push(Effect::StartHold(action));
                    self.holding = true;
                }
            },
            None => {
                let mut msg = "Unknown code 0x".to_string();
                push_hex4(&mut msg, code);
                msg.append(", ignoring");
                effects.push(Effect::Log(msg));
            },
        }
        assert(models(effects@) =~= press_effects(code));
        effects
    }

    /// Takes in whether the remote control is connected.
    pub fn connection(&mut self, remote: &mut Remote, connected: bool) -> (effects: Vec<Effect>)
        requires
            old(self).wf(),
        ensures
            final(self).wf(),
            final(remote).connected == connected,
            connected ==> *final(self) == *old(self),
            connected ==> final(remote).reconnecting == old(remote).reconnecting,
            !connected ==> final(self).last_code is None && !final(self).holding,
            !connected ==> final(remote).reconnecting,
            models(effects@) == connection_effects(connected, old(remote).reconnecting),
    {
        let mut effects: Vec<Effect> = Vec::new();
        remote.connected = connected;
        if connected {
            effects.push(Effect::Log("Device Connected=true".to_string()));
        } else {
            effects.push(Effect::Log("Device Connected=false".to_string()));
            self.stop_hold();
            self.last_code = None;
            effects.push(Effect::StopHold);
            if remote.spawn_reconnect() {
                effects.push(Effect::Reconnect);
            }
        }
        assert(models(effects@) =~= connection_effects(connected, old(remote).reconnecting));
        effects
    }
}

} // verus!
