//! The bridge as a whole: what each event on the bus makes it do.
use vstd::prelude::*;
use vstd::string::*;
use vstd::utf8::*;

use crate::action::{key_binding, Action};
use crate::outside::{ascii_upper, unicode_upper};
use crate::remote::{
    char_path, colons_replaced, connection_effects, dev_path, key_repeats, models, press_effects,
    Effect, EffectModel, KeyState, Remote,
};
use crate::text::{join2, join3, same_text};

verus! {

/// What a property has changed to.
pub enum PropertyValue {
    Truth(bool),
    Bytes(Vec<u8>),
    /// A value of any other type.
    Other,
}

/// A `PropertiesChanged` signal.
pub struct PropertyChange {
    pub interface: String,
    /// The names of the properties that have changed and their new values, in any order.
    pub changed: Vec<(String, PropertyValue)>,
}

/// A call to an object of BlueZ.
pub struct BluezCall {
    pub path: String,
    pub interface: String,
    pub method: String,
}

/// What a signal means to the bridge.
#[derive(Clone, Copy, Debug, PartialEq, Eq, Structural)]
pub enum Meaning {
    /// Nothing.
    Nothing,
    /// The remote control has been connected or disconnected.
    Connection(bool),
    /// The remote control reports the code of the key that is down, or zero.
    Report(u16),
}

/// Something that happens to the bridge.
pub enum Event {
    /// A signal from the object at this path, where it could be read.
    Signal(Option<String>, Option<PropertyChange>),
    /// An error on the bus.
    BusError(String),
    /// The end of the connection to the bus.
    BusClosed,
    /// The request to terminate.
    Terminate,
    /// The watchdog's period is over.
    Tick,
}

/// Whether the bridge goes on after an event.
pub enum Verdict {
    GoOn,
    /// It stops, as it was asked to.
    Stop,
    /// It stops with this error.
    Fail(String),
}

/// The bridge between the remote control and the two devices.
pub struct Bridge {
    pub dev_path: String,
    pub char_path: String,
    pub keys: KeyState,
    pub remote: Remote,
}

/// What the property `name` has changed to, where it has changed.
pub open spec fn changed_to(
    changed: Seq<(String, PropertyValue)>,
    name: Seq<char>,
) -> Option<PropertyValue>
    decreases changed.len(),
{
    if changed.len() == 0 {
        None
    } else if changed[0].0@ == name {
        Some(changed[0].1)
    } else {
        changed_to(changed.skip(1), name)
    }
}

/// The order in which the properties are given does not matter: each is found where it stands, as
/// long as no other has its name.
pub proof fn property_is_found(changed: Seq<(String, PropertyValue)>, i: int)
    requires
        0 <= i < changed.len(),
        forall|j: int|
            0 <= j < changed.len() && j != i ==> #[trigger] changed[j].0@ != changed[i].0@,
    ensures
        changed_to(changed, changed[i].0@) == Some(changed[i].1),
    decreases i,
{
    if i > 0 {
        let rest = changed.skip(1);
        assert(changed[0].0@ != changed[i].0@);
        assert forall|j: int| 0 <= j < rest.len() && j != i - 1 implies #[trigger] rest[j].0@
            != rest[i - 1].0@ by {
            assert(rest[j] == changed[j + 1]);
        }
        property_is_found(rest, i - 1);
    }
}

fn find_property<'a>(changed: &'a Vec<(String, PropertyValue)>, name: &str) -> (value: Option<
    &'a PropertyValue,
>)
    ensures
        match changed_to(changed@, name@) {
            Some(expected) => value matches Some(v) && *v == expected,
            None => value is None,
        },
{
    let mut i: usize = 0;
    assert(changed@.skip(0) =~= changed@);
    while i < changed.len()
        invariant
            i <= changed@.len(),
            changed_to(changed@, name@) == changed_to(changed@.skip(i as int), name@),
        decreases changed@.len() - i,
    {
        if same_text(changed[i].0.as_str(), name) {
            return Some(&changed[i].1);
        }
        assert(changed@.skip(i as int).skip(1) =~= changed@.skip(i + 1));
        i += 1;
    }
    None
}

/// What a signal from the object at `path` means to a bridge for the device at `dev` that reports
/// its keys at `chr`. A report is a 16-bit code, the lower byte first.
pub open spec fn meaning_of(
    dev: Seq<char>,
    chr: Seq<char>,
    path: Option<String>,
    change: Option<PropertyChange>,
) -> Meaning {
    match (path, change) {
        (Some(path), Some(change)) => {
            if path@ == dev && change.interface@ == "org.bluez.Device1"@ {
                match changed_to(change.changed@, "Connected"@) {
                    Some(PropertyValue::Truth(connected)) => Meaning::Connection(connected),
                    _ => Meaning::Nothing,
                }
            } else if path@ == chr && change.interface@ == "org.bluez.GattCharacteristic1"@ {
                match changed_to(change.changed@, "Value"@) {
                    Some(PropertyValue::Bytes(value)) => if value@.len() < 2 {
                        Meaning::Nothing
                    } else {
                        Meaning::Report((value@[0] + 256 * value@[1]) as u16)
                    },
                    _ => Meaning::Nothing,
                }
            } else {
                Meaning::Nothing
            }
        },
        _ => Meaning::Nothing,
    }
}

impl Bridge {
    /// The keys are accounted for.
    pub open spec fn wf(self) -> bool {
        self.keys.wf()
    }

    /// What an event means to the bridge, where it is a signal.
    pub open spec fn meaning(self, event: Event) -> Meaning {
        match event {
            Event::Signal(path, change) => meaning_of(
                self.dev_path@,
                self.char_path@,
                path,
                change,
            ),
            _ => Meaning::Nothing,
        }
    }

    /// What an event makes the bridge do.
    pub open spec fn effects(self, event: Event) -> Seq<EffectModel> {
        match event {
            Event::Signal(_, _) => match self.meaning(event) {
                Meaning::Nothing => seq![],
                Meaning::Connection(connected) => connection_effects(
                    connected,
                    self.remote.reconnecting,
                ),
                Meaning::Report(code) => if code == 0 {
                    seq![EffectModel::StopHold]
                } else if self.keys.last_code == Some(code) {
                    seq![]
                } else {
                    press_effects(code)
                },
            },
            Event::BusError(e) => seq![EffectModel::Log("D-Bus error: "@ + e@)],
            Event::BusClosed => seq![],
            Event::Terminate => seq![EffectModel::Log("Stopping."@)],
            Event::Tick => if self.remote.connected || self.remote.reconnecting {
                seq![]
            } else {
                seq![EffectModel::Reconnect]
            },
        }
    }

    /// Which key is down after an event.
    pub open spec fn key_after(self, event: Event) -> Option<u16> {
        match self.meaning(event) {
            Meaning::Report(code) => if code == 0 {
                None
            } else {
                Some(code)
            },
            Meaning::Connection(false) => None,
            _ => self.keys.last_code,
        }
    }

    /// What is known of the remote control after an event.
    pub open spec fn remote_after(self, event: Event) -> Remote {
        match self.meaning(event) {
            Meaning::Connection(connected) => Remote {
                connected,
                reconnecting: self.remote.reconnecting || !connected,
            },
            _ => if event is Tick && !self.remote.connected {
                Remote { connected: false, reconnecting: true }
            } else {
                self.remote
            },
        }
    }

    /// A bridge for the remote control with the address `mac`.
    pub fn new(mac: &str) -> (bridge: Bridge)
        ensures
            bridge.wf(),
            bridge.dev_path@ == "/org/bluez/hci0/dev_"@ + unicode_upper(colons_replaced(mac@)),
            is_ascii_chars(mac@) ==> bridge.dev_path@ == "/org/bluez/hci0/dev_"@ + ascii_upper(
                colons_replaced(mac@),
            ),
            bridge.char_path@ == bridge.dev_path@ + "/service0080/char008c"@,
            bridge.keys.last_code is None,
            !bridge.remote.connected,
            !bridge.remote.reconnecting,
    {
        let dev = dev_path(mac);
        let chr = char_path(dev.as_str());
        Bridge { dev_path: dev, char_path: chr, keys: KeyState::new(), remote: Remote::new() }
    }

    fn decode(&self, path: &Option<String>, change: &Option<PropertyChange>) -> (meaning: Meaning)
        ensures
            meaning == meaning_of(self.dev_path@, self.char_path@, *path, *change),
    {
        match (path, change) {
            (Some(path), Some(change)) => {
                if same_text(path.as_str(), self.dev_path.as_str()) && same_text(
                    change.interface.as_str(),
                    "org.bluez.Device1",
                ) {
                    match find_property(&change.changed, "Connected") {
                        Some(PropertyValue::Truth(connected)) => Meaning::Connection(*connected),
                        _ => Meaning::Nothing,
                    }
                } else if same_text(path.as_str(), self.char_path.as_str()) && same_text(
                    change.interface.as_str(),
                    "org.bluez.GattCharacteristic1",
                ) {
                    match find_property(&change.changed, "Value") {
                        Some(PropertyValue::Bytes(value)) => if value.len() < 2 {
                            Meaning::Nothing
                        } else {
                            Meaning::Report(value[0] as u16 + 256 * value[1] as u16)
                        },
                        _ => Meaning::Nothing,
                    }
                } else {
                    Meaning::Nothing
                }
            },
            _ => Meaning::Nothing,
        }
    }

    /// The call that connects the remote control.
    pub fn connect_call(&self) -> (call: BluezCall)
        ensures
            call.path@ == self.dev_path@,
            call.interface@ == "org.bluez.Device1"@,
            call.method@ == "Connect"@,
    {
        BluezCall {
            path: self.dev_path.clone(),
            interface: "org.bluez.Device1".to_string(),
            method: "Connect".to_string(),
        }
    }

    /// The call that subscribes to the reports of the remote control.
    pub fn subscribe_call(&self) -> (call: BluezCall)
        ensures
            call.path@ == self.char_path@,
            call.interface@ == "org.bluez.GattCharacteristic1"@,
            call.method@ == "StartNotify"@,
    {
        BluezCall {
            path: self.char_path.clone(),
            interface: "org.bluez.GattCharacteristic1".to_string(),
            method: "StartNotify".to_string(),
        }
    }

    /// Takes in a signal from the object at `path`.
    pub fn handle_signal(
        &mut self,
        path: Option<String>,
        change: Option<PropertyChange>,
    ) -> (effects: Vec<Effect>)
        requires
            old(self).wf(),
        ensures
            final(self).wf(),
            final(self).dev_path == old(self).dev_path,
            final(self).char_path == old(self).char_path,
            final(self).keys.last_code == old(self).key_after(Event::Signal(path, change)),
            final(self).remote == old(self).remote_after(Event::Signal(path, change)),
            models(effects@) == old(self).effects(Event::Signal(path, change)),
    {
        match self.decode(&path, &change) {
            Meaning::Nothing => {
                let effects: Vec<Effect> = Vec::new();
                assert(models(effects@) =~= seq![]);
                effects
            },
            Meaning::Connection(connected) => self.keys.connection(&mut self.remote, connected),
            Meaning::Report(code) => self.keys.reported(code),
        }
    }

    /// Takes in an event.
    pub fn handle(&mut self, event: Event) -> (outcome: (Vec<Effect>, Verdict))
        requires
            old(self).wf(),
        ensures
            final(self).wf(),
            final(self).dev_path == old(self).dev_path,
            final(self).char_path == old(self).char_path,
            final(self).keys.last_code == old(self).key_after(event),
            final(self).remote == old(self).remote_after(event),
            models(outcome.0@) == old(self).effects(event),
            match event {
                Event::BusClosed => outcome.1 matches Verdict::Fail(e) && e@
                    == "D-Bus connection closed"@,
                Event::Terminate => outcome.1 is Stop,
                _ => outcome.1 is GoOn,
            },
    {
        let mut effects: Vec<Effect> = Vec::new();
        assert(models(effects@) =~= seq![]);
        match event {
            Event::Signal(path, change) => (self.handle_signal(path, change), Verdict::GoOn),
            Event::BusError(e) => {
                effects.push(Effect::Log(join2("D-Bus error: ", e.as_str())));
                assert(models(effects@) =~= seq![EffectModel::Log("D-Bus error: "@ + e@)]);
                (effects, Verdict::GoOn)
            },
            Event::BusClosed => (effects, Verdict::Fail("D-Bus connection closed".to_string())),
            Event::Terminate => {
                effects.push(Effect::Log("Stopping.".to_string()));
                assert(models(effects@) =~= seq![EffectModel::Log("Stopping."@)]);
                (effects, Verdict::Stop)
            },
            Event::Tick => {
                if !self.remote.connected {
                    if self.remote.spawn_reconnect() {
                        effects.push(Effect::Reconnect);
                        assert(models(effects@) =~= seq![EffectModel::Reconnect]);
                    }
                }
                (effects, Verdict::GoOn)
            },
        }
    }
}

/// A report of the key that is down already does nothing and changes nothing.
pub proof fn repeated_report_is_ignored(bridge: Bridge, event: Event, code: u16)
    requires
        bridge.wf(),
        bridge.keys.last_code == Some(code),
        bridge.meaning(event) == Meaning::Report(code),
    ensures
        bridge.effects(event) == Seq::<EffectModel>::empty(),
        bridge.key_after(event) == bridge.keys.last_code,
        bridge.remote_after(event) == bridge.remote,
{
}

/// An action is carried out for the press of its key and for nothing else: the key has a code of
/// its own, and it was not down before.
pub proof fn only_presses_dispatch(bridge: Bridge, event: Event, action: Action)
    requires
        bridge.wf(),
    ensures
        bridge.effects(event).contains(EffectModel::Dispatch(action)) <==> (bridge.meaning(
            event,
        ) matches Meaning::Report(code) && code != 0 && bridge.keys.last_code != Some(code)
            && key_binding(code) == Some(action)),
{
    if let Meaning::Report(code) = bridge.meaning(event) {
        if key_binding(code) == Some(action) {
            assert(press_effects(code)[2] == EffectModel::Dispatch(action));
        }
    }
}

/// Whether a hold is on after `effects`, where one was or was not before; `None` where one is begun
/// while another one is on.
pub open spec fn hold_after(holding: bool, effects: Seq<EffectModel>) -> Option<bool>
    decreases effects.len(),
{
    if effects.len() == 0 {
        Some(holding)
    } else {
        match hold_after(holding, effects.drop_last()) {
            Some(before) => match effects.last() {
                EffectModel::StopHold => Some(false),
                EffectModel::StartHold(_) => if before {
                    None
                } else {
                    Some(true)
                },
                _ => Some(before),
            },
            None => None,
        }
    }
}

/// No two holds are ever on at the same time, and one is on exactly while a key is down that
/// repeats.
pub proof fn one_hold_at_a_time(bridge: Bridge, event: Event)
    requires
        bridge.wf(),
    ensures
        hold_after(bridge.keys.holding, bridge.effects(event)) == Some(
            bridge.key_after(event) matches Some(code) && key_repeats(code),
        ),
{
    reveal_with_fuel(hold_after, 5);
    let effects = bridge.effects(event);
    if effects.len() > 0 {
        let e1 = effects.drop_last();
        if effects.len() > 1 {
            let e2 = e1.drop_last();
            if effects.len() > 2 {
                let e3 = e2.drop_last();
                if effects.len() > 3 {
                    assert(e3.drop_last() =~= seq![]);
                } else {
                    assert(e3 =~= seq![]);
                }
            } else {
                assert(e2 =~= seq![]);
            }
        } else {
            assert(e1 =~= seq![]);
        }
    }
}

/// When the remote control is lost, its keys are up and its connection is being restored; the
/// restoring is begun then unless it is going on.
pub proof fn lost_remote_is_sought(bridge: Bridge, event: Event)
    requires
        bridge.meaning(event) == Meaning::Connection(false),
    ensures
        bridge.key_after(event) is None,
        !bridge.remote_after(event).connected,
        bridge.remote_after(event).reconnecting,
        bridge.effects(event).contains(EffectModel::Reconnect) <==> !bridge.remote.reconnecting,
{
    if !bridge.remote.reconnecting {
        assert(bridge.effects(event)[2] == EffectModel::Reconnect);
    }
}

/// The watchdog finds a remote control that is not connected being sought.
pub proof fn watchdog_seeks(bridge: Bridge)
    requires
        !bridge.remote.connected,
    ensures
        bridge.remote_after(Event::Tick).reconnecting,
        bridge.effects(Event::Tick).contains(EffectModel::Reconnect)
            <==> !bridge.remote.reconnecting,
{
    if !bridge.remote.reconnecting {
        assert(bridge.effects(Event::Tick)[0] == EffectModel::Reconnect);
    }
}

/// The connection is never restored twice at the same time: restoring it is begun only where
/// that is not going on, and then it is.
pub proof fn one_reconnect_at_a_time(bridge: Bridge, event: Event)
    requires
        bridge.effects(event).contains(EffectModel::Reconnect),
    ensures
        !bridge.remote.reconnecting,
        bridge.remote_after(event).reconnecting,
{
}

/// The first message in the log.
pub fn starting(mac: &str) -> (msg: String)
    ensures
        msg@ == "Starting NAD/Bravia remote bridge (remote "@ + mac@ + ")"@,
{
    join3("Starting NAD/Bravia remote bridge (remote ", mac, ")")
}

} // verus!
