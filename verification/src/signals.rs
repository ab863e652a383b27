//! What signals mean and what they lead to, told from the outside: by what is done, not by how it
//! is decided.
use vstd::prelude::*;
use vstd::string::*;

use crate::action::{key_binding, Action};
use crate::bridge::{changed_to, Bridge, Event, Meaning, PropertyValue};
use crate::nad::SECOND;
use crate::remote::{
    colons_replaced, models, press_effects, subscribed, CallFailure, Effect, EffectModel,
    ReconnectTurn, SUBSCRIBE_PAUSE, WATCHDOG_PERIOD,
};
use crate::text::{decimal, hex4};

verus! {

// Meanings.

proof fn interfaces_differ()
    ensures
        "org.bluez.Device1"@ != "org.bluez.GattCharacteristic1"@,
{
    reveal_strlit("org.bluez.Device1");
    reveal_strlit("org.bluez.GattCharacteristic1");
    assert("org.bluez.Device1"@.len() != "org.bluez.GattCharacteristic1"@.len());
}

/// A report comes from the characteristic, in its property `Value`. Its first byte is the lower
/// one of the code, its second byte the upper one, and what follows them does not matter. Nothing
/// else is a report, nor is a value of fewer than two bytes.
pub proof fn report_has_its_lower_byte_first(bridge: Bridge, event: Event, code: u16)
    ensures
        bridge.meaning(event) == Meaning::Report(code) <==> (event matches Event::Signal(
            Some(path),
            Some(change),
        ) && path@ == bridge.char_path@ && change.interface@ == "org.bluez.GattCharacteristic1"@ && (
        changed_to(change.changed@, "Value"@) matches Some(PropertyValue::Bytes(value))
            && value@.len() >= 2 && code % 256 == value@[0] && code / 256 == value@[1])),
{
    interfaces_differ();
}

/// That the remote control is connected or not comes from the device, in its property `Connected`,
/// and from nowhere else.
pub proof fn connection_is_reported_by_the_device(bridge: Bridge, event: Event, connected: bool)
    ensures
        bridge.meaning(event) == Meaning::Connection(connected) <==> (event matches Event::Signal(
            Some(path),
            Some(change),
        ) && path@ == bridge.dev_path@ && change.interface@ == "org.bluez.Device1"@ && changed_to(
            change.changed@,
            "Connected"@,
        ) == Some(PropertyValue::Truth(connected))),
{
    interfaces_differ();
}

/// Two bridges for the same remote control give a signal the same meaning, whatever has happened
/// to them.
pub proof fn meaning_depends_on_the_paths_alone(a: Bridge, b: Bridge, event: Event)
    requires
        a.dev_path@ == b.dev_path@,
        a.char_path@ == b.char_path@,
    ensures
        a.meaning(event) == b.meaning(event),
{
}

/// A property that is not among the ones that have changed has not changed.
pub proof fn other_properties_have_not_changed(
    changed: Seq<(String, PropertyValue)>,
    name: Seq<char>,
)
    requires
        forall|i: int| 0 <= i < changed.len() ==> (#[trigger] changed[i]).0@ != name,
    ensures
        changed_to(changed, name) is None,
    decreases changed.len(),
{
    if changed.len() > 0 {
        assert(changed[0].0@ != name);
        let rest = changed.skip(1);
        assert forall|i: int| 0 <= i < rest.len() implies (#[trigger] rest[i]).0@ != name by {
            assert(rest[i] == changed[i + 1]);
        }
        other_properties_have_not_changed(rest, name);
    }
}

// Effects.

/// The event is the press of the key with this code: it is reported, and it was not down before.
pub open spec fn presses(bridge: Bridge, event: Event, code: u16) -> bool {
    bridge.meaning(event) == Meaning::Report(code) && code != 0 && bridge.keys.last_code != Some(
        code,
    )
}

/// What a hold repeats is what the press has done: a hold of an action begins exactly where that
/// action is carried out and is one that repeats, and so exactly at the press of its own key.
pub proof fn hold_repeats_what_was_pressed(bridge: Bridge, event: Event, action: Action, code: u16)
    requires
        bridge.wf(),
    ensures
        bridge.effects(event).contains(EffectModel::StartHold(action)) <==> (bridge.effects(
            event,
        ).contains(EffectModel::Dispatch(action)) && action.spec_repeatable()),
        presses(bridge, event, code) && key_binding(code) == Some(action) ==> (bridge.effects(
            event,
        ).contains(EffectModel::StartHold(action)) <==> action.spec_repeatable()),
        presses(bridge, event, code) && key_binding(code) != Some(action) ==> !bridge.effects(
            event,
        ).contains(EffectModel::StartHold(action)),
        presses(bridge, event, code) && key_binding(code) == Some(action) ==> bridge.effects(
            event,
        ).contains(EffectModel::Dispatch(action)),
{
    let effects = bridge.effects(event);
    match bridge.meaning(event) {
        Meaning::Report(c) => {
            if presses(bridge, event, c) {
                if let Some(a) = key_binding(c) {
                    assert(effects[2] == EffectModel::Dispatch(a));
                    if a.spec_repeatable() {
                        assert(effects[3] == EffectModel::StartHold(a));
                    }
                }
            }
        },
        _ => {},
    }
}

/// A hold is stopped at a release, at the press of a key and where the remote control is lost, and
/// at nothing else.
pub proof fn what_stops_a_hold(bridge: Bridge, event: Event)
    requires
        bridge.wf(),
    ensures
        bridge.effects(event).contains(EffectModel::StopHold) <==> (bridge.meaning(event)
            == Meaning::Report(0) || bridge.meaning(event) == Meaning::Connection(false) || (exists|
            code: u16,
        | #[trigger] presses(bridge, event, code))),
{
    let effects = bridge.effects(event);
    match bridge.meaning(event) {
        Meaning::Report(code) => {
            if code == 0 {
                assert(effects[0] == EffectModel::StopHold);
            } else if bridge.keys.last_code != Some(code) {
                assert(presses(bridge, event, code));
                assert(effects[0] == EffectModel::StopHold);
            }
        },
        Meaning::Connection(connected) => {
            if !connected {
                assert(effects[1] == EffectModel::StopHold);
            }
        },
        Meaning::Nothing => {},
    }
}

/// The connection to the remote control begins to be restored where that is not going on, and the
/// remote control is lost or the watchdog finds it not connected. It counts as being restored from
/// then on, and otherwise nothing changes about that.
pub proof fn what_begins_a_reconnect(bridge: Bridge, event: Event)
    ensures
        bridge.effects(event).contains(EffectModel::Reconnect) <==> (!bridge.remote.reconnecting
            && (bridge.meaning(event) == Meaning::Connection(false) || (event is Tick
            && !bridge.remote.connected))),
        bridge.remote_after(event).reconnecting <==> (bridge.remote.reconnecting || bridge.effects(
            event,
        ).contains(EffectModel::Reconnect)),
        bridge.meaning(event) matches Meaning::Connection(connected) ==> bridge.remote_after(
            event,
        ).connected == connected,
        bridge.meaning(event) !is Connection ==> bridge.remote_after(event).connected
            == bridge.remote.connected,
{
    let effects = bridge.effects(event);
    if !bridge.remote.reconnecting {
        if bridge.meaning(event) == Meaning::Connection(false) {
            assert(effects[2] == EffectModel::Reconnect);
        } else if event is Tick && !bridge.remote.connected {
            assert(effects[0] == EffectModel::Reconnect);
        }
    }
}

/// The key that is down is the one that was reported last: none after a release and where the
/// remote control is lost, and nothing else changes it.
pub proof fn reported_key_is_down(bridge: Bridge, event: Event, code: u16)
    requires
        bridge.wf(),
    ensures
        bridge.meaning(event) == Meaning::Report(code) && code != 0 ==> bridge.key_after(event)
            == Some(code),
        bridge.meaning(event) == Meaning::Report(0) ==> bridge.key_after(event) is None,
        bridge.meaning(event) == Meaning::Connection(false) ==> bridge.key_after(event) is None,
        bridge.meaning(event) !is Report && bridge.meaning(event) != Meaning::Connection(false)
            ==> bridge.key_after(event) == bridge.keys.last_code,
{
}

proof fn messages_differ(code: u16)
    ensures
        "RX code=0x"@ + hex4(code) != "Unknown code 0x"@ + hex4(code) + ", ignoring"@,
{
    reveal_strlit("RX code=0x");
    reveal_strlit("Unknown code 0x");
    assert(("RX code=0x"@ + hex4(code))[0] == 'R');
    assert(("Unknown code 0x"@ + hex4(code) + ", ignoring"@)[0] == 'U');
}

/// What an event leads to is done once: no effect occurs twice among those of one event.
pub proof fn no_effect_occurs_twice(bridge: Bridge, event: Event, i: int, j: int)
    requires
        bridge.wf(),
        0 <= i < j < bridge.effects(event).len(),
    ensures
        bridge.effects(event)[i] != bridge.effects(event)[j],
{
    if let Meaning::Report(code) = bridge.meaning(event) {
        messages_differ(code);
    }
}

/// What is logged of an event: the code of a key that is pressed, and that it is unknown where it
/// is bound to nothing; whether the remote control is connected; an error on the bus; and the end.
pub proof fn what_is_logged(bridge: Bridge, event: Event, msg: Seq<char>)
    requires
        bridge.wf(),
    ensures
        bridge.effects(event).contains(EffectModel::Log(msg)) <==> {
            ||| exists|code: u16| #[trigger]
                presses(bridge, event, code) && (msg == "RX code=0x"@ + hex4(code) || (key_binding(
                    code,
                ) is None && msg == "Unknown code 0x"@ + hex4(code) + ", ignoring"@))
            ||| bridge.meaning(event) == Meaning::Connection(true) && msg
                == "Device Connected=true"@
            ||| bridge.meaning(event) == Meaning::Connection(false) && msg
                == "Device Connected=false"@
            ||| event matches Event::BusError(e) && msg == "D-Bus error: "@ + e@
            ||| event is Terminate && msg == "Stopping."@
        },
{
    let effects = bridge.effects(event);
    match event {
        Event::Signal(_, _) => match bridge.meaning(event) {
            Meaning::Report(code) => {
                if presses(bridge, event, code) {
                    assert(effects == press_effects(code));
                    assert(effects[1] == EffectModel::Log("RX code=0x"@ + hex4(code)));
                    if key_binding(code) is None {
                        assert(effects[2] == EffectModel::Log(
                            "Unknown code 0x"@ + hex4(code) + ", ignoring"@,
                        ));
                    }
                }
            },
            Meaning::Connection(connected) => {
                if connected {
                    assert(effects[0] == EffectModel::Log("Device Connected=true"@));
                } else {
                    assert(effects[0] == EffectModel::Log("Device Connected=false"@));
                }
            },
            Meaning::Nothing => {},
        },
        Event::BusError(e) => {
            assert(effects[0] == EffectModel::Log("D-Bus error: "@ + e@));
        },
        Event::Terminate => {
            assert(effects[0] == EffectModel::Log("Stopping."@));
        },
        _ => {},
    }
}

/// The first thing that a press does is to end the hold of another key, before anything is carried
/// out for it.
pub proof fn press_begins_with_the_end_of_the_hold(bridge: Bridge, event: Event, code: u16)
    requires
        bridge.wf(),
        presses(bridge, event, code),
    ensures
        bridge.effects(event).len() > 0,
        bridge.effects(event)[0] == EffectModel::StopHold,
{
}

/// An effect is what its model says: the same message, or the same action.
pub proof fn effects_are_what_they_say(effects: Seq<Effect>, i: int)
    requires
        0 <= i < effects.len(),
    ensures
        models(effects).len() == effects.len(),
        effects[i] matches Effect::Log(msg) ==> models(effects)[i] == EffectModel::Log(msg@),
        effects[i] is StopHold ==> models(effects)[i] is StopHold,
        effects[i] is Reconnect ==> models(effects)[i] is Reconnect,
        effects[i] matches Effect::Dispatch(action) ==> models(effects)[i]
            == EffectModel::Dispatch(action),
        effects[i] matches Effect::StartHold(action) ==> models(effects)[i]
            == EffectModel::StartHold(action),
{
}

// The remote control.

/// In the name of a device there are underscores where its address has colons, and everything else
/// is as in the address.
pub proof fn colons_become_underscores(address: Seq<char>, i: int)
    requires
        0 <= i < address.len(),
    ensures
        colons_replaced(address).len() == address.len(),
        address[i] == ':' ==> colons_replaced(address)[i] == '_',
        address[i] != ':' ==> colons_replaced(address)[i] == address[i],
        !colons_replaced(address).contains(':'),
{
}

/// The bridge is subscribed exactly where the call has succeeded or is under way already; why else
/// it has failed, and in which words, does not matter.
pub proof fn what_counts_as_subscribed(failure: CallFailure, result: Result<(), CallFailure>)
    ensures
        result is Ok ==> subscribed(result),
        failure.name is None ==> !subscribed(Err(failure)),
        failure.name matches Some(name) ==> (subscribed(Err(failure)) <==> name@
            == "org.bluez.Error.InProgress"@),
{
}

/// What a turn says is its own message, and no other one.
pub proof fn reconnect_turns_mean_their_words(turn: ReconnectTurn, msg: Seq<char>)
    ensures
        turn.says(msg) ==> turn.log is Some && turn.log->0@ == msg,
        turn.log matches Some(log) ==> turn.says(log@),
{
}

/// The pause after a failure to subscribe is as long as the log says, and the watchdog looks every
/// half a minute.
pub proof fn times_of_the_remote_control()
    ensures
        "Subscribe failed, retrying in "@ + decimal((SUBSCRIBE_PAUSE / SECOND) as nat) + "s: "@
            == "Subscribe failed, retrying in 10s: "@,
        SUBSCRIBE_PAUSE == 10 * SECOND,
        WATCHDOG_PERIOD == 30 * SECOND,
{
    reveal_strlit("Subscribe failed, retrying in ");
    reveal_strlit("s: ");
    reveal_strlit("Subscribe failed, retrying in 10s: ");
    reveal_with_fuel(decimal, 3);
    assert(decimal(10) =~= seq!['1', '0']);
    assert("Subscribe failed, retrying in "@ + decimal(10) + "s: "@
        =~= "Subscribe failed, retrying in 10s: "@);
}

/// What an event leads to is done in this order: it is logged before anything is begun for it, and
/// an action is carried out before it begins to be repeated.
pub proof fn effects_come_in_order(bridge: Bridge, event: Event, i: int, j: int)
    requires
        bridge.wf(),
        0 <= i < bridge.effects(event).len(),
        0 <= j < bridge.effects(event).len(),
    ensures
        bridge.effects(event)[i] is Log && (bridge.effects(event)[j] is Dispatch || bridge.effects(
            event,
        )[j] is StartHold || bridge.effects(event)[j] is Reconnect) ==> i < j,
        bridge.effects(event)[i] is Dispatch && bridge.effects(event)[j] is StartHold ==> i < j,
        bridge.effects(event)[i] is StopHold && (bridge.effects(event)[j] is Dispatch
            || bridge.effects(event)[j] is StartHold || bridge.effects(event)[j] is Reconnect)
            ==> i < j,
{
}

} // verus!
