use nadbridge::action::{Action, Nad};
use nadbridge::bridge::{starting, Bridge, Event, PropertyChange, PropertyValue, Verdict};
use nadbridge::remote::{
    char_path, connect_called, dev_path, device_path, reconnect, CallFailure, Effect, KeyState,
    ReconnectStep, Remote,
};

const MAC: &str = "aa:Bb:01:23:45:ff";
const DEV: &str = "/org/bluez/hci0/dev_AA_BB_01_23_45_FF";
const CHR: &str = "/org/bluez/hci0/dev_AA_BB_01_23_45_FF/service0080/char008c";

/// What is seen of effects, in one line each.
fn shown(effects: Vec<Effect>) -> Vec<String> {
    effects
        .iter()
        .map(|effect| match effect {
            Effect::Log(msg) => format!("log {}", msg),
            Effect::StopHold => "stop".to_string(),
            Effect::Reconnect => "reconnect".to_string(),
            Effect::Dispatch(action) => format!("dispatch {}", action.label()),
            Effect::StartHold(action) => format!("hold {}", action.label()),
        })
        .collect()
}

fn signal(path: &str, interface: &str, changed: Vec<(&str, PropertyValue)>) -> Event {
    let changed = changed.into_iter().map(|(name, value)| (name.to_string(), value)).collect();
    let change = PropertyChange { interface: interface.to_string(), changed };
    Event::Signal(Some(path.to_string()), Some(change))
}

fn report(path: &str, interface: &str, bytes: &[u8]) -> Event {
    signal(path, interface, vec![("Value", PropertyValue::Bytes(bytes.to_vec()))])
}

fn key(bytes: &[u8]) -> Event {
    report(CHR, "org.bluez.GattCharacteristic1", bytes)
}

fn connection(connected: bool) -> Event {
    signal(DEV, "org.bluez.Device1", vec![("Connected", PropertyValue::Truth(connected))])
}

fn after(bridge: &mut Bridge, event: Event) -> Vec<String> {
    let (effects, verdict) = bridge.handle(event);
    assert!(matches!(verdict, Verdict::GoOn));
    shown(effects)
}

#[test]
fn paths_are_made_of_the_address() {
    assert_eq!(dev_path(MAC), DEV);
    assert_eq!(char_path(DEV), CHR);
    assert_eq!(device_path("X"), "/org/bluez/hci0/dev_X");
    assert_eq!(dev_path("ß:é"), "/org/bluez/hci0/dev_SS_É");
    let bridge = Bridge::new(MAC);
    assert_eq!(bridge.dev_path, DEV);
    assert_eq!(bridge.char_path, CHR);
    assert_ne!(bridge.dev_path, bridge.char_path);
}

#[test]
fn the_start_is_logged() {
    assert_eq!(starting("aa:bb"), "Starting NAD/Bravia remote bridge (remote aa:bb)");
}

#[test]
fn the_calls_to_bluez() {
    let bridge = Bridge::new(MAC);
    let call = bridge.connect_call();
    assert_eq!(
        (call.path.as_str(), call.interface.as_str(), call.method.as_str()),
        (DEV, "org.bluez.Device1", "Connect")
    );
    let call = bridge.subscribe_call();
    assert_eq!(
        (call.path.as_str(), call.interface.as_str(), call.method.as_str()),
        (CHR, "org.bluez.GattCharacteristic1", "StartNotify")
    );
}

#[test]
fn a_press_is_dispatched_and_held() {
    let mut bridge = Bridge::new(MAC);
    assert_eq!(
        after(&mut bridge, key(&[0xE9, 0x00])),
        vec!["stop", "log RX code=0x00e9", "dispatch nad/volume_up", "hold nad/volume_up"]
    );
    assert_eq!(bridge.keys.last_code, Some(0x00E9));
    assert!(bridge.keys.holding);
    assert_eq!(after(&mut bridge, key(&[0xE9, 0x00, 7])), Vec::<String>::new());
    assert_eq!(after(&mut bridge, key(&[0, 0])), vec!["stop"]);
    assert_eq!(bridge.keys.last_code, None);
    assert!(!bridge.keys.holding);
    assert_eq!(
        after(&mut bridge, key(&[0xE9, 0x00])),
        vec!["stop", "log RX code=0x00e9", "dispatch nad/volume_up", "hold nad/volume_up"]
    );
}

#[test]
fn a_key_that_does_not_repeat_is_dispatched_once() {
    let mut bridge = Bridge::new(MAC);
    assert_eq!(
        after(&mut bridge, key(&[0x23, 0x02])),
        vec!["stop", "log RX code=0x0223", "dispatch ircc/Home"]
    );
    assert!(!bridge.keys.holding);
}

#[test]
fn another_key_ends_the_hold_of_the_first() {
    let mut bridge = Bridge::new(MAC);
    after(&mut bridge, key(&[0x42, 0x00]));
    assert_eq!(
        after(&mut bridge, key(&[0xEB, 0x04])),
        vec!["stop", "log RX code=0x04eb", "dispatch app/DisneyPlus"]
    );
    assert!(!bridge.keys.holding);
}

#[test]
fn an_unknown_code_is_logged() {
    let mut bridge = Bridge::new(MAC);
    assert_eq!(
        after(&mut bridge, key(&[0xCD, 0xAB])),
        vec!["stop", "log RX code=0xabcd", "log Unknown code 0xabcd, ignoring"]
    );
    assert_eq!(after(&mut bridge, key(&[0xCD, 0xAB])), Vec::<String>::new());
}

#[test]
fn other_signals_mean_nothing() {
    let mut bridge = Bridge::new(MAC);
    let bytes = [0xE9, 0x00];
    let truth = PropertyValue::Truth;
    for event in [
        report(DEV, "org.bluez.GattCharacteristic1", &bytes),
        report(CHR, "org.bluez.Device1", &bytes),
        report("/org/bluez", "org.bluez.GattCharacteristic1", &bytes),
        signal(CHR, "org.bluez.GattCharacteristic1", vec![]),
        signal(CHR, "org.bluez.GattCharacteristic1", vec![("Value", PropertyValue::Other)]),
        signal(CHR, "org.bluez.GattCharacteristic1", vec![("Value", truth(true))]),
        signal(
            CHR,
            "org.bluez.GattCharacteristic1",
            vec![("Notifying", PropertyValue::Bytes(bytes.to_vec()))],
        ),
        key(&[0xE9]),
        key(&[]),
        signal(DEV, "org.bluez.Device1", vec![]),
        signal(DEV, "org.bluez.Device1", vec![("Connected", PropertyValue::Bytes(vec![1]))]),
        signal(DEV, "org.bluez.Device1", vec![("Paired", truth(false))]),
        Event::Signal(None, None),
        Event::Signal(Some(CHR.to_string()), None),
    ] {
        assert_eq!(after(&mut bridge, event), Vec::<String>::new());
        assert_eq!(bridge.keys.last_code, None);
    }
}

#[test]
fn the_property_that_matters_is_found_among_others() {
    let other = || ("RSSI", PropertyValue::Other);
    let value = || ("Value", PropertyValue::Bytes(vec![0x23, 0x02]));
    let notifying = || ("Notifying", PropertyValue::Truth(true));
    for changed in [
        vec![value(), other(), notifying()],
        vec![other(), value(), notifying()],
        vec![notifying(), other(), value()],
    ] {
        let mut bridge = Bridge::new(MAC);
        assert_eq!(
            after(&mut bridge, signal(CHR, "org.bluez.GattCharacteristic1", changed)),
            vec!["stop", "log RX code=0x0223", "dispatch ircc/Home"]
        );
    }
}

#[test]
fn a_lost_remote_is_sought() {
    let mut bridge = Bridge::new(MAC);
    assert_eq!(after(&mut bridge, connection(true)), vec!["log Device Connected=true"]);
    assert!(bridge.remote.connected);
    after(&mut bridge, key(&[0xE9, 0x00]));
    assert_eq!(
        after(&mut bridge, connection(false)),
        vec!["log Device Connected=false", "stop", "reconnect"]
    );
    assert!(!bridge.remote.connected);
    assert!(bridge.remote.reconnecting);
    assert_eq!(bridge.keys.last_code, None);
    assert!(!bridge.keys.holding);
    assert_eq!(
        after(&mut bridge, connection(false)),
        vec!["log Device Connected=false", "stop"]
    );
}

#[test]
fn the_watchdog_seeks_a_remote_that_is_not_connected() {
    let mut bridge = Bridge::new(MAC);
    assert_eq!(after(&mut bridge, Event::Tick), vec!["reconnect"]);
    assert_eq!(after(&mut bridge, Event::Tick), Vec::<String>::new());
    bridge.remote.subscribe_called(Ok(()));
    assert_eq!(after(&mut bridge, Event::Tick), Vec::<String>::new());
    assert!(!bridge.remote.reconnecting);
}

#[test]
fn the_bus_ends_the_bridge() {
    let mut bridge = Bridge::new(MAC);
    assert_eq!(after(&mut bridge, Event::BusError("x".to_string())), vec!["log D-Bus error: x"]);
    let (effects, verdict) = bridge.handle(Event::BusClosed);
    assert!(effects.is_empty());
    match verdict {
        Verdict::Fail(e) => assert_eq!(e, "D-Bus connection closed"),
        _ => panic!("the bridge goes on"),
    }
    let (effects, verdict) = bridge.handle(Event::Terminate);
    assert_eq!(shown(effects), vec!["log Stopping."]);
    assert!(matches!(verdict, Verdict::Stop));
}

#[test]
fn the_remote_is_sought_once_at_a_time() {
    let mut remote = Remote::new();
    assert!(remote.spawn_reconnect());
    assert!(!remote.spawn_reconnect());
    remote.subscribe_called(Ok(()));
    assert!(remote.connected);
    assert!(remote.spawn_reconnect());
}

fn failed(name: Option<&str>) -> Result<(), CallFailure> {
    Err(CallFailure { name: name.map(|n| n.to_string()), text: "no luck".to_string() })
}

#[test]
fn connecting_may_fail() {
    let turn = reconnect();
    assert_eq!(turn.log.as_deref(), Some("Connecting to remote..."));
    assert_eq!(turn.step, ReconnectStep::Connect);
    let turn = connect_called(failed(None));
    assert_eq!(turn.log.as_deref(), Some("Connect: no luck"));
    assert_eq!(turn.step, ReconnectStep::Subscribe);
    let turn = connect_called(Ok(()));
    assert_eq!(turn.log, None);
    assert_eq!(turn.step, ReconnectStep::Subscribe);
}

#[test]
fn subscribing_decides() {
    for result in [Ok(()), failed(Some("org.bluez.Error.InProgress"))] {
        let mut remote = Remote { connected: false, reconnecting: true };
        let turn = remote.subscribe_called(result);
        assert_eq!(turn.log.as_deref(), Some("Connected and subscribed."));
        assert_eq!(turn.step, ReconnectStep::Over);
        assert!(remote.connected);
        assert!(!remote.reconnecting);
    }
    for result in [failed(None), failed(Some("org.bluez.Error.Failed"))] {
        let mut remote = Remote { connected: false, reconnecting: true };
        let turn = remote.subscribe_called(result);
        assert_eq!(turn.log.as_deref(), Some("Subscribe failed, retrying in 10s: no luck"));
        assert_eq!(turn.step, ReconnectStep::Pause);
        assert!(!remote.connected);
        assert!(remote.reconnecting);
    }
}

#[test]
fn key_states() {
    let mut keys = KeyState::new();
    let effects = keys.reported(0x009D);
    assert!(matches!(effects[2], Effect::Dispatch(Action::Ircc("ChannelDown", _))));
    assert!(matches!(effects[3], Effect::StartHold(Action::Ircc("ChannelDown", _))));
    keys.stop_hold();
    assert!(!keys.holding);
    assert_eq!(keys.last_code, Some(0x009D));
    let mut keys = KeyState::new();
    let effects = keys.reported(0x00E2);
    assert!(matches!(effects[2], Effect::Dispatch(Action::Nad(Nad::Mute))));
    assert_eq!(effects.len(), 3);
    let mut remote = Remote { connected: true, reconnecting: false };
    let effects = keys.connection(&mut remote, false);
    assert_eq!(shown(effects), vec!["log Device Connected=false", "stop", "reconnect"]);
}
