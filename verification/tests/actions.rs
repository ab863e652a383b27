use nadbridge::action::{key_action, Action, Nad};
use nadbridge::dispatch::{dispatch, dispatched, Work};
use nadbridge::nad::{NadJob, NadNext};

fn bound_codes() -> Vec<u16> {
    (0..=u16::MAX).filter(|code| key_action(*code).is_some()).collect()
}

#[test]
fn volume_and_mute_go_to_the_amplifier_and_nothing_else_does() {
    assert!(matches!(key_action(0x00E9), Some(Action::Nad(Nad::VolumeUp))));
    assert!(matches!(key_action(0x00EA), Some(Action::Nad(Nad::VolumeDown))));
    assert!(matches!(key_action(0x00E2), Some(Action::Nad(Nad::Mute))));
    for code in bound_codes() {
        let to_amplifier = matches!(key_action(code), Some(Action::Nad(_)));
        assert_eq!(to_amplifier, [0x00E9, 0x00EA, 0x00E2].contains(&code));
    }
}

#[test]
fn twenty_five_keys_are_bound() {
    assert_eq!(bound_codes().len(), 25);
    assert!(key_action(0).is_none());
    assert!(key_action(0xFFFF).is_none());
}

#[test]
fn the_table_holds_ircc_codes_and_app_uris() {
    assert!(matches!(
        key_action(0x0223),
        Some(Action::Ircc("Home", "AAAAAQAAAAEAAABgAw=="))
    ));
    assert!(matches!(
        key_action(0x051F),
        Some(Action::Ircc("GoogleDashboard", "AAAAAgAAAMQAAABwAw=="))
    ));
    assert!(matches!(
        key_action(0x0089),
        Some(Action::App(
            "TV",
            "com.sony.dtv.com.sony.dtv.tvlin.com.sony.dtv.tvlin.view.MainActivity"
        ))
    ));
    assert!(matches!(
        key_action(0x04EA),
        Some(Action::App(
            "PrimeVideo",
            "com.sony.dtv.com.amazon.amazonvideo.livingroom.com.amazon.ignition.IgnitionActivity"
        ))
    ));
}

#[test]
fn labels_name_the_device_and_the_key() {
    assert_eq!(Action::Nad(Nad::VolumeUp).label(), "nad/volume_up");
    assert_eq!(Action::Nad(Nad::VolumeDown).label(), "nad/volume_down");
    assert_eq!(Action::Nad(Nad::Mute).label(), "nad/mute");
    assert_eq!(Action::Ircc("Home", "x").label(), "ircc/Home");
    assert_eq!(Action::App("Disney+", "x").label(), "app/Disney+");
}

#[test]
fn labels_tell_keys_apart() {
    let mut labels: Vec<String> =
        bound_codes().iter().map(|code| key_action(*code).unwrap().label()).collect();
    labels.sort();
    labels.dedup();
    assert_eq!(labels.len(), 25);
}

#[test]
fn no_two_keys_do_the_same() {
    let mut work: Vec<(u32, &str)> = bound_codes()
        .iter()
        .map(|code| match key_action(*code).unwrap() {
            Action::Nad(Nad::VolumeUp) => (0, "up"),
            Action::Nad(Nad::VolumeDown) => (0, "down"),
            Action::Nad(Nad::Mute) => (0, "mute"),
            Action::Ircc(_, ircc) => (1, ircc),
            Action::App(_, uri) => (2, uri),
        })
        .collect();
    work.sort();
    work.dedup();
    assert_eq!(work.len(), 25);
}

#[test]
fn arrows_channels_and_volume_repeat() {
    let repeating: Vec<u16> =
        bound_codes().into_iter().filter(|code| key_action(*code).unwrap().repeatable()).collect();
    assert_eq!(
        repeating,
        vec![0x0042, 0x0043, 0x0044, 0x0045, 0x009C, 0x009D, 0x00E9, 0x00EA]
    );
    assert!(!Action::Nad(Nad::Mute).repeatable());
    assert!(!Action::App("Up", "").repeatable());
    assert!(!Action::Ircc("up", "").repeatable());
}

#[test]
fn each_action_goes_to_its_device() {
    match dispatch(&Action::Nad(Nad::Mute)) {
        Work::Amplifier(NadNext::Send(command, job)) => {
            assert_eq!(command.text, "Main.Mute?\r");
            assert!(matches!(job, NadJob::Query));
        }
        _ => panic!("the amplifier is not asked"),
    }
    match dispatch(&Action::Ircc("Home", "AAAAAQAAAAEAAABgAw==")) {
        Work::Television(request) => assert_eq!(request.path, "/sony/ircc"),
        _ => panic!("the television is not asked"),
    }
    match dispatch(&Action::App("TV", "com.sony")) {
        Work::Television(request) => assert_eq!(request.path, "/sony/appControl"),
        _ => panic!("the television is not asked"),
    }
}

#[test]
fn results_are_logged() {
    let action = Action::Ircc("Home", "x");
    assert_eq!(dispatched(&action, false, Ok(())), (Some("OK ircc/Home".to_string()), true));
    assert_eq!(dispatched(&action, true, Ok(())), (None, true));
    assert_eq!(
        dispatched(&action, true, Err("no".to_string())),
        (Some("ERROR ircc/Home: no".to_string()), false)
    );
    assert_eq!(
        dispatched(&action, false, Err("no".to_string())),
        (Some("ERROR ircc/Home: no".to_string()), false)
    );
}
