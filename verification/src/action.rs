//! The keys of the remote control and what each of them does.
use vstd::prelude::*;
use vstd::string::*;

use crate::text::{join2, same_text};

verus! {

/// What the amplifier can be told.
#[derive(Clone, Copy, Debug, PartialEq, Eq, Structural)]
pub enum Nad {
    VolumeUp,
    VolumeDown,
    Mute,
}

/// What a key does.
#[derive(Clone, Copy, Debug)]
pub enum Action {
    /// A command to the amplifier.
    Nad(Nad),
    /// A key press on the television: its name and its IRCC code.
    Ircc(&'static str, &'static str),
    /// An app to start on the television: its name and its URI.
    App(&'static str, &'static str),
}

/// The names of the television keys that repeat while they are held down.
pub open spec fn repeats_by_name(name: Seq<char>) -> bool {
    ||| name == "Up"@
    ||| name == "Down"@
    ||| name == "Left"@
    ||| name == "Right"@
    ||| name == "ChannelUp"@
    ||| name == "ChannelDown"@
}

impl Action {
    /// The name of the action in the log.
    pub open spec fn spec_label(self) -> Seq<char> {
        match self {
            Action::Nad(Nad::VolumeUp) => "nad/volume_up"@,
            Action::Nad(Nad::VolumeDown) => "nad/volume_down"@,
            Action::Nad(Nad::Mute) => "nad/mute"@,
            Action::Ircc(name, _) => "ircc/"@ + name@,
            Action::App(name, _) => "app/"@ + name@,
        }
    }

    /// Whether the action repeats while its key is held down.
    pub open spec fn spec_repeatable(self) -> bool {
        match self {
            Action::Nad(command) => command != Nad::Mute,
            Action::Ircc(name, _) => repeats_by_name(name@),
            Action::App(_, _) => false,
        }
    }

    /// The name of the action in the log.
    pub fn label(&self) -> (label: String)
        ensures
            label@ == self.spec_label(),
    {
        match self {
            Action::Nad(Nad::VolumeUp) => "nad/volume_up".to_string(),
            Action::Nad(Nad::VolumeDown) => "nad/volume_down".to_string(),
            Action::Nad(Nad::Mute) => "nad/mute".to_string(),
            Action::Ircc(name, _) => join2("ircc/", name),
            Action::App(name, _) => join2("app/", name),
        }
    }

    /// Whether the action repeats while its key is held down.
    pub fn repeatable(&self) -> (yes: bool)
        ensures
            yes == self.spec_repeatable(),
    {
        match self {
            Action::Nad(command) => *command != Nad::Mute,
            Action::Ircc(name, _) => same_text(name, "Up") || same_text(name, "Down") || same_text(
                name,
                "Left",
            ) || same_text(name, "Right") || same_text(name, "ChannelUp") || same_text(
                name,
                "ChannelDown",
            ),
            Action::App(_, _) => false,
        }
    }
}

/// The action of each key, by its HID usage code.
pub open spec fn key_binding(code: u16) -> Option<Action> {
    match code {
        0x00E9 => Some(Action::Nad(Nad::VolumeUp)),
        0x00EA => Some(Action::Nad(Nad::VolumeDown)),
        0x00E2 => Some(Action::Nad(Nad::Mute)),
        0x0223 => Some(Action::Ircc("Home", "AAAAAQAAAAEAAABgAw==")),
        0x0224 => Some(Action::Ircc("Return", "AAAAAgAAAJcAAAAjAw==")),
        0x0042 => Some(Action::Ircc("Up", "AAAAAQAAAAEAAAB0Aw==")),
        0x0043 => Some(Action::Ircc("Down", "AAAAAQAAAAEAAAB1Aw==")),
        0x0044 => Some(Action::Ircc("Left", "AAAAAQAAAAEAAAA0Aw==")),
        0x0045 => Some(Action::Ircc("Right", "AAAAAQAAAAEAAAAzAw==")),
        0x0041 => Some(Action::Ircc("Confirm", "AAAAAQAAAAEAAABlAw==")),
        0x00CD => Some(Action::Ircc("PlayPause", "AAAAAgAAAJcAAAAPAw==")),
        0x009C => Some(Action::Ircc("ChannelUp", "AAAAAQAAAAEAAAAQAw==")),
        0x009D => Some(Action::Ircc("ChannelDown", "AAAAAQAAAAEAAAARAw==")),
        0x008D => Some(Action::Ircc("EPG", "AAAAAgAAAKQAAABbAw==")),
        0x0547 => Some(Action::Ircc("Netflix", "AAAAAgAAABoAAAB8Aw==")),
        0x0533 => Some(Action::Ircc("TvInput", "AAAAAQAAAAEAAAAlAw==")),
        0x04E5 => Some(Action::Ircc("YouTube", "AAAAAgAAAMQAAABHAw==")),
        0x03C3 => Some(Action::Ircc("Help", "AAAAAgAAAMQAAABNAw==")),
        0x051F => Some(Action::Ircc("GoogleDashboard", "AAAAAgAAAMQAAABwAw==")),
        0x0089 => Some(
            Action::App(
                "TV",
                "com.sony.dtv.com.sony.dtv.tvlin.com.sony.dtv.tvlin.view.MainActivity",
            ),
        ),
        0x0586 => Some(
            Action::App(
                "Settings",
                "com.sony.dtv.com.android.tv.settings.com.android.tv.settings.MainSettings",
            ),
        ),
        0x04EB => Some(
            Action::App(
                "DisneyPlus",
                "com.sony.dtv.com.disney.disneyplus.com.bamtechmedia.dominguez.main.MainActivity",
            ),
        ),
        0x04EA => Some(
            Action::App(
                "PrimeVideo",
                "com.sony.dtv.com.amazon.amazonvideo.livingroom.com.amazon.ignition.IgnitionActivity",
            ),
        ),
        0x04F0 => Some(
            Action::App(
                "SonyPicturesCore",
                "com.sony.dtv.com.sonypicturescore.com.sphe.bravialounge.SplashActivity",
            ),
        ),
        0x04FB => Some(
            Action::App(
                "ARDMediathek",
                "com.sony.dtv.de.swr.avp.ard.tv.de.swr.avp.ard.tv.TvActivity",
            ),
        ),
        _ => None,
    }
}

/// The action of the key with this HID usage code, where it has one.
pub fn key_action(code: u16) -> (action: Option<Action>)
    ensures
        action == key_binding(code),
{
    match code {
        0x00E9 => Some(Action::Nad(Nad::VolumeUp)),
        0x00EA => Some(Action::Nad(Nad::VolumeDown)),
        0x00E2 => Some(Action::Nad(Nad::Mute)),
        0x0223 => Some(Action::Ircc("Home", "AAAAAQAAAAEAAABgAw==")),
        0x0224 => Some(Action::Ircc("Return", "AAAAAgAAAJcAAAAjAw==")),
        0x0042 => Some(Action::Ircc("Up", "AAAAAQAAAAEAAAB0Aw==")),
        0x0043 => Some(Action::Ircc("Down", "AAAAAQAAAAEAAAB1Aw==")),
        0x0044 => Some(Action::Ircc("Left", "AAAAAQAAAAEAAAA0Aw==")),
        0x0045 => Some(Action::Ircc("Right", "AAAAAQAAAAEAAAAzAw==")),
        0x0041 => Some(Action::Ircc("Confirm", "AAAAAQAAAAEAAABlAw==")),
        0x00CD => Some(Action::Ircc("PlayPause", "AAAAAgAAAJcAAAAPAw==")),
        0x009C => Some(Action::Ircc("ChannelUp", "AAAAAQAAAAEAAAAQAw==")),
        0x009D => Some(Action::Ircc("ChannelDown", "AAAAAQAAAAEAAAARAw==")),
        0x008D => Some(Action::Ircc("EPG", "AAAAAgAAAKQAAABbAw==")),
        0x0547 => Some(Action::Ircc("Netflix", "AAAAAgAAABoAAAB8Aw==")),
        0x0533 => Some(Action::Ircc("TvInput", "AAAAAQAAAAEAAAAlAw==")),
        0x04E5 => Some(Action::Ircc("YouTube", "AAAAAgAAAMQAAABHAw==")),
        0x03C3 => Some(Action::Ircc("Help", "AAAAAgAAAMQAAABNAw==")),
        0x051F => Some(Action::Ircc("GoogleDashboard", "AAAAAgAAAMQAAABwAw==")),
        0x0089 => Some(
            Action::App(
                "TV",
                "com.sony.dtv.com.sony.dtv.tvlin.com.sony.dtv.tvlin.view.MainActivity",
            ),
        ),
        0x0586 => Some(
            Action::App(
                "Settings",
                "com.sony.dtv.com.android.tv.settings.com.android.tv.settings.MainSettings",
            ),
        ),
        0x04EB => Some(
            Action::App(
                "DisneyPlus",
                "com.sony.dtv.com.disney.disneyplus.com.bamtechmedia.dominguez.main.MainActivity",
            ),
        ),
        0x04EA => Some(
            Action::App(
                "PrimeVideo",
                "com.sony.dtv.com.amazon.amazonvideo.livingroom.com.amazon.ignition.IgnitionActivity",
            ),
        ),
        0x04F0 => Some(
            Action::App(
                "SonyPicturesCore",
                "com.sony.dtv.com.sonypicturescore.com.sphe.bravialounge.SplashActivity",
            ),
        ),
        0x04FB => Some(
            Action::App(
                "ARDMediathek",
                "com.sony.dtv.de.swr.avp.ard.tv.de.swr.avp.ard.tv.TvActivity",
            ),
        ),
        _ => None,
    }
}

/// Volume up, volume down and mute go to the amplifier, and no other key does.
pub proof fn amplifier_keys(code: u16)
    ensures
        key_binding(code) matches Some(action) ==> (action is Nad <==> (code == 0x00E9 || code
            == 0x00EA || code == 0x00E2)),
        key_binding(0x00E9) == Some(Action::Nad(Nad::VolumeUp)),
        key_binding(0x00EA) == Some(Action::Nad(Nad::VolumeDown)),
        key_binding(0x00E2) == Some(Action::Nad(Nad::Mute)),
{
}

/// The keys that repeat while they are held down are volume up and down, the four arrows and
/// channel up and down.
pub proof fn repeating_keys(code: u16)
    ensures
        (key_binding(code) matches Some(action) && action.spec_repeatable()) <==> (code == 0x00E9
            || code == 0x00EA || code == 0x0042 || code == 0x0043 || code == 0x0044 || code
            == 0x0045 || code == 0x009C || code == 0x009D),
{
    reveal_strlit("Home");
    reveal_strlit("Return");
    reveal_strlit("Up");
    reveal_strlit("Down");
    reveal_strlit("Left");
    reveal_strlit("Right");
    reveal_strlit("Confirm");
    reveal_strlit("PlayPause");
    reveal_strlit("ChannelUp");
    reveal_strlit("ChannelDown");
    reveal_strlit("EPG");
    reveal_strlit("Netflix");
    reveal_strlit("TvInput");
    reveal_strlit("YouTube");
    reveal_strlit("Help");
    reveal_strlit("GoogleDashboard");
    assert("Home"@.len() == 4 && "Home"@[0] == 'H');
    assert("Return"@.len() == 6 && "Return"@[0] == 'R');
    assert("Up"@.len() == 2 && "Up"@[0] == 'U');
    assert("Down"@.len() == 4 && "Down"@[0] == 'D');
    assert("Left"@.len() == 4 && "Left"@[0] == 'L');
    assert("Right"@.len() == 5 && "Right"@[0] == 'R');
    assert("Confirm"@.len() == 7 && "Confirm"@[0] == 'C');
    assert("PlayPause"@.len() == 9 && "PlayPause"@[0] == 'P');
    assert("ChannelUp"@.len() == 9 && "ChannelUp"@[0] == 'C');
    assert("ChannelDown"@.len() == 11 && "ChannelDown"@[0] == 'C');
    assert("EPG"@.len() == 3 && "EPG"@[0] == 'E');
    assert("Netflix"@.len() == 7 && "Netflix"@[0] == 'N');
    assert("TvInput"@.len() == 7 && "TvInput"@[0] == 'T');
    assert("YouTube"@.len() == 7 && "YouTube"@[0] == 'Y');
    assert("Help"@.len() == 4 && "Help"@[0] == 'H');
    assert("GoogleDashboard"@.len() == 15 && "GoogleDashboard"@[0] == 'G');
}

/// The length and three characters of each label: enough to tell the labels apart.
spec fn label_mark(code: u16) -> (int, char, char, char) {
    match code {
        0x00E9 => (13, 'n', 'o', 'l'),
        0x00EA => (15, 'n', 'o', 'l'),
        0x00E2 => (8, 'n', 'u', 't'),
        0x0223 => (9, 'i', 'H', 'o'),
        0x0224 => (11, 'i', 'R', 'e'),
        0x0042 => (7, 'i', 'U', 'p'),
        0x0043 => (9, 'i', 'D', 'o'),
        0x0044 => (9, 'i', 'L', 'e'),
        0x0045 => (10, 'i', 'R', 'i'),
        0x0041 => (12, 'i', 'C', 'o'),
        0x00CD => (14, 'i', 'P', 'l'),
        0x009C => (14, 'i', 'C', 'h'),
        0x009D => (16, 'i', 'C', 'h'),
        0x008D => (8, 'i', 'E', 'P'),
        0x0547 => (12, 'i', 'N', 'e'),
        0x0533 => (12, 'i', 'T', 'v'),
        0x04E5 => (12, 'i', 'Y', 'o'),
        0x03C3 => (9, 'i', 'H', 'e'),
        0x051F => (20, 'i', 'G', 'o'),
        0x0089 => (6, 'a', 'V', ' '),
        0x0586 => (12, 'a', 'e', 't'),
        0x04EB => (14, 'a', 'i', 's'),
        0x04EA => (14, 'a', 'r', 'i'),
        0x04F0 => (20, 'a', 'o', 'n'),
        0x04FB => (16, 'a', 'R', 'D'),
        _ => (0, ' ', ' ', ' '),
    }
}

proof fn label_has_mark(code: u16)
    requires
        key_binding(code) is Some,
    ensures
        ({
            let label = key_binding(code)->0.spec_label();
            let (len, first, fifth, sixth) = label_mark(code);
            label.len() == len && label[0] == first && label[5] == fifth && (len > 6 ==> label[6]
                == sixth)
        }),
{
    reveal_strlit("ARDMediathek");
    reveal_strlit("ChannelDown");
    reveal_strlit("ChannelUp");
    reveal_strlit("Confirm");
    reveal_strlit("DisneyPlus");
    reveal_strlit("Down");
    reveal_strlit("EPG");
    reveal_strlit("GoogleDashboard");
    reveal_strlit("Help");
    reveal_strlit("Home");
    reveal_strlit("Left");
    reveal_strlit("Netflix");
    reveal_strlit("PlayPause");
    reveal_strlit("PrimeVideo");
    reveal_strlit("Return");
    reveal_strlit("Right");
    reveal_strlit("Settings");
    reveal_strlit("SonyPicturesCore");
    reveal_strlit("TV");
    reveal_strlit("TvInput");
    reveal_strlit("Up");
    reveal_strlit("YouTube");
    reveal_strlit("app/");
    reveal_strlit("ircc/");
    reveal_strlit("nad/mute");
    reveal_strlit("nad/volume_down");
    reveal_strlit("nad/volume_up");
}

/// Whether two actions make the same device do the same thing, by whatever name.
pub open spec fn same_work(a: Action, b: Action) -> bool {
    match (a, b) {
        (Action::Nad(x), Action::Nad(y)) => x == y,
        (Action::Ircc(_, x), Action::Ircc(_, y)) => x@ == y@,
        (Action::App(_, x), Action::App(_, y)) => x@ == y@,
        _ => false,
    }
}

/// Two characters of each IRCC code: enough to tell the codes apart.
spec fn ircc_mark(code: u16) -> (char, char) {
    match code {
        0x0223 => ('B', 'g'),
        0x0224 => ('A', 'j'),
        0x0042 => ('B', '0'),
        0x0043 => ('B', '1'),
        0x0044 => ('A', '0'),
        0x0045 => ('A', 'z'),
        0x0041 => ('B', 'l'),
        0x00CD => ('A', 'P'),
        0x009C => ('A', 'Q'),
        0x009D => ('A', 'R'),
        0x008D => ('B', 'b'),
        0x0547 => ('B', '8'),
        0x0533 => ('A', 'l'),
        0x04E5 => ('B', 'H'),
        0x03C3 => ('B', 'N'),
        0x051F => ('B', 'w'),
        _ => (' ', ' '),
    }
}

/// The length of each URI: enough to tell the URIs apart.
spec fn uri_mark(code: u16) -> int {
    match code {
        0x0089 => 68,
        0x0586 => 73,
        0x04EB => 79,
        0x04EA => 83,
        0x04F0 => 70,
        0x04FB => 59,
        _ => 0,
    }
}

proof fn work_has_mark(code: u16)
    ensures
        key_binding(code) matches Some(Action::Ircc(_, ircc)) ==> ircc@.len() == 20 && (
            ircc@[14],
            ircc@[15],
        ) == ircc_mark(code),
        key_binding(code) matches Some(Action::App(_, uri)) ==> uri@.len() == uri_mark(code),
{
    reveal_strlit("AAAAAQAAAAEAAABgAw==");
    reveal_strlit("AAAAAgAAAJcAAAAjAw==");
    reveal_strlit("AAAAAQAAAAEAAAB0Aw==");
    reveal_strlit("AAAAAQAAAAEAAAB1Aw==");
    reveal_strlit("AAAAAQAAAAEAAAA0Aw==");
    reveal_strlit("AAAAAQAAAAEAAAAzAw==");
    reveal_strlit("AAAAAQAAAAEAAABlAw==");
    reveal_strlit("AAAAAgAAAJcAAAAPAw==");
    reveal_strlit("AAAAAQAAAAEAAAAQAw==");
    reveal_strlit("AAAAAQAAAAEAAAARAw==");
    reveal_strlit("AAAAAgAAAKQAAABbAw==");
    reveal_strlit("AAAAAgAAABoAAAB8Aw==");
    reveal_strlit("AAAAAQAAAAEAAAAlAw==");
    reveal_strlit("AAAAAgAAAMQAAABHAw==");
    reveal_strlit("AAAAAgAAAMQAAABNAw==");
    reveal_strlit("AAAAAgAAAMQAAABwAw==");
    reveal_strlit("com.sony.dtv.com.sony.dtv.tvlin.com.sony.dtv.tvlin.view.MainActivity");
    reveal_strlit("com.sony.dtv.com.android.tv.settings.com.android.tv.settings.MainSettings");
    reveal_strlit(
        "com.sony.dtv.com.disney.disneyplus.com.bamtechmedia.dominguez.main.MainActivity",
    );
    reveal_strlit(
        "com.sony.dtv.com.amazon.amazonvideo.livingroom.com.amazon.ignition.IgnitionActivity",
    );
    reveal_strlit("com.sony.dtv.com.sonypicturescore.com.sphe.bravialounge.SplashActivity");
    reveal_strlit("com.sony.dtv.de.swr.avp.ard.tv.de.swr.avp.ard.tv.TvActivity");
}

/// Two keys never do the same thing, and their labels in the log differ.
pub proof fn keys_are_told_apart(a: u16, b: u16)
    requires
        key_binding(a) is Some,
        key_binding(b) is Some,
        a != b,
    ensures
        !same_work(key_binding(a)->0, key_binding(b)->0),
        key_binding(a)->0.spec_label() != key_binding(b)->0.spec_label(),
{
    label_has_mark(a);
    label_has_mark(b);
    work_has_mark(a);
    work_has_mark(b);
}

} // verus!
