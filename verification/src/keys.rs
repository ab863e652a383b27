//! The keys, told by what they are for: which code each of them has, which command of the
//! television it carries, and which app it starts.
use vstd::prelude::*;
use vstd::string::*;

use crate::action::{key_binding, keys_are_told_apart, Action, Nad};

verus! {

// The commands of the television.

/// The value of a character of the Base64 alphabet.
pub open spec fn sextet(c: char) -> int {
    if 'A' <= c <= 'Z' {
        c as int - 65
    } else if 'a' <= c <= 'z' {
        c as int - 71
    } else if '0' <= c <= '9' {
        c as int + 4
    } else if c == '+' {
        62
    } else {
        63
    }
}

/// The byte `i` of what `text` holds in Base64: three bytes in four characters.
pub open spec fn byte_at(text: Seq<char>, i: int) -> int {
    let q = 4 * (i / 3);
    if i % 3 == 0 {
        sextet(text[q]) * 4 + sextet(text[q + 1]) / 16
    } else if i % 3 == 1 {
        sextet(text[q + 1]) % 16 * 16 + sextet(text[q + 2]) / 4
    } else {
        sextet(text[q + 2]) % 4 * 64 + sextet(text[q + 3])
    }
}

/// `text` holds, in Base64, three 32-bit numbers, the highest byte of each first, and a three: the
/// category, the device and the number of a command.
pub open spec fn carries(text: Seq<char>, category: int, device: int, command: int) -> bool {
    &&& text.len() == 20
    &&& text[18] == '='
    &&& text[19] == '='
    &&& byte_at(text, 0) == 0 && byte_at(text, 1) == 0 && byte_at(text, 2) == 0
    &&& byte_at(text, 3) == category
    &&& byte_at(text, 4) == 0 && byte_at(text, 5) == 0 && byte_at(text, 6) == 0
    &&& byte_at(text, 7) == device
    &&& byte_at(text, 8) == 0 && byte_at(text, 9) == 0 && byte_at(text, 10) == 0
    &&& byte_at(text, 11) == command
    &&& byte_at(text, 12) == 3
    &&& sextet(text[17]) % 16 == 0
}

proof fn code_of_home()
    ensures
        carries("AAAAAQAAAAEAAABgAw=="@, 1, 1, 0x60),
{
    reveal_strlit("AAAAAQAAAAEAAABgAw==");
}

proof fn code_of_return()
    ensures
        carries("AAAAAgAAAJcAAAAjAw=="@, 2, 151, 0x23),
{
    reveal_strlit("AAAAAgAAAJcAAAAjAw==");
}

proof fn code_of_up()
    ensures
        carries("AAAAAQAAAAEAAAB0Aw=="@, 1, 1, 0x74),
{
    reveal_strlit("AAAAAQAAAAEAAAB0Aw==");
}

proof fn code_of_down()
    ensures
        carries("AAAAAQAAAAEAAAB1Aw=="@, 1, 1, 0x75),
{
    reveal_strlit("AAAAAQAAAAEAAAB1Aw==");
}

proof fn code_of_left()
    ensures
        carries("AAAAAQAAAAEAAAA0Aw=="@, 1, 1, 0x34),
{
    reveal_strlit("AAAAAQAAAAEAAAA0Aw==");
}

proof fn code_of_right()
    ensures
        carries("AAAAAQAAAAEAAAAzAw=="@, 1, 1, 0x33),
{
    reveal_strlit("AAAAAQAAAAEAAAAzAw==");
}

proof fn code_of_confirm()
    ensures
        carries("AAAAAQAAAAEAAABlAw=="@, 1, 1, 0x65),
{
    reveal_strlit("AAAAAQAAAAEAAABlAw==");
}

proof fn code_of_playpause()
    ensures
        carries("AAAAAgAAAJcAAAAPAw=="@, 2, 151, 0x0f),
{
    reveal_strlit("AAAAAgAAAJcAAAAPAw==");
}

proof fn code_of_channelup()
    ensures
        carries("AAAAAQAAAAEAAAAQAw=="@, 1, 1, 0x10),
{
    reveal_strlit("AAAAAQAAAAEAAAAQAw==");
}

proof fn code_of_channeldown()
    ensures
        carries("AAAAAQAAAAEAAAARAw=="@, 1, 1, 0x11),
{
    reveal_strlit("AAAAAQAAAAEAAAARAw==");
}

proof fn code_of_epg()
    ensures
        carries("AAAAAgAAAKQAAABbAw=="@, 2, 164, 0x5b),
{
    reveal_strlit("AAAAAgAAAKQAAABbAw==");
}

proof fn code_of_netflix()
    ensures
        carries("AAAAAgAAABoAAAB8Aw=="@, 2, 26, 0x7c),
{
    reveal_strlit("AAAAAgAAABoAAAB8Aw==");
}

proof fn code_of_tvinput()
    ensures
        carries("AAAAAQAAAAEAAAAlAw=="@, 1, 1, 0x25),
{
    reveal_strlit("AAAAAQAAAAEAAAAlAw==");
}

proof fn code_of_youtube()
    ensures
        carries("AAAAAgAAAMQAAABHAw=="@, 2, 196, 0x47),
{
    reveal_strlit("AAAAAgAAAMQAAABHAw==");
}

proof fn code_of_help()
    ensures
        carries("AAAAAgAAAMQAAABNAw=="@, 2, 196, 0x4d),
{
    reveal_strlit("AAAAAgAAAMQAAABNAw==");
}

proof fn code_of_googledashboard()
    ensures
        carries("AAAAAgAAAMQAAABwAw=="@, 2, 196, 0x70),
{
    reveal_strlit("AAAAAgAAAMQAAABwAw==");
}

/// The key with the code `code` is the one that the log calls `label`.
pub open spec fn is_key(code: u16, label: Seq<char>) -> bool {
    key_binding(code) matches Some(action) && action.spec_label() == label
}

#[verifier::spinoff_prover]
proof fn labels_of_keys()
    ensures
        is_key(0x00E9, "nad/volume_up"@),
        is_key(0x00EA, "nad/volume_down"@),
        is_key(0x00E2, "nad/mute"@),
        is_key(0x0223, "ircc/Home"@),
        is_key(0x0224, "ircc/Return"@),
        is_key(0x0042, "ircc/Up"@),
        is_key(0x0043, "ircc/Down"@),
        is_key(0x0044, "ircc/Left"@),
        is_key(0x0045, "ircc/Right"@),
        is_key(0x0041, "ircc/Confirm"@),
        is_key(0x00CD, "ircc/PlayPause"@),
        is_key(0x009C, "ircc/ChannelUp"@),
        is_key(0x009D, "ircc/ChannelDown"@),
        is_key(0x008D, "ircc/EPG"@),
        is_key(0x0547, "ircc/Netflix"@),
        is_key(0x0533, "ircc/TvInput"@),
        is_key(0x04E5, "ircc/YouTube"@),
        is_key(0x03C3, "ircc/Help"@),
        is_key(0x051F, "ircc/GoogleDashboard"@),
        is_key(0x0089, "app/TV"@),
        is_key(0x0586, "app/Settings"@),
        is_key(0x04EB, "app/DisneyPlus"@),
        is_key(0x04EA, "app/PrimeVideo"@),
        is_key(0x04F0, "app/SonyPicturesCore"@),
        is_key(0x04FB, "app/ARDMediathek"@),
{
    reveal_strlit("ARDMediathek");
    reveal_strlit("ChannelDown");
    reveal_strlit("ChannelUp");
    reveal_strlit("Confirm");
    reveal_strlit("DisneyPlus");
    reveal_strlit("Down");
    reveal_strlit("EPG");
    reveal_strlit("GoogleDashboard");
    reveal_strlit("Help");
    reveal_strlit("Home");
    reveal_strlit("Left");
    reveal_strlit("Netflix");
    reveal_strlit("PlayPause");
    reveal_strlit("PrimeVideo");
    reveal_strlit("Return");
    reveal_strlit("Right");
    reveal_strlit("Settings");
    reveal_strlit("SonyPicturesCore");
    reveal_strlit("TV");
    reveal_strlit("TvInput");
    reveal_strlit("Up");
    reveal_strlit("YouTube");
    reveal_strlit("app/");
    reveal_strlit("app/ARDMediathek");
    reveal_strlit("app/DisneyPlus");
    reveal_strlit("app/PrimeVideo");
    reveal_strlit("app/Settings");
    reveal_strlit("app/SonyPicturesCore");
    reveal_strlit("app/TV");
    reveal_strlit("ircc/");
    reveal_strlit("ircc/ChannelDown");
    reveal_strlit("ircc/ChannelUp");
    reveal_strlit("ircc/Confirm");
    reveal_strlit("ircc/Down");
    reveal_strlit("ircc/EPG");
    reveal_strlit("ircc/GoogleDashboard");
    reveal_strlit("ircc/Help");
    reveal_strlit("ircc/Home");
    reveal_strlit("ircc/Left");
    reveal_strlit("ircc/Netflix");
    reveal_strlit("ircc/PlayPause");
    reveal_strlit("ircc/Return");
    reveal_strlit("ircc/Right");
    reveal_strlit("ircc/TvInput");
    reveal_strlit("ircc/Up");
    reveal_strlit("ircc/YouTube");
    reveal_strlit("nad/mute");
    reveal_strlit("nad/volume_down");
    reveal_strlit("nad/volume_up");
    assert("ircc/"@ + "Home"@ =~= "ircc/Home"@);
    assert("ircc/"@ + "Return"@ =~= "ircc/Return"@);
    assert("ircc/"@ + "Up"@ =~= "ircc/Up"@);
    assert("ircc/"@ + "Down"@ =~= "ircc/Down"@);
    assert("ircc/"@ + "Left"@ =~= "ircc/Left"@);
    assert("ircc/"@ + "Right"@ =~= "ircc/Right"@);
    assert("ircc/"@ + "Confirm"@ =~= "ircc/Confirm"@);
    assert("ircc/"@ + "PlayPause"@ =~= "ircc/PlayPause"@);
    assert("ircc/"@ + "ChannelUp"@ =~= "ircc/ChannelUp"@);
    assert("ircc/"@ + "ChannelDown"@ =~= "ircc/ChannelDown"@);
    assert("ircc/"@ + "EPG"@ =~= "ircc/EPG"@);
    assert("ircc/"@ + "Netflix"@ =~= "ircc/Netflix"@);
    assert("ircc/"@ + "TvInput"@ =~= "ircc/TvInput"@);
    assert("ircc/"@ + "YouTube"@ =~= "ircc/YouTube"@);
    assert("ircc/"@ + "Help"@ =~= "ircc/Help"@);
    assert("ircc/"@ + "GoogleDashboard"@ =~= "ircc/GoogleDashboard"@);
    assert("app/"@ + "TV"@ =~= "app/TV"@);
    assert("app/"@ + "Settings"@ =~= "app/Settings"@);
    assert("app/"@ + "DisneyPlus"@ =~= "app/DisneyPlus"@);
    assert("app/"@ + "PrimeVideo"@ =~= "app/PrimeVideo"@);
    assert("app/"@ + "SonyPicturesCore"@ =~= "app/SonyPicturesCore"@);
    assert("app/"@ + "ARDMediathek"@ =~= "app/ARDMediathek"@);
}

/// Each key has one code, and no other code is bound.
#[verifier::spinoff_prover]
pub proof fn keys_have_their_codes(code: u16)
    ensures
        is_key(code, "nad/volume_up"@) <==> code == 0x00E9,
        is_key(code, "nad/volume_down"@) <==> code == 0x00EA,
        is_key(code, "nad/mute"@) <==> code == 0x00E2,
        is_key(code, "ircc/Home"@) <==> code == 0x0223,
        is_key(code, "ircc/Return"@) <==> code == 0x0224,
        is_key(code, "ircc/Up"@) <==> code == 0x0042,
        is_key(code, "ircc/Down"@) <==> code == 0x0043,
        is_key(code, "ircc/Left"@) <==> code == 0x0044,
        is_key(code, "ircc/Right"@) <==> code == 0x0045,
        is_key(code, "ircc/Confirm"@) <==> code == 0x0041,
        is_key(code, "ircc/PlayPause"@) <==> code == 0x00CD,
        is_key(code, "ircc/ChannelUp"@) <==> code == 0x009C,
        is_key(code, "ircc/ChannelDown"@) <==> code == 0x009D,
        is_key(code, "ircc/EPG"@) <==> code == 0x008D,
        is_key(code, "ircc/Netflix"@) <==> code == 0x0547,
        is_key(code, "ircc/TvInput"@) <==> code == 0x0533,
        is_key(code, "ircc/YouTube"@) <==> code == 0x04E5,
        is_key(code, "ircc/Help"@) <==> code == 0x03C3,
        is_key(code, "ircc/GoogleDashboard"@) <==> code == 0x051F,
        is_key(code, "app/TV"@) <==> code == 0x0089,
        is_key(code, "app/Settings"@) <==> code == 0x0586,
        is_key(code, "app/DisneyPlus"@) <==> code == 0x04EB,
        is_key(code, "app/PrimeVideo"@) <==> code == 0x04EA,
        is_key(code, "app/SonyPicturesCore"@) <==> code == 0x04F0,
        is_key(code, "app/ARDMediathek"@) <==> code == 0x04FB,
        key_binding(code) is Some <==> {
            ||| code == 0x00E9
            ||| code == 0x00EA
            ||| code == 0x00E2
            ||| code == 0x0223
            ||| code == 0x0224
            ||| code == 0x0042
            ||| code == 0x0043
            ||| code == 0x0044
            ||| code == 0x0045
            ||| code == 0x0041
            ||| code == 0x00CD
            ||| code == 0x009C
            ||| code == 0x009D
            ||| code == 0x008D
            ||| code == 0x0547
            ||| code == 0x0533
            ||| code == 0x04E5
            ||| code == 0x03C3
            ||| code == 0x051F
            ||| code == 0x0089
            ||| code == 0x0586
            ||| code == 0x04EB
            ||| code == 0x04EA
            ||| code == 0x04F0
            ||| code == 0x04FB
        },
{
    labels_of_keys();
    if key_binding(code) is Some {
        if code != 0x00E9 {
            keys_are_told_apart(code, 0x00E9);
        }
        if code != 0x00EA {
            keys_are_told_apart(code, 0x00EA);
        }
        if code != 0x00E2 {
            keys_are_told_apart(code, 0x00E2);
        }
        if code != 0x0223 {
            keys_are_told_apart(code, 0x0223);
        }
        if code != 0x0224 {
            keys_are_told_apart(code, 0x0224);
        }
        if code != 0x0042 {
            keys_are_told_apart(code, 0x0042);
        }
        if code != 0x0043 {
            keys_are_told_apart(code, 0x0043);
        }
        if code != 0x0044 {
            keys_are_told_apart(code, 0x0044);
        }
        if code != 0x0045 {
            keys_are_told_apart(code, 0x0045);
        }
        if code != 0x0041 {
            keys_are_told_apart(code, 0x0041);
        }
        if code != 0x00CD {
            keys_are_told_apart(code, 0x00CD);
        }
        if code != 0x009C {
            keys_are_told_apart(code, 0x009C);
        }
        if code != 0x009D {
            keys_are_told_apart(code, 0x009D);
        }
        if code != 0x008D {
            keys_are_told_apart(code, 0x008D);
        }
        if code != 0x0547 {
            keys_are_told_apart(code, 0x0547);
        }
        if code != 0x0533 {
            keys_are_told_apart(code, 0x0533);
        }
        if code != 0x04E5 {
            keys_are_told_apart(code, 0x04E5);
        }
        if code != 0x03C3 {
            keys_are_told_apart(code, 0x03C3);
        }
        if code != 0x051F {
            keys_are_told_apart(code, 0x051F);
        }
        if code != 0x0089 {
            keys_are_told_apart(code, 0x0089);
        }
        if code != 0x0586 {
            keys_are_told_apart(code, 0x0586);
        }
        if code != 0x04EB {
            keys_are_told_apart(code, 0x04EB);
        }
        if code != 0x04EA {
            keys_are_told_apart(code, 0x04EA);
        }
        if code != 0x04F0 {
            keys_are_told_apart(code, 0x04F0);
        }
        if code != 0x04FB {
            keys_are_told_apart(code, 0x04FB);
        }
    }
}

proof fn key_presses()
    ensures
        key_binding(0x0223) == Some(Action::Ircc("Home", "AAAAAQAAAAEAAABgAw==")),
        key_binding(0x0224) == Some(Action::Ircc("Return", "AAAAAgAAAJcAAAAjAw==")),
        key_binding(0x0042) == Some(Action::Ircc("Up", "AAAAAQAAAAEAAAB0Aw==")),
        key_binding(0x0043) == Some(Action::Ircc("Down", "AAAAAQAAAAEAAAB1Aw==")),
        key_binding(0x0044) == Some(Action::Ircc("Left", "AAAAAQAAAAEAAAA0Aw==")),
        key_binding(0x0045) == Some(Action::Ircc("Right", "AAAAAQAAAAEAAAAzAw==")),
        key_binding(0x0041) == Some(Action::Ircc("Confirm", "AAAAAQAAAAEAAABlAw==")),
        key_binding(0x00CD) == Some(Action::Ircc("PlayPause", "AAAAAgAAAJcAAAAPAw==")),
        key_binding(0x009C) == Some(Action::Ircc("ChannelUp", "AAAAAQAAAAEAAAAQAw==")),
        key_binding(0x009D) == Some(Action::Ircc("ChannelDown", "AAAAAQAAAAEAAAARAw==")),
        key_binding(0x008D) == Some(Action::Ircc("EPG", "AAAAAgAAAKQAAABbAw==")),
        key_binding(0x0547) == Some(Action::Ircc("Netflix", "AAAAAgAAABoAAAB8Aw==")),
        key_binding(0x0533) == Some(Action::Ircc("TvInput", "AAAAAQAAAAEAAAAlAw==")),
        key_binding(0x04E5) == Some(Action::Ircc("YouTube", "AAAAAgAAAMQAAABHAw==")),
        key_binding(0x03C3) == Some(Action::Ircc("Help", "AAAAAgAAAMQAAABNAw==")),
        key_binding(0x051F) == Some(Action::Ircc("GoogleDashboard", "AAAAAgAAAMQAAABwAw==")),
{
}

/// What a key press sends to the television is the command that the key is named for: its IRCC
/// code holds the category, the device and the number of that command.
#[verifier::spinoff_prover]
pub proof fn keys_send_the_command_of_their_name(
    code: u16,
    name: &'static str,
    ircc: &'static str,
)
    requires
        key_binding(code) == Some(Action::Ircc(name, ircc)),
    ensures
        name@ == "Home"@ ==> carries(ircc@, 1, 1, 0x60) && ircc@ == "AAAAAQAAAAEAAABgAw=="@,
        name@ == "Return"@ ==> carries(ircc@, 2, 151, 0x23) && ircc@ == "AAAAAgAAAJcAAAAjAw=="@,
        name@ == "Up"@ ==> carries(ircc@, 1, 1, 0x74) && ircc@ == "AAAAAQAAAAEAAAB0Aw=="@,
        name@ == "Down"@ ==> carries(ircc@, 1, 1, 0x75) && ircc@ == "AAAAAQAAAAEAAAB1Aw=="@,
        name@ == "Left"@ ==> carries(ircc@, 1, 1, 0x34) && ircc@ == "AAAAAQAAAAEAAAA0Aw=="@,
        name@ == "Right"@ ==> carries(ircc@, 1, 1, 0x33) && ircc@ == "AAAAAQAAAAEAAAAzAw=="@,
        name@ == "Confirm"@ ==> carries(ircc@, 1, 1, 0x65) && ircc@ == "AAAAAQAAAAEAAABlAw=="@,
        name@ == "PlayPause"@ ==> carries(ircc@, 2, 151, 0x0f) && ircc@ == "AAAAAgAAAJcAAAAPAw=="@,
        name@ == "ChannelUp"@ ==> carries(ircc@, 1, 1, 0x10) && ircc@ == "AAAAAQAAAAEAAAAQAw=="@,
        name@ == "ChannelDown"@ ==> carries(ircc@, 1, 1, 0x11) && ircc@ == "AAAAAQAAAAEAAAARAw=="@,
        name@ == "EPG"@ ==> carries(ircc@, 2, 164, 0x5b) && ircc@ == "AAAAAgAAAKQAAABbAw=="@,
        name@ == "Netflix"@ ==> carries(ircc@, 2, 26, 0x7c) && ircc@ == "AAAAAgAAABoAAAB8Aw=="@,
        name@ == "TvInput"@ ==> carries(ircc@, 1, 1, 0x25) && ircc@ == "AAAAAQAAAAEAAAAlAw=="@,
        name@ == "YouTube"@ ==> carries(ircc@, 2, 196, 0x47) && ircc@ == "AAAAAgAAAMQAAABHAw=="@,
        name@ == "Help"@ ==> carries(ircc@, 2, 196, 0x4d) && ircc@ == "AAAAAgAAAMQAAABNAw=="@,
        name@ == "GoogleDashboard"@ ==> carries(ircc@, 2, 196, 0x70) && ircc@ == "AAAAAgAAAMQAAABwAw=="@,
{
    labels_of_keys();
    key_presses();
    code_of_home();
    code_of_return();
    code_of_up();
    code_of_down();
    code_of_left();
    code_of_right();
    code_of_confirm();
    code_of_playpause();
    code_of_channelup();
    code_of_channeldown();
    code_of_epg();
    code_of_netflix();
    code_of_tvinput();
    code_of_youtube();
    code_of_help();
    code_of_googledashboard();
    if code != 0x0223 {
        keys_are_told_apart(code, 0x0223);
    }
    if code != 0x0224 {
        keys_are_told_apart(code, 0x0224);
    }
    if code != 0x0042 {
        keys_are_told_apart(code, 0x0042);
    }
    if code != 0x0043 {
        keys_are_told_apart(code, 0x0043);
    }
    if code != 0x0044 {
        keys_are_told_apart(code, 0x0044);
    }
    if code != 0x0045 {
        keys_are_told_apart(code, 0x0045);
    }
    if code != 0x0041 {
        keys_are_told_apart(code, 0x0041);
    }
    if code != 0x00CD {
        keys_are_told_apart(code, 0x00CD);
    }
    if code != 0x009C {
        keys_are_told_apart(code, 0x009C);
    }
    if code != 0x009D {
        keys_are_told_apart(code, 0x009D);
    }
    if code != 0x008D {
        keys_are_told_apart(code, 0x008D);
    }
    if code != 0x0547 {
        keys_are_told_apart(code, 0x0547);
    }
    if code != 0x0533 {
        keys_are_told_apart(code, 0x0533);
    }
    if code != 0x04E5 {
        keys_are_told_apart(code, 0x04E5);
    }
    if code != 0x03C3 {
        keys_are_told_apart(code, 0x03C3);
    }
    if code != 0x051F {
        keys_are_told_apart(code, 0x051F);
    }
}

// The apps of the television.

/// How the television names the activity `activity` of the app `package`.
pub open spec fn app_uri(package: Seq<char>, activity: Seq<char>) -> Seq<char> {
    "com.sony.dtv."@ + package + "."@ + activity
}

/// An app key starts the app that it is named for: its URI holds the package of that app and the
/// activity to start.
#[verifier::spinoff_prover]
pub proof fn keys_start_the_app_of_their_name(
    code: u16,
    name: &'static str,
    uri: &'static str,
)
    requires
        key_binding(code) == Some(Action::App(name, uri)),
    ensures
        name@ == "TV"@ ==> uri@ == app_uri(
            "com.sony.dtv.tvlin"@,
            "com.sony.dtv.tvlin.view.MainActivity"@,
        ),
        name@ == "Settings"@ ==> uri@ == app_uri(
            "com.android.tv.settings"@,
            "com.android.tv.settings.MainSettings"@,
        ),
        name@ == "DisneyPlus"@ ==> uri@ == app_uri(
            "com.disney.disneyplus"@,
            "com.bamtechmedia.dominguez.main.MainActivity"@,
        ),
        name@ == "PrimeVideo"@ ==> uri@ == app_uri(
            "com.amazon.amazonvideo.livingroom"@,
            "com.amazon.ignition.IgnitionActivity"@,
        ),
        name@ == "SonyPicturesCore"@ ==> uri@ == app_uri(
            "com.sonypicturescore"@,
            "com.sphe.bravialounge.SplashActivity"@,
        ),
        name@ == "ARDMediathek"@ ==> uri@ == app_uri(
            "de.swr.avp.ard.tv"@,
            "de.swr.avp.ard.tv.TvActivity"@,
        ),
{
    labels_of_keys();
    uris_of_apps();
    if code != 0x0089 {
        keys_are_told_apart(code, 0x0089);
    }
    if code != 0x0586 {
        keys_are_told_apart(code, 0x0586);
    }
    if code != 0x04EB {
        keys_are_told_apart(code, 0x04EB);
    }
    if code != 0x04EA {
        keys_are_told_apart(code, 0x04EA);
    }
    if code != 0x04F0 {
        keys_are_told_apart(code, 0x04F0);
    }
    if code != 0x04FB {
        keys_are_told_apart(code, 0x04FB);
    }
}

#[verifier::spinoff_prover]
proof fn uris_of_apps()
    ensures
        app_uri(
            "com.sony.dtv.tvlin"@,
            "com.sony.dtv.tvlin.view.MainActivity"@,
        ) == "com.sony.dtv.com.sony.dtv.tvlin.com.sony.dtv.tvlin.view.MainActivity"@,
        app_uri(
            "com.android.tv.settings"@,
            "com.android.tv.settings.MainSettings"@,
        ) == "com.sony.dtv.com.android.tv.settings.com.android.tv.settings.MainSettings"@,
        app_uri(
            "com.disney.disneyplus"@,
            "com.bamtechmedia.dominguez.main.MainActivity"@,
        ) == "com.sony.dtv.com.disney.disneyplus.com.bamtechmedia.dominguez.main.MainActivity"@,
        app_uri(
            "com.amazon.amazonvideo.livingroom"@,
            "com.amazon.ignition.IgnitionActivity"@,
        ) == "com.sony.dtv.com.amazon.amazonvideo.livingroom.com.amazon.ignition.IgnitionActivity"@,
        app_uri(
            "com.sonypicturescore"@,
            "com.sphe.bravialounge.SplashActivity"@,
        ) == "com.sony.dtv.com.sonypicturescore.com.sphe.bravialounge.SplashActivity"@,
        app_uri(
            "de.swr.avp.ard.tv"@,
            "de.swr.avp.ard.tv.TvActivity"@,
        ) == "com.sony.dtv.de.swr.avp.ard.tv.de.swr.avp.ard.tv.TvActivity"@,
{
    reveal_strlit(".");
    reveal_strlit("com.amazon.amazonvideo.livingroom");
    reveal_strlit("com.amazon.ignition.IgnitionActivity");
    reveal_strlit("com.android.tv.settings");
    reveal_strlit("com.android.tv.settings.MainSettings");
    reveal_strlit("com.bamtechmedia.dominguez.main.MainActivity");
    reveal_strlit("com.disney.disneyplus");
    reveal_strlit("com.sony.dtv.");
    reveal_strlit("com.sony.dtv.com.amazon.amazonvideo.livingroom.com.amazon.ignition.IgnitionActivity");
    reveal_strlit("com.sony.dtv.com.android.tv.settings.com.android.tv.settings.MainSettings");
    reveal_strlit("com.sony.dtv.com.disney.disneyplus.com.bamtechmedia.dominguez.main.MainActivity");
    reveal_strlit("com.sony.dtv.com.sony.dtv.tvlin.com.sony.dtv.tvlin.view.MainActivity");
    reveal_strlit("com.sony.dtv.com.sonypicturescore.com.sphe.bravialounge.SplashActivity");
    reveal_strlit("com.sony.dtv.de.swr.avp.ard.tv.de.swr.avp.ard.tv.TvActivity");
    reveal_strlit("com.sony.dtv.tvlin");
    reveal_strlit("com.sony.dtv.tvlin.view.MainActivity");
    reveal_strlit("com.sonypicturescore");
    reveal_strlit("com.sphe.bravialounge.SplashActivity");
    reveal_strlit("de.swr.avp.ard.tv");
    reveal_strlit("de.swr.avp.ard.tv.TvActivity");
    assert(app_uri("com.sony.dtv.tvlin"@, "com.sony.dtv.tvlin.view.MainActivity"@)
        =~= "com.sony.dtv.com.sony.dtv.tvlin.com.sony.dtv.tvlin.view.MainActivity"@);
    assert(app_uri("com.android.tv.settings"@, "com.android.tv.settings.MainSettings"@)
        =~= "com.sony.dtv.com.android.tv.settings.com.android.tv.settings.MainSettings"@);
    assert(app_uri("com.disney.disneyplus"@, "com.bamtechmedia.dominguez.main.MainActivity"@)
        =~= "com.sony.dtv.com.disney.disneyplus.com.bamtechmedia.dominguez.main.MainActivity"@);
    assert(app_uri("com.amazon.amazonvideo.livingroom"@, "com.amazon.ignition.IgnitionActivity"@)
        =~= "com.sony.dtv.com.amazon.amazonvideo.livingroom.com.amazon.ignition.IgnitionActivity"@);
    assert(app_uri("com.sonypicturescore"@, "com.sphe.bravialounge.SplashActivity"@)
        =~= "com.sony.dtv.com.sonypicturescore.com.sphe.bravialounge.SplashActivity"@);
    assert(app_uri("de.swr.avp.ard.tv"@, "de.swr.avp.ard.tv.TvActivity"@)
        =~= "com.sony.dtv.de.swr.avp.ard.tv.de.swr.avp.ard.tv.TvActivity"@);
}

/// A label in the log names the device, after it the key, and nothing else.
pub proof fn labels_name_device_and_key(action: Action)
    ensures
        action matches Action::Ircc(name, _) ==> action.spec_label().take(5) == "ircc/"@
            && action.spec_label().skip(5) == name@,
        action matches Action::App(name, _) ==> action.spec_label().take(4) == "app/"@
            && action.spec_label().skip(4) == name@,
        action matches Action::Nad(Nad::VolumeUp) ==> action.spec_label() == "nad/volume_up"@,
        action matches Action::Nad(Nad::VolumeDown) ==> action.spec_label() == "nad/volume_down"@,
        action matches Action::Nad(Nad::Mute) ==> action.spec_label() == "nad/mute"@,
{
    reveal_strlit("ircc/");
    reveal_strlit("app/");
    let label = action.spec_label();
    match action {
        Action::Ircc(name, _) => {
            assert(label.take(5) =~= "ircc/"@);
            assert(label.skip(5) =~= name@);
        },
        Action::App(name, _) => {
            assert(label.take(4) =~= "app/"@);
            assert(label.skip(4) =~= name@);
        },
        _ => {},
    }
}

/// `name` is the name of an arrow key or of a key that changes the channel.
pub open spec fn is_arrow_or_channel(name: Seq<char>) -> bool {
    exists|code: u16|
        (0x0042 <= code <= 0x0045 || code == 0x009C || code == 0x009D) && (
        #[trigger] key_binding(code) matches Some(Action::Ircc(n, _)) && n@ == name)
}

/// An action repeats exactly if it changes the volume, or is the key press of an arrow key or of
/// one that changes the channel. What the press sends does not matter to that.
#[verifier::spinoff_prover]
pub proof fn what_repeats(action: Action)
    ensures
        action matches Action::Nad(command) ==> (action.spec_repeatable() <==> command
            == Nad::VolumeUp || command == Nad::VolumeDown),
        action matches Action::Ircc(name, _) ==> (action.spec_repeatable() <==> is_arrow_or_channel(
            name@,
        )),
        action is App ==> !action.spec_repeatable(),
{
    if let Action::Ircc(name, _) = action {
        assert(key_binding(0x0042) is Some);
        assert(key_binding(0x0043) is Some);
        assert(key_binding(0x0044) is Some);
        assert(key_binding(0x0045) is Some);
        assert(key_binding(0x009C) is Some);
        assert(key_binding(0x009D) is Some);
    }
}

} // verus!
