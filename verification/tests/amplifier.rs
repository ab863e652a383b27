use nadbridge::action::Nad;
use nadbridge::nad::{
    drain_step, handle_nad, keepalive_failure, match_reply, nad_command, Drain, Listener,
    NadCommand, NadJob, NadLink, NadNext, NadStep, NadTurn, ReadAttempt, Reading, Writing,
    NAD_REPLY_TIMEOUT, NAD_RETRY_PAUSE, SECOND,
};

/// Stands for a connection.
#[derive(Clone, Copy, Debug, PartialEq)]
struct Wire(u32);

fn command(text: &str, expect: Option<&str>) -> NadCommand {
    NadCommand { text: text.to_string(), expect: expect.map(|p| p.to_string()) }
}

fn query() -> NadCommand {
    command("Main.Mute?\r", Some("Main.Mute="))
}

fn finished(turn: NadTurn<Wire>) -> Result<Option<String>, String> {
    match turn.step {
        NadStep::Finished(result) => result,
        _ => panic!("the command has not ended"),
    }
}

/// Connects on a fresh link and brings the command to where it is written.
fn to_writing(link: &mut NadLink<Wire>, command: NadCommand) -> (Wire, Writing) {
    let turn = nad_command(link, command, 0);
    assert!(turn.log.is_none());
    let connecting = match turn.step {
        NadStep::Connect(connecting) => connecting,
        _ => panic!("no attempt to connect"),
    };
    let turn = connecting.connected(link, Wire(1));
    assert_eq!(turn.log.as_deref(), Some("NAD: connected"));
    match turn.step {
        NadStep::Write(stream, writing) => (stream, writing),
        _ => panic!("nothing is written"),
    }
}

fn to_reading(link: &mut NadLink<Wire>) -> (Wire, Reading) {
    let (stream, writing) = to_writing(link, query());
    assert_eq!(writing.bytes(), b"Main.Mute?\r");
    match writing.written(link, stream, 100).step {
        NadStep::Read(stream, reading) => (stream, reading),
        _ => panic!("no reply is awaited"),
    }
}

#[test]
fn draining_goes_on_while_there_are_bytes() {
    assert_eq!(drain_step(ReadAttempt::Bytes(512)), Drain::Again);
    assert_eq!(drain_step(ReadAttempt::Bytes(0)), Drain::Closed);
    assert_eq!(drain_step(ReadAttempt::WouldBlock), Drain::Open);
    assert_eq!(drain_step(ReadAttempt::Failed), Drain::Closed);
}

#[test]
fn a_keepalive_failure_is_logged() {
    assert_eq!(keepalive_failure("no"), "NAD: could not enable TCP keepalive: no");
}

#[test]
fn a_reply_is_a_line_with_the_prefix() {
    assert_eq!(match_reply(" Main.Mute=On\r\n", "Main.Mute="), Some("Main.Mute=On".to_string()));
    assert_eq!(match_reply("Main.Volume=-30\r", "Main.Mute="), None);
    assert_eq!(match_reply("", ""), Some(String::new()));
}

#[test]
fn other_lines_are_passed_over() {
    let stream = b"\nMain.Volume=-30\r\nMain.Mute=Off\r\nMain.Mute=On\r\n";
    for size in 1..=stream.len() {
        let mut listener = Listener::new("Main.Mute=".to_string());
        let mut reply = None;
        for piece in stream.chunks(size) {
            reply = listener.hear(piece);
            if reply.is_some() {
                break;
            }
        }
        assert_eq!(reply.as_deref(), Some("Main.Mute=Off"));
    }
}

#[test]
fn a_reply_needs_its_line_end() {
    let mut listener = Listener::new("Main.Mute=".to_string());
    assert_eq!(listener.hear(b"Main.Mute=O"), None);
    assert_eq!(listener.hear(b"n"), None);
    assert_eq!(listener.hear(b"\r").as_deref(), Some("Main.Mute=On"));
}

#[test]
fn a_reply_is_read_with_replacement_characters() {
    let mut listener = Listener::new("Main.".to_string());
    assert_eq!(listener.hear(b"Main.Model=\xffC338\n").as_deref(), Some("Main.Model=\u{fffd}C338"));
    let mut listener = Listener::new("Main.".to_string());
    assert_eq!(listener.hear("Main.Model=é\n".as_bytes()).as_deref(), Some("Main.Model=é"));
}

#[test]
fn a_command_without_reply_keeps_the_connection() {
    let mut link = NadLink::new();
    let (stream, writing) = to_writing(&mut link, command("Main.Volume+\r", None));
    assert!(link.stream.is_none());
    assert_eq!(writing.bytes(), b"Main.Volume+\r");
    assert_eq!(finished(writing.written(&mut link, stream, 0)), Ok(None));
    assert_eq!(link.stream, Some(Wire(1)));
}

#[test]
fn a_kept_connection_is_drained_and_used_again() {
    let mut link = NadLink { stream: Some(Wire(7)), retry_after: None };
    match nad_command(&mut link, query(), 0).step {
        NadStep::Drain(stream, draining) => {
            assert_eq!(stream, Wire(7));
            assert!(link.stream.is_none());
            let turn = draining.drained(&mut link, stream, false, 0);
            assert!(turn.log.is_none());
            assert!(matches!(turn.step, NadStep::Write(Wire(7), _)));
        }
        _ => panic!("the connection is not drained"),
    }
}

#[test]
fn a_closed_connection_is_replaced() {
    let mut link = NadLink { stream: Some(Wire(7)), retry_after: None };
    match nad_command(&mut link, query(), 0).step {
        NadStep::Drain(stream, draining) => {
            let turn = draining.drained(&mut link, stream, true, 0);
            assert_eq!(turn.log.as_deref(), Some("NAD: connection closed by amplifier"));
            assert!(matches!(turn.step, NadStep::Connect(_)));
        }
        _ => panic!("the connection is not drained"),
    }
}

#[test]
fn a_failed_attempt_bars_the_next_for_five_seconds() {
    let mut link: NadLink<Wire> = NadLink::new();
    match nad_command(&mut link, query(), 0).step {
        NadStep::Connect(connecting) => {
            let turn = connecting.failed(&mut link, "refused", 10);
            assert!(turn.log.is_none());
            assert_eq!(finished(turn), Err("connect: refused".to_string()));
        }
        _ => panic!("no attempt to connect"),
    }
    let next = 10 + NAD_RETRY_PAUSE;
    assert_eq!(link.retry_after, Some(next as u128));
    let refused = |link: &mut NadLink<Wire>, now: u64| finished(nad_command(link, query(), now));
    let text = |secs: u64| Err(format!("not reachable, next attempt in {}s", secs));
    assert_eq!(refused(&mut link, 10), text(6));
    assert_eq!(refused(&mut link, 11), text(5));
    assert_eq!(refused(&mut link, next - SECOND), text(2));
    assert_eq!(refused(&mut link, next - SECOND + 1), text(1));
    assert_eq!(refused(&mut link, next - 1), text(1));
    assert!(matches!(nad_command(&mut link, query(), next).step, NadStep::Connect(_)));
}

#[test]
fn a_pause_can_begin_at_any_time() {
    let mut link: NadLink<Wire> = NadLink::new();
    match nad_command(&mut link, query(), u64::MAX).step {
        NadStep::Connect(connecting) => {
            finished(connecting.failed(&mut link, "refused", u64::MAX)).unwrap_err();
        }
        _ => panic!("no attempt to connect"),
    }
    assert_eq!(
        finished(nad_command(&mut link, query(), u64::MAX)),
        Err("not reachable, next attempt in 6s".to_string())
    );
}

#[test]
fn a_pause_begins_anew_with_each_failure() {
    let mut link: NadLink<Wire> = NadLink { stream: None, retry_after: Some(5) };
    match nad_command(&mut link, query(), 5).step {
        NadStep::Connect(connecting) => {
            finished(connecting.failed(&mut link, "refused", 6)).unwrap_err();
        }
        _ => panic!("no attempt to connect"),
    }
    assert_eq!(link.retry_after, Some(6 + NAD_RETRY_PAUSE as u128));
}

#[test]
fn a_success_lifts_the_bar() {
    let mut link: NadLink<Wire> = NadLink { stream: None, retry_after: Some(5) };
    match nad_command(&mut link, query(), 5).step {
        NadStep::Connect(connecting) => {
            connecting.connected(&mut link, Wire(2));
            assert_eq!(link.retry_after, None);
        }
        _ => panic!("no attempt to connect"),
    }
}

#[test]
fn connecting_can_time_out() {
    let mut link: NadLink<Wire> = NadLink::new();
    match nad_command(&mut link, query(), 0).step {
        NadStep::Connect(connecting) => {
            let turn = connecting.timed_out(&mut link, 3);
            assert_eq!(finished(turn), Err("connect: timed out".to_string()));
        }
        _ => panic!("no attempt to connect"),
    }
    assert_eq!(link.retry_after, Some(3 + NAD_RETRY_PAUSE as u128));
}

#[test]
fn a_failed_write_drops_the_connection() {
    let mut link = NadLink::new();
    let (_, writing) = to_writing(&mut link, query());
    let turn: NadTurn<Wire> = writing.failed("broken pipe".to_string());
    assert_eq!(
        turn.log.as_deref(),
        Some("NAD: write failed, dropping connection: broken pipe")
    );
    assert_eq!(finished(turn), Err("broken pipe".to_string()));
    assert!(link.stream.is_none());
}

#[test]
fn a_reply_ends_the_command_and_keeps_the_connection() {
    let mut link = NadLink::new();
    let (stream, reading) = to_reading(&mut link);
    let turn = reading.received(&mut link, stream, b"Main.Mute=");
    assert!(link.stream.is_none());
    let (stream, reading) = match turn.step {
        NadStep::Read(stream, reading) => (stream, reading),
        _ => panic!("half a line is no reply"),
    };
    let turn = reading.received(&mut link, stream, b"On\r\n");
    assert_eq!(finished(turn), Ok(Some("Main.Mute=On".to_string())));
    assert_eq!(link.stream, Some(Wire(1)));
}

#[test]
fn the_time_for_a_reply_does_not_begin_anew() {
    let mut link = NadLink::new();
    let (stream, reading) = to_reading(&mut link);
    assert_eq!(reading.deadline, 100 + NAD_REPLY_TIMEOUT as u128);
    assert_eq!(reading.time_left(100), NAD_REPLY_TIMEOUT);
    let reading = match reading.received(&mut link, stream, b"Main.Volume=-30\r\n").step {
        NadStep::Read(_, reading) => reading,
        _ => panic!("another line is no reply"),
    };
    assert_eq!(reading.deadline, 100 + NAD_REPLY_TIMEOUT as u128);
    assert_eq!(reading.time_left(101), NAD_REPLY_TIMEOUT - 1);
    assert_eq!(reading.time_left(100 + NAD_REPLY_TIMEOUT - 1), 1);
    assert_eq!(reading.time_left(100 + NAD_REPLY_TIMEOUT), 0);
    assert_eq!(reading.time_left(u64::MAX), 0);
}

#[test]
fn a_reply_is_a_single_line_whatever_the_bytes() {
    let some = [0x00, 0x41, 0x80, 0xc2, 0xe2, 0x82, 0xf0, 0x9f, 0xff, b'\n', b'\r'];
    for n in 0..some.len().pow(4) {
        let bytes: Vec<u8> = (0..4).map(|k| some[n / some.len().pow(k) % some.len()]).collect();
        let mut listener = Listener::new(String::new());
        let end = bytes.iter().position(|b| *b == b'\n' || *b == b'\r');
        match (listener.hear(&bytes), end) {
            (Some(reply), Some(end)) => {
                assert!(!reply.contains('\n') && !reply.contains('\r'));
                assert_eq!(reply, String::from_utf8_lossy(&bytes[..=end]).trim());
                assert_eq!(reply, String::from_utf8_lossy(&bytes[..end]).trim());
            }
            (None, None) => {}
            _ => panic!("a reply is a line that has ended"),
        }
    }
}

#[test]
fn an_amplifier_that_closes_fails_the_command() {
    let mut link = NadLink::new();
    let (stream, reading) = to_reading(&mut link);
    let turn = reading.received(&mut link, stream, b"");
    assert_eq!(turn.log.as_deref(), Some("NAD: connection closed by amplifier"));
    assert_eq!(finished(turn), Err("connection closed by amplifier".to_string()));
    assert!(link.stream.is_none());
}

#[test]
fn a_failed_read_drops_the_connection() {
    let mut link = NadLink::new();
    let (_, reading) = to_reading(&mut link);
    let turn: NadTurn<Wire> = reading.failed("reset".to_string());
    assert_eq!(turn.log.as_deref(), Some("NAD: reset"));
    assert_eq!(finished(turn), Err("reset".to_string()));
    assert!(link.stream.is_none());
}

#[test]
fn a_missing_reply_keeps_the_connection() {
    let mut link = NadLink::new();
    let (stream, reading) = to_reading(&mut link);
    let turn = reading.timed_out(&mut link, stream);
    assert!(turn.log.is_none());
    assert_eq!(finished(turn), Ok(None));
    assert_eq!(link.stream, Some(Wire(1)));
}

fn sent(next: NadNext) -> (String, Option<String>, NadJob) {
    match next {
        NadNext::Send(command, job) => (command.text, command.expect, job),
        NadNext::Done(_) => panic!("nothing is sent"),
    }
}

fn done(next: NadNext) -> Result<(), String> {
    match next {
        NadNext::Done(result) => result,
        NadNext::Send(..) => panic!("something is sent"),
    }
}

#[test]
fn the_volume_takes_one_command() {
    let (text, expect, job) = sent(handle_nad(Nad::VolumeUp));
    assert_eq!((text.as_str(), expect), ("Main.Volume+\r", None));
    assert_eq!(done(job.finished(Ok(None))), Ok(()));
    let (text, expect, job) = sent(handle_nad(Nad::VolumeDown));
    assert_eq!((text.as_str(), expect), ("Main.Volume-\r", None));
    assert_eq!(done(job.finished(Err("x".to_string()))), Err("x".to_string()));
}

fn asked() -> NadJob {
    let (text, expect, job) = sent(handle_nad(Nad::Mute));
    assert_eq!(text, "Main.Mute?\r");
    assert_eq!(expect.as_deref(), Some("Main.Mute="));
    job
}

#[test]
fn the_mute_key_toggles() {
    for (reply, switch) in [
        ("Main.Mute=On", "Main.Mute=Off\r"),
        ("Main.Mute=Off", "Main.Mute=On\r"),
        ("Main.Mute=on", "Main.Mute=On\r"),
    ] {
        let (text, expect, job) = sent(asked().finished(Ok(Some(reply.to_string()))));
        assert_eq!(text, switch);
        assert_eq!(expect.as_deref(), Some("Main.Mute="));
        assert_eq!(done(job.finished(Ok(None))), Ok(()));
    }
}

#[test]
fn an_unknown_mute_state_is_an_error() {
    assert_eq!(done(asked().finished(Ok(None))), Err("no reply to Main.Mute?".to_string()));
    assert_eq!(done(asked().finished(Err("x".to_string()))), Err("x".to_string()));
}

#[test]
fn a_switch_that_fails_is_sent_once_more() {
    let (_, _, job) = sent(asked().finished(Ok(Some("Main.Mute=On".to_string()))));
    let (text, expect, job) = sent(job.finished(Err("closed".to_string())));
    assert_eq!(text, "Main.Mute=Off\r");
    assert_eq!(expect.as_deref(), Some("Main.Mute="));
    assert_eq!(done(job.finished(Err("again".to_string()))), Err("again".to_string()));
    assert_eq!(done(NadJob::SwitchAgain.finished(Ok(None))), Ok(()));
}
