//! The amplifier: one connection that is kept, the commands on it, and their replies.
//!
//! The amplifier does not free the slots of closed connections, so one connection is kept and
//! opened anew only after an error, with a pause after a failed attempt. The functions here
//! decide; the caller holds the connection `S`, does what a `NadStep` asks for and reports back
//! through the value that comes with it. Times are nanoseconds of a clock that never goes back.
use vstd::prelude::*;
use vstd::slice::slice_subrange;
use vstd::string::*;
use vstd::utf8::*;

use crate::action::Nad;
use crate::outside::{ascii_from, lossy_utf8, utf8_lossy};
use crate::text::{
    begins, begins_with, chars_of, decimal, join2, push_decimal, same_text, string_of, trim,
    trimmed, trimmed_is_inside,
};

verus! {

/// Nanoseconds in a second.
pub const SECOND: u64 = 1_000_000_000;

/// The pause after a failed attempt to connect.
pub const NAD_RETRY_PAUSE: u64 = 5_000_000_000;

/// How long an attempt to connect may take.
pub const NAD_CONNECT_TIMEOUT: u64 = 3_000_000_000;

/// How long a reply may take.
pub const NAD_REPLY_TIMEOUT: u64 = 1_500_000_000;

/// How long a connection lies idle before it is probed.
pub const KEEPALIVE_TIME: u64 = 30_000_000_000;

/// The time between two probes.
pub const KEEPALIVE_INTERVAL: u64 = 10_000_000_000;

/// The number of probes without an answer after which the connection counts as dead.
pub const KEEPALIVE_RETRIES: u32 = 3;

// Draining.

/// What one attempt to read what is buffered has met.
#[derive(Clone, Copy, Debug)]
pub enum ReadAttempt {
    /// So many bytes; none at all means that the peer has closed the connection.
    Bytes(usize),
    /// Nothing is buffered.
    WouldBlock,
    /// Any other error.
    Failed,
}

/// What the drained connection is, or that there is more to drain.
#[derive(Clone, Copy, Debug, PartialEq, Eq, Structural)]
pub enum Drain {
    Again,
    Open,
    Closed,
}

/// Goes on while there are bytes to discard, then tells whether the peer has closed or reset
/// the connection.
pub fn drain_step(attempt: ReadAttempt) -> (drain: Drain)
    ensures
        drain == (match attempt {
            ReadAttempt::Bytes(n) => if n == 0 {
                Drain::Closed
            } else {
                Drain::Again
            },
            ReadAttempt::WouldBlock => Drain::Open,
            ReadAttempt::Failed => Drain::Closed,
        }),
{
    match attempt {
        ReadAttempt::Bytes(n) => if n == 0 {
            Drain::Closed
        } else {
            Drain::Again
        },
        ReadAttempt::WouldBlock => Drain::Open,
        ReadAttempt::Failed => Drain::Closed,
    }
}

/// The log message where the probing of a connection could not be switched on.
pub fn keepalive_failure(error: &str) -> (msg: String)
    ensures
        msg@ == "NAD: could not enable TCP keepalive: "@ + error@,
{
    join2("NAD: could not enable TCP keepalive: ", error)
}

// Replies.

/// Where the first line of `s` ends, at or after `from`.
pub open spec fn line_end(s: Seq<u8>, from: int) -> Option<int>
    decreases s.len() - from,
{
    if from < 0 || from >= s.len() {
        None
    } else if s[from] == 10 || s[from] == 13 {
        Some(from)
    } else {
        line_end(s, from + 1)
    }
}

/// The first of the lines in `s` that begins with `prefix`, without the white space around it.
pub open spec fn first_reply(s: Seq<u8>, prefix: Seq<char>) -> Option<Seq<char>>
    decreases s.len(),
    via first_reply_decreases
{
    match line_end(s, 0) {
        None => None,
        Some(i) => {
            let line = trimmed(lossy_utf8(s.take(i + 1)));
            if begins_with(line, prefix) {
                Some(line)
            } else {
                first_reply(s.skip(i + 1), prefix)
            }
        },
    }
}

#[via_fn]
proof fn first_reply_decreases(s: Seq<u8>, prefix: Seq<char>) {
    line_end_in_range(s, 0);
}

proof fn line_end_in_range(s: Seq<u8>, from: int)
    requires
        0 <= from,
    ensures
        line_end(s, from) matches Some(i) ==> from <= i < s.len(),
    decreases s.len() - from,
{
    if from < s.len() && s[from] != 10 && s[from] != 13 {
        line_end_in_range(s, from + 1);
    }
}

proof fn line_end_is_first(s: Seq<u8>, from: int, j: int)
    requires
        0 <= from <= j,
        line_end(s, from) matches Some(i) && j < i,
    ensures
        s[j] != 10 && s[j] != 13,
    decreases s.len() - from,
{
    line_end_in_range(s, from);
    if from < j {
        line_end_is_first(s, from + 1, j);
    }
}

/// Text without line ends.
pub open spec fn single_line(text: Seq<char>) -> bool {
    forall|i: int| 0 <= i < text.len() ==> #[trigger] text[i] != '\n' && text[i] != '\r'
}

/// What the line of `s` up to its first line end has been read as, without the white space around
/// it, holds no line end.
proof fn line_is_single(s: Seq<u8>, at: int, text: Seq<char>)
    requires
        line_end(s, 0) == Some(at),
        text.len() > 0,
        text.last() == s[at] as char,
        ascii_from(text.drop_last(), s.take(at)),
    ensures
        single_line(trimmed(text)),
{
    line_end_in_range(s, 0);
    line_end_holds(s, 0);
    assert forall|i: int| 0 <= i < trimmed(text).len() implies #[trigger] trimmed(text)[i] != '\n'
        && trimmed(text)[i] != '\r' by {
        let c = trimmed(text)[i];
        trimmed_is_inside(text, i);
        let k = choose|k: int| 0 <= k < text.drop_last().len() && text.drop_last()[k] == c;
        if c == '\n' || c == '\r' {
            assert(s.take(at).contains(text.drop_last()[k] as u8));
            let j = choose|j: int| 0 <= j < at && s.take(at)[j] == c as u8;
            assert(s[j] == c as u8);
            line_end_is_first(s, 0, j);
        }
    }
}

proof fn line_end_holds(s: Seq<u8>, from: int)
    requires
        0 <= from,
        line_end(s, from) is Some,
    ensures
        s[line_end(s, from)->0] == 10 || s[line_end(s, from)->0] == 13,
    decreases s.len() - from,
{
    if s[from] != 10 && s[from] != 13 {
        line_end_holds(s, from + 1);
    }
}

proof fn line_end_extends(s: Seq<u8>, more: Seq<u8>, from: int)
    requires
        0 <= from,
        line_end(s, from) is Some,
    ensures
        line_end(s + more, from) == line_end(s, from),
    decreases s.len() - from,
{
    if s[from] != 10 && s[from] != 13 {
        line_end_extends(s, more, from + 1);
    }
}

/// A reply that has been found stays the first one, whatever follows it.
pub proof fn reply_is_stable(s: Seq<u8>, more: Seq<u8>, prefix: Seq<char>)
    requires
        first_reply(s, prefix) is Some,
    ensures
        first_reply(s + more, prefix) == first_reply(s, prefix),
    decreases s.len(),
{
    line_end_in_range(s, 0);
    line_end_extends(s, more, 0);
    let i = line_end(s, 0)->0;
    assert((s + more).take(i + 1) =~= s.take(i + 1));
    assert((s + more).skip(i + 1) =~= s.skip(i + 1) + more);
    if !begins_with(trimmed(lossy_utf8(s.take(i + 1))), prefix) {
        reply_is_stable(s.skip(i + 1), more, prefix);
    }
}

/// The reply that is found does not depend on the pieces in which the bytes arrive: two listeners
/// that have heard so much of the same stream that they have found one have found the same.
pub proof fn pieces_of_a_reply_do_not_matter(s: Seq<u8>, prefix: Seq<char>, i: int, j: int)
    requires
        0 <= i <= s.len(),
        0 <= j <= s.len(),
        first_reply(s.take(i), prefix) is Some,
        first_reply(s.take(j), prefix) is Some,
    ensures
        first_reply(s.take(i), prefix) == first_reply(s.take(j), prefix),
{
    reply_is_stable(s.take(i), s.skip(i), prefix);
    reply_is_stable(s.take(j), s.skip(j), prefix);
    assert(s.take(i) + s.skip(i) =~= s);
    assert(s.take(j) + s.skip(j) =~= s);
}

/// `text` without the white space around it, where that begins with `prefix`.
pub fn match_reply(text: &str, prefix: &str) -> (reply: Option<String>)
    ensures
        reply matches Some(line) ==> line@ == trimmed(text@) && begins_with(line@, prefix@),
        reply is None ==> !begins_with(trimmed(text@), prefix@),
{
    let chars = chars_of(text);
    let line = trim(&chars);
    if begins(line, &chars_of(prefix)) {
        Some(string_of(line))
    } else {
        None
    }
}

fn end_of_line(s: &[u8]) -> (at: Option<usize>)
    ensures
        at matches Some(i) ==> line_end(s@, 0) == Some(i as int) && i < s@.len() <= usize::MAX,
        at is None ==> line_end(s@, 0) is None,
{
    let mut i: usize = 0;
    while i < s.len()
        invariant
            i <= s@.len(),
            line_end(s@, 0) == line_end(s@, i as int),
        decreases s@.len() - i,
    {
        if s[i] == 10 || s[i] == 13 {
            return Some(i);
        }
        i += 1;
    }
    None
}

/// Listens for a reply while its bytes arrive.
pub struct Listener {
    prefix: String,
    pending: Vec<u8>,
    heard: Ghost<Seq<u8>>,
}

impl Listener {
    /// How the awaited reply begins.
    pub closed spec fn prefix(&self) -> Seq<char> {
        self.prefix@
    }

    /// Everything that has arrived since the command was sent.
    pub closed spec fn heard(&self) -> Seq<u8> {
        self.heard@
    }

    /// What is pending decides, together with what is still to come, as everything heard does.
    pub closed spec fn wf(&self) -> bool {
        forall|more: Seq<u8>| #[trigger]
            first_reply(self.heard@ + more, self.prefix@) == first_reply(
                self.pending@ + more,
                self.prefix@,
            )
    }

    /// A listener that has heard nothing.
    pub fn new(prefix: String) -> (listener: Listener)
        ensures
            listener.wf(),
            listener.prefix() == prefix@,
            listener.heard() == Seq::<u8>::empty(),
    {
        Listener { prefix, pending: Vec::new(), heard: Ghost(Seq::empty()) }
    }

    /// Takes in the bytes that have arrived next and tells the reply, once it is there.
    pub fn hear(&mut self, bytes: &[u8]) -> (reply: Option<String>)
        requires
            old(self).wf(),
        ensures
            final(self).prefix() == old(self).prefix(),
            final(self).heard() == old(self).heard() + bytes@,
            reply matches Some(line) ==> single_line(line@) && first_reply(
                old(self).heard() + bytes@,
                old(self).prefix(),
            ) == Some(line@),
            reply is None ==> final(self).wf() && first_reply(
                old(self).heard() + bytes@,
                old(self).prefix(),
            ) is None,
    {
        let ghost before = *self;
        self.pending.extend_from_slice(bytes);
        self.heard = Ghost(self.heard@ + bytes@);
        assert forall|more: Seq<u8>| #[trigger]
            first_reply(self.heard@ + more, self.prefix@) == first_reply(
                self.pending@ + more,
                self.prefix@,
            ) by {
            assert(self.heard@ + more =~= before.heard@ + (bytes@ + more));
            assert(self.pending@ + more =~= before.pending@ + (bytes@ + more));
            assert(first_reply(before.heard@ + (bytes@ + more), before.prefix@) == first_reply(
                before.pending@ + (bytes@ + more),
                before.prefix@,
            ));
        }
        loop
            invariant
                before == *old(self),
                self.wf(),
                self.prefix@ == before.prefix@,
                self.heard@ == before.heard@ + bytes@,
            decreases self.pending@.len(),
        {
            let ghost pending = self.pending@;
            assert(self.heard@ + Seq::<u8>::empty() =~= self.heard@);
            assert(pending + Seq::<u8>::empty() =~= pending);
            assert(first_reply(self.heard@ + Seq::<u8>::empty(), self.prefix@) == first_reply(
                pending + Seq::<u8>::empty(),
                self.prefix@,
            ));
            match end_of_line(&self.pending) {
                None => {
                    return None;
                },
                Some(i) => {
                    let rest = self.pending.split_off(i + 1);
                    assert(rest@ =~= pending.skip(i + 1));
                    assert(self.pending@ =~= pending.take(i + 1));
                    let text = utf8_lossy(self.pending.as_slice());
                    proof {
                        line_end_holds(pending, 0);
                        assert(pending.take(i + 1).drop_last() =~= pending.take(i as int));
                        line_is_single(pending, i as int, text@);
                    }
                    self.pending = rest;
                    match match_reply(text.as_str(), self.prefix.as_str()) {
                        Some(line) => {
                            return Some(line);
                        },
                        None => {},
                    }
                    assert forall|more: Seq<u8>| #[trigger]
                        first_reply(self.heard@ + more, self.prefix@) == first_reply(
                            self.pending@ + more,
                            self.prefix@,
                        ) by {
                        line_end_extends(pending, more, 0);
                        assert((pending + more).take(i + 1) =~= pending.take(i + 1));
                        assert((pending + more).skip(i + 1) =~= pending.skip(i + 1) + more);
                    }
                },
            }
        }
    }
}

// Commands.

/// The connection to the amplifier between two commands.
pub struct NadLink<S> {
    /// The connection, while there is one.
    pub stream: Option<S>,
    /// The earliest time of the next attempt to connect, where the last one failed. It may lie
    /// beyond the last time that the clock can show.
    pub retry_after: Option<u128>,
}

/// A command and, where its reply matters, how that begins.
pub struct NadCommand {
    pub text: String,
    pub expect: Option<String>,
}

/// What is to be done next for a command, and the value that takes the result.
pub enum NadStep<S> {
    /// Discard what the connection has buffered.
    Drain(S, Draining),
    /// Open a connection.
    Connect(Connecting),
    /// Write the command.
    Write(S, Writing),
    /// Read from the connection.
    Read(S, Reading),
    /// Nothing more: the command failed, or got this reply, or no reply.
    Finished(Result<Option<String>, String>),
}

/// A message for the log, and what is to be done after it.
pub struct NadTurn<S> {
    pub log: Option<String>,
    pub step: NadStep<S>,
}

/// A command whose connection is being drained.
pub struct Draining {
    pub command: NadCommand,
}

/// A command that waits for a connection.
pub struct Connecting {
    pub command: NadCommand,
}

/// A command that is being written.
pub struct Writing {
    pub command: NadCommand,
}

/// A command that waits for its reply.
pub struct Reading {
    pub listener: Listener,
    /// The time at which the reply is given up, however many bytes arrive before it. It may lie
    /// beyond the last time that the clock can show.
    pub deadline: u128,
}

impl<S> NadLink<S> {
    /// A link that holds a connection bars no attempt to connect.
    pub open spec fn wf(self) -> bool {
        self.stream is Some ==> self.retry_after is None
    }

    /// The link has lent its connection to a command.
    pub open spec fn lent(self) -> bool {
        self.stream is None && self.retry_after is None
    }

    /// A link that has never been used.
    pub fn new() -> (link: NadLink<S>)
        ensures
            link.wf(),
            link.stream is None,
            link.retry_after is None,
    {
        NadLink { stream: None, retry_after: None }
    }

    /// The link after an attempt to connect that has failed at the time `now`.
    pub open spec fn barred(self, now: u64) -> NadLink<S> {
        NadLink { stream: self.stream, retry_after: Some((now + NAD_RETRY_PAUSE) as u128) }
    }

    /// The link after an attempt to connect that has succeeded.
    pub open spec fn unbarred(self) -> NadLink<S> {
        NadLink { stream: self.stream, retry_after: None }
    }
}

impl<S> NadTurn<S> {
    /// The turn logs nothing.
    pub open spec fn is_silent(self) -> bool {
        self.log is None
    }

    /// The turn logs `msg`.
    pub open spec fn says(self, msg: Seq<char>) -> bool {
        self.log matches Some(log) && log@ == msg
    }

    /// The turn ends the command with the error `msg`.
    pub open spec fn fails(self, msg: Seq<char>) -> bool {
        self.step matches NadStep::Finished(Err(e)) && e@ == msg
    }

    /// The turn ends the command well.
    pub open spec fn succeeds(self) -> bool {
        self.step matches NadStep::Finished(Ok(_))
    }

    /// The command makes no attempt to connect any more.
    pub open spec fn connects_no_more(self) -> bool {
        self.step !is Drain && self.step !is Connect
    }
}

/// What a command is refused with at the time `now`, where the link waits until `retry_after`.
pub open spec fn refusal(retry_after: Option<u128>, now: u64) -> Option<Seq<char>> {
    match retry_after {
        Some(at) => if now < at {
            Some(
                "not reachable, next attempt in "@ + decimal(
                    ((at - now) / SECOND as int + 1) as nat,
                ) + "s"@,
            )
        } else {
            None
        },
        None => None,
    }
}

/// The turn opens a connection for `command`, unless it is too early for that.
pub open spec fn opens<S>(
    turn: NadTurn<S>,
    command: NadCommand,
    retry_after: Option<u128>,
    now: u64,
) -> bool {
    match refusal(retry_after, now) {
        Some(msg) => turn.fails(msg),
        None => turn.step == NadStep::<S>::Connect(Connecting { command }),
    }
}

/// The turn begins `command` on `link` at the time `now`: on the connection that the link holds,
/// once that is drained, or else by opening one.
pub open spec fn starts<S>(
    turn: NadTurn<S>,
    link: NadLink<S>,
    command: NadCommand,
    now: u64,
) -> bool {
    match link.stream {
        Some(stream) => turn.step == NadStep::Drain(stream, Draining { command }),
        None => opens(turn, command, link.retry_after, now),
    }
}

/// What was asked for with `step` on `link` has been done without a failure, and has led to `next`
/// on `after`. Where no reply comes in time nothing has failed.
pub open spec fn goes_well<S>(
    link: NadLink<S>,
    step: NadStep<S>,
    after: NadLink<S>,
    next: NadStep<S>,
) -> bool {
    match step {
        NadStep::Drain(stream, draining) => after == link && next == NadStep::Write(
            stream,
            Writing { command: draining.command },
        ),
        NadStep::Connect(connecting) => after == link.unbarred() && (next matches NadStep::Write(
            _,
            writing,
        ) && writing.command == connecting.command),
        NadStep::Write(stream, writing) => if writing.command.expect is Some {
            after == link && (next matches NadStep::Read(s, _) && s == stream)
        } else {
            after == (NadLink { stream: Some(stream), ..link }) && next == NadStep::<S>::Finished(
                Ok(None),
            )
        },
        NadStep::Read(stream, _) => {
            ||| after == link && (next matches NadStep::Read(s, _) && s == stream)
            ||| after == (NadLink { stream: Some(stream), ..link }) && (next matches
                NadStep::Finished(Ok(_)))
        },
        NadStep::Finished(_) => false,
    }
}

/// How a link stands after a turn. It holds a connection exactly if the turn ends a command well:
/// never while one is under way, and never after one that failed. While a command has a
/// connection, and while the link holds one, no attempt to connect is barred.
pub open spec fn settled<S>(link: NadLink<S>, turn: NadTurn<S>) -> bool {
    &&& link.wf()
    &&& link.stream is Some <==> turn.succeeds()
    &&& turn.step is Drain || turn.step is Write || turn.step is Read ==> link.lent()
}

/// After an attempt to connect that failed at `failed_at`, a command that begins at `now` makes no
/// attempt before the pause is over: it fails, and its error gives the seconds until the next
/// attempt, the last of them begun. Once the pause is over the command makes an attempt. If that
/// succeeds nothing is barred any more; if it fails, at `failed_again`, the next pause begins then.
pub proof fn failed_attempt_is_followed_by_a_pause<S>(
    link: NadLink<S>,
    failed_at: u64,
    command: NadCommand,
    now: u64,
    turn: NadTurn<S>,
    secs: nat,
    failed_again: u64,
)
    requires
        link.stream is None,
        starts(turn, link.barred(failed_at), command, now),
    ensures
        ({
            let next = failed_at + NAD_RETRY_PAUSE;
            &&& link.barred(failed_at).retry_after matches Some(at) && at == next
            &&& now < next ==> (turn.step matches NadStep::Finished(Err(_)))
            &&& now < next && (secs - 1) * SECOND <= next - now < secs * SECOND ==> turn.fails(
                "not reachable, next attempt in "@ + decimal(secs) + "s"@,
            )
            &&& now >= next ==> turn.step == NadStep::<S>::Connect(Connecting { command })
            &&& link.barred(failed_at).unbarred().retry_after is None
            &&& link.barred(failed_at).barred(failed_again).retry_after matches Some(at) && at
                == failed_again + NAD_RETRY_PAUSE
        }),
{
}

fn open_or_refuse<S>(retry_after: Option<u128>, command: NadCommand, now: u64) -> (step:
    NadStep<S>)
    ensures
        match refusal(retry_after, now) {
            Some(msg) => step matches NadStep::Finished(Err(e)) && e@ == msg,
            None => step == NadStep::<S>::Connect(Connecting { command }),
        },
{
    if let Some(at) = retry_after {
        if (now as u128) < at {
            let mut msg = "not reachable, next attempt in ".to_string();
            push_decimal(&mut msg, (at - now as u128) / SECOND as u128 + 1);
            msg.append("s");
            return NadStep::Finished(Err(msg));
        }
    }
    NadStep::Connect(Connecting { command })
}

/// Begins a command. The connection leaves the link until the command has ended well, so that a
/// command that fails halfway leaves none behind that is out of step.
pub fn nad_command<S>(link: &mut NadLink<S>, command: NadCommand, now: u64) -> (turn: NadTurn<S>)
    ensures
        old(link).wf() ==> settled(*final(link), turn),
        final(link).stream is None,
        final(link).retry_after == old(link).retry_after,
        turn.is_silent(),
        starts(turn, *old(link), command, now),
{
    match link.stream.take() {
        Some(stream) => NadTurn { log: None, step: NadStep::Drain(stream, Draining { command }) },
        None => NadTurn { log: None, step: open_or_refuse(link.retry_after, command, now) },
    }
}

impl Draining {
    /// Goes on with the drained connection, or with another one where its peer has closed it.
    pub fn drained<S>(self, link: &mut NadLink<S>, stream: S, closed: bool, now: u64) -> (turn:
        NadTurn<S>)
        ensures
            *final(link) == *old(link),
            old(link).lent() ==> settled(*final(link), turn),
            !closed ==> goes_well(
                *old(link),
                NadStep::Drain(stream, self),
                *final(link),
                turn.step,
            ),
            !closed ==> turn.is_silent() && turn.step == NadStep::Write(
                stream,
                Writing { command: self.command },
            ),
            closed && old(link).stream is None ==> starts(turn, *old(link), self.command, now),
            closed ==> turn.says("NAD: connection closed by amplifier"@) && opens(
                turn,
                self.command,
                old(link).retry_after,
                now,
            ),
    {
        if closed {
            NadTurn {
                log: Some("NAD: connection closed by amplifier".to_string()),
                step: open_or_refuse(link.retry_after, self.command, now),
            }
        } else {
            NadTurn {
                log: None,
                step: NadStep::Write(stream, Writing { command: self.command }),
            }
        }
    }
}

impl Connecting {
    /// Goes on with the new connection.
    pub fn connected<S>(self, link: &mut NadLink<S>, stream: S) -> (turn: NadTurn<S>)
        ensures
            *final(link) == old(link).unbarred(),
            goes_well(*old(link), NadStep::<S>::Connect(self), *final(link), turn.step),
            turn.connects_no_more(),
            old(link).stream is None ==> settled(*final(link), turn),
            turn.says("NAD: connected"@),
            turn.step == NadStep::Write(stream, Writing { command: self.command }),
    {
        link.retry_after = None;
        NadTurn {
            log: Some("NAD: connected".to_string()),
            step: NadStep::Write(stream, Writing { command: self.command }),
        }
    }

    /// Gives up on the error with which connecting failed, and bars the next attempt for a while.
    pub fn failed<S>(self, link: &mut NadLink<S>, error: &str, now: u64) -> (turn: NadTurn<S>)
        ensures
            *final(link) == old(link).barred(now),
            turn.connects_no_more(),
            old(link).stream is None ==> settled(*final(link), turn),
            turn.is_silent(),
            turn.fails("connect: "@ + error@),
    {
        link.retry_after = Some(now as u128 + NAD_RETRY_PAUSE as u128);
        NadTurn { log: None, step: NadStep::Finished(Err(join2("connect: ", error))) }
    }

    /// Gives up after the time for connecting, and bars the next attempt for a while.
    pub fn timed_out<S>(self, link: &mut NadLink<S>, now: u64) -> (turn: NadTurn<S>)
        ensures
            *final(link) == old(link).barred(now),
            turn.connects_no_more(),
            old(link).stream is None ==> settled(*final(link), turn),
            turn.is_silent(),
            turn.fails("connect: timed out"@),
    {
        link.retry_after = Some(now as u128 + NAD_RETRY_PAUSE as u128);
        NadTurn { log: None, step: NadStep::Finished(Err("connect: timed out".to_string())) }
    }
}

impl Writing {
    /// The bytes to write.
    pub fn bytes(&self) -> (bytes: &[u8])
        ensures
            bytes@ == encode_utf8(self.command.text@),
    {
        self.command.text.as_str().as_bytes()
    }

    /// Ends the command, or waits for its reply, which has a limited time from now on.
    pub fn written<S>(self, link: &mut NadLink<S>, stream: S, now: u64) -> (turn: NadTurn<S>)
        ensures
            final(link).retry_after == old(link).retry_after,
            old(link).lent() ==> settled(*final(link), turn),
            turn.connects_no_more(),
            goes_well(*old(link), NadStep::Write(stream, self), *final(link), turn.step),
            turn.is_silent(),
            match self.command.expect {
                None => final(link).stream == Some(stream) && turn.step == NadStep::<S>::Finished(
                    Ok(None),
                ),
                Some(prefix) => final(link).stream == old(link).stream && (turn.step matches
                    NadStep::Read(s, reading) && s == stream && reading.deadline == now
                    + NAD_REPLY_TIMEOUT && reading.listener.wf()
                    && reading.listener.prefix() == prefix@ && reading.listener.heard() == Seq::<
                    u8,
                >::empty()),
            },
    {
        match self.command.expect {
            None => {
                link.stream = Some(stream);
                NadTurn { log: None, step: NadStep::Finished(Ok(None)) }
            },
            Some(prefix) => NadTurn {
                log: None,
                step: NadStep::Read(
                    stream,
                    Reading {
                        listener: Listener::new(prefix),
                        deadline: now as u128 + NAD_REPLY_TIMEOUT as u128,
                    },
                ),
            },
        }
    }

    /// Gives up, and the connection with it.
    pub fn failed<S>(self, error: String) -> (turn: NadTurn<S>)
        ensures
            forall|link: NadLink<S>| link.lent() ==> #[trigger] settled(link, turn),
            turn.connects_no_more(),
            turn.says("NAD: write failed, dropping connection: "@ + error@),
            turn.fails(error@),
    {
        NadTurn {
            log: Some(join2("NAD: write failed, dropping connection: ", error.as_str())),
            step: NadStep::Finished(Err(error)),
        }
    }
}

impl Reading {
    /// How long the next bytes may take at the time `now`: what is left until the deadline, but no
    /// longer than a whole reply may take.
    pub open spec fn spec_time_left(self, now: u64) -> int {
        if now >= self.deadline {
            0
        } else if self.deadline - now <= NAD_REPLY_TIMEOUT {
            self.deadline - now
        } else {
            NAD_REPLY_TIMEOUT as int
        }
    }

    /// How long the next bytes may take at the time `now`.
    pub fn time_left(&self, now: u64) -> (time: u64)
        ensures
            time == self.spec_time_left(now),
    {
        if now as u128 >= self.deadline {
            0
        } else if self.deadline - now as u128 <= NAD_REPLY_TIMEOUT as u128 {
            (self.deadline - now as u128) as u64
        } else {
            NAD_REPLY_TIMEOUT
        }
    }

    /// Ends the command with its reply, once that has arrived; no bytes at all mean that the
    /// amplifier has closed the connection.
    pub fn received<S>(self, link: &mut NadLink<S>, stream: S, bytes: &[u8]) -> (turn: NadTurn<S>)
        requires
            self.listener.wf(),
        ensures
            final(link).retry_after == old(link).retry_after,
            old(link).lent() ==> settled(*final(link), turn),
            turn.connects_no_more(),
            bytes@.len() > 0 ==> goes_well(
                *old(link),
                NadStep::Read(stream, self),
                *final(link),
                turn.step,
            ),
            bytes@.len() == 0 ==> final(link).stream == old(link).stream && turn.says(
                "NAD: connection closed by amplifier"@,
            ) && turn.fails("connection closed by amplifier"@),
            bytes@.len() > 0 ==> turn.is_silent() && match first_reply(
                self.listener.heard() + bytes@,
                self.listener.prefix(),
            ) {
                Some(line) => final(link).stream == Some(stream) && (turn.step matches
                    NadStep::Finished(Ok(Some(reply))) && reply@ == line && single_line(
                    reply@,
                )),
                None => final(link).stream == old(link).stream && (turn.step matches NadStep::Read(
                    s,
                    reading,
                ) && s == stream && reading.deadline == self.deadline && reading.listener.wf()
                    && reading.listener.prefix()
                    == self.listener.prefix() && reading.listener.heard() == self.listener.heard()
                    + bytes@),
            },
    {
        if bytes.len() == 0 {
            proof {
                reveal_strlit("NAD: ");
                reveal_strlit("connection closed by amplifier");
                reveal_strlit("NAD: connection closed by amplifier");
                assert("NAD: "@ + "connection closed by amplifier"@
                    =~= "NAD: connection closed by amplifier"@);
            }
            return self.failed("connection closed by amplifier".to_string());
        }
        let deadline: u128 = self.deadline;
        let mut listener = self.listener;
        match listener.hear(bytes) {
            Some(reply) => {
                link.stream = Some(stream);
                NadTurn { log: None, step: NadStep::Finished(Ok(Some(reply))) }
            },
            None => NadTurn { log: None, step: NadStep::Read(stream, Reading { listener, deadline }) },
        }
    }

    /// Gives up, and the connection with it.
    pub fn failed<S>(self, error: String) -> (turn: NadTurn<S>)
        ensures
            forall|link: NadLink<S>| link.lent() ==> #[trigger] settled(link, turn),
            turn.connects_no_more(),
            turn.says("NAD: "@ + error@),
            turn.fails(error@),
    {
        NadTurn {
            log: Some(join2("NAD: ", error.as_str())),
            step: NadStep::Finished(Err(error)),
        }
    }

    /// Ends the command without a reply. A missing reply is no broken connection: it is kept.
    pub fn timed_out<S>(self, link: &mut NadLink<S>, stream: S) -> (turn: NadTurn<S>)
        ensures
            final(link).stream == Some(stream),
            final(link).retry_after == old(link).retry_after,
            old(link).lent() ==> settled(*final(link), turn),
            turn.connects_no_more(),
            goes_well(*old(link), NadStep::Read(stream, self), *final(link), turn.step),
            turn.is_silent(),
            turn.step == NadStep::<S>::Finished(Ok(None)),
    {
        link.stream = Some(stream);
        NadTurn { log: None, step: NadStep::Finished(Ok(None)) }
    }
}

/// All reads of a reply together have the time for a reply, counted from when the command was
/// written: each read has what is left of it.
pub proof fn reply_time_is_limited(reading: Reading, written_at: u64, now: u64)
    requires
        reading.deadline == written_at + NAD_REPLY_TIMEOUT,
        written_at <= now,
    ensures
        reading.spec_time_left(now) == (if now - written_at < NAD_REPLY_TIMEOUT {
            NAD_REPLY_TIMEOUT - (now - written_at)
        } else {
            0
        }),
{
}

// What the keys make the amplifier do.

/// A key's work on the amplifier, as far as its commands have come.
pub enum NadJob {
    /// The volume is being changed.
    Volume,
    /// The amplifier is being asked whether it is mute.
    Query,
    /// This command, which switches the mute, has been sent once.
    Switch(String),
    /// The command that switches the mute has been sent again.
    SwitchAgain,
}

/// What comes next of a key's work.
pub enum NadNext {
    /// A command.
    Send(NadCommand, NadJob),
    /// Nothing: the work is done, or it has failed.
    Done(Result<(), String>),
}

impl NadJob {
    /// How many commands the work can still take, the one under way counted in.
    pub open spec fn commands_left(self) -> nat {
        match self {
            NadJob::Volume => 1,
            NadJob::Query => 3,
            NadJob::Switch(_) => 2,
            NadJob::SwitchAgain => 1,
        }
    }
}

impl NadJob {
    /// The command that follows the one under way, where that has ended with `result`.
    pub open spec fn next_text(self, result: Result<Option<String>, String>) -> Option<Seq<char>> {
        match (self, result) {
            (NadJob::Query, Ok(Some(reply))) => Some(mute_switch(reply@)),
            (NadJob::Switch(text), Err(_)) => Some(text@),
            _ => None,
        }
    }

    /// The error with which the work fails, where the command under way has ended with `result`.
    pub open spec fn failure(self, result: Result<Option<String>, String>) -> Option<Seq<char>> {
        match (self, result) {
            (NadJob::Query, Ok(None)) => Some("no reply to Main.Mute?"@),
            (NadJob::Switch(_), _) => None,
            (_, Err(e)) => Some(e@),
            _ => None,
        }
    }
}

impl NadNext {
    /// The next command is `text`, with a reply that begins with `expect`.
    pub open spec fn sends(self, text: Seq<char>, expect: Option<Seq<char>>) -> bool {
        self matches NadNext::Send(command, _) && command.text@ == text && match expect {
            Some(prefix) => command.expect matches Some(p) && p@ == prefix,
            None => command.expect is None,
        }
    }

    /// The work that the next command belongs to.
    pub open spec fn job(self) -> NadJob {
        match self {
            NadNext::Send(_, job) => job,
            NadNext::Done(_) => NadJob::Volume,
        }
    }

    /// The work has failed with `msg`.
    pub open spec fn fails(self, msg: Seq<char>) -> bool {
        self matches NadNext::Done(Err(e)) && e@ == msg
    }
}

/// The command that switches the mute from what the amplifier has replied.
pub open spec fn mute_switch(reply: Seq<char>) -> Seq<char> {
    if reply == "Main.Mute=On"@ {
        "Main.Mute=Off\r"@
    } else {
        "Main.Mute=On\r"@
    }
}

/// What an amplifier replies that is or is not mute.
pub open spec fn mute_state(mute: bool) -> Seq<char> {
    if mute {
        "Main.Mute=On"@
    } else {
        "Main.Mute=Off"@
    }
}

/// Only an amplifier that has replied that it is mute is told not to be; after any other reply it
/// is told to be mute. The two replies and the two commands are these.
pub proof fn only_a_mute_amplifier_is_unmuted(reply: Seq<char>)
    ensures
        mute_switch(reply) == "Main.Mute=Off\r"@ <==> reply == "Main.Mute=On"@,
        mute_switch(reply) == "Main.Mute=On\r"@ <==> reply != "Main.Mute=On"@,
        mute_state(true) == "Main.Mute=On"@,
        mute_state(false) == "Main.Mute=Off"@,
        begins_with(mute_state(true), "Main.Mute="@),
        begins_with(mute_state(false), "Main.Mute="@),
{
    reveal_strlit("Main.Mute=");
    reveal_strlit("Main.Mute=On");
    reveal_strlit("Main.Mute=Off");
    reveal_strlit("Main.Mute=On\r");
    reveal_strlit("Main.Mute=Off\r");
    assert("Main.Mute=On\r"@.len() != "Main.Mute=Off\r"@.len());
    assert("Main.Mute=On"@.take(10) =~= "Main.Mute="@);
    assert("Main.Mute=Off"@.take(10) =~= "Main.Mute="@);
}

/// The mute key makes an amplifier mute that is not, and one not mute that is: the command that
/// it sends is the state that the amplifier is not in.
pub proof fn mute_key_toggles(mute: bool)
    ensures
        mute_switch(mute_state(mute)) == mute_state(!mute).push('\r'),
{
    reveal_strlit("Main.Mute=On");
    reveal_strlit("Main.Mute=Off");
    reveal_strlit("Main.Mute=On\r");
    reveal_strlit("Main.Mute=Off\r");
    assert("Main.Mute=On"@.len() != "Main.Mute=Off"@.len());
    assert("Main.Mute=On"@.push('\r') =~= "Main.Mute=On\r"@);
    assert("Main.Mute=Off"@.push('\r') =~= "Main.Mute=Off\r"@);
}

/// Begins the work of a key.
pub fn handle_nad(key: Nad) -> (next: NadNext)
    ensures
        match key {
            Nad::VolumeUp => next.sends("Main.Volume+\r"@, None) && next.job() is Volume,
            Nad::VolumeDown => next.sends("Main.Volume-\r"@, None) && next.job() is Volume,
            Nad::Mute => next.sends("Main.Mute?\r"@, Some("Main.Mute="@)) && next.job() is Query,
        },
{
    match key {
        Nad::VolumeUp => NadNext::Send(
            NadCommand { text: "Main.Volume+\r".to_string(), expect: None },
            NadJob::Volume,
        ),
        Nad::VolumeDown => NadNext::Send(
            NadCommand { text: "Main.Volume-\r".to_string(), expect: None },
            NadJob::Volume,
        ),
        Nad::Mute => NadNext::Send(
            NadCommand {
                text: "Main.Mute?\r".to_string(),
                expect: Some("Main.Mute=".to_string()),
            },
            NadJob::Query,
        ),
    }
}

impl NadJob {
    /// Goes on after a command has finished. Waiting for the echo of a switch reveals that the
    /// amplifier has closed the connection in the meantime; as switching to the same state twice
    /// does no harm, the switch is then sent once more.
    pub fn finished(self, result: Result<Option<String>, String>) -> (next: NadNext)
        ensures
            next matches NadNext::Send(_, job) ==> job.commands_left() < self.commands_left(),
            match next {
                NadNext::Send(command, _) => self.next_text(result) == Some(command.text@),
                NadNext::Done(Ok(_)) => self.next_text(result) is None && self.failure(
                    result,
                ) is None,
                NadNext::Done(Err(e)) => self.next_text(result) is None && self.failure(result)
                    == Some(e@),
            },
            match (self, result) {
                (NadJob::Volume, Ok(_)) => next == NadNext::Done(Ok(())),
                (NadJob::Volume, Err(e)) => next.fails(e@),
                (NadJob::Query, Ok(Some(reply))) => next.sends(
                    mute_switch(reply@),
                    Some("Main.Mute="@),
                ) && (next.job() matches NadJob::Switch(text) && text@ == mute_switch(reply@)),
                (NadJob::Query, Ok(None)) => next.fails("no reply to Main.Mute?"@),
                (NadJob::Query, Err(e)) => next.fails(e@),
                (NadJob::Switch(_), Ok(_)) => next == NadNext::Done(Ok(())),
                (NadJob::Switch(text), Err(_)) => next.sends(text@, Some("Main.Mute="@)) && next.job()
                    is SwitchAgain,
                (NadJob::SwitchAgain, Ok(_)) => next == NadNext::Done(Ok(())),
                (NadJob::SwitchAgain, Err(e)) => next.fails(e@),
            },
    {
        match self {
            NadJob::Volume | NadJob::SwitchAgain => match result {
                Ok(_) => NadNext::Done(Ok(())),
                Err(e) => NadNext::Done(Err(e)),
            },
            NadJob::Query => match result {
                Ok(Some(reply)) => {
                    let text = if same_text(reply.as_str(), "Main.Mute=On") {
                        "Main.Mute=Off\r"
                    } else {
                        "Main.Mute=On\r"
                    };
                    NadNext::Send(
                        NadCommand {
                            text: text.to_string(),
                            expect: Some("Main.Mute=".to_string()),
                        },
                        NadJob::Switch(text.to_string()),
                    )
                },
                Ok(None) => NadNext::Done(Err("no reply to Main.Mute?".to_string())),
                Err(e) => NadNext::Done(Err(e)),
            },
            NadJob::Switch(text) => match result {
                Ok(_) => NadNext::Done(Ok(())),
                Err(_) => NadNext::Send(
                    NadCommand { text, expect: Some("Main.Mute=".to_string()) },
                    NadJob::SwitchAgain,
                ),
            },
        }
    }
}

} // verus!
