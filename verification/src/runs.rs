//! Work on the amplifier over several commands: how often it connects, and which reply a command
//! gets.
use vstd::prelude::*;
use vstd::string::*;

use crate::nad::{
    first_reply, goes_well, line_end, mute_key_toggles, mute_state, starts, Connecting, Draining,
    NadCommand, NadJob, NadLink, NadNext, NadStep, NadTurn, KEEPALIVE_INTERVAL, KEEPALIVE_RETRIES,
    KEEPALIVE_TIME, NAD_CONNECT_TIMEOUT, NAD_REPLY_TIMEOUT, NAD_RETRY_PAUSE, SECOND,
};
use crate::outside::lossy_utf8;
use crate::text::{begins_with, trimmed};

verus! {

/// A connection that the link holds is used: whatever the command, it is that connection which is
/// drained for it, and none is opened before it has been found closed. Only without a connection
/// one is opened.
pub proof fn kept_connection_is_used<S>(
    turn: NadTurn<S>,
    link: NadLink<S>,
    command: NadCommand,
    now: u64,
)
    requires
        starts(turn, link, command, now),
    ensures
        link.stream matches Some(stream) ==> turn.step == NadStep::Drain(
            stream,
            Draining { command },
        ),
        link.stream is Some ==> turn.step !is Connect,
        link.stream is None && link.retry_after is None ==> turn.step == NadStep::<S>::Connect(
            Connecting { command },
        ),
        link.stream is None ==> turn.step is Connect || turn.step is Finished,
{
}

/// The link and the step at one moment of a run.
pub struct Moment<S> {
    pub link: NadLink<S>,
    pub step: NadStep<S>,
}

/// `b` comes after `a` where nothing fails: a step has gone well, or a command has ended and
/// another one begins.
pub open spec fn follows<S>(a: Moment<S>, b: Moment<S>) -> bool {
    ||| goes_well(a.link, a.step, b.link, b.step)
    ||| a.step is Finished && exists|turn: NadTurn<S>, command: NadCommand, now: u64| #[trigger]
        starts(turn, a.link, command, now) && turn.step == b.step
}

/// A run of any commands, however many, in which nothing fails.
pub open spec fn goes_smoothly<S>(run: Seq<Moment<S>>) -> bool {
    forall|i: int, j: int|
        0 <= i && j == i + 1 && j < run.len() ==> follows(#[trigger] run[i], #[trigger] run[j])
}

/// There is a connection: a command uses it, or the link holds it after one.
pub open spec fn connected<S>(m: Moment<S>) -> bool {
    ||| m.step is Drain
    ||| m.step is Write
    ||| m.step is Read
    ||| m.step is Finished && m.link.stream is Some
}

proof fn stays_connected<S>(run: Seq<Moment<S>>, i: int, j: int)
    requires
        goes_smoothly(run),
        0 <= i <= j < run.len(),
        connected(run[i]),
    ensures
        connected(run[j]),
    decreases j - i,
{
    if i < j {
        stays_connected(run, i, j - 1);
        let a = run[j - 1];
        let b = run[j];
        assert(follows(a, b));
        if !goes_well(a.link, a.step, b.link, b.step) {
            let (turn, command, now) = choose|turn: NadTurn<S>, command: NadCommand, now: u64|
                #[trigger] starts(turn, a.link, command, now) && turn.step == b.step;
            kept_connection_is_used(turn, a.link, command, now);
        }
    }
}

/// As long as nothing fails one connection serves all commands: over any run of them at most one
/// is opened, and none if there was one at its beginning.
pub proof fn one_connection_serves_all_commands<S>(run: Seq<Moment<S>>, i: int, j: int)
    requires
        goes_smoothly(run),
        0 <= i < j < run.len(),
        run[i].step is Connect || connected(run[i]),
    ensures
        run[j].step !is Connect,
{
    assert(follows(run[i], run[i + 1]));
    if run[i].step is Connect {
        stays_connected(run, i + 1, j);
    } else {
        stays_connected(run, i, j);
    }
}

// Replies.

/// The line `line`, with the one line end that it has at its end.
pub open spec fn is_line(line: Seq<u8>) -> bool {
    &&& line.len() > 0
    &&& line.last() == 10 || line.last() == 13
    &&& forall|i: int| 0 <= i < line.len() - 1 ==> #[trigger] line[i] != 10 && line[i] != 13
}

/// What the line says.
pub open spec fn said(line: Seq<u8>) -> Seq<char> {
    trimmed(lossy_utf8(line))
}

/// The lines one after the other, and then `rest`.
pub open spec fn lines_then(lines: Seq<Seq<u8>>, rest: Seq<u8>) -> Seq<u8>
    decreases lines.len(),
{
    if lines.len() == 0 {
        rest
    } else {
        lines[0] + lines_then(lines.skip(1), rest)
    }
}

proof fn line_ends(line: Seq<u8>, rest: Seq<u8>, from: int)
    requires
        is_line(line),
        0 <= from < line.len(),
    ensures
        line_end(line + rest, from) == Some(line.len() - 1),
    decreases line.len() - from,
{
    assert((line + rest)[from] == line[from]);
    if from < line.len() - 1 {
        line_ends(line, rest, from + 1);
    }
}

proof fn line_goes_on(rest: Seq<u8>, from: int)
    requires
        0 <= from <= rest.len(),
        forall|i: int| 0 <= i < rest.len() ==> #[trigger] rest[i] != 10 && rest[i] != 13,
    ensures
        line_end(rest, from) is None,
    decreases rest.len() - from,
{
    if from < rest.len() {
        line_goes_on(rest, from + 1);
    }
}

/// The reply to a command is the first line that begins as it should: lines before it are passed
/// over, and nothing after it matters.
pub proof fn reply_is_the_first_line_that_fits(
    lines: Seq<Seq<u8>>,
    k: int,
    rest: Seq<u8>,
    prefix: Seq<char>,
)
    requires
        forall|i: int| 0 <= i < lines.len() ==> is_line(#[trigger] lines[i]),
        0 <= k < lines.len(),
        forall|i: int| 0 <= i < k ==> !begins_with(said(#[trigger] lines[i]), prefix),
        begins_with(said(lines[k]), prefix),
    ensures
        first_reply(lines_then(lines, rest), prefix) == Some(said(lines[k])),
    decreases k,
{
    let line = lines[0];
    let others = lines_then(lines.skip(1), rest);
    assert(is_line(line));
    line_ends(line, others, 0);
    assert((line + others).take(line.len() as int) =~= line);
    assert((line + others).skip(line.len() as int) =~= others);
    if k > 0 {
        assert(!begins_with(said(lines[0]), prefix));
        let after = lines.skip(1);
        assert forall|i: int| 0 <= i < after.len() implies is_line(#[trigger] after[i]) by {
            assert(is_line(lines[i + 1]));
        }
        assert forall|i: int| 0 <= i < k - 1 implies !begins_with(
            said(#[trigger] after[i]),
            prefix,
        ) by {
            assert(!begins_with(said(lines[i + 1]), prefix));
        }
        reply_is_the_first_line_that_fits(after, k - 1, rest, prefix);
    }
}

/// Where no line begins as it should there is no reply: lines that do not fit are none, and what
/// has no line end is none yet.
pub proof fn no_line_that_fits_is_no_reply(
    lines: Seq<Seq<u8>>,
    rest: Seq<u8>,
    prefix: Seq<char>,
)
    requires
        forall|i: int|
            0 <= i < lines.len() ==> is_line(#[trigger] lines[i]) && !begins_with(
                said(lines[i]),
                prefix,
            ),
        forall|i: int| 0 <= i < rest.len() ==> #[trigger] rest[i] != 10 && rest[i] != 13,
    ensures
        first_reply(lines_then(lines, rest), prefix) is None,
    decreases lines.len(),
{
    if lines.len() == 0 {
        line_goes_on(rest, 0);
    } else {
        let line = lines[0];
        let after = lines.skip(1);
        let others = lines_then(after, rest);
        assert(is_line(line) && !begins_with(said(line), prefix));
        line_ends(line, others, 0);
        assert((line + others).take(line.len() as int) =~= line);
        assert((line + others).skip(line.len() as int) =~= others);
        assert forall|i: int| 0 <= i < after.len() implies is_line(#[trigger] after[i])
            && !begins_with(said(after[i]), prefix) by {
            assert(is_line(lines[i + 1]) && !begins_with(said(lines[i + 1]), prefix));
        }
        no_line_that_fits_is_no_reply(after, rest, prefix);
    }
}

// Words and times.

/// What a turn says and fails with is its own message, and no other one.
pub proof fn turns_mean_their_words<S>(turn: NadTurn<S>, msg: Seq<char>)
    ensures
        turn.is_silent() <==> turn.log is None,
        turn.says(msg) ==> turn.log is Some && turn.log->0@ == msg,
        turn.log matches Some(log) ==> turn.says(log@),
        turn.fails(msg) ==> turn.step is Finished,
        turn.step matches NadStep::Finished(Err(e)) ==> (turn.fails(msg) <==> e@ == msg),
        turn.step matches NadStep::Finished(Ok(_)) ==> !turn.fails(msg) && turn.succeeds(),
        turn.succeeds() ==> (turn.step matches NadStep::Finished(Ok(_))),
{
}

/// What comes next sends its own command, or fails with its own message, and no other one.
pub proof fn work_means_its_words(next: NadNext, text: Seq<char>, expect: Option<Seq<char>>)
    ensures
        next matches NadNext::Send(command, job) ==> next.job() == job && (next.sends(text, expect)
            <==> command.text@ == text && match command.expect {
            Some(prefix) => expect == Some(prefix@),
            None => expect is None,
        }),
        next is Done ==> !next.sends(text, expect),
        next matches NadNext::Done(Err(e)) ==> (next.fails(text) <==> e@ == text),
        next matches NadNext::Done(Ok(_)) ==> !next.fails(text),
        next is Send ==> !next.fails(text),
{
}

/// The times: attempts are barred for five seconds, last three at most, a reply may take a second
/// and a half, and a connection that is silently dead is noticed within a minute.
pub proof fn times_of_the_amplifier()
    ensures
        SECOND == 1_000_000_000,
        NAD_RETRY_PAUSE == 5 * SECOND,
        NAD_CONNECT_TIMEOUT == 3 * SECOND,
        2 * NAD_REPLY_TIMEOUT == 3 * SECOND,
        KEEPALIVE_TIME == 30 * SECOND,
        KEEPALIVE_INTERVAL == 10 * SECOND,
        KEEPALIVE_RETRIES == 3,
        KEEPALIVE_TIME + KEEPALIVE_RETRIES * KEEPALIVE_INTERVAL == 60 * SECOND,
{
}

/// An attempt to connect changes nothing about a connection that the link holds.
pub proof fn attempts_leave_the_connection_alone<S>(link: NadLink<S>, now: u64)
    ensures
        link.barred(now).stream == link.stream,
        link.unbarred().stream == link.stream,
        link.unbarred().retry_after is None,
        link.wf() <==> !(link.stream is Some && link.retry_after is Some),
        link.lent() <==> link.stream is None && link.retry_after is None,
{
}

/// A key on the amplifier takes three commands at most, and one of the volume takes one.
pub proof fn commands_of_a_key(job: NadJob)
    ensures
        0 < job.commands_left() <= 3,
        job is Volume ==> job.commands_left() == 1,
        job is Switch ==> job.commands_left() == 2,
        job is SwitchAgain ==> job.commands_left() == 1,
{
}

/// Asking an amplifier that is or is not mute is followed by the command that makes it what it is
/// not; without a reply nothing follows, and the work fails.
pub proof fn query_is_followed_by_the_switch(reply: String, error: String, mute: bool)
    requires
        reply@ == mute_state(mute),
    ensures
        NadJob::Query.next_text(Ok(Some(reply))) == Some(mute_state(!mute).push('\r')),
        NadJob::Query.failure(Ok(Some(reply))) is None,
        NadJob::Query.next_text(Ok(None)) is None,
        NadJob::Query.failure(Ok(None)) == Some("no reply to Main.Mute?"@),
        NadJob::Query.next_text(Err(error)) is None,
        NadJob::Query.failure(Err(error)) == Some(error@),
{
    mute_key_toggles(mute);
}

/// A switch that has failed is sent once more as it is, and one that has not failed, with or
/// without its echo, ends the work. After anything else nothing follows, and an error is reported
/// as it is.
pub proof fn switch_is_repeated_once(text: String, result: Result<Option<String>, String>)
    ensures
        result is Err ==> NadJob::Switch(text).next_text(result) == Some(text@),
        result is Ok ==> NadJob::Switch(text).next_text(result) is None,
        NadJob::Switch(text).failure(result) is None,
        NadJob::SwitchAgain.next_text(result) is None,
        NadJob::Volume.next_text(result) is None,
        result is Ok ==> NadJob::SwitchAgain.failure(result) is None && NadJob::Volume.failure(
            result,
        ) is None,
        result matches Err(error) ==> NadJob::SwitchAgain.failure(result) == Some(error@)
            && NadJob::Volume.failure(result) == Some(error@),
{
}

} // verus!
