//! Keys that repeat while they are held down.
//!
//! The press itself is dispatched at once. After a delay the action repeats at intervals until
//! the key is released. A hold that is never released ends by itself. Times are nanoseconds of a
//! clock that never goes back.
use vstd::prelude::*;
use vstd::string::*;

use crate::action::Action;
use crate::nad::SECOND;
use crate::text::{decimal, join3, push_decimal};

verus! {

/// The time from the press to the first repeat.
pub const HOLD_DELAY: u64 = 400_000_000;

/// The time between two repeats.
pub const HOLD_INTERVAL: u64 = 150_000_000;

/// How long a key repeats in case its release is never noticed.
pub const HOLD_MAX: u64 = 30_000_000_000;

/// A key that is held down.
pub struct Hold {
    pub label: String,
    /// The time from which on nothing is repeated. It may lie beyond the last time that the clock
    /// can show.
    pub deadline: u128,
    /// How often the action has been repeated.
    pub count: u32,
}

/// What is to be done after a wait.
pub enum HoldTurn {
    /// Repeat the action.
    Repeat,
    /// Stop, and log this message.
    Stop(String),
}

impl Hold {
    /// Begins a hold of the key with this action.
    pub fn begin(action: &Action, now: u64) -> (hold: Hold)
        ensures
            hold.label@ == action.spec_label(),
            hold.begun(now),
    {
        Hold {
            label: action.label(),
            deadline: now as u128 + HOLD_DELAY as u128 + HOLD_MAX as u128,
            count: 0,
        }
    }

    /// The hold has begun at the time `start`, and nothing has been repeated.
    pub open spec fn begun(self, start: u64) -> bool {
        self.deadline == start + HOLD_DELAY + HOLD_MAX && self.count == 0
    }

    /// The hold when its action has been repeated `count` times.
    pub open spec fn with_count(self, count: u32) -> Hold {
        Hold { count, ..self }
    }

    /// How long to wait for the next repeat.
    pub open spec fn spec_wait(self) -> u64 {
        if self.count == 0 {
            HOLD_DELAY
        } else {
            HOLD_INTERVAL
        }
    }

    /// How long to wait for the next repeat.
    pub fn wait(&self) -> (time: u64)
        ensures
            time == self.spec_wait(),
    {
        if self.count == 0 {
            HOLD_DELAY
        } else {
            HOLD_INTERVAL
        }
    }

    /// Whether the action is repeated after a wait that ends at the time `now`.
    pub open spec fn goes_on(self, now: u64) -> bool {
        now < self.deadline
    }

    /// Decides what comes after a wait that the release of the key has not cut short.
    pub fn waited(&self, now: u64) -> (turn: HoldTurn)
        ensures
            self.goes_on(now) ==> turn is Repeat,
            !self.goes_on(now) ==> (turn matches HoldTurn::Stop(msg) && msg@ == "Hold "@
                + self.label@ + " stopped after "@ + decimal((HOLD_MAX / SECOND) as nat)
                + "s without release"@),
    {
        if now as u128 >= self.deadline {
            let mut msg = join3("Hold ", self.label.as_str(), " stopped after ");
            push_decimal(&mut msg, (HOLD_MAX / SECOND) as u128);
            msg.append("s without release");
            HoldTurn::Stop(msg)
        } else {
            HoldTurn::Repeat
        }
    }

    /// Counts a repeat that has succeeded, or stops with this message after one that has not.
    pub fn repeated(&mut self, succeeded: bool) -> (stop: Option<String>)
        requires
            succeeded ==> old(self).count < u32::MAX,
        ensures
            succeeded ==> stop is None && *final(self) == old(self).with_count(
                (old(self).count + 1) as u32,
            ),
            !succeeded ==> *final(self) == *old(self) && (stop matches Some(msg) && msg@
                == "Hold "@ + old(self).label@ + " stopped after an error"@),
    {
        if succeeded {
            self.count = self.count + 1;
            None
        } else {
            Some(join3("Hold ", self.label.as_str(), " stopped after an error"))
        }
    }

    /// What the log says of the hold at its end, where anything has been repeated.
    pub fn report(&self) -> (msg: Option<String>)
        ensures
            self.count == 0 ==> msg is None,
            self.count > 0 ==> (msg matches Some(m) && m@ == "Hold "@ + self.label@ + " repeated "@
                + decimal(self.count as nat) + "x"@),
    {
        if self.count > 0 {
            let mut m = join3("Hold ", self.label.as_str(), " repeated ");
            push_decimal(&mut m, self.count as u128);
            m.append("x");
            Some(m)
        } else {
            None
        }
    }
}

/// Times at which the waits of a hold can end that begins at `start`: each no earlier than the hold
/// waits, at its count, after the wait before it has ended.
pub open spec fn waits_end_at(hold: Hold, start: u64, times: Seq<u64>) -> bool {
    forall|i: int|
        0 <= i < times.len() ==> #[trigger] times[i] >= (if i == 0 {
            start
        } else {
            times[i - 1]
        }) + hold.with_count(i as u32).spec_wait()
}

proof fn waits_add_up(hold: Hold, start: u64, times: Seq<u64>, i: int)
    requires
        waits_end_at(hold, start, times),
        0 <= i < times.len(),
        i <= u32::MAX,
    ensures
        times[i] >= start + HOLD_DELAY + i * HOLD_INTERVAL,
    decreases i,
{
    if i > 0 {
        waits_add_up(hold, start, times, i - 1);
    }
}

/// A key that is never released stops repeating by itself: of the waits of its hold no more than
/// 200 end while it goes on.
pub proof fn hold_ends_by_itself(hold: Hold, start: u64, times: Seq<u64>)
    requires
        hold.begun(start),
        waits_end_at(hold, start, times),
        forall|i: int| 0 <= i < times.len() ==> hold.goes_on(#[trigger] times[i]),
    ensures
        times.len() <= HOLD_MAX / HOLD_INTERVAL,
        HOLD_MAX / HOLD_INTERVAL == 200,
{
    if times.len() > 200 {
        waits_add_up(hold, start, times, 200);
        assert(hold.goes_on(times[200]));
    }
}

/// Whatever the key, the first repeat comes four tenths of a second after the press, and each other
/// one three twentieths of a second after the one before it.
pub proof fn times_between_repeats(hold: Hold, start: u64)
    ensures
        hold.begun(start) ==> 10 * hold.spec_wait() == 4 * SECOND,
        hold.count == 0 ==> 10 * hold.spec_wait() == 4 * SECOND,
        hold.count > 0 ==> 20 * hold.spec_wait() == 3 * SECOND,
{
}

/// Whatever the key, a hold goes on for thirty seconds from where its first repeat is due, and no
/// longer.
pub proof fn hold_lasts_thirty_seconds(hold: Hold, start: u64, now: u64)
    requires
        hold.begun(start),
    ensures
        hold.count == 0,
        hold.goes_on(now) <==> 10 * now < 10 * start + 304 * SECOND,
{
}

/// A hold whose waits take no longer than they should repeats its action 200 times: it goes on
/// after each of that many waits, and not after the next one.
pub proof fn punctual_hold_repeats_two_hundred_times(hold: Hold, start: u64, n: nat)
    requires
        hold.begun(start),
        start + 31 * SECOND <= u64::MAX,
        n <= 200,
    ensures
        hold.goes_on((start + HOLD_DELAY + n * HOLD_INTERVAL) as u64) <==> n < 200,
{
}

/// Counting repeats changes nothing else about a hold.
pub proof fn counting_changes_the_count_alone(hold: Hold, count: u32)
    ensures
        hold.with_count(count).count == count,
        hold.with_count(count).label == hold.label,
        hold.with_count(count).deadline == hold.deadline,
{
}

} // verus!
