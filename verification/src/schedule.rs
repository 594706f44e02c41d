//! When `--upower` queries the battery: a slow refresh cadence, plus polls
//! placed around mouse movement, plus quick retries while the mouse is silent.

use vstd::prelude::*;

use crate::clock;
use crate::clock::{since, MILLISECOND, SECOND};

verus! {

// The battery is refreshed on this slow cadence, enough for the level, which
// moves slowly. Charging flips are caught by the motion-driven polls below
// instead; this is the net under them (and what notices "full").
pub const BATTERY_REFRESH_INTERVAL: u64 = 60 * SECOND;

// The charging state only changes when the mouse is put on or lifted off the
// dock, and either one moves it. So rather than polling fast all day, poll
// around motion: shortly after the mouse starts moving (lifted), and once it
// has come to rest (docked), twice: the firmware's charging flag can trail
// the contacts by a few seconds.
pub const BATTERY_MOTION_START_DELAY: u64 = 1 * SECOND;

pub const BATTERY_REST_DELAYS: [u64; 2] = [2 * SECOND, 8 * SECOND];

// A pause shorter than this is still the same movement.
pub const MOTION_GAP: u64 = 2 * SECOND;

// While the mouse moves the dock streams ~1000 reports/s. We only need to know
// *that* it moves: look at the stream this often and discard the backlog.
pub const MOTION_SAMPLE_INTERVAL: u64 = 500 * MILLISECOND;

// A mouse that stopped answering is asleep, switched off, out of range or
// unpaired: the dock reports the same "no RF reply" (status 0x04, within
// ~10 ms) for all of them. Once a poll goes unanswered, retry on a short
// cadence; if the silence holds for `BATTERY_WITHDRAW_AFTER` the battery is
// withdrawn rather than left showing a stale level, the way a Bluetooth
// peripheral's battery vanishes on disconnect. Several retries, so one lost
// poll never flaps it, and withdrawing is cheap to undo: the battery is back
// ~1 s after the mouse moves.
pub const BATTERY_UNANSWERED_RETRY: u64 = 3 * SECOND;

pub const BATTERY_WITHDRAW_AFTER: u64 = 10 * SECOND;

/// Should the exposed battery be withdrawn, `unanswered` after the first poll
/// of the current silence failed? Not on one lost poll, only once the retries
/// have kept failing for `BATTERY_WITHDRAW_AFTER`.
pub fn should_withdraw_battery(unanswered: u64) -> (r: bool)
    ensures
        r == (unanswered >= BATTERY_WITHDRAW_AFTER),
        r <==> unanswered >= 10 * SECOND,
{
    unanswered >= BATTERY_WITHDRAW_AFTER
}

/// When `--upower` should next query the battery: the slow refresh cadence,
/// plus polls placed around mouse movement (see `BATTERY_MOTION_START_DELAY`).
/// Pure bookkeeping over instants.
#[derive(Debug, Clone, Copy)]
pub struct PollSchedule {
    pub refresh_at: u64,
    /// Pending "the mouse started moving" poll.
    pub motion_start_at: Option<u64>,
    pub last_motion: Option<u64>,
    /// How many of `BATTERY_REST_DELAYS` were served since the last motion.
    pub rest_polls_done: usize,
    /// Pending retry after an unanswered poll.
    pub retry_at: Option<u64>,
    /// The input stream is not looked at before this instant.
    pub input_muted_until: u64,
}

/// The earlier of `a` and `b`, where `b` may be absent.
pub open spec fn earlier(a: int, b: Option<int>) -> int {
    match b {
        Some(t) => if t < a {
            t
        } else {
            a
        },
        None => a,
    }
}

/// An optional instant as a number.
pub open spec fn at(t: Option<u64>) -> Option<int> {
    match t {
        Some(t) => Some(t as int),
        None => None,
    }
}

/// How many of the rest delays have elapsed at `now`, counted from `last`.
pub open spec fn rest_delays_elapsed(last: u64, now: u64) -> int {
    (if now >= last + BATTERY_REST_DELAYS@[0] {
        1int
    } else {
        0
    }) + (if now >= last + BATTERY_REST_DELAYS@[1] {
        1int
    } else {
        0
    })
}

/// All deadlines counted from `now` can be told as instants.
pub open spec fn instant_in_range(now: u64) -> bool {
    now + BATTERY_REFRESH_INTERVAL <= u64::MAX
}

impl PollSchedule {
    pub open spec fn wf(self) -> bool {
        &&& self.rest_polls_done <= BATTERY_REST_DELAYS@.len()
        &&& self.last_motion matches Some(last) ==> instant_in_range(last)
    }

    pub open spec fn started(now: u64) -> Self {
        PollSchedule {
            refresh_at: (now + BATTERY_REFRESH_INTERVAL) as u64,
            motion_start_at: None,
            last_motion: None,
            rest_polls_done: 0,
            retry_at: None,
            input_muted_until: now,
        }
    }

    /// Motion at `now` begins a movement: there was none before, or a pause.
    pub open spec fn starts_movement(self, now: u64) -> bool {
        match self.last_motion {
            Some(last) => clock::elapsed(last, now) >= MOTION_GAP,
            None => true,
        }
    }

    /// The schedule after motion at `now`.
    pub open spec fn after_motion(self, now: u64) -> Self {
        PollSchedule {
            motion_start_at: if self.starts_movement(now) {
                Some((now + BATTERY_MOTION_START_DELAY) as u64)
            } else {
                self.motion_start_at
            },
            last_motion: Some(now),
            rest_polls_done: 0,
            input_muted_until: (now + MOTION_SAMPLE_INTERVAL) as u64,
            ..self
        }
    }

    /// The schedule after a battery query at `now`.
    pub open spec fn after_poll(self, now: u64, answered: bool) -> Self {
        PollSchedule {
            refresh_at: (now + BATTERY_REFRESH_INTERVAL) as u64,
            retry_at: if answered {
                None
            } else {
                Some((now + BATTERY_UNANSWERED_RETRY) as u64)
            },
            motion_start_at: None,
            rest_polls_done: match self.last_motion {
                Some(last) => rest_delays_elapsed(last, now) as usize,
                None => self.rest_polls_done,
            },
            ..self
        }
    }

    /// The next poll that the end of the last movement asks for.
    pub open spec fn rest_poll(self) -> Option<int> {
        match self.last_motion {
            Some(last) => if self.rest_polls_done < BATTERY_REST_DELAYS@.len() {
                Some(last + BATTERY_REST_DELAYS@[self.rest_polls_done as int])
            } else {
                None
            },
            None => None,
        }
    }

    /// The earliest of the refresh and the polls that are pending.
    pub open spec fn next_poll(self) -> int {
        earlier(
            earlier(
                earlier(self.refresh_at as int, at(self.motion_start_at)),
                self.rest_poll(),
            ),
            at(self.retry_at),
        )
    }

    pub fn new(now: u64) -> (r: Self)
        requires
            instant_in_range(now),
        ensures
            r == Self::started(now),
            r.wf(),
    {
        Self {
            refresh_at: now + BATTERY_REFRESH_INTERVAL,
            motion_start_at: None,
            last_motion: None,
            rest_polls_done: 0,
            retry_at: None,
            input_muted_until: now,
        }
    }

    /// The input stream showed activity at `now`.
    pub fn on_motion(&mut self, now: u64)
        requires
            old(self).wf(),
            instant_in_range(now),
        ensures
            *final(self) == old(self).after_motion(now),
            final(self).wf(),
    {
        let started = match self.last_motion {
            Some(last) => since(last, now) >= MOTION_GAP,
            None => true,
        };
        if started {
            self.motion_start_at = Some(now + BATTERY_MOTION_START_DELAY);
        }
        self.last_motion = Some(now);
        self.rest_polls_done = 0;
        self.input_muted_until = now + MOTION_SAMPLE_INTERVAL;
    }

    /// The battery was queried at `now` (whatever triggered it); `answered`
    /// tells whether the mouse replied.
    pub fn on_polled(&mut self, now: u64, answered: bool)
        requires
            old(self).wf(),
            instant_in_range(now),
        ensures
            *final(self) == old(self).after_poll(now, answered),
            final(self).wf(),
    {
        self.refresh_at = now + BATTERY_REFRESH_INTERVAL;
        self.retry_at = if answered {
            None
        } else {
            Some(now + BATTERY_UNANSWERED_RETRY)
        };
        self.motion_start_at = None;
        if let Some(last) = self.last_motion {
            // Every rest delay that has elapsed is covered by this poll.
            let mut done: usize = 0;
            if now >= last + BATTERY_REST_DELAYS[0] {
                done = done + 1;
            }
            if now >= last + BATTERY_REST_DELAYS[1] {
                done = done + 1;
            }
            self.rest_polls_done = done;
        }
    }

    pub fn next_poll_at(&self) -> (r: u64)
        requires
            self.wf(),
        ensures
            r == self.next_poll(),
    {
        let mut next: u64 = self.refresh_at;
        if let Some(t) = self.motion_start_at {
            if t < next {
                next = t;
            }
        }
        if let Some(last) = self.last_motion {
            if self.rest_polls_done < BATTERY_REST_DELAYS.len() {
                let t: u64 = last + BATTERY_REST_DELAYS[self.rest_polls_done];
                if t < next {
                    next = t;
                }
            }
        }
        if let Some(t) = self.retry_at {
            if t < next {
                next = t;
            }
        }
        next
    }

    pub fn watches_input(&self, now: u64) -> (r: bool)
        ensures
            r == (now >= self.input_muted_until),
    {
        now >= self.input_muted_until
    }

    /// When to stop waiting: the next poll, or sooner to look at the input
    /// stream again.
    pub fn next_wakeup(&self, now: u64) -> (r: u64)
        requires
            self.wf(),
        ensures
            r == self.wakeup(now),
    {
        let next = self.next_poll_at();
        if self.watches_input(now) || next < self.input_muted_until {
            next
        } else {
            self.input_muted_until
        }
    }

    /// The next poll, or the end of the mute when that comes sooner.
    pub open spec fn wakeup(self, now: u64) -> int {
        if now >= self.input_muted_until {
            self.next_poll()
        } else {
            earlier(self.next_poll(), Some(self.input_muted_until as int))
        }
    }
}

// ---------- Laws ----------

/// Right after a poll the next one lies in the future, and no more than a
/// refresh interval away: the schedule neither spins nor lets the level grow
/// stale.
pub proof fn law_polls_are_spaced(s: PollSchedule, now: u64, answered: bool)
    requires
        s.wf(),
        instant_in_range(now),
    ensures
        now < s.after_poll(now, answered).next_poll() <= now + BATTERY_REFRESH_INTERVAL,
{
}

/// Whatever the mouse does, the next poll never comes later than the refresh.
pub proof fn law_motion_never_postpones_the_refresh(s: PollSchedule, now: u64)
    requires
        s.wf(),
        instant_in_range(now),
    ensures
        s.after_motion(now).next_poll() <= s.refresh_at,
{
}

/// The schedule after motions at `times`, one after the other.
pub open spec fn after_motions(s: PollSchedule, times: Seq<u64>) -> PollSchedule
    decreases times.len(),
{
    if times.len() == 0 {
        s
    } else {
        after_motions(s, times.drop_last()).after_motion(times.last())
    }
}

/// Motions from `start` on that are one movement: each follows the one before it
/// after less than a pause.
pub open spec fn is_one_movement(start: u64, times: Seq<u64>) -> bool
    decreases times.len(),
{
    times.len() == 0 || {
        &&& is_one_movement(start, times.drop_last())
        &&& last_time(start, times.drop_last()) <= times.last() < last_time(
            start,
            times.drop_last(),
        ) + MOTION_GAP
        &&& instant_in_range(times.last())
    }
}

/// The last of the motions, or `start` when none followed.
pub open spec fn last_time(start: u64, times: Seq<u64>) -> u64 {
    if times.len() == 0 {
        start
    } else {
        times.last()
    }
}

/// A movement that starts is polled a start delay later at the latest, and moving
/// on, however long, does not push that poll back.
pub proof fn law_movement_start_is_polled(s: PollSchedule, now: u64, times: Seq<u64>)
    requires
        s.wf(),
        instant_in_range(now),
        s.starts_movement(now),
        is_one_movement(now, times),
    ensures
        after_motions(s.after_motion(now), times).wf(),
        after_motions(s.after_motion(now), times).next_poll() <= now + BATTERY_MOTION_START_DELAY,
{
    lemma_start_poll_is_kept(s, now, times);
}

proof fn lemma_start_poll_is_kept(s: PollSchedule, now: u64, times: Seq<u64>)
    requires
        s.wf(),
        instant_in_range(now),
        s.starts_movement(now),
        is_one_movement(now, times),
    ensures
        ({
            let moved = after_motions(s.after_motion(now), times);
            &&& moved.wf()
            &&& moved.last_motion == Some(last_time(now, times))
            &&& moved.motion_start_at == Some((now + BATTERY_MOTION_START_DELAY) as u64)
        }),
    decreases times.len(),
{
    if times.len() > 0 {
        lemma_start_poll_is_kept(s, now, times.drop_last());
    }
}

/// After the last motion, an answered poll is followed by one at each rest
/// delay that had not elapsed yet, in order, and then by the slow refresh; a
/// late poll covers every rest delay already elapsed.
pub proof fn law_rest_polls_follow_the_last_motion(s: PollSchedule, last: u64, now: u64)
    requires
        s.wf(),
        s.last_motion == Some(last),
        instant_in_range(now),
        now >= last,
    ensures
        s.after_poll(now, true).next_poll() == (if now < last + BATTERY_REST_DELAYS@[0] {
            last + BATTERY_REST_DELAYS@[0]
        } else if now < last + BATTERY_REST_DELAYS@[1] {
            last + BATTERY_REST_DELAYS@[1]
        } else {
            now + BATTERY_REFRESH_INTERVAL
        }),
{
}

/// Without any motion an answered poll is followed by the slow refresh.
pub proof fn law_without_motion_polls_are_slow(s: PollSchedule, now: u64)
    requires
        s.wf(),
        s.last_motion is None,
        instant_in_range(now),
    ensures
        PollSchedule::started(now).next_poll() == now + BATTERY_REFRESH_INTERVAL,
        s.after_poll(now, true).next_poll() == now + BATTERY_REFRESH_INTERVAL,
{
}

/// An unanswered poll is retried shortly, whatever else is pending.
pub proof fn law_silence_is_retried_quickly(s: PollSchedule, now: u64)
    requires
        s.wf(),
        instant_in_range(now),
    ensures
        s.after_poll(now, false).next_poll() <= now + BATTERY_UNANSWERED_RETRY,
{
}

/// After motion the input stream is left alone for a sample interval, at the
/// end of which the wait is over: the stream is sampled, never followed.
pub proof fn law_input_is_sampled(s: PollSchedule, now: u64, t: u64)
    requires
        s.wf(),
        instant_in_range(now),
    ensures
        t < now + MOTION_SAMPLE_INTERVAL ==> t < s.after_motion(now).input_muted_until
            && s.after_motion(now).wakeup(t) <= now + MOTION_SAMPLE_INTERVAL,
        t >= now + MOTION_SAMPLE_INTERVAL ==> t >= s.after_motion(now).input_muted_until,
{
}

/// A wait never outlasts the next poll.
pub proof fn law_wakeup_is_no_later_than_the_poll(s: PollSchedule, now: u64)
    requires
        s.wf(),
    ensures
        s.wakeup(now) <= s.next_poll(),
{
}

/// It takes several retries, never a single one, for a silence to last until
/// the battery is withdrawn.
pub proof fn law_withdrawal_takes_several_retries(first: u64, retry: u64)
    requires
        first <= retry < first + 3 * BATTERY_UNANSWERED_RETRY,
    ensures
        clock::elapsed(first, retry) < BATTERY_WITHDRAW_AFTER,
{
}

/// Something that happened to an exposed battery.
pub enum Mark {
    /// The mouse moved.
    Motion(u64),
    /// The battery was queried, and the mouse answered, or not.
    Poll { at: u64, answered: bool },
}

impl Mark {
    pub open spec fn at(self) -> u64 {
        match self {
            Mark::Motion(at) => at,
            Mark::Poll { at, .. } => at,
        }
    }
}

/// The schedule after a record of what happened since `start`.
pub open spec fn schedule_after(start: u64, marks: Seq<Mark>) -> PollSchedule
    decreases marks.len(),
{
    if marks.len() == 0 {
        PollSchedule::started(start)
    } else {
        match marks.last() {
            Mark::Motion(at) => schedule_after(start, marks.drop_last()).after_motion(at),
            Mark::Poll { at, answered } => schedule_after(start, marks.drop_last()).after_poll(
                at,
                answered,
            ),
        }
    }
}

/// The instant of the last mark, or `start` before the first.
pub open spec fn last_mark(start: u64, marks: Seq<Mark>) -> u64 {
    if marks.len() == 0 {
        start
    } else {
        marks.last().at()
    }
}

/// The instants of a record never run backwards, and are in range.
pub open spec fn is_record(start: u64, marks: Seq<Mark>) -> bool
    decreases marks.len(),
{
    &&& instant_in_range(start)
    &&& marks.len() > 0 ==> {
        &&& is_record(start, marks.drop_last())
        &&& last_mark(start, marks.drop_last()) <= marks.last().at()
        &&& instant_in_range(marks.last().at())
    }
}

/// When the battery was last queried, or `start` if it was not since.
pub open spec fn last_poll(start: u64, marks: Seq<Mark>) -> u64
    decreases marks.len(),
{
    if marks.len() == 0 {
        start
    } else {
        match marks.last() {
            Mark::Poll { at, .. } => at,
            Mark::Motion(_) => last_poll(start, marks.drop_last()),
        }
    }
}

/// The last query went unanswered.
pub open spec fn was_missed(marks: Seq<Mark>) -> bool
    decreases marks.len(),
{
    marks.len() > 0 && match marks.last() {
        Mark::Poll { answered, .. } => !answered,
        Mark::Motion(_) => was_missed(marks.drop_last()),
    }
}

/// When the mouse last moved.
pub open spec fn last_moved(marks: Seq<Mark>) -> Option<u64>
    decreases marks.len(),
{
    if marks.len() == 0 {
        None
    } else {
        match marks.last() {
            Mark::Motion(at) => Some(at),
            Mark::Poll { .. } => last_moved(marks.drop_last()),
        }
    }
}

/// When the last movement that was not followed by a query began: with a motion
/// that no other had come before for two seconds.
pub open spec fn began_moving(marks: Seq<Mark>) -> Option<u64>
    decreases marks.len(),
{
    if marks.len() == 0 {
        None
    } else {
        match marks.last() {
            Mark::Poll { .. } => None,
            Mark::Motion(at) => match last_moved(marks.drop_last()) {
                Some(before) => if at - before >= 2 * SECOND {
                    Some(at)
                } else {
                    began_moving(marks.drop_last())
                },
                None => Some(at),
            },
        }
    }
}

/// There is a reason to query the battery at `t`: a minute has passed since the
/// last query; a second since the mouse began to move; two or eight seconds since
/// it came to rest, and no query was made so late; or three seconds since a query
/// that was missed.
pub open spec fn is_due(start: u64, marks: Seq<Mark>, t: int) -> bool {
    let polled = last_poll(start, marks);
    ||| t == polled + 60 * SECOND
    ||| began_moving(marks) matches Some(began) && t == began + 1 * SECOND
    ||| last_moved(marks) matches Some(moved) && t == moved + 2 * SECOND && polled < t
    ||| last_moved(marks) matches Some(moved) && t == moved + 8 * SECOND && polled < t
    ||| was_missed(marks) && t == polled + 3 * SECOND
}

/// `t` is the first moment at which there is a reason to query the battery.
pub open spec fn is_first_due(start: u64, marks: Seq<Mark>, t: int) -> bool {
    &&& is_due(start, marks, t)
    &&& forall|u: int| #[trigger] is_due(start, marks, u) ==> t <= u
}

/// The input stream is looked at: the mouse has not moved for half a second.
pub open spec fn is_watched(marks: Seq<Mark>, now: u64) -> bool {
    last_moved(marks) matches Some(moved) ==> now >= moved + 500 * MILLISECOND
}

/// Whatever happened, the next query is made at the first moment at which there is
/// a reason for one.
pub proof fn law_battery_is_polled_when_first_due(start: u64, marks: Seq<Mark>)
    requires
        is_record(start, marks),
    ensures
        schedule_after(start, marks).wf(),
        is_first_due(start, marks, schedule_after(start, marks).next_poll()),
{
    lemma_schedule_of_record(start, marks);
    let s = schedule_after(start, marks);
    let polled = last_poll(start, marks);
    assert(is_due(start, marks, s.next_poll()));
    assert forall|u: int| #[trigger] is_due(start, marks, u) implies s.next_poll() <= u by {}
}

/// Whatever happened, the input stream is looked at unless the mouse moved within
/// the last half second, and a wait ends with the next query or, if the stream is
/// not looked at, when it is time to look again.
pub proof fn law_waits_end_in_time(start: u64, marks: Seq<Mark>, now: u64)
    requires
        is_record(start, marks),
        last_mark(start, marks) <= now,
    ensures
        now >= schedule_after(start, marks).input_muted_until <==> is_watched(marks, now),
        is_watched(marks, now) ==> schedule_after(start, marks).wakeup(now) == schedule_after(
            start,
            marks,
        ).next_poll(),
        !is_watched(marks, now) ==> schedule_after(start, marks).wakeup(now) == (if schedule_after(
            start,
            marks,
        ).next_poll() < last_moved(marks)->0 + 500 * MILLISECOND {
            schedule_after(start, marks).next_poll()
        } else {
            last_moved(marks)->0 + 500 * MILLISECOND
        }),
{
    lemma_schedule_of_record(start, marks);
}

/// The next query can be told as an instant.
pub proof fn lemma_next_poll_in_range(start: u64, marks: Seq<Mark>)
    requires
        is_record(start, marks),
    ensures
        0 <= schedule_after(start, marks).next_poll() <= u64::MAX,
{
    lemma_schedule_of_record(start, marks);
}

proof fn lemma_schedule_of_record(start: u64, marks: Seq<Mark>)
    requires
        is_record(start, marks),
    ensures
        ({
            let s = schedule_after(start, marks);
            let polled = last_poll(start, marks);
            &&& s.wf()
            &&& start <= polled <= last_mark(start, marks)
            &&& instant_in_range(polled)
            &&& instant_in_range(last_mark(start, marks))
            &&& s.refresh_at == polled + 60 * SECOND
            &&& s.last_motion == last_moved(marks)
            &&& last_moved(marks) matches Some(moved) ==> moved <= last_mark(start, marks)
            &&& s.motion_start_at == (match began_moving(marks) {
                Some(began) => Some((began + 1 * SECOND) as u64),
                None => None,
            })
            &&& began_moving(marks) matches Some(began) ==> began <= last_mark(start, marks)
            &&& s.retry_at == (if was_missed(marks) {
                Some((polled + 3 * SECOND) as u64)
            } else {
                None
            })
            &&& s.rest_polls_done == (match last_moved(marks) {
                Some(moved) => if polled < moved + 2 * SECOND {
                    0int
                } else if polled < moved + 8 * SECOND {
                    1
                } else {
                    2
                },
                None => 0,
            })
            &&& s.input_muted_until == (match last_moved(marks) {
                Some(moved) => moved + 500 * MILLISECOND,
                None => start as int,
            })
        }),
    decreases marks.len(),
{
    if marks.len() > 0 {
        lemma_schedule_of_record(start, marks.drop_last());
    }
}

} // verus!
