//! `--watch`: when to re-apply the color.

use vstd::prelude::*;
use vstd::string::*;

use crate::cli::ColorName;
use crate::clock;
use crate::clock::{since, SECOND};

verus! {

// `--watch` re-applies the color when the mouse wakes. The dock emits no
// dedicated wake event: it just resumes forwarding mouse-motion input reports
// the instant the mouse comes back. So we treat "input resumed after a quiet
// gap of at least this long" as a wake. It must sit above an ordinary pause in
// movement yet below the mouse's own sleep timeout (Razer's is much longer).
pub const WAKE_IDLE_THRESHOLD: u64 = 5 * SECOND;

// While the mouse is in use we also re-apply the color on this cadence, as a
// safety net against the firmware drifting back to its onboard default for no
// visible reason. We skip it entirely when the mouse has been idle, so a
// sleeping or absent mouse costs nothing.
pub const WATCH_SAFETY_INTERVAL: u64 = 60 * SECOND;

/// Should we re-apply the color when an input report arrives after `idle_gap`
/// of silence? Only when the gap is long enough to mean the mouse actually
/// slept: a brief pause in movement must not trigger a re-apply.
pub fn should_reapply_on_wake(idle_gap: u64) -> (r: bool)
    ensures
        r == (idle_gap >= WAKE_IDLE_THRESHOLD),
        r <==> idle_gap >= 5 * SECOND,
{
    idle_gap >= WAKE_IDLE_THRESHOLD
}

/// Why the color is re-applied.
#[derive(Debug, Clone, Copy, PartialEq, Eq, Structural)]
pub enum Reason {
    /// The mouse was in use, and the safety interval is over.
    Safety,
    /// The mouse woke after a quiet gap.
    Wake { idle: u64 },
}

impl Reason {
    /// The words under which a failure of this re-apply is reported.
    pub fn context(&self) -> (r: &'static str)
        ensures
            r@ == (match *self {
                Reason::Safety => "safety re-apply failed"@,
                Reason::Wake { .. } => "wake re-apply failed"@,
            }),
    {
        match self {
            Reason::Safety => "safety re-apply failed",
            Reason::Wake { .. } => "wake re-apply failed",
        }
    }
}

/// What came of waiting for input.
#[derive(Debug, Clone, Copy, PartialEq, Eq, Structural)]
pub enum WatchEvent {
    /// The wait ended without input.
    TimedOut,
    /// An input report of `len` bytes was read.
    Input { len: usize },
}

/// What to do before waiting again.
#[derive(Debug, Clone, Copy, PartialEq, Eq, Structural)]
pub enum WatchAction {
    Nothing,
    Reapply(Reason),
}

/// What `--watch` remembers between two waits.
#[derive(Debug, Clone, Copy)]
pub struct Watch {
    pub last_input: u64,
    /// When the current safety interval ends. Absent while none runs: it begins
    /// with input.
    pub safety_at: Option<u64>,
    /// Input came since the last safety re-apply.
    pub used: bool,
}

impl Watch {
    /// The safety interval is over at `now`.
    pub open spec fn safety_due(self, now: u64) -> bool {
        self.safety_at matches Some(t) && t <= now
    }

    /// What follows from `event` at `now`.
    pub open spec fn next(self, event: WatchEvent, now: u64) -> (Watch, WatchAction) {
        match event {
            WatchEvent::TimedOut => if self.safety_due(now) {
                (
                    Watch { last_input: self.last_input, safety_at: None, used: false },
                    if self.used {
                        WatchAction::Reapply(Reason::Safety)
                    } else {
                        WatchAction::Nothing
                    },
                )
            } else {
                (self, WatchAction::Nothing)
            },
            WatchEvent::Input { len } => if len == 0 {
                (self, WatchAction::Nothing)
            } else {
                let idle = clock::elapsed(self.last_input, now);
                (
                    Watch {
                        last_input: now,
                        safety_at: if self.safety_at is None || self.safety_due(now) {
                            Some((now + WATCH_SAFETY_INTERVAL) as u64)
                        } else {
                            self.safety_at
                        },
                        used: idle >= WAKE_IDLE_THRESHOLD || !self.safety_due(now),
                    },
                    if idle >= WAKE_IDLE_THRESHOLD {
                        WatchAction::Reapply(Reason::Wake { idle })
                    } else if self.safety_due(now) {
                        WatchAction::Reapply(Reason::Safety)
                    } else {
                        WatchAction::Nothing
                    },
                )
            },
        }
    }

    /// The color was applied for the first time, at `now`.
    pub fn new(now: u64) -> (r: Self)
        ensures
            r == (Watch { last_input: now, safety_at: None, used: false }),
    {
        Watch { last_input: now, safety_at: None, used: false }
    }

    /// Until when to wait for input; without end while no interval runs.
    pub fn deadline(&self) -> (r: Option<u64>)
        ensures
            r == self.safety_at,
    {
        self.safety_at
    }

    /// The wait ended with `event` at `now`.
    pub fn on_event(&mut self, event: WatchEvent, now: u64) -> (r: WatchAction)
        requires
            now + WATCH_SAFETY_INTERVAL <= u64::MAX,
        ensures
            (*final(self), r) == old(self).next(event, now),
    {
        let due = match self.safety_at {
            Some(t) => t <= now,
            None => false,
        };
        match event {
            WatchEvent::TimedOut => {
                // Re-apply only if the mouse has been used since the last safety
                // apply, so a sleeping or absent mouse is free.
                let reapply = due && self.used;
                if due {
                    self.safety_at = None;
                    self.used = false;
                }
                if reapply {
                    WatchAction::Reapply(Reason::Safety)
                } else {
                    WatchAction::Nothing
                }
            },
            WatchEvent::Input { len } => {
                if len == 0 {
                    return WatchAction::Nothing;
                }
                let idle = since(self.last_input, now);
                self.last_input = now;
                if due || self.safety_at.is_none() {
                    self.safety_at = Some(now + WATCH_SAFETY_INTERVAL);
                }
                self.used = should_reapply_on_wake(idle) || !due;
                if should_reapply_on_wake(idle) {
                    WatchAction::Reapply(Reason::Wake { idle })
                } else if due {
                    WatchAction::Reapply(Reason::Safety)
                } else {
                    WatchAction::Nothing
                }
            },
        }
    }
}

/// What `--watch` says when it starts.
pub fn watch_banner(path: &str, color: ColorName) -> (r: String)
    ensures
        r@ == "Watching "@ + path@ + " — holding '"@ + color.name()
            + "', re-applying on wake. Ctrl-C to stop."@,
{
    let mut r = "Watching ".to_owned();
    r.append(path);
    r.append(" — holding '");
    r.append(color.as_str());
    r.append("', re-applying on wake. Ctrl-C to stop.");
    r
}

/// What `--watch` says after a safety re-apply.
pub fn safety_note(color: ColorName) -> (r: String)
    ensures
        r@ == "re-applied '"@ + color.name() + "' (safety refresh)"@,
{
    let mut r = "re-applied '".to_owned();
    r.append(color.as_str());
    r.append("' (safety refresh)");
    r
}

// ---------- Laws ----------

/// A series of events, each with its instant.
pub open spec fn watch_run(start: Watch, events: Seq<(WatchEvent, u64)>) -> Watch
    decreases events.len(),
{
    if events.len() == 0 {
        start
    } else {
        watch_run(start, events.drop_last()).next(events.last().0, events.last().1).0
    }
}

/// The event is no sign of the mouse.
pub open spec fn is_quiet(event: WatchEvent) -> bool {
    event == WatchEvent::TimedOut || event == (WatchEvent::Input { len: 0 })
}

/// While the mouse was not used since the last safety re-apply and stays quiet,
/// nothing is ever sent. An interval that still runs ends without a re-apply,
/// and from then on nothing is waited for but input: a sleeping or absent mouse
/// costs nothing.
pub proof fn law_idle_mouse_costs_nothing(
    w: Watch,
    events: Seq<(WatchEvent, u64)>,
    event: WatchEvent,
    now: u64,
)
    requires
        !w.used,
        forall|i: int| 0 <= i < events.len() ==> is_quiet((#[trigger] events[i]).0),
        is_quiet(event),
    ensures
        ({
            let idle = watch_run(w, events);
            &&& !idle.used
            &&& idle.last_input == w.last_input
            &&& idle.next(event, now).1 == WatchAction::Nothing
            &&& idle.safety_due(now) ==> idle.next(WatchEvent::TimedOut, now).0.safety_at is None
            &&& w.safety_at is None ==> idle == w
        }),
    decreases events.len(),
{
    if events.len() > 0 {
        law_idle_mouse_costs_nothing(w, events.drop_last(), event, now);
        assert(is_quiet(events[events.len() - 1].0));
    }
}

/// A safety re-apply is followed by another only if the mouse was used in
/// between: as long as it stays quiet, nothing more is sent.
pub proof fn law_no_second_refresh_without_use(
    w: Watch,
    event: WatchEvent,
    now: u64,
    events: Seq<(WatchEvent, u64)>,
    quiet: WatchEvent,
    later: u64,
)
    requires
        w.next(event, now).1 == WatchAction::Reapply(Reason::Safety),
        forall|i: int| 0 <= i < events.len() ==> is_quiet((#[trigger] events[i]).0),
        is_quiet(quiet),
    ensures
        watch_run(w.next(event, now).0, events).next(quiet, later).1 == WatchAction::Nothing,
{
    law_idle_mouse_costs_nothing(w.next(event, now).0, events, quiet, later);
}

/// Input that resumes after a gap of at least the threshold re-applies the
/// color at once.
pub proof fn law_wake_reapplies_at_once(w: Watch, len: usize, now: u64)
    requires
        len > 0,
        now - w.last_input >= WAKE_IDLE_THRESHOLD,
    ensures
        w.next(WatchEvent::Input { len }, now).1 == WatchAction::Reapply(
            Reason::Wake { idle: (now - w.last_input) as u64 },
        ),
{
}

/// A brief pause in movement re-applies nothing unless a safety re-apply is due.
pub proof fn law_brief_pause_does_not_reapply(w: Watch, len: usize, now: u64)
    requires
        now - w.last_input < WAKE_IDLE_THRESHOLD,
        !w.safety_due(now),
    ensures
        w.next(WatchEvent::Input { len }, now).1 == WatchAction::Nothing,
{
}

/// Instants that never run backwards, from `start` on, and leave room for the
/// deadlines counted from them.
pub open spec fn is_timeline(start: u64, events: Seq<(WatchEvent, u64)>) -> bool
    decreases events.len(),
{
    events.len() == 0 || {
        &&& is_timeline(start, events.drop_last())
        &&& latest(start, events.drop_last()) <= events.last().1
        &&& events.last().1 + WATCH_SAFETY_INTERVAL <= u64::MAX
    }
}

/// The instant of the last event, or the start before the first.
pub open spec fn latest(start: u64, events: Seq<(WatchEvent, u64)>) -> u64 {
    if events.len() == 0 {
        start
    } else {
        events.last().1
    }
}

proof fn lemma_safety_is_near(start: u64, events: Seq<(WatchEvent, u64)>)
    requires
        is_timeline(start, events),
    ensures
        ({
            let w = watch_run(Watch { last_input: start, safety_at: None, used: false }, events);
            &&& w.last_input <= latest(start, events)
            &&& w.safety_at matches Some(t) ==> t <= w.last_input + WATCH_SAFETY_INTERVAL
        }),
    decreases events.len(),
{
    if events.len() > 0 {
        lemma_safety_is_near(start, events.drop_last());
    }
}

/// Use of the mouse is followed by a safety re-apply within the interval: after
/// input that did not bring one itself, one is due no later than an interval from
/// then, and whatever ends a wait at or after that moment, input or not, brings a
/// re-apply.
pub proof fn law_use_is_followed_by_a_refresh(
    start: u64,
    events: Seq<(WatchEvent, u64)>,
    later: u64,
    len: usize,
)
    requires
        is_timeline(start, events),
        events.len() > 0,
        !is_quiet(events.last().0),
        watch_run(
            Watch { last_input: start, safety_at: None, used: false },
            events.drop_last(),
        ).next(events.last().0, events.last().1).1 != WatchAction::Reapply(Reason::Safety),
        later >= events.last().1 + WATCH_SAFETY_INTERVAL,
        len > 0,
    ensures
        ({
            let used = watch_run(Watch { last_input: start, safety_at: None, used: false }, events);
            &&& used.safety_at matches Some(due)
            &&& due <= events.last().1 + WATCH_SAFETY_INTERVAL
            &&& used.next(WatchEvent::TimedOut, later).1 is Reapply
            &&& used.next(WatchEvent::Input { len }, later).1 is Reapply
        }),
{
    lemma_safety_is_near(start, events);
}

/// A safety interval ends at the moment at which it was to end, whatever the
/// mouse does before: use of the mouse never pushes it back.
pub proof fn law_use_does_not_postpone_the_refresh(
    w: Watch,
    due: u64,
    events: Seq<(WatchEvent, u64)>,
)
    requires
        w.safety_at == Some(due),
        forall|i: int| 0 <= i < events.len() ==> (#[trigger] events[i]).1 < due,
    ensures
        watch_run(w, events).safety_at == Some(due),
    decreases events.len(),
{
    if events.len() > 0 {
        law_use_does_not_postpone_the_refresh(w, due, events.drop_last());
        assert(events[events.len() - 1].1 < due);
    }
}

/// While the mouse is in use the color is re-applied on the safety cadence: input
/// at or after the end of an interval re-applies the color and begins the next
/// interval.
pub proof fn law_use_is_refreshed_every_interval(w: Watch, due: u64, len: usize, now: u64)
    requires
        w.safety_at == Some(due),
        len > 0,
        due <= now,
        now + WATCH_SAFETY_INTERVAL <= u64::MAX,
    ensures
        w.next(WatchEvent::Input { len }, now).1 is Reapply,
        w.next(WatchEvent::Input { len }, now).0.safety_at == Some(
            (now + WATCH_SAFETY_INTERVAL) as u64,
        ),
{
}

/// The watch after a series of events since the color was first applied at `start`.
pub open spec fn watch_since(start: u64, events: Seq<(WatchEvent, u64)>) -> Watch {
    watch_run(Watch { last_input: start, safety_at: None, used: false }, events)
}

/// What was done at the last event.
pub open spec fn done_last(start: u64, events: Seq<(WatchEvent, u64)>) -> WatchAction {
    watch_since(start, events.drop_last()).next(events.last().0, events.last().1).1
}

/// When the mouse last sent input, or `start` if it never did.
pub open spec fn last_used(start: u64, events: Seq<(WatchEvent, u64)>) -> u64
    decreases events.len(),
{
    if events.len() == 0 {
        start
    } else if is_quiet(events.last().0) {
        last_used(start, events.drop_last())
    } else {
        events.last().1
    }
}

/// The mouse sent input, and since then no safety re-apply was made, that input's
/// own included.
pub open spec fn awaits_refresh(start: u64, events: Seq<(WatchEvent, u64)>) -> bool
    decreases events.len(),
{
    events.len() > 0 && done_last(start, events) != WatchAction::Reapply(Reason::Safety) && (
    !is_quiet(events.last().0) || awaits_refresh(start, events.drop_last()))
}

/// When the color was last re-applied for safety, or `start` if it never was.
pub open spec fn last_refreshed(start: u64, events: Seq<(WatchEvent, u64)>) -> u64
    decreases events.len(),
{
    if events.len() == 0 {
        start
    } else if done_last(start, events) == WatchAction::Reapply(Reason::Safety) {
        events.last().1
    } else {
        last_refreshed(start, events.drop_last())
    }
}

proof fn lemma_watch_remembers(start: u64, events: Seq<(WatchEvent, u64)>)
    requires
        is_timeline(start, events),
    ensures
        ({
            let w = watch_since(start, events);
            &&& w.last_input == last_used(start, events)
            &&& start <= w.last_input <= latest(start, events)
            &&& last_refreshed(start, events) <= latest(start, events)
            &&& w.used == awaits_refresh(start, events)
            &&& w.used ==> w.safety_at is Some
            &&& w.safety_at matches Some(due) ==> last_refreshed(start, events)
                + WATCH_SAFETY_INTERVAL <= due <= w.last_input + WATCH_SAFETY_INTERVAL
        }),
    decreases events.len(),
{
    if events.len() > 0 {
        lemma_watch_remembers(start, events.drop_last());
    }
}

/// Use is never forgotten: once the mouse sent input, and until the color is
/// re-applied for safety, a moment is set, a minute after the last input at the
/// latest, and a wait that ends without input at that moment or later re-applies
/// the color, however recent the input was; one that ends before it does nothing.
/// Without such use no wait that ends without input does anything.
pub proof fn law_use_is_never_forgotten(start: u64, events: Seq<(WatchEvent, u64)>, now: u64)
    requires
        is_timeline(start, events),
    ensures
        ({
            let w = watch_since(start, events);
            let waited = w.next(WatchEvent::TimedOut, now).1;
            if awaits_refresh(start, events) {
                &&& w.safety_at matches Some(due)
                &&& due <= last_used(start, events) + 60 * SECOND
                &&& now >= due ==> waited == WatchAction::Reapply(Reason::Safety)
                &&& now < due ==> waited == WatchAction::Nothing
            } else {
                waited == WatchAction::Nothing
            }
        }),
{
    lemma_watch_remembers(start, events);
}

/// What a report of the mouse brings: after five seconds or more without one, the
/// color at once, and the time of silence is told; else the color if the moment for
/// it has come, and nothing before. An empty report brings and changes nothing.
pub proof fn law_report_brings_what_is_due(
    start: u64,
    events: Seq<(WatchEvent, u64)>,
    len: usize,
    now: u64,
)
    requires
        is_timeline(start, events),
        latest(start, events) <= now,
    ensures
        ({
            let w = watch_since(start, events);
            let brought = w.next(WatchEvent::Input { len }, now).1;
            let silence = now - last_used(start, events);
            &&& len == 0 ==> w.next(WatchEvent::Input { len }, now) == (w, WatchAction::Nothing)
            &&& len > 0 && silence >= 5 * SECOND ==> brought == WatchAction::Reapply(
                Reason::Wake { idle: silence as u64 },
            )
            &&& len > 0 && silence < 5 * SECOND && w.safety_at is Some && w.safety_at->0 <= now
                ==> brought == WatchAction::Reapply(Reason::Safety)
            &&& len > 0 && silence < 5 * SECOND && (w.safety_at is None || now < w.safety_at->0)
                ==> brought == WatchAction::Nothing
        }),
{
    lemma_watch_remembers(start, events);
}

/// Input with no moment set for a re-apply sets one a minute later, and leaves one
/// that is set and has not come.
pub proof fn law_report_sets_the_moment(w: Watch, len: usize, now: u64)
    requires
        len > 0,
        now + 60 * SECOND <= u64::MAX,
    ensures
        ({
            let used = w.next(WatchEvent::Input { len }, now).0;
            &&& w.safety_at is None || w.safety_at->0 <= now ==> used.safety_at == Some(
                (now + 60 * SECOND) as u64,
            )
            &&& w.safety_at is Some && now < w.safety_at->0 ==> used.safety_at == w.safety_at
        }),
{
}

/// Safety re-applies are a minute apart at least, and the first comes no sooner
/// than a minute after the start.
pub proof fn law_refreshes_are_a_minute_apart(
    start: u64,
    events: Seq<(WatchEvent, u64)>,
    event: WatchEvent,
    now: u64,
)
    requires
        is_timeline(start, events),
        watch_since(start, events).next(event, now).1 == WatchAction::Reapply(Reason::Safety),
    ensures
        last_refreshed(start, events) + 60 * SECOND <= now,
{
    lemma_watch_remembers(start, events);
}

} // verus!
