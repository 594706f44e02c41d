//! `--upower`: the bridge between the mouse battery and a virtual battery.
//!
//! The battery exists only while the mouse answers. [`Bridge`] decides, event
//! by event, what to do next; the caller carries it out and reports back.

use vstd::prelude::*;
use vstd::string::*;

use crate::clock;
use crate::clock::{since, MILLISECOND, SECOND};
use crate::protocol::BatteryStatus;
use crate::schedule;
use crate::schedule::{
    should_withdraw_battery, Mark, PollSchedule, BATTERY_MOTION_START_DELAY, BATTERY_REFRESH_INTERVAL,
    BATTERY_UNANSWERED_RETRY, BATTERY_WITHDRAW_AFTER,
};

verus! {

// While no battery is exposed (no reading yet, or withdrawn), moving the mouse
// triggers a query at once: it is typically asleep when the service starts at
// boot. This cadence only covers a mouse that becomes reachable without moving.
pub const BATTERY_ABSENT_RETRY: u64 = 10 * SECOND;

/// One battery poll for a long-running loop.
#[derive(Debug, Clone, Copy, PartialEq, Eq, Structural)]
pub enum PollOutcome {
    Answered(BatteryStatus),
    /// The mouse does not answer (asleep, out of range).
    Unanswered,
    /// The dock itself is gone.
    DockGone,
}

/// What a battery query that gave `reading`, or failed, means for the loop;
/// `device_gone` tells whether the failure was the dock's disappearance.
pub fn poll_battery(reading: Option<BatteryStatus>, device_gone: bool) -> (r: PollOutcome)
    ensures
        r == (match reading {
            Some(status) => PollOutcome::Answered(status),
            None => if device_gone {
                PollOutcome::DockGone
            } else {
                PollOutcome::Unanswered
            },
        }),
        reading is Some <==> r is Answered,
        r matches PollOutcome::Answered(status) ==> reading == Some(status),
        r is DockGone <==> reading is None && device_gone,
{
    match reading {
        Some(status) => PollOutcome::Answered(status),
        None => if device_gone {
            PollOutcome::DockGone
        } else {
            PollOutcome::Unanswered
        },
    }
}

/// What the bridge keeps while a battery is exposed.
#[derive(Debug, Clone, Copy)]
pub struct Mirror {
    pub schedule: PollSchedule,
    /// The last reading.
    pub last: BatteryStatus,
    /// When the current run of unanswered polls began.
    pub silent_since: Option<u64>,
}

/// Where the bridge stands, named after what is being done.
#[derive(Debug, Clone, Copy)]
pub enum Bridge {
    /// The handle for virtual devices is being opened.
    Opening,
    /// Nothing is exposed; the battery is being queried.
    Seeking,
    /// Nothing is exposed; input is being waited for.
    Listening,
    /// Nothing is exposed; the mouse moved and the RF link settles.
    Settling,
    /// The virtual battery is being created with its first reading.
    Creating(BatteryStatus),
    /// Input from before the exposure is being discarded.
    Clearing(Mirror),
    /// The virtual battery is being served.
    Serving(Mirror),
    /// The mouse moved; its reports are being discarded.
    Draining(Mirror),
    /// The battery is being queried.
    Polling(Mirror),
    /// A reading is being pushed into the virtual battery; `changed` tells
    /// whether it differs from the one before.
    Pushing { mirror: Mirror, changed: bool },
    /// The virtual battery is being removed.
    Withdrawing,
    /// The bridge has given up.
    Stopped,
}

/// Why the bridge gives up.
#[derive(Debug, Clone, Copy, PartialEq, Eq, Structural)]
pub enum Ending {
    /// There is no handle for virtual devices.
    NoHandle,
    /// The dock is disconnected.
    DockGone,
}

/// What came of the last effect.
#[derive(Debug, Clone, Copy, PartialEq, Eq, Structural)]
pub enum Event {
    /// The handle was opened, or not.
    Opened(bool),
    Polled(PollOutcome),
    /// A wait ended; `true` when input is ready.
    Waited(bool),
    Done,
}

/// What to do next.
#[derive(Debug, Clone, Copy, PartialEq, Eq, Structural)]
pub enum Effect {
    /// Open the handle for virtual devices.
    Open,
    /// Query the battery.
    Poll,
    /// Wait for input from the dock.
    AwaitInput { until: u64 },
    /// Sleep, then discard the input that piled up.
    Settle { span: u64 },
    /// Create the virtual battery.
    Create(BatteryStatus),
    /// Discard the input that piled up.
    Drain,
    /// Serve the virtual battery, and wait for input if `watch_input`.
    Serve { until: u64, watch_input: bool },
    /// Push a reading into the virtual battery.
    Update(BatteryStatus),
    /// Remove the virtual battery.
    Destroy,
    /// Give up with an error.
    Stop(Ending),
}

/// What to tell the user.
#[derive(Debug, Clone, Copy, PartialEq, Eq, Structural)]
pub enum Note {
    Reading(BatteryStatus),
    Withdrawn,
}

impl Note {
    pub open spec fn text(self) -> Seq<char> {
        match self {
            Note::Reading(status) => "battery: "@ + status.text(),
            Note::Withdrawn =>
                "battery withdrawn — mouse silent for 10 s (asleep, off or out of range)"@,
        }
    }

    pub fn to_string(&self) -> (r: String)
        ensures
            r@ == self.text(),
    {
        match self {
            Note::Reading(status) => {
                let mut r = "battery: ".to_owned();
                r.append(status.to_string().as_str());
                r
            },
            Note::Withdrawn =>
                "battery withdrawn — mouse silent for 10 s (asleep, off or out of range)".to_owned(),
        }
    }
}

/// One step of the bridge.
#[derive(Debug, Clone, Copy)]
pub struct Step {
    pub next: Bridge,
    pub effect: Effect,
    pub note: Option<Note>,
}

impl Mirror {
    pub open spec fn wf(self) -> bool {
        self.schedule.wf()
    }

    pub open spec fn serve_effect(self, now: u64) -> Effect {
        Effect::Serve {
            until: self.schedule.wakeup(now) as u64,
            watch_input: now >= self.schedule.input_muted_until,
        }
    }

    /// Back to serving, at `now`.
    pub open spec fn serving(self, now: u64, note: Option<Note>) -> Step {
        Step { next: Bridge::Serving(self), effect: self.serve_effect(now), note }
    }

    /// A poll at `now` was answered with `status`.
    pub open spec fn answered(self, status: BatteryStatus, now: u64) -> Mirror {
        Mirror {
            schedule: self.schedule.after_poll(now, true),
            last: status,
            silent_since: None,
        }
    }

    /// A poll at `now` went unanswered.
    pub open spec fn unanswered(self, now: u64) -> Mirror {
        Mirror {
            schedule: self.schedule.after_poll(now, false),
            last: self.last,
            silent_since: match self.silent_since {
                Some(t) => Some(t),
                None => Some(now),
            },
        }
    }

    fn serve(self, now: u64, note: Option<Note>) -> (r: Step)
        requires
            self.wf(),
        ensures
            r == self.serving(now, note),
    {
        Step {
            next: Bridge::Serving(self),
            effect: Effect::Serve {
                until: self.schedule.next_wakeup(now),
                watch_input: self.schedule.watches_input(now),
            },
            note,
        }
    }
}

impl Bridge {
    pub open spec fn wf(self) -> bool {
        match self.mirror() {
            Some(mirror) => mirror.wf(),
            None => true,
        }
    }

    /// What the bridge keeps of the exposed battery, if there is one.
    pub open spec fn mirror(self) -> Option<Mirror> {
        match self {
            Bridge::Clearing(mirror) => Some(mirror),
            Bridge::Serving(mirror) => Some(mirror),
            Bridge::Draining(mirror) => Some(mirror),
            Bridge::Polling(mirror) => Some(mirror),
            Bridge::Pushing { mirror, .. } => Some(mirror),
            _ => None,
        }
    }

    /// The kind of event that answers what is being done.
    pub open spec fn expects(self, event: Event) -> bool {
        match self {
            Bridge::Opening => event is Opened,
            Bridge::Seeking | Bridge::Polling(_) => event is Polled,
            Bridge::Listening | Bridge::Serving(_) => event is Waited,
            Bridge::Stopped => false,
            _ => event is Done,
        }
    }

    /// What follows from `event` at `now`.
    pub open spec fn next(self, event: Event, now: u64) -> Step {
        match (self, event) {
            // Fail on a missing handle now, not after waiting on the mouse.
            (Bridge::Opening, Event::Opened(true)) => Step {
                next: Bridge::Seeking,
                effect: Effect::Poll,
                note: None,
            },
            (Bridge::Opening, Event::Opened(false)) => Step {
                next: Bridge::Stopped,
                effect: Effect::Stop(Ending::NoHandle),
                note: None,
            },
            // Nothing is exposed until the mouse answers. Retry on a slow
            // cadence, or right away when the mouse moves: a sleeping mouse
            // wakes that way.
            (Bridge::Seeking, Event::Polled(PollOutcome::Answered(first))) => Step {
                next: Bridge::Creating(first),
                effect: Effect::Create(first),
                note: None,
            },
            (Bridge::Seeking, Event::Polled(PollOutcome::Unanswered)) => Step {
                next: Bridge::Listening,
                effect: Effect::AwaitInput { until: (now + BATTERY_ABSENT_RETRY) as u64 },
                note: None,
            },
            (Bridge::Listening, Event::Waited(true)) => Step {
                next: Bridge::Settling,
                effect: Effect::Settle { span: BATTERY_MOTION_START_DELAY },
                note: None,
            },
            (Bridge::Listening, Event::Waited(false)) | (Bridge::Settling, Event::Done) => Step {
                next: Bridge::Seeking,
                effect: Effect::Poll,
                note: None,
            },
            // The battery is there: mirror readings into it until the mouse
            // has been silent for `BATTERY_WITHDRAW_AFTER`.
            (Bridge::Creating(first), Event::Done) => Step {
                next: Bridge::Clearing(
                    Mirror {
                        schedule: PollSchedule::started(now),
                        last: first,
                        silent_since: None,
                    },
                ),
                effect: Effect::Drain,
                note: Some(Note::Reading(first)),
            },
            (Bridge::Clearing(mirror), Event::Done) => mirror.serving(now, None),
            (Bridge::Serving(mirror), Event::Waited(true)) => Step {
                next: Bridge::Draining(mirror),
                effect: Effect::Drain,
                note: None,
            },
            (Bridge::Draining(mirror), Event::Done) => (Mirror {
                schedule: mirror.schedule.after_motion(now),
                ..mirror
            }).serving(now, None),
            (Bridge::Serving(mirror), Event::Waited(false)) => if now
                < mirror.schedule.next_poll() {
                mirror.serving(now, None)
            } else {
                Step { next: Bridge::Polling(mirror), effect: Effect::Poll, note: None }
            },
            (Bridge::Polling(mirror), Event::Polled(PollOutcome::Answered(status))) => Step {
                next: Bridge::Pushing {
                    mirror: mirror.answered(status, now),
                    changed: status != mirror.last,
                },
                effect: Effect::Update(status),
                note: None,
            },
            (Bridge::Polling(mirror), Event::Polled(PollOutcome::Unanswered)) => {
                let silent = mirror.unanswered(now);
                if clock::elapsed(silent.silent_since->0, now) >= BATTERY_WITHDRAW_AFTER {
                    Step { next: Bridge::Withdrawing, effect: Effect::Destroy, note: None }
                } else {
                    silent.serving(now, None)
                }
            },
            (Bridge::Pushing { mirror, changed }, Event::Done) => mirror.serving(
                now,
                if changed {
                    Some(Note::Reading(mirror.last))
                } else {
                    None
                },
            ),
            (Bridge::Withdrawing, Event::Done) => Step {
                next: Bridge::Seeking,
                effect: Effect::Poll,
                note: Some(Note::Withdrawn),
            },
            _ => Step {
                next: Bridge::Stopped,
                effect: Effect::Stop(Ending::DockGone),
                note: None,
            },
        }
    }

    /// The bridge before it has done anything.
    pub fn start() -> (r: Step)
        ensures
            r == (Step { next: Bridge::Opening, effect: Effect::Open, note: None }),
    {
        Step { next: Bridge::Opening, effect: Effect::Open, note: None }
    }

    /// The last effect ended with `event` at `now`.
    pub fn step(self, event: Event, now: u64) -> (r: Step)
        requires
            self.wf(),
            self.expects(event),
            schedule::instant_in_range(now),
        ensures
            r == self.next(event, now),
            r.next.wf(),
    {
        match (self, event) {
            (Bridge::Opening, Event::Opened(opened)) => {
                if opened {
                    Step { next: Bridge::Seeking, effect: Effect::Poll, note: None }
                } else {
                    Step {
                        next: Bridge::Stopped,
                        effect: Effect::Stop(Ending::NoHandle),
                        note: None,
                    }
                }
            },
            (Bridge::Seeking, Event::Polled(PollOutcome::Answered(first))) => Step {
                next: Bridge::Creating(first),
                effect: Effect::Create(first),
                note: None,
            },
            (Bridge::Seeking, Event::Polled(PollOutcome::Unanswered)) => Step {
                next: Bridge::Listening,
                effect: Effect::AwaitInput { until: now + BATTERY_ABSENT_RETRY },
                note: None,
            },
            (Bridge::Listening, Event::Waited(true)) => Step {
                next: Bridge::Settling,
                // Let the RF link settle, and never spin on a stream of motion.
                effect: Effect::Settle { span: BATTERY_MOTION_START_DELAY },
                note: None,
            },
            (Bridge::Listening, Event::Waited(false)) => Step {
                next: Bridge::Seeking,
                effect: Effect::Poll,
                note: None,
            },
            (Bridge::Settling, Event::Done) => Step {
                next: Bridge::Seeking,
                effect: Effect::Poll,
                note: None,
            },
            (Bridge::Creating(first), Event::Done) => Step {
                next: Bridge::Clearing(
                    Mirror { schedule: PollSchedule::new(now), last: first, silent_since: None },
                ),
                effect: Effect::Drain,
                note: Some(Note::Reading(first)),
            },
            (Bridge::Clearing(mirror), Event::Done) => mirror.serve(now, None),
            (Bridge::Serving(mirror), Event::Waited(true)) => Step {
                next: Bridge::Draining(mirror),
                effect: Effect::Drain,
                note: None,
            },
            (Bridge::Draining(mirror), Event::Done) => {
                let mut schedule = mirror.schedule;
                schedule.on_motion(now);
                Mirror { schedule, last: mirror.last, silent_since: mirror.silent_since }.serve(
                    now,
                    None,
                )
            },
            (Bridge::Serving(mirror), Event::Waited(false)) => {
                if now < mirror.schedule.next_poll_at() {
                    // Woke only to look at the input stream again.
                    mirror.serve(now, None)
                } else {
                    Step { next: Bridge::Polling(mirror), effect: Effect::Poll, note: None }
                }
            },
            (Bridge::Polling(mirror), Event::Polled(PollOutcome::Answered(status))) => {
                let mut schedule = mirror.schedule;
                schedule.on_polled(now, true);
                // Pushed even when unchanged: each push past the kernel's 30 s
                // rate-limit re-announces the battery to UPower.
                Step {
                    next: Bridge::Pushing {
                        mirror: Mirror { schedule, last: status, silent_since: None },
                        changed: status != mirror.last,
                    },
                    effect: Effect::Update(status),
                    note: None,
                }
            },
            (Bridge::Polling(mirror), Event::Polled(PollOutcome::Unanswered)) => {
                let mut schedule = mirror.schedule;
                schedule.on_polled(now, false);
                let first_miss = match mirror.silent_since {
                    Some(t) => t,
                    None => now,
                };
                if should_withdraw_battery(since(first_miss, now)) {
                    Step { next: Bridge::Withdrawing, effect: Effect::Destroy, note: None }
                } else {
                    // A lost poll so far: keep the last reading, retry shortly.
                    Mirror { schedule, last: mirror.last, silent_since: Some(first_miss) }.serve(
                        now,
                        None,
                    )
                }
            },
            (Bridge::Pushing { mirror, changed }, Event::Done) => mirror.serve(
                now,
                if changed {
                    Some(Note::Reading(mirror.last))
                } else {
                    None
                },
            ),
            (Bridge::Withdrawing, Event::Done) => Step {
                next: Bridge::Seeking,
                effect: Effect::Poll,
                note: Some(Note::Withdrawn),
            },
            _ => Step {
                next: Bridge::Stopped,
                effect: Effect::Stop(Ending::DockGone),
                note: None,
            },
        }
    }
}

/// What `--upower` says when it starts.
pub fn bridge_banner(path: &str) -> (r: String)
    ensures
        r@ == "Bridging the mouse battery from "@ + path@
            + " to UPower — waiting for a first reading."@,
{
    let mut r = "Bridging the mouse battery from ".to_owned();
    r.append(path);
    r.append(" to UPower — waiting for a first reading.");
    r
}

// ---------- Laws ----------

/// A series of events, each with its instant, as the bridge lives through
/// them from its start.
pub open spec fn bridge_run(events: Seq<(Event, u64)>) -> Bridge
    decreases events.len(),
{
    if events.len() == 0 {
        Bridge::Opening
    } else {
        bridge_run(events.drop_last()).next(events.last().0, events.last().1).next
    }
}

/// Every event answers what the bridge was doing, at an instant in range.
pub open spec fn is_history(events: Seq<(Event, u64)>) -> bool
    decreases events.len(),
{
    events.len() == 0 || {
        &&& is_history(events.drop_last())
        &&& bridge_run(events.drop_last()).expects(events.last().0)
        &&& schedule::instant_in_range(events.last().1)
    }
}

/// The last reading that a series of events holds.
pub open spec fn last_reading(events: Seq<(Event, u64)>) -> Option<BatteryStatus>
    decreases events.len(),
{
    if events.len() == 0 {
        None
    } else {
        match events.last().0 {
            Event::Polled(PollOutcome::Answered(status)) => Some(status),
            _ => last_reading(events.drop_last()),
        }
    }
}

/// The instant of the first of the unanswered polls that a series of events
/// ends with: no poll since was answered. `None` when the last poll was
/// answered, or there was none.
pub open spec fn silence_began(events: Seq<(Event, u64)>) -> Option<u64>
    decreases events.len(),
{
    if events.len() == 0 {
        None
    } else {
        match events.last().0 {
            Event::Polled(PollOutcome::Answered(_)) => None,
            Event::Polled(PollOutcome::Unanswered) => match silence_began(events.drop_last()) {
                Some(t) => Some(t),
                None => Some(events.last().1),
            },
            _ => silence_began(events.drop_last()),
        }
    }
}

/// While a battery is exposed the bridge knows the last reading and when the
/// current silence began.
pub proof fn law_bridge_tracks_the_polls(events: Seq<(Event, u64)>)
    requires
        is_history(events),
    ensures
        bridge_run(events).wf(),
        bridge_run(events).mirror() matches Some(mirror) ==> last_reading(events) == Some(
            mirror.last,
        ) && silence_began(events) == mirror.silent_since,
        bridge_run(events) matches Bridge::Creating(first) ==> last_reading(events) == Some(first)
            && silence_began(events) is None,
    decreases events.len(),
{
    if events.len() > 0 {
        law_bridge_tracks_the_polls(events.drop_last());
    }
}

/// A level that reaches the virtual battery, its first one included, is the
/// reading that the mouse has just given: never a made-up one.
pub proof fn law_exposed_level_is_a_real_reading(
    events: Seq<(Event, u64)>,
    event: Event,
    now: u64,
    status: BatteryStatus,
)
    requires
        is_history(events),
        bridge_run(events).expects(event),
        bridge_run(events).next(event, now).effect == Effect::Create(status) || bridge_run(
            events,
        ).next(event, now).effect == Effect::Update(status),
    ensures
        event == Event::Polled(PollOutcome::Answered(status)),
{
}

/// Every answered poll reaches the virtual battery: it is created with the
/// reading, or the reading is pushed into it.
pub proof fn law_every_reading_is_exposed(
    events: Seq<(Event, u64)>,
    now: u64,
    status: BatteryStatus,
)
    requires
        is_history(events),
        bridge_run(events).expects(Event::Polled(PollOutcome::Answered(status))),
    ensures
        bridge_run(events).next(Event::Polled(PollOutcome::Answered(status)), now).effect == (
        if bridge_run(events).mirror() is Some {
            Effect::Update(status)
        } else {
            Effect::Create(status)
        }),
{
}

/// The battery is withdrawn exactly when a poll of an exposed battery goes
/// unanswered and the silence, counted from its first unanswered poll, has
/// lasted `BATTERY_WITHDRAW_AFTER`.
pub proof fn law_withdrawn_exactly_on_held_silence(
    events: Seq<(Event, u64)>,
    event: Event,
    now: u64,
)
    requires
        is_history(events),
        bridge_run(events).expects(event),
    ensures
        bridge_run(events).next(event, now).effect == Effect::Destroy <==> {
            &&& bridge_run(events).mirror() is Some
            &&& event == Event::Polled(PollOutcome::Unanswered)
            &&& silence_began(events) matches Some(t)
            &&& t + BATTERY_WITHDRAW_AFTER <= now
        },
{
    law_bridge_tracks_the_polls(events);
}

/// One lost poll never withdraws the battery: after an answered poll, an
/// unanswered one leaves it exposed with its last reading, and the next poll
/// follows within the retry interval.
pub proof fn law_one_lost_poll_keeps_the_battery(events: Seq<(Event, u64)>, now: u64)
    requires
        is_history(events),
        bridge_run(events) is Polling,
        silence_began(events) is None,
        schedule::instant_in_range(now),
    ensures
        ({
            let step = bridge_run(events).next(Event::Polled(PollOutcome::Unanswered), now);
            &&& step.next.mirror() matches Some(mirror)
            &&& last_reading(events) == Some(mirror.last)
            &&& step.effect matches Effect::Serve { until, .. }
            &&& until <= now + BATTERY_UNANSWERED_RETRY
        }),
{
    law_bridge_tracks_the_polls(events);
}

/// The user is told of a reading only when it is the first of an exposure or
/// differs from the one before it.
pub proof fn law_only_changed_readings_are_announced(
    events: Seq<(Event, u64)>,
    status: BatteryStatus,
    now: u64,
)
    requires
        is_history(events),
        bridge_run(events) is Polling,
    ensures
        ({
            let pushed = bridge_run(events).next(
                Event::Polled(PollOutcome::Answered(status)),
                now,
            ).next;
            let told = pushed.next(Event::Done, now).note;
            told == (if last_reading(events) == Some(status) {
                None
            } else {
                Some(Note::Reading(status))
            })
        }),
{
    law_bridge_tracks_the_polls(events);
}

/// A wait on the virtual battery never outlasts the next poll that is due, and
/// a wait that ends when it is due is followed by the poll.
pub proof fn law_due_poll_is_made(events: Seq<(Event, u64)>, event: Event, now: u64, later: u64)
    requires
        is_history(events),
        bridge_run(events).expects(event),
        schedule::instant_in_range(now),
        bridge_run(events).next(event, now).effect is Serve,
    ensures
        ({
            let step = bridge_run(events).next(event, now);
            &&& step.next matches Bridge::Serving(mirror)
            &&& step.effect->Serve_until <= mirror.schedule.next_poll()
            &&& mirror.schedule.next_poll() <= later ==> step.next.next(
                Event::Waited(false),
                later,
            ).effect == Effect::Poll
        }),
{
    law_bridge_tracks_the_polls(events);
    assert(events.push((event, now)).drop_last() =~= events);
    law_bridge_tracks_the_polls(events.push((event, now)));
}

/// The instant of the last poll, or of the exposure when that came later.
pub open spec fn last_refresh(events: Seq<(Event, u64)>) -> Option<u64>
    decreases events.len(),
{
    if events.len() == 0 {
        None
    } else if events.last().0 is Polled || bridge_run(events.drop_last()) is Creating {
        Some(events.last().1)
    } else {
        last_refresh(events.drop_last())
    }
}

/// An exposed battery is polled again within the refresh interval, however the
/// mouse moves meanwhile.
pub proof fn law_level_is_refreshed_in_time(events: Seq<(Event, u64)>)
    requires
        is_history(events),
    ensures
        bridge_run(events).mirror() matches Some(mirror) ==> {
            &&& last_refresh(events) matches Some(t)
            &&& mirror.schedule.next_poll() <= t + BATTERY_REFRESH_INTERVAL
        },
{
    lemma_refresh_is_kept(events);
}

proof fn lemma_refresh_is_kept(events: Seq<(Event, u64)>)
    requires
        is_history(events),
    ensures
        bridge_run(events).mirror() matches Some(mirror) ==> {
            &&& last_refresh(events) matches Some(t)
            &&& mirror.schedule.refresh_at == t + BATTERY_REFRESH_INTERVAL
        },
    decreases events.len(),
{
    if events.len() > 0 {
        lemma_refresh_is_kept(events.drop_last());
    }
}

/// While nothing is exposed, an unanswered poll is followed by another one: a
/// start delay after the mouse moves, and after the retry interval if it does
/// not.
pub proof fn law_absent_battery_is_sought(now: u64, moved: u64, settled: u64)
    requires
        schedule::instant_in_range(now),
    ensures
        ({
            let waiting = Bridge::Seeking.next(Event::Polled(PollOutcome::Unanswered), now);
            let still = waiting.next.next(Event::Waited(false), moved);
            let settling = waiting.next.next(Event::Waited(true), moved);
            &&& waiting.effect matches Effect::AwaitInput { until }
            &&& until == now + BATTERY_ABSENT_RETRY
            &&& still == (Step { next: Bridge::Seeking, effect: Effect::Poll, note: None })
            &&& settling.effect == (Effect::Settle { span: BATTERY_MOTION_START_DELAY })
            &&& settling.next.next(Event::Done, settled) == still
        }),
{
}

/// When the dock is gone the bridge stops, whatever it was doing.
pub proof fn law_bridge_stops_without_its_dock(events: Seq<(Event, u64)>, now: u64)
    requires
        is_history(events),
        bridge_run(events).expects(Event::Polled(PollOutcome::DockGone)),
    ensures
        bridge_run(events).next(Event::Polled(PollOutcome::DockGone), now).effect == Effect::Stop(
            Ending::DockGone,
        ),
{
}

/// The bridge never ends well: it gives up only without a handle or without its
/// dock.
pub proof fn law_bridge_ends_only_in_failure(
    events: Seq<(Event, u64)>,
    event: Event,
    now: u64,
    ending: Ending,
)
    requires
        is_history(events),
        bridge_run(events).expects(event),
    ensures
        bridge_run(events).next(event, now).effect == Effect::Stop(ending) <==> event == (
        match ending {
            Ending::NoHandle => Event::Opened(false),
            Ending::DockGone => Event::Polled(PollOutcome::DockGone),
        }),
{
}

/// The handle comes first: whatever is done after the start, the mouse queried
/// for the first time included, is done with the handle open. Without it the
/// bridge ends at once.
pub proof fn law_handle_comes_first(events: Seq<(Event, u64)>)
    requires
        is_history(events),
        events.len() > 0,
    ensures
        events[0].0 is Opened,
        events[0].0 == Event::Opened(false) ==> events.len() == 1 && bridge_run(events) is Stopped
            && Bridge::Opening.next(events[0].0, events[0].1).effect == Effect::Stop(
            Ending::NoHandle,
        ),
        events[0].0 == Event::Opened(true) ==> !(bridge_run(events) is Opening),
    decreases events.len(),
{
    if events.len() > 1 {
        law_handle_comes_first(events.drop_last());
    } else {
        assert(events.drop_last() =~= Seq::empty());
        assert(bridge_run(events.drop_last()) is Opening);
    }
}

/// How many virtual batteries exist after a series of events: those created, less
/// those removed.
pub open spec fn batteries(events: Seq<(Event, u64)>) -> int
    decreases events.len(),
{
    if events.len() == 0 {
        0
    } else {
        batteries(events.drop_last()) + (match bridge_run(events.drop_last()).next(
            events.last().0,
            events.last().1,
        ).effect {
            Effect::Create(_) => 1int,
            Effect::Destroy => -1,
            _ => 0,
        })
    }
}

/// At most one virtual battery exists at a time. One is created only where there
/// is none, on an answered poll, and removed only where there is one; while there
/// is none, no reading is pushed and nothing is served.
pub proof fn law_at_most_one_battery(events: Seq<(Event, u64)>, event: Event, now: u64)
    requires
        is_history(events),
        bridge_run(events).expects(event),
    ensures
        0 <= batteries(events) <= 1,
        match bridge_run(events).next(event, now).effect {
            Effect::Create(status) => batteries(events) == 0 && event == Event::Polled(
                PollOutcome::Answered(status),
            ),
            Effect::Destroy | Effect::Update(_) | Effect::Serve { .. } => batteries(events) == 1,
            _ => true,
        },
{
    lemma_batteries(events);
}

proof fn lemma_batteries(events: Seq<(Event, u64)>)
    requires
        is_history(events),
    ensures
        0 <= batteries(events) <= 1,
        !(bridge_run(events) is Stopped) ==> (batteries(events) == 1 <==> bridge_run(
            events,
        ).mirror() is Some || bridge_run(events) is Creating),
    decreases events.len(),
{
    if events.len() > 0 {
        lemma_batteries(events.drop_last());
    }
}

/// The event before the last one.
pub open spec fn event_before(events: Seq<(Event, u64)>) -> Option<Event> {
    if events.len() < 2 {
        None
    } else {
        Some(events[events.len() - 2].0)
    }
}

/// Since when a battery is exposed, told from the events alone: the first thing
/// done after an answered poll creates it, and what is done right after an
/// unanswered one is its removal.
pub open spec fn exposed_since(events: Seq<(Event, u64)>) -> Option<u64>
    decreases events.len(),
{
    if events.len() == 0 {
        None
    } else {
        let before = exposed_since(events.drop_last());
        match (events.last().0, event_before(events)) {
            (Event::Done, Some(Event::Polled(PollOutcome::Answered(_)))) => if before is None {
                Some(events.last().1)
            } else {
                before
            },
            (Event::Done, Some(Event::Polled(PollOutcome::Unanswered))) => None,
            _ => before,
        }
    }
}

/// What happened to the exposed battery since it is exposed, told from the events
/// alone: each poll, and a motion where input was waited for and then discarded.
pub open spec fn marks(events: Seq<(Event, u64)>) -> Seq<Mark>
    decreases events.len(),
{
    if events.len() == 0 || exposed_since(events.drop_last()) is None {
        Seq::empty()
    } else {
        let before = marks(events.drop_last());
        match (events.last().0, event_before(events)) {
            (Event::Polled(outcome), _) => before.push(
                Mark::Poll { at: events.last().1, answered: outcome is Answered },
            ),
            (Event::Done, Some(Event::Waited(true))) => before.push(Mark::Motion(events.last().1)),
            _ => before,
        }
    }
}

/// The instants of the events never run backwards, and are in range.
pub open spec fn is_timely(events: Seq<(Event, u64)>) -> bool
    decreases events.len(),
{
    events.len() > 0 ==> {
        &&& is_timely(events.drop_last())
        &&& events.len() > 1 ==> events[events.len() - 2].1 <= events.last().1
        &&& schedule::instant_in_range(events.last().1)
    }
}

/// What the bridge is doing goes with the events so far, and the schedule it keeps
/// is the one that follows from what happened since the battery is exposed.
proof fn lemma_bridge_follows_the_events(events: Seq<(Event, u64)>)
    requires
        is_history(events),
    ensures
        ({
            let state = bridge_run(events);
            &&& state.wf()
            &&& state.mirror() matches Some(mirror) ==> exposed_since(events) matches Some(start)
                && mirror.schedule == schedule::schedule_after(start, marks(events))
            &&& state is Opening ==> events.len() == 0
            &&& state is Opening || state is Seeking || state is Listening || state is Settling
                || state is Creating ==> exposed_since(events) is None
            &&& state is Settling || state is Draining ==> events.len() > 0 && events.last().0
                == Event::Waited(true)
            &&& state matches Bridge::Creating(first) ==> events.len() > 0 && events.last().0
                == Event::Polled(PollOutcome::Answered(first))
            &&& state matches Bridge::Pushing { mirror, .. } ==> events.len() > 0
                && events.last().0 == Event::Polled(PollOutcome::Answered(mirror.last))
            &&& state is Clearing ==> events.len() > 0 && events.last().0 == Event::Done
            &&& state is Withdrawing ==> events.len() > 0 && exposed_since(events) is Some
                && events.last().0 == Event::Polled(PollOutcome::Unanswered)
            &&& state is Polling ==> events.len() > 0 && events.last().0 == Event::Waited(false)
        }),
    decreases events.len(),
{
    if events.len() > 0 {
        lemma_bridge_follows_the_events(events.drop_last());
        if events.len() > 1 {
            assert(event_before(events) == Some(events.drop_last().last().0));
        }
        let before = marks(events.drop_last());
        assert(exposed_since(events.drop_last()) is Some ==> before.push(
            Mark::Motion(events.last().1),
        ).drop_last() =~= before);
        assert forall|answered: bool| true implies #[trigger] before.push(
            Mark::Poll { at: events.last().1, answered },
        ).drop_last() == before by {
            assert(before.push(Mark::Poll { at: events.last().1, answered }).drop_last()
                =~= before);
        }
        assert(schedule::schedule_after(events.last().1, Seq::empty()) == PollSchedule::started(
            events.last().1,
        ));
    }
}

proof fn lemma_marks_are_a_record(events: Seq<(Event, u64)>)
    requires
        is_timely(events),
    ensures
        exposed_since(events) matches Some(start) ==> {
            &&& events.len() > 0
            &&& schedule::is_record(start, marks(events))
            &&& schedule::last_mark(start, marks(events)) <= events.last().1
        },
    decreases events.len(),
{
    if events.len() > 0 {
        lemma_marks_are_a_record(events.drop_last());
        let before = marks(events.drop_last());
        assert forall|mark: Mark| true implies #[trigger] before.push(mark).drop_last() == before by {
            assert(before.push(mark).drop_last() =~= before);
        }
        if events.len() > 1 {
            assert(events.drop_last().last().1 == events[events.len() - 2].1);
        }
    }
}

/// The virtual battery is served as it should be at `now`, given what happened
/// since it is exposed: input is waited for unless the mouse moved within the last
/// half second, and the wait ends at the first moment at which there is a reason to
/// query the battery or, where input is not waited for, at the end of that half
/// second if it comes first.
pub open spec fn serves(effect: Effect, start: u64, marks: Seq<Mark>, now: u64) -> bool {
    &&& effect matches Effect::Serve { until, watch_input }
    &&& watch_input == schedule::is_watched(marks, now)
    &&& forall|u: int| #[trigger] schedule::is_due(start, marks, u) ==> until <= u
    &&& watch_input ==> schedule::is_due(start, marks, until as int)
    &&& !watch_input ==> {
        let look_again = schedule::last_moved(marks)->0 + 500 * MILLISECOND;
        &&& until <= look_again
        &&& until == look_again || schedule::is_due(start, marks, until as int)
    }
}

proof fn lemma_serves(mirror: Mirror, start: u64, marks: Seq<Mark>, now: u64, note: Option<Note>)
    requires
        schedule::is_record(start, marks),
        schedule::last_mark(start, marks) <= now,
        mirror.schedule == schedule::schedule_after(start, marks),
    ensures
        serves(mirror.serving(now, note).effect, start, marks, now),
{
    schedule::law_battery_is_polled_when_first_due(start, marks);
    schedule::law_waits_end_in_time(start, marks, now);
    schedule::lemma_next_poll_in_range(start, marks);
    let s = mirror.schedule;
    assert(s.wakeup(now) <= s.next_poll());
}

/// What the bridge does follows from the events alone.
///
/// A handle comes first. An answered poll creates the battery or updates it. A
/// missed poll is followed by a wait for input of ten seconds where nothing is
/// exposed; else it removes the battery if the polls were missed for ten seconds,
/// and otherwise the battery is served on. Input settles for a second where nothing
/// is exposed, and is discarded where a battery is; discarded input counts as
/// motion. A wait that ends without input is followed by a poll where nothing is
/// exposed, and else when there is a reason for one. A lost dock ends it.
pub proof fn law_bridge_does_what_the_events_ask(
    events: Seq<(Event, u64)>,
    event: Event,
    now: u64,
)
    requires
        is_history(events),
        bridge_run(events).expects(event),
        is_timely(events.push((event, now))),
    ensures
        ({
            let effect = bridge_run(events).next(event, now).effect;
            let after = events.push((event, now));
            match (event, exposed_since(events)) {
                (Event::Opened(true), _) => effect == Effect::Poll,
                (Event::Opened(false), _) => effect == Effect::Stop(Ending::NoHandle),
                (Event::Polled(PollOutcome::Answered(status)), None) => effect == Effect::Create(
                    status,
                ),
                (Event::Polled(PollOutcome::Answered(status)), Some(_)) => effect
                    == Effect::Update(status),
                (Event::Polled(PollOutcome::Unanswered), None) => effect == (Effect::AwaitInput {
                    until: (now + 10 * SECOND) as u64,
                }),
                (Event::Polled(PollOutcome::Unanswered), Some(start)) => if silence_began(
                    events,
                ) matches Some(first) && first + 10 * SECOND <= now {
                    effect == Effect::Destroy
                } else {
                    serves(effect, start, marks(after), now)
                },
                (Event::Polled(PollOutcome::DockGone), _) => effect == Effect::Stop(
                    Ending::DockGone,
                ),
                (Event::Waited(true), None) => effect == (Effect::Settle { span: SECOND }),
                (Event::Waited(true), Some(_)) => effect == Effect::Drain,
                (Event::Waited(false), None) => effect == Effect::Poll,
                (Event::Waited(false), Some(start)) => if exists|u: int| #[trigger]
                    schedule::is_due(start, marks(events), u) && u <= now {
                    effect == Effect::Poll
                } else {
                    serves(effect, start, marks(events), now)
                },
                (Event::Done, was) => match (events.last().0, was) {
                    (Event::Polled(PollOutcome::Answered(_)), None) => effect == Effect::Drain,
                    (Event::Polled(PollOutcome::Unanswered), _) => effect == Effect::Poll,
                    (_, None) => effect == Effect::Poll,
                    (_, Some(start)) => serves(effect, start, marks(after), now),
                },
            }
        }),
{
    let after = events.push((event, now));
    assert(after.drop_last() =~= events);
    if events.len() > 0 {
        assert(event_before(after) == Some(events.last().0));
    }
    assert(is_history(after));
    lemma_bridge_follows_the_events(events);
    lemma_bridge_follows_the_events(after);
    lemma_marks_are_a_record(events);
    lemma_marks_are_a_record(after);
    law_bridge_tracks_the_polls(events);
    if let Some(start) = exposed_since(events) {
        if events.len() > 0 {
            assert(events.last().1 <= now) by {
                assert(after[after.len() - 2] == events.last());
            }
        }
        match bridge_run(events).next(event, now).next {
            Bridge::Serving(mirror) => {
                assert(exposed_since(after) == Some(start));
                lemma_serves(mirror, start, marks(after), now, None);
            },
            _ => {},
        }
        if event == Event::Waited(false) {
            schedule::law_battery_is_polled_when_first_due(start, marks(events));
        }
    }
}

/// What the user is told follows from the events alone: the first reading of a
/// battery once it is created, a later one once it is pushed and only if it differs
/// from the one before, and that a battery was removed.
pub proof fn law_user_is_told_what_happened(events: Seq<(Event, u64)>, event: Event, now: u64)
    requires
        is_history(events),
        bridge_run(events).expects(event),
    ensures
        ({
            let note = bridge_run(events).next(event, now).note;
            if event != Event::Done {
                note is None
            } else {
                match events.last().0 {
                    Event::Polled(PollOutcome::Answered(status)) => if exposed_since(events)
                        is Some && last_reading(events.drop_last()) == Some(status) {
                        note is None
                    } else {
                        note == Some(Note::Reading(status))
                    },
                    Event::Polled(PollOutcome::Unanswered) => note == Some(Note::Withdrawn),
                    _ => note is None,
                }
            }
        }),
{
    lemma_bridge_follows_the_events(events);
    law_bridge_tracks_the_polls(events);
    if events.len() > 0 {
        law_bridge_tracks_the_polls(events.drop_last());
        lemma_bridge_follows_the_events(events.drop_last());
    }
}

/// When the mouse moves while a battery is exposed, whatever the last reading was,
/// the input stream is left alone for half a second, and a movement that starts is
/// followed by a poll a second later at the latest.
pub proof fn law_motion_is_polled_around(
    events: Seq<(Event, u64)>,
    now: u64,
    later: u64,
)
    requires
        is_history(events),
        events.len() > 0,
        events.last().0 == Event::Waited(true),
        exposed_since(events) is Some,
        bridge_run(events).expects(Event::Done),
        is_timely(events.push((Event::Done, now))),
        now <= later,
        schedule::instant_in_range(later),
    ensures
        ({
            let step = bridge_run(events).next(Event::Done, now);
            let woken = step.next.next(Event::Waited(false), later).effect;
            &&& step.effect matches Effect::Serve { until, watch_input }
            &&& !watch_input
            &&& until <= now + 500 * MILLISECOND
            &&& later < now + 500 * MILLISECOND ==> !(woken matches Effect::Serve {
                watch_input: true,
                ..
            })
            &&& (schedule::last_moved(marks(events)) matches Some(moved) ==> moved + 2 * SECOND
                <= now) && later >= now + 1 * SECOND ==> woken == Effect::Poll
        }),
{
    let after = events.push((Event::Done, now));
    let start = exposed_since(events)->0;
    assert(after.drop_last() =~= events);
    assert(event_before(after) == Some(events.last().0));
    assert(is_history(after));
    law_bridge_does_what_the_events_ask(events, Event::Done, now);
    lemma_bridge_follows_the_events(events);
    lemma_bridge_follows_the_events(after);
    let before = marks(events);
    assert(marks(after) == before.push(Mark::Motion(now)));
    assert(before.push(Mark::Motion(now)).drop_last() =~= before);
    let again = after.push((Event::Waited(false), later));
    assert(again.drop_last() =~= after);
    assert(again[again.len() - 2] == after.last());
    assert(is_timely(again));
    law_bridge_does_what_the_events_ask(after, Event::Waited(false), later);
    if schedule::last_moved(before) matches Some(moved) ==> moved + 2 * SECOND <= now {
        assert(schedule::began_moving(marks(after)) == Some(now));
        assert(schedule::is_due(start, marks(after), now + 1 * SECOND));
    }
}

} // verus!
