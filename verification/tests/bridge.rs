use razerd::bridge::{
    bridge_banner, poll_battery, Bridge, Effect, Ending, Event, Note, PollOutcome, Step,
    BATTERY_ABSENT_RETRY,
};
use razerd::clock::{MILLISECOND, SECOND};
use razerd::protocol::BatteryStatus;

fn status(percent: u8) -> BatteryStatus {
    BatteryStatus { percent, charging: false }
}

fn answered(percent: u8) -> Event {
    Event::Polled(PollOutcome::Answered(status(percent)))
}

const MISSED: Event = Event::Polled(PollOutcome::Unanswered);
const GONE: Event = Event::Polled(PollOutcome::DockGone);

fn serve(until: u64, watch_input: bool) -> Effect {
    Effect::Serve { until, watch_input }
}

/// A bridge that has its handle.
fn opened() -> Step {
    Bridge::start().next.step(Event::Opened(true), 0)
}

/// A bridge that exposed `percent` at second 0 and serves it.
fn exposed(percent: u8) -> Step {
    let step = opened().next.step(answered(percent), 0);
    let step = step.next.step(Event::Done, 0);
    step.next.step(Event::Done, 0)
}

#[test]
fn nothing_is_exposed_before_a_reading() {
    let step = opened();
    assert_eq!((step.effect, step.note), (Effect::Poll, None));
    let step = step.next.step(MISSED, SECOND);
    assert_eq!(step.effect, Effect::AwaitInput { until: SECOND + BATTERY_ABSENT_RETRY });
    // Nothing moved: ask again.
    let step = step.next.step(Event::Waited(false), 11 * SECOND);
    assert_eq!(step.effect, Effect::Poll);
    // The mouse moved: let the link settle, then ask.
    let step = step.next.step(MISSED, 11 * SECOND);
    let step = step.next.step(Event::Waited(true), 12 * SECOND);
    assert_eq!(step.effect, Effect::Settle { span: SECOND });
    let step = step.next.step(Event::Done, 13 * SECOND);
    assert_eq!(step.effect, Effect::Poll);
    // The first reading creates the battery and is announced once it is there.
    let step = step.next.step(answered(89), 13 * SECOND);
    assert_eq!((step.effect, step.note), (Effect::Create(status(89)), None));
    let step = step.next.step(Event::Done, 13 * SECOND);
    assert_eq!((step.effect, step.note), (Effect::Drain, Some(Note::Reading(status(89)))));
    let step = step.next.step(Event::Done, 13 * SECOND);
    assert_eq!((step.effect, step.note), (serve(73 * SECOND, true), None));
}

#[test]
fn readings_are_pushed_and_announced_when_they_change() {
    let step = exposed(89);
    assert_eq!(step.effect, serve(60 * SECOND, true));
    let step = step.next.step(Event::Waited(false), 60 * SECOND);
    assert_eq!(step.effect, Effect::Poll);
    let step = step.next.step(answered(89), 60 * SECOND);
    assert_eq!(step.effect, Effect::Update(status(89)));
    let step = step.next.step(Event::Done, 60 * SECOND);
    assert_eq!((step.effect, step.note), (serve(120 * SECOND, true), None));

    let step = step.next.step(Event::Waited(false), 120 * SECOND);
    let step = step.next.step(answered(88), 120 * SECOND);
    assert_eq!(step.effect, Effect::Update(status(88)));
    let step = step.next.step(Event::Done, 120 * SECOND);
    assert_eq!(step.note, Some(Note::Reading(status(88))));
}

#[test]
fn motion_is_sampled_and_polled_around() {
    let step = exposed(50);
    let step = step.next.step(Event::Waited(true), 10 * SECOND);
    assert_eq!(step.effect, Effect::Drain);
    let step = step.next.step(Event::Done, 10 * SECOND);
    assert_eq!(step.effect, serve(10 * SECOND + 500 * MILLISECOND, false));
    // The mute is over: look at the input again until the poll is due.
    let step = step.next.step(Event::Waited(false), 10 * SECOND + 500 * MILLISECOND);
    assert_eq!(step.effect, serve(11 * SECOND, true));
    let step = step.next.step(Event::Waited(false), 11 * SECOND);
    assert_eq!(step.effect, Effect::Poll);
}

#[test]
fn a_held_silence_withdraws_the_battery() {
    let mut step = exposed(50);
    let mut now = 60 * SECOND;
    // Unanswered at 0, 3, 6 and 9 seconds of silence: the battery stays.
    for _ in 0..4 {
        step = step.next.step(Event::Waited(false), now);
        assert_eq!(step.effect, Effect::Poll);
        step = step.next.step(MISSED, now);
        now += 3 * SECOND;
        assert_eq!((step.effect, step.note), (serve(now, true), None));
    }
    step = step.next.step(Event::Waited(false), now);
    step = step.next.step(MISSED, now);
    assert_eq!((step.effect, step.note), (Effect::Destroy, None));
    step = step.next.step(Event::Done, now);
    assert_eq!((step.effect, step.note), (Effect::Poll, Some(Note::Withdrawn)));
    // It comes back with the next reading.
    step = step.next.step(answered(49), now);
    assert_eq!(step.effect, Effect::Create(status(49)));
}

#[test]
fn an_answer_ends_a_silence() {
    let mut step = exposed(50);
    for (now, event) in [
        (60 * SECOND, MISSED),
        (63 * SECOND, MISSED),
        (66 * SECOND, answered(50)),
    ] {
        step = step.next.step(Event::Waited(false), now);
        step = step.next.step(event, now);
    }
    step = step.next.step(Event::Done, 66 * SECOND);
    // Ten seconds after the first miss, but the silence began anew.
    step = step.next.step(Event::Waited(false), 126 * SECOND);
    step = step.next.step(MISSED, 126 * SECOND);
    assert_eq!(step.effect, serve(129 * SECOND, true));
}

#[test]
fn the_bridge_stops_when_the_dock_is_gone() {
    assert_eq!(opened().next.step(GONE, 0).effect, Effect::Stop(Ending::DockGone));
    let step = exposed(50).next.step(Event::Waited(false), 60 * SECOND);
    assert_eq!(step.next.step(GONE, 60 * SECOND).effect, Effect::Stop(Ending::DockGone));
}

#[test]
fn the_bridge_wants_its_handle_before_anything_else() {
    let step = Bridge::start();
    assert_eq!((step.effect, step.note), (Effect::Open, None));
    let refused = step.next.step(Event::Opened(false), 0);
    assert_eq!(refused.effect, Effect::Stop(Ending::NoHandle));
}

#[test]
fn one_battery_exists_at_a_time() {
    // A mouse that answers three polls and misses five, over and over.
    let mut step = opened();
    let mut now = 0;
    let mut batteries = 0;
    let mut created = 0;
    let mut polls = 0;
    while created < 4 {
        let event = match step.effect {
            Effect::Poll => {
                polls += 1;
                if polls % 8 < 3 { answered(50) } else { MISSED }
            }
            Effect::AwaitInput { until } | Effect::Serve { until, .. } => {
                now = until;
                Event::Waited(false)
            }
            Effect::Create(_) => {
                assert_eq!(batteries, 0);
                batteries = 1;
                created += 1;
                Event::Done
            }
            Effect::Destroy => {
                assert_eq!(batteries, 1);
                batteries = 0;
                Event::Done
            }
            _ => Event::Done,
        };
        step = step.next.step(event, now);
    }
}

#[test]
fn a_failed_query_is_a_miss_or_a_lost_dock() {
    assert_eq!(poll_battery(Some(status(3)), false), PollOutcome::Answered(status(3)));
    assert_eq!(poll_battery(None, false), PollOutcome::Unanswered);
    assert_eq!(poll_battery(None, true), PollOutcome::DockGone);
}

#[test]
fn the_bridge_tells_what_it_does() {
    assert_eq!(
        bridge_banner("/dev/hidraw0"),
        "Bridging the mouse battery from /dev/hidraw0 to UPower — waiting for a first reading."
    );
    let charging = BatteryStatus { percent: 7, charging: true };
    assert_eq!(Note::Reading(charging).to_string(), "battery: 7% (charging)");
    assert_eq!(
        Note::Withdrawn.to_string(),
        "battery withdrawn — mouse silent for 10 s (asleep, off or out of range)"
    );
}
