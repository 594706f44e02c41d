use razerd::clock::{MILLISECOND, SECOND};
use razerd::schedule::{
    should_withdraw_battery, PollSchedule, BATTERY_MOTION_START_DELAY, BATTERY_REFRESH_INTERVAL,
    BATTERY_REST_DELAYS, BATTERY_UNANSWERED_RETRY, BATTERY_WITHDRAW_AFTER, MOTION_GAP,
    MOTION_SAMPLE_INTERVAL,
};

/// An arbitrary moment.
const START: u64 = 12_345 * SECOND;

#[test]
fn schedule_without_motion_is_the_slow_refresh() {
    let t0 = START;
    let mut schedule = PollSchedule::new(t0);
    assert_eq!(schedule.next_poll_at(), t0 + BATTERY_REFRESH_INTERVAL);
    assert!(schedule.watches_input(t0));

    let t1 = t0 + BATTERY_REFRESH_INTERVAL;
    schedule.on_polled(t1, true);
    assert_eq!(schedule.next_poll_at(), t1 + BATTERY_REFRESH_INTERVAL);
}

#[test]
fn schedule_polls_after_motion_starts_then_twice_at_rest() {
    let t0 = START;
    let mut schedule = PollSchedule::new(t0);

    // Lifted off the dock: one poll shortly after the movement starts.
    schedule.on_motion(t0);
    assert_eq!(schedule.next_poll_at(), t0 + BATTERY_MOTION_START_DELAY);

    // Still moving half a second later: same movement, no new start poll,
    // and the rest polls slide with the last motion.
    let t1 = t0 + MOTION_SAMPLE_INTERVAL;
    schedule.on_motion(t1);
    assert_eq!(schedule.next_poll_at(), t0 + BATTERY_MOTION_START_DELAY);
    schedule.on_polled(t0 + BATTERY_MOTION_START_DELAY, true);
    assert_eq!(schedule.next_poll_at(), t1 + BATTERY_REST_DELAYS[0]);

    // Put down (docked): first rest poll, then the late confirmation…
    schedule.on_polled(t1 + BATTERY_REST_DELAYS[0], true);
    assert_eq!(schedule.next_poll_at(), t1 + BATTERY_REST_DELAYS[1]);
    // …then back to the slow refresh until it moves again.
    let t2 = t1 + BATTERY_REST_DELAYS[1];
    schedule.on_polled(t2, true);
    assert_eq!(schedule.next_poll_at(), t2 + BATTERY_REFRESH_INTERVAL);

    // A new movement after a real pause starts the cycle over.
    let t3 = t2 + MOTION_GAP;
    schedule.on_motion(t3);
    assert_eq!(schedule.next_poll_at(), t3 + BATTERY_MOTION_START_DELAY);
}

#[test]
fn schedule_samples_the_input_stream_instead_of_following_it() {
    let t0 = START;
    let mut schedule = PollSchedule::new(t0);
    schedule.on_motion(t0);

    // Muted right after a sample: wake up to look again, not per report.
    assert!(!schedule.watches_input(t0));
    assert_eq!(schedule.next_wakeup(t0), t0 + MOTION_SAMPLE_INTERVAL);
    let t1 = t0 + MOTION_SAMPLE_INTERVAL;
    assert!(schedule.watches_input(t1));
    assert_eq!(schedule.next_wakeup(t1), schedule.next_poll_at());
}

#[test]
fn a_late_poll_covers_every_rest_delay_already_elapsed() {
    let t0 = START;
    let mut schedule = PollSchedule::new(t0);
    schedule.on_motion(t0);
    // One poll long after the mouse came to rest: nothing left to confirm.
    let late = t0 + BATTERY_REST_DELAYS[1] + SECOND;
    schedule.on_polled(late, true);
    assert_eq!(schedule.next_poll_at(), late + BATTERY_REFRESH_INTERVAL);
}

#[test]
fn battery_survives_lost_polls_but_not_a_held_silence() {
    // The first failed poll, and the retries right after it, keep the battery.
    assert!(!should_withdraw_battery(0));
    assert!(!should_withdraw_battery(BATTERY_UNANSWERED_RETRY * 2));
    assert!(!should_withdraw_battery(
        BATTERY_WITHDRAW_AFTER.saturating_sub(MILLISECOND)
    ));
    assert!(should_withdraw_battery(BATTERY_WITHDRAW_AFTER));
    assert!(should_withdraw_battery(3600 * SECOND));
    // The silence is measured from the first failure, so it takes several
    // retries — never a single one — to get there.
    assert!(BATTERY_WITHDRAW_AFTER >= BATTERY_UNANSWERED_RETRY * 3);
}

#[test]
fn schedule_retries_quickly_while_the_mouse_is_silent() {
    let t0 = START;
    let mut schedule = PollSchedule::new(t0);

    // An unanswered poll is retried shortly, not a refresh interval later…
    let t1 = t0 + BATTERY_REFRESH_INTERVAL;
    schedule.on_polled(t1, false);
    assert_eq!(schedule.next_poll_at(), t1 + BATTERY_UNANSWERED_RETRY);
    let t2 = t1 + BATTERY_UNANSWERED_RETRY;
    schedule.on_polled(t2, false);
    assert_eq!(schedule.next_poll_at(), t2 + BATTERY_UNANSWERED_RETRY);

    // …and an answer drops back to the slow cadence.
    let t3 = t2 + BATTERY_UNANSWERED_RETRY;
    schedule.on_polled(t3, true);
    assert_eq!(schedule.next_poll_at(), t3 + BATTERY_REFRESH_INTERVAL);
}

#[test]
fn the_cadences_are_the_documented_ones() {
    assert_eq!(BATTERY_REFRESH_INTERVAL, 60_000_000_000);
    assert_eq!(BATTERY_MOTION_START_DELAY, 1_000_000_000);
    assert_eq!(BATTERY_REST_DELAYS, [2_000_000_000, 8_000_000_000]);
    assert_eq!(MOTION_GAP, 2_000_000_000);
    assert_eq!(MOTION_SAMPLE_INTERVAL, 500_000_000);
    assert_eq!(BATTERY_UNANSWERED_RETRY, 3_000_000_000);
    assert_eq!(BATTERY_WITHDRAW_AFTER, 10_000_000_000);
}

#[test]
fn motion_never_postpones_the_refresh() {
    let mut schedule = PollSchedule::new(0);
    for step in 0..200 {
        schedule.on_motion(step * MOTION_SAMPLE_INTERVAL);
        assert!(schedule.next_poll_at() <= BATTERY_REFRESH_INTERVAL);
    }
}

#[test]
fn a_short_pause_is_the_same_movement() {
    let mut schedule = PollSchedule::new(0);
    schedule.on_motion(0);
    schedule.on_polled(SECOND, true);
    // Just short of a pause: no new start poll, only the rest polls slide.
    schedule.on_motion(MOTION_GAP - 1);
    assert_eq!(schedule.next_poll_at(), MOTION_GAP - 1 + BATTERY_REST_DELAYS[0]);
    // A clock that runs backwards is no pause either.
    schedule.on_motion(0);
    assert_eq!(schedule.motion_start_at, None);
}

#[test]
fn an_unanswered_poll_keeps_the_rest_polls() {
    let mut schedule = PollSchedule::new(0);
    schedule.on_motion(0);
    schedule.on_polled(BATTERY_MOTION_START_DELAY, false);
    // The rest poll at 2 s comes before the retry at 4 s.
    assert_eq!(schedule.next_poll_at(), BATTERY_REST_DELAYS[0]);
    schedule.on_polled(BATTERY_REST_DELAYS[0], false);
    assert_eq!(
        schedule.next_poll_at(),
        BATTERY_REST_DELAYS[0] + BATTERY_UNANSWERED_RETRY
    );
}

#[test]
fn a_poll_may_come_before_the_end_of_the_mute() {
    let mut schedule = PollSchedule::new(0);
    schedule.on_motion(0);
    schedule.on_motion(BATTERY_MOTION_START_DELAY - 1);
    assert_eq!(
        schedule.next_wakeup(BATTERY_MOTION_START_DELAY - 1),
        BATTERY_MOTION_START_DELAY
    );
}

#[test]
fn a_long_movement_does_not_push_its_start_poll_back() {
    let mut schedule = PollSchedule::new(0);
    schedule.on_motion(SECOND);
    for sample in 1..40 {
        schedule.on_motion(SECOND + sample * (MOTION_GAP - 1));
        assert_eq!(schedule.next_poll_at(), SECOND + BATTERY_MOTION_START_DELAY);
    }
}
