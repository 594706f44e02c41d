use razerd::cli::ColorName;
use razerd::clock::{MILLISECOND, SECOND};
use razerd::watch::{
    safety_note, should_reapply_on_wake, watch_banner, Reason, Watch, WatchAction, WatchEvent,
    WAKE_IDLE_THRESHOLD, WATCH_SAFETY_INTERVAL,
};

const MOVED: WatchEvent = WatchEvent::Input { len: 8 };
const SAFETY: WatchAction = WatchAction::Reapply(Reason::Safety);

#[test]
fn watch_reapplies_only_after_a_real_idle_gap() {
    // Brief pauses in movement must not re-apply.
    assert!(!should_reapply_on_wake(500 * MILLISECOND));
    assert!(!should_reapply_on_wake(
        WAKE_IDLE_THRESHOLD.saturating_sub(MILLISECOND)
    ));
    // A gap at/above the threshold means the mouse slept → re-apply.
    assert!(should_reapply_on_wake(WAKE_IDLE_THRESHOLD));
    assert!(should_reapply_on_wake(120 * SECOND));
}

#[test]
fn a_wake_reapplies_at_once() {
    let mut watch = Watch::new(0);
    let wake = WatchAction::Reapply(Reason::Wake { idle: 5 * SECOND });
    assert_eq!(watch.on_event(MOVED, 5 * SECOND), wake);
    // Moving on is no wake.
    assert_eq!(watch.on_event(MOVED, 5 * SECOND + 1), WatchAction::Nothing);
    assert_eq!(watch.on_event(MOVED, 9 * SECOND), WatchAction::Nothing);
    assert_eq!(
        watch.on_event(MOVED, 20 * SECOND),
        WatchAction::Reapply(Reason::Wake { idle: 11 * SECOND })
    );
}

#[test]
fn an_idle_mouse_costs_nothing() {
    let mut watch = Watch::new(0);
    assert_eq!(watch.deadline(), None);
    assert_eq!(watch.on_event(WatchEvent::TimedOut, 3600 * SECOND), WatchAction::Nothing);
    assert_eq!(
        watch.on_event(WatchEvent::Input { len: 0 }, 3600 * SECOND),
        WatchAction::Nothing
    );
    assert_eq!(watch.deadline(), None);
    assert_eq!(watch.last_input, 0);
}

#[test]
fn a_mouse_put_down_is_refreshed_once() {
    let mut watch = Watch::new(0);
    assert_eq!(watch.on_event(MOVED, SECOND), WatchAction::Nothing);
    assert_eq!(watch.deadline(), Some(SECOND + WATCH_SAFETY_INTERVAL));
    // Not before the interval is over, and once only.
    assert_eq!(watch.on_event(WatchEvent::TimedOut, 60 * SECOND), WatchAction::Nothing);
    assert_eq!(watch.on_event(WatchEvent::TimedOut, 61 * SECOND), SAFETY);
    assert_eq!(watch.on_event(WatchEvent::TimedOut, 122 * SECOND), WatchAction::Nothing);
    assert_eq!(watch.deadline(), None);
}

#[test]
fn a_mouse_in_use_is_refreshed_every_interval() {
    let mut watch = Watch::new(0);
    let mut refreshed = Vec::new();
    for second in 0..200 {
        match watch.on_event(MOVED, second * SECOND) {
            WatchAction::Nothing => (),
            SAFETY => refreshed.push(second),
            WatchAction::Reapply(Reason::Wake { .. }) => panic!("it never slept"),
        }
    }
    assert_eq!(refreshed, vec![60, 120, 180]);
}

#[test]
fn failures_name_the_reapply() {
    assert_eq!(Reason::Safety.context(), "safety re-apply failed");
    assert_eq!(Reason::Wake { idle: 7 }.context(), "wake re-apply failed");
}

#[test]
fn the_watch_tells_what_it_does() {
    assert_eq!(
        watch_banner("/dev/hidraw0", ColorName::Blue),
        "Watching /dev/hidraw0 — holding 'blue', re-applying on wake. Ctrl-C to stop."
    );
    assert_eq!(safety_note(ColorName::Off), "re-applied 'off' (safety refresh)");
}

#[test]
fn a_refresh_is_not_repeated_without_use() {
    let mut watch = Watch::new(0);
    // In use every 4 s; the report at 64 s finds the refresh due.
    for step in 1..16 {
        assert_eq!(watch.on_event(MOVED, step * 4 * SECOND), WatchAction::Nothing);
    }
    assert_eq!(watch.on_event(MOVED, 64 * SECOND), SAFETY);
    // Then silence: the interval ends without a re-apply, and none is begun.
    assert_eq!(watch.deadline(), Some(124 * SECOND));
    assert_eq!(watch.on_event(WatchEvent::TimedOut, 124 * SECOND), WatchAction::Nothing);
    assert_eq!(watch.deadline(), None);
    assert_eq!(watch.on_event(WatchEvent::TimedOut, 3600 * SECOND), WatchAction::Nothing);
}

#[test]
fn a_report_after_a_refresh_brings_the_next_one() {
    let mut watch = Watch::new(0);
    for step in 1..16 {
        watch.on_event(MOVED, step * 4 * SECOND);
    }
    assert_eq!(watch.on_event(MOVED, 64 * SECOND), SAFETY);
    assert_eq!(watch.on_event(MOVED, 65 * SECOND), WatchAction::Nothing);
    assert_eq!(watch.on_event(WatchEvent::TimedOut, 124 * SECOND), SAFETY);
    // A wake is no safety re-apply: the mouse was used.
    let wake = WatchAction::Reapply(Reason::Wake { idle: 135 * SECOND });
    assert_eq!(watch.on_event(MOVED, 200 * SECOND), wake);
    assert_eq!(watch.on_event(WatchEvent::TimedOut, 260 * SECOND), SAFETY);
}
