use razerd::protocol::{
    parse_dpi_stages, query_dpi, set_dpi, set_dpi_stages, DEFAULT_DPI_STAGES, LIVESTORE,
    REPORT_LEN, VARSTORE,
};
use razerd::sensitivity::{
    report_lines, run_sensitivity, run_sensitivity_stages, Change, Goal, Progress,
};

fn dpi_reply(x: u16, y: u16) -> [u8; REPORT_LEN] {
    let mut reply = [0u8; REPORT_LEN];
    reply[9..11].copy_from_slice(&x.to_be_bytes());
    reply[11..13].copy_from_slice(&y.to_be_bytes());
    reply
}

/// Runs a change against a mouse that runs at `dpi`: the requests made and the
/// lines said.
fn run(mut change: Change, dpi: (u16, u16)) -> (Vec<[u8; REPORT_LEN]>, Vec<String>) {
    let mut requests = Vec::new();
    let mut said = Vec::new();
    loop {
        requests.push(change.question().request);
        match change.on_reply(Some(dpi_reply(dpi.0, dpi.1))) {
            Progress::Ask { change: next, lines } => {
                said.extend(lines);
                change = next;
            }
            Progress::Done { lines } => {
                said.extend(lines);
                return (requests, said);
            }
            Progress::Failed => panic!("every exchange was answered"),
        }
    }
}

#[test]
fn a_value_is_pinned_in_both_slots_and_read_back() {
    let (requests, said) = run(run_sensitivity(1800), (1800, 1800));
    assert_eq!(
        requests,
        vec![
            set_dpi_stages(LIVESTORE, 1, &[1800]).request,
            set_dpi_stages(VARSTORE, 1, &[1800]).request,
            set_dpi(LIVESTORE, 1800).request,
            set_dpi(VARSTORE, 1800).request,
            query_dpi().request,
        ]
    );
    assert_eq!(
        said,
        vec!["✓ DPI: 1800 (stages off — Cycle Up Sensitivity Stages button disabled)"]
    );
}

#[test]
fn an_adjusted_value_is_reported() {
    let (_, said) = run(run_sensitivity(1825), (1800, 1850));
    assert_eq!(
        said,
        vec![
            "✓ DPI: 1800 / 1850 (stages off — Cycle Up Sensitivity Stages button disabled)",
            "⚠ requested 1825, firmware adjusted it",
        ]
    );
    assert_eq!(report_lines(Goal::Pin(800), (800, 801)).len(), 2);
    assert_eq!(report_lines(Goal::Pin(800), (801, 800)).len(), 2);
    assert_eq!(report_lines(Goal::Pin(800), (800, 800)).len(), 1);
}

#[test]
fn stages_on_installs_the_default_table() {
    let (requests, said) = run(run_sensitivity_stages(true), (1600, 1600));
    assert_eq!(requests.len(), 5);
    assert_eq!(requests[0], set_dpi_stages(LIVESTORE, 3, &DEFAULT_DPI_STAGES).request);
    assert_eq!(requests[1], set_dpi_stages(VARSTORE, 3, &DEFAULT_DPI_STAGES).request);
    assert_eq!(requests[3], set_dpi(VARSTORE, 1600).request);
    assert_eq!(
        said,
        vec!["✓ DPI: 1600 (stages on — Cycle Up Sensitivity Stages button cycles 400/800/1600/3200/6400)"]
    );
}

#[test]
fn stages_off_freezes_the_current_value() {
    let (requests, said) = run(run_sensitivity_stages(false), (1200, 1200));
    assert_eq!(requests.len(), 6);
    assert_eq!(requests[0], query_dpi().request);
    assert_eq!(requests[1], set_dpi_stages(LIVESTORE, 1, &[1200]).request);
    assert_eq!(said.len(), 1);

    let (requests, said) = run(run_sensitivity_stages(false), (1600, 800));
    assert_eq!(requests[3], set_dpi(LIVESTORE, 1600).request);
    assert_eq!(
        said,
        vec![
            "⚠ axes differ (1600 / 800) — freezing both at 1600",
            "✓ DPI: 1600 / 800 (stages off — Cycle Up Sensitivity Stages button disabled)",
            "⚠ requested 1600, firmware adjusted it",
        ]
    );
}

#[test]
fn the_first_failed_exchange_ends_a_change() {
    let mut change = run_sensitivity_stages(false);
    let mut failures = Vec::new();
    for _ in 0..6 {
        let question = change.question();
        failures.push((question.context, change.purpose()));
        assert!(matches!(change.on_reply(None), Progress::Failed));
        if let Progress::Ask { change: next, .. } = change.on_reply(Some(dpi_reply(400, 400))) {
            change = next;
        }
    }
    let text = |s: &str| String::from(s);
    assert_eq!(
        failures,
        vec![
            (text("DPI query failed"), Some("DPI query failed")),
            (text("DPI stage table write failed (live slot)"), None),
            (text("DPI stage table write failed (stored slot)"), None),
            (text("DPI set failed (live slot)"), None),
            (text("DPI set failed (stored slot)"), None),
            (text("DPI query failed"), Some("DPI readback failed")),
        ]
    );
}

#[test]
fn a_pinned_table_shows_the_lock() {
    let written = set_dpi_stages(VARSTORE, 1, &[1800]).request;
    assert_eq!(parse_dpi_stages(&written).to_string(), "🔒 off — locked at 1800");
}
