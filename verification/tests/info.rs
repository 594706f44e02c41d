use razerd::info::{info_lines, print_field, Info, Inquiry};
use razerd::protocol::{set_dpi, set_dpi_stages, REPORT_LEN};
use razerd::uhid::ExposedBattery;

fn bytes(args: &[u8]) -> [u8; REPORT_LEN] {
    let mut reply = [0u8; REPORT_LEN];
    reply[8..8 + args.len()].copy_from_slice(args);
    reply
}

/// Replies as both devices give them, in the order of the questions.
fn replies() -> Vec<[u8; REPORT_LEN]> {
    vec![
        bytes(b"PM2526U28101432"),
        bytes(&[2, 1]),
        bytes(b"PM2516H33301682"),
        bytes(&[1, 0]),
        bytes(&[0, 227]),
        bytes(&[0, 0]),
        set_dpi(0, 1800).request,
        set_dpi_stages(0, 1, &[1800]).request,
        bytes(&[5]),
        bytes(&[4]),
    ]
}

fn report(replies: Vec<Option<[u8; REPORT_LEN]>>, exposed: Option<ExposedBattery>) -> Vec<String> {
    let mut inquiry = Inquiry::new();
    for reply in replies {
        assert!(inquiry.question().is_some());
        inquiry.on_reply(reply);
    }
    assert!(inquiry.question().is_none());
    info_lines("/dev/hidraw0", inquiry.info, exposed)
}

#[test]
fn the_documented_report() {
    let exposed = ExposedBattery {
        path: String::from("/sys/class/power_supply/hid-razerd-battery-2"),
        percent: Some(String::from("89")),
        status: Some(String::from("Discharging")),
    };
    assert_eq!(
        report(replies().into_iter().map(Some).collect(), Some(exposed)),
        vec![
            "Razer Mouse Dock Pro",
            "  Path:     /dev/hidraw0",
            "  Serial:   PM2526U28101432",
            "  Firmware: 2.01",
            "",
            "Razer Basilisk V3 Pro 35K (via Dock)",
            "  Path:     /dev/hidraw0",
            "  Serial:   PM2516H33301682",
            "  Firmware: 1.00",
            "  Battery:  89%",
            "  Charging: no",
            "  DPI:      1800",
            "  Stages:   🔒 off — locked at 1800",
            "  Profile:  4 (blue) of 5",
            "",
            "UPower battery (virtual HID device, via --upower)",
            "  Path:     /sys/class/power_supply/hid-razerd-battery-2",
            "  Level:    89%",
            "  Status:   Discharging",
        ]
    );
}

#[test]
fn a_silent_mouse_is_asked_once() {
    assert_eq!(
        report(vec![None, Some(bytes(&[2, 1])), None], None),
        vec![
            "Razer Mouse Dock Pro",
            "  Path:     /dev/hidraw0",
            "  Serial:   —",
            "  Firmware: 2.01",
            "",
            "Razer Basilisk V3 Pro 35K (via Dock)",
            "  Path:     /dev/hidraw0",
            "  Serial:   —",
            "  Firmware: —",
            "  Battery:  —",
            "  DPI:      —",
            "  Stages:   —",
            "  Profile:  —",
            "",
            "UPower battery (virtual HID device, via --upower)",
            "  Path:     — (not exposed: bridge not running, or mouse silent)",
        ]
    );
}

#[test]
fn a_missed_answer_costs_its_own_field_only() {
    // The mouse answers its serial and then misses everything: a battery or
    // profile question that is missed is not followed by its second half.
    let mut answers: Vec<Option<[u8; REPORT_LEN]>> = replies()[..3].iter().map(|r| Some(*r)).collect();
    answers.extend(vec![None; 5]);
    let lines = report(answers, None);
    assert_eq!(lines[7], "  Serial:   PM2516H33301682");
    assert_eq!(lines[8], "  Firmware: —");
    assert_eq!(lines[9], "  Battery:  —");
    assert_eq!(lines[12], "  Profile:  —");
}

#[test]
fn a_charging_mouse_says_so() {
    let mut answers: Vec<Option<[u8; REPORT_LEN]>> = replies().into_iter().map(Some).collect();
    answers[5] = Some(bytes(&[0, 1]));
    let lines = report(answers, None);
    assert_eq!(lines[10], "  Charging: yes");
}

#[test]
fn the_questions_go_to_the_dock_and_then_to_the_mouse() {
    let mut inquiry = Inquiry::new();
    let mut asked = Vec::new();
    for reply in replies() {
        let question = inquiry.question().unwrap();
        asked.push((question.request[1], question.request[6], question.request[7]));
        inquiry.on_reply(Some(reply));
    }
    assert_eq!(
        asked,
        vec![
            (0xFF, 0x00, 0x82),
            (0xFF, 0x00, 0x81),
            (0x1F, 0x00, 0x82),
            (0x1F, 0x00, 0x81),
            (0x1F, 0x07, 0x80),
            (0x1F, 0x07, 0x84),
            (0x1F, 0x04, 0x85),
            (0x1F, 0x04, 0x86),
            (0x1F, 0x05, 0x80),
            (0x1F, 0x05, 0x84),
        ]
    );
    // Nothing more changes once the report is complete.
    inquiry.on_reply(None);
    assert!(inquiry.question().is_none());
    assert_eq!(inquiry.info.serial.as_deref(), Some("PM2516H33301682"));
}

#[test]
fn fields_line_up() {
    assert_eq!(print_field("DPI", Some(String::from("1800"))), "  DPI:      1800");
    assert_eq!(print_field("Firmware", None), "  Firmware: —");
    assert_eq!(print_field("A long label", Some(String::from("x"))), "  A long label:x");
}

#[test]
fn an_exposed_battery_may_lack_attributes() {
    let info = Info {
        dock_serial: None,
        dock_firmware: None,
        serial: None,
        firmware: None,
        battery: None,
        dpi: Some((1600, 800)),
        stages: None,
        profile: None,
    };
    let exposed = ExposedBattery { path: String::from("/p"), percent: None, status: None };
    let lines = info_lines("/d", info, Some(exposed));
    assert_eq!(lines[10], "  DPI:      1600 / 800");
    assert_eq!(lines[lines.len() - 3..], ["  Path:     /p", "  Level:    —", "  Status:   —"]);
}
