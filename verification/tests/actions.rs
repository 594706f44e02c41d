use razerd::actions::{
    apply_color, battery_line, color_lines, dock_line, mouse_line, sniff_text,
};
use razerd::cli::ColorName;
use razerd::protocol::{dock_rgb_report, mouse_via_dock_rgb_report, BatteryStatus, Rgb};

#[test]
fn a_color_goes_to_the_dock_and_to_the_mouse() {
    let writes = apply_color(ColorName::Red);
    assert_eq!(writes.len(), 2);
    assert_eq!(writes[0].report, dock_rgb_report(Rgb::new(0xC0, 0, 0)));
    assert_eq!(writes[0].context, "failed to set dock color 'red'");
    assert_eq!(writes[1].report, mouse_via_dock_rgb_report(Rgb::new(0xC0, 0, 0)));
    assert_eq!(writes[1].context, "failed to set mouse color 'red'");
    assert_eq!(color_lines(ColorName::White), vec!["✓ Dock: white", "✓ Mouse: white"]);
}

#[test]
fn check_tells_whether_the_mouse_answered() {
    assert_eq!(dock_line("/dev/hidraw0"), "✓ Razer Mouse Dock Pro (/dev/hidraw0) accessible");
    assert_eq!(
        mouse_line(true),
        "✓ Razer Basilisk V3 Pro 35K (via Dock) responding over RF"
    );
    assert_eq!(mouse_line(false), "⚠ Mouse not responding — is it paired and awake?");
}

#[test]
fn battery_is_one_line() {
    let status = |charging| BatteryStatus { percent: 89, charging };
    assert_eq!(battery_line(status(false)), "✓ Battery: 89%");
    assert_eq!(battery_line(status(true)), "✓ Battery: 89% (charging)");
}

#[test]
fn sniffed_reports_are_dumped_in_hexadecimal() {
    assert_eq!(
        sniff_text(&[0, 0, 0, 0, 3, 0, 2, 0]).as_deref(),
        Some("  8 bytes: 00 00 00 00 03 00 02 00")
    );
    assert_eq!(sniff_text(&[0xAB]).as_deref(), Some("  1 bytes: ab"));
    assert_eq!(sniff_text(&[]), None);
    let long = sniff_text(&[0xFF; 256]).unwrap();
    assert!(long.starts_with("256 bytes: ff ff"));
    assert_eq!(long.len(), 11 + 256 * 3 - 1);
}
