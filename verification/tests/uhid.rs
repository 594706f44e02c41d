use razerd::uhid::{
    identity, read_exposed_battery, BASILISK_V3_PRO_35K_PRODUCT_ID, DEVICE_UNIQ,
    INHERITED_FD_NAME, RAZER_VENDOR_ID,
};

/// The identity is what keeps the power supply named `hid-razerd-battery*`
/// across versions (UPower keys its history on it) — and nothing in it may
/// come from the dock.
#[test]
fn identity_is_constant_and_keeps_the_power_supply_name() {
    let id = identity();
    assert_eq!(id.name, "Razer Basilisk V3 Pro 35K");
    assert_eq!(id.uniq, "razerd");
    assert_eq!((id.vendor, id.product), (0x1532, 0x00CC));
}

#[test]
fn exposed_battery_attributes_are_read_and_trimmed() {
    let dir = String::from("/sys/class/power_supply/hid-razerd-battery-2");
    let capacity = || Some(String::from("56\n"));
    let status = Some(String::from("Discharging\n"));

    let battery = read_exposed_battery(dir.clone(), capacity(), status);
    assert_eq!(battery.path, dir);
    assert_eq!(battery.percent.as_deref(), Some("56"));
    assert_eq!(battery.status.as_deref(), Some("Discharging"));

    // A vanished attribute (battery withdrawn mid-read) is just absent.
    assert_eq!(read_exposed_battery(dir, capacity(), None).status, None);
}

#[test]
fn attributes_keep_their_inner_white_space() {
    let battery = read_exposed_battery(
        String::new(),
        Some(String::from(" \u{2003}a  b\t\r\n")),
        Some(String::from("\n \n")),
    );
    assert_eq!(battery.percent.as_deref(), Some("a  b"));
    assert_eq!(battery.status.as_deref(), Some(""));
}

#[test]
fn the_names_agree_with_the_unit_and_the_identity() {
    assert_eq!(INHERITED_FD_NAME, "uhid");
    assert_eq!(DEVICE_UNIQ, "razerd");
    let id = identity();
    assert_eq!(id.phys, "razerd");
    assert_eq!((id.vendor, id.product), (RAZER_VENDOR_ID, BASILISK_V3_PRO_35K_PRODUCT_ID));
}
