use razerd::clock::MILLISECOND;
use razerd::hid::{
    classify_response_status, feature_buffer, feature_payload, find_hidraw, hidioc_get_feature,
    hidioc_set_feature, hidraw_interface_number, Exchange, ExchangeError, ExchangeStep,
    HidrawNode, ResponseStatus, DOCK_INTERFACE, MOUSE_DOCK_PRO_PRODUCT_ID, RAZER_VENDOR_ID,
    RESPONSE_TIMEOUT, STATUS_BUSY, STATUS_NEW, STATUS_OK,
};
use razerd::protocol::{dock_rgb_report, query_dpi, Rgb, REPORT_LEN};

#[test]
fn classify_response_status_maps_codes() {
    assert_eq!(classify_response_status(STATUS_OK), ResponseStatus::Ready);
    assert_eq!(
        classify_response_status(STATUS_NEW),
        ResponseStatus::Pending
    );
    assert_eq!(
        classify_response_status(STATUS_BUSY),
        ResponseStatus::Pending
    );
    // 0x03 failure, 0x04 no-response, 0x05 unsupported — all terminal.
    assert_eq!(classify_response_status(0x03), ResponseStatus::Failed(0x03));
    assert_eq!(classify_response_status(0x05), ResponseStatus::Failed(0x05));
}

/// Regression test: HIDIOCSFEATURE for a 91-byte buffer must match what
/// the Linux kernel expects (`_IOC(_IOC_WRITE|_IOC_READ, 'H', 0x06, 91)`).
#[test]
fn hidioc_codes_match_kernel_encoding() {
    assert_eq!(hidioc_set_feature(91), 0xC05B_4806);
    assert_eq!(hidioc_get_feature(91), 0xC05B_4807);
}

#[test]
fn feature_frames_carry_report_id_zero() {
    let report = dock_rgb_report(Rgb::new(1, 2, 3));
    let buf = feature_buffer(&report);
    assert_eq!(buf[0], 0);
    assert_eq!(buf[1..], report[..]);
    assert_eq!(feature_payload(&buf), report);
}

fn reply(request: &[u8; REPORT_LEN], status: u8) -> [u8; REPORT_LEN] {
    let mut reply = *request;
    reply[0] = status;
    reply[9] = 0x77;
    reply
}

#[test]
fn exchange_returns_its_own_completed_reply() {
    let request = query_dpi().request;
    let exchange = Exchange::begin(request, 1000);
    assert_eq!(exchange.deadline, 1000 + 100 * MILLISECOND);
    let ready = reply(&request, STATUS_OK);
    for now in [0, exchange.deadline, exchange.deadline + 1] {
        match exchange.on_response(&ready, now) {
            ExchangeStep::Answered(payload) => assert_eq!(payload, ready),
            _ => panic!("a completed reply settles the exchange"),
        }
    }
}

#[test]
fn exchange_polls_on_until_its_deadline() {
    let request = query_dpi().request;
    let exchange = Exchange::begin(request, 0);
    let foreign = reply(&dock_rgb_report(Rgb::new(0, 0, 0)), STATUS_OK);
    for pending in [reply(&request, STATUS_NEW), reply(&request, STATUS_BUSY), foreign] {
        assert!(matches!(
            exchange.on_response(&pending, RESPONSE_TIMEOUT - 1),
            ExchangeStep::Poll
        ));
    }
    assert!(matches!(
        exchange.on_response(&reply(&request, STATUS_BUSY), RESPONSE_TIMEOUT),
        ExchangeStep::Failed(ExchangeError::Unanswered)
    ));
    assert!(matches!(
        exchange.on_response(&foreign, RESPONSE_TIMEOUT),
        ExchangeStep::Failed(ExchangeError::Foreign)
    ));
}

#[test]
fn exchange_reports_an_error_status_at_once() {
    let request = query_dpi().request;
    let exchange = Exchange::begin(request, 0);
    for now in [0, RESPONSE_TIMEOUT] {
        assert!(matches!(
            exchange.on_response(&reply(&request, 0x03), now),
            ExchangeStep::Failed(ExchangeError::Status(0x03))
        ));
    }
}

#[test]
fn exchange_compares_each_header_byte() {
    let request = query_dpi().request;
    let exchange = Exchange::begin(request, 0);
    for i in 5..8 {
        let mut other = reply(&request, STATUS_OK);
        other[i] ^= 1;
        assert!(matches!(exchange.on_response(&other, 0), ExchangeStep::Poll));
    }
    // The transaction id and the arguments are not part of the echo.
    let mut same = reply(&request, STATUS_OK);
    same[1] ^= 1;
    same[8] ^= 1;
    assert!(matches!(exchange.on_response(&same, 0), ExchangeStep::Answered(_)));
}

#[test]
fn exchange_errors_read_well() {
    assert_eq!(ExchangeError::Status(0x04).to_string(), "device returned error status 0x04");
    assert_eq!(ExchangeError::Status(0xAB).to_string(), "device returned error status 0xab");
    assert_eq!(ExchangeError::Unanswered.to_string(), "device did not answer within 100ms");
    assert_eq!(
        ExchangeError::Foreign.to_string(),
        "response belongs to another request (is another razerd instance running?)"
    );
}

#[test]
fn interface_number_stands_behind_the_last_dot() {
    assert_eq!(hidraw_interface_number("3-2:1.0"), Some(0));
    assert_eq!(hidraw_interface_number("3-2.4:1.2"), Some(2));
    assert_eq!(hidraw_interface_number("1.255"), Some(255));
    assert_eq!(hidraw_interface_number("1.+7"), Some(7));
    assert_eq!(hidraw_interface_number("1.256"), None);
    assert_eq!(hidraw_interface_number("1."), None);
    assert_eq!(hidraw_interface_number("1.+"), None);
    assert_eq!(hidraw_interface_number("1.x"), None);
    assert_eq!(hidraw_interface_number("usb3"), None);
    assert_eq!(hidraw_interface_number(""), None);
}

fn node(name: &str, uevent: Option<&str>, usb_dir: Option<&str>) -> HidrawNode {
    HidrawNode {
        name: name.as_bytes().to_vec(),
        uevent: uevent.map(String::from),
        usb_dir: usb_dir.map(String::from),
    }
}

#[test]
fn the_dock_is_found_by_id_and_interface() {
    let dock = Some("DRIVER=hid-generic\nHID_ID=0003:00001532:000000A4\nHID_NAME=Razer\n");
    let other = Some("HID_ID=0003:00001532:000000CC\n");
    let nodes = vec![
        node("hidraw0", None, Some("3-2:1.0")),
        node("hidraw1", other, Some("3-2:1.0")),
        node("hidraw2", dock, Some("3-2:1.2")),
        node("hidraw3", dock, None),
        node("hidraw5", dock, Some("3-2:1.0")),
        node("hidraw4", dock, Some("3-2:1.0")),
        node("hidraw10", dock, Some("3-2:1.1")),
    ];
    let find = |interface| {
        find_hidraw(RAZER_VENDOR_ID, MOUSE_DOCK_PRO_PRODUCT_ID, interface, &nodes)
    };
    // Of the two that fit, the one whose name sorts first.
    assert_eq!(find(DOCK_INTERFACE), Ok(5));
    assert_eq!(find(2), Ok(2));
    assert_eq!(find(1), Ok(6));
    assert_eq!(
        find(7),
        Err(String::from("no hidraw for 1532:00a4 interface 7 — device not connected?"))
    );
}

#[test]
fn node_names_sort_byte_by_byte() {
    let dock = Some("HID_ID=0003:00001532:000000A4");
    let nodes = vec![
        node("hidraw9", dock, Some("1.0")),
        node("hidraw10", dock, Some("1.0")),
        node("hidraw1", dock, Some("1.0")),
    ];
    assert_eq!(find_hidraw(0x1532, 0x00A4, 0, &nodes), Ok(2));
    assert_eq!(find_hidraw(0x1532, 0x00A4, 0, &nodes[..2].iter().map(|n| HidrawNode {
        name: n.name.clone(),
        uevent: n.uevent.clone(),
        usb_dir: n.usb_dir.clone(),
    }).collect()), Ok(1));
    assert!(find_hidraw(0x1532, 0x00A4, 0, &Vec::new()).is_err());
}
