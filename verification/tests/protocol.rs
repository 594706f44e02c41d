use razerd::protocol::{
    build_query, clean_serial, compute_crc, dock_rgb_report, dpi_stages_args, fill_leds,
    format_dpi, mouse_via_dock_rgb_report, parse_battery_percent, parse_dpi_reply,
    parse_dpi_stages, parse_firmware, parse_serial, profile_color_name, query_battery, query_dpi,
    query_dpi_stages, query_firmware, query_profiles, query_serial, serial_bytes, set_dpi,
    set_dpi_stages, slot_name, write_matrix_header, BatteryProgress, BatteryStatus, DpiStages,
    FirmwareVersion, ProfileInfo, ProfileProgress, Rgb, CLASS_DPI, CLASS_EXTENDED_MATRIX,
    CLASS_POWER, CLASS_PROFILE, CMD_GET_BATTERY_LEVEL, CMD_GET_CHARGING, CMD_GET_DPI,
    CMD_SET_DPI, CMD_SET_DPI_STAGES, CMD_SET_MATRIX_EFFECT, DEFAULT_DPI_ACTIVE_STAGE,
    DEFAULT_DPI_STAGES, DOCK_LED_ZONES, DPI_STAGES_DATA_SIZE, LIVESTORE,
    MOUSE_LED_COUNT_MINUS_ONE, MOUSE_LED_DATA_SIZE, MOUSE_LED_ZONES, REPORT_LEN, TX_ID_DOCK,
    TX_ID_MOUSE, VARSTORE,
};

#[test]
fn crc_xors_body_only() {
    let mut bytes = [0u8; REPORT_LEN];
    bytes[0] = 0xAB; // outside the XOR range, ignored
    bytes[1] = 0xCD; // outside the XOR range, ignored
    bytes[2] = 0x12;
    bytes[5] = 0x34;
    bytes[87] = 0x56;
    bytes[88] = 0xFF; // outside the XOR range, ignored
    bytes[89] = 0xEE; // outside the XOR range, ignored
    assert_eq!(compute_crc(&bytes), 0x12 ^ 0x34 ^ 0x56);
}

/// Matches the dock LED command captured live from Razer Synapse on
/// Windows: red (0xC0, 0x00, 0x00) produces CRC 0x16.
#[test]
fn dock_rgb_report_matches_wireshark_capture() {
    let bytes = dock_rgb_report(Rgb::new(0xC0, 0x00, 0x00));
    let expected_prefix = [
        0x00, 0xF7, 0x00, 0x00, 0x00, 0x1D, 0x0F, 0x03, 0x00, 0x00, 0x00, 0x00, 0x07,
    ];
    assert_eq!(&bytes[..expected_prefix.len()], &expected_prefix);
    for i in 0..DOCK_LED_ZONES {
        assert_eq!(bytes[13 + i * 3], 0xC0);
        assert_eq!(bytes[14 + i * 3], 0x00);
        assert_eq!(bytes[15 + i * 3], 0x00);
    }
    assert_eq!(bytes[88], 0x16);
    assert_eq!(bytes[89], 0x00);
}

#[test]
fn mouse_via_dock_rgb_report_structure() {
    let bytes = mouse_via_dock_rgb_report(Rgb::new(0x00, 0x00, 0xC0));
    assert_eq!(bytes[1], TX_ID_MOUSE);
    assert_eq!(bytes[5], MOUSE_LED_DATA_SIZE);
    assert_eq!(bytes[6], CLASS_EXTENDED_MATRIX);
    assert_eq!(bytes[7], CMD_SET_MATRIX_EFFECT);
    assert_eq!(bytes[12], MOUSE_LED_COUNT_MINUS_ONE);
    for i in 0..MOUSE_LED_ZONES {
        assert_eq!(bytes[13 + i * 3], 0x00);
        assert_eq!(bytes[14 + i * 3], 0x00);
        assert_eq!(bytes[15 + i * 3], 0xC0);
    }
    // Zones past MOUSE_LED_ZONES must remain zero.
    assert_eq!(bytes[13 + MOUSE_LED_ZONES * 3], 0x00);
    assert_eq!(bytes[88], compute_crc(&bytes));
}

#[test]
fn build_query_places_fields_correctly() {
    let q = build_query(TX_ID_MOUSE, CLASS_POWER, CMD_GET_BATTERY_LEVEL, 0x02, &[]);
    assert_eq!(q[1], TX_ID_MOUSE);
    assert_eq!(q[5], 0x02);
    assert_eq!(q[6], CLASS_POWER);
    assert_eq!(q[7], CMD_GET_BATTERY_LEVEL);
    assert_eq!(q[88], compute_crc(&q));
}

#[test]
fn build_query_copies_arguments() {
    let q = build_query(
        TX_ID_MOUSE,
        CLASS_DPI,
        CMD_GET_DPI,
        0x07,
        &[0x01, 0x02, 0x03],
    );
    assert_eq!(&q[8..11], &[0x01, 0x02, 0x03]);
}

#[test]
fn battery_percent_scales_0_255_to_0_100() {
    assert_eq!(parse_battery_percent(0), 0);
    assert_eq!(parse_battery_percent(255), 100);
    assert_eq!(parse_battery_percent(127), 49); // integer truncation
}

#[test]
fn parse_serial_strips_trailing_zeros_and_whitespace() {
    let mut resp = [0u8; REPORT_LEN];
    let serial = b"PM2516H33301682";
    resp[8..8 + serial.len()].copy_from_slice(serial);
    // bytes past `serial.len()` stay zero, simulating a zero-terminated C string.
    assert_eq!(parse_serial(&resp), "PM2516H33301682");
}

#[test]
fn parse_serial_handles_non_ascii_gracefully() {
    let mut resp = [0u8; REPORT_LEN];
    resp[8] = 0xFF; // invalid UTF-8 start byte
    resp[9] = b'A';
    // Should not panic; lossy conversion replaces invalid bytes.
    let _ = parse_serial(&resp);
}

#[test]
fn firmware_version_formats_with_zero_padded_minor() {
    let fw = FirmwareVersion { major: 2, minor: 1 };
    assert_eq!(fw.to_string(), "2.01");
}

#[test]
fn set_dpi_query_layout_is_big_endian_both_axes() {
    let q = build_query(
        TX_ID_MOUSE,
        CLASS_DPI,
        CMD_SET_DPI,
        0x07,
        &[VARSTORE, 0x07, 0x08, 0x07, 0x08],
    );
    assert_eq!(q[1], TX_ID_MOUSE);
    assert_eq!(q[5], 0x07);
    assert_eq!(q[6], CLASS_DPI);
    assert_eq!(q[7], CMD_SET_DPI);
    // varstore, then 1800 (0x0708) big-endian on both axes.
    assert_eq!(&q[8..13], &[0x01, 0x07, 0x08, 0x07, 0x08]);
    assert_eq!(q[88], compute_crc(&q));
}

#[test]
fn lock_collapses_stage_table_to_one_entry() {
    // 1800 (0x0708) as the only stage: store, active=1, count=1, then
    // stage index 1 with X/Y big-endian and two reserved bytes.
    let args = dpi_stages_args(VARSTORE, 1, &[1800]);
    assert_eq!(
        args,
        vec![0x01, 0x01, 0x01, 0x01, 0x07, 0x08, 0x07, 0x08, 0x00, 0x00]
    );

    let q = build_query(
        TX_ID_MOUSE,
        CLASS_DPI,
        CMD_SET_DPI_STAGES,
        DPI_STAGES_DATA_SIZE,
        &args,
    );
    assert_eq!(q[5], 0x26);
    assert_eq!(q[6], CLASS_DPI);
    assert_eq!(q[7], CMD_SET_DPI_STAGES);
    assert_eq!(q[88], compute_crc(&q));
}

#[test]
fn unlock_writes_the_default_stage_table() {
    let args = dpi_stages_args(LIVESTORE, DEFAULT_DPI_ACTIVE_STAGE, &DEFAULT_DPI_STAGES);
    assert_eq!(args.len(), DPI_STAGES_DATA_SIZE as usize);
    assert_eq!(&args[..3], &[0x00, 3, 5]); // live slot, stage 3 of 5 active
    // Stage 3 entry: index 3, 1600 (0x0640) on both axes.
    assert_eq!(
        &args[3 + 2 * 7..3 + 3 * 7],
        &[3, 0x06, 0x40, 0x06, 0x40, 0, 0]
    );
    // Stage 5 entry: index 5, 6400 (0x1900).
    assert_eq!(&args[3 + 4 * 7..], &[5, 0x19, 0x00, 0x19, 0x00, 0, 0]);
}

#[test]
fn dpi_stages_display_shows_lock_state() {
    let locked = DpiStages {
        active: 1,
        stages: vec![(1800, 1800)],
    };
    assert_eq!(locked.to_string(), "🔒 off — locked at 1800");

    // Asymmetric axes must not be silently collapsed.
    let asymmetric = DpiStages {
        active: 1,
        stages: vec![(1600, 800)],
    };
    assert_eq!(asymmetric.to_string(), "🔒 off — locked at 1600 / 800");

    let unlocked = DpiStages {
        active: 3,
        stages: vec![
            (400, 400),
            (800, 800),
            (1600, 1600),
            (3200, 3200),
            (6400, 6400),
        ],
    };
    assert_eq!(unlocked.to_string(), "🔄 on — 400/800/[1600]/3200/6400");

    // Defensive arm: a garbled (empty) table renders as the same "absent"
    // marker print_field uses.
    let garbled = DpiStages {
        active: 0,
        stages: vec![],
    };
    assert_eq!(garbled.to_string(), "—");
}

#[test]
fn parse_dpi_stages_mirrors_the_args_layout() {
    // Round-trip: a response whose args are exactly what we would write.
    let mut resp = [0u8; REPORT_LEN];
    resp[8..8 + 3 + 2 * 7].copy_from_slice(&dpi_stages_args(LIVESTORE, 2, &[400, 800]));
    let parsed = parse_dpi_stages(&resp);
    assert_eq!(parsed.active, 2);
    assert_eq!(parsed.stages, vec![(400, 400), (800, 800)]);

    // A garbage count must not read past the 5-entry table.
    resp[10] = 0xFF;
    assert_eq!(parse_dpi_stages(&resp).stages.len(), 5);
}

#[test]
fn profile_info_formats_with_indicator_color() {
    assert_eq!(
        ProfileInfo {
            active: 4,
            count: 5
        }
        .to_string(),
        "4 (blue) of 5"
    );
    assert_eq!(
        ProfileInfo {
            active: 1,
            count: 5
        }
        .to_string(),
        "1 (white) of 5"
    );
    // Unknown slots fall back to the bare number.
    assert_eq!(
        ProfileInfo {
            active: 9,
            count: 5
        }
        .to_string(),
        "9 of 5"
    );
}

#[test]
fn format_dpi_collapses_identical_axes() {
    assert_eq!(format_dpi((1800, 1800)), "1800");
    assert_eq!(format_dpi((1600, 800)), "1600 / 800");
}

#[test]
fn one_changed_byte_changes_the_checksum() {
    let report = dock_rgb_report(Rgb::new(1, 2, 3));
    for i in 2..88 {
        let mut changed = report;
        changed[i] ^= 0x40;
        assert_ne!(compute_crc(&changed), compute_crc(&report));
    }
}

#[test]
fn a_query_has_zeros_behind_its_arguments() {
    let q = build_query(0x1F, 0x04, 0x85, 0x07, &[0xAA]);
    assert_eq!(q[0], 0);
    assert_eq!(&q[2..5], &[0, 0, 0]);
    assert_eq!(q[8], 0xAA);
    assert!(q[9..88].iter().all(|b| *b == 0));
    assert_eq!(q[89], 0);
}

#[test]
fn a_query_can_fill_the_whole_body() {
    let args = [0x5A; 80];
    let q = build_query(1, 2, 3, 4, &args);
    assert_eq!(&q[8..88], &args[..]);
    assert_eq!(q[88], compute_crc(&q));
}

#[test]
fn matrix_header_and_leds_leave_other_bytes_alone() {
    let mut bytes = [0x11u8; REPORT_LEN];
    assert_eq!(write_matrix_header(&mut bytes, 0xAA, 0xBB, 0xCC), 13);
    assert_eq!(bytes[1], 0xAA);
    assert_eq!(bytes[5], 0xBB);
    assert_eq!(bytes[6], 0x0F);
    assert_eq!(bytes[7], 0x03);
    assert_eq!(bytes[12], 0xCC);
    fill_leds(&mut bytes, 84, 2, Rgb::new(1, 2, 3));
    assert_eq!(&bytes[83..], &[0x11, 1, 2, 3, 1, 2, 3]);
}

#[test]
fn color_reports_are_routed_by_size_and_count() {
    let dock = dock_rgb_report(Rgb::new(9, 9, 9));
    let mouse = mouse_via_dock_rgb_report(Rgb::new(9, 9, 9));
    assert_eq!((dock[5], dock[12]), (0x1D, 0x07));
    assert_eq!((mouse[5], mouse[12]), (0x2C, 0x0C));
}

#[test]
fn battery_query_takes_both_answers() {
    let query = query_battery();
    assert_eq!(query.question().request[7], CMD_GET_BATTERY_LEVEL);
    assert_eq!(query.question().context, "battery level query failed");

    let mut level = [0u8; REPORT_LEN];
    level[9] = 227;
    let query = match query.on_reply(Some(level)) {
        BatteryProgress::Ask(query) => query,
        _ => panic!("the charging question must follow"),
    };
    assert_eq!(query.question().request[7], CMD_GET_CHARGING);
    assert_eq!(query.question().context, "charging status query failed");

    let mut charging = [0u8; REPORT_LEN];
    charging[9] = 1;
    match query.on_reply(Some(charging)) {
        BatteryProgress::Done(status) => {
            assert_eq!(status, BatteryStatus { percent: 89, charging: true });
        }
        _ => panic!("both answers are there"),
    }
    assert!(matches!(query.on_reply(None), BatteryProgress::Failed));
    assert!(matches!(query_battery().on_reply(None), BatteryProgress::Failed));
}

#[test]
fn battery_status_shows_charging() {
    let status = BatteryStatus { percent: 89, charging: false };
    assert_eq!(status.to_string(), "89%");
    let status = BatteryStatus { percent: 89, charging: true };
    assert_eq!(status.to_string(), "89% (charging)");
}

#[test]
fn profile_query_takes_both_answers() {
    let query = query_profiles();
    assert_eq!(query.question().request[6], CLASS_PROFILE);
    assert_eq!(query.question().context, "profile count query failed");
    let mut count = [0u8; REPORT_LEN];
    count[8] = 5;
    let query = match query.on_reply(Some(count)) {
        ProfileProgress::Ask(query) => query,
        _ => panic!("the question for the active slot must follow"),
    };
    assert_eq!(query.question().context, "active profile query failed");
    let mut active = [0u8; REPORT_LEN];
    active[8] = 4;
    match query.on_reply(Some(active)) {
        ProfileProgress::Done(profile) => {
            assert_eq!(profile, ProfileInfo { active: 4, count: 5 });
        }
        _ => panic!("both answers are there"),
    }
    assert!(matches!(query.on_reply(None), ProfileProgress::Failed));
}

#[test]
fn profile_colors_name_the_five_slots() {
    let names: Vec<Option<&str>> = (0..7).map(profile_color_name).collect();
    assert_eq!(
        names,
        vec![None, Some("white"), Some("red"), Some("green"), Some("blue"), Some("cyan"), None]
    );
}

#[test]
fn single_questions_carry_their_context() {
    assert_eq!(query_serial(TX_ID_DOCK).request[..8], [0, 0xFF, 0, 0, 0, 0x16, 0x00, 0x82]);
    assert_eq!(query_serial(TX_ID_DOCK).context, "serial query failed");
    assert_eq!(query_firmware(TX_ID_MOUSE).request[..8], [0, 0x1F, 0, 0, 0, 0x02, 0x00, 0x81]);
    assert_eq!(query_firmware(TX_ID_MOUSE).context, "firmware query failed");
    assert_eq!(query_dpi().request[..9], [0, 0x1F, 0, 0, 0, 0x07, 0x04, 0x85, 0x00]);
    assert_eq!(query_dpi().context, "DPI query failed");
    assert_eq!(query_dpi_stages().request[..9], [0, 0x1F, 0, 0, 0, 0x26, 0x04, 0x86, 0x00]);
    assert_eq!(query_dpi_stages().context, "DPI stage table query failed");
}

#[test]
fn writes_name_their_slot() {
    assert_eq!(slot_name(LIVESTORE), "live");
    assert_eq!(slot_name(VARSTORE), "stored");
    let live = set_dpi(LIVESTORE, 1800);
    assert_eq!(&live.request[7..13], &[0x05, 0x00, 0x07, 0x08, 0x07, 0x08]);
    assert_eq!(live.context, "DPI set failed (live slot)");
    let stored = set_dpi_stages(VARSTORE, 1, &[1800]);
    assert_eq!(&stored.request[7..18], &[6, 1, 1, 1, 1, 7, 8, 7, 8, 0, 0]);
    assert_eq!(stored.context, "DPI stage table write failed (stored slot)");
}

#[test]
fn dpi_reply_reads_back_what_a_write_carries() {
    let write = set_dpi(LIVESTORE, 35_000);
    assert_eq!(parse_dpi_reply(&write.request), (35_000, 35_000));
    let mut reply = [0u8; REPORT_LEN];
    reply[9..13].copy_from_slice(&[0x06, 0x40, 0x03, 0x20]);
    assert_eq!(parse_dpi_reply(&reply), (1600, 800));
}

#[test]
fn firmware_reply_is_major_then_minor() {
    let mut reply = [0u8; REPORT_LEN];
    reply[8] = 1;
    reply[9] = 123;
    assert_eq!(parse_firmware(&reply).to_string(), "1.123");
}

#[test]
fn serial_fills_at_most_its_field() {
    let reply = [b'X'; REPORT_LEN];
    assert_eq!(serial_bytes(&reply), vec![b'X'; 22]);
    assert_eq!(parse_serial(&reply), "XXXXXXXXXXXXXXXXXXXXXX");
}

#[test]
fn serial_is_decoded_and_trimmed() {
    let mut reply = [0u8; REPORT_LEN];
    reply[8..14].copy_from_slice(b" AB\t\n ");
    assert_eq!(parse_serial(&reply), "AB");
    // Invalid bytes become replacement characters; valid ones are decoded.
    reply[8..14].copy_from_slice(&[0xFF, b'A', 0xC3, 0xA9, 0x00, b'Z']);
    assert_eq!(parse_serial(&reply), "\u{FFFD}A\u{E9}");
    // Each ill-formed byte here leaves one, and none of them is trimmed away.
    reply[8..14].copy_from_slice(&[b' ', 0xC3, b' ', 0x80, b' ', 0x00]);
    assert_eq!(parse_serial(&reply), "\u{FFFD} \u{FFFD}");
    assert_eq!(clean_serial("\u{3000} a b \u{2028}"), "a b");
    assert_eq!(clean_serial(" \u{85}\u{A0}"), "");
}

#[test]
fn long_stage_tables_wrap_their_counters() {
    let args = dpi_stages_args(0, 0, &[7; 256]);
    assert_eq!(args.len(), 3 + 7 * 256);
    assert_eq!(args[2], 0);
    assert_eq!(args[3 + 7 * 254], 255);
    assert_eq!(args[3 + 7 * 255], 0);
}
