use razerd::cli::{parse_dpi, Action, Cli, ColorName, Usage};
use razerd::protocol::Rgb;

fn parse(args: &[&str]) -> Result<Cli, Usage> {
    Cli::try_parse_from(args.iter().map(|s| String::from(*s)).collect())
}

#[test]
fn color_name_rgb_table() {
    assert_eq!(ColorName::Red.rgb(), Rgb::new(0xC0, 0x00, 0x00));
    assert_eq!(ColorName::Green.rgb(), Rgb::new(0x00, 0xC0, 0x00));
    assert_eq!(ColorName::Blue.rgb(), Rgb::new(0x00, 0x00, 0xC0));
    assert_eq!(ColorName::White.rgb(), Rgb::new(0xFF, 0xFF, 0xFF));
    assert_eq!(ColorName::Off.rgb(), Rgb::new(0x00, 0x00, 0x00));
}

#[test]
fn parse_dpi_accepts_in_range_values() {
    assert_eq!(parse_dpi("1800").unwrap(), 1800);
    assert_eq!(parse_dpi("100").unwrap(), 100);
    assert_eq!(parse_dpi("35000").unwrap(), 35000);
}

#[test]
fn parse_dpi_rejects_out_of_range_and_garbage() {
    assert!(parse_dpi("99").is_err());
    assert!(parse_dpi("35001").is_err());
    assert!(parse_dpi("0").is_err());
    assert!(parse_dpi("fast").is_err());
    assert!(parse_dpi("-100").is_err());
    assert!(parse_dpi("1600x800").is_err());
}

#[test]
fn cli_requires_exactly_one_action_flag() {
    // Zero flags, two booleans, two valued flags: all rejected by clap.
    assert!(parse(&["razerd"]).is_err());
    assert!(parse(&["razerd", "--check", "--battery"]).is_err());
    assert!(
        parse(&[
            "razerd",
            "--sensitivity",
            "1800",
            "--sensitivity-stages",
            "on"
        ])
        .is_err()
    );
}

#[test]
fn cli_maps_flags_to_actions() {
    let action = |args: &[&str]| parse(args).unwrap().action();
    assert!(matches!(action(&["razerd", "--check"]), Action::Check));
    assert!(matches!(
        action(&["razerd", "--color", "blue"]),
        Action::Color(ColorName::Blue)
    ));
    assert!(matches!(
        action(&["razerd", "--sensitivity", "1800"]),
        Action::Sensitivity(1800)
    ));
    // --dpi is a visible alias of --sensitivity.
    assert!(matches!(
        action(&["razerd", "--dpi", "1800"]),
        Action::Sensitivity(1800)
    ));
    assert!(matches!(
        action(&["razerd", "--sensitivity-stages", "on"]),
        Action::SensitivityStages(true)
    ));
    // BoolishValueParser also takes off/false/no, case-insensitively.
    assert!(matches!(
        action(&["razerd", "--sensitivity-stages", "OFF"]),
        Action::SensitivityStages(false)
    ));
}

#[test]
fn every_flag_has_its_action() {
    let action = |args: &[&str]| parse(args).unwrap().action();
    assert_eq!(action(&["razerd", "--battery"]), Action::Battery);
    assert_eq!(action(&["razerd", "--info"]), Action::Info);
    assert_eq!(action(&["razerd", "--sniff"]), Action::Sniff);
    assert_eq!(action(&["razerd", "--upower"]), Action::Upower);
    assert_eq!(action(&["razerd", "--watch=off"]), Action::Watch(ColorName::Off));
    assert_eq!(action(&["razerd", "--color=white"]), Action::Color(ColorName::White));
}

#[test]
fn parsed_command_lines_set_one_flag() {
    let cli = parse(&["razerd", "--watch", "green"]).unwrap();
    assert_eq!(cli.watch, Some(ColorName::Green));
    assert!(!cli.check && !cli.battery && !cli.info && !cli.sniff && !cli.upower);
    assert_eq!((cli.color, cli.sensitivity, cli.sensitivity_stages), (None, None, None));
}

#[test]
fn refused_command_lines_are_usage_errors() {
    for args in [
        &["razerd"][..],
        &["razerd", "--nope"],
        &["razerd", "--color"],
        &["razerd", "extra", "--check"],
        &["razerd", "--check", "--check"],
        &["razerd", "--check=yes"],
    ] {
        match parse(args) {
            Err(usage) => {
                assert_eq!(usage.exit_code, 2);
                assert!(usage.message.starts_with("error:"));
            }
            _ => panic!("must be refused"),
        }
    }
}

#[test]
fn help_and_version_leave_with_success() {
    for (flag, part) in [("--help", "--sensitivity-stages"), ("--version", "razerd 0.10.0")] {
        match parse(&["razerd", flag]) {
            Err(usage) => {
                assert_eq!(usage.exit_code, 0);
                assert!(usage.message.contains(part));
            }
            _ => panic!("must be answered with a text"),
        }
    }
}

fn refusal(args: &[&str]) -> String {
    match parse(args) {
        Err(usage) => {
            assert_eq!(usage.exit_code, 2);
            usage.message
        }
        Ok(_) => panic!("must be refused"),
    }
}

#[test]
fn possible_values_are_listed() {
    let colors = "\n  [possible values: red, green, blue, white, off]\n";
    let message = refusal(&["razerd", "--color", "Blue"]);
    assert!(message.starts_with("error: invalid value 'Blue' for '--color <COLOR>'\n"));
    assert!(message.contains(colors));
    // A near miss is pointed out, a missing value lists the colors too.
    assert!(refusal(&["razerd", "--watch", "gren"]).contains("a similar value exists: 'green'"));
    assert!(refusal(&["razerd", "--watch"]).contains(colors));
    assert!(refusal(&["razerd", "--sensitivity-stages"]).contains("[possible values: true, false]"));
}

#[test]
fn help_lists_the_flags_in_order_with_their_values() {
    let help = match parse(&["razerd", "--help"]) {
        Err(usage) => usage.message,
        Ok(_) => panic!("the help is no action"),
    };
    assert!(help.contains("Usage: razerd <--check|--color <COLOR>|--battery|--info|--sniff|--watch <COLOR>|--upower|--sensitivity <DPI>|--sensitivity-stages <on|off>>"));
    assert_eq!(help.matches("[possible values: red, green, blue, white, off]").count(), 2);
    assert_eq!(help.matches("[possible values: true, false]").count(), 1);
    assert!(help.contains("[alias: --dpi]"));
    let places: Vec<usize> = [
        "  --check", "  --color <COLOR>", "  --battery", "  --info", "  --sniff",
        "  --watch <COLOR>", "  --upower", "  --sensitivity <DPI>", "  --sensitivity-stages <on|off>",
    ]
    .iter()
    .map(|flag| help.find(flag).unwrap())
    .collect();
    assert!(places.windows(2).all(|pair| pair[0] < pair[1]));
}

#[test]
fn two_flags_are_refused_and_so_is_one_given_twice() {
    for args in [
        &["razerd", "--check", "--upower"][..],
        &["razerd", "--color", "red", "--watch", "red"],
        &["razerd", "--color", "red", "--color", "red"],
        &["razerd", "--info", "--dpi", "800"],
        &["razerd", "--dpi", "800", "--sensitivity", "800"],
        &["razerd", "--", "--check"],
        &["razerd", "--color", "--", "red"],
        &["razerd", "--che"],
    ] {
        assert!(refusal(args).starts_with("error:"));
    }
}

#[test]
fn values_may_be_attached() {
    assert_eq!(parse(&["razerd", "--dpi=+800"]).unwrap().action(), Action::Sensitivity(800));
    assert_eq!(
        parse(&["razerd", "--sensitivity-stages=No"]).unwrap().action(),
        Action::SensitivityStages(false)
    );
}

#[test]
fn a_refused_value_refuses_the_command_line() {
    for (flag, value, part) in [
        ("--color", "Blue", "invalid value 'Blue' for '--color <COLOR>'"),
        ("--watch", "pink", "[possible values: red, green, blue, white, off]"),
        ("--dpi", "99", "99 is out of range (100-35000)"),
        ("--dpi", "fast", "'fast' is not a DPI value"),
        ("--sensitivity-stages", "maybe", "value was not a boolean"),
    ] {
        // The value is refused before a later flag is looked at.
        for args in [&["razerd", flag, value][..], &["razerd", flag, value, "--help"]] {
            match parse(args) {
                Err(usage) => {
                    assert_eq!(usage.exit_code, 2);
                    assert!(usage.message.contains(part), "{}", usage.message);
                }
                Ok(_) => panic!("must be refused"),
            }
        }
    }
}

#[test]
fn switch_words_are_taken_in_any_case() {
    for (word, on) in [
        ("y", true), ("Yes", true), ("T", true), ("TRUE", true), ("oN", true), ("1", true),
        ("n", false), ("NO", false), ("f", false), ("False", false), ("oFF", false), ("0", false),
    ] {
        let cli = parse(&["razerd", "--sensitivity-stages", word]).unwrap();
        assert_eq!(cli.sensitivity_stages, Some(on));
    }
    assert!(parse(&["razerd", "--sensitivity-stages", "\u{212A}"]).is_err());
    assert!(parse(&["razerd", "--sensitivity-stages", "tru"]).is_err());
}

#[test]
fn parse_dpi_reads_numbers_as_the_standard_library_does() {
    assert_eq!(parse_dpi("+1800"), Ok(1800));
    assert_eq!(parse_dpi("0001800"), Ok(1800));
    assert_eq!(parse_dpi("100000"), Err(String::from("'100000' is not a DPI value")));
    assert_eq!(parse_dpi("65535"), Err(String::from("65535 is out of range (100-35000)")));
    for text in ["", "+", "++1", "1 800", " 1800", "1800 ", "1_800", "１８００", "0x708"] {
        assert_eq!(parse_dpi(text).is_ok(), text.parse::<u16>().is_ok());
        assert!(parse_dpi(text).is_err());
    }
}

#[test]
fn printed_dpi_is_accepted_within_the_limits() {
    for n in 0..=u16::MAX {
        assert_eq!(parse_dpi(&n.to_string()).ok(), if (100..=35000).contains(&n) { Some(n) } else { None });
    }
}

#[test]
fn color_names_read_back() {
    for color in [
        ColorName::Red,
        ColorName::Green,
        ColorName::Blue,
        ColorName::White,
        ColorName::Off,
    ] {
        assert_eq!(ColorName::from_name(color.as_str()), Some(color));
    }
    assert_eq!(ColorName::from_name("RED"), None);
    assert_eq!(ColorName::from_name(""), None);
}

#[test]
fn values_make_a_command_line() {
    let values = |given: &[(usize, &str)]| {
        let mut values: Vec<Option<String>> = vec![None; 9];
        for (k, value) in given {
            values[*k] = Some(String::from(*value));
        }
        values
    };
    let cli = Cli::from_values(&values(&[(2, ""), (6, ""), (8, "yes")]));
    assert!(!cli.check && cli.battery && !cli.info && !cli.sniff && cli.upower);
    assert_eq!((cli.color, cli.watch, cli.sensitivity), (None, None, None));
    assert_eq!(cli.sensitivity_stages, Some(true));
    // The first flag in the order of precedence decides.
    assert_eq!(cli.action(), Action::Battery);

    let cli = Cli::from_values(&values(&[(5, "white"), (7, "35000")]));
    assert_eq!((cli.color, cli.watch), (None, Some(ColorName::White)));
    assert_eq!(cli.sensitivity, Some(35000));
    assert_eq!(cli.action(), Action::Watch(ColorName::White));
}
