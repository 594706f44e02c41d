//! `--info`: which questions are asked, and the report of the answers.

use vstd::prelude::*;
use vstd::string::*;

use crate::protocol;
use crate::protocol::{
    format_dpi, parse_dpi_reply, parse_dpi_stages, parse_firmware, parse_serial, query_battery,
    query_dpi, query_dpi_stages, query_firmware, query_profiles, query_serial, BatteryProgress,
    BatteryQuery, BatteryStatus, DpiStages, FirmwareVersion, ProfileInfo, ProfileProgress,
    ProfileQuery, Question, REPORT_LEN, TX_ID_DOCK, TX_ID_MOUSE,
};
use crate::text;
use crate::text::{decimal_text, pad_right};
use crate::uhid::ExposedBattery;

verus! {

/// What the devices told, as far as they answered.
pub struct Info {
    pub dock_serial: Option<String>,
    pub dock_firmware: Option<FirmwareVersion>,
    pub serial: Option<String>,
    pub firmware: Option<FirmwareVersion>,
    pub battery: Option<BatteryStatus>,
    pub dpi: Option<(u16, u16)>,
    pub stages: Option<DpiStages>,
    pub profile: Option<ProfileInfo>,
}

/// The model of [`Info`]: text as characters, the stage table as its active
/// stage and its entries.
pub struct InfoView {
    pub dock_serial: Option<Seq<char>>,
    pub dock_firmware: Option<FirmwareVersion>,
    pub serial: Option<Seq<char>>,
    pub firmware: Option<FirmwareVersion>,
    pub battery: Option<BatteryStatus>,
    pub dpi: Option<(u16, u16)>,
    pub stages: Option<(u8, Seq<(u16, u16)>)>,
    pub profile: Option<ProfileInfo>,
}

impl View for Info {
    type V = InfoView;

    open spec fn view(&self) -> InfoView {
        InfoView {
            dock_serial: text::opt_text(self.dock_serial),
            dock_firmware: self.dock_firmware,
            serial: text::opt_text(self.serial),
            firmware: self.firmware,
            battery: self.battery,
            dpi: self.dpi,
            stages: match self.stages {
                Some(stages) => Some((stages.active, stages.stages@)),
                None => None,
            },
            profile: self.profile,
        }
    }
}

/// Which question is pending.
#[derive(Debug, Clone, Copy)]
pub enum Asking {
    DockSerial,
    DockFirmware,
    Serial,
    Firmware,
    Battery(BatteryQuery),
    Dpi,
    Stages,
    Profiles(ProfileQuery),
    Nothing,
}

/// What follows from a reply to the pending question, `None` when the exchange
/// failed: the next question, and what is known then.
pub open spec fn info_next(
    asking: Asking,
    info: InfoView,
    reply: Option<[u8; REPORT_LEN]>,
) -> (Asking, InfoView) {
    match asking {
        Asking::DockSerial => (
            Asking::DockFirmware,
            InfoView {
                dock_serial: match reply {
                    Some(bytes) => Some(protocol::serial_of(bytes@)),
                    None => None,
                },
                ..info
            },
        ),
        Asking::DockFirmware => (
            Asking::Serial,
            InfoView {
                dock_firmware: match reply {
                    Some(bytes) => Some(protocol::firmware_of(bytes@)),
                    None => None,
                },
                ..info
            },
        ),
        // The serial doubles as a liveness probe: a sleeping mouse answers no
        // RF query, so each one would burn its full timeout. After a first
        // miss, the remaining fields are absent without further round-trips.
        Asking::Serial => match reply {
            Some(bytes) => (
                Asking::Firmware,
                InfoView { serial: Some(protocol::serial_of(bytes@)), ..info },
            ),
            None => (Asking::Nothing, info),
        },
        Asking::Firmware => (
            Asking::Battery(BatteryQuery::Level),
            InfoView {
                firmware: match reply {
                    Some(bytes) => Some(protocol::firmware_of(bytes@)),
                    None => None,
                },
                ..info
            },
        ),
        Asking::Battery(query) => match protocol::battery_next(query, reply) {
            BatteryProgress::Ask(query) => (Asking::Battery(query), info),
            BatteryProgress::Done(status) => (
                Asking::Dpi,
                InfoView { battery: Some(status), ..info },
            ),
            BatteryProgress::Failed => (Asking::Dpi, info),
        },
        Asking::Dpi => (
            Asking::Stages,
            InfoView {
                dpi: match reply {
                    Some(bytes) => Some(protocol::dpi_of(bytes@)),
                    None => None,
                },
                ..info
            },
        ),
        Asking::Stages => (
            Asking::Profiles(ProfileQuery::Count),
            InfoView {
                stages: match reply {
                    Some(bytes) => Some((bytes@[9], protocol::stages_of(bytes@))),
                    None => None,
                },
                ..info
            },
        ),
        Asking::Profiles(query) => match protocol::profiles_next(query, reply) {
            ProfileProgress::Ask(query) => (Asking::Profiles(query), info),
            ProfileProgress::Done(profile) => (
                Asking::Nothing,
                InfoView { profile: Some(profile), ..info },
            ),
            ProfileProgress::Failed => (Asking::Nothing, info),
        },
        Asking::Nothing => (Asking::Nothing, info),
    }
}

/// The report under way.
pub struct Inquiry {
    pub asking: Asking,
    pub info: Info,
}

/// Nothing is known yet.
pub open spec fn nothing_known() -> InfoView {
    InfoView {
        dock_serial: None,
        dock_firmware: None,
        serial: None,
        firmware: None,
        battery: None,
        dpi: None,
        stages: None,
        profile: None,
    }
}

impl Inquiry {
    /// Start with the dock.
    pub fn new() -> (r: Self)
        ensures
            r.asking == Asking::DockSerial,
            r.info@ == nothing_known(),
    {
        Inquiry {
            asking: Asking::DockSerial,
            info: Info {
                dock_serial: None,
                dock_firmware: None,
                serial: None,
                firmware: None,
                battery: None,
                dpi: None,
                stages: None,
                profile: None,
            },
        }
    }

    /// The question that is pending, if any is.
    pub fn question(&self) -> (r: Option<Question>)
        ensures
            self.asking is Nothing <==> r is None,
            r matches Some(question) ==> question.asks(
                asked(self.asking),
                asked_context(self.asking),
            ),
    {
        match &self.asking {
            Asking::DockSerial => Some(query_serial(TX_ID_DOCK)),
            Asking::DockFirmware => Some(query_firmware(TX_ID_DOCK)),
            Asking::Serial => Some(query_serial(TX_ID_MOUSE)),
            Asking::Firmware => Some(query_firmware(TX_ID_MOUSE)),
            Asking::Battery(query) => Some(query.question()),
            Asking::Dpi => Some(query_dpi()),
            Asking::Stages => Some(query_dpi_stages()),
            Asking::Profiles(query) => Some(query.question()),
            Asking::Nothing => None,
        }
    }

    /// The reply to the pending question came, or the exchange failed.
    pub fn on_reply(&mut self, reply: Option<[u8; REPORT_LEN]>)
        ensures
            (final(self).asking, final(self).info@) == info_next(
                old(self).asking,
                old(self).info@,
                reply,
            ),
    {
        match self.asking {
            Asking::DockSerial => {
                self.info.dock_serial = match reply {
                    Some(bytes) => Some(parse_serial(&bytes)),
                    None => None,
                };
                self.asking = Asking::DockFirmware;
            },
            Asking::DockFirmware => {
                self.info.dock_firmware = match reply {
                    Some(bytes) => Some(parse_firmware(&bytes)),
                    None => None,
                };
                self.asking = Asking::Serial;
            },
            Asking::Serial => {
                match reply {
                    Some(bytes) => {
                        self.info.serial = Some(parse_serial(&bytes));
                        self.asking = Asking::Firmware;
                    },
                    None => {
                        self.asking = Asking::Nothing;
                    },
                }
            },
            Asking::Firmware => {
                self.info.firmware = match reply {
                    Some(bytes) => Some(parse_firmware(&bytes)),
                    None => None,
                };
                self.asking = Asking::Battery(query_battery());
            },
            Asking::Battery(query) => {
                match query.on_reply(reply) {
                    BatteryProgress::Ask(query) => {
                        self.asking = Asking::Battery(query);
                    },
                    BatteryProgress::Done(status) => {
                        self.info.battery = Some(status);
                        self.asking = Asking::Dpi;
                    },
                    BatteryProgress::Failed => {
                        self.asking = Asking::Dpi;
                    },
                }
            },
            Asking::Dpi => {
                self.info.dpi = match reply {
                    Some(bytes) => Some(parse_dpi_reply(&bytes)),
                    None => None,
                };
                self.asking = Asking::Stages;
            },
            Asking::Stages => {
                self.info.stages = match reply {
                    Some(bytes) => Some(parse_dpi_stages(&bytes)),
                    None => None,
                };
                self.asking = Asking::Profiles(query_profiles());
            },
            Asking::Profiles(query) => {
                match query.on_reply(reply) {
                    ProfileProgress::Ask(query) => {
                        self.asking = Asking::Profiles(query);
                    },
                    ProfileProgress::Done(profile) => {
                        self.info.profile = Some(profile);
                        self.asking = Asking::Nothing;
                    },
                    ProfileProgress::Failed => {
                        self.asking = Asking::Nothing;
                    },
                }
            },
            Asking::Nothing => {},
        }
    }
}

/// The request of the pending question.
pub open spec fn asked(asking: Asking) -> Seq<u8> {
    match asking {
        Asking::DockSerial => protocol::serial_query(TX_ID_DOCK),
        Asking::DockFirmware => protocol::firmware_query(TX_ID_DOCK),
        Asking::Serial => protocol::serial_query(TX_ID_MOUSE),
        Asking::Firmware => protocol::firmware_query(TX_ID_MOUSE),
        Asking::Battery(BatteryQuery::Level) => protocol::battery_level_query(),
        Asking::Battery(BatteryQuery::Charging { .. }) => protocol::charging_query(),
        Asking::Dpi => protocol::dpi_query(),
        Asking::Stages => protocol::dpi_stages_query(),
        Asking::Profiles(ProfileQuery::Count) => protocol::profile_count_query(),
        Asking::Profiles(ProfileQuery::Active { .. }) => protocol::active_profile_query(),
        Asking::Nothing => Seq::empty(),
    }
}

/// The words under which a failure of the pending question is reported.
pub open spec fn asked_context(asking: Asking) -> Seq<char> {
    match asking {
        Asking::DockSerial | Asking::Serial => "serial query failed"@,
        Asking::DockFirmware | Asking::Firmware => "firmware query failed"@,
        Asking::Battery(BatteryQuery::Level) => "battery level query failed"@,
        Asking::Battery(BatteryQuery::Charging { .. }) => "charging status query failed"@,
        Asking::Dpi => "DPI query failed"@,
        Asking::Stages => "DPI stage table query failed"@,
        Asking::Profiles(ProfileQuery::Count) => "profile count query failed"@,
        Asking::Profiles(ProfileQuery::Active { .. }) => "active profile query failed"@,
        Asking::Nothing => Seq::empty(),
    }
}

// ---------- Report ----------

/// A labelled field, its value in column 13; an absent value is a dash.
pub open spec fn field(label: Seq<char>, value: Option<Seq<char>>) -> Seq<char> {
    "  "@ + text::padded_right(label + ":"@, 10) + (match value {
        Some(value) => value,
        None => "—"@,
    })
}

pub open spec fn battery_lines(battery: Option<BatteryStatus>) -> Seq<Seq<char>> {
    match battery {
        Some(status) => seq![
            "  Battery:  "@ + text::decimal(status.percent as nat) + "%"@,
            "  Charging: "@ + (if status.charging {
                "yes"@
            } else {
                "no"@
            }),
        ],
        None => seq!["  Battery:  —"@],
    }
}

/// The battery that a running `--upower` exposes.
pub open spec fn exposed_lines(exposed: Option<ExposedBattery>) -> Seq<Seq<char>> {
    match exposed {
        Some(battery) => seq![
            "  Path:     "@ + battery.path@,
            field(
                "Level"@,
                match battery.percent {
                    Some(percent) => Some(percent@ + "%"@),
                    None => None,
                },
            ),
            field("Status"@, text::opt_text(battery.status)),
        ],
        None => seq!["  Path:     — (not exposed: bridge not running, or mouse silent)"@],
    }
}

/// The whole report.
pub open spec fn info_report(
    path: Seq<char>,
    info: InfoView,
    exposed: Option<ExposedBattery>,
) -> Seq<Seq<char>> {
    seq![
        "Razer Mouse Dock Pro"@,
        "  Path:     "@ + path,
        field("Serial"@, info.dock_serial),
        field("Firmware"@, firmware_text(info.dock_firmware)),
        Seq::empty(),
        "Razer Basilisk V3 Pro 35K (via Dock)"@,
        "  Path:     "@ + path,
        field("Serial"@, info.serial),
        field("Firmware"@, firmware_text(info.firmware)),
    ] + battery_lines(info.battery) + seq![
        field(
            "DPI"@,
            match info.dpi {
                Some(dpi) => Some(protocol::dpi_text(dpi)),
                None => None,
            },
        ),
        field(
            "Stages"@,
            match info.stages {
                Some((active, stages)) => Some(protocol::stage_table_text(active, stages)),
                None => None,
            },
        ),
        field(
            "Profile"@,
            match info.profile {
                Some(profile) => Some(profile.text()),
                None => None,
            },
        ),
        Seq::empty(),
        "UPower battery (virtual HID device, via --upower)"@,
    ] + exposed_lines(exposed)
}

pub open spec fn firmware_text(firmware: Option<FirmwareVersion>) -> Option<Seq<char>> {
    match firmware {
        Some(version) => Some(version.text()),
        None => None,
    }
}

/// A labelled field, its value in column 13; an absent value is a dash.
pub fn print_field(label: &str, value: Option<String>) -> (r: String)
    ensures
        r@ == field(label@, text::opt_text(value)),
{
    let mut name = label.to_owned();
    name.append(":");
    let mut r = "  ".to_owned();
    r.append(pad_right(name.as_str(), 10).as_str());
    match value {
        Some(value) => r.append(value.as_str()),
        None => r.append("—"),
    }
    r
}

fn path_line(path: &str) -> (r: String)
    ensures
        r@ == "  Path:     "@ + path@,
{
    let mut r = "  Path:     ".to_owned();
    r.append(path);
    r
}

fn firmware_shown(firmware: Option<FirmwareVersion>) -> (r: Option<String>)
    ensures
        text::opt_text(r) == firmware_text(firmware),
{
    match firmware {
        Some(version) => Some(version.to_string()),
        None => None,
    }
}

/// The lines of the whole report.
pub fn info_lines(path: &str, info: Info, exposed: Option<ExposedBattery>) -> (r: Vec<String>)
    ensures
        text::text_of(r@) == info_report(path@, info@, exposed),
{
    let ghost told = info@;
    let mut lines: Vec<String> = Vec::new();
    lines.push("Razer Mouse Dock Pro".to_owned());
    lines.push(path_line(path));
    lines.push(print_field("Serial", info.dock_serial));
    lines.push(print_field("Firmware", firmware_shown(info.dock_firmware)));
    lines.push(String::new());
    lines.push("Razer Basilisk V3 Pro 35K (via Dock)".to_owned());
    lines.push(path_line(path));
    lines.push(print_field("Serial", info.serial));
    lines.push(print_field("Firmware", firmware_shown(info.firmware)));
    match info.battery {
        Some(status) => {
            let mut level = "  Battery:  ".to_owned();
            level.append(decimal_text(status.percent as u64).as_str());
            level.append("%");
            lines.push(level);
            let mut charging = "  Charging: ".to_owned();
            charging.append(
                if status.charging {
                    "yes"
                } else {
                    "no"
                },
            );
            lines.push(charging);
        },
        None => {
            lines.push("  Battery:  —".to_owned());
        },
    }
    lines.push(
        print_field(
            "DPI",
            match info.dpi {
                Some(dpi) => Some(format_dpi(dpi)),
                None => None,
            },
        ),
    );
    lines.push(
        print_field(
            "Stages",
            match &info.stages {
                Some(stages) => Some(stages.to_string()),
                None => None,
            },
        ),
    );
    lines.push(
        print_field(
            "Profile",
            match info.profile {
                Some(profile) => Some(profile.to_string()),
                None => None,
            },
        ),
    );
    lines.push(String::new());
    lines.push("UPower battery (virtual HID device, via --upower)".to_owned());
    match exposed {
        Some(battery) => {
            lines.push(path_line(battery.path.as_str()));
            lines.push(
                print_field(
                    "Level",
                    match battery.percent {
                        Some(percent) => {
                            let mut level = percent;
                            level.append("%");
                            Some(level)
                        },
                        None => None,
                    },
                ),
            );
            lines.push(print_field("Status", battery.status));
        },
        None => {
            lines.push(
                "  Path:     — (not exposed: bridge not running, or mouse silent)".to_owned(),
            );
        },
    }
    proof {
        assert(text::text_of(lines@) =~= info_report(path@, told, exposed));
    }
    lines
}

// ---------- Laws ----------

/// How many questions can still follow, the pending one included.
pub open spec fn questions_left(asking: Asking) -> nat {
    match asking {
        Asking::DockSerial => 10,
        Asking::DockFirmware => 9,
        Asking::Serial => 8,
        Asking::Firmware => 7,
        Asking::Battery(BatteryQuery::Level) => 6,
        Asking::Battery(BatteryQuery::Charging { .. }) => 5,
        Asking::Dpi => 4,
        Asking::Stages => 3,
        Asking::Profiles(ProfileQuery::Count) => 2,
        Asking::Profiles(ProfileQuery::Active { .. }) => 1,
        Asking::Nothing => 0,
    }
}

/// Every reply, an answer or a miss, brings the report closer to its end: it
/// takes ten questions at most.
pub proof fn law_report_comes_to_an_end(
    asking: Asking,
    info: InfoView,
    reply: Option<[u8; REPORT_LEN]>,
)
    requires
        !(asking is Nothing),
    ensures
        questions_left(info_next(asking, info, reply).0) < questions_left(asking),
        questions_left(Asking::DockSerial) == 10,
{
}

/// What is known after a series of replies, and which question is pending.
pub open spec fn info_run(replies: Seq<Option<[u8; REPORT_LEN]>>) -> (Asking, InfoView)
    decreases replies.len(),
{
    if replies.len() == 0 {
        (Asking::DockSerial, nothing_known())
    } else {
        let (asking, info) = info_run(replies.drop_last());
        info_next(asking, info, replies.last())
    }
}

/// A mouse that misses its first question is asked nothing more: the report is
/// complete after three exchanges, and everything about the mouse is absent.
pub proof fn law_silent_mouse_is_asked_once(replies: Seq<Option<[u8; REPORT_LEN]>>)
    requires
        replies.len() >= 3,
        replies[2] is None,
    ensures
        info_run(replies).0 is Nothing,
        info_run(replies).1 == (InfoView {
            dock_serial: info_run(replies).1.dock_serial,
            dock_firmware: info_run(replies).1.dock_firmware,
            ..nothing_known()
        }),
    decreases replies.len(),
{
    if replies.len() > 3 {
        law_silent_mouse_is_asked_once(replies.drop_last());
    } else {
        let two = replies.drop_last();
        let one = two.drop_last();
        assert(one.drop_last() =~= Seq::empty());
        assert(info_run(one.drop_last()) == (Asking::DockSerial, nothing_known()));
        assert(info_run(one).0 is DockFirmware);
        assert(info_run(two).0 is Serial);
    }
}

/// Which command is asked at each point: the dock for its serial and firmware, then
/// the mouse for its serial, firmware, battery level, charging state, DPI, stage
/// table, profile count and active profile.
pub proof fn law_questions_go_to_their_device(reply: [u8; REPORT_LEN])
    ensures
        protocol::heads(asked(Asking::DockSerial), 0xFF, 0x00, 0x82, 22),
        protocol::heads(asked(Asking::DockFirmware), 0xFF, 0x00, 0x81, 2),
        protocol::heads(asked(Asking::Serial), 0x1F, 0x00, 0x82, 22),
        protocol::heads(asked(Asking::Firmware), 0x1F, 0x00, 0x81, 2),
        protocol::heads(asked(Asking::Battery(BatteryQuery::Level)), 0x1F, 0x07, 0x80, 2),
        protocol::heads(
            asked(Asking::Battery(BatteryQuery::Charging { level: reply })),
            0x1F,
            0x07,
            0x84,
            2,
        ),
        protocol::heads(asked(Asking::Dpi), 0x1F, 0x04, 0x85, 7) && asked(Asking::Dpi)[8] == 0,
        protocol::heads(asked(Asking::Stages), 0x1F, 0x04, 0x86, 38) && asked(Asking::Stages)[8]
            == 0,
        protocol::heads(asked(Asking::Profiles(ProfileQuery::Count)), 0x1F, 0x05, 0x80, 1),
        protocol::heads(
            asked(Asking::Profiles(ProfileQuery::Active { count: reply })),
            0x1F,
            0x05,
            0x84,
            1,
        ),
{
    protocol::law_questions_use_their_commands(TX_ID_DOCK);
    protocol::law_questions_use_their_commands(TX_ID_MOUSE);
    assert(seq![0u8][0] == 0);
}

/// An answer fills its own field with what it says, and no other; the next question
/// follows.
pub proof fn law_answers_fill_their_own_field(info: InfoView, reply: [u8; REPORT_LEN])
    ensures
        info_next(Asking::DockSerial, info, Some(reply)) == (
            Asking::DockFirmware,
            InfoView { dock_serial: Some(protocol::serial_of(reply@)), ..info },
        ),
        info_next(Asking::DockFirmware, info, Some(reply)) == (
            Asking::Serial,
            InfoView {
                dock_firmware: Some(FirmwareVersion { major: reply@[8], minor: reply@[9] }),
                ..info
            },
        ),
        info_next(Asking::Serial, info, Some(reply)) == (
            Asking::Firmware,
            InfoView { serial: Some(protocol::serial_of(reply@)), ..info },
        ),
        info_next(Asking::Firmware, info, Some(reply)) == (
            Asking::Battery(BatteryQuery::Level),
            InfoView {
                firmware: Some(FirmwareVersion { major: reply@[8], minor: reply@[9] }),
                ..info
            },
        ),
        info_next(Asking::Dpi, info, Some(reply)).0 is Stages,
        ({
            let told = info_next(Asking::Dpi, info, Some(reply)).1;
            &&& told == (InfoView { dpi: told.dpi, ..info })
            &&& told.dpi matches Some((x, y)) && protocol::holds_at(reply@, 9, x)
                && protocol::holds_at(reply@, 11, y)
        }),
        info_next(Asking::Stages, info, Some(reply)) == (
            Asking::Profiles(ProfileQuery::Count),
            InfoView { stages: Some((reply@[9], protocol::stages_of(reply@))), ..info },
        ),
{
}

/// The battery and the profiles take two answers each, and are what these say.
pub proof fn law_two_answers_make_battery_and_profile(
    info: InfoView,
    first: [u8; REPORT_LEN],
    second: [u8; REPORT_LEN],
)
    ensures
        info_next(Asking::Battery(BatteryQuery::Level), info, Some(first)) == (
            Asking::Battery(BatteryQuery::Charging { level: first }),
            info,
        ),
        ({
            let (asking, told) = info_next(
                Asking::Battery(BatteryQuery::Charging { level: first }),
                info,
                Some(second),
            );
            &&& asking is Dpi
            &&& told == (InfoView { battery: told.battery, ..info })
            &&& told.battery matches Some(status) && status.percent * 255 <= first@[9] * 100 < (
            status.percent + 1) * 255 && (status.charging <==> second@[9] != 0)
        }),
        info_next(Asking::Profiles(ProfileQuery::Count), info, Some(first)) == (
            Asking::Profiles(ProfileQuery::Active { count: first }),
            info,
        ),
        info_next(Asking::Profiles(ProfileQuery::Active { count: first }), info, Some(second)) == (
            Asking::Nothing,
            InfoView {
                profile: Some(ProfileInfo { active: second@[8], count: first@[8] }),
                ..info
            },
        ),
{
    protocol::law_reading_is_what_the_replies_say(first, second);
}

/// A missed answer leaves its own field absent and no other. After the mouse missed
/// its serial nothing more is asked; any other miss is passed over, and with it the
/// second question where there are two.
pub proof fn law_misses_cost_their_own_field(info: InfoView, first: [u8; REPORT_LEN])
    ensures
        info_next(Asking::DockSerial, info, None) == (
            Asking::DockFirmware,
            InfoView { dock_serial: None, ..info },
        ),
        info_next(Asking::DockFirmware, info, None) == (
            Asking::Serial,
            InfoView { dock_firmware: None, ..info },
        ),
        info_next(Asking::Serial, info, None) == (Asking::Nothing, info),
        info_next(Asking::Firmware, info, None) == (
            Asking::Battery(BatteryQuery::Level),
            InfoView { firmware: None, ..info },
        ),
        info_next(Asking::Battery(BatteryQuery::Level), info, None) == (Asking::Dpi, info),
        info_next(Asking::Battery(BatteryQuery::Charging { level: first }), info, None) == (
            Asking::Dpi,
            info,
        ),
        info_next(Asking::Dpi, info, None) == (Asking::Stages, InfoView { dpi: None, ..info }),
        info_next(Asking::Stages, info, None) == (
            Asking::Profiles(ProfileQuery::Count),
            InfoView { stages: None, ..info },
        ),
        info_next(Asking::Profiles(ProfileQuery::Count), info, None) == (Asking::Nothing, info),
        info_next(Asking::Profiles(ProfileQuery::Active { count: first }), info, None) == (
            Asking::Nothing,
            info,
        ),
{
}

/// A field stands under its label, the values of all labels in one column, and a
/// dash for what is absent.
pub proof fn law_fields_line_up(label: Seq<char>, value: Seq<char>)
    requires
        label.len() <= 9,
    ensures
        field(label, Some(value)).skip(12) == value,
        field(label, Some(value)).subrange(2, 2 + label.len() as int) == label,
        field(label, Some(value))[2 + label.len() as int] == ':',
        forall|i: int|
            0 <= i < 2 || 3 + label.len() <= i < 12 ==> #[trigger] field(label, Some(value))[i]
                == ' ',
        field(label, None) == field(label, Some("—"@)),
{
    reveal_strlit("  ");
    reveal_strlit(":");
    let shown = field(label, Some(value));
    assert("  "@.len() == 2 && ":"@.len() == 1);
    text::law_padding_fills_up(label + ":"@, ' ', 10);
    let head = text::padded_right(label + ":"@, 10);
    assert(shown.skip(12) =~= value);
    assert(head.take(label.len() as int + 1) =~= label + ":"@);
    assert forall|i: int| 0 <= i < label.len() implies shown[2 + i] == label[i] by {
        assert(shown[2 + i] == head[i]);
        assert(head.take(label.len() as int + 1)[i] == (label + ":"@)[i]);
    }
    assert(shown.subrange(2, 2 + label.len() as int) =~= label);
    assert(shown[2 + label.len() as int] == head[label.len() as int]);
    assert(head.take(label.len() as int + 1)[label.len() as int] == ':');
    assert forall|i: int| 0 <= i < 2 || 3 + label.len() <= i < 12 implies #[trigger] shown[i]
        == ' ' by {
        if i >= 2 {
            assert(shown[i] == head[i - 2]);
        }
    }
}

/// The report tells of the dock, then of the mouse, then of the exposed battery,
/// each thing in its own line.
pub proof fn law_report_tells_everything_in_order(
    path: Seq<char>,
    info: InfoView,
    exposed: Option<ExposedBattery>,
)
    ensures
        ({
            let lines = info_report(path, info, exposed);
            let n = if info.battery is Some {
                11int
            } else {
                10
            };
            &&& lines[0] == "Razer Mouse Dock Pro"@
            &&& lines[1] == "  Path:     "@ + path
            &&& lines[2] == field("Serial"@, info.dock_serial)
            &&& lines[3] == field(
                "Firmware"@,
                if info.dock_firmware is Some {
                    Some(info.dock_firmware->0.text())
                } else {
                    None
                },
            )
            &&& lines[4] == Seq::<char>::empty()
            &&& lines[5] == "Razer Basilisk V3 Pro 35K (via Dock)"@
            &&& lines[6] == "  Path:     "@ + path
            &&& lines[7] == field("Serial"@, info.serial)
            &&& lines[8] == field(
                "Firmware"@,
                if info.firmware is Some {
                    Some(info.firmware->0.text())
                } else {
                    None
                },
            )
            &&& info.battery is None ==> lines[9] == "  Battery:  —"@
            &&& info.battery matches Some(status) ==> {
                &&& lines[9] == "  Battery:  "@ + text::decimal(status.percent as nat) + "%"@
                &&& status.charging ==> lines[10] == "  Charging: "@ + "yes"@
                &&& !status.charging ==> lines[10] == "  Charging: "@ + "no"@
            }
            &&& lines[n] == field(
                "DPI"@,
                if info.dpi is Some {
                    Some(protocol::dpi_text(info.dpi->0))
                } else {
                    None
                },
            )
            &&& lines[n + 1] == field(
                "Stages"@,
                if info.stages is Some {
                    Some(protocol::stage_table_text((info.stages->0).0, (info.stages->0).1))
                } else {
                    None
                },
            )
            &&& lines[n + 2] == field(
                "Profile"@,
                if info.profile is Some {
                    Some(info.profile->0.text())
                } else {
                    None
                },
            )
            &&& lines[n + 3] == Seq::<char>::empty()
            &&& lines[n + 4] == "UPower battery (virtual HID device, via --upower)"@
            &&& exposed is None ==> lines.len() == n + 6 && lines[n + 5]
                == "  Path:     — (not exposed: bridge not running, or mouse silent)"@
            &&& exposed matches Some(battery) ==> {
                &&& lines.len() == n + 8
                &&& lines[n + 5] == "  Path:     "@ + battery.path@
                &&& lines[n + 6] == field(
                    "Level"@,
                    if battery.percent is Some {
                        Some(battery.percent->0@ + "%"@)
                    } else {
                        None
                    },
                )
                &&& lines[n + 7] == field("Status"@, text::opt_text(battery.status))
            }
        }),
{
}

} // verus!
