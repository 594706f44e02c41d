//! Razer report layer: the 90-byte feature-report format, the commands this
//! hardware understands, and what its replies say.

use vstd::prelude::*;
use vstd::string::*;
use vstd::utf8::*;

use crate::text;
use crate::text::{decimal_text, join, pad_left, trim};

verus! {

broadcast use vstd::array::group_array_axioms;

// Razer HID feature report fixed size.
pub const REPORT_LEN: usize = 90;

// The 1-byte XOR checksum sits at this offset and covers bytes `2..CRC_INDEX`.
pub const CRC_INDEX: usize = 88;

// Transaction id conventions observed on this hardware:
// * `TX_ID_DOCK_LED`/`TX_ID_DOCK`: target the dock itself
// * `TX_ID_MOUSE`: the dock forwards the request over RF to the mouse
pub const TX_ID_MOUSE: u8 = 0x1F;

pub const TX_ID_DOCK: u8 = 0xFF;

pub const TX_ID_DOCK_LED: u8 = 0xF7;

pub const CLASS_DEVICE: u8 = 0x00;

pub const CMD_GET_FIRMWARE: u8 = 0x81;

pub const CMD_GET_SERIAL: u8 = 0x82;

// First argument of DPI get/set: which storage slot to address. The firmware
// runs from the live (RAM) slot, the one that the Cycle Up Sensitivity Stages
// button cycles, while the stored slot survives sleep and power-cycles.
// Writes must hit both to be effective now AND persistent; reads of the live
// slot show what the sensor actually runs at.
pub const LIVESTORE: u8 = 0x00;

pub const VARSTORE: u8 = 0x01;

pub const CLASS_DPI: u8 = 0x04;

pub const CMD_SET_DPI: u8 = 0x05;

pub const CMD_GET_DPI: u8 = 0x85;

pub const CMD_SET_DPI_STAGES: u8 = 0x06;

pub const CMD_GET_DPI_STAGES: u8 = 0x86;

// Stage table layout: [store, active_stage (1-based), count] then per stage
// 7 bytes: index, X hi/lo, Y hi/lo, 2 reserved. 3 + 5*7 = 38 = 0x26.
pub const DPI_STAGES_DATA_SIZE: u8 = 0x26;

// The stage table `--sensitivity-stages on` installs: Synapse's defaults for
// "Cycle Up Sensitivity Stages", stage 3 (1600) active. The firmware caps the
// table at 5 stages: a 6th is rejected with status 0x03.
pub const DEFAULT_DPI_STAGES: [u16; 5] = [400, 800, 1600, 3200, 6400];

pub const DEFAULT_DPI_ACTIVE_STAGE: u8 = 3;

// Sensor limits of the Basilisk V3 Pro 35K (the "35K" is the max DPI).
pub const DPI_MIN: u16 = 100;

pub const DPI_MAX: u16 = 35_000;

// Onboard profile slots, cycled with the button under the mouse. The
// indicator LED next to it shows the active slot's color.
pub const CLASS_PROFILE: u8 = 0x05;

pub const CMD_GET_PROFILE_COUNT: u8 = 0x80;

pub const CMD_GET_ACTIVE_PROFILE: u8 = 0x84;

pub const CLASS_POWER: u8 = 0x07;

pub const CMD_GET_BATTERY_LEVEL: u8 = 0x80;

pub const CMD_GET_CHARGING: u8 = 0x84;

pub const CLASS_EXTENDED_MATRIX: u8 = 0x0F;

pub const CMD_SET_MATRIX_EFFECT: u8 = 0x03;

// Dock LED ring layout.
pub const DOCK_LED_DATA_SIZE: u8 = 0x1D;

pub const DOCK_LED_ZONES: usize = 8;

pub const DOCK_LED_COUNT_MINUS_ONE: u8 = 7;

// Basilisk V3 Pro 35K LED layout when routed via the dock.
pub const MOUSE_LED_DATA_SIZE: u8 = 0x2C;

pub const MOUSE_LED_ZONES: usize = 13;

pub const MOUSE_LED_COUNT_MINUS_ONE: u8 = 12;

#[derive(Debug, Clone, Copy, PartialEq, Eq, Structural)]
pub struct Rgb {
    pub red: u8,
    pub green: u8,
    pub blue: u8,
}

impl Rgb {
    pub fn new(red: u8, green: u8, blue: u8) -> (r: Self)
        ensures
            r == (Rgb { red, green, blue }),
    {
        Self { red, green, blue }
    }

    /// The channel that stands at place `k` of an LED's triplet.
    pub open spec fn channel(self, k: int) -> u8 {
        if k == 0 {
            self.red
        } else if k == 1 {
            self.green
        } else {
            self.blue
        }
    }
}

// ---------- Report model ----------

/// XOR of all the bytes.
pub open spec fn xor_all(s: Seq<u8>) -> u8
    decreases s.len(),
{
    if s.len() == 0 {
        0
    } else {
        xor_all(s.drop_last()) ^ s.last()
    }
}

/// The Razer HID report checksum: XOR of bytes `2..CRC_INDEX`.
pub open spec fn checksum(report: Seq<u8>) -> u8 {
    xor_all(report.subrange(2, CRC_INDEX as int))
}

/// `body` with its checksum in place.
pub open spec fn sealed(body: Seq<u8>) -> Seq<u8> {
    body.update(CRC_INDEX as int, checksum(body))
}

/// A query but for its checksum: `[_, tx_id, 0, 0, 0, data_size, class, cmd,
/// args..., _, _, _]`.
pub open spec fn query_body(tx_id: u8, class: u8, cmd: u8, data_size: u8, args: Seq<u8>) -> Seq<
    u8,
> {
    Seq::new(
        REPORT_LEN as nat,
        |i: int|
            if i == 1 {
                tx_id
            } else if i == 5 {
                data_size
            } else if i == 6 {
                class
            } else if i == 7 {
                cmd
            } else if 8 <= i < 8 + args.len() {
                args[i - 8]
            } else {
                0
            },
    )
}

/// A query: its body, sealed.
pub open spec fn query_report(
    tx_id: u8,
    class: u8,
    cmd: u8,
    data_size: u8,
    args: Seq<u8>,
) -> Seq<u8> {
    sealed(query_body(tx_id, class, cmd, data_size, args))
}

/// An LED matrix command but for its checksum: the header, then one RGB
/// triplet per zone from byte 13 on, and zeros behind them.
pub open spec fn matrix_body(tx_id: u8, data_size: u8, zones: int, color: Rgb) -> Seq<u8> {
    Seq::new(
        REPORT_LEN as nat,
        |i: int|
            if i == 1 {
                tx_id
            } else if i == 5 {
                data_size
            } else if i == 6 {
                CLASS_EXTENDED_MATRIX
            } else if i == 7 {
                CMD_SET_MATRIX_EFFECT
            } else if i == 12 {
                (zones - 1) as u8
            } else if 13 <= i < 13 + 3 * zones {
                color.channel((i - 13) % 3)
            } else {
                0
            },
    )
}

/// The dock ring command for `color`.
pub open spec fn dock_color(color: Rgb) -> Seq<u8> {
    sealed(matrix_body(TX_ID_DOCK_LED, DOCK_LED_DATA_SIZE, DOCK_LED_ZONES as int, color))
}

/// The mouse command for `color`.
pub open spec fn mouse_color(color: Rgb) -> Seq<u8> {
    sealed(matrix_body(TX_ID_MOUSE, MOUSE_LED_DATA_SIZE, MOUSE_LED_ZONES as int, color))
}

// ---------- Report builders ----------

/// XOR of bytes `2..CRC_INDEX`, the Razer HID report checksum.
pub fn compute_crc(bytes: &[u8; REPORT_LEN]) -> (r: u8)
    ensures
        r == checksum(bytes@),
{
    let mut acc: u8 = 0;
    let mut i: usize = 2;
    let ghost body = bytes@.subrange(2, CRC_INDEX as int);
    while i < CRC_INDEX
        invariant
            2 <= i <= CRC_INDEX,
            body == bytes@.subrange(2, CRC_INDEX as int),
            acc == xor_all(body.take(i - 2)),
        decreases CRC_INDEX - i,
    {
        proof {
            assert(body.take(i - 1).drop_last() =~= body.take(i - 2));
        }
        acc = acc ^ bytes[i];
        i = i + 1;
    }
    proof {
        assert(body.take(i - 2) =~= body);
    }
    acc
}

/// Populate the common fixed-size header used by all LED matrix reports and
/// return the byte index at which the per-LED RGB triplets begin.
pub fn write_matrix_header(
    bytes: &mut [u8; REPORT_LEN],
    tx_id: u8,
    data_size: u8,
    led_count_minus_one: u8,
) -> (start: usize)
    ensures
        start == 13,
        final(bytes)@ == old(bytes)@.update(1, tx_id).update(5, data_size).update(
            6,
            CLASS_EXTENDED_MATRIX,
        ).update(7, CMD_SET_MATRIX_EFFECT).update(12, led_count_minus_one),
{
    bytes[1] = tx_id;
    bytes[5] = data_size;
    bytes[6] = CLASS_EXTENDED_MATRIX;
    bytes[7] = CMD_SET_MATRIX_EFFECT;
    bytes[12] = led_count_minus_one;
    13
}

/// Write `color` into `zones` consecutive triplets from byte `start` on.
pub fn fill_leds(bytes: &mut [u8; REPORT_LEN], start: usize, zones: usize, color: Rgb)
    requires
        zones == 0 || start + 3 * zones <= REPORT_LEN,
    ensures
        final(bytes)@ == Seq::new(
            REPORT_LEN as nat,
            |i: int|
                if start <= i < start + 3 * zones {
                    color.channel((i - start) % 3)
                } else {
                    old(bytes)@[i]
                },
        ),
{
    let mut i: usize = 0;
    while i < zones
        invariant
            i <= zones,
            zones == 0 || start + 3 * zones <= REPORT_LEN,
            forall|k: int|
                start <= k < start + 3 * i ==> #[trigger] bytes@[k] == color.channel(
                    (k - start) % 3,
                ),
            forall|k: int|
                0 <= k < REPORT_LEN && !(start <= k < start + 3 * i) ==> #[trigger] bytes@[k]
                    == old(bytes)@[k],
        decreases zones - i,
    {
        let o: usize = start + i * 3;
        bytes[o] = color.red;
        bytes[o + 1] = color.green;
        bytes[o + 2] = color.blue;
        i = i + 1;
    }
}

/// Build the dock's own 8-LED ring command.
pub fn dock_rgb_report(color: Rgb) -> (r: [u8; REPORT_LEN])
    ensures
        r@ == dock_color(color),
        shows(r@, 0xF7, 0x1D, 8, color),
{
    proof {
        law_color_reports_show_the_color(color);
    }
    let mut bytes = [0u8;REPORT_LEN];
    let start = write_matrix_header(
        &mut bytes,
        TX_ID_DOCK_LED,
        DOCK_LED_DATA_SIZE,
        DOCK_LED_COUNT_MINUS_ONE,
    );
    fill_leds(&mut bytes, start, DOCK_LED_ZONES, color);
    proof {
        assert(bytes@ =~= matrix_body(
            TX_ID_DOCK_LED,
            DOCK_LED_DATA_SIZE,
            DOCK_LED_ZONES as int,
            color,
        ));
    }
    bytes[CRC_INDEX] = compute_crc(&bytes);
    bytes
}

/// Build the Basilisk V3 Pro 35K 13-zone command. When sent to the dock's
/// hidraw, the firmware forwards it to the mouse over the RF link.
pub fn mouse_via_dock_rgb_report(color: Rgb) -> (r: [u8; REPORT_LEN])
    ensures
        r@ == mouse_color(color),
        shows(r@, 0x1F, 0x2C, 13, color),
{
    proof {
        law_color_reports_show_the_color(color);
    }
    let mut bytes = [0u8;REPORT_LEN];
    let start = write_matrix_header(
        &mut bytes,
        TX_ID_MOUSE,
        MOUSE_LED_DATA_SIZE,
        MOUSE_LED_COUNT_MINUS_ONE,
    );
    fill_leds(&mut bytes, start, MOUSE_LED_ZONES, color);
    proof {
        assert(bytes@ =~= matrix_body(
            TX_ID_MOUSE,
            MOUSE_LED_DATA_SIZE,
            MOUSE_LED_ZONES as int,
            color,
        ));
    }
    bytes[CRC_INDEX] = compute_crc(&bytes);
    bytes
}

/// Build a query report: `[_, tx_id, 0, 0, 0, data_size, class, cmd, args..., _, crc, _]`.
pub fn build_query(tx_id: u8, class: u8, cmd: u8, data_size: u8, args: &[u8]) -> (r: [u8;
    REPORT_LEN])
    requires
        8 + args@.len() <= CRC_INDEX,
    ensures
        r@ == query_report(tx_id, class, cmd, data_size, args@),
        asks_with(r@, tx_id, class, cmd, data_size, args@),
{
    proof {
        law_query_layout(tx_id, class, cmd, data_size, args@);
    }
    let mut bytes = [0u8;REPORT_LEN];
    bytes[1] = tx_id;
    bytes[5] = data_size;
    bytes[6] = class;
    bytes[7] = cmd;
    let mut i: usize = 0;
    while i < args.len()
        invariant
            i <= args@.len(),
            8 + args@.len() <= CRC_INDEX,
            forall|k: int| 8 <= k < 8 + i ==> #[trigger] bytes@[k] == args@[k - 8],
            forall|k: int|
                0 <= k < REPORT_LEN && !(8 <= k < 8 + i) ==> #[trigger] bytes@[k] == (if k == 1 {
                    tx_id
                } else if k == 5 {
                    data_size
                } else if k == 6 {
                    class
                } else if k == 7 {
                    cmd
                } else {
                    0
                }),
        decreases args@.len() - i,
    {
        bytes[8 + i] = args[i];
        i = i + 1;
    }
    proof {
        assert(bytes@ =~= query_body(tx_id, class, cmd, data_size, args@));
    }
    bytes[CRC_INDEX] = compute_crc(&bytes);
    bytes
}

// ---------- Questions ----------

/// A request to exchange with the dock, and the words under which a failure
/// of that exchange is reported.
pub struct Question {
    pub request: [u8; REPORT_LEN],
    pub context: String,
}

impl Question {
    pub open spec fn asks(self, request: Seq<u8>, context: Seq<char>) -> bool {
        self.request@ == request && self.context@ == context
    }
}

/// The high byte of `v`.
pub open spec fn hi(v: u16) -> u8 {
    (v / 256) as u8
}

/// The low byte of `v`.
pub open spec fn lo(v: u16) -> u8 {
    (v % 256) as u8
}

/// The value whose high byte is `h` and whose low byte is `l`.
pub open spec fn be16(h: u8, l: u8) -> u16 {
    (h * 256 + l) as u16
}

pub open spec fn serial_query(tx_id: u8) -> Seq<u8> {
    query_report(tx_id, CLASS_DEVICE, CMD_GET_SERIAL, 0x16, Seq::empty())
}

pub open spec fn firmware_query(tx_id: u8) -> Seq<u8> {
    query_report(tx_id, CLASS_DEVICE, CMD_GET_FIRMWARE, 0x02, Seq::empty())
}

pub open spec fn battery_level_query() -> Seq<u8> {
    query_report(TX_ID_MOUSE, CLASS_POWER, CMD_GET_BATTERY_LEVEL, 0x02, Seq::empty())
}

pub open spec fn charging_query() -> Seq<u8> {
    query_report(TX_ID_MOUSE, CLASS_POWER, CMD_GET_CHARGING, 0x02, Seq::empty())
}

pub open spec fn profile_count_query() -> Seq<u8> {
    query_report(TX_ID_MOUSE, CLASS_PROFILE, CMD_GET_PROFILE_COUNT, 0x01, Seq::empty())
}

pub open spec fn active_profile_query() -> Seq<u8> {
    query_report(TX_ID_MOUSE, CLASS_PROFILE, CMD_GET_ACTIVE_PROFILE, 0x01, Seq::empty())
}

pub open spec fn dpi_query() -> Seq<u8> {
    query_report(TX_ID_MOUSE, CLASS_DPI, CMD_GET_DPI, 0x07, seq![LIVESTORE])
}

pub open spec fn dpi_stages_query() -> Seq<u8> {
    query_report(
        TX_ID_MOUSE,
        CLASS_DPI,
        CMD_GET_DPI_STAGES,
        DPI_STAGES_DATA_SIZE,
        seq![LIVESTORE],
    )
}

/// The arguments of a DPI write: the slot, then the value on both axes.
pub open spec fn dpi_args(store: u8, dpi: u16) -> Seq<u8> {
    seq![store, hi(dpi), lo(dpi), hi(dpi), lo(dpi)]
}

pub open spec fn dpi_write(store: u8, dpi: u16) -> Seq<u8> {
    query_report(TX_ID_MOUSE, CLASS_DPI, CMD_SET_DPI, 0x07, dpi_args(store, dpi))
}

/// Byte `j` of the 7-byte entry of stage `k` (counted from 0): the 1-based
/// index, X and Y big-endian with the same value, two reserved zero bytes.
pub open spec fn stage_entry(k: int, dpi: u16, j: int) -> u8 {
    if j == 0 {
        ((k + 1) % 256) as u8
    } else if j == 1 || j == 3 {
        hi(dpi)
    } else if j == 2 || j == 4 {
        lo(dpi)
    } else {
        0
    }
}

/// The arguments of a stage table write: `[store, active_stage, count]`, then
/// 7 bytes per stage.
pub open spec fn stages_args(store: u8, active: u8, stages: Seq<u16>) -> Seq<u8> {
    Seq::new(
        3 + 7 * stages.len(),
        |i: int|
            if i == 0 {
                store
            } else if i == 1 {
                active
            } else if i == 2 {
                (stages.len() % 256) as u8
            } else {
                stage_entry((i - 3) / 7, stages[(i - 3) / 7], (i - 3) % 7)
            },
    )
}

pub open spec fn stages_write(store: u8, active: u8, stages: Seq<u16>) -> Seq<u8> {
    query_report(
        TX_ID_MOUSE,
        CLASS_DPI,
        CMD_SET_DPI_STAGES,
        DPI_STAGES_DATA_SIZE,
        stages_args(store, active, stages),
    )
}

/// "live" / "stored", as failure reports name the slots.
pub open spec fn slot_label(store: u8) -> Seq<char> {
    if store == LIVESTORE {
        "live"@
    } else {
        "stored"@
    }
}

fn ask(
    tx_id: u8,
    class: u8,
    cmd: u8,
    data_size: u8,
    args: &[u8],
    context: &str,
) -> (r: Question)
    requires
        8 + args@.len() <= CRC_INDEX,
    ensures
        r.asks(query_report(tx_id, class, cmd, data_size, args@), context@),
{
    Question {
        request: build_query(tx_id, class, cmd, data_size, args),
        context: context.to_owned(),
    }
}

/// Ask the device behind `tx_id` for its serial number.
pub fn query_serial(tx_id: u8) -> (r: Question)
    ensures
        r.asks(serial_query(tx_id), "serial query failed"@),
{
    let none: [u8; 0] = [];
    proof {
        assert(none@ =~= Seq::empty());
    }
    ask(tx_id, CLASS_DEVICE, CMD_GET_SERIAL, 0x16, &none, "serial query failed")
}

/// Ask the device behind `tx_id` for its firmware version.
pub fn query_firmware(tx_id: u8) -> (r: Question)
    ensures
        r.asks(firmware_query(tx_id), "firmware query failed"@),
{
    let none: [u8; 0] = [];
    proof {
        assert(none@ =~= Seq::empty());
    }
    ask(tx_id, CLASS_DEVICE, CMD_GET_FIRMWARE, 0x02, &none, "firmware query failed")
}

/// Ask for the DPI of the live slot: it reflects presses of the DPI button,
/// the stored slot doesn't.
pub fn query_dpi() -> (r: Question)
    ensures
        r.asks(dpi_query(), "DPI query failed"@),
{
    let args: [u8; 1] = [LIVESTORE];
    proof {
        assert(args@ =~= seq![LIVESTORE]);
    }
    ask(TX_ID_MOUSE, CLASS_DPI, CMD_GET_DPI, 0x07, &args, "DPI query failed")
}

/// Ask for the stage table of the live slot, the one the button cycles.
pub fn query_dpi_stages() -> (r: Question)
    ensures
        r.asks(dpi_stages_query(), "DPI stage table query failed"@),
{
    let args: [u8; 1] = [LIVESTORE];
    proof {
        assert(args@ =~= seq![LIVESTORE]);
    }
    ask(
        TX_ID_MOUSE,
        CLASS_DPI,
        CMD_GET_DPI_STAGES,
        DPI_STAGES_DATA_SIZE,
        &args,
        "DPI stage table query failed",
    )
}

/// "live" / "stored" for error messages, so a failure between the two writes
/// says which slot was left untouched.
pub fn slot_name(store: u8) -> (r: &'static str)
    ensures
        r@ == slot_label(store),
{
    if store == LIVESTORE {
        "live"
    } else {
        "stored"
    }
}

/// Write the DPI to one slot. The report carries X and Y as big-endian u16
/// pairs (same layout as the GET response); both axes get the same value.
pub fn set_dpi(store: u8, dpi: u16) -> (r: Question)
    ensures
        r.asks(dpi_write(store, dpi), "DPI set failed ("@ + slot_label(store) + " slot)"@),
        r.request@[8] == store,
        holds_at(r.request@, 9, dpi),
        holds_at(r.request@, 11, dpi),
{
    proof {
        law_dpi_write_carries_its_value(store, dpi);
    }
    let h: u8 = (dpi / 256) as u8;
    let l: u8 = (dpi % 256) as u8;
    let args: [u8; 5] = [store, h, l, h, l];
    proof {
        assert(args@ =~= dpi_args(store, dpi));
    }
    let mut context = "DPI set failed (".to_owned();
    context.append(slot_name(store));
    context.append(" slot)");
    ask(TX_ID_MOUSE, CLASS_DPI, CMD_SET_DPI, 0x07, &args, context.as_str())
}

/// Write the onboard stage table (the one the Cycle Up Sensitivity Stages
/// button cycles) to one slot.
pub fn set_dpi_stages(store: u8, active: u8, stages: &[u16]) -> (r: Question)
    requires
        11 + 7 * stages@.len() <= CRC_INDEX,
    ensures
        r.asks(
            stages_write(store, active, stages@),
            "DPI stage table write failed ("@ + slot_label(store) + " slot)"@,
        ),
{
    let args = dpi_stages_args(store, active, stages);
    let mut context = "DPI stage table write failed (".to_owned();
    context.append(slot_name(store));
    context.append(" slot)");
    ask(
        TX_ID_MOUSE,
        CLASS_DPI,
        CMD_SET_DPI_STAGES,
        DPI_STAGES_DATA_SIZE,
        args.as_slice(),
        context.as_str(),
    )
}

/// `[store, active_stage, count]`, then 7 bytes per stage: 1-based index,
/// X and Y big-endian (same value on both axes), two reserved zero bytes.
pub fn dpi_stages_args(store: u8, active: u8, stages: &[u16]) -> (r: Vec<u8>)
    ensures
        r@ == stages_args(store, active, stages@),
{
    let mut args: Vec<u8> = vec![store, active, (stages.len() % 256) as u8];
    let mut i: usize = 0;
    while i < stages.len()
        invariant
            i <= stages@.len(),
            args@ == stages_args(store, active, stages@).take(3 + 7 * i),
        decreases stages@.len() - i,
    {
        let dpi = stages[i];
        let h: u8 = (dpi / 256) as u8;
        let l: u8 = (dpi % 256) as u8;
        let ghost before = args@;
        args.push(((i % 256 + 1) % 256) as u8);
        args.push(h);
        args.push(l);
        args.push(h);
        args.push(l);
        args.push(0x00);
        args.push(0x00);
        proof {
            let all = stages_args(store, active, stages@);
            assert forall|k: int| 0 <= k < 3 + 7 * (i + 1) implies args@[k] == all[k] by {
                if k < 3 + 7 * i {
                    assert(args@[k] == before[k]);
                } else {
                    assert((k - 3) / 7 == i);
                    assert((k - 3) % 7 == k - 3 - 7 * i);
                }
            }
            assert(args@ =~= all.take(3 + 7 * (i + 1)));
        }
        i = i + 1;
    }
    proof {
        assert(args@ =~= stages_args(store, active, stages@));
    }
    args
}

// ---------- Battery ----------

#[derive(Debug, Clone, Copy, PartialEq, Eq, Structural)]
pub struct BatteryStatus {
    pub percent: u8,
    pub charging: bool,
}

impl BatteryStatus {
    pub open spec fn text(self) -> Seq<char> {
        let level = text::decimal(self.percent as nat) + "%"@;
        if self.charging {
            level + " (charging)"@
        } else {
            level
        }
    }

    /// `89%`, or `89% (charging)`.
    pub fn to_string(&self) -> (r: String)
        ensures
            r@ == self.text(),
    {
        let mut r = decimal_text(self.percent as u64);
        r.append("%");
        if self.charging {
            r.append(" (charging)");
        }
        r
    }
}

/// Razer reports battery as 0..=255; rescaled to 0..=100 (truncating).
pub open spec fn battery_percent(raw: u8) -> int {
    raw * 100 / 255
}

/// What the two replies to a battery query say.
pub open spec fn battery_status(level: Seq<u8>, charging: Seq<u8>) -> BatteryStatus {
    BatteryStatus { percent: battery_percent(level[9]) as u8, charging: charging[9] != 0 }
}

/// Razer reports battery as 0..=255; rescale to 0..=100 (truncating).
pub fn parse_battery_percent(raw: u8) -> (r: u8)
    ensures
        r == battery_percent(raw),
        r <= 100,
        r * 255 <= raw * 100 < (r + 1) * 255,
{
    ((raw as u32 * 100) / 255) as u8
}

/// The battery query under way: the level is asked for first, then whether
/// the mouse charges.
#[derive(Debug, Clone, Copy)]
pub enum BatteryQuery {
    Level,
    Charging { level: [u8; REPORT_LEN] },
}

/// What follows from a reply to the question that was pending.
pub enum BatteryProgress {
    Ask(BatteryQuery),
    Done(BatteryStatus),
    Failed,
}

/// A missing reply ends the query; the level leads to the charging question,
/// and both together to a reading.
pub open spec fn battery_next(
    query: BatteryQuery,
    reply: Option<[u8; REPORT_LEN]>,
) -> BatteryProgress {
    match (query, reply) {
        (_, None) => BatteryProgress::Failed,
        (BatteryQuery::Level, Some(level)) => BatteryProgress::Ask(
            BatteryQuery::Charging { level },
        ),
        (BatteryQuery::Charging { level }, Some(charging)) => BatteryProgress::Done(
            battery_status(level@, charging@),
        ),
    }
}

/// Start a battery query.
pub fn query_battery() -> (r: BatteryQuery)
    ensures
        r == BatteryQuery::Level,
{
    BatteryQuery::Level
}

impl BatteryQuery {
    /// The question that is pending.
    pub fn question(&self) -> (r: Question)
        ensures
            match *self {
                BatteryQuery::Level => r.asks(
                    battery_level_query(),
                    "battery level query failed"@,
                ),
                BatteryQuery::Charging { .. } => r.asks(
                    charging_query(),
                    "charging status query failed"@,
                ),
            },
    {
        let none: [u8; 0] = [];
        proof {
            assert(none@ =~= Seq::empty());
        }
        match self {
            BatteryQuery::Level => ask(
                TX_ID_MOUSE,
                CLASS_POWER,
                CMD_GET_BATTERY_LEVEL,
                0x02,
                &none,
                "battery level query failed",
            ),
            BatteryQuery::Charging { .. } => ask(
                TX_ID_MOUSE,
                CLASS_POWER,
                CMD_GET_CHARGING,
                0x02,
                &none,
                "charging status query failed",
            ),
        }
    }

    /// The reply to the pending question came, or the exchange failed.
    pub fn on_reply(self, reply: Option<[u8; REPORT_LEN]>) -> (r: BatteryProgress)
        ensures
            r == battery_next(self, reply),
    {
        match reply {
            None => BatteryProgress::Failed,
            Some(bytes) => match self {
                BatteryQuery::Level => BatteryProgress::Ask(
                    BatteryQuery::Charging { level: bytes },
                ),
                BatteryQuery::Charging { level } => BatteryProgress::Done(
                    BatteryStatus {
                        percent: parse_battery_percent(level[9]),
                        charging: bytes[9] != 0,
                    },
                ),
            },
        }
    }
}

// ---------- Serial ----------

/// What the lossy UTF-8 decoding of `bytes` gives.
pub uninterp spec fn utf8_lossy(bytes: Seq<u8>) -> Seq<char>;

/// Calls `String::from_utf8_lossy`. Bytes that are valid UTF-8 decode to the
/// characters they encode; other bytes leave a replacement character in the
/// text. A NUL comes only from a zero byte. How many replacement characters there
/// are, and where, is left to the name.
#[verifier::external_body]
fn decode_lossy(bytes: &[u8]) -> (r: String)
    ensures
        r@ == utf8_lossy(bytes@),
        valid_utf8(bytes@) ==> r@ == decode_utf8(bytes@),
        !valid_utf8(bytes@) ==> r@.contains('\u{FFFD}'),
        !bytes@.contains(0) ==> !r@.contains('\0'),
{
    String::from_utf8_lossy(bytes).into_owned()
}

/// The bytes in front of the first zero.
pub open spec fn until_zero(s: Seq<u8>) -> Seq<u8>
    decreases s.len(),
{
    if s.len() == 0 || s[0] == 0 {
        Seq::empty()
    } else {
        seq![s[0]] + until_zero(s.drop_first())
    }
}

/// The serial as raw bytes: the 22-byte argument block, zero-terminated.
pub open spec fn serial_field(response: Seq<u8>) -> Seq<u8> {
    until_zero(response.subrange(8, 30))
}

pub open spec fn all_ascii(bytes: Seq<u8>) -> bool {
    forall|i: int| 0 <= i < bytes.len() ==> #[trigger] bytes[i] < 0x80
}

/// The characters that ASCII bytes stand for.
pub open spec fn ascii_text(bytes: Seq<u8>) -> Seq<char> {
    bytes.map_values(|b: u8| b as char)
}

/// The raw bytes of the serial in a reply.
pub fn serial_bytes(response: &[u8; REPORT_LEN]) -> (r: Vec<u8>)
    ensures
        r@ == serial_field(response@),
{
    let mut r: Vec<u8> = Vec::new();
    let mut i: usize = 8;
    proof {
        assert(response@.subrange(8, 30) =~= response@.subrange(8, 30).skip(0));
    }
    while i < 30 && response[i] != 0
        invariant
            8 <= i <= 30,
            serial_field(response@) =~= r@ + until_zero(response@.subrange(8, 30).skip(i - 8)),
        decreases 30 - i,
    {
        proof {
            let rest = response@.subrange(8, 30).skip(i - 8);
            assert(rest.drop_first() =~= response@.subrange(8, 30).skip(i - 7));
        }
        r.push(response[i]);
        i = i + 1;
    }
    r
}

/// The decoded serial without surrounding white space.
pub fn clean_serial(text: &str) -> (r: String)
    ensures
        r@ == text::trimmed(text@),
{
    trim(text)
}

/// The serial that a reply tells.
pub open spec fn serial_of(response: Seq<u8>) -> Seq<char> {
    text::trimmed(utf8_lossy(serial_field(response)))
}

/// Serial is an ASCII string in the 22-byte argument block, zero-terminated.
pub fn parse_serial(response: &[u8; REPORT_LEN]) -> (r: String)
    ensures
        r@ == serial_of(response@),
        all_ascii(serial_field(response@)) ==> r@ == text::trimmed(
            ascii_text(serial_field(response@)),
        ),
        valid_utf8(serial_field(response@)) ==> r@ == text::trimmed(
            decode_utf8(serial_field(response@)),
        ),
        !valid_utf8(serial_field(response@)) ==> r@.contains('\u{FFFD}'),
        !r@.contains('\0'),
{
    let bytes = serial_bytes(response);
    let text = decode_lossy(bytes.as_slice());
    proof {
        if all_ascii(bytes@) {
            lemma_ascii_decodes(bytes@);
        }
        lemma_no_zero_before_the_first(response@.subrange(8, 30));
        text::lemma_trimmed_keeps(text@, '\u{FFFD}');
        text::lemma_trimmed_keeps(text@, '\0');
    }
    clean_serial(text.as_str())
}

proof fn lemma_no_zero_before_the_first(s: Seq<u8>)
    ensures
        !until_zero(s).contains(0),
    decreases s.len(),
{
    if s.len() > 0 && s[0] != 0 {
        lemma_no_zero_before_the_first(s.drop_first());
        let rest = until_zero(s.drop_first());
        assert forall|i: int| 0 <= i < until_zero(s).len() implies until_zero(s)[i] != 0 by {
            if i > 0 {
                assert(until_zero(s)[i] == rest[i - 1]);
            }
        }
    }
}

proof fn lemma_ascii_decodes(bytes: Seq<u8>)
    requires
        all_ascii(bytes),
    ensures
        valid_utf8(bytes),
        decode_utf8(bytes) == ascii_text(bytes),
{
    let chars = ascii_text(bytes);
    assert(is_ascii_chars(chars));
    is_ascii_chars_encode_utf8(chars);
    assert(encode_utf8(chars) =~= bytes);
    encode_utf8_valid_utf8(chars);
    encode_utf8_decode_utf8(chars);
}

// ---------- Firmware ----------

#[derive(Debug, Clone, Copy, PartialEq, Eq, Structural)]
pub struct FirmwareVersion {
    pub major: u8,
    pub minor: u8,
}

impl FirmwareVersion {
    pub open spec fn text(self) -> Seq<char> {
        text::decimal(self.major as nat) + "."@ + text::padded_left(text::decimal(self.minor as nat), '0', 2)
    }

    /// `2.01`: the minor number has at least two digits.
    pub fn to_string(&self) -> (r: String)
        ensures
            r@ == self.text(),
    {
        proof {
            reveal_strlit("0");
        }
        let mut r = decimal_text(self.major as u64);
        r.append(".");
        let minor = decimal_text(self.minor as u64);
        r.append(pad_left(minor.as_str(), "0", 2).as_str());
        r
    }
}

pub open spec fn firmware_of(reply: Seq<u8>) -> FirmwareVersion {
    FirmwareVersion { major: reply[8], minor: reply[9] }
}

pub fn parse_firmware(reply: &[u8; REPORT_LEN]) -> (r: FirmwareVersion)
    ensures
        r == firmware_of(reply@),
{
    FirmwareVersion { major: reply[8], minor: reply[9] }
}

// ---------- Profiles ----------

#[derive(Debug, Clone, Copy, PartialEq, Eq, Structural)]
pub struct ProfileInfo {
    pub active: u8,
    pub count: u8,
}

/// The indicator color of each onboard profile slot.
pub open spec fn profile_color(slot: u8) -> Option<Seq<char>> {
    if slot == 1 {
        Some("white"@)
    } else if slot == 2 {
        Some("red"@)
    } else if slot == 3 {
        Some("green"@)
    } else if slot == 4 {
        Some("blue"@)
    } else if slot == 5 {
        Some("cyan"@)
    } else {
        None
    }
}

impl ProfileInfo {
    pub open spec fn text(self) -> Seq<char> {
        let of_count = " of "@ + text::decimal(self.count as nat);
        match profile_color(self.active) {
            Some(color) => text::decimal(self.active as nat) + " ("@ + color + ")"@ + of_count,
            None => text::decimal(self.active as nat) + of_count,
        }
    }

    /// `4 (blue) of 5`; a slot without a known color is shown as the bare number.
    pub fn to_string(&self) -> (r: String)
        ensures
            r@ == self.text(),
    {
        let mut r = decimal_text(self.active as u64);
        if let Some(color) = profile_color_name(self.active) {
            r.append(" (");
            r.append(color);
            r.append(")");
        }
        let mut of_count = " of ".to_owned();
        of_count.append(decimal_text(self.count as u64).as_str());
        r.append(of_count.as_str());
        r
    }
}

/// Color shown by the mouse's profile indicator LED for each slot.
pub fn profile_color_name(slot: u8) -> (r: Option<&'static str>)
    ensures
        match r {
            Some(name) => profile_color(slot) == Some(name@),
            None => profile_color(slot) is None,
        },
{
    match slot {
        1 => Some("white"),
        2 => Some("red"),
        3 => Some("green"),
        4 => Some("blue"),
        5 => Some("cyan"),
        _ => None,
    }
}

/// What the two replies to a profile query say.
pub open spec fn profiles_of(count: Seq<u8>, active: Seq<u8>) -> ProfileInfo {
    ProfileInfo { active: active[8], count: count[8] }
}

/// The profile query under way: the slot count is asked for first, then the
/// active slot.
#[derive(Debug, Clone, Copy)]
pub enum ProfileQuery {
    Count,
    Active { count: [u8; REPORT_LEN] },
}

/// What follows from a reply to the question that was pending.
pub enum ProfileProgress {
    Ask(ProfileQuery),
    Done(ProfileInfo),
    Failed,
}

/// A missing reply ends the query; the count leads to the question for the
/// active slot, and both together to an answer.
pub open spec fn profiles_next(
    query: ProfileQuery,
    reply: Option<[u8; REPORT_LEN]>,
) -> ProfileProgress {
    match (query, reply) {
        (_, None) => ProfileProgress::Failed,
        (ProfileQuery::Count, Some(count)) => ProfileProgress::Ask(ProfileQuery::Active { count }),
        (ProfileQuery::Active { count }, Some(active)) => ProfileProgress::Done(
            profiles_of(count@, active@),
        ),
    }
}

/// Start a profile query.
pub fn query_profiles() -> (r: ProfileQuery)
    ensures
        r == ProfileQuery::Count,
{
    ProfileQuery::Count
}

impl ProfileQuery {
    /// The question that is pending.
    pub fn question(&self) -> (r: Question)
        ensures
            match *self {
                ProfileQuery::Count => r.asks(
                    profile_count_query(),
                    "profile count query failed"@,
                ),
                ProfileQuery::Active { .. } => r.asks(
                    active_profile_query(),
                    "active profile query failed"@,
                ),
            },
    {
        let none: [u8; 0] = [];
        proof {
            assert(none@ =~= Seq::empty());
        }
        match self {
            ProfileQuery::Count => ask(
                TX_ID_MOUSE,
                CLASS_PROFILE,
                CMD_GET_PROFILE_COUNT,
                0x01,
                &none,
                "profile count query failed",
            ),
            ProfileQuery::Active { .. } => ask(
                TX_ID_MOUSE,
                CLASS_PROFILE,
                CMD_GET_ACTIVE_PROFILE,
                0x01,
                &none,
                "active profile query failed",
            ),
        }
    }

    /// The reply to the pending question came, or the exchange failed.
    pub fn on_reply(self, reply: Option<[u8; REPORT_LEN]>) -> (r: ProfileProgress)
        ensures
            r == profiles_next(self, reply),
    {
        match reply {
            None => ProfileProgress::Failed,
            Some(bytes) => match self {
                ProfileQuery::Count => ProfileProgress::Ask(ProfileQuery::Active { count: bytes }),
                ProfileQuery::Active { count } => ProfileProgress::Done(
                    ProfileInfo { active: bytes[8], count: count[8] },
                ),
            },
        }
    }
}

// ---------- DPI ----------

/// X and Y in a DPI reply: big-endian u16 pairs after the store byte.
pub open spec fn dpi_of(reply: Seq<u8>) -> (u16, u16) {
    (be16(reply[9], reply[10]), be16(reply[11], reply[12]))
}

fn from_be(h: u8, l: u8) -> (r: u16)
    ensures
        r == be16(h, l),
{
    h as u16 * 256 + l as u16
}

/// X and Y from a DPI reply.
pub fn parse_dpi_reply(reply: &[u8; REPORT_LEN]) -> (r: (u16, u16))
    ensures
        r == dpi_of(reply@),
        holds_at(reply@, 9, r.0),
        holds_at(reply@, 11, r.1),
{
    (from_be(reply[9], reply[10]), from_be(reply[11], reply[12]))
}

pub open spec fn dpi_text(dpi: (u16, u16)) -> Seq<char> {
    if dpi.0 == dpi.1 {
        text::decimal(dpi.0 as nat)
    } else {
        text::decimal(dpi.0 as nat) + " / "@ + text::decimal(dpi.1 as nat)
    }
}

/// `1800` when both axes match, `1600 / 800` when they differ.
pub fn format_dpi(dpi: (u16, u16)) -> (r: String)
    ensures
        r@ == dpi_text(dpi),
{
    let (x, y) = dpi;
    let mut r = decimal_text(x as u64);
    if x != y {
        r.append(" / ");
        r.append(decimal_text(y as u64).as_str());
    }
    r
}

// ---------- DPI stage table ----------

/// Onboard stage table state, shown by `--info` as the lock indicator: one
/// stage means the sensitivity is pinned (the Cycle Up Sensitivity Stages
/// button has nothing to cycle to), several mean the button is live.
pub struct DpiStages {
    pub active: u8,
    pub stages: Vec<(u16, u16)>,
}

/// One stage of a live table: the active one stands in brackets.
pub open spec fn stage_text(active: u8, stages: Seq<(u16, u16)>, i: int) -> Seq<char> {
    if (i + 1) % 256 == active {
        "["@ + dpi_text(stages[i]) + "]"@
    } else {
        dpi_text(stages[i])
    }
}

/// The lock indicator: a single stage is a lock; several are listed, the
/// active one in brackets; an empty (garbled) table is shown as absent.
pub open spec fn stage_table_text(active: u8, stages: Seq<(u16, u16)>) -> Seq<char> {
    if stages.len() == 0 {
        "—"@
    } else if stages.len() == 1 {
        "🔒 off — locked at "@ + dpi_text(stages[0])
    } else {
        "🔄 on — "@ + text::joined(
            Seq::new(stages.len(), |i: int| stage_text(active, stages, i)),
            "/"@,
        )
    }
}

impl DpiStages {
    pub open spec fn text(self) -> Seq<char> {
        stage_table_text(self.active, self.stages@)
    }

    /// The lock indicator: a single stage is a lock; several are listed, the
    /// active one in brackets; an empty (garbled) table is shown as absent.
    pub fn to_string(&self) -> (r: String)
        ensures
            r@ == self.text(),
    {
        if self.stages.len() == 0 {
            return "—".to_owned();
        }
        if self.stages.len() == 1 {
            let mut r = "🔒 off — locked at ".to_owned();
            r.append(format_dpi(self.stages[0]).as_str());
            return r;
        }
        // Not the open-padlock glyph: it is indistinguishable from the closed
        // one in some terminal fonts. The cycle arrows say what the button does.

        let mut parts: Vec<String> = Vec::new();
        let mut i: usize = 0;
        while i < self.stages.len()
            invariant
                i <= self.stages@.len(),
                parts@.len() == i,
                forall|k: int|
                    0 <= k < i ==> #[trigger] parts@[k]@ == stage_text(
                        self.active,
                        self.stages@,
                        k,
                    ),
            decreases self.stages@.len() - i,
        {
            let shown = format_dpi(self.stages[i]);
            let part = if ((i % 256 + 1) % 256) as u8 == self.active {
                let mut bracketed = "[".to_owned();
                bracketed.append(shown.as_str());
                bracketed.append("]");
                bracketed
            } else {
                shown
            };
            parts.push(part);
            i = i + 1;
        }
        proof {
            assert(text::text_of(parts@) =~= Seq::new(
                self.stages@.len(),
                |i: int| stage_text(self.active, self.stages@, i),
            ));
        }
        let mut r = "🔄 on — ".to_owned();
        r.append(join(&parts, "/").as_str());
        r
    }
}

/// How many stages a stage table reply lists; never more than fit the table.
pub open spec fn stage_count(reply: Seq<u8>) -> int {
    if reply[10] < DEFAULT_DPI_STAGES@.len() {
        reply[10] as int
    } else {
        DEFAULT_DPI_STAGES@.len() as int
    }
}

/// The stages of a stage table reply: per stage `[index, X be, Y be, 2
/// reserved]` from byte 11 on.
pub open spec fn stages_of(reply: Seq<u8>) -> Seq<(u16, u16)> {
    Seq::new(
        stage_count(reply) as nat,
        |i: int|
            (
                be16(reply[12 + 7 * i], reply[13 + 7 * i]),
                be16(reply[14 + 7 * i], reply[15 + 7 * i]),
            ),
    )
}

/// Parse a GET stage-table response: after the status header the args are
/// `[store, active_stage, count]` then per stage `[index, X be, Y be, 2
/// reserved]`, the mirror of `dpi_stages_args`.
pub fn parse_dpi_stages(resp: &[u8; REPORT_LEN]) -> (r: DpiStages)
    ensures
        r.active == resp@[9],
        r.stages@ == stages_of(resp@),
        r.stages@.len() <= 5,
{
    let active = resp[9];
    let listed: usize = resp[10] as usize;
    let count: usize = if listed < DEFAULT_DPI_STAGES.len() {
        listed
    } else {
        DEFAULT_DPI_STAGES.len()
    };
    let mut stages: Vec<(u16, u16)> = Vec::new();
    let mut i: usize = 0;
    while i < count
        invariant
            i <= count,
            count == stage_count(resp@),
            count <= 5,
            stages@ == stages_of(resp@).take(i as int),
        decreases count - i,
    {
        let entry: usize = 11 + i * 7;
        stages.push(
            (
                from_be(resp[entry + 1], resp[entry + 2]),
                from_be(resp[entry + 3], resp[entry + 4]),
            ),
        );
        proof {
            assert(stages@ =~= stages_of(resp@).take(i + 1));
        }
        i = i + 1;
    }
    proof {
        assert(stages@ =~= stages_of(resp@));
    }
    DpiStages { active, stages }
}

// ---------- Laws ----------

/// A sealed report carries the checksum of its own bytes.
pub proof fn law_sealed_report_carries_its_checksum(body: Seq<u8>)
    requires
        body.len() == REPORT_LEN,
    ensures
        sealed(body)[CRC_INDEX as int] == checksum(sealed(body)),
{
    assert(sealed(body).subrange(2, CRC_INDEX as int) =~= body.subrange(2, CRC_INDEX as int));
}

/// The checksum depends on bytes `2..CRC_INDEX` and on no others.
pub proof fn law_checksum_covers_body_only(a: Seq<u8>, b: Seq<u8>)
    requires
        a.len() == REPORT_LEN,
        b.len() == REPORT_LEN,
        forall|i: int| 2 <= i < CRC_INDEX ==> #[trigger] a[i] == b[i],
    ensures
        checksum(a) == checksum(b),
{
    assert(a.subrange(2, CRC_INDEX as int) =~= b.subrange(2, CRC_INDEX as int));
}

/// Changing one byte that the checksum covers always changes the checksum.
pub proof fn law_checksum_detects_one_changed_byte(report: Seq<u8>, i: int, value: u8)
    requires
        report.len() == REPORT_LEN,
        2 <= i < CRC_INDEX,
        value != report[i],
    ensures
        checksum(report.update(i, value)) != checksum(report),
{
    let body = report.subrange(2, CRC_INDEX as int);
    assert(report.update(i, value).subrange(2, CRC_INDEX as int) =~= body.update(i - 2, value));
    lemma_xor_update(body, i - 2, value);
    let all = xor_all(body);
    let was = body[i - 2];
    assert(value != was ==> (all ^ was) ^ value != all) by (bit_vector);
}

proof fn lemma_xor_update(s: Seq<u8>, i: int, value: u8)
    requires
        0 <= i < s.len(),
    ensures
        xor_all(s.update(i, value)) == (xor_all(s) ^ s[i]) ^ value,
    decreases s.len(),
{
    let front = xor_all(s.drop_last());
    let last = s.last();
    if i == s.len() - 1 {
        assert(s.update(i, value).drop_last() =~= s.drop_last());
        assert(front ^ value == ((front ^ last) ^ last) ^ value) by (bit_vector);
    } else {
        lemma_xor_update(s.drop_last(), i, value);
        assert(s.update(i, value).drop_last() =~= s.drop_last().update(i, value));
        let was = s[i];
        assert(((front ^ was) ^ value) ^ last == ((front ^ last) ^ was) ^ value) by (bit_vector);
    }
}

/// The arguments of a query can be read back from the report, and every byte
/// behind them up to the checksum is zero.
pub proof fn law_query_arguments_read_back(
    tx_id: u8,
    class: u8,
    cmd: u8,
    data_size: u8,
    args: Seq<u8>,
)
    requires
        8 + args.len() <= CRC_INDEX,
    ensures
        query_report(tx_id, class, cmd, data_size, args).subrange(8, 8 + args.len() as int) == args,
        forall|i: int|
            8 + args.len() <= i < CRC_INDEX ==> #[trigger] query_report(
                tx_id,
                class,
                cmd,
                data_size,
                args,
            )[i] == 0,
{
    assert(query_report(tx_id, class, cmd, data_size, args).subrange(8, 8 + args.len() as int) =~= args);
}

/// A stage table that a reply carries in the layout of a write reads back as
/// the table that was written, with the same value on both axes.
pub proof fn law_stage_table_reads_back(reply: Seq<u8>, store: u8, active: u8, stages: Seq<u16>)
    requires
        reply.len() == REPORT_LEN,
        stages.len() <= 5,
        reply.subrange(8, 11 + 7 * stages.len() as int) == stages_args(store, active, stages),
    ensures
        reply[9] == active,
        stages_of(reply) == stages.map_values(|dpi: u16| (dpi, dpi)),
{
    let args = stages_args(store, active, stages);
    let part = reply.subrange(8, 11 + 7 * stages.len() as int);
    assert(part[1] == args[1] && part[2] == args[2]);
    assert(stage_count(reply) == stages.len());
    assert forall|i: int| 0 <= i < stages.len() implies stages_of(reply)[i] == (
        stages[i],
        stages[i],
    ) by {
        assert(part[4 + 7 * i] == args[4 + 7 * i]);
        assert(part[5 + 7 * i] == args[5 + 7 * i]);
        assert(part[6 + 7 * i] == args[6 + 7 * i]);
        assert(part[7 + 7 * i] == args[7 + 7 * i]);
        assert((1 + 7 * i) / 7 == i && (1 + 7 * i) % 7 == 1);
        assert((2 + 7 * i) / 7 == i && (2 + 7 * i) % 7 == 2);
        assert((3 + 7 * i) / 7 == i && (3 + 7 * i) % 7 == 3);
        assert((4 + 7 * i) / 7 == i && (4 + 7 * i) % 7 == 4);
    }
    assert(stages_of(reply) =~= stages.map_values(|dpi: u16| (dpi, dpi)));
}

/// A DPI value that a reply carries in the layout of a write reads back as
/// that value on both axes.
pub proof fn law_dpi_reads_back(reply: Seq<u8>, store: u8, dpi: u16)
    requires
        reply.len() == REPORT_LEN,
        reply.subrange(8, 13) == dpi_args(store, dpi),
    ensures
        dpi_of(reply) == (dpi, dpi),
{
    let part = reply.subrange(8, 13);
    assert(part[1] == hi(dpi) && part[2] == lo(dpi) && part[3] == hi(dpi) && part[4] == lo(dpi));
}

/// The battery level keeps its order when it is rescaled, an empty battery
/// shows 0 and only a full one shows 100.
pub proof fn law_battery_percent_is_monotone(a: u8, b: u8)
    requires
        a <= b,
    ensures
        0 <= battery_percent(a) <= battery_percent(b) <= 100,
        battery_percent(0) == 0,
        battery_percent(b) == 100 <==> b == 255,
{
}

/// A battery reading takes two answers, to the level question and then to the
/// charging question, and comes from these two alone.
pub proof fn law_battery_reading_takes_both_answers(
    first: Option<[u8; REPORT_LEN]>,
    second: Option<[u8; REPORT_LEN]>,
)
    ensures
        !(battery_next(BatteryQuery::Level, first) is Done),
        match battery_next(BatteryQuery::Level, first) {
            BatteryProgress::Ask(query) => match battery_next(query, second) {
                BatteryProgress::Done(status) => first is Some && second is Some && status
                    == battery_status(first->0@, second->0@) && status.percent <= 100,
                BatteryProgress::Ask(_) => false,
                BatteryProgress::Failed => second is None,
            },
            _ => first is None,
        },
{
}

/// The dock and the mouse are told apart by the size field and the LED count:
/// each report carries its own pair, and the two pairs differ.
pub proof fn law_color_reports_are_routed(color: Rgb)
    ensures
        dock_color(color)[5] == 0x1D && dock_color(color)[12] == 0x07,
        mouse_color(color)[5] == 0x2C && mouse_color(color)[12] == 0x0C,
{
}

/// The three bytes of LED `k` in a color report.
pub open spec fn led(report: Seq<u8>, k: int) -> (u8, u8, u8) {
    (report[13 + 3 * k], report[14 + 3 * k], report[15 + 3 * k])
}

/// A color report for `zones` LEDs, byte by byte: the header, the red, green and
/// blue of the color for each LED in this order, and zeros everywhere else but for
/// the checksum.
pub open spec fn shows(
    report: Seq<u8>,
    tx_id: u8,
    data_size: u8,
    zones: int,
    color: Rgb,
) -> bool {
    &&& report.len() == 90
    &&& report[1] == tx_id && report[5] == data_size && report[6] == 0x0F && report[7] == 0x03
    &&& report[12] == zones - 1
    &&& forall|k: int|
        0 <= k < zones ==> #[trigger] led(report, k) == (color.red, color.green, color.blue)
    &&& forall|i: int|
        0 <= i < 90 && i != 1 && i != 5 && i != 6 && i != 7 && i != 12 && i != 88 && !(13 <= i < 13
            + 3 * zones) ==> #[trigger] report[i] == 0
}

/// Both reports of a color carry its red, green and blue, in this order, for each
/// of their LEDs: 8 on the dock, 13 on the mouse.
pub proof fn law_color_reports_show_the_color(color: Rgb)
    ensures
        shows(dock_color(color), 0xF7, 0x1D, 8, color),
        shows(mouse_color(color), 0x1F, 0x2C, 13, color),
        dock_color(color)[88] == checksum(dock_color(color)),
        mouse_color(color)[88] == checksum(mouse_color(color)),
        dock_color(color).subrange(13, 37) == mouse_color(color).subrange(13, 37),
{
    let dock = matrix_body(TX_ID_DOCK_LED, DOCK_LED_DATA_SIZE, DOCK_LED_ZONES as int, color);
    let mouse = matrix_body(TX_ID_MOUSE, MOUSE_LED_DATA_SIZE, MOUSE_LED_ZONES as int, color);
    law_sealed_report_carries_its_checksum(dock);
    law_sealed_report_carries_its_checksum(mouse);
    assert(dock_color(color).subrange(13, 37) =~= mouse_color(color).subrange(13, 37));
}

/// Two colors that differ are told apart on the dock and on the mouse.
pub proof fn law_colors_are_told_apart(a: Rgb, b: Rgb)
    requires
        dock_color(a) == dock_color(b) || mouse_color(a) == mouse_color(b),
    ensures
        a == b,
{
    law_color_reports_show_the_color(a);
    law_color_reports_show_the_color(b);
    let (x, y) = if dock_color(a) == dock_color(b) {
        (dock_color(a), dock_color(b))
    } else {
        (mouse_color(a), mouse_color(b))
    };
    assert(led(x, 0) == led(y, 0));
}

/// The bytes of a query in front of its arguments and behind them.
pub open spec fn heads(report: Seq<u8>, tx_id: u8, class: u8, cmd: u8, data_size: u8) -> bool {
    &&& report.len() == 90
    &&& report[0] == 0 && report[2] == 0 && report[3] == 0 && report[4] == 0 && report[89] == 0
    &&& report[1] == tx_id && report[5] == data_size && report[6] == class && report[7] == cmd
    &&& report[88] == checksum(report)
}

/// A query, byte by byte: who is asked, how much data, which command of which
/// class, the arguments, and zeros everywhere else but for the checksum.
pub open spec fn asks_with(
    report: Seq<u8>,
    tx_id: u8,
    class: u8,
    cmd: u8,
    data_size: u8,
    args: Seq<u8>,
) -> bool {
    &&& heads(report, tx_id, class, cmd, data_size)
    &&& forall|i: int| #![trigger args[i]] 0 <= i < args.len() ==> report[8 + i] == args[i]
    &&& forall|i: int| 8 + args.len() <= i < 88 ==> #[trigger] report[i] == 0
}

/// Every query is laid out alike.
pub proof fn law_query_layout(tx_id: u8, class: u8, cmd: u8, data_size: u8, args: Seq<u8>)
    requires
        8 + args.len() <= 88,
    ensures
        asks_with(
            query_report(tx_id, class, cmd, data_size, args),
            tx_id,
            class,
            cmd,
            data_size,
            args,
        ),
{
    law_sealed_report_carries_its_checksum(query_body(tx_id, class, cmd, data_size, args));
}

/// The checksum is the XOR of bytes 2 to 87: it is 0 of zeros, and a byte that
/// changes changes it by just the bits that change.
pub proof fn law_checksum_follows_each_byte(report: Seq<u8>, i: int, value: u8)
    requires
        report.len() == 90,
        2 <= i < 88,
    ensures
        checksum(report.update(i, value)) == checksum(report) ^ report[i] ^ value,
        (forall|k: int| 2 <= k < 88 ==> #[trigger] report[k] == 0) ==> checksum(report) == 0,
{
    let body = report.subrange(2, CRC_INDEX as int);
    assert(report.update(i, value).subrange(2, CRC_INDEX as int) =~= body.update(i - 2, value));
    lemma_xor_update(body, i - 2, value);
    if forall|k: int| 2 <= k < 88 ==> #[trigger] report[k] == 0 {
        assert forall|k: int| 0 <= k < body.len() implies body[k] == 0 by {
            assert(report[k + 2] == 0);
        }
        lemma_xor_of_zeros(body);
    }
}

proof fn lemma_xor_of_zeros(s: Seq<u8>)
    requires
        forall|k: int| 0 <= k < s.len() ==> #[trigger] s[k] == 0,
    ensures
        xor_all(s) == 0,
    decreases s.len(),
{
    if s.len() > 0 {
        lemma_xor_of_zeros(s.drop_last());
        assert(s.last() == 0);
        assert(0u8 ^ 0u8 == 0u8) by (bit_vector);
    }
}

/// Which command each question is: the device asked, the class, the command, the
/// data size and the argument.
pub proof fn law_questions_use_their_commands(tx_id: u8)
    ensures
        asks_with(serial_query(tx_id), tx_id, 0x00, 0x82, 22, Seq::empty()),
        asks_with(firmware_query(tx_id), tx_id, 0x00, 0x81, 2, Seq::empty()),
        asks_with(battery_level_query(), 0x1F, 0x07, 0x80, 2, Seq::empty()),
        asks_with(charging_query(), 0x1F, 0x07, 0x84, 2, Seq::empty()),
        asks_with(profile_count_query(), 0x1F, 0x05, 0x80, 1, Seq::empty()),
        asks_with(active_profile_query(), 0x1F, 0x05, 0x84, 1, Seq::empty()),
        asks_with(dpi_query(), 0x1F, 0x04, 0x85, 7, seq![0u8]),
        asks_with(dpi_stages_query(), 0x1F, 0x04, 0x86, 38, seq![0u8]),
{
    law_query_layout(tx_id, 0x00, 0x82, 22, Seq::empty());
    law_query_layout(tx_id, 0x00, 0x81, 2, Seq::empty());
    law_query_layout(0x1F, 0x07, 0x80, 2, Seq::empty());
    law_query_layout(0x1F, 0x07, 0x84, 2, Seq::empty());
    law_query_layout(0x1F, 0x05, 0x80, 1, Seq::empty());
    law_query_layout(0x1F, 0x05, 0x84, 1, Seq::empty());
    law_query_layout(0x1F, 0x04, 0x85, 7, seq![0u8]);
    law_query_layout(0x1F, 0x04, 0x86, 38, seq![0u8]);
}

/// The two bytes at `i` are `value`, high byte first.
pub open spec fn holds_at(report: Seq<u8>, i: int, value: u16) -> bool {
    report[i] * 256 + report[i + 1] == value
}

/// A DPI write carries its slot and then the value on both axes, high byte first.
pub proof fn law_dpi_write_carries_its_value(store: u8, dpi: u16)
    ensures
        ({
            let write = dpi_write(store, dpi);
            &&& heads(write, 0x1F, 0x04, 0x05, 7)
            &&& forall|i: int| 13 <= i < 88 ==> #[trigger] write[i] == 0
            &&& write[8] == store
            &&& holds_at(write, 9, dpi)
            &&& holds_at(write, 11, dpi)
        }),
{
    law_query_layout(0x1F, 0x04, 0x05, 7, dpi_args(store, dpi));
    let write = dpi_write(store, dpi);
    let args = dpi_args(store, dpi);
    assert(args[0] == store && args[1] == hi(dpi) && args[2] == lo(dpi));
    assert(args[3] == hi(dpi) && args[4] == lo(dpi));
    assert(write.subrange(8, 13) =~= args);
}

/// Entry `k` of the stage table in a report: its number, counted from 1, `value` on
/// both axes, high byte first, and two zeros.
pub open spec fn holds_stage(report: Seq<u8>, k: int, value: u16) -> bool {
    &&& report[11 + 7 * k] == k + 1
    &&& holds_at(report, 12 + 7 * k, value)
    &&& holds_at(report, 14 + 7 * k, value)
    &&& report[16 + 7 * k] == 0 && report[17 + 7 * k] == 0
}

/// A stage table write carries its slot, the active stage, how many stages there
/// are, and each of the stages.
pub proof fn law_stages_write_carries_its_table(store: u8, active: u8, stages: Seq<u16>)
    requires
        stages.len() <= 11,
    ensures
        heads(stages_write(store, active, stages), 0x1F, 0x04, 0x06, 38),
        forall|i: int|
            11 + 7 * stages.len() <= i < 88 ==> #[trigger] stages_write(store, active, stages)[i]
                == 0,
        stages_write(store, active, stages)[8] == store,
        stages_write(store, active, stages)[9] == active,
        stages_write(store, active, stages)[10] == stages.len(),
        forall|k: int|
            0 <= k < stages.len() ==> #[trigger] holds_stage(
                stages_write(store, active, stages),
                k,
                stages[k],
            ),
{
    let args = stages_args(store, active, stages);
    law_query_layout(0x1F, 0x04, 0x06, 38, args);
    assert(args[0] == store && args[1] == active && args[2] == stages.len());
    assert forall|k: int| 0 <= k < stages.len() implies #[trigger] holds_stage(
        stages_write(store, active, stages),
        k,
        stages[k],
    ) by {
        lemma_written_stage(stages_write(store, active, stages), store, active, stages, k);
    }
}

proof fn lemma_written_stage(write: Seq<u8>, store: u8, active: u8, stages: Seq<u16>, k: int)
    requires
        0 <= k < stages.len() <= 11,
        forall|i: int| #![trigger stages_args(store, active, stages)[i]]
            0 <= i < 3 + 7 * stages.len() ==> write[8 + i] == stages_args(
                store,
                active,
                stages,
            )[i],
    ensures
        holds_stage(write, k, stages[k]),
{
    let args = stages_args(store, active, stages);
    lemma_stage_entry(args, store, active, stages, k);
    assert(args[3 + 7 * k] == write[8 + (3 + 7 * k)]);
    assert(args[4 + 7 * k] == write[8 + (4 + 7 * k)]);
    assert(args[5 + 7 * k] == write[8 + (5 + 7 * k)]);
    assert(args[6 + 7 * k] == write[8 + (6 + 7 * k)]);
    assert(args[7 + 7 * k] == write[8 + (7 + 7 * k)]);
    assert(args[8 + 7 * k] == write[8 + (8 + 7 * k)]);
    assert(args[9 + 7 * k] == write[8 + (9 + 7 * k)]);
}

proof fn lemma_stage_entry(args: Seq<u8>, store: u8, active: u8, stages: Seq<u16>, k: int)
    requires
        args == stages_args(store, active, stages),
        0 <= k < stages.len() <= 11,
    ensures
        args[3 + 7 * k] == k + 1,
        args[4 + 7 * k] == hi(stages[k]),
        args[5 + 7 * k] == lo(stages[k]),
        args[6 + 7 * k] == hi(stages[k]),
        args[7 + 7 * k] == lo(stages[k]),
        args[8 + 7 * k] == 0,
        args[9 + 7 * k] == 0,
{
    assert((7 * k) / 7 == k && (7 * k) % 7 == 0);
    assert((1 + 7 * k) / 7 == k && (1 + 7 * k) % 7 == 1);
    assert((2 + 7 * k) / 7 == k && (2 + 7 * k) % 7 == 2);
    assert((3 + 7 * k) / 7 == k && (3 + 7 * k) % 7 == 3);
    assert((4 + 7 * k) / 7 == k && (4 + 7 * k) % 7 == 4);
    assert((5 + 7 * k) / 7 == k && (5 + 7 * k) % 7 == 5);
    assert((6 + 7 * k) / 7 == k && (6 + 7 * k) % 7 == 6);
}

/// The level is rescaled from 255 to 100 and rounded down: it is the greatest
/// percentage that the raw level reaches.
pub proof fn law_battery_percent_rounds_down(raw: u8)
    ensures
        battery_percent(raw) * 255 <= raw * 100,
        raw * 100 < (battery_percent(raw) + 1) * 255,
{
}

/// A reading comes from byte 9 of each reply: the level, rounded down, of the
/// first, and whether the second is not zero.
pub proof fn law_reading_is_what_the_replies_say(
    level: [u8; REPORT_LEN],
    charging: [u8; REPORT_LEN],
)
    ensures
        battery_next(BatteryQuery::Level, Some(level)) == BatteryProgress::Ask(
            BatteryQuery::Charging { level },
        ),
        match battery_next(BatteryQuery::Charging { level }, Some(charging)) {
            BatteryProgress::Done(status) => {
                &&& status.percent * 255 <= level@[9] * 100 < (status.percent + 1) * 255
                &&& status.charging <==> charging@[9] != 0
            },
            _ => false,
        },
        battery_next(BatteryQuery::Level, None) is Failed,
        battery_next(BatteryQuery::Charging { level }, None) is Failed,
{
    law_battery_percent_rounds_down(level@[9]);
}

/// The profiles come from byte 8 of each reply: how many there are from the first,
/// which is active from the second.
pub proof fn law_profiles_are_what_the_replies_say(
    count: [u8; REPORT_LEN],
    active: [u8; REPORT_LEN],
)
    ensures
        profiles_next(ProfileQuery::Count, Some(count)) == ProfileProgress::Ask(
            ProfileQuery::Active { count },
        ),
        match profiles_next(ProfileQuery::Active { count }, Some(active)) {
            ProfileProgress::Done(profile) => profile.count == count@[8] && profile.active
                == active@[8],
            _ => false,
        },
        profiles_next(ProfileQuery::Count, None) is Failed,
        profiles_next(ProfileQuery::Active { count }, None) is Failed,
{
}

/// The raw serial is what stands in front of the first zero of bytes 8 to 29.
pub proof fn law_serial_ends_at_the_first_zero(response: Seq<u8>)
    requires
        response.len() == 90,
    ensures
        ({
            let serial = serial_field(response);
            &&& serial.len() <= 22
            &&& forall|i: int|
                0 <= i < serial.len() ==> #[trigger] serial[i] == response[8 + i] && serial[i] != 0
            &&& serial.len() < 22 ==> response[8 + serial.len() as int] == 0
        }),
{
    let field = response.subrange(8, 30);
    lemma_until_zero(field);
    let serial = serial_field(response);
    assert forall|i: int| 0 <= i < serial.len() implies #[trigger] serial[i] == response[8 + i]
        && serial[i] != 0 by {
        assert(serial[i] == field[i]);
    }
    if serial.len() < 22 {
        assert(field[serial.len() as int] == 0);
    }
}

proof fn lemma_until_zero(s: Seq<u8>)
    ensures
        until_zero(s).len() <= s.len(),
        forall|i: int|
            0 <= i < until_zero(s).len() ==> #[trigger] until_zero(s)[i] == s[i] && s[i] != 0,
        until_zero(s).len() < s.len() ==> s[until_zero(s).len() as int] == 0,
    decreases s.len(),
{
    if s.len() > 0 && s[0] != 0 {
        let rest = s.drop_first();
        lemma_until_zero(rest);
        assert forall|i: int| 0 <= i < until_zero(s).len() implies #[trigger] until_zero(s)[i]
            == s[i] && s[i] != 0 by {
            if i > 0 {
                assert(until_zero(s)[i] == until_zero(rest)[i - 1]);
                assert(rest[i - 1] == s[i]);
            }
        }
        if until_zero(s).len() < s.len() {
            assert(rest[until_zero(rest).len() as int] == 0);
        }
    }
}

/// A firmware version is byte 8, a point, and byte 9 in at least two digits.
pub proof fn law_firmware_is_told_as_it_is(reply: Seq<u8>)
    requires
        reply.len() == 90,
    ensures
        firmware_of(reply).text() == text::decimal(reply[8] as nat) + "."@ + (if reply[9] < 10 {
            "0"@ + text::decimal(reply[9] as nat)
        } else {
            text::decimal(reply[9] as nat)
        }),
{
    reveal_strlit("0");
    text::law_decimal_has_its_digits(reply[9] as nat);
    if reply[9] < 10 {
        assert(text::repeated('0', 1) =~= "0"@);
    } else {
        assert(text::repeated('0', 2 - text::decimal(reply[9] as nat).len()) =~= Seq::empty());
        assert(Seq::<char>::empty() + text::decimal(reply[9] as nat) =~= text::decimal(
            reply[9] as nat,
        ));
    }
}

/// The slots of the mouse show white, red, green, blue and cyan, and a profile is
/// told with its color, `4 (blue) of 5`; a slot beyond them without one.
pub proof fn law_profile_is_told_with_its_color(profile: ProfileInfo)
    ensures
        ({
            let slot = text::decimal(profile.active as nat);
            let of_count = " of "@ + text::decimal(profile.count as nat);
            &&& profile.active == 1 ==> profile.text() == slot + " ("@ + "white"@ + ")"@ + of_count
            &&& profile.active == 2 ==> profile.text() == slot + " ("@ + "red"@ + ")"@ + of_count
            &&& profile.active == 3 ==> profile.text() == slot + " ("@ + "green"@ + ")"@ + of_count
            &&& profile.active == 4 ==> profile.text() == slot + " ("@ + "blue"@ + ")"@ + of_count
            &&& profile.active == 5 ==> profile.text() == slot + " ("@ + "cyan"@ + ")"@ + of_count
            &&& profile.active == 0 || profile.active > 5 ==> profile.text() == slot + of_count
        }),
{
}

/// A battery is told as its percentage, and whether it charges behind it.
pub proof fn law_battery_is_told_as_it_is(status: BatteryStatus)
    ensures
        !status.charging ==> status.text() == text::decimal(status.percent as nat) + "%"@,
        status.charging ==> status.text() == text::decimal(status.percent as nat) + "%"@
            + " (charging)"@,
{
}

/// X is in bytes 9 and 10 of a DPI reply, Y in bytes 11 and 12, high byte first.
pub proof fn law_dpi_is_read_high_byte_first(reply: Seq<u8>)
    requires
        reply.len() == 90,
    ensures
        holds_at(reply, 9, dpi_of(reply).0),
        holds_at(reply, 11, dpi_of(reply).1),
{
}

/// A DPI value is told once where both axes have it, and X before Y where they
/// differ.
pub proof fn law_dpi_is_told_as_it_is(dpi: (u16, u16))
    ensures
        dpi.0 == dpi.1 ==> dpi_text(dpi) == text::decimal(dpi.0 as nat),
        dpi.0 != dpi.1 ==> dpi_text(dpi) == text::decimal(dpi.0 as nat) + " / "@ + text::decimal(
            dpi.1 as nat,
        ),
{
}

/// A stage table is read entry by entry, five of them at most: X and Y of entry
/// `k` are in bytes 12 + 7k to 15 + 7k, high byte first.
pub proof fn law_stages_are_read_high_byte_first(reply: Seq<u8>)
    requires
        reply.len() == 90,
    ensures
        reply[10] <= 5 ==> stages_of(reply).len() == reply[10],
        reply[10] > 5 ==> stages_of(reply).len() == 5,
        forall|k: int| #![trigger stages_of(reply)[k]]
            0 <= k < stages_of(reply).len() ==> holds_at(
                reply,
                12 + 7 * k,
                stages_of(reply)[k].0,
            ) && holds_at(reply, 14 + 7 * k, stages_of(reply)[k].1),
{
}

/// The values in front of the active stage, each with a slash behind it.
pub open spec fn listed_before(stages: Seq<(u16, u16)>) -> Seq<char>
    decreases stages.len(),
{
    if stages.len() == 0 {
        Seq::empty()
    } else {
        listed_before(stages.drop_last()) + dpi_text(stages.last()) + "/"@
    }
}

/// The values behind the active stage, each with a slash in front of it.
pub open spec fn listed_behind(stages: Seq<(u16, u16)>) -> Seq<char>
    decreases stages.len(),
{
    if stages.len() == 0 {
        Seq::empty()
    } else {
        listed_behind(stages.drop_last()) + "/"@ + dpi_text(stages.last())
    }
}

/// In a table of several stages the brackets stand around the active stage, the
/// one whose place, counted from 1, is its number, and around no other; the other
/// stages stand in order before and behind it.
pub proof fn law_brackets_mark_the_active_stage(active: u8, stages: Seq<(u16, u16)>)
    requires
        2 <= stages.len() <= 5,
        1 <= active <= stages.len(),
    ensures
        ({
            let before = listed_before(stages.take(active - 1));
            let behind = listed_behind(stages.skip(active as int));
            &&& stage_table_text(active, stages) == "🔄 on — "@ + before + "["@ + dpi_text(
                stages[active - 1],
            ) + "]"@ + behind
            &&& !before.contains('[') && !behind.contains('[')
            &&& !dpi_text(stages[active - 1]).contains('[')
        }),
{
    let parts = Seq::new(stages.len(), |i: int| stage_text(active, stages, i));
    let n = stages.len() as int;
    let a = active as int;
    lemma_joined_before(parts, active, stages, a - 1);
    lemma_joined_behind(parts, active, stages, a);
    assert(parts.take(n) =~= parts);
    assert(stages.take(n).skip(a) =~= stages.skip(a));
    lemma_listed_has_no_brackets(stages.take(a - 1));
    lemma_listed_has_no_brackets(stages.skip(a));
    lemma_dpi_text_has_no_brackets(stages[a - 1]);
    assert(stage_table_text(active, stages) =~= "🔄 on — "@ + listed_before(stages.take(a - 1))
        + "["@ + dpi_text(stages[a - 1]) + "]"@ + listed_behind(stages.skip(a)));
}

/// A table that does not hold its active stage has no brackets.
pub proof fn law_no_brackets_without_an_active_stage(active: u8, stages: Seq<(u16, u16)>)
    requires
        2 <= stages.len() <= 5,
        active == 0 || active > stages.len(),
    ensures
        stage_table_text(active, stages) == "🔄 on — "@ + listed_before(stages.drop_last())
            + dpi_text(stages.last()),
{
    let parts = Seq::new(stages.len(), |i: int| stage_text(active, stages, i));
    let n = stages.len() as int;
    lemma_joined_without(parts, active, stages, n - 1);
    assert(parts.take(n) =~= parts);
    assert(stages.take(n - 1) =~= stages.drop_last());
    assert(parts.drop_last() =~= parts.take(n - 1));
    assert(stage_table_text(active, stages) =~= "🔄 on — "@ + listed_before(stages.drop_last())
        + dpi_text(stages.last()));
}

/// One stage is a lock at its value, and no stage is shown as absent.
pub proof fn law_one_stage_is_a_lock(active: u8, stage: (u16, u16))
    ensures
        stage_table_text(active, seq![stage]) == "🔒 off — locked at "@ + dpi_text(stage),
        stage_table_text(active, Seq::empty()) == "—"@,
{
}

/// The table that `--sensitivity-stages on` writes, read back with stage `k`
/// active, shows that stage's value in brackets.
pub proof fn law_default_table_shows_its_active_stage(reply: Seq<u8>, store: u8, k: u8)
    requires
        reply.len() == 90,
        1 <= k <= 5,
        reply.subrange(8, 46) == stages_args(store, k, DEFAULT_DPI_STAGES@),
    ensures
        ({
            let stages = stages_of(reply);
            &&& stages =~= seq![(400u16, 400u16), (800, 800), (1600, 1600), (3200, 3200), (6400, 6400)]
            &&& stage_table_text(reply[9], stages) == "🔄 on — "@ + listed_before(
                stages.take(k - 1),
            ) + "["@ + text::decimal(
                (if k == 1 {
                    400nat
                } else if k == 2 {
                    800
                } else if k == 3 {
                    1600
                } else if k == 4 {
                    3200
                } else {
                    6400
                }),
            ) + "]"@ + listed_behind(stages.skip(k as int))
        }),
{
    law_stage_table_reads_back(reply, store, k, DEFAULT_DPI_STAGES@);
    law_brackets_mark_the_active_stage(k, stages_of(reply));
}

proof fn lemma_dpi_text_has_no_brackets(dpi: (u16, u16))
    ensures
        !dpi_text(dpi).contains('['),
        !dpi_text(dpi).contains(']'),
{
    reveal_strlit(" / ");
    text::law_decimal_has_its_digits(dpi.0 as nat);
    text::law_decimal_has_its_digits(dpi.1 as nat);
    assert forall|i: int| 0 <= i < dpi_text(dpi).len() implies dpi_text(dpi)[i] != '[' && dpi_text(
        dpi,
    )[i] != ']' by {
        let x = text::decimal(dpi.0 as nat);
        let y = text::decimal(dpi.1 as nat);
        if i < x.len() {
            assert(dpi_text(dpi)[i] == x[i]);
            assert(text::is_digit(x[i]));
        } else if i < x.len() + 3 {
            assert(dpi_text(dpi)[i] == " / "@[i - x.len()]);
        } else {
            assert(dpi_text(dpi)[i] == y[i - x.len() - 3]);
            assert(text::is_digit(y[i - x.len() - 3]));
        }
    }
}

proof fn lemma_listed_has_no_brackets(stages: Seq<(u16, u16)>)
    ensures
        !listed_before(stages).contains('['),
        !listed_behind(stages).contains('['),
    decreases stages.len(),
{
    if stages.len() > 0 {
        lemma_listed_has_no_brackets(stages.drop_last());
        lemma_dpi_text_has_no_brackets(stages.last());
        reveal_strlit("/");
        let shown = dpi_text(stages.last());
        let before = listed_before(stages.drop_last());
        let behind = listed_behind(stages.drop_last());
        assert forall|i: int| 0 <= i < listed_before(stages).len() implies listed_before(stages)[i]
            != '[' by {
            if i < before.len() {
                assert(listed_before(stages)[i] == before[i]);
            } else if i < before.len() + shown.len() {
                assert(listed_before(stages)[i] == shown[i - before.len()]);
            }
        }
        assert forall|i: int| 0 <= i < listed_behind(stages).len() implies listed_behind(stages)[i]
            != '[' by {
            if i < behind.len() {
                assert(listed_behind(stages)[i] == behind[i]);
            } else if i > behind.len() {
                assert(listed_behind(stages)[i] == shown[i - behind.len() - 1]);
            }
        }
    }
}

proof fn lemma_joined_before(parts: Seq<Seq<char>>, active: u8, stages: Seq<(u16, u16)>, n: int)
    requires
        stages.len() <= 5,
        1 <= active <= stages.len(),
        parts == Seq::new(stages.len(), |i: int| stage_text(active, stages, i)),
        0 <= n < active,
    ensures
        text::joined(parts.take(n + 1), "/"@) == listed_before(stages.take(n)) + parts[n],
    decreases n,
{
    if n == 0 {
        assert(parts.take(1)[0] == parts[0]);
        assert(listed_before(stages.take(0)) =~= Seq::empty());
        assert(Seq::<char>::empty() + parts[0] =~= parts[0]);
    } else {
        lemma_joined_before(parts, active, stages, n - 1);
        assert(parts.take(n + 1).drop_last() =~= parts.take(n));
        assert(stages.take(n).drop_last() =~= stages.take(n - 1));
        assert(stages.take(n).last() == stages[n - 1]);
        assert(parts[n - 1] == dpi_text(stages[n - 1]));
    }
}

proof fn lemma_joined_behind(parts: Seq<Seq<char>>, active: u8, stages: Seq<(u16, u16)>, n: int)
    requires
        stages.len() <= 5,
        1 <= active <= stages.len(),
        parts == Seq::new(stages.len(), |i: int| stage_text(active, stages, i)),
        active <= n <= stages.len(),
        text::joined(parts.take(active as int), "/"@) == listed_before(
            stages.take(active - 1),
        ) + parts[active - 1],
    ensures
        forall|m: int| active <= m <= stages.len() ==> #[trigger] text::joined(parts.take(m), "/"@)
            == listed_before(stages.take(active - 1)) + "["@ + dpi_text(stages[active - 1]) + "]"@
            + listed_behind(stages.take(m).skip(active as int)),
{
    assert forall|m: int| active <= m <= stages.len() implies #[trigger] text::joined(
        parts.take(m),
        "/"@,
    ) == listed_before(stages.take(active - 1)) + "["@ + dpi_text(stages[active - 1]) + "]"@
        + listed_behind(stages.take(m).skip(active as int)) by {
        lemma_joined_behind_at(parts, active, stages, m);
    }
}

proof fn lemma_joined_behind_at(parts: Seq<Seq<char>>, active: u8, stages: Seq<(u16, u16)>, m: int)
    requires
        stages.len() <= 5,
        1 <= active <= stages.len(),
        parts == Seq::new(stages.len(), |i: int| stage_text(active, stages, i)),
        active <= m <= stages.len(),
        text::joined(parts.take(active as int), "/"@) == listed_before(
            stages.take(active - 1),
        ) + parts[active - 1],
    ensures
        text::joined(parts.take(m), "/"@) == listed_before(stages.take(active - 1)) + "["@
            + dpi_text(stages[active - 1]) + "]"@ + listed_behind(
            stages.take(m).skip(active as int),
        ),
    decreases m,
{
    let a = active as int;
    if m == a {
        assert(stages.take(m).skip(a) =~= Seq::empty());
        assert(text::joined(parts.take(m), "/"@) =~= listed_before(stages.take(a - 1)) + "["@
            + dpi_text(stages[a - 1]) + "]"@ + Seq::<char>::empty());
    } else {
        lemma_joined_behind_at(parts, active, stages, m - 1);
        assert(parts.take(m).drop_last() =~= parts.take(m - 1));
        assert(stages.take(m).skip(a).drop_last() =~= stages.take(m - 1).skip(a));
        assert(stages.take(m).skip(a).last() == stages[m - 1]);
        assert(parts[m - 1] == dpi_text(stages[m - 1]));
        assert(text::joined(parts.take(m), "/"@) =~= listed_before(stages.take(a - 1)) + "["@
            + dpi_text(stages[a - 1]) + "]"@ + listed_behind(stages.take(m).skip(a)));
    }
}

proof fn lemma_joined_without(parts: Seq<Seq<char>>, active: u8, stages: Seq<(u16, u16)>, n: int)
    requires
        stages.len() <= 5,
        active == 0 || active > stages.len(),
        parts == Seq::new(stages.len(), |i: int| stage_text(active, stages, i)),
        0 <= n < stages.len(),
    ensures
        text::joined(parts.take(n + 1), "/"@) == listed_before(stages.take(n)) + dpi_text(
            stages[n],
        ),
    decreases n,
{
    assert(parts[n] == dpi_text(stages[n]));
    if n == 0 {
        assert(parts.take(1)[0] == parts[0]);
        assert(listed_before(stages.take(0)) =~= Seq::empty());
        assert(Seq::<char>::empty() + parts[0] =~= parts[0]);
    } else {
        lemma_joined_without(parts, active, stages, n - 1);
        assert(parts.take(n + 1).drop_last() =~= parts.take(n));
        assert(stages.take(n).drop_last() =~= stages.take(n - 1));
        assert(stages.take(n).last() == stages[n - 1]);
    }
}

/// A slot is worded by its number: "live" for slot 0, "stored" for any
/// other.
pub proof fn law_slots_are_named(store: u8)
    ensures
        store == 0 ==> slot_label(store) == "live"@,
        store != 0 ==> slot_label(store) == "stored"@,
{
}

} // verus!
