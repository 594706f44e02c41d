//! The short actions: what `--color`, `--check`, `--battery` and `--sniff` send
//! and say.

use vstd::prelude::*;
use vstd::string::*;

use crate::cli::ColorName;
use crate::protocol;
use crate::protocol::{dock_rgb_report, mouse_via_dock_rgb_report, BatteryStatus, REPORT_LEN};
use crate::text;
use crate::text::{decimal_text, hex_text, join, pad_left};

verus! {

// ---------- Color ----------

/// A report to send without awaiting a reply, and the words under which a
/// failure to send it is reported.
pub struct ColorWrite {
    pub report: [u8; REPORT_LEN],
    pub context: String,
}

impl ColorWrite {
    pub open spec fn sends(self, report: Seq<u8>, context: Seq<char>) -> bool {
        self.report@ == report && self.context@ == context
    }
}

/// The reports that push `color` to the dock ring and, via RF, to the mouse, in
/// the order in which they are sent; the first failure ends it. If the mouse is
/// not paired, the dock drops its report silently.
pub fn apply_color(color: ColorName) -> (r: Vec<ColorWrite>)
    ensures
        r@.len() == 2,
        r@[0].sends(
            protocol::dock_color(color.color()),
            "failed to set dock color '"@ + color.name() + "'"@,
        ),
        r@[1].sends(
            protocol::mouse_color(color.color()),
            "failed to set mouse color '"@ + color.name() + "'"@,
        ),
        protocol::shows(r@[0].report@, 0xF7, 0x1D, 8, color.color()),
        protocol::shows(r@[1].report@, 0x1F, 0x2C, 13, color.color()),
{
    let mut dock = "failed to set dock color '".to_owned();
    dock.append(color.as_str());
    dock.append("'");
    let mut mouse = "failed to set mouse color '".to_owned();
    mouse.append(color.as_str());
    mouse.append("'");
    vec![
        ColorWrite { report: dock_rgb_report(color.rgb()), context: dock },
        ColorWrite { report: mouse_via_dock_rgb_report(color.rgb()), context: mouse },
    ]
}

/// What `--color` says once both reports went out.
pub fn color_lines(color: ColorName) -> (r: Vec<String>)
    ensures
        text::text_of(r@) == seq!["✓ Dock: "@ + color.name(), "✓ Mouse: "@ + color.name()],
{
    let mut dock = "✓ Dock: ".to_owned();
    dock.append(color.as_str());
    let mut mouse = "✓ Mouse: ".to_owned();
    mouse.append(color.as_str());
    let r = vec![dock, mouse];
    proof {
        assert(text::text_of(r@) =~= seq![
            "✓ Dock: "@ + color.name(),
            "✓ Mouse: "@ + color.name(),
        ]);
    }
    r
}

// ---------- Check and battery ----------

/// What `--check` says of the dock at `path`.
pub fn dock_line(path: &str) -> (r: String)
    ensures
        r@ == "✓ Razer Mouse Dock Pro ("@ + path@ + ") accessible"@,
{
    let mut r = "✓ Razer Mouse Dock Pro (".to_owned();
    r.append(path);
    r.append(") accessible");
    r
}

/// What `--check` says of a mouse that answered, or not.
pub fn mouse_line(answered: bool) -> (r: &'static str)
    ensures
        r@ == (if answered {
            "✓ Razer Basilisk V3 Pro 35K (via Dock) responding over RF"@
        } else {
            "⚠ Mouse not responding — is it paired and awake?"@
        }),
{
    if answered {
        "✓ Razer Basilisk V3 Pro 35K (via Dock) responding over RF"
    } else {
        "⚠ Mouse not responding — is it paired and awake?"
    }
}

/// What `--battery` says.
pub fn battery_line(status: BatteryStatus) -> (r: String)
    ensures
        r@ == "✓ Battery: "@ + status.text(),
{
    let mut r = "✓ Battery: ".to_owned();
    r.append(status.to_string().as_str());
    r
}

// ---------- Sniff ----------

/// The bytes in hexadecimal, two digits each, separated by spaces.
pub open spec fn hex_dump(bytes: Seq<u8>) -> Seq<char> {
    text::joined(bytes.map_values(|b: u8| text::hex(b as nat, 2, false)), " "@)
}

/// An input report as `--sniff` shows it: `  8 bytes: 00 00 00 00 03 00 02 00`.
/// An empty read is no report.
pub fn sniff_text(bytes: &[u8]) -> (r: Option<String>)
    ensures
        match r {
            Some(line) => bytes@.len() > 0 && line@ == text::padded_left(
                text::decimal(bytes@.len()),
                ' ',
                3,
            ) + " bytes: "@ + hex_dump(bytes@),
            None => bytes@.len() == 0,
        },
{
    if bytes.len() == 0 {
        return None;
    }
    proof {
        reveal_strlit(" ");
    }
    let mut parts: Vec<String> = Vec::new();
    let mut i: usize = 0;
    while i < bytes.len()
        invariant
            i <= bytes@.len(),
            parts@.len() == i,
            forall|k: int|
                0 <= k < i ==> #[trigger] parts@[k]@ == text::hex(bytes@[k] as nat, 2, false),
        decreases bytes@.len() - i,
    {
        parts.push(hex_text(bytes[i] as u64, 2, false));
        i = i + 1;
    }
    proof {
        assert(text::text_of(parts@) =~= bytes@.map_values(
            |b: u8| text::hex(b as nat, 2, false),
        ));
    }
    let mut r = pad_left(decimal_text(bytes.len() as u64).as_str(), " ", 3);
    r.append(" bytes: ");
    r.append(join(&parts, " ").as_str());
    Some(r)
}

// ---------- Laws ----------

/// A dump has two digits for each byte, the high one first, and one space between
/// neighbours.
pub proof fn law_dump_shows_every_byte(bytes: Seq<u8>)
    requires
        bytes.len() > 0,
    ensures
        hex_dump(bytes).len() == 3 * bytes.len() - 1,
        forall|i: int| #![trigger bytes[i]]
            0 <= i < bytes.len() ==> hex_dump(bytes)[3 * i] == text::digit(
                bytes[i] as int / 16,
                false,
            ) && hex_dump(bytes)[3 * i + 1] == text::digit(bytes[i] as int % 16, false) && (i
                < bytes.len() - 1 ==> hex_dump(bytes)[3 * i + 2] == ' '),
    decreases bytes.len(),
{
    reveal_strlit(" ");
    reveal_with_fuel(text::hex, 3);
    let parts = bytes.map_values(|b: u8| text::hex(b as nat, 2, false));
    let last = bytes.last();
    assert(parts.last() =~= seq![
        text::digit(last as int / 16, false),
        text::digit(last as int % 16, false),
    ]);
    if bytes.len() > 1 {
        let rest = bytes.drop_last();
        law_dump_shows_every_byte(rest);
        assert(parts.drop_last() =~= rest.map_values(|b: u8| text::hex(b as nat, 2, false)));
        let shown = hex_dump(rest);
        assert(hex_dump(bytes) == shown + " "@ + parts.last());
        assert forall|i: int| #![trigger bytes[i]] 0 <= i < bytes.len() implies hex_dump(bytes)[3
            * i] == text::digit(bytes[i] as int / 16, false) && hex_dump(bytes)[3 * i + 1]
            == text::digit(bytes[i] as int % 16, false) && (i < bytes.len() - 1 ==> hex_dump(
            bytes,
        )[3 * i + 2] == ' ') by {
            if i < bytes.len() - 1 {
                assert(rest[i] == bytes[i]);
                assert(hex_dump(bytes)[3 * i] == shown[3 * i]);
                assert(hex_dump(bytes)[3 * i + 1] == shown[3 * i + 1]);
                if i < bytes.len() - 2 {
                    assert(hex_dump(bytes)[3 * i + 2] == shown[3 * i + 2]);
                }
            }
        }
    } else {
        assert(hex_dump(bytes) == parts[0]);
    }
}

} // verus!
