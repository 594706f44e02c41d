//! How the virtual battery of `--upower` presents itself, and what `--info`
//! reads back of it.

use vstd::prelude::*;
use vstd::string::*;

use crate::text;
use crate::text::trim;

verus! {

/// Name of the inherited descriptor in the unit: `OpenFile=/dev/uhid:uhid`.
pub const INHERITED_FD_NAME: &'static str = "uhid";

pub const RAZER_VENDOR_ID: u32 = 0x1532;

// The Basilisk V3 Pro 35K's own (wired) product id.
pub const BASILISK_V3_PRO_35K_PRODUCT_ID: u32 = 0x00CC;

/// Names the power supply (`hid-razerd-battery*`). A constant rather than the
/// mouse serial: no string that came from the dock is ever handed to the kernel.
pub const DEVICE_UNIQ: &'static str = "razerd";

/// How a virtual HID device presents itself to the kernel.
#[derive(Debug)]
pub struct Identity {
    pub name: String,
    pub phys: String,
    pub uniq: String,
    pub vendor: u32,
    pub product: u32,
}

/// How the virtual device presents itself. All constants: the only values that
/// ever reach the kernel from the dock are a percentage and a charging bit.
pub fn identity() -> (r: Identity)
    ensures
        r.name@ == "Razer Basilisk V3 Pro 35K"@,
        r.phys@ == "razerd"@,
        r.uniq@ == "razerd"@,
        r.vendor == 0x1532,
        r.product == 0x00CC,
{
    Identity {
        name: "Razer Basilisk V3 Pro 35K".to_owned(),
        phys: "razerd".to_owned(),
        uniq: DEVICE_UNIQ.to_owned(),
        vendor: RAZER_VENDOR_ID,
        product: BASILISK_V3_PRO_35K_PRODUCT_ID,
    }
}

/// The battery the kernel registered for our virtual device, read back from
/// sysfs: the very view UPower has of it.
pub struct ExposedBattery {
    pub path: String,
    pub percent: Option<String>,
    pub status: Option<String>,
}

/// An attribute without the white space around it; absent if it could not be
/// read.
pub open spec fn attribute_text(raw: Option<String>) -> Option<Seq<char>> {
    match raw {
        Some(value) => Some(text::trimmed(value@)),
        None => None,
    }
}

fn attribute(raw: Option<String>) -> (r: Option<String>)
    ensures
        text::opt_text(r) == attribute_text(raw),
{
    match raw {
        Some(value) => Some(trim(value.as_str())),
        None => None,
    }
}

/// The exposed battery at `path`, from its raw `capacity` and `status`
/// attributes. One that could not be read (battery withdrawn mid-read) is just
/// absent.
pub fn read_exposed_battery(
    path: String,
    capacity: Option<String>,
    status: Option<String>,
) -> (r: ExposedBattery)
    ensures
        r.path@ == path@,
        text::opt_text(r.percent) == attribute_text(capacity),
        text::opt_text(r.status) == attribute_text(status),
{
    ExposedBattery { path, percent: attribute(capacity), status: attribute(status) }
}

/// An attribute is there if it could be read, and then it is what was read without
/// the white space around it.
pub proof fn law_attributes_are_what_was_read(raw: Option<String>)
    ensures
        attribute_text(raw) is Some <==> raw is Some,
        raw is Some ==> attribute_text(raw) == Some(text::trimmed(raw->0@)),
{
}

} // verus!
