//! The logic of `razerd`, an RGB daemon for the Razer Mouse Dock Pro and a
//! wirelessly connected Razer Basilisk V3 Pro 35K.
//!
//! All commands go through a single hidraw interface on the dock. The dock
//! firmware routes requests to itself or forwards them to the wireless mouse
//! over the RF link based on the transaction id and report layout.
//!
//! Nothing here touches a device, a file or the clock. Where the program
//! alternates work and decisions, a state machine takes what happened and says
//! what to do next, and the caller does it.
//!
//! Layout: [`protocol`] is the Razer report format with its questions and
//! answers, [`hid`] the hidraw transport (discovery, framing, the send/poll
//! exchange), [`cli`] the flag surface, and [`actions`], [`info`],
//! [`sensitivity`], [`watch`] and [`bridge`] what is behind the flags.
//! [`schedule`] decides when the bridge queries the battery, [`uhid`] describes
//! the virtual battery, and [`clock`] and [`text`] hold what all share.

pub mod actions;
pub mod bridge;
pub mod cli;
pub mod clock;
pub mod hid;
pub mod info;
pub mod protocol;
pub mod schedule;
pub mod sensitivity;
pub mod text;
pub mod uhid;
pub mod watch;
