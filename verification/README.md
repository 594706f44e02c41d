# razerd

RGB daemon for the Razer Mouse Dock Pro and a wirelessly connected Razer
Basilisk V3 Pro 35K on Linux: it sets the LED color, sets the mouse
sensitivity, and publishes the mouse battery to UPower.

The logic is a library verified with Verus; the program around it only performs
what the library decides.

| Directory | Contents |
|---|---|
| `src/` | The verified library: report format, transport rules, flags, and a state machine for each long-running or multi-step action |
| `app/` | The program: sysfs, hidraw ioctls, `/dev/uhid`, the clock, printing |
| `tests/` | Tests of the library |

What the library proves beyond the contract of each function is stated in the
`law_*` proof functions at the end of each module: that a reply is handed on only
if it answers the request that was sent, that a battery is shown only with a level
that the mouse has just given and is withdrawn exactly when its silence has held,
that a sensitivity change reaches both storage slots and reports what was read
back, and so on.

Two things are taken on trust, behind small functions whose contracts say what is
claimed: lossy UTF-8 decoding (`protocol.rs`) and clap's parsing of command lines
and switch words (`cli.rs`).

`app/` also needs the `uhid_battery` crate, which speaks the kernel's uhid
protocol.
