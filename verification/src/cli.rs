//! Command-line surface: one mutually-exclusive action per invocation.

use vstd::prelude::*;
use vstd::string::*;

use clap::builder::BoolishValueParser;
use clap::{Arg, ArgAction, ArgGroup, ArgMatches, Command};

use crate::protocol::{Rgb, DPI_MAX, DPI_MIN};
use crate::text;
use crate::text::{chars_of, decimal_text, parse_unsigned};

verus! {

// ---------- Colors ----------

#[derive(Debug, Clone, Copy, PartialEq, Eq, Structural)]
pub enum ColorName {
    Red,
    Green,
    Blue,
    White,
    Off,
}

impl ColorName {
    pub open spec fn color(self) -> Rgb {
        match self {
            ColorName::Red => Rgb { red: 0xC0, green: 0x00, blue: 0x00 },
            ColorName::Green => Rgb { red: 0x00, green: 0xC0, blue: 0x00 },
            ColorName::Blue => Rgb { red: 0x00, green: 0x00, blue: 0xC0 },
            ColorName::White => Rgb { red: 0xFF, green: 0xFF, blue: 0xFF },
            ColorName::Off => Rgb { red: 0x00, green: 0x00, blue: 0x00 },
        }
    }

    pub open spec fn name(self) -> Seq<char> {
        match self {
            ColorName::Red => "red"@,
            ColorName::Green => "green"@,
            ColorName::Blue => "blue"@,
            ColorName::White => "white"@,
            ColorName::Off => "off"@,
        }
    }

    /// The color called `name`, letter for letter.
    pub open spec fn named(name: Seq<char>) -> Option<ColorName> {
        if name == "red"@ {
            Some(ColorName::Red)
        } else if name == "green"@ {
            Some(ColorName::Green)
        } else if name == "blue"@ {
            Some(ColorName::Blue)
        } else if name == "white"@ {
            Some(ColorName::White)
        } else if name == "off"@ {
            Some(ColorName::Off)
        } else {
            None
        }
    }

    pub fn rgb(self) -> (r: Rgb)
        ensures
            r == self.color(),
    {
        match self {
            Self::Red => Rgb::new(0xC0, 0x00, 0x00),
            Self::Green => Rgb::new(0x00, 0xC0, 0x00),
            Self::Blue => Rgb::new(0x00, 0x00, 0xC0),
            Self::White => Rgb::new(0xFF, 0xFF, 0xFF),
            Self::Off => Rgb::new(0x00, 0x00, 0x00),
        }
    }

    pub fn as_str(self) -> (r: &'static str)
        ensures
            r@ == self.name(),
    {
        match self {
            Self::Red => "red",
            Self::Green => "green",
            Self::Blue => "blue",
            Self::White => "white",
            Self::Off => "off",
        }
    }

    /// The color called `name`, letter for letter.
    pub fn from_name(name: &str) -> (r: Option<ColorName>)
        ensures
            r == Self::named(name@),
    {
        if text::same(name, "red") {
            Some(ColorName::Red)
        } else if text::same(name, "green") {
            Some(ColorName::Green)
        } else if text::same(name, "blue") {
            Some(ColorName::Blue)
        } else if text::same(name, "white") {
            Some(ColorName::White)
        } else if text::same(name, "off") {
            Some(ColorName::Off)
        } else {
            None
        }
    }
}

// ---------- Values ----------

/// What `--sensitivity` makes of its value: a number within the sensor's
/// limits, or the reason why not.
pub open spec fn dpi_value(s: Seq<char>) -> Result<u16, Seq<char>> {
    match text::unsigned(s, u16::MAX as nat) {
        None => Err("'"@ + s + "' is not a DPI value"@),
        Some(n) => if DPI_MIN <= n <= DPI_MAX {
            Ok(n as u16)
        } else {
            Err(
                text::decimal(n) + " is out of range ("@ + text::decimal(DPI_MIN as nat) + "-"@
                    + text::decimal(DPI_MAX as nat) + ")"@,
            )
        },
    }
}

pub fn parse_dpi(s: &str) -> (r: Result<u16, String>)
    ensures
        match r {
            Ok(n) => dpi_value(s@) == Ok::<u16, Seq<char>>(n),
            Err(message) => dpi_value(s@) == Err::<u16, Seq<char>>(message@),
        },
{
    match parse_unsigned(&chars_of(s), u16::MAX as u32) {
        None => {
            let mut message = "'".to_owned();
            message.append(s);
            message.append("' is not a DPI value");
            Err(message)
        },
        Some(n) => if DPI_MIN as u32 <= n && n <= DPI_MAX as u32 {
            Ok(n as u16)
        } else {
            let mut message = decimal_text(n as u64);
            message.append(" is out of range (");
            message.append(decimal_text(DPI_MIN as u64).as_str());
            message.append("-");
            message.append(decimal_text(DPI_MAX as u64).as_str());
            message.append(")");
            Err(message)
        },
    }
}

/// `c` in lower case, if it is an ASCII letter.
pub open spec fn lower(c: char) -> char {
    if 'A' <= c <= 'Z' {
        (c as u32 + 32) as char
    } else {
        c
    }
}

/// `s` reads `word`, upper and lower case alike.
pub open spec fn reads(s: Seq<char>, word: Seq<char>) -> bool {
    s.map_values(|c: char| lower(c)) == word
}

/// What a switch value says.
pub open spec fn boolish_value(s: Seq<char>) -> Option<bool> {
    if reads(s, "y"@) || reads(s, "yes"@) || reads(s, "t"@) || reads(s, "true"@) || reads(s, "on"@)
        || reads(s, "1"@) {
        Some(true)
    } else if reads(s, "n"@) || reads(s, "no"@) || reads(s, "f"@) || reads(s, "false"@) || reads(
        s,
        "off"@,
    ) || reads(s, "0"@) {
        Some(false)
    } else {
        None
    }
}

/// Calls clap's `BoolishValueParser::parse_ref`. It accepts the words `y`,
/// `yes`, `t`, `true`, `on`, `1` and `n`, `no`, `f`, `false`, `off`, `0`
/// without regard to case and nothing else. (It compares the Unicode
/// lower-case form; no character outside ASCII has a letter of these words as
/// its lower-case form.)
#[verifier::external_body]
fn boolish(value: &str) -> (r: Option<bool>)
    ensures
        r == boolish_value(value@),
{
    let parser = BoolishValueParser::new();
    let command = Command::new("razerd");
    clap::builder::TypedValueParser::parse_ref(&parser, &command, None, value.as_ref()).ok()
}

// ---------- Flags ----------

pub const PROGRAM_NAME: &'static str = "razerd";

pub const PROGRAM_VERSION: &'static str = "0.10.0";

pub const PROGRAM_ABOUT: &'static str = "Minimal RGB daemon for Razer peripherals on Linux";

pub const CHECK_HELP: &'static str = "Verify the dock is detected and accessible";

pub const BATTERY_HELP: &'static str = "Print the mouse battery level and charging status";

pub const INFO_HELP: &'static str =
    "Print a full device report: serial, firmware, battery, DPI, stages lock state, onboard profile, and the battery exposed by --upower";

pub const SNIFF_HELP: &'static str =
    "Dump timestamped HID input reports from the dock (diagnostic)";

pub const UPOWER_HELP: &'static str =
    "Expose the mouse battery to UPower through a virtual HID device (runs until stopped)";

pub const COLOR_HELP: &'static str =
    "Apply a color to the dock and the wireless mouse";

pub const WATCH_HELP: &'static str =
    "Hold a color, re-applying it whenever the mouse wakes (runs until stopped)";

pub const SENSITIVITY_HELP: &'static str =
    "Set the sensitivity to one fixed DPI value (the free slider): collapses the onboard stage table to it, so the Cycle Up Sensitivity Stages button can't change it";

pub const SENSITIVITY_STAGES_HELP: &'static str =
    "on: install the default 5-stage table (400/800/1600/3200/6400) and enable the Cycle Up Sensitivity Stages button; off: freeze the current DPI and disable the button";

/// A command line that was refused: what to tell the user, and with which exit
/// code to leave. Asking for the help or the version is such a refusal too, with
/// exit code 0.
#[derive(Debug)]
pub struct Usage {
    pub message: String,
    pub exit_code: i32,
}

/// A flag of the command line.
pub struct Flag {
    pub long: &'static str,
    pub aliases: Vec<&'static str>,
    /// How many values it takes, none or one.
    pub takes: usize,
    /// The values to choose from, if they are listed. A flag that takes no value
    /// stands for the empty one.
    pub values: Vec<&'static str>,
    pub value_names: Vec<&'static str>,
    pub help: &'static str,
}

/// What is declared of a flag: its long name, its aliases, how many values it
/// takes, the values to choose from, their names, its help.
pub type FlagText = (
    Seq<char>,
    Seq<Seq<char>>,
    usize,
    Seq<Seq<char>>,
    Seq<Seq<char>>,
    Seq<char>,
);

pub open spec fn words(s: Seq<&'static str>) -> Seq<Seq<char>> {
    s.map_values(|word: &'static str| word@)
}

impl View for Flag {
    type V = FlagText;

    open spec fn view(&self) -> FlagText {
        (
            self.long@,
            words(self.aliases@),
            self.takes,
            words(self.values@),
            words(self.value_names@),
            self.help@,
        )
    }
}

/// What is declared of each flag.
pub open spec fn flags_view(flags: Seq<Flag>) -> Seq<FlagText> {
    flags.map_values(|flag: Flag| flag@)
}

/// What is declared of a flag without a value.
pub open spec fn switch_text(long: Seq<char>, help: Seq<char>) -> FlagText {
    (long, Seq::empty(), 0, seq![""@], Seq::empty(), help)
}

/// The names of the colors, in the order in which they are listed.
pub open spec fn color_names() -> Seq<Seq<char>> {
    seq!["red"@, "green"@, "blue"@, "white"@, "off"@]
}

/// The flags of this program whose values are listed, or which take none.
pub open spec fn listed_flags() -> Seq<FlagText> {
    seq![
        switch_text("check"@, CHECK_HELP@),
        ("color"@, Seq::empty(), 1, color_names(), seq!["COLOR"@], COLOR_HELP@),
        switch_text("battery"@, BATTERY_HELP@),
        switch_text("info"@, INFO_HELP@),
        switch_text("sniff"@, SNIFF_HELP@),
        ("watch"@, Seq::empty(), 1, color_names(), seq!["COLOR"@], WATCH_HELP@),
        switch_text("upower"@, UPOWER_HELP@),
    ]
}

/// The flag of this program that takes a DPI value.
pub open spec fn dpi_flag() -> FlagText {
    ("sensitivity"@, seq!["dpi"@], 1, Seq::empty(), seq!["DPI"@], SENSITIVITY_HELP@)
}

/// The flag of this program that takes a switch word.
pub open spec fn word_flag() -> FlagText {
    (
        "sensitivity-stages"@,
        Seq::empty(),
        1,
        Seq::empty(),
        seq!["on|off"@],
        SENSITIVITY_STAGES_HELP@,
    )
}

/// The flags of this program.
pub open spec fn program_flags() -> Seq<FlagText> {
    listed_flags().push(dpi_flag()).push(word_flag())
}

/// Flag number `k` takes `value`: a listed one, or for the last two flags a DPI
/// value and a switch word.
pub open spec fn takes(flags: Seq<FlagText>, k: int, value: Seq<char>) -> bool {
    if k == flags.len() - 1 {
        boolish_value(value) is Some
    } else if k == flags.len() - 2 {
        dpi_value(value) is Ok
    } else {
        flags[k].3.contains(value)
    }
}

/// `arg` is `--name` for a name of the flag.
pub open spec fn calls(flag: FlagText, arg: Seq<char>) -> bool {
    arg == "--"@ + flag.0 || exists|i: int|
        0 <= i < flag.1.len() && arg == "--"@ + #[trigger] flag.1[i]
}

/// `arg` is `--name=value` for a name of the flag.
pub open spec fn assigns(flag: FlagText, arg: Seq<char>, value: Seq<char>) -> bool {
    arg == "--"@ + flag.0 + "="@ + value || exists|i: int|
        0 <= i < flag.1.len() && arg == "--"@ + #[trigger] flag.1[i] + "="@ + value
}

/// The words give flag number `k` with `value` in the plain form: `--name`, or
/// `--name value` with a value that the flag takes.
pub open spec fn is_plain(
    flags: Seq<FlagText>,
    part: Seq<Seq<char>>,
    k: int,
    value: Seq<char>,
) -> bool {
    &&& 0 <= k < flags.len()
    &&& part.len() == 1 + flags[k].2
    &&& calls(flags[k], part[0])
    &&& takes(flags, k, value)
    &&& flags[k].2 > 0 ==> part[1] == value
}

/// Behind the program's name, the command line gives one flag and nothing else.
pub open spec fn gives_only(
    flags: Seq<FlagText>,
    args: Seq<Seq<char>>,
    k: int,
    value: Seq<char>,
) -> bool {
    args.len() > 0 && is_plain(flags, args.skip(1), k, value)
}

/// Behind the program's name, the command line gives two flags and nothing else.
pub open spec fn gives_two(
    flags: Seq<FlagText>,
    args: Seq<Seq<char>>,
    j: int,
    first: Seq<char>,
    k: int,
    second: Seq<char>,
) -> bool {
    let i: int = 2 + flags[j].2;
    &&& i <= args.len()
    &&& is_plain(flags, args.subrange(1, i), j, first)
    &&& is_plain(flags, args.skip(i), k, second)
}

/// Word number `i` of the command line, with the one behind it where it takes
/// that, gives `value` to the flag.
pub open spec fn gives_at(flag: FlagText, args: Seq<Seq<char>>, i: int, value: Seq<char>) -> bool {
    ||| flag.2 == 0 && calls(flag, args[i])
    ||| flag.2 > 0 && calls(flag, args[i]) && i + 1 < args.len() && args[i + 1] == value
    ||| flag.2 > 0 && assigns(flag, args[i], value)
}

/// Behind the program's name, some word gives `value` to the flag.
pub open spec fn gives(flag: FlagText, args: Seq<Seq<char>>, value: Seq<char>) -> bool {
    exists|i: int| 1 <= i < args.len() && #[trigger] gives_at(flag, args, i, value)
}

/// Of `n` flags, flag number `k` alone, with `value`.
pub open spec fn only(n: nat, k: int, value: Seq<char>) -> Seq<Option<Seq<char>>> {
    Seq::new(
        n,
        |j: int|
            if j == k {
                Some(value)
            } else {
                None
            },
    )
}

/// The values that a match holds, in the order of the flags: `None` for a flag
/// that is not given.
pub open spec fn values_of(
    flags: Seq<FlagText>,
    found: Map<Seq<char>, Option<Seq<char>>>,
) -> Seq<Option<Seq<char>>> {
    Seq::new(flags.len(), |k: int| found[flags[k].0])
}

pub open spec fn values_text(values: Seq<Option<String>>) -> Seq<Option<Seq<char>>> {
    values.map_values(|value: Option<String>| text::opt_text(value))
}

/// What holds of every match of a command line: it tells of each flag, a flag
/// that is given was given by a word of the line with a value that it takes, and
/// the rules of the group are kept.
pub open spec fn is_match(
    flags: Seq<FlagText>,
    required: bool,
    multiple: bool,
    args: Seq<Seq<char>>,
    given: Map<Seq<char>, Option<Seq<char>>>,
) -> bool {
    let values = values_of(flags, given);
    &&& forall|k: int| 0 <= k < flags.len() ==> given.dom().contains((#[trigger] flags[k]).0)
    &&& forall|k: int|
        0 <= k < flags.len() && (#[trigger] values[k]) is Some ==> takes(flags, k, values[k]->0)
            && gives(flags[k], args, values[k]->0)
    &&& required ==> exists|k: int| 0 <= k < flags.len() && (#[trigger] values[k]) is Some
    &&& !multiple ==> forall|j: int, k: int|
        0 <= j < k < flags.len() ==> !((#[trigger] values[j]) is Some && (#[trigger] values[k])
            is Some)
}

/// What is declared of all the flags together.
pub open spec fn all_flags(listed: Seq<Flag>, dpi: Flag, word: Flag) -> Seq<FlagText> {
    flags_view(listed).push(dpi@).push(word@)
}

/// clap's collection of the flags that a command line gave.
#[verifier::external_type_specification]
#[verifier::external_body]
pub struct ExArgMatches(ArgMatches);

/// What the collection holds: for each flag that was declared, the text of its
/// value, and `None` if it was not given.
pub uninterp spec fn found(matches: ArgMatches) -> Map<Seq<char>, Option<Seq<char>>>;

/// What clap makes of a command line, for flags that form one group: what each
/// flag was given, or its message and exit code when it refuses the line.
pub uninterp spec fn clap_matches(
    name: Seq<char>,
    version: Seq<char>,
    about: Seq<char>,
    flags: Seq<FlagText>,
    required: bool,
    multiple: bool,
    args: Seq<Seq<char>>,
) -> Result<Map<Seq<char>, Option<Seq<char>>>, (Seq<char>, i32)>;

/// Calls clap's `Command::try_get_matches_from` on a command whose flags are
/// `listed`, `dpi` and `word`, all in one `ArgGroup`. The values of the listed
/// flags are checked by clap's `PossibleValuesParser`, that of `dpi` by
/// [`parse_dpi`], and that of `word` by clap's `BoolishValueParser`.
///
/// clap promises of the group that at least one of its flags is given when it is
/// `required`, and at most one when it is not `multiple`, and of a value that its
/// parser took it. A flag is given only by a word `--name`, with its value in the
/// next word, or `--name=value`. A line that gives one flag in the plain form is
/// accepted and sets that flag alone; one that gives two is refused unless they
/// differ and `multiple` holds. What clap makes of other lines, and how it words
/// a refusal, is left to the name. clap panics on flags whose names clash, so only
/// this program's own flags are handed to it.
#[verifier::external_body]
fn parse_flags(
    name: &'static str,
    version: &'static str,
    about: &'static str,
    listed: &Vec<Flag>,
    dpi: &Flag,
    word: &Flag,
    required: bool,
    multiple: bool,
    args: Vec<String>,
) -> (r: Result<ArgMatches, (String, i32)>)
    requires
        flags_view(listed@) == listed_flags(),
        dpi@ == dpi_flag(),
        word@ == word_flag(),
    ensures
        clap_matches(
            name@,
            version@,
            about@,
            all_flags(listed@, *dpi, *word),
            required,
            multiple,
            text::text_of(args@),
        ) == (match r {
            Ok(matches) => Ok(found(matches)),
            Err((message, exit_code)) => Err((message@, exit_code)),
        }),
        r matches Ok(matches) ==> is_match(
            all_flags(listed@, *dpi, *word),
            required,
            multiple,
            text::text_of(args@),
            found(matches),
        ),
        forall|k: int, value: Seq<char>| #[trigger]
            gives_only(all_flags(listed@, *dpi, *word), text::text_of(args@), k, value) ==> r is Ok
                && values_of(all_flags(listed@, *dpi, *word), found(r->Ok_0)) == only(
                all_flags(listed@, *dpi, *word).len(),
                k,
                value,
            ),
        forall|j: int, first: Seq<char>, k: int, second: Seq<char>| #[trigger]
            gives_two(
                all_flags(listed@, *dpi, *word),
                text::text_of(args@),
                j,
                first,
                k,
                second,
            ) && (j == k || !multiple) ==> r is Err,
{
    let flag = |f: &Flag| Arg::new(f.long).long(f.long).visible_aliases(&f.aliases).help(f.help)
        .value_names(&f.value_names).group("action");
    Command::new(name).version(version).about(about)
        .args(listed.iter().map(|f| flag(f).num_args(f.takes).default_missing_value("")
            .action(ArgAction::Set).value_parser(f.values.clone())))
        .arg(flag(dpi).value_parser(parse_dpi))
        .arg(flag(word).value_parser(BoolishValueParser::new()))
        .group(ArgGroup::new("action").required(required).multiple(multiple))
        .try_get_matches_from(args)
        .map_err(|e| (e.to_string(), e.exit_code()))
}

/// Calls clap's `ArgMatches::get_raw`, which gives the words that a flag was
/// given as its value, and nothing if it was not given. A flag has one value
/// here, so the first word is taken. clap panics on a name that was not declared.
#[verifier::external_body]
fn value_given(matches: &ArgMatches, long: &str) -> (r: Option<String>)
    requires
        found(*matches).dom().contains(long@),
    ensures
        text::opt_text(r) == found(*matches)[long@],
{
    matches.get_raw(long).and_then(|mut words| words.next()?.to_str().map(String::from))
}

// ---------- Command line ----------

pub struct Cli {
    /// Verify the dock is detected and accessible.
    pub check: bool,
    /// Apply a color to the dock and the wireless mouse.
    pub color: Option<ColorName>,
    /// Print the mouse battery level and charging status.
    pub battery: bool,
    /// Print a full device report.
    pub info: bool,
    /// Dump timestamped HID input reports from the dock (diagnostic).
    pub sniff: bool,
    /// Hold a color, re-applying it whenever the mouse wakes.
    pub watch: Option<ColorName>,
    /// Expose the mouse battery to UPower.
    pub upower: bool,
    /// Set the sensitivity to one fixed DPI value.
    pub sensitivity: Option<u16>,
    /// Enable or disable the Cycle Up Sensitivity Stages button.
    pub sensitivity_stages: Option<bool>,
}

#[derive(Debug, Clone, Copy, PartialEq, Eq, Structural)]
pub enum Action {
    Check,
    Color(ColorName),
    Battery,
    Info,
    Sniff,
    Watch(ColorName),
    Upower,
    Sensitivity(u16),
    SensitivityStages(bool),
}

/// `action` alone if `set`, else nothing.
pub open spec fn if_set(set: bool, action: Action) -> Seq<Action> {
    if set {
        seq![action]
    } else {
        Seq::empty()
    }
}

/// Every value given to the flags of this program is good.
pub open spec fn values_are_good(values: Seq<Option<Seq<char>>>) -> bool {
    &&& values[1] matches Some(value) ==> ColorName::named(value) is Some
    &&& values[5] matches Some(value) ==> ColorName::named(value) is Some
    &&& values[7] matches Some(value) ==> dpi_value(value) is Ok
    &&& values[8] matches Some(value) ==> boolish_value(value) is Some
}

impl Cli {
    /// The actions of the flags that are set, in the order of precedence.
    pub open spec fn set_flags(self) -> Seq<Action> {
        if_set(self.check, Action::Check) + if_set(
            self.color is Some,
            Action::Color(self.color->0),
        ) + if_set(self.battery, Action::Battery) + if_set(self.info, Action::Info) + if_set(
            self.sniff,
            Action::Sniff,
        ) + if_set(self.watch is Some, Action::Watch(self.watch->0)) + if_set(
            self.upower,
            Action::Upower,
        ) + if_set(self.sensitivity is Some, Action::Sensitivity(self.sensitivity->0)) + if_set(
            self.sensitivity_stages is Some,
            Action::SensitivityStages(self.sensitivity_stages->0),
        )
    }

    /// The command line that the given values make, which are all good.
    pub open spec fn with(values: Seq<Option<Seq<char>>>) -> Cli {
        Cli {
            check: values[0] is Some,
            color: match values[1] {
                Some(value) => ColorName::named(value),
                None => None,
            },
            battery: values[2] is Some,
            info: values[3] is Some,
            sniff: values[4] is Some,
            watch: match values[5] {
                Some(value) => ColorName::named(value),
                None => None,
            },
            upower: values[6] is Some,
            sensitivity: match values[7] {
                Some(value) => Some(dpi_value(value)->Ok_0),
                None => None,
            },
            sensitivity_stages: match values[8] {
                Some(value) => boolish_value(value),
                None => None,
            },
        }
    }

    /// The action to take: that of the first flag set. Of a command line that
    /// was parsed, the only one.
    pub fn action(&self) -> (r: Action)
        requires
            self.set_flags().len() > 0,
        ensures
            r == self.set_flags()[0],
    {
        if self.check {
            return Action::Check;
        }
        if let Some(color) = self.color {
            return Action::Color(color);
        }
        if self.battery {
            return Action::Battery;
        }
        if self.info {
            return Action::Info;
        }
        if self.sniff {
            return Action::Sniff;
        }
        if let Some(color) = self.watch {
            return Action::Watch(color);
        }
        if self.upower {
            return Action::Upower;
        }
        if let Some(dpi) = self.sensitivity {
            return Action::Sensitivity(dpi);
        }
        Action::SensitivityStages(
            match self.sensitivity_stages {
                Some(on) => on,
                None => false,
            },
        )
    }

    /// The command line that the values of the flags make, in the order in which
    /// the flags are declared.
    pub fn from_values(values: &Vec<Option<String>>) -> (r: Cli)
        requires
            values@.len() == 9,
            values_are_good(values_text(values@)),
        ensures
            r == Cli::with(values_text(values@)),
    {
        let ghost given = values_text(values@);
        assert(forall|k: int| 0 <= k < 9 ==> #[trigger] given[k] == text::opt_text(values@[k]));
        Cli {
            check: values[0].is_some(),
            color: match &values[1] {
                None => None,
                Some(value) => ColorName::from_name(value.as_str()),
            },
            battery: values[2].is_some(),
            info: values[3].is_some(),
            sniff: values[4].is_some(),
            watch: match &values[5] {
                None => None,
                Some(value) => ColorName::from_name(value.as_str()),
            },
            upower: values[6].is_some(),
            sensitivity: match &values[7] {
                None => None,
                Some(value) => match parse_dpi(value.as_str()) {
                    Ok(dpi) => Some(dpi),
                    Err(_) => None,
                },
            },
            sensitivity_stages: match &values[8] {
                None => None,
                Some(value) => boolish(value.as_str()),
            },
        }
    }

    /// Parse a command line, the program's name first. Exactly one flag must be
    /// given, and its value, if it takes one, must be good.
    pub fn try_parse_from(args: Vec<String>) -> (r: Result<Cli, Usage>)
        ensures
            match clap_matches(
                PROGRAM_NAME@,
                PROGRAM_VERSION@,
                PROGRAM_ABOUT@,
                program_flags(),
                true,
                false,
                text::text_of(args@),
            ) {
                Ok(given) => values_are_good(values_of(program_flags(), given)) && r == Ok::<
                    Cli,
                    Usage,
                >(Cli::with(values_of(program_flags(), given))),
                Err((message, exit_code)) => r matches Err(usage) && usage.message@ == message
                    && usage.exit_code == exit_code,
            },
            r matches Ok(cli) ==> cli.set_flags().len() == 1,
            r matches Ok(cli) ==> exists|k: int, value: Seq<char>| #[trigger]
                sets(text::text_of(args@), cli, k, value),
            (forall|k: int, value: Seq<char>|
                0 <= k < 9 ==> !#[trigger] gives(
                    program_flags()[k],
                    text::text_of(args@),
                    value,
                )) ==> r is Err,
            forall|k: int, value: Seq<char>| #[trigger]
                gives_only(program_flags(), text::text_of(args@), k, value) ==> r
                    == Ok::<Cli, Usage>(Cli::with(only(9, k, value))),
            forall|j: int, first: Seq<char>, k: int, second: Seq<char>| #[trigger]
                gives_two(program_flags(), text::text_of(args@), j, first, k, second) ==> r is Err,
    {
        let ghost line = args@;
        let listed = declared_listed();
        let dpi = declared_dpi();
        let word = declared_word();
        match parse_flags(
            PROGRAM_NAME,
            PROGRAM_VERSION,
            PROGRAM_ABOUT,
            &listed,
            &dpi,
            &word,
            true,
            false,
            args,
        ) {
            Err((message, exit_code)) => Err(Usage { message, exit_code }),
            Ok(matches) => {
                let ghost flags = program_flags();
                let ghost given = values_of(flags, found(matches));
                proof {
                    assert(forall|k: int|
                        0 <= k < 9 ==> found(matches).dom().contains((#[trigger] flags[k]).0));
                    assert(flags[0].0 == "check"@ && flags[1].0 == "color"@ && flags[2].0
                        == "battery"@);
                    assert(flags[3].0 == "info"@ && flags[4].0 == "sniff"@ && flags[5].0
                        == "watch"@);
                    assert(flags[6].0 == "upower"@ && flags[7].0 == "sensitivity"@ && flags[8].0
                        == "sensitivity-stages"@);
                }
                let values = vec![
                    value_given(&matches, "check"),
                    value_given(&matches, "color"),
                    value_given(&matches, "battery"),
                    value_given(&matches, "info"),
                    value_given(&matches, "sniff"),
                    value_given(&matches, "watch"),
                    value_given(&matches, "upower"),
                    value_given(&matches, "sensitivity"),
                    value_given(&matches, "sensitivity-stages"),
                ];
                proof {
                    assert(values_text(values@) =~= given);
                    lemma_taken_values_are_good(given);
                }
                let cli = Cli::from_values(&values);
                proof {
                    lemma_one_flag(given, cli);
                    let k = choose|k: int| 0 <= k < 9 && (#[trigger] given[k]) is Some;
                    assert(given =~= only(9, k, given[k]->0));
                    assert(sets(text::text_of(line), cli, k, given[k]->0));
                }
                Ok(cli)
            },
        }
    }
}

/// The command line gives `value` to flag number `k`, and `cli` is that flag
/// alone.
pub open spec fn sets(args: Seq<Seq<char>>, cli: Cli, k: int, value: Seq<char>) -> bool {
    &&& 0 <= k < 9
    &&& gives(program_flags()[k], args, value)
    &&& cli == Cli::with(only(9, k, value))
}

proof fn lemma_color_names_are_named(value: Seq<char>)
    requires
        color_names().contains(value),
    ensures
        ColorName::named(value) is Some,
{
}

proof fn lemma_taken_values_are_good(values: Seq<Option<Seq<char>>>)
    requires
        values.len() == 9,
        forall|k: int|
            0 <= k < 9 && (#[trigger] values[k]) is Some ==> takes(
                program_flags(),
                k,
                values[k]->0,
            ),
    ensures
        values_are_good(values),
{
    if values[1] is Some {
        lemma_color_names_are_named(values[1]->0);
    }
    if values[5] is Some {
        lemma_color_names_are_named(values[5]->0);
    }
    assert(values[7] is Some ==> takes(program_flags(), 7, values[7]->0));
    assert(values[8] is Some ==> takes(program_flags(), 8, values[8]->0));
}

proof fn lemma_one_flag(values: Seq<Option<Seq<char>>>, cli: Cli)
    requires
        values.len() == 9,
        values_are_good(values),
        cli == Cli::with(values),
        exists|k: int| 0 <= k < 9 && (#[trigger] values[k]) is Some,
        forall|j: int, k: int|
            0 <= j < k < 9 ==> !((#[trigger] values[j]) is Some && (#[trigger] values[k]) is Some),
    ensures
        cli.set_flags().len() == 1,
{
    let given = choose|k: int| 0 <= k < 9 && (#[trigger] values[k]) is Some;
    assert(cli.check == (values[0] is Some));
    assert(cli.color is Some == (values[1] is Some));
    assert(cli.battery == (values[2] is Some));
    assert(cli.info == (values[3] is Some));
    assert(cli.sniff == (values[4] is Some));
    assert(cli.watch is Some == (values[5] is Some));
    assert(cli.upower == (values[6] is Some));
    assert(cli.sensitivity is Some == (values[7] is Some));
    assert(cli.sensitivity_stages is Some == (values[8] is Some));
}

/// A flag without a value.
fn switch(long: &'static str, help: &'static str) -> (r: Flag)
    ensures
        r@ == switch_text(long@, help@),
{
    let r = Flag {
        long,
        aliases: Vec::new(),
        takes: 0,
        values: vec![""],
        value_names: Vec::new(),
        help,
    };
    proof {
        assert(words(r.aliases@) =~= Seq::empty());
        assert(words(r.values@) =~= seq![""@]);
        assert(words(r.value_names@) =~= Seq::empty());
    }
    r
}

/// A flag with one value.
fn setting(
    long: &'static str,
    aliases: Vec<&'static str>,
    values: Vec<&'static str>,
    value_name: &'static str,
    help: &'static str,
) -> (r: Flag)
    ensures
        r@ == (long@, words(aliases@), 1usize, words(values@), seq![value_name@], help@),
{
    let r = Flag { long, aliases, takes: 1, values, value_names: vec![value_name], help };
    proof {
        assert(words(r.value_names@) =~= seq![value_name@]);
    }
    r
}

fn listed_colors() -> (r: Vec<&'static str>)
    ensures
        words(r@) == color_names(),
{
    let r: Vec<&'static str> = vec!["red", "green", "blue", "white", "off"];
    proof {
        assert(words(r@) =~= color_names());
    }
    r
}

fn declared_listed() -> (r: Vec<Flag>)
    ensures
        flags_view(r@) == listed_flags(),
{
    let r = vec![
        switch("check", CHECK_HELP),
        setting("color", Vec::new(), listed_colors(), "COLOR", COLOR_HELP),
        switch("battery", BATTERY_HELP),
        switch("info", INFO_HELP),
        switch("sniff", SNIFF_HELP),
        setting("watch", Vec::new(), listed_colors(), "COLOR", WATCH_HELP),
        switch("upower", UPOWER_HELP),
    ];
    proof {
        assert(words(Seq::<&'static str>::empty()) =~= Seq::empty());
        assert(flags_view(r@) =~= listed_flags());
    }
    r
}

fn declared_dpi() -> (r: Flag)
    ensures
        r@ == dpi_flag(),
{
    let aliases: Vec<&'static str> = vec!["dpi"];
    proof {
        assert(words(aliases@) =~= seq!["dpi"@]);
        assert(words(Seq::<&'static str>::empty()) =~= Seq::empty());
    }
    setting("sensitivity", aliases, Vec::new(), "DPI", SENSITIVITY_HELP)
}

fn declared_word() -> (r: Flag)
    ensures
        r@ == word_flag(),
{
    proof {
        assert(words(Seq::<&'static str>::empty()) =~= Seq::empty());
    }
    setting("sensitivity-stages", Vec::new(), Vec::new(), "on|off", SENSITIVITY_STAGES_HELP)
}

// ---------- Laws ----------

/// A color is found under its own name.
pub proof fn law_color_names_read_back(color: ColorName)
    ensures
        ColorName::named(color.name()) == Some(color),
{
    reveal_strlit("red");
    reveal_strlit("green");
    reveal_strlit("blue");
    reveal_strlit("white");
    reveal_strlit("off");
    assert("red"@.len() == 3 && "green"@.len() == 5 && "blue"@.len() == 4 && "white"@.len() == 5
        && "off"@.len() == 3);
    assert("red"@[0] == 'r' && "off"@[0] == 'o' && "green"@[0] == 'g' && "white"@[0] == 'w');
}

/// Where exactly one flag is set, the action is the one of that flag.
pub proof fn law_single_flag_decides(cli: Cli)
    requires
        cli.set_flags().len() == 1,
    ensures
        cli.check ==> cli.set_flags()[0] == Action::Check,
        cli.color is Some ==> cli.set_flags()[0] == Action::Color(cli.color->0),
        cli.battery ==> cli.set_flags()[0] == Action::Battery,
        cli.info ==> cli.set_flags()[0] == Action::Info,
        cli.sniff ==> cli.set_flags()[0] == Action::Sniff,
        cli.watch is Some ==> cli.set_flags()[0] == Action::Watch(cli.watch->0),
        cli.upower ==> cli.set_flags()[0] == Action::Upower,
        cli.sensitivity is Some ==> cli.set_flags()[0] == Action::Sensitivity(cli.sensitivity->0),
        cli.sensitivity_stages is Some ==> cli.set_flags()[0] == Action::SensitivityStages(
            cli.sensitivity_stages->0,
        ),
{
}

/// A command line that gives one flag in its plain form asks for the action of
/// that flag, with its value.
pub proof fn law_plain_command_lines_are_understood(
    args: Seq<Seq<char>>,
    k: int,
    value: Seq<char>,
)
    requires
        gives_only(program_flags(), args, k, value),
    ensures
        Cli::with(only(9, k, value)).set_flags() == seq![
            if k == 0 {
                Action::Check
            } else if k == 1 {
                Action::Color(ColorName::named(value)->0)
            } else if k == 2 {
                Action::Battery
            } else if k == 3 {
                Action::Info
            } else if k == 4 {
                Action::Sniff
            } else if k == 5 {
                Action::Watch(ColorName::named(value)->0)
            } else if k == 6 {
                Action::Upower
            } else if k == 7 {
                Action::Sensitivity(dpi_value(value)->Ok_0)
            } else {
                Action::SensitivityStages(boolish_value(value)->0)
            },
        ],
{
    let cli = Cli::with(only(9, k, value));
    if k == 1 || k == 5 {
        lemma_color_names_are_named(value);
    }
    assert(k == 7 ==> takes(program_flags(), 7, value));
    assert(k == 8 ==> takes(program_flags(), 8, value));
    assert(cli.set_flags().len() == 1);
}

/// `--sensitivity` takes exactly the values within the sensor's limits, as
/// they are printed.
pub proof fn law_printed_dpi_is_accepted_within_limits(n: u16)
    ensures
        DPI_MIN <= n <= DPI_MAX ==> dpi_value(text::decimal(n as nat)) == Ok::<u16, Seq<char>>(n),
        !(DPI_MIN <= n <= DPI_MAX) ==> dpi_value(text::decimal(n as nat)) is Err,
{
    text::law_decimal_reads_back(n as nat, u16::MAX as nat);
}

/// A text is a color's name only if it is that name, letter for letter.
pub proof fn law_only_names_are_colors(name: Seq<char>)
    ensures
        ColorName::named(name) matches Some(color) ==> color.name() == name,
        ColorName::named(name) is Some <==> name == "red"@ || name == "green"@ || name == "blue"@
            || name == "white"@ || name == "off"@,
{
}

/// A color is called by the light it is: red, green and blue light one channel
/// alone and equally bright, white all three fully, and off none.
pub proof fn law_colors_are_what_they_are_called(color: ColorName)
    ensures
        color is Red <==> color.color().red > color.color().green,
        color is Green <==> color.color().green > color.color().red,
        color is Blue <==> color.color().blue > color.color().red,
        color is Red || color is Green || color is Blue ==> color.color().red
            + color.color().green + color.color().blue == 0xC0,
        color is White ==> color.color().red == 255 && color.color().green == 255
            && color.color().blue == 255,
        color is Off ==> color.color().red == 0 && color.color().green == 0 && color.color().blue
            == 0,
{
}

/// `--sensitivity` takes a number from 100 to 35000 and gives it as it is, and says
/// of all else whether it is no number or out of range.
pub proof fn law_dpi_values_are_numbers_in_range(s: Seq<char>)
    ensures
        match text::unsigned(s, 65535) {
            None => dpi_value(s) == Err::<u16, Seq<char>>("'"@ + s + "' is not a DPI value"@),
            Some(n) => {
                &&& 100 <= n <= 35000 ==> dpi_value(s) == Ok::<u16, Seq<char>>(n as u16)
                &&& n < 100 || n > 35000 ==> dpi_value(s) == Err::<u16, Seq<char>>(
                    text::decimal(n) + " is out of range ("@ + text::decimal(100) + "-"@
                        + text::decimal(35000) + ")"@,
                )
            },
        },
{
}

/// Switch words are taken in any case: what reads alike in lower case says the
/// same.
pub proof fn law_switch_words_ignore_case(a: Seq<char>, b: Seq<char>)
    requires
        a.map_values(|c: char| lower(c)) == b.map_values(|c: char| lower(c)),
    ensures
        boolish_value(a) == boolish_value(b),
{
}

/// Each value sets its own field of the command line, and no other.
pub proof fn law_values_set_their_own_field(values: Seq<Option<Seq<char>>>)
    requires
        values.len() == 9,
        values_are_good(values),
    ensures
        ({
            let cli = Cli::with(values);
            &&& cli.check <==> values[0] is Some
            &&& cli.color is Some <==> values[1] is Some
            &&& cli.color matches Some(color) ==> color.name() == values[1]->0
            &&& cli.battery <==> values[2] is Some
            &&& cli.info <==> values[3] is Some
            &&& cli.sniff <==> values[4] is Some
            &&& cli.watch is Some <==> values[5] is Some
            &&& cli.watch matches Some(color) ==> color.name() == values[5]->0
            &&& cli.upower <==> values[6] is Some
            &&& cli.sensitivity is Some <==> values[7] is Some
            &&& cli.sensitivity matches Some(dpi) ==> text::unsigned(values[7]->0, 65535) == Some(
                dpi as nat,
            )
            &&& cli.sensitivity_stages == (if values[8] is Some {
                boolish_value(values[8]->0)
            } else {
                None
            })
        }),
{
    if values[1] is Some {
        law_only_names_are_colors(values[1]->0);
    }
    if values[5] is Some {
        law_only_names_are_colors(values[5]->0);
    }
}

/// Where several flags are set, the first of them in their fixed order decides.
pub proof fn law_first_flag_decides(cli: Cli)
    ensures
        ({
            let first = cli.set_flags()[0];
            if cli.check {
                first == Action::Check
            } else if cli.color is Some {
                first == Action::Color(cli.color->0)
            } else if cli.battery {
                first == Action::Battery
            } else if cli.info {
                first == Action::Info
            } else if cli.sniff {
                first == Action::Sniff
            } else if cli.watch is Some {
                first == Action::Watch(cli.watch->0)
            } else if cli.upower {
                first == Action::Upower
            } else if cli.sensitivity is Some {
                first == Action::Sensitivity(cli.sensitivity->0)
            } else {
                cli.sensitivity_stages is Some ==> first == Action::SensitivityStages(
                    cli.sensitivity_stages->0,
                )
            }
        }),
{
}

} // verus!
