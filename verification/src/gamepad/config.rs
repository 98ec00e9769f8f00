//! Mapping table for the virtual gamepad: which remote button drives which
//! virtual control, plus the stick-shaping knobs.
//!
//! Precedence, lowest to highest: the built-in defaults in this module, the
//! optional `gamepad.toml` under the shared config directory, then the flags on
//! the command line. Every file field is optional, so a partial file overrides
//! only what it names.
//!
//! The shaping knobs are real numbers. They travel as the bit patterns of
//! IEEE 754 doubles, whose nonnegative values order as their patterns do.

use vstd::prelude::*;
use vstd::utf8::encode_utf8;

use crate::calibration::{base_for, bytes_of, config_base, config_file_in, config_file_path};
use crate::gamepad::pad::{
    BTN_EAST, BTN_MODE, BTN_NORTH, BTN_SELECT, BTN_SOUTH, BTN_START, BTN_THUMBL, BTN_THUMBR, BTN_TL,
    BTN_TR, BTN_WEST,
};
use crate::text::{
    ascii_upper, debug_quoted, debug_text, law_trimming_takes_the_ends, same_text, trim_text,
    trimmed, upper_ascii,
};

verus! {

/// How the touchpad drives the left stick. Selected once at startup.
#[derive(Clone, Copy, Debug, PartialEq, Eq, Structural)]
pub enum StickMode {
    /// Touch-down point becomes stick centre; displacement deflects the stick.
    Relative,
    /// Calibrated pad position maps straight onto the stick.
    Absolute,
}

/// One D-pad direction on the hat.
#[derive(Clone, Copy, Debug, PartialEq, Eq, Structural)]
pub enum HatDir {
    Up,
    Down,
    Left,
    Right,
}

/// Where one remote button lands on the virtual pad.
#[derive(Clone, Copy, Debug, PartialEq, Eq, Structural)]
pub enum Target {
    /// The key with this code.
    Key(u16),
    Hat(HatDir),
    /// Nowhere.
    Unmapped,
}

/// (mask bit, remote button config key, default target) of each button.
pub open spec fn default_table() -> [(u16, &'static str, Target); 13] {
    [
        (0x0001, "tv", Target::Key(BTN_MODE)),
        (0x0002, "volume_up", Target::Key(BTN_TR)),
        (0x0004, "volume_down", Target::Key(BTN_TL)),
        (0x0008, "select", Target::Key(BTN_SOUTH)),
        (0x0010, "power", Target::Key(BTN_SELECT)),
        (0x0020, "siri", Target::Key(BTN_NORTH)),
        (0x0040, "back", Target::Key(BTN_EAST)),
        (0x0080, "mute", Target::Key(BTN_WEST)),
        (0x0100, "play_pause", Target::Key(BTN_START)),
        (0x0200, "up", Target::Hat(HatDir::Up)),
        (0x0400, "right", Target::Hat(HatDir::Right)),
        (0x0800, "down", Target::Hat(HatDir::Down)),
        (0x1000, "left", Target::Hat(HatDir::Left)),
    ]
}

/// The built-in mapping: (mask bit, remote button config key, default target).
pub fn default_buttons() -> (table: [(u16, &'static str, Target); 13])
    ensures
        table == default_table(),
{
    [
        (0x0001, "tv", Target::Key(BTN_MODE)),
        (0x0002, "volume_up", Target::Key(BTN_TR)),
        (0x0004, "volume_down", Target::Key(BTN_TL)),
        (0x0008, "select", Target::Key(BTN_SOUTH)),
        (0x0010, "power", Target::Key(BTN_SELECT)),
        (0x0020, "siri", Target::Key(BTN_NORTH)),
        (0x0040, "back", Target::Key(BTN_EAST)),
        (0x0080, "mute", Target::Key(BTN_WEST)),
        (0x0100, "play_pause", Target::Key(BTN_START)),
        (0x0200, "up", Target::Hat(HatDir::Up)),
        (0x0400, "right", Target::Hat(HatDir::Right)),
        (0x0800, "down", Target::Hat(HatDir::Down)),
        (0x1000, "left", Target::Hat(HatDir::Left)),
    ]
}

pub const DEFAULT_STICK_MODE: StickMode = StickMode::Relative;

/// The bit pattern of 0.35.
pub const DEFAULT_STICK_RADIUS: u64 = 0x3FD6_6666_6666_6666;

/// The bit pattern of 0.05.
pub const DEFAULT_DEADZONE: u64 = 0x3FA9_9999_9999_999A;

/// The bit pattern of 2.0, the largest stick radius.
pub const MAX_STICK_RADIUS: u64 = 0x4000_0000_0000_0000;

/// The bit pattern of 0.9, above every dead zone.
pub const DEADZONE_LIMIT: u64 = 0x3FEC_CCCC_CCCC_CCCD;

/// The bit pattern of negative zero.
pub const NEGATIVE_ZERO: u64 = 0x8000_0000_0000_0000;

/// Filename under the shared config directory.
pub const CONFIG_FILE: &'static str = "gamepad.toml";

/// Fully resolved runtime configuration.
#[derive(Clone, Copy, Debug, PartialEq, Eq)]
pub struct GamepadConfig {
    pub stick_mode: StickMode,
    pub stick_radius: u64,
    pub deadzone: u64,
    /// (mask bit, target), one entry per assigned bit of report 0xFB.
    pub buttons: [(u16, Target); 13],
}

/// Contents of the mapping file.
#[derive(Debug)]
pub struct FileConfig {
    pub stick_mode: Option<StickMode>,
    pub stick_radius: Option<u64>,
    pub deadzone: Option<u64>,
    pub buttons: FileButtons,
}

/// What the command line overrides.
#[derive(Clone, Copy, Debug, PartialEq, Eq, Structural)]
pub struct Overrides {
    pub stick_mode: Option<StickMode>,
    pub stick_radius: Option<u64>,
    pub deadzone: Option<u64>,
}

/// `[buttons]` table: one optional target name per remote button.
#[derive(Debug)]
pub struct FileButtons {
    pub tv: Option<String>,
    pub volume_up: Option<String>,
    pub volume_down: Option<String>,
    pub select: Option<String>,
    pub power: Option<String>,
    pub siri: Option<String>,
    pub back: Option<String>,
    pub mute: Option<String>,
    pub play_pause: Option<String>,
    pub up: Option<String>,
    pub right: Option<String>,
    pub down: Option<String>,
    pub left: Option<String>,
}

impl Default for FileButtons {
    fn default() -> (b: Self)
        ensures
            forall|key: Seq<char>| #[trigger] b.entry(key) is None,
    {
        FileButtons {
            tv: None,
            volume_up: None,
            volume_down: None,
            select: None,
            power: None,
            siri: None,
            back: None,
            mute: None,
            play_pause: None,
            up: None,
            right: None,
            down: None,
            left: None,
        }
    }
}

impl Default for FileConfig {
    fn default() -> (c: Self)
        ensures
            c.stick_mode is None,
            c.stick_radius is None,
            c.deadzone is None,
            forall|key: Seq<char>| #[trigger] c.buttons.entry(key) is None,
    {
        FileConfig {
            stick_mode: None,
            stick_radius: None,
            deadzone: None,
            buttons: FileButtons::default(),
        }
    }
}

impl FileButtons {
    /// The entry under a config key; unset for a key that is not a remote
    /// button.
    pub open spec fn entry(&self, key: Seq<char>) -> Option<String> {
        if key == "tv"@ {
            self.tv
        } else if key == "volume_up"@ {
            self.volume_up
        } else if key == "volume_down"@ {
            self.volume_down
        } else if key == "select"@ {
            self.select
        } else if key == "power"@ {
            self.power
        } else if key == "siri"@ {
            self.siri
        } else if key == "back"@ {
            self.back
        } else if key == "mute"@ {
            self.mute
        } else if key == "play_pause"@ {
            self.play_pause
        } else if key == "up"@ {
            self.up
        } else if key == "right"@ {
            self.right
        } else if key == "down"@ {
            self.down
        } else if key == "left"@ {
            self.left
        } else {
            None
        }
    }

    /// Look up one entry by its [`default_buttons`] config key. Returns
    /// `None` both for an unset field and for a key that is not a remote
    /// button.
    pub fn get(&self, key: &str) -> (entry: Option<&str>)
        ensures
            entry is Some == self.entry(key@) is Some,
            entry matches Some(e) ==> e@ == self.entry(key@)->0@,
    {
        let field = if same_text(key, "tv") {
            &self.tv
        } else if same_text(key, "volume_up") {
            &self.volume_up
        } else if same_text(key, "volume_down") {
            &self.volume_down
        } else if same_text(key, "select") {
            &self.select
        } else if same_text(key, "power") {
            &self.power
        } else if same_text(key, "siri") {
            &self.siri
        } else if same_text(key, "back") {
            &self.back
        } else if same_text(key, "mute") {
            &self.mute
        } else if same_text(key, "play_pause") {
            &self.play_pause
        } else if same_text(key, "up") {
            &self.up
        } else if same_text(key, "right") {
            &self.right
        } else if same_text(key, "down") {
            &self.down
        } else if same_text(key, "left") {
            &self.left
        } else {
            return None;
        };
        match field {
            Some(name) => Some(name.as_str()),
            None => None,
        }
    }
}

/// The target with a given name in upper case: `NONE`, the four hat directions,
/// and the eleven buttons the virtual pad declares, four of them also under the
/// kernel's alias.
pub open spec fn target_named(upper: Seq<char>) -> Option<Target> {
    if upper == "NONE"@ {
        Some(Target::Unmapped)
    } else if upper == "HAT_UP"@ {
        Some(Target::Hat(HatDir::Up))
    } else if upper == "HAT_DOWN"@ {
        Some(Target::Hat(HatDir::Down))
    } else if upper == "HAT_LEFT"@ {
        Some(Target::Hat(HatDir::Left))
    } else if upper == "HAT_RIGHT"@ {
        Some(Target::Hat(HatDir::Right))
    } else if upper == "BTN_SOUTH"@ || upper == "BTN_A"@ {
        Some(Target::Key(BTN_SOUTH))
    } else if upper == "BTN_EAST"@ || upper == "BTN_B"@ {
        Some(Target::Key(BTN_EAST))
    } else if upper == "BTN_NORTH"@ || upper == "BTN_X"@ {
        Some(Target::Key(BTN_NORTH))
    } else if upper == "BTN_WEST"@ || upper == "BTN_Y"@ {
        Some(Target::Key(BTN_WEST))
    } else if upper == "BTN_TL"@ {
        Some(Target::Key(BTN_TL))
    } else if upper == "BTN_TR"@ {
        Some(Target::Key(BTN_TR))
    } else if upper == "BTN_SELECT"@ {
        Some(Target::Key(BTN_SELECT))
    } else if upper == "BTN_START"@ {
        Some(Target::Key(BTN_START))
    } else if upper == "BTN_MODE"@ {
        Some(Target::Key(BTN_MODE))
    } else if upper == "BTN_THUMBL"@ {
        Some(Target::Key(BTN_THUMBL))
    } else if upper == "BTN_THUMBR"@ {
        Some(Target::Key(BTN_THUMBR))
    } else {
        None
    }
}

/// The target that a config value names: white space around it and the case of
/// its letters do not matter.
pub open spec fn target_of(name: Seq<char>) -> Option<Target> {
    target_named(trimmed(name).map_values(|c: char| ascii_upper(c)))
}

/// The complaint about a name that is no target.
pub open spec fn unknown_target_text(name: Seq<char>) -> Seq<char> {
    "unknown gamepad target "@ + debug_quoted(name)
        + "; accepted: none, HAT_UP, HAT_DOWN, HAT_LEFT, HAT_RIGHT, BTN_SOUTH (BTN_A), BTN_EAST (BTN_B), BTN_NORTH (BTN_X), BTN_WEST (BTN_Y), BTN_TL, BTN_TR, BTN_SELECT, BTN_START, BTN_MODE, BTN_THUMBL, BTN_THUMBR"@
}

/// Parse a config value into a [`Target`]. Names outside the accepted set are
/// rejected: the kernel would silently drop events for a code the device never
/// declared.
pub fn parse_target(s: &str) -> (target: Result<Target, String>)
    ensures
        match target {
            Ok(t) => target_of(s@) == Some(t),
            Err(message) => target_of(s@) is None && message@ == unknown_target_text(s@),
        },
{
    let upper = upper_ascii(trim_text(s).as_str());
    let name = upper.as_str();
    if same_text(name, "NONE") {
        Ok(Target::Unmapped)
    } else if same_text(name, "HAT_UP") {
        Ok(Target::Hat(HatDir::Up))
    } else if same_text(name, "HAT_DOWN") {
        Ok(Target::Hat(HatDir::Down))
    } else if same_text(name, "HAT_LEFT") {
        Ok(Target::Hat(HatDir::Left))
    } else if same_text(name, "HAT_RIGHT") {
        Ok(Target::Hat(HatDir::Right))
    } else if same_text(name, "BTN_SOUTH") || same_text(name, "BTN_A") {
        Ok(Target::Key(BTN_SOUTH))
    } else if same_text(name, "BTN_EAST") || same_text(name, "BTN_B") {
        Ok(Target::Key(BTN_EAST))
    } else if same_text(name, "BTN_NORTH") || same_text(name, "BTN_X") {
        Ok(Target::Key(BTN_NORTH))
    } else if same_text(name, "BTN_WEST") || same_text(name, "BTN_Y") {
        Ok(Target::Key(BTN_WEST))
    } else if same_text(name, "BTN_TL") {
        Ok(Target::Key(BTN_TL))
    } else if same_text(name, "BTN_TR") {
        Ok(Target::Key(BTN_TR))
    } else if same_text(name, "BTN_SELECT") {
        Ok(Target::Key(BTN_SELECT))
    } else if same_text(name, "BTN_START") {
        Ok(Target::Key(BTN_START))
    } else if same_text(name, "BTN_MODE") {
        Ok(Target::Key(BTN_MODE))
    } else if same_text(name, "BTN_THUMBL") {
        Ok(Target::Key(BTN_THUMBL))
    } else if same_text(name, "BTN_THUMBR") {
        Ok(Target::Key(BTN_THUMBR))
    } else {
        let mut message = "unknown gamepad target ".to_owned();
        message.append(debug_text(s).as_str());
        message.append(
            "; accepted: none, HAT_UP, HAT_DOWN, HAT_LEFT, HAT_RIGHT, BTN_SOUTH (BTN_A), BTN_EAST (BTN_B), BTN_NORTH (BTN_X), BTN_WEST (BTN_Y), BTN_TL, BTN_TR, BTN_SELECT, BTN_START, BTN_MODE, BTN_THUMBL, BTN_THUMBR",
        );
        Err(message)
    }
}

/// Default location, `<config base>/siri-remote/gamepad.toml`, or `None`
/// when neither `XDG_CONFIG_HOME` nor `HOME` is set.
pub fn default_path(xdg: Option<&[u8]>, home: Option<&[u8]>) -> (path: Option<Vec<u8>>)
    ensures
        match base_for(bytes_of(xdg), bytes_of(home)) {
            Some(base) => path is Some && path->0@ == config_file_path(
                base,
                encode_utf8(CONFIG_FILE@),
            ),
            None => path is None,
        },
{
    match config_base(xdg, home) {
        Some(base) => Some(config_file_in(base.as_slice(), CONFIG_FILE)),
        None => None,
    }
}

/// Where the mapping comes from.
pub enum ConfigSource {
    /// This file; it must be readable and well-formed.
    File(Vec<u8>),
    /// The built-in mapping.
    BuiltIn,
}

/// Choose the source of the mapping: an explicitly named file whether or not it
/// exists, so that a mistake surfaces; else the default file if it exists; else
/// the built-in mapping.
pub fn choose_source(
    explicit: Option<Vec<u8>>,
    default: Option<Vec<u8>>,
    default_exists: bool,
) -> (source: ConfigSource)
    ensures
        source == match explicit {
            Some(path) => ConfigSource::File(path),
            None => match default {
                Some(path) => if default_exists {
                    ConfigSource::File(path)
                } else {
                    ConfigSource::BuiltIn
                },
                None => ConfigSource::BuiltIn,
            },
        },
{
    match explicit {
        Some(path) => ConfigSource::File(path),
        None => match default {
            Some(path) => {
                if default_exists {
                    ConfigSource::File(path)
                } else {
                    ConfigSource::BuiltIn
                }
            },
            None => ConfigSource::BuiltIn,
        },
    }
}

/// Why a configuration cannot be used.
#[derive(Debug)]
pub enum ConfigError {
    /// The stick radius is not in (0.0, 2.0].
    StickRadius(u64),
    /// The dead zone is not in [0.0, 0.9).
    Deadzone(u64),
    /// The entry of a button names no target.
    Button { key: String, message: String },
}

/// How the program ends when its mapping cannot be read or used: the code and
/// the words.
pub fn config_failure(detail: &str) -> (exit: (u8, String))
    ensures
        exit.0 == 2,
        exit.1@ == "error: "@ + detail@,
{
    let mut say = "error: ".to_owned();
    say.append(detail);
    (2, say)
}

/// The first of two values that is set, or a default.
pub open spec fn first_set<T>(first: Option<T>, second: Option<T>, default: T) -> T {
    match first {
        Some(v) => v,
        None => match second {
            Some(v) => v,
            None => default,
        },
    }
}

/// Whether a stick radius is in (0.0, 2.0].
pub open spec fn radius_ok(bits: u64) -> bool {
    0 < bits <= MAX_STICK_RADIUS
}

/// Whether a dead zone is in [0.0, 0.9).
pub open spec fn deadzone_ok(bits: u64) -> bool {
    bits < DEADZONE_LIMIT || bits == NEGATIVE_ZERO
}

/// The target of the button at a position of the table, where the file's entry
/// for it, if any, names one.
pub open spec fn button_target(file: FileConfig, i: int) -> Option<Target> {
    match file.buttons.entry(default_table()@[i].1@) {
        Some(name) => target_of(name@),
        None => Some(default_table()@[i].2),
    }
}

/// Fold command-line overrides over file values over built-in defaults, then
/// validate.
///
/// Two remote buttons mapping to the same key is legal; the translator ORs
/// them together.
pub fn resolve(args: &Overrides, file: &FileConfig) -> (config: Result<GamepadConfig, ConfigError>)
    ensures
        ({
            let radius = first_set(args.stick_radius, file.stick_radius, DEFAULT_STICK_RADIUS);
            let deadzone = first_set(args.deadzone, file.deadzone, DEFAULT_DEADZONE);
            match config {
                Ok(c) => {
                    &&& radius_ok(radius) && deadzone_ok(deadzone)
                    &&& c.stick_mode == first_set(
                        args.stick_mode,
                        file.stick_mode,
                        DEFAULT_STICK_MODE,
                    )
                    &&& c.stick_radius == radius
                    &&& c.deadzone == deadzone
                    &&& forall|i: int|
                        0 <= i < 13 ==> button_target(*file, i) is Some && #[trigger] c.buttons@[i]
                            == (default_table()@[i].0, button_target(*file, i)->0)
                },
                Err(ConfigError::StickRadius(r)) => !radius_ok(radius) && r == radius,
                Err(ConfigError::Deadzone(d)) => radius_ok(radius) && !deadzone_ok(deadzone) && d
                    == deadzone,
                Err(ConfigError::Button { key, message }) => {
                    &&& radius_ok(radius) && deadzone_ok(deadzone)
                    &&& exists|i: int|
                        {
                            &&& 0 <= i < 13
                            &&& #[trigger] button_target(*file, i) is None
                            &&& forall|j: int|
                                0 <= j < i ==> #[trigger] button_target(*file, j) is Some
                            &&& key@ == default_table()@[i].1@
                            &&& message@ == unknown_target_text(
                                file.buttons.entry(default_table()@[i].1@)->0@,
                            )
                        }
                },
            }
        }),
{
    let stick_mode = match args.stick_mode {
        Some(m) => m,
        None => match file.stick_mode {
            Some(m) => m,
            None => DEFAULT_STICK_MODE,
        },
    };
    let stick_radius: u64 = match args.stick_radius {
        Some(r) => r,
        None => match file.stick_radius {
            Some(r) => r,
            None => DEFAULT_STICK_RADIUS,
        },
    };
    let deadzone: u64 = match args.deadzone {
        Some(d) => d,
        None => match file.deadzone {
            Some(d) => d,
            None => DEFAULT_DEADZONE,
        },
    };
    if !(0 < stick_radius && stick_radius <= MAX_STICK_RADIUS) {
        return Err(ConfigError::StickRadius(stick_radius));
    }
    if !(deadzone < DEADZONE_LIMIT || deadzone == NEGATIVE_ZERO) {
        return Err(ConfigError::Deadzone(deadzone));
    }
    let table = default_buttons();
    let mut buttons: [(u16, Target); 13] = [(0u16, Target::Unmapped); 13];
    let mut i: usize = 0;
    while i < 13
        invariant
            i <= 13,
            table == default_table(),
            stick_radius == first_set(args.stick_radius, file.stick_radius, DEFAULT_STICK_RADIUS),
            deadzone == first_set(args.deadzone, file.deadzone, DEFAULT_DEADZONE),
            radius_ok(stick_radius),
            deadzone_ok(deadzone),
            forall|j: int| 0 <= j < i ==> #[trigger] button_target(*file, j) is Some,
            forall|j: int|
                0 <= j < i ==> #[trigger] buttons@[j] == (
                    default_table()@[j].0,
                    button_target(*file, j)->0,
                ),
        decreases 13 - i,
    {
        let (bit, key, default) = table[i];
        let target = match file.buttons.get(key) {
            Some(name) => match parse_target(name) {
                Ok(target) => target,
                Err(message) => {
                    assert(button_target(*file, i as int) is None);
                    return Err(ConfigError::Button { key: key.to_owned(), message });
                },
            },
            None => default,
        };
        assert(button_target(*file, i as int) == Some(target));
        buttons[i] = (bit, target);
        i = i + 1;
    }
    Ok(GamepadConfig { stick_mode, stick_radius, deadzone, buttons })
}

// -- Laws ---------------------------------------------------------------------

/// The command line beats the file, the file beats the default.
pub proof fn law_precedence<T>(first: Option<T>, second: Option<T>, default: T)
    ensures
        first is Some ==> first_set(first, second, default) == first->0,
        first is None && second is Some ==> first_set(first, second, default) == second->0,
        first is None && second is None ==> first_set(first, second, default) == default,
{
}

/// The built-in mapping is always acceptable: with nothing in the file and
/// nothing on the command line, every button keeps its default.
pub proof fn law_defaults_are_valid(file: FileConfig)
    requires
        forall|key: Seq<char>| #[trigger] file.buttons.entry(key) is None,
    ensures
        radius_ok(DEFAULT_STICK_RADIUS),
        deadzone_ok(DEFAULT_DEADZONE),
        forall|i: int|
            0 <= i < 13 ==> #[trigger] button_target(file, i) == Some(default_table()@[i].2),
{
}

/// Each table entry has a bit of its own.
pub proof fn law_default_bits_distinct(i: int, j: int)
    requires
        0 <= i < j < 13,
    ensures
        default_table()@[i].0 != default_table()@[j].0,
        default_table()@[i].0 & default_table()@[j].0 == 0,
{
    let a = default_table()@[i].0;
    let b = default_table()@[j].0;
    assert(a < b && (a == 0x1 || a == 0x2 || a == 0x4 || a == 0x8 || a == 0x10 || a == 0x20 || a
        == 0x40 || a == 0x80 || a == 0x100 || a == 0x200 || a == 0x400 || a == 0x800) && (b == 0x2
        || b == 0x4 || b == 0x8 || b == 0x10 || b == 0x20 || b == 0x40 || b == 0x80 || b == 0x100
        || b == 0x200 || b == 0x400 || b == 0x800 || b == 0x1000));
    assert(a & b == 0) by (bit_vector)
        requires
            a < b && (a == 0x1 || a == 0x2 || a == 0x4 || a == 0x8 || a == 0x10 || a == 0x20 || a
                == 0x40 || a == 0x80 || a == 0x100 || a == 0x200 || a == 0x400 || a == 0x800) && (b
                == 0x2 || b == 0x4 || b == 0x8 || b == 0x10 || b == 0x20 || b == 0x40 || b == 0x80
                || b == 0x100 || b == 0x200 || b == 0x400 || b == 0x800 || b == 0x1000),
    ;
}

/// The accepted names and what they stand for, in upper case: the four
/// directions, and the buttons under the kernel's names with the aliases of the
/// face buttons. No other text is a target.
pub proof fn law_target_names(upper: Seq<char>)
    ensures
        target_named("NONE"@) == Some(Target::Unmapped),
        target_named("HAT_UP"@) == Some(Target::Hat(HatDir::Up)),
        target_named("HAT_DOWN"@) == Some(Target::Hat(HatDir::Down)),
        target_named("HAT_LEFT"@) == Some(Target::Hat(HatDir::Left)),
        target_named("HAT_RIGHT"@) == Some(Target::Hat(HatDir::Right)),
        target_named("BTN_SOUTH"@) == Some(Target::Key(0x130)),
        target_named("BTN_A"@) == Some(Target::Key(0x130)),
        target_named("BTN_EAST"@) == Some(Target::Key(0x131)),
        target_named("BTN_B"@) == Some(Target::Key(0x131)),
        target_named("BTN_NORTH"@) == Some(Target::Key(0x133)),
        target_named("BTN_X"@) == Some(Target::Key(0x133)),
        target_named("BTN_WEST"@) == Some(Target::Key(0x134)),
        target_named("BTN_Y"@) == Some(Target::Key(0x134)),
        target_named("BTN_TL"@) == Some(Target::Key(0x136)),
        target_named("BTN_TR"@) == Some(Target::Key(0x137)),
        target_named("BTN_SELECT"@) == Some(Target::Key(0x13a)),
        target_named("BTN_START"@) == Some(Target::Key(0x13b)),
        target_named("BTN_MODE"@) == Some(Target::Key(0x13c)),
        target_named("BTN_THUMBL"@) == Some(Target::Key(0x13d)),
        target_named("BTN_THUMBR"@) == Some(Target::Key(0x13e)),
        target_named(upper) is Some ==> upper == "NONE"@ || upper == "HAT_UP"@
            || upper == "HAT_DOWN"@ || upper == "HAT_LEFT"@ || upper == "HAT_RIGHT"@
            || upper == "BTN_SOUTH"@ || upper == "BTN_A"@ || upper == "BTN_EAST"@
            || upper == "BTN_B"@ || upper == "BTN_NORTH"@ || upper == "BTN_X"@
            || upper == "BTN_WEST"@ || upper == "BTN_Y"@ || upper == "BTN_TL"@
            || upper == "BTN_TR"@ || upper == "BTN_SELECT"@ || upper == "BTN_START"@
            || upper == "BTN_MODE"@ || upper == "BTN_THUMBL"@ || upper == "BTN_THUMBR"@,
{
    reveal_strlit("NONE");
    reveal_strlit("HAT_UP");
    reveal_strlit("HAT_DOWN");
    reveal_strlit("HAT_LEFT");
    reveal_strlit("HAT_RIGHT");
    reveal_strlit("BTN_SOUTH");
    reveal_strlit("BTN_A");
    reveal_strlit("BTN_EAST");
    reveal_strlit("BTN_B");
    reveal_strlit("BTN_NORTH");
    reveal_strlit("BTN_X");
    reveal_strlit("BTN_WEST");
    reveal_strlit("BTN_Y");
    reveal_strlit("BTN_TL");
    reveal_strlit("BTN_TR");
    reveal_strlit("BTN_SELECT");
    reveal_strlit("BTN_START");
    reveal_strlit("BTN_MODE");
    reveal_strlit("BTN_THUMBL");
    reveal_strlit("BTN_THUMBR");
    assert("NONE"@.len() == 4);
    assert("HAT_UP"@.len() == 6);
    assert("HAT_DOWN"@.len() == 8);
    assert("HAT_LEFT"@.len() == 8);
    assert("HAT_RIGHT"@.len() == 9);
    assert("BTN_SOUTH"@.len() == 9);
    assert("BTN_A"@.len() == 5);
    assert("BTN_EAST"@.len() == 8);
    assert("BTN_B"@.len() == 5);
    assert("BTN_NORTH"@.len() == 9);
    assert("BTN_X"@.len() == 5);
    assert("BTN_WEST"@.len() == 8);
    assert("BTN_Y"@.len() == 5);
    assert("BTN_TL"@.len() == 6);
    assert("BTN_TR"@.len() == 6);
    assert("BTN_SELECT"@.len() == 10);
    assert("BTN_START"@.len() == 9);
    assert("BTN_MODE"@.len() == 8);
    assert("BTN_THUMBL"@.len() == 10);
    assert("BTN_THUMBR"@.len() == 10);
    assert("HAT_UP"@[0] != "BTN_TL"@[0]);
    assert("HAT_UP"@[0] != "BTN_TR"@[0]);
    assert("HAT_DOWN"@[4] != "HAT_LEFT"@[4]);
    assert("HAT_DOWN"@[0] != "BTN_EAST"@[0]);
    assert("HAT_DOWN"@[0] != "BTN_WEST"@[0]);
    assert("HAT_DOWN"@[0] != "BTN_MODE"@[0]);
    assert("HAT_LEFT"@[0] != "BTN_EAST"@[0]);
    assert("HAT_LEFT"@[0] != "BTN_WEST"@[0]);
    assert("HAT_LEFT"@[0] != "BTN_MODE"@[0]);
    assert("HAT_RIGHT"@[0] != "BTN_SOUTH"@[0]);
    assert("HAT_RIGHT"@[0] != "BTN_NORTH"@[0]);
    assert("HAT_RIGHT"@[0] != "BTN_START"@[0]);
    assert("BTN_SOUTH"@[4] != "BTN_NORTH"@[4]);
    assert("BTN_SOUTH"@[5] != "BTN_START"@[5]);
    assert("BTN_A"@[4] != "BTN_B"@[4]);
    assert("BTN_A"@[4] != "BTN_X"@[4]);
    assert("BTN_A"@[4] != "BTN_Y"@[4]);
    assert("BTN_EAST"@[4] != "BTN_WEST"@[4]);
    assert("BTN_EAST"@[4] != "BTN_MODE"@[4]);
    assert("BTN_B"@[4] != "BTN_X"@[4]);
    assert("BTN_B"@[4] != "BTN_Y"@[4]);
    assert("BTN_NORTH"@[4] != "BTN_START"@[4]);
    assert("BTN_X"@[4] != "BTN_Y"@[4]);
    assert("BTN_WEST"@[4] != "BTN_MODE"@[4]);
    assert("BTN_TL"@[5] != "BTN_TR"@[5]);
    assert("BTN_SELECT"@[4] != "BTN_THUMBL"@[4]);
    assert("BTN_SELECT"@[4] != "BTN_THUMBR"@[4]);
    assert("BTN_THUMBL"@[9] != "BTN_THUMBR"@[9]);
}

/// White space around a target and the case of its letters do not matter.
pub proof fn law_targets_ignore_case_and_space(a: Seq<char>, b: Seq<char>)
    requires
        trimmed(a).map_values(|c: char| ascii_upper(c)) == trimmed(b).map_values(
            |c: char| ascii_upper(c),
        ),
    ensures
        target_of(a) == target_of(b),
        target_of(trimmed(a)) == target_of(a),
{
    law_trimming_takes_the_ends(a);
}

/// A radius lies above 0.0 and up to 2.0, a dead zone from 0.0 up to, not
/// including, 0.9, each by its bit pattern; negative zero is zero.
pub proof fn law_shaping_bounds(bits: u64)
    ensures
        radius_ok(bits) <==> 0 < bits && bits <= 0x4000_0000_0000_0000,
        deadzone_ok(bits) <==> bits < 0x3FEC_CCCC_CCCC_CCCD || bits == 0x8000_0000_0000_0000,
{
}

/// A button goes where the file says, where it says anything, and else keeps
/// its place in the table.
pub proof fn law_file_overrides_table(file: FileConfig, i: int)
    requires
        0 <= i < 13,
    ensures
        file.buttons.entry(default_table()@[i].1@) is None ==> button_target(file, i) == Some(
            default_table()@[i].2,
        ),
        file.buttons.entry(default_table()@[i].1@) matches Some(name) ==> button_target(file, i)
            == target_named(trimmed(name@).map_values(|c: char| ascii_upper(c))),
{
}

/// Each key of the file names its own button.
pub proof fn law_file_entries(buttons: FileButtons)
    ensures
        buttons.entry("tv"@) == buttons.tv,
        buttons.entry("volume_up"@) == buttons.volume_up,
        buttons.entry("volume_down"@) == buttons.volume_down,
        buttons.entry("select"@) == buttons.select,
        buttons.entry("power"@) == buttons.power,
        buttons.entry("siri"@) == buttons.siri,
        buttons.entry("back"@) == buttons.back,
        buttons.entry("mute"@) == buttons.mute,
        buttons.entry("play_pause"@) == buttons.play_pause,
        buttons.entry("up"@) == buttons.up,
        buttons.entry("right"@) == buttons.right,
        buttons.entry("down"@) == buttons.down,
        buttons.entry("left"@) == buttons.left,
{
    reveal_strlit("tv");
    reveal_strlit("volume_up");
    reveal_strlit("volume_down");
    reveal_strlit("select");
    reveal_strlit("power");
    reveal_strlit("siri");
    reveal_strlit("back");
    reveal_strlit("mute");
    reveal_strlit("play_pause");
    reveal_strlit("up");
    reveal_strlit("right");
    reveal_strlit("down");
    reveal_strlit("left");
    assert("tv"@.len() == 2);
    assert("volume_up"@.len() == 9);
    assert("volume_down"@.len() == 11);
    assert("select"@.len() == 6);
    assert("power"@.len() == 5);
    assert("siri"@.len() == 4);
    assert("back"@.len() == 4);
    assert("mute"@.len() == 4);
    assert("play_pause"@.len() == 10);
    assert("up"@.len() == 2);
    assert("right"@.len() == 5);
    assert("down"@.len() == 4);
    assert("left"@.len() == 4);
    assert("tv"@[0] != "up"@[0]);
    assert("power"@[0] != "right"@[0]);
    assert("siri"@[0] != "back"@[0]);
    assert("siri"@[0] != "mute"@[0]);
    assert("siri"@[0] != "down"@[0]);
    assert("siri"@[0] != "left"@[0]);
    assert("back"@[0] != "mute"@[0]);
    assert("back"@[0] != "down"@[0]);
    assert("back"@[0] != "left"@[0]);
    assert("mute"@[0] != "down"@[0]);
    assert("mute"@[0] != "left"@[0]);
    assert("down"@[0] != "left"@[0]);
}

/// The built-in mapping, bit by bit from the lowest: the remote's buttons on the
/// pad's, and the clickpad's directions on the hat.
pub proof fn law_default_mapping(i: int)
    requires
        0 <= i < 13,
    ensures
        default_table()@[0].0 == 1,
        i > 0 ==> default_table()@[i].0 == 2 * default_table()@[i - 1].0,
        default_table()@[0].2 == Target::Key(0x13c),
        default_table()@[1].2 == Target::Key(0x137),
        default_table()@[2].2 == Target::Key(0x136),
        default_table()@[3].2 == Target::Key(0x130),
        default_table()@[4].2 == Target::Key(0x13a),
        default_table()@[5].2 == Target::Key(0x133),
        default_table()@[6].2 == Target::Key(0x131),
        default_table()@[7].2 == Target::Key(0x134),
        default_table()@[8].2 == Target::Key(0x13b),
        default_table()@[9].2 == Target::Hat(HatDir::Up),
        default_table()@[10].2 == Target::Hat(HatDir::Right),
        default_table()@[11].2 == Target::Hat(HatDir::Down),
        default_table()@[12].2 == Target::Hat(HatDir::Left),
{
}

} // verus!
