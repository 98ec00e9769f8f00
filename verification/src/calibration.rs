//! Touchpad calibration and where it is kept.
//!
//! Paths are byte strings, as the file system has them. The configuration
//! directory is, in this order:
//!   1. `$XDG_CONFIG_HOME`, if set and not empty,
//!   2. `$HOME/.config`.

use vstd::prelude::*;
use vstd::utf8::encode_utf8;

verus! {

/// Directory under the configuration base.
pub const CONFIG_DIR: &'static str = "siri-remote";

/// File under the configuration directory.
pub const CONFIG_FILE: &'static str = "calibration.toml";

/// The raw coordinates at the edges of the touchpad.
#[derive(Clone, Copy, Debug, PartialEq, Eq, Structural)]
pub struct Calibration {
    pub x_min: i32,
    pub x_max: i32,
    pub y_min: i32,
    pub y_max: i32,
}

impl Default for Calibration {
    fn default() -> (c: Self)
        ensures
            c.x_min == -2029,
            c.x_max == 1984,
            c.y_min == -1010,
            c.y_max == 270,
    {
        Calibration { x_min: -2029, x_max: 1984, y_min: -1010, y_max: 270 }
    }
}

/// A path below another: `part` after a separator, which is not doubled and
/// does not follow an empty path.
pub open spec fn joined(base: Seq<u8>, part: Seq<u8>) -> Seq<u8> {
    if base.len() == 0 || base.last() == 0x2F {
        base + part
    } else {
        base.push(0x2F) + part
    }
}

fn join_path(base: &[u8], part: &str) -> (path: Vec<u8>)
    ensures
        path@ == joined(base@, encode_utf8(part@)),
{
    let mut path: Vec<u8> = Vec::new();
    extend(&mut path, base);
    if base.len() > 0 && base[base.len() - 1] != 0x2F {
        path.push(0x2F);
    }
    extend(&mut path, part.as_bytes());
    assert(path@ =~= joined(base@, encode_utf8(part@)));
    path
}

fn extend(path: &mut Vec<u8>, bytes: &[u8])
    ensures
        final(path)@ == old(path)@ + bytes@,
{
    let mut i: usize = 0;
    while i < bytes.len()
        invariant
            i <= bytes.len(),
            path@ == old(path)@ + bytes@.take(i as int),
        decreases bytes.len() - i,
    {
        path.push(bytes[i]);
        assert(path@ =~= old(path)@ + bytes@.take(i + 1));
        i = i + 1;
    }
    assert(bytes@.take(i as int) =~= bytes@);
}

/// The configuration base for given values of `XDG_CONFIG_HOME` and `HOME`.
pub open spec fn base_for(xdg: Option<Seq<u8>>, home: Option<Seq<u8>>) -> Option<Seq<u8>> {
    if xdg is Some && xdg->0.len() > 0 {
        xdg
    } else {
        match home {
            Some(h) => Some(joined(h, encode_utf8(".config"@))),
            None => None,
        }
    }
}

/// The bytes of an optional value.
pub open spec fn bytes_of(value: Option<&[u8]>) -> Option<Seq<u8>> {
    match value {
        Some(v) => Some(v@),
        None => None,
    }
}

/// Resolve the configuration base. Returns `None` only when neither variable
/// is set, in which case calibration lasts for the session alone.
pub fn config_base(xdg: Option<&[u8]>, home: Option<&[u8]>) -> (base: Option<Vec<u8>>)
    ensures
        base is Some == base_for(bytes_of(xdg), bytes_of(home)) is Some,
        base matches Some(b) ==> b@ == base_for(bytes_of(xdg), bytes_of(home))->0,
{
    if let Some(x) = xdg {
        if x.len() > 0 {
            let mut base: Vec<u8> = Vec::new();
            extend(&mut base, x);
            assert(base@ =~= x@);
            return Some(base);
        }
    }
    match home {
        Some(h) => Some(join_path(h, ".config")),
        None => None,
    }
}

/// The path of a configuration file under a base.
pub open spec fn config_file_path(base: Seq<u8>, file: Seq<u8>) -> Seq<u8> {
    joined(joined(base, encode_utf8(CONFIG_DIR@)), file)
}

/// Full path of a configuration file, given a resolved base.
pub fn config_file_in(base: &[u8], file: &str) -> (path: Vec<u8>)
    ensures
        path@ == config_file_path(base@, encode_utf8(file@)),
{
    join_path(join_path(base, CONFIG_DIR).as_slice(), file)
}

/// Full path of the calibration file, given a resolved base.
pub fn config_path_in(base: &[u8]) -> (path: Vec<u8>)
    ensures
        path@ == config_file_path(base@, encode_utf8(CONFIG_FILE@)),
{
    config_file_in(base, CONFIG_FILE)
}

// -- Laws ---------------------------------------------------------------------

/// A part is joined behind one slash, and the base keeps its bytes; an empty
/// base or one that ends in a slash needs none.
pub proof fn law_paths_join(base: Seq<u8>, part: Seq<u8>)
    ensures
        base.len() > 0 && base.last() != 0x2F ==> joined(base, part) == base + seq![0x2Fu8] + part,
        base.len() == 0 || base.last() == 0x2F ==> joined(base, part) == base + part,
{
    if base.len() > 0 && base.last() != 0x2F {
        assert(base.push(0x2F) =~= base + seq![0x2Fu8]);
    }
}

/// The base is the first variable where it is set and not empty, else `.config`
/// under the second, else there is none.
pub proof fn law_configuration_base(xdg: Option<Seq<u8>>, home: Option<Seq<u8>>)
    ensures
        xdg matches Some(x) ==> x.len() > 0 ==> base_for(xdg, home) == Some(x),
        (xdg is None || xdg->0.len() == 0) && home is Some ==> base_for(xdg, home) == Some(
            joined(home->0, encode_utf8(".config"@)),
        ),
        (xdg is None || xdg->0.len() == 0) && home is None ==> base_for(xdg, home) is None,
{
}

/// A configuration file lies in the program's directory under the base.
pub proof fn law_configuration_file(base: Seq<u8>, file: Seq<u8>)
    ensures
        config_file_path(base, file) == joined(joined(base, encode_utf8("siri-remote"@)), file),
{
}

} // verus!
