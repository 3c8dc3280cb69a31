//! Where the configuration and aliases files live. Everything here returns
//! an `Option`, because the home directory may not be found.
use vstd::prelude::*;
use std::path::PathBuf;
use crate::foreign::join;

verus! {

/// Where the files are kept.
#[derive(Clone, Copy, Debug, PartialEq, Eq, Structural)]
pub enum Location {
    /// A hidden directory in the home directory.
    Dot,
    /// The standard configuration and data directories.
    Xdg,
}

/// The kind of file.
#[derive(Clone, Copy, Debug, PartialEq, Eq, Structural)]
pub enum FileType {
    Config,
    Aliases,
}

/// Project name, for the directory.
pub const NAME: &'static str = "switchable";

/// Hidden directory in the home directory.
pub const DOT_DIR: &'static str = ".switchable";

/// Configuration file name.
pub const CONFIG_NAME: &'static str = "config.toml";

/// Aliases file name.
pub const ALIAS_NAME: &'static str = "aliases.bash";

/// Relies on `dirs::config_dir`: the user's configuration directory, if it
/// can be found.
#[verifier::external_body]
fn config_dir() -> Option<PathBuf> {
    dirs::config_dir()
}

/// Relies on `dirs::data_dir`: the user's data directory, if it can be found.
#[verifier::external_body]
fn data_dir() -> Option<PathBuf> {
    dirs::data_dir()
}

/// Relies on `dirs::home_dir`: the user's home directory, if it can be found.
#[verifier::external_body]
pub(crate) fn home_dir() -> Option<PathBuf> {
    dirs::home_dir()
}

/// The file name for a kind of file.
pub fn file_name(name: FileType) -> (r: &'static str)
    ensures
        r == (match name {
            FileType::Config => CONFIG_NAME,
            FileType::Aliases => ALIAS_NAME,
        }),
{
    match name {
        FileType::Config => CONFIG_NAME,
        FileType::Aliases => ALIAS_NAME,
    }
}

/// `base/dir/file`, where there is a base.
pub fn under(base: Option<PathBuf>, dir: &str, file: &str) -> (r: Option<PathBuf>)
    ensures
        r is Some <==> base is Some,
{
    match base {
        Some(b) => {
            let d = join(&b, dir);
            Some(join(&d, file))
        },
        None => None,
    }
}

/// Gets the path of a file in the given location.
pub fn get_path(l: Location, name: FileType) -> Option<PathBuf> {
    match l {
        Location::Dot => get_dot_path(name),
        Location::Xdg => get_xdg_path(name),
    }
}

/// Gets the path of a file in the standard directories: the configuration
/// in the configuration directory, the aliases in the data directory.
pub fn get_xdg_path(name: FileType) -> Option<PathBuf> {
    match name {
        FileType::Config => under(config_dir(), NAME, CONFIG_NAME),
        FileType::Aliases => under(data_dir(), NAME, ALIAS_NAME),
    }
}

/// Gets the path of a file in the hidden directory of the home directory.
pub fn get_dot_path(name: FileType) -> Option<PathBuf> {
    under(home_dir(), DOT_DIR, file_name(name))
}

/// Chooses where the configuration is kept, given whether the configuration
/// file exists in each location (absent where the location's directory
/// could not be found). The standard location wins unless only the hidden
/// one holds the file; none is chosen only when neither location is known.
pub fn choose_location(xdg: Option<bool>, dot: Option<bool>) -> (r: Option<Location>)
    ensures
        r == (match (xdg, dot) {
            (Some(x), Some(d)) => if d && !x {
                Some(Location::Dot)
            } else {
                Some(Location::Xdg)
            },
            (Some(_), None) => Some(Location::Xdg),
            (None, Some(_)) => Some(Location::Dot),
            (None, None) => None,
        }),
{
    match (xdg, dot) {
        (Some(x), Some(d)) => {
            if d && !x {
                Some(Location::Dot)
            } else {
                Some(Location::Xdg)
            }
        },
        (Some(_), None) => Some(Location::Xdg),
        (None, Some(_)) => Some(Location::Dot),
        (None, None) => None,
    }
}

} // verus!
