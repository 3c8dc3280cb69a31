//! The configuration: as read from the file, and with defaults applied.
use vstd::prelude::*;
use std::io;
use std::path::PathBuf;
use crate::file::{Location, home_dir};
use crate::foreign::{join, path_from};

verus! {

/// Where the configuration was read from.
pub struct Meta {
    pub path: PathBuf,
    pub location: Location,
}

/// The configuration before defaults are applied, mirroring the file.
pub struct RawConfig {
    pub driver: Option<String>,
    pub match_: Option<Vec<String>>,
    pub alias: Option<Vec<String>>,
    pub preexec: Option<String>,
}

/// The configuration with every default applied.
pub struct FullConfig {
    pub driver: String,
    pub match_: Vec<String>,
    pub alias: Vec<String>,
    pub preexec: Option<PathBuf>,
}

/// The file that bash-preexec is loaded from when none is configured,
/// relative to the home directory.
pub const PREEXEC_NAME: &'static str = ".bash-preexec.sh";

/// The value of `DRI_PRIME` when none is configured.
pub const DEFAULT_DRIVER: &'static str = "1";

impl RawConfig {
    /// Applies the defaults, with `home` as the home directory: driver "1",
    /// no matches, no aliases, and bash-preexec in the home directory.
    pub fn with_defaults(self, home: Option<PathBuf>) -> (r: FullConfig)
        ensures
            r.driver@ == (match self.driver {
                Some(d) => d@,
                None => DEFAULT_DRIVER@,
            }),
            r.match_@ == (match self.match_ {
                Some(m) => m@,
                None => Seq::empty(),
            }),
            r.alias@ == (match self.alias {
                Some(a) => a@,
                None => Seq::empty(),
            }),
            r.preexec is Some <==> self.preexec is Some || home is Some,
    {
        let preexec = match self.preexec {
            Some(p) => Some(path_from(p)),
            None => match home {
                Some(h) => Some(join(&h, PREEXEC_NAME)),
                None => None,
            },
        };
        let driver = match self.driver {
            Some(d) => d,
            None => String::from_str(DEFAULT_DRIVER),
        };
        let match_ = match self.match_ {
            Some(m) => m,
            None => Vec::new(),
        };
        let alias = match self.alias {
            Some(a) => a,
            None => Vec::new(),
        };
        FullConfig { driver, match_, alias, preexec }
    }

    /// Creates the full configuration by applying the defaults, looking up
    /// the home directory only where no bash-preexec path is configured.
    pub fn set_defaults(self) -> (r: FullConfig)
        ensures
            r.driver@ == (match self.driver {
                Some(d) => d@,
                None => DEFAULT_DRIVER@,
            }),
            r.match_@ == (match self.match_ {
                Some(m) => m@,
                None => Seq::empty(),
            }),
            r.alias@ == (match self.alias {
                Some(a) => a@,
                None => Seq::empty(),
            }),
            self.preexec is Some ==> r.preexec is Some,
    {
        let home = if self.preexec.is_none() {
            home_dir()
        } else {
            None
        };
        self.with_defaults(home)
    }
}

/// Why the configuration could not be loaded.
pub enum ConfigError {
    /// The home directory could not be determined.
    FindFileF,
    /// The configuration file does not exist.
    NoFileF(PathBuf),
    /// The configuration file could not be read.
    ReadFileF(PathBuf, io::Error),
    /// The configuration file is not valid.
    ParseF(PathBuf, toml::de::Error),
}

pub type Result<T> = core::result::Result<T, ConfigError>;

/// Names a failure to open the configuration file at `p`, where
/// `not_found` tells whether the file was missing (the error's kind is
/// `NotFound`): a missing file gives `NoFileF`, any other failure
/// `ReadFileF` with its cause kept.
#[allow(non_snake_case)]
pub fn IoF(p: PathBuf, e: io::Error, not_found: bool) -> (r: ConfigError)
    ensures
        not_found ==> r == ConfigError::NoFileF(p),
        !not_found ==> r == ConfigError::ReadFileF(p, e),
{
    if not_found {
        ConfigError::NoFileF(p)
    } else {
        ConfigError::ReadFileF(p, e)
    }
}

/// The message when the home directory is not found.
pub const NOHOME_CONFIG_MSG: &'static str =
    "Failed to find configuration file because the home directory could not be determined";

/// What the user is told of `e`, with `p` as the quoted text of its path.
pub open spec fn config_message(e: &ConfigError, p: Seq<char>) -> Seq<char> {
    match e {
        ConfigError::FindFileF => NOHOME_CONFIG_MSG@,
        ConfigError::NoFileF(_) => "Configuration file "@ + p + " doesn't exist"@,
        ConfigError::ReadFileF(_, _) => "Failed to read from configuration file "@ + p,
        ConfigError::ParseF(_, _) => "Failed to parse configuration file "@ + p,
    }
}

impl ConfigError {
    /// The message for the user, with `path` as the quoted text of the
    /// file's path.
    pub fn message_with(&self, path: &str) -> (r: String)
        ensures
            r@ == config_message(self, path@),
    {
        match self {
            ConfigError::FindFileF => String::from_str(NOHOME_CONFIG_MSG),
            ConfigError::NoFileF(_) => {
                let mut r = String::from_str("Configuration file ");
                r.append(path);
                r.append(" doesn't exist");
                r
            },
            ConfigError::ReadFileF(_, _) => {
                let mut r = String::from_str("Failed to read from configuration file ");
                r.append(path);
                r
            },
            ConfigError::ParseF(_, _) => {
                let mut r = String::from_str("Failed to parse configuration file ");
                r.append(path);
                r
            },
        }
    }
}

} // verus!
