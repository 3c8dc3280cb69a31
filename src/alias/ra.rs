//! Errors of reading the aliases file.
use vstd::prelude::*;
use std::io;
use std::path::PathBuf;
use crate::foreign::path_text;

verus! {

/// Why the previous list of aliases could not be read.
pub enum ReadError {
    /// The home directory could not be determined.
    FindFileF,
    /// The aliases file does not exist.
    NoFileF(PathBuf),
    /// The aliases file could not be read.
    ReadFileF(PathBuf, io::Error),
    /// The file holds no snapshot line.
    NoJsonLine(PathBuf),
    /// The snapshot line does not hold a JSON list of strings.
    FromJsonF(PathBuf, serde_json::Error),
}

pub type Result<T> = core::result::Result<T, ReadError>;


/// The message when the home directory is not found.
pub const NOHOME_FMSG: &'static str =
    "Failed to find aliases file because the home directory could not be determined";

/// What the user is told of `e`, with `p` as the text of its path.
pub open spec fn read_message(e: &ReadError, p: Seq<char>) -> Seq<char> {
    match e {
        ReadError::FindFileF => NOHOME_FMSG@,
        ReadError::NoFileF(_) => "Aliases file '"@ + p + "' doesn't exist"@,
        ReadError::ReadFileF(_, _) => "Failed to read from aliases file '"@ + p + "'"@,
        ReadError::NoJsonLine(_) => "\"Generated from\" line not found in aliases file '"@ + p
            + "'"@,
        ReadError::FromJsonF(_, _) => "Failed to parse the list of old aliases as JSON in '"@ + p
            + "'"@,
    }
}

impl ReadError {
    /// The file the error is about, if any.
    pub fn path(&self) -> (r: Option<&PathBuf>)
        ensures
            r is None <==> self is FindFileF,
    {
        match self {
            ReadError::FindFileF => None,
            ReadError::NoFileF(p) => Some(p),
            ReadError::ReadFileF(p, _) => Some(p),
            ReadError::NoJsonLine(p) => Some(p),
            ReadError::FromJsonF(p, _) => Some(p),
        }
    }

    /// The message for the user, with `path` as the text of the file's path.
    pub fn message_with(&self, path: &str) -> (r: String)
        ensures
            r@ == read_message(self, path@),
    {
        let mut r = match self {
            ReadError::FindFileF => {
                return String::from_str(NOHOME_FMSG);
            },
            ReadError::NoFileF(_) => String::from_str("Aliases file '"),
            ReadError::ReadFileF(_, _) => String::from_str("Failed to read from aliases file '"),
            ReadError::NoJsonLine(_) => String::from_str(
                "\"Generated from\" line not found in aliases file '",
            ),
            ReadError::FromJsonF(_, _) => String::from_str(
                "Failed to parse the list of old aliases as JSON in '",
            ),
        };
        r.append(path);
        match self {
            ReadError::NoFileF(_) => r.append("' doesn't exist"),
            _ => r.append("'"),
        }
        r
    }

    /// The message for the user.
    pub fn message(&self) -> (r: String)
        ensures
            exists|p: Seq<char>| r@ == read_message(self, p),
    {
        let text = match self.path() {
            Some(p) => path_text(p),
            None => String::new(),
        };
        self.message_with(text.as_str())
    }
}

} // verus!
