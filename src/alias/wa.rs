//! Errors of writing the aliases file.
use vstd::prelude::*;
use std::io;
use std::path::PathBuf;
use crate::foreign::path_text;
use super::ra::NOHOME_FMSG;

verus! {

/// Why the aliases file could not be written.
pub enum WriteError {
    /// The home directory could not be determined.
    FindFileF,
    /// Opening, writing or flushing the file failed.
    WriteFileF(PathBuf, io::Error),
    /// The list of aliases could not be written as JSON.
    ToJsonF(PathBuf, serde_json::Error),
    /// The file was written, but its path is not valid UTF-8.
    PathNotUtf8(PathBuf),
}

pub type Result<T> = core::result::Result<T, WriteError>;


/// What the user is told of `e`, with `p` as the text of its path.
pub open spec fn write_message(e: &WriteError, p: Seq<char>) -> Seq<char> {
    match e {
        WriteError::FindFileF => NOHOME_FMSG@,
        WriteError::WriteFileF(_, _) => "Failed to write to aliases file '"@ + p + "'"@,
        WriteError::ToJsonF(_, _) => "Failed to write the list of aliases as JSON in '"@ + p
            + "'"@,
        WriteError::PathNotUtf8(_) => "Aliases path '"@ + p + "' is not valid utf8"@,
    }
}

impl WriteError {
    /// The file the error is about, if any.
    pub fn path(&self) -> (r: Option<&PathBuf>)
        ensures
            r is None <==> self is FindFileF,
    {
        match self {
            WriteError::FindFileF => None,
            WriteError::WriteFileF(p, _) => Some(p),
            WriteError::ToJsonF(p, _) => Some(p),
            WriteError::PathNotUtf8(p) => Some(p),
        }
    }

    /// The message for the user, with `path` as the text of the file's path.
    pub fn message_with(&self, path: &str) -> (r: String)
        ensures
            r@ == write_message(self, path@),
    {
        let mut r = match self {
            WriteError::FindFileF => {
                return String::from_str(NOHOME_FMSG);
            },
            WriteError::WriteFileF(_, _) => String::from_str("Failed to write to aliases file '"),
            WriteError::ToJsonF(_, _) => String::from_str(
                "Failed to write the list of aliases as JSON in '",
            ),
            WriteError::PathNotUtf8(_) => String::from_str("Aliases path '"),
        };
        r.append(path);
        match self {
            WriteError::PathNotUtf8(_) => r.append("' is not valid utf8"),
            _ => r.append("'"),
        }
        r
    }

    /// The message for the user.
    pub fn message(&self) -> (r: String)
        ensures
            exists|p: Seq<char>| r@ == write_message(self, p),
    {
        let text = match self.path() {
            Some(p) => path_text(p),
            None => String::new(),
        };
        self.message_with(text.as_str())
    }
}

} // verus!
