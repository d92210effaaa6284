//! Errors in reading the configuration: the repositories file and the settings file.
use vstd::prelude::*;
use vstd::string::*;

verus! {

/// Where a configuration text that could not be read came from.
#[derive(Debug, Clone, PartialEq, Eq)]
pub enum ConfigJsonErrorSource {
    /// The repository information built into the program.
    Internal,
    /// A file that the user provided, by its path.
    File(String),
}

/// An error while reading the configuration.
#[derive(Debug, Clone, PartialEq, Eq)]
pub enum ConfigError {
    /// Reading or writing a file failed, as described.
    IoError(String),
    /// A configuration text did not have the expected shape.
    JsonError { source: ConfigJsonErrorSource, details: String },
}

pub open spec fn source_text(s: ConfigJsonErrorSource) -> Seq<char> {
    match s {
        ConfigJsonErrorSource::Internal => "internal data"@,
        ConfigJsonErrorSource::File(p) => "'"@ + p@ + "'"@,
    }
}

/// What the user can do about a text that could not be read: a user's file may be in an older
/// format; the built-in data being unreadable is a bug.
pub open spec fn advice_text(s: ConfigJsonErrorSource) -> Seq<char> {
    match s {
        ConfigJsonErrorSource::File(_) => "NOTE: This could be due to the file format changing. Migration is not currently implemented, but is on the roadmap. For now, you could try deleting the file and having Nu Tracker re-create it on next run. Sorry for the loss of any customisations you have made!"@,
        ConfigJsonErrorSource::Internal => "NOTE: This is a bug; please report it :-)."@,
    }
}

pub open spec fn config_error_text(e: ConfigError) -> Seq<char> {
    match e {
        ConfigError::IoError(d) => "IO: "@ + d@,
        ConfigError::JsonError { source, details } => "JSON error in "@ + source_text(source) + ": "@
            + details@ + "\n\n"@ + advice_text(source),
    }
}

impl ConfigJsonErrorSource {
    pub fn to_string(&self) -> (r: String)
        ensures
            r@ == source_text(*self),
    {
        match self {
            ConfigJsonErrorSource::Internal => String::from_str("internal data"),
            ConfigJsonErrorSource::File(p) => {
                let mut r = String::from_str("'");
                r.append(p.as_str());
                r.append("'");
                r
            },
        }
    }
}

impl ConfigError {
    /// The message shown to the user.
    pub fn to_string(&self) -> (r: String)
        ensures
            r@ == config_error_text(*self),
    {
        match self {
            ConfigError::IoError(d) => {
                let mut r = String::from_str("IO: ");
                r.append(d.as_str());
                r
            },
            ConfigError::JsonError { source, details } => {
                let mut r = String::from_str("JSON error in ");
                let s = source.to_string();
                r.append(s.as_str());
                r.append(": ");
                r.append(details.as_str());
                r.append("\n\n");
                match source {
                    ConfigJsonErrorSource::File(_) => r.append(
                        "NOTE: This could be due to the file format changing. Migration is not currently implemented, but is on the roadmap. For now, you could try deleting the file and having Nu Tracker re-create it on next run. Sorry for the loss of any customisations you have made!",
                    ),
                    ConfigJsonErrorSource::Internal => r.append(
                        "NOTE: This is a bug; please report it :-).",
                    ),
                }
                r
            },
        }
    }
}

} // verus!
