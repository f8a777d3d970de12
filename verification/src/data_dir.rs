//! Settling which data directory a component uses, and what is wrong with it.

use crate::config::GlobalOptions;
use vstd::prelude::*;
use vstd::string::StringExecFns;

verus! {

/// Why a component has no usable data directory.
#[derive(Debug)]
pub enum DataDirError {
    MissingDataDir,
    DoesNotExist { data_dir: String },
    NotWritable { data_dir: String },
    CouldNotCreate { subdir: String, data_dir: String, source: String },
}

/// What was found on disk at the data directory.
#[derive(Debug, Clone, Copy, PartialEq, Eq, Structural)]
pub enum DirProbe {
    /// Nothing is there.
    Missing,
    /// Something is there, but its metadata cannot be read.
    Unreadable,
    /// Something is there that may not be written to.
    ReadOnly,
    /// Something is there that may be written to.
    Writable,
}

/// The text of `text` as a quoted string literal with its escapes, as the
/// standard library's `Debug` formatting of a string writes it.
pub uninterp spec fn quoted(text: Seq<char>) -> Seq<char>;

/// `format!("{:?}", text)`: the quoted form of a string.
#[verifier::external_body]
fn quote(text: &str) -> (out: String)
    ensures
        out@ == quoted(text@),
{
    format!("{:?}", text)
}

/// The directory that is in force: the component's own where it names one,
/// else the global one.
pub open spec fn resolved_data_dir(global: Option<String>, local: Option<&String>) -> Option<
    String,
> {
    match local {
        Some(dir) => Some(*dir),
        None => global,
    }
}

/// What the validation of a data directory comes to.
pub open spec fn validated_data_dir(
    global: Option<String>,
    local: Option<&String>,
    probe: DirProbe,
) -> Result<String, DataDirError> {
    match resolved_data_dir(global, local) {
        None => Err(DataDirError::MissingDataDir),
        Some(data_dir) => match probe {
            DirProbe::Missing => Err(DataDirError::DoesNotExist { data_dir }),
            DirProbe::Unreadable | DirProbe::ReadOnly => Err(
                DataDirError::NotWritable { data_dir },
            ),
            DirProbe::Writable => Ok(data_dir),
        },
    }
}

impl GlobalOptions {
    /// Resolve the `data_dir` option in either the global or local config.
    pub fn resolve_data_dir(&self, local_data_dir: Option<&String>) -> (resolved: Result<
        String,
        DataDirError,
    >)
        ensures
            resolved == match resolved_data_dir(self.data_dir, local_data_dir) {
                Some(data_dir) => Ok::<String, DataDirError>(data_dir),
                None => Err(DataDirError::MissingDataDir),
            },
    {
        match local_data_dir {
            Some(dir) => Ok(dir.clone()),
            None => match &self.data_dir {
                Some(dir) => Ok(dir.clone()),
                None => Err(DataDirError::MissingDataDir),
            },
        }
    }

    /// Resolve the `data_dir` option in either the global or local
    /// config, and validate that it exists and is writable, given what was
    /// found on disk at the resolved directory.
    pub fn resolve_and_validate_data_dir(
        &self,
        local_data_dir: Option<&String>,
        probe: DirProbe,
    ) -> (validated: Result<String, DataDirError>)
        ensures
            validated == validated_data_dir(self.data_dir, local_data_dir, probe),
    {
        match self.resolve_data_dir(local_data_dir) {
            Err(error) => Err(error),
            Ok(data_dir) => match probe {
                DirProbe::Missing => Err(DataDirError::DoesNotExist { data_dir }),
                DirProbe::Unreadable | DirProbe::ReadOnly => Err(
                    DataDirError::NotWritable { data_dir },
                ),
                DirProbe::Writable => Ok(data_dir),
            },
        }
    }

    /// Resolve the `data_dir` option using `resolve_and_validate_data_dir`
    /// and then settle what the attempt to make the named subdirectory came
    /// to: `data_subdir` is the path of the subdirectory, and `created` says
    /// whether it could be made, with the reason where it could not.
    pub fn resolve_and_make_data_subdir(
        &self,
        local: Option<&String>,
        subdir: &str,
        probe: DirProbe,
        data_subdir: String,
        created: Result<(), String>,
    ) -> (made: Result<String, DataDirError>)
        ensures
            match validated_data_dir(self.data_dir, local, probe) {
                Err(error) => made == Err::<String, DataDirError>(error),
                Ok(data_dir) => match created {
                    Ok(()) => made == Ok::<String, DataDirError>(data_subdir),
                    Err(source) => {
                        &&& made matches Err(
                            DataDirError::CouldNotCreate { subdir: named, data_dir: inside, source: why },
                        )
                        &&& named@ == subdir@
                        &&& inside == data_dir
                        &&& why == source
                    },
                },
            },
    {
        match self.resolve_and_validate_data_dir(local, probe) {
            Err(error) => Err(error),
            Ok(data_dir) => match created {
                Ok(()) => Ok(data_subdir),
                Err(source) => Err(
                    DataDirError::CouldNotCreate {
                        subdir: String::from_str(subdir),
                        data_dir,
                        source,
                    },
                ),
            },
        }
    }
}

impl DataDirError {
    /// What the error says to the operator.
    pub open spec fn spec_message(&self) -> Seq<char> {
        match *self {
            DataDirError::MissingDataDir => "data_dir option required, but not given here or globally"@,
            DataDirError::DoesNotExist { data_dir } => "data_dir "@ + quoted(data_dir@)
                + " does not exist"@,
            DataDirError::NotWritable { data_dir } => "data_dir "@ + quoted(data_dir@)
                + " is not writable"@,
            DataDirError::CouldNotCreate { subdir, data_dir, source } => "Could not create subdirectory "@
                + quoted(subdir@) + " inside of data dir "@ + quoted(data_dir@) + ": "@ + source@,
        }
    }

    /// What the error says to the operator.
    pub fn message(&self) -> (text: String)
        ensures
            text@ == self.spec_message(),
    {
        match self {
            DataDirError::MissingDataDir => String::from_str(
                "data_dir option required, but not given here or globally",
            ),
            DataDirError::DoesNotExist { data_dir } => String::from_str("data_dir ").concat(
                quote(data_dir.as_str()).as_str(),
            ).concat(" does not exist"),
            DataDirError::NotWritable { data_dir } => String::from_str("data_dir ").concat(
                quote(data_dir.as_str()).as_str(),
            ).concat(" is not writable"),
            DataDirError::CouldNotCreate { subdir, data_dir, source } => String::from_str(
                "Could not create subdirectory ",
            ).concat(quote(subdir.as_str()).as_str()).concat(" inside of data dir ").concat(
                quote(data_dir.as_str()).as_str(),
            ).concat(": ").concat(source.as_str()),
        }
    }
}

} // verus!
