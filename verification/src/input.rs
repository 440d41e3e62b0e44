//! Long arguments: a value that starts with `@` names a file whose content
//! stands for the argument.

use vstd::prelude::*;
use vstd::string::StringExecFns;
use vstd::string::StrSliceExecFns;

verus! {

/// The sign that marks an argument as the path of a file.
pub const FILE_SIGN: char = '@';

/// Why the file of a long argument could not be had; each holds what the
/// system said.
#[derive(Debug)]
pub enum FileFailure {
    Open(String),
    Read(String),
}

/// The path that `value` names, if it names a file: what follows the sign.
pub open spec fn file_path_of(value: Seq<char>) -> Option<Seq<char>> {
    if value.len() > 0 && value[0] == FILE_SIGN {
        Some(value.skip(1))
    } else {
        None
    }
}

/// The path of the file that `value` names, if it names one.
pub fn file_path(value: &str) -> (r: Option<String>)
    ensures
        match r {
            Some(path) => file_path_of(value@) == Some(path@),
            None => file_path_of(value@) is None,
        },
{
    let len = value.unicode_len();
    if len > 0 && value.get_char(0) == FILE_SIGN {
        let rest = value.substring_char(1, len);
        assert(rest@ =~= value@.skip(1));
        Some(String::from_str(rest))
    } else {
        None
    }
}

/// What is said where the file at `path` could not be opened.
pub open spec fn open_failure_text(path: Seq<char>, error: Seq<char>) -> Seq<char> {
    "Could not open file "@ + path + ": "@ + error
}

/// What is said where the file at `path` could not be read.
pub open spec fn read_failure_text(path: Seq<char>, error: Seq<char>) -> Seq<char> {
    "Could not read from the file "@ + path + ": "@ + error
}

/// The argument that stands in the file at `path`, given what came of
/// reading that file: its content, or what to say of the failure.
pub fn file_argument(path: &str, outcome: Result<String, FileFailure>) -> (r: Result<
    String,
    String,
>)
    ensures
        match (outcome, r) {
            (Ok(content), Ok(argument)) => argument@ == content@,
            (Err(FileFailure::Open(error)), Err(message)) => message@ == open_failure_text(
                path@,
                error@,
            ),
            (Err(FileFailure::Read(error)), Err(message)) => message@ == read_failure_text(
                path@,
                error@,
            ),
            _ => false,
        },
{
    match outcome {
        Ok(content) => Ok(content),
        Err(FileFailure::Open(error)) => {
            let mut message = String::from_str("Could not open file ");
            message.append(path);
            message.append(": ");
            message.append(error.as_str());
            Err(message)
        },
        Err(FileFailure::Read(error)) => {
            let mut message = String::from_str("Could not read from the file ");
            message.append(path);
            message.append(": ");
            message.append(error.as_str());
            Err(message)
        },
    }
}

/// A long argument, given what came of reading its file where it names
/// one: the value itself, or the content of the file.
pub fn long_argument(value: &str, outcome: Result<String, FileFailure>) -> (r: Result<
    String,
    String,
>)
    ensures
        match (file_path_of(value@), outcome, r) {
            (None, _, Ok(argument)) => argument@ == value@,
            (Some(_), Ok(content), Ok(argument)) => argument@ == content@,
            (Some(path), Err(FileFailure::Open(error)), Err(message)) => message@
                == open_failure_text(path, error@),
            (Some(path), Err(FileFailure::Read(error)), Err(message)) => message@
                == read_failure_text(path, error@),
            _ => false,
        },
{
    match file_path(value) {
        Some(path) => file_argument(path.as_str(), outcome),
        None => Ok(String::from_str(value)),
    }
}

} // verus!
