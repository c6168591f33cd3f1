//! What a caller hands over before any work is done: the names of formats
//! and the locations of inputs, each checked at the boundary.
//!
//! Nothing here touches the file system. Whether a path exists is for the
//! caller to find out; what follows from it is decided here.

use vstd::prelude::*;
use vstd::string::StringExecFns;

pub mod base64;
pub mod csv;
pub mod jwt;
pub mod text;

verus! {

/// Whether `text` is the locator `-`, which stands for standard input.
pub fn is_stdin(text: &str) -> (r: bool)
    ensures
        r == (text@ == "-"@),
{
    String::from_str(text) == String::from_str("-")
}

/// Judges the locator of an input, given whether anything exists at that
/// path: `-` and existing paths pass and are handed back unchanged.
pub fn verify_file(file_name: &str, exists: bool) -> (r: Result<String, String>)
    ensures
        match r {
            Ok(name) => (file_name@ == "-"@ || exists) && name@ == file_name@,
            Err(message) => !(file_name@ == "-"@ || exists) && message@
                == "File does not exists."@,
        },
{
    if is_stdin(file_name) || exists {
        Ok(String::from_str(file_name))
    } else {
        Err(String::from_str("File does not exists."))
    }
}

/// Judges the locator of an output directory, given whether anything exists
/// at that path and whether it is a directory: an existing directory passes
/// and is handed back unchanged.
pub fn verify_path(path: &str, exists: bool, is_dir: bool) -> (r: Result<String, String>)
    ensures
        match r {
            Ok(name) => exists && is_dir && name@ == path@,
            Err(message) => !(exists && is_dir) && message@ == "File does not exists."@,
        },
{
    if exists && is_dir {
        Ok(String::from_str(path))
    } else {
        Err(String::from_str("File does not exists."))
    }
}

/// Judges the locator of an input that has to be on disk, given whether
/// anything exists at that path.
pub fn verify_input_file(file_name: &str, exists: bool) -> (r: Result<String, String>)
    ensures
        match r {
            Ok(name) => exists && name@ == file_name@,
            Err(message) => !exists && message@ == "File does not exists."@,
        },
{
    if exists {
        Ok(String::from_str(file_name))
    } else {
        Err(String::from_str("File does not exists."))
    }
}

} // verus!
