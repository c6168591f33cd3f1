//! Where the bytes of an input come from.

use vstd::prelude::*;
use vstd::string::StringExecFns;
use vstd::utf8::encode_utf8;
use crate::cli::is_stdin;

verus! {

/// The source that a locator stands for.
#[derive(Debug, PartialEq, Eq)]
pub enum InputSource {
    /// Standard input.
    Stdin,
    /// The file at this path. It existed when the locator was resolved: if
    /// it cannot be read, that is an error, not a reason to fall back.
    File(String),
    /// These bytes: the locator itself, which named no file.
    Literal(Vec<u8>),
}

impl InputSource {
    /// Whether this is the source that `input` stands for, given whether
    /// anything exists at that path.
    pub open spec fn resolves(self, input: Seq<char>, exists: bool) -> bool {
        match self {
            InputSource::Stdin => input == "-"@,
            InputSource::File(path) => input != "-"@ && exists && path@ == input,
            InputSource::Literal(bytes) => input != "-"@ && !exists && bytes@ == encode_utf8(
                input,
            ),
        }
    }
}

/// Resolves a locator, given whether anything exists at that path: `-` is
/// standard input, an existing path is that file, and any other text is
/// itself the input.
pub fn resolve_input(input: &str, exists: bool) -> (source: InputSource)
    ensures
        source.resolves(input@, exists),
{
    if is_stdin(input) {
        InputSource::Stdin
    } else if exists {
        InputSource::File(String::from_str(input))
    } else {
        InputSource::Literal(vstd::slice::slice_to_vec(input.as_bytes()))
    }
}

} // verus!
