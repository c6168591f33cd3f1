//! The formats that a table can be written in, by name.

use vstd::prelude::*;
use vstd::string::StringExecFns;
use crate::codec::{lowercase, to_lowercase};
use crate::error::TextError;

verus! {

/// A format for the rows of a table.
#[derive(Debug, Clone, Copy, PartialEq, Eq, Structural)]
pub enum OutputFormat {
    Json,
    Yaml,
}

impl OutputFormat {
    /// The token that names this format.
    pub open spec fn spec_name(self) -> Seq<char> {
        match self {
            OutputFormat::Json => "json"@,
            OutputFormat::Yaml => "yaml"@,
        }
    }

    /// The token that names this format.
    pub fn name(self) -> (token: &'static str)
        ensures
            token@ == self.spec_name(),
    {
        match self {
            OutputFormat::Json => "json",
            OutputFormat::Yaml => "yaml",
        }
    }
}

/// The format that a token in lower case names.
pub open spec fn output_format_named(token: Seq<char>) -> Option<OutputFormat> {
    if token == "json"@ {
        Some(OutputFormat::Json)
    } else if token == "yaml"@ {
        Some(OutputFormat::Yaml)
    } else {
        None
    }
}

/// Resolves a token that is already in lower case to an output format.
pub fn output_format_of(token: String) -> (r: Result<OutputFormat, TextError>)
    ensures
        match r {
            Ok(format) => output_format_named(token@) == Some(format),
            Err(e) => output_format_named(token@).is_none() && e.is_unknown_algorithm(
                token@,
                "json, yaml"@,
            ),
        },
{
    if token == String::from_str("json") {
        Ok(OutputFormat::Json)
    } else if token == String::from_str("yaml") {
        Ok(OutputFormat::Yaml)
    } else {
        Err(TextError::UnknownAlgorithm { token, valid: String::from_str("json, yaml") })
    }
}

/// Resolves a format token, in any letter case, to an output format.
pub fn verify_format(ft: &str) -> (r: Result<OutputFormat, TextError>)
    ensures
        match r {
            Ok(format) => output_format_named(lowercase(ft@)) == Some(format),
            Err(e) => output_format_named(lowercase(ft@)).is_none() && e.is_unknown_algorithm(
                lowercase(ft@),
                "json, yaml"@,
            ),
        },
{
    output_format_of(to_lowercase(ft))
}

/// The name of an output format resolves to that format.
pub proof fn lemma_output_format_name_resolves(format: OutputFormat)
    ensures
        output_format_named(format.spec_name()) == Some(format),
{
    reveal_strlit("json");
    reveal_strlit("yaml");
    assert("json"@[0] == 'j');
    assert("yaml"@[0] == 'y');
}

impl std::str::FromStr for OutputFormat {
    type Err = TextError;

    /// Resolves a format token, in any letter case, to an output format.
    fn from_str(format: &str) -> (r: Result<Self, Self::Err>)
        ensures
            match r {
                Ok(found) => output_format_named(lowercase(format@)) == Some(found),
                Err(e) => output_format_named(lowercase(format@)).is_none()
                    && e.is_unknown_algorithm(lowercase(format@), "json, yaml"@),
            },
    {
        verify_format(format)
    }
}

} // verus!
