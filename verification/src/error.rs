//! The per-plugin error taxonomy: a launch that failed, configuration that
//! did not deserialize, or captured bytes that were not valid text. Each
//! variant carries the underlying error's description as plain text.

use vstd::prelude::*;

verus! {

/// Why one plugin (or the configuration step around the core) failed.
#[derive(Debug)]
pub enum CliError {
    /// The process could not be started; carries the launcher's description.
    IO(String),
    /// The configuration did not deserialize; carries the parser's description.
    Deserialize(String),
    /// A captured stream's bytes were not valid text; carries the decoder's
    /// description.
    StringFromUtf8(String),
}

/// The text a failure renders as: the variant's name around the underlying
/// error's description.
pub open spec fn error_text(e: CliError) -> Seq<char> {
    match e {
        CliError::IO(m) => "IO("@ + m@ + ")"@,
        CliError::Deserialize(m) => "Deserialize("@ + m@ + ")"@,
        CliError::StringFromUtf8(m) => "StringFromUtf8("@ + m@ + ")"@,
    }
}

impl CliError {
    /// Renders this error as text, for the failure line of a plugin's block.
    pub fn describe(&self) -> (r: String)
        ensures
            r@ == error_text(*self),
    {
        let mut out = String::new();
        match self {
            CliError::IO(m) => {
                out.append("IO(");
                out.append(m.as_str());
                out.append(")");
            },
            CliError::Deserialize(m) => {
                out.append("Deserialize(");
                out.append(m.as_str());
                out.append(")");
            },
            CliError::StringFromUtf8(m) => {
                out.append("StringFromUtf8(");
                out.append(m.as_str());
                out.append(")");
            },
        }
        out
    }
}

} // verus!
