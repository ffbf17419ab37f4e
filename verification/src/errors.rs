use vstd::prelude::*;

verus! {

/// Errors raised by the virtual table: argument parsing, schema derivation,
/// record reading, and column access each have their own variant, carrying a
/// human-readable message.
#[derive(Debug)]
pub enum VtabError {
    /// A malformed or unrecognized `key=value` construction argument.
    ParameterError(String),
    /// A missing table payload, or no derivable column set.
    SchemaError(String),
    /// A failure reported by the underlying record reader.
    ParseError(String),
    /// A column index outside the current record.
    IndexError(String),
}

impl VtabError {
    /// The message carried by the error, whatever its variant.
    pub fn message(&self) -> (m: &String)
        ensures
            m@ == self.message_text(),
    {
        match self {
            VtabError::ParameterError(m) => m,
            VtabError::SchemaError(m) => m,
            VtabError::ParseError(m) => m,
            VtabError::IndexError(m) => m,
        }
    }

    pub open spec fn message_text(self) -> Seq<char> {
        match self {
            VtabError::ParameterError(m) => m@,
            VtabError::SchemaError(m) => m@,
            VtabError::ParseError(m) => m@,
            VtabError::IndexError(m) => m@,
        }
    }
}

} // verus!
