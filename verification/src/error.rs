//! The failure values surfaced by the engine.

use vstd::prelude::*;

verus! {

/// A resolution failure. Both kinds are terminal for the current resolution:
/// there is no partial success and no retry.
#[derive(Debug)]
pub enum EnumMacroError {
    /// Malformed configuration, correctable by fixing the declaration syntax.
    ParseError(String),
    /// A semantically illegal variant set, correctable by restructuring the
    /// variants.
    VariantError(String),
}

impl EnumMacroError {
    /// Whether this is a configuration-syntax failure.
    pub open spec fn is_parse_error(self) -> bool {
        self matches EnumMacroError::ParseError(_)
    }

    /// Whether this is a variant-structure failure.
    pub open spec fn is_variant_error(self) -> bool {
        self matches EnumMacroError::VariantError(_)
    }

    /// The descriptive message carried by the error.
    pub open spec fn spec_message(self) -> Seq<char> {
        match self {
            EnumMacroError::ParseError(m) => m@,
            EnumMacroError::VariantError(m) => m@,
        }
    }

    /// The descriptive message carried by the error.
    pub fn message(&self) -> (r: &str)
        ensures
            r@ == self.spec_message(),
    {
        match self {
            EnumMacroError::ParseError(m) => m.as_str(),
            EnumMacroError::VariantError(m) => m.as_str(),
        }
    }
}

} // verus!
