//! Parsing of the configuration arguments attached to a declaration.
//!
//! The configuration is an ordered list of `key = "value"` entries. The only
//! recognized key is `IntType`, whose value must name one of the twelve
//! supported integer types; any other key or value is a parse failure,
//! surfaced before resolution begins.

use vstd::prelude::*;
use vstd::string::StringExecFns;

use crate::error::EnumMacroError;
use crate::int_type::{is_valid_int_type_name, IntTypeTag};
use crate::text::str_eq;

verus! {

/// The parsed configuration arguments.
#[derive(Clone, Copy, Debug)]
pub struct EnumDefArgs {
    /// The requested discriminant type, if one was configured.
    pub int_type: Option<IntTypeTag>,
}

impl Default for EnumDefArgs {
    /// The configuration with no arguments given.
    fn default() -> (r: EnumDefArgs)
        ensures
            r.int_type is None,
    {
        EnumDefArgs { int_type: None }
    }
}

/// Whether one configuration entry is acceptable: the key is `IntType` and
/// the value names a supported integer type.
pub open spec fn entry_ok(entry: (String, String)) -> bool {
    entry.0@ == "IntType"@ && is_valid_int_type_name(entry.1@)
}

/// Parses the configuration entries. Succeeds exactly when every entry is
/// acceptable; with several `IntType` entries the last one wins.
pub fn parse_enum_def_args(entries: &Vec<(String, String)>) -> (r: Result<
    EnumDefArgs,
    EnumMacroError,
>)
    ensures
        (r is Ok) == (forall|i: int| 0 <= i < entries@.len() ==> entry_ok(#[trigger] entries@[i])),
        r matches Ok(args) ==> {
            &&& entries@.len() == 0 ==> args.int_type is None
            &&& entries@.len() > 0 ==> (args.int_type matches Some(t) && t.spec_name()
                == entries@.last().1@)
        },
        r matches Err(e) ==> e.is_parse_error(),
{
    let n = entries.len();
    let mut chosen: Option<IntTypeTag> = None;
    let mut i: usize = 0;
    while i < n
        invariant
            i <= n,
            n == entries@.len(),
            forall|j: int| 0 <= j < i ==> entry_ok(#[trigger] entries@[j]),
            i == 0 ==> chosen is None,
            i > 0 ==> (chosen matches Some(t) && t.spec_name() == entries@[i - 1].1@),
        decreases n - i,
    {
        let key = entries[i].0.as_str();
        if !str_eq(key, "IntType") {
            let msg = String::from_str("expected IntType, found ").concat(key);
            return Err(EnumMacroError::ParseError(msg));
        }
        let value = entries[i].1.as_str();
        match IntTypeTag::from_name(value) {
            Some(t) => {
                chosen = Some(t);
            },
            None => {
                let msg = String::from_str("Invalid IntType: ").concat(value);
                return Err(EnumMacroError::ParseError(msg));
            },
        }
        i = i + 1;
    }
    Ok(EnumDefArgs { int_type: chosen })
}

} // verus!
