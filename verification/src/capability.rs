//! The capability inspector: a pure classification of the derive-like
//! capability tokens declared on the enum.

use vstd::prelude::*;

use crate::text::str_eq;

verus! {

/// An immutable snapshot of the capabilities declared on the enum. Only the
/// eight tracked capabilities are recorded; unknown names are ignored.
#[derive(Clone, Copy, Debug)]
pub struct CapabilitySet {
    /// Whether any capability list was declared at all.
    pub has_derive: bool,
    pub has_debug: bool,
    pub has_default: bool,
    pub has_clone: bool,
    pub has_copy: bool,
    pub has_partial_eq: bool,
    pub has_partial_ord: bool,
    pub has_eq: bool,
    pub has_ord: bool,
}

/// Whether the token list contains the given name.
pub open spec fn lists_name(tokens: Seq<String>, name: Seq<char>) -> bool {
    exists|i: int| 0 <= i < tokens.len() && (#[trigger] tokens[i])@ == name
}

/// Whether a token list occurs in the given name list.
fn lists_name_exec(tokens: &Vec<String>, name: &str) -> (r: bool)
    ensures
        r == lists_name(tokens@, name@),
{
    let n = tokens.len();
    let mut i: usize = 0;
    while i < n
        invariant
            i <= n,
            n == tokens@.len(),
            forall|j: int| 0 <= j < i ==> (#[trigger] tokens@[j])@ != name@,
        decreases n - i,
    {
        if str_eq(tokens[i].as_str(), name) {
            return true;
        }
        i = i + 1;
    }
    false
}

impl CapabilitySet {
    /// What the inspector records for a given token list.
    pub open spec fn summarizes(self, tokens: Seq<String>) -> bool {
        &&& self.has_derive == (tokens.len() > 0)
        &&& self.has_clone == lists_name(tokens, "Clone"@)
        &&& self.has_copy == lists_name(tokens, "Copy"@)
        &&& self.has_debug == lists_name(tokens, "Debug"@)
        &&& self.has_default == lists_name(tokens, "Default"@)
        &&& self.has_eq == lists_name(tokens, "Eq"@)
        &&& self.has_ord == lists_name(tokens, "Ord"@)
        &&& self.has_partial_eq == lists_name(tokens, "PartialEq"@)
        &&& self.has_partial_ord == lists_name(tokens, "PartialOrd"@)
    }
}

/// Scans the declared capability tokens and records which of the eight
/// tracked capabilities are present. A list of zero tokens yields an
/// all-false set.
pub fn check_derive_traits(tokens: &Vec<String>) -> (r: CapabilitySet)
    ensures
        r.summarizes(tokens@),
{
    CapabilitySet {
        has_derive: tokens.len() > 0,
        has_clone: lists_name_exec(tokens, "Clone"),
        has_copy: lists_name_exec(tokens, "Copy"),
        has_debug: lists_name_exec(tokens, "Debug"),
        has_default: lists_name_exec(tokens, "Default"),
        has_eq: lists_name_exec(tokens, "Eq"),
        has_ord: lists_name_exec(tokens, "Ord"),
        has_partial_eq: lists_name_exec(tokens, "PartialEq"),
        has_partial_ord: lists_name_exec(tokens, "PartialOrd"),
    }
}

} // verus!
