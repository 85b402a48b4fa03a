//! The capability-gated feature planner.
//!
//! Operations that construct and return a variant by value need a duplication
//! capability; operations that only reference the precomputed table do not.
//! When integer round-trip reconstruction is owed but no duplication
//! capability was declared, the planner silently upgrades the capability set
//! instead of failing. The decision depends only on the capability set and on
//! whether any discriminant exists — never on iteration order.

use vstd::prelude::*;

use crate::capability::CapabilitySet;
use crate::int_type::IntTypeTag;
use crate::resolve::ResolvedEnumMetadata;

verus! {

/// Which optional derived operations are legal to include, and which
/// capability must be auto-added.
#[derive(Clone, Copy, Debug)]
pub struct FeaturePlan {
    /// Whether integer round-trip conversion is emitted: owed exactly when at
    /// least one variant carries a discriminant.
    pub emit_integer_conversion: bool,
    /// Whether value-returning reconstruction by ordinal is emitted: owed
    /// exactly when a duplication capability is present, declared or
    /// auto-added. Reference-returning ordinal lookup is always available.
    pub emit_ordinal_reconstruction: bool,
    /// Whether the duplication capability must be added on behalf of the
    /// author.
    pub auto_add_duplication_capability: bool,
    /// Pretty-printing is always emitted.
    pub emit_pretty_print: bool,
    /// The discriminant type integer conversion works at.
    pub chosen_int_type: IntTypeTag,
}

/// Whether any resolved variant carries a discriminant value.
pub open spec fn spec_any_discriminant(m: ResolvedEnumMetadata) -> bool {
    exists|i: int|
        0 <= i < m.variants@.len() && (#[trigger] m.variants@[i]).discriminant_value is Some
}

/// Whether any resolved variant carries a discriminant value.
pub fn any_discriminant(m: &ResolvedEnumMetadata) -> (r: bool)
    ensures
        r == spec_any_discriminant(*m),
{
    let n = m.variants.len();
    let mut i: usize = 0;
    while i < n
        invariant
            i <= n,
            n == m.variants@.len(),
            forall|j: int| 0 <= j < i ==> (#[trigger] m.variants@[j]).discriminant_value is None,
        decreases n - i,
    {
        if m.variants[i].discriminant_value.is_some() {
            return true;
        }
        i = i + 1;
    }
    false
}

impl FeaturePlan {
    /// The planner's decision table, a pure function of whether any
    /// discriminant exists and of the declared capability set.
    pub open spec fn decided_by(self, has_disc: bool, caps: CapabilitySet, tag: IntTypeTag) -> bool {
        &&& self.emit_integer_conversion == has_disc
        &&& self.auto_add_duplication_capability == (has_disc && !caps.has_clone)
        &&& self.emit_ordinal_reconstruction == (caps.has_clone || (has_disc && !caps.has_clone))
        &&& self.emit_pretty_print
        &&& self.chosen_int_type == tag
    }
}

/// Decides the feature plan for resolved metadata under the declared
/// capability snapshot.
pub fn plan_features(m: &ResolvedEnumMetadata, caps: &CapabilitySet) -> (r: FeaturePlan)
    ensures
        r.decided_by(spec_any_discriminant(*m), *caps, m.int_type),
{
    let has_disc = any_discriminant(m);
    FeaturePlan {
        emit_integer_conversion: has_disc,
        emit_ordinal_reconstruction: caps.has_clone || (has_disc && !caps.has_clone),
        auto_add_duplication_capability: has_disc && !caps.has_clone,
        emit_pretty_print: true,
        chosen_int_type: m.int_type,
    }
}

} // verus!
