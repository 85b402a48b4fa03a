//! The full resolution pipeline, run synchronously once per declaration:
//! capability inspection, variant resolution, feature planning and
//! pretty-print canonicalization.

use vstd::prelude::*;

use crate::capability::CapabilitySet;
use crate::error::EnumMacroError;
use crate::plan::{plan_features, spec_any_discriminant, FeaturePlan};
use crate::pretty::{pretty_print, pretty_text};
use crate::resolve::{resolvable, resolve_variants, EnumDeclaration, ResolveMode,
    ResolvedEnumMetadata};

verus! {

/// Everything the external artifact assembler consumes: the authoritative
/// metadata table, the capability snapshot, the feature plan and the
/// canonical pretty-printed declaration.
#[derive(Debug)]
pub struct ResolvedEnum {
    /// The authoritative metadata table.
    pub metadata: ResolvedEnumMetadata,
    /// The capability snapshot taken at resolution time.
    pub capabilities: CapabilitySet,
    /// The capability-gated feature plan.
    pub plan: FeaturePlan,
    /// The canonical pretty-printed declaration.
    pub pretty: String,
}

/// Resolves a declaration to completion or to a single failure value.
///
/// Success is owed exactly when the declaration is resolvable in the given
/// mode: a non-empty variant list, payload shapes legal for the mode, and
/// every discriminant expression evaluable at the chosen integer type.
pub fn resolve_enum(decl: &EnumDeclaration, mode: ResolveMode) -> (r: Result<
    ResolvedEnum,
    EnumMacroError,
>)
    ensures
        (r is Ok) == resolvable(*decl, mode),
        r matches Ok(res) ==> {
            &&& res.metadata.resolved_from(*decl)
            &&& res.metadata.wf()
            &&& res.capabilities.summarizes(decl.derives@)
            &&& res.plan.decided_by(
                spec_any_discriminant(res.metadata),
                res.capabilities,
                res.metadata.int_type,
            )
            &&& res.pretty@ == pretty_text(
                decl.derives@,
                res.plan.auto_add_duplication_capability,
                decl.is_pub,
                decl.name@,
                res.metadata.variants@,
            )
        },
        r matches Err(e) ==> e.is_variant_error(),
{
    let capabilities = decl.capabilities();
    let metadata = match resolve_variants(decl, mode) {
        Ok(m) => m,
        Err(e) => {
            return Err(e);
        },
    };
    let plan = plan_features(&metadata, &capabilities);
    let pretty = pretty_print(decl, &metadata, &plan);
    Ok(ResolvedEnum { metadata, capabilities, plan, pretty })
}

} // verus!
