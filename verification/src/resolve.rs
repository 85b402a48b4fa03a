//! The variant resolver: the single authoritative pass over the declared
//! variant list. It validates shape legality, assigns dense 0-based ordinals
//! in declaration order, evaluates discriminant expressions at the chosen
//! integer type, and derives the three case-converted name forms for each
//! variant. Any violation aborts the whole resolution with a single
//! descriptive failure; partial metadata is never returned.

use vstd::prelude::*;
use vstd::string::StringExecFns;

use crate::capability::CapabilitySet;
use crate::cases::{
    kebab_case_form, snake_case_form, spaced_pascal_form, split_pascal_case, to_kebab_case,
    to_snake_case,
};
use crate::error::EnumMacroError;
use crate::expr::{eval, eval_spec, IntExpr, IntVal};
use crate::int_type::IntTypeTag;

verus! {

/// The shape of the data carried by one variant.
#[derive(Debug)]
pub enum PayloadShape {
    /// A bare tag with no payload.
    Empty,
    /// Positional fields, each given by its type text.
    Positional(Vec<String>),
    /// Named fields: field name and type text, in declaration order.
    Named(Vec<(String, String)>),
}

impl PayloadShape {
    /// Whether the shape actually carries data: a positional or named shape
    /// with zero fields counts as payload-free.
    pub open spec fn spec_has_payload(self) -> bool {
        match self {
            PayloadShape::Empty => false,
            PayloadShape::Positional(types) => types@.len() > 0,
            PayloadShape::Named(fields) => fields@.len() > 0,
        }
    }

    /// Whether the shape actually carries data.
    pub fn has_payload(&self) -> (r: bool)
        ensures
            r == self.spec_has_payload(),
    {
        match self {
            PayloadShape::Empty => false,
            PayloadShape::Positional(types) => types.len() > 0,
            PayloadShape::Named(fields) => fields.len() > 0,
        }
    }
}

/// Whether two payload shapes describe the same fields.
pub open spec fn payload_matches(a: PayloadShape, b: PayloadShape) -> bool {
    match (a, b) {
        (PayloadShape::Empty, PayloadShape::Empty) => true,
        (PayloadShape::Positional(x), PayloadShape::Positional(y)) => {
            x@.len() == y@.len() && (forall|i: int|
                0 <= i < x@.len() ==> (#[trigger] x@[i])@ == y@[i]@)
        },
        (PayloadShape::Named(x), PayloadShape::Named(y)) => {
            x@.len() == y@.len() && (forall|i: int|
                0 <= i < x@.len() ==> (#[trigger] x@[i]).0@ == y@[i].0@ && x@[i].1@ == y@[i].1@)
        },
        _ => false,
    }
}

fn clone_strings(v: &Vec<String>) -> (r: Vec<String>)
    ensures
        r@.len() == v@.len(),
        forall|i: int| 0 <= i < v@.len() ==> (#[trigger] r@[i])@ == v@[i]@,
{
    let mut out: Vec<String> = Vec::new();
    let n = v.len();
    let mut i: usize = 0;
    while i < n
        invariant
            i <= n,
            n == v@.len(),
            out@.len() == i,
            forall|j: int| 0 <= j < i ==> (#[trigger] out@[j])@ == v@[j]@,
        decreases n - i,
    {
        out.push(v[i].clone());
        i = i + 1;
    }
    out
}

fn clone_pairs(v: &Vec<(String, String)>) -> (r: Vec<(String, String)>)
    ensures
        r@.len() == v@.len(),
        forall|i: int|
            0 <= i < v@.len() ==> (#[trigger] r@[i]).0@ == v@[i].0@ && r@[i].1@ == v@[i].1@,
{
    let mut out: Vec<(String, String)> = Vec::new();
    let n = v.len();
    let mut i: usize = 0;
    while i < n
        invariant
            i <= n,
            n == v@.len(),
            out@.len() == i,
            forall|j: int|
                0 <= j < i ==> (#[trigger] out@[j]).0@ == v@[j].0@ && out@[j].1@ == v@[j].1@,
        decreases n - i,
    {
        out.push((v[i].0.clone(), v[i].1.clone()));
        i = i + 1;
    }
    out
}

impl PayloadShape {
    /// A structurally equal copy of the shape.
    pub fn duplicate(&self) -> (r: PayloadShape)
        ensures
            payload_matches(r, *self),
            r.spec_has_payload() == self.spec_has_payload(),
    {
        match self {
            PayloadShape::Empty => PayloadShape::Empty,
            PayloadShape::Positional(types) => PayloadShape::Positional(clone_strings(types)),
            PayloadShape::Named(fields) => PayloadShape::Named(clone_pairs(fields)),
        }
    }
}

/// One raw variant of the declaration.
#[derive(Debug)]
pub struct VariantSpec {
    /// The variant identifier. Uniqueness within the enum is required but not
    /// validated here: duplicates are a pre-existing error condition of the
    /// host syntax layer.
    pub identifier: String,
    /// The optional discriminant expression.
    pub discriminant: Option<IntExpr>,
    /// The payload shape.
    pub payload: PayloadShape,
}

/// The input declaration, constructed once per invocation from the host
/// syntax and never mutated.
#[derive(Debug)]
pub struct EnumDeclaration {
    /// The enum name.
    pub name: String,
    /// Whether the declaration is public.
    pub is_pub: bool,
    /// The declared derive-capability tokens, in declared order.
    pub derives: Vec<String>,
    /// The ordered variant list; declaration order defines ordinal
    /// assignment.
    pub variants: Vec<VariantSpec>,
    /// The requested discriminant type, if one was configured.
    pub int_type: Option<IntTypeTag>,
}

impl EnumDeclaration {
    /// The discriminant type that resolution evaluates at: the requested one,
    /// or the unsigned pointer-sized default.
    pub open spec fn chosen_int_type(self) -> IntTypeTag {
        match self.int_type {
            Some(t) => t,
            None => IntTypeTag::Usize,
        }
    }

    /// The capability snapshot of the declared derive tokens.
    pub fn capabilities(&self) -> (r: CapabilitySet)
        ensures
            r.summarizes(self.derives@),
    {
        crate::capability::check_derive_traits(&self.derives)
    }
}

/// The resolution mode: payload-bearing variants are only legal in complex
/// mode.
#[derive(Clone, Copy, Debug, PartialEq, Eq, Structural)]
pub enum ResolveMode {
    /// Payload-free processing: any variant that carries a payload is
    /// rejected.
    Simple,
    /// Payload-bearing variants are accepted, but once any variant carries a
    /// payload, every variant must declare an explicit discriminant.
    Complex,
}

/// One row of the resolved metadata table.
#[derive(Debug)]
pub struct ResolvedVariant {
    /// The 0-based position in declaration order.
    pub ordinal: usize,
    /// The variant identifier.
    pub identifier: String,
    /// The evaluated discriminant value, if the variant declared one.
    pub discriminant_value: Option<IntVal>,
    /// The identifier in spaced-Pascal form.
    pub spaced_pascal: String,
    /// The identifier in snake_case form.
    pub snake_case: String,
    /// The identifier in kebab-case form.
    pub kebab_case: String,
    /// The payload shape, carried through unchanged.
    pub payload: PayloadShape,
}

/// The authoritative metadata table, immutable once built.
#[derive(Debug)]
pub struct ResolvedEnumMetadata {
    /// One row per declared variant, in declaration order.
    pub variants: Vec<ResolvedVariant>,
    /// The discriminant type every expression was evaluated at.
    pub int_type: IntTypeTag,
}

/// What resolution guarantees for the row built from the variant at
/// position `i`.
pub open spec fn resolved_row(
    rv: ResolvedVariant,
    vs: VariantSpec,
    tag: IntTypeTag,
    i: int,
) -> bool {
    &&& rv.ordinal == i
    &&& rv.identifier@ == vs.identifier@
    &&& match vs.discriminant {
        Some(e) => rv.discriminant_value matches Some(v) && v.wf() && Some(v.value()) == eval_spec(
            e,
            tag,
        ),
        None => rv.discriminant_value is None,
    }
    &&& rv.spaced_pascal@ == spaced_pascal_form(vs.identifier@)
    &&& rv.snake_case@ == snake_case_form(vs.identifier@)
    &&& rv.kebab_case@ == kebab_case_form(vs.identifier@)
    &&& payload_matches(rv.payload, vs.payload)
}

impl ResolvedEnumMetadata {
    /// The table is exactly the resolution of `decl`: one row per variant,
    /// ordinals dense and 0-based in declaration order.
    pub open spec fn resolved_from(self, decl: EnumDeclaration) -> bool {
        &&& self.int_type == decl.chosen_int_type()
        &&& self.variants@.len() == decl.variants@.len()
        &&& forall|i: int|
            0 <= i < self.variants@.len() ==> resolved_row(
                #[trigger] self.variants@[i],
                decl.variants@[i],
                self.int_type,
                i,
            )
    }

    /// The invariant every resolved table satisfies: it is non-empty and its
    /// ordinals are dense and 0-based.
    pub open spec fn wf(self) -> bool {
        &&& self.variants@.len() > 0
        &&& forall|i: int|
            0 <= i < self.variants@.len() ==> (#[trigger] self.variants@[i]).ordinal == i
        &&& forall|i: int|
            0 <= i < self.variants@.len() ==> (match (#[trigger] self.variants@[i]).discriminant_value {
                Some(v) => v.wf(),
                None => true,
            })
    }
}

/// Whether the payload rules of the mode hold: in simple mode no variant may
/// carry a payload; in complex mode a payload anywhere makes an explicit
/// discriminant mandatory on every variant.
pub open spec fn payload_legal(decl: EnumDeclaration, mode: ResolveMode) -> bool {
    match mode {
        ResolveMode::Simple => forall|i: int|
            0 <= i < decl.variants@.len() ==> !(#[trigger] decl.variants@[i]).payload.spec_has_payload(),
        ResolveMode::Complex => (exists|i: int|
            0 <= i < decl.variants@.len() && (#[trigger] decl.variants@[i]).payload.spec_has_payload())
            ==> forall|i: int|
            0 <= i < decl.variants@.len() ==> (#[trigger] decl.variants@[i]).discriminant is Some,
    }
}

/// Whether every declared discriminant expression evaluates at the chosen
/// type.
pub open spec fn discs_evaluable(decl: EnumDeclaration) -> bool {
    forall|i: int|
        0 <= i < decl.variants@.len() ==> match (#[trigger] decl.variants@[i]).discriminant {
            Some(e) => eval_spec(e, decl.chosen_int_type()) is Some,
            None => true,
        }
}

/// Whether resolution of the declaration succeeds in the given mode.
pub open spec fn resolvable(decl: EnumDeclaration, mode: ResolveMode) -> bool {
    &&& decl.variants@.len() > 0
    &&& payload_legal(decl, mode)
    &&& discs_evaluable(decl)
}

/// Whether any declared variant carries a payload.
fn any_payload(variants: &Vec<VariantSpec>) -> (r: bool)
    ensures
        r == exists|i: int|
            0 <= i < variants@.len() && (#[trigger] variants@[i]).payload.spec_has_payload(),
{
    let n = variants.len();
    let mut i: usize = 0;
    while i < n
        invariant
            i <= n,
            n == variants@.len(),
            forall|j: int|
                0 <= j < i ==> !(#[trigger] variants@[j]).payload.spec_has_payload(),
        decreases n - i,
    {
        if variants[i].payload.has_payload() {
            return true;
        }
        i = i + 1;
    }
    false
}

/// Resolves the declared variant list into the authoritative metadata table.
///
/// Resolution succeeds exactly when the variant list is non-empty, the
/// payload rules of the mode hold, and every discriminant expression
/// evaluates at the chosen integer type; any violation aborts the whole
/// resolution with a `VariantError`.
pub fn resolve_variants(decl: &EnumDeclaration, mode: ResolveMode) -> (r: Result<
    ResolvedEnumMetadata,
    EnumMacroError,
>)
    ensures
        (r is Ok) == resolvable(*decl, mode),
        r matches Ok(m) ==> m.resolved_from(*decl) && m.wf(),
        r matches Err(e) ==> e.is_variant_error(),
{
    let n = decl.variants.len();
    if n == 0 {
        return Err(
            EnumMacroError::VariantError(
                String::from_str("cannot generate methods for empty enums"),
            ),
        );
    }
    let tag = match decl.int_type {
        Some(t) => t,
        None => IntTypeTag::Usize,
    };
    let payload_anywhere = any_payload(&decl.variants);
    let mut rows: Vec<ResolvedVariant> = Vec::new();
    let mut i: usize = 0;
    while i < n
        invariant
            i <= n,
            n == decl.variants@.len(),
            tag == decl.chosen_int_type(),
            payload_anywhere == exists|k: int|
                0 <= k < decl.variants@.len() && (
                #[trigger] decl.variants@[k]).payload.spec_has_payload(),
            rows@.len() == i,
            forall|j: int|
                0 <= j < i ==> resolved_row(
                    #[trigger] rows@[j],
                    decl.variants@[j],
                    tag,
                    j,
                ),
            forall|j: int|
                0 <= j < i ==> match mode {
                    ResolveMode::Simple => !(
                    #[trigger] decl.variants@[j]).payload.spec_has_payload(),
                    ResolveMode::Complex => payload_anywhere ==> decl.variants@[j].discriminant
                        is Some,
                },
            forall|j: int|
                0 <= j < i ==> match (#[trigger] decl.variants@[j]).discriminant {
                    Some(e) => eval_spec(e, decl.chosen_int_type()) is Some,
                    None => true,
                },
        decreases n - i,
    {
        let vs = &decl.variants[i];
        let has_payload = vs.payload.has_payload();
        match mode {
            ResolveMode::Simple => {
                if has_payload {
                    let msg = String::from_str("Unsupported variant '").concat(
                        vs.identifier.as_str(),
                    ).concat("': complex variants are not supported here");
                    return Err(EnumMacroError::VariantError(msg));
                }
            },
            ResolveMode::Complex => {
                if payload_anywhere && vs.discriminant.is_none() {
                    let msg = String::from_str("variant '").concat(vs.identifier.as_str()).concat(
                        "' must declare an explicit discriminant once any variant carries a payload",
                    );
                    return Err(EnumMacroError::VariantError(msg));
                }
            },
        }
        let discriminant_value: Option<IntVal> = match &vs.discriminant {
            Some(e) => {
                match eval(e, tag) {
                    Some(v) => Some(v),
                    None => {
                        let msg = String::from_str("discriminant expression of variant '").concat(
                            vs.identifier.as_str(),
                        ).concat("' cannot be evaluated at the chosen integer type");
                        return Err(EnumMacroError::VariantError(msg));
                    },
                }
            },
            None => None,
        };
        let row = ResolvedVariant {
            ordinal: i,
            identifier: vs.identifier.clone(),
            discriminant_value,
            spaced_pascal: split_pascal_case(vs.identifier.as_str()),
            snake_case: to_snake_case(vs.identifier.as_str()),
            kebab_case: to_kebab_case(vs.identifier.as_str()),
            payload: vs.payload.duplicate(),
        };
        rows.push(row);
        i = i + 1;
    }
    let m = ResolvedEnumMetadata { variants: rows, int_type: tag };
    proof {
        assert(resolvable(*decl, mode));
        assert(m.resolved_from(*decl));
        assert forall|j: int|
            0 <= j < m.variants@.len() implies (#[trigger] m.variants@[j]).ordinal == j by {
            assert(resolved_row(m.variants@[j], decl.variants@[j], tag, j));
        }
        assert forall|j: int|
            0 <= j < m.variants@.len() implies (match (
        #[trigger] m.variants@[j]).discriminant_value {
            Some(v) => v.wf(),
            None => true,
        }) by {
            assert(resolved_row(m.variants@[j], decl.variants@[j], tag, j));
        }
    }
    Ok(m)
}

} // verus!
