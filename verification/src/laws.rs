//! The library-level laws: properties that relate several components, stated
//! and proved over the same spec functions the components' contracts use.

use vstd::prelude::*;

use crate::capability::CapabilitySet;
use crate::cases::{folded, lemma_kebab_case_injective, lemma_snake_case_injective,
    lemma_spaced_pascal_injective};
use crate::expr::lemma_intval_value_unique;
use crate::int_type::IntTypeTag;
use crate::plan::{spec_any_discriminant, FeaturePlan};
use crate::pretty::{lemma_variant_lines_congruent, pretty_text};
use crate::resolve::{resolvable, resolved_row, EnumDeclaration, ResolveMode,
    ResolvedEnumMetadata};

verus! {

/// Whether a string avoids a given character everywhere.
pub open spec fn has_no_char(s: Seq<char>, c: char) -> bool {
    forall|k: int| 0 <= k < s.len() ==> s[k] != c
}

/// Ordinals are exactly the 0-based positions in declaration order, and the
/// row at each ordinal carries the original identifier.
pub proof fn lemma_ordinal_assignment(m: ResolvedEnumMetadata, decl: EnumDeclaration)
    requires
        m.resolved_from(decl),
    ensures
        m.variants@.len() == decl.variants@.len(),
        forall|i: int|
            0 <= i < m.variants@.len() ==> (#[trigger] m.variants@[i]).ordinal == i
                && m.variants@[i].identifier@ == decl.variants@[i].identifier@,
{
    assert forall|i: int|
        0 <= i < m.variants@.len() implies (#[trigger] m.variants@[i]).ordinal == i
        && m.variants@[i].identifier@ == decl.variants@[i].identifier@ by {
        assert(resolved_row(m.variants@[i], decl.variants@[i], m.int_type, i));
    }
}

/// Round trip through the spaced-Pascal form: with distinct, space-free
/// identifiers, the spaced form of a variant matches no other row, so the
/// first-match lookup by that form returns the variant itself.
pub proof fn lemma_pascal_spaced_round_trip(
    m: ResolvedEnumMetadata,
    decl: EnumDeclaration,
    i: int,
)
    requires
        m.resolved_from(decl),
        0 <= i < m.variants@.len(),
        forall|j1: int, j2: int|
            #![trigger decl.variants@[j1], decl.variants@[j2]]
            0 <= j1 < decl.variants@.len() && 0 <= j2 < decl.variants@.len() && j1 != j2
                ==> decl.variants@[j1].identifier@ != decl.variants@[j2].identifier@,
        forall|j: int|
            0 <= j < decl.variants@.len() ==> has_no_char(
                (#[trigger] decl.variants@[j]).identifier@,
                ' ',
            ),
    ensures
        forall|j: int|
            0 <= j < m.variants@.len() && (#[trigger] m.variants@[j]).spaced_pascal@
                == m.variants@[i].spaced_pascal@ ==> j == i,
{
    assert forall|j: int|
        0 <= j < m.variants@.len() && (#[trigger] m.variants@[j]).spaced_pascal@
            == m.variants@[i].spaced_pascal@ implies j == i by {
        if j != i {
            assert(resolved_row(m.variants@[i], decl.variants@[i], m.int_type, i));
            assert(resolved_row(m.variants@[j], decl.variants@[j], m.int_type, j));
            lemma_spaced_pascal_injective(
                decl.variants@[i].identifier@,
                decl.variants@[j].identifier@,
            );
        }
    }
}

/// Round trip through the snake_case form: with underscore-free identifiers
/// whose lowercase foldings are distinct, the snake_case form of a variant
/// matches no other row, so the first-match lookup returns the variant
/// itself. (Identifiers that differ only by letter case, such as "AB" and
/// "Ab", fold to the same form and are excluded.)
pub proof fn lemma_snake_case_round_trip(m: ResolvedEnumMetadata, decl: EnumDeclaration, i: int)
    requires
        m.resolved_from(decl),
        0 <= i < m.variants@.len(),
        forall|j1: int, j2: int|
            #![trigger decl.variants@[j1], decl.variants@[j2]]
            0 <= j1 < decl.variants@.len() && 0 <= j2 < decl.variants@.len() && j1 != j2 ==> folded(
                decl.variants@[j1].identifier@,
            ) != folded(decl.variants@[j2].identifier@),
        forall|j: int|
            0 <= j < decl.variants@.len() ==> has_no_char(
                (#[trigger] decl.variants@[j]).identifier@,
                '_',
            ),
    ensures
        forall|j: int|
            0 <= j < m.variants@.len() && (#[trigger] m.variants@[j]).snake_case@
                == m.variants@[i].snake_case@ ==> j == i,
{
    assert forall|j: int|
        0 <= j < m.variants@.len() && (#[trigger] m.variants@[j]).snake_case@
            == m.variants@[i].snake_case@ implies j == i by {
        if j != i {
            assert(resolved_row(m.variants@[i], decl.variants@[i], m.int_type, i));
            assert(resolved_row(m.variants@[j], decl.variants@[j], m.int_type, j));
            lemma_snake_case_injective(
                decl.variants@[i].identifier@,
                decl.variants@[j].identifier@,
            );
        }
    }
}

/// Round trip through the kebab-case form, under the same conditions as the
/// snake_case round trip with hyphens in place of underscores.
pub proof fn lemma_kebab_case_round_trip(m: ResolvedEnumMetadata, decl: EnumDeclaration, i: int)
    requires
        m.resolved_from(decl),
        0 <= i < m.variants@.len(),
        forall|j1: int, j2: int|
            #![trigger decl.variants@[j1], decl.variants@[j2]]
            0 <= j1 < decl.variants@.len() && 0 <= j2 < decl.variants@.len() && j1 != j2 ==> folded(
                decl.variants@[j1].identifier@,
            ) != folded(decl.variants@[j2].identifier@),
        forall|j: int|
            0 <= j < decl.variants@.len() ==> has_no_char(
                (#[trigger] decl.variants@[j]).identifier@,
                '-',
            ),
    ensures
        forall|j: int|
            0 <= j < m.variants@.len() && (#[trigger] m.variants@[j]).kebab_case@
                == m.variants@[i].kebab_case@ ==> j == i,
{
    assert forall|j: int|
        0 <= j < m.variants@.len() && (#[trigger] m.variants@[j]).kebab_case@
            == m.variants@[i].kebab_case@ implies j == i by {
        if j != i {
            assert(resolved_row(m.variants@[i], decl.variants@[i], m.int_type, i));
            assert(resolved_row(m.variants@[j], decl.variants@[j], m.int_type, j));
            lemma_kebab_case_injective(
                decl.variants@[i].identifier@,
                decl.variants@[j].identifier@,
            );
        }
    }
}

/// An empty variant list is never resolvable, whatever the mode and the rest
/// of the configuration; resolution of it therefore fails with a variant
/// error.
pub proof fn lemma_empty_variant_list_rejected(decl: EnumDeclaration, mode: ResolveMode)
    requires
        decl.variants@.len() == 0,
    ensures
        !resolvable(decl, mode),
{
}

/// The feature gates: at least one discriminant without a declared
/// duplication capability auto-adds one and enables value reconstruction by
/// ordinal; no discriminant and no duplication capability disables both
/// integer conversion and value reconstruction, while reference-returning
/// ordinal lookup stays available regardless.
pub proof fn lemma_feature_gating(
    plan: FeaturePlan,
    has_disc: bool,
    caps: CapabilitySet,
    tag: IntTypeTag,
)
    requires
        plan.decided_by(has_disc, caps, tag),
    ensures
        has_disc && !caps.has_clone ==> plan.auto_add_duplication_capability
            && plan.emit_ordinal_reconstruction,
        !has_disc && !caps.has_clone ==> !plan.emit_integer_conversion
            && !plan.emit_ordinal_reconstruction,
        caps.has_clone ==> plan.emit_ordinal_reconstruction,
{
}

/// Pretty-print output is byte-identical across two independent resolutions
/// of one declaration: the rendered text is a function of the declaration
/// alone.
pub proof fn lemma_pretty_print_deterministic(
    decl: EnumDeclaration,
    m1: ResolvedEnumMetadata,
    m2: ResolvedEnumMetadata,
    c1: CapabilitySet,
    c2: CapabilitySet,
    p1: FeaturePlan,
    p2: FeaturePlan,
)
    requires
        m1.resolved_from(decl),
        m2.resolved_from(decl),
        c1.summarizes(decl.derives@),
        c2.summarizes(decl.derives@),
        p1.decided_by(spec_any_discriminant(m1), c1, m1.int_type),
        p2.decided_by(spec_any_discriminant(m2), c2, m2.int_type),
    ensures
        pretty_text(
            decl.derives@,
            p1.auto_add_duplication_capability,
            decl.is_pub,
            decl.name@,
            m1.variants@,
        ) == pretty_text(
            decl.derives@,
            p2.auto_add_duplication_capability,
            decl.is_pub,
            decl.name@,
            m2.variants@,
        ),
{
    let decl_disc = exists|i: int|
        0 <= i < decl.variants@.len() && (#[trigger] decl.variants@[i]).discriminant is Some;
    if spec_any_discriminant(m1) {
        let i = choose|i: int|
            0 <= i < m1.variants@.len() && (#[trigger] m1.variants@[i]).discriminant_value is Some;
        assert(resolved_row(m1.variants@[i], decl.variants@[i], m1.int_type, i));
        assert(decl.variants@[i].discriminant is Some);
        assert(decl_disc);
    }
    if decl_disc {
        let i = choose|i: int|
            0 <= i < decl.variants@.len() && (#[trigger] decl.variants@[i]).discriminant is Some;
        assert(resolved_row(m1.variants@[i], decl.variants@[i], m1.int_type, i));
        assert(m1.variants@[i].discriminant_value is Some);
        assert(spec_any_discriminant(m1));
        assert(resolved_row(m2.variants@[i], decl.variants@[i], m2.int_type, i));
        assert(spec_any_discriminant(m2));
    }
    if spec_any_discriminant(m2) {
        let i = choose|i: int|
            0 <= i < m2.variants@.len() && (#[trigger] m2.variants@[i]).discriminant_value is Some;
        assert(resolved_row(m2.variants@[i], decl.variants@[i], m2.int_type, i));
        assert(decl_disc);
    }
    assert(spec_any_discriminant(m1) == spec_any_discriminant(m2));
    assert(p1.auto_add_duplication_capability == p2.auto_add_duplication_capability);
    assert forall|i: int|
        0 <= i < m1.variants@.len() implies (#[trigger] m1.variants@[i]).identifier@
        == m2.variants@[i].identifier@ && m1.variants@[i].discriminant_value
        == m2.variants@[i].discriminant_value by {
        assert(resolved_row(m1.variants@[i], decl.variants@[i], m1.int_type, i));
        assert(resolved_row(m2.variants@[i], decl.variants@[i], m2.int_type, i));
        match decl.variants@[i].discriminant {
            Some(e) => {
                let v1 = m1.variants@[i].discriminant_value->Some_0;
                let v2 = m2.variants@[i].discriminant_value->Some_0;
                assert(v1.value() == v2.value());
                lemma_intval_value_unique(v1, v2);
            },
            None => {},
        }
    }
    lemma_variant_lines_congruent(m1.variants@, m2.variants@);
}

} // verus!
