//! Pretty-print canonicalization: the deterministic serialization of the
//! capability list and the resolved variant list back into a normalized
//! declaration string.
//!
//! The declared capabilities render first, in their original form, followed
//! by any auto-added duplication capability on its own line, then the enum
//! header; each variant stands on its own indented line in declaration order,
//! with its discriminant normalized to its evaluated value, separated by
//! commas with a trailing comma after the final variant, closed by an
//! unindented brace.

use vstd::prelude::*;
use vstd::string::StringExecFns;

use crate::expr::IntVal;
use crate::plan::FeaturePlan;
use crate::resolve::{EnumDeclaration, ResolvedEnumMetadata, ResolvedVariant};
use crate::text::{dec_rep, push_decimal};

verus! {

/// The capability names joined by a comma and a space.
pub open spec fn derive_list_text(names: Seq<String>) -> Seq<char>
    decreases names.len(),
{
    if names.len() == 0 {
        Seq::empty()
    } else if names.len() == 1 {
        names[0]@
    } else {
        derive_list_text(names.drop_last()) + ", "@ + names.last()@
    }
}

/// The declared capability line, empty when no capability was declared.
pub open spec fn derive_line_text(names: Seq<String>) -> Seq<char> {
    if names.len() == 0 {
        Seq::empty()
    } else {
        "#[derive("@ + derive_list_text(names) + ")]\n"@
    }
}

/// The auto-added duplication capability line, when the planner added one.
pub open spec fn auto_clone_text(auto_add: bool) -> Seq<char> {
    if auto_add {
        "#[derive(Clone)]\n"@
    } else {
        Seq::empty()
    }
}

/// The declaration header.
pub open spec fn header_text(is_pub: bool, name: Seq<char>) -> Seq<char> {
    (if is_pub {
        "pub "@
    } else {
        Seq::<char>::empty()
    }) + "enum "@ + name + " {\n"@
}

/// The canonical decimal text of a discriminant value.
pub open spec fn int_text(v: IntVal) -> Seq<char> {
    if v.neg {
        seq!['-'] + dec_rep(v.mag as nat)
    } else {
        dec_rep(v.mag as nat)
    }
}

/// One indented variant line, with the discriminant normalized to its
/// evaluated value.
pub open spec fn variant_line_text(rv: ResolvedVariant) -> Seq<char> {
    "    "@ + rv.identifier@ + (match rv.discriminant_value {
        Some(v) => " = "@ + int_text(v),
        None => Seq::<char>::empty(),
    }) + ",\n"@
}

/// All variant lines, in declaration order.
pub open spec fn variant_lines_text(rows: Seq<ResolvedVariant>) -> Seq<char>
    decreases rows.len(),
{
    if rows.len() == 0 {
        Seq::empty()
    } else {
        variant_lines_text(rows.drop_last()) + variant_line_text(rows.last())
    }
}

/// The whole canonical declaration text.
pub open spec fn pretty_text(
    derives: Seq<String>,
    auto_add: bool,
    is_pub: bool,
    name: Seq<char>,
    rows: Seq<ResolvedVariant>,
) -> Seq<char> {
    derive_line_text(derives) + auto_clone_text(auto_add) + header_text(is_pub, name)
        + variant_lines_text(rows) + "}"@
}

/// Appends the canonical decimal text of a discriminant value.
fn push_int_text(out: &mut String, v: IntVal)
    ensures
        final(out)@ == old(out)@ + int_text(v),
{
    if v.neg {
        out.push('-');
    }
    push_decimal(out, v.mag);
    proof {
        assert(final(out)@ =~= old(out)@ + int_text(v));
    }
}

/// Renders the canonical pretty-printed declaration. The output is a pure
/// function of the declaration, the resolved rows and the plan's auto-added
/// capability, so repeated resolutions of one declaration render
/// byte-identical text.
pub fn pretty_print(decl: &EnumDeclaration, m: &ResolvedEnumMetadata, plan: &FeaturePlan) -> (r:
    String)
    ensures
        r@ == pretty_text(
            decl.derives@,
            plan.auto_add_duplication_capability,
            decl.is_pub,
            decl.name@,
            m.variants@,
        ),
{
    let mut out = String::new();
    let dn = decl.derives.len();
    if dn > 0 {
        out.append("#[derive(");
        let mut i: usize = 0;
        while i < dn
            invariant
                0 < dn == decl.derives@.len(),
                i <= dn,
                out@ == "#[derive("@ + derive_list_text(decl.derives@.take(i as int)),
            decreases dn - i,
        {
            if i > 0 {
                out.append(", ");
            }
            out.append(decl.derives[i].as_str());
            proof {
                let upto = decl.derives@.take(i + 1);
                assert(upto.drop_last() =~= decl.derives@.take(i as int));
                assert(upto.last() == decl.derives@[i as int]);
                if i == 0 {
                    assert(derive_list_text(upto) == upto[0]@);
                    assert(out@ =~= "#[derive("@ + derive_list_text(upto));
                } else {
                    assert(out@ =~= "#[derive("@ + derive_list_text(upto));
                }
            }
            i = i + 1;
        }
        proof {
            assert(decl.derives@.take(dn as int) =~= decl.derives@);
        }
        out.append(")]\n");
    }
    if plan.auto_add_duplication_capability {
        out.append("#[derive(Clone)]\n");
    }
    if decl.is_pub {
        out.append("pub ");
    }
    out.append("enum ");
    out.append(decl.name.as_str());
    out.append(" {\n");
    let ghost prefix = derive_line_text(decl.derives@) + auto_clone_text(
        plan.auto_add_duplication_capability,
    ) + header_text(decl.is_pub, decl.name@);
    proof {
        assert(out@ =~= prefix);
    }
    let n = m.variants.len();
    let mut i: usize = 0;
    while i < n
        invariant
            i <= n,
            n == m.variants@.len(),
            out@ == prefix + variant_lines_text(m.variants@.take(i as int)),
        decreases n - i,
    {
        let rv = &m.variants[i];
        out.append("    ");
        out.append(rv.identifier.as_str());
        match rv.discriminant_value {
            Some(v) => {
                out.append(" = ");
                push_int_text(&mut out, v);
            },
            None => {},
        }
        out.append(",\n");
        proof {
            let upto = m.variants@.take(i + 1);
            assert(upto.drop_last() =~= m.variants@.take(i as int));
            assert(upto.last() == m.variants@[i as int]);
            assert(out@ =~= prefix + variant_lines_text(upto));
        }
        i = i + 1;
    }
    proof {
        assert(m.variants@.take(n as int) =~= m.variants@);
    }
    out.append("}");
    proof {
        assert(out@ =~= pretty_text(
            decl.derives@,
            plan.auto_add_duplication_capability,
            decl.is_pub,
            decl.name@,
            m.variants@,
        ));
    }
    out
}

/// Variant lines depend only on each row's identifier and discriminant
/// value: two row sequences that agree on those render identical text.
pub proof fn lemma_variant_lines_congruent(a: Seq<ResolvedVariant>, b: Seq<ResolvedVariant>)
    requires
        a.len() == b.len(),
        forall|i: int|
            0 <= i < a.len() ==> (#[trigger] a[i]).identifier@ == b[i].identifier@
                && a[i].discriminant_value == b[i].discriminant_value,
    ensures
        variant_lines_text(a) == variant_lines_text(b),
    decreases a.len(),
{
    if a.len() > 0 {
        lemma_variant_lines_congruent(a.drop_last(), b.drop_last());
        assert(variant_line_text(a.last()) == variant_line_text(b.last()));
    }
}

} // verus!
