use enum_ext::expr::{IntExpr, IntVal};
use enum_ext::int_type::IntTypeTag;
use enum_ext::pipeline::resolve_enum;
use enum_ext::resolve::{EnumDeclaration, PayloadShape, ResolveMode, VariantSpec};

fn make_decl(
    name: &str,
    derives: &[&str],
    variants: Vec<VariantSpec>,
    int_type: Option<IntTypeTag>,
) -> EnumDeclaration {
    EnumDeclaration {
        name: name.to_string(),
        is_pub: true,
        derives: derives.iter().map(|d| d.to_string()).collect(),
        variants,
        int_type,
    }
}

fn unit_variant(name: &str) -> VariantSpec {
    VariantSpec {
        identifier: name.to_string(),
        discriminant: None,
        payload: PayloadShape::Empty,
    }
}

fn disc_variant(name: &str, value: u128) -> VariantSpec {
    VariantSpec {
        identifier: name.to_string(),
        discriminant: Some(IntExpr::Lit(value)),
        payload: PayloadShape::Empty,
    }
}

#[test]
fn test_no_std_1() {
    let decl = make_decl(
        "NoStd",
        &["Debug", "PartialEq"],
        vec![unit_variant("A"), unit_variant("B"), unit_variant("C")],
        None,
    );
    assert!(resolve_enum(&decl, ResolveMode::Simple).is_ok());
}

#[test]
fn test_no_std_2() {
    let decl = make_decl(
        "NoStd2",
        &["Debug", "PartialEq"],
        vec![
            disc_variant("A", 10),
            disc_variant("B", 11),
            disc_variant("C", 12),
        ],
        Some(IntTypeTag::U8),
    );
    assert!(resolve_enum(&decl, ResolveMode::Simple).is_ok());
}

#[test]
fn test_no_std_3() {
    let decl = make_decl(
        "NoStd3",
        &["Debug", "PartialEq", "Copy"],
        vec![
            disc_variant("A", 10),
            disc_variant("B", 11),
            disc_variant("CodeReview", 12),
        ],
        Some(IntTypeTag::U32),
    );
    let res = resolve_enum(&decl, ResolveMode::Simple).unwrap();
    let meta = &res.metadata;

    assert_eq!(
        meta.variants[1].discriminant_value,
        Some(IntVal { neg: false, mag: 11 })
    );
    assert_eq!(meta.variants[2].spaced_pascal, "Code Review");
    assert_eq!(meta.from_pascal_spaced("Code Review"), Some(2));
}
