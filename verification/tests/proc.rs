use enum_ext::expr::{IntExpr, IntVal};
use enum_ext::int_type::IntTypeTag;
use enum_ext::pipeline::resolve_enum;
use enum_ext::resolve::{EnumDeclaration, PayloadShape, ResolveMode, VariantSpec};

fn make_decl(
    name: &str,
    derives: &[&str],
    variants: Vec<VariantSpec>,
    int_type: Option<IntTypeTag>,
) -> EnumDeclaration {
    EnumDeclaration {
        name: name.to_string(),
        is_pub: true,
        derives: derives.iter().map(|d| d.to_string()).collect(),
        variants,
        int_type,
    }
}

fn unit_variant(name: &str) -> VariantSpec {
    VariantSpec {
        identifier: name.to_string(),
        discriminant: None,
        payload: PayloadShape::Empty,
    }
}

fn disc_variant(name: &str, value: u128) -> VariantSpec {
    VariantSpec {
        identifier: name.to_string(),
        discriminant: Some(IntExpr::Lit(value)),
        payload: PayloadShape::Empty,
    }
}

fn neg_disc_variant(name: &str, value: u128) -> VariantSpec {
    VariantSpec {
        identifier: name.to_string(),
        discriminant: Some(IntExpr::Neg(Box::new(IntExpr::Lit(value)))),
        payload: PayloadShape::Empty,
    }
}

fn pos_val(mag: u128) -> IntVal {
    IntVal { neg: false, mag }
}

fn neg_val(mag: u128) -> IntVal {
    IntVal { neg: true, mag }
}

#[test]
fn simple_1() {
    let decl = make_decl(
        "Simple",
        &["Debug", "PartialEq"],
        vec![unit_variant("A"), unit_variant("B"), unit_variant("C")],
        None,
    );
    let res = resolve_enum(&decl, ResolveMode::Simple).unwrap();
    let meta = &res.metadata;

    assert_eq!(meta.variants[0].ordinal, 0);
    assert_eq!(meta.variants[1].ordinal, 1);
    assert_eq!(meta.variants[2].ordinal, 2);

    let mut ord = 0;
    for v in &meta.variants {
        assert_eq!(v.ordinal, ord);
        ord += 1;
    }

    for i in 0..meta.count() {
        let v = meta.variant_at(i).unwrap();
        match i {
            0 => assert_eq!(v.identifier, "A"),
            1 => assert_eq!(v.identifier, "B"),
            2 => assert_eq!(v.identifier, "C"),
            _ => unreachable!(),
        }
    }
}

#[test]
fn simple_2() {
    let decl = make_decl(
        "Simple",
        &["Debug", "PartialEq", "Clone"],
        vec![unit_variant("A"), unit_variant("B"), unit_variant("C")],
        None,
    );
    let res = resolve_enum(&decl, ResolveMode::Simple).unwrap();
    let meta = &res.metadata;

    // A declared duplication capability enables reconstruction by ordinal.
    assert!(res.plan.emit_ordinal_reconstruction);
    assert_eq!(meta.variant_at(0).unwrap().identifier, "A");
    assert_eq!(meta.variant_at(1).unwrap().identifier, "B");
    assert_eq!(meta.variant_at(2).unwrap().identifier, "C");
    assert!(meta.variant_at(3).is_none());
}

#[test]
fn simple_3() {
    let decl = make_decl(
        "Simple",
        &["Debug", "PartialEq"],
        vec![unit_variant("A"), unit_variant("B"), unit_variant("C")],
        None,
    );
    let res = resolve_enum(&decl, ResolveMode::Simple).unwrap();
    let meta = &res.metadata;

    // Without a duplication capability only the reference lookup remains.
    assert!(!res.plan.emit_ordinal_reconstruction);
    assert_eq!(meta.variant_at(0).unwrap().identifier, "A");
    assert_eq!(meta.variant_at(1).unwrap().identifier, "B");
    assert_eq!(meta.variant_at(2).unwrap().identifier, "C");
    assert!(meta.variant_at(3).is_none());
}

#[test]
fn discriminant_1() {
    let decl = make_decl(
        "Variant",
        &["Debug", "PartialEq"],
        vec![
            disc_variant("A", 10),
            disc_variant("B", 20),
            disc_variant("C", 30),
        ],
        None,
    );
    let res = resolve_enum(&decl, ResolveMode::Simple).unwrap();
    let meta = &res.metadata;

    assert_eq!(meta.int_type, IntTypeTag::Usize);
    assert_eq!(meta.variants[0].discriminant_value, Some(pos_val(10)));
    assert_eq!(meta.variants[1].discriminant_value, Some(pos_val(20)));
    assert_eq!(meta.variants[2].discriminant_value, Some(pos_val(30)));

    assert_eq!(meta.variants[0].ordinal, 0);
    assert_eq!(meta.variants[1].ordinal, 1);
    assert_eq!(meta.variants[2].ordinal, 2);

    let mut ord = 0;
    for v in &meta.variants {
        assert_eq!(v.ordinal, ord);
        ord += 1;
    }

    for i in 0..meta.count() {
        let v = meta.variant_at(i).unwrap();
        match i {
            0 => assert_eq!(v.identifier, "A"),
            1 => assert_eq!(v.identifier, "B"),
            2 => assert_eq!(v.identifier, "C"),
            _ => unreachable!(),
        }
    }

    for i in 0..meta.count() {
        let dv = meta.discriminant_of(i).unwrap();
        assert_eq!(meta.from_int(dv), Some(i));
    }

    // Discriminants auto-add the duplication capability, so reconstruction
    // by ordinal is available.
    assert!(res.plan.emit_ordinal_reconstruction);
    assert_eq!(meta.variant_at(0).unwrap().identifier, "A");
    assert_eq!(meta.variant_at(1).unwrap().identifier, "B");
    assert_eq!(meta.variant_at(2).unwrap().identifier, "C");
    assert!(meta.variant_at(3).is_none());
}

#[test]
fn discriminant_2() {
    let decl = make_decl(
        "Variant",
        &["Debug", "PartialEq"],
        vec![
            disc_variant("A", 10),
            disc_variant("B", 20),
            disc_variant("C", 30),
        ],
        Some(IntTypeTag::U8),
    );
    let res = resolve_enum(&decl, ResolveMode::Simple).unwrap();
    let meta = &res.metadata;

    assert_eq!(meta.int_type, IntTypeTag::U8);
    assert_eq!(meta.variants[0].discriminant_value, Some(pos_val(10)));
    assert_eq!(meta.variants[1].discriminant_value, Some(pos_val(20)));
    assert_eq!(meta.variants[2].discriminant_value, Some(pos_val(30)));

    assert_eq!(meta.variants[0].ordinal, 0);
    assert_eq!(meta.variants[1].ordinal, 1);
    assert_eq!(meta.variants[2].ordinal, 2);

    let mut ord = 0;
    for v in &meta.variants {
        assert_eq!(v.ordinal, ord);
        ord += 1;
    }

    for i in 0..meta.count() {
        let dv = meta.discriminant_of(i).unwrap();
        assert_eq!(meta.from_int(dv), Some(i));
    }
    assert!(meta.from_int(pos_val(27)).is_none());

    assert!(res.plan.emit_ordinal_reconstruction);
    assert!(meta.variant_at(3).is_none());
}

#[test]
fn discriminant_neg1() {
    let decl = make_decl(
        "Variant",
        &["Debug", "PartialEq"],
        vec![
            neg_disc_variant("A", 10),
            neg_disc_variant("B", 20),
            neg_disc_variant("C", 30),
        ],
        Some(IntTypeTag::I32),
    );
    let res = resolve_enum(&decl, ResolveMode::Simple).unwrap();
    let meta = &res.metadata;

    assert_eq!(meta.int_type, IntTypeTag::I32);
    assert_eq!(meta.variants[0].discriminant_value, Some(neg_val(10)));
    assert_eq!(meta.variants[1].discriminant_value, Some(neg_val(20)));
    assert_eq!(meta.variants[2].discriminant_value, Some(neg_val(30)));

    assert_eq!(meta.variants[0].ordinal, 0);
    assert_eq!(meta.variants[1].ordinal, 1);
    assert_eq!(meta.variants[2].ordinal, 2);

    for i in 0..meta.count() {
        let dv = meta.discriminant_of(i).unwrap();
        assert_eq!(meta.from_int(dv), Some(i));
    }
    assert!(meta.from_int(neg_val(40)).is_none());

    assert!(res.plan.emit_ordinal_reconstruction);
    assert!(meta.variant_at(3).is_none());
}

#[test]
fn pascal_spaced() {
    let decl = make_decl(
        "PascalNames",
        &["Debug", "PartialEq"],
        vec![
            unit_variant("PascalCase"),
            unit_variant("MixedCase"),
            unit_variant("MixedCase2"),
            unit_variant("MixedCaseThree"),
            unit_variant("MixedCaseFour4"),
        ],
        None,
    );
    let res = resolve_enum(&decl, ResolveMode::Simple).unwrap();
    let meta = &res.metadata;

    assert_eq!(meta.variants[0].spaced_pascal, "Pascal Case");
    assert_eq!(meta.variants[1].spaced_pascal, "Mixed Case");
    assert_eq!(meta.variants[2].spaced_pascal, "Mixed Case2");
    assert_eq!(meta.variants[3].spaced_pascal, "Mixed Case Three");
    assert_eq!(meta.variants[4].spaced_pascal, "Mixed Case Four4");

    assert_eq!(meta.from_pascal_spaced("Pascal Case"), Some(0));
    assert_eq!(meta.from_pascal_spaced("Mixed Case"), Some(1));
    assert_eq!(meta.from_pascal_spaced("Mixed Case2"), Some(2));
    assert_eq!(meta.from_pascal_spaced("Mixed Case Three"), Some(3));
    assert_eq!(meta.from_pascal_spaced("Mixed Case Four4"), Some(4));
}

#[test]
fn pascal_spaced2() {
    let decl = make_decl(
        "PascalNames",
        &["Debug", "PartialEq"],
        vec![
            disc_variant("PascalCase", 10),
            disc_variant("MixedCase", 20),
            disc_variant("MixedCase2", 30),
            disc_variant("MixedCaseThree", 40),
            disc_variant("MixedCaseFour4", 50),
        ],
        None,
    );
    let res = resolve_enum(&decl, ResolveMode::Simple).unwrap();
    let meta = &res.metadata;

    assert_eq!(meta.variants[0].spaced_pascal, "Pascal Case");
    assert_eq!(meta.variants[1].spaced_pascal, "Mixed Case");
    assert_eq!(meta.variants[2].spaced_pascal, "Mixed Case2");
    assert_eq!(meta.variants[3].spaced_pascal, "Mixed Case Three");
    assert_eq!(meta.variants[4].spaced_pascal, "Mixed Case Four4");

    assert_eq!(meta.from_pascal_spaced("Pascal Case"), Some(0));
    assert_eq!(meta.from_pascal_spaced("Mixed Case"), Some(1));
    assert_eq!(meta.from_pascal_spaced("Mixed Case2"), Some(2));
    assert_eq!(meta.from_pascal_spaced("Mixed Case Three"), Some(3));
    assert_eq!(meta.from_pascal_spaced("Mixed Case Four4"), Some(4));
}

#[test]
fn pretty_print_1() {
    let decl = make_decl(
        "PrettyPrint",
        &["Debug", "PartialEq"],
        vec![unit_variant("A"), unit_variant("B"), unit_variant("C")],
        None,
    );
    let res = resolve_enum(&decl, ResolveMode::Simple).unwrap();
    assert_eq!(
        res.pretty,
        "#[derive(Debug, PartialEq)]\npub enum PrettyPrint {\n    A,\n    B,\n    C,\n}"
    );
}

#[test]
fn pretty_print_2() {
    let decl = make_decl(
        "PrettyPrint",
        &["Debug", "PartialEq"],
        vec![
            disc_variant("A", 10),
            disc_variant("B", 20),
            disc_variant("C", 30),
        ],
        None,
    );
    let res = resolve_enum(&decl, ResolveMode::Simple).unwrap();
    assert_eq!(
        res.pretty,
        "#[derive(Debug, PartialEq)]\n#[derive(Clone)]\npub enum PrettyPrint {\n    A = 10,\n    B = 20,\n    C = 30,\n}"
    );
}
