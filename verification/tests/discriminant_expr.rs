use enum_ext::config::parse_enum_def_args;
use enum_ext::expr::{IntExpr, IntVal};
use enum_ext::int_type::IntTypeTag;
use enum_ext::pipeline::resolve_enum;
use enum_ext::resolve::{EnumDeclaration, PayloadShape, ResolveMode, VariantSpec};

fn expr_variant(name: &str, expr: IntExpr) -> VariantSpec {
    VariantSpec {
        identifier: name.to_string(),
        discriminant: Some(expr),
        payload: PayloadShape::Empty,
    }
}

fn make_decl(
    name: &str,
    derives: &[&str],
    variants: Vec<VariantSpec>,
    int_type: Option<IntTypeTag>,
) -> EnumDeclaration {
    EnumDeclaration {
        name: name.to_string(),
        is_pub: true,
        derives: derives.iter().map(|d| d.to_string()).collect(),
        variants,
        int_type,
    }
}

fn lit(v: u128) -> Box<IntExpr> {
    Box::new(IntExpr::Lit(v))
}

fn pos_val(mag: u128) -> IntVal {
    IntVal { neg: false, mag }
}

#[test]
fn discriminant_expression_proc() {
    let decl = make_decl(
        "Test",
        &["Debug", "PartialEq"],
        vec![
            expr_variant("X25", IntExpr::Mul(lit(5), lit(5))),
            expr_variant("Y26", IntExpr::Add(lit(13), lit(13))),
            expr_variant("Z100", IntExpr::Mul(lit(10), Box::new(IntExpr::Add(lit(5), lit(5))))),
        ],
        None,
    );
    let res = resolve_enum(&decl, ResolveMode::Simple).unwrap();
    let meta = &res.metadata;

    assert_eq!(meta.variants[0].discriminant_value, Some(pos_val(25)));
    assert_eq!(meta.variants[1].discriminant_value, Some(pos_val(26)));
    assert_eq!(meta.variants[2].discriminant_value, Some(pos_val(100)));

    assert_eq!(meta.from_int(pos_val(25)), Some(0));
    assert_eq!(meta.from_int(pos_val(26)), Some(1));
    assert_eq!(meta.from_int(pos_val(100)), Some(2));
    assert_eq!(meta.from_int(pos_val(27)), None);
}

#[test]
fn discriminant_expression_attr() {
    // The attribute invocation path: an absent configuration defaults the
    // discriminant type to usize.
    let args = parse_enum_def_args(&vec![]).unwrap();
    assert!(args.int_type.is_none());
    let decl = make_decl(
        "Test",
        &["Debug", "PartialEq"],
        vec![
            expr_variant("X25", IntExpr::Mul(lit(5), lit(5))),
            expr_variant("Y26", IntExpr::Add(lit(13), lit(13))),
            expr_variant("Z100", IntExpr::Mul(lit(10), Box::new(IntExpr::Add(lit(5), lit(5))))),
        ],
        args.int_type,
    );
    let res = resolve_enum(&decl, ResolveMode::Simple).unwrap();
    let meta = &res.metadata;

    assert_eq!(meta.int_type, IntTypeTag::Usize);
    assert_eq!(meta.variants[0].discriminant_value, Some(pos_val(25)));
    assert_eq!(meta.variants[1].discriminant_value, Some(pos_val(26)));
    assert_eq!(meta.variants[2].discriminant_value, Some(pos_val(100)));

    assert_eq!(meta.from_int(pos_val(25)), Some(0));
    assert_eq!(meta.from_int(pos_val(26)), Some(1));
    assert_eq!(meta.from_int(pos_val(100)), Some(2));
    assert_eq!(meta.from_int(pos_val(27)), None);
}

#[test]
fn discriminant_expression_with_inttype() {
    let args =
        parse_enum_def_args(&vec![("IntType".to_string(), "i32".to_string())]).unwrap();
    assert_eq!(args.int_type, Some(IntTypeTag::I32));
    let decl = make_decl(
        "T",
        &["Debug", "PartialEq"],
        vec![
            expr_variant("A", IntExpr::Mul(lit(3), lit(3))),
            expr_variant("B", IntExpr::Add(lit(0x10), lit(5))),
        ],
        args.int_type,
    );
    let res = resolve_enum(&decl, ResolveMode::Simple).unwrap();
    let meta = &res.metadata;

    assert_eq!(meta.int_type, IntTypeTag::I32);
    assert_eq!(meta.from_int(pos_val(9)), Some(0));
    assert_eq!(meta.from_int(pos_val(21)), Some(1));
    assert_eq!(meta.variants[0].discriminant_value, Some(pos_val(9)));
    assert_eq!(meta.variants[1].discriminant_value, Some(pos_val(21)));
}
