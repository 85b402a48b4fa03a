use enum_ext::expr::IntExpr;
use rand::{RngExt, SeedableRng};
use enum_ext::int_type::IntTypeTag;
use enum_ext::pipeline::resolve_enum;
use enum_ext::resolve::{EnumDeclaration, PayloadShape, ResolveMode, VariantSpec};

fn make_decl(
    name: &str,
    derives: &[&str],
    variants: Vec<VariantSpec>,
    int_type: Option<IntTypeTag>,
) -> EnumDeclaration {
    EnumDeclaration {
        name: name.to_string(),
        is_pub: false,
        derives: derives.iter().map(|d| d.to_string()).collect(),
        variants,
        int_type,
    }
}

fn unit_variant(name: &str) -> VariantSpec {
    VariantSpec {
        identifier: name.to_string(),
        discriminant: None,
        payload: PayloadShape::Empty,
    }
}

fn disc_variant(name: &str, value: u128) -> VariantSpec {
    VariantSpec {
        identifier: name.to_string(),
        discriminant: Some(IntExpr::Lit(value)),
        payload: PayloadShape::Empty,
    }
}

#[test]
fn test_snake_case_conversion() {
    let decl = make_decl(
        "TestEnum",
        &["Debug", "Clone", "PartialEq"],
        vec![
            unit_variant("SimpleVariant"),
            unit_variant("InQA"),
            unit_variant("FinalCodeReview"),
        ],
        None,
    );
    let res = resolve_enum(&decl, ResolveMode::Simple).unwrap();
    let meta = &res.metadata;

    assert_eq!(meta.variants[0].snake_case, "simple_variant");
    assert_eq!(meta.variants[1].snake_case, "in_qa");
    assert_eq!(meta.variants[2].snake_case, "final_code_review");

    assert_eq!(meta.from_snake_case("simple_variant"), Some(0));
    assert_eq!(meta.from_snake_case("in_qa"), Some(1));
    assert_eq!(meta.from_snake_case("final_code_review"), Some(2));
    assert_eq!(meta.from_snake_case("nonexistent"), None);
}

#[test]
fn test_kebab_case_conversion() {
    let decl = make_decl(
        "TestEnum",
        &["Debug", "Clone", "PartialEq"],
        vec![
            unit_variant("SimpleVariant"),
            unit_variant("InQA"),
            unit_variant("FinalCodeReview"),
        ],
        None,
    );
    let res = resolve_enum(&decl, ResolveMode::Simple).unwrap();
    let meta = &res.metadata;

    assert_eq!(meta.variants[0].kebab_case, "simple-variant");
    assert_eq!(meta.variants[1].kebab_case, "in-qa");
    assert_eq!(meta.variants[2].kebab_case, "final-code-review");

    assert_eq!(meta.from_kebab_case("simple-variant"), Some(0));
    assert_eq!(meta.from_kebab_case("in-qa"), Some(1));
    assert_eq!(meta.from_kebab_case("final-code-review"), Some(2));
    assert_eq!(meta.from_kebab_case("nonexistent"), None);
}

#[test]
fn test_neighbor_methods() {
    let decl = make_decl(
        "TestEnum",
        &["Debug", "Clone", "PartialEq"],
        vec![
            unit_variant("First"),
            unit_variant("Second"),
            unit_variant("Third"),
        ],
        None,
    );
    let res = resolve_enum(&decl, ResolveMode::Simple).unwrap();
    let meta = &res.metadata;

    // next (wrapping)
    assert_eq!(meta.next_ordinal(0), 1);
    assert_eq!(meta.next_ordinal(1), 2);
    assert_eq!(meta.next_ordinal(2), 0); // wraps around

    // previous (wrapping)
    assert_eq!(meta.previous_ordinal(0), 2); // wraps around
    assert_eq!(meta.previous_ordinal(1), 0);
    assert_eq!(meta.previous_ordinal(2), 1);

    // next_linear (no wrapping)
    assert_eq!(meta.next_linear(0), Some(1));
    assert_eq!(meta.next_linear(1), Some(2));
    assert_eq!(meta.next_linear(2), None); // no wrapping

    // previous_linear (no wrapping)
    assert_eq!(meta.previous_linear(0), None); // no wrapping
    assert_eq!(meta.previous_linear(1), Some(0));
    assert_eq!(meta.previous_linear(2), Some(1));
}

#[test]
fn test_validation_utilities() {
    let decl = make_decl(
        "TestEnum",
        &["Debug", "Clone", "PartialEq"],
        vec![
            unit_variant("First"),
            unit_variant("Second"),
            unit_variant("Third"),
        ],
        None,
    );
    let res = resolve_enum(&decl, ResolveMode::Simple).unwrap();
    let meta = &res.metadata;

    assert!(meta.is_first(0));
    assert!(!meta.is_first(1));
    assert!(!meta.is_first(2));

    assert!(!meta.is_last(0));
    assert!(!meta.is_last(1));
    assert!(meta.is_last(2));

    assert!(meta.comes_before(0, 1));
    assert!(meta.comes_before(0, 2));
    assert!(meta.comes_before(1, 2));
    assert!(!meta.comes_before(1, 0));

    assert!(meta.comes_after(1, 0));
    assert!(meta.comes_after(2, 0));
    assert!(meta.comes_after(2, 1));
    assert!(!meta.comes_after(0, 1));
}

#[test]
fn test_filtering_methods() {
    let decl = make_decl(
        "TestEnum",
        &["Debug", "Clone", "PartialEq"],
        vec![
            unit_variant("TestOne"),
            unit_variant("TestTwo"),
            unit_variant("SampleOne"),
            unit_variant("SampleTwo"),
            unit_variant("ExampleTest"),
        ],
        None,
    );
    let res = resolve_enum(&decl, ResolveMode::Simple).unwrap();
    let meta = &res.metadata;

    let containing_test = meta.variants_containing("Test");
    assert_eq!(containing_test.len(), 3);
    assert!(containing_test.contains(&0));
    assert!(containing_test.contains(&1));
    assert!(containing_test.contains(&4));

    let starting_with_test = meta.variants_starting_with("Test");
    assert_eq!(starting_with_test.len(), 2);
    assert!(starting_with_test.contains(&0));
    assert!(starting_with_test.contains(&1));

    let ending_with_one = meta.variants_ending_with("One");
    assert_eq!(ending_with_one.len(), 2);
    assert!(ending_with_one.contains(&0));
    assert!(ending_with_one.contains(&2));
}

#[test]
fn test_batch_operations() {
    let decl = make_decl(
        "TestEnum",
        &["Debug", "Clone", "PartialEq"],
        vec![
            unit_variant("First"),
            unit_variant("Second"),
            unit_variant("Third"),
            unit_variant("Fourth"),
            unit_variant("Fifth"),
        ],
        None,
    );
    let res = resolve_enum(&decl, ResolveMode::Simple).unwrap();
    let meta = &res.metadata;

    let slice_result = meta.slice(1, 4);
    assert_eq!(slice_result, vec![1, 2, 3]);
    assert_eq!(meta.variants[slice_result[0]].identifier, "Second");
    assert_eq!(meta.variants[slice_result[1]].identifier, "Third");
    assert_eq!(meta.variants[slice_result[2]].identifier, "Fourth");

    let range_result = meta.range(0..3);
    assert_eq!(range_result, vec![0, 1, 2]);

    let first_3 = meta.first_n(3);
    assert_eq!(first_3, vec![0, 1, 2]);

    let last_2 = meta.last_n(2);
    assert_eq!(last_2, vec![3, 4]);

    assert_eq!(meta.slice(10, 20), Vec::<usize>::new()); // out of bounds
    assert_eq!(meta.slice(3, 1), Vec::<usize>::new()); // start >= end
}

#[test]
fn test_metadata_extraction() {
    let decl = make_decl(
        "TestEnum",
        &["Debug", "Clone", "PartialEq"],
        vec![
            unit_variant("FirstVariant"),
            unit_variant("SecondVariant"),
            unit_variant("ThirdVariant"),
        ],
        None,
    );
    let res = resolve_enum(&decl, ResolveMode::Simple).unwrap();
    let meta = &res.metadata;

    assert_eq!(meta.variants[0].identifier, "FirstVariant");
    assert_eq!(meta.variants[1].identifier, "SecondVariant");
    assert_eq!(meta.variants[2].identifier, "ThirdVariant");

    let names = meta.variant_names();
    assert_eq!(names, vec!["FirstVariant", "SecondVariant", "ThirdVariant"]);
}

#[test]
fn test_random_selection() {
    let decl = make_decl(
        "TestEnum",
        &["Debug", "Clone", "PartialEq"],
        vec![
            unit_variant("First"),
            unit_variant("Second"),
            unit_variant("Third"),
        ],
        None,
    );
    let res = resolve_enum(&decl, ResolveMode::Simple).unwrap();
    let meta = &res.metadata;

    let random_ordinal = meta.random_ordinal();
    let random_variant = meta.variant_at(random_ordinal).unwrap();
    assert!(matches!(
        random_variant.identifier.as_str(),
        "First" | "Second" | "Third"
    ));

    let mut rng = rand::rngs::StdRng::seed_from_u64(42);
    let drawn: usize = rng.random_range(0..meta.count());
    let random_with_rng = meta.variant_at(drawn).unwrap();
    assert!(matches!(
        random_with_rng.identifier.as_str(),
        "First" | "Second" | "Third"
    ));
}
