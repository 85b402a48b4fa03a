use enum_ext::cases::split_pascal_case;

#[test]
fn pascal_case() {
    assert_eq!(split_pascal_case("MyEnum"), "My Enum");
    assert_eq!(split_pascal_case("InQA"), "In QA");
}
