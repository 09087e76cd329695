use juniper_eager_loading::code_gen::rust_type::{
    association_type, get_type_from_association, is_association_field, is_named,
    last_ident_in_type_segment, remove_possible_box_wrapper, GenericArgument, PathArguments,
    PathSegment, RustType,
};
use juniper_eager_loading::AssociationType;

fn plain(name: &str) -> RustType {
    RustType {
        text: name.to_string(),
        path: Some(vec![PathSegment {
            ident: name.to_string(),
            arguments: PathArguments::Empty,
        }]),
    }
}

fn generic(name: &str, inner: RustType) -> RustType {
    RustType {
        text: format!("{}<{}>", name, inner.text),
        path: Some(vec![PathSegment {
            ident: name.to_string(),
            arguments: PathArguments::AngleBracketed(vec![GenericArgument::Type(inner)]),
        }]),
    }
}

#[test]
fn association_type_of_each_association() {
    assert_eq!(
        association_type(&generic("HasOne", plain("Country"))),
        Some(AssociationType::HasOne)
    );
    assert_eq!(
        association_type(&generic("OptionHasOne", plain("Country"))),
        Some(AssociationType::OptionHasOne)
    );
    assert_eq!(
        association_type(&generic("HasMany", plain("Car"))),
        Some(AssociationType::HasMany)
    );
    assert_eq!(
        association_type(&generic("HasManyThrough", plain("Company"))),
        Some(AssociationType::HasManyThrough)
    );
}

#[test]
fn association_type_of_other_types_is_none() {
    assert_eq!(association_type(&plain("i32")), None);
    assert_eq!(association_type(&generic("Vec", plain("Car"))), None);
    let reference = RustType {
        text: "&str".to_string(),
        path: None,
    };
    assert_eq!(association_type(&reference), None);
}

#[test]
fn association_type_goes_by_the_last_segment() {
    let ty = RustType {
        text: "juniper_eager_loading::HasMany<Car>".to_string(),
        path: Some(vec![
            PathSegment {
                ident: "juniper_eager_loading".to_string(),
                arguments: PathArguments::Empty,
            },
            PathSegment {
                ident: "HasMany".to_string(),
                arguments: PathArguments::AngleBracketed(vec![GenericArgument::Type(plain(
                    "Car",
                ))]),
            },
        ]),
    };
    assert_eq!(association_type(&ty), Some(AssociationType::HasMany));
    assert!(is_association_field(&ty));
    assert_eq!(
        get_type_from_association(&ty).map(|inner| inner.text.clone()),
        Some("Car".to_string())
    );
}

#[test]
fn is_association_field_only_for_associations() {
    assert!(is_association_field(&generic("HasOne", plain("Country"))));
    assert!(!is_association_field(&plain("String")));
}

#[test]
fn last_ident_in_type_segment_reads_the_last_name() {
    let ty = generic("HasOne", plain("Country"));
    assert_eq!(last_ident_in_type_segment(&ty), Some(&"HasOne".to_string()));
    let no_path = RustType {
        text: "(i32, i32)".to_string(),
        path: None,
    };
    assert_eq!(last_ident_in_type_segment(&no_path), None);
    let empty_path = RustType {
        text: String::new(),
        path: Some(Vec::new()),
    };
    assert_eq!(last_ident_in_type_segment(&empty_path), None);
}

#[test]
fn remove_possible_box_wrapper_unwraps_a_box() {
    let boxed = generic("Box", plain("Country"));
    assert_eq!(remove_possible_box_wrapper(&boxed).text, "Country");
    let not_boxed = plain("Country");
    assert_eq!(remove_possible_box_wrapper(&not_boxed).text, "Country");
    let vec = generic("Vec", plain("Country"));
    assert_eq!(remove_possible_box_wrapper(&vec).text, "Vec<Country>");
}

#[test]
fn get_type_from_association_reads_the_inner_type() {
    let ty = generic("HasOne", plain("Country"));
    assert_eq!(
        get_type_from_association(&ty).map(|inner| inner.text.clone()),
        Some("Country".to_string())
    );
}

#[test]
fn get_type_from_association_removes_a_box() {
    let ty = generic("HasOne", generic("Box", plain("Country")));
    assert_eq!(
        get_type_from_association(&ty).map(|inner| inner.text.clone()),
        Some("Country".to_string())
    );
}

#[test]
fn get_type_from_association_of_other_types_is_none() {
    assert!(get_type_from_association(&generic("Vec", plain("Country"))).is_none());
    let no_arguments = plain("HasOne");
    assert!(get_type_from_association(&no_arguments).is_none());
    let lifetime_only = RustType {
        text: "HasMany<'a>".to_string(),
        path: Some(vec![PathSegment {
            ident: "HasMany".to_string(),
            arguments: PathArguments::AngleBracketed(vec![GenericArgument::Other]),
        }]),
    };
    assert!(get_type_from_association(&lifetime_only).is_none());
    let parenthesized = RustType {
        text: "HasMany(i32)".to_string(),
        path: Some(vec![PathSegment {
            ident: "HasMany".to_string(),
            arguments: PathArguments::Parenthesized,
        }]),
    };
    assert!(get_type_from_association(&parenthesized).is_none());
}

#[test]
fn is_named_compares_the_text() {
    assert!(is_named(&"Box".to_string(), "Box"));
    assert!(!is_named(&"Boxed".to_string(), "Box"));
}
