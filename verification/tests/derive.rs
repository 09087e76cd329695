use juniper_eager_loading::code_gen::derive::{
    DeriveData, Field, FieldImpl, IsChildOf, LoadChildren,
};
use juniper_eager_loading::code_gen::field_args::{
    Abort, EagerLoading, HasMany, HasManyThrough, HasOne, OptionHasOne,
};
use juniper_eager_loading::code_gen::rust_type::{
    GenericArgument, PathArguments, PathSegment, RustType,
};
use proc_macro2::Span;

fn plain(name: &str) -> RustType {
    RustType {
        text: name.to_string(),
        path: Some(vec![PathSegment {
            ident: name.to_string(),
            arguments: PathArguments::Empty,
        }]),
    }
}

fn generic(name: &str, inner: RustType) -> RustType {
    RustType {
        text: format!("{}<{}>", name, inner.text),
        path: Some(vec![PathSegment {
            ident: name.to_string(),
            arguments: PathArguments::AngleBracketed(vec![GenericArgument::Type(inner)]),
        }]),
    }
}

fn not_there() -> Abort {
    Abort {
        span: Span::call_site(),
        message: "attribute not present".to_string(),
    }
}

fn field(name: &str, ty: RustType) -> Field {
    Field {
        ident: Some(name.to_string()),
        ty,
        span: Span::call_site(),
        has_one: Err(not_there()),
        option_has_one: Err(not_there()),
        has_many: Err(not_there()),
        has_many_through: Err(not_there()),
    }
}

fn has_one_args() -> HasOne {
    HasOne {
        print: false,
        skip: false,
        field_arguments: None,
        foreign_key_field: None,
        root_model_field: None,
        graphql_field: None,
        default: true,
        child_primary_key_field: None,
    }
}

fn option_has_one_args() -> OptionHasOne {
    OptionHasOne {
        print: false,
        skip: false,
        foreign_key_field: None,
        root_model_field: None,
        graphql_field: None,
        default: true,
        field_arguments: None,
        child_primary_key_field: None,
    }
}

fn has_many_args() -> HasMany {
    HasMany {
        print: false,
        skip: false,
        field_arguments: None,
        foreign_key_field: None,
        foreign_key_optional: false,
        root_model_field: Some("car".to_string()),
        predicate_method: None,
        graphql_field: None,
    }
}

fn has_many_through_args() -> HasManyThrough {
    HasManyThrough {
        print: false,
        skip: false,
        field_arguments: None,
        model_field: None,
        join_model: Some("models::Employment".to_string()),
        foreign_key_field: None,
        predicate_method: None,
        graphql_field: None,
        child_primary_key_field_on_join_model: None,
        child_primary_key_field: None,
    }
}

fn user_struct() -> DeriveData {
    let mut country = field("country", generic("HasOne", generic("Box", plain("Country"))));
    country.has_one = Ok(has_one_args());
    let mut club = field("club", generic("OptionHasOne", plain("Club")));
    club.option_has_one = Ok(option_has_one_args());
    let mut cars = field("cars", generic("HasMany", plain("Car")));
    cars.has_many = Ok(has_many_args());
    let mut companies = field("companies", generic("HasManyThrough", plain("Company")));
    companies.has_many_through = Ok(has_many_through_args());
    DeriveData {
        struct_name: "User".to_string(),
        fields: vec![
            field("user", plain("User")),
            country,
            club,
            cars,
            companies,
        ],
        args: EagerLoading {
            model: None,
            id: None,
            context: "Context".to_string(),
            error: "Error".to_string(),
            root_model_field: None,
            print: false,
            primary_key_field: None,
        },
    }
}

fn generated(field_impl: &Option<FieldImpl>) -> &juniper_eager_loading::code_gen::derive::ChildrenOfTypeImpl {
    match field_impl {
        Some(FieldImpl::Generated(imp)) => imp,
        other => panic!("expected generated impls, got {:?}", other),
    }
}

#[test]
fn graphql_node_for_model_impl() {
    let data = user_struct();
    let imp = data.gen_graphql_node_for_model();
    assert_eq!(imp.struct_name, "User");
    assert_eq!(imp.model, "models::User");
    assert_eq!(imp.id, "i32");
    assert_eq!(imp.context, "Context");
    assert_eq!(imp.error, "Error");
    let setters: Vec<(Option<String>, bool)> = imp
        .field_setters
        .iter()
        .map(|setter| (setter.ident.clone(), setter.association))
        .collect();
    assert_eq!(
        setters,
        vec![
            (Some("user".to_string()), false),
            (Some("country".to_string()), true),
            (Some("club".to_string()), true),
            (Some("cars".to_string()), true),
            (Some("companies".to_string()), true),
        ]
    );
}

#[test]
fn eager_load_all_children_calls_each_association() {
    let data = user_struct();
    let imp = data.gen_eager_load_all_children().unwrap();
    assert_eq!(imp.struct_name, "User");
    assert_eq!(imp.calls.len(), 5);
    assert!(imp.calls[0].is_none());
    let country = imp.calls[1].as_ref().unwrap();
    assert_eq!(country.inner_type, "Country");
    assert_eq!(country.field_name, "country");
    assert_eq!(country.field_args_name, "country_args");
    assert_eq!(country.impl_context, "EagerLoadingContextUserForCountry");
    let companies = imp.calls[4].as_ref().unwrap();
    assert_eq!(companies.inner_type, "Company");
    assert_eq!(companies.impl_context, "EagerLoadingContextUserForCompanies");
}

#[test]
fn eager_load_call_uses_the_graphql_field_name() {
    let mut data = user_struct();
    let mut args = has_one_args();
    args.graphql_field = Some("homeCountry".to_string());
    data.fields[1].has_one = Ok(args);
    let call = data
        .gen_eager_load_all_children_for_field(&data.fields[1])
        .unwrap()
        .unwrap();
    assert_eq!(call.field_name, "home_country");
    assert_eq!(call.field_args_name, "home_country_args");
    assert_eq!(call.impl_context, "EagerLoadingContextUserForCountry");
}

#[test]
fn has_one_impls() {
    let data = user_struct();
    let impls = data.gen_eager_load_children_of_type().unwrap();
    assert!(impls[0].is_none());
    let imp = generated(&impls[1]);
    assert_eq!(imp.context, "EagerLoadingContextUserForCountry");
    assert_eq!(imp.struct_name, "User");
    assert_eq!(imp.inner_type, "Country");
    assert_eq!(imp.join_model, "()");
    assert_eq!(imp.field_arguments, "()");
    assert_eq!(imp.load_children.inner_type, "Country");
    match &imp.load_children.body {
        LoadChildren::ByForeignKeys { foreign_key_field } => {
            assert_eq!(foreign_key_field, "country_id")
        }
        other => panic!("unexpected {:?}", other),
    }
    match &imp.is_child_of.body {
        IsChildOf::ParentHoldsKey {
            root_model_field,
            foreign_key_field,
            child_root_model_field,
            child_primary_key_field,
        } => {
            assert_eq!(root_model_field, "user");
            assert_eq!(foreign_key_field, "country_id");
            assert_eq!(child_root_model_field, "country");
            assert_eq!(child_primary_key_field, "id");
        }
        other => panic!("unexpected {:?}", other),
    }
    assert_eq!(imp.association.field_name, "country");
    assert_eq!(imp.association.association_type, "HasOne<Box<Country>>");
    assert_eq!(imp.association.inner_type, "Country");
    assert!(!imp.print);
}

#[test]
fn option_has_one_impls() {
    let data = user_struct();
    let impls = data.gen_eager_load_children_of_type().unwrap();
    let imp = generated(&impls[2]);
    match &imp.load_children.body {
        LoadChildren::ByOptionalForeignKeys { foreign_key_field } => {
            assert_eq!(foreign_key_field, "club_id")
        }
        other => panic!("unexpected {:?}", other),
    }
    match &imp.is_child_of.body {
        IsChildOf::ParentHoldsOptionalKey {
            root_model_field,
            foreign_key_field,
            child_root_model_field,
            child_primary_key_field,
        } => {
            assert_eq!(root_model_field, "user");
            assert_eq!(foreign_key_field, "club_id");
            assert_eq!(child_root_model_field, "club");
            assert_eq!(child_primary_key_field, "id");
        }
        other => panic!("unexpected {:?}", other),
    }
}

#[test]
fn has_many_impls() {
    let data = user_struct();
    let impls = data.gen_eager_load_children_of_type().unwrap();
    let imp = generated(&impls[3]);
    assert_eq!(imp.inner_type, "Car");
    match &imp.load_children.body {
        LoadChildren::FromParentModels { predicate_method } => assert_eq!(predicate_method, &None),
        other => panic!("unexpected {:?}", other),
    }
    match &imp.is_child_of.body {
        IsChildOf::ChildHoldsKey {
            root_model_field,
            primary_key_field,
            child_root_model_field,
            foreign_key_field,
            foreign_key_optional,
        } => {
            assert_eq!(root_model_field, "user");
            assert_eq!(primary_key_field, "id");
            assert_eq!(child_root_model_field, "car");
            assert_eq!(foreign_key_field, "user_id");
            assert!(!foreign_key_optional);
        }
        other => panic!("unexpected {:?}", other),
    }
}

#[test]
fn has_many_through_impls() {
    let data = user_struct();
    let impls = data.gen_eager_load_children_of_type().unwrap();
    let imp = generated(&impls[4]);
    assert_eq!(imp.join_model, "models::Employment");
    match &imp.load_children.body {
        LoadChildren::ThroughJoinModels {
            join_model,
            predicate_method,
            model_id_field,
            child_primary_key_field,
        } => {
            assert_eq!(child_primary_key_field, "id");
            assert_eq!(join_model, "models::Employment");
            assert_eq!(predicate_method, &None);
            assert_eq!(model_id_field, "company_id");
        }
        other => panic!("unexpected {:?}", other),
    }
    match &imp.is_child_of.body {
        IsChildOf::JoinModelHoldsKeys {
            root_model_field,
            primary_key_field,
            foreign_key_field,
            model_id_field,
            model_field,
            child_primary_key_field,
        } => {
            assert_eq!(root_model_field, "user");
            assert_eq!(primary_key_field, "id");
            assert_eq!(child_primary_key_field, "id");
            assert_eq!(foreign_key_field, "user_id");
            assert_eq!(model_id_field, "company_id");
            assert_eq!(model_field, "company");
        }
        other => panic!("unexpected {:?}", other),
    }
}

#[test]
fn given_attributes_are_used() {
    let mut data = user_struct();
    data.args.root_model_field = Some("person".to_string());
    let mut args = has_one_args();
    args.foreign_key_field = Some("nation_id".to_string());
    args.root_model_field = Some("nation".to_string());
    args.field_arguments = Some("CountryArgs".to_string());
    args.print = true;
    data.fields[1].has_one = Ok(args);
    let imp_option = data.gen_eager_load_children_of_type_for_field(&data.fields[1]);
    let imp = match imp_option {
        Some(Ok(FieldImpl::Generated(imp))) => imp,
        other => panic!("unexpected {:?}", other),
    };
    assert_eq!(imp.field_arguments, "CountryArgs<'a>");
    assert!(imp.print);
    match &imp.is_child_of.body {
        IsChildOf::ParentHoldsKey {
            root_model_field,
            foreign_key_field,
            child_root_model_field,
            ..
        } => {
            assert_eq!(root_model_field, "person");
            assert_eq!(foreign_key_field, "nation_id");
            assert_eq!(child_root_model_field, "nation");
        }
        other => panic!("unexpected {:?}", other),
    }
}

#[test]
fn skipped_field_generates_nothing() {
    let mut data = user_struct();
    let mut args = has_many_args();
    args.skip = true;
    data.fields[3].has_many = Ok(args);
    let impls = data.gen_eager_load_children_of_type().unwrap();
    assert!(matches!(impls[3], Some(FieldImpl::Skipped(None))));
}

#[test]
fn skipped_has_many_through_needs_no_join_model() {
    let mut data = user_struct();
    let mut args = has_many_through_args();
    args.skip = true;
    args.join_model = None;
    data.fields[4].has_many_through = Ok(args);
    let impls = data.gen_eager_load_children_of_type().unwrap();
    assert!(matches!(impls[4], Some(FieldImpl::Skipped(None))));
}

#[test]
fn missing_join_model_stops_code_generation() {
    let mut data = user_struct();
    let mut args = has_many_through_args();
    args.join_model = None;
    data.fields[4].has_many_through = Ok(args);
    let error = data.build_derive_output().unwrap_err();
    assert_eq!(error.message, "`#[has_many_through]` missing `join_model`");
}

#[test]
fn unnamed_association_field_is_an_error() {
    let mut data = user_struct();
    data.fields[2].ident = None;
    let error = data.gen_eager_load_all_children().unwrap_err();
    assert_eq!(error.message, "Found association field without a name");
    let error = data.build_derive_output().unwrap_err();
    assert_eq!(error.message, "Found association field without a name");
}

#[test]
fn attribute_error_is_passed_on() {
    let mut data = user_struct();
    data.fields[3].has_many = Err(Abort {
        span: Span::call_site(),
        message: "unknown attribute `foo`".to_string(),
    });
    let error = data.build_derive_output().unwrap_err();
    assert_eq!(error.message, "unknown attribute `foo`");
}

#[test]
fn parse_field_args_of_a_plain_field_is_none() {
    let data = user_struct();
    assert!(data.parse_field_args(&data.fields[0]).is_none());
}

#[test]
fn parse_field_args_reads_the_defaults() {
    let data = user_struct();
    let parsed = data.parse_field_args(&data.fields[1]).unwrap().unwrap();
    assert_eq!(parsed.field_name, "country");
    assert_eq!(parsed.inner_type.text, "Country");
    assert_eq!(parsed.foreign_key_field_default, "country");
    let parsed = data.parse_field_args(&data.fields[3]).unwrap().unwrap();
    assert_eq!(parsed.foreign_key_field_default, "User");
}

#[test]
fn build_derive_output_puts_it_together() {
    let mut data = user_struct();
    data.args.print = true;
    data.args.model = Some("db::User".to_string());
    data.args.id = Some("i64".to_string());
    let out = data.build_derive_output().unwrap();
    assert!(out.print_graphql_node_for_model);
    assert!(out.print_eager_load_all_children);
    assert_eq!(out.graphql_node_for_model.model, "db::User");
    assert_eq!(out.graphql_node_for_model.id, "i64");
    assert_eq!(out.eager_load_all_children.calls.len(), 5);
    assert_eq!(out.children_of_type.len(), 5);
    assert!(out.children_of_type[0].is_none());
}

#[test]
fn derive_data_getters() {
    let data = user_struct();
    assert_eq!(data.struct_name(), "User");
    assert_eq!(data.model(), "models::User");
    assert_eq!(data.id(), "i32");
    assert_eq!(data.context(), "Context");
    assert_eq!(data.error(), "Error");
    assert_eq!(data.root_model_field(), "user");
    assert_eq!(data.struct_fields().len(), 5);
    assert_eq!(
        data.field_impl_context_name(&data.fields[3]),
        "EagerLoadingContextUserForCars"
    );
}

#[test]
fn renamed_keys_are_used() {
    let mut data = user_struct();
    data.args.primary_key_field = Some("own_user_id".to_string());
    let mut country = has_one_args();
    country.child_primary_key_field = Some("own_country_id".to_string());
    country.foreign_key_field = Some("referenced_country_id".to_string());
    data.fields[1].has_one = Ok(country);
    let mut club = option_has_one_args();
    club.child_primary_key_field = Some("own_club_id".to_string());
    data.fields[2].option_has_one = Ok(club);
    let mut cars = has_many_args();
    cars.foreign_key_field = Some("referenced_user_id".to_string());
    data.fields[3].has_many = Ok(cars);
    let mut companies = has_many_through_args();
    companies.child_primary_key_field = Some("own_company_id".to_string());
    companies.child_primary_key_field_on_join_model = Some("referenced_company_id".to_string());
    companies.foreign_key_field = Some("referenced_user_id".to_string());
    data.fields[4].has_many_through = Ok(companies);
    let impls = data.gen_eager_load_children_of_type().unwrap();
    match &generated(&impls[1]).is_child_of.body {
        IsChildOf::ParentHoldsKey {
            root_model_field,
            foreign_key_field,
            child_root_model_field,
            child_primary_key_field,
        } => {
            assert_eq!(root_model_field, "user");
            assert_eq!(foreign_key_field, "referenced_country_id");
            assert_eq!(child_root_model_field, "country");
            assert_eq!(child_primary_key_field, "own_country_id");
        }
        other => panic!("unexpected {:?}", other),
    }
    match &generated(&impls[2]).is_child_of.body {
        IsChildOf::ParentHoldsOptionalKey {
            child_primary_key_field,
            ..
        } => assert_eq!(child_primary_key_field, "own_club_id"),
        other => panic!("unexpected {:?}", other),
    }
    match &generated(&impls[3]).is_child_of.body {
        IsChildOf::ChildHoldsKey {
            primary_key_field,
            foreign_key_field,
            ..
        } => {
            assert_eq!(primary_key_field, "own_user_id");
            assert_eq!(foreign_key_field, "referenced_user_id");
        }
        other => panic!("unexpected {:?}", other),
    }
    let imp = generated(&impls[4]);
    match &imp.is_child_of.body {
        IsChildOf::JoinModelHoldsKeys {
            primary_key_field,
            foreign_key_field,
            model_id_field,
            child_primary_key_field,
            ..
        } => {
            assert_eq!(primary_key_field, "own_user_id");
            assert_eq!(foreign_key_field, "referenced_user_id");
            assert_eq!(model_id_field, "referenced_company_id");
            assert_eq!(child_primary_key_field, "own_company_id");
        }
        other => panic!("unexpected {:?}", other),
    }
    match &imp.load_children.body {
        LoadChildren::ThroughJoinModels {
            model_id_field,
            child_primary_key_field,
            ..
        } => {
            assert_eq!(model_id_field, "referenced_company_id");
            assert_eq!(child_primary_key_field, "own_company_id");
        }
        other => panic!("unexpected {:?}", other),
    }
}

#[test]
fn printing_is_off_unless_asked_for() {
    let out = user_struct().build_derive_output().unwrap();
    assert!(!out.print_graphql_node_for_model);
    assert!(!out.print_eager_load_all_children);
}

#[test]
fn skipped_and_printed_field_keeps_its_impls_for_printing() {
    let mut data = user_struct();
    let mut args = has_many_args();
    args.skip = true;
    args.print = true;
    data.fields[3].has_many = Ok(args);
    let impls = data.gen_eager_load_children_of_type().unwrap();
    match &impls[3] {
        Some(FieldImpl::Skipped(Some(imp))) => {
            assert_eq!(imp.inner_type, "Car");
            assert!(imp.print);
        }
        other => panic!("unexpected {:?}", other),
    }
}

#[test]
fn skipped_and_printed_field_without_join_model_prints_nothing() {
    let mut data = user_struct();
    let mut args = has_many_through_args();
    args.skip = true;
    args.print = true;
    args.join_model = None;
    data.fields[4].has_many_through = Ok(args);
    let impls = data.gen_eager_load_children_of_type().unwrap();
    assert!(matches!(impls[4], Some(FieldImpl::Skipped(None))));
}

#[test]
fn only_has_many_through_has_a_join_model_of_its_own() {
    let data = user_struct();
    let impls = data.gen_eager_load_children_of_type().unwrap();
    assert!(generated(&impls[1]).join_model_is_unit);
    assert!(generated(&impls[2]).join_model_is_unit);
    assert!(generated(&impls[3]).join_model_is_unit);
    assert!(!generated(&impls[4]).join_model_is_unit);
}
