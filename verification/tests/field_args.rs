use juniper_eager_loading::code_gen::field_args::{
    EagerLoading, FieldArgs, HasMany, HasManyThrough, HasOne, OptionHasOne, RootModelField,
    Spanned,
};
use juniper_eager_loading::code_gen::names::{
    field_args_name, given_or_else, given_or_snake_cased, impl_context_name, joined,
};
use juniper_eager_loading::code_gen::rust_type::RustType;
use proc_macro2::Span;
use std::ops::Deref;

fn eager_loading() -> EagerLoading {
    EagerLoading {
        model: None,
        id: None,
        context: "Context".to_string(),
        error: "Box<dyn std::error::Error>".to_string(),
        root_model_field: None,
        print: false,
        primary_key_field: None,
    }
}

fn has_one() -> HasOne {
    HasOne {
        print: false,
        skip: false,
        field_arguments: None,
        foreign_key_field: None,
        root_model_field: None,
        graphql_field: None,
        default: true,
        child_primary_key_field: None,
    }
}

fn option_has_one() -> OptionHasOne {
    OptionHasOne {
        print: false,
        skip: false,
        foreign_key_field: None,
        root_model_field: None,
        graphql_field: None,
        default: true,
        field_arguments: None,
        child_primary_key_field: None,
    }
}

fn has_many() -> HasMany {
    HasMany {
        print: false,
        skip: false,
        field_arguments: None,
        foreign_key_field: None,
        foreign_key_optional: false,
        root_model_field: None,
        predicate_method: None,
        graphql_field: None,
    }
}

fn has_many_through() -> HasManyThrough {
    HasManyThrough {
        print: false,
        skip: false,
        field_arguments: None,
        model_field: None,
        join_model: Some("models::Employment".to_string()),
        foreign_key_field: None,
        predicate_method: None,
        graphql_field: None,
        child_primary_key_field_on_join_model: None,
        child_primary_key_field: None,
    }
}

fn company_type() -> RustType {
    RustType {
        text: "Company".to_string(),
        path: None,
    }
}

#[test]
fn eager_loading_defaults() {
    let args = eager_loading();
    let name = "User".to_string();
    assert_eq!(args.model(&name), "models::User");
    assert_eq!(args.id(), "i32");
    assert_eq!(args.root_model_field(&name), "user");
    assert_eq!(args.primary_key_field(), "id");
    assert_eq!(args.context(), "Context");
    assert_eq!(args.error(), "Box<dyn std::error::Error>");
    assert!(!args.print());
}

#[test]
fn eager_loading_given_values_win() {
    let mut args = eager_loading();
    args.model = Some("db::Person".to_string());
    args.id = Some("i64".to_string());
    args.root_model_field = Some("person".to_string());
    args.primary_key_field = Some("identifier".to_string());
    args.print = true;
    let name = "User".to_string();
    assert_eq!(args.model(&name), "db::Person");
    assert_eq!(args.id(), "i64");
    assert_eq!(args.root_model_field(&name), "person");
    assert_eq!(args.primary_key_field(), "identifier");
    assert!(args.print());
}

#[test]
fn root_model_field_is_snake_cased() {
    let args = eager_loading();
    assert_eq!(args.root_model_field(&"HomeCountry".to_string()), "home_country");
}

#[test]
fn child_primary_key_field_defaults_to_id() {
    assert_eq!(has_one().child_primary_key_field(), "id");
    assert_eq!(option_has_one().child_primary_key_field(), "id");
    assert_eq!(has_many_through().child_primary_key_field(), "id");
    let mut given = has_one();
    given.child_primary_key_field = Some("identifier".to_string());
    assert_eq!(given.child_primary_key_field(), "identifier");
}

#[test]
fn join_model_is_given() {
    let args = has_many_through();
    assert_eq!(args.join_model(Span::call_site()).unwrap(), "models::Employment");
}

#[test]
fn missing_join_model_is_an_error() {
    let mut args = has_many_through();
    args.join_model = None;
    let error = args.join_model(Span::call_site()).unwrap_err();
    assert_eq!(error.message, "`#[has_many_through]` missing `join_model`");
}

#[test]
fn model_field_defaults_to_the_child_type_in_snake_case() {
    let args = has_many_through();
    assert_eq!(args.model_field(&company_type()), "company");
    let mut given = has_many_through();
    given.model_field = Some("employer".to_string());
    assert_eq!(given.model_field(&company_type()), "employer");
}

#[test]
fn child_primary_key_field_on_join_model_defaults() {
    let args = has_many_through();
    assert_eq!(args.child_primary_key_field_on_join_model(&company_type()), "company_id");
    let mut model_field = has_many_through();
    model_field.model_field = Some("employer".to_string());
    assert_eq!(
        model_field.child_primary_key_field_on_join_model(&company_type()),
        "employer_id"
    );
    let mut given = has_many_through();
    given.child_primary_key_field_on_join_model = Some("firm_id".to_string());
    assert_eq!(given.child_primary_key_field_on_join_model(&company_type()), "firm_id");
}

#[test]
fn predicate_methods() {
    let mut args = has_many();
    assert_eq!(args.predicate_method(), &None);
    args.predicate_method = Some("is_active".to_string());
    assert_eq!(args.predicate_method(), &Some("is_active".to_string()));
    let mut through = has_many_through();
    through.predicate_method = Some("is_current".to_string());
    assert_eq!(through.predicate_method(), &Some("is_current".to_string()));
}

#[test]
fn spanned_holds_its_value() {
    let spanned = Spanned::new(Span::call_site(), 5);
    assert_eq!(*spanned.deref(), 5);
    let _span: Span = spanned.span();
}

#[test]
fn field_args_skip_and_print() {
    let mut args = has_one();
    args.skip = true;
    args.print = true;
    let field_args = FieldArgs::HasOne(Spanned::new(Span::call_site(), args));
    assert!(field_args.skip());
    assert!(field_args.print());
    let other = FieldArgs::HasMany(Spanned::new(Span::call_site(), has_many()));
    assert!(!other.skip());
    assert!(!other.print());
}

#[test]
fn field_args_graphql_field() {
    let mut args = option_has_one();
    args.graphql_field = Some("homeCountry".to_string());
    let field_args = FieldArgs::OptionHasOne(Spanned::new(Span::call_site(), args));
    assert_eq!(field_args.graphql_field(), &Some("homeCountry".to_string()));
}

#[test]
fn field_args_field_arguments_type() {
    let none = FieldArgs::HasMany(Spanned::new(Span::call_site(), has_many()));
    assert_eq!(none.field_arguments(), "()");
    let mut args = has_many_through();
    args.field_arguments = Some("CompaniesArgs".to_string());
    let given = FieldArgs::HasManyThrough(Spanned::new(Span::call_site(), Box::new(args)));
    assert_eq!(given.field_arguments(), "CompaniesArgs<'a>");
}

#[test]
fn field_args_foreign_key_field() {
    let default = FieldArgs::HasOne(Spanned::new(Span::call_site(), has_one()));
    assert_eq!(default.foreign_key_field(&"country".to_string()), "country_id");
    assert_eq!(default.foreign_key_field(&"User".to_string()), "user_id");
    let mut args = has_many();
    args.foreign_key_field = Some("owner_id".to_string());
    let given = FieldArgs::HasMany(Spanned::new(Span::call_site(), args));
    assert_eq!(given.foreign_key_field(&"User".to_string()), "owner_id");
}

#[test]
fn root_model_field_of_associations() {
    let field_name = "home_country".to_string();
    assert_eq!(has_one().root_model_field(&field_name), "home_country");
    assert_eq!(option_has_one().root_model_field(&"Club".to_string()), "club");
    let mut args = has_many();
    args.root_model_field = Some("car".to_string());
    assert_eq!(args.root_model_field(&"cars".to_string()), "car");
    assert_eq!(args.get_root_model_field(), &Some("car".to_string()));
}

#[test]
fn impl_context_name_camel_cases_the_field() {
    assert_eq!(
        impl_context_name(&"User".to_string(), &"home_country".to_string()),
        "EagerLoadingContextUserForHomeCountry"
    );
}

#[test]
fn field_args_name_appends_args() {
    assert_eq!(field_args_name(&"country".to_string()), "country_args");
}

#[test]
fn given_or_snake_cased_uses_heck() {
    assert_eq!(given_or_snake_cased(&None, &"CountryId".to_string()), "country_id");
    assert_eq!(
        given_or_snake_cased(&Some("given".to_string()), &"CountryId".to_string()),
        "given"
    );
}

#[test]
fn given_or_else_and_joined() {
    assert_eq!(given_or_else(&None, "fallback"), "fallback");
    assert_eq!(given_or_else(&Some("x".to_string()), "fallback"), "x");
    assert_eq!(joined("user", "_id"), "user_id");
}
