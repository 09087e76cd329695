use vstd::prelude::*;

use crate::code_gen::names::{
    copy_of, given_or, given_or_else, given_or_snake_case, given_or_snake_cased, joined, view_of,
};
use crate::code_gen::rust_type::RustType;
use proc_macro2::Span;
use std::ops::Deref;

verus! {

/// A region of source code; errors point at it.
#[verifier::external_type_specification]
#[verifier::external_body]
pub struct ExSpan(Span);

/// An error that stops code generation, with the place in the source it is about.
#[derive(Debug)]
pub struct Abort {
    /// Where the error is.
    pub span: Span,
    /// What is wrong.
    pub message: String,
}

/// The arguments of `#[eager_loading(...)]` on a GraphQL struct.
#[derive(Debug)]
pub struct EagerLoading {
    /// The model type, when it is not `models::{name of struct}`.
    pub model: Option<String>,
    /// The id type, when it is not `i32`.
    pub id: Option<String>,
    /// The context type.
    pub context: String,
    /// The error type.
    pub error: String,
    /// The field that holds the model, when it is not the struct's name in snake case.
    pub root_model_field: Option<String>,
    /// Print the generated code.
    pub print: bool,
    /// The primary key field of the model, when it is not `id`.
    pub primary_key_field: Option<String>,
}

impl EagerLoading {
    /// The context type.
    pub fn context(&self) -> (r: String)
        ensures
            r@ == self.context@,
    {
        copy_of(&self.context)
    }

    /// The error type.
    pub fn error(&self) -> (r: String)
        ensures
            r@ == self.error@,
    {
        copy_of(&self.error)
    }

    /// The model type: `models::{name of struct}` unless given.
    pub fn model(&self, struct_name: &String) -> (r: String)
        ensures
            r@ == given_or(view_of(self.model), "models::"@ + struct_name@),
    {
        match &self.model {
            Some(inner) => copy_of(inner),
            None => {
                proof {
                    reveal_strlit("models::");
                }
                joined("models::", struct_name.as_str())
            },
        }
    }

    /// The id type: `i32` unless given.
    pub fn id(&self) -> (r: String)
        ensures
            r@ == given_or(view_of(self.id), "i32"@),
    {
        proof {
            reveal_strlit("i32");
        }
        given_or_else(&self.id, "i32")
    }

    /// The field that holds the model: the struct's name in snake case unless given.
    pub fn root_model_field(&self, struct_name: &String) -> (r: String)
        ensures
            r@ == given_or_snake_case(view_of(self.root_model_field), struct_name@),
    {
        given_or_snake_cased(&self.root_model_field, struct_name)
    }

    /// Print the generated code?
    pub fn print(&self) -> (r: bool)
        ensures
            r == self.print,
    {
        self.print
    }

    /// The primary key field of the model: `id` unless given.
    pub fn primary_key_field(&self) -> (r: String)
        ensures
            r@ == given_or(view_of(self.primary_key_field), "id"@),
    {
        proof {
            reveal_strlit("id");
        }
        given_or_else(&self.primary_key_field, "id")
    }
}

/// The arguments of `#[has_one(...)]` on a field.
#[derive(Debug)]
pub struct HasOne {
    /// Print the generated code.
    pub print: bool,
    /// Generate nothing for this field.
    pub skip: bool,
    /// The type of the arguments the GraphQL field takes.
    pub field_arguments: Option<String>,
    /// The foreign key field, when it is not `{field}_id`.
    pub foreign_key_field: Option<String>,
    /// The field of the child that holds its model, when it is not the field's name.
    pub root_model_field: Option<String>,
    /// The name of the field in the GraphQL schema, when it is not the field's name.
    pub graphql_field: Option<String>,
    /// Use the default for every attribute not given.
    pub default: bool,
    /// The primary key field of the child model, when it is not `id`.
    pub child_primary_key_field: Option<String>,
}

impl HasOne {
    /// The primary key field of the child model: `id` unless given.
    pub fn child_primary_key_field(&self) -> (r: String)
        ensures
            r@ == given_or(view_of(self.child_primary_key_field), "id"@),
    {
        proof {
            reveal_strlit("id");
        }
        given_or_else(&self.child_primary_key_field, "id")
    }
}

/// The arguments of `#[option_has_one(...)]` on a field.
#[derive(Debug)]
pub struct OptionHasOne {
    /// Print the generated code.
    pub print: bool,
    /// Generate nothing for this field.
    pub skip: bool,
    /// The foreign key field, when it is not `{field}_id`.
    pub foreign_key_field: Option<String>,
    /// The field of the child that holds its model, when it is not the field's name.
    pub root_model_field: Option<String>,
    /// The name of the field in the GraphQL schema, when it is not the field's name.
    pub graphql_field: Option<String>,
    /// Use the default for every attribute not given.
    pub default: bool,
    /// The type of the arguments the GraphQL field takes.
    pub field_arguments: Option<String>,
    /// The primary key field of the child model, when it is not `id`.
    pub child_primary_key_field: Option<String>,
}

impl OptionHasOne {
    /// The primary key field of the child model: `id` unless given.
    pub fn child_primary_key_field(&self) -> (r: String)
        ensures
            r@ == given_or(view_of(self.child_primary_key_field), "id"@),
    {
        proof {
            reveal_strlit("id");
        }
        given_or_else(&self.child_primary_key_field, "id")
    }
}

/// The arguments of `#[has_many(...)]` on a field.
#[derive(Debug)]
pub struct HasMany {
    /// Print the generated code.
    pub print: bool,
    /// Generate nothing for this field.
    pub skip: bool,
    /// The type of the arguments the GraphQL field takes.
    pub field_arguments: Option<String>,
    /// The foreign key field on the child, when it is not `{struct}_id`.
    pub foreign_key_field: Option<String>,
    /// The foreign key on the child is optional.
    pub foreign_key_optional: bool,
    /// The field of the child that holds its model, when it is not the field's name.
    pub root_model_field: Option<String>,
    /// A method of the child model that tells whether to keep it.
    pub predicate_method: Option<String>,
    /// The name of the field in the GraphQL schema, when it is not the field's name.
    pub graphql_field: Option<String>,
}

impl HasMany {
    /// A method of the child model that tells whether to keep it.
    pub fn predicate_method(&self) -> (r: &Option<String>)
        ensures
            *r == self.predicate_method,
    {
        &self.predicate_method
    }
}

/// The arguments of `#[has_many_through(...)]` on a field.
#[derive(Debug)]
pub struct HasManyThrough {
    /// Print the generated code.
    pub print: bool,
    /// Generate nothing for this field.
    pub skip: bool,
    /// The type of the arguments the GraphQL field takes.
    pub field_arguments: Option<String>,
    /// The field of the child that holds its model, when it is not the child type in snake case.
    pub model_field: Option<String>,
    /// The model that pairs parents with children.
    pub join_model: Option<String>,
    /// The field of the join model that holds the parent's key, when it is not `{struct}_id`.
    pub foreign_key_field: Option<String>,
    /// A method of the join model that tells whether to keep it.
    pub predicate_method: Option<String>,
    /// The name of the field in the GraphQL schema, when it is not the field's name.
    pub graphql_field: Option<String>,
    /// The field of the join model that holds the child's key, when it is not
    /// `{model field}_id`.
    pub child_primary_key_field_on_join_model: Option<String>,
    /// The primary key field of the child model, when it is not `id`.
    pub child_primary_key_field: Option<String>,
}

/// The message when `#[has_many_through]` lacks its join model.
pub open spec fn missing_join_model_message() -> Seq<char> {
    "`#[has_many_through]` missing `join_model`"@
}

impl HasManyThrough {
    /// The join model; it must be given.
    pub fn join_model(&self, span: Span) -> (r: Result<String, Abort>)
        ensures
            match (r, self.join_model) {
                (Ok(join_model), Some(given)) => join_model@ == given@,
                (Err(abort), None) => abort.span == span && abort.message@
                    == missing_join_model_message(),
                _ => false,
            },
    {
        match &self.join_model {
            Some(join_model) => Ok(copy_of(join_model)),
            None => {
                proof {
                    reveal_strlit("`#[has_many_through]` missing `join_model`");
                }
                Err(
                    Abort {
                        span,
                        message: String::from_str("`#[has_many_through]` missing `join_model`"),
                    },
                )
            },
        }
    }

    /// The field of the child that holds its model: the child type in snake case unless given.
    pub fn model_field(&self, inner_type: &RustType) -> (r: String)
        ensures
            r@ == given_or_snake_case(view_of(self.model_field), inner_type.text@),
    {
        given_or_snake_cased(&self.model_field, &inner_type.text)
    }

    /// The field of the join model that holds the child's key: `{model field}_id` unless given.
    pub fn child_primary_key_field_on_join_model(&self, inner_type: &RustType) -> (r: String)
        ensures
            r@ == given_or(
                view_of(self.child_primary_key_field_on_join_model),
                given_or_snake_case(view_of(self.model_field), inner_type.text@) + "_id"@,
            ),
    {
        match &self.child_primary_key_field_on_join_model {
            Some(id) => copy_of(id),
            None => {
                let model_field = self.model_field(inner_type);
                joined(model_field.as_str(), "_id")
            },
        }
    }

    /// A method of the join model that tells whether to keep it.
    pub fn predicate_method(&self) -> (r: &Option<String>)
        ensures
            *r == self.predicate_method,
    {
        &self.predicate_method
    }

    /// The primary key field of the child model: `id` unless given.
    pub fn child_primary_key_field(&self) -> (r: String)
        ensures
            r@ == given_or(view_of(self.child_primary_key_field), "id"@),
    {
        proof {
            reveal_strlit("id");
        }
        given_or_else(&self.child_primary_key_field, "id")
    }
}


/// A value with the place in the source it came from.
#[derive(Debug)]
pub struct Spanned<T>(Span, T);

impl<T> Spanned<T> {
    /// The place in the source.
    pub closed spec fn spec_span(self) -> Span {
        self.0
    }

    /// The value.
    pub closed spec fn value(self) -> T {
        self.1
    }

    /// A value with the place it came from.
    pub fn new(span: Span, t: T) -> (r: Self)
        ensures
            r.spec_span() == span,
            r.value() == t,
    {
        Self(span, t)
    }

    /// The place in the source.
    pub fn span(&self) -> (r: Span)
        ensures
            r == self.spec_span(),
    {
        self.0
    }
}

impl<T> Deref for Spanned<T> {
    type Target = T;

    fn deref(&self) -> (r: &T)
        ensures
            *r == self.value(),
    {
        &self.1
    }
}

/// The arguments of the attribute on an association field, by kind of association.
#[derive(Debug)]
pub enum FieldArgs {
    /// `#[has_one(...)]`
    HasOne(Spanned<HasOne>),
    /// `#[option_has_one(...)]`
    OptionHasOne(Spanned<OptionHasOne>),
    /// `#[has_many(...)]`
    HasMany(Spanned<HasMany>),
    /// `#[has_many_through(...)]`
    HasManyThrough(Spanned<Box<HasManyThrough>>),
}

/// Generate nothing for the field?
pub open spec fn skip_spec(args: FieldArgs) -> bool {
    match args {
        FieldArgs::HasOne(inner) => inner.value().skip,
        FieldArgs::OptionHasOne(inner) => inner.value().skip,
        FieldArgs::HasMany(inner) => inner.value().skip,
        FieldArgs::HasManyThrough(inner) => inner.value().skip,
    }
}

/// Print the code generated for the field?
pub open spec fn print_spec(args: FieldArgs) -> bool {
    match args {
        FieldArgs::HasOne(inner) => inner.value().print,
        FieldArgs::OptionHasOne(inner) => inner.value().print,
        FieldArgs::HasMany(inner) => inner.value().print,
        FieldArgs::HasManyThrough(inner) => inner.value().print,
    }
}

/// The name of the field in the GraphQL schema, when given.
pub open spec fn graphql_field_spec(args: FieldArgs) -> Option<String> {
    match args {
        FieldArgs::HasOne(inner) => inner.value().graphql_field,
        FieldArgs::OptionHasOne(inner) => inner.value().graphql_field,
        FieldArgs::HasMany(inner) => inner.value().graphql_field,
        FieldArgs::HasManyThrough(inner) => inner.value().graphql_field,
    }
}

/// The type of the arguments the GraphQL field takes, when given.
pub open spec fn field_arguments_spec(args: FieldArgs) -> Option<String> {
    match args {
        FieldArgs::HasOne(inner) => inner.value().field_arguments,
        FieldArgs::OptionHasOne(inner) => inner.value().field_arguments,
        FieldArgs::HasMany(inner) => inner.value().field_arguments,
        FieldArgs::HasManyThrough(inner) => inner.value().field_arguments,
    }
}

/// The foreign key field, when given.
pub open spec fn foreign_key_field_spec(args: FieldArgs) -> Option<String> {
    match args {
        FieldArgs::HasOne(inner) => inner.value().foreign_key_field,
        FieldArgs::OptionHasOne(inner) => inner.value().foreign_key_field,
        FieldArgs::HasMany(inner) => inner.value().foreign_key_field,
        FieldArgs::HasManyThrough(inner) => inner.value().foreign_key_field,
    }
}

/// The foreign key field: `{name in snake case}_id` unless given.
pub open spec fn foreign_key_name(given: Option<Seq<char>>, name: Seq<char>) -> Seq<char> {
    match given {
        Some(given) => given,
        None => crate::code_gen::names::snake_case(name) + "_id"@,
    }
}

/// The type of the field arguments: the given type with the lifetime `'a`, or `()`.
pub open spec fn field_arguments_type(given: Option<Seq<char>>) -> Seq<char> {
    match given {
        Some(given) => given + "<'a>"@,
        None => "()"@,
    }
}

impl FieldArgs {
    /// Generate nothing for the field?
    pub fn skip(&self) -> (r: bool)
        ensures
            r == skip_spec(*self),
    {
        match self {
            FieldArgs::HasOne(inner) => inner.deref().skip,
            FieldArgs::OptionHasOne(inner) => inner.deref().skip,
            FieldArgs::HasMany(inner) => inner.deref().skip,
            FieldArgs::HasManyThrough(inner) => inner.deref().skip,
        }
    }

    /// Print the code generated for the field?
    pub fn print(&self) -> (r: bool)
        ensures
            r == print_spec(*self),
    {
        match self {
            FieldArgs::HasOne(inner) => inner.deref().print,
            FieldArgs::OptionHasOne(inner) => inner.deref().print,
            FieldArgs::HasMany(inner) => inner.deref().print,
            FieldArgs::HasManyThrough(inner) => inner.deref().print,
        }
    }

    /// The name of the field in the GraphQL schema, when given.
    pub fn graphql_field(&self) -> (r: &Option<String>)
        ensures
            *r == graphql_field_spec(*self),
    {
        match self {
            FieldArgs::HasOne(inner) => &inner.deref().graphql_field,
            FieldArgs::OptionHasOne(inner) => &inner.deref().graphql_field,
            FieldArgs::HasMany(inner) => &inner.deref().graphql_field,
            FieldArgs::HasManyThrough(inner) => &inner.deref().graphql_field,
        }
    }

    /// The type of the arguments the GraphQL field takes: the given type with the lifetime
    /// `'a`, or `()`.
    pub fn field_arguments(&self) -> (r: String)
        ensures
            r@ == field_arguments_type(view_of(field_arguments_spec(*self))),
    {
        let field_arguments = match self {
            FieldArgs::HasOne(inner) => &inner.deref().field_arguments,
            FieldArgs::OptionHasOne(inner) => &inner.deref().field_arguments,
            FieldArgs::HasMany(inner) => &inner.deref().field_arguments,
            FieldArgs::HasManyThrough(inner) => &inner.deref().field_arguments,
        };
        proof {
            reveal_strlit("<'a>");
            reveal_strlit("()");
        }
        match field_arguments {
            Some(field_arguments) => joined(field_arguments.as_str(), "<'a>"),
            None => String::from_str("()"),
        }
    }

    /// The foreign key field: `{field_name in snake case}_id` unless given.
    pub fn foreign_key_field(&self, field_name: &String) -> (r: String)
        ensures
            r@ == foreign_key_name(view_of(foreign_key_field_spec(*self)), field_name@),
    {
        let foreign_key_field = match self {
            FieldArgs::HasOne(inner) => &inner.deref().foreign_key_field,
            FieldArgs::OptionHasOne(inner) => &inner.deref().foreign_key_field,
            FieldArgs::HasMany(inner) => &inner.deref().foreign_key_field,
            FieldArgs::HasManyThrough(inner) => &inner.deref().foreign_key_field,
        };
        match foreign_key_field {
            Some(inner) => copy_of(inner),
            None => {
                let field_name = crate::code_gen::names::to_snake_case(field_name.as_str());
                proof {
                    reveal_strlit("_id");
                }
                joined(field_name.as_str(), "_id")
            },
        }
    }
}

/// Associations whose child holds its model in a field of its own.
pub trait RootModelField {
    /// The field of the child that holds its model, when given.
    spec fn given_root_model_field(&self) -> Option<String>;

    /// The field of the child that holds its model, when given.
    fn get_root_model_field(&self) -> (r: &Option<String>)
        ensures
            *r == self.given_root_model_field(),
    ;

    /// The field of the child that holds its model: `field_name` in snake case unless given.
    fn root_model_field(&self, field_name: &String) -> (r: String)
        ensures
            r@ == given_or_snake_case(view_of(self.given_root_model_field()), field_name@),
    {
        given_or_snake_cased(self.get_root_model_field(), field_name)
    }
}

impl RootModelField for HasOne {
    open spec fn given_root_model_field(&self) -> Option<String> {
        self.root_model_field
    }

    fn get_root_model_field(&self) -> (r: &Option<String>) {
        &self.root_model_field
    }
}

impl RootModelField for OptionHasOne {
    open spec fn given_root_model_field(&self) -> Option<String> {
        self.root_model_field
    }

    fn get_root_model_field(&self) -> (r: &Option<String>) {
        &self.root_model_field
    }
}

impl RootModelField for HasMany {
    open spec fn given_root_model_field(&self) -> Option<String> {
        self.root_model_field
    }

    fn get_root_model_field(&self) -> (r: &Option<String>) {
        &self.root_model_field
    }
}

} // verus!
