use vstd::prelude::*;

use crate::code_gen::field_args::{
    field_arguments_type, field_arguments_spec, foreign_key_field_spec, foreign_key_name,
    graphql_field_spec, print_spec, skip_spec, Abort, EagerLoading, FieldArgs, HasMany,
    HasManyThrough, HasOne, OptionHasOne, RootModelField, Spanned,
};
use crate::code_gen::names::{
    camel_case, copy_of, field_args_name, given_or, given_or_snake_case, impl_context_name,
    impl_context_name_spec, snake_case, to_snake_case, view_of,
};
use crate::code_gen::rust_type::{
    association_type, association_type_spec, get_type_from_association, type_from_association_spec,
    RustType,
};
use crate::error::AssociationType;
use proc_macro2::Span;
use std::ops::Deref;

verus! {

/// A copy of an optional string.
pub fn copy_of_option(given: &Option<String>) -> (r: Option<String>)
    ensures
        r == *given,
{
    match given {
        Some(s) => Some(copy_of_exact(s)),
        None => None,
    }
}

/// A copy of a string, equal to it.
pub fn copy_of_exact(s: &String) -> (r: String)
    ensures
        r == *s,
{
    s.clone()
}

impl HasOne {
    /// A copy of the arguments.
    pub fn copy(&self) -> (r: Self)
        ensures
            r == *self,
    {
        HasOne {
            print: self.print,
            skip: self.skip,
            field_arguments: copy_of_option(&self.field_arguments),
            foreign_key_field: copy_of_option(&self.foreign_key_field),
            root_model_field: copy_of_option(&self.root_model_field),
            graphql_field: copy_of_option(&self.graphql_field),
            default: self.default,
            child_primary_key_field: copy_of_option(&self.child_primary_key_field),
        }
    }
}

impl OptionHasOne {
    /// A copy of the arguments.
    pub fn copy(&self) -> (r: Self)
        ensures
            r == *self,
    {
        OptionHasOne {
            print: self.print,
            skip: self.skip,
            foreign_key_field: copy_of_option(&self.foreign_key_field),
            root_model_field: copy_of_option(&self.root_model_field),
            graphql_field: copy_of_option(&self.graphql_field),
            default: self.default,
            field_arguments: copy_of_option(&self.field_arguments),
            child_primary_key_field: copy_of_option(&self.child_primary_key_field),
        }
    }
}

impl HasMany {
    /// A copy of the arguments.
    pub fn copy(&self) -> (r: Self)
        ensures
            r == *self,
    {
        HasMany {
            print: self.print,
            skip: self.skip,
            field_arguments: copy_of_option(&self.field_arguments),
            foreign_key_field: copy_of_option(&self.foreign_key_field),
            foreign_key_optional: self.foreign_key_optional,
            root_model_field: copy_of_option(&self.root_model_field),
            predicate_method: copy_of_option(&self.predicate_method),
            graphql_field: copy_of_option(&self.graphql_field),
        }
    }
}

impl HasManyThrough {
    /// A copy of the arguments.
    pub fn copy(&self) -> (r: Self)
        ensures
            r == *self,
    {
        HasManyThrough {
            print: self.print,
            skip: self.skip,
            field_arguments: copy_of_option(&self.field_arguments),
            model_field: copy_of_option(&self.model_field),
            join_model: copy_of_option(&self.join_model),
            foreign_key_field: copy_of_option(&self.foreign_key_field),
            predicate_method: copy_of_option(&self.predicate_method),
            graphql_field: copy_of_option(&self.graphql_field),
            child_primary_key_field_on_join_model: copy_of_option(
                &self.child_primary_key_field_on_join_model,
            ),
            child_primary_key_field: copy_of_option(&self.child_primary_key_field),
        }
    }
}

impl Abort {
    /// A copy of the error.
    pub fn copy(&self) -> (r: Self)
        ensures
            r == *self,
    {
        Abort { span: self.span, message: copy_of_exact(&self.message) }
    }
}

/// A field of the struct that derives `EagerLoading`, with the association attribute on it read
/// as each of the four kinds.
#[derive(Debug)]
pub struct Field {
    /// The name of the field.
    pub ident: Option<String>,
    /// The type of the field.
    pub ty: RustType,
    /// Where the field is.
    pub span: Span,
    /// The attributes read as `#[has_one(...)]`.
    pub has_one: Result<HasOne, Abort>,
    /// The attributes read as `#[option_has_one(...)]`.
    pub option_has_one: Result<OptionHasOne, Abort>,
    /// The attributes read as `#[has_many(...)]`.
    pub has_many: Result<HasMany, Abort>,
    /// The attributes read as `#[has_many_through(...)]`.
    pub has_many_through: Result<HasManyThrough, Abort>,
}

/// What code generation knows of an association field.
#[derive(Debug)]
pub struct FieldDeriveData<'a> {
    /// The name of the field.
    pub field_name: String,
    /// The type of the associated values.
    pub inner_type: &'a RustType,
    /// The name the default foreign key field is made from.
    pub foreign_key_field_default: String,
    /// The arguments of the association attribute.
    pub args: FieldArgs,
}

/// Do the arguments read for a field of association `kind` come from the attribute of that
/// kind on `field`?
pub open spec fn args_of_kind(field: Field, kind: AssociationType, args: FieldArgs) -> bool {
    match kind {
        AssociationType::HasOne => field.has_one matches Ok(a) && args matches FieldArgs::HasOne(s)
            && s.value() == a && s.spec_span() == field.span,
        AssociationType::OptionHasOne => field.option_has_one matches Ok(a)
            && args matches FieldArgs::OptionHasOne(s) && s.value() == a && s.spec_span()
            == field.span,
        AssociationType::HasMany => field.has_many matches Ok(a) && args matches FieldArgs::HasMany(s)
            && s.value() == a && s.spec_span() == field.span,
        AssociationType::HasManyThrough => field.has_many_through matches Ok(a)
            && args matches FieldArgs::HasManyThrough(s) && *s.value() == a && s.spec_span()
            == field.span,
    }
}

/// The error reading the attribute of association `kind` on `field`, if there was one.
pub open spec fn args_error(field: Field, kind: AssociationType) -> Option<Abort> {
    match kind {
        AssociationType::HasOne => match field.has_one {
            Err(e) => Some(e),
            Ok(_) => None,
        },
        AssociationType::OptionHasOne => match field.option_has_one {
            Err(e) => Some(e),
            Ok(_) => None,
        },
        AssociationType::HasMany => match field.has_many {
            Err(e) => Some(e),
            Ok(_) => None,
        },
        AssociationType::HasManyThrough => match field.has_many_through {
            Err(e) => Some(e),
            Ok(_) => None,
        },
    }
}

/// The message when an association field has no name.
pub open spec fn unnamed_field_message() -> Seq<char> {
    "Found association field without a name"@
}

/// The derive input: the struct's name, its `#[eager_loading(...)]` arguments and its fields.
#[derive(Debug)]
pub struct DeriveData {
    /// The name of the struct.
    pub struct_name: String,
    /// The fields of the struct.
    pub fields: Vec<Field>,
    /// The arguments of `#[eager_loading(...)]`.
    pub args: EagerLoading,
}

/// Is `data` what reading the association attribute of `field` gives?
pub open spec fn parsed_from(d: DeriveData, field: Field, data: FieldDeriveData) -> bool {
    &&& type_from_association_spec(field.ty) is Some
    &&& {
        let kind = association_type_spec(field.ty).unwrap();
        &&& args_error(field, kind) is None
        &&& field.ident == Some(data.field_name)
        &&& type_from_association_spec(field.ty) == Some(*data.inner_type)
        &&& args_of_kind(field, kind, data.args)
        &&& data.foreign_key_field_default == (match kind {
            AssociationType::HasOne | AssociationType::OptionHasOne => data.field_name,
            _ => d.struct_name,
        })
    }
}

impl DeriveData {
    /// Read the association attribute of a field: `None` when the field is not an association,
    /// an error when the attribute does not read or the field has no name.
    pub fn parse_field_args<'a>(&self, field: &'a Field) -> (r: Option<
        Result<FieldDeriveData<'a>, Abort>,
    >)
        ensures
            type_from_association_spec(field.ty) is None ==> r is None,
            type_from_association_spec(field.ty) is Some ==> match r {
                None => false,
                Some(Err(e)) => match args_error(*field, association_type_spec(field.ty).unwrap()) {
                    Some(error) => e == error,
                    None => field.ident is None && e.span == field.span && e.message@
                        == unnamed_field_message(),
                },
                Some(Ok(data)) => parsed_from(*self, *field, data),
            },
    {
        let inner_type = match get_type_from_association(&field.ty) {
            Some(inner_type) => inner_type,
            None => return None,
        };
        let kind = match association_type(&field.ty) {
            Some(kind) => kind,
            None => return None,
        };
        let span = field.span;
        let args = match kind {
            AssociationType::HasOne => match &field.has_one {
                Ok(args) => FieldArgs::HasOne(Spanned::new(span, args.copy())),
                Err(e) => return Some(Err(e.copy())),
            },
            AssociationType::OptionHasOne => match &field.option_has_one {
                Ok(args) => FieldArgs::OptionHasOne(Spanned::new(span, args.copy())),
                Err(e) => return Some(Err(e.copy())),
            },
            AssociationType::HasMany => match &field.has_many {
                Ok(args) => FieldArgs::HasMany(Spanned::new(span, args.copy())),
                Err(e) => return Some(Err(e.copy())),
            },
            AssociationType::HasManyThrough => match &field.has_many_through {
                Ok(args) => FieldArgs::HasManyThrough(Spanned::new(span, Box::new(args.copy()))),
                Err(e) => return Some(Err(e.copy())),
            },
        };
        let field_name = match &field.ident {
            Some(ident) => copy_of_exact(ident),
            None => {
                proof {
                    reveal_strlit("Found association field without a name");
                }
                return Some(
                    Err(
                        Abort {
                            span,
                            message: String::from_str("Found association field without a name"),
                        },
                    ),
                );
            },
        };
        let foreign_key_field_default = match kind {
            AssociationType::HasOne | AssociationType::OptionHasOne => copy_of_exact(&field_name),
            AssociationType::HasMany | AssociationType::HasManyThrough => copy_of_exact(
                &self.struct_name,
            ),
        };
        Some(Ok(FieldDeriveData { field_name, inner_type, foreign_key_field_default, args }))
    }
}


/// Does reading the association attribute of `field` fail with `e`?
pub open spec fn parse_fails_with(field: Field, e: Abort) -> bool {
    &&& type_from_association_spec(field.ty) is Some
    &&& match args_error(field, association_type_spec(field.ty).unwrap()) {
        Some(error) => e == error,
        None => field.ident is None && e.span == field.span && e.message@ == unnamed_field_message(),
    }
}

/// Does reading the association attribute of `field` fail?
pub open spec fn parse_fails(field: Field) -> bool {
    &&& type_from_association_spec(field.ty) is Some
    &&& (args_error(field, association_type_spec(field.ty).unwrap()) is Some || field.ident is None)
}

/// The foreign key field of an association field.
pub open spec fn foreign_key_of(data: FieldDeriveData) -> Seq<char> {
    foreign_key_name(view_of(foreign_key_field_spec(data.args)), data.foreign_key_field_default@)
}

/// How `load_children` loads the children of one association.
#[derive(Debug)]
pub enum LoadChildren {
    /// Collect the foreign key of every parent model, remove duplicates and load the children
    /// with those ids.
    ByForeignKeys {
        /// The foreign key field of the parent model.
        foreign_key_field: String,
    },
    /// Collect the foreign keys that are set on the parent models, remove duplicates and load
    /// the children with those ids.
    ByOptionalForeignKeys {
        /// The optional foreign key field of the parent model.
        foreign_key_field: String,
    },
    /// Load the children from the parent models, and keep those the predicate method accepts.
    FromParentModels {
        /// The method of the child model that tells whether to keep it.
        predicate_method: Option<String>,
    },
    /// Load the join models from the parent models and keep those the predicate method accepts;
    /// load the children from the join models, and pair each join model with every child whose
    /// `child_primary_key_field` its `model_id_field` holds.
    ThroughJoinModels {
        /// The join model type.
        join_model: String,
        /// The method of the join model that tells whether to keep it.
        predicate_method: Option<String>,
        /// The field of the join model that holds the child's key.
        model_id_field: String,
        /// The primary key field of the child model.
        child_primary_key_field: String,
    },
}

/// The `load_children` method of one association.
#[derive(Debug)]
pub struct LoadChildrenImpl {
    /// The type of the associated values.
    pub inner_type: String,
    /// The join model type, `()` when there is none.
    pub join_model: String,
    /// How the children are loaded.
    pub body: LoadChildren,
}

/// How `is_child_of` decides whether a child belongs to a parent.
#[derive(Debug)]
pub enum IsChildOf {
    /// `node.{root_model_field}.{foreign_key_field} ==
    /// child.{child_root_model_field}.{child_primary_key_field}`
    ParentHoldsKey {
        /// The field of the parent that holds its model.
        root_model_field: String,
        /// The foreign key field of the parent model.
        foreign_key_field: String,
        /// The field of the child that holds its model.
        child_root_model_field: String,
        /// The primary key field of the child model.
        child_primary_key_field: String,
    },
    /// `node.{root_model_field}.{foreign_key_field} ==
    /// Some(child.{child_root_model_field}.{child_primary_key_field})`
    ParentHoldsOptionalKey {
        /// The field of the parent that holds its model.
        root_model_field: String,
        /// The optional foreign key field of the parent model.
        foreign_key_field: String,
        /// The field of the child that holds its model.
        child_root_model_field: String,
        /// The primary key field of the child model.
        child_primary_key_field: String,
    },
    /// `node.{root_model_field}.{primary_key_field} ==
    /// child.{child_root_model_field}.{foreign_key_field}`, with the parent's key in `Some` when
    /// the foreign key is optional.
    ChildHoldsKey {
        /// The field of the parent that holds its model.
        root_model_field: String,
        /// The primary key field of the parent model.
        primary_key_field: String,
        /// The field of the child that holds its model.
        child_root_model_field: String,
        /// The foreign key field of the child model.
        foreign_key_field: String,
        /// Is the foreign key optional?
        foreign_key_optional: bool,
    },
    /// `node.{root_model_field}.{primary_key_field} == join_model.{foreign_key_field} &&
    /// join_model.{model_id_field} == child.{model_field}.{child_primary_key_field}`
    JoinModelHoldsKeys {
        /// The field of the parent that holds its model.
        root_model_field: String,
        /// The primary key field of the parent model.
        primary_key_field: String,
        /// The field of the join model that holds the parent's key.
        foreign_key_field: String,
        /// The field of the join model that holds the child's key.
        model_id_field: String,
        /// The field of the child that holds its model.
        model_field: String,
        /// The primary key field of the child model.
        child_primary_key_field: String,
    },
}

/// The `is_child_of` method of one association.
#[derive(Debug)]
pub struct IsChildOfImpl {
    /// The type of the associated values.
    pub inner_type: String,
    /// The join model type, `()` when there is none.
    pub join_model: String,
    /// How parents and children are matched.
    pub body: IsChildOf,
}

/// The `association` method of one association: it borrows the field.
#[derive(Debug)]
pub struct AssociationImpl {
    /// The association field.
    pub field_name: String,
    /// The type of the association field.
    pub association_type: String,
    /// The type of the associated values.
    pub inner_type: String,
}

/// The impls for one association field.
#[derive(Debug)]
pub struct ChildrenOfTypeImpl {
    /// The struct that tells apart the impls of this field.
    pub context: String,
    /// The struct the impls are for.
    pub struct_name: String,
    /// The type of the associated values.
    pub inner_type: String,
    /// The join model type, `()` when there is none.
    pub join_model: String,
    /// Is the join model `()`? Then `unit_join_model` gives `Some(())`, otherwise `None`.
    pub join_model_is_unit: bool,
    /// The type of the arguments of the GraphQL field.
    pub field_arguments: String,
    /// The `load_children` method.
    pub load_children: LoadChildrenImpl,
    /// The `is_child_of` method.
    pub is_child_of: IsChildOfImpl,
    /// The `association` method.
    pub association: AssociationImpl,
    /// Print the impls while compiling?
    pub print: bool,
}

/// What is generated for one association field.
#[derive(Debug)]
pub enum FieldImpl {
    /// Nothing: the field is marked `skip`. With `print` also set, the impls that would have been
    /// generated, to be printed only, as a starting place for an impl written by hand; none when
    /// they cannot be built.
    Skipped(Option<ChildrenOfTypeImpl>),
    /// The impls of the field.
    Generated(ChildrenOfTypeImpl),
}

/// The call of `eager_load_children` for one association field, made when the query asks for
/// the field.
#[derive(Debug)]
pub struct EagerLoadChildrenCall {
    /// The type of the associated values.
    pub inner_type: String,
    /// The name of the field in the query trail.
    pub field_name: String,
    /// The name of the method of the query trail that gives the field's arguments.
    pub field_args_name: String,
    /// The struct that tells apart the impls of this field.
    pub impl_context: String,
}

/// The `EagerLoadAllChildren` impl.
#[derive(Debug)]
pub struct EagerLoadAllChildrenImpl {
    /// The struct the impl is for.
    pub struct_name: String,
    /// The call for each field; `None` for a field that is not an association.
    pub calls: Vec<Option<EagerLoadChildrenCall>>,
}

/// How `new_from_model` sets one field.
#[derive(Debug)]
pub struct FieldSetter {
    /// The field.
    pub ident: Option<String>,
    /// Set it to its default (an association) rather than to a clone of the model?
    pub association: bool,
}

/// The `GraphqlNodeForModel` impl.
#[derive(Debug)]
pub struct GraphqlNodeForModelImpl {
    /// The struct the impl is for.
    pub struct_name: String,
    /// The model type.
    pub model: String,
    /// The id type.
    pub id: String,
    /// The context type.
    pub context: String,
    /// The error type.
    pub error: String,
    /// How each field is set.
    pub field_setters: Vec<FieldSetter>,
}

/// Everything `#[derive(EagerLoading)]` generates.
#[derive(Debug)]
pub struct DeriveOutput {
    /// The `GraphqlNodeForModel` impl.
    pub graphql_node_for_model: GraphqlNodeForModelImpl,
    /// The `EagerLoadAllChildren` impl.
    pub eager_load_all_children: EagerLoadAllChildrenImpl,
    /// What is generated for each field; `None` for a field that is not an association.
    pub children_of_type: Vec<Option<FieldImpl>>,
    /// Print the `GraphqlNodeForModel` impl while compiling?
    pub print_graphql_node_for_model: bool,
    /// Print the `EagerLoadAllChildren` impl while compiling?
    pub print_eager_load_all_children: bool,
}

/// The join model type of an association field: `()` but for `HasManyThrough`.
pub open spec fn join_model_spec(data: FieldDeriveData) -> Option<Seq<char>> {
    match data.args {
        FieldArgs::HasManyThrough(has_many_through) => view_of(has_many_through.value().join_model),
        _ => Some("()"@),
    }
}

/// The field of the child model that holds the child's key in the join model.
pub open spec fn model_id_field_spec(args: HasManyThrough, inner_type: RustType) -> Seq<char> {
    given_or(
        view_of(args.child_primary_key_field_on_join_model),
        given_or_snake_case(view_of(args.model_field), inner_type.text@) + "_id"@,
    )
}

/// Does `e` report the missing join model of a `HasManyThrough` field?
pub open spec fn missing_join_model(data: FieldDeriveData, e: Abort) -> bool {
    &&& data.args matches FieldArgs::HasManyThrough(has_many_through)
    &&& has_many_through.value().join_model is None
    &&& e.span == has_many_through.spec_span()
    &&& e.message@ == crate::code_gen::field_args::missing_join_model_message()
}

/// Does `imp` load the children of the association field read as `data`?
pub open spec fn load_children_matches(data: FieldDeriveData, imp: LoadChildrenImpl) -> bool {
    &&& imp.inner_type@ == data.inner_type.text@
    &&& join_model_spec(data) == Some(imp.join_model@)
    &&& match (data.args, imp.body) {
        (FieldArgs::HasOne(_), LoadChildren::ByForeignKeys { foreign_key_field }) =>
            foreign_key_field@ == foreign_key_of(data),
        (
            FieldArgs::OptionHasOne(_),
            LoadChildren::ByOptionalForeignKeys { foreign_key_field },
        ) => foreign_key_field@ == foreign_key_of(data),
        (
            FieldArgs::HasMany(has_many),
            LoadChildren::FromParentModels { predicate_method },
        ) => predicate_method == has_many.value().predicate_method,
        (
            FieldArgs::HasManyThrough(has_many_through),
            LoadChildren::ThroughJoinModels {
                join_model,
                predicate_method,
                model_id_field,
                child_primary_key_field,
            },
        ) => {
            &&& join_model@ == imp.join_model@
            &&& predicate_method == has_many_through.value().predicate_method
            &&& model_id_field@ == model_id_field_spec(
                *has_many_through.value(),
                *data.inner_type,
            )
            &&& child_primary_key_field@ == given_or(
                view_of(has_many_through.value().child_primary_key_field),
                "id"@,
            )
        },
        _ => false,
    }
}

/// Does `imp` match children to parents as the association field read as `data` asks?
pub open spec fn is_child_of_matches(d: DeriveData, data: FieldDeriveData, imp: IsChildOfImpl) -> bool {
    let root_model_field = given_or_snake_case(
        view_of(d.args.root_model_field),
        d.struct_name@,
    );
    &&& imp.inner_type@ == data.inner_type.text@
    &&& join_model_spec(data) == Some(imp.join_model@)
    &&& match (data.args, imp.body) {
        (
            FieldArgs::HasOne(has_one),
            IsChildOf::ParentHoldsKey {
                root_model_field: root,
                foreign_key_field,
                child_root_model_field,
                child_primary_key_field,
            },
        ) => {
            &&& root@ == root_model_field
            &&& foreign_key_field@ == foreign_key_of(data)
            &&& child_root_model_field@ == given_or_snake_case(
                view_of(has_one.value().root_model_field),
                data.field_name@,
            )
            &&& child_primary_key_field@ == given_or(
                view_of(has_one.value().child_primary_key_field),
                "id"@,
            )
        },
        (
            FieldArgs::OptionHasOne(option_has_one),
            IsChildOf::ParentHoldsOptionalKey {
                root_model_field: root,
                foreign_key_field,
                child_root_model_field,
                child_primary_key_field,
            },
        ) => {
            &&& root@ == root_model_field
            &&& foreign_key_field@ == foreign_key_of(data)
            &&& child_root_model_field@ == given_or_snake_case(
                view_of(option_has_one.value().root_model_field),
                data.field_name@,
            )
            &&& child_primary_key_field@ == given_or(
                view_of(option_has_one.value().child_primary_key_field),
                "id"@,
            )
        },
        (
            FieldArgs::HasMany(has_many),
            IsChildOf::ChildHoldsKey {
                root_model_field: root,
                primary_key_field,
                child_root_model_field,
                foreign_key_field,
                foreign_key_optional,
            },
        ) => {
            &&& root@ == root_model_field
            &&& primary_key_field@ == given_or(view_of(d.args.primary_key_field), "id"@)
            &&& foreign_key_field@ == foreign_key_of(data)
            &&& child_root_model_field@ == given_or_snake_case(
                view_of(has_many.value().root_model_field),
                data.field_name@,
            )
            &&& foreign_key_optional == has_many.value().foreign_key_optional
        },
        (
            FieldArgs::HasManyThrough(has_many_through),
            IsChildOf::JoinModelHoldsKeys {
                root_model_field: root,
                primary_key_field,
                foreign_key_field,
                model_id_field,
                model_field,
                child_primary_key_field,
            },
        ) => {
            &&& root@ == root_model_field
            &&& primary_key_field@ == given_or(view_of(d.args.primary_key_field), "id"@)
            &&& child_primary_key_field@ == given_or(
                view_of(has_many_through.value().child_primary_key_field),
                "id"@,
            )
            &&& foreign_key_field@ == foreign_key_of(data)
            &&& model_id_field@ == model_id_field_spec(
                *has_many_through.value(),
                *data.inner_type,
            )
            &&& model_field@ == given_or_snake_case(
                view_of(has_many_through.value().model_field),
                data.inner_type.text@,
            )
        },
        _ => false,
    }
}

/// The name of an association field in the query trail: the GraphQL field name in snake case
/// when given, otherwise the field's own name.
pub open spec fn trail_field_name(data: FieldDeriveData) -> Seq<char> {
    match view_of(graphql_field_spec(data.args)) {
        Some(graphql_field) => snake_case(graphql_field),
        None => data.field_name@,
    }
}

/// Does the call match the association field read as `data`?
pub open spec fn call_fields_match(d: DeriveData, data: FieldDeriveData, call: EagerLoadChildrenCall) -> bool {
    &&& call.inner_type@ == data.inner_type.text@
    &&& call.field_name@ == trail_field_name(data)
    &&& call.field_args_name@ == trail_field_name(data) + "_args"@
    &&& call.impl_context@ == impl_context_name_spec(d.struct_name@, data.field_name@)
}

/// Is `r` the call generated for `field`, or the error that stops it?
pub open spec fn call_matches(d: DeriveData, field: Field, r: Option<Result<EagerLoadChildrenCall, Abort>>) -> bool {
    match r {
        None => type_from_association_spec(field.ty) is None,
        Some(Err(e)) => parse_fails_with(field, e),
        Some(Ok(call)) => exists|data: FieldDeriveData|
            #[trigger] parsed_from(d, field, data) && call_fields_match(d, data, call),
    }
}

/// Do the impls match the association field read as `data`?
pub open spec fn impl_fields_match(
    d: DeriveData,
    field: Field,
    data: FieldDeriveData,
    imp: ChildrenOfTypeImpl,
) -> bool {
    &&& imp.context@ == impl_context_name_spec(d.struct_name@, data.field_name@)
    &&& imp.struct_name@ == d.struct_name@
    &&& imp.inner_type@ == data.inner_type.text@
    &&& join_model_spec(data) == Some(imp.join_model@)
    &&& imp.join_model_is_unit == !(data.args is HasManyThrough)
    &&& imp.field_arguments@ == field_arguments_type(view_of(field_arguments_spec(data.args)))
    &&& load_children_matches(data, imp.load_children)
    &&& is_child_of_matches(d, data, imp.is_child_of)
    &&& imp.association.field_name@ == data.field_name@
    &&& imp.association.association_type@ == field.ty.text@
    &&& imp.association.inner_type@ == data.inner_type.text@
    &&& imp.print == print_spec(data.args)
}

/// Is `r` what is generated for `field`, or the error that stops it?
pub open spec fn field_impl_matches(d: DeriveData, field: Field, r: Option<Result<FieldImpl, Abort>>) -> bool {
    match r {
        None => type_from_association_spec(field.ty) is None,
        Some(Err(e)) => parse_fails_with(field, e) || exists|data: FieldDeriveData|
            #[trigger] parsed_from(d, field, data) && !skip_spec(data.args) && missing_join_model(
                data,
                e,
            ),
        Some(Ok(FieldImpl::Skipped(printed))) => exists|data: FieldDeriveData|
            #[trigger] parsed_from(d, field, data) && skip_spec(data.args) && match printed {
                Some(imp) => print_spec(data.args) && impl_fields_match(d, field, data, imp),
                None => !print_spec(data.args) || join_model_spec(data) is None,
            },
        Some(Ok(FieldImpl::Generated(imp))) => exists|data: FieldDeriveData|
            #[trigger] parsed_from(d, field, data) && !skip_spec(data.args) && impl_fields_match(
                d,
                field,
                data,
                imp,
            ),
    }
}

/// Does the setter set `field` as `new_from_model` should?
pub open spec fn setter_matches(field: Field, setter: FieldSetter) -> bool {
    &&& setter.ident == field.ident
    &&& setter.association == association_type_spec(field.ty) is Some
}

/// Is `imp` the `GraphqlNodeForModel` impl of the struct?
pub open spec fn graphql_node_for_model_matches(d: DeriveData, imp: GraphqlNodeForModelImpl) -> bool {
    &&& imp.struct_name@ == d.struct_name@
    &&& imp.model@ == given_or(view_of(d.args.model), "models::"@ + d.struct_name@)
    &&& imp.id@ == given_or(view_of(d.args.id), "i32"@)
    &&& imp.context@ == d.args.context@
    &&& imp.error@ == d.args.error@
    &&& imp.field_setters@.len() == d.fields@.len()
    &&& forall|i: int|
        0 <= i < d.fields@.len() ==> setter_matches(d.fields@[i], #[trigger] imp.field_setters@[i])
}

/// Does generating the impls of `field` fail?
pub open spec fn field_impl_fails(d: DeriveData, field: Field) -> bool {
    ||| parse_fails(field)
    ||| exists|data: FieldDeriveData|
        #[trigger] parsed_from(d, field, data) && !skip_spec(data.args) && join_model_spec(data)
            is None
}

/// A field whose attribute reads does not fail to read.
pub proof fn lemma_parsed_means_no_failure(d: DeriveData, field: Field)
    requires
        exists|data: FieldDeriveData| #[trigger] parsed_from(d, field, data),
    ensures
        !parse_fails(field),
{
}

/// What generating a field's impls gives tells whether it fails.
proof fn lemma_field_impl_fails(d: DeriveData, field: Field, r: Option<Result<FieldImpl, Abort>>)
    requires
        field_impl_matches(d, field, r),
    ensures
        r matches Some(Err(_)) <==> field_impl_fails(d, field),
{
    match r {
        Some(Ok(FieldImpl::Skipped(_))) => {
            let data = choose|data: FieldDeriveData|
                #[trigger] parsed_from(d, field, data) && skip_spec(data.args);
            assert forall|other: FieldDeriveData| #[trigger]
                parsed_from(d, field, other) implies skip_spec(other.args) by {
                lemma_parsed_agree(d, field, data, other);
            }
        },
        Some(Ok(FieldImpl::Generated(imp))) => {
            let data = choose|data: FieldDeriveData|
                #[trigger] parsed_from(d, field, data) && !skip_spec(data.args) && impl_fields_match(
                    d,
                    field,
                    data,
                    imp,
                );
            assert forall|other: FieldDeriveData| #[trigger]
                parsed_from(d, field, other) implies join_model_spec(other) is Some by {
                lemma_parsed_agree(d, field, data, other);
            }
        },
        _ => {},
    }
}

/// The call that eager loads an association field goes to the impls generated for that same
/// field: both name the same context struct and the same child type.
pub proof fn lemma_call_reaches_generated_impl(
    d: DeriveData,
    field: Field,
    call: EagerLoadChildrenCall,
    imp: ChildrenOfTypeImpl,
)
    requires
        call_matches(d, field, Some(Ok(call))),
        field_impl_matches(d, field, Some(Ok(FieldImpl::Generated(imp)))),
    ensures
        call.impl_context@ == imp.context@,
        call.inner_type@ == imp.inner_type@,
{
    let a = choose|data: FieldDeriveData| #[trigger]
        parsed_from(d, field, data) && call_fields_match(d, data, call);
    let b = choose|data: FieldDeriveData| #[trigger]
        parsed_from(d, field, data) && !skip_spec(data.args) && impl_fields_match(d, field, data, imp);
    assert(a.field_name == b.field_name);
    assert(*a.inner_type == *b.inner_type);
}

/// Two readings of the attribute of one field agree on what code generation asks of them.
proof fn lemma_parsed_agree(d: DeriveData, field: Field, a: FieldDeriveData, b: FieldDeriveData)
    requires
        parsed_from(d, field, a),
        parsed_from(d, field, b),
    ensures
        skip_spec(a.args) == skip_spec(b.args),
        join_model_spec(a) == join_model_spec(b),
{
}

impl DeriveData {
    /// The name of the struct.
    pub fn struct_name(&self) -> (r: &String)
        ensures
            *r == self.struct_name,
    {
        &self.struct_name
    }

    /// The model type.
    pub fn model(&self) -> (r: String)
        ensures
            r@ == given_or(view_of(self.args.model), "models::"@ + self.struct_name@),
    {
        self.args.model(&self.struct_name)
    }

    /// The id type.
    pub fn id(&self) -> (r: String)
        ensures
            r@ == given_or(view_of(self.args.id), "i32"@),
    {
        self.args.id()
    }

    /// The context type.
    pub fn context(&self) -> (r: String)
        ensures
            r@ == self.args.context@,
    {
        self.args.context()
    }

    /// The error type.
    pub fn error(&self) -> (r: String)
        ensures
            r@ == self.args.error@,
    {
        self.args.error()
    }

    /// The field of the struct that holds its model.
    pub fn root_model_field(&self) -> (r: String)
        ensures
            r@ == given_or_snake_case(view_of(self.args.root_model_field), self.struct_name@),
    {
        self.args.root_model_field(&self.struct_name)
    }

    /// The fields of the struct.
    pub fn struct_fields(&self) -> (r: &Vec<Field>)
        ensures
            *r == self.fields,
    {
        &self.fields
    }

    /// The struct that tells apart the impls of a field.
    pub fn field_impl_context_name(&self, field: &Field) -> (r: String)
        requires
            field.ident is Some,
        ensures
            r@ == impl_context_name_spec(self.struct_name@, field.ident.unwrap()@),
    {
        match &field.ident {
            Some(ident) => impl_context_name(&self.struct_name, ident),
            None => String::new(),
        }
    }

    /// The join model type of an association field: `()` but for `HasManyThrough`, whose join
    /// model must be given.
    pub fn join_model_impl(&self, data: &FieldDeriveData) -> (r: Result<String, Abort>)
        ensures
            match r {
                Ok(join_model) => join_model_spec(*data) == Some(join_model@),
                Err(e) => missing_join_model(*data, e),
            },
    {
        match &data.args {
            FieldArgs::HasManyThrough(has_many_through) => {
                has_many_through.deref().join_model(has_many_through.span())
            },
            _ => {
                proof {
                    reveal_strlit("()");
                }
                Ok(String::from_str("()"))
            },
        }
    }

    /// How the children of an association field are loaded.
    pub fn load_children_impl(&self, data: &FieldDeriveData) -> (r: Result<LoadChildrenImpl, Abort>)
        ensures
            match r {
                Ok(imp) => load_children_matches(*data, imp),
                Err(e) => missing_join_model(*data, e),
            },
    {
        let join_model = self.join_model_impl(data)?;
        let inner_type = copy_of(&data.inner_type.text);
        let body = match &data.args {
            FieldArgs::HasOne(_) => LoadChildren::ByForeignKeys {
                foreign_key_field: data.args.foreign_key_field(&data.foreign_key_field_default),
            },
            FieldArgs::OptionHasOne(_) => LoadChildren::ByOptionalForeignKeys {
                foreign_key_field: data.args.foreign_key_field(&data.foreign_key_field_default),
            },
            FieldArgs::HasMany(has_many) => LoadChildren::FromParentModels {
                predicate_method: copy_of_option(has_many.deref().predicate_method()),
            },
            FieldArgs::HasManyThrough(has_many_through) => LoadChildren::ThroughJoinModels {
                join_model: copy_of(&join_model),
                predicate_method: copy_of_option(has_many_through.deref().predicate_method()),
                model_id_field: has_many_through.deref().child_primary_key_field_on_join_model(
                    data.inner_type,
                ),
                child_primary_key_field: has_many_through.deref().child_primary_key_field(),
            },
        };
        Ok(LoadChildrenImpl { inner_type, join_model, body })
    }

    /// How a child of an association field is told to belong to a parent.
    pub fn is_child_of_impl(&self, data: &FieldDeriveData) -> (r: Result<IsChildOfImpl, Abort>)
        ensures
            match r {
                Ok(imp) => is_child_of_matches(*self, *data, imp),
                Err(e) => missing_join_model(*data, e),
            },
    {
        let join_model = self.join_model_impl(data)?;
        let root_model_field = self.root_model_field();
        let foreign_key_field = data.args.foreign_key_field(&data.foreign_key_field_default);
        let field_name = &data.field_name;
        let body = match &data.args {
            FieldArgs::HasOne(has_one) => IsChildOf::ParentHoldsKey {
                root_model_field,
                foreign_key_field,
                child_root_model_field: has_one.deref().root_model_field(field_name),
                child_primary_key_field: has_one.deref().child_primary_key_field(),
            },
            FieldArgs::OptionHasOne(option_has_one) => IsChildOf::ParentHoldsOptionalKey {
                root_model_field,
                foreign_key_field,
                child_root_model_field: option_has_one.deref().root_model_field(field_name),
                child_primary_key_field: option_has_one.deref().child_primary_key_field(),
            },
            FieldArgs::HasMany(has_many) => IsChildOf::ChildHoldsKey {
                root_model_field,
                primary_key_field: self.args.primary_key_field(),
                child_root_model_field: has_many.deref().root_model_field(field_name),
                foreign_key_field,
                foreign_key_optional: has_many.deref().foreign_key_optional,
            },
            FieldArgs::HasManyThrough(has_many_through) => IsChildOf::JoinModelHoldsKeys {
                root_model_field,
                primary_key_field: self.args.primary_key_field(),
                foreign_key_field,
                model_id_field: has_many_through.deref().child_primary_key_field_on_join_model(
                    data.inner_type,
                ),
                model_field: has_many_through.deref().model_field(data.inner_type),
                child_primary_key_field: has_many_through.deref().child_primary_key_field(),
            },
        };
        Ok(IsChildOfImpl { inner_type: copy_of(&data.inner_type.text), join_model, body })
    }

    /// The `association` method of an association field.
    pub fn association_impl(&self, data: &FieldDeriveData, field: &Field) -> (r: AssociationImpl)
        ensures
            r.field_name@ == data.field_name@,
            r.association_type@ == field.ty.text@,
            r.inner_type@ == data.inner_type.text@,
    {
        AssociationImpl {
            field_name: copy_of(&data.field_name),
            association_type: copy_of(&field.ty.text),
            inner_type: copy_of(&data.inner_type.text),
        }
    }

    /// What is generated for a field: `None` when it is not an association.
    pub fn gen_eager_load_children_of_type_for_field(&self, field: &Field) -> (r: Option<
        Result<FieldImpl, Abort>,
    >)
        ensures
            field_impl_matches(*self, *field, r),
    {
        let data = match self.parse_field_args(field) {
            None => return None,
            Some(Err(e)) => return Some(Err(e)),
            Some(Ok(data)) => data,
        };
        assert(parsed_from(*self, *field, data));
        if data.args.skip() {
            if !data.args.print() {
                return Some(Ok(FieldImpl::Skipped(None)));
            }
            return match self.children_of_type_impl(&data, field) {
                Ok(imp) => Some(Ok(FieldImpl::Skipped(Some(imp)))),
                Err(_) => Some(Ok(FieldImpl::Skipped(None))),
            };
        }
        match self.children_of_type_impl(&data, field) {
            Ok(imp) => Some(Ok(FieldImpl::Generated(imp))),
            Err(e) => Some(Err(e)),
        }
    }

    /// The impls of an association field read as `data`, or the error of its missing join model.
    fn children_of_type_impl(&self, data: &FieldDeriveData, field: &Field) -> (r: Result<
        ChildrenOfTypeImpl,
        Abort,
    >)
        requires
            field.ident == Some(data.field_name),
        ensures
            match r {
                Ok(imp) => impl_fields_match(*self, *field, *data, imp),
                Err(e) => missing_join_model(*data, e),
            },
    {
        let join_model = self.join_model_impl(data)?;
        let load_children = self.load_children_impl(data)?;
        let is_child_of = self.is_child_of_impl(data)?;
        let association = self.association_impl(data, field);
        let context = self.field_impl_context_name(field);
        let field_arguments = data.args.field_arguments();
        let print = data.args.print();
        let join_model_is_unit = match &data.args {
            FieldArgs::HasManyThrough(_) => false,
            _ => true,
        };
        Ok(
            ChildrenOfTypeImpl {
                context,
                struct_name: copy_of(&self.struct_name),
                inner_type: copy_of(&data.inner_type.text),
                join_model,
                join_model_is_unit,
                field_arguments,
                load_children,
                is_child_of,
                association,
                print,
            },
        )
    }

    /// The call of `eager_load_children` for a field: `None` when it is not an association.
    pub fn gen_eager_load_all_children_for_field(&self, field: &Field) -> (r: Option<
        Result<EagerLoadChildrenCall, Abort>,
    >)
        ensures
            call_matches(*self, *field, r),
    {
        if get_type_from_association(&field.ty).is_none() {
            return None;
        }
        let data = match self.parse_field_args(field) {
            None => return None,
            Some(Err(e)) => return Some(Err(e)),
            Some(Ok(data)) => data,
        };
        let field_name = match data.args.graphql_field() {
            Some(ident) => to_snake_case(ident.as_str()),
            None => copy_of(&data.field_name),
        };
        let field_args_name = field_args_name(&field_name);
        let impl_context = self.field_impl_context_name(field);
        let call = EagerLoadChildrenCall {
            inner_type: copy_of(&data.inner_type.text),
            field_name,
            field_args_name,
            impl_context,
        };
        assert(parsed_from(*self, *field, data));
        Some(Ok(call))
    }

    /// The `GraphqlNodeForModel` impl: associations start out as their default, every other
    /// field is a clone of the model.
    pub fn gen_graphql_node_for_model(&self) -> (r: GraphqlNodeForModelImpl)
        ensures
            graphql_node_for_model_matches(*self, r),
    {
        let mut field_setters: Vec<FieldSetter> = Vec::new();
        let mut i: usize = 0;
        while i < self.fields.len()
            invariant
                i <= self.fields@.len(),
                field_setters@.len() == i,
                forall|j: int|
                    0 <= j < i ==> setter_matches(self.fields@[j], #[trigger] field_setters@[j]),
            decreases self.fields@.len() - i,
        {
            let field = &self.fields[i];
            field_setters.push(
                FieldSetter {
                    ident: copy_of_option(&field.ident),
                    association: crate::code_gen::rust_type::is_association_field(&field.ty),
                },
            );
            i = i + 1;
        }
        GraphqlNodeForModelImpl {
            struct_name: copy_of(&self.struct_name),
            model: self.model(),
            id: self.id(),
            context: self.context(),
            error: self.error(),
            field_setters,
        }
    }

    /// The `EagerLoadAllChildren` impl: one call of `eager_load_children` for each association
    /// field, or the error of the first field whose attribute does not read.
    pub fn gen_eager_load_all_children(&self) -> (r: Result<EagerLoadAllChildrenImpl, Abort>)
        ensures
            match r {
                Ok(imp) => {
                    &&& imp.struct_name@ == self.struct_name@
                    &&& forall|j: int|
                        0 <= j < self.fields@.len() ==> !parse_fails(#[trigger] self.fields@[j])
                    &&& imp.calls@.len() == self.fields@.len()
                    &&& forall|i: int|
                        0 <= i < self.fields@.len() ==> call_matches(
                            *self,
                            self.fields@[i],
                            match #[trigger] imp.calls@[i] {
                                Some(call) => Some(Ok(call)),
                                None => None,
                            },
                        )
                },
                Err(e) => exists|i: int|
                    0 <= i < self.fields@.len() && parse_fails_with(#[trigger] self.fields@[i], e)
                        && forall|j: int| 0 <= j < i ==> !parse_fails(#[trigger] self.fields@[j]),
            },
    {
        let mut calls: Vec<Option<EagerLoadChildrenCall>> = Vec::new();
        let mut i: usize = 0;
        while i < self.fields.len()
            invariant
                i <= self.fields@.len(),
                calls@.len() == i,
                forall|j: int|
                    0 <= j < i ==> call_matches(
                        *self,
                        self.fields@[j],
                        match #[trigger] calls@[j] {
                            Some(call) => Some(Ok(call)),
                            None => None,
                        },
                    ),
                forall|j: int| 0 <= j < i ==> !parse_fails(#[trigger] self.fields@[j]),
            decreases self.fields@.len() - i,
        {
            match self.gen_eager_load_all_children_for_field(&self.fields[i]) {
                Some(Err(e)) => {
                    assert(parse_fails_with(self.fields@[i as int], e));
                    return Err(e);
                },
                Some(Ok(call)) => {
                    proof {
                        lemma_parsed_means_no_failure(*self, self.fields@[i as int]);
                    }
                    calls.push(Some(call));
                },
                None => {
                    calls.push(None);
                },
            }
            i = i + 1;
        }
        Ok(EagerLoadAllChildrenImpl { struct_name: copy_of(&self.struct_name), calls })
    }

    /// The impls of each association field, or the first error.
    pub fn gen_eager_load_children_of_type(&self) -> (r: Result<Vec<Option<FieldImpl>>, Abort>)
        ensures
            match r {
                Ok(impls) => {
                    &&& impls@.len() == self.fields@.len()
                    &&& forall|i: int|
                        0 <= i < self.fields@.len() ==> field_impl_matches(
                            *self,
                            self.fields@[i],
                            match #[trigger] impls@[i] {
                                Some(imp) => Some(Ok(imp)),
                                None => None,
                            },
                        )
                },
                Err(e) => exists|i: int|
                    0 <= i < self.fields@.len() && field_impl_matches(
                        *self,
                        #[trigger] self.fields@[i],
                        Some(Err(e)),
                    ) && forall|j: int|
                        0 <= j < i ==> !field_impl_fails(*self, #[trigger] self.fields@[j]),
            },
    {
        let mut impls: Vec<Option<FieldImpl>> = Vec::new();
        let mut i: usize = 0;
        while i < self.fields.len()
            invariant
                i <= self.fields@.len(),
                impls@.len() == i,
                forall|j: int|
                    0 <= j < i ==> field_impl_matches(
                        *self,
                        self.fields@[j],
                        match #[trigger] impls@[j] {
                            Some(imp) => Some(Ok(imp)),
                            None => None,
                        },
                    ),
                forall|j: int| 0 <= j < i ==> !field_impl_fails(*self, #[trigger] self.fields@[j]),
            decreases self.fields@.len() - i,
        {
            let r = self.gen_eager_load_children_of_type_for_field(&self.fields[i]);
            proof {
                lemma_field_impl_fails(*self, self.fields@[i as int], r);
            }
            match r {
                Some(Err(e)) => {
                    return Err(e);
                },
                Some(Ok(imp)) => {
                    impls.push(Some(imp));
                },
                None => {
                    impls.push(None);
                },
            }
            i = i + 1;
        }
        Ok(impls)
    }

    /// Everything `#[derive(EagerLoading)]` generates, or the error that stops it.
    pub fn build_derive_output(&self) -> (r: Result<DeriveOutput, Abort>)
        ensures
            match r {
                Ok(out) => {
                    &&& graphql_node_for_model_matches(*self, out.graphql_node_for_model)
                    &&& out.eager_load_all_children.struct_name@ == self.struct_name@
                    &&& out.eager_load_all_children.calls@.len() == self.fields@.len()
                    &&& forall|i: int|
                        0 <= i < self.fields@.len() ==> call_matches(
                            *self,
                            self.fields@[i],
                            match #[trigger] out.eager_load_all_children.calls@[i] {
                                Some(call) => Some(Ok(call)),
                                None => None,
                            },
                        )
                    &&& out.children_of_type@.len() == self.fields@.len()
                    &&& forall|i: int|
                        0 <= i < self.fields@.len() ==> field_impl_matches(
                            *self,
                            self.fields@[i],
                            match #[trigger] out.children_of_type@[i] {
                                Some(imp) => Some(Ok(imp)),
                                None => None,
                            },
                        )
                    &&& out.print_graphql_node_for_model == self.args.print
                    &&& out.print_eager_load_all_children == self.args.print
                },
                Err(e) => {
                    ||| exists|i: int|
                        0 <= i < self.fields@.len() && parse_fails_with(#[trigger] self.fields@[i], e)
                            && forall|j: int| 0 <= j < i ==> !parse_fails(#[trigger] self.fields@[j])
                    ||| (forall|j: int| 0 <= j < self.fields@.len() ==> !parse_fails(#[trigger] self.fields@[j]))
                        && exists|i: int|
                        0 <= i < self.fields@.len() && field_impl_matches(
                            *self,
                            #[trigger] self.fields@[i],
                            Some(Err(e)),
                        ) && forall|j: int|
                            0 <= j < i ==> !field_impl_fails(*self, #[trigger] self.fields@[j])
                },
            },
    {
        let graphql_node_for_model = self.gen_graphql_node_for_model();
        let eager_load_all_children = self.gen_eager_load_all_children()?;
        let children_of_type = self.gen_eager_load_children_of_type()?;
        Ok(
            DeriveOutput {
                graphql_node_for_model,
                eager_load_all_children,
                children_of_type,
                print_graphql_node_for_model: self.args.print(),
                print_eager_load_all_children: self.args.print(),
            },
        )
    }
}


// --
// -- What code generation does for each kind of association
// --
/// For a `#[has_many]` field, `is_child_of` compares the parent's key with the child's foreign
/// key, the parent's key wrapped in `Some` exactly when the attribute sets
/// `foreign_key_optional`, and reads the child's model from the attribute's `root_model_field`,
/// or from the field's name in snake case when none is given.
pub proof fn lemma_has_many_is_child_of_follows_attribute(
    d: DeriveData,
    data: FieldDeriveData,
    r: Result<IsChildOfImpl, Abort>,
)
    requires
        match r {
            Ok(imp) => is_child_of_matches(d, data, imp),
            Err(e) => missing_join_model(data, e),
        },
        data.args is HasMany,
    ensures
        r matches Ok(imp) && imp.body matches IsChildOf::ChildHoldsKey {
            foreign_key_optional,
            child_root_model_field,
            ..
        } && foreign_key_optional == (data.args->HasMany_0).value().foreign_key_optional && (match (data.args->HasMany_0).value().root_model_field {
            Some(given) => child_root_model_field@ == given@,
            None => child_root_model_field@ == snake_case(data.field_name@),
        }),
{
}

/// For a `#[has_one]` or `#[option_has_one]` field, `is_child_of` reads the child's model from
/// the attribute's `root_model_field`, or from the field's name in snake case when none is given;
/// the comparison with the parent's key is wrapped in `Some` exactly for `#[option_has_one]`.
pub proof fn lemma_has_one_is_child_of_follows_attribute(
    d: DeriveData,
    data: FieldDeriveData,
    r: Result<IsChildOfImpl, Abort>,
)
    requires
        match r {
            Ok(imp) => is_child_of_matches(d, data, imp),
            Err(e) => missing_join_model(data, e),
        },
        data.args is HasOne || data.args is OptionHasOne,
    ensures
        r matches Ok(imp) && match (data.args, imp.body) {
            (
                FieldArgs::HasOne(args),
                IsChildOf::ParentHoldsKey { child_root_model_field, .. },
            ) => match args.value().root_model_field {
                Some(given) => child_root_model_field@ == given@,
                None => child_root_model_field@ == snake_case(data.field_name@),
            },
            (
                FieldArgs::OptionHasOne(args),
                IsChildOf::ParentHoldsOptionalKey { child_root_model_field, .. },
            ) => match args.value().root_model_field {
                Some(given) => child_root_model_field@ == given@,
                None => child_root_model_field@ == snake_case(data.field_name@),
            },
            _ => false,
        },
{
}

/// For a `#[has_many]` field, `load_children` loads the children from the parent models and keeps
/// those the attribute's `predicate_method` accepts (all of them when none is given); for a
/// `#[has_many_through]` field, the join models are kept by its `predicate_method` likewise.
pub proof fn lemma_load_children_keeps_the_predicate(
    d: DeriveData,
    data: FieldDeriveData,
    r: Result<LoadChildrenImpl, Abort>,
)
    requires
        match r {
            Ok(imp) => load_children_matches(data, imp),
            Err(e) => missing_join_model(data, e),
        },
    ensures
        data.args is HasMany ==> (r matches Ok(imp) && imp.body matches LoadChildren::FromParentModels {
            predicate_method,
        } && predicate_method == (data.args->HasMany_0).value().predicate_method),
        r matches Ok(imp) ==> (data.args is HasManyThrough ==> (imp.body matches LoadChildren::ThroughJoinModels {
            predicate_method,
            ..
        } && predicate_method == (data.args->HasManyThrough_0).value().predicate_method)),
{
}

/// The call that eager loads an association field walks the query trail by the GraphQL field's
/// name in snake case when `graphql_field` is given, for every kind of association, and by the
/// field's own name otherwise; the arguments come from the method of that name followed by
/// `_args`.
pub proof fn lemma_call_walks_the_graphql_field(
    d: DeriveData,
    field: Field,
    data: FieldDeriveData,
    r: Option<Result<EagerLoadChildrenCall, Abort>>,
)
    requires
        call_matches(d, field, r),
        parsed_from(d, field, data),
    ensures
        r matches Some(Ok(call)) && {
            let name = match graphql_field_spec(data.args) {
                Some(graphql_field) => snake_case(graphql_field@),
                None => field.ident.unwrap()@,
            };
            &&& call.field_name@ == name
            &&& call.field_args_name@ == name + "_args"@
        },
{
    lemma_parsed_means_no_failure(d, field);
    if let Some(Ok(call)) = r {
        let other = choose|other: FieldDeriveData|
            #[trigger] parsed_from(d, field, other) && call_fields_match(d, other, call);
        assert(graphql_field_spec(other.args) == graphql_field_spec(data.args));
    }
}


/// The name given by an attribute, or `fallback` when none is given.
pub open spec fn name_or(given: Option<String>, fallback: Seq<char>) -> Seq<char> {
    match given {
        Some(name) => name@,
        None => fallback,
    }
}

/// The fields `is_child_of` compares: the parent's model is read from the struct's
/// `root_model_field` (the struct's name in snake case by default); the foreign key is the
/// attribute's `foreign_key_field` (by default the snake case of the field's name for `has_one`
/// and `option_has_one`, of the struct's name otherwise, followed by `_id`); the parent's key is
/// the struct's `primary_key_field` and the child's key the attribute's `child_primary_key_field`
/// (`id` by default); a join model holds the child's key in `child_primary_key_field_on_join_model`
/// (by default the child's model field followed by `_id`), and the child's model field is the
/// attribute's `model_field` (by default the child type in snake case).
pub proof fn lemma_is_child_of_keys(
    d: DeriveData,
    field: Field,
    data: FieldDeriveData,
    r: Result<IsChildOfImpl, Abort>,
)
    requires
        parsed_from(d, field, data),
        match r {
            Ok(imp) => is_child_of_matches(d, data, imp),
            Err(e) => missing_join_model(data, e),
        },
    ensures
        r matches Ok(imp) ==> {
            let root = name_or(d.args.root_model_field, snake_case(d.struct_name@));
            let default_key_owner = match data.args {
                FieldArgs::HasOne(_) | FieldArgs::OptionHasOne(_) => field.ident.unwrap()@,
                _ => d.struct_name@,
            };
            let fk = name_or(foreign_key_field_spec(data.args), snake_case(default_key_owner) + "_id"@);
            let parent_key = name_or(d.args.primary_key_field, "id"@);
            match (data.args, imp.body) {
                (
                    FieldArgs::HasOne(args),
                    IsChildOf::ParentHoldsKey {
                        root_model_field,
                        foreign_key_field,
                        child_primary_key_field,
                        ..
                    },
                ) => root_model_field@ == root && foreign_key_field@ == fk
                    && child_primary_key_field@ == name_or(
                    args.value().child_primary_key_field,
                    "id"@,
                ),
                (
                    FieldArgs::OptionHasOne(args),
                    IsChildOf::ParentHoldsOptionalKey {
                        root_model_field,
                        foreign_key_field,
                        child_primary_key_field,
                        ..
                    },
                ) => root_model_field@ == root && foreign_key_field@ == fk
                    && child_primary_key_field@ == name_or(
                    args.value().child_primary_key_field,
                    "id"@,
                ),
                (
                    FieldArgs::HasMany(_),
                    IsChildOf::ChildHoldsKey {
                        root_model_field,
                        primary_key_field,
                        foreign_key_field,
                        ..
                    },
                ) => root_model_field@ == root && foreign_key_field@ == fk && primary_key_field@
                    == parent_key,
                (
                    FieldArgs::HasManyThrough(args),
                    IsChildOf::JoinModelHoldsKeys {
                        root_model_field,
                        primary_key_field,
                        foreign_key_field,
                        model_id_field,
                        model_field,
                        child_primary_key_field,
                    },
                ) => {
                    let child_model_field = name_or(
                        args.value().model_field,
                        snake_case(data.inner_type.text@),
                    );
                    &&& root_model_field@ == root
                    &&& foreign_key_field@ == fk
                    &&& primary_key_field@ == parent_key
                    &&& model_field@ == child_model_field
                    &&& model_id_field@ == name_or(
                        args.value().child_primary_key_field_on_join_model,
                        child_model_field + "_id"@,
                    )
                    &&& child_primary_key_field@ == name_or(
                        args.value().child_primary_key_field,
                        "id"@,
                    )
                },
                _ => false,
            }
        },
        !(data.args is HasManyThrough) ==> r is Ok,
{
}

/// What `load_children` loads: for `has_one` the children whose key one of the parents holds in
/// its foreign key, for `option_has_one` likewise among the parents whose foreign key is set (the
/// foreign key as in [`lemma_is_child_of_keys`]); for `has_many_through` the join models of the
/// given type, each paired with the children whose key (`child_primary_key_field`, `id` by
/// default) it holds in its `child_primary_key_field_on_join_model`.
pub proof fn lemma_load_children_keys(
    d: DeriveData,
    field: Field,
    data: FieldDeriveData,
    r: Result<LoadChildrenImpl, Abort>,
)
    requires
        parsed_from(d, field, data),
        match r {
            Ok(imp) => load_children_matches(data, imp),
            Err(e) => missing_join_model(data, e),
        },
    ensures
        r matches Ok(imp) ==> {
            let default_key_owner = match data.args {
                FieldArgs::HasOne(_) | FieldArgs::OptionHasOne(_) => field.ident.unwrap()@,
                _ => d.struct_name@,
            };
            let fk = name_or(foreign_key_field_spec(data.args), snake_case(default_key_owner) + "_id"@);
            &&& imp.inner_type@ == data.inner_type.text@
            &&& match (data.args, imp.body) {
                (FieldArgs::HasOne(_), LoadChildren::ByForeignKeys { foreign_key_field }) =>
                    foreign_key_field@ == fk,
                (
                    FieldArgs::OptionHasOne(_),
                    LoadChildren::ByOptionalForeignKeys { foreign_key_field },
                ) => foreign_key_field@ == fk,
                (FieldArgs::HasMany(_), LoadChildren::FromParentModels { .. }) => true,
                (
                    FieldArgs::HasManyThrough(args),
                    LoadChildren::ThroughJoinModels {
                        join_model,
                        model_id_field,
                        child_primary_key_field,
                        ..
                    },
                ) => {
                    &&& Some(join_model@) == view_of(args.value().join_model)
                    &&& model_id_field@ == name_or(
                        args.value().child_primary_key_field_on_join_model,
                        name_or(args.value().model_field, snake_case(data.inner_type.text@))
                            + "_id"@,
                    )
                    &&& child_primary_key_field@ == name_or(
                        args.value().child_primary_key_field,
                        "id"@,
                    )
                },
                _ => false,
            }
        },
        !(data.args is HasManyThrough) ==> r is Ok,
{
}

/// The call that eager loads an association field names the field's impls by the struct
/// `EagerLoadingContext{struct}For{field in camel case}`, and loads children of the field's
/// child type.
pub proof fn lemma_call_names_the_field_impls(
    d: DeriveData,
    field: Field,
    r: Option<Result<EagerLoadChildrenCall, Abort>>,
)
    requires
        call_matches(d, field, r),
    ensures
        r matches Some(Ok(call)) ==> {
            &&& call.impl_context@ == "EagerLoadingContext"@ + d.struct_name@ + "For"@
                + camel_case(field.ident.unwrap()@)
            &&& type_from_association_spec(field.ty) matches Some(child) && call.inner_type@
                == child.text@
        },
{
}


/// What is generated for an association field: nothing when its attribute sets `skip`;
/// otherwise impls for the struct, told apart by `EagerLoadingContext{struct}For{field in camel
/// case}`, for the field's child type, with the join model `()` (the given `join_model` for
/// `has_many_through`), the field arguments type given with the lifetime `'a` (or `()`), an
/// `association` that borrows the field itself, and printing as the attribute asks.
pub proof fn lemma_field_impl_follows_attribute(
    d: DeriveData,
    field: Field,
    data: FieldDeriveData,
    r: Option<Result<FieldImpl, Abort>>,
)
    requires
        parsed_from(d, field, data),
        field_impl_matches(d, field, r),
    ensures
        skip_spec(data.args) ==> r matches Some(Ok(FieldImpl::Skipped(_))),
        r matches Some(Ok(FieldImpl::Generated(imp))) ==> {
            &&& !skip_spec(data.args)
            &&& imp.context@ == "EagerLoadingContext"@ + d.struct_name@ + "For"@ + camel_case(
                field.ident.unwrap()@,
            )
            &&& imp.struct_name@ == d.struct_name@
            &&& type_from_association_spec(field.ty) matches Some(child) && imp.inner_type@
                == child.text@
            &&& match data.args {
                FieldArgs::HasManyThrough(args) => Some(imp.join_model@) == view_of(
                    args.value().join_model,
                ) && !imp.join_model_is_unit,
                _ => imp.join_model@ == "()"@ && imp.join_model_is_unit,
            }
            &&& imp.field_arguments@ == match field_arguments_spec(data.args) {
                Some(given) => given@ + "<'a>"@,
                None => "()"@,
            }
            &&& imp.association.field_name@ == field.ident.unwrap()@
            &&& imp.association.association_type@ == field.ty.text@
            &&& imp.print == print_spec(data.args)
        },
{
    match r {
        Some(Ok(FieldImpl::Generated(imp))) => {
            let other = choose|other: FieldDeriveData|
                #[trigger] parsed_from(d, field, other) && !skip_spec(other.args)
                    && impl_fields_match(d, field, other, imp);
            lemma_parsed_agree(d, field, data, other);
        },
        Some(Ok(FieldImpl::Skipped(_))) => {},
        _ => {
            lemma_parsed_means_no_failure(d, field);
        },
    }
}

} // verus!
