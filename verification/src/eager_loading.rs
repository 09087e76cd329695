use vstd::prelude::*;

use crate::association::{loaded_with, Association};
use crate::associations::{lemma_has_many_loaded_with, lemma_has_one_loaded_with, HasMany, HasOne};
use crate::error::{AssociationType, Error};
use juniper_from_schema::{QueryTrail, Walked};
use std::hash::Hash;

verus! {

/// A trail through the GraphQL query being executed; it tells which fields were asked for.
#[verifier::external_type_specification]
#[verifier::external_body]
#[verifier::reject_recursive_types(T)]
#[verifier::reject_recursive_types(K)]
pub struct ExQueryTrail<'a, T, K>(QueryTrail<'a, T, K>);

/// Marks a `QueryTrail` whose presence in the query has been checked.
#[verifier::external_type_specification]
#[verifier::external_body]
pub struct ExWalked(Walked);

/// A GraphQL type backed by a model object.
///
/// You shouldn't need to implement this trait yourself even when customizing eager loading.
pub trait GraphqlNodeForModel: Sized {
    /// The model type.
    type Model: Clone;

    /// The id type the model uses.
    type Id: 'static + Hash + Eq;

    /// Your Juniper context type.
    ///
    /// This will typically contain a database connection or a connection to some external API.
    type Context;

    /// The error type.
    type Error;

    /// Does `node` stand for `model`, as `new_from_model` builds it?
    ///
    /// An impl that does not say accepts every pair.
    open spec fn node_for(node: Self, model: Self::Model) -> bool {
        true
    }

    /// Create a new GraphQL type from a model.
    fn new_from_model(model: &Self::Model) -> (node: Self)
        ensures
            Self::node_for(node, *model),
    ;

    /// Create a list of GraphQL types from a list of models.
    fn from_db_models(models: &[Self::Model]) -> (nodes: Vec<Self>)
        ensures
            nodes@.len() == models@.len(),
            forall|i: int| 0 <= i < models@.len() ==> Self::node_for(#[trigger] nodes@[i], models@[i]),
    {
        let mut nodes: Vec<Self> = Vec::new();
        let mut i: usize = 0;
        while i < models.len()
            invariant
                i <= models@.len(),
                nodes@.len() == i,
                forall|j: int| 0 <= j < i ==> Self::node_for(#[trigger] nodes@[j], models@[j]),
            decreases models@.len() - i,
        {
            nodes.push(Self::new_from_model(&models[i]));
            i = i + 1;
        }
        nodes
    }
}


/// The result of loading child models.
///
/// `HasOne`, `OptionHasOne` and `HasMany` can return the child models directly because the model
/// has the foreign key. However for `HasManyThrough` neither the parent or child model has any of
/// the foreign keys. Only the join model does. So we have to include those in the result.
#[derive(Debug)]
pub enum LoadChildrenOutput<ChildModel, JoinModel = ()> {
    /// Child models were loaded.
    ChildModels(Vec<ChildModel>),
    /// Child models along with the respective join model was loaded.
    ChildAndJoinModels(Vec<(ChildModel, JoinModel)>),
}

/// The main entry point trait for doing eager loading.
///
/// You shouldn't need to implement this trait yourself even when customizing eager loading.
pub trait EagerLoadAllChildren where Self: GraphqlNodeForModel {
    /// Are `after` the `before` nodes with all their associations that `trail` asks for eager
    /// loaded, given the `models` they were built from?
    ///
    /// An impl that does not say accepts every outcome.
    open spec fn all_children_loaded<'t>(
        before: Seq<Self>,
        after: Seq<Self>,
        models: Seq<Self::Model>,
        ctx: Self::Context,
        trail: QueryTrail<'t, Self, Walked>,
    ) -> bool {
        true
    }

    /// Can eager loading the `before` nodes, built from `models`, as `trail` asks, fail with
    /// `error`?
    ///
    /// An impl that does not say allows every error.
    open spec fn loading_fails_with<'t>(
        before: Seq<Self>,
        models: Seq<Self::Model>,
        ctx: Self::Context,
        trail: QueryTrail<'t, Self, Walked>,
        error: Self::Error,
    ) -> bool {
        true
    }

    /// For each field in your GraphQL type that implements [`EagerLoadChildrenOfType`] call
    /// `eager_load_children` to do eager loading of that field.
    ///
    /// This is the function you should call for eager loading values for a GraphQL field that
    /// returns a list.
    fn eager_load_all_children_for_each(
        nodes: &mut [Self],
        models: &[Self::Model],
        ctx: &Self::Context,
        trail: &QueryTrail<'_, Self, Walked>,
    ) -> (r: Result<(), Self::Error>)
        ensures
            final(nodes)@.len() == old(nodes)@.len(),
            r is Ok ==> Self::all_children_loaded(old(nodes)@, final(nodes)@, models@, *ctx, *trail),
            r matches Err(e) ==> Self::loading_fails_with(old(nodes)@, models@, *ctx, *trail, e),
    ;

    /// Perform eager loading for a single GraphQL value.
    ///
    /// This is the function you should call for eager loading associations of a single value.
    fn eager_load_all_children(
        node: Self,
        models: &[Self::Model],
        ctx: &Self::Context,
        trail: &QueryTrail<'_, Self, Walked>,
    ) -> (r: Result<Self, Self::Error>)
        ensures
            r matches Ok(loaded) ==> Self::all_children_loaded(
                seq![node],
                seq![loaded],
                models@,
                *ctx,
                *trail,
            ),
            r matches Err(e) ==> Self::loading_fails_with(seq![node], models@, *ctx, *trail, e),
    {
        let mut nodes = Vec::new();
        nodes.push(node);
        assert(nodes@ =~= seq![node]);
        Self::eager_load_all_children_for_each(nodes.as_mut_slice(), models, ctx, trail)?;
        // `eager_load_all_children_for_each` neither adds nor removes nodes, so the one node is
        // still there.
        assert(nodes@ =~= seq![nodes@[0]]);
        Ok(nodes.remove(0))
    }
}

/// How should associated values actually be loaded?
///
/// Normally `T` will be your id type but for `HasMany` and `HasManyThrough` it might also be other
/// values. `Args` is the type of arguments your GraphQL field takes.
pub trait LoadFrom<T, Args = ()>: Sized {
    /// The error type. This must match the error set in `#[eager_loading(error = _)]`.
    type Error;

    /// Your Juniper context type.
    ///
    /// This will typically contain a database connection or a connection to some external API.
    type Context;

    /// Perform the load.
    fn load(ids: &[T], args: &Args, context: &Self::Context) -> Result<Vec<Self>, Self::Error>;
}


/// How the children of one association of a GraphQL struct pair up with their parents.
///
/// This is the part of [`EagerLoadChildrenOfType`] that decides, for loaded children, which
/// parent each belongs to and where it is stored. `'a` is the lifetime the field arguments may
/// borrow from the query.
pub trait ChildrenOfType<'a, Child, ImplContext, JoinModel = ()> where
    Self: GraphqlNodeForModel,
    Child: Clone,
    JoinModel: 'static + Clone,
 {
    /// The types of arguments the GraphQL field takes.
    type FieldArguments;

    /// The association field of `Self` that holds the children.
    type ChildAssociation: Association<Child>;

    /// Do `child_of`, `association_of`, `with_association` and `join_model_is_unit` describe
    /// this impl?
    ///
    /// An impl that does not say makes no claim through them: `is_child_of`, `association` and
    /// `unit_join_model` then promise nothing of what they return.
    open spec fn describes_children() -> bool {
        false
    }

    /// Is the join model the unit type `()`? That is so for every association but
    /// `HasManyThrough`, and only then can children be loaded without join models.
    ///
    /// Only claimed of an impl when `describes_children` holds.
    open spec fn join_model_is_unit() -> bool {
        false
    }

    /// The unit value `()` as the join model, paired with children loaded without join models;
    /// `None` when the join model is another type.
    fn unit_join_model() -> (unit: Option<JoinModel>)
        ensures
            Self::describes_children() ==> (unit is Some <==> Self::join_model_is_unit()),
    ;

    /// Does this parent and this child belong together?
    ///
    /// Only claimed of an impl when `describes_children` holds.
    open spec fn child_of(
        parent: Self,
        child: Child,
        join_model: JoinModel,
        field_args: Self::FieldArguments,
        context: Self::Context,
    ) -> bool {
        true
    }

    /// The association field of a node.
    ///
    /// Only claimed of an impl when `describes_children` holds.
    open spec fn association_of(node: Self) -> Self::ChildAssociation {
        arbitrary()
    }

    /// `node` with its association field replaced by `association`, and nothing else changed.
    ///
    /// Only claimed of an impl when `describes_children` holds.
    open spec fn with_association(node: Self, association: Self::ChildAssociation) -> Self {
        arbitrary()
    }

    /// Does this parent and this child belong together?
    ///
    /// The `join_model` is only used for `HasManyThrough` associations.
    fn is_child_of(
        parent: &Self,
        child: &Child,
        join_model: &JoinModel,
        field_args: &Self::FieldArguments,
        context: &Self::Context,
    ) -> (r: bool)
        ensures
            Self::describes_children() ==> r == Self::child_of(
                *parent,
                *child,
                *join_model,
                *field_args,
                *context,
            ),
    ;

    /// Return the particular association field.
    fn association(node: &mut Self) -> (association: &mut Self::ChildAssociation)
        ensures
            Self::describes_children() ==> {
                &&& *association == Self::association_of(*old(node))
                &&& Self::association_of(*final(node)) == *final(association)
                &&& *final(node) == Self::with_association(*old(node), *final(association))
            },
    ;
}

/// Perform eager loading for a single association of a GraphQL struct.
///
/// `#[derive(EagerLoading)]` implements this trait for each association field of a GraphQL
/// struct. `Child` is the GraphQL type of the associated values, `ImplContext` tells apart two
/// associations to the same type, and `JoinModel` is the model that pairs parents with children
/// in a `HasManyThrough` (`()` for the other associations).
pub trait EagerLoadChildrenOfType<'a, Child, ImplContext, JoinModel = ()>: ChildrenOfType<
    'a,
    Child,
    ImplContext,
    JoinModel,
> where
    Self: GraphqlNodeForModel,
    Child: GraphqlNodeForModel<Context = Self::Context, Error = Self::Error>
        + EagerLoadAllChildren
        + Clone,
    JoinModel: 'static + Clone,
 {
    /// Can `load_children` give `output` for these parent models, field arguments and context?
    ///
    /// An impl that does not say allows every output.
    open spec fn loaded_children(
        models: Seq<Self::Model>,
        field_args: Self::FieldArguments,
        ctx: Self::Context,
        output: Result<LoadChildrenOutput<Child::Model, JoinModel>, Self::Error>,
    ) -> bool {
        true
    }

    /// Load the children from the data store.
    fn load_children(
        models: &[Self::Model],
        field_args: &Self::FieldArguments,
        ctx: &Self::Context,
    ) -> (r: Result<LoadChildrenOutput<Child::Model, JoinModel>, Self::Error>)
        ensures
            Self::loaded_children(models@, *field_args, *ctx, r),
            Self::describes_children() ==> (r matches Ok(LoadChildrenOutput::ChildModels(_))
                ==> Self::join_model_is_unit()),
    ;

    /// Combine all the methods above to eager load the children for a list of GraphQL values and
    /// models.
    fn eager_load_children(
        nodes: &mut [Self],
        models: &[Self::Model],
        ctx: &Self::Context,
        trail: &QueryTrail<'a, Child, Walked>,
        field_args: &Self::FieldArguments,
    ) -> (r: Result<(), Self::Error>)
        ensures
            final(nodes)@.len() == old(nodes)@.len(),
            r is Ok ==> exists|
                output: LoadChildrenOutput<Child::Model, JoinModel>,
                child_models: Seq<(Child::Model, JoinModel)>,
            |
                #![trigger Self::loaded_children(models@, *field_args, *ctx, Ok(output)), paired_with_join_models(output, child_models)]
                {
                    &&& Self::loaded_children(models@, *field_args, *ctx, Ok(output))
                    &&& paired_or_dropped::<'a, Self, Child, ImplContext, JoinModel>(
                        output,
                        child_models,
                    )
                    &&& children_loaded_and_attached::<'a, Self, Child, ImplContext, JoinModel>(
                        old(nodes)@,
                        final(nodes)@,
                        child_models,
                        *field_args,
                        *ctx,
                        *trail,
                    )
                },
            r is Err ==> final(nodes)@ == old(nodes)@,
            r matches Err(e) ==> Self::loaded_children(models@, *field_args, *ctx, Err(e)) || exists|
                output: LoadChildrenOutput<Child::Model, JoinModel>,
                child_models: Seq<(Child::Model, JoinModel)>,
                built: Seq<Child>,
                model_copies: Seq<Child::Model>,
            |
                #![trigger Self::loaded_children(models@, *field_args, *ctx, Ok(output)), paired_with_join_models(output, child_models), Child::loading_fails_with(built, model_copies, *ctx, *trail, e)]
                {
                    &&& Self::loaded_children(models@, *field_args, *ctx, Ok(output))
                    &&& paired_or_dropped::<'a, Self, Child, ImplContext, JoinModel>(
                        output,
                        child_models,
                    )
                    &&& built.len() == child_models.len()
                    &&& forall|k: int|
                        0 <= k < child_models.len() ==> Child::node_for(
                            #[trigger] built[k],
                            child_models[k].0,
                        )
                    &&& clones_of(firsts(child_models), model_copies)
                    &&& Child::loading_fails_with(built, model_copies, *ctx, *trail, e)
                },
    {
        let loaded = Self::load_children(models, field_args, ctx);
        let ghost output = loaded;
        let child_models: Vec<(Child::Model, JoinModel)> = match loaded {
            Ok(LoadChildrenOutput::ChildModels(child_models)) => pair_with_unit_join_model(
                child_models,
                &Self::unit_join_model(),
            ),
            Ok(LoadChildrenOutput::ChildAndJoinModels(model_and_join_pairs)) => model_and_join_pairs,
            Err(e) => return Err(e),
        };
        assert(paired_or_dropped::<'a, Self, Child, ImplContext, JoinModel>(
            output->Ok_0,
            child_models@,
        ));
        let mut fresh_children: Vec<Child> = Vec::new();
        let mut child_models_without_join_models: Vec<Child::Model> = Vec::new();
        let mut k: usize = 0;
        while k < child_models.len()
            invariant
                k <= child_models@.len(),
                fresh_children@.len() == k,
                child_models_without_join_models@.len() == k,
                forall|j: int|
                    0 <= j < k ==> Child::node_for(
                        #[trigger] fresh_children@[j],
                        child_models@[j].0,
                    ),
                forall|j: int|
                    0 <= j < k ==> cloned(
                        child_models@[j].0,
                        #[trigger] child_models_without_join_models@[j],
                    ),
            decreases child_models@.len() - k,
        {
            fresh_children.push(Child::new_from_model(&child_models[k].0));
            child_models_without_join_models.push(child_models[k].0.clone());
            k = k + 1;
        }
        let ghost built = fresh_children@;
        match Child::eager_load_all_children_for_each(
            fresh_children.as_mut_slice(),
            child_models_without_join_models.as_slice(),
            ctx,
            trail,
        ) {
            Ok(()) => {},
            Err(e) => {
                proof {
                    let model_copies = child_models_without_join_models@;
                    assert(clones_of(firsts(child_models@), model_copies));
                    assert(Self::loaded_children(models@, *field_args, *ctx, Ok(output->Ok_0)));
                    assert(Child::loading_fails_with(built, model_copies, *ctx, *trail, e));
                }
                return Err(e);
            },
        }
        let mut children: Vec<(Child, JoinModel)> = Vec::new();
        let count = child_models.len();
        let mut k: usize = 0;
        for child in it: fresh_children
            invariant
                count == child_models@.len(),
                it.seq().len() == child_models@.len(),
                children@.len() == it.index(),
                k == it.index(),
                forall|j: int|
                    0 <= j < it.index() ==> (#[trigger] children@[j]).0 == it.seq()[j] && cloned(
                        child_models@[j].1,
                        children@[j].1,
                    ),
        {
            let join_model = child_models[k].1.clone();
            children.push((child, join_model));
            k = k + 1;
        }
        attach_children(nodes, &children, field_args, ctx);
        proof {
            assert(Self::loaded_children(models@, *field_args, *ctx, Ok(output->Ok_0)));
            let model_copies = child_models_without_join_models@;
            assert(clones_of(firsts(child_models@), model_copies));
            assert(firsts(children@) =~= fresh_children@);
            assert(children_loaded_and_attached::<'a, Self, Child, ImplContext, JoinModel>(
                old(nodes)@,
                nodes@,
                child_models@,
                *field_args,
                *ctx,
                *trail,
            ));
        }
        Ok(())
    }

}

/// Are `pairs` the children of `output` with their join models, every one kept and in order?
///
/// Children loaded with their join models come paired with them; children loaded alone are each
/// paired with the unit join model.
pub open spec fn paired_with_join_models<M, J>(output: LoadChildrenOutput<M, J>, pairs: Seq<(M, J)>) -> bool {
    match output {
        LoadChildrenOutput::ChildAndJoinModels(given) => pairs == given@,
        LoadChildrenOutput::ChildModels(models) => {
            &&& pairs.len() == models@.len()
            &&& forall|k: int| 0 <= k < pairs.len() ==> (#[trigger] pairs[k]).0 == models@[k]
        },
    }
}

/// Are `pairs` the children of `output` with their join models, or, only where an impl that does
/// not describe itself gives children without join models but no unit join model, none of them?
///
/// An impl that describes itself gives children without join models only when its join model is
/// `()`, and then has the unit join model: every child is kept.
pub open spec fn paired_or_dropped<'a, N, C, I, J>(output: LoadChildrenOutput<C::Model, J>, pairs: Seq<(C::Model, J)>) -> bool where
    N: ChildrenOfType<'a, C, I, J>,
    C: GraphqlNodeForModel + Clone,
    J: 'static + Clone,
 {
    ||| paired_with_join_models(output, pairs)
    ||| !N::describes_children() && output is ChildModels && pairs.len() == 0
}

/// The children, among `children` paired with their join models, that belong to `parent`, in
/// order.
pub open spec fn matching_children<'a, N, C, I, J>(
    parent: N,
    children: Seq<(C, J)>,
    field_args: N::FieldArguments,
    context: N::Context,
) -> Seq<C> where
    N: ChildrenOfType<'a, C, I, J>,
    C: Clone,
    J: 'static + Clone,
    decreases children.len(),
{
    if children.len() == 0 {
        Seq::empty()
    } else {
        let earlier = matching_children::<'a, N, C, I, J>(
            parent,
            children.drop_last(),
            field_args,
            context,
        );
        let (child, join_model) = children.last();
        if N::child_of(parent, child, join_model, field_args, context) {
            earlier.push(child)
        } else {
            earlier
        }
    }
}

/// Is every element of `copies` a clone of the element of `sources` at the same position?
pub open spec fn clones_of<C: Clone>(sources: Seq<C>, copies: Seq<C>) -> bool {
    &&& copies.len() == sources.len()
    &&& forall|k: int| 0 <= k < sources.len() ==> cloned(#[trigger] sources[k], copies[k])
}

/// Is `after` the node `before` with, in its association and nothing else, clones of the
/// children that belong to it stored in order, and loading finished?
///
/// This is said only of impls whose spec functions describe them (`describes_children`); of
/// another impl nothing is said.
pub open spec fn children_attached<'a, N, C, I, J>(
    before: N,
    after: N,
    children: Seq<(C, J)>,
    field_args: N::FieldArguments,
    context: N::Context,
) -> bool where
    N: ChildrenOfType<'a, C, I, J>,
    C: Clone,
    J: 'static + Clone,
 {
    N::describes_children() ==> exists|stored: Seq<C>|
        {
            &&& clones_of(matching_children::<'a, N, C, I, J>(before, children, field_args, context), stored)
            &&& N::association_of(after)@ == loaded_with::<C, N::ChildAssociation>(
                N::association_of(before)@,
                stored,
            )
            &&& after == N::with_association(before, N::association_of(after))
        }
}


/// Does each node of `after` hold what the node of `before` at the same position held, with
/// clones of the children that belong to it stored on it in order, and loading finished?
pub open spec fn children_attached_to_all<'a, N, C, I, J>(
    before: Seq<N>,
    after: Seq<N>,
    children: Seq<(C, J)>,
    field_args: N::FieldArguments,
    context: N::Context,
) -> bool where
    N: ChildrenOfType<'a, C, I, J>,
    C: Clone,
    J: 'static + Clone,
 {
    &&& after.len() == before.len()
    &&& forall|i: int|
        0 <= i < before.len() ==> children_attached::<'a, N, C, I, J>(
            #[trigger] before[i],
            after[i],
            children,
            field_args,
            context,
        )
}

/// The first elements of `pairs`, in order.
pub open spec fn firsts<A, B>(pairs: Seq<(A, B)>) -> Seq<A> {
    Seq::new(pairs.len(), |k: int| pairs[k].0)
}

/// Were the children in `after` built from `child_models`, eager loaded as `trail` asks for, and
/// attached to the nodes of `before` they belong to?
pub open spec fn children_loaded_and_attached<'a, N, C, I, J>(
    before: Seq<N>,
    after: Seq<N>,
    child_models: Seq<(C::Model, J)>,
    field_args: N::FieldArguments,
    context: N::Context,
    trail: QueryTrail<'a, C, Walked>,
) -> bool where
    N: ChildrenOfType<'a, C, I, J>,
    C: GraphqlNodeForModel<Context = N::Context> + EagerLoadAllChildren + Clone,
    J: 'static + Clone,
 {
    exists|built: Seq<C>, model_copies: Seq<C::Model>, children: Seq<(C, J)>|
        #![trigger C::all_children_loaded(built, firsts(children), model_copies, context, trail)]
        {
            &&& built.len() == child_models.len()
            &&& forall|k: int|
                0 <= k < child_models.len() ==> C::node_for(#[trigger] built[k], child_models[k].0)
            &&& clones_of(firsts(child_models), model_copies)
            &&& C::all_children_loaded(
                built,
                firsts(children),
                model_copies,
                context,
                trail,
            )
            &&& children.len() == child_models.len()
            &&& forall|k: int|
                0 <= k < child_models.len() ==> cloned(
                    child_models[k].1,
                    (#[trigger] children[k]).1,
                )
            &&& children_attached_to_all::<'a, N, C, I, J>(before, after, children, field_args, context)
        }
}

/// Store on `node` clones of the children that belong to it, in order, then finish loading its
/// association.
pub fn attach_children_to_node<'a, N, C, I, J>(
    node: &mut N,
    children: &Vec<(C, J)>,
    field_args: &N::FieldArguments,
    ctx: &N::Context,
) where
    N: ChildrenOfType<'a, C, I, J>,
    C: Clone,
    J: 'static + Clone,

    ensures
        children_attached::<'a, N, C, I, J>(*old(node), *final(node), children@, *field_args, *ctx),
{
    let ghost before = *node;
    let mut matching: Vec<C> = Vec::new();
    let ghost mut sources: Seq<C> = Seq::empty();
    let mut k: usize = 0;
    while k < children.len()
        invariant
            *node == before,
            k <= children@.len(),
            N::describes_children() ==> sources == matching_children::<'a, N, C, I, J>(
                before,
                children@.take(k as int),
                *field_args,
                *ctx,
            ),
            clones_of(sources, matching@),
        decreases children@.len() - k,
    {
        let pair = &children[k];
        if N::is_child_of(node, &pair.0, &pair.1, field_args, ctx) {
            let copy = pair.0.clone();
            matching.push(copy);
            proof {
                sources = sources.push(pair.0);
            }
        }
        assert(children@.take(k + 1).drop_last() =~= children@.take(k as int));
        k = k + 1;
    }
    assert(children@.take(k as int) =~= children@);
    let association = N::association(node);
    let ghost start = association@;
    let ghost stored = matching@;
    for child in it: matching
        invariant
            it.seq() == stored,
            association@ == crate::association::stored_all::<C, N::ChildAssociation>(
                start,
                stored.take(it.index() as int),
            ),
    {
        association.loaded_child(child);
        assert(stored.take(it.index() + 1).drop_last() =~= stored.take(it.index() as int));
    }
    assert(stored.take(stored.len() as int) =~= stored);
    association.assert_loaded_otherwise_failed();
}


/// Store on each of `nodes` clones of the children that belong to it, in order, then finish
/// loading its association.
pub fn attach_children<'a, N, C, I, J>(
    nodes: &mut [N],
    children: &Vec<(C, J)>,
    field_args: &N::FieldArguments,
    ctx: &N::Context,
) where
    N: ChildrenOfType<'a, C, I, J>,
    C: Clone,
    J: 'static + Clone,

    ensures
        children_attached_to_all::<'a, N, C, I, J>(
            old(nodes)@,
            final(nodes)@,
            children@,
            *field_args,
            *ctx,
        ),
    decreases old(nodes)@.len(),
{
    if nodes.len() == 0 {
        return ;
    }
    let ghost before = nodes@;
    let (head, tail) = nodes.split_at_mut(1);
    let ghost head_before = head@;
    let ghost tail_before = tail@;
    match head.first_mut() {
        Some(node) => attach_children_to_node(node, children, field_args, ctx),
        None => {},
    }
    attach_children(tail, children, field_args, ctx);
    assert forall|i: int| 0 <= i < before.len() implies children_attached::<'a, N, C, I, J>(
        #[trigger] before[i],
        nodes@[i],
        children@,
        *field_args,
        *ctx,
    ) by {
        if i == 0 {
            assert(head_before[0] == before[0]);
        } else {
            assert(tail_before[i - 1] == before[i]);
        }
    }
}


/// Children loaded without join models, each paired with a clone of the unit join model `unit`.
///
/// Such children only come with associations whose join model is `()`, and `unit` is that
/// value. For any other join model type there is no such value (`unit` is `None`): the children
/// cannot be paired, and none is returned.
fn pair_with_unit_join_model<M, J: Clone>(child_models: Vec<M>, unit: &Option<J>) -> (pairs: Vec<(M, J)>)
    ensures
        match *unit {
            Some(unit) => {
                &&& pairs@.len() == child_models@.len()
                &&& forall|k: int|
                    0 <= k < pairs@.len() ==> (#[trigger] pairs@[k]).0 == child_models@[k]
                        && cloned(unit, pairs@[k].1)
            },
            None => pairs@.len() == 0,
        },
{
    let mut pairs: Vec<(M, J)> = Vec::new();
    match unit {
        Some(unit) => {
            let ghost models = child_models@;
            for model in it: child_models
                invariant
                    it.seq() == models,
                    pairs@.len() == it.index(),
                    forall|k: int|
                        0 <= k < pairs@.len() ==> (#[trigger] pairs@[k]).0 == models[k] && cloned(
                            *unit,
                            pairs@[k].1,
                        ),
            {
                pairs.push((model, unit.clone()));
            }
        },
        None => {},
    }
    pairs
}

/// Once children are attached to a node whose association is a `HasOne`, it holds a clone of
/// the last child that belongs to the node; when none belongs, one that was not loaded before
/// reports that its load failed.
pub proof fn lemma_attached_has_one<'a, N, C, I, J>(
    before: N,
    after: N,
    children: Seq<(C, J)>,
    field_args: N::FieldArguments,
    context: N::Context,
) where
    N: ChildrenOfType<'a, C, I, J, ChildAssociation = HasOne<C>>,
    C: Clone,
    J: 'static + Clone,

    requires
        N::describes_children(),
        children_attached::<'a, N, C, I, J>(before, after, children, field_args, context),
    ensures
        ({
            let matching = matching_children::<'a, N, C, I, J>(before, children, field_args, context);
            let held = N::association_of(after)@;
            &&& matching.len() > 0 ==> (held matches Ok(child) && cloned(matching.last(), child))
            &&& matching.len() == 0 && N::association_of(before)@ == Err::<C, Error>(
                Error::NotLoaded(AssociationType::HasOne),
            ) ==> held == Err::<C, Error>(Error::LoadFailed(AssociationType::HasOne))
        }),
{
    let matching = matching_children::<'a, N, C, I, J>(before, children, field_args, context);
    let stored = choose|stored: Seq<C>|
        {
            &&& clones_of(matching, stored)
            &&& N::association_of(after)@ == loaded_with::<C, N::ChildAssociation>(
                N::association_of(before)@,
                stored,
            )
            &&& after == N::with_association(before, N::association_of(after))
        };
    lemma_has_one_loaded_with(N::association_of(before)@, stored);
    if matching.len() > 0 {
        assert(cloned(matching[matching.len() - 1], stored[stored.len() - 1]));
    }
}

/// Once children are attached to a node whose association is a `HasMany`, it holds what it held
/// followed by clones of every child that belongs to the node, in order.
pub proof fn lemma_attached_has_many<'a, N, C, I, J>(
    before: N,
    after: N,
    children: Seq<(C, J)>,
    field_args: N::FieldArguments,
    context: N::Context,
) where
    N: ChildrenOfType<'a, C, I, J, ChildAssociation = HasMany<C>>,
    C: Clone,
    J: 'static + Clone,

    requires
        N::describes_children(),
        children_attached::<'a, N, C, I, J>(before, after, children, field_args, context),
    ensures
        exists|stored: Seq<C>|
            {
                &&& clones_of(
                    matching_children::<'a, N, C, I, J>(before, children, field_args, context),
                    stored,
                )
                &&& N::association_of(after)@ == N::association_of(before)@ + stored
            },
{
    let matching = matching_children::<'a, N, C, I, J>(before, children, field_args, context);
    let stored = choose|stored: Seq<C>|
        {
            &&& clones_of(matching, stored)
            &&& N::association_of(after)@ == loaded_with::<C, N::ChildAssociation>(
                N::association_of(before)@,
                stored,
            )
            &&& after == N::with_association(before, N::association_of(after))
        };
    lemma_has_many_loaded_with(N::association_of(before)@, stored);
}

} // verus!
