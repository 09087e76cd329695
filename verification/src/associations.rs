use vstd::prelude::*;

use crate::association::{loaded_with, Association};
use crate::error::{AssociationType, Error};

verus! {

/// A non-optional "has one" association.
///
/// A user with a `country_id` field "has one" country. [`HasOne::try_unwrap`] returns an error if
/// the value has not been loaded, or if the load failed (for example when no country has the id
/// the user points at).
#[derive(Debug, Clone, Eq, PartialEq, Ord, PartialOrd)]
pub struct HasOne<T>(HasOneInner<T>);

#[derive(Debug, Clone, Eq, PartialEq, Ord, PartialOrd)]
enum HasOneInner<T> {
    Loaded(T),
    NotLoaded,
    LoadFailed,
}

impl<T> View for HasOneInner<T> {
    type V = Result<T, Error>;

    closed spec fn view(&self) -> Result<T, Error> {
        match self {
            HasOneInner::Loaded(inner) => Ok(*inner),
            HasOneInner::NotLoaded => Err(Error::NotLoaded(AssociationType::HasOne)),
            HasOneInner::LoadFailed => Err(Error::LoadFailed(AssociationType::HasOne)),
        }
    }
}

impl<T> HasOneInner<T> {
    fn try_unwrap(&self) -> (r: Result<&T, Error>)
        ensures
            match r {
                Ok(t) => self@ == Ok::<T, Error>(*t),
                Err(e) => self@ == Err::<T, Error>(e),
            },
    {
        match self {
            HasOneInner::Loaded(inner) => Ok(inner),
            HasOneInner::NotLoaded => Err(Error::NotLoaded(AssociationType::HasOne)),
            HasOneInner::LoadFailed => Err(Error::LoadFailed(AssociationType::HasOne)),
        }
    }

    fn assert_loaded_otherwise_failed(&mut self)
        ensures
            final(self)@ == has_one_finished(old(self)@),
    {
        match self {
            HasOneInner::NotLoaded => {
                *self = HasOneInner::LoadFailed;
            },
            _ => {},
        }
    }
}


impl<T> HasOneInner<T> {
    fn default() -> (r: Self)
        ensures
            r@ == Err::<T, Error>(Error::NotLoaded(AssociationType::HasOne)),
    {
        HasOneInner::NotLoaded
    }
}

impl<T> View for HasOne<T> {
    type V = Result<T, Error>;

    /// What [`HasOne::try_unwrap`] gives back: the loaded value, or the error that explains why
    /// there is none.
    closed spec fn view(&self) -> Result<T, Error> {
        self.0@
    }
}

impl<T> Default for HasOne<T> {
    fn default() -> (r: Self)
        ensures
            r@ == Err::<T, Error>(Error::NotLoaded(AssociationType::HasOne)),
    {
        HasOne(HasOneInner::default())
    }
}

impl<T> HasOne<T> {
    /// Borrow the loaded value. If the value has not been loaded it will return an error.
    pub fn try_unwrap(&self) -> (r: Result<&T, Error>)
        ensures
            match r {
                Ok(t) => self@ == Ok::<T, Error>(*t),
                Err(e) => self@ == Err::<T, Error>(e),
            },
    {
        self.0.try_unwrap()
    }
}

/// An optional "has one" association.
///
/// It works exactly like [`HasOne`] except it doesn't error if the association doesn't get
/// loaded: the value then stays `None`.
#[derive(Debug, Clone, Eq, PartialEq, Ord, PartialOrd)]
pub struct OptionHasOne<T>(Option<T>);

impl<T> View for OptionHasOne<T> {
    type V = Option<T>;

    closed spec fn view(&self) -> Option<T> {
        self.0
    }
}

impl<T> Default for OptionHasOne<T> {
    fn default() -> (r: Self)
        ensures
            r@ == None::<T>,
    {
        OptionHasOne(None)
    }
}

impl<T> OptionHasOne<T> {
    /// Borrow the loaded value. If the value has not been loaded it will return `Ok(None)`. It
    /// will not error.
    pub fn try_unwrap(&self) -> (r: Result<&Option<T>, Error>)
        ensures
            r matches Ok(v) && *v == self@,
    {
        Ok(&self.0)
    }
}

/// A "has many" association.
///
/// A user "has many" cars when each car has a `user_id`. [`HasMany::try_unwrap`] never errors: if
/// nothing was loaded the list is empty.
#[derive(Debug, Clone, Eq, PartialEq, Ord, PartialOrd)]
pub struct HasMany<T>(Vec<T>);

impl<T> View for HasMany<T> {
    type V = Seq<T>;

    closed spec fn view(&self) -> Seq<T> {
        self.0@
    }
}

impl<T> Default for HasMany<T> {
    fn default() -> (r: Self)
        ensures
            r@ == Seq::<T>::empty(),
    {
        HasMany(Vec::new())
    }
}

impl<T> HasMany<T> {
    /// Borrow the loaded values. If no values have been loaded it will return an empty list.
    /// It will not return an error.
    pub fn try_unwrap(&self) -> (r: Result<&Vec<T>, Error>)
        ensures
            r matches Ok(v) && v@ == self@,
    {
        Ok(&self.0)
    }
}

/// A "has many through" association.
///
/// A user "has many" companies "through" employments when an employment holds both a `user_id`
/// and a `company_id`. [`HasManyThrough::try_unwrap`] never errors: if nothing was loaded the
/// list is empty.
#[derive(Debug, Clone, Eq, PartialEq, Ord, PartialOrd)]
pub struct HasManyThrough<T>(Vec<T>);

impl<T> View for HasManyThrough<T> {
    type V = Seq<T>;

    closed spec fn view(&self) -> Seq<T> {
        self.0@
    }
}

impl<T> Default for HasManyThrough<T> {
    fn default() -> (r: Self)
        ensures
            r@ == Seq::<T>::empty(),
    {
        HasManyThrough(Vec::new())
    }
}

impl<T> HasManyThrough<T> {
    /// Borrow the loaded values. If no values have been loaded it will return an empty list.
    /// It will not return an error.
    pub fn try_unwrap(&self) -> (r: Result<&Vec<T>, Error>)
        ensures
            r matches Ok(v) && v@ == self@,
    {
        Ok(&self.0)
    }
}


// --
// -- Association for HasOne
// --
/// The view of a `HasOne` once loading has finished: never loaded becomes failed.
pub open spec fn has_one_finished<T>(view: Result<T, Error>) -> Result<T, Error> {
    if view == Err::<T, Error>(Error::NotLoaded(AssociationType::HasOne)) {
        Err(Error::LoadFailed(AssociationType::HasOne))
    } else {
        view
    }
}

impl<T> Association<T> for HasOne<T> {
    open spec fn stored(view: Result<T, Error>, child: T) -> Result<T, Error> {
        Ok(child)
    }

    open spec fn finished(view: Result<T, Error>) -> Result<T, Error> {
        has_one_finished(view)
    }

    fn loaded_child(&mut self, child: T) {
        has_one_loaded_child(self, child)
    }

    fn assert_loaded_otherwise_failed(&mut self) {
        has_one_assert_loaded_otherwise_failed(self)
    }
}

impl<T> Association<T> for HasOne<Box<T>> {
    open spec fn stored(view: Result<Box<T>, Error>, child: T) -> Result<Box<T>, Error> {
        Ok(Box::new(child))
    }

    open spec fn finished(view: Result<Box<T>, Error>) -> Result<Box<T>, Error> {
        has_one_finished(view)
    }

    fn loaded_child(&mut self, child: T) {
        has_one_loaded_child(self, Box::new(child))
    }

    fn assert_loaded_otherwise_failed(&mut self) {
        has_one_assert_loaded_otherwise_failed(self)
    }
}

fn has_one_loaded_child<T>(association: &mut HasOne<T>, child: T)
    ensures
        final(association)@ == Ok::<T, Error>(child),
{
    association.0 = HasOneInner::Loaded(child);
}

fn has_one_assert_loaded_otherwise_failed<T>(association: &mut HasOne<T>)
    ensures
        final(association)@ == has_one_finished(old(association)@),
{
    association.0.assert_loaded_otherwise_failed()
}

// --
// -- Association for OptionHasOne
// --
impl<T> Association<T> for OptionHasOne<T> {
    open spec fn stored(view: Option<T>, child: T) -> Option<T> {
        Some(child)
    }

    open spec fn finished(view: Option<T>) -> Option<T> {
        view
    }

    fn loaded_child(&mut self, child: T) {
        option_has_one_loaded_child(self, Some(child));
    }

    fn assert_loaded_otherwise_failed(&mut self) {
        option_has_one_assert_loaded_otherwise_failed(self)
    }
}

impl<T> Association<T> for OptionHasOne<Box<T>> {
    open spec fn stored(view: Option<Box<T>>, child: T) -> Option<Box<T>> {
        Some(Box::new(child))
    }

    open spec fn finished(view: Option<Box<T>>) -> Option<Box<T>> {
        view
    }

    fn loaded_child(&mut self, child: T) {
        option_has_one_loaded_child(self, Some(Box::new(child)));
    }

    fn assert_loaded_otherwise_failed(&mut self) {
        option_has_one_assert_loaded_otherwise_failed(self)
    }
}

fn option_has_one_loaded_child<T>(association: &mut OptionHasOne<T>, child: Option<T>)
    ensures
        final(association)@ == child,
{
    association.0 = child;
}

fn option_has_one_assert_loaded_otherwise_failed<T>(association: &mut OptionHasOne<T>)
    ensures
        final(association)@ == old(association)@,
{
    match association.0 {
        Some(_) => {},
        None => {
            association.0 = None;
        },
    }
}

// --
// -- Association for HasMany
// --
impl<T> Association<T> for HasMany<T> {
    open spec fn stored(view: Seq<T>, child: T) -> Seq<T> {
        view.push(child)
    }

    open spec fn finished(view: Seq<T>) -> Seq<T> {
        view
    }

    fn loaded_child(&mut self, child: T) {
        self.0.push(child);
    }

    fn assert_loaded_otherwise_failed(&mut self) {
        // cannot fail, defaults to an empty vec
    }
}

// --
// -- Association for HasManyThrough
// --
impl<T> Association<T> for HasManyThrough<T> {
    open spec fn stored(view: Seq<T>, child: T) -> Seq<T> {
        view.push(child)
    }

    open spec fn finished(view: Seq<T>) -> Seq<T> {
        view
    }

    fn loaded_child(&mut self, child: T) {
        self.0.push(child);
    }

    fn assert_loaded_otherwise_failed(&mut self) {
        // cannot fail, defaults to an empty vec
    }
}


// --
// -- What loading leaves in each association
// --
/// A `HasOne` that was handed children holds the last of them; one that was handed none and
/// was never loaded before reports that its load failed, and never reports that it was not
/// loaded.
pub proof fn lemma_has_one_loaded_with<T>(view: Result<T, Error>, children: Seq<T>)
    ensures
        loaded_with::<T, HasOne<T>>(view, children) == (if children.len() > 0 {
            Ok::<T, Error>(children.last())
        } else {
            has_one_finished(view)
        }),
        loaded_with::<T, HasOne<T>>(view, children) != Err::<T, Error>(
            Error::NotLoaded(AssociationType::HasOne),
        ),
{
}

/// Finishing the load of a `HasOne` keeps a loaded value, and finishing it twice leaves what
/// finishing it once leaves.
pub proof fn lemma_has_one_finishing_is_idempotent<T>(view: Result<T, Error>)
    ensures
        view is Ok ==> <HasOne<T> as Association<T>>::finished(view) == view,
        <HasOne<T> as Association<T>>::finished(<HasOne<T> as Association<T>>::finished(view))
            == <HasOne<T> as Association<T>>::finished(view),
{
}

/// A boxed `HasOne` that was handed children holds the last of them, boxed; one that was handed
/// none behaves as an unboxed one.
pub proof fn lemma_boxed_has_one_loaded_with<T>(view: Result<Box<T>, Error>, children: Seq<T>)
    ensures
        loaded_with::<T, HasOne<Box<T>>>(view, children) == (if children.len() > 0 {
            Ok::<Box<T>, Error>(Box::new(children.last()))
        } else {
            has_one_finished(view)
        }),
{
}

/// An `OptionHasOne` that was handed children holds the last of them; otherwise it keeps what
/// it held.
pub proof fn lemma_option_has_one_loaded_with<T>(view: Option<T>, children: Seq<T>)
    ensures
        loaded_with::<T, OptionHasOne<T>>(view, children) == (if children.len() > 0 {
            Some(children.last())
        } else {
            view
        }),
{
}

/// A boxed `OptionHasOne` that was handed children holds the last of them, boxed; otherwise it
/// keeps what it held.
pub proof fn lemma_boxed_option_has_one_loaded_with<T>(view: Option<Box<T>>, children: Seq<T>)
    ensures
        loaded_with::<T, OptionHasOne<Box<T>>>(view, children) == (if children.len() > 0 {
            Some(Box::new(children.last()))
        } else {
            view
        }),
{
}

/// A `HasMany` holds what it held followed by all the children it was handed, in order.
pub proof fn lemma_has_many_loaded_with<T>(view: Seq<T>, children: Seq<T>)
    ensures
        loaded_with::<T, HasMany<T>>(view, children) == view + children,
    decreases children.len(),
{
    if children.len() > 0 {
        lemma_has_many_loaded_with(view, children.drop_last());
        assert(view + children == (view + children.drop_last()).push(children.last()));
    } else {
        assert(view + children == view);
    }
}

/// A `HasManyThrough` holds what it held followed by all the children it was handed, in order.
pub proof fn lemma_has_many_through_loaded_with<T>(view: Seq<T>, children: Seq<T>)
    ensures
        loaded_with::<T, HasManyThrough<T>>(view, children) == view + children,
    decreases children.len(),
{
    if children.len() > 0 {
        lemma_has_many_through_loaded_with(view, children.drop_last());
        assert(view + children == (view + children.drop_last()).push(children.last()));
    } else {
        assert(view + children == view);
    }
}

} // verus!
