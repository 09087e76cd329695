use vstd::prelude::*;

verus! {

/// Methods available for all association types.
///
/// An association is seen through its view: what its `try_unwrap` gives back.
pub trait Association<T>: View + Sized {
    /// The view of the association after `child` has been stored on it.
    spec fn stored(view: Self::V, child: T) -> Self::V;

    /// The view of the association once loading has finished.
    spec fn finished(view: Self::V) -> Self::V;

    /// Store the loaded child on the association.
    fn loaded_child(&mut self, child: T)
        ensures
            final(self)@ == Self::stored(old(self)@, child),
    ;

    /// The association should have been loaded by now, if not store an error inside the
    /// association (if applicable for the particular association).
    fn assert_loaded_otherwise_failed(&mut self)
        ensures
            final(self)@ == Self::finished(old(self)@),
    ;
}

/// The view of an association after each of `children` has been stored on it, in order.
pub open spec fn stored_all<T, A: Association<T>>(view: A::V, children: Seq<T>) -> A::V
    decreases children.len(),
{
    if children.len() == 0 {
        view
    } else {
        A::stored(stored_all::<T, A>(view, children.drop_last()), children.last())
    }
}

/// The view of an association after `children` have been stored on it and loading has finished.
pub open spec fn loaded_with<T, A: Association<T>>(view: A::V, children: Seq<T>) -> A::V {
    A::finished(stored_all::<T, A>(view, children))
}

} // verus!
