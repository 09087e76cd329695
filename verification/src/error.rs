use vstd::prelude::*;

verus! {

/// The types of associations.
///
/// This is used for [`Error`] to report which kind of association encountered an error.
#[derive(Debug, Copy, Clone, Eq, PartialEq, Hash, Structural)]
pub enum AssociationType {
    /// There was an error with a `HasOne`.
    HasOne,
    /// There was an error with an `OptionHasOne`.
    OptionHasOne,
    /// There was an error with a `HasMany`.
    HasMany,
    /// There was an error with a `HasManyThrough`.
    HasManyThrough,
}

/// The name of an association type, as its `Debug` form prints it.
pub open spec fn association_type_name(kind: AssociationType) -> Seq<char> {
    match kind {
        AssociationType::HasOne => "HasOne"@,
        AssociationType::OptionHasOne => "OptionHasOne"@,
        AssociationType::HasMany => "HasMany"@,
        AssociationType::HasManyThrough => "HasManyThrough"@,
    }
}

impl AssociationType {
    /// The name of the association type.
    pub fn name(&self) -> (name: &'static str)
        ensures
            name@ == association_type_name(*self),
    {
        match self {
            AssociationType::HasOne => {
                proof {
                    reveal_strlit("HasOne");
                }
                "HasOne"
            },
            AssociationType::OptionHasOne => {
                proof {
                    reveal_strlit("OptionHasOne");
                }
                "OptionHasOne"
            },
            AssociationType::HasMany => {
                proof {
                    reveal_strlit("HasMany");
                }
                "HasMany"
            },
            AssociationType::HasManyThrough => {
                proof {
                    reveal_strlit("HasManyThrough");
                }
                "HasManyThrough"
            },
        }
    }
}

/// The kinds of errors that can happen when doing eager loading.
#[derive(Debug)]
pub enum Error {
    /// The association was not loaded.
    ///
    /// Did you forget to call `eager_load_all_children_for_each`?
    NotLoaded(AssociationType),
    /// Loading the association failed. This can only happen when using `HasOne`. All the other
    /// association types have defaults.
    LoadFailed(AssociationType),
}

/// The human readable message of an error.
pub open spec fn error_message(error: Error) -> Seq<char> {
    match error {
        Error::NotLoaded(kind) => "`"@ + association_type_name(kind)
            + "` should have been eager loaded, but wasn't"@,
        Error::LoadFailed(kind) => "Failed to load `"@ + association_type_name(kind) + "`"@,
    }
}

impl Error {
    /// The human readable message of the error.
    pub fn to_string(&self) -> (message: String)
        ensures
            message@ == error_message(*self),
    {
        match self {
            Error::NotLoaded(kind) => {
                let mut message = String::from_str("`");
                message.append(kind.name());
                message.append("` should have been eager loaded, but wasn't");
                proof {
                    reveal_strlit("`");
                    reveal_strlit("` should have been eager loaded, but wasn't");
                }
                message
            },
            Error::LoadFailed(kind) => {
                let mut message = String::from_str("Failed to load `");
                message.append(kind.name());
                message.append("`");
                proof {
                    reveal_strlit("Failed to load `");
                    reveal_strlit("`");
                }
                message
            },
        }
    }
}

} // verus!
