//! Eager loading of GraphQL associations, so that resolving a list of values does not issue one
//! query per value (the "N+1 query" problem).

pub mod association;
pub mod code_gen;
pub mod associations;
pub mod eager_loading;
pub mod error;
pub mod prelude;
pub mod unique;

pub use association::Association;
pub use associations::{HasMany, HasManyThrough, HasOne, OptionHasOne};
pub use eager_loading::{
    ChildrenOfType, EagerLoadAllChildren, EagerLoadChildrenOfType, GraphqlNodeForModel,
    LoadChildrenOutput, LoadFrom,
};
pub use error::{AssociationType, Error};
pub use unique::unique;
