//! Re-exports the traits needed for doing eager loading. Meant to be glob imported.

pub use crate::association::Association;
pub use crate::eager_loading::ChildrenOfType;
pub use crate::eager_loading::EagerLoadAllChildren;
pub use crate::eager_loading::EagerLoadChildrenOfType;
pub use crate::eager_loading::GraphqlNodeForModel;
