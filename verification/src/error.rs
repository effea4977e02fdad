//! Errors reported by the element API.

use vstd::prelude::*;

verus! {

/// A resource that failed to load or upload, with the reason given.
#[derive(Clone, Debug)]
pub struct ResourceError {
    /// Why the resource failed.
    pub message: String,
}

/// Errors reported by the element API.
#[derive(Debug)]
pub enum RetGuiError {
    /// Thrown when an element cannot be found.
    ElementNotFound,
    /// A resource failed to load.
    ResourceError(ResourceError),
}

impl RetGuiError {
    /// Whether this is the element-not-found error.
    pub fn is_element_not_found(&self) -> (r: bool)
        ensures
            r == (*self is ElementNotFound),
    {
        match self {
            RetGuiError::ElementNotFound => true,
            RetGuiError::ResourceError(_) => false,
        }
    }
}

impl From<ResourceError> for RetGuiError {
    fn from(error: ResourceError) -> (r: RetGuiError)
        ensures
            r == RetGuiError::ResourceError(error),
    {
        RetGuiError::ResourceError(error)
    }
}

impl vstd::std_specs::convert::FromSpecImpl<ResourceError> for RetGuiError {
    open spec fn obeys_from_spec() -> bool {
        true
    }

    open spec fn from_spec(error: ResourceError) -> RetGuiError {
        RetGuiError::ResourceError(error)
    }
}

} // verus!
