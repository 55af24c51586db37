use vstd::prelude::*;

verus! {

/// The failure kinds of the listing service.
#[derive(Debug, Clone, Copy, PartialEq, Eq, Structural)]
pub enum ServiceError {
    /// An unknown collection or record id.
    NotFound,
    /// The store could not be reached, or a statement failed.
    StoreFailure,
    /// A request parameter could not be understood (a bad sort token,
    /// an unrecognised field alias, a malformed number).
    ValidationFailure,
    /// Required configuration is missing.
    ConfigurationFailure,
}

} // verus!
