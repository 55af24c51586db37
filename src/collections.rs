//! Saved collections: named filter predicates applied to the listing.
use vstd::prelude::*;

verus! {

/// A saved, named filter. `query` is a predicate over the listing's
/// columns, placed verbatim in the listing's filter clause.
#[derive(Debug, Clone)]
pub struct Collection {
    pub id: i32,
    pub name: String,
    pub query: String,
}

/// What creating a collection by name comes to.
#[derive(Debug, Clone)]
pub enum CreateAction {
    /// A collection of that name exists already: it is the result.
    ReturnExisting(Collection),
    /// None exists: insert one, then read it back by name.
    Insert,
}

impl Collection {
    /// Creating is idempotent by name: an existing collection of the same
    /// name is returned as it stands.
    pub fn create_action(existing: Option<Collection>) -> (r: CreateAction)
        ensures
            match existing {
                Some(c) => r == CreateAction::ReturnExisting(c),
                None => r == CreateAction::Insert,
            },
    {
        match existing {
            Some(c) => CreateAction::ReturnExisting(c),
            None => CreateAction::Insert,
        }
    }
}

/// A tag that photos can carry.
#[derive(Debug, Clone)]
pub struct Tag {
    pub id: i32,
    pub tag_name: String,
}

} // verus!
