//! References from one entity to another.

use crate::entity::Entity;
use vstd::prelude::*;

verus! {

/// A reference to one record of another entity type: the key of that record
/// and, once it has been loaded, the record itself. Only the key is stored in
/// the referring record's column.
#[derive(Debug)]
pub struct ToOne<Id, E: Entity> {
    pub id: Id,
    pub entity: Option<E>,
}

impl<Id, E: Entity> ToOne<Id, E> {
    /// A reference that holds the key alone, as it is read from a column.
    pub fn from_id(id: Id) -> (reference: ToOne<Id, E>)
        ensures
            reference.id == id,
            reference.entity is None,
    {
        ToOne { id, entity: None }
    }
}

} // verus!
