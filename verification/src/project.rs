//! The record type of the repository and its mathematical image.

use vstd::prelude::*;

verus! {

/// One row of the `projects` table. `id` and `created_at` are assigned by
/// the store on insertion and never change afterwards; `name` and
/// `description` are arbitrary caller-supplied text.
pub struct Project {
    pub id: i64,
    pub name: String,
    pub description: String,
    pub created_at: i64,
}

/// The mathematical image of a record: unbounded integers and character
/// sequences, for use in contracts.
pub struct ProjectView {
    pub id: int,
    pub name: Seq<char>,
    pub description: Seq<char>,
    pub created_at: int,
}

impl View for Project {
    type V = ProjectView;

    open spec fn view(&self) -> ProjectView {
        ProjectView {
            id: self.id as int,
            name: self.name@,
            description: self.description@,
            created_at: self.created_at as int,
        }
    }
}

/// The images of a sequence of records, in the same order.
pub open spec fn views_of(rows: Seq<Project>) -> Seq<ProjectView> {
    Seq::new(rows.len(), |i: int| rows[i]@)
}

impl Project {
    /// A field-for-field copy of the record.
    pub fn duplicate(&self) -> (r: Project)
        ensures
            r@ == self@,
    {
        Project {
            id: self.id,
            name: self.name.clone(),
            description: self.description.clone(),
            created_at: self.created_at,
        }
    }
}

/// The single error kind of the repository: the storage layer refused the
/// request. In this model that happens exactly when a listing is asked for
/// with a negative limit or offset, which the backing engine rejects.
#[derive(Clone, Copy, Debug, PartialEq, Eq, Structural)]
pub struct PersistenceError;

} // verus!
