//! A verified model of a minimal project repository: a single `projects`
//! table offering two operations, inserting a record and reading a
//! paginated listing ordered by creation stamp, newest first.

pub mod pagination;
pub mod project;
pub mod store;
