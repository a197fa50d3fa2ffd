//! Catalog records for projects, optionally owned by a customer.

use vstd::prelude::*;

verus! {

/// One project record: a selectable id, its display name, and the id of the
/// customer that owns it, when any.
#[derive(Debug, Clone)]
pub struct Project {
    pub id: i64,
    pub name: String,
    pub customer_id: Option<i64>,
}

/// The wrapper shape catalog data arrives in: one record per object.
#[derive(Debug, Clone)]
pub struct ProjectObject {
    pub project: Project,
}

} // verus!
