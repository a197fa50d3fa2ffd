//! The selectable entry a project becomes in the wizard's choice list.

use vstd::prelude::*;

verus! {

/// A selectable project entry: the project's id, the owning customer's id
/// when any, and a display name that carries the customer's name as a
/// suffix when one owns the project.
#[derive(Debug, Clone)]
pub struct ProjectSelection {
    pub customer_id: Option<i64>,
    pub id: i64,
    pub name: String,
}

} // verus!
