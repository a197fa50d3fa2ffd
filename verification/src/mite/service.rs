//! Catalog records for billable services.

use vstd::prelude::*;

verus! {

/// One catalog record: a selectable id with its display name.
#[derive(Debug, Clone)]
pub struct Service {
    pub id: i64,
    pub name: String,
}

/// The wrapper shape catalog data arrives in: one record per object.
#[derive(Debug, Clone)]
pub struct ServiceObject {
    pub service: Service,
}

} // verus!
