//! Catalog records for customers, who own projects.

use vstd::prelude::*;

use super::service::Service;

verus! {

/// A customer record has the same shape as a service record.
pub type Customer = Service;

/// The wrapper shape catalog data arrives in: one record per object.
#[derive(Debug, Clone)]
pub struct CustomerObject {
    pub customer: Customer,
}

} // verus!
