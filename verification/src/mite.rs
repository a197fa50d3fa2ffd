//! The in-memory catalog index: services, customers and projects as fetched
//! from the billing service, and the selectable project list derived from
//! them.
//!
//! Fetching the catalogs, checking connectivity and submitting finished
//! entries are the caller's work; the records arrive here as plain values.
//! This module's own logic is the derivation of the selectable project
//! list: each project's display name, suffixed with ` - <customer name>`
//! for every customer record whose id the project names as its owner.

pub mod customer;
pub mod project;
pub mod service;

use vstd::prelude::*;

use crate::mite::customer::CustomerObject;
use crate::mite::project::Project;
use crate::mite::project::ProjectObject;
use crate::mite::service::ServiceObject;
use crate::model::project_selection::ProjectSelection;

verus! {

/// The catalog index, built once from externally supplied catalog data and
/// read-only afterward.
#[derive(Debug)]
pub struct Mite {
    pub api_key: String,
    pub instance: String,
    pub services: Vec<ServiceObject>,
    pub customers: Vec<CustomerObject>,
    pub projects: Vec<ProjectObject>,
    pub project_selection: Vec<ProjectSelection>,
}

/// A project's display name after walking the customer catalog: for every
/// record whose id is `cid`, in catalog order, ` - <customer name>` is
/// appended.
pub open spec fn customer_suffixes(
    name: Seq<char>,
    cid: i64,
    customers: Seq<CustomerObject>,
) -> Seq<char>
    decreases customers.len(),
{
    if customers.len() == 0 {
        name
    } else {
        let rest = customer_suffixes(name, cid, customers.drop_last());
        if customers.last().customer.id == cid {
            rest + seq![' ', '-', ' '] + customers.last().customer.name@
        } else {
            rest
        }
    }
}

/// The display name a project gets: its own name, suffixed with the owning
/// customer's name when a customer owns it.
pub open spec fn selection_name_spec(p: Project, customers: Seq<CustomerObject>) -> Seq<char> {
    match p.customer_id {
        None => p.name@,
        Some(cid) => customer_suffixes(p.name@, cid, customers),
    }
}

/// The selectable entry derived from one project record.
pub open spec fn selection_matches(
    sel: ProjectSelection,
    p: Project,
    customers: Seq<CustomerObject>,
) -> bool {
    &&& sel.id == p.id
    &&& sel.customer_id == p.customer_id
    &&& sel.name@ == selection_name_spec(p, customers)
}

impl Mite {
    /// Assemble the catalog index from fetched catalog data and derive the
    /// selectable project list.
    pub fn new(
        api_key: String,
        instance: String,
        services: Vec<ServiceObject>,
        customers: Vec<CustomerObject>,
        projects: Vec<ProjectObject>,
    ) -> (m: Mite)
        ensures
            m.api_key == api_key,
            m.instance == instance,
            m.services == services,
            m.customers == customers,
            m.projects == projects,
            m.project_selection@.len() == projects@.len(),
            forall|i: int|
                0 <= i < projects@.len() ==> selection_matches(
                    #[trigger] m.project_selection@[i],
                    projects@[i].project,
                    customers@,
                ),
    {
        let mut mite = Mite {
            api_key,
            instance,
            services,
            customers,
            projects,
            project_selection: Vec::new(),
        };
        mite.create_project_selection();
        proof {
            assert forall|i: int| 0 <= i < mite.projects@.len() implies selection_matches(
                #[trigger] mite.project_selection@[i],
                mite.projects@[i].project,
                mite.customers@,
            ) by {
                assert(selection_matches(
                    mite.project_selection@[0 + i],
                    mite.projects@[i].project,
                    mite.customers@,
                ));
            }
        }
        mite
    }

    /// Derive the selectable project list from the project and customer
    /// catalogs, appending one entry per project in catalog order.
    pub fn create_project_selection(&mut self)
        ensures
            final (self).api_key == old(self).api_key,
            final (self).instance == old(self).instance,
            final (self).services == old(self).services,
            final (self).customers == old(self).customers,
            final (self).projects == old(self).projects,
            final (self).project_selection@.len() == old(self).project_selection@.len() + old(
                self,
            ).projects@.len(),
            forall|i: int|
                0 <= i < old(self).project_selection@.len() ==> final (self).project_selection@[i]
                    == old(self).project_selection@[i],
            forall|i: int|
                0 <= i < old(self).projects@.len() ==> selection_matches(
                    #[trigger] final (self).project_selection@[old(
                        self,
                    ).project_selection@.len() + i],
                    old(self).projects@[i].project,
                    old(self).customers@,
                ),
    {
        let ghost base = self.project_selection@.len() as int;
        let mut i: usize = 0;
        while i < self.projects.len()
            invariant
                i <= self.projects@.len(),
                self.api_key == old(self).api_key,
                self.instance == old(self).instance,
                self.services == old(self).services,
                self.customers == old(self).customers,
                self.projects == old(self).projects,
                base == old(self).project_selection@.len(),
                self.project_selection@.len() == base + i,
                forall|k: int|
                    0 <= k < base ==> self.project_selection@[k] == old(
                        self,
                    ).project_selection@[k],
                forall|k: int|
                    0 <= k < i ==> selection_matches(
                        #[trigger] self.project_selection@[base + k],
                        old(self).projects@[k].project,
                        old(self).customers@,
                    ),
            decreases self.projects@.len() - i,
        {
            let pid = self.projects[i].project.id;
            let pcid = self.projects[i].project.customer_id;
            let mut name = self.projects[i].project.name.clone();
            if let Some(cid) = pcid {
                let ghost pname = self.projects@[i as int].project.name@;
                let mut j: usize = 0;
                while j < self.customers.len()
                    invariant
                        j <= self.customers@.len(),
                        self.customers == old(self).customers,
                        name@ == customer_suffixes(pname, cid, self.customers@.take(j as int)),
                    decreases self.customers@.len() - j,
                {
                    proof {
                        assert(self.customers@.take(j + 1).drop_last() =~= self.customers@.take(
                            j as int,
                        ));
                        assert(self.customers@.take(j + 1).last() == self.customers@[j as int]);
                    }
                    if self.customers[j].customer.id == cid {
                        name.append(" - ");
                        name.append(self.customers[j].customer.name.as_str());
                        proof {
                            reveal_strlit(" - ");
                            assert(" - "@ =~= seq![' ', '-', ' ']);
                        }
                    }
                    j += 1;
                }
                proof {
                    assert(self.customers@.take(self.customers@.len() as int)
                        =~= self.customers@);
                }
            }
            let sel = ProjectSelection { customer_id: pcid, id: pid, name };
            self.project_selection.push(sel);
            i += 1;
        }
    }
}

} // verus!
