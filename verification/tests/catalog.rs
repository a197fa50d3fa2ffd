use mitewarrior::mite::Mite;
use mitewarrior::mite::customer::Customer;
use mitewarrior::mite::customer::CustomerObject;
use mitewarrior::mite::project::Project;
use mitewarrior::mite::project::ProjectObject;
use mitewarrior::mite::service::Service;
use mitewarrior::mite::service::ServiceObject;

fn customer(id: i64, name: &str) -> CustomerObject {
    CustomerObject { customer: Customer { id, name: name.to_string() } }
}

fn project(id: i64, name: &str, customer_id: Option<i64>) -> ProjectObject {
    ProjectObject { project: Project { id, name: name.to_string(), customer_id } }
}

fn mite(customers: Vec<CustomerObject>, projects: Vec<ProjectObject>) -> Mite {
    Mite::new(
        "key".to_string(),
        "instance".to_string(),
        vec![ServiceObject { service: Service { id: 1, name: "Dev".to_string() } }],
        customers,
        projects,
    )
}

#[test]
fn owned_project_carries_customer_suffix() {
    let m = mite(
        vec![customer(10, "Acme"), customer(11, "Globex")],
        vec![project(1, "Site", Some(11)), project(2, "App", Some(10))],
    );
    assert_eq!(m.project_selection.len(), 2);
    assert_eq!(m.project_selection[0].name, "Site - Globex");
    assert_eq!(m.project_selection[0].id, 1);
    assert_eq!(m.project_selection[0].customer_id, Some(11));
    assert_eq!(m.project_selection[1].name, "App - Acme");
}

#[test]
fn unowned_project_keeps_its_name() {
    let m = mite(vec![customer(10, "Acme")], vec![project(3, "Internal", None)]);
    assert_eq!(m.project_selection[0].name, "Internal");
    assert_eq!(m.project_selection[0].customer_id, None);
}

#[test]
fn unknown_customer_id_keeps_name_alone() {
    let m = mite(vec![customer(10, "Acme")], vec![project(4, "Orphan", Some(99))]);
    assert_eq!(m.project_selection[0].name, "Orphan");
    assert_eq!(m.project_selection[0].customer_id, Some(99));
}

#[test]
fn every_matching_customer_is_appended() {
    let m = mite(
        vec![customer(10, "Acme"), customer(10, "Acme Too")],
        vec![project(5, "Dup", Some(10))],
    );
    assert_eq!(m.project_selection[0].name, "Dup - Acme - Acme Too");
}

#[test]
fn catalog_fields_are_kept() {
    let m = mite(Vec::new(), Vec::new());
    assert_eq!(m.api_key, "key");
    assert_eq!(m.instance, "instance");
    assert_eq!(m.services.len(), 1);
    assert!(m.project_selection.is_empty());
}
